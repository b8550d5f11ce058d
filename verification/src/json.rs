//! The JSON shape of event payloads.
//!
//! An event crosses the outbox boundary as a JSON object whose fields
//! are the event's fields in declaration order; strings are escaped the
//! standard way (`"` and `\` with a backslash, the five named control
//! characters by letter, any other control character as `\u00XX`).
//! The encoder produces exactly [`spec_state_json`]; the decoder for
//! `BoardCreated` payloads inverts it, which is proved as a round trip.

use vstd::prelude::*;

use crate::entity::{BoardState, CommentState};
use crate::errors::ApplicationError;
use crate::events::{
    BoardCommentAdded, BoardCommentAddedV, BoardCreated, BoardCreatedV, BoardEvent, BoardEventV,
    BoardUpdated, BoardUpdatedV,
};
use crate::support::{chars_to_string, string_to_chars};

verus! {

// ------------------------------------------------------------------ //
// Specification of the encoding
// ------------------------------------------------------------------ //

/// The characters escaped by a named two-character escape.
pub open spec fn is_named_escape(c: char) -> bool {
    c == '"' || c == '\\' || c == '\u{8}' || c == '\u{9}' || c == '\u{A}' || c == '\u{C}'
        || c == '\u{D}'
}

/// The letter of a named escape.
pub open spec fn named_escape_code(c: char) -> char {
    if c == '"' {
        '"'
    } else if c == '\\' {
        '\\'
    } else if c == '\u{8}' {
        'b'
    } else if c == '\u{9}' {
        't'
    } else if c == '\u{A}' {
        'n'
    } else if c == '\u{C}' {
        'f'
    } else {
        'r'
    }
}

/// Lowercase hexadecimal digit of a value below 16.
pub open spec fn hex_digit(n: int) -> char {
    if n == 0 {
        '0'
    } else if n == 1 {
        '1'
    } else if n == 2 {
        '2'
    } else if n == 3 {
        '3'
    } else if n == 4 {
        '4'
    } else if n == 5 {
        '5'
    } else if n == 6 {
        '6'
    } else if n == 7 {
        '7'
    } else if n == 8 {
        '8'
    } else if n == 9 {
        '9'
    } else if n == 10 {
        'a'
    } else if n == 11 {
        'b'
    } else if n == 12 {
        'c'
    } else if n == 13 {
        'd'
    } else if n == 14 {
        'e'
    } else {
        'f'
    }
}

/// The escape sequence of one character inside a JSON string.
pub open spec fn esc_char(c: char) -> Seq<char> {
    if is_named_escape(c) {
        seq!['\\', named_escape_code(c)]
    } else if (c as u32) < 0x20 {
        seq!['\\', 'u', '0', '0', hex_digit((c as u32) as int / 16), hex_digit(
            (c as u32) as int % 16,
        )]
    } else {
        seq![c]
    }
}

/// The escaped body of a JSON string.
pub open spec fn esc(s: Seq<char>) -> Seq<char>
    decreases s.len(),
{
    if s.len() == 0 {
        Seq::empty()
    } else {
        esc_char(s[0]) + esc(s.drop_first())
    }
}

/// A JSON string: quoted, escaped body.
pub open spec fn jstr(s: Seq<char>) -> Seq<char> {
    seq!['"'] + esc(s) + seq!['"']
}

/// An optional JSON string: `null` when absent.
pub open spec fn jopt(s: Option<Seq<char>>) -> Seq<char> {
    match s {
        Option::None => "null"@,
        Option::Some(t) => jstr(t),
    }
}

/// An optional board state, rendered by its stable text.
pub open spec fn jopt_board_state(s: Option<BoardState>) -> Seq<char> {
    match s {
        Option::None => "null"@,
        Option::Some(st) => jstr(st.spec_state_text()),
    }
}

/// Payload of a `BoardCreated` event.
pub open spec fn json_created(v: BoardCreatedV) -> Seq<char> {
    "{\"id\":"@ + jstr(v.id) + ",\"author\":"@ + jstr(v.author) + ",\"title\":"@ + jstr(v.title)
        + ",\"content\":"@ + jstr(v.content) + ",\"state\":"@ + jstr(v.state.spec_state_text())
        + "}"@
}

/// Payload of a `BoardUpdated` event.
pub open spec fn json_updated(v: BoardUpdatedV) -> Seq<char> {
    "{\"id\":"@ + jstr(v.id) + ",\"title\":"@ + jopt(v.title) + ",\"content\":"@ + jopt(v.content)
        + ",\"state\":"@ + jopt_board_state(v.state) + "}"@
}

/// Payload of a `BoardCommentAdded` event.
pub open spec fn json_comment_added(v: BoardCommentAddedV) -> Seq<char> {
    "{\"id\":"@ + jstr(v.id) + ",\"author\":"@ + jstr(v.author) + ",\"content\":"@ + jstr(
        v.content,
    ) + ",\"state\":"@ + jstr(v.state.spec_state_text()) + "}"@
}

/// The serialized `state` of an event, by variant.
pub open spec fn spec_state_json(e: BoardEventV) -> Seq<char> {
    match e {
        BoardEventV::Created(v) => json_created(v),
        BoardEventV::Updated(v) => json_updated(v),
        BoardEventV::CommentAdded(v) => json_comment_added(v),
    }
}

// ------------------------------------------------------------------ //
// Encoder
// ------------------------------------------------------------------ //

proof fn lemma_esc_snoc(s: Seq<char>, c: char)
    ensures
        esc(s.push(c)) == esc(s) + esc_char(c),
    decreases s.len(),
{
    if s.len() == 0 {
        assert(s.push(c)[0] == c);
        assert(s.push(c).drop_first() =~= Seq::<char>::empty());
        assert(esc(s.push(c)) == esc_char(c) + esc(Seq::<char>::empty()));
        assert(esc(s.push(c)) =~= esc_char(c));
        assert(esc(s) + esc_char(c) =~= esc_char(c));
    } else {
        assert(s.push(c)[0] == s[0]);
        assert(s.push(c).drop_first() =~= s.drop_first().push(c));
        lemma_esc_snoc(s.drop_first(), c);
        assert(esc(s.push(c)) =~= esc(s) + esc_char(c));
    }
}

fn hex_char(n: u32) -> (r: char)
    requires
        n < 16,
    ensures
        r == hex_digit(n as int),
{
    match n {
        0 => '0',
        1 => '1',
        2 => '2',
        3 => '3',
        4 => '4',
        5 => '5',
        6 => '6',
        7 => '7',
        8 => '8',
        9 => '9',
        10 => 'a',
        11 => 'b',
        12 => 'c',
        13 => 'd',
        14 => 'e',
        _ => 'f',
    }
}

fn push_esc_char(out: &mut Vec<char>, c: char)
    ensures
        final(out)@ == old(out)@ + esc_char(c),
{
    if c == '"' {
        out.push('\\');
        out.push('"');
    } else if c == '\\' {
        out.push('\\');
        out.push('\\');
    } else if c == '\u{8}' {
        out.push('\\');
        out.push('b');
    } else if c == '\u{9}' {
        out.push('\\');
        out.push('t');
    } else if c == '\u{A}' {
        out.push('\\');
        out.push('n');
    } else if c == '\u{C}' {
        out.push('\\');
        out.push('f');
    } else if c == '\u{D}' {
        out.push('\\');
        out.push('r');
    } else if (c as u32) < 0x20 {
        let n = c as u32;
        out.push('\\');
        out.push('u');
        out.push('0');
        out.push('0');
        out.push(hex_char(n / 16));
        out.push(hex_char(n % 16));
    } else {
        out.push(c);
    }
    proof {
        assert(final(out)@ =~= old(out)@ + esc_char(c));
    }
}

/// Appends the characters of `s` unchanged.
fn push_raw(out: &mut Vec<char>, s: &str)
    ensures
        final(out)@ == old(out)@ + s@,
{
    let chars = string_to_chars(s);
    let n = chars.len();
    let mut i: usize = 0;
    while i < n
        invariant
            n == chars.len(),
            i <= n,
            chars@ == s@,
            out@ == old(out)@ + s@.take(i as int),
        decreases n - i,
    {
        out.push(chars[i]);
        proof {
            assert(out@ =~= old(out)@ + s@.take(i as int + 1));
        }
        i = i + 1;
    }
    proof {
        assert(out@ =~= old(out)@ + s@);
    }
}

/// Appends `s` as a JSON string, quoted and escaped.
fn push_jstr(out: &mut Vec<char>, s: &str)
    ensures
        final(out)@ == old(out)@ + jstr(s@),
{
    out.push('"');
    let chars = string_to_chars(s);
    let n = chars.len();
    let mut i: usize = 0;
    while i < n
        invariant
            n == chars.len(),
            i <= n,
            chars@ == s@,
            out@ == old(out)@ + seq!['"'] + esc(s@.take(i as int)),
        decreases n - i,
    {
        push_esc_char(out, chars[i]);
        proof {
            assert(s@.take(i as int).push(s@[i as int]) =~= s@.take(i as int + 1));
            lemma_esc_snoc(s@.take(i as int), s@[i as int]);
        }
        i = i + 1;
    }
    out.push('"');
    proof {
        assert(s@.take(n as int) =~= s@);
        assert(final(out)@ =~= old(out)@ + jstr(s@));
    }
}

/// Appends an optional string: `null` when absent.
fn push_jopt(out: &mut Vec<char>, s: &Option<String>)
    ensures
        final(out)@ == old(out)@ + jopt(
            match s {
                Option::Some(t) => Some(t@),
                Option::None => None,
            },
        ),
{
    match s {
        Option::Some(t) => push_jstr(out, t.as_str()),
        Option::None => push_raw(out, "null"),
    }
}

/// Serializes a `BoardCreated` payload.
pub fn encode_created(e: &BoardCreated) -> (r: String)
    ensures
        r@ == json_created(e@),
{
    let mut out: Vec<char> = Vec::new();
    push_raw(&mut out, "{\"id\":");
    push_jstr(&mut out, e.id.as_str());
    push_raw(&mut out, ",\"author\":");
    push_jstr(&mut out, e.author.as_str());
    push_raw(&mut out, ",\"title\":");
    push_jstr(&mut out, e.title.as_str());
    push_raw(&mut out, ",\"content\":");
    push_jstr(&mut out, e.content.as_str());
    push_raw(&mut out, ",\"state\":");
    push_jstr(&mut out, e.state.state());
    push_raw(&mut out, "}");
    let r = chars_to_string(&out);
    proof {
        assert(r@ =~= json_created(e@));
    }
    r
}

/// Serializes a `BoardUpdated` payload.
pub fn encode_updated(e: &BoardUpdated) -> (r: String)
    ensures
        r@ == json_updated(e@),
{
    let mut out: Vec<char> = Vec::new();
    push_raw(&mut out, "{\"id\":");
    push_jstr(&mut out, e.id.as_str());
    push_raw(&mut out, ",\"title\":");
    push_jopt(&mut out, &e.title);
    push_raw(&mut out, ",\"content\":");
    push_jopt(&mut out, &e.content);
    push_raw(&mut out, ",\"state\":");
    match &e.state {
        Option::Some(st) => push_jstr(&mut out, st.state()),
        Option::None => push_raw(&mut out, "null"),
    }
    push_raw(&mut out, "}");
    let r = chars_to_string(&out);
    proof {
        assert(r@ =~= json_updated(e@));
    }
    r
}

/// Serializes a `BoardCommentAdded` payload.
pub fn encode_comment_added(e: &BoardCommentAdded) -> (r: String)
    ensures
        r@ == json_comment_added(e@),
{
    let mut out: Vec<char> = Vec::new();
    push_raw(&mut out, "{\"id\":");
    push_jstr(&mut out, e.id.as_str());
    push_raw(&mut out, ",\"author\":");
    push_jstr(&mut out, e.author.as_str());
    push_raw(&mut out, ",\"content\":");
    push_jstr(&mut out, e.content.as_str());
    push_raw(&mut out, ",\"state\":");
    push_jstr(&mut out, e.state.state());
    push_raw(&mut out, "}");
    let r = chars_to_string(&out);
    proof {
        assert(r@ =~= json_comment_added(e@));
    }
    r
}

/// Serializes any board event's payload.
pub fn encode_event(e: &BoardEvent) -> (r: String)
    ensures
        r@ == spec_state_json(e@),
{
    match e {
        BoardEvent::Created(v) => encode_created(v),
        BoardEvent::Updated(v) => encode_updated(v),
        BoardEvent::CommentAdded(v) => encode_comment_added(v),
    }
}

// ------------------------------------------------------------------ //
// Specification of the decoding
// ------------------------------------------------------------------ //

/// Value of a hexadecimal digit, or -1.
pub open spec fn hex_val(c: char) -> int {
    if c == '0' {
        0
    } else if c == '1' {
        1
    } else if c == '2' {
        2
    } else if c == '3' {
        3
    } else if c == '4' {
        4
    } else if c == '5' {
        5
    } else if c == '6' {
        6
    } else if c == '7' {
        7
    } else if c == '8' {
        8
    } else if c == '9' {
        9
    } else if c == 'a' {
        10
    } else if c == 'b' {
        11
    } else if c == 'c' {
        12
    } else if c == 'd' {
        13
    } else if c == 'e' {
        14
    } else if c == 'f' {
        15
    } else {
        -1
    }
}

pub open spec fn is_hex(c: char) -> bool {
    hex_val(c) >= 0
}

/// Reads one escaped character at the head of a JSON string body:
/// the decoded character and how many input characters it took.
/// `None` at the closing quote or on any non-canonical input.
pub open spec fn decode_unit(s: Seq<char>) -> Option<(char, int)> {
    if s.len() == 0 {
        None
    } else if s[0] == '"' {
        None
    } else if s[0] == '\\' {
        if s.len() < 2 {
            None
        } else if s[1] == '"' {
            Some(('"', 2))
        } else if s[1] == '\\' {
            Some(('\\', 2))
        } else if s[1] == 'b' {
            Some(('\u{8}', 2))
        } else if s[1] == 't' {
            Some(('\u{9}', 2))
        } else if s[1] == 'n' {
            Some(('\u{A}', 2))
        } else if s[1] == 'f' {
            Some(('\u{C}', 2))
        } else if s[1] == 'r' {
            Some(('\u{D}', 2))
        } else if s[1] == 'u' {
            if s.len() < 6 {
                None
            } else if s[2] == '0' && s[3] == '0' && is_hex(s[4]) && is_hex(s[5]) {
                let n = hex_val(s[4]) * 16 + hex_val(s[5]);
                if n < 0x20 && n != 8 && n != 9 && n != 10 && n != 12 && n != 13 {
                    Some(((n as u32) as char, 6))
                } else {
                    None
                }
            } else {
                None
            }
        } else {
            None
        }
    } else if (s[0] as u32) >= 0x20 {
        Some((s[0], 1))
    } else {
        None
    }
}

/// The body of a JSON string up to and including the closing quote:
/// the unescaped characters and the input length consumed.
pub open spec fn spec_parse_esc(s: Seq<char>) -> Option<(Seq<char>, int)>
    decreases s.len(),
{
    if s.len() == 0 {
        None
    } else if s[0] == '"' {
        Some((Seq::empty(), 1))
    } else {
        match decode_unit(s) {
            None => None,
            Some((c, k)) => if 1 <= k <= s.len() {
                match spec_parse_esc(s.skip(k)) {
                    None => None,
                    Some((u, m)) => Some((seq![c] + u, k + m)),
                }
            } else {
                None
            },
        }
    }
}

/// A whole JSON string at the head of the input.
pub open spec fn spec_parse_jstr(s: Seq<char>) -> Option<(Seq<char>, int)> {
    if s.len() >= 1 && s[0] == '"' {
        match spec_parse_esc(s.skip(1)) {
            None => None,
            Some((u, k)) => Some((u, 1 + k)),
        }
    } else {
        None
    }
}

// ------------------------------------------------------------------ //
// The decoding inverts the encoding
// ------------------------------------------------------------------ //

proof fn lemma_esc_char_shape(c: char)
    ensures
        esc_char(c).len() == 1 || esc_char(c).len() == 2 || esc_char(c).len() == 6,
        esc_char(c)[0] != '"',
{
}

proof fn lemma_hex_digit_val(n: int)
    requires
        0 <= n < 16,
    ensures
        hex_val(hex_digit(n)) == n,
{
}

/// At the head of any continuation, an escape sequence reads back as
/// exactly the character it encodes.
proof fn lemma_decode_esc_char(c: char, tail: Seq<char>)
    ensures
        decode_unit(esc_char(c) + tail) == Some((c, esc_char(c).len() as int)),
{
    let s = esc_char(c) + tail;
    if is_named_escape(c) {
        assert(s[0] == '\\' && s[1] == named_escape_code(c));
    } else if (c as u32) < 0x20 {
        let n = (c as u32) as int;
        assert(s[0] == '\\' && s[1] == 'u' && s[2] == '0' && s[3] == '0');
        assert(s[4] == hex_digit(n / 16) && s[5] == hex_digit(n % 16));
        lemma_hex_digit_val(n / 16);
        lemma_hex_digit_val(n % 16);
        assert(hex_val(s[4]) * 16 + hex_val(s[5]) == n);
        assert(n != 8 && n != 9 && n != 10 && n != 12 && n != 13);
        assert(((n as u32) as char) == c);
    } else {
        assert(s[0] == c && (c as u32) >= 0x20 && c != '"' && c != '\\');
    }
}

/// Decoding consumes exactly the escape sequence of the character it
/// returns.
proof fn lemma_decode_sound(s: Seq<char>)
    requires
        decode_unit(s) is Some,
    ensures
        1 <= decode_unit(s)->Some_0.1 <= s.len(),
        s.take(decode_unit(s)->Some_0.1) == esc_char(decode_unit(s)->Some_0.0),
{
    let (c, k) = decode_unit(s)->Some_0;
    if s[0] == '\\' {
        if s[1] == 'u' {
            let n = hex_val(s[4]) * 16 + hex_val(s[5]);
            assert(c == (n as u32) as char);
            assert(c as u32 == n);
            assert(!is_named_escape(c));
            lemma_hex_digit_val(hex_val(s[4]));
            lemma_hex_digit_val(hex_val(s[5]));
            assert(n / 16 == hex_val(s[4]) && n % 16 == hex_val(s[5])) by (nonlinear_arith)
                requires
                    n == hex_val(s[4]) * 16 + hex_val(s[5]),
                    0 <= hex_val(s[4]) < 16,
                    0 <= hex_val(s[5]) < 16,
            ;
            assert(s.take(6) =~= esc_char(c));
        } else {
            assert(s.take(2) =~= esc_char(c));
        }
    } else {
        assert(s.take(1) =~= esc_char(c));
    }
}

/// Parsing an encoded string body succeeds and consumes exactly the
/// encoding, whatever follows the closing quote.
proof fn lemma_parse_esc_complete(u: Seq<char>, rest: Seq<char>)
    ensures
        spec_parse_esc(esc(u) + seq!['"'] + rest) == Some((u, esc(u).len() as int + 1)),
    decreases u.len(),
{
    let s = esc(u) + seq!['"'] + rest;
    if u.len() == 0 {
        assert(esc(u) =~= Seq::<char>::empty());
        assert(s[0] == '"');
        assert(spec_parse_esc(s) == Some((Seq::<char>::empty(), 1int)));
        assert(u =~= Seq::<char>::empty());
    } else {
        let u1 = u.drop_first();
        let tail = esc(u1) + seq!['"'] + rest;
        assert(esc(u) == esc_char(u[0]) + esc(u1));
        assert(s =~= esc_char(u[0]) + tail);
        lemma_decode_esc_char(u[0], tail);
        lemma_esc_char_shape(u[0]);
        let k = esc_char(u[0]).len() as int;
        assert(s[0] != '"');
        assert(s.len() >= k);
        assert(s.skip(k) =~= tail);
        lemma_parse_esc_complete(u1, rest);
        assert(spec_parse_esc(s) == Some((seq![u[0]] + u1, k + esc(u1).len() as int + 1)));
        assert(seq![u[0]] + u1 =~= u);
        assert(esc(u).len() == k + esc(u1).len());
    }
}

/// Whatever the input, a successful parse of a string body consumed
/// exactly the encoding of what it returned.
proof fn lemma_parse_esc_sound(s: Seq<char>)
    requires
        spec_parse_esc(s) is Some,
    ensures
        1 <= spec_parse_esc(s)->Some_0.1 <= s.len(),
        s.take(spec_parse_esc(s)->Some_0.1) == esc(spec_parse_esc(s)->Some_0.0) + seq!['"'],
    decreases s.len(),
{
    let (u, m) = spec_parse_esc(s)->Some_0;
    if s[0] == '"' {
        assert(s.take(1) =~= esc(Seq::<char>::empty()) + seq!['"']);
    } else {
        let (c, k) = decode_unit(s)->Some_0;
        lemma_decode_sound(s);
        let s1 = s.skip(k);
        lemma_parse_esc_sound(s1);
        let (u1, m1) = spec_parse_esc(s1)->Some_0;
        assert(u == seq![c] + u1 && m == k + m1);
        assert(s.take(m) =~= s.take(k) + s1.take(m1));
        assert(esc(u) == esc_char(u[0]) + esc(u.drop_first()));
        assert(u[0] == c && u.drop_first() =~= u1);
        assert(s.take(m) =~= esc(u) + seq!['"']);
    }
}

/// A JSON string determines itself and where it ends: two encodings
/// that open the same character stream are the same string.
pub proof fn lemma_jstr_prefix(a: Seq<char>, b: Seq<char>, x: Seq<char>, y: Seq<char>)
    requires
        jstr(a) + x == jstr(b) + y,
    ensures
        a == b,
        x == y,
{
    let s = jstr(a) + x;
    assert(s.skip(1) =~= esc(a) + seq!['"'] + x);
    assert((jstr(b) + y).skip(1) =~= esc(b) + seq!['"'] + y);
    lemma_parse_esc_complete(a, x);
    lemma_parse_esc_complete(b, y);
    assert(Some((a, esc(a).len() as int + 1)) == Some((b, esc(b).len() as int + 1)));
    assert(a == b);
    assert(jstr(a).len() == jstr(b).len());
    assert(x =~= s.skip(jstr(a).len() as int));
    assert(y =~= (jstr(b) + y).skip(jstr(b).len() as int));
}

// ------------------------------------------------------------------ //
// Decoder
// ------------------------------------------------------------------ //

fn hex_value(c: char) -> (r: Option<u32>)
    ensures
        r is Some <==> is_hex(c),
        r matches Some(n) ==> n == hex_val(c) && n < 16,
{
    match c {
        '0' => Some(0),
        '1' => Some(1),
        '2' => Some(2),
        '3' => Some(3),
        '4' => Some(4),
        '5' => Some(5),
        '6' => Some(6),
        '7' => Some(7),
        '8' => Some(8),
        '9' => Some(9),
        'a' => Some(10),
        'b' => Some(11),
        'c' => Some(12),
        'd' => Some(13),
        'e' => Some(14),
        'f' => Some(15),
        _ => None,
    }
}

/// Reads one escaped character of a string body at `pos`.
fn read_unit(chars: &Vec<char>, pos: usize) -> (r: Option<(char, usize)>)
    requires
        pos <= chars@.len(),
    ensures
        match decode_unit(chars@.skip(pos as int)) {
            None => r is None,
            Some((c, k)) => r == Some((c, (pos + k) as usize)),
        },
{
    let ghost s = chars@.skip(pos as int);
    let n = chars.len();
    if pos >= n {
        return None;
    }
    let c0 = chars[pos];
    assert(c0 == s[0]);
    if c0 == '"' {
        return None;
    }
    if c0 == '\\' {
        if pos + 1 >= n {
            return None;
        }
        let c1 = chars[pos + 1];
        assert(c1 == s[1]);
        match c1 {
            '"' => Some(('"', pos + 2)),
            '\\' => Some(('\\', pos + 2)),
            'b' => Some(('\u{8}', pos + 2)),
            't' => Some(('\u{9}', pos + 2)),
            'n' => Some(('\u{A}', pos + 2)),
            'f' => Some(('\u{C}', pos + 2)),
            'r' => Some(('\u{D}', pos + 2)),
            'u' => {
                if n - pos < 6 {
                    return None;
                }
                assert(chars@[pos as int + 2] == s[2] && chars@[pos as int + 3] == s[3]);
                assert(chars@[pos as int + 4] == s[4] && chars@[pos as int + 5] == s[5]);
                if !(chars[pos + 2] == '0' && chars[pos + 3] == '0') {
                    return None;
                }
                let h1 = match hex_value(chars[pos + 4]) {
                    Some(v) => v,
                    None => {
                        return None;
                    },
                };
                let h2 = match hex_value(chars[pos + 5]) {
                    Some(v) => v,
                    None => {
                        return None;
                    },
                };
                let code = h1 * 16 + h2;
                if code < 0x20 && code != 8 && code != 9 && code != 10 && code != 12 && code != 13 {
                    Some(((code as u8) as char, pos + 6))
                } else {
                    None
                }
            },
            _ => None,
        }
    } else if (c0 as u32) >= 0x20 {
        Some((c0, pos + 1))
    } else {
        None
    }
}

/// Parses a complete JSON string starting at `pos`; returns its
/// unescaped characters and the position just past the closing quote.
fn parse_jstr_at(chars: &Vec<char>, pos: usize) -> (r: Option<(Vec<char>, usize)>)
    requires
        pos <= chars@.len(),
    ensures
        match spec_parse_jstr(chars@.skip(pos as int)) {
            None => r is None,
            Some((u, k)) => r matches Some((v, end)) && v@ == u && end == pos + k,
        },
{
    let ghost s0 = chars@.skip(pos as int);
    let n = chars.len();
    if pos >= n {
        return None;
    }
    if chars[pos] != '"' {
        assert(s0[0] != '"');
        return None;
    }
    let start = pos + 1;
    let ghost body = chars@.skip(start as int);
    assert(body =~= s0.skip(1));
    let mut acc: Vec<char> = Vec::new();
    let mut i: usize = start;
    loop
        invariant
            start <= i <= n,
            n == chars@.len(),
            body == chars@.skip(start as int),
            s0 == chars@.skip(pos as int),
            pos < n,
            s0[0] == '"',
            body =~= s0.skip(1),
            match spec_parse_esc(chars@.skip(i as int)) {
                None => spec_parse_esc(body) is None,
                Some((u2, m)) => spec_parse_esc(body) == Some(
                    (acc@ + u2, i - start + m),
                ),
            },
        decreases n - i,
    {
        let ghost si = chars@.skip(i as int);
        if i >= n {
            assert(si.len() == 0);
            assert(spec_parse_esc(si) is None);
            return None;
        }
        let c = chars[i];
        assert(c == si[0]);
        if c == '"' {
            assert(spec_parse_esc(si) == Some((Seq::<char>::empty(), 1int)));
            proof {
                assert(acc@ + Seq::<char>::empty() =~= acc@);
            }
            assert(spec_parse_esc(body) == Some((acc@, i - start + 1)));
            assert(spec_parse_jstr(s0) == Some((acc@, 1 + (i - start + 1))));
            return Some((acc, i + 1));
        }
        match read_unit(chars, i) {
            None => {
                assert(decode_unit(si) is None);
                assert(spec_parse_esc(si) is None);
                return None;
            },
            Some((c2, npos)) => {
                proof {
                    lemma_decode_sound(si);
                    assert(decode_unit(si) == Some((c2, npos - i)));
                    assert(chars@.skip(npos as int) =~= si.skip(npos - i));
                    assert(spec_parse_esc(si) == match spec_parse_esc(si.skip(npos - i)) {
                        None => None::<(Seq<char>, int)>,
                        Some((u3, m3)) => Some((seq![c2] + u3, (npos - i) + m3)),
                    });
                    if spec_parse_esc(chars@.skip(npos as int)) is Some {
                        let (u3, m3) = spec_parse_esc(chars@.skip(npos as int))->Some_0;
                        assert(acc@ + (seq![c2] + u3) =~= acc@.push(c2) + u3);
                    }
                }
                acc.push(c2);
                i = npos;
            },
        }
    }
}

/// Compares a parsed text with a state name and yields the state.
fn board_state_of_text(text: &Vec<char>) -> (r: Option<BoardState>)
    ensures
        r matches Some(st) ==> text@ == st.spec_state_text(),
        r is None ==> forall|st: BoardState| text@ != st.spec_state_text(),
{
    let s = chars_to_string(text);
    if s.eq(&String::from_str("Unpublished")) {
        Some(BoardState::Unpublished)
    } else if s.eq(&String::from_str("Published")) {
        Some(BoardState::Published)
    } else if s.eq(&String::from_str("Deleted")) {
        Some(BoardState::Deleted)
    } else {
        proof {
            assert(forall|st: BoardState| text@ != st.spec_state_text()) by {
                assert(text@ != BoardState::Unpublished.spec_state_text());
                assert(text@ != BoardState::Published.spec_state_text());
                assert(text@ != BoardState::Deleted.spec_state_text());
            }
        }
        None
    }
}

/// Checks that the input continues with the given literal at `pos`.
fn expect_raw(chars: &Vec<char>, pos: usize, lit: &str) -> (r: Option<usize>)
    requires
        pos <= chars@.len(),
    ensures
        r matches Some(np) ==> np == pos + lit@.len() && np <= chars@.len() && chars@.subrange(
            pos as int,
            np as int,
        ) == lit@,
        r is None ==> !(pos + lit@.len() <= chars@.len() && chars@.subrange(
            pos as int,
            pos + lit@.len(),
        ) == lit@),
{
    let lit_chars = string_to_chars(lit);
    let m = lit_chars.len();
    let n = chars.len();
    if m > n - pos {
        return None;
    }
    let mut j: usize = 0;
    while j < m
        invariant
            j <= m,
            m == lit_chars@.len(),
            lit_chars@ == lit@,
            pos + m <= n,
            n == chars@.len(),
            forall|t: int| 0 <= t < j ==> chars@[pos + t] == lit@[t],
        decreases m - j,
    {
        if chars[pos + j] != lit_chars[j] {
            assert(chars@.subrange(pos as int, pos + lit@.len()) != lit@) by {
                assert(chars@.subrange(pos as int, pos + lit@.len())[j as int] != lit@[j as int]);
            }
            return None;
        }
        j = j + 1;
    }
    proof {
        assert(chars@.subrange(pos as int, pos + lit@.len()) =~= lit@);
    }
    Some(pos + m)
}

proof fn lemma_parse_jstr_complete(u: Seq<char>, rest: Seq<char>)
    ensures
        spec_parse_jstr(jstr(u) + rest) == Some((u, jstr(u).len() as int)),
{
    let s = jstr(u) + rest;
    assert(s[0] == '"');
    assert(s.skip(1) =~= esc(u) + seq!['"'] + rest);
    lemma_parse_esc_complete(u, rest);
    assert(jstr(u).len() == esc(u).len() + 2);
}

proof fn lemma_parse_jstr_sound(s: Seq<char>)
    requires
        spec_parse_jstr(s) is Some,
    ensures
        2 <= spec_parse_jstr(s)->Some_0.1 <= s.len(),
        s.take(spec_parse_jstr(s)->Some_0.1) == jstr(spec_parse_jstr(s)->Some_0.0),
{
    let (u, k) = spec_parse_jstr(s)->Some_0;
    lemma_parse_esc_sound(s.skip(1));
    assert(s.take(k) =~= seq!['"'] + s.skip(1).take(k - 1));
    assert(s.take(k) =~= jstr(u));
}


proof fn lemma_lit_peel(lit: Seq<char>, x: Seq<char>, y: Seq<char>)
    requires
        lit + x == lit + y,
    ensures
        x == y,
{
    assert(x =~= (lit + x).skip(lit.len() as int));
    assert(y =~= (lit + y).skip(lit.len() as int));
}

proof fn lemma_peel_field(lit: Seq<char>, a: Seq<char>, b: Seq<char>, x: Seq<char>, y: Seq<char>)
    requires
        lit + (jstr(a) + x) == lit + (jstr(b) + y),
    ensures
        a == b,
        x == y,
{
    lemma_lit_peel(lit, jstr(a) + x, jstr(b) + y);
    lemma_jstr_prefix(a, b, x, y);
}

/// Reads a literal key fragment followed by one JSON string.
fn parse_field(chars: &Vec<char>, pos: usize, lit: &str) -> (r: Option<(Vec<char>, usize)>)
    requires
        pos <= chars@.len(),
    ensures
        r matches Some((v, end)) ==> pos <= end <= chars@.len() && chars@.subrange(
            pos as int,
            end as int,
        ) == lit@ + jstr(v@),
        forall|u: Seq<char>, rest: Seq<char>|
            chars@.skip(pos as int) == #[trigger] (lit@ + jstr(u) + rest) ==> r is Some,
{
    let p = match expect_raw(chars, pos, lit) {
        Some(p) => p,
        None => {
            proof {
                assert forall|u: Seq<char>, rest: Seq<char>|
                    chars@.skip(pos as int) == #[trigger] (lit@ + jstr(u) + rest) implies false by {
                    assert(chars@.skip(pos as int).len() == chars@.len() - pos);
                    assert(pos + lit@.len() <= chars@.len());
                    assert(chars@.subrange(pos as int, pos + lit@.len()) =~= lit@);
                }
            }
            return None;
        },
    };
    let res = parse_jstr_at(chars, p);
    match res {
        Some((v, end)) => {
            proof {
                lemma_parse_jstr_sound(chars@.skip(p as int));
                assert(chars@.subrange(p as int, end as int) =~= chars@.skip(p as int).take(
                    end - p,
                ));
                assert(chars@.subrange(pos as int, end as int) =~= chars@.subrange(
                    pos as int,
                    p as int,
                ) + chars@.subrange(p as int, end as int));
            }
            Some((v, end))
        },
        None => {
            proof {
                assert forall|u: Seq<char>, rest: Seq<char>|
                    chars@.skip(pos as int) == #[trigger] (lit@ + jstr(u) + rest) implies false by {
                    assert(chars@.skip(p as int) =~= chars@.skip(pos as int).skip(
                        lit@.len() as int,
                    ));
                    assert((lit@ + jstr(u) + rest).skip(lit@.len() as int) =~= jstr(u) + rest);
                    lemma_parse_jstr_complete(u, rest);
                }
            }
            None
        },
    }
}

} // verus!

verus! {

/// `json_created` regrouped to the right, one field at a time.
proof fn lemma_jc_shape(v: BoardCreatedV)
    ensures
        json_created(v) == "{\"id\":"@ + (jstr(v.id) + (",\"author\":"@ + (jstr(v.author) + (
        ",\"title\":"@ + (jstr(v.title) + (",\"content\":"@ + (jstr(v.content) + (",\"state\":"@
            + (jstr(v.state.spec_state_text()) + "}"@))))))))),
{
    assert(json_created(v) =~= "{\"id\":"@ + (jstr(v.id) + (",\"author\":"@ + (jstr(v.author) + (
    ",\"title\":"@ + (jstr(v.title) + (",\"content\":"@ + (jstr(v.content) + (",\"state\":"@ + (
    jstr(v.state.spec_state_text()) + "}"@))))))))));
}

/// Two equal `BoardCreated` payloads come from the same event value.
pub proof fn lemma_json_created_injective(a: BoardCreatedV, b: BoardCreatedV)
    requires
        json_created(a) == json_created(b),
    ensures
        a == b,
{
    lemma_jc_shape(a);
    lemma_jc_shape(b);
    let sta = jstr(a.state.spec_state_text()) + "}"@;
    let stb = jstr(b.state.spec_state_text()) + "}"@;
    let ca = jstr(a.content) + (",\"state\":"@ + sta);
    let cb = jstr(b.content) + (",\"state\":"@ + stb);
    let ta = jstr(a.title) + (",\"content\":"@ + ca);
    let tb = jstr(b.title) + (",\"content\":"@ + cb);
    let aa = jstr(a.author) + (",\"title\":"@ + ta);
    let ab = jstr(b.author) + (",\"title\":"@ + tb);
    let ia = jstr(a.id) + (",\"author\":"@ + aa);
    let ib = jstr(b.id) + (",\"author\":"@ + ab);
    lemma_lit_peel("{\"id\":"@, ia, ib);
    lemma_jstr_prefix(a.id, b.id, ",\"author\":"@ + aa, ",\"author\":"@ + ab);
    lemma_lit_peel(",\"author\":"@, aa, ab);
    lemma_jstr_prefix(a.author, b.author, ",\"title\":"@ + ta, ",\"title\":"@ + tb);
    lemma_lit_peel(",\"title\":"@, ta, tb);
    lemma_jstr_prefix(a.title, b.title, ",\"content\":"@ + ca, ",\"content\":"@ + cb);
    lemma_lit_peel(",\"content\":"@, ca, cb);
    lemma_jstr_prefix(a.content, b.content, ",\"state\":"@ + sta, ",\"state\":"@ + stb);
    lemma_lit_peel(",\"state\":"@, sta, stb);
    lemma_jstr_prefix(a.state.spec_state_text(), b.state.spec_state_text(), "}"@, "}"@);
    reveal_strlit("Unpublished");
    reveal_strlit("Published");
    reveal_strlit("Deleted");
    assert(a.state == b.state);
    assert(a =~= b);
}


/// The failure every malformed payload surfaces.
fn malformed_payload() -> (e: ApplicationError)
    ensures
        e is DeserializationError,
{
    ApplicationError::DeserializationError("not a BoardCreated payload".to_owned())
}

/// Deserializes a `BoardCreated` payload.  Succeeds exactly on the
/// strings [`json_created`] produces, and then returns the event the
/// string encodes.
pub fn decode_created(s: &str) -> (r: Result<BoardCreated, ApplicationError>)
    ensures
        r matches Ok(e) ==> s@ == json_created(e@),
        (exists|v: BoardCreatedV| s@ == json_created(v)) ==> r is Ok,
        r matches Err(e) ==> e is DeserializationError,
{
    match decode_created_fields(s) {
        Ok(e) => Ok(e),
        Err(_) => Err(malformed_payload()),
    }
}

/// The field-by-field pass over the payload.
#[verifier::rlimit(100)]
#[verifier::spinoff_prover]
fn decode_created_fields(s: &str) -> (r: Result<BoardCreated, ApplicationError>)
    ensures
        r matches Ok(e) ==> s@ == json_created(e@),
        (exists|v: BoardCreatedV| s@ == json_created(v)) ==> r is Ok,
{
    let chars = string_to_chars(s);
    let ghost well_formed = exists|v: BoardCreatedV| s@ == json_created(v);
    let ghost w: BoardCreatedV = choose|v: BoardCreatedV| s@ == json_created(v);
    let ghost w5 = "}"@;
    let ghost w4 = ",\"state\":"@ + (jstr(w.state.spec_state_text()) + w5);
    let ghost w3 = ",\"content\":"@ + (jstr(w.content) + w4);
    let ghost w2 = ",\"title\":"@ + (jstr(w.title) + w3);
    let ghost w1 = ",\"author\":"@ + (jstr(w.author) + w2);

    proof {
        if well_formed {
            lemma_jc_shape(w);
            assert(chars@.skip(0) =~= chars@);
            assert(chars@.skip(0) == "{\"id\":"@ + (jstr(w.id) + w1));
            assert(chars@.skip(0) =~= "{\"id\":"@ + jstr(w.id) + w1);
        }
    }
    let (id_chars, p2) = match parse_field(&chars, 0, "{\"id\":") {
        Some(x) => x,
        None => {
            proof {
                if well_formed {
                    assert(false);
                }
            }
            return Err(malformed_payload());
        },
    };
    proof {
        if well_formed {
            assert(chars@.skip(0) =~= ("{\"id\":"@ + jstr(id_chars@)) + chars@.skip(p2 as int));
            assert("{\"id\":"@ + (jstr(id_chars@) + chars@.skip(p2 as int)) =~= ("{\"id\":"@
                + jstr(id_chars@)) + chars@.skip(p2 as int));
            lemma_peel_field("{\"id\":"@, id_chars@, w.id, chars@.skip(p2 as int), w1);
            assert(chars@.skip(p2 as int) =~= ",\"author\":"@ + jstr(w.author) + w2);
        }
    }
    let (author_chars, p4) = match parse_field(&chars, p2, ",\"author\":") {
        Some(x) => x,
        None => {
            proof {
                if well_formed {
                    assert(false);
                }
            }
            return Err(malformed_payload());
        },
    };
    proof {
        if well_formed {
            assert(chars@.skip(p2 as int) =~= (",\"author\":"@ + jstr(author_chars@))
                + chars@.skip(p4 as int));
            assert(",\"author\":"@ + (jstr(author_chars@) + chars@.skip(p4 as int))
                =~= (",\"author\":"@ + jstr(author_chars@)) + chars@.skip(p4 as int));
            assert(",\"author\":"@ + (jstr(w.author) + w2) =~= ",\"author\":"@ + jstr(w.author)
                + w2);
            lemma_peel_field(",\"author\":"@, author_chars@, w.author, chars@.skip(p4 as int), w2);
            assert(chars@.skip(p4 as int) =~= ",\"title\":"@ + jstr(w.title) + w3);
        }
    }
    let (title_chars, p6) = match parse_field(&chars, p4, ",\"title\":") {
        Some(x) => x,
        None => {
            proof {
                if well_formed {
                    assert(false);
                }
            }
            return Err(malformed_payload());
        },
    };
    proof {
        if well_formed {
            assert(chars@.skip(p4 as int) =~= (",\"title\":"@ + jstr(title_chars@)) + chars@.skip(
                p6 as int,
            ));
            assert(",\"title\":"@ + (jstr(title_chars@) + chars@.skip(p6 as int))
                =~= (",\"title\":"@ + jstr(title_chars@)) + chars@.skip(p6 as int));
            assert(",\"title\":"@ + (jstr(w.title) + w3) =~= ",\"title\":"@ + jstr(w.title) + w3);
            lemma_peel_field(",\"title\":"@, title_chars@, w.title, chars@.skip(p6 as int), w3);
            assert(chars@.skip(p6 as int) =~= ",\"content\":"@ + jstr(w.content) + w4);
        }
    }
    let (content_chars, p8) = match parse_field(&chars, p6, ",\"content\":") {
        Some(x) => x,
        None => {
            proof {
                if well_formed {
                    assert(false);
                }
            }
            return Err(malformed_payload());
        },
    };
    proof {
        if well_formed {
            assert(chars@.skip(p6 as int) =~= (",\"content\":"@ + jstr(content_chars@))
                + chars@.skip(p8 as int));
            assert(",\"content\":"@ + (jstr(content_chars@) + chars@.skip(p8 as int))
                =~= (",\"content\":"@ + jstr(content_chars@)) + chars@.skip(p8 as int));
            assert(",\"content\":"@ + (jstr(w.content) + w4) =~= ",\"content\":"@ + jstr(w.content)
                + w4);
            lemma_peel_field(
                ",\"content\":"@,
                content_chars@,
                w.content,
                chars@.skip(p8 as int),
                w4,
            );
            assert(chars@.skip(p8 as int) =~= ",\"state\":"@ + jstr(w.state.spec_state_text())
                + w5);
        }
    }
    let (state_chars, p10) = match parse_field(&chars, p8, ",\"state\":") {
        Some(x) => x,
        None => {
            proof {
                if well_formed {
                    assert(false);
                }
            }
            return Err(malformed_payload());
        },
    };
    proof {
        if well_formed {
            assert(chars@.skip(p8 as int) =~= (",\"state\":"@ + jstr(state_chars@)) + chars@.skip(
                p10 as int,
            ));
            assert(",\"state\":"@ + (jstr(state_chars@) + chars@.skip(p10 as int))
                =~= (",\"state\":"@ + jstr(state_chars@)) + chars@.skip(p10 as int));
            assert(",\"state\":"@ + (jstr(w.state.spec_state_text()) + w5) =~= ",\"state\":"@
                + jstr(w.state.spec_state_text()) + w5);
            lemma_peel_field(
                ",\"state\":"@,
                state_chars@,
                w.state.spec_state_text(),
                chars@.skip(p10 as int),
                w5,
            );
            assert(chars@.skip(p10 as int) =~= "}"@);
        }
    }
    let state = match board_state_of_text(&state_chars) {
        Some(st) => st,
        None => {
            proof {
                if well_formed {
                    assert(state_chars@ != w.state.spec_state_text());
                    assert(false);
                }
            }
            return Err(malformed_payload());
        },
    };
    let p11 = match expect_raw(&chars, p10, "}") {
        Some(p) => p,
        None => {
            proof {
                if well_formed {
                    reveal_strlit("}");
                    assert(p10 + "}"@.len() <= chars@.len());
                    assert(chars@.subrange(p10 as int, p10 + "}"@.len()) =~= "}"@);
                    assert(false);
                }
            }
            return Err(malformed_payload());
        },
    };
    if p11 != chars.len() {
        proof {
            if well_formed {
                reveal_strlit("}");
                assert(false);
            }
        }
        return Err(malformed_payload());
    }
    let e = BoardCreated {
        id: chars_to_string(&id_chars),
        author: chars_to_string(&author_chars),
        title: chars_to_string(&title_chars),
        content: chars_to_string(&content_chars),
        state,
    };
    proof {
        assert(chars@.skip(p10 as int) =~= chars@.subrange(p10 as int, p11 as int));
        assert(chars@.skip(p8 as int) =~= chars@.subrange(p8 as int, p10 as int) + chars@.skip(
            p10 as int,
        ));
        assert(chars@.skip(p8 as int) =~= ",\"state\":"@ + (jstr(state_chars@) + "}"@));
        assert(chars@.skip(p6 as int) =~= chars@.subrange(p6 as int, p8 as int) + chars@.skip(
            p8 as int,
        ));
        assert(chars@.skip(p6 as int) =~= ",\"content\":"@ + (jstr(content_chars@) + (
        ",\"state\":"@ + (jstr(state_chars@) + "}"@))));
        assert(chars@.skip(p4 as int) =~= chars@.subrange(p4 as int, p6 as int) + chars@.skip(
            p6 as int,
        ));
        assert(chars@.skip(p4 as int) =~= ",\"title\":"@ + (jstr(title_chars@) + (",\"content\":"@
            + (jstr(content_chars@) + (",\"state\":"@ + (jstr(state_chars@) + "}"@))))));
        assert(chars@.skip(p2 as int) =~= chars@.subrange(p2 as int, p4 as int) + chars@.skip(
            p4 as int,
        ));
        assert(chars@.skip(p2 as int) =~= ",\"author\":"@ + (jstr(author_chars@) + (",\"title\":"@
            + (jstr(title_chars@) + (",\"content\":"@ + (jstr(content_chars@) + (",\"state\":"@ + (
        jstr(state_chars@) + "}"@))))))));
        assert(chars@ =~= chars@.subrange(0, p2 as int) + chars@.skip(p2 as int));
        assert(chars@ =~= "{\"id\":"@ + (jstr(id_chars@) + (",\"author\":"@ + (jstr(author_chars@)
            + (",\"title\":"@ + (jstr(title_chars@) + (",\"content\":"@ + (jstr(content_chars@) + (
        ",\"state\":"@ + (jstr(state_chars@) + "}"@))))))))));
        lemma_jc_shape(e@);
        assert(state_chars@ == e@.state.spec_state_text());
        assert(s@ == json_created(e@));
    }
    Ok(e)
}

} // verus!
