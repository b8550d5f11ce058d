//! Startup composition: the handler registries, built once by explicit
//! registration, and the bus assembled from them.
//!
//! Each command type has exactly one handler; registering a second one
//! for the same type is a programming error at startup and is ruled
//! out.  A topic's event handlers accumulate in registration order and
//! are invoked in that order.

use vstd::prelude::*;

use crate::commands::{CommandKind, ServiceResponse};
use crate::errors::ApplicationError;
use crate::messagebus::{bus_wf, MessageBus};

verus! {

/// Injectable collaborators a handler may ask for at startup.
pub struct Dependency;

impl Dependency {
    pub fn new() -> (r: Dependency) {
        Dependency
    }

    /// A stand-in collaborator: accepts its inputs and reports nothing.
    pub fn some_dependency(&self) -> (r: ServiceResponse)
        ensures
            r@ is Empty,
    {
        ServiceResponse::Empty(())
    }
}

/// The registered command handlers, by name: the dispatch table's
/// closed sum in place of boxed function objects.
#[derive(Clone, Copy, PartialEq, Eq, Structural, Debug)]
pub enum CommandHandlerKind {
    CreateBoard,
    EditBoard,
    AddComment,
    EditComment,
    HandleOutbox,
}

/// The registered event handlers, by name.  The first two are the
/// stand-ins registered for `BoardCreated`; a `StopHandler` signals the
/// sentinel that truncates the remaining handlers of its event; a
/// `FailingHandler` fails, which is logged and skipped.
#[derive(Clone, Copy, PartialEq, Eq, Structural, Debug)]
pub enum EventHandlerKind {
    TestEventHandler,
    TestEventHandler2,
    StopHandler,
    FailingHandler,
}

/// The handler that serves a command type.
pub open spec fn handler_matches(k: CommandKind, h: CommandHandlerKind) -> bool {
    match k {
        CommandKind::CreateBoard => h is CreateBoard,
        CommandKind::EditBoard => h is EditBoard,
        CommandKind::AddComment => h is AddComment,
        CommandKind::EditComment => h is EditComment,
        CommandKind::HandleOutbox => h is HandleOutbox,
    }
}

/// The command registry: a command's runtime type resolves to exactly
/// one handler.
pub struct CommandHandlerMap {
    pub entries: Vec<(CommandKind, CommandHandlerKind)>,
}

impl CommandHandlerMap {
    pub open spec fn spec_registered(self, k: CommandKind) -> bool {
        exists|i: int| 0 <= i < self.entries@.len() && (#[trigger] self.entries@[i]).0 == k
    }

    /// Every registered handler is the one for its command type.
    pub open spec fn wf(self) -> bool {
        forall|i: int|
            0 <= i < self.entries@.len() ==> handler_matches(
                (#[trigger] self.entries@[i]).0,
                self.entries@[i].1,
            )
    }

    pub fn new() -> (r: CommandHandlerMap)
        ensures
            r.entries@.len() == 0,
            r.wf(),
    {
        CommandHandlerMap { entries: Vec::new() }
    }

    /// Registers the handler for a command type; a duplicate
    /// registration for the same type is a startup programming error,
    /// so it is ruled out here.
    pub fn register_command(&mut self, kind: CommandKind, handler: CommandHandlerKind)
        requires
            !old(self).spec_registered(kind),
        ensures
            final(self).entries@ == old(self).entries@.push((kind, handler)),
    {
        self.entries.push((kind, handler));
    }

    /// Resolves a command type to its handler; an unregistered type is
    /// the routing failure that aborts the invocation.
    pub fn lookup_command(&self, kind: CommandKind) -> (r: Result<
        CommandHandlerKind,
        ApplicationError,
    >)
        ensures
            match r {
                Ok(h) => exists|i: int|
                    0 <= i < self.entries@.len() && (#[trigger] self.entries@[i]).0 == kind
                        && self.entries@[i].1 == h,
                Err(e) => e is CommandNotFound && !self.spec_registered(kind),
            },
    {
        let n = self.entries.len();
        let mut i: usize = 0;
        while i < n
            invariant
                i <= n,
                n == self.entries@.len(),
                forall|j: int| 0 <= j < i ==> (#[trigger] self.entries@[j]).0 != kind,
            decreases n - i,
        {
            if self.entries[i].0 == kind {
                return Ok(self.entries[i].1);
            }
            i = i + 1;
        }
        Err(ApplicationError::CommandNotFound)
    }
}

/// First-match lookup over the event registry's entries.
pub open spec fn spec_lookup_at(
    es: Seq<(String, Vec<EventHandlerKind>)>,
    topic: Seq<char>,
) -> Option<Seq<EventHandlerKind>>
    decreases es.len(),
{
    if es.len() == 0 {
        None
    } else if es[0].0@ == topic {
        Some(es[0].1@)
    } else {
        spec_lookup_at(es.drop_first(), topic)
    }
}

/// The event registry: a topic resolves to the handlers registered for
/// it, in registration order.
pub struct EventHandlerMap {
    pub entries: Vec<(String, Vec<EventHandlerKind>)>,
}

impl EventHandlerMap {
    pub open spec fn spec_lookup(self, topic: Seq<char>) -> Option<Seq<EventHandlerKind>> {
        spec_lookup_at(self.entries@, topic)
    }

    pub fn new() -> (r: EventHandlerMap)
        ensures
            r.entries@.len() == 0,
            forall|t: Seq<char>| #[trigger] r.spec_lookup(t) is None,
    {
        EventHandlerMap { entries: Vec::new() }
    }

    /// Appends a handler under the topic, after any already registered
    /// for it; other topics are untouched.
    #[verifier::loop_isolation(false)]
    pub fn register_event(&mut self, topic: String, handler: EventHandlerKind)
        ensures
            final(self).spec_lookup(topic@) == Some(
                match old(self).spec_lookup(topic@) {
                    Some(hs) => hs.push(handler),
                    None => seq![handler],
                },
            ),
            forall|t: Seq<char>|
                t != topic@ ==> #[trigger] final(self).spec_lookup(t) == old(self).spec_lookup(t),
    {
        let ghost es0 = self.entries@;
        let n = self.entries.len();
        let mut i: usize = 0;
        while i < n
            invariant
                i <= n,
                n == self.entries@.len(),
                self.entries@ == es0,
                forall|j: int| 0 <= j < i ==> (#[trigger] es0[j]).0@ != topic@,
            decreases n - i,
        {
            if self.entries[i].0.eq(&topic) {
                let ghost hs0 = self.entries@[i as int].1@;
                let slot = &mut self.entries[i].1;
                slot.push(handler);
                proof {
                    assert(self.entries@[i as int].1@ == hs0.push(handler));
                    assert(self.entries@[i as int].0@ == topic@);
                    assert(self.entries@.len() == es0.len());
                    assert(forall|j: int|
                        0 <= j < es0.len() && j != i ==> self.entries@[j] == es0[j]);
                    lemma_lookup_update_found(es0, self.entries@, topic@, i as int, hs0, handler);
                    assert(spec_lookup_at(es0, topic@) == Some(hs0));
                    assert(spec_lookup_at(self.entries@, topic@) == Some(hs0.push(handler)));
                    assert forall|t: Seq<char>| t != topic@ implies #[trigger] spec_lookup_at(
                        self.entries@,
                        t,
                    ) == spec_lookup_at(es0, t) by {
                        lemma_lookup_same_until(es0, self.entries@, t, i as int);
                    }
                }
                return ;
            }
            i = i + 1;
        }
        let ghost pre = self.entries@;
        let fresh = handler_singleton(handler);
        let ghost topicv = topic@;
        self.entries.push((topic, fresh));
        proof {
            let e = self.entries@[pre.len() as int];
            assert(self.entries@ =~= pre.push(e));
            assert(e.0@ == topicv && e.1@ =~= seq![handler]);
            lemma_lookup_append(pre, topicv, e.1@);
            assert(spec_lookup_at(pre, topicv) is None);
            assert(spec_lookup_at(self.entries@, topicv) == Some(e.1@));
            assert(e.1@ == seq![handler]);
            assert forall|t: Seq<char>| t != topicv implies #[trigger] spec_lookup_at(
                self.entries@,
                t,
            ) == spec_lookup_at(pre, t) by {
                lemma_lookup_append_other(pre, e, t);
            }
        }
    }

    /// Resolves a topic to a copy of its handler list; a topic nobody
    /// registered for is a routing miss the drain loop skips over.
    pub fn lookup_event(&self, topic: &String) -> (r: Result<Vec<EventHandlerKind>, ApplicationError>)
        ensures
            match r {
                Ok(hs) => self.spec_lookup(topic@) == Some(hs@),
                Err(e) => e is EventNotFound && self.spec_lookup(topic@) is None,
            },
    {
        let n = self.entries.len();
        let mut i: usize = 0;
        proof {
            assert(self.entries@.skip(0) =~= self.entries@);
        }
        while i < n
            invariant
                i <= n,
                n == self.entries@.len(),
                spec_lookup_at(self.entries@.skip(i as int), topic@) == self.spec_lookup(topic@),
            decreases n - i,
        {
            proof {
                assert(self.entries@.skip(i as int)[0] == self.entries@[i as int]);
                assert(self.entries@.skip(i as int).drop_first() =~= self.entries@.skip(
                    i as int + 1,
                ));
            }
            if self.entries[i].0.eq(topic) {
                let source = &self.entries[i].1;
                let m = source.len();
                let mut hs: Vec<EventHandlerKind> = Vec::new();
                let mut k: usize = 0;
                while k < m
                    invariant
                        k <= m,
                        m == source@.len(),
                        hs@ == source@.take(k as int),
                    decreases m - k,
                {
                    hs.push(source[k]);
                    proof {
                        assert(hs@ =~= source@.take(k as int + 1));
                    }
                    k = k + 1;
                }
                proof {
                    assert(hs@ =~= source@);
                }
                return Ok(hs);
            }
            i = i + 1;
        }
        proof {
            assert(self.entries@.skip(n as int) =~= Seq::<(String, Vec<EventHandlerKind>)>::empty());
        }
        Err(ApplicationError::EventNotFound)
    }
}

/// One handler in a fresh list.
fn handler_singleton(handler: EventHandlerKind) -> (r: Vec<EventHandlerKind>)
    ensures
        r@ == seq![handler],
{
    let mut r: Vec<EventHandlerKind> = Vec::new();
    r.push(handler);
    proof {
        assert(r@ =~= seq![handler]);
    }
    r
}

proof fn lemma_lookup_update_found(
    es0: Seq<(String, Vec<EventHandlerKind>)>,
    es1: Seq<(String, Vec<EventHandlerKind>)>,
    topic: Seq<char>,
    i: int,
    hs0: Seq<EventHandlerKind>,
    handler: EventHandlerKind,
)
    requires
        0 <= i < es0.len(),
        es1.len() == es0.len(),
        forall|j: int| 0 <= j < es0.len() && j != i ==> es1[j] == es0[j],
        forall|j: int| 0 <= j < i ==> (#[trigger] es0[j]).0@ != topic,
        es0[i].0@ == topic,
        es0[i].1@ == hs0,
        es1[i].0@ == topic,
        es1[i].1@ == hs0.push(handler),
    ensures
        spec_lookup_at(es0, topic) == Some(hs0),
        spec_lookup_at(es1, topic) == Some(hs0.push(handler)),
    decreases i,
{
    if i == 0 {
    } else {
        assert(es0[0].0@ != topic);
        assert(es1[0] == es0[0]);
        lemma_lookup_update_found(
            es0.drop_first(),
            es1.drop_first(),
            topic,
            i - 1,
            hs0,
            handler,
        );
    }
}

proof fn lemma_lookup_same_until(
    es0: Seq<(String, Vec<EventHandlerKind>)>,
    es1: Seq<(String, Vec<EventHandlerKind>)>,
    t: Seq<char>,
    i: int,
)
    requires
        0 <= i < es0.len(),
        es1.len() == es0.len(),
        forall|j: int| 0 <= j < es0.len() && j != i ==> es1[j] == es0[j],
        es1[i].0@ == es0[i].0@,
        es0[i].0@ != t,
    ensures
        spec_lookup_at(es1, t) == spec_lookup_at(es0, t),
    decreases es0.len(),
{
    if es0.len() == 0 {
    } else if i == 0 {
        assert(es0[0].0@ != t && es1[0].0@ != t);
        assert(es1.drop_first() =~= es0.drop_first());
    } else {
        assert(es1[0] == es0[0]);
        if es0[0].0@ == t {
        } else {
            lemma_lookup_same_until(es0.drop_first(), es1.drop_first(), t, i - 1);
        }
    }
}

proof fn lemma_lookup_append(
    es: Seq<(String, Vec<EventHandlerKind>)>,
    topic: Seq<char>,
    hs: Seq<EventHandlerKind>,
)
    requires
        forall|j: int| 0 <= j < es.len() ==> (#[trigger] es[j]).0@ != topic,
    ensures
        spec_lookup_at(es, topic) is None,
        forall|e: (String, Vec<EventHandlerKind>)|
            e.0@ == topic && e.1@ == hs ==> spec_lookup_at(#[trigger] es.push(e), topic) == Some(
                hs,
            ),
    decreases es.len(),
{
    if es.len() == 0 {
    } else {
        lemma_lookup_append(es.drop_first(), topic, hs);
    }
    assert forall|e: (String, Vec<EventHandlerKind>)|
        e.0@ == topic && e.1@ == hs implies spec_lookup_at(#[trigger] es.push(e), topic) == Some(
        hs,
    ) by {
        if es.len() == 0 {
            assert(es.push(e)[0] == e);
        } else {
            assert(es.push(e)[0] == es[0]);
            assert(es.push(e).drop_first() =~= es.drop_first().push(e));
        }
    }
}

proof fn lemma_lookup_append_other(
    es: Seq<(String, Vec<EventHandlerKind>)>,
    e: (String, Vec<EventHandlerKind>),
    t: Seq<char>,
)
    requires
        e.0@ != t,
    ensures
        spec_lookup_at(es.push(e), t) == spec_lookup_at(es, t),
    decreases es.len(),
{
    if es.len() == 0 {
        assert(es.push(e)[0] == e);
        assert(es.push(e).drop_first() =~= es);
        assert(spec_lookup_at(es.push(e), t) is None);
    } else {
        assert(es.push(e)[0] == es[0]);
        if es[0].0@ == t {
        } else {
            assert(es.push(e).drop_first() =~= es.drop_first().push(e));
            lemma_lookup_append_other(es.drop_first(), e, t);
        }
    }
}

/// The command table the application starts with: each command type
/// under its own handler.
pub fn init_command_handler() -> (r: CommandHandlerMap)
    ensures
        r.wf(),
        r.spec_registered(CommandKind::CreateBoard),
        r.spec_registered(CommandKind::EditBoard),
        r.spec_registered(CommandKind::AddComment),
        r.spec_registered(CommandKind::EditComment),
        r.spec_registered(CommandKind::HandleOutbox),
{
    let mut map = CommandHandlerMap::new();
    map.register_command(CommandKind::CreateBoard, CommandHandlerKind::CreateBoard);
    map.register_command(CommandKind::EditBoard, CommandHandlerKind::EditBoard);
    map.register_command(CommandKind::AddComment, CommandHandlerKind::AddComment);
    map.register_command(CommandKind::EditComment, CommandHandlerKind::EditComment);
    map.register_command(CommandKind::HandleOutbox, CommandHandlerKind::HandleOutbox);
    proof {
        assert(map.entries@[0].0 == CommandKind::CreateBoard);
        assert(map.entries@[1].0 == CommandKind::EditBoard);
        assert(map.entries@[2].0 == CommandKind::AddComment);
        assert(map.entries@[3].0 == CommandKind::EditComment);
        assert(map.entries@[4].0 == CommandKind::HandleOutbox);
    }
    map
}

/// The event table the application starts with: the two stand-in
/// handlers under `BoardCreated`, in order, and nothing under any other
/// topic.
pub fn init_event_handler() -> (r: EventHandlerMap)
    ensures
        r.spec_lookup("BoardCreated"@) == Some(
            seq![EventHandlerKind::TestEventHandler, EventHandlerKind::TestEventHandler2],
        ),
        forall|t: Seq<char>| t != "BoardCreated"@ ==> #[trigger] r.spec_lookup(t) is None,
{
    let mut map = EventHandlerMap::new();
    map.register_event("BoardCreated".to_owned(), EventHandlerKind::TestEventHandler);
    map.register_event("BoardCreated".to_owned(), EventHandlerKind::TestEventHandler2);
    proof {
        assert(seq![EventHandlerKind::TestEventHandler].push(EventHandlerKind::TestEventHandler2)
            =~= seq![EventHandlerKind::TestEventHandler, EventHandlerKind::TestEventHandler2]);
    }
    map
}

/// Builds the application's message bus from the standard registries.
pub struct Boostrap;

impl Boostrap {
    pub fn message_bus() -> (r: MessageBus)
        ensures
            bus_wf(r),
            r.book_keeper == 0,
            r.dispatched@ == Seq::<crate::events::BoardEventV>::empty(),
            r.command_handler.spec_registered(CommandKind::CreateBoard),
            r.command_handler.spec_registered(CommandKind::EditBoard),
            r.command_handler.spec_registered(CommandKind::AddComment),
            r.command_handler.spec_registered(CommandKind::EditComment),
            r.command_handler.spec_registered(CommandKind::HandleOutbox),
            r.event_handler.spec_lookup("BoardCreated"@) == Some(
                seq![EventHandlerKind::TestEventHandler, EventHandlerKind::TestEventHandler2],
            ),
            forall|t: Seq<char>|
                t != "BoardCreated"@ ==> #[trigger] r.event_handler.spec_lookup(t) is None,
    {
        MessageBus::new(init_command_handler(), init_event_handler())
    }
}

} // verus!
