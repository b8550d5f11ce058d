//! The account aggregate: registration state and password handling.
//!
//! Passwords are never stored: an account keeps only the salted hash
//! the bcrypt algorithm produced, and verification recomputes it from
//! the stored hash's own parameters.  Authentication is a collaborator
//! outside this core, so the account raises no events of its own and no
//! account notification flows cross the outbox.

use vstd::prelude::*;

use crate::aggregate::{Buildable, Builder};

verus! {

/// The outcome of the bcrypt verification call for a password against
/// a stored hash.  The salt and cost are read back from the hash
/// itself, so the outcome is a function of the two arguments alone.
/// Note what the callers make of it: they treat any call that did not
/// reject the stored hash as success, so the outcome does not say the
/// password matched.
pub uninterp spec fn bcrypt_verification_outcome(password: Seq<char>, hashed: Seq<char>) -> bool;

/// Relies on `bcrypt::hash` at the work factor 4: a fresh random salt
/// from the operating system, a 60-character hash on success, `None`
/// only when the system's randomness source failed.
#[verifier::external_body]
fn bcrypt_hash_password(plain: &str) -> (r: Option<String>)
    ensures
        r matches Some(h) ==> h@.len() == 60,
{
    match bcrypt::hash(plain, 4) {
        Ok(h) => Some(h),
        Err(_) => None,
    }
}

/// Relies on `bcrypt::verify`: deterministic in the password and the
/// hash, since salt and cost are parsed out of the hash string.  The
/// call is asked only whether it ran without error, so any outcome
/// short of a malformed stored hash counts as success, whatever the
/// password.
#[verifier::external_body]
fn bcrypt_verify_outcome(plain: &str, hashed: &str) -> (r: bool)
    ensures
        r == bcrypt_verification_outcome(plain@, hashed@),
{
    bcrypt::verify(plain, hashed).is_ok()
}

#[derive(Clone, Copy, PartialEq, Eq, Structural, Debug)]
pub enum AccountState {
    VerificationRequired,
    Created,
    Deleted,
    Blocked,
}

impl Default for AccountState {
    fn default() -> (r: Self)
        ensures
            r == AccountState::VerificationRequired,
    {
        AccountState::VerificationRequired
    }
}

impl AccountState {
    /// The stable text of the state.
    pub fn state(&self) -> (r: &'static str)
        ensures
            r@ == self.spec_state_text(),
    {
        match self {
            AccountState::VerificationRequired => "VerificationRequired",
            AccountState::Created => "Created",
            AccountState::Deleted => "Deleted",
            AccountState::Blocked => "Blocked",
        }
    }

    pub open spec fn spec_state_text(&self) -> Seq<char> {
        match self {
            AccountState::VerificationRequired => "VerificationRequired"@,
            AccountState::Created => "Created"@,
            AccountState::Deleted => "Deleted"@,
            AccountState::Blocked => "Blocked"@,
        }
    }
}

/// Mathematical value of an account row.
#[verifier::ext_equal]
pub ghost struct AccountV {
    pub id: Seq<char>,
    pub email: Seq<char>,
    pub state: AccountState,
    pub hashed_password: Seq<char>,
    pub nickname: Seq<char>,
    pub create_dt: i64,
    pub version: i32,
}

pub struct Account {
    pub id: String,
    pub email: String,
    pub state: AccountState,
    pub hashed_password: String,
    pub nickname: String,
    pub create_dt: i64,
    pub version: i32,
}

impl View for Account {
    type V = AccountV;

    open spec fn view(&self) -> AccountV {
        AccountV {
            id: self.id@,
            email: self.email@,
            state: self.state,
            hashed_password: self.hashed_password@,
            nickname: self.nickname@,
            create_dt: self.create_dt,
            version: self.version,
        }
    }
}

impl Account {
    /// A fresh account awaiting verification, its password stored only
    /// as a hash.  `None` when the randomness source for the salt
    /// failed.
    pub fn new(id: String, email: String, password: String, nickname: String) -> (r: Option<
        Account,
    >)
        ensures
            r matches Some(a) ==> {
                &&& a@.id == id@
                &&& a@.email == email@
                &&& a@.state == AccountState::VerificationRequired
                &&& a@.hashed_password.len() == 60
                &&& a@.nickname == nickname@
                &&& a@.create_dt == 0
                &&& a@.version == 0
            },
    {
        let hashed = match Account::hash_password(password.as_str()) {
            Some(h) => h,
            None => {
                return None;
            },
        };
        Some(
            Account {
                id,
                email,
                state: AccountState::VerificationRequired,
                hashed_password: hashed,
                nickname,
                create_dt: 0,
                version: 0,
            },
        )
    }

    /// The salted hash of the password; `None` only when the system's
    /// randomness source failed.
    pub fn hash_password(plain_password: &str) -> (r: Option<String>)
        ensures
            r matches Some(h) ==> h@.len() == 60,
    {
        bcrypt_hash_password(plain_password)
    }

    /// What the bcrypt verification call reports for the password
    /// against the stored hash.  The check succeeds whenever the call
    /// raised no error, so a well-formed stored hash is reported as
    /// verified for any password.
    pub fn verify_password(&self, plain_password: &str) -> (r: bool)
        ensures
            r == bcrypt_verification_outcome(plain_password@, self@.hashed_password),
    {
        bcrypt_verify_outcome(plain_password, self.hashed_password.as_str())
    }
}

/// Mathematical value of the token pair.
#[verifier::ext_equal]
pub ghost struct TokenStatV {
    pub access_token: Seq<char>,
    pub refresh_token: Seq<char>,
    pub expiry_date: i64,
}

pub struct TokenStat {
    pub access_token: String,
    pub refresh_token: String,
    pub expiry_date: i64,
}

impl View for TokenStat {
    type V = TokenStatV;

    open spec fn view(&self) -> TokenStatV {
        TokenStatV {
            access_token: self.access_token@,
            refresh_token: self.refresh_token@,
            expiry_date: self.expiry_date,
        }
    }
}

/// The account root with its token state.
pub struct AuthAggregate {
    pub account: Account,
    pub token_stat: TokenStat,
}

/// Assembles an auth aggregate from parts.
pub struct AuthAggregateBuilder(pub AuthAggregate);

impl AuthAggregateBuilder {
    /// Uses the given account as the root.
    pub fn take_account(self, account: Account) -> (r: Self)
        ensures
            r.0.account@ == account@,
            r.0.token_stat@ == self.0.token_stat@,
    {
        let AuthAggregateBuilder(mut agg) = self;
        agg.account = account;
        AuthAggregateBuilder(agg)
    }

    /// Uses the given token state.
    pub fn take_token_stat(self, token_stat: TokenStat) -> (r: Self)
        ensures
            r.0.account@ == self.0.account@,
            r.0.token_stat@ == token_stat@,
    {
        let AuthAggregateBuilder(mut agg) = self;
        agg.token_stat = token_stat;
        AuthAggregateBuilder(agg)
    }
}

impl Builder<AuthAggregate> for AuthAggregateBuilder {
    fn new() -> (r: Self)
        ensures
            r.0.account@.id.len() == 0,
            r.0.account@.hashed_password.len() == 0,
            r.0.token_stat@.access_token.len() == 0,
    {
        AuthAggregateBuilder(
            AuthAggregate {
                account: Account {
                    id: String::new(),
                    email: String::new(),
                    state: AccountState::VerificationRequired,
                    hashed_password: String::new(),
                    nickname: String::new(),
                    create_dt: 0,
                    version: 0,
                },
                token_stat: TokenStat {
                    access_token: String::new(),
                    refresh_token: String::new(),
                    expiry_date: 0,
                },
            },
        )
    }

    fn build(self) -> (r: AuthAggregate)
        ensures
            r.account@ == self.0.account@,
            r.token_stat@ == self.0.token_stat@,
    {
        self.0
    }
}

impl Buildable<AuthAggregate, AuthAggregateBuilder> for AuthAggregate {
    fn builder() -> (r: AuthAggregateBuilder)
        ensures
            r.0.account@.id.len() == 0,
            r.0.account@.hashed_password.len() == 0,
    {
        AuthAggregateBuilder::new()
    }
}

} // verus!
