//! The relational store and its transaction discipline, modelled as
//! explicit values.
//!
//! `Db` is the durable state: the three tables the core touches.  An
//! `Executor` is one logical connection: it owns the committed state
//! and, while a transaction is open, a working copy that statements
//! mutate.  `begin` opens the copy, `commit` makes it durable,
//! `rollback` discards it; opening twice or closing without opening is
//! the misuse the error taxonomy calls `TransactionError`.
//!
//! A `ContextManager` carries the executor plus the in-memory queue of
//! internally notifiable events for one bus invocation.

use vstd::prelude::*;

use crate::entity::{Board, BoardV, Comment, CommentV};
use crate::errors::ApplicationError;
use crate::events::{BoardEvent, BoardEventV};
use crate::outbox::{Outbox, OutboxV};

verus! {

/// Mathematical value of the whole store.
#[verifier::ext_equal]
pub ghost struct DbV {
    pub boards: Seq<BoardV>,
    pub comments: Seq<CommentV>,
    pub outbox: Seq<OutboxV>,
}

pub struct Db {
    pub boards: Vec<Board>,
    pub comments: Vec<Comment>,
    pub outbox: Vec<Outbox>,
}

impl View for Db {
    type V = DbV;

    open spec fn view(&self) -> DbV {
        DbV {
            boards: self.boards@.map_values(|b: Board| b@),
            comments: self.comments@.map_values(|c: Comment| c@),
            outbox: self.outbox@.map_values(|o: Outbox| o@),
        }
    }
}

/// No two rows of a table share a primary key.
pub open spec fn boards_unique(s: Seq<BoardV>) -> bool {
    forall|i: int, j: int| 0 <= i < j < s.len() ==> s[i].id != s[j].id
}

pub open spec fn comments_unique(s: Seq<CommentV>) -> bool {
    forall|i: int, j: int| 0 <= i < j < s.len() ==> s[i].id != s[j].id
}

pub open spec fn outbox_unique(s: Seq<OutboxV>) -> bool {
    forall|i: int, j: int| 0 <= i < j < s.len() ==> s[i].id != s[j].id
}

/// Well-formedness of the store: primary keys are unique.
pub open spec fn db_wf(db: DbV) -> bool {
    boards_unique(db.boards) && comments_unique(db.comments) && outbox_unique(db.outbox)
}

impl Db {
    /// An empty store.
    pub fn new() -> (r: Db)
        ensures
            r@.boards == Seq::<BoardV>::empty(),
            r@.comments == Seq::<CommentV>::empty(),
            r@.outbox == Seq::<OutboxV>::empty(),
    {
        let r = Db { boards: Vec::new(), comments: Vec::new(), outbox: Vec::new() };
        proof {
            assert(r@.boards =~= Seq::<BoardV>::empty());
            assert(r@.comments =~= Seq::<CommentV>::empty());
            assert(r@.outbox =~= Seq::<OutboxV>::empty());
        }
        r
    }

    /// Value copy of the store, row by row.
    pub fn snapshot(&self) -> (r: Db)
        ensures
            r@ == self@,
    {
        let mut boards: Vec<Board> = Vec::new();
        let mut i: usize = 0;
        while i < self.boards.len()
            invariant
                i <= self.boards.len(),
                boards@.len() == i as int,
                forall|k: int| 0 <= k < i ==> boards@[k]@ == self.boards@[k]@,
            decreases self.boards.len() - i,
        {
            boards.push(self.boards[i].duplicate());
            i = i + 1;
        }
        let mut comments: Vec<Comment> = Vec::new();
        let mut j: usize = 0;
        while j < self.comments.len()
            invariant
                j <= self.comments.len(),
                comments@.len() == j as int,
                forall|k: int| 0 <= k < j ==> comments@[k]@ == self.comments@[k]@,
            decreases self.comments.len() - j,
        {
            comments.push(self.comments[j].duplicate());
            j = j + 1;
        }
        let mut outbox: Vec<Outbox> = Vec::new();
        let mut t: usize = 0;
        while t < self.outbox.len()
            invariant
                t <= self.outbox.len(),
                outbox@.len() == t as int,
                forall|k: int| 0 <= k < t ==> outbox@[k]@ == self.outbox@[k]@,
            decreases self.outbox.len() - t,
        {
            outbox.push(self.outbox[t].duplicate());
            t = t + 1;
        }
        let r = Db { boards, comments, outbox };
        proof {
            assert(r@.boards =~~= self@.boards);
            assert(r@.comments =~~= self@.comments);
            assert(r@.outbox =~~= self@.outbox);
            assert(r@ =~~= self@);
        }
        r
    }
}

/// Mathematical value of one logical connection.
#[verifier::ext_equal]
pub ghost struct ExecutorV {
    pub pool: DbV,
    pub transaction: Option<DbV>,
}

/// One logical connection: committed state plus, while a transaction
/// is open, the working copy that statements mutate.
pub struct Executor {
    pub pool: Db,
    pub transaction: Option<Db>,
}

impl View for Executor {
    type V = ExecutorV;

    open spec fn view(&self) -> ExecutorV {
        ExecutorV {
            pool: self.pool@,
            transaction: match self.transaction {
                Some(ref d) => Some(d@),
                None => None,
            },
        }
    }
}

impl Executor {
    pub fn new(pool: Db) -> (r: Executor)
        ensures
            r@.pool == pool@,
            r@.transaction is None,
    {
        Executor { pool, transaction: None }
    }

    /// Opens a transaction: the working copy starts as the committed
    /// state.  Opening twice is refused.
    pub fn begin(&mut self) -> (r: Result<(), ApplicationError>)
        ensures
            match r {
                Ok(()) => old(self)@.transaction is None && final(self)@.pool == old(self)@.pool
                    && final(self)@.transaction == Some(old(self)@.pool),
                Err(e) => e is TransactionError && old(self)@.transaction is Some && final(self)@
                    == old(self)@,
            },
    {
        match self.transaction {
            Some(_) => Err(ApplicationError::TransactionError),
            None => {
                let copy = self.pool.snapshot();
                self.transaction = Some(copy);
                Ok(())
            },
        }
    }

    /// Makes the working copy durable and closes the transaction.
    /// Committing with no open transaction is refused.
    pub fn commit(&mut self) -> (r: Result<(), ApplicationError>)
        ensures
            match r {
                Ok(()) => old(self)@.transaction matches Some(d) && final(self)@.pool == d
                    && final(self)@.transaction is None,
                Err(e) => e is TransactionError && old(self)@.transaction is None && final(self)@
                    == old(self)@,
            },
    {
        let mut taken: Option<Db> = None;
        core::mem::swap(&mut self.transaction, &mut taken);
        match taken {
            Some(d) => {
                self.pool = d;
                Ok(())
            },
            None => Err(ApplicationError::TransactionError),
        }
    }

    /// The committed state this connection serves reads from.
    pub fn connection(&self) -> (r: &Db)
        ensures
            r@ == self@.pool,
    {
        &self.pool
    }

    /// Discards the working copy; the committed state is untouched.
    /// Rolling back with no open transaction is refused.
    pub fn rollback(&mut self) -> (r: Result<(), ApplicationError>)
        ensures
            match r {
                Ok(()) => old(self)@.transaction is Some && final(self)@.pool == old(self)@.pool
                    && final(self)@.transaction is None,
                Err(e) => e is TransactionError && old(self)@.transaction is None && final(self)@
                    == old(self)@,
            },
    {
        match self.transaction {
            Some(_) => {
                self.transaction = None;
                Ok(())
            },
            None => Err(ApplicationError::TransactionError),
        }
    }
}

/// Mathematical value of a bus invocation's context.
#[verifier::ext_equal]
pub ghost struct ContextManagerV {
    pub executor: ExecutorV,
    pub events: Seq<BoardEventV>,
}

/// The executor together with the in-memory queue of internally
/// notifiable events collected while a command runs.
pub struct ContextManager {
    pub executor: Executor,
    pub events: Vec<BoardEvent>,
}

impl View for ContextManager {
    type V = ContextManagerV;

    open spec fn view(&self) -> ContextManagerV {
        ContextManagerV {
            executor: self.executor@,
            events: self.events@.map_values(|e: BoardEvent| e@),
        }
    }
}

impl ContextManager {
    /// A fresh context over an empty store.
    pub fn new() -> (r: ContextManager)
        ensures
            r@.executor.pool.boards == Seq::<BoardV>::empty(),
            r@.executor.pool.comments == Seq::<CommentV>::empty(),
            r@.executor.pool.outbox == Seq::<OutboxV>::empty(),
            r@.executor.transaction is None,
            r@.events == Seq::<BoardEventV>::empty(),
    {
        let r = ContextManager { executor: Executor::new(Db::new()), events: Vec::new() };
        proof {
            assert(r@.events =~= Seq::<BoardEventV>::empty());
        }
        r
    }

    /// The connection this invocation runs on.
    pub fn executor(&self) -> (r: &Executor)
        ensures
            r@ == self@.executor,
    {
        &self.executor
    }

    /// Takes the queued events, leaving the queue empty.
    pub fn events(&mut self) -> (r: Vec<BoardEvent>)
        ensures
            r@.map_values(|e: BoardEvent| e@) == old(self)@.events,
            final(self)@.events == Seq::<BoardEventV>::empty(),
            final(self)@.executor == old(self)@.executor,
    {
        let mut taken: Vec<BoardEvent> = Vec::new();
        core::mem::swap(&mut self.events, &mut taken);
        proof {
            assert(final(self)@.events =~= Seq::<BoardEventV>::empty());
        }
        taken
    }
}

} // verus!
