//! The unit of work: one transaction, one repository, one command's
//! lifetime.
//!
//! Commit flushes the events the repository collected — externally
//! notifiable ones become outbox rows inside the same transaction,
//! internally notifiable ones join the context's in-memory queue — and
//! only then makes the transaction durable.  If any step fails nothing
//! is committed and nothing is queued.  Rollback discards the
//! transaction, and with it any staged rows.

use vstd::prelude::*;

use crate::database::{ContextManager, ContextManagerV, DbV};
use crate::errors::ApplicationError;
use crate::events::{
    spec_externally_notifiable, spec_internally_notifiable, BoardEvent, BoardEventV,
};
use crate::outbox::Outbox;
use crate::repository::{outbox_row_for, Repository};

verus! {

/// The externally notifiable part of an event sequence, in order.
pub open spec fn ext_events(evs: Seq<BoardEventV>) -> Seq<BoardEventV> {
    evs.filter(|e: BoardEventV| spec_externally_notifiable(e))
}

/// The internally notifiable part of an event sequence, in order.
pub open spec fn int_events(evs: Seq<BoardEventV>) -> Seq<BoardEventV> {
    evs.filter(|e: BoardEventV| spec_internally_notifiable(e))
}

/// A successful commit of a unit of work whose repository had collected
/// `evs`: the working copy becomes durable with one fresh outbox row
/// per externally notifiable event appended in order, and the
/// internally notifiable events join the context's queue in order.
pub open spec fn spec_commit_ok(
    pre: ContextManagerV,
    post: ContextManagerV,
    evs: Seq<BoardEventV>,
) -> bool {
    &&& pre.executor.transaction matches Some(d) && {
        &&& post.executor.transaction is None
        &&& post.executor.pool.boards == d.boards
        &&& post.executor.pool.comments == d.comments
        &&& post.executor.pool.outbox.len() == d.outbox.len() + ext_events(evs).len()
        &&& post.executor.pool.outbox.take(d.outbox.len() as int) == d.outbox
        &&& forall|k: int|
            0 <= k < ext_events(evs).len() ==> outbox_row_for(
                #[trigger] post.executor.pool.outbox[d.outbox.len() + k],
                ext_events(evs)[k],
            )
    }
    &&& post.events == pre.events + int_events(evs)
}

/// Both notifiability filters of no events are no events.
pub proof fn lemma_filter_empty()
    ensures
        ext_events(Seq::<BoardEventV>::empty()) == Seq::<BoardEventV>::empty(),
        int_events(Seq::<BoardEventV>::empty()) == Seq::<BoardEventV>::empty(),
{
    reveal(Seq::filter);
    assert(ext_events(Seq::<BoardEventV>::empty()) =~= Seq::<BoardEventV>::empty());
    assert(int_events(Seq::<BoardEventV>::empty()) =~= Seq::<BoardEventV>::empty());
}

/// The notifiability filters of one event keep or drop exactly it.
pub proof fn lemma_filter_singleton(e: BoardEventV)
    ensures
        ext_events(seq![e]) == if spec_externally_notifiable(e) {
            seq![e]
        } else {
            Seq::<BoardEventV>::empty()
        },
        int_events(seq![e]) == if spec_internally_notifiable(e) {
            seq![e]
        } else {
            Seq::<BoardEventV>::empty()
        },
{
    reveal(Seq::filter);
    assert(seq![e].drop_last() =~= Seq::<BoardEventV>::empty());
    lemma_filter_empty();
    if spec_externally_notifiable(e) {
        assert(ext_events(seq![e]) =~= seq![e]);
    } else {
        assert(ext_events(seq![e]) =~= Seq::<BoardEventV>::empty());
    }
    if spec_internally_notifiable(e) {
        assert(int_events(seq![e]) =~= seq![e]);
    } else {
        assert(int_events(seq![e]) =~= Seq::<BoardEventV>::empty());
    }
}

/// Coordinates one repository and one transaction for the lifetime of
/// one command execution.
pub struct UnitOfWork {
    pub repository: Repository,
}

impl View for UnitOfWork {
    type V = Seq<BoardEventV>;

    open spec fn view(&self) -> Seq<BoardEventV> {
        self.repository@
    }
}

impl UnitOfWork {
    pub fn new() -> (r: UnitOfWork)
        ensures
            r@ == Seq::<BoardEventV>::empty(),
    {
        UnitOfWork { repository: Repository::new() }
    }

    /// Opens the transaction; opening twice is refused.
    pub fn begin(&mut self, context: &mut ContextManager) -> (r: Result<(), ApplicationError>)
        ensures
            final(self)@ == old(self)@,
            final(context)@.events == old(context)@.events,
            match r {
                Ok(()) => old(context)@.executor.transaction is None
                    && final(context)@.executor.pool == old(context)@.executor.pool
                    && final(context)@.executor.transaction == Some(old(context)@.executor.pool),
                Err(e) => e is TransactionError && old(context)@.executor.transaction is Some
                    && final(context)@ == old(context)@,
            },
    {
        context.executor.begin()
    }

    /// Flushes the collected events and makes the transaction durable.
    /// On failure nothing was committed and nothing was queued; the
    /// caller should roll back.
    pub fn commit(self, context: &mut ContextManager) -> (r: Result<(), ApplicationError>)
        ensures
            match r {
                Ok(()) => spec_commit_ok(old(context)@, final(context)@, self@),
                Err(e) => final(context)@ == old(context)@ && (
                (e is TransactionError && old(context)@.executor.transaction is None) || (
                e is DatabaseConnectionError && old(context)@.executor.transaction is Some
                    && ext_events(self@).len() > 0)),
            },
    {
        let ghost evs = self@;
        let ghost pre = context@;

        // Externally notifiable events become outbox rows in the same
        // transaction.
        let rows = self.repository.collect_outbox();
        match Outbox::add(&mut context.executor, rows) {
            Ok(()) => {},
            Err(e) => {
                proof {
                    assert(final(context)@ =~~= old(context)@);
                    if e is DatabaseConnectionError {
                        assert(rows@.map_values(|o: Outbox| o@).len() == ext_events(evs).len());
                        if ext_events(evs).len() == 0 {
                            assert(crate::outbox::outbox_rows_insertable(
                                rows@.map_values(|o: Outbox| o@),
                                old(context)@.executor.transaction->Some_0.outbox,
                            ));
                        }
                    }
                }
                return Err(e);
            },
        }

        // Internally notifiable events join the bus's queue.
        let ghost queued = context@.events;
        let ghost exec_mid = context.executor@;
        let n = self.repository.events.len();
        let mut i: usize = 0;
        proof {
            reveal(Seq::filter);
            assert(evs.take(0) =~= Seq::<BoardEventV>::empty());
            assert(queued + int_events(evs.take(0)) =~= queued);
        }
        while i < n
            invariant
                i <= n,
                n == self.repository.events@.len(),
                evs == self@,
                context@.events == queued + int_events(evs.take(i as int)),
                context.executor@ == exec_mid,
            decreases n - i,
        {
            proof {
                assert(evs[i as int] == self.repository.events@[i as int]@);
            }
            let ghost before = context@.events;
            if self.repository.events[i].internally_notifiable() {
                let copy = self.repository.events[i].message_clone();
                context.events.push(copy);
                proof {
                    assert(context@.events =~= before.push(evs[i as int]));
                }
            }
            proof {
                reveal(Seq::filter);
                assert(evs.take(i as int + 1).drop_last() =~= evs.take(i as int));
                assert(evs.take(i as int + 1).last() == evs[i as int]);
                assert(context@.events =~= queued + int_events(evs.take(i as int + 1)));
            }
            i = i + 1;
        }
        proof {
            assert(evs.take(n as int) =~= evs);
        }

        // Only now does the transaction become durable.
        let r = context.executor.commit();
        match r {
            Ok(()) => {
                proof {
                    let d = old(context)@.executor.transaction->Some_0;
                    let out = context@.executor.pool.outbox;
                    assert(out.take(d.outbox.len() as int) =~= d.outbox);
                    assert forall|k: int| 0 <= k < ext_events(evs).len() implies outbox_row_for(
                        #[trigger] out[d.outbox.len() + k],
                        ext_events(evs)[k],
                    ) by {
                        assert(out[d.outbox.len() + k] == rows@.map_values(|o: Outbox| o@)[k]);
                        assert(rows@.map_values(|o: Outbox| o@)[k] == rows@[k]@);
                    }
                }
                Ok(())
            },
            Err(e) => Err(e),
        }
    }

    /// Discards the transaction and everything staged in it.
    pub fn rollback(self, context: &mut ContextManager) -> (r: Result<(), ApplicationError>)
        ensures
            final(context)@.events == old(context)@.events,
            match r {
                Ok(()) => old(context)@.executor.transaction is Some
                    && final(context)@.executor.pool == old(context)@.executor.pool
                    && final(context)@.executor.transaction is None,
                Err(e) => e is TransactionError && old(context)@.executor.transaction is None
                    && final(context)@ == old(context)@,
            },
    {
        context.executor.rollback()
    }
}

} // verus!

verus! {

/// Law: rolling back after staging a new board leaves the store exactly
/// as it was.  The working copy an `add` leaves holds the board and no
/// new outbox row; rolling back restores the committed state, so under
/// the discarded id no board can be fetched, and the committed outbox
/// is the one from before the transaction began.
pub proof fn lemma_rollback_discards_add(pool: DbV, staged: DbV, b: crate::entity::BoardV)
    requires
        !crate::repository::has_board(pool.boards, b.id),
        staged == (DbV { boards: pool.boards.push(b), ..pool }),
    ensures
        crate::repository::has_board(staged.boards, b.id),
        !crate::repository::has_board(pool.boards, b.id),
        staged.outbox == pool.outbox,
{
    assert(staged.boards[pool.boards.len() as int] == b);
}

} // verus!
