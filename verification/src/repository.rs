//! The repository: loads and saves one board aggregate, collecting the
//! events it raised.
//!
//! `add` inserts a new board; `update` persists changes under
//! optimistic concurrency — the statement is conditioned on the version
//! the aggregate was read at, and a version moved by a concurrent
//! update surfaces as a conflict, distinct from a missing row.  Both
//! first drain the aggregate's event queue into the repository, where
//! the unit of work picks the events up at commit.

use vstd::prelude::*;

use crate::aggregate::{BoardAggregate, BoardAggregateBuilder, BoardAggregateV, Buildable, Builder};
use crate::database::{DbV, Executor};
use crate::entity::{BoardV, Comment, CommentState, CommentV};
use crate::errors::ApplicationError;
use crate::events::{
    spec_aggregate_id, spec_externally_notifiable, spec_topic, BoardEvent, BoardEventV,
};
use crate::json::spec_state_json;
use crate::outbox::{Outbox, OutboxV};

verus! {

/// Some board row carries the id.
pub open spec fn has_board(boards: Seq<BoardV>, id: Seq<char>) -> bool {
    exists|i: int| 0 <= i < boards.len() && boards[i].id == id
}

/// Some comment row carries the id.
pub open spec fn has_comment(comments: Seq<CommentV>, id: Seq<char>) -> bool {
    exists|i: int| 0 <= i < comments.len() && comments[i].id == id
}

/// The first comment the persistence statement acts on: the earliest
/// one still `Pending` (to insert) or `UpdatePending` (to rewrite).
pub open spec fn first_actionable_comment(comments: Seq<CommentV>) -> Option<CommentV>
    decreases comments.len(),
{
    if comments.len() == 0 {
        None
    } else if comments[0].state is Pending || comments[0].state is UpdatePending {
        Some(comments[0])
    } else {
        first_actionable_comment(comments.drop_first())
    }
}

/// The board row as `update` rewrites it: the aggregate's fields, the
/// version moved one step, id and creation time kept.
pub open spec fn spec_updated_board(stored: BoardV, b: BoardV) -> BoardV {
    BoardV {
        author: b.author,
        title: b.title,
        content: b.content,
        state: b.state,
        version: (b.version + 1) as i32,
        ..stored
    }
}

/// What `update` does to the comment table, decided by the first
/// actionable comment of the aggregate.
pub open spec fn spec_comment_effect(
    stored: Seq<CommentV>,
    updated: Seq<CommentV>,
    agg_comments: Seq<CommentV>,
) -> bool {
    match first_actionable_comment(agg_comments) {
        None => updated == stored,
        Some(c) => if c.state is Pending {
            updated == stored.push((CommentV { state: CommentState::Created, ..c }))
        } else {
            updated == stored.map_values(
                |x: CommentV|
                    if x.id == c.id {
                        (CommentV { content: c.content, ..x })
                    } else {
                        x
                    },
            )
        },
    }
}

/// Row `i` is the one the statement's `WHERE id = ...` selects: the
/// first with the id.
pub open spec fn first_match_at(boards: Seq<BoardV>, id: Seq<char>, i: int) -> bool {
    &&& 0 <= i < boards.len()
    &&& boards[i].id == id
    &&& forall|j: int| 0 <= j < i ==> boards[j].id != id
}

/// A successful `update`: the selected row carried the version the
/// aggregate was read at, the row takes the aggregate's fields at the
/// next version, and the comment statement applies.
pub open spec fn spec_update_ok(d: DbV, d2: DbV, agg: BoardAggregateV) -> bool {
    exists|i: int|
        {
            &&& #[trigger] first_match_at(d.boards, agg.board.id, i)
            &&& d.boards[i].version == agg.board.version
            &&& agg.board.version < i32::MAX
            &&& d2.boards == d.boards.update(i, spec_updated_board(d.boards[i], agg.board))
            &&& spec_comment_effect(d.comments, d2.comments, agg.comments)
            &&& d2.outbox == d.outbox
        }
}

/// Why an `update` fails against an open transaction: no row has the
/// id; or the version moved (a concurrent edit won); or the store
/// refuses the statement (version at its ceiling, or the inserted
/// comment's key already taken).
pub open spec fn spec_update_err(d: DbV, agg: BoardAggregateV, e: crate::errors::ApplicationError) -> bool {
    ||| (e is EntityNotFound && !has_board(d.boards, agg.board.id))
    ||| exists|i: int|
        {
            &&& #[trigger] first_match_at(d.boards, agg.board.id, i)
            &&& ((e is Conflict && d.boards[i].version != agg.board.version) || (
            e is DatabaseConnectionError && d.boards[i].version == agg.board.version && (
            agg.board.version == i32::MAX || (first_actionable_comment(agg.comments) matches Some(c)
                && (c.state is Pending && has_comment(d.comments, c.id))))))
        }
}

/// A row recording the given event: its metadata and payload, not yet
/// processed.
pub open spec fn outbox_row_for(o: OutboxV, e: BoardEventV) -> bool {
    &&& o.id.len() == 36
    &&& o.aggregate_id == spec_aggregate_id(e)
    &&& o.topic == spec_topic(e)
    &&& o.state == spec_state_json(e)
    &&& o.processed == false
    &&& o.create_dt == 0
}

/// Holds the events collected from the aggregate at the last add or
/// update, for the unit of work to flush at commit.
pub struct Repository {
    pub events: Vec<BoardEvent>,
}

impl View for Repository {
    type V = Seq<BoardEventV>;

    open spec fn view(&self) -> Seq<BoardEventV> {
        self.events@.map_values(|e: BoardEvent| e@)
    }
}

impl Repository {
    pub fn new() -> (r: Repository)
        ensures
            r@ == Seq::<BoardEventV>::empty(),
    {
        let r = Repository { events: Vec::new() };
        proof {
            assert(r@ =~= Seq::<BoardEventV>::empty());
        }
        r
    }

    /// The events collected so far.
    pub fn get_events(&self) -> (r: &Vec<BoardEvent>)
        ensures
            r@.map_values(|e: BoardEvent| e@) == self@,
    {
        &self.events
    }

    /// Replaces the collected events.
    pub fn set_events(&mut self, events: Vec<BoardEvent>)
        ensures
            final(self)@ == events@.map_values(|e: BoardEvent| e@),
    {
        self.events = events;
    }

    /// Drains the aggregate's queue into the repository.
    pub fn collect_events(&mut self, aggregate: &mut BoardAggregate)
        ensures
            final(self)@ == old(aggregate)@.events,
            final(aggregate)@ == (BoardAggregateV {
                events: Seq::<BoardEventV>::empty(),
                ..old(aggregate)@
            }),
    {
        let events = aggregate.collect_events();
        self.set_events(events);
        proof {
            assert(final(aggregate)@ =~= BoardAggregateV {
                events: Seq::<BoardEventV>::empty(),
                ..old(aggregate)@
            });
        }
    }

    /// One outbox row, in order, for each collected event that is
    /// externally notifiable.
    pub fn collect_outbox(&self) -> (r: Vec<Outbox>)
        ensures
            r@.len() == self@.filter(|e: BoardEventV| spec_externally_notifiable(e)).len(),
            forall|k: int|
                0 <= k < r@.len() ==> outbox_row_for(
                    #[trigger] r@[k]@,
                    self@.filter(|e: BoardEventV| spec_externally_notifiable(e))[k],
                ),
    {
        let ghost all = self@;
        let ghost pred = |e: BoardEventV| spec_externally_notifiable(e);
        let mut rows: Vec<Outbox> = Vec::new();
        let n = self.events.len();
        let mut i: usize = 0;
        proof {
            reveal(Seq::filter);
            assert(all.take(0) =~= Seq::<BoardEventV>::empty());
        }
        while i < n
            invariant
                i <= n,
                n == self.events@.len(),
                all == self@,
                pred == (|e: BoardEventV| spec_externally_notifiable(e)),
                rows@.len() == all.take(i as int).filter(pred).len(),
                forall|k: int|
                    0 <= k < rows@.len() ==> outbox_row_for(
                        #[trigger] rows@[k]@,
                        all.take(i as int).filter(pred)[k],
                    ),
            decreases n - i,
        {
            proof {
                assert(all[i as int] == self.events@[i as int]@);
            }
            if self.events[i].externally_notifiable() {
                let row = self.events[i].outbox();
                rows.push(row);
            }
            proof {
                reveal(Seq::filter);
                assert(all.take(i as int + 1).drop_last() =~= all.take(i as int));
                assert(all.take(i as int + 1).last() == all[i as int]);
            }
            i = i + 1;
        }
        proof {
            assert(all.take(n as int) =~= all);
        }
        rows
    }

    /// Loads the aggregate with the given id from the committed store:
    /// its board row and, in stored order, the comments under it.
    pub fn get(&self, executor: &Executor, aggregate_id: &str) -> (r: Result<
        BoardAggregate,
        ApplicationError,
    >)
        ensures
            match r {
                Ok(agg) => exists|i: int|
                    {
                        &&& 0 <= i < executor@.pool.boards.len()
                        &&& executor@.pool.boards[i].id == aggregate_id@
                        &&& (forall|j: int|
                            0 <= j < i ==> executor@.pool.boards[j].id != aggregate_id@)
                        &&& agg@.board == executor@.pool.boards[i]
                    } && agg@.comments == executor@.pool.comments.filter(
                    (|c: CommentV| c.board_id == aggregate_id@),
                ) && agg@.events == Seq::<BoardEventV>::empty(),
                Err(e) => e is EntityNotFound && !has_board(executor@.pool.boards, aggregate_id@),
            },
    {
        let ghost boards = executor@.pool.boards;
        let n = executor.pool.boards.len();
        let mut i: usize = 0;
        while i < n
            invariant
                i <= n,
                n == executor.pool.boards@.len(),
                boards == executor@.pool.boards,
                forall|j: int| 0 <= j < i ==> boards[j].id != aggregate_id@,
            decreases n - i,
        {
            proof {
                assert(boards[i as int] == executor.pool.boards@[i as int]@);
            }
            if executor.pool.boards[i].id.eq(&aggregate_id.to_owned()) {
                let board = executor.pool.boards[i].duplicate();

                let ghost all = executor@.pool.comments;
                let ghost pred = |c: CommentV| c.board_id == aggregate_id@;
                let mut comments: Vec<Comment> = Vec::new();
                let m = executor.pool.comments.len();
                let mut k: usize = 0;
                proof {
                    reveal(Seq::filter);
                    assert(all.take(0) =~= Seq::<CommentV>::empty());
                    assert(comments@.map_values(|c: Comment| c@) =~= all.take(0).filter(pred));
                }
                while k < m
                    invariant
                        k <= m,
                        m == executor.pool.comments@.len(),
                        all == executor@.pool.comments,
                        pred == (|c: CommentV| c.board_id == aggregate_id@),
                        comments@.map_values(|c: Comment| c@) == all.take(k as int).filter(pred),
                    decreases m - k,
                {
                    let ghost before = comments@.map_values(|c: Comment| c@);
                    proof {
                        assert(all[k as int] == executor.pool.comments@[k as int]@);
                    }
                    if executor.pool.comments[k].board_id.eq(&aggregate_id.to_owned()) {
                        comments.push(executor.pool.comments[k].duplicate());
                        proof {
                            assert(comments@.map_values(|c: Comment| c@) =~= before.push(
                                all[k as int],
                            ));
                        }
                    }
                    proof {
                        reveal(Seq::filter);
                        assert(all.take(k as int + 1).drop_last() =~= all.take(k as int));
                        assert(all.take(k as int + 1).last() == all[k as int]);
                    }
                    k = k + 1;
                }
                proof {
                    assert(all.take(m as int) =~= all);
                }

                let agg = BoardAggregate::builder().take_board(board).take_comments(
                    comments,
                ).build();
                return Ok(agg);
            }
            i = i + 1;
        }
        Err(ApplicationError::EntityNotFound)
    }

    /// Persists a new board inside the open transaction and drains the
    /// aggregate's events.  A row with the same id is the driver's
    /// key-violation error; the transaction is then untouched.
    #[verifier::loop_isolation(false)]
    pub fn add(&mut self, executor: &mut Executor, aggregate: &mut BoardAggregate) -> (r: Result<
        String,
        ApplicationError,
    >)
        ensures
            final(self)@ == old(aggregate)@.events,
            final(aggregate)@ == (BoardAggregateV {
                events: Seq::<BoardEventV>::empty(),
                ..old(aggregate)@
            }),
            match r {
                Ok(id) => id@ == old(aggregate)@.board.id && (
                old(executor)@.transaction matches Some(d) && !has_board(
                    d.boards,
                    old(aggregate)@.board.id,
                )
                    && final(executor)@.transaction == Some(
                    (DbV { boards: d.boards.push(old(aggregate)@.board), ..d }),
                )) && final(executor)@.pool == old(executor)@.pool,
                Err(e) => final(executor)@ == old(executor)@ && (
                (e is TransactionError && old(executor)@.transaction is None) || (
                e is DatabaseConnectionError && (old(executor)@.transaction matches Some(d)
                    && has_board(d.boards, old(aggregate)@.board.id)))),
            },
    {
        self.collect_events(aggregate);
        let mut taken: Option<crate::database::Db> = None;
        core::mem::swap(&mut executor.transaction, &mut taken);
        let mut d = match taken {
            Some(d) => d,
            None => {
                proof {
                    assert(final(executor)@ =~= old(executor)@);
                }
                return Err(ApplicationError::TransactionError);
            },
        };
        let ghost d0 = d@;
        proof {
            assert(old(executor)@.transaction == Some(d0));
        }

        let n = d.boards.len();
        let mut i: usize = 0;
        while i < n
            invariant
                i <= n,
                n == d.boards@.len(),
                d@ == d0,
                executor@.pool == old(executor)@.pool,
                executor.transaction is None,
                forall|j: int| 0 <= j < i ==> d0.boards[j].id != aggregate@.board.id,
            decreases n - i,
        {
            proof {
                assert(d0.boards[i as int] == d.boards@[i as int]@);
            }
            if d.boards[i].id.eq(&aggregate.board.id) {
                executor.transaction = Some(d);
                proof {
                    assert(executor@ =~~= old(executor)@);
                }
                return Err(
                    ApplicationError::DatabaseConnectionError(
                        "duplicate key value in community_board".to_owned(),
                    ),
                );
            }
            i = i + 1;
        }
        let row = aggregate.board.duplicate();
        let ghost pre = d.boards@;
        d.boards.push(row);
        proof {
            assert(d@.boards =~= d0.boards.push(aggregate@.board));
        }
        let id = aggregate.board.id.clone();
        executor.transaction = Some(d);
        proof {
            assert(final(executor)@.transaction == Some(
                (DbV { boards: d0.boards.push(old(aggregate)@.board), ..d0 }),
            ));
        }
        Ok(id)
    }

    /// Persists the aggregate inside the open transaction, conditioned
    /// on the version it was read at, and drains its events.  The board
    /// row takes the aggregate's fields and the next version; the first
    /// still-pending comment is inserted as `Created`, or the first
    /// update-pending one has its content rewritten.  A missing row is
    /// `EntityNotFound`; a version moved by a concurrent update is
    /// `Conflict`; a version or key the store cannot take is the
    /// driver's error.  On any failure the transaction is untouched.
    #[verifier::loop_isolation(false)]
    #[verifier::rlimit(60)]
    pub fn update(&mut self, executor: &mut Executor, aggregate: &mut BoardAggregate) -> (r:
        Result<(), ApplicationError>)
        ensures
            final(self)@ == old(aggregate)@.events,
            final(aggregate)@ == (BoardAggregateV {
                events: Seq::<BoardEventV>::empty(),
                ..old(aggregate)@
            }),
            match r {
                Ok(()) => old(executor)@.transaction matches Some(d) && (
                final(executor)@.transaction matches Some(d2) && spec_update_ok(
                    d,
                    d2,
                    old(aggregate)@,
                )) && final(executor)@.pool == old(executor)@.pool,
                Err(e) => final(executor)@ == old(executor)@ && (
                (e is TransactionError && old(executor)@.transaction is None) || (
                old(executor)@.transaction matches Some(d) && spec_update_err(
                    d,
                    old(aggregate)@,
                    e,
                ))),
            },
    {
        self.collect_events(aggregate);
        let mut taken: Option<crate::database::Db> = None;
        core::mem::swap(&mut executor.transaction, &mut taken);
        let mut d = match taken {
            Some(d) => d,
            None => {
                proof {
                    assert(final(executor)@ =~= old(executor)@);
                }
                return Err(ApplicationError::TransactionError);
            },
        };
        let ghost d0 = d@;
        proof {
            assert(old(executor)@.transaction == Some(d0));
        }

        // The statement the update is conditioned on: find the row.
        let n = d.boards.len();
        let mut i: usize = 0;
        let mut found = false;
        while i < n && !found
            invariant
                i <= n,
                n == d.boards@.len(),
                d@ == d0,
                executor@.pool == old(executor)@.pool,
                executor.transaction is None,
                forall|j: int|
                    0 <= j < i ==> found || d0.boards[j].id != aggregate@.board.id,
                found ==> i < n && d0.boards[i as int].id == aggregate@.board.id && (forall|j: int|
                    0 <= j < i ==> d0.boards[j].id != aggregate@.board.id),
            decreases n - i + (if found {
                0int
            } else {
                1int
            }),
        {
            proof {
                assert(d0.boards[i as int] == d.boards@[i as int]@);
            }
            if d.boards[i].id.eq(&aggregate.board.id) {
                found = true;
            } else {
                i = i + 1;
            }
        }
        if !found {
            executor.transaction = Some(d);
            proof {
                assert(executor@ =~~= old(executor)@);
                assert(!has_board(d0.boards, aggregate@.board.id));
                assert(aggregate@.board == old(aggregate)@.board);
                assert(spec_update_err(d0, old(aggregate)@, ApplicationError::EntityNotFound));
            }
            return Err(ApplicationError::EntityNotFound);
        }
        proof {
            assert(d0.boards[i as int] == d.boards@[i as int]@);
        }
        if d.boards[i].version != aggregate.board.version {
            executor.transaction = Some(d);
            proof {
                assert(executor@ =~~= old(executor)@);
                assert(aggregate@.board == old(aggregate)@.board);
                assert(first_match_at(d0.boards, old(aggregate)@.board.id, i as int));
                assert(d0.boards[i as int].version != old(aggregate)@.board.version);
                assert(spec_update_err(d0, old(aggregate)@, ApplicationError::Conflict));
            }
            return Err(ApplicationError::Conflict);
        }
        if aggregate.board.version == i32::MAX {
            executor.transaction = Some(d);
            proof {
                assert(executor@ =~~= old(executor)@);
                assert(aggregate@.board == old(aggregate)@.board);
                assert(first_match_at(d0.boards, old(aggregate)@.board.id, i as int));
                assert(d0.boards[i as int].version == old(aggregate)@.board.version);
                assert(old(aggregate)@.board.version == i32::MAX);
            }
            return Err(
                ApplicationError::DatabaseConnectionError("integer out of range".to_owned()),
            );
        }

        // The one comment this statement persists, if any.
        let ghost agg_comments = aggregate@.comments;
        let m = aggregate.comments.len();
        let mut k: usize = 0;
        let mut action: Option<Comment> = None;
        proof {
            assert(agg_comments.skip(0) =~= agg_comments);
        }
        while k < m && action.is_none()
            invariant
                k <= m,
                m == aggregate.comments@.len(),
                agg_comments == aggregate@.comments,
                match action {
                    None => first_actionable_comment(agg_comments) == first_actionable_comment(
                        agg_comments.skip(k as int),
                    ),
                    Some(c) => first_actionable_comment(agg_comments) == Some(c@),
                },
            decreases m - k + (if action is Some {
                0int
            } else {
                1int
            }),
        {
            proof {
                assert(agg_comments[k as int] == aggregate.comments@[k as int]@);
                assert(agg_comments.skip(k as int)[0] == agg_comments[k as int]);
            }
            let state_is_pending = match aggregate.comments[k].state {
                CommentState::Pending => true,
                _ => false,
            };
            let state_is_update_pending = match aggregate.comments[k].state {
                CommentState::UpdatePending => true,
                _ => false,
            };
            if state_is_pending || state_is_update_pending {
                action = Some(aggregate.comments[k].duplicate());
            } else {
                proof {
                    assert(agg_comments.skip(k as int).drop_first() =~= agg_comments.skip(
                        k as int + 1,
                    ));
                }
                k = k + 1;
            }
        }
        proof {
            if k >= m && action is None {
                assert(agg_comments.skip(m as int) =~= Seq::<CommentV>::empty());
            }
        }

        // Validation of the comment statement before any mutation.
        match &action {
            Some(c) => {
                let is_pending = match c.state {
                    CommentState::Pending => true,
                    _ => false,
                };
                if is_pending {
                    let t = d.comments.len();
                    let mut u: usize = 0;
                    while u < t
                        invariant
                            u <= t,
                            t == d.comments@.len(),
                            d@ == d0,
                            executor@.pool == old(executor)@.pool,
                            executor.transaction is None,
                            first_actionable_comment(agg_comments) == Some(c@),
                            c@.state is Pending,
                            forall|j: int| 0 <= j < u ==> d0.comments[j].id != c@.id,
                        decreases t - u,
                    {
                        proof {
                            assert(d0.comments[u as int] == d.comments@[u as int]@);
                        }
                        if d.comments[u].id.eq(&c.id) {
                            executor.transaction = Some(d);
                            proof {
                                assert(executor@ =~~= old(executor)@);
                                                    assert(first_match_at(
                                    d0.boards,
                                    old(aggregate)@.board.id,
                                    i as int,
                                ));
                                assert(d0.boards[i as int].version
                                    == old(aggregate)@.board.version);
                                assert(first_actionable_comment(old(aggregate)@.comments)
                                    == Some(c@));
                                assert(has_comment(d0.comments, c@.id));
                            }
                            return Err(
                                ApplicationError::DatabaseConnectionError(
                                    "duplicate key value in community_comment".to_owned(),
                                ),
                            );
                        }
                        u = u + 1;
                    }
                }
            },
            None => {},
        }

        // Board row: the aggregate's fields at the next version.
        let mut row = aggregate.board.duplicate();
        row.version = aggregate.board.version + 1;
        let stored = d.boards[i].duplicate();
        row.id = stored.id;
        row.create_dt = stored.create_dt;
        proof {
            assert(row@ =~= spec_updated_board(d0.boards[i as int], aggregate@.board));
        }
        let ghost pre_boards = d.boards@;
        d.boards[i] = row;
        proof {
            assert(d@.boards =~= d0.boards.update(
                i as int,
                spec_updated_board(d0.boards[i as int], aggregate@.board),
            ));
        }

        // Comment statement.
        match action {
            Some(c) => {
                let is_pending = match c.state {
                    CommentState::Pending => true,
                    _ => false,
                };
                if is_pending {
                    let mut inserted = c;
                    inserted.state = CommentState::Created;
                    let ghost cv = first_actionable_comment(agg_comments)->Some_0;
                    proof {
                        assert(inserted@ =~= CommentV { state: CommentState::Created, ..cv });
                    }
                    let ghost pre = d.comments@;
                    d.comments.push(inserted);
                    proof {
                        assert(d@.comments =~= d0.comments.push(
                            (CommentV { state: CommentState::Created, ..cv }),
                        ));
                    }
                } else {
                    let ghost cv = first_actionable_comment(agg_comments)->Some_0;
                    let t = d.comments.len();
                    let mut u: usize = 0;
                    while u < t
                        invariant
                            u <= t,
                            t == d.comments@.len(),
                            d@.boards == d0.boards.update(
                                i as int,
                                spec_updated_board(d0.boards[i as int], aggregate@.board),
                            ),
                            d@.outbox == d0.outbox,
                            d@.comments.len() == d0.comments.len(),
                            executor@.pool == old(executor)@.pool,
                            executor.transaction is None,
                            c@ == cv,
                            forall|j: int|
                                0 <= j < u ==> d@.comments[j] == (if d0.comments[j].id == cv.id {
                                    (CommentV { content: cv.content, ..d0.comments[j] })
                                } else {
                                    d0.comments[j]
                                }),
                            forall|j: int| u <= j < t ==> d@.comments[j] == d0.comments[j],
                        decreases t - u,
                    {
                        proof {
                            assert(d@.comments[u as int] == d.comments@[u as int]@);
                        }
                        if d.comments[u].id.eq(&c.id) {
                            let mut patched = d.comments[u].duplicate();
                            patched.content = c.content.clone();
                            proof {
                                assert(patched@ =~= CommentV {
                                    content: cv.content,
                                    ..d0.comments[u as int]
                                });
                            }
                            let ghost pre = d.comments@;
                            d.comments[u] = patched;
                            proof {
                                assert(d.comments@ == pre.update(u as int, patched));
                                assert(d@.comments[u as int] == patched@);
                                assert(forall|j: int|
                                    0 <= j < t && j != u ==> d@.comments[j] == pre.map_values(
                                        |x: Comment| x@,
                                    )[j]);
                            }
                        } else {
                            proof {
                                assert(d0.comments[u as int].id != cv.id);
                            }
                        }
                        u = u + 1;
                    }
                    proof {
                        assert(d@.comments =~= d0.comments.map_values(
                            |x: CommentV|
                                if x.id == cv.id {
                                    (CommentV { content: cv.content, ..x })
                                } else {
                                    x
                                },
                        ));
                    }
                }
            },
            None => {},
        }

        executor.transaction = Some(d);
        proof {
            assert(executor@.transaction matches Some(d2) && spec_comment_effect(
                d0.comments,
                d2.comments,
                old(aggregate)@.comments,
            ));
            assert(first_match_at(d0.boards, old(aggregate)@.board.id, i as int));
            assert(executor@.transaction matches Some(d2) && spec_update_ok(
                d0,
                d2,
                old(aggregate)@,
            ));
        }
        Ok(())
    }
}

} // verus!

verus! {

/// Law: two updates of the same board read at the same version cannot
/// both apply — whichever commits first moves the version, and the
/// other's compare-and-swap no longer matches.
pub proof fn lemma_stale_update_conflicts(
    d0: DbV,
    d1: DbV,
    agg1: BoardAggregateV,
    d2: DbV,
    agg2: BoardAggregateV,
)
    requires
        crate::database::boards_unique(d0.boards),
        spec_update_ok(d0, d1, agg1),
        agg2.board.id == agg1.board.id,
        agg2.board.version == agg1.board.version,
    ensures
        !spec_update_ok(d1, d2, agg2),
{
    let id = agg1.board.id;
    let i = choose|i: int|
        {
            &&& #[trigger] first_match_at(d0.boards, id, i)
            &&& d0.boards[i].version == agg1.board.version
            &&& agg1.board.version < i32::MAX
            &&& d1.boards == d0.boards.update(i, spec_updated_board(d0.boards[i], agg1.board))
        };
    assert(d1.boards[i].id == id);
    assert(d1.boards[i].version == agg1.board.version + 1);
    if spec_update_ok(d1, d2, agg2) {
        let j = choose|j: int|
            {
                &&& #[trigger] first_match_at(d1.boards, id, j)
                &&& d1.boards[j].version == agg2.board.version
            };
        assert(d1.boards.len() == d0.boards.len());
        assert(forall|k: int|
            0 <= k < d1.boards.len() ==> (#[trigger] d1.boards[k]).id == d0.boards[k].id);
        if j != i {
            assert(d0.boards[j].id == id && d0.boards[i].id == id);
            assert(false);
        }
        assert(d1.boards[i].version != agg2.board.version);
        assert(false);
    }
}

} // verus!
