//! The command handlers: one per command type, each running the whole
//! domain mutation inside its own unit of work, and the event handlers
//! registered for bus-internal dispatch.
//!
//! A handler failure rolls the unit of work back, so an error leaves
//! the context exactly as it was.

use vstd::prelude::*;

use crate::aggregate::{BoardAggregate, Buildable, Builder};
use crate::bootstrap::Dependency;
use crate::commands::{
    AddComment, AddCommentV, CreateBoard, CreateBoardV, EditBoard, EditBoardV, EditComment,
    EditCommentV, ServiceResponse, ServiceResponseV,
};
use crate::database::{ContextManager, ContextManagerV};
use crate::entity::{BoardV, CommentState, CommentV};
use crate::errors::ApplicationError;
use crate::events::{BoardCreatedV, BoardEvent, BoardEventV, BoardUpdatedV};
use crate::json::json_created;
use crate::outbox::Outbox;
use crate::repository::{
    first_match_at, has_board, has_comment, outbox_row_for, spec_comment_effect,
    spec_updated_board,
};
use crate::unit_of_work::{ext_events, UnitOfWork};

verus! {

/// The `BoardCreated` event a create command with the given fresh id
/// raises.
pub open spec fn created_event_of(cmd: CreateBoardV, id: Seq<char>) -> BoardCreatedV {
    BoardCreatedV {
        id: id,
        author: cmd.author,
        title: cmd.title,
        content: cmd.content,
        state: cmd.state,
    }
}

/// A successful `CreateBoard`: one new board row with the command's
/// fields at version 0 under the fresh id, exactly one new outbox row
/// recording the `BoardCreated` event, and that event queued for the
/// in-process handlers.  Everything else is untouched, and the
/// transaction is closed.
pub open spec fn spec_create_board_ok(
    pre: ContextManagerV,
    post: ContextManagerV,
    cmd: CreateBoardV,
    id: Seq<char>,
) -> bool {
    &&& id.len() == 36
    &&& !has_board(pre.executor.pool.boards, id)
    &&& post.executor.transaction is None
    &&& post.executor.pool.boards.len() == pre.executor.pool.boards.len() + 1
    &&& post.executor.pool.boards.take(pre.executor.pool.boards.len() as int)
        == pre.executor.pool.boards
    &&& post.executor.pool.boards.last().id == id
    &&& post.executor.pool.boards.last().author == cmd.author
    &&& post.executor.pool.boards.last().title == cmd.title
    &&& post.executor.pool.boards.last().content == cmd.content
    &&& post.executor.pool.boards.last().state == cmd.state
    &&& post.executor.pool.boards.last().version == 0
    &&& post.executor.pool.comments == pre.executor.pool.comments
    &&& post.executor.pool.outbox.len() == pre.executor.pool.outbox.len() + 1
    &&& post.executor.pool.outbox.take(pre.executor.pool.outbox.len() as int)
        == pre.executor.pool.outbox
    &&& outbox_row_for(
        post.executor.pool.outbox.last(),
        BoardEventV::Created(created_event_of(cmd, id)),
    )
    &&& post.events == pre.events.push(BoardEventV::Created(created_event_of(cmd, id)))
}

/// The board row an `EditBoard` leaves: the given fields replaced, the
/// version moved one step.
pub open spec fn spec_edited_board(stored: BoardV, cmd: EditBoardV) -> BoardV {
    BoardV {
        title: match cmd.title {
            Some(t) => t,
            None => stored.title,
        },
        content: match cmd.content {
            Some(c) => c,
            None => stored.content,
        },
        state: match cmd.state {
            Some(s) => s,
            None => stored.state,
        },
        version: (stored.version + 1) as i32,
        ..stored
    }
}

/// A successful `EditBoard`: the selected row takes the given fields at
/// the next version; the comment statement acts on the stored comments
/// of that board; no outbox row and no queued event, and the
/// transaction is closed.
pub open spec fn spec_edit_board_ok(
    pre: ContextManagerV,
    post: ContextManagerV,
    cmd: EditBoardV,
) -> bool {
    &&& exists|i: int|
        {
            &&& #[trigger] first_match_at(pre.executor.pool.boards, cmd.id, i)
            &&& pre.executor.pool.boards[i].version < i32::MAX
            &&& post.executor.pool.boards == pre.executor.pool.boards.update(
                i,
                spec_edited_board(pre.executor.pool.boards[i], cmd),
            )
        }
    &&& spec_comment_effect(
        pre.executor.pool.comments,
        post.executor.pool.comments,
        pre.executor.pool.comments.filter(|c: CommentV| c.board_id == cmd.id),
    )
    &&& post.executor.pool.outbox == pre.executor.pool.outbox
    &&& post.executor.transaction is None
    &&& post.events == pre.events
}

/// A fresh `Pending` comment row raised by the given command.
pub open spec fn spec_added_comment_row(c: CommentV, cmd: AddCommentV) -> bool {
    &&& c.id.len() == 36
    &&& c.board_id == cmd.board_id
    &&& c.author == cmd.author
    &&& c.content == cmd.content
    &&& c.state is Pending
}

/// A successful `AddComment`: the board row is rewritten unchanged at
/// the next version, and one comment row with the command's author and
/// content lands in `Created` state under a fresh id.  No outbox row,
/// no queued event.
pub open spec fn spec_add_comment_ok(
    pre: ContextManagerV,
    post: ContextManagerV,
    cmd: AddCommentV,
) -> bool {
    &&& exists|i: int|
        {
            &&& #[trigger] first_match_at(pre.executor.pool.boards, cmd.board_id, i)
            &&& pre.executor.pool.boards[i].version < i32::MAX
            &&& post.executor.pool.boards == pre.executor.pool.boards.update(
                i,
                spec_updated_board(pre.executor.pool.boards[i], pre.executor.pool.boards[i]),
            )
        }
    &&& exists|c: CommentV|
        {
            &&& #[trigger] spec_added_comment_row(c, cmd)
            &&& spec_comment_effect(
                pre.executor.pool.comments,
                post.executor.pool.comments,
                pre.executor.pool.comments.filter(|x: CommentV| x.board_id == cmd.board_id).push(c),
            )
        }
    &&& post.executor.pool.outbox == pre.executor.pool.outbox
    &&& post.executor.transaction is None
    &&& post.events == pre.events
}


/// The store refuses the board's update statement outright: the row
/// exists but its version is at the integer's ceiling, or one of its
/// stored comments is still `Pending`, so re-persisting it collides
/// with its own key.
pub open spec fn spec_board_statement_refused(pre: ContextManagerV, board_id: Seq<char>) -> bool {
    exists|i: int|
        {
            &&& #[trigger] first_match_at(pre.executor.pool.boards, board_id, i)
            &&& (pre.executor.pool.boards[i].version == i32::MAX || (
            crate::repository::first_actionable_comment(
                pre.executor.pool.comments.filter(|x: CommentV| x.board_id == board_id),
            ) matches Some(c) && c.state is Pending))
        }
}

/// The comment table after an `EditComment`: among the stored comments
/// of the board, the first with the comment's id carries the new
/// content in the aggregate; nothing of it is persisted, because an
/// edited comment stays in `Created` state.
pub open spec fn spec_edit_comment_agg(
    stored_of_board: Seq<CommentV>,
    cmd: EditCommentV,
) -> Seq<CommentV> {
    stored_of_board.update(
        first_comment_index(stored_of_board, cmd.id),
        (CommentV {
            content: cmd.content,
            ..stored_of_board[first_comment_index(stored_of_board, cmd.id)]
        }),
    )
}

/// Index of the first comment with the id, or the length if none.
pub open spec fn first_comment_index(comments: Seq<CommentV>, id: Seq<char>) -> int
    decreases comments.len(),
{
    if comments.len() == 0 {
        0
    } else if comments[0].id == id {
        0
    } else {
        1 + first_comment_index(comments.drop_first(), id)
    }
}

/// Sequences with the same comment states pick the same position (if
/// any) as their first actionable comment, with the same state.
proof fn lemma_first_actionable_same_states(a: Seq<CommentV>, b: Seq<CommentV>)
    requires
        a.len() == b.len(),
        forall|i: int| 0 <= i < a.len() ==> a[i].state == b[i].state,
    ensures
        crate::repository::first_actionable_comment(a) is Some
            == crate::repository::first_actionable_comment(b) is Some,
        match (crate::repository::first_actionable_comment(a),
        crate::repository::first_actionable_comment(b)) {
            (Some(x), Some(y)) => x.state == y.state,
            _ => true,
        },
    decreases a.len(),
{
    if a.len() == 0 {
    } else {
        assert(a[0].state == b[0].state);
        if a[0].state is Pending || a[0].state is UpdatePending {
        } else {
            assert(forall|i: int|
                0 <= i < a.drop_first().len() ==> a.drop_first()[i].state == b.drop_first()[
                    i
                ].state);
            lemma_first_actionable_same_states(a.drop_first(), b.drop_first());
        }
    }
}

/// A successful `EditComment`: the board row is rewritten unchanged at
/// the next version, and the comment statement acts on the aggregate's
/// comments with the edited content in place.  No outbox row, no
/// queued event.
pub open spec fn spec_edit_comment_ok(
    pre: ContextManagerV,
    post: ContextManagerV,
    cmd: EditCommentV,
) -> bool {
    &&& exists|i: int|
        {
            &&& #[trigger] first_match_at(pre.executor.pool.boards, cmd.board_id, i)
            &&& pre.executor.pool.boards[i].version < i32::MAX
            &&& post.executor.pool.boards == pre.executor.pool.boards.update(
                i,
                spec_updated_board(pre.executor.pool.boards[i], pre.executor.pool.boards[i]),
            )
        }
    &&& has_comment(
        pre.executor.pool.comments.filter(|x: CommentV| x.board_id == cmd.board_id),
        cmd.id,
    )
    &&& spec_comment_effect(
        pre.executor.pool.comments,
        post.executor.pool.comments,
        spec_edit_comment_agg(
            pre.executor.pool.comments.filter(|x: CommentV| x.board_id == cmd.board_id),
            cmd,
        ),
    )
    &&& post.executor.pool.outbox == pre.executor.pool.outbox
    &&& post.executor.transaction is None
    &&& post.events == pre.events
}

/// The outbox table after a resubmitted row is marked processed.
pub open spec fn spec_marked_outbox(rows: Seq<crate::outbox::OutboxV>, id: Seq<char>) -> Seq<
    crate::outbox::OutboxV,
> {
    rows.map_values(
        |o: crate::outbox::OutboxV|
            if o.id == id {
                (crate::outbox::OutboxV { processed: true, ..o })
            } else {
                o
            },
    )
}


/// The first index carrying the id is what the search finds.
pub proof fn lemma_first_comment_index(s: Seq<CommentV>, id: Seq<char>, k: int)
    requires
        0 <= k < s.len(),
        s[k].id == id,
        forall|j: int| 0 <= j < k ==> s[j].id != id,
    ensures
        first_comment_index(s, id) == k,
    decreases k,
{
    if k == 0 {
    } else {
        assert(s[0].id != id);
        let s1 = s.drop_first();
        assert(s1[k - 1] == s[k]);
        assert(forall|j: int| 0 <= j < k - 1 ==> s1[j].id != id);
        lemma_first_comment_index(s1, id, k - 1);
    }
}

impl ServiceHandler {
    /// Creates a board: builds a fresh aggregate from the command,
    /// persists it, commits, and returns the new board's id.
    pub fn create_board(cmd: CreateBoard, context: &mut ContextManager) -> (r: Result<
        ServiceResponse,
        ApplicationError,
    >)
        requires
            old(context)@.executor.transaction is None,
        ensures
            match r {
                Ok(resp) => resp@ matches ServiceResponseV::String(id) && spec_create_board_ok(
                    old(context)@,
                    final(context)@,
                    cmd@,
                    id,
                ),
                Err(e) => final(context)@ == old(context)@ && e is DatabaseConnectionError,
            },
    {
        let ghost pre = context@;
        let mut uow = UnitOfWork::new();
        match uow.begin(context) {
            Ok(()) => {},
            Err(e) => {
                proof {
                    assert(false);
                }
                return Err(e);
            },
        }
        let builder = BoardAggregate::builder();
        let mut board_aggregate: BoardAggregate = builder.build();
        board_aggregate.create_board(cmd);
        let res = match uow.repository.add(&mut context.executor, &mut board_aggregate) {
            Ok(id) => id,
            Err(e) => {
                match uow.rollback(context) {
                    _ => {},
                }
                proof {
                    assert(final(context)@ =~~= pre);
                }
                return Err(e);
            },
        };
        let ghost evs = uow@;
        match uow.commit(context) {
            Ok(()) => {},
            Err(e) => {
                match context.executor.rollback() {
                    _ => {},
                }
                proof {
                    assert(final(context)@ =~~= pre);
                }
                return Err(e);
            },
        }
        proof {
            let ev = BoardEventV::Created(created_event_of(cmd@, res@));
            assert(board_aggregate@.board.id == res@);
            assert(created_event_of(cmd@, res@) == BoardCreatedV {
                id: board_aggregate@.board.id,
                author: cmd@.author,
                title: cmd@.title,
                content: cmd@.content,
                state: cmd@.state,
            });
            assert(evs =~= seq![ev]);
            crate::unit_of_work::lemma_filter_singleton(ev);
            let post = context@;
            assert(post.executor.pool.boards.take(pre.executor.pool.boards.len() as int)
                =~= pre.executor.pool.boards);
            assert(post.executor.pool.boards.last() == board_aggregate@.board);
            assert(post.executor.pool.outbox.last() == post.executor.pool.outbox[
                pre.executor.pool.outbox.len() as int
            ]);
            assert(ext_events(evs)[0] == ev);
            assert(pre.events + seq![ev] =~= pre.events.push(ev));
            assert(res@.len() == 36);
            assert(!has_board(pre.executor.pool.boards, res@));
            assert(post.executor.transaction is None);
            assert(post.executor.pool.boards.len() == pre.executor.pool.boards.len() + 1);
            assert(post.executor.pool.boards.last().id == res@);
            assert(post.executor.pool.boards.last().version == 0);
            assert(post.executor.pool.comments == pre.executor.pool.comments);
            assert(post.executor.pool.outbox.len() == pre.executor.pool.outbox.len() + 1);
            assert(post.executor.pool.outbox.take(pre.executor.pool.outbox.len() as int)
                == pre.executor.pool.outbox);
            let di = pre.executor.pool.outbox.len() as int;
            assert(outbox_row_for(post.executor.pool.outbox[di + 0], ext_events(evs)[0]));
            assert(outbox_row_for(post.executor.pool.outbox.last(), ev));
            assert(post.events == pre.events.push(ev));
            assert(spec_create_board_ok(pre, final(context)@, cmd@, res@));
        }
        Ok(ServiceResponse::String(res))
    }

    /// Edits a board: loads the aggregate, applies the given fields,
    /// persists under optimistic concurrency, commits.
    pub fn edit_board(cmd: EditBoard, context: &mut ContextManager) -> (r: Result<
        ServiceResponse,
        ApplicationError,
    >)
        requires
            old(context)@.executor.transaction is None,
        ensures
            match r {
                Ok(resp) => resp@ is Empty && spec_edit_board_ok(old(context)@, final(context)@, cmd@),
                Err(e) => final(context)@ == old(context)@ && ((e is EntityNotFound && !has_board(
                    old(context)@.executor.pool.boards,
                    cmd@.id,
                )) || (e is DatabaseConnectionError && spec_board_statement_refused(
                    old(context)@,
                    cmd@.id,
                ))),
            },
    {
        let ghost pre = context@;
        let ghost cmdv = cmd@;
        let mut uow = UnitOfWork::new();
        match uow.begin(context) {
            Ok(()) => {},
            Err(e) => {
                proof {
                    assert(false);
                }
                return Err(e);
            },
        }
        let mut board_aggregate = match uow.repository.get(&context.executor, cmd.id.as_str()) {
            Ok(agg) => agg,
            Err(e) => {
                match uow.rollback(context) {
                    _ => {},
                }
                proof {
                    assert(final(context)@ =~~= pre);
                }
                return Err(e);
            },
        };
        let ghost gi = choose|i: int| #[trigger]
            first_match_at(pre.executor.pool.boards, cmdv.id, i) && board_aggregate@.board
                == pre.executor.pool.boards[i];
        board_aggregate.update_board(cmd);
        match uow.repository.update(&mut context.executor, &mut board_aggregate) {
            Ok(()) => {},
            Err(e) => {
                match uow.rollback(context) {
                    _ => {},
                }
                proof {
                    assert(final(context)@ =~~= pre);
                    assert(!(e is Conflict) && !(e is EntityNotFound));
                }
                return Err(e);
            },
        }
        let ghost evs = uow@;
        match uow.commit(context) {
            Ok(()) => {},
            Err(e) => {
                proof {
                    let uv = BoardEventV::Updated(
                        BoardUpdatedV {
                            id: pre.executor.pool.boards[gi].id,
                            title: cmdv.title,
                            content: cmdv.content,
                            state: cmdv.state,
                        },
                    );
                    assert(evs =~= seq![uv]);
                    crate::unit_of_work::lemma_filter_singleton(uv);
                    assert(false);
                }
                return Err(e);
            },
        }
        proof {
            let uv = BoardEventV::Updated(
                BoardUpdatedV {
                    id: pre.executor.pool.boards[gi].id,
                    title: cmdv.title,
                    content: cmdv.content,
                    state: cmdv.state,
                },
            );
            assert(evs =~= seq![uv]);
            crate::unit_of_work::lemma_filter_singleton(uv);
            let post = context@;
            assert(post.executor.pool.outbox =~= pre.executor.pool.outbox);
            assert(post.events =~= pre.events);
            assert(spec_updated_board(pre.executor.pool.boards[gi], board_aggregate@.board)
                == spec_edited_board(pre.executor.pool.boards[gi], cmdv));
            assert(first_match_at(pre.executor.pool.boards, cmdv.id, gi));
            assert(spec_edit_board_ok(pre, final(context)@, cmdv));
        }
        Ok(ServiceResponse::Empty(()))
    }

    /// Adds a comment: loads the aggregate, raises the pending comment,
    /// persists it (stored as `Created`), commits.
    pub fn add_comment(cmd: AddComment, context: &mut ContextManager) -> (r: Result<
        ServiceResponse,
        ApplicationError,
    >)
        requires
            old(context)@.executor.transaction is None,
        ensures
            match r {
                Ok(resp) => resp@ is Empty && spec_add_comment_ok(old(context)@, final(context)@, cmd@),
                Err(e) => final(context)@ == old(context)@ && ((e is EntityNotFound && !has_board(
                    old(context)@.executor.pool.boards,
                    cmd@.board_id,
                )) || (e is DatabaseConnectionError && has_board(
                    old(context)@.executor.pool.boards,
                    cmd@.board_id,
                ))),
            },
    {
        let ghost pre = context@;
        let ghost cmdv = cmd@;
        let mut uow = UnitOfWork::new();
        match uow.begin(context) {
            Ok(()) => {},
            Err(e) => {
                proof {
                    assert(false);
                }
                return Err(e);
            },
        }
        let mut board_aggregate = match uow.repository.get(&context.executor, cmd.board_id.as_str()) {
            Ok(agg) => agg,
            Err(e) => {
                match uow.rollback(context) {
                    _ => {},
                }
                proof {
                    assert(final(context)@ =~~= pre);
                }
                return Err(e);
            },
        };
        let ghost gi = choose|i: int| #[trigger]
            first_match_at(pre.executor.pool.boards, cmdv.board_id, i) && board_aggregate@.board
                == pre.executor.pool.boards[i];
        board_aggregate.add_comment(cmd);
        let ghost newc = board_aggregate@.comments.last();
        proof {
            assert(board_aggregate@.comments =~= pre.executor.pool.comments.filter(
                |x: CommentV| x.board_id == cmdv.board_id,
            ).push(newc));
            assert(spec_added_comment_row(newc, cmdv));
        }
        match uow.repository.update(&mut context.executor, &mut board_aggregate) {
            Ok(()) => {},
            Err(e) => {
                match uow.rollback(context) {
                    _ => {},
                }
                proof {
                    assert(final(context)@ =~~= pre);
                    assert(!(e is Conflict) && !(e is EntityNotFound));
                }
                return Err(e);
            },
        }
        let ghost evs = uow@;
        proof {
            let cav = BoardEventV::CommentAdded(
                crate::events::BoardCommentAddedV {
                    id: pre.executor.pool.boards[gi].id,
                    author: cmdv.author,
                    content: cmdv.content,
                    state: CommentState::Pending,
                },
            );
            assert(evs =~= seq![cav]);
            crate::unit_of_work::lemma_filter_singleton(cav);
        }
        match uow.commit(context) {
            Ok(()) => {},
            Err(e) => {
                proof {
                    assert(false);
                }
                return Err(e);
            },
        }
        proof {
            let post = context@;
            assert(post.executor.pool.outbox =~= pre.executor.pool.outbox);
            assert(post.events =~= pre.events);
            assert(first_match_at(pre.executor.pool.boards, cmdv.board_id, gi));
            assert(spec_add_comment_ok(pre, final(context)@, cmdv));
        }
        Ok(ServiceResponse::Empty(()))
    }

    /// Edits a comment's content in the aggregate; the board row is
    /// still rewritten at the next version, though the stored comment,
    /// already `Created`, keeps its old content.
    pub fn edit_comment(cmd: EditComment, context: &mut ContextManager) -> (r: Result<
        ServiceResponse,
        ApplicationError,
    >)
        requires
            old(context)@.executor.transaction is None,
        ensures
            match r {
                Ok(resp) => resp@ is Empty && spec_edit_comment_ok(old(context)@, final(context)@, cmd@),
                Err(e) => final(context)@ == old(context)@ && ((e is EntityNotFound && (!has_board(
                    old(context)@.executor.pool.boards,
                    cmd@.board_id,
                ) || !has_comment(
                    old(context)@.executor.pool.comments.filter(
                        |x: CommentV| x.board_id == cmd@.board_id,
                    ),
                    cmd@.id,
                ))) || (e is DatabaseConnectionError && spec_board_statement_refused(
                    old(context)@,
                    cmd@.board_id,
                ))),
            },
    {
        let ghost pre = context@;
        let ghost cmdv = cmd@;
        let mut uow = UnitOfWork::new();
        match uow.begin(context) {
            Ok(()) => {},
            Err(e) => {
                proof {
                    assert(false);
                }
                return Err(e);
            },
        }
        let mut board_aggregate = match uow.repository.get(&context.executor, cmd.board_id.as_str()) {
            Ok(agg) => agg,
            Err(e) => {
                match uow.rollback(context) {
                    _ => {},
                }
                proof {
                    assert(final(context)@ =~~= pre);
                }
                return Err(e);
            },
        };
        let ghost gi = choose|i: int| #[trigger]
            first_match_at(pre.executor.pool.boards, cmdv.board_id, i) && board_aggregate@.board
                == pre.executor.pool.boards[i];
        let ghost fetched = board_aggregate@.comments;
        match board_aggregate.edit_comment(cmd) {
            Ok(()) => {},
            Err(e) => {
                match uow.rollback(context) {
                    _ => {},
                }
                proof {
                    assert(final(context)@ =~~= pre);
                    assert(!has_comment(fetched, cmdv.id));
                }
                return Err(e);
            },
        }
        proof {
            let k = choose|k: int|
                {
                    &&& 0 <= k < fetched.len()
                    &&& fetched[k].id == cmdv.id
                    &&& (forall|j: int| 0 <= j < k ==> fetched[j].id != cmdv.id)
                    &&& board_aggregate@.comments == fetched.update(
                        k,
                        (CommentV { content: cmdv.content, ..fetched[k] }),
                    )
                };
            lemma_first_comment_index(fetched, cmdv.id, k);
            assert(board_aggregate@.comments == spec_edit_comment_agg(fetched, cmdv));
            assert(fetched[k].id == cmdv.id);
            assert(has_comment(fetched, cmdv.id));
        }
        let ghost aggv = board_aggregate@;
        match uow.repository.update(&mut context.executor, &mut board_aggregate) {
            Ok(()) => {},
            Err(e) => {
                match uow.rollback(context) {
                    _ => {},
                }
                proof {
                    assert(final(context)@ =~~= pre);
                    assert(!(e is Conflict) && !(e is EntityNotFound));
                    if e is DatabaseConnectionError {
                        let boards = pre.executor.pool.boards;
                        let i = choose|i: int|
                            {
                                &&& #[trigger] first_match_at(boards, aggv.board.id, i)
                                &&& ((e is Conflict && boards[i].version != aggv.board.version)
                                    || (e is DatabaseConnectionError && boards[i].version
                                    == aggv.board.version && (aggv.board.version == i32::MAX || (
                                crate::repository::first_actionable_comment(
                                    aggv.comments,
                                ) matches Some(c) && (c.state is Pending && has_comment(
                                    pre.executor.pool.comments,
                                    c.id,
                                ))))))
                            };
                        assert(aggv.board.id == cmdv.board_id);
                        assert(first_match_at(boards, cmdv.board_id, i));
                        if aggv.board.version != i32::MAX {
                            lemma_first_actionable_same_states(aggv.comments, fetched);
                        }
                        assert(boards[i].version == aggv.board.version);
                        assert(spec_board_statement_refused(pre, cmdv.board_id));
                    }
                }
                return Err(e);
            },
        }
        let ghost evs = uow@;
        proof {
            assert(evs =~= Seq::<BoardEventV>::empty());
            crate::unit_of_work::lemma_filter_empty();
        }
        match uow.commit(context) {
            Ok(()) => {},
            Err(e) => {
                proof {
                    assert(false);
                }
                return Err(e);
            },
        }
        proof {
            let post = context@;
            assert(post.executor.pool.outbox =~= pre.executor.pool.outbox);
            assert(post.events =~= pre.events);
            assert(first_match_at(pre.executor.pool.boards, cmdv.board_id, gi));
            assert(spec_edit_comment_ok(pre, final(context)@, cmdv));
        }
        Ok(ServiceResponse::Empty(()))
    }

    /// Resubmits an outbox row: decodes it back into its event, marks
    /// the stored row processed in its own transaction, commits.
    pub fn handle_outbox(outbox: Outbox, context: &mut ContextManager) -> (r: Result<
        ServiceResponse,
        ApplicationError,
    >)
        requires
            old(context)@.executor.transaction is None,
        ensures
            match r {
                Ok(resp) => resp@ == ServiceResponseV::Bool(true) && outbox@.topic
                    == "BoardCreated"@ && final(context)@.executor.transaction is None
                    && final(context)@.executor.pool.boards == old(context)@.executor.pool.boards
                    && final(context)@.executor.pool.comments
                    == old(context)@.executor.pool.comments
                    && final(context)@.executor.pool.outbox == spec_marked_outbox(
                    old(context)@.executor.pool.outbox,
                    outbox@.id,
                ) && final(context)@.events == old(context)@.events,
                Err(e) => final(context)@ == old(context)@ && ((e is EventNotFound && outbox@.topic
                    != "BoardCreated"@) || (e is DeserializationError && outbox@.topic
                    == "BoardCreated"@ && !(exists|v: BoardCreatedV|
                outbox@.state == json_created(v)))),
            },
            outbox@.topic == "BoardCreated"@ && (exists|v: BoardCreatedV|
                outbox@.state == json_created(v)) ==> r is Ok,
    {
        let ghost pre = context@;
        let _msg = match outbox.convert_event() {
            Ok(msg) => msg,
            Err(e) => {
                return Err(e);
            },
        };
        let mut uow = UnitOfWork::new();
        match uow.begin(context) {
            Ok(()) => {},
            Err(e) => {
                proof {
                    assert(false);
                }
                return Err(e);
            },
        }
        match outbox.update(&mut context.executor) {
            Ok(()) => {},
            Err(e) => {
                proof {
                    assert(false);
                }
                return Err(e);
            },
        }
        let ghost evs = uow@;
        proof {
            assert(evs =~= Seq::<BoardEventV>::empty());
            crate::unit_of_work::lemma_filter_empty();
        }
        match uow.commit(context) {
            Ok(()) => {},
            Err(e) => {
                proof {
                    assert(false);
                }
                return Err(e);
            },
        }
        proof {
            assert(final(context)@.executor.pool.outbox =~= spec_marked_outbox(
                pre.executor.pool.outbox,
                outbox@.id,
            ));
            assert(final(context)@.events =~= pre.events);
        }
        Ok(ServiceResponse::Bool(true))
    }
}

/// The in-process handlers registered for `BoardCreated`: stand-ins
/// that open and commit their own empty unit of work, leaving the
/// context untouched.
pub struct EventHandler;

impl EventHandler {
    pub fn test_event_handler(
        _event: BoardEvent,
        context: &mut ContextManager,
        some_dependency: &Dependency,
    ) -> (r: Result<ServiceResponse, ApplicationError>)
        requires
            old(context)@.executor.transaction is None,
        ensures
            final(context)@ == old(context)@,
            r matches Ok(resp) && resp@ is Empty,
    {
        let ghost pre = context@;
        let mut uow = UnitOfWork::new();
        match uow.begin(context) {
            Ok(()) => {},
            Err(e) => {
                proof {
                    assert(false);
                }
                return Err(e);
            },
        }
        let ghost evs = uow@;
        match uow.commit(context) {
            Ok(()) => {},
            Err(e) => {
                proof {
                    assert(false);
                }
                return Err(e);
            },
        }
        proof {
            crate::unit_of_work::lemma_filter_empty();
            assert(final(context)@ =~~= pre);
        }
        Ok(some_dependency.some_dependency())
    }

    pub fn test_event_handler2(_event: BoardEvent, context: &mut ContextManager) -> (r: Result<
        ServiceResponse,
        ApplicationError,
    >)
        requires
            old(context)@.executor.transaction is None,
        ensures
            final(context)@ == old(context)@,
            r matches Ok(resp) && resp@ is Empty,
    {
        let ghost pre = context@;
        let mut uow = UnitOfWork::new();
        match uow.begin(context) {
            Ok(()) => {},
            Err(e) => {
                proof {
                    assert(false);
                }
                return Err(e);
            },
        }
        match uow.commit(context) {
            Ok(()) => {},
            Err(e) => {
                proof {
                    assert(false);
                }
                return Err(e);
            },
        }
        proof {
            crate::unit_of_work::lemma_filter_empty();
            assert(final(context)@ =~~= pre);
        }
        Ok(ServiceResponse::Empty(()))
    }
}

/// The application services: one handler per command type.
pub struct ServiceHandler;

} // verus!

verus! {

/// Law: a board just created is immediately readable under the returned
/// id, and reads back with exactly the author, title, content and state
/// the command gave, at version 0.
pub proof fn lemma_created_board_readable(
    pre: ContextManagerV,
    post: ContextManagerV,
    cmd: CreateBoardV,
    id: Seq<char>,
)
    requires
        spec_create_board_ok(pre, post, cmd, id),
    ensures
        has_board(post.executor.pool.boards, id),
        forall|i: int|
            #[trigger] first_match_at(post.executor.pool.boards, id, i) ==> {
                &&& post.executor.pool.boards[i].author == cmd.author
                &&& post.executor.pool.boards[i].title == cmd.title
                &&& post.executor.pool.boards[i].content == cmd.content
                &&& post.executor.pool.boards[i].state == cmd.state
                &&& post.executor.pool.boards[i].version == 0
            },
{
    let boards = post.executor.pool.boards;
    let n = pre.executor.pool.boards.len() as int;
    assert(boards[n].id == id);
    assert(has_board(boards, id));
    assert forall|i: int| #[trigger] first_match_at(boards, id, i) implies {
        &&& boards[i].author == cmd.author
        &&& boards[i].title == cmd.title
        &&& boards[i].content == cmd.content
        &&& boards[i].state == cmd.state
        &&& boards[i].version == 0
    } by {
        if i < n {
            assert(boards.take(n)[i] == boards[i]);
            assert(pre.executor.pool.boards[i].id == id);
            assert(has_board(pre.executor.pool.boards, id));
            assert(false);
        } else {
            assert(i == n);
        }
    }
}

/// No comment of the sequence is awaiting persistence.
pub open spec fn all_comments_settled(s: Seq<CommentV>) -> bool {
    forall|k: int|
        0 <= k < s.len() ==> !((#[trigger] s[k]).state is Pending) && !(s[k].state is UpdatePending)
}

/// Every element a filter keeps comes from the sequence it filtered.
proof fn lemma_filter_elements(s: Seq<CommentV>, pred: spec_fn(CommentV) -> bool)
    ensures
        forall|i: int|
            0 <= i < s.filter(pred).len() ==> s.contains(#[trigger] s.filter(pred)[i]),
    decreases s.len(),
{
    reveal(Seq::filter);
    let out = s.filter(pred);
    if s.len() == 0 {
    } else {
        let sub = s.drop_last().filter(pred);
        lemma_filter_elements(s.drop_last(), pred);
        assert forall|i: int| 0 <= i < out.len() implies s.contains(#[trigger] out[i]) by {
            if i < sub.len() {
                assert(out[i] == sub[i]);
                assert(s.drop_last().contains(sub[i]));
                let j = choose|j: int| 0 <= j < s.drop_last().len() && s.drop_last()[j] == sub[i];
                assert(s[j] == sub[i]);
            } else {
                assert(pred(s.last()) && out[i] == s.last());
                assert(s[s.len() - 1] == s.last());
            }
        }
    }
}

proof fn lemma_first_actionable_push(s: Seq<CommentV>, c: CommentV)
    requires
        all_comments_settled(s),
        c.state is Pending || c.state is UpdatePending,
    ensures
        crate::repository::first_actionable_comment(s.push(c)) == Some(c),
    decreases s.len(),
{
    if s.len() == 0 {
        assert(s.push(c)[0] == c);
    } else {
        assert(s.push(c)[0] == s[0]);
        assert(s.push(c).drop_first() =~= s.drop_first().push(c));
        assert(all_comments_settled(s.drop_first()));
        lemma_first_actionable_push(s.drop_first(), c);
    }
}

/// Law: adding a comment grows the board's comments by exactly one, and
/// the new comment is stored in `Created` state — not left `Pending` —
/// with the command's author and content.
pub proof fn lemma_added_comment_persisted(
    pre: ContextManagerV,
    post: ContextManagerV,
    cmd: AddCommentV,
)
    requires
        spec_add_comment_ok(pre, post, cmd),
        all_comments_settled(pre.executor.pool.comments),
    ensures
        post.executor.pool.comments.len() == pre.executor.pool.comments.len() + 1,
        post.executor.pool.comments.take(pre.executor.pool.comments.len() as int)
            == pre.executor.pool.comments,
        post.executor.pool.comments.last().state is Created,
        post.executor.pool.comments.last().board_id == cmd.board_id,
        post.executor.pool.comments.last().author == cmd.author,
        post.executor.pool.comments.last().content == cmd.content,
        post.executor.pool.comments.filter(|x: CommentV| x.board_id == cmd.board_id).len()
            == pre.executor.pool.comments.filter(|x: CommentV| x.board_id == cmd.board_id).len()
            + 1,
{
    let stored = pre.executor.pool.comments;
    let pred = |x: CommentV| x.board_id == cmd.board_id;
    let fetched = stored.filter(pred);
    let c = choose|c: CommentV|
        #[trigger] spec_added_comment_row(c, cmd) && spec_comment_effect(
            stored,
            post.executor.pool.comments,
            fetched.push(c),
        );
    assert(all_comments_settled(fetched)) by {
        lemma_filter_elements(stored, pred);
        assert forall|k: int| 0 <= k < fetched.len() implies !((#[trigger] fetched[k]).state
            is Pending) && !(fetched[k].state is UpdatePending) by {
            assert(stored.contains(fetched[k]));
            let j = choose|j: int| 0 <= j < stored.len() && stored[j] == fetched[k];
            assert(!(stored[j].state is Pending) && !(stored[j].state is UpdatePending));
        }
    }
    lemma_first_actionable_push(fetched, c);
    let row = CommentV { state: CommentState::Created, ..c };
    assert(post.executor.pool.comments == stored.push(row));
    assert(post.executor.pool.comments.take(stored.len() as int) =~= stored);
    reveal(Seq::filter);
    assert(stored.push(row).drop_last() =~= stored);
    assert(post.executor.pool.comments.filter(pred) =~= fetched.push(row));
}

} // verus!

verus! {

/// Law: creating a board writes exactly one outbox row — topic
/// `BoardCreated`, not yet processed — and no other command path adds
/// any (an edit or a comment leaves the outbox untouched).
pub proof fn lemma_create_board_single_outbox_row(
    pre: ContextManagerV,
    post: ContextManagerV,
    cmd: CreateBoardV,
    id: Seq<char>,
)
    requires
        spec_create_board_ok(pre, post, cmd, id),
    ensures
        post.executor.pool.outbox.len() == pre.executor.pool.outbox.len() + 1,
        post.executor.pool.outbox.take(pre.executor.pool.outbox.len() as int)
            == pre.executor.pool.outbox,
        post.executor.pool.outbox.last().topic == "BoardCreated"@,
        post.executor.pool.outbox.last().processed == false,
        post.executor.pool.outbox.last().aggregate_id == id,
{
}

} // verus!

verus! {

/// Keys are untouched, so uniqueness carries over.
proof fn lemma_same_keys_unique(a: Seq<BoardV>, b: Seq<BoardV>)
    requires
        crate::database::boards_unique(a),
        b.len() == a.len(),
        forall|k: int| 0 <= k < a.len() ==> (#[trigger] b[k]).id == a[k].id,
    ensures
        crate::database::boards_unique(b),
{
}

/// Law: every command preserves the uniqueness of board keys, so the
/// version compare-and-swap always speaks of one row.
pub proof fn lemma_create_board_preserves_keys(
    pre: ContextManagerV,
    post: ContextManagerV,
    cmd: CreateBoardV,
    id: Seq<char>,
)
    requires
        crate::database::boards_unique(pre.executor.pool.boards),
        spec_create_board_ok(pre, post, cmd, id),
    ensures
        crate::database::boards_unique(post.executor.pool.boards),
{
    let a = pre.executor.pool.boards;
    let b = post.executor.pool.boards;
    let n = a.len() as int;
    assert forall|i: int, j: int| 0 <= i < j < b.len() implies b[i].id != b[j].id by {
        if j < n {
            assert(b.take(n)[i] == b[i] && b.take(n)[j] == b[j]);
        } else {
            assert(b.take(n)[i] == b[i]);
            assert(b[i] == a[i]);
            if b[j].id == b[i].id {
                assert(has_board(a, id));
            }
        }
    }
}

/// Law: an edit rewrites one row in place under its own key; the key
/// set is unchanged, so uniqueness carries over.
pub proof fn lemma_edit_board_preserves_keys(
    pre: ContextManagerV,
    post: ContextManagerV,
    cmd: EditBoardV,
)
    requires
        crate::database::boards_unique(pre.executor.pool.boards),
        spec_edit_board_ok(pre, post, cmd),
    ensures
        crate::database::boards_unique(post.executor.pool.boards),
{
    let a = pre.executor.pool.boards;
    let b = post.executor.pool.boards;
    let i = choose|i: int|
        {
            &&& #[trigger] first_match_at(a, cmd.id, i)
            &&& a[i].version < i32::MAX
            &&& b == a.update(i, spec_edited_board(a[i], cmd))
        };
    assert(forall|k: int| 0 <= k < a.len() ==> (#[trigger] b[k]).id == a[k].id);
    lemma_same_keys_unique(a, b);
}

/// Law: adding a comment rewrites the board row under its own key; the
/// key set is unchanged, so uniqueness carries over.
pub proof fn lemma_add_comment_preserves_keys(
    pre: ContextManagerV,
    post: ContextManagerV,
    cmd: AddCommentV,
)
    requires
        crate::database::boards_unique(pre.executor.pool.boards),
        spec_add_comment_ok(pre, post, cmd),
    ensures
        crate::database::boards_unique(post.executor.pool.boards),
{
    let a = pre.executor.pool.boards;
    let b = post.executor.pool.boards;
    let i = choose|i: int|
        {
            &&& #[trigger] first_match_at(a, cmd.board_id, i)
            &&& a[i].version < i32::MAX
            &&& b == a.update(i, spec_updated_board(a[i], a[i]))
        };
    assert(forall|k: int| 0 <= k < a.len() ==> (#[trigger] b[k]).id == a[k].id);
    lemma_same_keys_unique(a, b);
}

} // verus!

verus! {

/// Law: once a resubmitted row is marked, the outbox no longer serves
/// it as unprocessed — reconciling every unprocessed row therefore
/// leaves nothing to fetch.
pub proof fn lemma_marked_row_done(rows: Seq<crate::outbox::OutboxV>, id: Seq<char>, k: int)
    requires
        0 <= k < rows.len(),
        rows[k].id == id,
    ensures
        spec_marked_outbox(rows, id).len() == rows.len(),
        spec_marked_outbox(rows, id)[k].processed == true,
{
}

} // verus!
