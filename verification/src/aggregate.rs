//! The board aggregate: the consistency boundary that validates and
//! applies commands, raising events into its own queue.
//!
//! The queue is drained by the repository when the aggregate is
//! persisted, so that each event is collected exactly once.

use vstd::prelude::*;

use crate::commands::{AddComment, CreateBoard, EditBoard, EditComment};
use crate::entity::{Board, BoardState, BoardV, Comment, CommentState, CommentV};
use crate::errors::ApplicationError;
use crate::events::{
    BoardCommentAdded, BoardCommentAddedV, BoardCreated, BoardCreatedV, BoardEvent, BoardEventV,
    BoardUpdated, BoardUpdatedV,
};

verus! {

/// Assembles a value step by step and hands it out.
pub trait Builder<T>: Sized {
    fn new() -> Self;

    fn build(self) -> T;
}

/// A type that offers a builder for itself.
pub trait Buildable<Target, B: Builder<Target>>: Sized {
    fn builder() -> B;
}

/// Mathematical value of the aggregate.
#[verifier::ext_equal]
pub ghost struct BoardAggregateV {
    pub board: BoardV,
    pub comments: Seq<CommentV>,
    pub events: Seq<BoardEventV>,
}

/// The board, its comments, and the events raised since the last
/// persistence.
pub struct BoardAggregate {
    pub board: Board,
    pub comments: Vec<Comment>,
    pub events: Vec<BoardEvent>,
}

impl View for BoardAggregate {
    type V = BoardAggregateV;

    open spec fn view(&self) -> BoardAggregateV {
        BoardAggregateV {
            board: self.board@,
            comments: self.comments@.map_values(|c: Comment| c@),
            events: self.events@.map_values(|e: BoardEvent| e@),
        }
    }
}

/// The board value a builder starts from: everything blank.
pub open spec fn spec_blank_board() -> BoardV {
    BoardV {
        id: Seq::empty(),
        author: Seq::empty(),
        title: Seq::empty(),
        content: Seq::empty(),
        state: BoardState::Unpublished,
        create_dt: 0,
        version: 0,
    }
}

/// The aggregate value a builder starts from.
pub open spec fn spec_blank_aggregate() -> BoardAggregateV {
    BoardAggregateV {
        board: spec_blank_board(),
        comments: Seq::empty(),
        events: Seq::empty(),
    }
}

impl BoardAggregate {
    /// Queued events, in the order they were raised.
    pub fn events(&self) -> (r: &Vec<BoardEvent>)
        ensures
            r@.map_values(|e: BoardEvent| e@) == self@.events,
    {
        &self.events
    }

    /// Drains the queue: every raised event leaves the aggregate.
    pub fn take_events(&mut self) -> (r: Vec<BoardEvent>)
        ensures
            r@.map_values(|e: BoardEvent| e@) == old(self)@.events,
            final(self)@.events == Seq::<BoardEventV>::empty(),
            final(self)@.board == old(self)@.board,
            final(self)@.comments == old(self)@.comments,
    {
        let mut taken: Vec<BoardEvent> = Vec::new();
        core::mem::swap(&mut self.events, &mut taken);
        proof {
            assert(final(self)@.events =~= Seq::<BoardEventV>::empty());
        }
        taken
    }

    /// Same drain the repository uses while collecting.
    pub fn collect_events(&mut self) -> (r: Vec<BoardEvent>)
        ensures
            r@.map_values(|e: BoardEvent| e@) == old(self)@.events,
            final(self)@.events == Seq::<BoardEventV>::empty(),
            final(self)@.board == old(self)@.board,
            final(self)@.comments == old(self)@.comments,
    {
        self.take_events()
    }

    /// Appends one event to the queue.
    pub fn raise_event(&mut self, event: BoardEvent)
        ensures
            final(self)@.events == old(self)@.events.push(event@),
            final(self)@.board == old(self)@.board,
            final(self)@.comments == old(self)@.comments,
    {
        self.events.push(event);
        proof {
            assert(final(self)@.events =~= old(self)@.events.push(event@));
        }
    }

    /// Replaces the root with a fresh board built from the command and
    /// raises the `BoardCreated` event carrying the new board's fields.
    pub fn create_board(&mut self, cmd: CreateBoard)
        ensures
            final(self)@.board.id.len() == 36,
            final(self)@.board.author == cmd@.author,
            final(self)@.board.title == cmd@.title,
            final(self)@.board.content == cmd@.content,
            final(self)@.board.state == cmd@.state,
            final(self)@.board.version == 0,
            final(self)@.comments == old(self)@.comments,
            final(self)@.events == old(self)@.events.push(
                BoardEventV::Created(
                    (BoardCreatedV {
                        id: final(self)@.board.id,
                        author: cmd@.author,
                        title: cmd@.title,
                        content: cmd@.content,
                        state: cmd@.state,
                    }),
                ),
            ),
    {
        let board = Board::new(
            cmd.author.as_str(),
            cmd.title.as_str(),
            cmd.content.as_str(),
            cmd.state,
        );
        let event = BoardCreated {
            id: board.id.clone(),
            author: board.author.clone(),
            title: board.title.clone(),
            content: board.content.clone(),
            state: board.state,
        };
        self.board = board;
        self.raise_event(BoardEvent::Created(event));
    }

    /// Applies the given fields to the root and raises the
    /// `BoardUpdated` event carrying exactly the command's changes.
    pub fn update_board(&mut self, cmd: EditBoard)
        ensures
            final(self)@.board == (BoardV {
                title: match cmd@.title {
                    Some(t) => t,
                    None => old(self)@.board.title,
                },
                content: match cmd@.content {
                    Some(c) => c,
                    None => old(self)@.board.content,
                },
                state: match cmd@.state {
                    Some(s) => s,
                    None => old(self)@.board.state,
                },
                ..old(self)@.board
            }),
            final(self)@.comments == old(self)@.comments,
            final(self)@.events == old(self)@.events.push(
                BoardEventV::Updated(
                    (BoardUpdatedV {
                        id: old(self)@.board.id,
                        title: cmd@.title,
                        content: cmd@.content,
                        state: cmd@.state,
                    }),
                ),
            ),
    {
        let event_id = self.board.id.clone();
        match &cmd.title {
            Some(title) => {
                self.board.title = title.clone();
            },
            None => {},
        }
        match &cmd.content {
            Some(content) => {
                self.board.content = content.clone();
            },
            None => {},
        }
        match &cmd.state {
            Some(state) => {
                self.board.state = *state;
            },
            None => {},
        }
        self.raise_event(
            BoardEvent::Updated(
                BoardUpdated {
                    id: event_id,
                    title: cmd.title,
                    content: cmd.content,
                    state: cmd.state,
                },
            ),
        );
        proof {
            assert(final(self)@.board =~= BoardV {
                title: match cmd@.title {
                    Some(t) => t,
                    None => old(self)@.board.title,
                },
                content: match cmd@.content {
                    Some(c) => c,
                    None => old(self)@.board.content,
                },
                state: match cmd@.state {
                    Some(s) => s,
                    None => old(self)@.board.state,
                },
                ..old(self)@.board
            });
        }
    }

    /// Adds a comment in `Pending` state under the root's id and raises
    /// the `BoardCommentAdded` event describing it.
    pub fn add_comment(&mut self, cmd: AddComment)
        ensures
            final(self)@.board == old(self)@.board,
            final(self)@.comments.len() == old(self)@.comments.len() + 1,
            final(self)@.comments.take(old(self)@.comments.len() as int) == old(self)@.comments,
            final(self)@.comments.last().id.len() == 36,
            final(self)@.comments.last().board_id == old(self)@.board.id,
            final(self)@.comments.last().author == cmd@.author,
            final(self)@.comments.last().content == cmd@.content,
            final(self)@.comments.last().state == CommentState::Pending,
            final(self)@.events == old(self)@.events.push(
                BoardEventV::CommentAdded(
                    (BoardCommentAddedV {
                        id: old(self)@.board.id,
                        author: cmd@.author,
                        content: cmd@.content,
                        state: CommentState::Pending,
                    }),
                ),
            ),
    {
        let comment = Comment::new(
            self.board.id.as_str(),
            cmd.author.as_str(),
            cmd.content.as_str(),
        );
        let event = BoardCommentAdded {
            id: self.board.id.clone(),
            author: cmd.author,
            content: cmd.content,
            state: CommentState::Pending,
        };
        let ghost cv = comment@;
        self.comments.push(comment);
        proof {
            assert(self@.comments =~= old(self)@.comments.push(cv));
            assert(self@.comments.take(old(self)@.comments.len() as int) =~= old(self)@.comments);
        }
        self.raise_event(BoardEvent::CommentAdded(event));
    }

    /// Marks the root deleted; a deletion is an update like any other
    /// and is persisted by the next `update`.
    pub fn delete(&mut self)
        ensures
            final(self)@.board == (BoardV { state: BoardState::Deleted, ..old(self)@.board }),
            final(self)@.comments == old(self)@.comments,
            final(self)@.events == old(self)@.events,
    {
        self.board.state = BoardState::Deleted;
        proof {
            assert(final(self)@.board =~= BoardV {
                state: BoardState::Deleted,
                ..old(self)@.board
            });
        }
    }

    /// Rewrites the content of the first comment with the given id, or
    /// reports that no comment has it.
    pub fn edit_comment(&mut self, cmd: EditComment) -> (r: Result<(), ApplicationError>)
        ensures
            match r {
                Ok(()) => exists|k: int|
                    {
                        &&& 0 <= k < old(self)@.comments.len()
                        &&& old(self)@.comments[k].id == cmd@.id
                        &&& (forall|j: int|
                            0 <= j < k ==> old(self)@.comments[j].id != cmd@.id)
                        &&& final(self)@.comments == old(self)@.comments.update(
                            k,
                            (CommentV { content: cmd@.content, ..old(self)@.comments[k] }),
                        )
                    },
                Err(e) => e is EntityNotFound && final(self)@ == old(self)@ && (forall|k: int|
                    0 <= k < old(self)@.comments.len() ==> old(self)@.comments[k].id != cmd@.id),
            },
            final(self)@.board == old(self)@.board,
            final(self)@.events == old(self)@.events,
    {
        let n = self.comments.len();
        let mut i: usize = 0;
        while i < n
            invariant
                i <= n,
                n == self.comments@.len(),
                self@ == old(self)@,
                forall|j: int| 0 <= j < i ==> old(self)@.comments[j].id != cmd@.id,
            decreases n - i,
        {
            proof {
                assert(self@.comments[i as int] == self.comments@[i as int]@);
            }
            if self.comments[i].id.eq(&cmd.id) {
                let mut updated = self.comments[i].duplicate();
                updated.content = cmd.content;
                proof {
                    assert(updated@ =~= CommentV {
                        content: cmd@.content,
                        ..old(self)@.comments[i as int]
                    });
                }
                let ghost pre = self.comments@;
                self.comments[i] = updated;
                proof {
                    assert(self.comments@ == pre.update(i as int, updated));
                    assert(final(self)@.comments =~= old(self)@.comments.update(
                        i as int,
                        (CommentV { content: cmd@.content, ..old(self)@.comments[i as int] }),
                    ));
                }
                return Ok(());
            }
            i = i + 1;
        }
        Err(ApplicationError::EntityNotFound)
    }
}

/// Assembles a board aggregate from parts.
pub struct BoardAggregateBuilder(pub BoardAggregate);

impl BoardAggregateBuilder {
    /// Uses the given board as the root.
    pub fn take_board(self, board: Board) -> (r: Self)
        ensures
            r.0@ == (BoardAggregateV { board: board@, ..self.0@ }),
    {
        let BoardAggregateBuilder(mut agg) = self;
        agg.board = board;
        let r = BoardAggregateBuilder(agg);
        proof {
            assert(r.0@ =~= BoardAggregateV { board: board@, ..self.0@ });
        }
        r
    }

    /// Uses the given comments.
    pub fn take_comments(self, comments: Vec<Comment>) -> (r: Self)
        ensures
            r.0@ == (BoardAggregateV {
                comments: comments@.map_values(|c: Comment| c@),
                ..self.0@
            }),
    {
        let BoardAggregateBuilder(mut agg) = self;
        agg.comments = comments;
        let r = BoardAggregateBuilder(agg);
        proof {
            assert(r.0@ =~= BoardAggregateV {
                comments: comments@.map_values(|c: Comment| c@),
                ..self.0@
            });
        }
        r
    }
}

impl Builder<BoardAggregate> for BoardAggregateBuilder {
    fn new() -> (r: Self)
        ensures
            r.0@ == spec_blank_aggregate(),
    {
        let r = BoardAggregateBuilder(
            BoardAggregate {
                board: Board {
                    id: String::new(),
                    author: String::new(),
                    title: String::new(),
                    content: String::new(),
                    state: BoardState::Unpublished,
                    create_dt: 0,
                    version: 0,
                },
                comments: Vec::new(),
                events: Vec::new(),
            },
        );
        proof {
            assert(r.0@ =~= spec_blank_aggregate());
        }
        r
    }

    fn build(self) -> (r: BoardAggregate)
        ensures
            r@ == self.0@,
    {
        self.0
    }
}

impl Buildable<BoardAggregate, BoardAggregateBuilder> for BoardAggregate {
    fn builder() -> (r: BoardAggregateBuilder)
        ensures
            r.0@ == spec_blank_aggregate(),
    {
        BoardAggregateBuilder::new()
    }
}

} // verus!
