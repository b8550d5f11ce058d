//! Board and comment entities: the rows of the two aggregate tables.
//!
//! A `Board` row carries an optimistic-concurrency `version`; a `Comment`
//! row carries the lifecycle state that decides whether an update of the
//! aggregate persists it (`Pending` inserts it as `Created`,
//! `UpdatePending` rewrites its content).

use vstd::prelude::*;

use crate::support::{current_unix_millis, generate_uuid};

verus! {

#[derive(Clone, Copy, PartialEq, Eq, Structural, Debug)]
pub enum BoardState {
    Unpublished,
    Published,
    Deleted,
}

impl Default for BoardState {
    fn default() -> (r: Self)
        ensures
            r == BoardState::Unpublished,
    {
        BoardState::Unpublished
    }
}

impl BoardState {
    /// The stable text of the state, as stored and displayed.
    pub fn state(&self) -> (r: &'static str)
        ensures
            r@ == self.spec_state_text(),
    {
        match self {
            BoardState::Unpublished => "Unpublished",
            BoardState::Published => "Published",
            BoardState::Deleted => "Deleted",
        }
    }

    pub open spec fn spec_state_text(&self) -> Seq<char> {
        match self {
            BoardState::Unpublished => "Unpublished"@,
            BoardState::Published => "Published"@,
            BoardState::Deleted => "Deleted"@,
        }
    }
}

#[derive(Clone, Copy, PartialEq, Eq, Structural, Debug)]
pub enum CommentState {
    Created,
    Deleted,
    Pending,
    UpdatePending,
}

impl Default for CommentState {
    fn default() -> (r: Self)
        ensures
            r == CommentState::Created,
    {
        CommentState::Created
    }
}

impl CommentState {
    /// The stable text of the state, as stored and displayed.
    pub fn state(&self) -> (r: &'static str)
        ensures
            r@ == self.spec_state_text(),
    {
        match self {
            CommentState::Created => "Created",
            CommentState::Deleted => "Deleted",
            CommentState::Pending => "Pending",
            CommentState::UpdatePending => "UpdatePending",
        }
    }

    pub open spec fn spec_state_text(&self) -> Seq<char> {
        match self {
            CommentState::Created => "Created"@,
            CommentState::Deleted => "Deleted"@,
            CommentState::Pending => "Pending"@,
            CommentState::UpdatePending => "UpdatePending"@,
        }
    }
}

/// Mathematical value of a `Board` row.
#[verifier::ext_equal]
pub ghost struct BoardV {
    pub id: Seq<char>,
    pub author: Seq<char>,
    pub title: Seq<char>,
    pub content: Seq<char>,
    pub state: BoardState,
    pub create_dt: i64,
    pub version: i32,
}

pub struct Board {
    pub id: String,
    pub author: String,
    pub title: String,
    pub content: String,
    pub state: BoardState,
    pub create_dt: i64,
    pub version: i32,
}

impl View for Board {
    type V = BoardV;

    open spec fn view(&self) -> BoardV {
        BoardV {
            id: self.id@,
            author: self.author@,
            title: self.title@,
            content: self.content@,
            state: self.state,
            create_dt: self.create_dt,
            version: self.version,
        }
    }
}

impl Board {
    /// A fresh board: random 36-character id, version 0, creation time
    /// taken from the clock.
    pub fn new(author: &str, title: &str, content: &str, state: BoardState) -> (r: Board)
        ensures
            r@.id.len() == 36,
            r@.author == author@,
            r@.title == title@,
            r@.content == content@,
            r@.state == state,
            r@.version == 0,
    {
        Board {
            id: generate_uuid(),
            author: author.to_owned(),
            title: title.to_owned(),
            content: content.to_owned(),
            state,
            create_dt: current_unix_millis(),
            version: 0,
        }
    }

    pub fn state(&self) -> (r: &'static str)
        ensures
            r@ == self.state.spec_state_text(),
    {
        self.state.state()
    }

    /// Value copy of the row; `String` fields are cloned.
    pub fn duplicate(&self) -> (r: Board)
        ensures
            r@ == self@,
    {
        Board {
            id: self.id.clone(),
            author: self.author.clone(),
            title: self.title.clone(),
            content: self.content.clone(),
            state: self.state,
            create_dt: self.create_dt,
            version: self.version,
        }
    }
}

/// Mathematical value of a `Comment` row.
#[verifier::ext_equal]
pub ghost struct CommentV {
    pub id: Seq<char>,
    pub board_id: Seq<char>,
    pub author: Seq<char>,
    pub content: Seq<char>,
    pub state: CommentState,
    pub create_dt: i64,
}

pub struct Comment {
    pub id: String,
    pub board_id: String,
    pub author: String,
    pub content: String,
    pub state: CommentState,
    pub create_dt: i64,
}

impl View for Comment {
    type V = CommentV;

    open spec fn view(&self) -> CommentV {
        CommentV {
            id: self.id@,
            board_id: self.board_id@,
            author: self.author@,
            content: self.content@,
            state: self.state,
            create_dt: self.create_dt,
        }
    }
}

impl Comment {
    /// A fresh comment in `Pending` state: it is persisted (as `Created`)
    /// only by the next update of its aggregate.
    pub fn new(board_id: &str, author: &str, content: &str) -> (r: Comment)
        ensures
            r@.id.len() == 36,
            r@.board_id == board_id@,
            r@.author == author@,
            r@.content == content@,
            r@.state == CommentState::Pending,
    {
        Comment {
            id: generate_uuid(),
            board_id: board_id.to_owned(),
            author: author.to_owned(),
            content: content.to_owned(),
            state: CommentState::Pending,
            create_dt: current_unix_millis(),
        }
    }

    pub fn state(&self) -> (r: &'static str)
        ensures
            r@ == self.state.spec_state_text(),
    {
        self.state.state()
    }

    /// Value copy of the row; `String` fields are cloned.
    pub fn duplicate(&self) -> (r: Comment)
        ensures
            r@ == self@,
    {
        Comment {
            id: self.id.clone(),
            board_id: self.board_id.clone(),
            author: self.author.clone(),
            content: self.content.clone(),
            state: self.state,
            create_dt: self.create_dt,
        }
    }
}

} // verus!
