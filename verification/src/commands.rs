//! Commands and the service response.
//!
//! A command is an immutable request whose identity is its variant, not
//! an id; the bus resolves exactly one handler for it.  The closed sum
//! `ApplicationCommand` replaces the reflective, type-erased dispatch a
//! dynamic registry would need.

use vstd::prelude::*;

use crate::entity::BoardState;
use crate::errors::ApplicationError;
use crate::outbox::{Outbox, OutboxV};

verus! {

/// Mathematical value of a `CreateBoard` command.
#[verifier::ext_equal]
pub ghost struct CreateBoardV {
    pub author: Seq<char>,
    pub title: Seq<char>,
    pub content: Seq<char>,
    pub state: BoardState,
}

pub struct CreateBoard {
    pub author: String,
    pub title: String,
    pub content: String,
    pub state: BoardState,
}

impl View for CreateBoard {
    type V = CreateBoardV;

    open spec fn view(&self) -> CreateBoardV {
        CreateBoardV {
            author: self.author@,
            title: self.title@,
            content: self.content@,
            state: self.state,
        }
    }
}

/// Mathematical value of an `EditBoard` command.
#[verifier::ext_equal]
pub ghost struct EditBoardV {
    pub id: Seq<char>,
    pub title: Option<Seq<char>>,
    pub content: Option<Seq<char>>,
    pub state: Option<BoardState>,
}

pub struct EditBoard {
    pub id: String,
    pub title: Option<String>,
    pub content: Option<String>,
    pub state: Option<BoardState>,
}

impl View for EditBoard {
    type V = EditBoardV;

    open spec fn view(&self) -> EditBoardV {
        EditBoardV {
            id: self.id@,
            title: match self.title {
                Some(ref t) => Some(t@),
                None => None,
            },
            content: match self.content {
                Some(ref c) => Some(c@),
                None => None,
            },
            state: self.state,
        }
    }
}

/// Mathematical value of an `AddComment` command.
#[verifier::ext_equal]
pub ghost struct AddCommentV {
    pub board_id: Seq<char>,
    pub author: Seq<char>,
    pub content: Seq<char>,
}

pub struct AddComment {
    pub board_id: String,
    pub author: String,
    pub content: String,
}

impl View for AddComment {
    type V = AddCommentV;

    open spec fn view(&self) -> AddCommentV {
        AddCommentV { board_id: self.board_id@, author: self.author@, content: self.content@ }
    }
}

/// Mathematical value of an `EditComment` command.
#[verifier::ext_equal]
pub ghost struct EditCommentV {
    pub board_id: Seq<char>,
    pub id: Seq<char>,
    pub content: Seq<char>,
}

pub struct EditComment {
    pub board_id: String,
    pub id: String,
    pub content: String,
}

impl View for EditComment {
    type V = EditCommentV;

    open spec fn view(&self) -> EditCommentV {
        EditCommentV { board_id: self.board_id@, id: self.id@, content: self.content@ }
    }
}

/// Mathematical value of a command.
#[verifier::ext_equal]
pub ghost enum ApplicationCommandV {
    CreateBoard(CreateBoardV),
    EditBoard(EditBoardV),
    AddComment(AddCommentV),
    EditComment(EditCommentV),
    HandleOutbox(OutboxV),
}

/// The closed sum of every command the bus can handle.  An outbox row
/// resubmitted by the reconciler is a command like any other.
pub enum ApplicationCommand {
    CreateBoard(CreateBoard),
    EditBoard(EditBoard),
    AddComment(AddComment),
    EditComment(EditComment),
    HandleOutbox(Outbox),
}

impl View for ApplicationCommand {
    type V = ApplicationCommandV;

    open spec fn view(&self) -> ApplicationCommandV {
        match self {
            ApplicationCommand::CreateBoard(c) => ApplicationCommandV::CreateBoard(c@),
            ApplicationCommand::EditBoard(c) => ApplicationCommandV::EditBoard(c@),
            ApplicationCommand::AddComment(c) => ApplicationCommandV::AddComment(c@),
            ApplicationCommand::EditComment(c) => ApplicationCommandV::EditComment(c@),
            ApplicationCommand::HandleOutbox(o) => ApplicationCommandV::HandleOutbox(o@),
        }
    }
}

/// The registry key of a command: its runtime variant.
#[derive(Clone, Copy, PartialEq, Eq, Structural, Debug)]
pub enum CommandKind {
    CreateBoard,
    EditBoard,
    AddComment,
    EditComment,
    HandleOutbox,
}

pub open spec fn spec_kind_of(c: ApplicationCommandV) -> CommandKind {
    match c {
        ApplicationCommandV::CreateBoard(_) => CommandKind::CreateBoard,
        ApplicationCommandV::EditBoard(_) => CommandKind::EditBoard,
        ApplicationCommandV::AddComment(_) => CommandKind::AddComment,
        ApplicationCommandV::EditComment(_) => CommandKind::EditComment,
        ApplicationCommandV::HandleOutbox(_) => CommandKind::HandleOutbox,
    }
}

impl ApplicationCommand {
    pub fn kind(&self) -> (r: CommandKind)
        ensures
            r == spec_kind_of(self@),
    {
        match self {
            ApplicationCommand::CreateBoard(_) => CommandKind::CreateBoard,
            ApplicationCommand::EditBoard(_) => CommandKind::EditBoard,
            ApplicationCommand::AddComment(_) => CommandKind::AddComment,
            ApplicationCommand::EditComment(_) => CommandKind::EditComment,
            ApplicationCommand::HandleOutbox(_) => CommandKind::HandleOutbox,
        }
    }
}

/// Mathematical value of a service response.
#[verifier::ext_equal]
pub ghost enum ServiceResponseV {
    String(Seq<char>),
    Bool(bool),
    Empty,
}

/// What a command handler hands back to the caller.
pub enum ServiceResponse {
    String(String),
    Bool(bool),
    Empty(()),
}

impl View for ServiceResponse {
    type V = ServiceResponseV;

    open spec fn view(&self) -> ServiceResponseV {
        match self {
            ServiceResponse::String(s) => ServiceResponseV::String(s@),
            ServiceResponse::Bool(b) => ServiceResponseV::Bool(*b),
            ServiceResponse::Empty(_) => ServiceResponseV::Empty,
        }
    }
}

impl ServiceResponse {
    /// The carried string, or a parsing failure for the other variants.
    pub fn try_into_string(self) -> (r: Result<String, ApplicationError>)
        ensures
            match r {
                Ok(s) => self@ == ServiceResponseV::String(s@),
                Err(e) => e is ParsingError && !(self@ is String),
            },
    {
        match self {
            ServiceResponse::String(s) => Ok(s),
            _ => Err(ApplicationError::ParsingError),
        }
    }

    /// The carried flag, or a parsing failure for the other variants.
    pub fn try_into_bool(self) -> (r: Result<bool, ApplicationError>)
        ensures
            match r {
                Ok(b) => self@ == ServiceResponseV::Bool(b),
                Err(e) => e is ParsingError && !(self@ is Bool),
            },
    {
        match self {
            ServiceResponse::Bool(b) => Ok(b),
            _ => Err(ApplicationError::ParsingError),
        }
    }

    /// Nothing, or a parsing failure for the carrying variants.
    pub fn try_into_unit(self) -> (r: Result<(), ApplicationError>)
        ensures
            match r {
                Ok(()) => self@ is Empty,
                Err(e) => e is ParsingError && !(self@ is Empty),
            },
    {
        match self {
            ServiceResponse::Empty(()) => Ok(()),
            _ => Err(ApplicationError::ParsingError),
        }
    }
}

} // verus!
