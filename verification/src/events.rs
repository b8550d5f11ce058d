//! Domain events raised by the board aggregate.
//!
//! Every event carries the id of its aggregate and has a stable topic.
//! Two independent flags govern what commit does with it: an externally
//! notifiable event is written to the outbox table inside the same
//! transaction; an internally notifiable one is enqueued for the bus's
//! in-process event handlers.  Of the board events, only `BoardCreated`
//! carries either flag.

use vstd::prelude::*;

use crate::entity::{BoardState, CommentState};
use crate::json::spec_state_json;
use crate::outbox::Outbox;

verus! {

/// Mathematical value of a `BoardCreated` event.
#[verifier::ext_equal]
pub ghost struct BoardCreatedV {
    pub id: Seq<char>,
    pub author: Seq<char>,
    pub title: Seq<char>,
    pub content: Seq<char>,
    pub state: BoardState,
}

pub struct BoardCreated {
    pub id: String,
    pub author: String,
    pub title: String,
    pub content: String,
    pub state: BoardState,
}

impl View for BoardCreated {
    type V = BoardCreatedV;

    open spec fn view(&self) -> BoardCreatedV {
        BoardCreatedV {
            id: self.id@,
            author: self.author@,
            title: self.title@,
            content: self.content@,
            state: self.state,
        }
    }
}

/// Mathematical value of a `BoardUpdated` event.
#[verifier::ext_equal]
pub ghost struct BoardUpdatedV {
    pub id: Seq<char>,
    pub title: Option<Seq<char>>,
    pub content: Option<Seq<char>>,
    pub state: Option<BoardState>,
}

pub struct BoardUpdated {
    pub id: String,
    pub title: Option<String>,
    pub content: Option<String>,
    pub state: Option<BoardState>,
}

impl View for BoardUpdated {
    type V = BoardUpdatedV;

    open spec fn view(&self) -> BoardUpdatedV {
        BoardUpdatedV {
            id: self.id@,
            title: match self.title {
                Some(t) => Some(t@),
                None => None,
            },
            content: match self.content {
                Some(c) => Some(c@),
                None => None,
            },
            state: self.state,
        }
    }
}

/// Mathematical value of a `BoardCommentAdded` event.
#[verifier::ext_equal]
pub ghost struct BoardCommentAddedV {
    pub id: Seq<char>,
    pub author: Seq<char>,
    pub content: Seq<char>,
    pub state: CommentState,
}

pub struct BoardCommentAdded {
    pub id: String,
    pub author: String,
    pub content: String,
    pub state: CommentState,
}

impl View for BoardCommentAdded {
    type V = BoardCommentAddedV;

    open spec fn view(&self) -> BoardCommentAddedV {
        BoardCommentAddedV {
            id: self.id@,
            author: self.author@,
            content: self.content@,
            state: self.state,
        }
    }
}

/// Mathematical value of a board event.
#[verifier::ext_equal]
pub ghost enum BoardEventV {
    Created(BoardCreatedV),
    Updated(BoardUpdatedV),
    CommentAdded(BoardCommentAddedV),
}

/// The closed sum of the board aggregate's events, in place of the
/// type-erased message objects a reflective dispatcher would use.
pub enum BoardEvent {
    Created(BoardCreated),
    Updated(BoardUpdated),
    CommentAdded(BoardCommentAdded),
}

impl View for BoardEvent {
    type V = BoardEventV;

    open spec fn view(&self) -> BoardEventV {
        match self {
            BoardEvent::Created(e) => BoardEventV::Created(e@),
            BoardEvent::Updated(e) => BoardEventV::Updated(e@),
            BoardEvent::CommentAdded(e) => BoardEventV::CommentAdded(e@),
        }
    }
}

/// The aggregate id and topic under which an event is dispatched.
pub struct MessageMetadata {
    pub aggregate_id: String,
    pub topic: String,
}

/// Topic of an event: the stable name of its variant.
pub open spec fn spec_topic(e: BoardEventV) -> Seq<char> {
    match e {
        BoardEventV::Created(_) => "BoardCreated"@,
        BoardEventV::Updated(_) => "BoardUpdated"@,
        BoardEventV::CommentAdded(_) => "BoardCommentAdded"@,
    }
}

/// Aggregate id an event speaks of.
pub open spec fn spec_aggregate_id(e: BoardEventV) -> Seq<char> {
    match e {
        BoardEventV::Created(v) => v.id,
        BoardEventV::Updated(v) => v.id,
        BoardEventV::CommentAdded(v) => v.id,
    }
}

/// Only `BoardCreated` is written to the outbox.
pub open spec fn spec_externally_notifiable(e: BoardEventV) -> bool {
    e is Created
}

/// Only `BoardCreated` is re-dispatched to in-process handlers.
pub open spec fn spec_internally_notifiable(e: BoardEventV) -> bool {
    e is Created
}

impl BoardEvent {
    pub fn externally_notifiable(&self) -> (r: bool)
        ensures
            r == spec_externally_notifiable(self@),
    {
        match self {
            BoardEvent::Created(_) => true,
            BoardEvent::Updated(_) => false,
            BoardEvent::CommentAdded(_) => false,
        }
    }

    pub fn internally_notifiable(&self) -> (r: bool)
        ensures
            r == spec_internally_notifiable(self@),
    {
        match self {
            BoardEvent::Created(_) => true,
            BoardEvent::Updated(_) => false,
            BoardEvent::CommentAdded(_) => false,
        }
    }

    pub fn metadata(&self) -> (r: MessageMetadata)
        ensures
            r.aggregate_id@ == spec_aggregate_id(self@),
            r.topic@ == spec_topic(self@),
    {
        match self {
            BoardEvent::Created(e) => MessageMetadata {
                aggregate_id: e.id.clone(),
                topic: "BoardCreated".to_owned(),
            },
            BoardEvent::Updated(e) => MessageMetadata {
                aggregate_id: e.id.clone(),
                topic: "BoardUpdated".to_owned(),
            },
            BoardEvent::CommentAdded(e) => MessageMetadata {
                aggregate_id: e.id.clone(),
                topic: "BoardCommentAdded".to_owned(),
            },
        }
    }

    /// The serialized payload that crosses the outbox boundary.
    pub fn state(&self) -> (r: String)
        ensures
            r@ == spec_state_json(self@),
    {
        crate::json::encode_event(self)
    }

    /// The outbox row recording this event: fresh id, unprocessed.
    pub fn outbox(&self) -> (r: Outbox)
        ensures
            r@.id.len() == 36,
            r@.aggregate_id == spec_aggregate_id(self@),
            r@.topic == spec_topic(self@),
            r@.state == spec_state_json(self@),
            r@.processed == false,
            r@.create_dt == 0,
    {
        let metadata = self.metadata();
        Outbox::new(metadata.aggregate_id, metadata.topic, self.state())
    }

    /// Value copy of the event; `String` fields are cloned.
    pub fn message_clone(&self) -> (r: BoardEvent)
        ensures
            r@ == self@,
    {
        match self {
            BoardEvent::Created(e) => BoardEvent::Created(BoardCreated {
                id: e.id.clone(),
                author: e.author.clone(),
                title: e.title.clone(),
                content: e.content.clone(),
                state: e.state,
            }),
            BoardEvent::Updated(e) => BoardEvent::Updated(BoardUpdated {
                id: e.id.clone(),
                title: match &e.title {
                    Some(t) => Some(t.clone()),
                    None => None,
                },
                content: match &e.content {
                    Some(c) => Some(c.clone()),
                    None => None,
                },
                state: e.state,
            }),
            BoardEvent::CommentAdded(e) => BoardEvent::CommentAdded(BoardCommentAdded {
                id: e.id.clone(),
                author: e.author.clone(),
                content: e.content.clone(),
                state: e.state,
            }),
        }
    }
}

} // verus!
