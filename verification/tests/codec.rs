use service_library::entity::{BoardState, CommentState};
use service_library::events::{BoardCommentAdded, BoardCreated, BoardEvent, BoardUpdated};
use service_library::json::{decode_created, encode_created, encode_event};
use service_library::commands::ServiceResponse;
use service_library::errors::ApplicationError;
use service_library::web::{Exception, WebResponse};

#[test]
fn test_encode_created_matches_reference_encoder() {
    let event = BoardCreated {
        id: "11111111-2222-3333-4444-555555555555".into(),
        author: "66666666-7777-8888-9999-000000000000".into(),
        title: "with \"quotes\" and \\slashes\\".into(),
        content: "line\nbreak\ttab \u{7} bell".into(),
        state: BoardState::Unpublished,
    };
    let ours = encode_created(&event);
    let value: serde_json::Value = serde_json::from_str(&ours).unwrap();
    let reference = format!(
        "{{\"id\":{},\"author\":{},\"title\":{},\"content\":{},\"state\":{}}}",
        serde_json::to_string(&event.id).unwrap(),
        serde_json::to_string(&event.author).unwrap(),
        serde_json::to_string(&event.title).unwrap(),
        serde_json::to_string(&event.content).unwrap(),
        serde_json::to_string("Unpublished").unwrap(),
    );
    assert_eq!(ours, reference);
    assert_eq!(value["title"], serde_json::Value::from(event.title.as_str()));
}

#[test]
fn test_decode_inverts_encode() {
    let event = BoardCreated {
        id: "11111111-2222-3333-4444-555555555555".into(),
        author: "66666666-7777-8888-9999-000000000000".into(),
        title: "ordinary title — with unicode 한글".into(),
        content: "\\ \" \u{1} \u{1f} fin".into(),
        state: BoardState::Published,
    };
    let encoded = encode_created(&event);
    let decoded = decode_created(&encoded).unwrap();
    assert_eq!(decoded.id, event.id);
    assert_eq!(decoded.author, event.author);
    assert_eq!(decoded.title, event.title);
    assert_eq!(decoded.content, event.content);
    assert_eq!(decoded.state, event.state);
}

#[test]
fn test_decode_rejects_trailing_garbage() {
    let event = BoardCreated {
        id: "a".into(),
        author: "b".into(),
        title: "c".into(),
        content: "d".into(),
        state: BoardState::Deleted,
    };
    let mut encoded = encode_created(&event);
    encoded.push(' ');
    assert!(decode_created(&encoded).is_err());
}

#[test]
fn test_encode_updated_renders_nulls() {
    let event = BoardEvent::Updated(BoardUpdated {
        id: "board-1".into(),
        title: None,
        content: Some("fresh".into()),
        state: Some(BoardState::Deleted),
    });
    let payload = encode_event(&event);
    let value: serde_json::Value = serde_json::from_str(&payload).unwrap();
    assert!(value["title"].is_null());
    assert_eq!(value["content"], serde_json::Value::from("fresh"));
    assert_eq!(value["state"], serde_json::Value::from("Deleted"));
}

#[test]
fn test_encode_comment_added() {
    let event = BoardEvent::CommentAdded(BoardCommentAdded {
        id: "board-1".into(),
        author: "author-1".into(),
        content: "hello".into(),
        state: CommentState::Pending,
    });
    let payload = encode_event(&event);
    let value: serde_json::Value = serde_json::from_str(&payload).unwrap();
    assert_eq!(value["state"], serde_json::Value::from("Pending"));
    assert!(!event.externally_notifiable());
    assert!(!event.internally_notifiable());
}

#[test]
fn test_service_response_conversions() {

    assert_eq!(
        ServiceResponse::String("x".into()).try_into_string().unwrap(),
        "x"
    );
    assert!(ServiceResponse::Bool(true).try_into_bool().unwrap());
    assert!(ServiceResponse::Empty(()).try_into_unit().is_ok());
    assert!(matches!(
        ServiceResponse::Bool(false).try_into_string(),
        Err(ApplicationError::ParsingError)
    ));
}

#[test]
fn test_exception_status_codes() {

    assert_eq!(Exception(ApplicationError::EntityNotFound).status_code(), 404);
    assert_eq!(Exception(ApplicationError::Conflict).status_code(), 409);
    assert_eq!(Exception(ApplicationError::TransactionError).status_code(), 502);
    assert_eq!(Exception(ApplicationError::StopSentinel).status_code(), 423);
    assert_eq!(
        Exception(ApplicationError::DatabaseConnectionError("boom".into())).error_message(),
        "boom"
    );
    assert_eq!(
        Exception(ApplicationError::EventNotFound).error_message(),
        "EventNotFound"
    );
}

#[test]
fn test_web_response_bodies() {

    assert_eq!(WebResponse(ServiceResponse::Bool(true)).body_text(), "true");
    assert_eq!(WebResponse(ServiceResponse::Bool(false)).body_text(), "false");
    assert_eq!(
        WebResponse(ServiceResponse::String("hi".into())).body_text(),
        "hi"
    );
    assert_eq!(WebResponse(ServiceResponse::Empty(())).body_text(), "");
}
