use service_library::bootstrap::Boostrap;
use service_library::commands::{AddComment, ApplicationCommand, CreateBoard, EditBoard, ServiceResponse};
use service_library::database::ContextManager;
use service_library::entity::BoardState;
use service_library::handlers::ServiceHandler;
use service_library::outbox::Outbox;
use service_library::repository::Repository;
use uuid::Uuid;
use service_library::errors::ApplicationError;

fn outbox_setup(ctx: &mut ContextManager) -> String {
    let cmd = CreateBoard {
        author: Uuid::new_v4().to_string(),
        title: "Title!".to_string(),
        content: "Content".to_string(),
        state: BoardState::Published,
    };

    match ServiceHandler::create_board(cmd, ctx) {
        Err(err) => {
            panic!("Service Handling Failed! {}", err.kind_text())
        }
        Ok(response) => {
            let id: String = response.try_into_string().unwrap();
            let repo = Repository::new();
            if let Err(err) = repo.get(&ctx.executor, &id) {
                panic!("Fetching newly created object failed! : {}", err.kind_text());
            };
            id
        }
    }
}

#[test]
fn test_create_board_leaves_outbox() {
    let mut ctx = ContextManager::new();
    outbox_setup(&mut ctx);

    match Outbox::get(&ctx.executor) {
        Err(err) => {
            println!("{}", err.kind_text());
            panic!("Test Failed! Outbox Not Stored!")
        }
        Ok(val) => {
            assert_eq!(val.len(), 1);
            assert_eq!(val[0].topic, "BoardCreated");
            assert!(!val[0].processed);
            println!("Outbox stored successfully!")
        }
    };
}

#[test]
fn test_edit_board_leaves_no_outbox_row() {

    let mut ctx = ContextManager::new();
    let id = outbox_setup(&mut ctx);
    let before = Outbox::get(&ctx.executor).unwrap().len();

    let cmd = EditBoard {
        id,
        title: Some("Changed".into()),
        content: None,
        state: None,
    };
    ServiceHandler::edit_board(cmd, &mut ctx).unwrap();
    let after = Outbox::get(&ctx.executor).unwrap().len();
    assert_eq!(before, after);
}

#[test]
fn test_add_comment_leaves_no_outbox_row() {

    let mut ctx = ContextManager::new();
    let id = outbox_setup(&mut ctx);
    let before = Outbox::get(&ctx.executor).unwrap().len();

    let cmd = AddComment {
        board_id: id,
        author: Uuid::new_v4().to_string(),
        content: "A comment".into(),
    };
    ServiceHandler::add_comment(cmd, &mut ctx).unwrap();
    let after = Outbox::get(&ctx.executor).unwrap().len();
    assert_eq!(before, after);
}

#[test]
fn test_convert_event() {
    let mut ctx = ContextManager::new();
    outbox_setup(&mut ctx);

    let vec_of_outbox = Outbox::get(&ctx.executor).unwrap();

    assert_eq!(vec_of_outbox.len(), 1);
    let event = vec_of_outbox[0].convert_event().unwrap();
    assert!(event.externally_notifiable());

    // The payload decodes back into exactly the event that was stored.
    assert_eq!(event.state(), vec_of_outbox[0].state);
    println!("Success!")
}

#[test]
fn test_outbox_payload_is_real_json() {
    let mut ctx = ContextManager::new();
    let id = outbox_setup(&mut ctx);

    let rows = Outbox::get(&ctx.executor).unwrap();
    let value: serde_json::Value = serde_json::from_str(&rows[0].state).unwrap();
    assert_eq!(value["id"], serde_json::Value::from(id.as_str()));
    assert_eq!(value["title"], serde_json::Value::from("Title!"));
    assert_eq!(value["content"], serde_json::Value::from("Content"));
    assert_eq!(value["state"], serde_json::Value::from("Published"));
}

#[test]
fn test_outbox_event_handled_by_messagebus() {
    let mut ctx = ContextManager::new();
    let mut bus = Boostrap::message_bus();

    let cmd = CreateBoard {
        author: Uuid::new_v4().to_string(),
        title: "Title!".to_string(),
        content: "Content".to_string(),
        state: BoardState::Published,
    };
    let Ok(ServiceResponse::String(_id)) = bus.handle(ApplicationCommand::CreateBoard(cmd), &mut ctx)
    else {
        panic!("Failed!")
    };

    for e in Outbox::get(&ctx.executor).unwrap() {
        match bus.handle(ApplicationCommand::HandleOutbox(e), &mut ctx) {
            Ok(_var) => {
                println!("Success!")
            }
            Err(_) => panic!("Failed!"),
        }
    }

    let boxes = Outbox::get(&ctx.executor).unwrap();
    assert!(boxes.is_empty());
}

#[test]
fn test_convert_event_rejects_unknown_topic() {

    let row = Outbox::new("some-aggregate".into(), "BoardUpdated".into(), "{}".into());
    let result = row.convert_event();
    assert!(matches!(result, Err(ApplicationError::EventNotFound)));
}

#[test]
fn test_convert_event_rejects_malformed_payload() {

    let row = Outbox::new(
        "some-aggregate".into(),
        "BoardCreated".into(),
        "{\"id\":broken".into(),
    );
    let result = row.convert_event();
    assert!(matches!(
        result,
        Err(ApplicationError::DeserializationError(_))
    ));
}
