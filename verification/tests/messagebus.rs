use service_library::bootstrap::{Boostrap, CommandHandlerMap, EventHandlerKind, EventHandlerMap, init_command_handler};
use service_library::commands::{AddComment, ApplicationCommand, CreateBoard, EditBoard, ServiceResponse};
use service_library::database::ContextManager;
use service_library::entity::BoardState;
use service_library::repository::Repository;
use uuid::Uuid;
use service_library::errors::ApplicationError;
use service_library::messagebus::MessageBus;

#[test]
fn test_message_bus_create_board() {
    let mut ms = Boostrap::message_bus();
    let mut ctx = ContextManager::new();
    let cmd = CreateBoard {
        author: Uuid::new_v4().to_string(),
        title: "TestTitle".into(),
        content: "TestContent".into(),
        state: Default::default(),
    };

    let Ok(ServiceResponse::String(var)) = ms.handle(ApplicationCommand::CreateBoard(cmd), &mut ctx)
    else {
        panic!("Test Failed!")
    };

    let repo = Repository::new();
    match repo.get(&ctx.executor, &var) {
        Ok(_created_board) => println!("Success!"),
        Err(err) => {
            println!("{}", err.kind_text());
            panic!("Something wrong")
        }
    };
}

#[test]
fn test_message_bus_edit_board() {
    let mut ms = Boostrap::message_bus();
    let mut ctx = ContextManager::new();
    let create_cmd = CreateBoard {
        author: Uuid::new_v4().to_string(),
        title: "TestTitle".into(),
        content: "TestContent".into(),
        state: Default::default(),
    };
    let Ok(ServiceResponse::String(id)) = ms.handle(ApplicationCommand::CreateBoard(create_cmd), &mut ctx)
    else {
        panic!("There must be!")
    };

    let edit_cmd = EditBoard {
        id: id.clone(),
        title: Some("TestTitle2".into()),
        content: Some("ChangedContent".into()),
        state: Default::default(),
    };
    let Ok(ServiceResponse::Empty(())) = ms.handle(ApplicationCommand::EditBoard(edit_cmd), &mut ctx)
    else {
        panic!("There must be!")
    };
    let repo = Repository::new();
    let Ok(aggregate) = repo.get(&ctx.executor, &id) else {
        panic!("Something wrong")
    };

    assert_eq!(&aggregate.board.title, "TestTitle2");
    assert_eq!(&aggregate.board.content, "ChangedContent");
}

#[test]
fn test_message_bus_add_comment() {
    let mut ms = Boostrap::message_bus();
    let mut ctx = ContextManager::new();
    let create_cmd = CreateBoard {
        author: Uuid::new_v4().to_string(),
        title: "TestTitle".into(),
        content: "TestContent".into(),
        state: Default::default(),
    };
    let Ok(ServiceResponse::String(id)) = ms.handle(ApplicationCommand::CreateBoard(create_cmd), &mut ctx)
    else {
        panic!("There must be!")
    };

    let add_comment_cmd = AddComment {
        board_id: id.clone(),
        author: Uuid::new_v4().to_string(),
        content: "Good Content!".into(),
    };
    let Ok(ServiceResponse::Empty(())) = ms.handle(ApplicationCommand::AddComment(add_comment_cmd), &mut ctx)
    else {
        panic!("Test Failed!")
    };

    let repo = Repository::new();
    let Ok(aggregate) = repo.get(&ctx.executor, &id) else {
        panic!("Something wrong")
    };

    assert_eq!(aggregate.comments.len(), 1);
}

#[test]
fn test_message_bus_unknown_command_is_rejected() {

    let mut ms = MessageBus::new(CommandHandlerMap::new(), EventHandlerMap::new());
    let mut ctx = ContextManager::new();
    let cmd = CreateBoard {
        author: Uuid::new_v4().to_string(),
        title: "TestTitle".into(),
        content: "TestContent".into(),
        state: BoardState::Published,
    };
    let result = ms.handle(ApplicationCommand::CreateBoard(cmd), &mut ctx);
    assert!(matches!(result, Err(ApplicationError::CommandNotFound)));
    assert_eq!(ms.book_keeper, 0);
}

#[test]
fn test_message_bus_counts_event_handler_runs() {
    let mut ms = Boostrap::message_bus();
    let mut ctx = ContextManager::new();
    let cmd = CreateBoard {
        author: Uuid::new_v4().to_string(),
        title: "TestTitle".into(),
        content: "TestContent".into(),
        state: BoardState::Published,
    };
    let result = ms.handle(ApplicationCommand::CreateBoard(cmd), &mut ctx);
    assert!(result.is_ok());
    // Both handlers registered for BoardCreated ran.
    assert_eq!(ms.book_keeper, 2);
}

#[test]
fn test_stop_sentinel_halts_remaining_handlers() {

    let mut events = EventHandlerMap::new();
    events.register_event("BoardCreated".to_owned(), EventHandlerKind::TestEventHandler);
    events.register_event("BoardCreated".to_owned(), EventHandlerKind::StopHandler);
    events.register_event("BoardCreated".to_owned(), EventHandlerKind::TestEventHandler2);
    let mut ms = MessageBus::new(init_command_handler(), events);
    let mut ctx = ContextManager::new();
    let cmd = CreateBoard {
        author: Uuid::new_v4().to_string(),
        title: "TestTitle".into(),
        content: "TestContent".into(),
        state: BoardState::Published,
    };
    let Ok(ServiceResponse::String(id)) = ms.handle(ApplicationCommand::CreateBoard(cmd), &mut ctx)
    else {
        panic!("the command must still succeed")
    };
    // Only the handler before the sentinel ran; the one after did not.
    assert_eq!(ms.book_keeper, 1);
    // The command's own commit is unaffected by the sentinel.
    let repo = Repository::new();
    assert!(repo.get(&ctx.executor, &id).is_ok());
}

#[test]
fn test_failing_event_handler_is_skipped() {

    let mut events = EventHandlerMap::new();
    events.register_event("BoardCreated".to_owned(), EventHandlerKind::FailingHandler);
    events.register_event("BoardCreated".to_owned(), EventHandlerKind::TestEventHandler);
    let mut ms = MessageBus::new(init_command_handler(), events);
    let mut ctx = ContextManager::new();
    let cmd = CreateBoard {
        author: Uuid::new_v4().to_string(),
        title: "TestTitle".into(),
        content: "TestContent".into(),
        state: BoardState::Published,
    };
    let result = ms.handle(ApplicationCommand::CreateBoard(cmd), &mut ctx);
    // The failure is logged and skipped; the next handler still runs.
    assert!(result.is_ok());
    assert_eq!(ms.book_keeper, 2);
}
