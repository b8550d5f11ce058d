use service_library::commands::{AddComment, CreateBoard, EditBoard, EditComment};
use service_library::database::ContextManager;
use service_library::entity::{Board, BoardState};
use service_library::errors::ApplicationError;
use service_library::handlers::ServiceHandler;
use service_library::repository::Repository;
use service_library::unit_of_work::UnitOfWork;
use uuid::Uuid;
use service_library::aggregate::{BoardAggregate, Buildable, Builder};
use service_library::outbox::Outbox;

fn prepare_board(ctx: &mut ContextManager, state: BoardState) -> String {

    let builder = BoardAggregate::builder();
    let mut board_aggregate = builder
        .take_board(Board::new(
            &Uuid::new_v4().to_string(),
            "Let's try it",
            "Is this fun?",
            state,
        ))
        .build();

    let mut uow = UnitOfWork::new();
    uow.begin(ctx).unwrap();
    let id = uow
        .repository
        .add(&mut ctx.executor, &mut board_aggregate)
        .unwrap();
    assert_eq!(board_aggregate.board.id, id);
    uow.commit(ctx).unwrap();
    id
}

#[test]
fn service_test_create_board() {
    let mut ctx = ContextManager::new();

    let cmd = CreateBoard {
        author: Uuid::new_v4().to_string(),
        title: "Title!".to_string(),
        content: "Content".to_string(),
        state: BoardState::Published,
    };

    match ServiceHandler::create_board(cmd, &mut ctx) {
        Err(err) => {
            panic!("Service Handling Failed! {}", err.kind_text())
        }
        Ok(response) => {
            let id: String = response.try_into_string().unwrap();
            let repo = Repository::new();
            if let Err(err) = repo.get(&ctx.executor, &id) {
                panic!("Fetching newly created object failed! : {}", err.kind_text());
            };
        }
    }
}

#[test]
fn test_edit_board() {
    let mut ctx = ContextManager::new();
    let id = prepare_board(&mut ctx, BoardState::Published);

    let cmd = EditBoard {
        id: id.clone(),
        title: None,
        content: Some("Changed to this".to_string()),
        state: None,
    };

    match ServiceHandler::edit_board(cmd, &mut ctx) {
        Err(err) => {
            panic!("Service Handling Failed! {}", err.kind_text())
        }
        Ok(_res) => {
            let repo = Repository::new();
            if let Ok(board_aggregate) = repo.get(&ctx.executor, &id) {
                assert_eq!(board_aggregate.board.content, "Changed to this".to_string());
                assert_eq!(board_aggregate.board.version, 1);
            };
        }
    }
}

#[test]
fn test_add_comment() {
    let mut ctx = ContextManager::new();
    let id = prepare_board(&mut ctx, BoardState::Published);

    let cmd = AddComment {
        board_id: id.clone(),
        author: Uuid::new_v4().to_string(),
        content: "What a beautiful day!".to_string(),
    };
    ServiceHandler::add_comment(cmd, &mut ctx).unwrap();

    let repo = Repository::new();
    if let Ok(board_aggregate) = repo.get(&ctx.executor, &id) {
        assert_eq!(board_aggregate.comments.len(), 1);
        assert_eq!(board_aggregate.comments[0].content, "What a beautiful day!");
        assert_eq!(board_aggregate.comments[0].state(), "Created");
    };
}

#[test]
fn test_edit_board_missing_id_leaves_no_trace() {

    let mut ctx = ContextManager::new();
    let cmd = EditBoard {
        id: Uuid::new_v4().to_string(),
        title: Some("nobody home".into()),
        content: None,
        state: None,
    };
    let result = ServiceHandler::edit_board(cmd, &mut ctx);
    assert!(matches!(result, Err(ApplicationError::EntityNotFound)));
    assert!(Outbox::get(&ctx.executor).unwrap().is_empty());
}

#[test]
fn test_edit_comment_missing_comment() {
    let mut ctx = ContextManager::new();
    let id = prepare_board(&mut ctx, BoardState::Published);

    let cmd = EditComment {
        board_id: id,
        id: Uuid::new_v4().to_string(),
        content: "never lands".into(),
    };
    let result = ServiceHandler::edit_comment(cmd, &mut ctx);
    assert!(matches!(result, Err(ApplicationError::EntityNotFound)));
}

#[test]
fn test_edit_comment_bumps_version_only() {
    let mut ctx = ContextManager::new();
    let id = prepare_board(&mut ctx, BoardState::Published);

    let add = AddComment {
        board_id: id.clone(),
        author: Uuid::new_v4().to_string(),
        content: "the first words".into(),
    };
    ServiceHandler::add_comment(add, &mut ctx).unwrap();
    let repo = Repository::new();
    let stored = repo.get(&ctx.executor, &id).unwrap();
    let comment_id = stored.comments[0].id.clone();

    let cmd = EditComment {
        board_id: id.clone(),
        id: comment_id,
        content: "rewritten words".into(),
    };
    ServiceHandler::edit_comment(cmd, &mut ctx).unwrap();

    // The stored comment is already in Created state, so the edit moved
    // the board's version but could not persist the new content.
    let after = repo.get(&ctx.executor, &id).unwrap();
    assert_eq!(after.board.version, 2);
    assert_eq!(after.comments[0].content, "the first words");
}
