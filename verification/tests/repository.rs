use service_library::aggregate::{BoardAggregate, Buildable, Builder};
use service_library::commands::EditBoard;
use service_library::database::ContextManager;
use service_library::entity::{Board, BoardState, Comment};
use service_library::errors::ApplicationError;
use service_library::repository::Repository;
use uuid::Uuid;

fn board_create_helper(state: BoardState) -> BoardAggregate {
    let builder = BoardAggregate::builder();
    builder
        .take_board(Board::new(
            &Uuid::new_v4().to_string(),
            "Let's try it",
            "Is this fun?",
            state,
        ))
        .build()
}

fn comment_create_helper(board_id: &str) -> Comment {
    Comment::new(board_id, &Uuid::new_v4().to_string(), "Am I a good commenter?")
}

#[test]
fn test_add_board() {
    let mut ctx = ContextManager::new();
    ctx.executor.begin().unwrap();

    let mut board_repo = Repository::new();
    let mut board_aggregate = board_create_helper(BoardState::Unpublished);

    let id = board_repo
        .add(&mut ctx.executor, &mut board_aggregate)
        .unwrap();
    assert_eq!(board_aggregate.board.id, id);

    ctx.executor.commit().unwrap();
}

#[test]
fn test_get_board() {
    let mut ctx = ContextManager::new();
    let mut board_repo = Repository::new();
    let id: String;

    ctx.executor.begin().unwrap();
    let mut board_aggregate = board_create_helper(BoardState::Unpublished);
    id = board_repo
        .add(&mut ctx.executor, &mut board_aggregate)
        .unwrap();
    ctx.executor.commit().unwrap();

    let board_aggregate = board_repo.get(&ctx.executor, &id).unwrap();
    assert_eq!(board_aggregate.board.state(), "Unpublished");
}

#[test]
fn test_get_board_with_different_state() {
    let mut ctx = ContextManager::new();
    let mut board_repo = Repository::new();
    let id: String;

    ctx.executor.begin().unwrap();
    let mut board_aggregate = board_create_helper(BoardState::Published);
    id = board_repo
        .add(&mut ctx.executor, &mut board_aggregate)
        .unwrap();
    ctx.executor.commit().unwrap();

    let board_aggregate = board_repo.get(&ctx.executor, &id).unwrap();
    assert_eq!(board_aggregate.board.state(), "Published");
}

#[test]
fn test_delete_board() {
    let mut ctx = ContextManager::new();
    let mut board_repo = Repository::new();
    let id: String;

    ctx.executor.begin().unwrap();
    let mut board_aggregate = board_create_helper(BoardState::Unpublished);
    assert_eq!(board_aggregate.board.state(), "Unpublished");
    id = board_repo
        .add(&mut ctx.executor, &mut board_aggregate)
        .unwrap();
    ctx.executor.commit().unwrap();

    ctx.executor.begin().unwrap();
    let mut board_aggregate = board_repo.get(&ctx.executor, &id).unwrap();
    board_aggregate.update_board(EditBoard {
        id: id.clone(),
        title: None,
        content: None,
        state: Some(BoardState::Deleted),
    });
    board_repo
        .update(&mut ctx.executor, &mut board_aggregate)
        .unwrap();
    ctx.executor.commit().unwrap();

    let board_aggregate = board_repo.get(&ctx.executor, &id).unwrap();
    assert_eq!(board_aggregate.board.state(), "Deleted");
}

#[test]
fn test_update_board() {
    let mut ctx = ContextManager::new();
    let mut board_repo = Repository::new();
    let id: String;
    let existing_content: String;

    ctx.executor.begin().unwrap();
    let mut board_aggregate = board_create_helper(BoardState::Unpublished);
    existing_content = board_aggregate.board.content.clone();
    id = board_repo
        .add(&mut ctx.executor, &mut board_aggregate)
        .unwrap();
    ctx.executor.commit().unwrap();

    ctx.executor.begin().unwrap();
    let mut initial_board_aggregate = board_repo.get(&ctx.executor, &id).unwrap();
    assert_eq!(initial_board_aggregate.board.state(), "Unpublished");
    assert_eq!(initial_board_aggregate.board.version, 0);

    let new_author = Uuid::new_v4().to_string();
    initial_board_aggregate.board.author = new_author.clone();
    initial_board_aggregate.board.content = "Something else".to_string();
    board_repo
        .update(&mut ctx.executor, &mut initial_board_aggregate)
        .unwrap();
    ctx.executor.commit().unwrap();

    let board_aggregate = board_repo.get(&ctx.executor, &id).unwrap();
    let updated_board = board_aggregate.board;
    assert_eq!(updated_board.author, new_author);
    assert_ne!(updated_board.content, existing_content);
    assert_eq!(updated_board.version, 1);
}

#[test]
fn test_create_comment() {
    let mut ctx = ContextManager::new();
    let mut board_repo = Repository::new();
    let id: String;

    ctx.executor.begin().unwrap();
    let mut board_aggregate = board_create_helper(BoardState::Unpublished);
    id = board_repo
        .add(&mut ctx.executor, &mut board_aggregate)
        .unwrap();
    ctx.executor.commit().unwrap();

    let comment = comment_create_helper(&id);
    let mut board_builder = BoardAggregate::builder();
    board_builder = board_builder
        .take_board(board_aggregate.board)
        .take_comments(vec![comment]);

    ctx.executor.begin().unwrap();
    board_repo
        .update(&mut ctx.executor, &mut board_builder.build())
        .unwrap();
    ctx.executor.commit().unwrap();

    let board_aggregate = board_repo.get(&ctx.executor, &id).unwrap();
    assert_eq!(board_aggregate.board.version, 1);
    assert_eq!(board_aggregate.comments.len(), 1);
    assert_eq!(board_aggregate.comments[0].state(), "Created");
}

#[test]
fn test_stale_update_conflicts() {
    let mut ctx = ContextManager::new();
    let mut board_repo = Repository::new();
    let id: String;

    ctx.executor.begin().unwrap();
    let mut board_aggregate = board_create_helper(BoardState::Published);
    id = board_repo
        .add(&mut ctx.executor, &mut board_aggregate)
        .unwrap();
    ctx.executor.commit().unwrap();

    // Two reads at the same version.
    let mut first = board_repo.get(&ctx.executor, &id).unwrap();
    let mut second = board_repo.get(&ctx.executor, &id).unwrap();

    ctx.executor.begin().unwrap();
    first.board.content = "first writer".to_string();
    board_repo.update(&mut ctx.executor, &mut first).unwrap();
    ctx.executor.commit().unwrap();

    // The second write still carries the stale version and must not apply.
    ctx.executor.begin().unwrap();
    second.board.content = "second writer".to_string();
    let result = board_repo.update(&mut ctx.executor, &mut second);
    assert!(matches!(result, Err(ApplicationError::Conflict)));
    ctx.executor.rollback().unwrap();

    let stored = board_repo.get(&ctx.executor, &id).unwrap();
    assert_eq!(stored.board.content, "first writer");
    assert_eq!(stored.board.version, 1);
}

#[test]
fn test_get_missing_board_is_entity_not_found() {
    let ctx = ContextManager::new();
    let board_repo = Repository::new();
    let missing = Uuid::new_v4().to_string();
    let result = board_repo.get(&ctx.executor, &missing);
    assert!(matches!(result, Err(ApplicationError::EntityNotFound)));
}
