use service_library::aggregate::{BoardAggregate, Buildable, Builder};
use service_library::commands::CreateBoard;
use service_library::database::ContextManager;
use service_library::entity::{Board, BoardState};
use service_library::repository::Repository;
use service_library::unit_of_work::UnitOfWork;
use uuid::Uuid;
use service_library::errors::ApplicationError;
use service_library::outbox::Outbox;

fn board_create_helper(state: BoardState) -> BoardAggregate {
    let builder = BoardAggregate::builder();
    builder
        .take_board(Board::new(
            &Uuid::new_v4().to_string(),
            "Title!",
            "Content!",
            state,
        ))
        .build()
}

#[test]
fn test_unit_of_work() {
    let mut ctx = ContextManager::new();

    // A committed add is fetchable afterwards.
    {
        let mut boardaggregate = board_create_helper(BoardState::Published);
        let id: String = boardaggregate.board.id.clone();

        let mut uow = UnitOfWork::new();
        uow.begin(&mut ctx).unwrap();
        uow.repository
            .add(&mut ctx.executor, &mut boardaggregate)
            .unwrap();
        uow.commit(&mut ctx).unwrap();

        let repo = Repository::new();
        if let Err(err) = repo.get(&ctx.executor, &id) {
            panic!("Fetch Error!:{}", err.kind_text())
        };
    }

    // A rolled back add is not.
    {
        let mut boardaggregate = board_create_helper(BoardState::Published);
        let id: String = boardaggregate.board.id.clone();

        let mut uow = UnitOfWork::new();
        uow.begin(&mut ctx).unwrap();
        uow.repository
            .add(&mut ctx.executor, &mut boardaggregate)
            .unwrap();
        uow.rollback(&mut ctx).unwrap();

        let repo = Repository::new();
        if let Ok(_val) = repo.get(&ctx.executor, &id) {
            panic!("Shouldn't be able to fetch after rollback!!")
        };
    }
}

#[test]
fn test_unit_of_work_event_collection() {
    let mut ctx = ContextManager::new();

    let builder = BoardAggregate::builder();
    let mut boardaggregate = builder.build();

    // The following method on the aggregate raises an event.
    boardaggregate.create_board(CreateBoard {
        author: Uuid::new_v4().to_string(),
        title: "Title!".into(),
        content: "Content".into(),
        state: BoardState::Published,
    });
    let id: String = boardaggregate.board.id.clone();

    let mut uow = UnitOfWork::new();
    uow.begin(&mut ctx).unwrap();
    uow.repository
        .add(&mut ctx.executor, &mut boardaggregate)
        .unwrap();
    uow.commit(&mut ctx).unwrap();

    let repo = Repository::new();
    if let Err(err) = repo.get(&ctx.executor, &id) {
        panic!("Fetch Error!:{}", err.kind_text())
    };

    let count = ctx.events().len();
    assert_eq!(count, 1);
}

#[test]
fn test_rollback_leaves_no_outbox_rows() {

    let mut ctx = ContextManager::new();
    let builder = BoardAggregate::builder();
    let mut boardaggregate = builder.build();
    boardaggregate.create_board(CreateBoard {
        author: Uuid::new_v4().to_string(),
        title: "Title!".into(),
        content: "Content".into(),
        state: BoardState::Published,
    });
    let id = boardaggregate.board.id.clone();

    let mut uow = UnitOfWork::new();
    uow.begin(&mut ctx).unwrap();
    uow.repository
        .add(&mut ctx.executor, &mut boardaggregate)
        .unwrap();
    uow.rollback(&mut ctx).unwrap();

    let repo = Repository::new();
    assert!(repo.get(&ctx.executor, &id).is_err());
    let rows = Outbox::get(&ctx.executor).unwrap();
    assert!(rows.is_empty());
    assert_eq!(ctx.events().len(), 0);
}

#[test]
fn test_double_begin_is_refused() {

    let mut ctx = ContextManager::new();
    let mut uow = UnitOfWork::new();
    uow.begin(&mut ctx).unwrap();
    let second = ctx.executor.begin();
    assert!(matches!(second, Err(ApplicationError::TransactionError)));
    // Committing without a transaction is refused too.
    uow.rollback(&mut ctx).unwrap();
    assert!(matches!(
        ctx.executor.commit(),
        Err(ApplicationError::TransactionError)
    ));
}
