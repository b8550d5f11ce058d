use service_library::aggregate::{Buildable, Builder};
use service_library::auth::{Account, AuthAggregate};
use service_library::entity::{Board, BoardState};
use uuid::Uuid;

#[test]
fn test_create_board() {
    let author = Uuid::new_v4().to_string();
    let board = Board::new(
        &author,
        "러스트를 배워야하는 이유",
        "졸잼임",
        BoardState::Published,
    );
    assert_eq!(board.state(), "Published");

    let board = Board::new(
        &author,
        "러스트를 배워야하는 이유",
        "졸잼임",
        BoardState::Unpublished,
    );
    assert_eq!(board.state(), "Unpublished");

    let board = Board::new(
        &author,
        "러스트를 배워야하는 이유",
        "졸잼임",
        BoardState::Deleted,
    );
    assert_eq!(board.state(), "Deleted");
}

#[test]
fn test_create_hashed_password() {
    let hashed_password = bcrypt::hash("whatever", 4).unwrap();
    assert_ne!(hashed_password, "whatever".to_string());
}

#[test]
fn test_verify_password() {
    let hashed_password = bcrypt::hash("whatever", 4).unwrap();
    assert_ne!(hashed_password, "whatever".to_string());
    assert!(bcrypt::verify("whatever", &hashed_password).unwrap());
}

#[test]
fn test_create_account() {
    let auth_builder = AuthAggregate::builder();
    let account = Account::new(
        "Migo".into(),
        "migo@mail.com".into(),
        "testpass".into(),
        "Mago".into(),
    )
    .unwrap();
    let auth_aggregate = auth_builder.take_account(account).build();

    assert_ne!(
        auth_aggregate.account.hashed_password,
        "testpass".to_string()
    );
    assert!(bcrypt::verify("testpass", &auth_aggregate.account.hashed_password).unwrap());
    assert!(auth_aggregate.account.verify_password("testpass"))
}

#[test]
fn test_board_ids_are_uuids() {
    let board = Board::new("someone", "title", "content", BoardState::Published);
    assert_eq!(board.id.len(), 36);
    assert!(Uuid::parse_str(&board.id).is_ok());
}
