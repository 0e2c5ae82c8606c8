use t3p0::request::{Bits, Request, ValidationError};
use t3p0::{DataRequest, GameState, GameStateTrait, Player, PlayerTrait};

#[test]
fn test_new() {
    let gs = GameState::new(None, Some([Player::new(), Player::new()]));
    assert_eq!(gs.board, [0u8; 9]);
    assert_eq!(gs.turn, 0);
    assert_eq!(gs.message_number, 0);
    assert_eq!(gs.p2_turn, true);
}

#[test]
fn test_from_request() {
    let r = Request::new_data_request(true);
    let gs = GameState::from_request(r, Player::new());
    assert!(gs.is_ok());

    let gs = gs.unwrap();
    assert_eq!(gs.board, [0u8; 9]);
    assert_eq!(gs.turn, 0);
    assert_eq!(gs.message_number, 0);
    assert_eq!(gs.p2_turn, false);
}

#[test]
fn test_from_request_p2_turn() {
    let mut r = Request::new_data_request(false);
    r = Request(
        r.0 ^ (1 << Bits::P2Turn.offset())
            | (1 << Bits::MessageNumber.offset())
            | (1 << Bits::TurnOffset.offset()),
    );
    let gs = GameState::from_request(r, Player::new());
    assert!(gs.is_ok());
    let gs = gs.unwrap();
    assert_eq!(gs.board, [0u8; 9]);
    assert_eq!(gs.turn, 1);
    assert_eq!(gs.message_number, 1);
    assert_eq!(gs.p2_turn, true);
}

#[test]
fn test_from_request_board_all_ones() {
    let r = Request(0b111111111);
    let gs = GameState::from_request(r, Player::new());
    assert!(gs.is_ok());
    let gs = gs.unwrap();
    assert_eq!(gs.board, [1u8; 9]);
    assert_eq!(gs.turn, 0);
    assert_eq!(gs.message_number, 0);
    assert_eq!(gs.p2_turn, false);
}

#[test]
fn test_from_request_invalid_turn() {
    let r = Request((1 << Bits::TurnOffset.offset()) | (1 << Bits::MessageNumber.offset()));
    let gs = GameState::from_request(r, Player::new());
    assert!(gs.is_err());
}

#[test]
fn test_from_request_invalid_player() {
    let r = Request(1 << Bits::P2Turn.offset());
    let gs = GameState::from_request(r, Player::new());
    assert!(gs.is_err());
}

#[test]
fn test_compare_boards() {
    let players = [Player::new(), Player::new()];
    let mut gs = GameState::new(None, Some(players.clone()));
    let mut gs2 = GameState::new(None, Some(players.clone()));
    // No change is no move: a turn cannot be passed.
    assert_eq!(gs.compare_boards(&gs2), false);
    gs2.board[0] = 1;
    assert_eq!(gs.compare_boards(&gs2), true);
    gs.board[0] = 1;
    gs2.board[0] = 2;
    assert_eq!(gs.compare_boards(&gs2), false);
}

#[test]
fn test_valid_turn() {
    let players = [Player::new(), Player::new()];
    let mut gs = GameState::new(None, Some(players.clone()));
    gs.turn = 0;
    gs.message_number = 0;
    gs.p2_turn = false;
    gs.submitted_by = players[0].clone();

    let mut gs2 = GameState::new(None, Some(players.clone()));
    gs2.turn = 1;
    gs2.message_number = 1;
    gs2.p2_turn = true;
    gs2.submitted_by = players[1].clone();
    gs2.board = [1u8, 0, 0, 0, 0, 0, 0, 0, 0];

    assert!(gs.validate_turn(&gs2).is_ok());
    assert_eq!(gs.validate_turn(&gs2).unwrap(), true);
}

#[test]
fn test_invalid_turn_number() {
    let players = [Player::new(), Player::new()];
    let mut gs = GameState::new(None, Some(players.clone()));
    gs.turn = 2;
    gs.message_number = 1;
    gs.p2_turn = false;
    gs.submitted_by = players[0].clone();

    let mut gs2 = GameState::new(None, Some(players.clone()));
    gs2.turn = 0;
    gs2.message_number = 0;
    gs2.p2_turn = true;
    gs2.submitted_by = players[1].clone();

    assert_eq!(gs.validate_turn(&gs2).unwrap(), false);
}

#[test]
fn test_invalid_message_number() {
    let players = [Player::new(), Player::new()];
    let mut gs = GameState::new(None, Some(players.clone()));
    gs.turn = 1;
    gs.message_number = 2;
    gs.p2_turn = false;
    gs.submitted_by = players[0].clone();

    let mut gs2 = GameState::new(None, Some(players.clone()));
    gs2.turn = 0;
    gs2.message_number = 0;
    gs2.p2_turn = true;
    gs2.submitted_by = players[1].clone();

    assert_eq!(gs.validate_turn(&gs2).unwrap(), false);
}

#[test]
fn test_invalid_same_player_turn() {
    let players = [Player::new(), Player::new()];
    let mut gs = GameState::new(None, Some(players.clone()));
    gs.turn = 1;
    gs.message_number = 1;
    gs.p2_turn = true;
    gs.submitted_by = players[0].clone();

    let mut gs2 = GameState::new(None, Some(players.clone()));
    gs2.turn = 0;
    gs2.message_number = 0;
    gs2.p2_turn = true;
    gs2.submitted_by = players[0].clone();

    assert_eq!(gs.validate_turn(&gs2).unwrap(), false);
}

#[test]
fn test_invalid_submitted_by_not_player() {
    let players = [Player::new(), Player::new()];
    let mut gs = GameState::new(None, Some(players.clone()));
    gs.turn = 1;
    gs.message_number = 1;
    gs.p2_turn = false;
    gs.submitted_by = Player::new();

    let mut gs2 = GameState::new(None, Some(players.clone()));
    gs2.turn = 0;
    gs2.message_number = 0;
    gs2.p2_turn = true;
    gs2.submitted_by = players[0].clone();

    assert_eq!(gs.validate_turn(&gs2).unwrap(), false);
}

// A legal turn from player 0 to player 1, to be spoiled one rule at a time.
fn legal_pair() -> (GameState, GameState, [Player; 2]) {
    let players = [Player::new(), Player::new()];
    let mut prev = GameState::new(Some(players[0]), Some(players));
    prev.turn = 3;
    prev.message_number = 3;
    prev.p2_turn = true;
    prev.board = [1, 0, 1, 0, 1, 0, 0, 0, 0];
    let mut next = GameState::new(Some(players[1]), None);
    next.turn = 4;
    next.message_number = 4;
    next.p2_turn = false;
    next.board = [1, 0, 1, 0, 1, 0, 0, 0, 1];
    (prev, next, players)
}

#[test]
fn validate_turn_accepts_only_when_every_rule_holds() {
    let (prev, next, _) = legal_pair();
    assert_eq!(prev.validate_turn(&next), Ok(true));

    let mut n = next;
    n.turn = 5;
    assert_eq!(prev.validate_turn(&n), Ok(false));

    let mut n = next;
    n.p2_turn = true;
    assert_eq!(prev.validate_turn(&n), Ok(false));

    let mut n = next;
    n.message_number = 13;
    assert_eq!(prev.validate_turn(&n), Ok(false));

    let mut n = next;
    n.submitted_by = prev.submitted_by;
    assert_eq!(prev.validate_turn(&n), Ok(false));

    let mut n = next;
    n.submitted_by = Player::new();
    assert_eq!(prev.validate_turn(&n), Ok(false));

    let mut n = next;
    n.board = prev.board;
    assert_eq!(prev.validate_turn(&n), Ok(false));
}

#[test]
fn validate_turn_without_registered_players_accepts_any_other_author() {
    let (mut prev, mut next, _) = legal_pair();
    prev.players = None;
    next.submitted_by = Player::new();
    assert_eq!(prev.validate_turn(&next), Ok(true));
}

#[test]
fn validate_turn_does_not_wrap_the_ply() {
    let (mut prev, mut next, _) = legal_pair();
    prev.turn = 8;
    next.turn = 0;
    assert_eq!(prev.validate_turn(&next), Ok(false));
}

#[test]
fn compare_boards_counts_changes() {
    let (prev, mut next, _) = legal_pair();
    assert!(prev.compare_boards(&next));
    // Two new marks.
    next.board[1] = 1;
    assert!(!prev.compare_boards(&next));
    // One new mark and one removed.
    let (prev, mut next, _) = legal_pair();
    next.board[0] = 0;
    assert!(!prev.compare_boards(&next));
    // Only a removal.
    let (prev, mut next, _) = legal_pair();
    next.board = prev.board;
    next.board[2] = 0;
    assert!(!prev.compare_boards(&next));
    // The last empty cell filled.
    let mut a = GameState::new(None, None);
    a.board = [1, 1, 1, 1, 0, 1, 1, 1, 1];
    let mut b = a;
    b.board[4] = 1;
    assert!(a.compare_boards(&b));
}

#[test]
fn from_request_decodes_each_cell() {
    let p = Player::new();
    let r = Request(0b100_010_001 | 4 << Bits::MessageNumber.offset() | 4 << Bits::TurnOffset.offset());
    let gs = GameState::from_request(r, p).unwrap();
    assert_eq!(gs.board, [1, 0, 0, 0, 1, 0, 0, 0, 1]);
    assert_eq!(gs.turn, 4);
    assert_eq!(gs.message_number, 4);
    assert_eq!(gs.p2_turn, false);
    assert_eq!(gs.submitted_by, p);
    assert!(gs.players.is_none());
    assert_eq!(gs.to_request(), r);
}

#[test]
fn from_request_reports_the_validation_error() {
    let r = Request(2 << Bits::MessageNumber.offset() | 1 << Bits::TurnOffset.offset());
    assert_eq!(
        GameState::from_request(r, Player::new()).err(),
        Some(ValidationError::OutOfSync)
    );
}

#[test]
fn new_state_keeps_its_author_and_players() {
    let players = [Player::new(), Player::new()];
    let gs = GameState::new(Some(players[1]), Some(players));
    assert_eq!(gs.submitted_by, players[1]);
    assert_eq!(gs.players, Some(players));
    assert_eq!(gs.to_request(), Request(0));
}
