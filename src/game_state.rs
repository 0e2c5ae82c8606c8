//! A player's view of a game, derived from one message, and the rules for
//! moving from one view to the next.
use vstd::bits::lemma_u16_shr_is_div;
use vstd::prelude::*;

use crate::player::{Player, PlayerTrait};
use crate::request::{
    board_of, cell_of, message_number_of, p2_turn_of, turn_of, validation_of, DataRequest,
    Request, ValidationError,
};

verus! {

/// A snapshot of a game: the board, the ply, the message sequence, whose turn
/// it is, who submitted it, and who may play.
#[derive(Debug, Clone, Copy)]
pub struct GameState {
    /// The two players allowed in this session, once known.
    pub players: Option<[Player; 2]>,
    /// The player who authored this state.
    pub submitted_by: Player,
    /// Cell occupancy in row-major order; 0 is empty.
    pub board: [u8; 9],
    /// The ply index.
    pub turn: u8,
    /// The sequence counter.
    pub message_number: u8,
    /// Whether player 2 is to move next.
    pub p2_turn: bool,
    /// The message this state was made from.
    pub request: Request,
}

/// Whether `next` is `prev` with exactly one cell changed, from empty to
/// occupied.
pub open spec fn is_single_move(prev: Seq<u8>, next: Seq<u8>) -> bool {
    exists|k: int|
        0 <= k < 9 && prev[k] == 0 && next[k] != 0 && (forall|j: int|
            0 <= j < 9 && j != k ==> #[trigger] prev[j] == next[j])
}

/// Whether `next` may follow `prev`: the next ply and message number, the
/// other player to move, another author who is one of the registered players
/// when those are known, and a single move on the board.
pub open spec fn is_legal_turn(prev: GameState, next: GameState) -> bool {
    &&& next.turn == prev.turn + 1
    &&& next.p2_turn != prev.p2_turn
    &&& next.message_number == prev.message_number + 1
    &&& next.submitted_by != prev.submitted_by
    &&& (prev.players matches Some(ps) ==> next.submitted_by == ps@[0] || next.submitted_by
        == ps@[1])
    &&& is_single_move(prev.board@, next.board@)
}

/// Whether `gs` is the state that `request`, submitted by `player`, decodes to.
pub open spec fn is_decoded(gs: GameState, request: Request, player: Player) -> bool {
    &&& gs.players is None
    &&& gs.submitted_by == player
    &&& forall|i: int|
        0 <= i < 9 ==> #[trigger] gs.board@[i] == (if cell_of(request.0, i) {
            1u8
        } else {
            0u8
        })
    &&& gs.turn == turn_of(request.0)
    &&& gs.message_number == message_number_of(request.0)
    &&& gs.p2_turn == p2_turn_of(request.0)
    &&& gs.request == request
}

/// Making game states and checking moves between them.
pub trait GameStateTrait: Sized {
    /// The state of a session that has not started: nothing played, player 2
    /// to move, made from the empty message.
    fn new(player: Option<Player>, players: Option<[Player; 2]>) -> Self;

    /// The state that a valid message, submitted by `player`, describes.
    fn from_request(request: Request, player: Player) -> Result<Self, ValidationError>;

    /// Whether `other`'s board is this board with one empty cell filled.
    fn compare_boards(&self, other: &GameState) -> bool;

    /// Whether `game_state` may follow this state; a refused turn is `Ok(false)`.
    fn validate_turn(&self, game_state: &Self) -> Result<bool, ValidationError>;

    /// The message this state was made from.
    fn to_request(&self) -> Request;
}

impl GameStateTrait for GameState {
    fn new(player: Option<Player>, players: Option<[Player; 2]>) -> (r: GameState)
        ensures
            r.players == players,
            player matches Some(p) ==> r.submitted_by == p,
            forall|i: int| 0 <= i < 9 ==> r.board@[i] == 0,
            r.turn == 0,
            r.message_number == 0,
            r.p2_turn,
            r.request == Request(0),
    {
        let submitted_by = match player {
            Some(p) => p,
            None => Player::new(),
        };
        GameState {
            players,
            submitted_by,
            board: [0u8; 9],
            turn: 0,
            message_number: 0,
            p2_turn: true,
            request: Request::new_data_request(false),
        }
    }

    fn from_request(request: Request, player: Player) -> (r: Result<GameState, ValidationError>)
        ensures
            match validation_of(request.0) {
                Err(e) => r == Err::<GameState, ValidationError>(e),
                Ok(_) => r matches Ok(gs) && is_decoded(gs, request, player),
            },
    {
        match request.validate_request() {
            Err(e) => {
                return Err(e);
            },
            Ok(()) => {},
        }
        let mut board = [0u8; 9];
        let board_state = request.get_board_state();
        let mut i: usize = 0;
        while i < 9
            invariant
                i <= 9,
                board_state == board_of(request.0),
                board@.len() == 9,
                forall|j: int|
                    0 <= j < i ==> #[trigger] board@[j] == (if cell_of(request.0, j) {
                        1u8
                    } else {
                        0u8
                    }),
            decreases 9 - i,
        {
            let shifted = board_state >> (i as u16);
            let bit = (shifted & 1) as u8;
            proof {
                lemma_u16_shr_is_div(board_state, i as u16);
                assert(shifted & 1 == shifted % 2) by (bit_vector);
                assert(bit == 1 <==> cell_of(request.0, i as int));
            }
            board[i] = bit;
            i = i + 1;
        }
        Ok(
            GameState {
                players: None,
                submitted_by: player,
                board,
                turn: request.get_turn(),
                message_number: request.get_message_number(),
                p2_turn: request.get_is_p2_turn(),
                request,
            },
        )
    }

    fn compare_boards(&self, other: &GameState) -> (r: bool)
        ensures
            r == is_single_move(self.board@, other.board@),
    {
        let ghost a = self.board@;
        let ghost b = other.board@;
        let mut differences: u8 = 0;
        // The first and second cells found to differ.
        let ghost mut first: int = 0;
        let ghost mut second: int = 0;
        let mut i: usize = 0;
        while i < 9
            invariant
                i <= 9,
                differences <= i,
                a == self.board@,
                b == other.board@,
                a.len() == 9,
                b.len() == 9,
                forall|j: int| 0 <= j < i && a[j] != 0 ==> a[j] == b[j],
                differences == 0 ==> forall|j: int| 0 <= j < i ==> a[j] == b[j],
                differences >= 1 ==> 0 <= first < i && a[first] != b[first],
                differences == 1 ==> forall|j: int| 0 <= j < i && j != first ==> a[j] == b[j],
                differences >= 2 ==> 0 <= second < i && second != first && a[second]
                    != b[second],
            decreases 9 - i,
        {
            // Overwriting an occupied cell is never a move.
            if self.board[i] != 0 && self.board[i] != other.board[i] {
                assert(!is_single_move(a, b)) by {
                    if exists|k: int|
                        0 <= k < 9 && a[k] == 0 && b[k] != 0 && (forall|j: int|
                            0 <= j < 9 && j != k ==> #[trigger] a[j] == b[j]) {
                        let k = choose|k: int|
                            0 <= k < 9 && a[k] == 0 && b[k] != 0 && (forall|j: int|
                                0 <= j < 9 && j != k ==> #[trigger] a[j] == b[j]);
                        assert(a[i as int] == b[i as int]);
                    }
                }
                return false;
            }
            if self.board[i] != other.board[i] {
                proof {
                    if differences == 0 {
                        first = i as int;
                    } else if differences == 1 {
                        second = i as int;
                    }
                }
                differences = differences + 1;
            }
            i = i + 1;
        }
        proof {
            if differences == 1 {
                assert(a[first] == 0);
                assert(forall|j: int| 0 <= j < 9 && j != first ==> #[trigger] a[j] == b[j]);
            } else {
                assert(!is_single_move(a, b)) by {
                    if exists|k: int|
                        0 <= k < 9 && a[k] == 0 && b[k] != 0 && (forall|j: int|
                            0 <= j < 9 && j != k ==> #[trigger] a[j] == b[j]) {
                        let k = choose|k: int|
                            0 <= k < 9 && a[k] == 0 && b[k] != 0 && (forall|j: int|
                                0 <= j < 9 && j != k ==> #[trigger] a[j] == b[j]);
                        assert(a[k] != b[k]);
                        if differences >= 2 {
                            assert(a[first] == b[first] || a[second] == b[second]);
                        }
                    }
                }
            }
        }
        differences == 1
    }

    fn validate_turn(&self, game_state: &Self) -> (r: Result<bool, ValidationError>)
        ensures
            r == Ok::<bool, ValidationError>(is_legal_turn(*self, *game_state)),
    {
        if self.turn as u16 + 1 != game_state.turn as u16 {
            return Ok(false);
        }
        if self.p2_turn == game_state.p2_turn {
            return Ok(false);
        }
        if self.message_number as u16 + 1 != game_state.message_number as u16 {
            return Ok(false);
        }
        // A player cannot author two states in a row.
        if self.submitted_by == game_state.submitted_by {
            return Ok(false);
        }
        match &self.players {
            Some(ps) => {
                if !(ps[0] == game_state.submitted_by || ps[1] == game_state.submitted_by) {
                    return Ok(false);
                }
            },
            None => {},
        }
        if !self.compare_boards(game_state) {
            return Ok(false);
        }
        Ok(true)
    }

    fn to_request(&self) -> (r: Request)
        ensures
            r == self.request,
    {
        self.request
    }
}

} // verus!
