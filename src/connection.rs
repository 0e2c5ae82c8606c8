//! The decisions of a connection handler: what each frame read from a stream
//! means, what to store, and what to send back. The handler itself does the
//! reading, the writing, and the store requests.
use vstd::prelude::*;

use crate::game_state::{is_decoded, is_legal_turn, GameState, GameStateTrait};
use crate::player::{be_value, Player, PlayerTrait};
use crate::request::{validation_of, DataRequest, Request, ValidationError, ACK};

verus! {

/// Why a connection is torn down.
#[derive(Debug, Clone, Copy, PartialEq, Eq, Structural)]
pub enum ConnectionError {
    /// The stream closed before the handshake ended.
    ClosedDuringHandshake,
    /// A handshake frame was neither a message nor, on the second step, a token.
    InvalidHandshake,
    /// A frame after the handshake was not one message.
    InvalidRequest,
}

/// Bytes to send back.
#[derive(Debug, Clone, Copy)]
pub enum Reply {
    /// A player identity token.
    Token([u8; 16]),
    /// A message, big-endian.
    Message([u8; 4]),
}

/// The outcome of one handshake step.
#[derive(Debug, Clone, Copy)]
pub struct Handshake {
    /// The connection's player identity from now on.
    pub player: Player,
    /// What to send back, if anything.
    pub reply: Option<Reply>,
}

/// The outcome of judging a submitted message.
#[derive(Debug, Clone, Copy)]
pub struct Verdict {
    /// The submitted state, to store, when its turn is legal.
    pub accepted: Option<GameState>,
    /// The reply: the acknowledgment for a legal turn, else the message of the
    /// state that stands.
    pub reply: [u8; 4],
}

proof fn lemma_be_value_4(s: Seq<u8>)
    requires
        s.len() == 4,
    ensures
        be_value(s) == s[0] * 0x100_0000 + s[1] * 0x1_0000 + s[2] * 0x100 + s[3],
{
    let s3 = s.drop_last();
    let s2 = s3.drop_last();
    let s1 = s2.drop_last();
    let s0 = s1.drop_last();
    assert(be_value(s0) == 0);
    assert(s1.last() == s[0] && s2.last() == s[1] && s3.last() == s[2] && s.last() == s[3]);
    assert(be_value(s1) == s[0]);
    assert(be_value(s2) == s[0] * 0x100 + s[1]);
    assert(be_value(s3) == (s[0] * 0x100 + s[1]) * 0x100 + s[2]);
    assert(be_value(s) == ((s[0] * 0x100 + s[1]) * 0x100 + s[2]) * 0x100 + s[3]);
}

/// The message in a 4-byte big-endian frame.
fn message_of_frame(frame: &[u8]) -> (r: Request)
    requires
        frame@.len() == 4,
    ensures
        r.0 == be_value(frame@),
{
    let (b0, b1, b2, b3) = (frame[0] as u32, frame[1] as u32, frame[2] as u32, frame[3] as u32);
    let v = (b0 << 24u32) | (b1 << 16u32) | (b2 << 8u32) | b3;
    proof {
        lemma_be_value_4(frame@);
        assert(v == b0 * 0x100_0000 + b1 * 0x1_0000 + b2 * 0x100 + b3) by (bit_vector)
            requires
                b0 < 0x100,
                b1 < 0x100,
                b2 < 0x100,
                b3 < 0x100,
                v == (b0 << 24u32) | (b1 << 16u32) | (b2 << 8u32) | b3,
        ;
    }
    Request(v)
}

/// The 4-byte big-endian frame that carries a message.
pub fn frame_of(request: Request) -> (r: [u8; 4])
    ensures
        be_value(r@) == request.0,
{
    let v = request.0;
    let (b0, b1, b2, b3) = ((v >> 24u32) & 0xff, (v >> 16u32) & 0xff, (v >> 8u32) & 0xff, v & 0xff);
    assert(v == b0 * 0x100_0000 + b1 * 0x1_0000 + b2 * 0x100 + b3 && b0 < 0x100 && b1 < 0x100 && b2
        < 0x100 && b3 < 0x100) by (bit_vector)
        requires
            b0 == (v >> 24u32) & 0xff,
            b1 == (v >> 16u32) & 0xff,
            b2 == (v >> 8u32) & 0xff,
            b3 == v & 0xff,
    ;
    let r = [b0 as u8, b1 as u8, b2 as u8, b3 as u8];
    proof {
        lemma_be_value_4(r@);
    }
    r
}

/// One handshake step. On the first, `step == 0`, a message is expected, and
/// the acknowledgment is answered with the connection's identity token; on the
/// second, a message passes unanswered and a token is adopted as the player's
/// identity and answered with the acknowledgment. An empty frame means the
/// stream closed.
pub fn handshake(step: u8, frame: &[u8], player: Player) -> (r: Result<Handshake, ConnectionError>)
    requires
        step < 2,
    ensures
        frame@.len() == 0 ==> r == Err::<Handshake, ConnectionError>(
            ConnectionError::ClosedDuringHandshake,
        ),
        frame@.len() == 4 ==> (r matches Ok(h) && h.player == player && if step == 0 && be_value(
            frame@,
        ) == ACK {
            (h.reply matches Some(Reply::Token(t)) && be_value(t@) == player@)
        } else {
            h.reply is None
        }),
        frame@.len() == 16 && step == 0 ==> r == Err::<Handshake, ConnectionError>(
            ConnectionError::InvalidHandshake,
        ),
        frame@.len() == 16 && step == 1 ==> (r matches Ok(h) && h.player@ == be_value(frame@) && (
        h.reply matches Some(Reply::Message(m)) && be_value(m@) == ACK)),
        frame@.len() != 0 && frame@.len() != 4 && frame@.len() != 16 ==> r == Err::<
            Handshake,
            ConnectionError,
        >(ConnectionError::InvalidHandshake),
{
    let n = frame.len();
    if n == 0 {
        return Err(ConnectionError::ClosedDuringHandshake);
    }
    if n == 4 {
        let request = message_of_frame(frame);
        if step == 0 && request.is_ok_response() {
            return Ok(Handshake { player, reply: Some(Reply::Token(player.to_bytes())) });
        }
        return Ok(Handshake { player, reply: None });
    }
    if n == 16 && step == 1 {
        let mut token = [0u8; 16];
        let mut i: usize = 0;
        while i < 16
            invariant
                i <= 16,
                frame@.len() == 16,
                token@.len() == 16,
                forall|j: int| 0 <= j < i ==> token@[j] == frame@[j],
            decreases 16 - i,
        {
            token[i] = frame[i];
            i = i + 1;
        }
        assert(token@ =~= frame@);
        let adopted = Player::from_bytes(&token);
        let ack = frame_of(Request::new_data_request(true));
        return Ok(Handshake { player: adopted, reply: Some(Reply::Message(ack)) });
    }
    Err(ConnectionError::InvalidHandshake)
}

/// The message in a frame read after the handshake; `None` when the frame is
/// empty, which means the stream closed.
pub fn read_request(frame: &[u8]) -> (r: Result<Option<Request>, ConnectionError>)
    ensures
        frame@.len() == 0 ==> r == Ok::<Option<Request>, ConnectionError>(None),
        frame@.len() == 4 ==> r == Ok::<Option<Request>, ConnectionError>(
            Some(Request(be_value(frame@) as u32)),
        ),
        frame@.len() != 0 && frame@.len() != 4 ==> r == Err::<Option<Request>, ConnectionError>(
            ConnectionError::InvalidRequest,
        ),
{
    let n = frame.len();
    if n == 0 {
        Ok(None)
    } else if n == 4 {
        Ok(Some(message_of_frame(frame)))
    } else {
        Err(ConnectionError::InvalidRequest)
    }
}

/// The state a player's message is judged against: the session's stored
/// state or, for a session not seen before, a new one authored by the player
/// that registers the player and a partner.
pub fn session_state(current: Option<GameState>, player: Player, partner: Player) -> (r: GameState)
    ensures
        current matches Some(s) ==> r == s,
        current is None ==> {
            &&& r.players matches Some(ps) && ps@[0] == player && ps@[1] == partner
            &&& r.submitted_by == player
            &&& forall|i: int| 0 <= i < 9 ==> r.board@[i] == 0
            &&& r.turn == 0
            &&& r.message_number == 0
            &&& r.p2_turn
            &&& r.request == Request(0)
        },
{
    match current {
        Some(s) => s,
        None => GameState::new(Some(player), Some([player, partner])),
    }
}

/// Judges a message that `player` submits against the state that stands: an
/// invalid message is an error; a legal turn is accepted and acknowledged; any
/// other turn is refused and answered with the standing state's message.
pub fn judge(prev: &GameState, request: Request, player: Player) -> (r: Result<
    Verdict,
    ValidationError,
>)
    ensures
        validation_of(request.0) matches Err(e) ==> r == Err::<Verdict, ValidationError>(e),
        validation_of(request.0) is Ok ==> (r matches Ok(v) && match v.accepted {
            Some(gs) => is_decoded(gs, request, player) && is_legal_turn(*prev, gs) && be_value(
                v.reply@,
            ) == ACK,
            None => be_value(v.reply@) == prev.request.0 && forall|gs: GameState|
                #[trigger] is_decoded(gs, request, player) ==> !is_legal_turn(*prev, gs),
        }),
{
    let candidate = match GameState::from_request(request, player) {
        Ok(gs) => gs,
        Err(e) => {
            return Err(e);
        },
    };
    match prev.validate_turn(&candidate) {
        Ok(true) => Ok(
            Verdict {
                accepted: Some(candidate),
                reply: frame_of(Request::new_data_request(true)),
            },
        ),
        _ => {
            assert forall|gs: GameState| #[trigger]
                is_decoded(gs, request, player) implies !is_legal_turn(*prev, gs) by {
                assert(gs.board@ =~= candidate.board@);
            }
            Ok(Verdict { accepted: None, reply: frame_of(prev.to_request()) })
        },
    }
}

} // verus!
