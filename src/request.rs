//! The protocol message: one `u32` read as a packed record.
//!
//! ```text
//!  bit 31      message type (1 = acknowledgment)
//!  bits 27..31 turn (ply index)
//!  bit 26      player 2 to move
//!  bits 21..26 message number
//!  bits 9..21  reserved
//!  bits 0..9   board occupancy, one bit per cell, row-major
//! ```
//!
//! The board is laid out as a grid; each number is a bit offset from the
//! least significant bit:
//!
//! ```text
//!  0 | 1 | 2
//! -----------
//!  3 | 4 | 5
//! -----------
//!  6 | 7 | 8
//! ```
use vstd::arithmetic::power2::pow2;
use vstd::prelude::*;

verus! {

/// The largest message number a valid message may carry, plus one.
pub const MESSAGE_CEILING: u8 = 27;

/// The number of cells on the board, and so the number of plies in a game.
pub const CELLS: u8 = 9;

/// The acknowledgment message: only the message-type bit is set.
pub const ACK: u32 = 0x8000_0000;

/// Bit offsets of the fields of a message, from the least significant bit.
#[derive(Debug, Clone, Copy)]
pub enum Bits {
    MessageNumber,
    P2Turn,
    TurnOffset,
    MessageType,
}

impl Bits {
    pub open spec fn spec_offset(self) -> u32 {
        match self {
            Bits::MessageNumber => 21,
            Bits::P2Turn => 26,
            Bits::TurnOffset => 27,
            Bits::MessageType => 31,
        }
    }

    /// The offset of the field's lowest bit.
    #[verifier::when_used_as_spec(spec_offset)]
    pub fn offset(self) -> (r: u32)
        ensures
            r == self.spec_offset(),
    {
        match self {
            Bits::MessageNumber => 21,
            Bits::P2Turn => 26,
            Bits::TurnOffset => 27,
            Bits::MessageType => 31,
        }
    }
}

/// Widths, in bits, of the multi-bit fields of a message.
#[derive(Debug, Clone, Copy)]
pub enum Ranges {
    Board,
    MessageNumber,
    Turn,
}

impl Ranges {
    pub open spec fn spec_width(self) -> u32 {
        match self {
            Ranges::Board => 9,
            Ranges::MessageNumber => 5,
            Ranges::Turn => 4,
        }
    }

    /// The number of bits of the field.
    #[verifier::when_used_as_spec(spec_width)]
    pub fn width(self) -> (r: u32)
        ensures
            r == self.spec_width(),
    {
        match self {
            Ranges::Board => 9,
            Ranges::MessageNumber => 5,
            Ranges::Turn => 4,
        }
    }
}

/// The board occupancy bits: bit `i` is set when cell `i` is occupied.
pub open spec fn board_of(v: u32) -> u32 {
    v % 0x200
}

/// The reserved bits 9..21, read as a number.
pub open spec fn reserved_of(v: u32) -> u32 {
    (v / 0x200) % 0x1000
}

/// The message number, bits 21..26.
pub open spec fn message_number_of(v: u32) -> u32 {
    (v / 0x20_0000) % 0x20
}

/// Whether player 2 is to move, bit 26.
pub open spec fn p2_turn_of(v: u32) -> bool {
    (v / 0x400_0000) % 2 == 1
}

/// The turn, bits 27..31.
pub open spec fn turn_of(v: u32) -> u32 {
    (v / 0x800_0000) % 0x10
}

/// Whether the message-type bit, bit 31, marks an acknowledgment.
pub open spec fn ack_bit_of(v: u32) -> bool {
    v / 0x8000_0000 == 1
}

/// Whether cell `i` of the board is occupied.
pub open spec fn cell_of(v: u32, i: int) -> bool {
    (board_of(v) as int / pow2(i as nat) as int) % 2 == 1
}

/// The message whose fields hold the given values; each value is taken to
/// fit its field.
pub open spec fn pack(
    board: u32,
    reserved: u32,
    message_number: u32,
    p2_turn: bool,
    turn: u32,
    ack: bool,
) -> u32 {
    let p: u32 = if p2_turn {
        1
    } else {
        0
    };
    let a: u32 = if ack {
        1
    } else {
        0
    };
    board | (reserved << 9u32) | (message_number << 21u32) | (p << 26u32) | (turn << 27u32) | (a
        << 31u32)
}

/// Why a message is inconsistent.
#[derive(Debug, Clone, Copy, PartialEq, Eq, Structural)]
pub enum ValidationError {
    /// The message number is at or above the ceiling.
    MessageOverflow,
    /// The turn is at or above the number of cells.
    TurnOverflow,
    /// The message number is smaller than the turn.
    MessageBehindTurn,
    /// The turn is not the message number modulo the number of cells.
    OutOfSync,
    /// The parity of the message number disagrees with whose turn it is.
    ParityMismatch,
}

impl ValidationError {
    /// A sentence that describes the error.
    pub fn message(&self) -> &'static str {
        match self {
            ValidationError::MessageOverflow => "Trying to increment message number past maximum value.",
            ValidationError::TurnOverflow => "Trying to increment turn number past maximum value.",
            ValidationError::MessageBehindTurn => "Message number is less than turn number.",
            ValidationError::OutOfSync => "Turn number and message number are not in sync.",
            ValidationError::ParityMismatch => "A player is trying to make a move on the other player's turn.",
        }
    }
}

/// Why a message cannot be followed by another.
#[derive(Debug, Clone, Copy, PartialEq, Eq, Structural)]
pub enum SequenceError {
    /// The next message number would reach the ceiling.
    MessageNumberOverflow,
}

impl SequenceError {
    /// A sentence that describes the error.
    pub fn message(&self) -> &'static str {
        match self {
            SequenceError::MessageNumberOverflow => "Trying to increment message number past maximum value.",
        }
    }
}

/// The outcome of the checks on a message, in their order: the first that
/// fails names the error.
pub open spec fn validation_of(v: u32) -> Result<(), ValidationError> {
    let n = message_number_of(v);
    let t = turn_of(v);
    if n >= 27 {
        Err(ValidationError::MessageOverflow)
    } else if t >= 9 {
        Err(ValidationError::TurnOverflow)
    } else if n < t {
        Err(ValidationError::MessageBehindTurn)
    } else if n % 9 != t {
        Err(ValidationError::OutOfSync)
    } else if (n % 2 == 1) != p2_turn_of(v) {
        Err(ValidationError::ParityMismatch)
    } else {
        Ok(())
    }
}

/// The message that follows `v`: next turn modulo the number of cells, next
/// message number, the other player to move, all else kept.
pub open spec fn stepped(v: u32) -> u32 {
    pack(
        board_of(v),
        reserved_of(v),
        (message_number_of(v) + 1) as u32,
        !p2_turn_of(v),
        ((turn_of(v) + 1) % 9) as u32,
        ack_bit_of(v),
    )
}

/// What stepping `v` gives.
pub open spec fn step_of(v: u32) -> Result<Request, SequenceError> {
    if message_number_of(v) + 1 >= 27 {
        Err(SequenceError::MessageNumberOverflow)
    } else {
        Ok(Request(stepped(v)))
    }
}

/// The message as the other player sees it: every board bit flipped, and the
/// other player to move.
pub open spec fn swapped(v: u32) -> u32 {
    pack(
        0x1ff ^ board_of(v),
        reserved_of(v),
        message_number_of(v),
        !p2_turn_of(v),
        turn_of(v),
        ack_bit_of(v),
    )
}

/// A protocol message.
#[derive(Debug, Clone, Copy)]
pub struct Request(pub u32);

impl PartialEq for Request {
    fn eq(&self, other: &Self) -> (r: bool)
        ensures
            r == (self.0 == other.0),
    {
        self.0 == other.0
    }
}

impl vstd::std_specs::cmp::PartialEqSpecImpl for Request {
    open spec fn obeys_eq_spec() -> bool {
        true
    }

    open spec fn eq_spec(&self, other: &Request) -> bool {
        self.0 == other.0
    }
}

impl PartialEq<u32> for Request {
    fn eq(&self, other: &u32) -> (r: bool)
        ensures
            r == (self.0 == *other),
    {
        self.0 == *other
    }
}

impl vstd::std_specs::cmp::PartialEqSpecImpl<u32> for Request {
    open spec fn obeys_eq_spec() -> bool {
        true
    }

    open spec fn eq_spec(&self, other: &u32) -> bool {
        self.0 == *other
    }
}

/// Reading and stepping protocol messages.
pub trait DataRequest: Sized {
    /// The acknowledgment message when `is_ok_response`, else the empty message.
    fn new_data_request(is_ok_response: bool) -> Self;

    /// Checks that turn and message number are in range and in sync, and that
    /// the player to move matches the message number.
    fn validate_request(&self) -> Result<(), ValidationError>;

    /// The message as the other player sees it.
    fn swap_player(&self) -> Self;

    /// The turn field.
    fn get_turn(&self) -> u8;

    /// The message number field.
    fn get_message_number(&self) -> u8;

    /// The board occupancy bits.
    fn get_board_state(&self) -> u16;

    /// Whether player 2 is to move.
    fn get_is_p2_turn(&self) -> bool;

    /// The next message in the sequence.
    fn increment_turn_and_message(&self) -> Result<Self, SequenceError>;

    /// Whether this is exactly the acknowledgment message.
    fn is_ok_response(&self) -> bool;
}

impl DataRequest for Request {
    fn new_data_request(is_ok_response: bool) -> (r: Request)
        ensures
            r.0 == if is_ok_response {
                ACK
            } else {
                0
            },
    {
        if is_ok_response {
            let r = 1u32 << Bits::MessageType.offset();
            assert(1u32 << 31u32 == 0x8000_0000u32) by (bit_vector);
            return Request(r);
        }
        Request(0)
    }

    fn get_turn(&self) -> (r: u8)
        ensures
            r == turn_of(self.0),
    {
        let v = self.0;
        let s = Bits::TurnOffset.offset();
        let t = (v >> s) & 0xf;
        assert(t == turn_of(v)) by (bit_vector)
            requires
                t == (v >> s) & 0xf,
                s == 27,
        ;
        t as u8
    }

    fn get_board_state(&self) -> (r: u16)
        ensures
            r == board_of(self.0),
    {
        let v = self.0;
        let b = v & 0x1ff;
        assert(b == board_of(v)) by (bit_vector)
            requires
                b == v & 0x1ff,
        ;
        b as u16
    }

    fn get_is_p2_turn(&self) -> (r: bool)
        ensures
            r == p2_turn_of(self.0),
    {
        let v = self.0;
        let s = Bits::P2Turn.offset();
        let r = (v >> s) & 1 == 1;
        assert(r == p2_turn_of(v)) by (bit_vector)
            requires
                r == ((v >> s) & 1 == 1),
                s == 26,
        ;
        r
    }

    fn get_message_number(&self) -> (r: u8)
        ensures
            r == message_number_of(self.0),
    {
        let v = self.0;
        let s = Bits::MessageNumber.offset();
        let n = (v >> s) & 0x1f;
        assert(n == message_number_of(v)) by (bit_vector)
            requires
                n == (v >> s) & 0x1f,
                s == 21,
        ;
        n as u8
    }

    fn swap_player(&self) -> (r: Request)
        ensures
            r.0 == swapped(self.0),
            board_of(r.0) == 0x1ff - board_of(self.0),
            p2_turn_of(r.0) == !p2_turn_of(self.0),
            reserved_of(r.0) == reserved_of(self.0),
            message_number_of(r.0) == message_number_of(self.0),
            turn_of(r.0) == turn_of(self.0),
            ack_bit_of(r.0) == ack_bit_of(self.0),
    {
        let v = self.0;
        let mut output = v;
        let mut i: u32 = 0;
        assert(v ^ !(0xffff_ffffu32 << 0u32) == v) by (bit_vector);
        while i < Ranges::Board.width()
            invariant
                i <= 9,
                output == v ^ !(0xffff_ffffu32 << i),
            decreases 9 - i,
        {
            assert((v ^ !(0xffff_ffffu32 << i)) ^ (1u32 << i) == v ^ !(0xffff_ffffu32 << ((i + 1) as u32)))
                by (bit_vector)
                requires
                    i < 9,
            ;
            output = output ^ (1u32 << i);
            i = i + 1;
        }
        output = output ^ (1u32 << Bits::P2Turn.offset());
        assert(output == swapped(v) && {
            &&& board_of(output) == 0x1ff ^ board_of(v)
            &&& p2_turn_of(output) == !p2_turn_of(v)
            &&& reserved_of(output) == reserved_of(v)
            &&& message_number_of(output) == message_number_of(v)
            &&& turn_of(output) == turn_of(v)
            &&& ack_bit_of(output) == ack_bit_of(v)
        }) by (bit_vector)
            requires
                output == (v ^ !(0xffff_ffffu32 << 9u32)) ^ (1u32 << 26u32),
        ;
        let ghost b = board_of(v);
        assert((0x1ff ^ b) + b == 0x1ff) by (bit_vector)
            requires
                b < 0x200,
        ;
        Request(output)
    }

    fn increment_turn_and_message(&self) -> (r: Result<Request, SequenceError>)
        ensures
            r == step_of(self.0),
    {
        let v = self.0;
        let turn = self.get_turn();
        let message_number = self.get_message_number();
        if message_number + 1 >= MESSAGE_CEILING {
            return Err(SequenceError::MessageNumberOverflow);
        }
        let t = turn as u32;
        let n = message_number as u32;
        let ts = Bits::TurnOffset.offset();
        let ns = Bits::MessageNumber.offset();
        // Clear each field, then set it to its next value.
        let next_t = (t + 1) % 9;
        let next_n = n + 1;
        let mut output = v ^ (t << ts);
        output = output | (next_t << ts);
        output = output ^ (n << ns);
        output = output | (next_n << ns);
        output = output ^ (1u32 << Bits::P2Turn.offset());
        assert(output == pack(
            board_of(v),
            reserved_of(v),
            next_n,
            !p2_turn_of(v),
            next_t,
            ack_bit_of(v),
        )) by (bit_vector)
            requires
                t == turn_of(v),
                n == message_number_of(v),
                next_t < 9,
                next_n < 27,
                ts == 27,
                ns == 21,
                output == (((((v ^ (t << ts)) | (next_t << ts)) ^ (n << ns)) | (next_n << ns)) ^ (
                1u32 << 26u32)),
        ;
        Ok(Request(output))
    }

    fn validate_request(&self) -> (r: Result<(), ValidationError>)
        ensures
            r == validation_of(self.0),
    {
        let message_number = self.get_message_number();
        let turn = self.get_turn();
        if message_number >= MESSAGE_CEILING {
            return Err(ValidationError::MessageOverflow);
        }
        if turn >= CELLS {
            return Err(ValidationError::TurnOverflow);
        }
        if message_number < turn {
            return Err(ValidationError::MessageBehindTurn);
        }
        if message_number % CELLS != turn {
            return Err(ValidationError::OutOfSync);
        }
        if (message_number % 2 == 1) != self.get_is_p2_turn() {
            return Err(ValidationError::ParityMismatch);
        }
        Ok(())
    }

    fn is_ok_response(&self) -> (r: bool)
        ensures
            r == (self.0 == ACK),
    {
        self.0 == ACK
    }
}

impl Request {
    /// Whether the message-type bit marks an acknowledgment, whatever the
    /// other bits hold.
    pub fn is_ack(&self) -> (r: bool)
        ensures
            r == ack_bit_of(self.0),
    {
        let v = self.0;
        let s = Bits::MessageType.offset();
        let r = (v >> s) & 1 == 1;
        assert(r == ack_bit_of(v)) by (bit_vector)
            requires
                r == ((v >> s) & 1 == 1),
                s == 31,
        ;
        r
    }

    /// The data or acknowledgment message with the given fields and the
    /// reserved bits clear.
    pub fn encode(board: u16, turn: u8, message_number: u8, p2_turn: bool, is_ack: bool) -> (r:
        Request)
        requires
            board < 0x200,
            turn < 0x10,
            message_number < 0x20,
        ensures
            r.0 == pack(board as u32, 0, message_number as u32, p2_turn, turn as u32, is_ack),
            board_of(r.0) == board,
            reserved_of(r.0) == 0,
            message_number_of(r.0) == message_number,
            p2_turn_of(r.0) == p2_turn,
            turn_of(r.0) == turn,
            ack_bit_of(r.0) == is_ack,
    {
        let p: u32 = if p2_turn {
            1
        } else {
            0
        };
        let a: u32 = if is_ack {
            1
        } else {
            0
        };
        let (b, n, t) = (board as u32, message_number as u32, turn as u32);
        let (ns, ps, ts, as_) = (
            Bits::MessageNumber.offset(),
            Bits::P2Turn.offset(),
            Bits::TurnOffset.offset(),
            Bits::MessageType.offset(),
        );
        let r = b | (n << ns) | (p << ps) | (t << ts) | (a << as_);
        assert(r == pack(b, 0, n, p2_turn, t, is_ack)) by (bit_vector)
            requires
                r == b | (n << ns) | (p << ps) | (t << ts) | (a << as_),
                ns == 21,
                ps == 26,
                ts == 27,
                as_ == 31,
                p == (if p2_turn {
                    1u32
                } else {
                    0u32
                }),
                a == (if is_ack {
                    1u32
                } else {
                    0u32
                }),
        ;
        proof {
            lemma_fields_of_pack(board as u32, 0, message_number as u32, p2_turn, turn as u32, is_ack);
        }
        Request(r)
    }
}

/// Reading the six fields of a message and packing them again gives back the
/// message.
pub proof fn lemma_pack_fields(v: u32)
    ensures
        v == pack(
            board_of(v),
            reserved_of(v),
            message_number_of(v),
            p2_turn_of(v),
            turn_of(v),
            ack_bit_of(v),
        ),
{
    assert(v == pack(
        board_of(v),
        reserved_of(v),
        message_number_of(v),
        p2_turn_of(v),
        turn_of(v),
        ack_bit_of(v),
    )) by (bit_vector);
}

/// Each field of a packed message reads back the value packed into it.
pub proof fn lemma_fields_of_pack(
    board: u32,
    reserved: u32,
    message_number: u32,
    p2_turn: bool,
    turn: u32,
    ack: bool,
)
    requires
        board < 0x200,
        reserved < 0x1000,
        message_number < 0x20,
        turn < 0x10,
    ensures
        board_of(pack(board, reserved, message_number, p2_turn, turn, ack)) == board,
        reserved_of(pack(board, reserved, message_number, p2_turn, turn, ack)) == reserved,
        message_number_of(pack(board, reserved, message_number, p2_turn, turn, ack))
            == message_number,
        p2_turn_of(pack(board, reserved, message_number, p2_turn, turn, ack)) == p2_turn,
        turn_of(pack(board, reserved, message_number, p2_turn, turn, ack)) == turn,
        ack_bit_of(pack(board, reserved, message_number, p2_turn, turn, ack)) == ack,
{
    let v = pack(board, reserved, message_number, p2_turn, turn, ack);
    assert({
        &&& board_of(v) == board
        &&& reserved_of(v) == reserved
        &&& message_number_of(v) == message_number
        &&& p2_turn_of(v) == p2_turn
        &&& turn_of(v) == turn
        &&& ack_bit_of(v) == ack
    }) by (bit_vector)
        requires
            board < 0x200,
            reserved < 0x1000,
            message_number < 0x20,
            turn < 0x10,
            v == pack(board, reserved, message_number, p2_turn, turn, ack),
    ;
}

/// Decoding a message into its board, turn, message number, player to move
/// and message type, and encoding those again, gives back the message with
/// its reserved bits 9..21 cleared.
pub proof fn lemma_decode_encode(v: u32)
    ensures
        pack(board_of(v), 0, message_number_of(v), p2_turn_of(v), turn_of(v), ack_bit_of(v)) == v
            & 0xffe0_01ff,
{
    assert(pack(board_of(v), 0, message_number_of(v), p2_turn_of(v), turn_of(v), ack_bit_of(v))
        == v & 0xffe0_01ff) by (bit_vector);
}

/// Swapping the view of a message twice gives back the message.
pub proof fn lemma_swap_involution(v: u32)
    ensures
        swapped(swapped(v)) == v,
{
    let w = swapped(v);
    assert(swapped(w) == v) by (bit_vector)
        requires
            w == swapped(v),
    ;
}

/// The outcome of stepping `v` a number of times, stopping at the first error.
pub open spec fn steps(v: u32, n: nat) -> Result<Request, SequenceError>
    decreases n,
{
    if n == 0 {
        Ok(Request(v))
    } else {
        match steps(v, (n - 1) as nat) {
            Ok(r) => step_of(r.0),
            Err(e) => Err(e),
        }
    }
}

/// Stepping repeatedly from a message whose number is at most 26: every step
/// adds one to the message number, and a step fails, with an overflow,
/// exactly when the number before it is 26.
pub proof fn lemma_steps_overflow(v: u32, n: nat)
    requires
        message_number_of(v) <= 26,
    ensures
        steps(v, n) is Ok <==> message_number_of(v) + n <= 26,
        steps(v, n) is Ok ==> message_number_of(steps(v, n)->Ok_0.0) == message_number_of(v) + n,
        steps(v, n) is Ok ==> (step_of(steps(v, n)->Ok_0.0) == Err::<Request, SequenceError>(
            SequenceError::MessageNumberOverflow) <==> message_number_of(steps(v, n)->Ok_0.0)
            == 26),
        steps(v, n) is Err ==> steps(v, n) == Err::<Request, SequenceError>(
            SequenceError::MessageNumberOverflow),
    decreases n,
{
    if n > 0 {
        lemma_steps_overflow(v, (n - 1) as nat);
        if let Ok(r) = steps(v, (n - 1) as nat) {
            let w = r.0;
            if message_number_of(w) + 1 < 27 {
                lemma_fields_of_pack(
                    board_of(w),
                    reserved_of(w),
                    (message_number_of(w) + 1) as u32,
                    !p2_turn_of(w),
                    ((turn_of(w) + 1) % 9) as u32,
                    ack_bit_of(w),
                );
                assert(board_of(w) < 0x200 && reserved_of(w) < 0x1000) by (bit_vector);
            }
        }
    }
}

} // verus!
