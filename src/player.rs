//! Player identity: the 128-bit value of a UUID.
use vstd::prelude::*;

verus! {

/// The number whose big-endian bytes are `s`.
pub open spec fn be_value(s: Seq<u8>) -> nat
    decreases s.len(),
{
    if s.len() == 0 {
        0
    } else {
        be_value(s.drop_last()) * 256 + s.last() as nat
    }
}

/// Relies on uuid's `Uuid::new_v4` and `Uuid::as_u128`: a random version-4
/// UUID, read as a big-endian number, has version nibble 4 (bits 76..80) and
/// variant bits 0b10 (bits 62..64).
#[verifier::external_body]
fn random_v4_id() -> (r: u128)
    ensures
        (r >> 76u128) & 0xf == 4,
        (r >> 62u128) & 0x3 == 2,
{
    uuid::Uuid::new_v4().as_u128()
}

/// Relies on uuid's `Uuid::from_bytes` and `Uuid::as_u128`: the UUID made of
/// these bytes is the big-endian number they spell.
#[verifier::external_body]
fn id_from_bytes(bytes: &[u8; 16]) -> (r: u128)
    ensures
        r == be_value(bytes@),
{
    uuid::Uuid::from_bytes(*bytes).as_u128()
}

/// Relies on uuid's `Uuid::from_u128` and `Uuid::into_bytes`: the bytes of the
/// UUID with this value are its big-endian bytes.
#[verifier::external_body]
fn id_to_bytes(id: u128) -> (r: [u8; 16])
    ensures
        be_value(r@) == id,
{
    uuid::Uuid::from_u128(id).into_bytes()
}

/// The identity of a player.
#[derive(Debug, Clone, Copy, PartialEq, Eq, Structural, Hash)]
pub struct Player(u128);

impl View for Player {
    type V = u128;

    closed spec fn view(&self) -> u128 {
        self.0
    }
}

impl Player {
    /// Two players are the same exactly when their identities are.
    pub proof fn lemma_view_eq(a: Player, b: Player)
        ensures
            a == b <==> a@ == b@,
    {
    }

    /// The 16-byte token that carries this identity, big-endian.
    pub fn to_bytes(&self) -> (r: [u8; 16])
        ensures
            be_value(r@) == self@,
    {
        id_to_bytes(self.0)
    }
}

/// Making and reading player identities.
pub trait PlayerTrait: Sized {
    /// A fresh random identity.
    fn new() -> Self;

    /// The identity's value.
    fn get_id(&self) -> u128;

    /// The identity carried by a 16-byte token.
    fn from_bytes(bytes: &[u8; 16]) -> Self;
}

impl PlayerTrait for Player {
    fn new() -> (r: Player)
        ensures
            (r@ >> 76u128) & 0xf == 4,
            (r@ >> 62u128) & 0x3 == 2,
    {
        Player(random_v4_id())
    }

    fn get_id(&self) -> (r: u128)
        ensures
            r == self@,
    {
        self.0
    }

    fn from_bytes(bytes: &[u8; 16]) -> (r: Player)
        ensures
            r@ == be_value(bytes@),
    {
        Player(id_from_bytes(bytes))
    }
}

} // verus!
