//! Commands that a client sends.
use vstd::prelude::*;

verus! {

/// The bytes that open every connection.
pub const HANDSHAKE_MAGIC: [u8; 8] = [111, 197, 49, 147, 243, 227, 34, 189];

/// The bytes a client must send first.
pub open spec fn spec_handshake_magic() -> Seq<u8> {
    seq![111u8, 197u8, 49u8, 147u8, 243u8, 227u8, 34u8, 189u8]
}

/// The first message of a client.
#[derive(Debug, Clone)]
pub struct PlayerHandshake {
    pub magic: [u8; 8],
}

impl PlayerHandshake {
    /// A handshake with the expected magic bytes.
    pub fn new() -> (h: PlayerHandshake)
        ensures
            h.magic@ == spec_handshake_magic(),
    {
        let h = PlayerHandshake { magic: HANDSHAKE_MAGIC };
        assert(h.magic@ =~= spec_handshake_magic());
        h
    }

    /// Whether the handshake holds the expected magic bytes.
    pub fn is_valid(&self) -> (b: bool)
        ensures
            b == (self.magic@ == spec_handshake_magic()),
    {
        let expected = HANDSHAKE_MAGIC;
        assert(expected@ =~= spec_handshake_magic());
        let mut i: usize = 0;
        while i < 8
            invariant
                i <= 8,
                expected@ == spec_handshake_magic(),
                forall|k: int| 0 <= k < i ==> self.magic@[k] == expected@[k],
            decreases 8 - i,
        {
            if self.magic[i] != expected[i] {
                return false;
            }
            i = i + 1;
        }
        assert(self.magic@ =~= spec_handshake_magic());
        true
    }
}

/// A command that concerns the player, not the room it is in.
#[derive(Debug, Clone, Copy, PartialEq, Eq, Structural)]
pub enum GlobalCommand {
    Ping { sequence_number: u32 },
}

} // verus!
