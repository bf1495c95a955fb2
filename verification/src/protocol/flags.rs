use vstd::prelude::*;

verus! {

/// The bit of a character's flags byte that marks it alive.
pub const ALIVE: u8 = 0x80u8;

/// The bit that marks a character as joining battles ("join-battle").
pub const BATTLE: u8 = 0x40u8;

/// The bit that marks a character as a monster.
pub const MONSTER: u8 = 0x20u8;

/// The bit that marks a character as having started the game.
pub const STARTED: u8 = 0x10u8;

/// The bit that marks a character as ready to start.
pub const READY: u8 = 0x08u8;

/// All the bits that carry a meaning; the others are reserved.
pub const KNOWN_BITS: u8 = 0xf8u8;

/// The flags byte of a Lurk character. Only the five known bits can be set:
/// reserved bits are dropped when a byte is read.
#[derive(Clone, Copy, Debug, PartialEq, Eq, Structural)]
pub struct CharacterFlags {
    bits: u8,
}

impl CharacterFlags {
    /// The value of the flags as a byte.
    pub closed spec fn spec_bits(self) -> u8 {
        self.bits
    }

    /// Two flag values are equal when their bytes are.
    pub proof fn lemma_eq(a: CharacterFlags, b: CharacterFlags)
        requires
            a.spec_bits() == b.spec_bits(),
        ensures
            a == b,
    {
    }

    /// Whether every bit of `mask` is set.
    pub open spec fn has(self, mask: u8) -> bool {
        self.spec_bits() & mask == mask
    }

    #[verifier::type_invariant]
    spec fn only_known_bits(self) -> bool {
        self.bits & KNOWN_BITS == self.bits
    }

    /// No flag set.
    pub fn empty() -> (f: CharacterFlags)
        ensures
            f.spec_bits() == 0,
    {
        proof {
            assert(0u8 & KNOWN_BITS == 0u8) by (bit_vector);
        }
        CharacterFlags { bits: 0 }
    }

    /// The byte that holds the flags.
    pub fn bits(&self) -> (b: u8)
        ensures
            b == self.spec_bits(),
            b & KNOWN_BITS == b,
    {
        proof {
            use_type_invariant(self);
        }
        self.bits
    }

    /// The flags set in `b`; reserved bits are left out.
    pub fn from_bits_truncate(b: u8) -> (f: CharacterFlags)
        ensures
            f.spec_bits() == b & KNOWN_BITS,
    {
        proof {
            assert((b & KNOWN_BITS) & KNOWN_BITS == b & KNOWN_BITS) by (bit_vector);
        }
        CharacterFlags { bits: b & KNOWN_BITS }
    }

    /// Whether every flag of `other` is also set here.
    pub fn contains(&self, other: CharacterFlags) -> (r: bool)
        ensures
            r == self.has(other.spec_bits()),
    {
        self.bits & other.bits == other.bits
    }

    /// The flags set in either operand.
    pub fn union(self, other: CharacterFlags) -> (f: CharacterFlags)
        ensures
            f.spec_bits() == self.spec_bits() | other.spec_bits(),
    {
        proof {
            use_type_invariant(&self);
            use_type_invariant(&other);
            let a = self.bits;
            let b = other.bits;
            assert(a & KNOWN_BITS == a && b & KNOWN_BITS == b ==> (a | b) & KNOWN_BITS == (a | b))
                by (bit_vector);
        }
        CharacterFlags { bits: self.bits | other.bits }
    }

    /// Sets every flag of `other` as well (`|=`).
    pub fn insert(&mut self, other: CharacterFlags)
        ensures
            final(self).spec_bits() == old(self).spec_bits() | other.spec_bits(),
    {
        *self = self.union(other);
    }

    /// The single flag `ALIVE`.
    pub fn alive_flag() -> (f: CharacterFlags)
        ensures
            f.spec_bits() == ALIVE,
    {
        proof {
            assert(ALIVE & KNOWN_BITS == ALIVE) by (bit_vector);
        }
        CharacterFlags { bits: ALIVE }
    }

    /// The single flag `BATTLE`.
    pub fn battle_flag() -> (f: CharacterFlags)
        ensures
            f.spec_bits() == BATTLE,
    {
        proof {
            assert(BATTLE & KNOWN_BITS == BATTLE) by (bit_vector);
        }
        CharacterFlags { bits: BATTLE }
    }

    /// The single flag `MONSTER`.
    pub fn monster_flag() -> (f: CharacterFlags)
        ensures
            f.spec_bits() == MONSTER,
    {
        proof {
            assert(MONSTER & KNOWN_BITS == MONSTER) by (bit_vector);
        }
        CharacterFlags { bits: MONSTER }
    }

    /// The single flag `STARTED`.
    pub fn started_flag() -> (f: CharacterFlags)
        ensures
            f.spec_bits() == STARTED,
    {
        proof {
            assert(STARTED & KNOWN_BITS == STARTED) by (bit_vector);
        }
        CharacterFlags { bits: STARTED }
    }

    /// The single flag `READY`.
    pub fn ready_flag() -> (f: CharacterFlags)
        ensures
            f.spec_bits() == READY,
    {
        proof {
            assert(READY & KNOWN_BITS == READY) by (bit_vector);
        }
        CharacterFlags { bits: READY }
    }

    pub fn is_alive(&self) -> (r: bool)
        ensures
            r == self.has(ALIVE),
    {
        self.bits & ALIVE == ALIVE
    }

    pub fn is_battle(&self) -> (r: bool)
        ensures
            r == self.has(BATTLE),
    {
        self.bits & BATTLE == BATTLE
    }

    pub fn is_started(&self) -> (r: bool)
        ensures
            r == self.has(STARTED),
    {
        self.bits & STARTED == STARTED
    }

    pub fn is_ready(&self) -> (r: bool)
        ensures
            r == self.has(READY),
    {
        self.bits & READY == READY
    }

    /// The flags of a dead character: it still joins battles and is ready.
    pub fn dead() -> (f: CharacterFlags)
        ensures
            f.spec_bits() == BATTLE | READY,
            f.spec_bits() == 0x48,
    {
        proof {
            assert(BATTLE | READY == 0x48u8) by (bit_vector);
            assert(0x48u8 & KNOWN_BITS == 0x48u8) by (bit_vector);
        }
        CharacterFlags { bits: BATTLE | READY }
    }

    /// The flags of a living character that joins battles and is ready.
    pub fn alive() -> (f: CharacterFlags)
        ensures
            f.spec_bits() == ALIVE | BATTLE | READY,
            f.spec_bits() == 0xc8,
    {
        proof {
            assert(ALIVE | BATTLE | READY == 0xc8u8) by (bit_vector);
            assert(0xc8u8 & KNOWN_BITS == 0xc8u8) by (bit_vector);
        }
        CharacterFlags { bits: ALIVE | BATTLE | READY }
    }

    /// The flags a new character gets: alive and joining battles, not ready.
    pub fn reset() -> (f: CharacterFlags)
        ensures
            f.spec_bits() == ALIVE | BATTLE,
            f.spec_bits() == 0xc0,
    {
        proof {
            assert(ALIVE | BATTLE == 0xc0u8) by (bit_vector);
            assert(0xc0u8 & KNOWN_BITS == 0xc0u8) by (bit_vector);
        }
        CharacterFlags { bits: ALIVE | BATTLE }
    }
}

/// What each flag test answers on each byte a character can carry.
pub proof fn lemma_flag_bits(b: u8)
    ensures
        (b & ALIVE == ALIVE) == (b >= 0x80),
        b == 0xc8 ==> (b & ALIVE == ALIVE && b & BATTLE == BATTLE && b & READY == READY && b
            & STARTED != STARTED && b & MONSTER != MONSTER),
        b == 0xc0 ==> (b & ALIVE == ALIVE && b & BATTLE == BATTLE && b & READY != READY && b
            & STARTED != STARTED && b & MONSTER != MONSTER),
        b == 0x48 ==> (b & ALIVE != ALIVE && b & BATTLE == BATTLE && b & READY == READY && b
            & STARTED != STARTED && b & MONSTER != MONSTER),
        b == 0 ==> (b & ALIVE != ALIVE && b & BATTLE != BATTLE && b & READY != READY && b & STARTED
            != STARTED && b & MONSTER != MONSTER),
{
    assert((b & 0x80u8 == 0x80u8) == (b >= 0x80u8)) by (bit_vector);
    assert(b == 0xc8u8 ==> (b & 0x80u8 == 0x80u8 && b & 0x40u8 == 0x40u8 && b & 0x08u8 == 0x08u8
        && b & 0x10u8 != 0x10u8 && b & 0x20u8 != 0x20u8)) by (bit_vector);
    assert(b == 0xc0u8 ==> (b & 0x80u8 == 0x80u8 && b & 0x40u8 == 0x40u8 && b & 0x08u8 != 0x08u8
        && b & 0x10u8 != 0x10u8 && b & 0x20u8 != 0x20u8)) by (bit_vector);
    assert(b == 0x48u8 ==> (b & 0x80u8 != 0x80u8 && b & 0x40u8 == 0x40u8 && b & 0x08u8 == 0x08u8
        && b & 0x10u8 != 0x10u8 && b & 0x20u8 != 0x20u8)) by (bit_vector);
    assert(b == 0u8 ==> (b & 0x80u8 != 0x80u8 && b & 0x40u8 != 0x40u8 && b & 0x08u8 != 0x08u8
        && b & 0x10u8 != 0x10u8 && b & 0x20u8 != 0x20u8)) by (bit_vector);
}

} // verus!
