//! Entity state flags, as the entity metadata byte carries them, and the
//! server's difficulty levels.
use vstd::prelude::*;

verus! {

/// A flag of the entity metadata byte; its bit is its position in this list.
#[derive(Clone, Copy, Debug, PartialEq, Eq, Structural)]
pub enum Flag {
    OnFire,
    Sneaking,
    Sprinting,
    Swimming,
    Invisible,
    Glowing,
    FallFlying,
}

impl Flag {
    pub open spec fn bit_spec(self) -> u8 {
        match self {
            Flag::OnFire => 0,
            Flag::Sneaking => 1,
            Flag::Sprinting => 2,
            Flag::Swimming => 3,
            Flag::Invisible => 4,
            Flag::Glowing => 5,
            Flag::FallFlying => 6,
        }
    }

    pub fn bit(&self) -> (r: u8)
        ensures
            r == self.bit_spec(),
            r < 8,
    {
        match self {
            Flag::OnFire => 0,
            Flag::Sneaking => 1,
            Flag::Sprinting => 2,
            Flag::Swimming => 3,
            Flag::Invisible => 4,
            Flag::Glowing => 5,
            Flag::FallFlying => 6,
        }
    }

    /// The metadata byte `flags` with this flag set to `value` and every
    /// other flag kept.
    pub fn apply(&self, flags: u8, value: bool) -> (r: u8)
        ensures
            forall|j: u8| j < 8 ==> ((r >> j) & 1 == 1 <==> if j == self.bit_spec() {
                value
            } else {
                (flags >> j) & 1 == 1
            }),
    {
        let index = self.bit();
        let r = if value {
            flags | (1u8 << index)
        } else {
            flags & !(1u8 << index)
        };
        assert(forall|j: u8| j < 8 && j != index ==> #[trigger] ((r >> j) & 1) == (flags >> j) & 1) by (bit_vector)
            requires
                index < 8,
                r == if value { flags | (1u8 << index) } else { flags & !(1u8 << index) },
        ;
        assert(((r >> index) & 1 == 1) == value) by (bit_vector)
            requires
                index < 8,
                r == if value { flags | (1u8 << index) } else { flags & !(1u8 << index) },
        ;
        r
    }
}

#[derive(Clone, Copy, Debug, PartialEq, Eq, Structural)]
pub enum Difficulty {
    Peaceful,
    Easy,
    Normal,
    Hard,
}

} // verus!
