//! The three classes of a file's permission bits.

use vstd::prelude::*;

verus! {

/// Who a triplet of permission bits applies to.
#[derive(Clone, Copy, Debug, PartialEq, Eq, Structural)]
pub enum Owner {
    User,
    Group,
    Other,
}

impl Owner {
    /// Position of the class's lowest bit (its execute bit) in a mode.
    pub open spec fn shift(self) -> u32 {
        match self {
            Owner::User => 6,
            Owner::Group => 3,
            Owner::Other => 0,
        }
    }

    /// The class's read bit.
    pub open spec fn read_mask(self) -> u32 {
        match self {
            Owner::User => 0o400,
            Owner::Group => 0o040,
            Owner::Other => 0o004,
        }
    }

    /// The class's write bit.
    pub open spec fn write_mask(self) -> u32 {
        match self {
            Owner::User => 0o200,
            Owner::Group => 0o020,
            Owner::Other => 0o002,
        }
    }

    /// The class's execute bit.
    pub open spec fn execute_mask(self) -> u32 {
        match self {
            Owner::User => 0o100,
            Owner::Group => 0o010,
            Owner::Other => 0o001,
        }
    }

    /// All three bits of the class together.
    pub open spec fn class_mask(self) -> u32 {
        self.read_mask() | self.write_mask() | self.execute_mask()
    }

    /// The read, write and execute masks of the class, in that order.
    pub fn masks(&self) -> (m: [u32; 3])
        ensures
            m[0] == self.read_mask(),
            m[1] == self.write_mask(),
            m[2] == self.execute_mask(),
    {
        match self {
            Owner::User => [0o400, 0o200, 0o100],
            Owner::Group => [0o040, 0o020, 0o010],
            Owner::Other => [0o004, 0o002, 0o001],
        }
    }
}

/// Each mask is the bit `4`, `2` or `1` moved up to the class's place.
pub proof fn lemma_masks_by_shift(owner: Owner)
    ensures
        owner.read_mask() == 4u32 << owner.shift(),
        owner.write_mask() == 2u32 << owner.shift(),
        owner.execute_mask() == 1u32 << owner.shift(),
        owner.class_mask() == 7u32 << owner.shift(),
{
    assert(0o400u32 == 4u32 << 6u32 && 0o200u32 == 2u32 << 6u32 && 0o100u32 == 1u32 << 6u32)
        by (bit_vector);
    assert(0o040u32 == 4u32 << 3u32 && 0o020u32 == 2u32 << 3u32 && 0o010u32 == 1u32 << 3u32)
        by (bit_vector);
    assert(0o004u32 == 4u32 << 0u32 && 0o002u32 == 2u32 << 0u32 && 0o001u32 == 1u32 << 0u32)
        by (bit_vector);
    assert((0o400u32 | 0o200u32 | 0o100u32) == 7u32 << 6u32) by (bit_vector);
    assert((0o040u32 | 0o020u32 | 0o010u32) == 7u32 << 3u32) by (bit_vector);
    assert((0o004u32 | 0o002u32 | 0o001u32) == 7u32 << 0u32) by (bit_vector);
}

/// The masks of two different classes share no bit, and the three classes
/// together cover exactly the nine permission bits.
pub proof fn lemma_masks_partition(a: Owner, b: Owner)
    ensures
        a != b ==> a.class_mask() & b.class_mask() == 0,
        a.read_mask() & a.write_mask() == 0,
        a.read_mask() & a.execute_mask() == 0,
        a.write_mask() & a.execute_mask() == 0,
        Owner::User.class_mask() | Owner::Group.class_mask() | Owner::Other.class_mask() == 0o777,
{
    assert((0o400u32 | 0o200u32 | 0o100u32) & (0o040u32 | 0o020u32 | 0o010u32) == 0)
        by (bit_vector);
    assert((0o400u32 | 0o200u32 | 0o100u32) & (0o004u32 | 0o002u32 | 0o001u32) == 0)
        by (bit_vector);
    assert((0o040u32 | 0o020u32 | 0o010u32) & (0o004u32 | 0o002u32 | 0o001u32) == 0)
        by (bit_vector);
    assert((0o040u32 | 0o020u32 | 0o010u32) & (0o400u32 | 0o200u32 | 0o100u32) == 0)
        by (bit_vector);
    assert((0o004u32 | 0o002u32 | 0o001u32) & (0o400u32 | 0o200u32 | 0o100u32) == 0)
        by (bit_vector);
    assert((0o004u32 | 0o002u32 | 0o001u32) & (0o040u32 | 0o020u32 | 0o010u32) == 0)
        by (bit_vector);
    assert(0o400u32 & 0o200u32 == 0 && 0o400u32 & 0o100u32 == 0 && 0o200u32 & 0o100u32 == 0)
        by (bit_vector);
    assert(0o040u32 & 0o020u32 == 0 && 0o040u32 & 0o010u32 == 0 && 0o020u32 & 0o010u32 == 0)
        by (bit_vector);
    assert(0o004u32 & 0o002u32 == 0 && 0o004u32 & 0o001u32 == 0 && 0o002u32 & 0o001u32 == 0)
        by (bit_vector);
    assert((0o400u32 | 0o200u32 | 0o100u32) | (0o040u32 | 0o020u32 | 0o010u32) | (0o004u32
        | 0o002u32 | 0o001u32) == 0o777u32) by (bit_vector);
}

} // verus!
