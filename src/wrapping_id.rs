use vstd::prelude::*;

verus! {

/// Number of distinct values of a 16-bit wrapping identifier.
pub const ID_SPACE: u32 = 65536;

/// Half of the identifier space: the largest forward distance that still counts as "newer".
pub const HALF_ID_SPACE: u32 = 32768;

/// Forward distance from `b` to `a` on the 16-bit circle, in `0 .. 65536`.
pub open spec fn forward_distance(a: u16, b: u16) -> int {
    (a as int - b as int) % 65536
}

/// `a` is strictly newer than `b`: it lies less than half the id space ahead of `b`.
pub open spec fn is_newer(a: u16, b: u16) -> bool {
    0 < forward_distance(a, b) < 32768
}

/// The id that follows `a`, wrapping from 65535 back to 0.
pub open spec fn next_id(a: u16) -> u16 {
    ((a as int + 1) % 65536) as u16
}

/// The id `k` steps after `a`, wrapping around.
pub open spec fn id_plus(a: u16, k: int) -> u16 {
    ((a as int + k) % 65536) as u16
}

/// A 16-bit wrapping identifier, used for reliable messages and fragment groups.
#[derive(Clone, Copy, Debug, PartialEq, Eq, Hash, Structural)]
pub struct MessageId(pub u16);

impl MessageId {
    /// Forward distance from `other` to `self` on the identifier circle.
    pub fn distance_from(&self, other: &MessageId) -> (r: u16)
        ensures
            r as int == forward_distance(self.0, other.0),
    {
        if self.0 >= other.0 {
            self.0 - other.0
        } else {
            ((self.0 as u32 + ID_SPACE) - other.0 as u32) as u16
        }
    }

    /// True when `self` is strictly newer than `other` under modular ordering.
    pub fn is_newer_than(&self, other: &MessageId) -> (r: bool)
        ensures
            r == is_newer(self.0, other.0),
    {
        let d = self.distance_from(other);
        0 < d && (d as u32) < HALF_ID_SPACE
    }

    /// The following id, wrapping around at the end of the space.
    pub fn next(&self) -> (r: MessageId)
        ensures
            r.0 == next_id(self.0),
    {
        if self.0 == 65535 {
            MessageId(0)
        } else {
            MessageId(self.0 + 1)
        }
    }
}

/// The id right after any id is newer than it, including across the wrap from 65535 to 0.
pub proof fn lemma_next_is_newer(a: u16)
    ensures
        is_newer(next_id(a), a),
        !is_newer(a, next_id(a)),
        is_newer(0, 65535),
        !is_newer(65535, 0),
{
}

/// Newer-than is irreflexive and asymmetric.
pub proof fn lemma_newer_asymmetric(a: u16, b: u16)
    ensures
        !is_newer(a, a),
        is_newer(a, b) ==> !is_newer(b, a),
{
}

} // verus!
