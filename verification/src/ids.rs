//! Where new IDs come from.

use vstd::prelude::*;

verus! {

/// The bits are those of a version 7 UUID: of its digits the 13th, which gives the version, is 7,
/// and the 17th, whose upper two bits give the variant, is one of 8, 9, a and b.
pub open spec fn is_version_7(bits: u128) -> bool {
    &&& bits as int / 0x1000_0000_0000_0000_0000 % 16 == 7
    &&& bits as int / 0x4000_0000_0000_0000 % 4 == 2
}

/// Draws version 7 UUIDs, each greater than those that it drew before.
pub struct IdSource {
    /// The bits that were drawn last; zero before the first time. Nothing but what `now_v7` gave
    /// may be put here: its contract rests on that.
    last: u128,
}

impl IdSource {
    #[verifier::type_invariant]
    spec fn holds_what_was_drawn(self) -> bool {
        self.last == 0 || is_version_7(self.last)
    }

    /// The bits that were drawn last; zero before the first time.
    pub closed spec fn last(self) -> u128 {
        self.last
    }

    /// A source that has drawn nothing.
    pub fn new() -> (source: Self)
        ensures
            source.last() == 0,
    {
        IdSource { last: 0 }
    }

    /// The bits of a new UUID, greater than all that this source drew before.
    pub fn draw(&mut self) -> (bits: u128)
        ensures
            is_version_7(bits),
            bits > old(self).last(),
            final(self).last() == bits,
    {
        proof {
            use_type_invariant(&*self);
        }
        let bits: u128 = now_v7(&*self);
        self.last = bits;
        bits
    }
}

/// Calls `uuid::Uuid::now_v7`, which is believed to set the version and the variant of a version 7
/// UUID. Its documentation guarantees that the UUIDs which one process makes by it are ordered by
/// their creation, so this one is believed to be greater than the last that the source drew: a
/// source holds nothing but what this call gave before. (The milliseconds that a UUID begins with
/// last until the year 10889.) Of the time and the random bits in it nothing is said, nor of UUIDs
/// from other processes; it panics where the clock is set before 1970.
#[verifier::external_body]
fn now_v7(_source: &IdSource) -> (bits: u128)
    ensures
        is_version_7(bits),
        bits > _source.last(),
{
    uuid::Uuid::now_v7().as_u128()
}

} // verus!
