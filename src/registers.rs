use vstd::prelude::*;

verus! {

/// Byte lane `i` (`0 <= i < 8`) of a 64-bit word, little-endian.
pub open spec fn lane(w: u64, i: u64) -> u64 {
    (w >> ((8 * i) as u64)) & 0xff
}

/// `w` with byte lane `i` replaced by the low byte of `v`.
pub open spec fn with_lane(w: u64, i: u64, v: u64) -> u64 {
    (w & !(0xffu64 << ((8 * i) as u64))) | ((v & 0xff) << ((8 * i) as u64))
}

/// One 64-bit register, whose four low bytes can also be read and written
/// as independent lanes.
#[derive(Clone, Copy, Debug, PartialEq, Eq, Structural)]
pub struct DataRegister {
    pub long: u64,
}

impl DataRegister {
    pub fn new(long: u64) -> (r: DataRegister)
        ensures
            r.long == long,
    {
        DataRegister { long }
    }

    pub fn long_register(&self) -> (r: u64)
        ensures
            r == self.long,
    {
        self.long
    }

    pub fn byte_register(&self, idx: usize) -> (r: u8)
        requires
            idx < 4,
        ensures
            r as u64 == lane(self.long, idx as u64),
    {
        let shift: u64 = 8 * idx as u64;
        let w = self.long;
        let r = ((w >> shift) & 0xff) as u8;
        assert(((w >> shift) & 0xff) as u8 as u64 == (w >> shift) & 0xff) by (bit_vector);
        r
    }

    pub fn set_byte_register(&mut self, val: u8, idx: usize)
        requires
            idx < 4,
        ensures
            final(self).long == with_lane(old(self).long, idx as u64, val as u64),
    {
        let shift: u64 = 8 * idx as u64;
        let w = self.long;
        self.long = (w & !(0xffu64 << shift)) | (((val as u64) & 0xff) << shift);
    }

    pub fn set_long_register(&mut self, val: u64)
        ensures
            final(self).long == val,
    {
        self.long = val;
    }
}

/// Writing a byte lane changes that lane only: every other byte of the long
/// word keeps its value, and the written lane holds the low byte written.
pub proof fn lemma_lane_write_isolated(w: u64, i: u64, v: u64, j: u64)
    requires
        i < 4,
        j < 8,
    ensures
        j != i ==> lane(with_lane(w, i, v), j) == lane(w, j),
        lane(with_lane(w, i, v), i) == v & 0xff,
{
    assert(j != i ==> lane(with_lane(w, i, v), j) == lane(w, j)) by (bit_vector)
        requires
            i < 4,
            j < 8,
    ;
    assert(lane(with_lane(w, i, v), i) == v & 0xff) by (bit_vector)
        requires
            i < 4,
    ;
}

} // verus!
