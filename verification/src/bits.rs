//! The state of a player packed in three bytes, as it travels in a move
//! message.

use vstd::prelude::*;

verus! {

/// Three bytes that hold, counted from the lowest bit of the first byte:
/// ten bits of `x`, ten bits of `y`, one bit `facing` and one bit `shooting`.
/// The two highest bits of the third byte are free.
#[derive(Clone, Copy, Debug, PartialEq, Eq)]
pub struct PlayerStateBits(pub [u8; 3]);

/// Three bytes as one number, the first byte lowest.
pub open spec fn word_of(bytes: Seq<u8>) -> u32 {
    (bytes[0] as u32) | ((bytes[1] as u32) << 8) | ((bytes[2] as u32) << 16)
}

/// Bits 0 to 9 of a packed state.
pub open spec fn x_in(word: u32) -> u32 {
    word & 0x3ff
}

/// Bits 10 to 19 of a packed state.
pub open spec fn y_in(word: u32) -> u32 {
    (word >> 10) & 0x3ff
}

/// Bit 20 of a packed state.
pub open spec fn facing_in(word: u32) -> bool {
    (word >> 20) & 1 == 1
}

/// Bit 21 of a packed state.
pub open spec fn shooting_in(word: u32) -> bool {
    (word >> 21) & 1 == 1
}

/// The three bytes of a number below 2^24, the lowest first.
pub open spec fn bytes_of(word: u32) -> Seq<u8> {
    seq![(word & 0xff) as u8, ((word >> 8) & 0xff) as u8, ((word >> 16) & 0xff) as u8]
}

impl PlayerStateBits {
    /// The three bytes as one number.
    pub open spec fn spec_word(self) -> u32 {
        word_of(self.0@)
    }

    /// Bits 0 to 9.
    pub open spec fn spec_x(self) -> u32 {
        x_in(self.spec_word())
    }

    /// Bits 10 to 19.
    pub open spec fn spec_y(self) -> u32 {
        y_in(self.spec_word())
    }

    /// Bit 20.
    pub open spec fn spec_facing(self) -> bool {
        facing_in(self.spec_word())
    }

    /// Bit 21.
    pub open spec fn spec_shooting(self) -> bool {
        shooting_in(self.spec_word())
    }

    fn word(&self) -> (w: u32)
        ensures
            w == self.spec_word(),
            w < 0x100_0000,
    {
        let b0 = self.0[0];
        let b1 = self.0[1];
        let b2 = self.0[2];
        let w = (b0 as u32) | ((b1 as u32) << 8) | ((b2 as u32) << 16);
        assert(((b0 as u32) | ((b1 as u32) << 8) | ((b2 as u32) << 16)) < 0x100_0000u32)
            by (bit_vector);
        w
    }

    fn put(&mut self, w: u32)
        requires
            w < 0x100_0000,
        ensures
            final(self).spec_word() == w,
            final(self).0@ == bytes_of(w),
    {
        let b0 = (w & 0xff) as u8;
        let b1 = ((w >> 8) & 0xff) as u8;
        let b2 = ((w >> 16) & 0xff) as u8;
        assert(w < 0x100_0000u32 ==> ((((w & 0xff) as u8) as u32) | ((((w >> 8) & 0xff) as u8) as u32)
            << 8 | ((((w >> 16) & 0xff) as u8) as u32) << 16) == w) by (bit_vector);
        self.0 = [b0, b1, b2];
        assert(self.0@ =~= bytes_of(w));
    }

    /// The ten bits of `x`.
    pub fn x(&self) -> (x: u32)
        ensures
            x == self.spec_x(),
            x < 1024,
    {
        let w = self.word();
        assert(w & 0x3ff < 1024) by (bit_vector);
        w & 0x3ff
    }

    /// The ten bits of `y`.
    pub fn y(&self) -> (y: u32)
        ensures
            y == self.spec_y(),
            y < 1024,
    {
        let w = self.word();
        assert((w >> 10) & 0x3ff < 1024) by (bit_vector);
        (w >> 10) & 0x3ff
    }

    /// The bit `facing`.
    pub fn facing(&self) -> (facing: bool)
        ensures
            facing == self.spec_facing(),
    {
        (self.word() >> 20) & 1 == 1
    }

    /// The bit `shooting`.
    pub fn shooting(&self) -> (shooting: bool)
        ensures
            shooting == self.spec_shooting(),
    {
        (self.word() >> 21) & 1 == 1
    }

    /// Stores the ten lowest bits of `value` as `x`. Nothing else changes.
    pub fn set_x(&mut self, value: u32)
        ensures
            final(self).spec_word() == (old(self).spec_word() & !0x3ffu32) | (value & 0x3ff),
            final(self).spec_x() == value & 0x3ff,
            final(self).spec_y() == old(self).spec_y(),
            final(self).spec_facing() == old(self).spec_facing(),
            final(self).spec_shooting() == old(self).spec_shooting(),
    {
        let w = self.word();
        let n = (w & !0x3ffu32) | (value & 0x3ff);
        assert((w < 0x100_0000u32 ==> ((w & !0x3ffu32) | (value & 0x3ff)) < 0x100_0000u32)
            && (((w & !0x3ffu32) | (value & 0x3ff)) & 0x3ff == value & 0x3ff)
            && ((((w & !0x3ffu32) | (value & 0x3ff)) >> 10) & 0x3ff == (w >> 10) & 0x3ff)
            && ((((w & !0x3ffu32) | (value & 0x3ff)) >> 20) & 1 == (w >> 20) & 1)
            && ((((w & !0x3ffu32) | (value & 0x3ff)) >> 21) & 1 == (w >> 21) & 1)) by (bit_vector);
        self.put(n);
    }

    /// Stores the ten lowest bits of `value` as `y`. Nothing else changes.
    pub fn set_y(&mut self, value: u32)
        ensures
            final(self).spec_word() == (old(self).spec_word() & !0xf_fc00u32) | ((value & 0x3ff)
                << 10),
            final(self).spec_x() == old(self).spec_x(),
            final(self).spec_y() == value & 0x3ff,
            final(self).spec_facing() == old(self).spec_facing(),
            final(self).spec_shooting() == old(self).spec_shooting(),
    {
        let w = self.word();
        let n = (w & !0xf_fc00u32) | ((value & 0x3ff) << 10);
        assert((w < 0x100_0000u32 ==> ((w & !0xf_fc00u32) | ((value & 0x3ff) << 10)) < 0x100_0000u32)
            && (((w & !0xf_fc00u32) | ((value & 0x3ff) << 10)) & 0x3ff == w & 0x3ff)
            && ((((w & !0xf_fc00u32) | ((value & 0x3ff) << 10)) >> 10) & 0x3ff == value & 0x3ff)
            && ((((w & !0xf_fc00u32) | ((value & 0x3ff) << 10)) >> 20) & 1 == (w >> 20) & 1)
            && ((((w & !0xf_fc00u32) | ((value & 0x3ff) << 10)) >> 21) & 1 == (w >> 21) & 1)) by (bit_vector);
        self.put(n);
    }

    /// Stores the bit `facing`. Nothing else changes.
    pub fn set_facing(&mut self, value: bool)
        ensures
            final(self).spec_word() == (old(self).spec_word() & !0x10_0000u32) | (if value {
                0x10_0000u32
            } else {
                0u32
            }),
            final(self).spec_x() == old(self).spec_x(),
            final(self).spec_y() == old(self).spec_y(),
            final(self).spec_facing() == value,
            final(self).spec_shooting() == old(self).spec_shooting(),
    {
        let w = self.word();
        let bit: u32 = if value {
            0x10_0000
        } else {
            0
        };
        let n = (w & !0x10_0000u32) | bit;
        assert((w < 0x100_0000u32 && (bit == 0x10_0000u32 || bit == 0u32) ==> ((w & !0x10_0000u32) | bit) < 0x100_0000u32)
            && ((bit == 0x10_0000u32 || bit == 0u32) ==> ((w & !0x10_0000u32) | bit) & 0x3ff == w & 0x3ff)
            && ((bit == 0x10_0000u32 || bit == 0u32) ==> (((w & !0x10_0000u32) | bit) >> 10) & 0x3ff == (w >> 10) & 0x3ff)
            && ((bit == 0x10_0000u32 || bit == 0u32) ==> ((((w & !0x10_0000u32) | bit) >> 20) & 1 == 1) == (bit == 0x10_0000u32))
            && ((bit == 0x10_0000u32 || bit == 0u32) ==> (((w & !0x10_0000u32) | bit) >> 21) & 1 == (w >> 21) & 1)) by (bit_vector);
        self.put(n);
    }

    /// Stores the bit `shooting`. Nothing else changes.
    pub fn set_shooting(&mut self, value: bool)
        ensures
            final(self).spec_word() == (old(self).spec_word() & !0x20_0000u32) | (if value {
                0x20_0000u32
            } else {
                0u32
            }),
            final(self).spec_x() == old(self).spec_x(),
            final(self).spec_y() == old(self).spec_y(),
            final(self).spec_facing() == old(self).spec_facing(),
            final(self).spec_shooting() == value,
    {
        let w = self.word();
        let bit: u32 = if value {
            0x20_0000
        } else {
            0
        };
        let n = (w & !0x20_0000u32) | bit;
        assert((w < 0x100_0000u32 && (bit == 0x20_0000u32 || bit == 0u32) ==> ((w & !0x20_0000u32) | bit) < 0x100_0000u32)
            && ((bit == 0x20_0000u32 || bit == 0u32) ==> ((w & !0x20_0000u32) | bit) & 0x3ff == w & 0x3ff)
            && ((bit == 0x20_0000u32 || bit == 0u32) ==> (((w & !0x20_0000u32) | bit) >> 10) & 0x3ff == (w >> 10) & 0x3ff)
            && ((bit == 0x20_0000u32 || bit == 0u32) ==> (((w & !0x20_0000u32) | bit) >> 20) & 1 == (w >> 20) & 1)
            && ((bit == 0x20_0000u32 || bit == 0u32) ==> ((((w & !0x20_0000u32) | bit) >> 21) & 1 == 1) == (bit == 0x20_0000u32))) by (bit_vector);
        self.put(n);
    }
}

/// The number that packs a state: each coordinate cut to ten bits, the two
/// flags above them, and the two free bits zero.
pub open spec fn packed_word(x: u32, y: u32, facing: bool, shooting: bool) -> u32 {
    (x & 0x3ff) | ((y & 0x3ff) << 10) | (if facing {
        0x10_0000u32
    } else {
        0u32
    }) | (if shooting {
        0x20_0000u32
    } else {
        0u32
    })
}

impl PlayerStateBits {
    /// Packs a state into three bytes. Of each coordinate the ten lowest bits
    /// are kept.
    pub fn pack(x: u32, y: u32, facing: bool, shooting: bool) -> (bits: PlayerStateBits)
        ensures
            bits.spec_word() == packed_word(x, y, facing, shooting),
            bits.0@ == bytes_of(packed_word(x, y, facing, shooting)),
            bits.spec_x() == x & 0x3ff,
            bits.spec_y() == y & 0x3ff,
            bits.spec_facing() == facing,
            bits.spec_shooting() == shooting,
    {
        let f: u32 = if facing {
            0x10_0000
        } else {
            0
        };
        let s: u32 = if shooting {
            0x20_0000
        } else {
            0
        };
        let w = (x & 0x3ff) | ((y & 0x3ff) << 10) | f | s;
        assert((f == 0x10_0000u32 || f == 0u32) && (s == 0x20_0000u32 || s == 0u32) ==> (((x
            & 0x3ff) | ((y & 0x3ff) << 10) | f | s) < 0x100_0000u32) && (((x & 0x3ff) | ((y
            & 0x3ff) << 10) | f | s) & 0x3ff == x & 0x3ff) && ((((x & 0x3ff) | ((y & 0x3ff) << 10)
            | f | s) >> 10) & 0x3ff == y & 0x3ff) && (((((x & 0x3ff) | ((y & 0x3ff) << 10) | f | s)
            >> 20) & 1 == 1) == (f == 0x10_0000u32)) && (((((x & 0x3ff) | ((y & 0x3ff) << 10) | f
            | s) >> 21) & 1 == 1) == (s == 0x20_0000u32))) by (bit_vector);
        let mut bits = PlayerStateBits([0, 0, 0]);
        bits.put(w);
        bits
    }
}

} // verus!
