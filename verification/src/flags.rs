use vstd::prelude::*;

verus! {

/// A set of per-stream state bits: an error was seen, read interest is
/// registered, write interest is registered.
#[derive(Clone, Copy, Debug, PartialEq, Eq, Structural)]
pub struct Flags {
    bits: u8,
}

/// Bit for "the stream has failed".
pub const ERROR_BIT: u8 = 1;
/// Bit for "read interest is registered with the poller".
pub const RD_BIT: u8 = 2;
/// Bit for "write interest is registered with the poller".
pub const WR_BIT: u8 = 4;

impl Flags {
    /// The raw bits.
    pub closed spec fn spec_bits(self) -> u8 {
        self.bits
    }

    /// Only the three known bits may be set.
    pub closed spec fn wf(self) -> bool {
        self.bits < 8
    }

    /// The error bit is set.
    pub closed spec fn error(self) -> bool {
        self.bits & ERROR_BIT != 0
    }

    /// The read bit is set.
    pub closed spec fn read(self) -> bool {
        self.bits & RD_BIT != 0
    }

    /// The write bit is set.
    pub closed spec fn write(self) -> bool {
        self.bits & WR_BIT != 0
    }

    /// The flag set with exactly the given bits.
    pub closed spec fn from_bools(error: bool, read: bool, write: bool) -> Flags {
        Flags {
            bits: ((if error { 1u8 } else { 0u8 }) | (if read { 2u8 } else { 0u8 }) | (if write {
                4u8
            } else {
                0u8
            })),
        }
    }

    /// `from_bools` builds a well-formed set with exactly the given bits.
    pub broadcast proof fn lemma_from_bools(error: bool, read: bool, write: bool)
        ensures
            (#[trigger] Flags::from_bools(error, read, write)).wf(),
            Flags::from_bools(error, read, write).error() == error,
            Flags::from_bools(error, read, write).read() == read,
            Flags::from_bools(error, read, write).write() == write,
    {
        let e: u8 = if error { 1u8 } else { 0u8 };
        let r: u8 = if read { 2u8 } else { 0u8 };
        let w: u8 = if write { 4u8 } else { 0u8 };
        assert((e | r | w) < 8 && (((e | r | w) & 1 != 0) == (e == 1)) && (((e | r | w) & 2 != 0)
            == (r == 2)) && (((e | r | w) & 4 != 0) == (w == 4))) by (bit_vector)
            requires
                e == 0 || e == 1,
                r == 0 || r == 2,
                w == 0 || w == 4,
        ;
    }

    /// A well-formed set is determined by its three bits.
    pub proof fn lemma_from_parts(f: Flags)
        requires
            f.wf(),
        ensures
            f == Flags::from_bools(f.error(), f.read(), f.write()),
    {
        Flags::lemma_from_bools(f.error(), f.read(), f.write());
        Flags::lemma_ext(f, Flags::from_bools(f.error(), f.read(), f.write()));
    }

    /// Two well-formed flag sets with the same three bits are equal.
    pub proof fn lemma_ext(a: Flags, b: Flags)
        requires
            a.wf(),
            b.wf(),
            a.error() == b.error(),
            a.read() == b.read(),
            a.write() == b.write(),
        ensures
            a == b,
    {
        let x = a.bits;
        let y = b.bits;
        assert(x == y) by (bit_vector)
            requires
                x < 8,
                y < 8,
                (x & 1 != 0) == (y & 1 != 0),
                (x & 2 != 0) == (y & 2 != 0),
                (x & 4 != 0) == (y & 4 != 0),
        ;
    }

    /// No bit set.
    pub fn empty() -> (r: Flags)
        ensures
            r == Flags::from_bools(false, false, false),
            r.wf(),
            !r.error(),
            !r.read(),
            !r.write(),
    {
        assert((0u8 & 1 == 0) && (0u8 & 2 == 0) && (0u8 & 4 == 0)) by (bit_vector);
        let r = Flags { bits: 0 };
        proof {
            Flags::lemma_from_parts(r);
        }
        r
    }

    /// Only the error bit.
    pub fn error_flag() -> (r: Flags)
        ensures
            r == Flags::from_bools(true, false, false),
            r.wf(),
            r.error(),
            !r.read(),
            !r.write(),
    {
        assert((1u8 & 1 != 0) && (1u8 & 2 == 0) && (1u8 & 4 == 0)) by (bit_vector);
        let r = Flags { bits: ERROR_BIT };
        proof {
            Flags::lemma_from_parts(r);
        }
        r
    }

    /// Only the read bit.
    pub fn read_flag() -> (r: Flags)
        ensures
            r == Flags::from_bools(false, true, false),
            r.wf(),
            !r.error(),
            r.read(),
            !r.write(),
    {
        assert((2u8 & 1 == 0) && (2u8 & 2 != 0) && (2u8 & 4 == 0)) by (bit_vector);
        let r = Flags { bits: RD_BIT };
        proof {
            Flags::lemma_from_parts(r);
        }
        r
    }

    /// Only the write bit.
    pub fn write_flag() -> (r: Flags)
        ensures
            r == Flags::from_bools(false, false, true),
            r.wf(),
            !r.error(),
            !r.read(),
            r.write(),
    {
        assert((4u8 & 1 == 0) && (4u8 & 2 == 0) && (4u8 & 4 != 0)) by (bit_vector);
        let r = Flags { bits: WR_BIT };
        proof {
            Flags::lemma_from_parts(r);
        }
        r
    }

    /// The read and the write bit.
    pub fn read_write() -> (r: Flags)
        ensures
            r == Flags::from_bools(false, true, true),
            r.wf(),
            !r.error(),
            r.read(),
            r.write(),
    {
        assert((2u8 | 4u8) == 6u8 && (6u8 & 1 == 0) && (6u8 & 2 != 0) && (6u8 & 4 != 0)) by (bit_vector);
        let r = Flags { bits: RD_BIT | WR_BIT };
        proof {
            Flags::lemma_from_parts(r);
        }
        r
    }

    /// Every bit of `other` is set in `self`.
    pub fn contains(&self, other: Flags) -> (r: bool)
        requires
            self.wf(),
            other.wf(),
        ensures
            r == ((other.error() ==> self.error()) && (other.read() ==> self.read()) && (
            other.write() ==> self.write())),
    {
        let a = self.bits;
        let b = other.bits;
        assert((a & b == b) == ((b & 1 != 0 ==> a & 1 != 0) && (b & 2 != 0 ==> a & 2 != 0) && (b
            & 4 != 0 ==> a & 4 != 0))) by (bit_vector)
            requires
                a < 8,
                b < 8,
        ;
        a & b == b
    }

    /// Some bit of `other` is set in `self`.
    pub fn intersects(&self, other: Flags) -> (r: bool)
        requires
            self.wf(),
            other.wf(),
        ensures
            r == ((other.error() && self.error()) || (other.read() && self.read()) || (
            other.write() && self.write())),
    {
        let a = self.bits;
        let b = other.bits;
        assert((a & b != 0) == ((b & 1 != 0 && a & 1 != 0) || (b & 2 != 0 && a & 2 != 0) || (b
            & 4 != 0 && a & 4 != 0))) by (bit_vector)
            requires
                a < 8,
                b < 8,
        ;
        a & b != 0
    }

    /// Sets every bit of `other`.
    pub fn insert(&mut self, other: Flags)
        requires
            old(self).wf(),
            other.wf(),
        ensures
            final(self).wf(),
            *final(self) == Flags::from_bools(
                old(self).error() || other.error(),
                old(self).read() || other.read(),
                old(self).write() || other.write(),
            ),
            final(self).error() == (old(self).error() || other.error()),
            final(self).read() == (old(self).read() || other.read()),
            final(self).write() == (old(self).write() || other.write()),
    {
        let a = self.bits;
        let b = other.bits;
        assert((a | b) < 8 && ((a | b) & 1 != 0) == (a & 1 != 0 || b & 1 != 0) && ((a | b) & 2
            != 0) == (a & 2 != 0 || b & 2 != 0) && ((a | b) & 4 != 0) == (a & 4 != 0 || b & 4
            != 0)) by (bit_vector)
            requires
                a < 8,
                b < 8,
        ;
        self.bits = a | b;
        proof {
            Flags::lemma_from_parts(*self);
        }
    }

    /// Clears every bit of `other`.
    pub fn remove(&mut self, other: Flags)
        requires
            old(self).wf(),
            other.wf(),
        ensures
            final(self).wf(),
            *final(self) == Flags::from_bools(
                old(self).error() && !other.error(),
                old(self).read() && !other.read(),
                old(self).write() && !other.write(),
            ),
            final(self).error() == (old(self).error() && !other.error()),
            final(self).read() == (old(self).read() && !other.read()),
            final(self).write() == (old(self).write() && !other.write()),
    {
        let a = self.bits;
        let b = other.bits;
        assert((a & !b) < 8 && ((a & !b) & 1 != 0) == (a & 1 != 0 && b & 1 == 0) && ((a & !b) & 2
            != 0) == (a & 2 != 0 && b & 2 == 0) && ((a & !b) & 4 != 0) == (a & 4 != 0 && b & 4
            == 0)) by (bit_vector)
            requires
                a < 8,
                b < 8,
        ;
        self.bits = a & !b;
        proof {
            Flags::lemma_from_parts(*self);
        }
    }

    /// The raw bits.
    pub fn bits(&self) -> (r: u8)
        ensures
            r == self.spec_bits(),
    {
        self.bits
    }
}

} // verus!
