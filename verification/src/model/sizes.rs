//! Newtypes over sizes with checked arithmetic.
//!
//! Overflow or exceeding a device boundary becomes an error instead of a
//! silent wrap.

use vstd::prelude::*;

use crate::errors::GeometryError;
use crate::text::{decimal, decimal_string};

verus! {

/// Number of bytes in one MiB.
pub const MIB_BYTES: u64 = 1048576;

/// A count of bytes.
#[derive(Clone, Copy, Debug, Default, Eq, Hash, Ord, PartialEq, PartialOrd, Structural)]
pub struct Bytes(u64);

/// Sum of a sequence of byte counts, as a mathematical integer.
pub open spec fn bytes_total(values: Seq<Bytes>) -> int
    decreases values.len(),
{
    if values.len() == 0 {
        0
    } else {
        bytes_total(values.drop_last()) + values.last().value()
    }
}

impl Bytes {
    /// The raw value, for contracts.
    pub closed spec fn value(self) -> u64 {
        self.0
    }

    /// The value of `bytes` raw bytes.
    pub closed spec fn of(bytes: u64) -> Bytes {
        Bytes(bytes)
    }

    /// A value holds the raw bytes it was made of, and is determined by them.
    pub proof fn lemma_of(bytes: u64)
        ensures
            Bytes::of(bytes).value() == bytes,
            forall|b: Bytes| b.value() == bytes ==> b == Bytes::of(bytes),
    {
    }

    /// Creates a value from raw bytes.
    pub fn new(bytes: u64) -> (r: Bytes)
        ensures
            r.value() == bytes,
            r == Bytes::of(bytes),
    {
        Bytes(bytes)
    }

    /// The raw value in bytes.
    pub fn as_u64(self) -> (r: u64)
        ensures
            r == self.value(),
    {
        self.0
    }

    /// The byte count in decimal, as it is displayed.
    pub fn to_string(&self) -> (r: String)
        ensures
            r@ == decimal(self.value() as nat),
    {
        decimal_string(self.0)
    }

    /// Checked addition; [`GeometryError::Overflow`] on overflow.
    pub fn checked_add(self, other: Bytes) -> (r: Result<Bytes, GeometryError>)
        ensures
            match r {
                Ok(sum) => self.value() + other.value() <= u64::MAX && sum.value() == self.value()
                    + other.value(),
                Err(e) => self.value() + other.value() > u64::MAX && e == GeometryError::Overflow,
            },
    {
        match self.0.checked_add(other.0) {
            Some(v) => Ok(Bytes(v)),
            None => Err(GeometryError::Overflow),
        }
    }

    /// Checked multiplication; [`GeometryError::Overflow`] on overflow.
    pub fn checked_mul(self, other: u64) -> (r: Result<Bytes, GeometryError>)
        ensures
            match r {
                Ok(product) => self.value() * other <= u64::MAX && product.value() == self.value()
                    * other,
                Err(e) => self.value() * other > u64::MAX && e == GeometryError::Overflow,
            },
    {
        match self.0.checked_mul(other) {
            Some(v) => Ok(Bytes(v)),
            None => Err(GeometryError::Overflow),
        }
    }

    /// Checked sum of a list of values.
    pub fn sum_checked(values: &[Bytes]) -> (r: Result<Bytes, GeometryError>)
        ensures
            match r {
                Ok(total) => bytes_total(values@) <= u64::MAX && total.value() == bytes_total(
                    values@,
                ),
                Err(e) => bytes_total(values@) > u64::MAX && e == GeometryError::Overflow,
            },
    {
        let mut total = Bytes(0);
        let mut i: usize = 0;
        while i < values.len()
            invariant
                i <= values.len(),
                total.value() == bytes_total(values@.take(i as int)),
            decreases values.len() - i,
        {
            assert(values@.take(i + 1).drop_last() =~= values@.take(i as int));
            match total.checked_add(values[i]) {
                Ok(t) => {
                    total = t;
                },
                Err(e) => {
                    proof {
                        lemma_bytes_total_prefix_monotone(values@, i + 1);
                    }
                    return Err(e);
                },
            }
            i = i + 1;
        }
        assert(values@.take(values.len() as int) =~= values@);
        Ok(total)
    }

    /// Checks that `[self, self + size)` fits into a device of `device_size`
    /// bytes and returns the end of the range.
    pub fn range_within(self, size: Bytes, device_size: Bytes) -> (r: Result<Bytes, GeometryError>)
        ensures
            match r {
                Ok(end) => self.value() + size.value() <= device_size.value() && end.value()
                    == self.value() + size.value(),
                Err(e) => if self.value() + size.value() > u64::MAX {
                    e == GeometryError::Overflow
                } else {
                    self.value() + size.value() > device_size.value() && e
                        == GeometryError::OutOfBounds {
                        start: self.value(),
                        end: (self.value() + size.value()) as u64,
                        device_size: device_size.value(),
                    }
                },
            },
    {
        let end = match self.checked_add(size) {
            Ok(end) => end,
            Err(e) => return Err(e),
        };
        if end.0 > device_size.0 {
            return Err(
                GeometryError::OutOfBounds { start: self.0, end: end.0, device_size: device_size.0 },
            );
        }
        Ok(end)
    }
}

/// A prefix of a sequence of byte counts never sums to more than a longer prefix.
pub proof fn lemma_bytes_total_prefix_monotone(values: Seq<Bytes>, n: int)
    requires
        0 <= n <= values.len(),
    ensures
        bytes_total(values.take(n)) <= bytes_total(values),
    decreases values.len() - n,
{
    if n < values.len() {
        lemma_bytes_total_prefix_monotone(values, n + 1);
        assert(values.take(n + 1).drop_last() =~= values.take(n));
    } else {
        assert(values.take(n) =~= values);
    }
}

/// A count of mebibytes (MiB).
#[derive(Clone, Copy, Debug, Default, Eq, Ord, PartialEq, PartialOrd, Structural)]
pub struct Mib(pub u64);

impl Mib {
    /// Creates a value from raw MiB.
    pub fn new(mib: u64) -> (r: Mib)
        ensures
            r.0 == mib,
    {
        Mib(mib)
    }

    /// The raw value in MiB.
    pub fn as_u64(self) -> (r: u64)
        ensures
            r == self.0,
    {
        self.0
    }

    /// The MiB count in decimal, as it is displayed.
    pub fn to_string(&self) -> (r: String)
        ensures
            r@ == decimal(self.0 as nat),
    {
        decimal_string(self.0)
    }

    /// Checked conversion to bytes; [`GeometryError::Overflow`] on overflow.
    pub fn bytes(self) -> (r: Result<Bytes, GeometryError>)
        ensures
            match r {
                Ok(b) => self.0 * MIB_BYTES <= u64::MAX && b.value() == self.0 * MIB_BYTES,
                Err(e) => self.0 * MIB_BYTES > u64::MAX && e == GeometryError::Overflow,
            },
    {
        match self.0.checked_mul(1024 * 1024) {
            Some(v) => Ok(Bytes(v)),
            None => Err(GeometryError::Overflow),
        }
    }

    /// Checked conversion to 512-byte sectors.
    pub fn sectors_512(self) -> (r: Result<u64, GeometryError>)
        ensures
            match r {
                Ok(sectors) => self.0 * MIB_BYTES <= u64::MAX && sectors == sectors_of(self),
                Err(e) => self.0 * MIB_BYTES > u64::MAX && e == GeometryError::Overflow,
            },
    {
        let bytes = match self.bytes() {
            Ok(b) => b,
            Err(e) => return Err(e),
        };
        // A MiB is always a whole number of sectors, so nothing is lost here.
        assert(bytes.0 / 512 == self.0 * 2048) by (nonlinear_arith)
            requires
                bytes.0 == self.0 * 1048576,
        ;
        Ok(bytes.0 / 512)
    }

    /// Creates a value from 512-byte sectors, rounding up to whole MiB.
    pub fn from_sectors_512(sectors: u64) -> (r: Mib)
        ensures
            r.0 == mib_of_sectors(sectors as int),
    {
        Mib(sectors / 2048 + if sectors % 2048 == 0 { 0 } else { 1 })
    }
}

/// Number of 512-byte sectors in a MiB count.
pub open spec fn sectors_of(m: Mib) -> int {
    m.0 * 2048
}

/// MiB count covering a number of 512-byte sectors, rounded up.
pub open spec fn mib_of_sectors(sectors: int) -> int {
    (sectors + 2047) / 2048
}

/// Converting a MiB count to sectors and back gives it back.
pub proof fn lemma_mib_sectors_roundtrip(m: Mib)
    ensures
        mib_of_sectors(sectors_of(m)) == m.0,
{
    assert((m.0 * 2048 + 2047) / 2048 == m.0) by (nonlinear_arith);
}

} // verus!
