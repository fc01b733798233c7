//! Byte ranges on a device.

use vstd::prelude::*;

use crate::errors::GeometryError;
use super::sizes::Bytes;

verus! {

/// The half-open byte range `[start, start + len)`.
#[derive(Debug, Clone, Copy, PartialEq, Eq, Structural)]
pub struct Extent {
    pub start: Bytes,
    pub len: Bytes,
}

impl Extent {
    /// First byte after the range, as a mathematical integer.
    pub open spec fn spec_end(self) -> int {
        self.start.value() + self.len.value()
    }

    /// Whether the end of the range is representable.
    pub open spec fn representable(self) -> bool {
        self.spec_end() <= u64::MAX
    }

    /// First byte after the range; [`GeometryError::Overflow`] when it does not fit in `u64`.
    pub fn end(&self) -> (r: Result<Bytes, GeometryError>)
        ensures
            match r {
                Ok(e) => self.representable() && e.value() == self.spec_end(),
                Err(e) => !self.representable() && e == GeometryError::Overflow,
            },
    {
        self.start.checked_add(self.len)
    }

    /// Whether two ranges share at least one byte.
    pub fn overlaps(&self, other: &Self) -> (r: Result<bool, GeometryError>)
        ensures
            match r {
                Ok(b) => self.representable() && other.representable() && b == (self.start.value()
                    < other.spec_end() && other.start.value() < self.spec_end()),
                Err(e) => !(self.representable() && other.representable()) && e
                    == GeometryError::Overflow,
            },
    {
        let a_end = self.end()?;
        let b_end = other.end()?;
        Ok(self.start.as_u64() < b_end.as_u64() && other.start.as_u64() < a_end.as_u64())
    }

    /// Whether the byte at `offset` lies inside the range.
    pub fn contains(&self, offset: Bytes) -> (r: Result<bool, GeometryError>)
        ensures
            match r {
                Ok(b) => self.representable() && b == (self.start.value() <= offset.value()
                    < self.spec_end()),
                Err(e) => !self.representable() && e == GeometryError::Overflow,
            },
    {
        let end = self.end()?;
        Ok(self.start.as_u64() <= offset.as_u64() && offset.as_u64() < end.as_u64())
    }

    /// Whether the range fits into a device of `size` bytes.
    pub fn within(self, size: Bytes) -> (r: Result<bool, GeometryError>)
        ensures
            match r {
                Ok(b) => self.representable() && b == (self.spec_end() <= size.value()),
                Err(e) => !self.representable() && e == GeometryError::Overflow,
            },
    {
        let end = self.end()?;
        Ok(end.as_u64() <= size.as_u64())
    }
}

} // verus!
