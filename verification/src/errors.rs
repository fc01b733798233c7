//! Typed core errors.
//!
//! The core never logs and never continues after an error: it returns a
//! typed value and the calling boundary decides what happens next.

use vstd::prelude::*;

verus! {

/// Core error: one variant per subsystem.
#[derive(Debug)]
pub enum PDiskError {
    /// A device status line could not be parsed.
    ParseStatus(ParseStatusError),
    /// A plan could not be applied to the current state.
    Apply(ApplyError),
    /// Size or range arithmetic failed (overflow, range outside a device).
    Geometry(GeometryError),
    /// An action cannot be serialized for the legacy whitespace protocol.
    ActionSerialization(String),
}

/// Error parsing a device status line.
#[derive(Debug, PartialEq, Eq)]
pub enum ParseStatusError {
    /// The line holds none of the known markers.
    Unknown(String),
    /// A marker is present but its payload is empty (for example `raid_device:`).
    EmptyPayload(String),
}

/// Error applying a plan to the current state.
#[derive(Debug)]
pub enum ApplyError {
    /// The target device is not in the current or future state.
    MissingTarget(String),
    /// A partition planned for removal is absent from the disk.
    PartitionToRemoveMissing { disk: String, part: u32 },
    /// Overflow, or a range outside the device.
    Geometry(GeometryError),
}

/// Result type of the core.
pub type Result<T> = std::result::Result<T, PDiskError>;

/// Error of size and range arithmetic.
#[derive(Debug, Clone, PartialEq, Eq)]
pub enum GeometryError {
    /// `u64` overflow while adding or multiplying sizes.
    Overflow,
    /// The range `[start..end)` exceeds the device.
    OutOfBounds { start: u64, end: u64, device_size: u64 },
    /// A created object (partition, LV, swap) would have zero size.
    ZeroSized(String),
}

} // verus!
