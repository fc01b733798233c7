//! Live `lsblk --json --bytes` output.
//!
//! Sizes are accepted only as whole numbers of bytes, written as a number or
//! as a decimal string; human-readable sizes are refused.

use vstd::prelude::*;

use crate::text::{chars_of, parse_unsigned, parse_unsigned_chars, trim, trim_chars};

verus! {

/// An lsblk size that is not a whole number of bytes.
#[derive(Debug, Clone, PartialEq, Eq)]
pub struct SizeParseError(pub String);

/// Raw lsblk JSON structure: every top-level device in lsblk order.
#[derive(Debug)]
pub struct LsblkOutput {
    pub blockdevices: Vec<LsblkDevice>,
}

/// One device of the lsblk tree.
#[derive(Debug)]
pub struct LsblkDevice {
    pub name: String,
    /// Absolute device path (`/dev/sda`, `/dev/nvme0n1p1`).
    pub path: Option<String>,
    pub maj_min: Option<String>,
    /// Size in bytes.
    pub size: u64,
    /// Device type (`disk`, `part`, `crypt`, ...), the `type` column.
    pub kind: String,
    pub mountpoint: Option<String>,
    pub mountpoints: Option<Vec<Option<String>>>,
    pub uuid: Option<String>,
    pub partuuid: Option<String>,
    pub fstype: Option<String>,
    /// Partition type GUID.
    pub parttype: Option<String>,
    pub label: Option<String>,
    /// Partition table type of a disk (`gpt`, `dos`).
    pub pttype: Option<String>,
    /// First sector of a partition.
    pub start: Option<u64>,
    pub ro: Option<String>,
    pub log_sectorsize: Option<String>,
    pub phys_sectorsize: Option<String>,
    pub wwn: Option<String>,
    pub children: Vec<LsblkDevice>,
}

/// Size of a textual lsblk size field: its trimmed text read as a `u64`.
pub open spec fn size_text_value(s: Seq<char>) -> Option<u64> {
    match parse_unsigned(trim(s), u64::MAX as nat) {
        Some(v) => Some(v as u64),
        None => None,
    }
}

/// Reads a textual lsblk size; anything but a whole number of bytes is an
/// error that carries the text.
pub fn parse_size_text(s: &str) -> (r: Result<u64, SizeParseError>)
    ensures
        match r {
            Ok(v) => size_text_value(s@) == Some(v),
            Err(e) => size_text_value(s@) is None && e.0@ == s@,
        },
{
    let v = chars_of(s);
    let t = trim_chars(v.as_slice());
    match parse_unsigned_chars(t.as_slice(), u64::MAX) {
        Some(x) => Ok(x),
        None => Err(SizeParseError(s.to_string())),
    }
}

/// A sector field written as text: empty is absent, otherwise its trimmed
/// text read as a `u64`; `None` when it is neither.
pub open spec fn lenient_text_value(s: Seq<char>) -> Option<Option<u64>> {
    if s.len() == 0 {
        Some(None)
    } else {
        match size_text_value(s) {
            Some(v) => Some(Some(v)),
            None => None,
        }
    }
}

/// Reads a sector field written as text; `None` when it is not a number.
pub fn parse_lenient_text(s: &str) -> (r: Option<Option<u64>>)
    ensures
        r == lenient_text_value(s@),
{
    let v = chars_of(s);
    if v.len() == 0 {
        return Some(None);
    }
    match parse_size_text(s) {
        Ok(x) => Some(Some(x)),
        Err(_) => None,
    }
}

} // verus!
