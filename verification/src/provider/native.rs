//! Pure helpers of the native-library adapters.

use vstd::prelude::*;

use vstd::string::StringExecFns;

use crate::text::{
    chars_eq, chars_of, decimal, decimal_string, parse_unsigned, parse_unsigned_chars,
    string_from_chars, trim, trim_chars,
};
use super::entries::{NativeDeviceNumber, UdevBlockEntry};

verus! {

/// Failure while calling a provider-specific dynamic-library adapter.
#[derive(Debug, Clone, PartialEq, Eq)]
pub enum NativeProbeError {
    /// The registered provider selected a CLI backend instead of a library.
    LibraryRequired,
    /// A required symbol was absent from the loaded provider library.
    MissingSymbol {
        /// Missing C symbol name.
        symbol: &'static str,
    },
    /// The native provider returned an error code.
    CallFailed {
        /// Native operation that failed.
        operation: &'static str,
        /// Provider-specific return code.
        code: i32,
    },
    /// The native provider could not allocate a required object.
    AllocationFailed {
        /// Native object whose constructor returned null.
        object: &'static str,
    },
    /// A device path contained an interior NUL byte and cannot cross C FFI.
    InvalidPath {
        /// Rejected device path.
        path: String,
    },
    /// A native provider returned structurally invalid data.
    InvalidData {
        /// Native operation whose result violated its public ABI contract.
        operation: &'static str,
    },
}

/// What Rust's `{:?}` prints for a string: quoted, with escapes.
pub uninterp spec fn debug_quoted(s: Seq<char>) -> Seq<char>;

/// `format!("{:?}", s)`.
#[verifier::external_body]
fn debug_text(s: &str) -> (r: String)
    ensures
        r@ == debug_quoted(s@),
{
    format!("{:?}", s)
}

/// What `to_string` prints for a signed integer.
pub open spec fn signed_decimal(n: int) -> Seq<char> {
    if n < 0 {
        "-"@ + decimal((-n) as nat)
    } else {
        decimal(n as nat)
    }
}

fn signed_decimal_string(n: i32) -> (r: String)
    ensures
        r@ == signed_decimal(n as int),
{
    if n < 0 {
        let m: i64 = -(n as i64);
        let mut s = String::from_str("-");
        let digits = decimal_string(m as u64);
        s.append(digits.as_str());
        s
    } else {
        decimal_string(n as u64)
    }
}

/// Readable description of a native failure.
pub open spec fn native_message(e: NativeProbeError) -> Seq<char> {
    match e {
        NativeProbeError::LibraryRequired => "native provider library is required"@,
        NativeProbeError::MissingSymbol { symbol } => "provider library does not export "@ + symbol@,
        NativeProbeError::CallFailed { operation, code } => "native provider call "@ + operation@
            + " failed with code "@ + signed_decimal(code as int),
        NativeProbeError::AllocationFailed { object } => "native provider could not allocate "@
            + object@,
        NativeProbeError::InvalidPath { path } => "native provider cannot inspect path containing NUL: "@
            + debug_quoted(path@),
        NativeProbeError::InvalidData { operation } => "native provider returned invalid data from "@
            + operation@,
    }
}

impl NativeProbeError {
    /// Readable description of the failure.
    pub fn message(&self) -> (r: String)
        ensures
            r@ == native_message(*self),
    {
        match self {
            NativeProbeError::LibraryRequired => "native provider library is required".to_string(),
            NativeProbeError::MissingSymbol { symbol } => {
                let mut s = String::from_str("provider library does not export ");
                s.append(symbol);
                s
            },
            NativeProbeError::CallFailed { operation, code } => {
                let mut s = String::from_str("native provider call ");
                s.append(operation);
                s.append(" failed with code ");
                let digits = signed_decimal_string(*code);
                s.append(digits.as_str());
                s
            },
            NativeProbeError::AllocationFailed { object } => {
                let mut s = String::from_str("native provider could not allocate ");
                s.append(object);
                s
            },
            NativeProbeError::InvalidPath { path } => {
                let mut s = String::from_str("native provider cannot inspect path containing NUL: ");
                let quoted = debug_text(path.as_str());
                s.append(quoted.as_str());
                s
            },
            NativeProbeError::InvalidData { operation } => {
                let mut s = String::from_str("native provider returned invalid data from ");
                s.append(operation);
                s
            },
        }
    }
}

/// Linux's `dev_t` encoding (`makedev`) of a major and minor number.
pub open spec fn linux_makedev(major: u32, minor: u32) -> u64 {
    (((major as u64) & 0xffff_f000u64) << 32u64) | (((major as u64) & 0xfffu64) << 8u64) | (((
    minor as u64) & 0xffff_ff00u64) << 12u64) | ((minor as u64) & 0xffu64)
}

/// Major number held in a Linux `dev_t`.
pub open spec fn devno_major(device: u64) -> u32 {
    (((device >> 8u64) & 0x0fffu64) | ((device >> 32u64) & 0xffff_f000u64)) as u32
}

/// Minor number held in a Linux `dev_t`.
pub open spec fn devno_minor(device: u64) -> u32 {
    ((device & 0x00ffu64) | ((device >> 12u64) & 0xffff_ff00u64)) as u32
}

/// Decodes Linux's `dev_t` representation into major and minor numbers.
pub fn decode_devno(device: u64) -> (r: NativeDeviceNumber)
    ensures
        r.major == devno_major(device),
        r.minor == devno_minor(device),
{
    NativeDeviceNumber {
        major: (((device >> 8) & 0x0fff) | ((device >> 32) & 0xffff_f000)) as u32,
        minor: ((device & 0x00ff) | ((device >> 12) & 0xffff_ff00)) as u32,
    }
}

/// Decoding a device number encoded by the kernel gives back its major and
/// minor numbers.
pub proof fn lemma_decode_devno_inverts_makedev(major: u32, minor: u32)
    ensures
        devno_major(linux_makedev(major, minor)) == major,
        devno_minor(linux_makedev(major, minor)) == minor,
{
    let ma = major as u64;
    let mi = minor as u64;
    assert(((((((ma & 0xffff_f000u64) << 32u64) | ((ma & 0xfffu64) << 8u64) | ((mi
        & 0xffff_ff00u64) << 12u64) | (mi & 0xffu64)) >> 8u64) & 0x0fffu64) | (((((ma
        & 0xffff_f000u64) << 32u64) | ((ma & 0xfffu64) << 8u64) | ((mi & 0xffff_ff00u64)
        << 12u64) | (mi & 0xffu64)) >> 32u64) & 0xffff_f000u64)) == ma) by (bit_vector)
        requires
            ma <= 0xffff_ffffu64,
            mi <= 0xffff_ffffu64,
    ;
    assert((((((ma & 0xffff_f000u64) << 32u64) | ((ma & 0xfffu64) << 8u64) | ((mi
        & 0xffff_ff00u64) << 12u64) | (mi & 0xffu64)) & 0x00ffu64) | (((((ma & 0xffff_f000u64)
        << 32u64) | ((ma & 0xfffu64) << 8u64) | ((mi & 0xffff_ff00u64) << 12u64) | (mi
        & 0xffu64)) >> 12u64) & 0xffff_ff00u64)) == mi) by (bit_vector)
        requires
            ma <= 0xffff_ffffu64,
            mi <= 0xffff_ffffu64,
    ;
}

/// The error for a native call that reports failure without a code.
pub fn call_failed(operation: &'static str) -> (r: NativeProbeError)
    ensures
        r == (NativeProbeError::CallFailed { operation, code: 0 }),
{
    NativeProbeError::CallFailed { operation, code: 0 }
}

/// The error for a native call that failed with `code`.
pub fn call_failed_code(operation: &'static str, code: i32) -> (r: NativeProbeError)
    ensures
        r == (NativeProbeError::CallFailed { operation, code }),
{
    NativeProbeError::CallFailed { operation, code }
}

/// The error for structurally invalid native data.
pub fn invalid(operation: &'static str) -> (r: NativeProbeError)
    ensures
        r == (NativeProbeError::InvalidData { operation }),
{
    NativeProbeError::InvalidData { operation }
}

/// Converts a zero-success native result into the shared error.
pub fn check_zero(operation: &'static str, code: i32) -> (r: Result<(), NativeProbeError>)
    ensures
        code == 0 ==> r is Ok,
        code != 0 ==> r == Err::<(), NativeProbeError>(
            NativeProbeError::CallFailed { operation, code },
        ),
{
    if code == 0 {
        Ok(())
    } else {
        Err(NativeProbeError::CallFailed { operation, code })
    }
}

/// A kernel boolean attribute: `0` or `1`.
pub open spec fn kernel_bool(s: Seq<char>) -> Option<bool> {
    if s == seq!['0'] {
        Some(false)
    } else if s == seq!['1'] {
        Some(true)
    } else {
        None
    }
}

/// Parses kernel boolean attributes represented by `0` and `1`.
pub fn parse_bool(value: String) -> (r: Option<bool>)
    ensures
        r == kernel_bool(value@),
{
    let v = chars_of(value.as_str());
    let zero: [char; 1] = ['0'];
    let one: [char; 1] = ['1'];
    assert(zero@ == seq!['0']);
    assert(one@ == seq!['1']);
    if chars_eq(v.as_slice(), zero.as_slice()) {
        Some(false)
    } else if chars_eq(v.as_slice(), one.as_slice()) {
        Some(true)
    } else {
        None
    }
}

/// Valid UTF-8 decoding of `bytes` (`std::str::from_utf8`).
#[verifier::external_body]
fn utf8_str(bytes: &'static [u8]) -> (r: Option<&'static str>)
    ensures
        match r {
            Some(s) => vstd::utf8::valid_utf8(bytes@) && s@ == vstd::utf8::decode_utf8(bytes@),
            None => !vstd::utf8::valid_utf8(bytes@),
        },
{
    std::str::from_utf8(bytes).ok()
}

/// A C symbol name without its terminating NUL.
pub open spec fn symbol_bytes(name: Seq<u8>) -> Seq<u8> {
    if name.len() > 0 && name.last() == 0 {
        name.drop_last()
    } else {
        name
    }
}

/// Returns a printable symbol name without its terminating NUL.
pub fn symbol_name(name: &'static [u8]) -> (r: &'static str)
    ensures
        vstd::utf8::valid_utf8(symbol_bytes(name@)) ==> r@ == vstd::utf8::decode_utf8(
            symbol_bytes(name@),
        ),
        !vstd::utf8::valid_utf8(symbol_bytes(name@)) ==> r@ == "invalid symbol name"@,
{
    let trimmed: &'static [u8] = if name.len() > 0 && name[name.len() - 1] == 0 {
        vstd::slice::slice_subrange(name, 0, name.len() - 1)
    } else {
        name
    };
    match utf8_str(trimmed) {
        Some(s) => s,
        None => "invalid symbol name",
    }
}

/// Raw libudev properties and attributes of one block device.
#[derive(Debug, Clone, PartialEq, Eq)]
pub struct UdevRawDevice {
    /// Kernel device node.
    pub devnode: String,
    /// Kernel device name.
    pub sysname: String,
    /// Udev device type.
    pub devtype: Option<String>,
    /// `MAJOR` property.
    pub major: Option<String>,
    /// `MINOR` property.
    pub minor: Option<String>,
    /// `size` attribute (512-byte sectors).
    pub size: Option<String>,
    /// `queue/logical_block_size` attribute.
    pub logical_block_size: Option<String>,
    /// `queue/physical_block_size` attribute.
    pub physical_block_size: Option<String>,
    /// `ID_MODEL` property.
    pub model: Option<String>,
    /// `ID_SERIAL_SHORT` property.
    pub serial: Option<String>,
    /// `ID_WWN` property.
    pub wwn: Option<String>,
    /// `ro` attribute.
    pub read_only: Option<String>,
    /// `queue/rotational` attribute.
    pub rotational: Option<String>,
    /// `removable` attribute.
    pub removable: Option<String>,
}

/// A decimal attribute of an integer type whose largest value is `max`.
pub open spec fn number_attr(v: Option<String>, max: nat) -> Option<nat> {
    match v {
        Some(s) => parse_unsigned(s@, max),
        None => None,
    }
}

/// A kernel boolean attribute.
pub open spec fn bool_attr(v: Option<String>) -> Option<bool> {
    match v {
        Some(s) => kernel_bool(s@),
        None => None,
    }
}

fn parse_number(v: &Option<String>, max: u64) -> (r: Option<u64>)
    ensures
        match r {
            Some(x) => number_attr(*v, max as nat) == Some(x as nat),
            None => number_attr(*v, max as nat) is None,
        },
{
    match v {
        Some(s) => {
            let c = chars_of(s.as_str());
            parse_unsigned_chars(c.as_slice(), max)
        },
        None => None,
    }
}

fn parse_bool_attr(v: &Option<String>) -> (r: Option<bool>)
    ensures
        r == bool_attr(*v),
{
    match v {
        Some(s) => parse_bool(s.clone()),
        None => None,
    }
}

fn copy_opt(v: &Option<String>) -> (r: Option<String>)
    ensures
        r == *v,
{
    match v {
        Some(s) => Some(s.clone()),
        None => None,
    }
}

/// Copies all relevant properties of one libudev device into an entry.
pub fn udev_entry(raw: &UdevRawDevice) -> (r: UdevBlockEntry)
    ensures
        r.devnode == raw.devnode,
        r.sysname == raw.sysname,
        r.devtype == raw.devtype,
        r.major as nat == (match number_attr(raw.major, u32::MAX as nat) {
            Some(v) => v,
            None => 0,
        }),
        r.minor as nat == (match number_attr(raw.minor, u32::MAX as nat) {
            Some(v) => v,
            None => 0,
        }),
        match r.size_sectors {
            Some(v) => number_attr(raw.size, u64::MAX as nat) == Some(v as nat),
            None => number_attr(raw.size, u64::MAX as nat) is None,
        },
        match r.logical_block_size {
            Some(v) => number_attr(raw.logical_block_size, u32::MAX as nat) == Some(v as nat),
            None => number_attr(raw.logical_block_size, u32::MAX as nat) is None,
        },
        match r.physical_block_size {
            Some(v) => number_attr(raw.physical_block_size, u32::MAX as nat) == Some(v as nat),
            None => number_attr(raw.physical_block_size, u32::MAX as nat) is None,
        },
        match (r.model, raw.model) {
            (Some(m), Some(raw_m)) => m@ == trim(raw_m@),
            (None, None) => true,
            _ => false,
        },
        r.serial == raw.serial,
        r.wwn == raw.wwn,
        r.read_only == bool_attr(raw.read_only),
        r.rotational == bool_attr(raw.rotational),
        r.removable == bool_attr(raw.removable),
{
    let major = match parse_number(&raw.major, u32::MAX as u64) {
        Some(v) => v as u32,
        None => 0,
    };
    let minor = match parse_number(&raw.minor, u32::MAX as u64) {
        Some(v) => v as u32,
        None => 0,
    };
    let logical_block_size = match parse_number(&raw.logical_block_size, u32::MAX as u64) {
        Some(v) => Some(v as u32),
        None => None,
    };
    let physical_block_size = match parse_number(&raw.physical_block_size, u32::MAX as u64) {
        Some(v) => Some(v as u32),
        None => None,
    };
    let model = match &raw.model {
        Some(m) => {
            let c = chars_of(m.as_str());
            let t = trim_chars(c.as_slice());
            Some(string_from_chars(t.as_slice()))
        },
        None => None,
    };
    UdevBlockEntry {
        devnode: raw.devnode.clone(),
        sysname: raw.sysname.clone(),
        devtype: copy_opt(&raw.devtype),
        major,
        minor,
        size_sectors: parse_number(&raw.size, u64::MAX),
        logical_block_size,
        physical_block_size,
        model,
        serial: copy_opt(&raw.serial),
        wwn: copy_opt(&raw.wwn),
        read_only: parse_bool_attr(&raw.read_only),
        rotational: parse_bool_attr(&raw.rotational),
        removable: parse_bool_attr(&raw.removable),
    }
}

} // verus!
