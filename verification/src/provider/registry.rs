//! Provider manifests and the registry of available providers.

use std::cmp::Ordering;

use vstd::prelude::*;
use vstd::std_specs::cmp::PartialOrdSpecImpl;

use crate::text::{chars_of, char_is_ws, find_char, find_char_exec, is_ws, lemma_find_char};
use super::entries::{
    BlkidEntry, BtrfsEntry, CryptsetupEntry, DevmapperEntry, FdiskTable, LibmountEntry, LoopEntry,
    LvmEntry, MdraidEntry, MultipathEntry, NvmeEntry, SwapEntry, UdevBlockEntry, ZfsEntry,
};
use super::native::NativeProbeError;

verus! {

/// Declares `std::io::Error`, carried as the cause of an unreadable manifest;
/// nothing is stated of its contents.
#[verifier::external_type_specification]
#[verifier::external_body]
pub struct ExIoError(std::io::Error);

/// Declares `serde_json::Error`, carried as the cause of a malformed
/// manifest; nothing is stated of its contents.
#[verifier::external_type_specification]
#[verifier::external_body]
pub struct ExJsonError(serde_json::Error);

/// Manifest JSON schema version supported by this release.
pub const PROVIDER_MANIFEST_VERSION: u16 = 1;

/// Environment variable overriding the provider manifest file.
pub const PROVIDER_MANIFEST_ENV: &'static str = "PDISKS_PROVIDER_MANIFEST";

/// Provider manifest file used when no environment override is set.
pub const DEFAULT_PROVIDER_MANIFEST: &'static str = "/usr/share/pdisks/providers.json";

/// Whether a string is a valid provider ID: non-empty, without whitespace.
pub open spec fn valid_provider_id(s: Seq<char>) -> bool {
    s.len() > 0 && forall|i: int| 0 <= i < s.len() ==> !is_ws(#[trigger] s[i])
}

/// Stable identity of a provider integration.
#[derive(Debug, Clone, PartialEq, Eq, Ord, Hash)]
pub struct ProviderId(String);

impl ProviderId {
    /// The identity text, for contracts.
    pub closed spec fn text(self) -> Seq<char> {
        self.0@
    }

    /// Creates an ID from a non-empty string without whitespace.
    pub fn new(value: String) -> (r: Option<ProviderId>)
        ensures
            match r {
                Some(id) => valid_provider_id(value@) && id.text() == value@,
                None => !valid_provider_id(value@),
            },
    {
        let v = chars_of(value.as_str());
        if v.len() == 0 {
            return None;
        }
        let mut i: usize = 0;
        while i < v.len()
            invariant
                i <= v@.len(),
                v@ == value@,
                forall|j: int| 0 <= j < i ==> !is_ws(#[trigger] v@[j]),
            decreases v.len() - i,
        {
            if char_is_ws(v[i]) {
                return None;
            }
            i = i + 1;
        }
        Some(ProviderId(value))
    }

    /// Returns the opaque provider ID.
    pub fn as_str(&self) -> (r: &str)
        ensures
            r@ == self.text(),
    {
        self.0.as_str()
    }
}

/// Provider IDs order as their texts do.
pub open spec fn id_order(a: ProviderId, b: ProviderId) -> Option<Ordering> {
    if text_lt(a.text(), b.text()) {
        Some(Ordering::Less)
    } else if a.text() == b.text() {
        Some(Ordering::Equal)
    } else {
        Some(Ordering::Greater)
    }
}

impl PartialOrd for ProviderId {
    fn partial_cmp(&self, other: &ProviderId) -> (r: Option<Ordering>) {
        if str_lt(self.0.as_str(), other.0.as_str()) {
            Some(Ordering::Less)
        } else if crate::collections::str_eq(self.0.as_str(), other.0.as_str()) {
            Some(Ordering::Equal)
        } else {
            Some(Ordering::Greater)
        }
    }
}

impl PartialOrdSpecImpl for ProviderId {
    open spec fn obeys_partial_cmp_spec() -> bool {
        true
    }

    open spec fn partial_cmp_spec(&self, other: &ProviderId) -> Option<Ordering> {
        id_order(*self, *other)
    }
}

/// Comparing two provider IDs compares their texts: one is less than another
/// exactly when its text is, and they are equal exactly when their texts are.
pub proof fn law_provider_id_order(a: ProviderId, b: ProviderId)
    ensures
        (id_order(a, b) == Some(Ordering::Less)) == text_lt(a.text(), b.text()),
        (id_order(a, b) == Some(Ordering::Equal)) == (a.text() == b.text()),
        (id_order(a, b) == Some(Ordering::Greater)) == text_lt(b.text(), a.text()),
{
    lemma_text_lt_irreflexive(a.text());
    lemma_text_lt_total(a.text(), b.text());
    if text_lt(b.text(), a.text()) && text_lt(a.text(), b.text()) {
        lemma_text_lt_transitive(a.text(), b.text(), a.text());
    }
}

/// Independent roles implemented by a provider integration.
#[derive(Debug, Clone, Copy, PartialEq, Eq, PartialOrd, Ord, Structural)]
pub enum ProviderCapability {
    /// Read-only discovery.
    Probe,
    /// Technology-specific validation.
    Validate,
    /// Plan fragment construction.
    Plan,
    /// Privileged action execution.
    Execute,
}

/// Native library expected by a provider integration.
///
/// `required_symbols` is kept sorted and free of repeats.
#[derive(Debug, Clone, PartialEq, Eq)]
pub struct ProviderLibrary {
    /// Absolute path supplied by the target package build.
    pub path: String,
    /// Symbols required by the compiled adapter.
    pub required_symbols: Vec<String>,
}

/// Versioned project-owned collection of provider integrations.
#[derive(Debug, Clone, PartialEq, Eq)]
pub struct ProviderManifests {
    /// Version of this JSON structure, not of any native library.
    pub manifest_version: u16,
    /// Optional integrations known to this build.
    pub providers: Vec<ProviderManifest>,
}

/// Project-owned description of one optional provider integration.
///
/// `capabilities` is kept sorted and free of repeats.
#[derive(Debug, Clone, PartialEq, Eq)]
pub struct ProviderManifest {
    /// Stable integration identity.
    pub id: ProviderId,
    /// Preferred native library, when this integration has one.
    pub library: Option<ProviderLibrary>,
    /// Fallback command-line tool, when this integration has one.
    pub executable: Option<String>,
    /// Roles exposed after a backend passes availability checks.
    pub capabilities: Vec<ProviderCapability>,
}

/// Available backend selected for a provider integration.
#[derive(Debug, Clone, Copy, PartialEq, Eq, Structural)]
pub enum ProviderBackend {
    /// Native library loaded by a provider-specific FFI adapter.
    Library,
    /// External command invoked by a provider-specific parser.
    Cli,
}

/// Available provider integration registered for later initialization.
#[derive(Debug)]
pub struct RegisteredProvider {
    manifest: ProviderManifest,
    manifest_path: String,
    backend: ProviderBackend,
}

impl RegisteredProvider {
    /// The descriptor, for contracts.
    pub closed spec fn spec_manifest(self) -> ProviderManifest {
        self.manifest
    }

    /// The source manifest path, for contracts.
    pub closed spec fn spec_manifest_path(self) -> Seq<char> {
        self.manifest_path@
    }

    /// The backend, for contracts.
    pub closed spec fn spec_backend(self) -> ProviderBackend {
        self.backend
    }

    /// Returns the validated provider descriptor.
    pub fn manifest(&self) -> (r: &ProviderManifest)
        ensures
            *r == self.spec_manifest(),
    {
        &self.manifest
    }

    /// Returns the source manifest path.
    pub fn manifest_path(&self) -> (r: &str)
        ensures
            r@ == self.spec_manifest_path(),
    {
        self.manifest_path.as_str()
    }

    /// Returns the backend found on this host.
    pub fn backend(&self) -> (r: ProviderBackend)
        ensures
            r == self.spec_backend(),
    {
        self.backend
    }

    /// Reads runtime mounts through libmount.
    ///
    /// `call` makes the library call; a CLI-backed provider is refused
    /// without making it.
    pub fn probe_libmount<F>(&self, call: F) -> (r: Result<Vec<LibmountEntry>, NativeProbeError>) where
        F: FnOnce() -> Result<Vec<LibmountEntry>, NativeProbeError>,

        requires
            self.spec_backend() == ProviderBackend::Library ==> call.requires(()),
        ensures
            self.spec_backend() == ProviderBackend::Cli ==> r == Err::<Vec<LibmountEntry>, NativeProbeError>(
                NativeProbeError::LibraryRequired,
            ),
            self.spec_backend() == ProviderBackend::Library ==> call.ensures((), r),
    {
        match self.backend {
            ProviderBackend::Library => call(),
            ProviderBackend::Cli => Err(NativeProbeError::LibraryRequired),
        }
    }

    /// Enumerates live Linux block endpoints through libudev.
    ///
    /// `call` makes the library call; a CLI-backed provider is refused
    /// without making it.
    pub fn probe_udev_blocks<F>(&self, call: F) -> (r: Result<Vec<UdevBlockEntry>, NativeProbeError>) where
        F: FnOnce() -> Result<Vec<UdevBlockEntry>, NativeProbeError>,

        requires
            self.spec_backend() == ProviderBackend::Library ==> call.requires(()),
        ensures
            self.spec_backend() == ProviderBackend::Cli ==> r == Err::<Vec<UdevBlockEntry>, NativeProbeError>(
                NativeProbeError::LibraryRequired,
            ),
            self.spec_backend() == ProviderBackend::Library ==> call.ensures((), r),
    {
        match self.backend {
            ProviderBackend::Library => call(),
            ProviderBackend::Cli => Err(NativeProbeError::LibraryRequired),
        }
    }

    /// Reads partition tables for the supplied whole-disk devices through libfdisk.
    ///
    /// `call` makes the library call; a CLI-backed provider is refused
    /// without making it.
    pub fn probe_fdisk_partitions<F>(&self, devices: &[String], call: F) -> (r: Result<Vec<FdiskTable>, NativeProbeError>) where
        F: FnOnce(&[String]) -> Result<Vec<FdiskTable>, NativeProbeError>,

        requires
            self.spec_backend() == ProviderBackend::Library ==> call.requires((devices,)),
        ensures
            self.spec_backend() == ProviderBackend::Cli ==> r == Err::<Vec<FdiskTable>, NativeProbeError>(
                NativeProbeError::LibraryRequired,
            ),
            self.spec_backend() == ProviderBackend::Library ==> call.ensures((devices,), r),
    {
        match self.backend {
            ProviderBackend::Library => call(devices),
            ProviderBackend::Cli => Err(NativeProbeError::LibraryRequired),
        }
    }

    /// Reads cached and freshly probed content signatures through libblkid.
    ///
    /// `call` makes the library call; a CLI-backed provider is refused
    /// without making it.
    pub fn probe_blkid_signatures<F>(&self, call: F) -> (r: Result<Vec<BlkidEntry>, NativeProbeError>) where
        F: FnOnce() -> Result<Vec<BlkidEntry>, NativeProbeError>,

        requires
            self.spec_backend() == ProviderBackend::Library ==> call.requires(()),
        ensures
            self.spec_backend() == ProviderBackend::Cli ==> r == Err::<Vec<BlkidEntry>, NativeProbeError>(
                NativeProbeError::LibraryRequired,
            ),
            self.spec_backend() == ProviderBackend::Library ==> call.ensures((), r),
    {
        match self.backend {
            ProviderBackend::Library => call(),
            ProviderBackend::Cli => Err(NativeProbeError::LibraryRequired),
        }
    }

    /// Reads live device-mapper names, targets, and backing devices.
    ///
    /// `call` makes the library call; a CLI-backed provider is refused
    /// without making it.
    pub fn probe_devmapper<F>(&self, call: F) -> (r: Result<Vec<DevmapperEntry>, NativeProbeError>) where
        F: FnOnce() -> Result<Vec<DevmapperEntry>, NativeProbeError>,

        requires
            self.spec_backend() == ProviderBackend::Library ==> call.requires(()),
        ensures
            self.spec_backend() == ProviderBackend::Cli ==> r == Err::<Vec<DevmapperEntry>, NativeProbeError>(
                NativeProbeError::LibraryRequired,
            ),
            self.spec_backend() == ProviderBackend::Library ==> call.ensures((), r),
    {
        match self.backend {
            ProviderBackend::Library => call(),
            ProviderBackend::Cli => Err(NativeProbeError::LibraryRequired),
        }
    }

    /// Reads LUKS metadata from the supplied block devices through libcryptsetup.
    ///
    /// `call` makes the library call; a CLI-backed provider is refused
    /// without making it.
    pub fn probe_cryptsetup<F>(&self, devices: &[String], call: F) -> (r: Result<Vec<CryptsetupEntry>, NativeProbeError>) where
        F: FnOnce(&[String]) -> Result<Vec<CryptsetupEntry>, NativeProbeError>,

        requires
            self.spec_backend() == ProviderBackend::Library ==> call.requires((devices,)),
        ensures
            self.spec_backend() == ProviderBackend::Cli ==> r == Err::<Vec<CryptsetupEntry>, NativeProbeError>(
                NativeProbeError::LibraryRequired,
            ),
            self.spec_backend() == ProviderBackend::Library ==> call.ensures((devices,), r),
    {
        match self.backend {
            ProviderBackend::Library => call(devices),
            ProviderBackend::Cli => Err(NativeProbeError::LibraryRequired),
        }
    }

    /// Reads loop-device backing files through the libblockdev loop plugin.
    ///
    /// `call` makes the library call; a CLI-backed provider is refused
    /// without making it.
    pub fn probe_loop<F>(&self, devices: &[String], call: F) -> (r: Result<Vec<LoopEntry>, NativeProbeError>) where
        F: FnOnce(&[String]) -> Result<Vec<LoopEntry>, NativeProbeError>,

        requires
            self.spec_backend() == ProviderBackend::Library ==> call.requires((devices,)),
        ensures
            self.spec_backend() == ProviderBackend::Cli ==> r == Err::<Vec<LoopEntry>, NativeProbeError>(
                NativeProbeError::LibraryRequired,
            ),
            self.spec_backend() == ProviderBackend::Library ==> call.ensures((devices,), r),
    {
        match self.backend {
            ProviderBackend::Library => call(devices),
            ProviderBackend::Cli => Err(NativeProbeError::LibraryRequired),
        }
    }

    /// Reads activation state for known swap devices through libblockdev.
    ///
    /// `call` makes the library call; a CLI-backed provider is refused
    /// without making it.
    pub fn probe_swap<F>(&self, devices: &[String], call: F) -> (r: Result<Vec<SwapEntry>, NativeProbeError>) where
        F: FnOnce(&[String]) -> Result<Vec<SwapEntry>, NativeProbeError>,

        requires
            self.spec_backend() == ProviderBackend::Library ==> call.requires((devices,)),
        ensures
            self.spec_backend() == ProviderBackend::Cli ==> r == Err::<Vec<SwapEntry>, NativeProbeError>(
                NativeProbeError::LibraryRequired,
            ),
            self.spec_backend() == ProviderBackend::Library ==> call.ensures((devices,), r),
    {
        match self.backend {
            ProviderBackend::Library => call(devices),
            ProviderBackend::Cli => Err(NativeProbeError::LibraryRequired),
        }
    }

    /// Reads multipath member devices through the libblockdev mpath plugin.
    ///
    /// `call` makes the library call; a CLI-backed provider is refused
    /// without making it.
    pub fn probe_multipath<F>(&self, call: F) -> (r: Result<MultipathEntry, NativeProbeError>) where
        F: FnOnce() -> Result<MultipathEntry, NativeProbeError>,

        requires
            self.spec_backend() == ProviderBackend::Library ==> call.requires(()),
        ensures
            self.spec_backend() == ProviderBackend::Cli ==> r == Err::<MultipathEntry, NativeProbeError>(
                NativeProbeError::LibraryRequired,
            ),
            self.spec_backend() == ProviderBackend::Library ==> call.ensures((), r),
    {
        match self.backend {
            ProviderBackend::Library => call(),
            ProviderBackend::Cli => Err(NativeProbeError::LibraryRequired),
        }
    }

    /// Reads MD arrays and member superblocks through libblockdev mdraid.
    ///
    /// `call` makes the library call; a CLI-backed provider is refused
    /// without making it.
    pub fn probe_mdraid<F>(&self, arrays: &[String], members: &[String], call: F) -> (r: Result<MdraidEntry, NativeProbeError>) where
        F: FnOnce(&[String], &[String]) -> Result<MdraidEntry, NativeProbeError>,

        requires
            self.spec_backend() == ProviderBackend::Library ==> call.requires((arrays, members)),
        ensures
            self.spec_backend() == ProviderBackend::Cli ==> r == Err::<MdraidEntry, NativeProbeError>(
                NativeProbeError::LibraryRequired,
            ),
            self.spec_backend() == ProviderBackend::Library ==> call.ensures((arrays, members), r),
    {
        match self.backend {
            ProviderBackend::Library => call(arrays, members),
            ProviderBackend::Cli => Err(NativeProbeError::LibraryRequired),
        }
    }

    /// Reads LVM PV, VG, and LV topology through the libblockdev LVM plugin.
    ///
    /// `call` makes the library call; a CLI-backed provider is refused
    /// without making it.
    pub fn probe_lvm<F>(&self, call: F) -> (r: Result<LvmEntry, NativeProbeError>) where
        F: FnOnce() -> Result<LvmEntry, NativeProbeError>,

        requires
            self.spec_backend() == ProviderBackend::Library ==> call.requires(()),
        ensures
            self.spec_backend() == ProviderBackend::Cli ==> r == Err::<LvmEntry, NativeProbeError>(
                NativeProbeError::LibraryRequired,
            ),
            self.spec_backend() == ProviderBackend::Library ==> call.ensures((), r),
    {
        match self.backend {
            ProviderBackend::Library => call(),
            ProviderBackend::Cli => Err(NativeProbeError::LibraryRequired),
        }
    }

    /// Reads Btrfs subvolumes below mounted filesystem roots.
    ///
    /// `call` makes the library call; a CLI-backed provider is refused
    /// without making it.
    pub fn probe_btrfs<F>(&self, mountpoints: &[String], call: F) -> (r: Result<Vec<BtrfsEntry>, NativeProbeError>) where
        F: FnOnce(&[String]) -> Result<Vec<BtrfsEntry>, NativeProbeError>,

        requires
            self.spec_backend() == ProviderBackend::Library ==> call.requires((mountpoints,)),
        ensures
            self.spec_backend() == ProviderBackend::Cli ==> r == Err::<Vec<BtrfsEntry>, NativeProbeError>(
                NativeProbeError::LibraryRequired,
            ),
            self.spec_backend() == ProviderBackend::Library ==> call.ensures((mountpoints,), r),
    {
        match self.backend {
            ProviderBackend::Library => call(mountpoints),
            ProviderBackend::Cli => Err(NativeProbeError::LibraryRequired),
        }
    }

    /// Reads imported ZFS pools and datasets through libzfs.
    ///
    /// `call` makes the library call; a CLI-backed provider is refused
    /// without making it.
    pub fn probe_zfs<F>(&self, call: F) -> (r: Result<ZfsEntry, NativeProbeError>) where
        F: FnOnce() -> Result<ZfsEntry, NativeProbeError>,

        requires
            self.spec_backend() == ProviderBackend::Library ==> call.requires(()),
        ensures
            self.spec_backend() == ProviderBackend::Cli ==> r == Err::<ZfsEntry, NativeProbeError>(
                NativeProbeError::LibraryRequired,
            ),
            self.spec_backend() == ProviderBackend::Library ==> call.ensures((), r),
    {
        match self.backend {
            ProviderBackend::Library => call(),
            ProviderBackend::Cli => Err(NativeProbeError::LibraryRequired),
        }
    }

    /// Reads the live subsystem, controller, and namespace tree through libnvme.
    ///
    /// `call` makes the library call; a CLI-backed provider is refused
    /// without making it.
    pub fn probe_nvme<F>(&self, call: F) -> (r: Result<NvmeEntry, NativeProbeError>) where
        F: FnOnce() -> Result<NvmeEntry, NativeProbeError>,

        requires
            self.spec_backend() == ProviderBackend::Library ==> call.requires(()),
        ensures
            self.spec_backend() == ProviderBackend::Cli ==> r == Err::<NvmeEntry, NativeProbeError>(
                NativeProbeError::LibraryRequired,
            ),
            self.spec_backend() == ProviderBackend::Library ==> call.ensures((), r),
    {
        match self.backend {
            ProviderBackend::Library => call(),
            ProviderBackend::Cli => Err(NativeProbeError::LibraryRequired),
        }
    }
}

/// Provider manifest discovery or validation failure.
#[derive(Debug)]
pub enum ProviderError {
    /// Manifest file could not be read.
    ReadManifest { path: String, source: std::io::Error },
    /// Manifest JSON did not match the strict schema.
    ParseManifest { path: String, source: serde_json::Error },
    /// Manifest uses a JSON schema unknown to this release.
    UnsupportedManifestVersion { path: String, version: u16 },
    /// A library selected for a package build is missing or ABI-incompatible.
    UnavailableLibrary { provider: ProviderId, library: String },
    /// A command selected for a package build is missing or not executable.
    UnavailableExecutable { provider: ProviderId, executable: String },
    /// Manifest declares neither a library nor a command fallback.
    MissingBackend { path: String },
    /// Relative library paths would make privileged loading process-dependent.
    RelativeLibrary { path: String, library: String },
    /// A symbol name cannot be passed to the native loader.
    InvalidLibrarySymbol { path: String, symbol: String },
    /// Relative executable paths would make invocation process-dependent.
    RelativeExecutable { path: String, executable: String },
    /// More than one available manifest declared the same ID.
    DuplicateProvider(ProviderId),
}

/// A Unix path is absolute when it starts at the root directory.
pub open spec fn is_absolute(p: Seq<char>) -> bool {
    p.len() > 0 && p[0] == '/'
}

/// `Path::is_absolute` on Unix.
pub fn path_is_absolute(p: &str) -> (r: bool)
    ensures
        r == is_absolute(p@),
{
    let v = chars_of(p);
    v.len() > 0 && v[0] == '/'
}

/// Whether a symbol name holds a NUL byte (in UTF-8 only the NUL character
/// encodes to a zero byte).
pub open spec fn has_nul(s: Seq<char>) -> bool {
    find_char(s, '\0') is Some
}

/// Index of the first required symbol holding a NUL.
pub open spec fn first_nul_symbol(symbols: Seq<String>, from: int) -> Option<int>
    decreases symbols.len() - from,
{
    if from < 0 || from >= symbols.len() {
        None
    } else if has_nul(symbols[from]@) {
        Some(from)
    } else {
        first_nul_symbol(symbols, from + 1)
    }
}

/// Which check a manifest fails first, in the order they are made.
pub enum ManifestProblem {
    MissingBackend,
    RelativeLibrary,
    InvalidLibrarySymbol(int),
    RelativeExecutable,
}

/// The first problem of a manifest, if any.
pub open spec fn manifest_problem(m: ProviderManifest) -> Option<ManifestProblem> {
    if m.library is None && m.executable is None {
        Some(ManifestProblem::MissingBackend)
    } else if m.library is Some && !is_absolute(m.library->0.path@) {
        Some(ManifestProblem::RelativeLibrary)
    } else if m.library is Some && first_nul_symbol(m.library->0.required_symbols@, 0) is Some {
        Some(ManifestProblem::InvalidLibrarySymbol(
            first_nul_symbol(m.library->0.required_symbols@, 0)->0,
        ))
    } else if m.executable is Some && !is_absolute(m.executable->0@) {
        Some(ManifestProblem::RelativeExecutable)
    } else {
        None
    }
}

/// Whether `e` is the error reporting problem `p` of manifest `m` read from `path`.
pub open spec fn reports_problem(
    e: ProviderError,
    p: ManifestProblem,
    path: Seq<char>,
    m: ProviderManifest,
) -> bool {
    match p {
        ManifestProblem::MissingBackend => e matches ProviderError::MissingBackend { path: ep }
            && ep@ == path,
        ManifestProblem::RelativeLibrary => e matches ProviderError::RelativeLibrary {
            path: ep,
            library,
        } && ep@ == path && library@ == m.library->0.path@,
        ManifestProblem::InvalidLibrarySymbol(i) => e matches ProviderError::InvalidLibrarySymbol {
            path: ep,
            symbol,
        } && ep@ == path && symbol@ == m.library->0.required_symbols@[i]@,
        ManifestProblem::RelativeExecutable => e matches ProviderError::RelativeExecutable {
            path: ep,
            executable,
        } && ep@ == path && executable@ == m.executable->0@,
    }
}

fn nul_symbol(symbols: &Vec<String>) -> (r: Option<usize>)
    ensures
        match r {
            Some(i) => i < symbols@.len() && first_nul_symbol(symbols@, 0) == Some(i as int),
            None => first_nul_symbol(symbols@, 0) is None,
        },
{
    let mut i: usize = 0;
    while i < symbols.len()
        invariant
            i <= symbols@.len(),
            first_nul_symbol(symbols@, 0) == first_nul_symbol(symbols@, i as int),
        decreases symbols.len() - i,
    {
        let v = chars_of(symbols[i].as_str());
        if find_char_exec(v.as_slice(), '\0').is_some() {
            return Some(i);
        }
        i = i + 1;
    }
    None
}

/// Validates fields that cross the filesystem and dynamic-loader boundary.
pub fn validate_manifest(path: &str, manifest: &ProviderManifest) -> (r: Result<
    (),
    ProviderError,
>)
    ensures
        match manifest_problem(*manifest) {
            None => r is Ok,
            Some(p) => r matches Err(e) && reports_problem(e, p, path@, *manifest),
        },
{
    if manifest.library.is_none() && manifest.executable.is_none() {
        return Err(ProviderError::MissingBackend { path: path.to_string() });
    }
    if let Some(library) = &manifest.library {
        if !path_is_absolute(library.path.as_str()) {
            return Err(
                ProviderError::RelativeLibrary {
                    path: path.to_string(),
                    library: library.path.clone(),
                },
            );
        }
        if let Some(i) = nul_symbol(&library.required_symbols) {
            return Err(
                ProviderError::InvalidLibrarySymbol {
                    path: path.to_string(),
                    symbol: library.required_symbols[i].clone(),
                },
            );
        }
    }
    if let Some(executable) = &manifest.executable {
        if !path_is_absolute(executable.as_str()) {
            return Err(
                ProviderError::RelativeExecutable {
                    path: path.to_string(),
                    executable: executable.clone(),
                },
            );
        }
    }
    Ok(())
}

/// Lexicographic order of character sequences by code point; this is the
/// order of `String` (UTF-8 preserves code-point order).
pub open spec fn text_lt(a: Seq<char>, b: Seq<char>) -> bool
    decreases a.len(),
{
    if a.len() == 0 {
        b.len() > 0
    } else if b.len() == 0 {
        false
    } else if a[0] != b[0] {
        a[0] < b[0]
    } else {
        text_lt(a.drop_first(), b.drop_first())
    }
}

/// No text is before itself.
pub proof fn lemma_text_lt_irreflexive(a: Seq<char>)
    ensures
        !text_lt(a, a),
    decreases a.len(),
{
    if a.len() > 0 {
        lemma_text_lt_irreflexive(a.drop_first());
    }
}

/// Of two different texts, one is before the other.
pub proof fn lemma_text_lt_total(a: Seq<char>, b: Seq<char>)
    ensures
        a == b || text_lt(a, b) || text_lt(b, a),
    decreases a.len(),
{
    if a.len() > 0 && b.len() > 0 && a[0] == b[0] {
        lemma_text_lt_total(a.drop_first(), b.drop_first());
        if a.drop_first() == b.drop_first() {
            assert(a =~= seq![a[0]] + a.drop_first());
            assert(b =~= seq![b[0]] + b.drop_first());
        }
    } else if a.len() == 0 && b.len() == 0 {
        assert(a =~= b);
    } else if a.len() > 0 && b.len() > 0 {
    }
}

/// A text before another is not after it.
pub proof fn lemma_text_lt_asymmetric(a: Seq<char>, b: Seq<char>)
    requires
        text_lt(a, b),
    ensures
        !text_lt(b, a),
    decreases a.len(),
{
    if a.len() > 0 && b.len() > 0 && a[0] == b[0] {
        lemma_text_lt_asymmetric(a.drop_first(), b.drop_first());
    }
}

/// The text order is transitive.
pub proof fn lemma_text_lt_transitive(a: Seq<char>, b: Seq<char>, c: Seq<char>)
    requires
        text_lt(a, b),
        text_lt(b, c),
    ensures
        text_lt(a, c),
    decreases a.len(),
{
    if a.len() > 0 && b.len() > 0 && c.len() > 0 && a[0] == b[0] && b[0] == c[0] {
        lemma_text_lt_transitive(a.drop_first(), b.drop_first(), c.drop_first());
    }
}

/// `a < b` for strings.
pub fn str_lt(a: &str, b: &str) -> (r: bool)
    ensures
        r == text_lt(a@, b@),
{
    let x = chars_of(a);
    let y = chars_of(b);
    let mut i: usize = 0;
    assert(x@.skip(0) =~= x@);
    assert(y@.skip(0) =~= y@);
    while i < x.len() && i < y.len()
        invariant
            i <= x@.len(),
            i <= y@.len(),
            text_lt(a@, b@) == text_lt(x@.skip(i as int), y@.skip(i as int)),
            x@ == a@,
            y@ == b@,
        decreases x.len() - i,
    {
        let ghost xs = x@.skip(i as int);
        let ghost ys = y@.skip(i as int);
        if x[i] != y[i] {
            assert(xs[0] == x@[i as int]);
            assert(ys[0] == y@[i as int]);
            return x[i] < y[i];
        }
        assert(xs.drop_first() =~= x@.skip(i + 1));
        assert(ys.drop_first() =~= y@.skip(i + 1));
        i = i + 1;
    }
    i < y.len()
}

/// Identities of registered providers, in registry order.
pub open spec fn provider_ids(ps: Seq<RegisteredProvider>) -> Seq<Seq<char>> {
    ps.map_values(|p: RegisteredProvider| p.spec_manifest().id.text())
}

/// `after` is `before` with one new entry, declared by `manifest` read from
/// `path` and served by `backend`, placed at position `k`.
pub open spec fn inserted_at(
    before: Seq<RegisteredProvider>,
    after: Seq<RegisteredProvider>,
    k: int,
    manifest: ProviderManifest,
    path: Seq<char>,
    backend: ProviderBackend,
) -> bool {
    &&& 0 <= k <= before.len()
    &&& after == before.insert(k, after[k])
    &&& after[k].spec_manifest() == manifest
    &&& after[k].spec_manifest_path() == path
    &&& after[k].spec_backend() == backend
}

/// What registering `manifest`, read from `path`, with the backend
/// `available` on this host does: `r` is its result, `after` the providers
/// it leaves.
pub open spec fn register_outcome(
    before: Seq<RegisteredProvider>,
    after: Seq<RegisteredProvider>,
    r: Result<(), ProviderError>,
    path: Seq<char>,
    manifest: ProviderManifest,
    available: Option<ProviderBackend>,
) -> bool {
    match manifest_problem(manifest) {
        Some(p) => r matches Err(e) && reports_problem(e, p, path, manifest) && after == before,
        None => match available {
            None => r is Ok && after == before,
            Some(backend) => if provider_ids(before).contains(manifest.id.text()) {
                r matches Err(e) && e == ProviderError::DuplicateProvider(manifest.id) && after
                    == before
            } else {
                &&& r is Ok
                &&& exists|k: int| #[trigger] inserted_at(before, after, k, manifest, path, backend)
                &&& provider_ids(after).to_set() == provider_ids(before).to_set().insert(
                    manifest.id.text(),
                )
            },
        },
    }
}

/// Successive provider lists while the first `n` manifests register, each
/// successfully.
pub open spec fn registration_run(
    t: Seq<Seq<RegisteredProvider>>,
    path: Seq<char>,
    manifests: Seq<ProviderManifest>,
    available: Seq<Option<ProviderBackend>>,
    n: int,
) -> bool {
    &&& t.len() == n + 1
    &&& t[0].len() == 0
    &&& forall|i: int|
        0 <= i < n ==> register_outcome(
            #[trigger] t[i],
            t[i + 1],
            Ok(()),
            path,
            manifests[i],
            available[i],
        )
}

/// The backend a manifest can use on this host: its library when that
/// loads, else its executable when that can run.
pub open spec fn backend_choice(
    m: ProviderManifest,
    library_loads: bool,
    executable_runs: bool,
) -> Option<ProviderBackend> {
    if m.library is Some && library_loads {
        Some(ProviderBackend::Library)
    } else if m.executable is Some && executable_runs {
        Some(ProviderBackend::Cli)
    } else {
        None
    }
}

/// Chooses the preferred backend that is actually available on this host;
/// `library_loads` tells whether the declared library loads with its
/// symbols, `executable_runs` whether the declared command is an executable
/// file.
pub fn available_backend(
    manifest: &ProviderManifest,
    library_loads: bool,
    executable_runs: bool,
) -> (r: Option<ProviderBackend>)
    ensures
        r == backend_choice(*manifest, library_loads, executable_runs),
{
    if manifest.library.is_some() && library_loads {
        Some(ProviderBackend::Library)
    } else if manifest.executable.is_some() && executable_runs {
        Some(ProviderBackend::Cli)
    } else {
        None
    }
}

/// Whether `e` refuses a manifest collection of unknown schema `version`
/// read from `path`.
pub open spec fn reports_version(e: ProviderError, path: Seq<char>, version: u16) -> bool {
    e matches ProviderError::UnsupportedManifestVersion { path: p, version: v } && p@ == path && v
        == version
}

/// Refuses a manifest collection whose schema version this release does not know.
pub fn check_manifest_version(path: &str, manifests: &ProviderManifests) -> (r: Result<
    (),
    ProviderError,
>)
    ensures
        manifests.manifest_version == PROVIDER_MANIFEST_VERSION ==> r is Ok,
        manifests.manifest_version != PROVIDER_MANIFEST_VERSION ==> (r matches Err(e)
            && reports_version(e, path@, manifests.manifest_version)),
{
    if manifests.manifest_version != PROVIDER_MANIFEST_VERSION {
        return Err(
            ProviderError::UnsupportedManifestVersion {
                path: path.to_string(),
                version: manifests.manifest_version,
            },
        );
    }
    Ok(())
}

/// Whether a manifest's declared backends are all usable.
pub open spec fn dependencies_met(m: ProviderManifest, library_loads: bool, executable_runs: bool) -> bool {
    &&& manifest_problem(m) is None
    &&& m.library is Some ==> library_loads
    &&& m.executable is Some ==> executable_runs
}

/// Whether `e` reports the first dependency problem of manifest `m` read from `path`.
pub open spec fn reports_dependency(
    e: ProviderError,
    path: Seq<char>,
    m: ProviderManifest,
    library_loads: bool,
    executable_runs: bool,
) -> bool {
    match manifest_problem(m) {
        Some(p) => reports_problem(e, p, path, m),
        None => if m.library is Some && !library_loads {
            e matches ProviderError::UnavailableLibrary { provider, library } && provider == m.id
                && library@ == m.library->0.path@
        } else if m.executable is Some && !executable_runs {
            e matches ProviderError::UnavailableExecutable { provider, executable } && provider
                == m.id && executable@ == m.executable->0@
        } else {
            false
        },
    }
}

fn copy_id(id: &ProviderId) -> (r: ProviderId)
    ensures
        r == *id,
{
    ProviderId(id.0.clone())
}

/// Strictly checks one manifest for a package build: valid, and every
/// declared backend usable.
pub fn check_dependencies(
    path: &str,
    manifest: &ProviderManifest,
    library_loads: bool,
    executable_runs: bool,
) -> (r: Result<(), ProviderError>)
    ensures
        r is Ok <==> dependencies_met(*manifest, library_loads, executable_runs),
        r matches Err(e) ==> reports_dependency(e, path@, *manifest, library_loads, executable_runs),
{
    validate_manifest(path, manifest)?;
    if let Some(library) = &manifest.library {
        if !library_loads {
            return Err(
                ProviderError::UnavailableLibrary {
                    provider: copy_id(&manifest.id),
                    library: library.path.clone(),
                },
            );
        }
    }
    if let Some(executable) = &manifest.executable {
        if !executable_runs {
            return Err(
                ProviderError::UnavailableExecutable {
                    provider: copy_id(&manifest.id),
                    executable: executable.clone(),
                },
            );
        }
    }
    Ok(())
}

/// Strictly increasing identities.
pub open spec fn strictly_sorted(ids: Seq<Seq<char>>) -> bool {
    forall|i: int, j: int| 0 <= i < j < ids.len() ==> text_lt(#[trigger] ids[i], #[trigger] ids[j])
}

/// Deterministic registry containing only integrations available on this host.
#[derive(Debug)]
pub struct ProviderRegistry {
    providers: Vec<RegisteredProvider>,
}

impl ProviderRegistry {
    #[verifier::type_invariant]
    closed spec fn inv(self) -> bool {
        strictly_sorted(provider_ids(self.providers@))
    }

    /// Registered providers in identity order.
    pub closed spec fn provider_seq(self) -> Seq<RegisteredProvider> {
        self.providers@
    }

    /// An empty registry.
    pub fn new() -> (r: ProviderRegistry)
        ensures
            r.provider_seq().len() == 0,
    {
        ProviderRegistry { providers: Vec::new() }
    }

    /// Registered providers in strictly increasing identity order, whatever
    /// the order in which they were declared.
    pub fn providers(&self) -> (r: &[RegisteredProvider])
        ensures
            r@ == self.provider_seq(),
            strictly_sorted(provider_ids(r@)),
    {
        proof {
            use_type_invariant(self);
        }
        self.providers.as_slice()
    }

    /// Returns an available provider by stable ID.
    pub fn get(&self, id: &ProviderId) -> (r: Option<&RegisteredProvider>)
        ensures
            match r {
                Some(p) => exists|i: int|
                    0 <= i < self.provider_seq().len() && self.provider_seq()[i] == *p
                        && p.spec_manifest().id.text() == id.text(),
                None => !provider_ids(self.provider_seq()).contains(id.text()),
            },
    {
        let mut i: usize = 0;
        while i < self.providers.len()
            invariant
                i <= self.providers@.len(),
                forall|j: int|
                    0 <= j < i ==> #[trigger] self.providers@[j].spec_manifest().id.text()
                        != id.text(),
            decreases self.providers.len() - i,
        {
            if crate::collections::str_eq(self.providers[i].manifest.id.as_str(), id.as_str()) {
                assert(self.provider_seq()[i as int] == self.providers@[i as int]);
                return Some(&self.providers[i]);
            }
            i = i + 1;
        }
        proof {
            assert forall|j: int| 0 <= j < provider_ids(self.providers@).len() implies provider_ids(
                self.providers@,
            )[j] != id.text() by {
                assert(provider_ids(self.providers@)[j]
                    == self.providers@[j].spec_manifest().id.text());
            }
        }
        None
    }

    /// Validates and conditionally registers one provider declaration read
    /// from `path`; `available` is the backend found on this host, if any.
    pub fn register(
        &mut self,
        path: &str,
        manifest: ProviderManifest,
        available: Option<ProviderBackend>,
    ) -> (r: Result<(), ProviderError>)
        ensures
            register_outcome(
                old(self).provider_seq(),
                final(self).provider_seq(),
                r,
                path@,
                manifest,
                available,
            ),
    {
        validate_manifest(path, &manifest)?;
        let backend = match available {
            Some(b) => b,
            None => return Ok(()),
        };
        proof {
            use_type_invariant(&*self);
        }
        let ghost old_seq = self.providers@;
        let ghost old_ids = provider_ids(old_seq);
        let ghost new_id = manifest.id.text();
        let mut k: usize = 0;
        while k < self.providers.len() && str_lt(
            self.providers[k].manifest.id.as_str(),
            manifest.id.as_str(),
        )
            invariant
                k <= self.providers@.len(),
                self.providers@ == old_seq,
                old_ids == provider_ids(old_seq),
                new_id == manifest.id.text(),
                strictly_sorted(old_ids),
                forall|j: int| 0 <= j < k ==> text_lt(#[trigger] old_ids[j], new_id),
            decreases self.providers.len() - k,
        {
            assert(old_ids[k as int] == self.providers@[k as int].spec_manifest().id.text());
            k = k + 1;
        }
        if k < self.providers.len() && crate::collections::str_eq(
            self.providers[k].manifest.id.as_str(),
            manifest.id.as_str(),
        ) {
            assert(old_ids[k as int] == new_id);
            return Err(ProviderError::DuplicateProvider(manifest.id));
        }
        proof {
            if k < old_seq.len() {
                assert(old_ids[k as int] == old_seq[k as int].spec_manifest().id.text());
                lemma_text_lt_total(old_ids[k as int], new_id);
            }
            assert forall|j: int| 0 <= j < old_ids.len() implies old_ids[j] != new_id by {
                if j < k {
                    lemma_text_lt_irreflexive(new_id);
                } else if k < old_ids.len() {
                    if j > k {
                        lemma_text_lt_transitive(new_id, old_ids[k as int], old_ids[j]);
                    }
                    lemma_text_lt_irreflexive(new_id);
                }
            }
        }
        let ghost g_manifest = manifest;
        let ghost g_backend = backend;
        let entry = RegisteredProvider {
            manifest,
            manifest_path: path.to_string(),
            backend,
        };
        let mut providers: Vec<RegisteredProvider> = Vec::new();
        std::mem::swap(&mut providers, &mut self.providers);
        providers.insert(k, entry);
        proof {
            let ids = provider_ids(providers@);
            assert(ids =~= old_ids.insert(k as int, new_id));
            assert forall|i: int, j: int| 0 <= i < j < ids.len() implies text_lt(
                #[trigger] ids[i],
                #[trigger] ids[j],
            ) by {
                if j < k {
                } else if j == k {
                    assert(ids[i] == old_ids[i]);
                } else if i == k {
                    assert(ids[j] == old_ids[j - 1]);
                    if j - 1 > k {
                        lemma_text_lt_total(old_ids[k as int], new_id);
                        lemma_text_lt_transitive(new_id, old_ids[k as int], old_ids[j - 1]);
                    } else {
                        lemma_text_lt_total(old_ids[k as int], new_id);
                    }
                } else if i < k {
                    assert(ids[i] == old_ids[i]);
                    assert(ids[j] == old_ids[j - 1]);
                } else {
                    assert(ids[i] == old_ids[i - 1]);
                    assert(ids[j] == old_ids[j - 1]);
                }
            }
            assert(ids.to_set() =~= old_ids.to_set().insert(new_id)) by {
                assert forall|x: Seq<char>| ids.contains(x) implies old_ids.to_set().insert(
                    new_id,
                ).contains(x) by {
                    let i = choose|i: int| 0 <= i < ids.len() && ids[i] == x;
                    if i < k {
                        assert(old_ids[i] == x);
                    } else if i > k {
                        assert(old_ids[i - 1] == x);
                    }
                }
                assert forall|x: Seq<char>| old_ids.to_set().insert(new_id).contains(x) implies ids.contains(
                    x,
                ) by {
                    if x == new_id {
                        assert(ids[k as int] == x);
                    } else {
                        let i = choose|i: int| 0 <= i < old_ids.len() && old_ids[i] == x;
                        if i < k {
                            assert(ids[i] == x);
                        } else {
                            assert(ids[i + 1] == x);
                        }
                    }
                }
            }
            assert(providers@[k as int].spec_manifest().id.text() == new_id);
            assert(inserted_at(old_seq, providers@, k as int, manifest, path@, backend));
        }
        self.providers = providers;
        assert(inserted_at(old_seq, self.provider_seq(), k as int, g_manifest, path@, g_backend));
        Ok(())
    }

    /// Registers, in order, the providers of a manifest collection read
    /// from `path`; `available[i]` is the backend found on this host for the
    /// `i`-th manifest. A well-formed provider with no available backend is
    /// skipped; the first invalid or duplicate declaration fails the load.
    pub fn load_from(
        path: &str,
        manifests: ProviderManifests,
        available: &[Option<ProviderBackend>],
    ) -> (r: Result<ProviderRegistry, ProviderError>)
        requires
            available@.len() == manifests.providers@.len(),
        ensures
            manifests.manifest_version != PROVIDER_MANIFEST_VERSION ==> (r matches Err(e)
                && reports_version(e, path@, manifests.manifest_version)),
            manifests.manifest_version == PROVIDER_MANIFEST_VERSION ==> match r {
                Ok(reg) => exists|t: Seq<Seq<RegisteredProvider>>|
                    registration_run(
                        t,
                        path@,
                        manifests.providers@,
                        available@,
                        manifests.providers@.len() as int,
                    ) && reg.provider_seq() == t.last(),
                Err(e) => exists|t: Seq<Seq<RegisteredProvider>>, k: int|
                    0 <= k < manifests.providers@.len() && registration_run(
                        t,
                        path@,
                        manifests.providers@,
                        available@,
                        k,
                    ) && register_outcome(
                        t.last(),
                        t.last(),
                        Err(e),
                        path@,
                        manifests.providers@[k],
                        available@[k],
                    ),
            },
    {
        check_manifest_version(path, &manifests)?;
        let ghost all = manifests.providers@;
        let mut rest = manifests.providers;
        let mut registry = ProviderRegistry::new();
        let ghost mut t: Seq<Seq<RegisteredProvider>> = seq![registry.provider_seq()];
        let mut i: usize = 0;
        while rest.len() > 0
            invariant
                manifests.manifest_version == PROVIDER_MANIFEST_VERSION,
                all == manifests.providers@,
                i + rest@.len() == all.len(),
                rest@ == all.skip(i as int),
                available@.len() == all.len(),
                registration_run(t, path@, all, available@, i as int),
                t.last() == registry.provider_seq(),
            decreases rest.len(),
        {
            let manifest = rest.remove(0);
            assert(manifest == all[i as int]);
            assert(rest@ =~= all.skip(i + 1));
            let ghost before = registry.provider_seq();
            match registry.register(path, manifest, available[i]) {
                Ok(()) => {},
                Err(e) => {
                    assert(register_outcome(before, before, Err(e), path@, all[i as int], available@[i as int]));
                    assert(0 <= i < all.len() && registration_run(t, path@, all, available@, i as int)
                        && register_outcome(t.last(), t.last(), Err(e), path@, all[i as int], available@[i as int]));
                    return Err(e);
                },
            }
            proof {
                t = t.push(registry.provider_seq());
            }
            i = i + 1;
        }
        Ok(registry)
    }

    /// Strictly verifies every backend declared in a manifest collection read
    /// from `path`, for package builds: unlike loading, any declared backend
    /// that is unusable fails. `library_loads[i]` and `executable_runs[i]`
    /// tell, for the `i`-th manifest, whether its library loads with its
    /// symbols and whether its command is an executable file.
    pub fn validate_dependencies(
        path: &str,
        manifests: &ProviderManifests,
        library_loads: &[bool],
        executable_runs: &[bool],
    ) -> (r: Result<(), ProviderError>)
        requires
            library_loads@.len() == manifests.providers@.len(),
            executable_runs@.len() == manifests.providers@.len(),
        ensures
            manifests.manifest_version != PROVIDER_MANIFEST_VERSION ==> (r matches Err(e)
                && reports_version(e, path@, manifests.manifest_version)),
            manifests.manifest_version == PROVIDER_MANIFEST_VERSION ==> match r {
                Ok(()) => forall|i: int|
                    0 <= i < manifests.providers@.len() ==> dependencies_met(
                        #[trigger] manifests.providers@[i],
                        library_loads@[i],
                        executable_runs@[i],
                    ),
                Err(e) => exists|k: int|
                    {
                        &&& 0 <= k < manifests.providers@.len()
                        &&& forall|i: int|
                            0 <= i < k ==> dependencies_met(
                                #[trigger] manifests.providers@[i],
                                library_loads@[i],
                                executable_runs@[i],
                            )
                        &&& !dependencies_met(
                            manifests.providers@[k],
                            library_loads@[k],
                            executable_runs@[k],
                        )
                        &&& reports_dependency(
                            e,
                            path@,
                            manifests.providers@[k],
                            library_loads@[k],
                            executable_runs@[k],
                        )
                    },
            },
    {
        check_manifest_version(path, manifests)?;
        let mut i: usize = 0;
        while i < manifests.providers.len()
            invariant
                manifests.manifest_version == PROVIDER_MANIFEST_VERSION,
                i <= manifests.providers@.len(),
                library_loads@.len() == manifests.providers@.len(),
                executable_runs@.len() == manifests.providers@.len(),
                forall|j: int|
                    0 <= j < i ==> dependencies_met(
                        #[trigger] manifests.providers@[j],
                        library_loads@[j],
                        executable_runs@[j],
                    ),
            decreases manifests.providers.len() - i,
        {
            check_dependencies(
                path,
                &manifests.providers[i],
                library_loads[i],
                executable_runs[i],
            )?;
            i = i + 1;
        }
        Ok(())
    }
}

/// Identities of the first `n` manifests that have a backend on this host.
pub open spec fn available_ids(
    manifests: Seq<ProviderManifest>,
    available: Seq<Option<ProviderBackend>>,
    n: int,
) -> Set<Seq<char>> {
    Set::new(
        |id: Seq<char>|
            exists|i: int|
                0 <= i < n && (#[trigger] available[i]) is Some && manifests[i].id.text() == id,
    )
}

/// A load that succeeds registers exactly the providers that have a backend
/// on this host: a well-formed provider without one is skipped.
pub proof fn law_registered_are_the_available(
    t: Seq<Seq<RegisteredProvider>>,
    path: Seq<char>,
    manifests: Seq<ProviderManifest>,
    available: Seq<Option<ProviderBackend>>,
    n: int,
)
    requires
        0 <= n <= manifests.len(),
        available.len() == manifests.len(),
        registration_run(t, path, manifests, available, n),
    ensures
        provider_ids(t.last()).to_set() == available_ids(manifests, available, n),
    decreases n,
{
    if n == 0 {
        assert(provider_ids(t[0]) =~= Seq::<Seq<char>>::empty());
        assert(provider_ids(t.last()).to_set() =~= available_ids(manifests, available, 0));
    } else {
        let prefix = t.take(n);
        assert(registration_run(prefix, path, manifests, available, n - 1)) by {
            assert forall|i: int| 0 <= i < n - 1 implies register_outcome(
                #[trigger] prefix[i],
                prefix[i + 1],
                Ok(()),
                path,
                manifests[i],
                available[i],
            ) by {
                assert(register_outcome(t[i], t[i + 1], Ok(()), path, manifests[i], available[i]));
            }
        }
        law_registered_are_the_available(prefix, path, manifests, available, n - 1);
        assert(prefix.last() == t[n - 1]);
        assert(register_outcome(t[n - 1], t[n], Ok(()), path, manifests[n - 1], available[n - 1]));
        let before = available_ids(manifests, available, n - 1);
        let after = available_ids(manifests, available, n);
        match available[n - 1] {
            None => {
                assert(after =~= before) by {
                    assert forall|id: Seq<char>| after.contains(id) implies before.contains(id) by {
                        let i = choose|i: int|
                            0 <= i < n && (#[trigger] available[i]) is Some && manifests[i].id.text()
                                == id;
                        assert(i < n - 1);
                    }
                }
            },
            Some(_) => {
                assert(after =~= before.insert(manifests[n - 1].id.text())) by {
                    assert forall|id: Seq<char>| after.contains(id) implies before.insert(
                        manifests[n - 1].id.text(),
                    ).contains(id) by {
                        let i = choose|i: int|
                            0 <= i < n && (#[trigger] available[i]) is Some && manifests[i].id.text()
                                == id;
                        if i < n - 1 {
                            assert(before.contains(id));
                        }
                    }
                    assert(after.contains(manifests[n - 1].id.text()));
                }
            },
        }
    }
}


/// Along a registration run every registered entry records the path its
/// manifest was read from.
proof fn lemma_run_paths(
    t: Seq<Seq<RegisteredProvider>>,
    path: Seq<char>,
    manifests: Seq<ProviderManifest>,
    available: Seq<Option<ProviderBackend>>,
    n: int,
)
    requires
        0 <= n,
        registration_run(t, path, manifests, available, n),
    ensures
        forall|i: int| 0 <= i < t.last().len() ==> (#[trigger] t.last()[i]).spec_manifest_path() == path,
    decreases n,
{
    if n > 0 {
        let prefix = t.take(n);
        assert(registration_run(prefix, path, manifests, available, n - 1)) by {
            assert forall|i: int| 0 <= i < n - 1 implies register_outcome(
                #[trigger] prefix[i],
                prefix[i + 1],
                Ok(()),
                path,
                manifests[i],
                available[i],
            ) by {
                assert(register_outcome(t[i], t[i + 1], Ok(()), path, manifests[i], available[i]));
            }
        }
        lemma_run_paths(prefix, path, manifests, available, n - 1);
        assert(prefix.last() == t[n - 1]);
        let before = t[n - 1];
        let after = t[n];
        assert(register_outcome(before, after, Ok(()), path, manifests[n - 1], available[n - 1]));
        assert(t.last() == after);
        if after != before {
            let backend = available[n - 1]->0;
            let k = choose|k: int| #[trigger]
                inserted_at(before, after, k, manifests[n - 1], path, backend);
            assert forall|i: int| 0 <= i < after.len() implies (#[trigger] after[i]).spec_manifest_path()
                == path by {
                if i < k {
                    assert(after[i] == before[i]);
                } else if i > k {
                    assert(after[i] == before[i - 1]);
                }
            }
        }
    }
}

/// A registry loaded from one manifest collection read from `path` lists
/// each provider available on this host exactly once, in strictly increasing
/// identity order, and every entry records `path` as its manifest path.
pub proof fn law_loaded_registry(
    t: Seq<Seq<RegisteredProvider>>,
    path: Seq<char>,
    manifests: Seq<ProviderManifest>,
    available: Seq<Option<ProviderBackend>>,
    n: int,
)
    requires
        0 <= n <= manifests.len(),
        available.len() == manifests.len(),
        registration_run(t, path, manifests, available, n),
        strictly_sorted(provider_ids(t.last())),
    ensures
        forall|i: int| 0 <= i < t.last().len() ==> (#[trigger] t.last()[i]).spec_manifest_path() == path,
        provider_ids(t.last()).no_duplicates(),
        provider_ids(t.last()).to_set() == available_ids(manifests, available, n),
        t.last().len() == available_ids(manifests, available, n).len(),
{
    lemma_run_paths(t, path, manifests, available, n);
    let ids = provider_ids(t.last());
    assert forall|a: int, b: int| 0 <= a < ids.len() && 0 <= b < ids.len() && a != b implies ids[a]
        != ids[b] by {
        lemma_text_lt_irreflexive(ids[a]);
        if a < b {
            assert(text_lt(ids[a], ids[b]));
        } else {
            assert(text_lt(ids[b], ids[a]));
        }
    }
    ids.unique_seq_to_set();
    law_registered_are_the_available(t, path, manifests, available, n);
}

} // verus!
