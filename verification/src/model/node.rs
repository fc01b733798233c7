//! Storage node identity, state, and intrinsic kinds.

use vstd::prelude::*;

use super::block::{BlockFacts, DeviceInfo, ExternalId};
use super::kinds::{
    BcacheMode, DmCacheMode, FilesystemKind, LuksVersion, LvmLv, NvmeNamespace,
    PartitionAttributes, PartitionTable, UsageRole, ZfsVdevKind,
};
use super::nonzero::NonZeroU32;
use super::raid::MdArray;
use super::sizes::Bytes;

verus! {

/// Whether a 128-bit value is a version 7 UUID of the RFC 4122 variant:
/// version nibble 7, variant bits `10`.
pub open spec fn is_v7_uuid(v: u128) -> bool {
    &&& (v >> 76u128) & 0xfu128 == 7
    &&& (v >> 62u128) & 0x3u128 == 2
}

/// 128-bit value of a fresh time-ordered (version 7) UUID (`Uuid::now_v7`).
///
/// The uuid crate builds it with the version and variant bits set; the other
/// bits come from the clock and from randomness, and nothing is stated of them.
#[verifier::external_body]
fn fresh_uuid_bits() -> (r: u128)
    ensures
        is_v7_uuid(r),
{
    uuid::Uuid::now_v7().as_u128()
}

/// Identity of a storage node: the 128-bit value of its UUID.
#[derive(Debug, Clone, Copy, PartialEq, Eq, PartialOrd, Hash, Structural)]
pub struct NodeId(pub u128);

impl NodeId {
    /// Creates a fresh transient node identity: a version 7 UUID.
    pub fn new() -> (r: NodeId)
        ensures
            is_v7_uuid(r.0),
    {
        NodeId(fresh_uuid_bits())
    }

    /// Creates a node identity from the value of a provider-resolved UUID.
    pub fn from_uuid(uuid: u128) -> (r: NodeId)
        ensures
            r.0 == uuid,
    {
        NodeId(uuid)
    }

    /// Returns the value of the underlying UUID.
    pub fn as_uuid(self) -> (r: u128)
        ensures
            r == self.0,
    {
        self.0
    }
}

/// Canonical storage object without runtime observations or relationships.
#[derive(Debug, Clone, PartialEq, Eq)]
pub struct Node {
    /// Intrinsic semantic kind and properties.
    pub kind: NodeSpec,
    /// Capacity provided to the next storage layer.
    pub size: NodeFacts,
}

/// Kind and capacity of a node.
#[derive(Debug, Clone, PartialEq, Eq)]
pub struct NodeSpec {
    pub kind: NodeKind,
    pub size: Option<Bytes>,
}

/// Number of a probe pass.
#[derive(Debug, Clone, Copy, PartialEq, Eq, PartialOrd, Ord, Hash, Structural)]
pub struct ProbeEpoch(u64);

impl ProbeEpoch {
    /// The pass number, for contracts.
    pub closed spec fn value(self) -> u64 {
        self.0
    }

    /// The first pass.
    pub fn zero() -> (r: ProbeEpoch)
        ensures
            r.value() == 0,
    {
        ProbeEpoch(0)
    }

    /// Creates an epoch from its number.
    pub fn new(value: u64) -> (r: ProbeEpoch)
        ensures
            r.value() == value,
    {
        ProbeEpoch(value)
    }

    /// Returns the epoch number.
    pub fn get(self) -> (r: u64)
        ensures
            r == self.value(),
    {
        self.0
    }

    /// The following epoch; `None` when the counter is exhausted.
    pub fn next(self) -> (r: Option<ProbeEpoch>)
        ensures
            match r {
                Some(n) => self.value() < u64::MAX && n.value() == self.value() + 1,
                None => self.value() == u64::MAX,
            },
    {
        match self.0.checked_add(1) {
            Some(v) => Some(ProbeEpoch(v)),
            None => None,
        }
    }
}

/// Runtime observations about a node.
#[derive(Debug, Clone, PartialEq, Eq)]
pub struct NodeFacts {
    pub observed_in: Option<ProbeEpoch>,
    pub presence: Presence,
    pub identities: Vec<ExternalId>,
    pub block: Option<BlockFacts>,
    pub device: Option<DeviceInfo>,
}

impl NodeFacts {
    /// Facts that record only presence.
    pub open spec fn only_presence(self, presence: Presence) -> bool {
        &&& self.observed_in is None
        &&& self.presence == presence
        &&& self.identities@.len() == 0
        &&& self.block is None
        &&& self.device is None
    }

    /// Facts that record only presence.
    pub fn with_presence(presence: Presence) -> (r: NodeFacts)
        ensures
            r.only_presence(presence),
    {
        NodeFacts {
            observed_in: None,
            presence,
            identities: Vec::new(),
            block: None,
            device: None,
        }
    }
}

impl Default for NodeFacts {
    fn default() -> (r: NodeFacts)
        ensures
            r.only_presence(Presence::Unknown),
    {
        NodeFacts::with_presence(Presence::Unknown)
    }
}

/// Whether a node was seen by the latest probe.
#[derive(Debug, Clone, Copy, PartialEq, Eq, Structural)]
pub enum Presence {
    Unknown,
    Present,
    Missing,
}

impl Default for Presence {
    fn default() -> (r: Presence)
        ensures
            r == Presence::Unknown,
    {
        Presence::Unknown
    }
}

/// Intrinsic semantic kind and properties of a storage node.
#[derive(Debug, Clone, PartialEq, Eq)]
pub enum NodeKind {
    /// Physical disk.
    Disk,
    NvmeSubsystem { nqn: String },
    NvmeController,
    /// NVMe namespace.
    NvmeNamespace(NvmeNamespace),
    /// File-backed loop device.
    Loop { backing_file: Option<String> },
    /// Compressed in-memory block device.
    Zram,
    /// DmMultipath block device.
    DmMultipath,
    /// Partition table.
    PartitionTable(PartitionTable),
    /// Partition described relative to its table by a `Contains` edge.
    Partition {
        number: NonZeroU32,
        offset: Bytes,
        role: Option<UsageRole>,
        attributes: PartitionAttributes,
    },
    /// On-disk LUKS container.
    LuksContainer { version: LuksVersion },
    /// Open dm-crypt mapping.
    DmCryptMapping { name: String },
    /// dm-integrity mapping.
    DmIntegrity { name: String },
    /// dm-verity mapping.
    DmVerity { name: String },
    /// Linux MD array.
    MdArray(MdArray),
    /// LVM physical volume.
    LvmPv,
    /// LVM volume group.
    LvmVg { name: String, extent_size: Option<Bytes> },
    /// LVM logical volume.
    LvmLv(LvmLv),
    /// bcache device.
    Bcache { name: String, mode: BcacheMode },
    /// dm-cache device.
    DmCache { name: String, mode: DmCacheMode },
    /// dm-writecache device.
    DmWritecache { name: String },
    /// Filesystem, including multi-device Btrfs.
    Filesystem { kind: FilesystemKind, label: Option<String> },
    /// Swap area.
    Swap,
    /// Btrfs subvolume.
    BtrfsSubvolume { name: String, read_only: bool, is_default: bool },
    /// ZFS storage pool.
    ZfsPool { name: String },
    /// ZFS virtual device.
    ZfsVdev(ZfsVdevKind),
    /// ZFS dataset.
    ZfsDataset { name: String },
    /// ZFS block volume.
    ZfsVolume { name: String },
    /// DRBD resource.
    Drbd { name: String },
    /// Source object which cannot yet be classified.
    Unknown(String),
}

} // verus!
