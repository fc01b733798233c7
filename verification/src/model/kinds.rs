//! Filesystem, LVM, NVMe, partition and ZFS properties of storage nodes.

use vstd::prelude::*;

use super::raid::{BtrfsProfile, CopyCount, DataStripeCount, LvmRaid};
use super::block::BlockSize;

verus! {

/// Write policy of a dm-cache device.
#[derive(Debug, Clone, Copy, PartialEq, Eq, PartialOrd, Hash, Structural)]
pub enum DmCacheMode {
    /// Cache writes before committing them to origin storage.
    Writeback,
    /// Commit writes to cache and origin storage together.
    Writethrough,
    /// Bypass cache promotion and write policy.
    Passthrough,
}

/// Write policy of a bcache device.
#[derive(Debug, Clone, Copy, PartialEq, Eq, PartialOrd, Hash, Structural)]
pub enum BcacheMode {
    /// Cache writes before committing them to backing storage.
    Writeback,
    /// Commit writes to cache and backing storage together.
    Writethrough,
    /// Write directly to backing storage without caching the write.
    Writearound,
    /// Caching disabled.
    Disabled,
}

/// LUKS on-disk format version.
#[derive(Debug, Clone, Copy, PartialEq, Eq, Structural)]
pub enum LuksVersion {
    /// LUKS1 format.
    Luks1,
    /// LUKS2 format.
    Luks2,
}

/// Bit of a Btrfs profile inside a [`BtrfsProfileSet`].
pub open spec fn profile_bit(p: BtrfsProfile) -> u16 {
    match p {
        BtrfsProfile::Single => 1,
        BtrfsProfile::Dup => 2,
        BtrfsProfile::Raid0 => 4,
        BtrfsProfile::Raid1 => 8,
        BtrfsProfile::Raid1C3 => 16,
        BtrfsProfile::Raid1C4 => 32,
        BtrfsProfile::Raid10 => 64,
        BtrfsProfile::Raid5 => 128,
        BtrfsProfile::Raid6 => 256,
    }
}

fn profile_bit_exec(p: BtrfsProfile) -> (r: u16)
    ensures
        r == profile_bit(p),
{
    match p {
        BtrfsProfile::Single => 1,
        BtrfsProfile::Dup => 2,
        BtrfsProfile::Raid0 => 4,
        BtrfsProfile::Raid1 => 8,
        BtrfsProfile::Raid1C3 => 16,
        BtrfsProfile::Raid1C4 => 32,
        BtrfsProfile::Raid10 => 64,
        BtrfsProfile::Raid5 => 128,
        BtrfsProfile::Raid6 => 256,
    }
}

/// A set of Btrfs allocation profiles.
#[derive(Debug, Clone, Copy, PartialEq, Eq, Structural)]
pub struct BtrfsProfileSet {
    mask: u16,
}

impl View for BtrfsProfileSet {
    type V = Set<BtrfsProfile>;

    closed spec fn view(&self) -> Set<BtrfsProfile> {
        Set::new(|p: BtrfsProfile| self.mask & profile_bit(p) != 0)
    }
}

impl BtrfsProfileSet {
    /// The set with no profile.
    pub closed spec fn spec_empty() -> BtrfsProfileSet {
        BtrfsProfileSet { mask: 0 }
    }

    /// The empty set.
    pub fn new() -> (r: BtrfsProfileSet)
        ensures
            r@ == Set::<BtrfsProfile>::empty(),
            r == BtrfsProfileSet::spec_empty(),
    {
        let r = BtrfsProfileSet { mask: 0 };
        assert forall|p: BtrfsProfile| !r@.contains(p) by {
            assert(0u16 & profile_bit(p) == 0) by (bit_vector);
        }
        assert(r@ =~= Set::<BtrfsProfile>::empty());
        r
    }

    /// Adds a profile.
    pub fn insert(&mut self, p: BtrfsProfile)
        ensures
            final(self)@ == old(self)@.insert(p),
    {
        let ghost m = self.mask;
        let b = profile_bit_exec(p);
        self.mask = self.mask | b;
        assert forall|q: BtrfsProfile| #[trigger] self@.contains(q) == old(self)@.insert(p).contains(
            q,
        ) by {
            let c = profile_bit(q);
            if q == p {
                assert((m | b) & b != 0) by (bit_vector)
                    requires
                        b == 1 || b == 2 || b == 4 || b == 8 || b == 16 || b == 32 || b == 64 || b
                            == 128 || b == 256,
                ;
            } else {
                assert(((m | b) & c != 0) == (m & c != 0)) by (bit_vector)
                    requires
                        b == 1 || b == 2 || b == 4 || b == 8 || b == 16 || b == 32 || b == 64 || b
                            == 128 || b == 256,
                        c == 1 || c == 2 || c == 4 || c == 8 || c == 16 || c == 32 || c == 64 || c
                            == 128 || c == 256,
                        b != c,
                ;
            }
        }
        assert(self@ =~= old(self)@.insert(p));
    }

    /// Whether a profile is in the set.
    pub fn contains(&self, p: BtrfsProfile) -> (r: bool)
        ensures
            r == self@.contains(p),
    {
        self.mask & profile_bit_exec(p) != 0
    }
}

/// Btrfs allocation profiles used by each chunk class.
#[derive(Debug, Clone, Copy, PartialEq, Eq, Structural)]
pub struct BtrfsAllocation {
    /// Profiles used for data chunks.
    pub data: BtrfsProfileSet,
    /// Profiles used for metadata chunks.
    pub metadata: BtrfsProfileSet,
    /// Profiles used for system chunks.
    pub system: BtrfsProfileSet,
}

/// Allocation with no profile known for any chunk type.
pub open spec fn empty_btrfs_allocation() -> BtrfsAllocation {
    BtrfsAllocation {
        data: BtrfsProfileSet::spec_empty(),
        metadata: BtrfsProfileSet::spec_empty(),
        system: BtrfsProfileSet::spec_empty(),
    }
}

impl BtrfsAllocation {
    /// Allocation with no profile known for any chunk type.
    pub fn empty() -> (r: BtrfsAllocation)
        ensures
            r == empty_btrfs_allocation(),
    {
        BtrfsAllocation {
            data: BtrfsProfileSet::new(),
            metadata: BtrfsProfileSet::new(),
            system: BtrfsProfileSet::new(),
        }
    }
}

/// Filesystem implementation and implementation-specific allocation data.
#[derive(Debug, Clone, PartialEq, Eq)]
pub enum FilesystemKind {
    /// Ext2 filesystem.
    Ext2,
    /// Ext3 filesystem.
    Ext3,
    /// Ext4 filesystem.
    Ext4,
    /// XFS filesystem.
    Xfs,
    /// Btrfs filesystem and its allocation profiles.
    Btrfs(BtrfsAllocation),
    /// JFS filesystem.
    Jfs,
    /// ReiserFS filesystem.
    Reiserfs,
    /// FAT filesystem.
    Vfat,
    /// NTFS filesystem.
    Ntfs,
    /// exFAT filesystem.
    Exfat,
    /// F2FS filesystem.
    F2fs,
    /// OCFS2 filesystem.
    Ocfs2,
    /// GFS2 filesystem.
    Gfs2,
    /// APFS filesystem.
    Apfs,
    /// Filesystem not represented by a dedicated variant.
    Other(String),
}

/// Provider-facing name of a filesystem kind.
pub open spec fn filesystem_name(k: FilesystemKind) -> Seq<char> {
    match k {
        FilesystemKind::Ext2 => "ext2"@,
        FilesystemKind::Ext3 => "ext3"@,
        FilesystemKind::Ext4 => "ext4"@,
        FilesystemKind::Xfs => "xfs"@,
        FilesystemKind::Btrfs(..) => "btrfs"@,
        FilesystemKind::Jfs => "jfs"@,
        FilesystemKind::Reiserfs => "reiserfs"@,
        FilesystemKind::Vfat => "vfat"@,
        FilesystemKind::Ntfs => "ntfs"@,
        FilesystemKind::Exfat => "exfat"@,
        FilesystemKind::F2fs => "f2fs"@,
        FilesystemKind::Ocfs2 => "ocfs2"@,
        FilesystemKind::Gfs2 => "gfs2"@,
        FilesystemKind::Apfs => "apfs"@,
        FilesystemKind::Other(other) => other@,
    }
}

impl FilesystemKind {
    /// Returns the provider-facing filesystem name.
    pub fn as_str(&self) -> (r: &str)
        ensures
            r@ == filesystem_name(*self),
    {
        match self {
            FilesystemKind::Ext2 => "ext2",
            FilesystemKind::Ext3 => "ext3",
            FilesystemKind::Ext4 => "ext4",
            FilesystemKind::Xfs => "xfs",
            FilesystemKind::Btrfs(..) => "btrfs",
            FilesystemKind::Jfs => "jfs",
            FilesystemKind::Reiserfs => "reiserfs",
            FilesystemKind::Vfat => "vfat",
            FilesystemKind::Ntfs => "ntfs",
            FilesystemKind::Exfat => "exfat",
            FilesystemKind::F2fs => "f2fs",
            FilesystemKind::Ocfs2 => "ocfs2",
            FilesystemKind::Gfs2 => "gfs2",
            FilesystemKind::Apfs => "apfs",
            FilesystemKind::Other(other) => other.as_str(),
        }
    }
}

/// LVM logical volume properties.
#[derive(Debug, Clone, PartialEq, Eq)]
pub struct LvmLv {
    /// Logical volume name.
    pub name: String,
    /// Logical volume layout or role.
    pub kind: LvmLvKind,
}

/// LVM logical volume layout or role.
#[derive(Debug, Clone, PartialEq, Eq)]
pub enum LvmLvKind {
    /// Linear logical volume.
    Linear,
    /// Striped logical volume.
    Striped { stripes: DataStripeCount },
    /// LVM RAID logical volume.
    Raid(LvmRaid),
    /// Mirrored logical volume.
    Mirror { copies: CopyCount },
    /// Thin-pool logical volume.
    ThinPool,
    /// Thin logical volume.
    Thin,
    /// Snapshot logical volume.
    Snapshot,
    /// Cache-pool logical volume.
    CachePool,
    /// Cached logical volume.
    Cache,
    /// Write-cache logical volume.
    WriteCache,
    /// Provider-specific logical volume kind.
    Other(String),
}

/// NVMe namespace properties.
#[derive(Debug, Clone, Copy, PartialEq, Eq, Structural)]
pub struct NvmeNamespace {
    /// Namespace identifier.
    pub nsid: NvmeNamespaceId,
    /// Active logical block format.
    pub format: NvmeLbaFormat,
}

/// NVMe logical block format.
#[derive(Debug, Clone, Copy, PartialEq, Eq, Structural)]
pub struct NvmeLbaFormat {
    /// Logical block data size.
    pub data_size: BlockSize,
    /// Metadata bytes stored with each logical block.
    pub metadata_size: u16,
}

/// Non-zero NVMe namespace identifier.
#[derive(Debug, Clone, Copy, PartialEq, Eq, Structural)]
pub struct NvmeNamespaceId(u32);

impl NvmeNamespaceId {
    #[verifier::type_invariant]
    closed spec fn inv(self) -> bool {
        self.0 != 0
    }

    /// The identifier, for contracts.
    pub closed spec fn value(self) -> u32 {
        self.0
    }

    /// Creates a non-zero NVMe namespace identifier; `None` for zero.
    pub fn new(nsid: u32) -> (r: Option<NvmeNamespaceId>)
        ensures
            match r {
                Some(n) => nsid != 0 && n.value() == nsid,
                None => nsid == 0,
            },
    {
        if nsid == 0 {
            None
        } else {
            Some(NvmeNamespaceId(nsid))
        }
    }

    /// Returns the namespace identifier.
    pub fn get(&self) -> (r: u32)
        ensures
            r == self.value(),
            r != 0,
    {
        proof {
            use_type_invariant(self);
        }
        self.0
    }
}

/// Native partition attribute bits and legacy boot flag.
#[derive(Debug, Clone, Copy, PartialEq, Eq, Structural)]
pub struct PartitionAttributes {
    /// Raw GPT attribute mask, preserved without interpretation.
    pub gpt: Option<u64>,
    /// MBR bootable flag, when applicable.
    pub bootable: Option<bool>,
}

impl Default for PartitionAttributes {
    fn default() -> (r: PartitionAttributes)
        ensures
            r.gpt is None,
            r.bootable is None,
    {
        PartitionAttributes { gpt: None, bootable: None }
    }
}

/// Intended system role of a partition.
#[derive(Debug, Clone, Copy, PartialEq, Eq, PartialOrd, Hash, Structural)]
pub enum UsageRole {
    /// Boot partition.
    Boot,
    /// Root filesystem partition.
    Root,
    /// Home filesystem partition.
    Home,
    /// Ordinary data partition.
    Data,
}

/// On-disk partition table format.
#[derive(Debug, Clone, Copy, PartialEq, Eq, Structural)]
pub enum PartitionTable {
    /// GUID Partition Table.
    Gpt,
    /// Master Boot Record partition table.
    Mbr,
}

/// Role of a device inside a ZFS virtual-device tree.
#[derive(Debug, Clone, Copy, PartialEq, Eq, PartialOrd, Hash, Structural)]
pub enum ZfsMember {
    /// Child of another virtual device.
    Child,
    /// Top-level virtual device in the given allocation class.
    TopLevel(ZfsVdevClass),
}

/// ZFS virtual-device layout.
#[derive(Debug, Clone, PartialEq, Eq)]
pub enum ZfsVdevKind {
    /// Single leaf device.
    Leaf,
    /// Mirrored devices.
    Mirror,
    /// RAIDZ layout.
    RaidZ { parity: ZfsParity },
    /// Distributed RAID layout.
    DRaid {
        /// Parity width.
        parity: ZfsParity,
        /// Data-device width.
        data_width: DataStripeCount,
        /// Number of distributed spare devices.
        distributed_spares: u16,
    },
    /// Provider-specific virtual-device layout.
    Other(String),
}

/// ZFS top-level virtual-device allocation class.
#[derive(Debug, Clone, Copy, PartialEq, Eq, PartialOrd, Hash, Structural)]
pub enum ZfsVdevClass {
    /// Ordinary data devices.
    Data,
    /// Intent-log devices.
    Log,
    /// Special allocation devices.
    Special,
    /// Deduplication table devices.
    Dedup,
    /// Read-cache devices.
    Cache,
    /// Spare devices.
    Spare,
}

/// Number of parity devices in RAIDZ or dRAID.
#[derive(Debug, Clone, Copy, PartialEq, Eq, PartialOrd, Ord, Hash, Structural)]
pub enum ZfsParity {
    /// One parity device.
    One,
    /// Two parity devices.
    Two,
    /// Three parity devices.
    Three,
}

} // verus!
