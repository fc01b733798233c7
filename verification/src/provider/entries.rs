//! Observations returned by the native provider libraries.
//!
//! Paths are held as strings.

use vstd::prelude::*;

verus! {

/// One Linux block endpoint returned by libudev.
#[derive(Debug, Clone, PartialEq, Eq)]
pub struct UdevBlockEntry {
    /// Kernel device node.
    pub devnode: String,
    /// Kernel device name.
    pub sysname: String,
    /// Udev device type, normally `disk` or `partition`.
    pub devtype: Option<String>,
    /// Kernel major device number.
    pub major: u32,
    /// Kernel minor device number.
    pub minor: u32,
    /// Device capacity in 512-byte sectors.
    pub size_sectors: Option<u64>,
    /// Logical block size in bytes.
    pub logical_block_size: Option<u32>,
    /// Physical block size in bytes.
    pub physical_block_size: Option<u32>,
    /// Hardware model reported by udev.
    pub model: Option<String>,
    /// Hardware serial reported by udev.
    pub serial: Option<String>,
    /// World-wide name reported by udev.
    pub wwn: Option<String>,
    /// Kernel read-only flag.
    pub read_only: Option<bool>,
    /// Kernel rotational-media flag.
    pub rotational: Option<bool>,
    /// Kernel removable-media flag.
    pub removable: Option<bool>,
}

/// One partition table returned by libfdisk.
#[derive(Debug, Clone, PartialEq, Eq)]
pub struct FdiskTable {
    /// Whole-disk device inspected by libfdisk.
    pub device: String,
    /// Native table label such as `gpt` or `dos`.
    pub label: Option<String>,
    /// Logical sector size used by partition offsets and sizes.
    pub sector_size: u64,
    /// Partitions present in the table.
    pub partitions: Vec<FdiskPartition>,
}

/// One partition returned by libfdisk.
#[derive(Debug, Clone, PartialEq, Eq)]
pub struct FdiskPartition {
    /// One-based partition number.
    pub number: u32,
    /// Start offset in logical sectors.
    pub start_sectors: u64,
    /// Length in logical sectors.
    pub size_sectors: u64,
    /// Native partition type string.
    pub partition_type: Option<String>,
    /// Optional partition name.
    pub name: Option<String>,
    /// Optional partition UUID.
    pub uuid: Option<String>,
    /// Legacy bootable flag.
    pub bootable: bool,
}

/// One block-content signature returned by libblkid.
#[derive(Debug, Clone, PartialEq, Eq)]
pub struct BlkidEntry {
    /// Device containing the signature.
    pub device: String,
    /// Signature type, for example `ext4`, `swap`, or `crypto_LUKS`.
    pub signature_type: Option<String>,
    /// Content UUID.
    pub uuid: Option<String>,
    /// Content label.
    pub label: Option<String>,
    /// Partition UUID known to blkid.
    pub partition_uuid: Option<String>,
}

/// One device number returned by a native topology provider.
#[derive(Debug, Clone, Copy, PartialEq, Eq, Hash, Structural)]
pub struct NativeDeviceNumber {
    /// Kernel major device number.
    pub major: u32,
    /// Kernel minor device number.
    pub minor: u32,
}

/// One active device-mapper mapping returned by libdevmapper.
#[derive(Debug, Clone, PartialEq, Eq)]
pub struct DevmapperEntry {
    /// Stable kernel mapping name.
    pub name: String,
    /// Optional device-mapper UUID.
    pub uuid: Option<String>,
    /// Kernel device number of the mapped endpoint.
    pub devno: NativeDeviceNumber,
    /// Target types found in the live mapping table.
    pub targets: Vec<String>,
    /// Kernel device numbers referenced by the mapping.
    pub dependencies: Vec<NativeDeviceNumber>,
    /// Whether the mapping is read-only.
    pub read_only: bool,
}

/// LUKS header metadata returned by libcryptsetup.
#[derive(Debug, Clone, PartialEq, Eq)]
pub struct CryptsetupEntry {
    /// Block device containing the LUKS header.
    pub device: String,
    /// Loaded cryptsetup type, normally `LUKS1` or `LUKS2`.
    pub luks_type: String,
    /// Header UUID without interpretation.
    pub uuid: Option<String>,
}

/// Loop-device metadata returned by the libblockdev loop plugin.
#[derive(Debug, Clone, PartialEq, Eq)]
pub struct LoopEntry {
    /// Loop block-device path.
    pub device: String,
    /// File backing the loop device.
    pub backing_file: String,
    /// Byte offset into the backing file.
    pub offset: u64,
    /// Whether the kernel automatically clears the loop device.
    pub autoclear: bool,
    /// Whether direct I/O is active.
    pub direct_io: bool,
    /// Whether partition scanning is enabled.
    pub part_scan: bool,
    /// Whether the loop device is read-only.
    pub read_only: bool,
}

/// Runtime swap activation returned by the libblockdev swap plugin.
#[derive(Debug, Clone, PartialEq, Eq)]
pub struct SwapEntry {
    /// Swap block-device path.
    pub device: String,
    /// Whether the swap area is active.
    pub active: bool,
}

/// Multipath member set returned by the libblockdev mpath plugin.
#[derive(Debug, Clone, PartialEq, Eq)]
pub struct MultipathEntry {
    /// Paths currently recognized as multipath members.
    pub members: Vec<String>,
}

/// MD topology returned by the libblockdev mdraid plugin.
#[derive(Debug, Clone, PartialEq, Eq)]
pub struct MdraidEntry {
    /// Active MD arrays.
    pub arrays: Vec<MdraidArrayEntry>,
    /// Block devices carrying MD member metadata.
    pub members: Vec<MdraidMemberEntry>,
}

/// One active MD array.
#[derive(Debug, Clone, PartialEq, Eq)]
pub struct MdraidArrayEntry {
    /// Array block-device path.
    pub device: String,
    /// MD personality string.
    pub level: String,
    /// Superblock metadata version.
    pub metadata: Option<String>,
    /// Array UUID.
    pub uuid: Option<String>,
    /// Array size in bytes.
    pub size: u64,
    /// Configured RAID device count.
    pub raid_devices: u64,
}

/// One block device carrying an MD member superblock.
#[derive(Debug, Clone, PartialEq, Eq)]
pub struct MdraidMemberEntry {
    /// Member block-device path.
    pub device: String,
    /// MD personality string stored in the superblock.
    pub level: Option<String>,
    /// Array UUID stored in the superblock.
    pub array_uuid: Option<String>,
    /// Per-device UUID stored in the superblock.
    pub device_uuid: Option<String>,
    /// Superblock metadata version.
    pub metadata: Option<String>,
    /// Chunk size in bytes.
    pub chunk_size: u64,
}

/// LVM topology returned by the libblockdev LVM plugin.
#[derive(Debug, Clone, PartialEq, Eq)]
pub struct LvmEntry {
    /// Physical volumes.
    pub pvs: Vec<LvmPvEntry>,
    /// Volume groups.
    pub vgs: Vec<LvmVgEntry>,
    /// Logical volumes.
    pub lvs: Vec<LvmLvEntry>,
}

/// One LVM physical volume.
#[derive(Debug, Clone, PartialEq, Eq)]
pub struct LvmPvEntry {
    /// Backing block-device path.
    pub device: String,
    /// PV UUID.
    pub uuid: String,
    /// Owning volume-group name, when assigned.
    pub vg_name: Option<String>,
    /// Owning volume-group UUID, when assigned.
    pub vg_uuid: Option<String>,
    /// PV size in bytes.
    pub size: u64,
}

/// One LVM volume group.
#[derive(Debug, Clone, PartialEq, Eq)]
pub struct LvmVgEntry {
    /// Volume-group name.
    pub name: String,
    /// VG UUID.
    pub uuid: String,
    /// VG size in bytes.
    pub size: u64,
    /// Physical extent size in bytes.
    pub extent_size: u64,
}

/// One LVM logical volume.
#[derive(Debug, Clone, PartialEq, Eq)]
pub struct LvmLvEntry {
    /// Logical-volume name.
    pub name: String,
    /// Owning volume-group name.
    pub vg_name: String,
    /// LV UUID.
    pub uuid: String,
    /// LV size in bytes.
    pub size: u64,
    /// Provider segment type.
    pub segment_type: Option<String>,
}

/// Subvolumes observed below one mounted Btrfs filesystem.
#[derive(Debug, Clone, PartialEq, Eq)]
pub struct BtrfsEntry {
    /// Mountpoint used for the read-only query.
    pub mountpoint: String,
    /// Subvolumes returned by libbtrfsutil.
    pub subvolumes: Vec<BtrfsSubvolumeEntry>,
}

/// One Btrfs subvolume returned by libbtrfsutil.
#[derive(Debug, Clone, PartialEq, Eq)]
pub struct BtrfsSubvolumeEntry {
    /// Filesystem-local subvolume ID.
    pub id: u64,
    /// Path relative to the Btrfs filesystem root.
    pub path: String,
    /// Whether the subvolume is read-only.
    pub read_only: bool,
    /// Whether this is the filesystem's default subvolume.
    pub is_default: bool,
}

/// Imported ZFS topology returned by libzfs.
#[derive(Debug, Clone, PartialEq, Eq)]
pub struct ZfsEntry {
    /// Imported storage pools.
    pub pools: Vec<String>,
    /// Filesystems and volumes visible below imported pools.
    pub datasets: Vec<ZfsDatasetEntry>,
}

/// One ZFS filesystem or volume.
#[derive(Debug, Clone, PartialEq, Eq)]
pub struct ZfsDatasetEntry {
    /// Canonical ZFS dataset name.
    pub name: String,
    /// Dataset object type.
    pub kind: ZfsDatasetKind,
}

/// ZFS object kinds represented by the canonical model.
#[derive(Debug, Clone, Copy, PartialEq, Eq, Structural)]
pub enum ZfsDatasetKind {
    /// Mountable ZFS filesystem.
    Filesystem,
    /// Block-device ZFS volume.
    Volume,
}

/// Live NVMe subsystem topology returned by libnvme.
#[derive(Debug, Clone, PartialEq, Eq)]
pub struct NvmeEntry {
    /// NVMe subsystems visible to the host.
    pub subsystems: Vec<NvmeSubsystemEntry>,
}

/// One NVMe subsystem with its controllers and namespaces.
#[derive(Debug, Clone, PartialEq, Eq)]
pub struct NvmeSubsystemEntry {
    /// Kernel subsystem name.
    pub name: String,
    /// NVMe Qualified Name.
    pub nqn: String,
    /// Controllers attached to the subsystem.
    pub controllers: Vec<NvmeControllerEntry>,
    /// Namespaces exported by the subsystem.
    pub namespaces: Vec<NvmeNamespaceEntry>,
}

/// One NVMe controller.
#[derive(Debug, Clone, PartialEq, Eq)]
pub struct NvmeControllerEntry {
    /// Kernel controller name.
    pub name: String,
    /// libnvme transport string such as `pcie` or `tcp`.
    pub transport: Option<String>,
}

/// One NVMe namespace and its active block format.
#[derive(Debug, Clone, PartialEq, Eq)]
pub struct NvmeNamespaceEntry {
    /// Kernel namespace name used below `/dev`.
    pub name: String,
    /// Non-zero namespace identifier.
    pub nsid: u32,
    /// Active logical block size in bytes.
    pub lba_size: u32,
    /// Metadata bytes stored with each logical block.
    pub metadata_size: u16,
    /// Namespace globally unique identifier, when non-zero.
    pub nguid: Option<[u8; 16]>,
    /// Namespace EUI-64 identifier, when non-zero.
    pub eui64: Option<[u8; 8]>,
    /// Namespace UUID bytes, when non-zero.
    pub uuid: Option<[u8; 16]>,
}

/// One runtime mount entry returned by the native libmount adapter.
#[derive(Debug, Clone, PartialEq, Eq)]
pub struct LibmountEntry {
    /// Mount source as exposed by libmount (lossily decoded).
    pub source: String,
    /// Mount target exactly as exposed by libmount.
    pub target: String,
    /// Kernel filesystem type.
    pub filesystem_type: String,
    /// Parsed mount options.
    pub options: Vec<String>,
}

} // verus!
