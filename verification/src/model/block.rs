//! Block-device observations, geometry, and stable identities.

use vstd::prelude::*;

use super::nonzero::NonZeroU32;
use super::sizes::Bytes;

verus! {

/// Runtime facts about one block endpoint.
#[derive(Debug, Clone, Default, PartialEq, Eq)]
pub struct BlockFacts {
    /// Device paths through which the endpoint is reachable.
    pub paths: Vec<String>,
    pub devno: DeviceNumber,
    pub geometry: Option<BlockGeometry>,
    pub read_only: Option<bool>,
}

/// Kernel device number.
#[derive(Debug, Clone, Copy, Default, PartialEq, Eq, Structural)]
pub struct DeviceNumber {
    pub major: u32,
    pub minor: u32,
}

/// Block sizes and I/O hints.
#[derive(Debug, Clone, Copy, PartialEq, Eq, Structural)]
pub struct BlockGeometry {
    pub logical_block_size: BlockSize,
    pub physical_block_size: Option<BlockSize>,
    pub alignment_offset: Option<Bytes>,
    pub minimum_io_size: Option<Bytes>,
    pub optimal_io_size: Option<Bytes>,
}

/// Hardware facts about a whole device.
#[derive(Debug, Clone, PartialEq, Eq)]
pub struct DeviceInfo {
    pub model: Option<String>,
    pub vendor: Option<String>,
    pub transport: Option<Transport>,
    /// Network backing detected behind an already mapped virtual block device.
    pub network_backing: Option<NetworkBacking>,
    pub rotational: Option<bool>,
    pub removable: Option<bool>,
    /// Zoned block-device model reported by sysfs or a transport provider.
    pub zoned: Option<ZonedModel>,
}

impl Default for DeviceInfo {
    /// No hardware fact known.
    fn default() -> (r: DeviceInfo)
        ensures
            r.model is None,
            r.vendor is None,
            r.transport is None,
            r.network_backing is None,
            r.rotational is None,
            r.removable is None,
            r.zoned is None,
    {
        DeviceInfo {
            model: None,
            vendor: None,
            transport: None,
            network_backing: None,
            rotational: None,
            removable: None,
            zoned: None,
        }
    }
}

/// Whether a device with the given backing and transport is network storage.
pub open spec fn network_status(
    backing: Option<NetworkBacking>,
    transport: Option<Transport>,
) -> Option<bool> {
    match (backing, transport) {
        (Some(_), _) => Some(true),
        (None, Some(t)) => Some(t.spec_is_network()),
        (None, None) => None,
    }
}

impl DeviceInfo {
    /// Reports whether the observed device is reached through a network storage transport.
    pub fn is_network(&self) -> (r: Option<bool>)
        ensures
            r == network_status(self.network_backing, self.transport),
    {
        match (self.network_backing, self.transport) {
            (Some(_), _) => Some(true),
            (None, Some(transport)) => Some(transport.is_network()),
            (None, None) => None,
        }
    }
}

/// Network protocol backing an already mapped virtual block device.
///
/// This is observation-only metadata and does not imply lifecycle support for
/// connecting, mapping, or disconnecting the protocol.
#[derive(Debug, Clone, Copy, PartialEq, Eq, Hash, Structural)]
pub enum NetworkBacking {
    /// Ceph RADOS Block Device mapping.
    Rbd,
    /// Network Block Device mapping.
    Nbd,
}

/// Zoned block-device behavior.
#[derive(Debug, Clone, Copy, PartialEq, Eq, Hash, Structural)]
pub enum ZonedModel {
    HostAware,
    HostManaged,
    /// Not a zoned device.
    Unzoned,
}

/// Storage transport of a device.
#[derive(Debug, Clone, Copy, PartialEq, Eq, Hash, Structural)]
pub enum Transport {
    Nvme,
    NvmeOf,
    Sata,
    Sas,
    Scsi,
    Usb,
    Virtio,
    Mmc,
    FibreChannel,
    Iscsi,
}

impl Transport {
    /// Remote or network-backed transports.
    pub open spec fn spec_is_network(self) -> bool {
        self == Transport::NvmeOf || self == Transport::FibreChannel || self == Transport::Iscsi
    }

    /// Reports whether this transport represents remote or network-backed storage.
    pub fn is_network(self) -> (r: bool)
        ensures
            r == self.spec_is_network(),
    {
        match self {
            Transport::NvmeOf | Transport::FibreChannel | Transport::Iscsi => true,
            _ => false,
        }
    }
}

/// Identity of a storage object assigned outside this model.
///
/// UUIDs are held as their 128-bit value.
#[derive(Debug, Clone, PartialEq, Eq)]
pub enum ExternalId {
    Wwn(String),
    Serial { vendor: Option<String>, value: String },
    GptPartitionUuid(u128),
    MbrPartitionId { disk_signature: u32, number: NonZeroU32 },
    LuksUuid(u128),
    MdUuid(String),
    LvmPvUuid(String),
    LvmVgUuid(String),
    LvmLvUuid(String),
    Filesystem { fs_type: String, value: String },
    BtrfsFsid(u128),
    BtrfsSubvolumeUuid(u128),
    ZfsGuid(u64),
    NvmeNguid([u8; 16]),
    NvmeEui64([u8; 8]),
    NvmeUuid(u128),
    Iscsi { target_iqn: String, lun: u64 },
    NvmeOf { subsystem_nqn: String, namespace: NonZeroU32 },
}

/// Non-zero block size in bytes.
#[derive(Debug, Clone, Copy, PartialEq, Eq, Structural)]
pub struct BlockSize(u32);

impl BlockSize {
    #[verifier::type_invariant]
    closed spec fn inv(self) -> bool {
        self.0 != 0
    }

    /// The size in bytes, for contracts.
    pub closed spec fn value(self) -> u32 {
        self.0
    }

    /// The block size of `bytes` bytes.
    pub closed spec fn of(bytes: u32) -> BlockSize {
        BlockSize(bytes)
    }

    /// A block size is determined by its value.
    pub proof fn lemma_of(bytes: u32)
        ensures
            BlockSize::of(bytes).value() == bytes,
            forall|b: BlockSize| b.value() == bytes ==> b == BlockSize::of(bytes),
    {
    }

    /// Creates a non-zero block size in bytes; `None` for zero.
    pub fn new(bytes: u32) -> (r: Option<BlockSize>)
        ensures
            match r {
                Some(b) => bytes != 0 && b.value() == bytes && b == BlockSize::of(bytes),
                None => bytes == 0,
            },
    {
        if bytes == 0 {
            None
        } else {
            Some(BlockSize(bytes))
        }
    }

    /// Returns the block size in bytes.
    pub fn get(&self) -> (r: u32)
        ensures
            r == self.value(),
            r != 0,
    {
        proof {
            use_type_invariant(self);
        }
        self.0
    }
}

} // verus!
