//! Structural equality of model values that hold text.
//!
//! Two values are the same when they have the same shape and their strings
//! have the same characters. The executable comparisons decide exactly that.

use vstd::prelude::*;

use super::block::{BlockFacts, DeviceInfo, ExternalId};
use super::kinds::{FilesystemKind, LvmLv, LvmLvKind, ZfsVdevKind};
use super::node::{Node, NodeFacts, NodeKind, NodeSpec};
use super::state::{
    Environment, MountContext, MountSource, NetworkMountSource, ObservedMount, SystemEnvironment,
    TargetEnvironment,
};

verus! {

/// Optional strings with the same characters.
pub open spec fn same_opt_str(a: Option<String>, b: Option<String>) -> bool {
    match (a, b) {
        (Some(x), Some(y)) => x@ == y@,
        (None, None) => true,
        _ => false,
    }
}

/// Lists of strings with the same characters, position by position.
pub open spec fn same_strs(a: Seq<String>, b: Seq<String>) -> bool {
    &&& a.len() == b.len()
    &&& forall|i: int| 0 <= i < a.len() ==> (#[trigger] a[i])@ == b[i]@
}

/// External identities that name the same object.
pub open spec fn same_external_id(a: ExternalId, b: ExternalId) -> bool {
    match (a, b) {
        (ExternalId::Wwn(x), ExternalId::Wwn(y)) => x@ == y@,
        (
            ExternalId::Serial { vendor: v1, value: x },
            ExternalId::Serial { vendor: v2, value: y },
        ) => same_opt_str(v1, v2) && x@ == y@,
        (ExternalId::GptPartitionUuid(x), ExternalId::GptPartitionUuid(y)) => x == y,
        (
            ExternalId::MbrPartitionId { disk_signature: s1, number: n1 },
            ExternalId::MbrPartitionId { disk_signature: s2, number: n2 },
        ) => s1 == s2 && n1 == n2,
        (ExternalId::LuksUuid(x), ExternalId::LuksUuid(y)) => x == y,
        (ExternalId::MdUuid(x), ExternalId::MdUuid(y)) => x@ == y@,
        (ExternalId::LvmPvUuid(x), ExternalId::LvmPvUuid(y)) => x@ == y@,
        (ExternalId::LvmVgUuid(x), ExternalId::LvmVgUuid(y)) => x@ == y@,
        (ExternalId::LvmLvUuid(x), ExternalId::LvmLvUuid(y)) => x@ == y@,
        (
            ExternalId::Filesystem { fs_type: t1, value: x },
            ExternalId::Filesystem { fs_type: t2, value: y },
        ) => t1@ == t2@ && x@ == y@,
        (ExternalId::BtrfsFsid(x), ExternalId::BtrfsFsid(y)) => x == y,
        (ExternalId::BtrfsSubvolumeUuid(x), ExternalId::BtrfsSubvolumeUuid(y)) => x == y,
        (ExternalId::ZfsGuid(x), ExternalId::ZfsGuid(y)) => x == y,
        (ExternalId::NvmeNguid(x), ExternalId::NvmeNguid(y)) => x@ == y@,
        (ExternalId::NvmeEui64(x), ExternalId::NvmeEui64(y)) => x@ == y@,
        (ExternalId::NvmeUuid(x), ExternalId::NvmeUuid(y)) => x == y,
        (
            ExternalId::Iscsi { target_iqn: q1, lun: l1 },
            ExternalId::Iscsi { target_iqn: q2, lun: l2 },
        ) => q1@ == q2@ && l1 == l2,
        (
            ExternalId::NvmeOf { subsystem_nqn: q1, namespace: n1 },
            ExternalId::NvmeOf { subsystem_nqn: q2, namespace: n2 },
        ) => q1@ == q2@ && n1 == n2,
        _ => false,
    }
}

/// Lists of identities that are the same position by position.
pub open spec fn same_ids(a: Seq<ExternalId>, b: Seq<ExternalId>) -> bool {
    &&& a.len() == b.len()
    &&& forall|i: int| 0 <= i < a.len() ==> same_external_id(#[trigger] a[i], b[i])
}

/// `id` is the same as one of `ids`.
pub open spec fn has_id(ids: Seq<ExternalId>, id: ExternalId) -> bool {
    exists|i: int| 0 <= i < ids.len() && same_external_id(#[trigger] ids[i], id)
}

pub open spec fn same_block_facts(a: BlockFacts, b: BlockFacts) -> bool {
    &&& same_strs(a.paths@, b.paths@)
    &&& a.devno == b.devno
    &&& a.geometry == b.geometry
    &&& a.read_only == b.read_only
}

pub open spec fn same_device_info(a: DeviceInfo, b: DeviceInfo) -> bool {
    &&& same_opt_str(a.model, b.model)
    &&& same_opt_str(a.vendor, b.vendor)
    &&& a.transport == b.transport
    &&& a.network_backing == b.network_backing
    &&& a.rotational == b.rotational
    &&& a.removable == b.removable
    &&& a.zoned == b.zoned
}

pub open spec fn same_facts(a: NodeFacts, b: NodeFacts) -> bool {
    &&& a.observed_in == b.observed_in
    &&& a.presence == b.presence
    &&& same_ids(a.identities@, b.identities@)
    &&& match (a.block, b.block) {
        (Some(x), Some(y)) => same_block_facts(x, y),
        (None, None) => true,
        _ => false,
    }
    &&& match (a.device, b.device) {
        (Some(x), Some(y)) => same_device_info(x, y),
        (None, None) => true,
        _ => false,
    }
}

pub open spec fn same_fs_kind(a: FilesystemKind, b: FilesystemKind) -> bool {
    match (a, b) {
        (FilesystemKind::Other(x), FilesystemKind::Other(y)) => x@ == y@,
        (FilesystemKind::Other(_), _) => false,
        (_, FilesystemKind::Other(_)) => false,
        _ => a == b,
    }
}

pub open spec fn same_lv_kind(a: LvmLvKind, b: LvmLvKind) -> bool {
    match (a, b) {
        (LvmLvKind::Other(x), LvmLvKind::Other(y)) => x@ == y@,
        (LvmLvKind::Other(_), _) => false,
        (_, LvmLvKind::Other(_)) => false,
        _ => a == b,
    }
}

pub open spec fn same_vdev_kind(a: ZfsVdevKind, b: ZfsVdevKind) -> bool {
    match (a, b) {
        (ZfsVdevKind::Other(x), ZfsVdevKind::Other(y)) => x@ == y@,
        (ZfsVdevKind::Other(_), _) => false,
        (_, ZfsVdevKind::Other(_)) => false,
        _ => a == b,
    }
}

pub open spec fn same_lv(a: LvmLv, b: LvmLv) -> bool {
    a.name@ == b.name@ && same_lv_kind(a.kind, b.kind)
}

pub open spec fn same_node_kind(a: NodeKind, b: NodeKind) -> bool {
    match (a, b) {
        (NodeKind::Disk, NodeKind::Disk) => true,
        (NodeKind::NvmeSubsystem { nqn: x }, NodeKind::NvmeSubsystem { nqn: y }) => x@ == y@,
        (NodeKind::NvmeController, NodeKind::NvmeController) => true,
        (NodeKind::NvmeNamespace(x), NodeKind::NvmeNamespace(y)) => x == y,
        (NodeKind::Loop { backing_file: x }, NodeKind::Loop { backing_file: y }) => same_opt_str(
            x,
            y,
        ),
        (NodeKind::Zram, NodeKind::Zram) => true,
        (NodeKind::DmMultipath, NodeKind::DmMultipath) => true,
        (NodeKind::PartitionTable(x), NodeKind::PartitionTable(y)) => x == y,
        (
            NodeKind::Partition { number: n1, offset: o1, role: r1, attributes: a1 },
            NodeKind::Partition { number: n2, offset: o2, role: r2, attributes: a2 },
        ) => n1 == n2 && o1 == o2 && r1 == r2 && a1 == a2,
        (NodeKind::LuksContainer { version: x }, NodeKind::LuksContainer { version: y }) => x
            == y,
        (NodeKind::DmCryptMapping { name: x }, NodeKind::DmCryptMapping { name: y }) => x@ == y@,
        (NodeKind::DmIntegrity { name: x }, NodeKind::DmIntegrity { name: y }) => x@ == y@,
        (NodeKind::DmVerity { name: x }, NodeKind::DmVerity { name: y }) => x@ == y@,
        (NodeKind::MdArray(x), NodeKind::MdArray(y)) => x == y,
        (NodeKind::LvmPv, NodeKind::LvmPv) => true,
        (
            NodeKind::LvmVg { name: x, extent_size: e1 },
            NodeKind::LvmVg { name: y, extent_size: e2 },
        ) => x@ == y@ && e1 == e2,
        (NodeKind::LvmLv(x), NodeKind::LvmLv(y)) => same_lv(x, y),
        (NodeKind::Bcache { name: x, mode: m1 }, NodeKind::Bcache { name: y, mode: m2 }) => x@
            == y@ && m1 == m2,
        (NodeKind::DmCache { name: x, mode: m1 }, NodeKind::DmCache { name: y, mode: m2 }) => x@
            == y@ && m1 == m2,
        (NodeKind::DmWritecache { name: x }, NodeKind::DmWritecache { name: y }) => x@ == y@,
        (
            NodeKind::Filesystem { kind: k1, label: l1 },
            NodeKind::Filesystem { kind: k2, label: l2 },
        ) => same_fs_kind(k1, k2) && same_opt_str(l1, l2),
        (NodeKind::Swap, NodeKind::Swap) => true,
        (
            NodeKind::BtrfsSubvolume { name: x, read_only: r1, is_default: d1 },
            NodeKind::BtrfsSubvolume { name: y, read_only: r2, is_default: d2 },
        ) => x@ == y@ && r1 == r2 && d1 == d2,
        (NodeKind::ZfsPool { name: x }, NodeKind::ZfsPool { name: y }) => x@ == y@,
        (NodeKind::ZfsVdev(x), NodeKind::ZfsVdev(y)) => same_vdev_kind(x, y),
        (NodeKind::ZfsDataset { name: x }, NodeKind::ZfsDataset { name: y }) => x@ == y@,
        (NodeKind::ZfsVolume { name: x }, NodeKind::ZfsVolume { name: y }) => x@ == y@,
        (NodeKind::Drbd { name: x }, NodeKind::Drbd { name: y }) => x@ == y@,
        (NodeKind::Unknown(x), NodeKind::Unknown(y)) => x@ == y@,
        _ => false,
    }
}

pub open spec fn same_node_spec(a: NodeSpec, b: NodeSpec) -> bool {
    same_node_kind(a.kind, b.kind) && a.size == b.size
}

/// Nodes that describe the same storage object in the same way.
pub open spec fn same_node(a: Node, b: Node) -> bool {
    same_node_spec(a.kind, b.kind) && same_facts(a.size, b.size)
}

pub open spec fn same_mount_source(a: MountSource, b: MountSource) -> bool {
    match (a, b) {
        (MountSource::Filesystem(x), MountSource::Filesystem(y)) => x == y,
        (MountSource::BtrfsSubvolume(x), MountSource::BtrfsSubvolume(y)) => x == y,
        (MountSource::ZfsDataset(x), MountSource::ZfsDataset(y)) => x == y,
        (MountSource::Bind(x), MountSource::Bind(y)) => x@ == y@,
        (MountSource::Tmpfs, MountSource::Tmpfs) => true,
        (
            MountSource::Network(NetworkMountSource::Nfs { server: s1, export: e1 }),
            MountSource::Network(NetworkMountSource::Nfs { server: s2, export: e2 }),
        ) => s1@ == s2@ && e1@ == e2@,
        (
            MountSource::Network(NetworkMountSource::Cifs { server: s1, share: e1 }),
            MountSource::Network(NetworkMountSource::Cifs { server: s2, share: e2 }),
        ) => s1@ == s2@ && e1@ == e2@,
        (MountSource::Other(x), MountSource::Other(y)) => x@ == y@,
        _ => false,
    }
}

pub open spec fn same_context(a: MountContext, b: MountContext) -> bool {
    match (a, b) {
        (MountContext::Host, MountContext::Host) => true,
        (MountContext::TargetRoot(x), MountContext::TargetRoot(y)) => x@ == y@,
        (MountContext::Namespace(x), MountContext::Namespace(y)) => x@ == y@,
        _ => false,
    }
}

/// Mount observations of the same source on the same target.
pub open spec fn same_mount(a: ObservedMount, b: ObservedMount) -> bool {
    &&& same_mount_source(a.source, b.source)
    &&& a.target@ == b.target@
    &&& same_strs(a.options@, b.options@)
    &&& same_context(a.context, b.context)
}

/// `m` is the same as one of `ms`.
pub open spec fn has_mount(ms: Seq<ObservedMount>, m: ObservedMount) -> bool {
    exists|i: int| 0 <= i < ms.len() && same_mount(#[trigger] ms[i], m)
}

pub open spec fn same_system_env(a: SystemEnvironment, b: SystemEnvironment) -> bool {
    &&& same_opt_str(a.os_release, b.os_release)
    &&& same_opt_str(a.architecture, b.architecture)
    &&& same_opt_str(a.kernel_release, b.kernel_release)
    &&& same_strs(a.tools@, b.tools@)
    &&& same_strs(a.kernel_modules@, b.kernel_modules@)
}

pub open spec fn same_environment(a: Environment, b: Environment) -> bool {
    &&& same_system_env(a.host, b.host)
    &&& match (a.target, b.target) {
        (Some(x), Some(y)) => x.root@ == y.root@ && same_system_env(x.system, y.system),
        (None, None) => true,
        _ => false,
    }
}

pub fn opt_str_eq(a: &Option<String>, b: &Option<String>) -> (r: bool)
    ensures
        r == same_opt_str(*a, *b),
{
    match (a, b) {
        (Some(x), Some(y)) => *x == *y,
        (None, None) => true,
        _ => false,
    }
}

pub fn strs_eq(a: &Vec<String>, b: &Vec<String>) -> (r: bool)
    ensures
        r == same_strs(a@, b@),
{
    if a.len() != b.len() {
        return false;
    }
    let mut i: usize = 0;
    while i < a.len()
        invariant
            i <= a@.len(),
            a@.len() == b@.len(),
            forall|j: int| 0 <= j < i ==> (#[trigger] a@[j])@ == b@[j]@,
        decreases a.len() - i,
    {
        if a[i] != b[i] {
            return false;
        }
        i = i + 1;
    }
    true
}

fn bytes_eq(a: &[u8], b: &[u8]) -> (r: bool)
    ensures
        r == (a@ == b@),
{
    if a.len() != b.len() {
        return false;
    }
    let mut i: usize = 0;
    while i < a.len()
        invariant
            i <= a@.len(),
            a@.len() == b@.len(),
            forall|j: int| 0 <= j < i ==> a@[j] == b@[j],
        decreases a.len() - i,
    {
        if a[i] != b[i] {
            return false;
        }
        i = i + 1;
    }
    assert(a@ =~= b@);
    true
}

pub fn external_id_eq(a: &ExternalId, b: &ExternalId) -> (r: bool)
    ensures
        r == same_external_id(*a, *b),
{
    match (a, b) {
        (ExternalId::Wwn(x), ExternalId::Wwn(y)) => *x == *y,
        (
            ExternalId::Serial { vendor: v1, value: x },
            ExternalId::Serial { vendor: v2, value: y },
        ) => opt_str_eq(v1, v2) && *x == *y,
        (ExternalId::GptPartitionUuid(x), ExternalId::GptPartitionUuid(y)) => *x == *y,
        (
            ExternalId::MbrPartitionId { disk_signature: s1, number: n1 },
            ExternalId::MbrPartitionId { disk_signature: s2, number: n2 },
        ) => *s1 == *s2 && *n1 == *n2,
        (ExternalId::LuksUuid(x), ExternalId::LuksUuid(y)) => *x == *y,
        (ExternalId::MdUuid(x), ExternalId::MdUuid(y)) => *x == *y,
        (ExternalId::LvmPvUuid(x), ExternalId::LvmPvUuid(y)) => *x == *y,
        (ExternalId::LvmVgUuid(x), ExternalId::LvmVgUuid(y)) => *x == *y,
        (ExternalId::LvmLvUuid(x), ExternalId::LvmLvUuid(y)) => *x == *y,
        (
            ExternalId::Filesystem { fs_type: t1, value: x },
            ExternalId::Filesystem { fs_type: t2, value: y },
        ) => *t1 == *t2 && *x == *y,
        (ExternalId::BtrfsFsid(x), ExternalId::BtrfsFsid(y)) => *x == *y,
        (ExternalId::BtrfsSubvolumeUuid(x), ExternalId::BtrfsSubvolumeUuid(y)) => *x == *y,
        (ExternalId::ZfsGuid(x), ExternalId::ZfsGuid(y)) => *x == *y,
        (ExternalId::NvmeNguid(x), ExternalId::NvmeNguid(y)) => bytes_eq(x, y),
        (ExternalId::NvmeEui64(x), ExternalId::NvmeEui64(y)) => bytes_eq(x, y),
        (ExternalId::NvmeUuid(x), ExternalId::NvmeUuid(y)) => *x == *y,
        (
            ExternalId::Iscsi { target_iqn: q1, lun: l1 },
            ExternalId::Iscsi { target_iqn: q2, lun: l2 },
        ) => *q1 == *q2 && *l1 == *l2,
        (
            ExternalId::NvmeOf { subsystem_nqn: q1, namespace: n1 },
            ExternalId::NvmeOf { subsystem_nqn: q2, namespace: n2 },
        ) => *q1 == *q2 && *n1 == *n2,
        _ => false,
    }
}

/// Whether `id` is the same as one of `ids`.
pub fn contains_id(ids: &Vec<ExternalId>, id: &ExternalId) -> (r: bool)
    ensures
        r == has_id(ids@, *id),
{
    let mut i: usize = 0;
    while i < ids.len()
        invariant
            i <= ids@.len(),
            forall|j: int| 0 <= j < i ==> !same_external_id(#[trigger] ids@[j], *id),
        decreases ids.len() - i,
    {
        if external_id_eq(&ids[i], id) {
            return true;
        }
        i = i + 1;
    }
    false
}

pub fn ids_eq(a: &Vec<ExternalId>, b: &Vec<ExternalId>) -> (r: bool)
    ensures
        r == same_ids(a@, b@),
{
    if a.len() != b.len() {
        return false;
    }
    let mut i: usize = 0;
    while i < a.len()
        invariant
            i <= a@.len(),
            a@.len() == b@.len(),
            forall|j: int| 0 <= j < i ==> same_external_id(#[trigger] a@[j], b@[j]),
        decreases a.len() - i,
    {
        if !external_id_eq(&a[i], &b[i]) {
            return false;
        }
        i = i + 1;
    }
    true
}

pub fn block_facts_eq(a: &BlockFacts, b: &BlockFacts) -> (r: bool)
    ensures
        r == same_block_facts(*a, *b),
{
    strs_eq(&a.paths, &b.paths) && a.devno == b.devno && a.geometry == b.geometry && a.read_only
        == b.read_only
}

pub fn device_info_eq(a: &DeviceInfo, b: &DeviceInfo) -> (r: bool)
    ensures
        r == same_device_info(*a, *b),
{
    opt_str_eq(&a.model, &b.model) && opt_str_eq(&a.vendor, &b.vendor) && a.transport
        == b.transport && a.network_backing == b.network_backing && a.rotational == b.rotational
        && a.removable == b.removable && a.zoned == b.zoned
}

pub fn facts_eq(a: &NodeFacts, b: &NodeFacts) -> (r: bool)
    ensures
        r == same_facts(*a, *b),
{
    let block = match (&a.block, &b.block) {
        (Some(x), Some(y)) => block_facts_eq(x, y),
        (None, None) => true,
        _ => false,
    };
    let device = match (&a.device, &b.device) {
        (Some(x), Some(y)) => device_info_eq(x, y),
        (None, None) => true,
        _ => false,
    };
    a.observed_in == b.observed_in && a.presence == b.presence && ids_eq(
        &a.identities,
        &b.identities,
    ) && block && device
}

pub fn fs_kind_eq(a: &FilesystemKind, b: &FilesystemKind) -> (r: bool)
    ensures
        r == same_fs_kind(*a, *b),
{
    match (a, b) {
        (FilesystemKind::Other(x), FilesystemKind::Other(y)) => *x == *y,
        (FilesystemKind::Other(_), _) => false,
        (_, FilesystemKind::Other(_)) => false,
        (FilesystemKind::Btrfs(x), FilesystemKind::Btrfs(y)) => *x == *y,
        (FilesystemKind::Ext2, FilesystemKind::Ext2) => true,
        (FilesystemKind::Ext3, FilesystemKind::Ext3) => true,
        (FilesystemKind::Ext4, FilesystemKind::Ext4) => true,
        (FilesystemKind::Xfs, FilesystemKind::Xfs) => true,
        (FilesystemKind::Jfs, FilesystemKind::Jfs) => true,
        (FilesystemKind::Reiserfs, FilesystemKind::Reiserfs) => true,
        (FilesystemKind::Vfat, FilesystemKind::Vfat) => true,
        (FilesystemKind::Ntfs, FilesystemKind::Ntfs) => true,
        (FilesystemKind::Exfat, FilesystemKind::Exfat) => true,
        (FilesystemKind::F2fs, FilesystemKind::F2fs) => true,
        (FilesystemKind::Ocfs2, FilesystemKind::Ocfs2) => true,
        (FilesystemKind::Gfs2, FilesystemKind::Gfs2) => true,
        (FilesystemKind::Apfs, FilesystemKind::Apfs) => true,
        _ => false,
    }
}

pub fn lv_kind_eq(a: &LvmLvKind, b: &LvmLvKind) -> (r: bool)
    ensures
        r == same_lv_kind(*a, *b),
{
    match (a, b) {
        (LvmLvKind::Other(x), LvmLvKind::Other(y)) => *x == *y,
        (LvmLvKind::Other(_), _) => false,
        (_, LvmLvKind::Other(_)) => false,
        (LvmLvKind::Linear, LvmLvKind::Linear) => true,
        (LvmLvKind::Striped { stripes: x }, LvmLvKind::Striped { stripes: y }) => *x == *y,
        (LvmLvKind::Raid(x), LvmLvKind::Raid(y)) => *x == *y,
        (LvmLvKind::Mirror { copies: x }, LvmLvKind::Mirror { copies: y }) => *x == *y,
        (LvmLvKind::ThinPool, LvmLvKind::ThinPool) => true,
        (LvmLvKind::Thin, LvmLvKind::Thin) => true,
        (LvmLvKind::Snapshot, LvmLvKind::Snapshot) => true,
        (LvmLvKind::CachePool, LvmLvKind::CachePool) => true,
        (LvmLvKind::Cache, LvmLvKind::Cache) => true,
        (LvmLvKind::WriteCache, LvmLvKind::WriteCache) => true,
        _ => false,
    }
}

pub fn vdev_kind_eq(a: &ZfsVdevKind, b: &ZfsVdevKind) -> (r: bool)
    ensures
        r == same_vdev_kind(*a, *b),
{
    match (a, b) {
        (ZfsVdevKind::Other(x), ZfsVdevKind::Other(y)) => *x == *y,
        (ZfsVdevKind::Other(_), _) => false,
        (_, ZfsVdevKind::Other(_)) => false,
        (ZfsVdevKind::Leaf, ZfsVdevKind::Leaf) => true,
        (ZfsVdevKind::Mirror, ZfsVdevKind::Mirror) => true,
        (ZfsVdevKind::RaidZ { parity: x }, ZfsVdevKind::RaidZ { parity: y }) => *x == *y,
        (
            ZfsVdevKind::DRaid { parity: p1, data_width: w1, distributed_spares: s1 },
            ZfsVdevKind::DRaid { parity: p2, data_width: w2, distributed_spares: s2 },
        ) => *p1 == *p2 && *w1 == *w2 && *s1 == *s2,
        _ => false,
    }
}

pub fn node_kind_eq(a: &NodeKind, b: &NodeKind) -> (r: bool)
    ensures
        r == same_node_kind(*a, *b),
{
    match (a, b) {
        (NodeKind::Disk, NodeKind::Disk) => true,
        (NodeKind::NvmeSubsystem { nqn: x }, NodeKind::NvmeSubsystem { nqn: y }) => *x == *y,
        (NodeKind::NvmeController, NodeKind::NvmeController) => true,
        (NodeKind::NvmeNamespace(x), NodeKind::NvmeNamespace(y)) => *x == *y,
        (NodeKind::Loop { backing_file: x }, NodeKind::Loop { backing_file: y }) => opt_str_eq(
            x,
            y,
        ),
        (NodeKind::Zram, NodeKind::Zram) => true,
        (NodeKind::DmMultipath, NodeKind::DmMultipath) => true,
        (NodeKind::PartitionTable(x), NodeKind::PartitionTable(y)) => *x == *y,
        (
            NodeKind::Partition { number: n1, offset: o1, role: r1, attributes: a1 },
            NodeKind::Partition { number: n2, offset: o2, role: r2, attributes: a2 },
        ) => *n1 == *n2 && *o1 == *o2 && *r1 == *r2 && *a1 == *a2,
        (NodeKind::LuksContainer { version: x }, NodeKind::LuksContainer { version: y }) => *x
            == *y,
        (NodeKind::DmCryptMapping { name: x }, NodeKind::DmCryptMapping { name: y }) => *x == *y,
        (NodeKind::DmIntegrity { name: x }, NodeKind::DmIntegrity { name: y }) => *x == *y,
        (NodeKind::DmVerity { name: x }, NodeKind::DmVerity { name: y }) => *x == *y,
        (NodeKind::MdArray(x), NodeKind::MdArray(y)) => *x == *y,
        (NodeKind::LvmPv, NodeKind::LvmPv) => true,
        (
            NodeKind::LvmVg { name: x, extent_size: e1 },
            NodeKind::LvmVg { name: y, extent_size: e2 },
        ) => *x == *y && *e1 == *e2,
        (NodeKind::LvmLv(x), NodeKind::LvmLv(y)) => x.name == y.name && lv_kind_eq(
            &x.kind,
            &y.kind,
        ),
        (NodeKind::Bcache { name: x, mode: m1 }, NodeKind::Bcache { name: y, mode: m2 }) => *x
            == *y && *m1 == *m2,
        (NodeKind::DmCache { name: x, mode: m1 }, NodeKind::DmCache { name: y, mode: m2 }) => *x
            == *y && *m1 == *m2,
        (NodeKind::DmWritecache { name: x }, NodeKind::DmWritecache { name: y }) => *x == *y,
        (
            NodeKind::Filesystem { kind: k1, label: l1 },
            NodeKind::Filesystem { kind: k2, label: l2 },
        ) => fs_kind_eq(k1, k2) && opt_str_eq(l1, l2),
        (NodeKind::Swap, NodeKind::Swap) => true,
        (
            NodeKind::BtrfsSubvolume { name: x, read_only: r1, is_default: d1 },
            NodeKind::BtrfsSubvolume { name: y, read_only: r2, is_default: d2 },
        ) => *x == *y && *r1 == *r2 && *d1 == *d2,
        (NodeKind::ZfsPool { name: x }, NodeKind::ZfsPool { name: y }) => *x == *y,
        (NodeKind::ZfsVdev(x), NodeKind::ZfsVdev(y)) => vdev_kind_eq(x, y),
        (NodeKind::ZfsDataset { name: x }, NodeKind::ZfsDataset { name: y }) => *x == *y,
        (NodeKind::ZfsVolume { name: x }, NodeKind::ZfsVolume { name: y }) => *x == *y,
        (NodeKind::Drbd { name: x }, NodeKind::Drbd { name: y }) => *x == *y,
        (NodeKind::Unknown(x), NodeKind::Unknown(y)) => *x == *y,
        _ => false,
    }
}

/// Whether two nodes describe the same storage object in the same way.
pub fn node_eq(a: &Node, b: &Node) -> (r: bool)
    ensures
        r == same_node(*a, *b),
{
    node_kind_eq(&a.kind.kind, &b.kind.kind) && a.kind.size == b.kind.size && facts_eq(
        &a.size,
        &b.size,
    )
}

pub fn mount_source_eq(a: &MountSource, b: &MountSource) -> (r: bool)
    ensures
        r == same_mount_source(*a, *b),
{
    match (a, b) {
        (MountSource::Filesystem(x), MountSource::Filesystem(y)) => *x == *y,
        (MountSource::BtrfsSubvolume(x), MountSource::BtrfsSubvolume(y)) => *x == *y,
        (MountSource::ZfsDataset(x), MountSource::ZfsDataset(y)) => *x == *y,
        (MountSource::Bind(x), MountSource::Bind(y)) => *x == *y,
        (MountSource::Tmpfs, MountSource::Tmpfs) => true,
        (
            MountSource::Network(NetworkMountSource::Nfs { server: s1, export: e1 }),
            MountSource::Network(NetworkMountSource::Nfs { server: s2, export: e2 }),
        ) => *s1 == *s2 && *e1 == *e2,
        (
            MountSource::Network(NetworkMountSource::Cifs { server: s1, share: e1 }),
            MountSource::Network(NetworkMountSource::Cifs { server: s2, share: e2 }),
        ) => *s1 == *s2 && *e1 == *e2,
        (MountSource::Other(x), MountSource::Other(y)) => *x == *y,
        _ => false,
    }
}

pub fn context_eq(a: &MountContext, b: &MountContext) -> (r: bool)
    ensures
        r == same_context(*a, *b),
{
    match (a, b) {
        (MountContext::Host, MountContext::Host) => true,
        (MountContext::TargetRoot(x), MountContext::TargetRoot(y)) => *x == *y,
        (MountContext::Namespace(x), MountContext::Namespace(y)) => *x == *y,
        _ => false,
    }
}

pub fn mount_eq(a: &ObservedMount, b: &ObservedMount) -> (r: bool)
    ensures
        r == same_mount(*a, *b),
{
    mount_source_eq(&a.source, &b.source) && a.target == b.target && strs_eq(
        &a.options,
        &b.options,
    ) && context_eq(&a.context, &b.context)
}

/// Whether `m` is the same as one of `ms`.
pub fn contains_mount(ms: &Vec<ObservedMount>, m: &ObservedMount) -> (r: bool)
    ensures
        r == has_mount(ms@, *m),
{
    let mut i: usize = 0;
    while i < ms.len()
        invariant
            i <= ms@.len(),
            forall|j: int| 0 <= j < i ==> !same_mount(#[trigger] ms@[j], *m),
        decreases ms.len() - i,
    {
        if mount_eq(&ms[i], m) {
            return true;
        }
        i = i + 1;
    }
    false
}

pub fn system_env_eq(a: &SystemEnvironment, b: &SystemEnvironment) -> (r: bool)
    ensures
        r == same_system_env(*a, *b),
{
    opt_str_eq(&a.os_release, &b.os_release) && opt_str_eq(&a.architecture, &b.architecture)
        && opt_str_eq(&a.kernel_release, &b.kernel_release) && strs_eq(&a.tools, &b.tools)
        && strs_eq(&a.kernel_modules, &b.kernel_modules)
}

pub fn environment_eq(a: &Environment, b: &Environment) -> (r: bool)
    ensures
        r == same_environment(*a, *b),
{
    let target = match (&a.target, &b.target) {
        (Some(x), Some(y)) => x.root == y.root && system_env_eq(&x.system, &y.system),
        (None, None) => true,
        _ => false,
    };
    system_env_eq(&a.host, &b.host) && target
}

} // verus!
