//! Graph contribution built from recorded command-line tool output
//! (`lsblk`, sysfs attributes, `findmnt`).

use vstd::prelude::*;
use vstd::string::StringExecFns;

use crate::collections::{str_eq, StrMap};
use crate::model::block::{BlockFacts, BlockGeometry, BlockSize, DeviceInfo, DeviceNumber, ExternalId};
use crate::model::graph::{Dependency, DependencyKind, NodeGraph, Relation};
use crate::model::kinds::{PartitionAttributes, PartitionTable};
use crate::model::node::{Node, NodeFacts, NodeId, NodeKind, NodeSpec, Presence};
use crate::model::nonzero::NonZeroU32;
use crate::model::sizes::Bytes;
use crate::model::state::{MountContext, MountSource, NetworkMountSource, ObservedMount};
use crate::parse::lsblk::{LsblkDevice, LsblkOutput};
use crate::parse::mounts::{FilesystemEntry, MountsOutput};
use crate::parse::sysfs::{find_device, first_named, SysfsDevice, SysfsOutput};
use crate::probe::assemble::ProviderState;
use crate::probe::ids::{content_id, content_node_id, parse_uuid, stable_id, stable_node_id, uuid_parse};
use crate::probe::linux::{
    devno_of, external_mount_source, filesystem_kind, is_external_source, is_filesystem_kind_of,
    opt_str_view, opt_string_view, parse_devno, parsed_u32, partition_number,
    partition_number_of, transport, transport_of, u32_of,
};
use crate::probe::native::{block_size_of, graph_view, is_plain_node, saturating_mul, saturating_product, set_at};
use crate::text::{split_char, split_text};

verus! {

/// Graph and known filesystem mount sources while the tree is walked.
pub type WalkState = ((Map<NodeId, Node>, Set<Dependency>, Set<Relation>), Map<Seq<char>, MountSource>);

/// Observed path of a device, else its conventional `/dev` path.
pub open spec fn device_path_of(d: LsblkDevice) -> Seq<char> {
    match d.path {
        Some(p) => p@,
        None => "/dev/"@ + d.name@,
    }
}

/// Returns the observed device path, falling back to the conventional `/dev` path.
pub fn device_path(device: &LsblkDevice) -> (r: String)
    ensures
        r@ == device_path_of(*device),
{
    match &device.path {
        Some(p) => p.clone(),
        None => {
            let mut s = String::from_str("/dev/");
            s.append(device.name.as_str());
            s
        },
    }
}

/// Whether an optional text is present and not empty.
pub open spec fn filled(o: Option<String>) -> bool {
    o is Some && o->0@.len() > 0
}

fn is_filled(o: &Option<String>) -> (r: bool)
    ensures
        r == filled(*o),
{
    match o {
        Some(s) => {
            let v = crate::text::chars_of(s.as_str());
            v.len() > 0
        },
        None => false,
    }
}

/// The strongest identity the block provider has for a device: its WWN,
/// the serial number sysfs reports, its partition UUID, else its name.
pub open spec fn identity_of(d: LsblkDevice, s: Option<SysfsDevice>) -> Seq<char> {
    if filled(d.wwn) {
        d.wwn->0@
    } else if s is Some && s->0.serial is Some {
        s->0.serial->0@
    } else if filled(d.partuuid) {
        d.partuuid->0@
    } else {
        d.name@
    }
}

/// Chooses the strongest identity available to the block provider.
pub fn block_identity<'a>(device: &'a LsblkDevice, sysfs: Option<&'a SysfsDevice>) -> (r: &'a str)
    ensures
        r@ == identity_of(
            *device,
            match sysfs {
                Some(s) => Some(*s),
                None => None,
            },
        ),
{
    if is_filled(&device.wwn) {
        return device.wwn.as_ref().unwrap().as_str();
    }
    if let Some(s) = sysfs {
        if let Some(serial) = &s.serial {
            return serial.as_str();
        }
    }
    if is_filled(&device.partuuid) {
        return device.partuuid.as_ref().unwrap().as_str();
    }
    device.name.as_str()
}

/// Read-only flag from lsblk's `ro` column, else from sysfs.
pub open spec fn read_only_of(d: LsblkDevice, s: Option<SysfsDevice>) -> Option<bool> {
    let column = match opt_string_view(d.ro) {
        Some(t) => if t == "0"@ {
            Some(false)
        } else if t == "1"@ {
            Some(true)
        } else {
            None
        },
        None => None,
    };
    match column {
        Some(b) => Some(b),
        None => match s {
            Some(x) => Some(x.read_only),
            None => None,
        },
    }
}

/// Device number from sysfs, else from lsblk's `maj:min` column, else 0:0.
pub open spec fn devno_for(d: LsblkDevice, s: Option<SysfsDevice>) -> DeviceNumber {
    match s {
        Some(x) => DeviceNumber { major: x.major, minor: x.minor },
        None => match devno_of(opt_string_view(d.maj_min)) {
            Some((major, minor)) => DeviceNumber { major, minor },
            None => DeviceNumber { major: 0, minor: 0 },
        },
    }
}

/// Physical block size from lsblk, else sysfs; none when zero or absent.
pub open spec fn physical_size_of(d: LsblkDevice, s: Option<SysfsDevice>) -> Option<BlockSize> {
    block_size_of(
        match u32_of(opt_string_view(d.phys_sectorsize)) {
            Some(v) => Some(v),
            None => match s {
                Some(x) => Some(x.physical_block_size),
                None => None,
            },
        },
    )
}

/// Identities of a block device: WWN, sysfs serial, GPT partition UUID.
pub open spec fn lsblk_identities(d: LsblkDevice, s: Option<SysfsDevice>) -> Seq<ExternalId> {
    let wwn: Seq<ExternalId> = if filled(d.wwn) {
        seq![ExternalId::Wwn(d.wwn->0)]
    } else {
        Seq::empty()
    };
    let serial: Seq<ExternalId> = match s {
        Some(x) => match x.serial {
            Some(v) => seq![ExternalId::Serial { vendor: None, value: v }],
            None => Seq::empty(),
        },
        None => Seq::empty(),
    };
    let partuuid: Seq<ExternalId> = match opt_string_view(d.partuuid) {
        Some(u) => match uuid_parse(u) {
            Some(v) => seq![ExternalId::GptPartitionUuid(v)],
            None => Seq::empty(),
        },
        None => Seq::empty(),
    };
    wwn + serial + partuuid
}

/// Runtime facts of one lsblk block endpoint.
pub open spec fn is_lsblk_facts(
    f: NodeFacts,
    d: LsblkDevice,
    s: Option<SysfsDevice>,
    path: Seq<char>,
    logical: u32,
) -> bool {
    &&& f.observed_in is None
    &&& f.presence == Presence::Present
    &&& f.identities@ == lsblk_identities(d, s)
    &&& f.block matches Some(b) && b.paths@.len() == 1 && b.paths@[0]@ == path && b.devno
        == devno_for(d, s) && b.geometry == match block_size_of(Some(logical)) {
        Some(l) => Some(
            BlockGeometry {
                logical_block_size: l,
                physical_block_size: physical_size_of(d, s),
                alignment_offset: None,
                minimum_io_size: None,
                optimal_io_size: None,
            },
        ),
        None => None,
    } && b.read_only == read_only_of(d, s)
    &&& f.device == if d.kind@ == "disk"@ {
        Some(
            DeviceInfo {
                model: match s {
                    Some(x) => x.model,
                    None => None,
                },
                vendor: None,
                transport: transport_of(d.name@),
                network_backing: None,
                rotational: match s {
                    Some(x) => Some(x.rotational),
                    None => None,
                },
                removable: match s {
                    Some(x) => Some(x.removable),
                    None => None,
                },
                zoned: None,
            },
        )
    } else {
        None
    }
}

fn clone_opt(o: &Option<String>) -> (r: Option<String>)
    ensures
        r == *o,
{
    match o {
        Some(s) => Some(s.clone()),
        None => None,
    }
}

fn opt_as_str(o: &Option<String>) -> (r: Option<&str>)
    ensures
        opt_str_view(r) == opt_string_view(*o),
{
    match o {
        Some(s) => Some(s.as_str()),
        None => None,
    }
}

/// Builds runtime facts for one block endpoint.
pub fn block_facts(
    device: &LsblkDevice,
    sysfs: Option<&SysfsDevice>,
    path: &str,
    logical_size: u32,
) -> (r: NodeFacts)
    ensures
        is_lsblk_facts(
            r,
            *device,
            match sysfs {
                Some(s) => Some(*s),
                None => None,
            },
            path@,
            logical_size,
        ),
{
    let ghost s = match sysfs {
        Some(x) => Some(*x),
        None => None,
    };
    let devno = match sysfs {
        Some(x) => DeviceNumber { major: x.major, minor: x.minor },
        None => match parse_devno(opt_as_str(&device.maj_min)) {
            Some((major, minor)) => DeviceNumber { major, minor },
            None => DeviceNumber { major: 0, minor: 0 },
        },
    };
    let physical_value = match parsed_u32(opt_as_str(&device.phys_sectorsize)) {
        Some(v) => Some(v),
        None => match sysfs {
            Some(x) => Some(x.physical_block_size),
            None => None,
        },
    };
    let physical_size = match physical_value {
        Some(v) => BlockSize::new(v),
        None => None,
    };
    let mut identities: Vec<ExternalId> = Vec::new();
    if is_filled(&device.wwn) {
        identities.push(ExternalId::Wwn(device.wwn.as_ref().unwrap().clone()));
    }
    if let Some(x) = sysfs {
        if let Some(serial) = &x.serial {
            identities.push(ExternalId::Serial { vendor: None, value: serial.clone() });
        }
    }
    if let Some(text) = &device.partuuid {
        if let Some(v) = parse_uuid(text.as_str()) {
            identities.push(ExternalId::GptPartitionUuid(v));
        }
    }
    let column = match &device.ro {
        Some(t) => if str_eq(t.as_str(), "0") {
            Some(false)
        } else if str_eq(t.as_str(), "1") {
            Some(true)
        } else {
            None
        },
        None => None,
    };
    let read_only = match column {
        Some(b) => Some(b),
        None => match sysfs {
            Some(x) => Some(x.read_only),
            None => None,
        },
    };
    let geometry = match BlockSize::new(logical_size) {
        Some(logical_block_size) => Some(
            BlockGeometry {
                logical_block_size,
                physical_block_size: physical_size,
                alignment_offset: None,
                minimum_io_size: None,
                optimal_io_size: None,
            },
        ),
        None => None,
    };
    let device_info = if str_eq(device.kind.as_str(), "disk") {
        Some(
            DeviceInfo {
                model: match sysfs {
                    Some(x) => clone_opt(&x.model),
                    None => None,
                },
                vendor: None,
                transport: transport(device.name.as_str()),
                network_backing: None,
                rotational: match sysfs {
                    Some(x) => Some(x.rotational),
                    None => None,
                },
                removable: match sysfs {
                    Some(x) => Some(x.removable),
                    None => None,
                },
                zoned: None,
            },
        )
    } else {
        None
    };
    let paths = vec![path.to_string()];
    proof {
        assert(identities@ =~= lsblk_identities(*device, s));
        BlockSize::lemma_of(logical_size);
    }
    NodeFacts {
        observed_in: None,
        presence: Presence::Present,
        identities,
        block: Some(BlockFacts { paths, devno, geometry, read_only }),
        device: device_info,
    }
}

/// Kind of content an lsblk filesystem type names, and whether it can be a
/// mount source.
pub open spec fn is_lsblk_content_kind(k: NodeKind, t: Seq<char>, d: LsblkDevice) -> bool {
    if t == "swap"@ {
        k == NodeKind::Swap
    } else if t == "LVM2_member"@ {
        k == NodeKind::LvmPv
    } else if t == "crypto_LUKS"@ || t == "linux_raid_member"@ {
        k matches NodeKind::Unknown(u) && u@ == "signature:"@ + t
    } else {
        k matches NodeKind::Filesystem { kind: fs, label: l } && is_filesystem_kind_of(fs, t) && l
            == (if filled(d.label) {
            d.label
        } else {
            None
        })
    }
}

/// Whether content of type `t` can be the source of a mount.
pub open spec fn mountable(t: Seq<char>) -> bool {
    !(t == "swap"@ || t == "LVM2_member"@ || t == "crypto_LUKS"@ || t == "linux_raid_member"@)
}

/// Content of a device with a filesystem type: its node above the block
/// node, and, for mountable content, the mount source for its path.
pub open spec fn lsblk_content_step(a: WalkState, b: WalkState, d: LsblkDevice, block: NodeId, path: Seq<char>) -> bool {
    if !filled(d.fstype) {
        b == a
    } else {
        let t = d.fstype->0@;
        let id = content_id(path);
        let n = b.0.0[id];
        &&& set_at(a.0.0, b.0.0, id)
        &&& is_lsblk_content_kind(n.kind.kind, t, d)
        &&& n.kind.size == Some(Bytes::of(d.size))
        &&& n.size.observed_in is None
        &&& n.size.presence == Presence::Present
        &&& if filled(d.uuid) {
            n.size.identities@.len() == 1 && (n.size.identities@[0] matches ExternalId::Filesystem {
                fs_type: ft,
                value: v,
            } && ft@ == t && v == d.uuid->0)
        } else {
            n.size.identities@.len() == 0
        }
        &&& n.size.block is None
        &&& n.size.device is None
        &&& b.0.1 == a.0.1.insert(Dependency { from: block, to: id, kind: DependencyKind::Backs })
        &&& b.0.2 == a.0.2
        &&& b.1 == if mountable(t) {
            a.1.insert(path, MountSource::Filesystem(id))
        } else {
            a.1
        }
    }
}

/// Adds filesystem, swap, or provider marker content above a block node.
pub fn add_content(
    device: &LsblkDevice,
    block_id: NodeId,
    path: &str,
    graph: &mut NodeGraph,
    mount_sources: &mut StrMap<MountSource>,
)
    ensures
        lsblk_content_step(
            (graph_view(*old(graph)), old(mount_sources)@),
            (graph_view(*final(graph)), final(mount_sources)@),
            *device,
            block_id,
            path@,
        ),
{
    if !is_filled(&device.fstype) {
        return ;
    }
    let fstype = device.fstype.as_ref().unwrap().as_str();
    let (kind, can_mount) = if str_eq(fstype, "swap") {
        (NodeKind::Swap, false)
    } else if str_eq(fstype, "LVM2_member") {
        (NodeKind::LvmPv, false)
    } else if str_eq(fstype, "crypto_LUKS") || str_eq(fstype, "linux_raid_member") {
        let mut u = String::from_str("signature:");
        u.append(fstype);
        (NodeKind::Unknown(u), false)
    } else {
        let label = if is_filled(&device.label) {
            clone_opt(&device.label)
        } else {
            None
        };
        (NodeKind::Filesystem { kind: filesystem_kind(fstype), label }, true)
    };
    let content = content_node_id(path);
    let mut identities: Vec<ExternalId> = Vec::new();
    if is_filled(&device.uuid) {
        identities.push(
            ExternalId::Filesystem {
                fs_type: fstype.to_string(),
                value: device.uuid.as_ref().unwrap().clone(),
            },
        );
    }
    proof {
        use_type_invariant(&*graph);
    }
    graph.insert_node(
        content,
        Node {
            kind: NodeSpec { kind, size: Some(Bytes::new(device.size)) },
            size: NodeFacts {
                observed_in: None,
                presence: Presence::Present,
                identities,
                block: None,
                device: None,
            },
        },
    );
    assert(graph.node_map() =~= old(graph).node_map().insert(content, graph.node_map()[content]));
    graph.insert_dependency(Dependency { from: block_id, to: content, kind: DependencyKind::Backs });
    if can_mount {
        mount_sources.insert(path.to_string(), MountSource::Filesystem(content));
    }
}

/// The block node of a device of the lsblk tree.
pub open spec fn node_id_of(d: LsblkDevice, s: Option<SysfsDevice>) -> NodeId {
    stable_id("block"@, identity_of(d, s))
}

/// Sysfs attributes of a device, looked up by name.
pub open spec fn sysfs_of(sysfs: Option<Seq<SysfsDevice>>, name: Seq<char>) -> Option<SysfsDevice> {
    match sysfs {
        Some(ds) => first_named(ds, name),
        None => None,
    }
}

/// Logical sector size of a device: lsblk's column, else sysfs, unless zero
/// or absent, in which case its parent's.
pub open spec fn sector_size_of(d: LsblkDevice, s: Option<SysfsDevice>, parent: u32) -> u32 {
    let c = match u32_of(opt_string_view(d.log_sectorsize)) {
        Some(v) => Some(v),
        None => match s {
            Some(x) => Some(x.logical_block_size),
            None => None,
        },
    };
    match c {
        Some(v) => if v > 0 {
            v
        } else {
            parent
        },
        None => parent,
    }
}

/// Byte offset of a device within its parent.
pub open spec fn offset_of(d: LsblkDevice, parent_sector_size: u32) -> Bytes {
    Bytes::of(
        saturating_product(
            match d.start {
                Some(v) => v,
                None => 0,
            },
            parent_sector_size as u64,
        ),
    )
}

/// Kind of a device node from its lsblk type.
pub open spec fn is_lsblk_kind(k: NodeKind, d: LsblkDevice, offset: Bytes) -> bool {
    if d.kind@ == "disk"@ {
        k == NodeKind::Disk
    } else if d.kind@ == "part"@ {
        if partition_number_of(d.name@) == 0 {
            k matches NodeKind::Unknown(u) && u@ == "partition without a number"@
        } else {
            k matches NodeKind::Partition { number: n, offset: o, role: r, attributes: at } && n.value()
                == partition_number_of(d.name@) && o == offset && r is None && at
                == PartitionAttributes { gpt: None, bootable: None }
        }
    } else if d.kind@ == "crypt"@ {
        k matches NodeKind::DmCryptMapping { name: n } && n@ == d.name@
    } else {
        k matches NodeKind::Unknown(u) && u@ == "lsblk:"@ + d.kind@
    }
}

/// Whether a disk carries a partition table: a reported table type or a
/// partition child.
pub open spec fn has_table(d: LsblkDevice) -> bool {
    d.kind@ == "disk"@ && (d.pttype is Some || exists|i: int|
        0 <= i < d.children@.len() && (#[trigger] d.children@[i]).kind@ == "part"@)
}

/// Table kind of a disk: MBR for `dos` or `mbr`, GPT otherwise.
pub open spec fn table_kind_of(d: LsblkDevice) -> PartitionTable {
    match opt_string_view(d.pttype) {
        Some(t) => if t == "dos"@ || t == "mbr"@ {
            PartitionTable::Mbr
        } else {
            PartitionTable::Gpt
        },
        None => PartitionTable::Gpt,
    }
}

/// Node that the children of a device hang from: its partition table when
/// it has one, else the device itself.
pub open spec fn children_parent_of(d: LsblkDevice, s: Option<SysfsDevice>) -> NodeId {
    if has_table(d) {
        stable_id("partition-table"@, device_path_of(d))
    } else {
        node_id_of(d, s)
    }
}

/// A device's block node, with the edge from its parent.
pub open spec fn block_node_step(
    a: WalkState,
    b: WalkState,
    d: LsblkDevice,
    parent: Option<NodeId>,
    parent_sector_size: u32,
    sysfs: Option<Seq<SysfsDevice>>,
) -> bool {
    let s = sysfs_of(sysfs, d.name@);
    let id = node_id_of(d, s);
    let offset = offset_of(d, parent_sector_size);
    &&& set_at(a.0.0, b.0.0, id)
    &&& is_lsblk_kind(b.0.0[id].kind.kind, d, offset)
    &&& b.0.0[id].kind.size == Some(Bytes::of(d.size))
    &&& is_lsblk_facts(
        b.0.0[id].size,
        d,
        s,
        device_path_of(d),
        sector_size_of(d, s, parent_sector_size),
    )
    &&& b.0.1 == match parent {
        Some(p) => a.0.1.insert(
            Dependency {
                from: p,
                to: id,
                kind: if d.kind@ == "part"@ {
                    DependencyKind::Contains { offset }
                } else {
                    DependencyKind::Backs
                },
            },
        ),
        None => a.0.1,
    }
    &&& b.0.2 == a.0.2
    &&& b.1 == a.1
}

/// A disk's partition table node backed by the disk, when it has one.
pub open spec fn table_node_step(
    a: WalkState,
    b: WalkState,
    d: LsblkDevice,
    sysfs: Option<Seq<SysfsDevice>>,
) -> bool {
    if has_table(d) {
        let id = node_id_of(d, sysfs_of(sysfs, d.name@));
        let table = stable_id("partition-table"@, device_path_of(d));
        &&& set_at(a.0.0, b.0.0, table)
        &&& b.0.0[table].kind.kind == NodeKind::PartitionTable(table_kind_of(d))
        &&& is_plain_node(b.0.0[table])
        &&& b.0.1 == a.0.1.insert(Dependency { from: id, to: table, kind: DependencyKind::Backs })
        &&& b.0.2 == a.0.2
        &&& b.1 == a.1
    } else {
        b == a
    }
}

/// A disk with a partition table gets a table node whose kind follows
/// lsblk's `pttype`: MBR when it is `dos` or `mbr`, GPT when it is anything
/// else or absent.
pub proof fn law_lsblk_table_kind(
    a: WalkState,
    b: WalkState,
    d: LsblkDevice,
    sysfs: Option<Seq<SysfsDevice>>,
)
    requires
        table_node_step(a, b, d, sysfs),
        has_table(d),
    ensures
        ({
            let table = stable_id("partition-table"@, device_path_of(d));
            let mbr = d.pttype matches Some(t) && (t@ == "dos"@ || t@ == "mbr"@);
            &&& mbr ==> b.0.0[table].kind.kind == NodeKind::PartitionTable(PartitionTable::Mbr)
            &&& !mbr ==> b.0.0[table].kind.kind == NodeKind::PartitionTable(PartitionTable::Gpt)
        }),
{
}

/// A device gets a partition table node, backed by its block node, exactly
/// when it is a disk that lsblk gives a table type or that has a child of
/// type `part`; any other device adds nothing at this step.
pub proof fn law_lsblk_table_presence(
    a: WalkState,
    b: WalkState,
    d: LsblkDevice,
    sysfs: Option<Seq<SysfsDevice>>,
)
    requires
        table_node_step(a, b, d, sysfs),
    ensures
        ({
            let table = stable_id("partition-table"@, device_path_of(d));
            let block = node_id_of(d, sysfs_of(sysfs, d.name@));
            let disk_with_table = d.kind@ == "disk"@ && (d.pttype is Some || exists|i: int|
                0 <= i < d.children@.len() && (#[trigger] d.children@[i]).kind@ == "part"@);
            &&& disk_with_table ==> b.0.0.contains_key(table) && b.0.0[table].kind.kind is PartitionTable
                && b.0.1.contains(Dependency { from: block, to: table, kind: DependencyKind::Backs })
            &&& !disk_with_table ==> b == a
        }),
{
}

/// A device's own contribution: its block node and the edge from its
/// parent, its partition table, then its content.
pub open spec fn own_step(
    a: WalkState,
    b: WalkState,
    d: LsblkDevice,
    parent: Option<NodeId>,
    parent_sector_size: u32,
    sysfs: Option<Seq<SysfsDevice>>,
) -> bool {
    exists|s1: WalkState, s2: WalkState|
        {
            &&& #[trigger] block_node_step(a, s1, d, parent, parent_sector_size, sysfs)
            &&& #[trigger] table_node_step(s1, s2, d, sysfs)
            &&& lsblk_content_step(
                s2,
                b,
                d,
                node_id_of(d, sysfs_of(sysfs, d.name@)),
                device_path_of(d),
            )
        }
}

/// A device of the tree and everything below it: its own contribution, then
/// each child, in order, below its table or itself.
pub open spec fn device_added(
    a: WalkState,
    b: WalkState,
    d: LsblkDevice,
    parent: Option<NodeId>,
    parent_sector_size: u32,
    sysfs: Option<Seq<SysfsDevice>>,
) -> bool
    decreases d,
{
    let s = sysfs_of(sysfs, d.name@);
    exists|u: Seq<WalkState>|
        {
            &&& u.len() == d.children@.len() + 1
            &&& #[trigger] own_step(a, u[0], d, parent, parent_sector_size, sysfs)
            &&& u.last() == b
            &&& forall|j: int|
                0 <= j < d.children@.len() ==> device_added(
                    u[j],
                    u[j + 1],
                    #[trigger] d.children@[j],
                    Some(children_parent_of(d, s)),
                    sector_size_of(d, s, parent_sector_size),
                    sysfs,
                )
        }
}

/// Introduces `device_added` from an explicit sequence of intermediate states.
proof fn lemma_device_added_intro(
    a: WalkState,
    b: WalkState,
    d: LsblkDevice,
    parent: Option<NodeId>,
    parent_sector_size: u32,
    sysfs: Option<Seq<SysfsDevice>>,
    u: Seq<WalkState>,
)
    requires
        u.len() == d.children@.len() + 1,
        own_step(a, u[0], d, parent, parent_sector_size, sysfs),
        u.last() == b,
        forall|j: int|
            0 <= j < d.children@.len() ==> device_added(
                u[j],
                u[j + 1],
                #[trigger] d.children@[j],
                Some(children_parent_of(d, sysfs_of(sysfs, d.name@))),
                sector_size_of(d, sysfs_of(sysfs, d.name@), parent_sector_size),
                sysfs,
            ),
    ensures
        device_added(a, b, d, parent, parent_sector_size, sysfs),
{
    reveal_with_fuel(device_added, 1);
}

/// Devices of one output of `lsblk`.
pub open spec fn sysfs_devices(sysfs: Option<&SysfsOutput>) -> Option<Seq<SysfsDevice>> {
    match sysfs {
        Some(o) => Some(o.devices@),
        None => None,
    }
}

/// Adds one lsblk device, its structural edges, and its content node, then
/// its children; returns the device's node.
pub fn add_block_device(
    device: &LsblkDevice,
    parent: Option<NodeId>,
    parent_sector_size: u32,
    sysfs: Option<&SysfsOutput>,
    graph: &mut NodeGraph,
    mount_sources: &mut StrMap<MountSource>,
) -> (r: NodeId)
    ensures
        r == node_id_of(*device, sysfs_of(sysfs_devices(sysfs), device.name@)),
        device_added(
            (graph_view(*old(graph)), old(mount_sources)@),
            (graph_view(*final(graph)), final(mount_sources)@),
            *device,
            parent,
            parent_sector_size,
            sysfs_devices(sysfs),
        ),
    decreases device,
{
    let ghost sv = sysfs_devices(sysfs);
    let ghost a: WalkState = (graph_view(*graph), mount_sources@);
    let path = device_path(device);
    let sysfs_device = match sysfs {
        Some(output) => find_device(output.devices.as_slice(), device.name.as_str()),
        None => None,
    };
    let ghost s = sysfs_of(sv, device.name@);
    assert(s == match sysfs_device {
        Some(x) => Some(*x),
        None => None::<SysfsDevice>,
    });
    let column = parsed_u32(opt_as_str(&device.log_sectorsize));
    let candidate = match column {
        Some(v) => Some(v),
        None => match sysfs_device {
            Some(x) => Some(x.logical_block_size),
            None => None,
        },
    };
    let sector_size = match candidate {
        Some(v) => if v > 0 {
            v
        } else {
            parent_sector_size
        },
        None => parent_sector_size,
    };
    let node_id = stable_node_id("block", block_identity(device, sysfs_device));
    let start = match device.start {
        Some(v) => v,
        None => 0,
    };
    let offset = Bytes::new(saturating_mul(start, parent_sector_size as u64));
    let kind = if str_eq(device.kind.as_str(), "disk") {
        NodeKind::Disk
    } else if str_eq(device.kind.as_str(), "part") {
        match NonZeroU32::new(partition_number(device.name.as_str())) {
            Some(number) => NodeKind::Partition {
                number,
                offset,
                role: None,
                attributes: PartitionAttributes::default(),
            },
            None => NodeKind::Unknown("partition without a number".to_string()),
        }
    } else if str_eq(device.kind.as_str(), "crypt") {
        NodeKind::DmCryptMapping { name: device.name.clone() }
    } else {
        let mut u = String::from_str("lsblk:");
        u.append(device.kind.as_str());
        NodeKind::Unknown(u)
    };
    let facts = block_facts(device, sysfs_device, path.as_str(), sector_size);
    proof {
        use_type_invariant(&*graph);
    }
    graph.insert_node(node_id, Node { kind: NodeSpec { kind, size: Some(Bytes::new(device.size)) }, size: facts });
    assert(graph.node_map() =~= a.0.0.insert(node_id, graph.node_map()[node_id]));
    if let Some(p) = parent {
        let dep_kind = if str_eq(device.kind.as_str(), "part") {
            DependencyKind::Contains { offset }
        } else {
            DependencyKind::Backs
        };
        graph.insert_dependency(Dependency { from: p, to: node_id, kind: dep_kind });
    }
    let ghost s1: WalkState = (graph_view(*graph), mount_sources@);
    assert(block_node_step(a, s1, *device, parent, parent_sector_size, sv));
    let mut any_part = false;
    let mut k: usize = 0;
    while k < device.children.len()
        invariant
            k <= device.children@.len(),
            any_part == exists|i: int|
                0 <= i < k && (#[trigger] device.children@[i]).kind@ == "part"@,
        decreases device.children.len() - k,
    {
        if str_eq(device.children[k].kind.as_str(), "part") {
            any_part = true;
        }
        k = k + 1;
    }
    let table = str_eq(device.kind.as_str(), "disk") && (device.pttype.is_some() || any_part);
    assert(table == has_table(*device));
    let children_parent = if table {
        let table_id = stable_node_id("partition-table", path.as_str());
        let table_kind = match &device.pttype {
            Some(t) => if str_eq(t.as_str(), "dos") || str_eq(t.as_str(), "mbr") {
                PartitionTable::Mbr
            } else {
                PartitionTable::Gpt
            },
            None => PartitionTable::Gpt,
        };
        proof {
            use_type_invariant(&*graph);
        }
        graph.insert_node(
            table_id,
            Node {
                kind: NodeSpec { kind: NodeKind::PartitionTable(table_kind), size: None },
                size: NodeFacts::with_presence(Presence::Present),
            },
        );
        assert(graph.node_map() =~= s1.0.0.insert(table_id, graph.node_map()[table_id]));
        graph.insert_dependency(Dependency { from: node_id, to: table_id, kind: DependencyKind::Backs });
        table_id
    } else {
        node_id
    };
    let ghost s2: WalkState = (graph_view(*graph), mount_sources@);
    assert(table_node_step(s1, s2, *device, sv));
    add_content(device, node_id, path.as_str(), graph, mount_sources);
    let ghost u0: WalkState = (graph_view(*graph), mount_sources@);
    assert(own_step(a, u0, *device, parent, parent_sector_size, sv));
    let ghost mut u = seq![u0];
    let mut j: usize = 0;
    while j < device.children.len()
        invariant
            j <= device.children@.len(),
            u.len() == j + 1,
            u[0] == u0,
            u.last() == (graph_view(*graph), mount_sources@),
            own_step(a, u0, *device, parent, parent_sector_size, sv),
            children_parent == children_parent_of(*device, s),
            sector_size == sector_size_of(*device, s, parent_sector_size),
            sv == sysfs_devices(sysfs),
            s == sysfs_of(sv, device.name@),
            forall|i: int|
                0 <= i < j ==> device_added(
                    u[i],
                    u[i + 1],
                    #[trigger] device.children@[i],
                    Some(children_parent),
                    sector_size,
                    sv,
                ),
        decreases device.children.len() - j,
    {
        let child = &device.children[j];
        assert(decreases_to!(*device => *child));
        add_block_device(child, Some(children_parent), sector_size, sysfs, graph, mount_sources);
        proof {
            u = u.push((graph_view(*graph), mount_sources@));
        }
        j = j + 1;
    }
    proof {
        lemma_device_added_intro(
            a,
            (graph_view(*graph), mount_sources@),
            *device,
            parent,
            parent_sector_size,
            sv,
            u,
        );
    }
    node_id
}

/// Nothing observed yet: no nodes, no edges, no mount sources.
pub open spec fn empty_walk() -> WalkState {
    (
        (Map::<NodeId, Node>::empty(), Set::<Dependency>::empty(), Set::<Relation>::empty()),
        Map::<Seq<char>, MountSource>::empty(),
    )
}

/// The walk of the lsblk forest: each top-level device, in order, added with
/// no parent below a 512-byte default sector size.
pub open spec fn is_lsblk_walk(
    t: Seq<WalkState>,
    devices: Seq<LsblkDevice>,
    sysfs: Option<Seq<SysfsDevice>>,
) -> bool {
    &&& t.len() == devices.len() + 1
    &&& t[0] == empty_walk()
    &&& forall|i: int|
        0 <= i < devices.len() ==> device_added(t[i], t[i + 1], #[trigger] devices[i], None, 512, sysfs)
}

/// The mount a findmnt entry describes: its source is the filesystem node
/// found at that path by the walk, else the typed external source.
pub open spec fn is_findmnt_mount(
    m: ObservedMount,
    e: FilesystemEntry,
    sources: Map<Seq<char>, MountSource>,
) -> bool {
    &&& if sources.contains_key(e.source@) {
        m.source == sources[e.source@]
    } else {
        is_external_source(m.source, e.source@, e.fstype@)
    }
    &&& m.target@ == e.target@
    &&& m.options@.map_values(|x: String| x@) == match e.options {
        Some(o) => split_text(o@, ','),
        None => Seq::<Seq<char>>::empty(),
    }
    &&& m.context == MountContext::Host
}

/// Entries of an optional findmnt report.
pub open spec fn findmnt_entries(mounts: Option<&MountsOutput>) -> Seq<FilesystemEntry> {
    match mounts {
        Some(o) => o.filesystems@,
        None => Seq::empty(),
    }
}

fn copy_mount_source(m: &MountSource) -> (r: MountSource)
    ensures
        r == *m,
{
    match m {
        MountSource::Filesystem(id) => MountSource::Filesystem(*id),
        MountSource::BtrfsSubvolume(id) => MountSource::BtrfsSubvolume(*id),
        MountSource::ZfsDataset(id) => MountSource::ZfsDataset(*id),
        MountSource::Bind(p) => MountSource::Bind(p.clone()),
        MountSource::Tmpfs => MountSource::Tmpfs,
        MountSource::Network(NetworkMountSource::Nfs { server, export }) => MountSource::Network(
            NetworkMountSource::Nfs { server: server.clone(), export: export.clone() },
        ),
        MountSource::Network(NetworkMountSource::Cifs { server, share }) => MountSource::Network(
            NetworkMountSource::Cifs { server: server.clone(), share: share.clone() },
        ),
        MountSource::Other(o) => MountSource::Other(o.clone()),
    }
}

/// The runtime mount of one findmnt entry.
fn findmnt_mount(entry: &FilesystemEntry, mount_sources: &StrMap<MountSource>) -> (r: ObservedMount)
    ensures
        is_findmnt_mount(r, *entry, mount_sources@),
{
    let source = match mount_sources.get(entry.source.as_str()) {
        Some(m) => copy_mount_source(m),
        None => external_mount_source(entry.source.as_str(), entry.fstype.as_str()),
    };
    let options = match &entry.options {
        Some(o) => split_char(o.as_str(), ','),
        None => {
            let v: Vec<String> = Vec::new();
            assert(v@.map_values(|x: String| x@) =~= Seq::<Seq<char>>::empty());
            v
        },
    };
    ObservedMount { source, target: entry.target.clone(), options, context: MountContext::Host }
}

/// Assembles the block provider's contribution from recorded `lsblk`,
/// sysfs, and `findmnt` output: the device forest as a graph, and each
/// mount with its source resolved to the filesystem found at its path.
pub fn assemble_linux_block_state(
    lsblk: &LsblkOutput,
    sysfs: Option<&SysfsOutput>,
    mounts: Option<&MountsOutput>,
) -> (r: ProviderState)
    ensures
        exists|t: Seq<WalkState>|
            {
                &&& is_lsblk_walk(t, lsblk.blockdevices@, sysfs_devices(sysfs))
                &&& t.last().0 == graph_view(r.graph)
                &&& r.mounts@.len() == findmnt_entries(mounts).len()
                &&& forall|i: int|
                    0 <= i < r.mounts@.len() ==> is_findmnt_mount(
                        #[trigger] r.mounts@[i],
                        findmnt_entries(mounts)[i],
                        t.last().1,
                    )
            },
        r.environment is None,
        r.diagnostics@.len() == 0,
{
    let mut graph = NodeGraph::new();
    let mut mount_sources: StrMap<MountSource> = StrMap::new();
    let ghost sv = sysfs_devices(sysfs);
    let ghost mut t: Seq<WalkState> = seq![(graph_view(graph), mount_sources@)];
    assert(t[0] == empty_walk());
    let mut i: usize = 0;
    while i < lsblk.blockdevices.len()
        invariant
            i <= lsblk.blockdevices@.len(),
            sv == sysfs_devices(sysfs),
            t.len() == i + 1,
            t[0] == empty_walk(),
            t.last() == (graph_view(graph), mount_sources@),
            forall|j: int|
                0 <= j < i ==> device_added(
                    t[j],
                    t[j + 1],
                    #[trigger] lsblk.blockdevices@[j],
                    None,
                    512,
                    sv,
                ),
        decreases lsblk.blockdevices.len() - i,
    {
        add_block_device(&lsblk.blockdevices[i], None, 512, sysfs, &mut graph, &mut mount_sources);
        proof {
            t = t.push((graph_view(graph), mount_sources@));
        }
        i = i + 1;
    }
    let mut observed: Vec<ObservedMount> = Vec::new();
    if let Some(output) = mounts {
        let mut k: usize = 0;
        while k < output.filesystems.len()
            invariant
                k <= output.filesystems@.len(),
                findmnt_entries(mounts) == output.filesystems@,
                observed@.len() == k,
                forall|j: int|
                    0 <= j < k ==> is_findmnt_mount(
                        #[trigger] observed@[j],
                        output.filesystems@[j],
                        mount_sources@,
                    ),
            decreases output.filesystems.len() - k,
        {
            observed.push(findmnt_mount(&output.filesystems[k], &mount_sources));
            k = k + 1;
        }
    }
    assert(is_lsblk_walk(t, lsblk.blockdevices@, sv));
    ProviderState { graph, mounts: observed, environment: None, diagnostics: Vec::new() }
}

} // verus!
