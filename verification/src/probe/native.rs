//! Graph contributions built from native library observations.
//!
//! Each enrichment applies its entries to the graph one after another. Its
//! contract names the step that one entry takes, and states that the graph
//! went from its old value to its new one through exactly those steps.

use vstd::prelude::*;
use vstd::string::StringExecFns;

use crate::collections::str_eq;
use crate::model::graph::{Dependency, DependencyKind, NodeGraph, Relation, RelationKind};
use crate::model::node::{Node, NodeFacts, NodeId, NodeKind, NodeSpec, Presence};
use crate::probe::ids::{stable_id, stable_node_id};
use crate::model::block::{BlockFacts, ExternalId};
use crate::model::kinds::LuksVersion;
use crate::model::state::{Diagnostic, DiagnosticSeverity, DiagnosticSubject};
use crate::probe::assemble::{diagnostic_is, ProviderState};
use crate::probe::ids::{block_id, block_node_id, content_id, content_node_id, parse_uuid, uuid_parse};
use crate::probe::linux::{
    devmapper_kind, has_target, is_devmapper_kind, opt_string_view, targets_include,
};
use crate::model::block::{BlockSize, DeviceInfo, DeviceNumber, Transport};
use crate::model::equality::{contains_id, has_id, same_external_id};
use crate::model::kinds::{NvmeLbaFormat, NvmeNamespace, NvmeNamespaceId};
use crate::model::state::{MountSource, ObservedMount};
use crate::probe::ids::uuid_hyphenated;
use crate::probe::linux::{
    is_lv_kind_of, is_md_kind, lvm_lv_kind, mdraid_kind, normalized_native_uuid, normalized_uuid,
};
use crate::probe::linux::{is_nvme_identities, nvme_identities};
use crate::model::graph::{MdMember, MdMemberRole, MemberRole};
use crate::model::kinds::LvmLv;
use crate::model::sizes::Bytes;
use crate::provider::entries::{
    LvmEntry, LvmLvEntry, LvmPvEntry, LvmVgEntry, MdraidArrayEntry, MdraidEntry, MdraidMemberEntry,
};
use crate::text::has_suffix;
use crate::model::block::BlockGeometry;
use crate::model::kinds::{PartitionAttributes, PartitionTable};
use crate::model::nonzero::NonZeroU32;
use crate::probe::linux::{
    filesystem_kind, is_disk, is_endpoint_kind, is_filesystem_kind_of, native_endpoint_kind,
    native_partition_table, partition_path, partition_path_of, partition_table_named,
    transport, transport_of,
};
use crate::provider::entries::{BlkidEntry, FdiskPartition, FdiskTable};
use crate::provider::entries::{
    BtrfsEntry, BtrfsSubvolumeEntry, NvmeControllerEntry, NvmeEntry, NvmeNamespaceEntry,
    NvmeSubsystemEntry,
};
use crate::provider::entries::{NativeDeviceNumber, UdevBlockEntry};
use crate::text::{decimal, decimal_string, has_prefix, str_starts_with};
use crate::provider::entries::{
    CryptsetupEntry, DevmapperEntry, LoopEntry, MultipathEntry, SwapEntry, ZfsDatasetEntry,
    ZfsDatasetKind, ZfsEntry,
};
use crate::text::{find_char, split_once, split_once_str};

verus! {

/// Nodes, dependencies and relations of a graph.
pub open spec fn graph_view(g: NodeGraph) -> (Map<NodeId, Node>, Set<Dependency>, Set<Relation>) {
    (g.node_map(), g.dependency_set(), g.relation_set())
}

/// `b` is `a` with the node at `id` set (to whatever `b` holds there).
pub open spec fn set_at(a: Map<NodeId, Node>, b: Map<NodeId, Node>, id: NodeId) -> bool {
    b == a.insert(id, b[id])
}

/// A node of the given kind with no size and no observation but presence.
pub open spec fn is_plain_node(n: Node) -> bool {
    n.kind.size is None && n.size.only_presence(Presence::Present)
}

fn plain_node(kind: NodeKind) -> (r: Node)
    ensures
        r.kind.kind == kind,
        is_plain_node(r),
{
    Node {
        kind: NodeSpec { kind, size: None },
        size: NodeFacts::with_presence(Presence::Present),
    }
}

/// The first `/`-separated segment of a dataset name.
pub open spec fn first_segment(s: Seq<char>) -> Seq<char> {
    match find_char(s, '/') {
        Some(i) => s.take(i),
        None => s,
    }
}

/// Whether `name` is one of `names`.
pub open spec fn has_name(names: Seq<String>, name: Seq<char>) -> bool {
    exists|i: int| 0 <= i < names.len() && (#[trigger] names[i])@ == name
}

fn names_include(names: &Vec<String>, name: &str) -> (r: bool)
    ensures
        r == has_name(names@, name@),
{
    let mut i: usize = 0;
    while i < names.len()
        invariant
            i <= names@.len(),
            forall|j: int| 0 <= j < i ==> (#[trigger] names@[j])@ != name@,
        decreases names.len() - i,
    {
        if str_eq(names[i].as_str(), name) {
            return true;
        }
        i = i + 1;
    }
    false
}

/// One imported ZFS pool: its node is set to the pool.
pub open spec fn zfs_pool_step(
    a: (Map<NodeId, Node>, Set<Dependency>, Set<Relation>),
    b: (Map<NodeId, Node>, Set<Dependency>, Set<Relation>),
    name: String,
) -> bool {
    let id = stable_id("zfs-pool"@, name@);
    &&& set_at(a.0, b.0, id)
    &&& b.0[id].kind.kind matches NodeKind::ZfsPool { name: n } && n@ == name@
    &&& is_plain_node(b.0[id])
    &&& b.1 == a.1
    &&& b.2 == a.2
}

/// One dataset: its node is set to a filesystem or volume, provided by its
/// pool when the pool named by its first segment was imported.
pub open spec fn zfs_dataset_step(
    a: (Map<NodeId, Node>, Set<Dependency>, Set<Relation>),
    b: (Map<NodeId, Node>, Set<Dependency>, Set<Relation>),
    d: ZfsDatasetEntry,
    pools: Seq<String>,
) -> bool {
    let id = stable_id("zfs-dataset"@, d.name@);
    let pool = first_segment(d.name@);
    &&& set_at(a.0, b.0, id)
    &&& match d.kind {
        ZfsDatasetKind::Filesystem => b.0[id].kind.kind matches NodeKind::ZfsDataset { name: n }
            && n@ == d.name@,
        ZfsDatasetKind::Volume => b.0[id].kind.kind matches NodeKind::ZfsVolume { name: n } && n@
            == d.name@,
    }
    &&& is_plain_node(b.0[id])
    &&& b.1 == (if has_name(pools, pool) {
        a.1.insert(
            Dependency {
                from: stable_id("zfs-pool"@, pool),
                to: id,
                kind: DependencyKind::Provides,
            },
        )
    } else {
        a.1
    })
    &&& b.2 == a.2
}

/// The graph went through one pool step per imported pool, then one dataset
/// step per dataset, in order.
pub open spec fn is_zfs_trace(
    t: Seq<(Map<NodeId, Node>, Set<Dependency>, Set<Relation>)>,
    z: ZfsEntry,
) -> bool {
    let np = z.pools@.len();
    let nd = z.datasets@.len();
    &&& t.len() == np + nd + 1
    &&& forall|i: int| 0 <= i < np ==> zfs_pool_step(#[trigger] t[i], t[i + 1], z.pools@[i])
    &&& forall|i: int|
        0 <= i < nd ==> zfs_dataset_step(
            #[trigger] t[np + i],
            t[np + i + 1],
            z.datasets@[i],
            z.pools@,
        )
}

/// Adds imported ZFS pools, filesystems, and volumes.
pub fn enrich_zfs(graph: &mut NodeGraph, topology: &ZfsEntry)
    ensures
        exists|t: Seq<(Map<NodeId, Node>, Set<Dependency>, Set<Relation>)>|
            is_zfs_trace(t, *topology) && t[0] == graph_view(*old(graph)) && t.last()
                == graph_view(*final(graph)),
{
    proof {
        use_type_invariant(&*graph);
    }
    let ghost mut t = seq![graph_view(*graph)];
    let mut i: usize = 0;
    while i < topology.pools.len()
        invariant
            i <= topology.pools@.len(),
            graph.wf(),
            t.len() == i + 1,
            t[0] == graph_view(*old(graph)),
            t.last() == graph_view(*graph),
            forall|j: int| 0 <= j < i ==> zfs_pool_step(#[trigger] t[j], t[j + 1], topology.pools@[j]),
        decreases topology.pools.len() - i,
    {
        let name = &topology.pools[i];
        let id = stable_node_id("zfs-pool", name.as_str());
        let ghost before = graph_view(*graph);
        graph.insert_node(id, plain_node(NodeKind::ZfsPool { name: name.clone() }));
        proof {
            let after = graph_view(*graph);
            assert(after.0 == before.0.insert(id, after.0[id]));
            assert(zfs_pool_step(before, after, topology.pools@[i as int]));
            t = t.push(after);
        }
        i = i + 1;
    }
    let ghost np = topology.pools@.len();
    let mut i: usize = 0;
    while i < topology.datasets.len()
        invariant
            i <= topology.datasets@.len(),
            np == topology.pools@.len(),
            graph.wf(),
            t.len() == np + i + 1,
            t[0] == graph_view(*old(graph)),
            t.last() == graph_view(*graph),
            forall|j: int| 0 <= j < np ==> zfs_pool_step(#[trigger] t[j], t[j + 1], topology.pools@[j]),
            forall|j: int|
                0 <= j < i ==> zfs_dataset_step(
                    #[trigger] t[np + j],
                    t[np + j + 1],
                    topology.datasets@[j],
                    topology.pools@,
                ),
        decreases topology.datasets.len() - i,
    {
        let dataset = &topology.datasets[i];
        let id = stable_node_id("zfs-dataset", dataset.name.as_str());
        let kind = match dataset.kind {
            ZfsDatasetKind::Filesystem => NodeKind::ZfsDataset { name: dataset.name.clone() },
            ZfsDatasetKind::Volume => NodeKind::ZfsVolume { name: dataset.name.clone() },
        };
        let ghost before = graph_view(*graph);
        graph.insert_node(id, plain_node(kind));
        let pool_name = match split_once_str(dataset.name.as_str(), '/') {
            Some((first, _)) => first,
            None => dataset.name.clone(),
        };
        assert(pool_name@ == first_segment(dataset.name@));
        if names_include(&topology.pools, pool_name.as_str()) {
            let pool_id = stable_node_id("zfs-pool", pool_name.as_str());
            graph.insert_dependency(
                Dependency { from: pool_id, to: id, kind: DependencyKind::Provides },
            );
        }
        proof {
            let after = graph_view(*graph);
            assert(after.0 == before.0.insert(id, after.0[id]));
            assert(zfs_dataset_step(before, after, topology.datasets@[i as int], topology.pools@));
            t = t.push(after);
        }
        i = i + 1;
    }
}

/// Takes the node at `id` out of the graph for an update, leaving a
/// placeholder that the caller overwrites.
fn take_node(graph: &mut NodeGraph, id: NodeId) -> (r: Option<Node>)
    ensures
        final(graph).dependency_set() == old(graph).dependency_set(),
        final(graph).relation_set() == old(graph).relation_set(),
        match r {
            Some(n) => old(graph).node_map().contains_key(id) && n == old(graph).node_map()[id]
                && set_at(old(graph).node_map(), final(graph).node_map(), id),
            None => !old(graph).node_map().contains_key(id) && *final(graph) == *old(graph),
        },
{
    proof {
        use_type_invariant(&*graph);
    }
    if graph.node(&id).is_none() {
        return None;
    }
    let previous = graph.insert_node(id, plain_node(NodeKind::Disk));
    assert(graph.node_map() =~= old(graph).node_map().insert(id, graph.node_map()[id]));
    previous
}

/// The facts of `n` other than its block facts are those of `o`.
pub open spec fn same_facts_but_block(o: NodeFacts, n: NodeFacts) -> bool {
    &&& n.observed_in == o.observed_in
    &&& n.presence == o.presence
    &&& n.identities == o.identities
    &&& n.device == o.device
}

/// One loop device: an existing endpoint becomes a loop backed by the
/// reported file, with the reported read-only flag.
pub open spec fn loop_step(
    a: (Map<NodeId, Node>, Set<Dependency>, Set<Relation>),
    b: (Map<NodeId, Node>, Set<Dependency>, Set<Relation>),
    e: LoopEntry,
) -> bool {
    let id = block_id(e.device@);
    if !a.0.contains_key(id) {
        b == a
    } else {
        let o = a.0[id];
        let n = b.0[id];
        &&& set_at(a.0, b.0, id)
        &&& n.kind.kind matches NodeKind::Loop { backing_file: Some(f) } && f@ == e.backing_file@
        &&& n.kind.size == o.kind.size
        &&& same_facts_but_block(o.size, n.size)
        &&& n.size.block == match o.size.block {
            Some(blk) => Some(BlockFacts { read_only: Some(e.read_only), ..blk }),
            None => None,
        }
        &&& b.1 == a.1
        &&& b.2 == a.2
    }
}

/// The graph went through one step per entry, in order.
pub open spec fn is_loop_trace(
    t: Seq<(Map<NodeId, Node>, Set<Dependency>, Set<Relation>)>,
    entries: Seq<LoopEntry>,
) -> bool {
    &&& t.len() == entries.len() + 1
    &&& forall|i: int| 0 <= i < entries.len() ==> loop_step(#[trigger] t[i], t[i + 1], entries[i])
}

/// Adds loop backing-file metadata to existing block endpoints.
pub fn enrich_loop(graph: &mut NodeGraph, entries: &[LoopEntry])
    ensures
        exists|t: Seq<(Map<NodeId, Node>, Set<Dependency>, Set<Relation>)>|
            is_loop_trace(t, entries@) && t[0] == graph_view(*old(graph)) && t.last()
                == graph_view(*final(graph)),
{
    let ghost mut t = seq![graph_view(*graph)];
    let mut i: usize = 0;
    while i < entries.len()
        invariant
            i <= entries@.len(),
            t.len() == i + 1,
            t[0] == graph_view(*old(graph)),
            t.last() == graph_view(*graph),
            forall|j: int| 0 <= j < i ==> loop_step(#[trigger] t[j], t[j + 1], entries@[j]),
        decreases entries.len() - i,
    {
        let entry = &entries[i];
        let id = block_node_id(entry.device.as_str());
        let ghost before = graph_view(*graph);
        match take_node(graph, id) {
            Some(mut node) => {
                node.kind.kind = NodeKind::Loop { backing_file: Some(entry.backing_file.clone()) };
                match &mut node.size.block {
                    Some(block) => {
                        block.read_only = Some(entry.read_only);
                    },
                    None => {},
                }
                proof {
                    use_type_invariant(&*graph);
                }
                graph.insert_node(id, node);
                proof {
                    let after = graph_view(*graph);
                    assert(after.0 =~= before.0.insert(id, after.0[id]));
                }
            },
            None => {},
        }
        proof {
            let after = graph_view(*graph);
            assert(loop_step(before, after, entries@[i as int]));
            t = t.push(after);
        }
        i = i + 1;
    }
}

/// The identities that remain when blkid's generic LUKS signature is
/// dropped.
pub open spec fn without_luks_signature(ids: Seq<ExternalId>) -> Seq<ExternalId>
    decreases ids.len(),
{
    if ids.len() == 0 {
        Seq::empty()
    } else {
        let prev = without_luks_signature(ids.drop_last());
        if ids.last() matches ExternalId::Filesystem { fs_type: t, .. } && t@ == "crypto_LUKS"@ {
            prev
        } else {
            prev.push(ids.last())
        }
    }
}

/// LUKS version named by a cryptsetup type.
pub open spec fn luks_version_of(t: Seq<char>) -> Option<LuksVersion> {
    if t == "LUKS1"@ {
        Some(LuksVersion::Luks1)
    } else if t == "LUKS2"@ {
        Some(LuksVersion::Luks2)
    } else {
        None
    }
}

/// One cryptsetup entry: existing content of a known LUKS version becomes a
/// LUKS container identified by its UUID instead of the blkid signature.
pub open spec fn luks_step(
    a: (Map<NodeId, Node>, Set<Dependency>, Set<Relation>),
    b: (Map<NodeId, Node>, Set<Dependency>, Set<Relation>),
    e: CryptsetupEntry,
) -> bool {
    let id = content_id(e.device@);
    if !a.0.contains_key(id) || luks_version_of(e.luks_type@) is None {
        b == a
    } else {
        let o = a.0[id];
        let n = b.0[id];
        let uuid_ids: Seq<ExternalId> = match opt_string_view(e.uuid) {
            Some(u) => match uuid_parse(u) {
                Some(v) => seq![ExternalId::LuksUuid(v)],
                None => Seq::empty(),
            },
            None => Seq::empty(),
        };
        &&& set_at(a.0, b.0, id)
        &&& n.kind.kind == NodeKind::LuksContainer {
            version: luks_version_of(e.luks_type@)->0,
        }
        &&& n.kind.size == o.kind.size
        &&& n.size.observed_in == o.size.observed_in
        &&& n.size.presence == o.size.presence
        &&& n.size.identities@ == without_luks_signature(o.size.identities@) + uuid_ids
        &&& n.size.block == o.size.block
        &&& n.size.device == o.size.device
        &&& b.1 == a.1
        &&& b.2 == a.2
    }
}

pub open spec fn is_luks_trace(
    t: Seq<(Map<NodeId, Node>, Set<Dependency>, Set<Relation>)>,
    entries: Seq<CryptsetupEntry>,
) -> bool {
    &&& t.len() == entries.len() + 1
    &&& forall|i: int| 0 <= i < entries.len() ==> luks_step(#[trigger] t[i], t[i + 1], entries[i])
}

fn drop_luks_signature(ids: Vec<ExternalId>) -> (r: Vec<ExternalId>)
    ensures
        r@ == without_luks_signature(ids@),
{
    let mut out: Vec<ExternalId> = Vec::new();
    let mut rest = ids;
    let ghost all = rest@;
    let total = rest.len();
    let mut k: usize = 0;
    assert(all.skip(0) =~= all);
    assert(all.take(0) =~= Seq::<ExternalId>::empty());
    while rest.len() > 0
        invariant
            rest@ == all.skip(k as int),
            k <= all.len(),
            all.len() == total,
            out@ == without_luks_signature(all.take(k as int)),
        decreases rest.len(),
    {
        let id = rest.remove(0);
        proof {
            assert(all.skip(k as int)[0] == all[k as int]);
            assert(all.skip(k + 1) =~= all.skip(k as int).drop_first());
            assert(all.take(k + 1).drop_last() =~= all.take(k as int));
        }
        let keep = match &id {
            ExternalId::Filesystem { fs_type, .. } => !str_eq(fs_type.as_str(), "crypto_LUKS"),
            _ => true,
        };
        if keep {
            out.push(id);
        }
        k = k + 1;
    }
    assert(all.take(k as int) =~= all);
    out
}

/// Replaces blkid's generic LUKS signature nodes with cryptsetup metadata.
pub fn enrich_luks(graph: &mut NodeGraph, entries: &[CryptsetupEntry])
    ensures
        exists|t: Seq<(Map<NodeId, Node>, Set<Dependency>, Set<Relation>)>|
            is_luks_trace(t, entries@) && t[0] == graph_view(*old(graph)) && t.last()
                == graph_view(*final(graph)),
{
    let ghost mut t = seq![graph_view(*graph)];
    let mut i: usize = 0;
    while i < entries.len()
        invariant
            i <= entries@.len(),
            t.len() == i + 1,
            t[0] == graph_view(*old(graph)),
            t.last() == graph_view(*graph),
            forall|j: int| 0 <= j < i ==> luks_step(#[trigger] t[j], t[j + 1], entries@[j]),
        decreases entries.len() - i,
    {
        let entry = &entries[i];
        let id = content_node_id(entry.device.as_str());
        let ghost before = graph_view(*graph);
        let version = if str_eq(entry.luks_type.as_str(), "LUKS1") {
            Some(LuksVersion::Luks1)
        } else if str_eq(entry.luks_type.as_str(), "LUKS2") {
            Some(LuksVersion::Luks2)
        } else {
            None
        };
        proof {
            use_type_invariant(&*graph);
        }
        if let Some(version) = version {
            if let Some(mut node) = take_node(graph, id) {
                node.kind.kind = NodeKind::LuksContainer { version };
                let mut identities: Vec<ExternalId> = Vec::new();
                std::mem::swap(&mut identities, &mut node.size.identities);
                let mut identities = drop_luks_signature(identities);
                let ghost kept = identities@;
                match &entry.uuid {
                    Some(text) => match parse_uuid(text.as_str()) {
                        Some(v) => identities.push(ExternalId::LuksUuid(v)),
                        None => {},
                    },
                    None => {},
                }
                node.size.identities = identities;
                proof {
                    use_type_invariant(&*graph);
                }
                graph.insert_node(id, node);
                proof {
                    let after = graph_view(*graph);
                    assert(after.0 =~= before.0.insert(id, after.0[id]));
                    let uuid_ids: Seq<ExternalId> = match opt_string_view(entry.uuid) {
                        Some(u) => match uuid_parse(u) {
                            Some(v) => seq![ExternalId::LuksUuid(v)],
                            None => Seq::empty(),
                        },
                        None => Seq::empty(),
                    };
                    assert(after.0[id].size.identities@ =~= kept + uuid_ids);
                }
            }
        }
        proof {
            let after = graph_view(*graph);
            assert(luks_step(before, after, entries@[i as int]));
            t = t.push(after);
        }
        i = i + 1;
    }
}

/// The warning recorded for an active swap area.
pub open spec fn is_swap_warning(d: Diagnostic, e: SwapEntry) -> bool {
    diagnostic_is(
        d,
        "swap.active"@,
        DiagnosticSeverity::Warning,
        seq![DiagnosticSubject::Node(content_id(e.device@))],
        "swap area "@ + e.device@ + " is active"@,
        Some("reported by libblockdev swap plugin"@),
        Some("deactivate swap before modifying its backing storage"@),
    )
}

/// The active swap areas, in order.
pub open spec fn active_swaps(entries: Seq<SwapEntry>) -> Seq<SwapEntry> {
    entries.filter(|e: SwapEntry| e.active)
}

/// `b` is `a` with a warning appended for each active swap area, in order.
pub open spec fn swap_warned(a: ProviderState, b: ProviderState, entries: Seq<SwapEntry>) -> bool {
    &&& b.graph == a.graph
    &&& b.mounts == a.mounts
    &&& b.environment == a.environment
    &&& b.diagnostics@.len() == a.diagnostics@.len() + active_swaps(entries).len()
    &&& b.diagnostics@.take(a.diagnostics@.len() as int) == a.diagnostics@
    &&& forall|i: int|
        0 <= i < active_swaps(entries).len() ==> is_swap_warning(
            #[trigger] b.diagnostics@[a.diagnostics@.len() + i],
            active_swaps(entries)[i],
        )
}

/// Records active swap areas as safety-relevant runtime diagnostics.
pub fn enrich_swap(state: &mut ProviderState, entries: &[SwapEntry])
    ensures
        swap_warned(*old(state), *final(state), entries@),
{
    let ghost n0 = state.diagnostics@.len();
    let mut i: usize = 0;
    while i < entries.len()
        invariant
            i <= entries@.len(),
            state.graph == old(state).graph,
            state.mounts == old(state).mounts,
            state.environment == old(state).environment,
            n0 == old(state).diagnostics@.len(),
            state.diagnostics@.len() == n0 + active_swaps(entries@.take(i as int)).len(),
            state.diagnostics@.take(n0 as int) == old(state).diagnostics@,
            forall|j: int|
                0 <= j < active_swaps(entries@.take(i as int)).len() ==> is_swap_warning(
                    #[trigger] state.diagnostics@[n0 + j],
                    active_swaps(entries@.take(i as int))[j],
                ),
        decreases entries.len() - i,
    {
        let entry = &entries[i];
        proof {
            assert(entries@.take(i + 1).drop_last() =~= entries@.take(i as int));
            reveal_with_fuel(vstd::seq::Seq::filter, 1);
        }
        if entry.active {
            let id = content_node_id(entry.device.as_str());
            let mut message = String::from_str("swap area ");
            message.append(entry.device.as_str());
            message.append(" is active");
            let subjects = vec![DiagnosticSubject::Node(id)];
            assert(subjects@ =~= seq![DiagnosticSubject::Node(id)]);
            state.diagnostics.push(
                Diagnostic {
                    code: "swap.active".to_string(),
                    severity: DiagnosticSeverity::Warning,
                    subjects,
                    message,
                    evidence: Some("reported by libblockdev swap plugin".to_string()),
                    suggested_remedy: Some(
                        "deactivate swap before modifying its backing storage".to_string(),
                    ),
                },
            );
        }
        proof {
            assert(state.diagnostics@.take(n0 as int) =~= old(state).diagnostics@);
        }
        i = i + 1;
    }
    assert(entries@.take(entries@.len() as int) =~= entries@);
}

/// Whether some dependency leaves `id` as a multipath path.
pub open spec fn has_path_from(deps: Set<Dependency>, id: NodeId) -> bool {
    exists|d: Dependency| #[trigger] deps.contains(d) && d.from == id && d.kind == DependencyKind::Path
}

/// Whether some live mapping uses the multipath target.
pub open spec fn any_multipath(mappings: Seq<DevmapperEntry>) -> bool {
    exists|i: int| 0 <= i < mappings.len() && has_target((#[trigger] mappings[i]).targets@, "multipath"@)
}

/// Multipath members without a path edge to a mapper device, in order.
pub open spec fn unlinked_members(members: Seq<String>, deps: Set<Dependency>) -> Seq<String> {
    members.filter(|m: String| !has_path_from(deps, block_id(m@)))
}

/// The diagnostic recorded for a multipath member without a mapper path.
pub open spec fn is_unlinked_member(d: Diagnostic, member: Seq<char>) -> bool {
    diagnostic_is(
        d,
        "multipath.member_unlinked"@,
        DiagnosticSeverity::MissingInformation,
        seq![DiagnosticSubject::Node(block_id(member))],
        "multipath member "@ + member + " was not linked to a mapper device"@,
        Some("libblockdev and libdevmapper observations disagree"@),
        Some("repeat probing after multipath settles"@),
    )
}

fn path_from(deps: &[Dependency], id: NodeId) -> (r: bool)
    ensures
        r == exists|j: int| 0 <= j < deps@.len() && (#[trigger] deps@[j]).from == id && deps@[j].kind
            == DependencyKind::Path,
{
    let mut j: usize = 0;
    while j < deps.len()
        invariant
            j <= deps@.len(),
            forall|k: int| 0 <= k < j ==> !((#[trigger] deps@[k]).from == id && deps@[k].kind
                == DependencyKind::Path),
        decreases deps.len() - j,
    {
        if deps[j].from == id && deps[j].kind == DependencyKind::Path {
            return true;
        }
        j = j + 1;
    }
    false
}

fn uses_multipath(mappings: &[DevmapperEntry]) -> (r: bool)
    ensures
        r == any_multipath(mappings@),
{
    let mut i: usize = 0;
    while i < mappings.len()
        invariant
            i <= mappings@.len(),
            forall|k: int| 0 <= k < i ==> !has_target((#[trigger] mappings@[k]).targets@, "multipath"@),
        decreases mappings.len() - i,
    {
        if crate::probe::linux::targets_include(&mappings[i].targets, "multipath") {
            return true;
        }
        i = i + 1;
    }
    false
}

/// `b` is `a` with a warning appended for each multipath member that no
/// dependency of the graph mentions, when any mapping is a multipath map.
pub open spec fn multipath_warned(
    a: ProviderState,
    b: ProviderState,
    mappings: Seq<DevmapperEntry>,
    members: Seq<String>,
) -> bool {
    let unlinked = if any_multipath(mappings) {
        unlinked_members(members, a.graph.dependency_set())
    } else {
        Seq::<String>::empty()
    };
    &&& b.graph == a.graph
    &&& b.mounts == a.mounts
    &&& b.environment == a.environment
    &&& b.diagnostics@.len() == a.diagnostics@.len() + unlinked.len()
    &&& b.diagnostics@.take(a.diagnostics@.len() as int) == a.diagnostics@
    &&& forall|i: int|
        0 <= i < unlinked.len() ==> is_unlinked_member(
            #[trigger] b.diagnostics@[a.diagnostics@.len() + i],
            unlinked[i]@,
        )
}

/// Reports multipath members not connected to a mapper Path edge, when some
/// mapping uses the multipath target.
pub fn enrich_multipath(
    state: &mut ProviderState,
    mappings: &[DevmapperEntry],
    multipath: &MultipathEntry,
)
    ensures
        multipath_warned(*old(state), *final(state), mappings@, multipath.members@),
{
    if !uses_multipath(mappings) {
        assert(state.diagnostics@.take(old(state).diagnostics@.len() as int) =~= old(
            state,
        ).diagnostics@);
        return ;
    }
    proof {
        use_type_invariant(&state.graph);
    }
    let ghost deps = state.graph.dependency_set();
    let ghost n0 = state.diagnostics@.len();
    let members = &multipath.members;
    let mut i: usize = 0;
    while i < members.len()
        invariant
            i <= members@.len(),
            state.graph == old(state).graph,
            state.mounts == old(state).mounts,
            state.environment == old(state).environment,
            deps == old(state).graph.dependency_set(),
            state.graph.wf(),
            n0 == old(state).diagnostics@.len(),
            state.diagnostics@.len() == n0 + unlinked_members(members@.take(i as int), deps).len(),
            state.diagnostics@.take(n0 as int) == old(state).diagnostics@,
            forall|j: int|
                0 <= j < unlinked_members(members@.take(i as int), deps).len() ==> is_unlinked_member(
                    #[trigger] state.diagnostics@[n0 + j],
                    unlinked_members(members@.take(i as int), deps)[j]@,
                ),
        decreases members.len() - i,
    {
        let member = &members[i];
        let member_id = block_node_id(member.as_str());
        let dependencies = state.graph.dependencies();
        let connected = path_from(dependencies, member_id);
        proof {
            assert(members@.take(i + 1).drop_last() =~= members@.take(i as int));
            reveal_with_fuel(vstd::seq::Seq::filter, 1);
            if connected {
                let j = choose|j: int|
                    0 <= j < dependencies@.len() && (#[trigger] dependencies@[j]).from == member_id
                        && dependencies@[j].kind == DependencyKind::Path;
                assert(deps.contains(dependencies@[j]));
            } else {
                assert forall|d: Dependency| #[trigger] deps.contains(d) implies !(d.from == member_id
                    && d.kind == DependencyKind::Path) by {
                    let j = choose|j: int| 0 <= j < dependencies@.len() && dependencies@[j] == d;
                }
            }
        }
        if !connected {
            let mut message = String::from_str("multipath member ");
            message.append(member.as_str());
            message.append(" was not linked to a mapper device");
            let subjects = vec![DiagnosticSubject::Node(member_id)];
            assert(subjects@ =~= seq![DiagnosticSubject::Node(member_id)]);
            state.diagnostics.push(
                Diagnostic {
                    code: "multipath.member_unlinked".to_string(),
                    severity: DiagnosticSeverity::MissingInformation,
                    subjects,
                    message,
                    evidence: Some("libblockdev and libdevmapper observations disagree".to_string()),
                    suggested_remedy: Some("repeat probing after multipath settles".to_string()),
                },
            );
        }
        proof {
            assert(state.diagnostics@.take(n0 as int) =~= old(state).diagnostics@);
        }
        i = i + 1;
    }
    assert(members@.take(members@.len() as int) =~= members@);
}

/// Device path of the last endpoint with the given device number.
pub open spec fn path_for_devno(endpoints: Seq<UdevBlockEntry>, major: u32, minor: u32) -> Option<
    Seq<char>,
>
    decreases endpoints.len(),
{
    if endpoints.len() == 0 {
        None
    } else if endpoints.last().major == major && endpoints.last().minor == minor {
        Some(endpoints.last().devnode@)
    } else {
        path_for_devno(endpoints.drop_last(), major, minor)
    }
}

fn find_devno_path(endpoints: &[UdevBlockEntry], major: u32, minor: u32) -> (r: Option<&String>)
    ensures
        match r {
            Some(p) => path_for_devno(endpoints@, major, minor) == Some(p@),
            None => path_for_devno(endpoints@, major, minor) is None,
        },
{
    let mut i = endpoints.len();
    assert(endpoints@.take(endpoints@.len() as int) =~= endpoints@);
    while i > 0
        invariant
            i <= endpoints@.len(),
            path_for_devno(endpoints@, major, minor) == path_for_devno(
                endpoints@.take(i as int),
                major,
                minor,
            ),
        decreases i,
    {
        assert(endpoints@.take(i as int).drop_last() =~= endpoints@.take(i - 1));
        if endpoints[i - 1].major == major && endpoints[i - 1].minor == minor {
            return Some(&endpoints[i - 1].devnode);
        }
        i = i - 1;
    }
    None
}

/// `Path::join`: an absolute `p` replaces `base`, otherwise it is appended
/// after a separator.
pub open spec fn join_path(base: Seq<char>, p: Seq<char>) -> Seq<char> {
    if has_prefix(p, "/"@) {
        p
    } else {
        base + "/"@ + p
    }
}

fn join_str(base: &str, p: &str) -> (r: String)
    ensures
        r@ == join_path(base@, p@),
{
    if str_starts_with(p, "/") {
        p.to_string()
    } else {
        let mut r = String::from_str(base);
        r.append("/");
        r.append(p);
        r
    }
}

/// `new` lists the paths of `old`, with `alias` appended when absent.
pub open spec fn paths_with(old: Seq<String>, new: Seq<String>, alias: Seq<char>) -> bool {
    if crate::probe::native::has_name(old, alias) {
        new == old
    } else {
        new.len() == old.len() + 1 && new.drop_last() == old && new.last()@ == alias
    }
}

/// Path of a mapping: the endpoint with its device number, or `/dev/dm-N`.
pub open spec fn mapping_path(endpoints: Seq<UdevBlockEntry>, e: DevmapperEntry) -> Seq<char> {
    match path_for_devno(endpoints, e.devno.major, e.devno.minor) {
        Some(p) => p,
        None => "/dev/dm-"@ + decimal(e.devno.minor as nat),
    }
}

/// The node of a mapping after its update: classified from its targets,
/// known under its `/dev/mapper` alias, with the reported read-only flag.
pub open spec fn is_mapping_node(
    n: Node,
    o: Option<Node>,
    e: DevmapperEntry,
    path: Seq<char>,
    alias: Seq<char>,
) -> bool {
    &&& is_devmapper_kind(n.kind.kind, e.targets@, e.name@)
    &&& match o {
        Some(o) => {
            &&& n.kind.size == o.kind.size
            &&& same_facts_but_block(o.size, n.size)
            &&& match (o.size.block, n.size.block) {
                (Some(ob), Some(nb)) => {
                    &&& paths_with(ob.paths@, nb.paths@, alias)
                    &&& nb.devno == ob.devno
                    &&& nb.geometry == ob.geometry
                    &&& nb.read_only == Some(e.read_only)
                },
                (None, None) => true,
                _ => false,
            }
        },
        None => {
            &&& n.kind.size is None
            &&& n.size.observed_in is None
            &&& n.size.presence == Presence::Present
            &&& n.size.identities@.len() == 0
            &&& n.size.device is None
            &&& match n.size.block {
                Some(nb) => {
                    &&& nb.paths@.len() >= 1
                    &&& nb.paths@[0]@ == path
                    &&& paths_with(nb.paths@.take(1), nb.paths@, alias)
                    &&& nb.devno == DeviceNumber { major: e.devno.major, minor: e.devno.minor }
                    &&& nb.geometry is None
                    &&& nb.read_only == Some(e.read_only)
                },
                None => false,
            }
        },
    }
}

/// One backing device of a mapping: an edge to the mapping from the
/// backing endpoint, or from its LUKS container when the mapping decrypts.
pub open spec fn mapping_dependency_step(
    a: (Map<NodeId, Node>, Set<Dependency>, Set<Relation>),
    b: (Map<NodeId, Node>, Set<Dependency>, Set<Relation>),
    endpoints: Seq<UdevBlockEntry>,
    e: DevmapperEntry,
    id: NodeId,
    dn: NativeDeviceNumber,
) -> bool {
    match path_for_devno(endpoints, dn.major, dn.minor) {
        None => b == a,
        Some(sp) => {
            let content = content_id(sp);
            let source = if has_target(e.targets@, "crypt"@) && a.0.contains_key(content)
                && a.0[content].kind.kind is LuksContainer {
                content
            } else {
                block_id(sp)
            };
            let kind = if has_target(e.targets@, "multipath"@) {
                DependencyKind::Path
            } else {
                DependencyKind::Backs
            };
            &&& b.0 == a.0
            &&& b.1 == a.1.insert(Dependency { from: source, to: id, kind })
            &&& b.2 == a.2
        },
    }
}

/// One live mapping: its node is classified and aliased, then an edge is
/// added for each backing device, in order.
pub open spec fn mapping_step(
    a: (Map<NodeId, Node>, Set<Dependency>, Set<Relation>),
    b: (Map<NodeId, Node>, Set<Dependency>, Set<Relation>),
    endpoints: Seq<UdevBlockEntry>,
    e: DevmapperEntry,
) -> bool {
    let path = mapping_path(endpoints, e);
    let id = block_id(path);
    let alias = join_path("/dev/mapper"@, e.name@);
    exists|u: Seq<(Map<NodeId, Node>, Set<Dependency>, Set<Relation>)>|
        {
            &&& u.len() == e.dependencies@.len() + 1
            &&& set_at(a.0, u[0].0, id)
            &&& u[0].1 == a.1
            &&& u[0].2 == a.2
            &&& is_mapping_node(
                u[0].0[id],
                if a.0.contains_key(id) {
                    Some(a.0[id])
                } else {
                    None
                },
                e,
                path,
                alias,
            )
            &&& forall|j: int|
                0 <= j < e.dependencies@.len() ==> mapping_dependency_step(
                    #[trigger] u[j],
                    u[j + 1],
                    endpoints,
                    e,
                    id,
                    e.dependencies@[j],
                )
            &&& u.last() == b
        }
}

pub open spec fn is_devmapper_trace(
    t: Seq<(Map<NodeId, Node>, Set<Dependency>, Set<Relation>)>,
    endpoints: Seq<UdevBlockEntry>,
    entries: Seq<DevmapperEntry>,
) -> bool {
    &&& t.len() == entries.len() + 1
    &&& forall|i: int|
        0 <= i < entries.len() ==> mapping_step(#[trigger] t[i], t[i + 1], endpoints, entries[i])
}

fn contains_path(paths: &Vec<String>, p: &str) -> (r: bool)
    ensures
        r == has_name(paths@, p@),
{
    names_include(paths, p)
}

/// Adds device-mapper kinds, aliases, and backing edges to the block graph.
pub fn enrich_devmapper(
    graph: &mut NodeGraph,
    endpoints: &[UdevBlockEntry],
    entries: &[DevmapperEntry],
)
    ensures
        exists|t: Seq<(Map<NodeId, Node>, Set<Dependency>, Set<Relation>)>|
            is_devmapper_trace(t, endpoints@, entries@) && t[0] == graph_view(*old(graph))
                && t.last() == graph_view(*final(graph)),
{
    let ghost mut t = seq![graph_view(*graph)];
    let mut i: usize = 0;
    while i < entries.len()
        invariant
            i <= entries@.len(),
            t.len() == i + 1,
            t[0] == graph_view(*old(graph)),
            t.last() == graph_view(*graph),
            forall|j: int|
                0 <= j < i ==> mapping_step(#[trigger] t[j], t[j + 1], endpoints@, entries@[j]),
        decreases entries.len() - i,
    {
        let entry = &entries[i];
        let ghost before = graph_view(*graph);
        let path = match find_devno_path(endpoints, entry.devno.major, entry.devno.minor) {
            Some(p) => p.clone(),
            None => {
                let mut p = String::from_str("/dev/dm-");
                let n = decimal_string(entry.devno.minor as u64);
                p.append(n.as_str());
                p
            },
        };
        let id = block_node_id(path.as_str());
        let alias = join_str("/dev/mapper", entry.name.as_str());
        let ghost existing = if before.0.contains_key(id) {
            Some(before.0[id])
        } else {
            None
        };
        let taken = take_node(graph, id);
        let mut node = match taken {
            Some(n) => n,
            None => Node {
                kind: NodeSpec {
                    kind: NodeKind::Unknown("device-mapper endpoint".to_string()),
                    size: None,
                },
                size: NodeFacts {
                    observed_in: None,
                    presence: Presence::Present,
                    identities: Vec::new(),
                    block: Some(
                        BlockFacts {
                            paths: vec![path.clone()],
                            devno: DeviceNumber {
                                major: entry.devno.major,
                                minor: entry.devno.minor,
                            },
                            geometry: None,
                            read_only: Some(entry.read_only),
                        },
                    ),
                    device: None,
                },
            },
        };
        let ghost orig = node;
        let ghost fresh_paths = match &node.size.block {
            Some(b) => b.paths@,
            None => Seq::empty(),
        };
        node.kind.kind = devmapper_kind(entry);
        match &mut node.size.block {
            Some(block) => {
                let ghost old_paths = block.paths@;
                if !contains_path(&block.paths, alias.as_str()) {
                    block.paths.push(alias.clone());
                    assert(block.paths@.drop_last() =~= old_paths);
                }
                assert(paths_with(old_paths, block.paths@, alias@));
                block.read_only = Some(entry.read_only);
            },
            None => {},
        }
        proof {
            use_type_invariant(&*graph);
            assert(path@ == mapping_path(endpoints@, *entry));
            assert(alias@ == join_path("/dev/mapper"@, entry.name@));
            if existing is None {
                let nb = node.size.block->0;
                assert(fresh_paths.len() == 1);
                assert(fresh_paths[0]@ == path@);
                assert(nb.paths@.take(1) =~= fresh_paths);
                assert(paths_with(nb.paths@.take(1), nb.paths@, alias@));
                assert(nb.paths@[0]@ == path@);
            }
            if existing is Some {
                assert(orig == existing->0);
                assert(node.kind.size == orig.kind.size);
                assert(same_facts_but_block(orig.size, node.size));
                if orig.size.block is Some {
                    let ob = orig.size.block->0;
                    let nb = node.size.block->0;
                    assert(paths_with(ob.paths@, nb.paths@, alias@));
                    assert(nb.devno == ob.devno);
                }
            }
            assert(is_devmapper_kind(node.kind.kind, entry.targets@, entry.name@));
            assert(is_mapping_node(node, existing, *entry, path@, alias@));
        }
        graph.insert_node(id, node);
        let ghost mut u = seq![graph_view(*graph)];
        proof {
            assert(graph.node_map() =~= before.0.insert(id, graph.node_map()[id]));
        }
        let deps = &entry.dependencies;
        let crypt = targets_include(&entry.targets, "crypt");
        let multipath = targets_include(&entry.targets, "multipath");
        let mut j: usize = 0;
        while j < deps.len()
            invariant
                j <= deps@.len(),
                u.len() == j + 1,
                u.last() == graph_view(*graph),
                set_at(before.0, u[0].0, id),
                u[0].1 == before.1,
                u[0].2 == before.2,
                is_mapping_node(
                    u[0].0[id],
                    existing,
                    *entry,
                    mapping_path(endpoints@, *entry),
                    join_path("/dev/mapper"@, entry.name@),
                ),
                crypt == has_target(entry.targets@, "crypt"@),
                multipath == has_target(entry.targets@, "multipath"@),
                id == block_id(mapping_path(endpoints@, *entry)),
                forall|k: int|
                    0 <= k < j ==> mapping_dependency_step(
                        #[trigger] u[k],
                        u[k + 1],
                        endpoints@,
                        *entry,
                        id,
                        deps@[k],
                    ),
            decreases deps.len() - j,
        {
            let dn = deps[j];
            let ghost b0 = graph_view(*graph);
            proof {
                use_type_invariant(&*graph);
            }
            match find_devno_path(endpoints, dn.major, dn.minor) {
                Some(source_path) => {
                    let block_source = block_node_id(source_path.as_str());
                    let content_source = content_node_id(source_path.as_str());
                    let is_luks = match graph.node(&content_source) {
                        Some(n) => match n.kind.kind {
                            NodeKind::LuksContainer { .. } => true,
                            _ => false,
                        },
                        None => false,
                    };
                    let source = if crypt && is_luks {
                        content_source
                    } else {
                        block_source
                    };
                    let kind = if multipath {
                        DependencyKind::Path
                    } else {
                        DependencyKind::Backs
                    };
                    graph.insert_dependency(Dependency { from: source, to: id, kind });
                },
                None => {},
            }
            proof {
                let b1 = graph_view(*graph);
                assert(mapping_dependency_step(b0, b1, endpoints@, *entry, id, dn));
                u = u.push(b1);
            }
            j = j + 1;
        }
        proof {
            let after = graph_view(*graph);
            assert(mapping_step(before, after, endpoints@, entries@[i as int]));
            t = t.push(after);
        }
        i = i + 1;
    }
}

/// Identities after appending those of `incoming` not yet held, in order.
pub open spec fn with_new_ids(existing: Seq<ExternalId>, incoming: Seq<ExternalId>) -> Seq<
    ExternalId,
>
    decreases incoming.len(),
{
    if incoming.len() == 0 {
        existing
    } else {
        let prev = with_new_ids(existing, incoming.drop_last());
        if has_id(prev, incoming.last()) {
            prev
        } else {
            prev.push(incoming.last())
        }
    }
}

/// Appends the identities not yet held, in order.
fn add_new_ids(ids: &mut Vec<ExternalId>, incoming: Vec<ExternalId>)
    ensures
        final(ids)@ == with_new_ids(old(ids)@, incoming@),
{
    let ghost all = incoming@;
    let mut rest = incoming;
    let total = rest.len();
    let mut k: usize = 0;
    assert(all.skip(0) =~= all);
    assert(all.take(0) =~= Seq::<ExternalId>::empty());
    while rest.len() > 0
        invariant
            rest@ == all.skip(k as int),
            k <= all.len(),
            all.len() == total,
            ids@ == with_new_ids(old(ids)@, all.take(k as int)),
        decreases rest.len(),
    {
        let id = rest.remove(0);
        proof {
            assert(all.skip(k as int)[0] == all[k as int]);
            assert(all.skip(k + 1) =~= all.skip(k as int).drop_first());
            assert(all.take(k + 1).drop_last() =~= all.take(k as int));
        }
        if !contains_id(ids, &id) {
            ids.push(id);
        }
        k = k + 1;
    }
    assert(all.take(k as int) =~= all);
}

/// Transport of a subsystem, from the first controller reporting one:
/// PCIe is local NVMe, anything else is NVMe over fabrics.
pub open spec fn subsystem_transport(controllers: Seq<NvmeControllerEntry>) -> Option<Transport>
    decreases controllers.len(),
{
    if controllers.len() == 0 {
        None
    } else {
        match opt_string_view(controllers[0].transport) {
            Some(t) => Some(
                if t == "pcie"@ {
                    Transport::Nvme
                } else {
                    Transport::NvmeOf
                },
            ),
            None => subsystem_transport(controllers.drop_first()),
        }
    }
}

fn find_transport(controllers: &Vec<NvmeControllerEntry>) -> (r: Option<Transport>)
    ensures
        r == subsystem_transport(controllers@),
{
    let mut i: usize = 0;
    assert(controllers@.skip(0) =~= controllers@);
    while i < controllers.len()
        invariant
            i <= controllers@.len(),
            subsystem_transport(controllers@) == subsystem_transport(controllers@.skip(i as int)),
        decreases controllers.len() - i,
    {
        assert(controllers@.skip(i as int)[0] == controllers@[i as int]);
        assert(controllers@.skip(i + 1) =~= controllers@.skip(i as int).drop_first());
        match &controllers[i].transport {
            Some(t) => {
                if str_eq(t.as_str(), "pcie") {
                    return Some(Transport::Nvme);
                } else {
                    return Some(Transport::NvmeOf);
                }
            },
            None => {},
        }
        i = i + 1;
    }
    None
}

/// One controller: its node is set, attached to its subsystem.
pub open spec fn nvme_controller_step(
    a: (Map<NodeId, Node>, Set<Dependency>, Set<Relation>),
    b: (Map<NodeId, Node>, Set<Dependency>, Set<Relation>),
    c: NvmeControllerEntry,
    subsystem: NodeId,
) -> bool {
    let id = stable_id("nvme-controller"@, c.name@);
    &&& set_at(a.0, b.0, id)
    &&& b.0[id].kind.kind == NodeKind::NvmeController
    &&& is_plain_node(b.0[id])
    &&& b.1 == a.1
    &&& b.2 == a.2.insert(
        Relation { from: id, to: subsystem, kind: RelationKind::NvmeAttachedTo },
    )
}

/// The namespace node after its update: reclassified, with the subsystem's
/// transport and the namespace identities not yet held.
pub open spec fn is_namespace_node(
    n: Node,
    o: Option<Node>,
    ns: NvmeNamespaceEntry,
    transport: Option<Transport>,
) -> bool {
    &&& n.kind.kind matches NodeKind::NvmeNamespace(x) && x.nsid.value() == ns.nsid
        && x.format.data_size.value() == ns.lba_size && x.format.metadata_size
        == ns.metadata_size
    &&& exists|ids: Seq<ExternalId>|
        is_nvme_identities(ids, ns) && n.size.identities@ == with_new_ids(
            match o {
                Some(o) => o.size.identities@,
                None => Seq::empty(),
            },
            ids,
        )
    &&& match o {
        Some(o) => {
            &&& n.kind.size == o.kind.size
            &&& n.size.observed_in == o.size.observed_in
            &&& n.size.presence == o.size.presence
            &&& n.size.block == o.size.block
            &&& n.size.device == match o.size.device {
                Some(d) => Some(DeviceInfo { transport, ..d }),
                None => None,
            }
        },
        None => {
            &&& n.kind.size is None
            &&& n.size.observed_in is None
            &&& n.size.presence == Presence::Present
            &&& n.size.block is None
            &&& n.size.device is None
        },
    }
}

/// One namespace with a non-zero identifier and block size: its endpoint
/// node is reclassified and provided by the subsystem.
pub open spec fn nvme_namespace_step(
    a: (Map<NodeId, Node>, Set<Dependency>, Set<Relation>),
    b: (Map<NodeId, Node>, Set<Dependency>, Set<Relation>),
    ns: NvmeNamespaceEntry,
    subsystem: NodeId,
    transport: Option<Transport>,
) -> bool {
    let id = block_id(join_path("/dev"@, ns.name@));
    if ns.nsid == 0 || ns.lba_size == 0 {
        b == a
    } else {
        &&& set_at(a.0, b.0, id)
        &&& is_namespace_node(
            b.0[id],
            if a.0.contains_key(id) {
                Some(a.0[id])
            } else {
                None
            },
            ns,
            transport,
        )
        &&& b.1 == a.1.insert(
            Dependency { from: subsystem, to: id, kind: DependencyKind::Provides },
        )
        &&& b.2 == a.2
    }
}

/// One subsystem: its node is set, then its controllers, then its
/// namespaces, each in order.
pub open spec fn nvme_subsystem_step(
    a: (Map<NodeId, Node>, Set<Dependency>, Set<Relation>),
    b: (Map<NodeId, Node>, Set<Dependency>, Set<Relation>),
    s: NvmeSubsystemEntry,
) -> bool {
    let sid = stable_id("nvme-subsystem"@, s.nqn@);
    let nc = s.controllers@.len();
    let nn = s.namespaces@.len();
    let transport = subsystem_transport(s.controllers@);
    exists|u: Seq<(Map<NodeId, Node>, Set<Dependency>, Set<Relation>)>|
        {
            &&& u.len() == nc + nn + 1
            &&& set_at(a.0, u[0].0, sid)
            &&& u[0].0[sid].kind.kind matches NodeKind::NvmeSubsystem { nqn: q } && q@ == s.nqn@
            &&& is_plain_node(u[0].0[sid])
            &&& u[0].1 == a.1
            &&& u[0].2 == a.2
            &&& forall|j: int|
                0 <= j < nc ==> nvme_controller_step(
                    #[trigger] u[j],
                    u[j + 1],
                    s.controllers@[j],
                    sid,
                )
            &&& forall|j: int|
                0 <= j < nn ==> nvme_namespace_step(
                    #[trigger] u[nc + j],
                    u[nc + j + 1],
                    s.namespaces@[j],
                    sid,
                    transport,
                )
            &&& u.last() == b
        }
}

pub open spec fn is_nvme_trace(
    t: Seq<(Map<NodeId, Node>, Set<Dependency>, Set<Relation>)>,
    z: NvmeEntry,
) -> bool {
    &&& t.len() == z.subsystems@.len() + 1
    &&& forall|i: int|
        0 <= i < z.subsystems@.len() ==> nvme_subsystem_step(
            #[trigger] t[i],
            t[i + 1],
            z.subsystems@[i],
        )
}

/// Reclassifies NVMe endpoints and adds subsystem/controller topology.
pub fn enrich_nvme(graph: &mut NodeGraph, topology: &NvmeEntry)
    ensures
        exists|t: Seq<(Map<NodeId, Node>, Set<Dependency>, Set<Relation>)>|
            is_nvme_trace(t, *topology) && t[0] == graph_view(*old(graph)) && t.last()
                == graph_view(*final(graph)),
{
    let ghost mut t = seq![graph_view(*graph)];
    let mut i: usize = 0;
    while i < topology.subsystems.len()
        invariant
            i <= topology.subsystems@.len(),
            t.len() == i + 1,
            t[0] == graph_view(*old(graph)),
            t.last() == graph_view(*graph),
            forall|j: int|
                0 <= j < i ==> nvme_subsystem_step(#[trigger] t[j], t[j + 1], topology.subsystems@[j]),
        decreases topology.subsystems.len() - i,
    {
        let subsystem = &topology.subsystems[i];
        let ghost before = graph_view(*graph);
        let sid = stable_node_id("nvme-subsystem", subsystem.nqn.as_str());
        proof {
            use_type_invariant(&*graph);
        }
        graph.insert_node(sid, plain_node(NodeKind::NvmeSubsystem { nqn: subsystem.nqn.clone() }));
        assert(graph.node_map() =~= before.0.insert(sid, graph.node_map()[sid]));
        let ghost mut u = seq![graph_view(*graph)];
        let transport = find_transport(&subsystem.controllers);
        let mut j: usize = 0;
        while j < subsystem.controllers.len()
            invariant
                j <= subsystem.controllers@.len(),
                u.len() == j + 1,
                u.last() == graph_view(*graph),
                set_at(before.0, u[0].0, sid),
                u[0].0[sid].kind.kind matches NodeKind::NvmeSubsystem { nqn: q } && q@
                    == subsystem.nqn@,
                is_plain_node(u[0].0[sid]),
                u[0].1 == before.1,
                u[0].2 == before.2,
                sid == stable_id("nvme-subsystem"@, subsystem.nqn@),
                forall|k: int|
                    0 <= k < j ==> nvme_controller_step(
                        #[trigger] u[k],
                        u[k + 1],
                        subsystem.controllers@[k],
                        sid,
                    ),
            decreases subsystem.controllers.len() - j,
        {
            let controller = &subsystem.controllers[j];
            let ghost b0 = graph_view(*graph);
            let cid = stable_node_id("nvme-controller", controller.name.as_str());
            proof {
                use_type_invariant(&*graph);
            }
            graph.insert_node(cid, plain_node(NodeKind::NvmeController));
            graph.insert_relation(
                Relation { from: cid, to: sid, kind: RelationKind::NvmeAttachedTo },
            );
            proof {
                let b1 = graph_view(*graph);
                assert(b1.0 =~= b0.0.insert(cid, b1.0[cid]));
                assert(nvme_controller_step(b0, b1, subsystem.controllers@[j as int], sid));
                u = u.push(b1);
            }
            j = j + 1;
        }
        let ghost nc = subsystem.controllers@.len();
        let mut j: usize = 0;
        while j < subsystem.namespaces.len()
            invariant
                j <= subsystem.namespaces@.len(),
                nc == subsystem.controllers@.len(),
                u.len() == nc + j + 1,
                u.last() == graph_view(*graph),
                set_at(before.0, u[0].0, sid),
                u[0].0[sid].kind.kind matches NodeKind::NvmeSubsystem { nqn: q } && q@
                    == subsystem.nqn@,
                is_plain_node(u[0].0[sid]),
                u[0].1 == before.1,
                u[0].2 == before.2,
                sid == stable_id("nvme-subsystem"@, subsystem.nqn@),
                transport == subsystem_transport(subsystem.controllers@),
                forall|k: int|
                    0 <= k < nc ==> nvme_controller_step(
                        #[trigger] u[k],
                        u[k + 1],
                        subsystem.controllers@[k],
                        sid,
                    ),
                forall|k: int|
                    0 <= k < j ==> nvme_namespace_step(
                        #[trigger] u[nc + k],
                        u[nc + k + 1],
                        subsystem.namespaces@[k],
                        sid,
                        transport,
                    ),
            decreases subsystem.namespaces.len() - j,
        {
            let namespace = &subsystem.namespaces[j];
            let ghost b0 = graph_view(*graph);
            match (NvmeNamespaceId::new(namespace.nsid), BlockSize::new(namespace.lba_size)) {
                (Some(nsid), Some(data_size)) => {
                    let path = join_str("/dev", namespace.name.as_str());
                    let id = block_node_id(path.as_str());
                    let ghost existing = if b0.0.contains_key(id) {
                        Some(b0.0[id])
                    } else {
                        None
                    };
                    let mut node = match take_node(graph, id) {
                        Some(n) => n,
                        None => plain_node(NodeKind::Unknown("nvme namespace".to_string())),
                    };
                    let ghost orig = node;
                    node.kind.kind = NodeKind::NvmeNamespace(
                        NvmeNamespace {
                            nsid,
                            format: NvmeLbaFormat {
                                data_size,
                                metadata_size: namespace.metadata_size,
                            },
                        },
                    );
                    match &mut node.size.device {
                        Some(device) => {
                            device.transport = transport;
                        },
                        None => {},
                    }
                    let ids = nvme_identities(namespace);
                    let ghost ids_view = ids@;
                    add_new_ids(&mut node.size.identities, ids);
                    proof {
                        use_type_invariant(&*graph);
                        assert(is_nvme_identities(ids_view, *namespace));
                        if existing is Some {
                            assert(orig == existing->0);
                        } else {
                            assert(orig.size.identities@ =~= Seq::<ExternalId>::empty());
                        }
                        assert(node.size.identities@ == with_new_ids(
                            match existing {
                                Some(o) => o.size.identities@,
                                None => Seq::empty(),
                            },
                            ids_view,
                        ));
                        assert(is_namespace_node(node, existing, *namespace, transport));
                    }
                    graph.insert_node(id, node);
                    graph.insert_dependency(
                        Dependency { from: sid, to: id, kind: DependencyKind::Provides },
                    );
                    proof {
                        let b1 = graph_view(*graph);
                        assert(b1.0 =~= b0.0.insert(id, b1.0[id]));
                    }
                },
                _ => {},
            }
            proof {
                let b1 = graph_view(*graph);
                assert(nvme_namespace_step(b0, b1, subsystem.namespaces@[j as int], sid, transport));
                u = u.push(b1);
            }
            j = j + 1;
        }
        proof {
            let after = graph_view(*graph);
            assert(nvme_subsystem_step(before, after, topology.subsystems@[i as int]));
            t = t.push(after);
        }
        i = i + 1;
    }
}

/// Filesystem node mounted at `target`: the source of the first mount on
/// that target whose source is filesystem content.
pub open spec fn mounted_filesystem(mounts: Seq<ObservedMount>, target: Seq<char>) -> Option<NodeId>
    decreases mounts.len(),
{
    if mounts.len() == 0 {
        None
    } else if mounts[0].target@ == target && mounts[0].source is Filesystem {
        Some(mounts[0].source->Filesystem_0)
    } else {
        mounted_filesystem(mounts.drop_first(), target)
    }
}

fn find_mounted_filesystem(mounts: &[ObservedMount], target: &str) -> (r: Option<NodeId>)
    ensures
        r == mounted_filesystem(mounts@, target@),
{
    let mut i: usize = 0;
    assert(mounts@.skip(0) =~= mounts@);
    while i < mounts.len()
        invariant
            i <= mounts@.len(),
            mounted_filesystem(mounts@, target@) == mounted_filesystem(
                mounts@.skip(i as int),
                target@,
            ),
        decreases mounts.len() - i,
    {
        assert(mounts@.skip(i as int)[0] == mounts@[i as int]);
        assert(mounts@.skip(i + 1) =~= mounts@.skip(i as int).drop_first());
        if str_eq(mounts[i].target.as_str(), target) {
            match mounts[i].source {
                MountSource::Filesystem(id) => {
                    return Some(id);
                },
                _ => {},
            }
        }
        i = i + 1;
    }
    None
}

/// Key of a subvolume below a filesystem: `{filesystem uuid}:{subvolume id}`.
pub open spec fn subvolume_key(filesystem: NodeId, id: u64) -> Seq<char> {
    uuid_hyphenated(filesystem.0) + ":"@ + decimal(id as nat)
}

/// One subvolume: its node is set, provided by its filesystem.
pub open spec fn btrfs_subvolume_step(
    a: (Map<NodeId, Node>, Set<Dependency>, Set<Relation>),
    b: (Map<NodeId, Node>, Set<Dependency>, Set<Relation>),
    filesystem: NodeId,
    sv: BtrfsSubvolumeEntry,
) -> bool {
    let id = stable_id("btrfs-subvolume"@, subvolume_key(filesystem, sv.id));
    &&& set_at(a.0, b.0, id)
    &&& b.0[id].kind.kind matches NodeKind::BtrfsSubvolume { name: n, read_only: r, is_default: d }
        && n@ == sv.path@ && r == sv.read_only && d == sv.is_default
    &&& is_plain_node(b.0[id])
    &&& b.1 == a.1.insert(Dependency { from: filesystem, to: id, kind: DependencyKind::Provides })
    &&& b.2 == a.2
}

/// One Btrfs filesystem: nothing when it is not mounted as filesystem
/// content, else one subvolume step per subvolume, in order.
pub open spec fn btrfs_step(
    a: (Map<NodeId, Node>, Set<Dependency>, Set<Relation>),
    b: (Map<NodeId, Node>, Set<Dependency>, Set<Relation>),
    mounts: Seq<ObservedMount>,
    f: BtrfsEntry,
) -> bool {
    match mounted_filesystem(mounts, f.mountpoint@) {
        None => b == a,
        Some(fid) => exists|u: Seq<(Map<NodeId, Node>, Set<Dependency>, Set<Relation>)>|
            {
                &&& u.len() == f.subvolumes@.len() + 1
                &&& u[0] == a
                &&& u.last() == b
                &&& forall|j: int|
                    0 <= j < f.subvolumes@.len() ==> btrfs_subvolume_step(
                        #[trigger] u[j],
                        u[j + 1],
                        fid,
                        f.subvolumes@[j],
                    )
            },
    }
}

pub open spec fn is_btrfs_trace(
    t: Seq<(Map<NodeId, Node>, Set<Dependency>, Set<Relation>)>,
    mounts: Seq<ObservedMount>,
    filesystems: Seq<BtrfsEntry>,
) -> bool {
    &&& t.len() == filesystems.len() + 1
    &&& forall|i: int|
        0 <= i < filesystems.len() ==> btrfs_step(#[trigger] t[i], t[i + 1], mounts, filesystems[i])
}

/// Adds Btrfs subvolumes below their mounted filesystem nodes.
pub fn enrich_btrfs(graph: &mut NodeGraph, mounts: &[ObservedMount], filesystems: &[BtrfsEntry])
    ensures
        exists|t: Seq<(Map<NodeId, Node>, Set<Dependency>, Set<Relation>)>|
            is_btrfs_trace(t, mounts@, filesystems@) && t[0] == graph_view(*old(graph))
                && t.last() == graph_view(*final(graph)),
{
    let ghost mut t = seq![graph_view(*graph)];
    let mut i: usize = 0;
    while i < filesystems.len()
        invariant
            i <= filesystems@.len(),
            t.len() == i + 1,
            t[0] == graph_view(*old(graph)),
            t.last() == graph_view(*graph),
            forall|j: int|
                0 <= j < i ==> btrfs_step(#[trigger] t[j], t[j + 1], mounts@, filesystems@[j]),
        decreases filesystems.len() - i,
    {
        let filesystem = &filesystems[i];
        let ghost before = graph_view(*graph);
        match find_mounted_filesystem(mounts, filesystem.mountpoint.as_str()) {
            Some(fid) => {
                let ghost mut u = seq![graph_view(*graph)];
                let uuid = crate::probe::ids::uuid_text(fid.0);
                let mut j: usize = 0;
                while j < filesystem.subvolumes.len()
                    invariant
                        j <= filesystem.subvolumes@.len(),
                        u.len() == j + 1,
                        u[0] == before,
                        u.last() == graph_view(*graph),
                        uuid@ == uuid_hyphenated(fid.0),
                        forall|k: int|
                            0 <= k < j ==> btrfs_subvolume_step(
                                #[trigger] u[k],
                                u[k + 1],
                                fid,
                                filesystem.subvolumes@[k],
                            ),
                    decreases filesystem.subvolumes.len() - j,
                {
                    let sv = &filesystem.subvolumes[j];
                    let ghost b0 = graph_view(*graph);
                    let mut key = String::from_str(uuid.as_str());
                    key.append(":");
                    let digits = decimal_string(sv.id);
                    key.append(digits.as_str());
                    let id = stable_node_id("btrfs-subvolume", key.as_str());
                    proof {
                        use_type_invariant(&*graph);
                    }
                    graph.insert_node(
                        id,
                        plain_node(
                            NodeKind::BtrfsSubvolume {
                                name: sv.path.clone(),
                                read_only: sv.read_only,
                                is_default: sv.is_default,
                            },
                        ),
                    );
                    graph.insert_dependency(
                        Dependency { from: fid, to: id, kind: DependencyKind::Provides },
                    );
                    proof {
                        let b1 = graph_view(*graph);
                        assert(b1.0 =~= b0.0.insert(id, b1.0[id]));
                        assert(btrfs_subvolume_step(b0, b1, fid, filesystem.subvolumes@[j as int]));
                        u = u.push(b1);
                    }
                    j = j + 1;
                }
            },
            None => {},
        }
        proof {
            let after = graph_view(*graph);
            assert(btrfs_step(before, after, mounts@, filesystems@[i as int]));
            t = t.push(after);
        }
        i = i + 1;
    }
}

/// One array: its endpoint node becomes the MD kind its level supports,
/// sized as reported and identified by its UUID.
pub open spec fn md_array_step(
    a: (Map<NodeId, Node>, Set<Dependency>, Set<Relation>),
    b: (Map<NodeId, Node>, Set<Dependency>, Set<Relation>),
    array: MdraidArrayEntry,
    members: Seq<MdraidMemberEntry>,
) -> bool {
    let id = block_id(array.device@);
    let n = b.0[id];
    let base_ids: Seq<ExternalId> = if a.0.contains_key(id) {
        a.0[id].size.identities@
    } else {
        Seq::empty()
    };
    let uuid_ids: Seq<ExternalId> = match array.uuid {
        Some(u) => seq![ExternalId::MdUuid(u)],
        None => Seq::empty(),
    };
    &&& set_at(a.0, b.0, id)
    &&& is_md_kind(n.kind.kind, array, members)
    &&& n.kind.size == Some(Bytes::of(array.size))
    &&& exists|u: Seq<ExternalId>|
        u.len() == uuid_ids.len() && (u.len() == 1 ==> same_external_id(u[0], uuid_ids[0]))
            && n.size.identities@ == with_new_ids(base_ids, u)
    &&& if a.0.contains_key(id) {
        let o = a.0[id];
        &&& n.size.observed_in == o.size.observed_in
        &&& n.size.presence == o.size.presence
        &&& n.size.block == o.size.block
        &&& n.size.device == o.size.device
    } else {
        &&& n.size.observed_in is None
        &&& n.size.presence == Presence::Present
        &&& n.size.block is None
        &&& n.size.device is None
    }
    &&& b.1 == a.1
    &&& b.2 == a.2
}

/// The first array whose UUID matches `uuid` after normalization.
pub open spec fn array_with_uuid(arrays: Seq<MdraidArrayEntry>, uuid: Seq<char>) -> Option<
    MdraidArrayEntry,
>
    decreases arrays.len(),
{
    if arrays.len() == 0 {
        None
    } else if arrays[0].uuid is Some && normalized_uuid(arrays[0].uuid->0@) == normalized_uuid(
        uuid,
    ) {
        Some(arrays[0])
    } else {
        array_with_uuid(arrays.drop_first(), uuid)
    }
}

/// One member superblock: a data-member edge to the array it names.
pub open spec fn md_member_step(
    a: (Map<NodeId, Node>, Set<Dependency>, Set<Relation>),
    b: (Map<NodeId, Node>, Set<Dependency>, Set<Relation>),
    m: MdraidMemberEntry,
    arrays: Seq<MdraidArrayEntry>,
) -> bool {
    match m.array_uuid {
        None => b == a,
        Some(u) => match array_with_uuid(arrays, u@) {
            None => b == a,
            Some(array) => {
                &&& b.0 == a.0
                &&& b.1 == a.1.insert(
                    Dependency {
                        from: block_id(m.device@),
                        to: block_id(array.device@),
                        kind: DependencyKind::MemberOf(
                            MemberRole::Md(
                                MdMember { role: MdMemberRole::Data, slot: None, data_offset: None },
                            ),
                        ),
                    },
                )
                &&& b.2 == a.2
            },
        },
    }
}

pub open spec fn is_mdraid_trace(
    t: Seq<(Map<NodeId, Node>, Set<Dependency>, Set<Relation>)>,
    z: MdraidEntry,
) -> bool {
    let na = z.arrays@.len();
    let nm = z.members@.len();
    &&& t.len() == na + nm + 1
    &&& forall|i: int|
        0 <= i < na ==> md_array_step(#[trigger] t[i], t[i + 1], z.arrays@[i], z.members@)
    &&& forall|i: int|
        0 <= i < nm ==> md_member_step(#[trigger] t[na + i], t[na + i + 1], z.members@[i], z.arrays@)
}

fn find_array(arrays: &[MdraidArrayEntry], uuid: &str) -> (r: Option<usize>)
    ensures
        match r {
            Some(i) => i < arrays@.len() && array_with_uuid(arrays@, uuid@) == Some(
                arrays@[i as int],
            ),
            None => array_with_uuid(arrays@, uuid@) is None,
        },
{
    let target = normalized_native_uuid(uuid);
    let mut i: usize = 0;
    assert(arrays@.skip(0) =~= arrays@);
    while i < arrays.len()
        invariant
            i <= arrays@.len(),
            target@ == normalized_uuid(uuid@),
            array_with_uuid(arrays@, uuid@) == array_with_uuid(arrays@.skip(i as int), uuid@),
        decreases arrays.len() - i,
    {
        assert(arrays@.skip(i as int)[0] == arrays@[i as int]);
        assert(arrays@.skip(i + 1) =~= arrays@.skip(i as int).drop_first());
        match &arrays[i].uuid {
            Some(au) => {
                let n = normalized_native_uuid(au.as_str());
                if str_eq(n.as_str(), target.as_str()) {
                    return Some(i);
                }
            },
            None => {},
        }
        i = i + 1;
    }
    None
}

/// Adds MD array kinds, identities, and member edges.
pub fn enrich_mdraid(graph: &mut NodeGraph, topology: &MdraidEntry)
    ensures
        exists|t: Seq<(Map<NodeId, Node>, Set<Dependency>, Set<Relation>)>|
            is_mdraid_trace(t, *topology) && t[0] == graph_view(*old(graph)) && t.last()
                == graph_view(*final(graph)),
{
    let ghost mut t = seq![graph_view(*graph)];
    let mut i: usize = 0;
    while i < topology.arrays.len()
        invariant
            i <= topology.arrays@.len(),
            t.len() == i + 1,
            t[0] == graph_view(*old(graph)),
            t.last() == graph_view(*graph),
            forall|j: int|
                0 <= j < i ==> md_array_step(
                    #[trigger] t[j],
                    t[j + 1],
                    topology.arrays@[j],
                    topology.members@,
                ),
        decreases topology.arrays.len() - i,
    {
        let array = &topology.arrays[i];
        let ghost before = graph_view(*graph);
        let id = block_node_id(array.device.as_str());
        let existing = take_node(graph, id);
        let mut node = match existing {
            Some(n) => n,
            None => Node {
                kind: NodeSpec {
                    kind: NodeKind::Unknown("md array".to_string()),
                    size: Some(Bytes::new(array.size)),
                },
                size: NodeFacts::with_presence(Presence::Present),
            },
        };
        let ghost orig = node;
        node.kind.kind = mdraid_kind(array, topology.members.as_slice());
        node.kind.size = Some(Bytes::new(array.size));
        let mut incoming: Vec<ExternalId> = Vec::new();
        match &array.uuid {
            Some(u) => incoming.push(ExternalId::MdUuid(u.clone())),
            None => {},
        }
        let ghost u = incoming@;
        add_new_ids(&mut node.size.identities, incoming);
        proof {
            use_type_invariant(&*graph);
            if !before.0.contains_key(id) {
                assert(orig.size.identities@ =~= Seq::<ExternalId>::empty());
            }
        }
        graph.insert_node(id, node);
        proof {
            let after = graph_view(*graph);
            assert(after.0 =~= before.0.insert(id, after.0[id]));
            assert(md_array_step(before, after, topology.arrays@[i as int], topology.members@));
            t = t.push(after);
        }
        i = i + 1;
    }
    let ghost na = topology.arrays@.len();
    let mut i: usize = 0;
    while i < topology.members.len()
        invariant
            i <= topology.members@.len(),
            na == topology.arrays@.len(),
            t.len() == na + i + 1,
            t[0] == graph_view(*old(graph)),
            t.last() == graph_view(*graph),
            forall|j: int|
                0 <= j < na ==> md_array_step(
                    #[trigger] t[j],
                    t[j + 1],
                    topology.arrays@[j],
                    topology.members@,
                ),
            forall|j: int|
                0 <= j < i ==> md_member_step(
                    #[trigger] t[na + j],
                    t[na + j + 1],
                    topology.members@[j],
                    topology.arrays@,
                ),
        decreases topology.members.len() - i,
    {
        let member = &topology.members[i];
        let ghost before = graph_view(*graph);
        match &member.array_uuid {
            Some(u) => match find_array(topology.arrays.as_slice(), u.as_str()) {
                Some(k) => {
                    proof {
                        use_type_invariant(&*graph);
                    }
                    let from = block_node_id(member.device.as_str());
                    let to = block_node_id(topology.arrays[k].device.as_str());
                    graph.insert_dependency(
                        Dependency {
                            from,
                            to,
                            kind: DependencyKind::MemberOf(
                                MemberRole::Md(
                                    MdMember {
                                        role: MdMemberRole::Data,
                                        slot: None,
                                        data_offset: None,
                                    },
                                ),
                            ),
                        },
                    );
                },
                None => {},
            },
            None => {},
        }
        proof {
            let after = graph_view(*graph);
            assert(md_member_step(before, after, topology.members@[i as int], topology.arrays@));
            t = t.push(after);
        }
        i = i + 1;
    }
}

/// Identity of the last volume group with the given name.
pub open spec fn vg_id_for(vgs: Seq<LvmVgEntry>, name: Seq<char>) -> Option<NodeId>
    decreases vgs.len(),
{
    if vgs.len() == 0 {
        None
    } else if vgs.last().name@ == name {
        Some(stable_id("lvm-vg"@, vgs.last().uuid@))
    } else {
        vg_id_for(vgs.drop_last(), name)
    }
}

fn find_vg_id(vgs: &[LvmVgEntry], name: &str) -> (r: Option<NodeId>)
    ensures
        r == vg_id_for(vgs@, name@),
{
    let mut i = vgs.len();
    assert(vgs@.take(vgs@.len() as int) =~= vgs@);
    while i > 0
        invariant
            i <= vgs@.len(),
            vg_id_for(vgs@, name@) == vg_id_for(vgs@.take(i as int), name@),
        decreases i,
    {
        assert(vgs@.take(i as int).drop_last() =~= vgs@.take(i - 1));
        if str_eq(vgs[i - 1].name.as_str(), name) {
            return Some(stable_node_id("lvm-vg", vgs[i - 1].uuid.as_str()));
        }
        i = i - 1;
    }
    None
}

/// One volume group: its node is set to the group, with its size, extent
/// size when non-zero, and UUID.
pub open spec fn lvm_vg_step(
    a: (Map<NodeId, Node>, Set<Dependency>, Set<Relation>),
    b: (Map<NodeId, Node>, Set<Dependency>, Set<Relation>),
    vg: LvmVgEntry,
) -> bool {
    let id = stable_id("lvm-vg"@, vg.uuid@);
    let n = b.0[id];
    &&& set_at(a.0, b.0, id)
    &&& n.kind.kind matches NodeKind::LvmVg { name: x, extent_size: e } && x@ == vg.name@ && e == (
    if vg.extent_size > 0 {
        Some(Bytes::of(vg.extent_size))
    } else {
        None
    })
    &&& n.kind.size == Some(Bytes::of(vg.size))
    &&& n.size.observed_in is None
    &&& n.size.presence == Presence::Present
    &&& n.size.identities@ == seq![ExternalId::LvmVgUuid(vg.uuid)]
    &&& n.size.block is None
    &&& n.size.device is None
    &&& b.1 == a.1
    &&& b.2 == a.2
}

/// One physical volume: its content node becomes a PV identified by its
/// UUID, member of its group when the group is known.
pub open spec fn lvm_pv_step(
    a: (Map<NodeId, Node>, Set<Dependency>, Set<Relation>),
    b: (Map<NodeId, Node>, Set<Dependency>, Set<Relation>),
    pv: LvmPvEntry,
    vgs: Seq<LvmVgEntry>,
) -> bool {
    let id = content_id(pv.device@);
    let n = b.0[id];
    &&& set_at(a.0, b.0, id)
    &&& n.kind.kind == NodeKind::LvmPv
    &&& if a.0.contains_key(id) {
        let o = a.0[id];
        &&& n.kind.size == o.kind.size
        &&& n.size.observed_in == o.size.observed_in
        &&& n.size.presence == o.size.presence
        &&& n.size.identities@ == with_new_ids(
            o.size.identities@,
            seq![ExternalId::LvmPvUuid(pv.uuid)],
        )
        &&& n.size.block == o.size.block
        &&& n.size.device == o.size.device
    } else {
        &&& n.kind.size == Some(Bytes::of(pv.size))
        &&& n.size.observed_in is None
        &&& n.size.presence == Presence::Present
        &&& n.size.identities@ == seq![ExternalId::LvmPvUuid(pv.uuid)]
        &&& n.size.block is None
        &&& n.size.device is None
    }
    &&& b.1 == match opt_string_view(pv.vg_name) {
        Some(name) => match vg_id_for(vgs, name) {
            Some(vid) => a.1.insert(
                Dependency {
                    from: id,
                    to: vid,
                    kind: DependencyKind::MemberOf(MemberRole::LvmPv),
                },
            ),
            None => a.1,
        },
        None => a.1,
    }
    &&& b.2 == a.2
}

/// The first live mapping that an LVM logical volume with `uuid` backs: an
/// `LVM-` device-mapper UUID ending with the volume's UUID.
pub open spec fn lv_mapping(mappings: Seq<DevmapperEntry>, uuid: Seq<char>) -> Option<
    DevmapperEntry,
>
    decreases mappings.len(),
{
    if mappings.len() == 0 {
        None
    } else if mappings[0].uuid is Some && has_prefix(mappings[0].uuid->0@, "LVM-"@)
        && has_suffix(normalized_uuid(mappings[0].uuid->0@), normalized_uuid(uuid)) {
        Some(mappings[0])
    } else {
        lv_mapping(mappings.drop_first(), uuid)
    }
}

/// Node of a logical volume: its active endpoint, else its stable LVM key.
pub open spec fn lv_node_id(
    endpoints: Seq<UdevBlockEntry>,
    mappings: Seq<DevmapperEntry>,
    lv: LvmLvEntry,
) -> NodeId {
    match lv_mapping(mappings, lv.uuid@) {
        Some(m) => match path_for_devno(endpoints, m.devno.major, m.devno.minor) {
            Some(p) => block_id(p),
            None => stable_id("lvm-lv"@, lv.uuid@),
        },
        None => stable_id("lvm-lv"@, lv.uuid@),
    }
}

/// One logical volume: its node becomes the volume, keeping the facts
/// already observed for it, provided by its group when the group is known.
pub open spec fn lvm_lv_step(
    a: (Map<NodeId, Node>, Set<Dependency>, Set<Relation>),
    b: (Map<NodeId, Node>, Set<Dependency>, Set<Relation>),
    lv: LvmLvEntry,
    endpoints: Seq<UdevBlockEntry>,
    mappings: Seq<DevmapperEntry>,
    vgs: Seq<LvmVgEntry>,
) -> bool {
    let id = lv_node_id(endpoints, mappings, lv);
    let n = b.0[id];
    &&& set_at(a.0, b.0, id)
    &&& n.kind.kind matches NodeKind::LvmLv(x) && x.name@ == lv.name@ && is_lv_kind_of(
        x.kind,
        opt_string_view(lv.segment_type),
    )
    &&& n.kind.size == Some(Bytes::of(lv.size))
    &&& if a.0.contains_key(id) {
        let o = a.0[id];
        &&& n.size.observed_in == o.size.observed_in
        &&& n.size.presence == o.size.presence
        &&& n.size.identities@ == with_new_ids(
            o.size.identities@,
            seq![ExternalId::LvmLvUuid(lv.uuid)],
        )
        &&& n.size.block == o.size.block
        &&& n.size.device == o.size.device
    } else {
        &&& n.size.observed_in is None
        &&& n.size.presence == Presence::Present
        &&& n.size.identities@ == seq![ExternalId::LvmLvUuid(lv.uuid)]
        &&& n.size.block is None
        &&& n.size.device is None
    }
    &&& b.1 == match vg_id_for(vgs, lv.vg_name@) {
        Some(vid) => a.1.insert(Dependency { from: vid, to: id, kind: DependencyKind::Provides }),
        None => a.1,
    }
    &&& b.2 == a.2
}

pub open spec fn is_lvm_trace(
    t: Seq<(Map<NodeId, Node>, Set<Dependency>, Set<Relation>)>,
    endpoints: Seq<UdevBlockEntry>,
    mappings: Seq<DevmapperEntry>,
    z: LvmEntry,
) -> bool {
    let ng = z.vgs@.len();
    let np = z.pvs@.len();
    let nl = z.lvs@.len();
    &&& t.len() == ng + np + nl + 1
    &&& forall|i: int| 0 <= i < ng ==> lvm_vg_step(#[trigger] t[i], t[i + 1], z.vgs@[i])
    &&& forall|i: int|
        0 <= i < np ==> lvm_pv_step(#[trigger] t[ng + i], t[ng + i + 1], z.pvs@[i], z.vgs@)
    &&& forall|i: int|
        0 <= i < nl ==> lvm_lv_step(
            #[trigger] t[ng + np + i],
            t[ng + np + i + 1],
            z.lvs@[i],
            endpoints,
            mappings,
            z.vgs@,
        )
}

fn find_lv_mapping(mappings: &[DevmapperEntry], uuid: &str) -> (r: Option<usize>)
    ensures
        match r {
            Some(i) => i < mappings@.len() && lv_mapping(mappings@, uuid@) == Some(
                mappings@[i as int],
            ),
            None => lv_mapping(mappings@, uuid@) is None,
        },
{
    let target = normalized_native_uuid(uuid);
    let tv = crate::text::chars_of(target.as_str());
    let mut i: usize = 0;
    assert(mappings@.skip(0) =~= mappings@);
    while i < mappings.len()
        invariant
            i <= mappings@.len(),
            tv@ == normalized_uuid(uuid@),
            lv_mapping(mappings@, uuid@) == lv_mapping(mappings@.skip(i as int), uuid@),
        decreases mappings.len() - i,
    {
        assert(mappings@.skip(i as int)[0] == mappings@[i as int]);
        assert(mappings@.skip(i + 1) =~= mappings@.skip(i as int).drop_first());
        match &mappings[i].uuid {
            Some(mu) => {
                if str_starts_with(mu.as_str(), "LVM-") {
                    let n = normalized_native_uuid(mu.as_str());
                    let nv = crate::text::chars_of(n.as_str());
                    if crate::text::ends_with_chars(nv.as_slice(), tv.as_slice()) {
                        return Some(i);
                    }
                }
            },
            None => {},
        }
        i = i + 1;
    }
    None
}

/// Adds LVM PV/VG/LV topology and stable LVM identities.
pub fn enrich_lvm(
    graph: &mut NodeGraph,
    endpoints: &[UdevBlockEntry],
    mappings: &[DevmapperEntry],
    topology: &LvmEntry,
)
    ensures
        exists|t: Seq<(Map<NodeId, Node>, Set<Dependency>, Set<Relation>)>|
            is_lvm_trace(t, endpoints@, mappings@, *topology) && t[0] == graph_view(*old(graph))
                && t.last() == graph_view(*final(graph)),
{
    let ghost mut t = seq![graph_view(*graph)];
    let mut i: usize = 0;
    while i < topology.vgs.len()
        invariant
            i <= topology.vgs@.len(),
            t.len() == i + 1,
            t[0] == graph_view(*old(graph)),
            t.last() == graph_view(*graph),
            forall|j: int| 0 <= j < i ==> lvm_vg_step(#[trigger] t[j], t[j + 1], topology.vgs@[j]),
        decreases topology.vgs.len() - i,
    {
        let vg = &topology.vgs[i];
        let ghost before = graph_view(*graph);
        let id = stable_node_id("lvm-vg", vg.uuid.as_str());
        let extent_size = if vg.extent_size > 0 {
            Some(Bytes::new(vg.extent_size))
        } else {
            None
        };
        let identities = vec![ExternalId::LvmVgUuid(vg.uuid.clone())];
        assert(identities@ =~= seq![ExternalId::LvmVgUuid(vg.uuid)]);
        let node = Node {
            kind: NodeSpec {
                kind: NodeKind::LvmVg { name: vg.name.clone(), extent_size },
                size: Some(Bytes::new(vg.size)),
            },
            size: NodeFacts {
                observed_in: None,
                presence: Presence::Present,
                identities,
                block: None,
                device: None,
            },
        };
        proof {
            use_type_invariant(&*graph);
        }
        graph.insert_node(id, node);
        proof {
            let after = graph_view(*graph);
            assert(after.0 =~= before.0.insert(id, after.0[id]));
            assert(lvm_vg_step(before, after, topology.vgs@[i as int]));
            t = t.push(after);
        }
        i = i + 1;
    }
    let ghost ng = topology.vgs@.len();
    let mut i: usize = 0;
    while i < topology.pvs.len()
        invariant
            i <= topology.pvs@.len(),
            ng == topology.vgs@.len(),
            t.len() == ng + i + 1,
            t[0] == graph_view(*old(graph)),
            t.last() == graph_view(*graph),
            forall|j: int| 0 <= j < ng ==> lvm_vg_step(#[trigger] t[j], t[j + 1], topology.vgs@[j]),
            forall|j: int|
                0 <= j < i ==> lvm_pv_step(
                    #[trigger] t[ng + j],
                    t[ng + j + 1],
                    topology.pvs@[j],
                    topology.vgs@,
                ),
        decreases topology.pvs.len() - i,
    {
        let pv = &topology.pvs[i];
        let ghost before = graph_view(*graph);
        let id = content_node_id(pv.device.as_str());
        let mut node = match take_node(graph, id) {
            Some(n) => n,
            None => Node {
                kind: NodeSpec { kind: NodeKind::LvmPv, size: Some(Bytes::new(pv.size)) },
                size: NodeFacts::with_presence(Presence::Present),
            },
        };
        let ghost orig = node;
        node.kind.kind = NodeKind::LvmPv;
        let incoming = vec![ExternalId::LvmPvUuid(pv.uuid.clone())];
        assert(incoming@ =~= seq![ExternalId::LvmPvUuid(pv.uuid)]);
        add_new_ids(&mut node.size.identities, incoming);
        proof {
            use_type_invariant(&*graph);
            if !before.0.contains_key(id) {
                assert(orig.size.identities@ =~= Seq::<ExternalId>::empty());
                reveal_with_fuel(with_new_ids, 2);
                assert(node.size.identities@ =~= seq![ExternalId::LvmPvUuid(pv.uuid)]);
            }
        }
        graph.insert_node(id, node);
        proof {
            let mid = graph_view(*graph);
            assert(mid.0 =~= before.0.insert(id, mid.0[id]));
        }
        match &pv.vg_name {
            Some(name) => match find_vg_id(topology.vgs.as_slice(), name.as_str()) {
                Some(vid) => {
                    graph.insert_dependency(
                        Dependency {
                            from: id,
                            to: vid,
                            kind: DependencyKind::MemberOf(MemberRole::LvmPv),
                        },
                    );
                },
                None => {},
            },
            None => {},
        }
        proof {
            let after = graph_view(*graph);
            assert(lvm_pv_step(before, after, topology.pvs@[i as int], topology.vgs@));
            t = t.push(after);
        }
        i = i + 1;
    }
    let ghost np = topology.pvs@.len();
    let mut i: usize = 0;
    while i < topology.lvs.len()
        invariant
            i <= topology.lvs@.len(),
            ng == topology.vgs@.len(),
            np == topology.pvs@.len(),
            t.len() == ng + np + i + 1,
            t[0] == graph_view(*old(graph)),
            t.last() == graph_view(*graph),
            forall|j: int| 0 <= j < ng ==> lvm_vg_step(#[trigger] t[j], t[j + 1], topology.vgs@[j]),
            forall|j: int|
                0 <= j < np ==> lvm_pv_step(
                    #[trigger] t[ng + j],
                    t[ng + j + 1],
                    topology.pvs@[j],
                    topology.vgs@,
                ),
            forall|j: int|
                0 <= j < i ==> lvm_lv_step(
                    #[trigger] t[ng + np + j],
                    t[ng + np + j + 1],
                    topology.lvs@[j],
                    endpoints@,
                    mappings@,
                    topology.vgs@,
                ),
        decreases topology.lvs.len() - i,
    {
        let lv = &topology.lvs[i];
        let ghost before = graph_view(*graph);
        let active_path = match find_lv_mapping(mappings, lv.uuid.as_str()) {
            Some(k) => find_devno_path(endpoints, mappings[k].devno.major, mappings[k].devno.minor),
            None => None,
        };
        let id = match active_path {
            Some(p) => block_node_id(p.as_str()),
            None => stable_node_id("lvm-lv", lv.uuid.as_str()),
        };
        assert(id == lv_node_id(endpoints@, mappings@, *lv));
        let mut facts = match take_node(graph, id) {
            Some(n) => n.size,
            None => NodeFacts::with_presence(Presence::Present),
        };
        let ghost orig = facts;
        let incoming = vec![ExternalId::LvmLvUuid(lv.uuid.clone())];
        assert(incoming@ =~= seq![ExternalId::LvmLvUuid(lv.uuid)]);
        add_new_ids(&mut facts.identities, incoming);
        let segment = match &lv.segment_type {
            Some(s) => Some(s.as_str()),
            None => None,
        };
        let node = Node {
            kind: NodeSpec {
                kind: NodeKind::LvmLv(LvmLv { name: lv.name.clone(), kind: lvm_lv_kind(segment) }),
                size: Some(Bytes::new(lv.size)),
            },
            size: facts,
        };
        proof {
            use_type_invariant(&*graph);
            if !before.0.contains_key(id) {
                assert(orig.identities@ =~= Seq::<ExternalId>::empty());
                reveal_with_fuel(with_new_ids, 2);
                assert(node.size.identities@ =~= seq![ExternalId::LvmLvUuid(lv.uuid)]);
            }
        }
        graph.insert_node(id, node);
        proof {
            let mid = graph_view(*graph);
            assert(mid.0 =~= before.0.insert(id, mid.0[id]));
        }
        match find_vg_id(topology.vgs.as_slice(), lv.vg_name.as_str()) {
            Some(vid) => {
                graph.insert_dependency(
                    Dependency { from: vid, to: id, kind: DependencyKind::Provides },
                );
            },
            None => {},
        }
        proof {
            let after = graph_view(*graph);
            assert(lvm_lv_step(
                before,
                after,
                topology.lvs@[i as int],
                endpoints@,
                mappings@,
                topology.vgs@,
            ));
            t = t.push(after);
        }
        i = i + 1;
    }
}

/// `a * b`, or the largest `u64` when the product does not fit.
pub open spec fn saturating_product(a: u64, b: u64) -> u64 {
    if a * b > u64::MAX {
        u64::MAX
    } else {
        (a * b) as u64
    }
}

/// `u64::saturating_mul`.
pub fn saturating_mul(a: u64, b: u64) -> (r: u64)
    ensures
        r == saturating_product(a, b),
{
    match a.checked_mul(b) {
        Some(x) => x,
        None => u64::MAX,
    }
}

/// Capacity of a device of `sectors` 512-byte sectors.
pub open spec fn sectors_size(sectors: Option<u64>) -> Option<Bytes> {
    match sectors {
        Some(s) => Some(Bytes::of(saturating_product(s, 512))),
        None => None,
    }
}

fn sectors_bytes(sectors: Option<u64>) -> (r: Option<Bytes>)
    ensures
        r == sectors_size(sectors),
{
    match sectors {
        Some(s) => Some(Bytes::new(saturating_mul(s, 512))),
        None => None,
    }
}

/// Block size of a non-zero reported value.
pub open spec fn block_size_of(v: Option<u32>) -> Option<BlockSize> {
    match v {
        Some(x) => if x != 0 {
            Some(BlockSize::of(x))
        } else {
            None
        },
        None => None,
    }
}

fn block_size(v: Option<u32>) -> (r: Option<BlockSize>)
    ensures
        r == block_size_of(v),
{
    match v {
        Some(x) => BlockSize::new(x),
        None => None,
    }
}

/// Geometry from reported logical and physical block sizes; none without a
/// logical block size.
pub open spec fn geometry_of(logical: Option<u32>, physical: Option<u32>) -> Option<BlockGeometry> {
    match block_size_of(logical) {
        Some(l) => Some(
            BlockGeometry {
                logical_block_size: l,
                physical_block_size: block_size_of(physical),
                alignment_offset: None,
                minimum_io_size: None,
                optimal_io_size: None,
            },
        ),
        None => None,
    }
}

/// Facts that libudev reports for an endpoint.
pub open spec fn is_native_facts(f: NodeFacts, e: UdevBlockEntry) -> bool {
    let wwn: Seq<ExternalId> = match e.wwn {
        Some(w) => seq![ExternalId::Wwn(w)],
        None => Seq::empty(),
    };
    let serial: Seq<ExternalId> = match e.serial {
        Some(s) => seq![ExternalId::Serial { vendor: None, value: s }],
        None => Seq::empty(),
    };
    &&& f.observed_in is None
    &&& f.presence == Presence::Present
    &&& f.identities@ == wwn + serial
    &&& f.block matches Some(b) && b.paths@ == seq![e.devnode] && b.devno == DeviceNumber {
        major: e.major,
        minor: e.minor,
    } && b.geometry == geometry_of(e.logical_block_size, e.physical_block_size) && b.read_only
        == e.read_only
    &&& f.device == if opt_string_view(e.devtype) == Some("disk"@) {
        Some(
            DeviceInfo {
                model: e.model,
                vendor: None,
                transport: transport_of(e.sysname@),
                network_backing: None,
                rotational: e.rotational,
                removable: e.removable,
                zoned: None,
            },
        )
    } else {
        None
    }
}

fn clone_opt_string(o: &Option<String>) -> (r: Option<String>)
    ensures
        r == *o,
{
    match o {
        Some(s) => Some(s.clone()),
        None => None,
    }
}

/// Builds canonical runtime facts from one libudev endpoint.
pub fn native_block_facts(endpoint: &UdevBlockEntry) -> (r: NodeFacts)
    ensures
        is_native_facts(r, *endpoint),
{
    let mut identities: Vec<ExternalId> = Vec::new();
    if let Some(wwn) = clone_opt_string(&endpoint.wwn) {
        identities.push(ExternalId::Wwn(wwn));
    }
    if let Some(serial) = clone_opt_string(&endpoint.serial) {
        identities.push(ExternalId::Serial { vendor: None, value: serial });
    }
    let geometry = match block_size(endpoint.logical_block_size) {
        Some(logical_block_size) => Some(
            BlockGeometry {
                logical_block_size,
                physical_block_size: block_size(endpoint.physical_block_size),
                alignment_offset: None,
                minimum_io_size: None,
                optimal_io_size: None,
            },
        ),
        None => None,
    };
    let device = if is_disk(&endpoint.devtype) {
        Some(
            DeviceInfo {
                model: clone_opt_string(&endpoint.model),
                vendor: None,
                transport: transport(endpoint.sysname.as_str()),
                network_backing: None,
                rotational: endpoint.rotational,
                removable: endpoint.removable,
                zoned: None,
            },
        )
    } else {
        None
    };
    let paths = vec![endpoint.devnode.clone()];
    assert(paths@ =~= seq![endpoint.devnode]);
    proof {
        let e = *endpoint;
        let wwn: Seq<ExternalId> = match e.wwn {
            Some(w) => seq![ExternalId::Wwn(w)],
            None => Seq::empty(),
        };
        let serial: Seq<ExternalId> = match e.serial {
            Some(s) => seq![ExternalId::Serial { vendor: None, value: s }],
            None => Seq::empty(),
        };
        assert(identities@ =~= wwn + serial);
    }
    NodeFacts {
        observed_in: None,
        presence: Presence::Present,
        identities,
        block: Some(
            BlockFacts {
                paths,
                devno: DeviceNumber { major: endpoint.major, minor: endpoint.minor },
                geometry,
                read_only: endpoint.read_only,
            },
        ),
        device,
    }
}

/// One endpoint: its block node is set to the given kind, sized in 512-byte
/// sectors, with the facts libudev reports.
pub open spec fn endpoint_step(
    a: (Map<NodeId, Node>, Set<Dependency>, Set<Relation>),
    b: (Map<NodeId, Node>, Set<Dependency>, Set<Relation>),
    e: UdevBlockEntry,
    kind: spec_fn(NodeKind) -> bool,
) -> bool {
    let id = block_id(e.devnode@);
    &&& set_at(a.0, b.0, id)
    &&& kind(b.0[id].kind.kind)
    &&& b.0[id].kind.size == sectors_size(e.size_sectors)
    &&& is_native_facts(b.0[id].size, e)
    &&& b.1 == a.1
    &&& b.2 == a.2
}

/// Inserts one endpoint and its udev-backed runtime facts.
pub fn insert_native_endpoint(graph: &mut NodeGraph, endpoint: &UdevBlockEntry, kind: NodeKind)
    ensures
        endpoint_step(
            graph_view(*old(graph)),
            graph_view(*final(graph)),
            *endpoint,
            |k: NodeKind| k == kind,
        ),
{
    proof {
        use_type_invariant(&*graph);
    }
    let id = block_node_id(endpoint.devnode.as_str());
    let node = Node {
        kind: NodeSpec { kind, size: sectors_bytes(endpoint.size_sectors) },
        size: native_block_facts(endpoint),
    };
    graph.insert_node(id, node);
    assert(graph.node_map() =~= old(graph).node_map().insert(id, graph.node_map()[id]));
}

/// Kind of content a blkid signature type names.
pub open spec fn is_content_kind(k: NodeKind, t: Seq<char>, label: Option<String>) -> bool {
    if t == "swap"@ {
        k == NodeKind::Swap
    } else if t == "LVM2_member"@ {
        k == NodeKind::LvmPv
    } else if t == "crypto_LUKS"@ || t == "linux_raid_member"@ {
        k matches NodeKind::Unknown(u) && u@ == "signature:"@ + t
    } else {
        k matches NodeKind::Filesystem { kind: fs, label: l } && is_filesystem_kind_of(fs, t) && l
            == label
    }
}

/// One blkid signature: the content node on its device is set, identified
/// by the content UUID, above the device's block node.
pub open spec fn content_step(
    a: (Map<NodeId, Node>, Set<Dependency>, Set<Relation>),
    b: (Map<NodeId, Node>, Set<Dependency>, Set<Relation>),
    s: BlkidEntry,
    endpoint: Option<UdevBlockEntry>,
) -> bool {
    match opt_string_view(s.signature_type) {
        None => b == a,
        Some(t) => {
            let id = content_id(s.device@);
            let n = b.0[id];
            &&& set_at(a.0, b.0, id)
            &&& is_content_kind(n.kind.kind, t, s.label)
            &&& n.kind.size == match endpoint {
                Some(e) => sectors_size(e.size_sectors),
                None => None,
            }
            &&& n.size.observed_in is None
            &&& n.size.presence == Presence::Present
            &&& match s.uuid {
                Some(u) => n.size.identities@.len() == 1 && (n.size.identities@[0] matches ExternalId::Filesystem { fs_type: ft, value: v } && ft@ == t && v == u),
                None => n.size.identities@.len() == 0,
            }
            &&& n.size.block is None
            &&& n.size.device is None
            &&& b.1 == a.1.insert(
                Dependency { from: block_id(s.device@), to: id, kind: DependencyKind::Backs },
            )
            &&& b.2 == a.2
        },
    }
}

/// Adds content identified by libblkid above its backing endpoint.
pub fn add_native_content(
    graph: &mut NodeGraph,
    signature: &BlkidEntry,
    endpoint: Option<&UdevBlockEntry>,
)
    ensures
        content_step(
            graph_view(*old(graph)),
            graph_view(*final(graph)),
            *signature,
            match endpoint {
                Some(e) => Some(*e),
                None => None,
            },
        ),
{
    let t = match &signature.signature_type {
        Some(t) => t.as_str(),
        None => return ,
    };
    let kind = if str_eq(t, "swap") {
        NodeKind::Swap
    } else if str_eq(t, "LVM2_member") {
        NodeKind::LvmPv
    } else if str_eq(t, "crypto_LUKS") || str_eq(t, "linux_raid_member") {
        let mut u = String::from_str("signature:");
        u.append(t);
        NodeKind::Unknown(u)
    } else {
        NodeKind::Filesystem { kind: filesystem_kind(t), label: clone_opt_string(&signature.label) }
    };
    let id = content_node_id(signature.device.as_str());
    let mut identities: Vec<ExternalId> = Vec::new();
    match &signature.uuid {
        Some(u) => identities.push(ExternalId::Filesystem { fs_type: t.to_string(), value: u.clone() }),
        None => {},
    }
    let size = match endpoint {
        Some(e) => sectors_bytes(e.size_sectors),
        None => None,
    };
    proof {
        use_type_invariant(&*graph);
    }
    graph.insert_node(
        id,
        Node {
            kind: NodeSpec { kind, size },
            size: NodeFacts {
                observed_in: None,
                presence: Presence::Present,
                identities,
                block: None,
                device: None,
            },
        },
    );
    assert(graph.node_map() =~= old(graph).node_map().insert(id, graph.node_map()[id]));
    let from = block_node_id(signature.device.as_str());
    graph.insert_dependency(Dependency { from, to: id, kind: DependencyKind::Backs });
}

/// The last endpoint at `path`.
pub open spec fn endpoint_at(endpoints: Seq<UdevBlockEntry>, path: Seq<char>) -> Option<
    UdevBlockEntry,
>
    decreases endpoints.len(),
{
    if endpoints.len() == 0 {
        None
    } else if endpoints.last().devnode@ == path {
        Some(endpoints.last())
    } else {
        endpoint_at(endpoints.drop_last(), path)
    }
}

fn find_endpoint<'a>(endpoints: &'a [UdevBlockEntry], path: &str) -> (r: Option<&'a UdevBlockEntry>)
    ensures
        match r {
            Some(e) => endpoint_at(endpoints@, path@) == Some(*e),
            None => endpoint_at(endpoints@, path@) is None,
        },
{
    let mut i = endpoints.len();
    assert(endpoints@.take(endpoints@.len() as int) =~= endpoints@);
    while i > 0
        invariant
            i <= endpoints@.len(),
            endpoint_at(endpoints@, path@) == endpoint_at(endpoints@.take(i as int), path@),
        decreases i,
    {
        assert(endpoints@.take(i as int).drop_last() =~= endpoints@.take(i - 1));
        if str_eq(endpoints[i - 1].devnode.as_str(), path) {
            return Some(&endpoints[i - 1]);
        }
        i = i - 1;
    }
    None
}

/// Whether udev reports the endpoint as a partition.
pub open spec fn is_partition_endpoint(e: UdevBlockEntry) -> bool {
    opt_string_view(e.devtype) == Some("partition"@)
}

/// Table kind of a libfdisk table, when its label names a known kind.
pub open spec fn table_kind(t: FdiskTable) -> Option<PartitionTable> {
    match opt_string_view(t.label) {
        Some(l) => partition_table_named(l),
        None => None,
    }
}

/// Texts of a list of strings.
pub open spec fn texts(v: Seq<String>) -> Seq<Seq<char>> {
    v.map_values(|s: String| s@)
}

/// Paths of the endpoints that are not partitions, in order.
pub open spec fn udev_paths(endpoints: Seq<UdevBlockEntry>) -> Seq<Seq<char>>
    decreases endpoints.len(),
{
    if endpoints.len() == 0 {
        Seq::empty()
    } else {
        let prev = udev_paths(endpoints.drop_last());
        if is_partition_endpoint(endpoints.last()) {
            prev
        } else {
            prev.push(endpoints.last().devnode@)
        }
    }
}

/// Paths of the numbered partitions of a table's device, in order.
pub open spec fn partition_paths(device: Seq<char>, parts: Seq<FdiskPartition>) -> Seq<Seq<char>>
    decreases parts.len(),
{
    if parts.len() == 0 {
        Seq::empty()
    } else {
        let prev = partition_paths(device, parts.drop_last());
        if parts.last().number == 0 {
            prev
        } else {
            prev.push(partition_path_of(device, parts.last().number))
        }
    }
}

/// Paths of the numbered partitions of the tables of known kind, in order.
pub open spec fn table_paths(tables: Seq<FdiskTable>) -> Seq<Seq<char>>
    decreases tables.len(),
{
    if tables.len() == 0 {
        Seq::empty()
    } else {
        let prev = table_paths(tables.drop_last());
        if table_kind(tables.last()) is Some {
            prev + partition_paths(tables.last().device@, tables.last().partitions@)
        } else {
            prev
        }
    }
}

/// Whether a device path is already represented before the fallback pass:
/// a non-partition endpoint, or a numbered partition of a known table.
pub open spec fn is_represented(
    endpoints: Seq<UdevBlockEntry>,
    tables: Seq<FdiskTable>,
    path: Seq<char>,
) -> bool {
    (udev_paths(endpoints) + table_paths(tables)).contains(path)
}

/// Facts a partition starts from: those of its endpoint when udev reports
/// one, else facts with unknown presence only.
pub open spec fn is_base_facts(base: NodeFacts, ep: Option<UdevBlockEntry>) -> bool {
    match ep {
        Some(e) => is_native_facts(base, e),
        None => base.only_presence(Presence::Unknown),
    }
}

/// Facts of a partition: those of its endpoint when udev reports one,
/// present, with its GPT partition UUID when it has one.
pub open spec fn is_partition_facts(f: NodeFacts, ep: Option<UdevBlockEntry>, p: FdiskPartition) -> bool {
    let uuid_ids: Seq<ExternalId> = match opt_string_view(p.uuid) {
        Some(u) => match uuid_parse(u) {
            Some(v) => seq![ExternalId::GptPartitionUuid(v)],
            None => Seq::empty(),
        },
        None => Seq::empty(),
    };
    exists|base: NodeFacts|
        {
            &&& #[trigger] is_base_facts(base, ep)
            &&& f.observed_in == base.observed_in
            &&& f.presence == Presence::Present
            &&& f.identities@ == base.identities@ + uuid_ids
            &&& f.block == base.block
            &&& f.device == base.device
        }
}

/// One numbered partition of a table: its block node is set, contained in
/// the table at its byte offset.
pub open spec fn partition_step(
    a: (Map<NodeId, Node>, Set<Dependency>, Set<Relation>),
    b: (Map<NodeId, Node>, Set<Dependency>, Set<Relation>),
    endpoints: Seq<UdevBlockEntry>,
    t: FdiskTable,
    table: NodeId,
    p: FdiskPartition,
) -> bool {
    if p.number == 0 {
        b == a
    } else {
        let path = partition_path_of(t.device@, p.number);
        let id = block_id(path);
        let offset = Bytes::of(saturating_product(p.start_sectors, t.sector_size));
        let n = b.0[id];
        &&& set_at(a.0, b.0, id)
        &&& n.kind.kind matches NodeKind::Partition { number: nz, offset: o, role: r, attributes: at }
            && nz.value() == p.number && o == offset && r is None && at == PartitionAttributes {
            gpt: None,
            bootable: Some(p.bootable),
        }
        &&& n.kind.size == Some(Bytes::of(saturating_product(p.size_sectors, t.sector_size)))
        &&& is_partition_facts(n.size, endpoint_at(endpoints, path), p)
        &&& b.1 == a.1.insert(
            Dependency { from: table, to: id, kind: DependencyKind::Contains { offset } },
        )
        &&& b.2 == a.2
    }
}

/// One libfdisk table of a known kind: its table node backed by the disk,
/// then one partition step per partition, in order.
pub open spec fn table_step(
    a: (Map<NodeId, Node>, Set<Dependency>, Set<Relation>),
    b: (Map<NodeId, Node>, Set<Dependency>, Set<Relation>),
    endpoints: Seq<UdevBlockEntry>,
    t: FdiskTable,
) -> bool {
    match table_kind(t) {
        None => b == a,
        Some(kind) => {
            let table = stable_id("partition-table-path"@, t.device@);
            exists|u: Seq<(Map<NodeId, Node>, Set<Dependency>, Set<Relation>)>|
                {
                    &&& u.len() == t.partitions@.len() + 1
                    &&& set_at(a.0, u[0].0, table)
                    &&& u[0].0[table].kind.kind == NodeKind::PartitionTable(kind)
                    &&& is_plain_node(u[0].0[table])
                    &&& u[0].1 == a.1.insert(
                        Dependency {
                            from: block_id(t.device@),
                            to: table,
                            kind: DependencyKind::Backs,
                        },
                    )
                    &&& u[0].2 == a.2
                    &&& forall|j: int|
                        0 <= j < t.partitions@.len() ==> partition_step(
                            #[trigger] u[j],
                            u[j + 1],
                            endpoints,
                            t,
                            table,
                            t.partitions@[j],
                        )
                    &&& u.last() == b
                }
        },
    }
}

/// First pass: every endpoint that is not a partition, classified.
pub open spec fn udev_step(
    a: (Map<NodeId, Node>, Set<Dependency>, Set<Relation>),
    b: (Map<NodeId, Node>, Set<Dependency>, Set<Relation>),
    e: UdevBlockEntry,
) -> bool {
    if is_partition_endpoint(e) {
        b == a
    } else {
        endpoint_step(a, b, e, |k: NodeKind| is_endpoint_kind(k, e.sysname@, opt_string_view(e.devtype)))
    }
}

/// Third pass: every endpoint not yet represented, as an unknown endpoint.
pub open spec fn fallback_step(
    a: (Map<NodeId, Node>, Set<Dependency>, Set<Relation>),
    b: (Map<NodeId, Node>, Set<Dependency>, Set<Relation>),
    endpoints: Seq<UdevBlockEntry>,
    tables: Seq<FdiskTable>,
    e: UdevBlockEntry,
) -> bool {
    if is_represented(endpoints, tables, e.devnode@) {
        b == a
    } else {
        endpoint_step(
            a,
            b,
            e,
            |k: NodeKind| k matches NodeKind::Unknown(u) && u@ == "block endpoint without fdisk topology"@,
        )
    }
}

/// Last pass: content above every signature whose device has a node.
pub open spec fn signature_step(
    a: (Map<NodeId, Node>, Set<Dependency>, Set<Relation>),
    b: (Map<NodeId, Node>, Set<Dependency>, Set<Relation>),
    endpoints: Seq<UdevBlockEntry>,
    s: BlkidEntry,
) -> bool {
    if !a.0.contains_key(block_id(s.device@)) {
        b == a
    } else {
        content_step(a, b, s, endpoint_at(endpoints, s.device@))
    }
}

/// The graph built from nothing by the four passes, each over its entries
/// in order: endpoints, tables, unrepresented endpoints, signatures.
pub open spec fn is_native_block_trace(
    t: Seq<(Map<NodeId, Node>, Set<Dependency>, Set<Relation>)>,
    endpoints: Seq<UdevBlockEntry>,
    tables: Seq<FdiskTable>,
    signatures: Seq<BlkidEntry>,
) -> bool {
    let ne = endpoints.len();
    let nt = tables.len();
    let ns = signatures.len();
    &&& t.len() == ne + nt + ne + ns + 1
    &&& t[0] == (Map::<NodeId, Node>::empty(), Set::<Dependency>::empty(), Set::<Relation>::empty())
    &&& forall|i: int| 0 <= i < ne ==> udev_step(#[trigger] t[i], t[i + 1], endpoints[i])
    &&& forall|i: int|
        0 <= i < nt ==> table_step(#[trigger] t[ne + i], t[ne + i + 1], endpoints, tables[i])
    &&& forall|i: int|
        0 <= i < ne ==> fallback_step(
            #[trigger] t[ne + nt + i],
            t[ne + nt + i + 1],
            endpoints,
            tables,
            endpoints[i],
        )
    &&& forall|i: int|
        0 <= i < ns ==> signature_step(
            #[trigger] t[ne + nt + ne + i],
            t[ne + nt + ne + i + 1],
            endpoints,
            signatures[i],
        )
}

fn names_contains(v: &Vec<String>, p: &str) -> (r: bool)
    ensures
        r == texts(v@).contains(p@),
{
    let r = names_include(v, p);
    proof {
        if r {
            let i = choose|i: int| 0 <= i < v@.len() && (#[trigger] v@[i])@ == p@;
            assert(texts(v@)[i] == p@);
        }
        if texts(v@).contains(p@) {
            let i = choose|i: int| 0 <= i < texts(v@).len() && texts(v@)[i] == p@;
            assert(v@[i]@ == p@);
        }
    }
    r
}

/// First pass over the endpoints.
fn udev_pass(graph: &mut NodeGraph, endpoints: &[UdevBlockEntry], represented: &mut Vec<String>) -> (t:
    Ghost<Seq<(Map<NodeId, Node>, Set<Dependency>, Set<Relation>)>>)
    ensures
        t@.len() == endpoints@.len() + 1,
        t@[0] == graph_view(*old(graph)),
        t@.last() == graph_view(*final(graph)),
        forall|j: int| 0 <= j < endpoints@.len() ==> udev_step(#[trigger] t@[j], t@[j + 1], endpoints@[j]),
        texts(final(represented)@) == texts(old(represented)@) + udev_paths(endpoints@),
{
    let ghost mut t = seq![graph_view(*graph)];
    let ghost rep0 = texts(represented@);
    let mut i: usize = 0;
    assert(endpoints@.take(0) =~= Seq::<UdevBlockEntry>::empty());
    assert(rep0 + udev_paths(endpoints@.take(0)) =~= rep0);
    while i < endpoints.len()
        invariant
            i <= endpoints@.len(),
            t.len() == i + 1,
            t[0] == graph_view(*old(graph)),
            t.last() == graph_view(*graph),
            forall|j: int| 0 <= j < i ==> udev_step(#[trigger] t[j], t[j + 1], endpoints@[j]),
            texts(represented@) == rep0 + udev_paths(endpoints@.take(i as int)),
        decreases endpoints.len() - i,
    {
        let endpoint = &endpoints[i];
        let ghost before = graph_view(*graph);
        let ghost r0 = represented@;
        proof {
            assert(endpoints@.take(i + 1).drop_last() =~= endpoints@.take(i as int));
        }
        let partition = match &endpoint.devtype {
            Some(d) => str_eq(d.as_str(), "partition"),
            None => false,
        };
        if !partition {
            let kind = native_endpoint_kind(endpoint);
            insert_native_endpoint(graph, endpoint, kind);
            represented.push(endpoint.devnode.clone());
            assert(texts(represented@) =~= texts(r0).push(endpoint.devnode@));
        }
        proof {
            let after = graph_view(*graph);
            assert(udev_step(before, after, endpoints@[i as int]));
            t = t.push(after);
        }
        i = i + 1;
    }
    assert(endpoints@.take(endpoints@.len() as int) =~= endpoints@);
    Ghost(t)
}

/// The partitions of one table of known kind.
fn table_partitions(
    graph: &mut NodeGraph,
    endpoints: &[UdevBlockEntry],
    table: &FdiskTable,
    table_id: NodeId,
    represented: &mut Vec<String>,
) -> (t: Ghost<Seq<(Map<NodeId, Node>, Set<Dependency>, Set<Relation>)>>)
    ensures
        t@.len() == table.partitions@.len() + 1,
        t@[0] == graph_view(*old(graph)),
        t@.last() == graph_view(*final(graph)),
        forall|k: int|
            0 <= k < table.partitions@.len() ==> partition_step(
                #[trigger] t@[k],
                t@[k + 1],
                endpoints@,
                *table,
                table_id,
                table.partitions@[k],
            ),
        texts(final(represented)@) == texts(old(represented)@) + partition_paths(
            table.device@,
            table.partitions@,
        ),
{
    let ghost mut u = seq![graph_view(*graph)];
    let ghost rep0 = texts(represented@);
    let parts = &table.partitions;
    assert(parts@.take(0) =~= Seq::<FdiskPartition>::empty());
    assert(rep0 + partition_paths(table.device@, parts@.take(0)) =~= rep0);
    let mut j: usize = 0;
    while j < parts.len()
        invariant
            j <= parts@.len(),
            u.len() == j + 1,
            u[0] == graph_view(*old(graph)),
            u.last() == graph_view(*graph),
            forall|k: int|
                0 <= k < j ==> partition_step(
                    #[trigger] u[k],
                    u[k + 1],
                    endpoints@,
                    *table,
                    table_id,
                    parts@[k],
                ),
            texts(represented@) == rep0 + partition_paths(table.device@, parts@.take(j as int)),
        decreases parts.len() - j,
    {
        let partition = &parts[j];
        let ghost b0 = graph_view(*graph);
        let ghost r1 = represented@;
        proof {
            assert(parts@.take(j + 1).drop_last() =~= parts@.take(j as int));
        }
        match NonZeroU32::new(partition.number) {
            Some(number) => {
                let path = partition_path(table.device.as_str(), partition.number);
                let endpoint = find_endpoint(endpoints, path.as_str());
                let offset = Bytes::new(saturating_mul(partition.start_sectors, table.sector_size));
                let id = block_node_id(path.as_str());
                let mut facts = match endpoint {
                    Some(e) => native_block_facts(e),
                    None => NodeFacts::with_presence(Presence::Unknown),
                };
                let ghost base = facts;
                facts.presence = Presence::Present;
                match &partition.uuid {
                    Some(text) => match parse_uuid(text.as_str()) {
                        Some(v) => facts.identities.push(ExternalId::GptPartitionUuid(v)),
                        None => {},
                    },
                    None => {},
                }
                proof {
                    let uuid_ids: Seq<ExternalId> = match opt_string_view(partition.uuid) {
                        Some(u) => match uuid_parse(u) {
                            Some(v) => seq![ExternalId::GptPartitionUuid(v)],
                            None => Seq::empty(),
                        },
                        None => Seq::empty(),
                    };
                    assert(facts.identities@ =~= base.identities@ + uuid_ids);
                    let ep = endpoint_at(endpoints@, path@);
                    assert(is_base_facts(base, ep));
                    assert(facts.observed_in == base.observed_in);
                    assert(facts.block == base.block);
                    assert(facts.device == base.device);
                    assert(is_partition_facts(facts, endpoint_at(endpoints@, path@), *partition));
                    use_type_invariant(&*graph);
                }
                let size = Bytes::new(saturating_mul(partition.size_sectors, table.sector_size));
                graph.insert_node(
                    id,
                    Node {
                        kind: NodeSpec {
                            kind: NodeKind::Partition {
                                number,
                                offset,
                                role: None,
                                attributes: PartitionAttributes {
                                    gpt: None,
                                    bootable: Some(partition.bootable),
                                },
                            },
                            size: Some(size),
                        },
                        size: facts,
                    },
                );
                assert(graph.node_map() =~= b0.0.insert(id, graph.node_map()[id]));
                graph.insert_dependency(
                    Dependency { from: table_id, to: id, kind: DependencyKind::Contains { offset } },
                );
                represented.push(path);
                assert(texts(represented@) =~= texts(r1).push(
                    partition_path_of(table.device@, partition.number),
                ));
            },
            None => {},
        }
        proof {
            let b1 = graph_view(*graph);
            assert(partition_step(b0, b1, endpoints@, *table, table_id, parts@[j as int]));
            u = u.push(b1);
        }
        j = j + 1;
    }
    assert(parts@.take(parts@.len() as int) =~= parts@);
    Ghost(u)
}

/// Second pass over the partition tables.
#[verifier::spinoff_prover]
#[verifier::rlimit(50)]
fn table_pass(
    graph: &mut NodeGraph,
    endpoints: &[UdevBlockEntry],
    tables: &[FdiskTable],
    represented: &mut Vec<String>,
) -> (t: Ghost<Seq<(Map<NodeId, Node>, Set<Dependency>, Set<Relation>)>>)
    ensures
        t@.len() == tables@.len() + 1,
        t@[0] == graph_view(*old(graph)),
        t@.last() == graph_view(*final(graph)),
        forall|j: int|
            0 <= j < tables@.len() ==> table_step(#[trigger] t@[j], t@[j + 1], endpoints@, tables@[j]),
        texts(final(represented)@) == texts(old(represented)@) + table_paths(tables@),
{
    let ghost mut t = seq![graph_view(*graph)];
    let ghost rep0 = texts(represented@);
    assert(tables@.take(0) =~= Seq::<FdiskTable>::empty());
    assert(rep0 + table_paths(tables@.take(0)) =~= rep0);
    let mut i: usize = 0;
    while i < tables.len()
        invariant
            i <= tables@.len(),
            t.len() == i + 1,
            t[0] == graph_view(*old(graph)),
            t.last() == graph_view(*graph),
            forall|j: int| 0 <= j < i ==> table_step(#[trigger] t[j], t[j + 1], endpoints@, tables@[j]),
            texts(represented@) == rep0 + table_paths(tables@.take(i as int)),
        decreases tables.len() - i,
    {
        let table = &tables[i];
        let ghost before = graph_view(*graph);
        let ghost r0 = texts(represented@);
        proof {
            assert(tables@.take(i + 1).drop_last() =~= tables@.take(i as int));
        }
        let kind = match &table.label {
            Some(label) => native_partition_table(label.as_str()),
            None => None,
        };
        match kind {
            Some(kind) => {
                let disk_id = block_node_id(table.device.as_str());
                let table_id = stable_node_id("partition-table-path", table.device.as_str());
                proof {
                    use_type_invariant(&*graph);
                }
                graph.insert_node(table_id, plain_node(NodeKind::PartitionTable(kind)));
                graph.insert_dependency(
                    Dependency { from: disk_id, to: table_id, kind: DependencyKind::Backs },
                );
                assert(graph.node_map() =~= before.0.insert(table_id, graph.node_map()[table_id]));
                let ghost first = graph_view(*graph);
                let u = table_partitions(graph, endpoints, table, table_id, represented);
                proof {
                    assert(u@[0] == first);
                    assert(table_step(before, graph_view(*graph), endpoints@, tables@[i as int]));
                    assert(r0 + partition_paths(table.device@, table.partitions@) =~= rep0
                        + table_paths(tables@.take(i + 1)));
                }
            },
            None => {},
        }
        proof {
            let after = graph_view(*graph);
            assert(table_step(before, after, endpoints@, tables@[i as int]));
            t = t.push(after);
        }
        i = i + 1;
    }
    assert(tables@.take(tables@.len() as int) =~= tables@);
    Ghost(t)
}

/// Third pass over the endpoints not yet represented.
fn fallback_pass(
    graph: &mut NodeGraph,
    endpoints: &[UdevBlockEntry],
    tables: &[FdiskTable],
    represented: &Vec<String>,
) -> (t: Ghost<Seq<(Map<NodeId, Node>, Set<Dependency>, Set<Relation>)>>)
    requires
        texts(represented@) == udev_paths(endpoints@) + table_paths(tables@),
    ensures
        t@.len() == endpoints@.len() + 1,
        t@[0] == graph_view(*old(graph)),
        t@.last() == graph_view(*final(graph)),
        forall|j: int|
            0 <= j < endpoints@.len() ==> fallback_step(
                #[trigger] t@[j],
                t@[j + 1],
                endpoints@,
                tables@,
                endpoints@[j],
            ),
{
    let ghost mut t = seq![graph_view(*graph)];
    let mut i: usize = 0;
    while i < endpoints.len()
        invariant
            i <= endpoints@.len(),
            texts(represented@) == udev_paths(endpoints@) + table_paths(tables@),
            t.len() == i + 1,
            t[0] == graph_view(*old(graph)),
            t.last() == graph_view(*graph),
            forall|j: int|
                0 <= j < i ==> fallback_step(
                    #[trigger] t[j],
                    t[j + 1],
                    endpoints@,
                    tables@,
                    endpoints@[j],
                ),
        decreases endpoints.len() - i,
    {
        let endpoint = &endpoints[i];
        let ghost before = graph_view(*graph);
        if !names_contains(represented, endpoint.devnode.as_str()) {
            insert_native_endpoint(
                graph,
                endpoint,
                NodeKind::Unknown("block endpoint without fdisk topology".to_string()),
            );
        }
        proof {
            let after = graph_view(*graph);
            assert(fallback_step(before, after, endpoints@, tables@, endpoints@[i as int]));
            t = t.push(after);
        }
        i = i + 1;
    }
    Ghost(t)
}

/// Last pass over the signatures.
fn signature_pass(graph: &mut NodeGraph, endpoints: &[UdevBlockEntry], signatures: &[BlkidEntry]) -> (t:
    Ghost<Seq<(Map<NodeId, Node>, Set<Dependency>, Set<Relation>)>>)
    ensures
        t@.len() == signatures@.len() + 1,
        t@[0] == graph_view(*old(graph)),
        t@.last() == graph_view(*final(graph)),
        forall|j: int|
            0 <= j < signatures@.len() ==> signature_step(
                #[trigger] t@[j],
                t@[j + 1],
                endpoints@,
                signatures@[j],
            ),
{
    let ghost mut t = seq![graph_view(*graph)];
    let mut i: usize = 0;
    while i < signatures.len()
        invariant
            i <= signatures@.len(),
            t.len() == i + 1,
            t[0] == graph_view(*old(graph)),
            t.last() == graph_view(*graph),
            forall|j: int|
                0 <= j < i ==> signature_step(#[trigger] t[j], t[j + 1], endpoints@, signatures@[j]),
        decreases signatures.len() - i,
    {
        let signature = &signatures[i];
        let ghost before = graph_view(*graph);
        proof {
            use_type_invariant(&*graph);
        }
        let device_id = block_node_id(signature.device.as_str());
        if graph.node(&device_id).is_some() {
            let endpoint = find_endpoint(endpoints, signature.device.as_str());
            add_native_content(graph, signature, endpoint);
        }
        proof {
            let after = graph_view(*graph);
            assert(signature_step(before, after, endpoints@, signatures@[i as int]));
            t = t.push(after);
        }
        i = i + 1;
    }
    Ghost(t)
}

/// Joins complementary native observations into one non-conflicting graph.
pub fn assemble_native_block_state(
    endpoints: &[UdevBlockEntry],
    tables: &[FdiskTable],
    signatures: &[BlkidEntry],
) -> (r: ProviderState)
    ensures
        exists|t: Seq<(Map<NodeId, Node>, Set<Dependency>, Set<Relation>)>|
            is_native_block_trace(t, endpoints@, tables@, signatures@) && t.last() == graph_view(
                r.graph,
            ),
        r.mounts@.len() == 0,
        r.environment is None,
        r.diagnostics@.len() == 0,
{
    let mut graph = NodeGraph::new();
    let mut represented: Vec<String> = Vec::new();
    let ghost g0 = graph_view(graph);
    assert(g0 =~= (Map::<NodeId, Node>::empty(), Set::<Dependency>::empty(), Set::<Relation>::empty()));
    let t1 = udev_pass(&mut graph, endpoints, &mut represented);
    let t2 = table_pass(&mut graph, endpoints, tables, &mut represented);
    assert(texts(Seq::<String>::empty()) =~= Seq::<Seq<char>>::empty());
    assert(texts(represented@) =~= udev_paths(endpoints@) + table_paths(tables@));
    let t3 = fallback_pass(&mut graph, endpoints, tables, &represented);
    let t4 = signature_pass(&mut graph, endpoints, signatures);
    proof {
        let ne = endpoints@.len() as int;
        let nt = tables@.len() as int;
        let ns = signatures@.len() as int;
        let t = t1@ + t2@.drop_first() + t3@.drop_first() + t4@.drop_first();
        assert(t.len() == ne + nt + ne + ns + 1);
        assert forall|i: int| 0 <= i <= ne implies #[trigger] t[i] == t1@[i] by {}
        assert forall|i: int| 0 <= i <= nt implies #[trigger] t[ne + i] == t2@[i] by {
            if i > 0 {
                assert(t[ne + i] == t2@.drop_first()[i - 1]);
            }
        }
        assert forall|i: int| 0 <= i <= ne implies #[trigger] t[ne + nt + i] == t3@[i] by {
            if i > 0 {
                assert(t[ne + nt + i] == t3@.drop_first()[i - 1]);
            }
        }
        assert forall|i: int| 0 <= i <= ns implies #[trigger] t[ne + nt + ne + i] == t4@[i] by {
            if i > 0 {
                assert(t[ne + nt + ne + i] == t4@.drop_first()[i - 1]);
            }
        }
        assert forall|i: int| 0 <= i < ne implies udev_step(#[trigger] t[i], t[i + 1], endpoints@[i]) by {
            assert(t[i] == t1@[i]);
            assert(t[i + 1] == t1@[i + 1]);
        }
        assert forall|i: int| 0 <= i < nt implies table_step(#[trigger] t[ne + i], t[ne + i + 1], endpoints@, tables@[i]) by {
            assert(t[ne + i] == t2@[i]);
            assert(t[ne + (i + 1)] == t2@[i + 1]);
        }
        assert forall|i: int| 0 <= i < ne implies fallback_step(
            #[trigger] t[ne + nt + i],
            t[ne + nt + i + 1],
            endpoints@,
            tables@,
            endpoints@[i],
        ) by {
            assert(t[ne + nt + i] == t3@[i]);
            assert(t[ne + nt + (i + 1)] == t3@[i + 1]);
        }
        assert forall|i: int| 0 <= i < ns implies signature_step(
            #[trigger] t[ne + nt + ne + i],
            t[ne + nt + ne + i + 1],
            endpoints@,
            signatures@[i],
        ) by {
            assert(t[ne + nt + ne + i] == t4@[i]);
            assert(t[ne + nt + ne + (i + 1)] == t4@[i + 1]);
        }
        assert(t.last() == t4@.last());
        assert(is_native_block_trace(t, endpoints@, tables@, signatures@));
    }
    ProviderState { graph, mounts: Vec::new(), environment: None, diagnostics: Vec::new() }
}

} // verus!
