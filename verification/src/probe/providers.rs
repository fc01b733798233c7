//! Native providers: the registered libraries each adapter binds, and the
//! decisions made between their calls. The calls themselves cross the FFI
//! boundary and are made by the caller, which hands each result back here.

use vstd::prelude::*;

use crate::collections::str_eq;
use crate::model::graph::{Dependency, Relation};
use crate::model::node::{Node, NodeId};
use crate::model::state::{Diagnostic, ObservedMount};
use crate::probe::assemble::{ProviderProbeError, ProviderState};
use crate::probe::linux::{is_native_failure, is_observed_mount, observed_mount, opt_string_view, push_native_failure};
use crate::probe::native::{
    enrich_btrfs, enrich_devmapper, enrich_loop, enrich_luks, enrich_lvm, enrich_mdraid,
    assemble_native_block_state, enrich_multipath, enrich_nvme, enrich_swap, enrich_zfs,
    graph_view, is_btrfs_trace, is_native_block_trace,
    is_devmapper_trace, is_loop_trace, is_luks_trace, is_lvm_trace, is_mdraid_trace,
    is_nvme_trace, is_zfs_trace, multipath_warned, swap_warned,
};
use crate::provider::entries::{
    BlkidEntry, BtrfsEntry, CryptsetupEntry, DevmapperEntry, FdiskTable, LibmountEntry, LoopEntry,
    LvmEntry,
    MdraidEntry, MultipathEntry, NvmeEntry, SwapEntry, UdevBlockEntry, ZfsEntry,
};
use crate::provider::native::{native_message, NativeProbeError};
use crate::provider::registry::{ProviderBackend, RegisteredProvider};
use crate::text::{has_prefix, str_starts_with};

verus! {

/// Successive views of a graph while it is enriched.
pub type GraphTrace = Seq<(Map<NodeId, Node>, Set<Dependency>, Set<Relation>)>;

/// Entries of a successful call; none for a failed one.
pub open spec fn entries_of<T>(r: Result<Vec<T>, NativeProbeError>) -> Seq<T> {
    match r {
        Ok(v) => v@,
        Err(_) => Seq::empty(),
    }
}

/// The failure a native call leaves on record: none when it succeeded, its
/// provider and message when it failed.
pub open spec fn failure_of<T>(provider: Seq<char>, r: Result<T, NativeProbeError>) -> Seq<
    (Seq<char>, Seq<char>),
> {
    match r {
        Ok(_) => Seq::empty(),
        Err(e) => seq![(provider, native_message(e))],
    }
}

/// `ds` records exactly the expected native failures, in order.
pub open spec fn records_failures(ds: Seq<Diagnostic>, expected: Seq<(Seq<char>, Seq<char>)>) -> bool {
    &&& ds.len() == expected.len()
    &&& forall|i: int|
        0 <= i < ds.len() ==> is_native_failure(#[trigger] ds[i], expected[i].0, expected[i].1)
}

/// `b`'s diagnostics are `a`'s followed by records of the expected failures.
pub open spec fn appended_failures(
    a: ProviderState,
    b: ProviderState,
    expected: Seq<(Seq<char>, Seq<char>)>,
) -> bool {
    &&& b.diagnostics@.len() >= a.diagnostics@.len()
    &&& b.diagnostics@.take(a.diagnostics@.len() as int) == a.diagnostics@
    &&& records_failures(b.diagnostics@.skip(a.diagnostics@.len() as int), expected)
}

proof fn lemma_appended_failures_chain(
    a: ProviderState,
    b: ProviderState,
    c: ProviderState,
    x: Seq<(Seq<char>, Seq<char>)>,
    y: Seq<(Seq<char>, Seq<char>)>,
)
    requires
        appended_failures(a, b, x),
        appended_failures(b, c, y),
    ensures
        appended_failures(a, c, x + y),
{
    let n = a.diagnostics@.len() as int;
    let m = b.diagnostics@.len() as int;
    assert(c.diagnostics@.take(n) =~= a.diagnostics@) by {
        assert forall|i: int| 0 <= i < n implies c.diagnostics@[i] == a.diagnostics@[i] by {
            assert(c.diagnostics@.take(m)[i] == b.diagnostics@[i]);
            assert(b.diagnostics@.take(n)[i] == a.diagnostics@[i]);
        }
    }
    let ds = c.diagnostics@.skip(n);
    let e = x + y;
    assert forall|i: int| 0 <= i < ds.len() implies is_native_failure(
        #[trigger] ds[i],
        e[i].0,
        e[i].1,
    ) by {
        if i < x.len() {
            assert(c.diagnostics@.take(m)[n + i] == b.diagnostics@[n + i]);
            assert(b.diagnostics@.skip(n)[i] == b.diagnostics@[n + i]);
        } else {
            assert(c.diagnostics@.skip(m)[i - x.len()] == c.diagnostics@[n + i]);
        }
    }
}

/// Records a failed native call, leaving everything else as it was.
fn note_failure<T>(state: &mut ProviderState, provider: &str, r: &Result<T, NativeProbeError>)
    ensures
        final(state).graph == old(state).graph,
        final(state).mounts == old(state).mounts,
        final(state).environment == old(state).environment,
        appended_failures(*old(state), *final(state), failure_of(provider@, *r)),
{
    match r {
        Ok(_) => {
            assert(state.diagnostics@.take(state.diagnostics@.len() as int) =~= state.diagnostics@);
        },
        Err(e) => {
            push_native_failure(state, provider, e.message());
            proof {
                let n = old(state).diagnostics@.len() as int;
                assert(state.diagnostics@.take(n) =~= state.diagnostics@.drop_last());
                assert(state.diagnostics@.skip(n)[0] == state.diagnostics@.last());
            }
        },
    }
}

/// Device nodes of the endpoints udev reports as whole disks.
pub open spec fn disk_nodes(endpoints: Seq<UdevBlockEntry>) -> Seq<Seq<char>>
    decreases endpoints.len(),
{
    if endpoints.len() == 0 {
        Seq::empty()
    } else if opt_string_view(endpoints.last().devtype) == Some("disk"@) {
        disk_nodes(endpoints.drop_last()).push(endpoints.last().devnode@)
    } else {
        disk_nodes(endpoints.drop_last())
    }
}

/// Device nodes of the endpoints whose kernel name starts with `prefix`.
pub open spec fn nodes_named(endpoints: Seq<UdevBlockEntry>, prefix: Seq<char>) -> Seq<Seq<char>>
    decreases endpoints.len(),
{
    if endpoints.len() == 0 {
        Seq::empty()
    } else if has_prefix(endpoints.last().sysname@, prefix) {
        nodes_named(endpoints.drop_last(), prefix).push(endpoints.last().devnode@)
    } else {
        nodes_named(endpoints.drop_last(), prefix)
    }
}

/// Devices carrying a content signature of the given type.
pub open spec fn devices_with_signature(signatures: Seq<BlkidEntry>, kind: Seq<char>) -> Seq<
    Seq<char>,
>
    decreases signatures.len(),
{
    if signatures.len() == 0 {
        Seq::empty()
    } else if opt_string_view(signatures.last().signature_type) == Some(kind) {
        devices_with_signature(signatures.drop_last(), kind).push(signatures.last().device@)
    } else {
        devices_with_signature(signatures.drop_last(), kind)
    }
}

/// Views of a list of strings.
pub open spec fn texts_of(v: Seq<String>) -> Seq<Seq<char>> {
    v.map_values(|s: String| s@)
}

fn is_some_text(o: &Option<String>, t: &str) -> (r: bool)
    ensures
        r == (opt_string_view(*o) == Some(t@)),
{
    match o {
        Some(s) => str_eq(s.as_str(), t),
        None => false,
    }
}

/// Device nodes of the whole-disk endpoints, in order.
pub fn disk_devices(endpoints: &[UdevBlockEntry]) -> (r: Vec<String>)
    ensures
        texts_of(r@) == disk_nodes(endpoints@),
{
    let mut r: Vec<String> = Vec::new();
    let mut i: usize = 0;
    while i < endpoints.len()
        invariant
            i <= endpoints@.len(),
            texts_of(r@) == disk_nodes(endpoints@.take(i as int)),
        decreases endpoints.len() - i,
    {
        assert(endpoints@.take(i + 1).drop_last() =~= endpoints@.take(i as int));
        if is_some_text(&endpoints[i].devtype, "disk") {
            r.push(endpoints[i].devnode.clone());
        }
        assert(texts_of(r@) =~= disk_nodes(endpoints@.take(i + 1)));
        i = i + 1;
    }
    assert(endpoints@.take(endpoints@.len() as int) =~= endpoints@);
    r
}

/// Device nodes of the endpoints whose kernel name starts with `prefix`, in order.
pub fn devices_named(endpoints: &[UdevBlockEntry], prefix: &str) -> (r: Vec<String>)
    ensures
        texts_of(r@) == nodes_named(endpoints@, prefix@),
{
    let mut r: Vec<String> = Vec::new();
    let mut i: usize = 0;
    while i < endpoints.len()
        invariant
            i <= endpoints@.len(),
            texts_of(r@) == nodes_named(endpoints@.take(i as int), prefix@),
        decreases endpoints.len() - i,
    {
        assert(endpoints@.take(i + 1).drop_last() =~= endpoints@.take(i as int));
        if str_starts_with(endpoints[i].sysname.as_str(), prefix) {
            r.push(endpoints[i].devnode.clone());
        }
        assert(texts_of(r@) =~= nodes_named(endpoints@.take(i + 1), prefix@));
        i = i + 1;
    }
    assert(endpoints@.take(endpoints@.len() as int) =~= endpoints@);
    r
}

/// Devices carrying a content signature of type `kind`, in order.
pub fn signature_devices(signatures: &[BlkidEntry], kind: &str) -> (r: Vec<String>)
    ensures
        texts_of(r@) == devices_with_signature(signatures@, kind@),
{
    let mut r: Vec<String> = Vec::new();
    let mut i: usize = 0;
    while i < signatures.len()
        invariant
            i <= signatures@.len(),
            texts_of(r@) == devices_with_signature(signatures@.take(i as int), kind@),
        decreases signatures.len() - i,
    {
        assert(signatures@.take(i + 1).drop_last() =~= signatures@.take(i as int));
        if is_some_text(&signatures[i].signature_type, kind) {
            r.push(signatures[i].device.clone());
        }
        assert(texts_of(r@) =~= devices_with_signature(signatures@.take(i + 1), kind@));
        i = i + 1;
    }
    assert(signatures@.take(signatures@.len() as int) =~= signatures@);
    r
}

/// Canonical mounts of libmount records, in order.
pub fn observed_mounts(entries: Vec<LibmountEntry>) -> (r: Vec<ObservedMount>)
    ensures
        r@.len() == entries@.len(),
        forall|i: int| 0 <= i < r@.len() ==> is_observed_mount(#[trigger] r@[i], entries@[i]),
{
    let ghost all = entries@;
    let mut rest = entries;
    let mut r: Vec<ObservedMount> = Vec::new();
    while rest.len() > 0
        invariant
            r@.len() + rest@.len() == all.len(),
            rest@ == all.skip(r@.len() as int),
            forall|i: int| 0 <= i < r@.len() ==> is_observed_mount(#[trigger] r@[i], all[i]),
        decreases rest.len(),
    {
        let ghost k = r@.len() as int;
        let entry = rest.remove(0);
        assert(entry == all[k]);
        assert(rest@ =~= all.skip(k + 1));
        r.push(observed_mount(entry));
    }
    r
}

/// Targets of the mounts whose filesystem type is Btrfs.
pub open spec fn btrfs_targets(entries: Seq<LibmountEntry>) -> Set<Seq<char>> {
    Set::new(
        |t: Seq<char>|
            exists|i: int|
                0 <= i < entries.len() && (#[trigger] entries[i]).filesystem_type@ == "btrfs"@
                    && entries[i].target@ == t,
    )
}

fn contains_text(v: &Vec<String>, t: &str) -> (r: bool)
    ensures
        r == texts_of(v@).contains(t@),
{
    let mut i: usize = 0;
    while i < v.len()
        invariant
            i <= v@.len(),
            forall|j: int| 0 <= j < i ==> v@[j]@ != t@,
        decreases v.len() - i,
    {
        if str_eq(v[i].as_str(), t) {
            assert(texts_of(v@)[i as int] == t@);
            return true;
        }
        i = i + 1;
    }
    proof {
        if texts_of(v@).contains(t@) {
            let j = choose|j: int| 0 <= j < texts_of(v@).len() && texts_of(v@)[j] == t@;
            assert(v@[j]@ == t@);
        }
    }
    false
}

/// Distinct mount points of the Btrfs mounts (in no promised order).
pub fn btrfs_mountpoints(entries: &[LibmountEntry]) -> (r: Vec<String>)
    ensures
        texts_of(r@).no_duplicates(),
        texts_of(r@).to_set() == btrfs_targets(entries@),
{
    let mut r: Vec<String> = Vec::new();
    let mut i: usize = 0;
    while i < entries.len()
        invariant
            i <= entries@.len(),
            texts_of(r@).no_duplicates(),
            forall|t: Seq<char>|
                texts_of(r@).contains(t) <==> exists|j: int|
                    0 <= j < i && (#[trigger] entries@[j]).filesystem_type@ == "btrfs"@
                        && entries@[j].target@ == t,
        decreases entries.len() - i,
    {
        let e = &entries[i];
        let ghost before = texts_of(r@);
        let is_btrfs = str_eq(e.filesystem_type.as_str(), "btrfs");
        if is_btrfs && !contains_text(&r, e.target.as_str()) {
            r.push(e.target.clone());
            assert(texts_of(r@) =~= before.push(e.target@));
        }
        proof {
            assert(entries@[i as int] == *e);
            assert forall|t: Seq<char>|
                texts_of(r@).contains(t) <==> exists|j: int|
                    0 <= j < i + 1 && (#[trigger] entries@[j]).filesystem_type@ == "btrfs"@
                        && entries@[j].target@ == t by {
                if texts_of(r@).contains(t) {
                    if before.contains(t) {
                        let j = choose|j: int|
                            0 <= j < i && (#[trigger] entries@[j]).filesystem_type@ == "btrfs"@
                                && entries@[j].target@ == t;
                        assert(0 <= j < i + 1);
                    } else {
                        let k = choose|k: int| 0 <= k < texts_of(r@).len() && texts_of(r@)[k] == t;
                        assert(texts_of(r@) != before);
                        assert(texts_of(r@) == before.push(e.target@));
                        if k < before.len() {
                            assert(before[k] == t);
                            assert(before.contains(t));
                        }
                        assert(t == e.target@);
                    }
                }
                if exists|j: int|
                    0 <= j < i + 1 && (#[trigger] entries@[j]).filesystem_type@ == "btrfs"@
                        && entries@[j].target@ == t {
                    let j = choose|j: int|
                        0 <= j < i + 1 && (#[trigger] entries@[j]).filesystem_type@ == "btrfs"@
                            && entries@[j].target@ == t;
                    if j < i {
                        assert(before.contains(t));
                        let k = choose|k: int| 0 <= k < before.len() && before[k] == t;
                        if texts_of(r@) != before {
                            assert(texts_of(r@)[k] == t);
                        }
                    } else {
                        if texts_of(r@) == before {
                            assert(before.contains(e.target@));
                        } else {
                            assert(texts_of(r@)[before.len() as int] == t);
                        }
                    }
                }
            }
        }
        i = i + 1;
    }
    assert(texts_of(r@).to_set() =~= btrfs_targets(entries@));
    r
}

/// A contribution of mounts alone: the canonical forms of `entries`.
pub open spec fn is_mount_state(s: ProviderState, entries: Seq<LibmountEntry>) -> bool {
    &&& s.graph.wf()
    &&& s.graph.node_map() == Map::<NodeId, Node>::empty()
    &&& s.graph.dependency_set() == Set::<Dependency>::empty()
    &&& s.graph.relation_set() == Set::<Relation>::empty()
    &&& s.environment is None
    &&& s.diagnostics@.len() == 0
    &&& s.mounts@.len() == entries.len()
    &&& forall|i: int|
        0 <= i < entries.len() ==> is_observed_mount(#[trigger] s.mounts@[i], entries[i])
}

/// Native libmount adapter responsible only for runtime mount discovery.
pub struct LibmountProvider<'a> {
    pub provider: &'a RegisteredProvider,
}

impl<'a> LibmountProvider<'a> {
    /// Binds the adapter to a library-backed registry entry.
    pub fn new(provider: &'a RegisteredProvider) -> (r: Self)
        ensures
            r.provider == provider,
    {
        LibmountProvider { provider }
    }

    /// Identity of the adapter: that of its registered provider.
    pub fn id(&self) -> (r: &str)
        ensures
            r@ == self.provider.spec_manifest().id.text(),
    {
        self.provider.manifest().id.as_str()
    }

    /// Responsibility of the adapter.
    pub fn responsibility(&self) -> (r: &'static str)
        ensures
            r@ == "mounts.runtime"@,
    {
        "mounts.runtime"
    }

    /// Backend of the registered provider.
    pub fn backend(&self) -> (r: ProviderBackend)
        ensures
            r == self.provider.spec_backend(),
    {
        self.provider.backend()
    }

    /// The contribution of a libmount call: its mounts, or the failure.
    pub fn finish(mounts: Result<Vec<LibmountEntry>, NativeProbeError>) -> (r: Result<
        ProviderState,
        ProviderProbeError,
    >)
        ensures
            match mounts {
                Ok(v) => r matches Ok(s) && is_mount_state(s, v@),
                Err(e) => r matches Err(pe) && pe.code@ == "libmount.probe_failed"@ && pe.message@
                    == native_message(e),
            },
    {
        match mounts {
            Ok(v) => {
                let ghost entries = v@;
                let mut state = ProviderState::empty();
                state.mounts = observed_mounts(v);
                assert(is_mount_state(state, entries));
                Ok(state)
            },
            Err(e) => {
                proof {
                    reveal_strlit("libmount");
                    reveal_strlit(".probe_failed");
                    reveal_strlit("libmount.probe_failed");
                }
                Err(probe_failure("libmount", &e))
            },
        }
    }
}

/// The error of a native call whose failure fails the whole provider.
pub fn probe_failure(source: &str, error: &NativeProbeError) -> (r: ProviderProbeError)
    ensures
        r.code@ == source@ + ".probe_failed"@,
        r.message@ == native_message(*error),
{
    let mut code = source.to_string();
    code.append(".probe_failed");
    let message = error.message();
    ProviderProbeError { code, message }
}

/// `f` is the error of a failed `source` call that fails the whole provider.
pub open spec fn is_probe_failure(f: ProviderProbeError, source: Seq<char>, e: NativeProbeError) -> bool {
    f.code@ == source + ".probe_failed"@ && f.message@ == native_message(e)
}

/// `s` is the block state assembled from udev endpoints, fdisk tables and
/// blkid signatures.
pub open spec fn is_block_state(
    s: ProviderState,
    endpoints: Seq<UdevBlockEntry>,
    tables: Seq<FdiskTable>,
    signatures: Seq<BlkidEntry>,
) -> bool {
    &&& exists|t: GraphTrace|
        is_native_block_trace(t, endpoints, tables, signatures) && t.last() == graph_view(s.graph)
    &&& s.mounts@.len() == 0
    &&& s.environment is None
    &&& s.diagnostics@.len() == 0
}

/// Native adapter joining udev endpoints, fdisk topology, and blkid content.
///
/// Its calls run in order, udev, then fdisk over the disks udev found, then
/// blkid; any of them failing fails the probe and no later call is made.
pub struct NativeBlockProvider<'a> {
    pub udev: &'a RegisteredProvider,
    pub fdisk: &'a RegisteredProvider,
    pub blkid: &'a RegisteredProvider,
}

impl<'a> NativeBlockProvider<'a> {
    /// Binds the three complementary native block-discovery providers.
    pub fn new(
        udev: &'a RegisteredProvider,
        fdisk: &'a RegisteredProvider,
        blkid: &'a RegisteredProvider,
    ) -> (r: Self)
        ensures
            r.udev == udev,
            r.fdisk == fdisk,
            r.blkid == blkid,
    {
        NativeBlockProvider { udev, fdisk, blkid }
    }

    /// Identity of the adapter.
    pub fn id(&self) -> (r: &'static str)
        ensures
            r@ == "native-linux-block"@,
    {
        "native-linux-block"
    }

    /// Responsibility of the adapter.
    pub fn responsibility(&self) -> (r: &'static str)
        ensures
            r@ == "block.current-state"@,
    {
        "block.current-state"
    }

    /// The adapter is backed by native libraries.
    pub fn backend(&self) -> (r: ProviderBackend)
        ensures
            r == ProviderBackend::Library,
    {
        ProviderBackend::Library
    }

    /// What follows the udev call: its endpoints and the disks whose
    /// partition tables fdisk reads next, or, when udev failed, the error
    /// that ends the probe before any other call.
    pub fn after_udev(result: Result<Vec<UdevBlockEntry>, NativeProbeError>) -> (r: Result<
        (Vec<UdevBlockEntry>, Vec<String>),
        ProviderProbeError,
    >)
        ensures
            match result {
                Ok(endpoints) => r matches Ok(next) && next.0@ == endpoints@ && texts_of(next.1@)
                    == disk_nodes(endpoints@),
                Err(e) => r matches Err(f) && is_probe_failure(f, "udev"@, e),
            },
    {
        match result {
            Ok(endpoints) => {
                let disks = disk_devices(endpoints.as_slice());
                Ok((endpoints, disks))
            },
            Err(e) => Err(probe_failure("udev", &e)),
        }
    }

    /// What follows the fdisk call: its partition tables, after which blkid
    /// is read, or, when fdisk failed, the error that ends the probe.
    pub fn after_fdisk(result: Result<Vec<FdiskTable>, NativeProbeError>) -> (r: Result<
        Vec<FdiskTable>,
        ProviderProbeError,
    >)
        ensures
            match result {
                Ok(tables) => r matches Ok(t) && t@ == tables@,
                Err(e) => r matches Err(f) && is_probe_failure(f, "fdisk"@, e),
            },
    {
        match result {
            Ok(tables) => Ok(tables),
            Err(e) => Err(probe_failure("fdisk", &e)),
        }
    }

    /// What follows the blkid call: the assembled block state and the
    /// signatures, or, when blkid failed, the error that ends the probe.
    pub fn after_blkid(
        endpoints: &[UdevBlockEntry],
        tables: &[FdiskTable],
        result: Result<Vec<BlkidEntry>, NativeProbeError>,
    ) -> (r: Result<(ProviderState, Vec<BlkidEntry>), ProviderProbeError>)
        ensures
            match result {
                Ok(signatures) => r matches Ok(done) && done.1@ == signatures@ && is_block_state(
                    done.0,
                    endpoints@,
                    tables@,
                    signatures@,
                ),
                Err(e) => r matches Err(f) && is_probe_failure(f, "blkid"@, e),
            },
    {
        match result {
            Ok(signatures) => {
                let state = assemble_native_block_state(endpoints, tables, signatures.as_slice());
                Ok((state, signatures))
            },
            Err(e) => Err(probe_failure("blkid", &e)),
        }
    }
}

/// Native adapter extending the block graph with dm and LUKS topology.
pub struct NativeMapperProvider<'a> {
    pub block: NativeBlockProvider<'a>,
    pub devmapper: &'a RegisteredProvider,
    pub cryptsetup: &'a RegisteredProvider,
}

impl<'a> NativeMapperProvider<'a> {
    /// Binds all native providers required for block, mapper, and LUKS state.
    pub fn new(
        udev: &'a RegisteredProvider,
        fdisk: &'a RegisteredProvider,
        blkid: &'a RegisteredProvider,
        devmapper: &'a RegisteredProvider,
        cryptsetup: &'a RegisteredProvider,
    ) -> (r: Self)
        ensures
            r.block.udev == udev,
            r.block.fdisk == fdisk,
            r.block.blkid == blkid,
            r.devmapper == devmapper,
            r.cryptsetup == cryptsetup,
    {
        NativeMapperProvider { block: NativeBlockProvider::new(udev, fdisk, blkid), devmapper, cryptsetup }
    }

    /// Identity of the adapter.
    pub fn id(&self) -> (r: &'static str)
        ensures
            r@ == "native-linux-mapper"@,
    {
        "native-linux-mapper"
    }

    /// Responsibility of the adapter.
    pub fn responsibility(&self) -> (r: &'static str)
        ensures
            r@ == "block.current-state"@,
    {
        "block.current-state"
    }

    /// The adapter is backed by native libraries.
    pub fn backend(&self) -> (r: ProviderBackend)
        ensures
            r == ProviderBackend::Library,
    {
        ProviderBackend::Library
    }

    /// Adds LUKS and device-mapper topology to the block state; a failed
    /// call is recorded and contributes nothing. Returns the mappings seen.
    pub fn finish(
        state: &mut ProviderState,
        endpoints: &[UdevBlockEntry],
        luks: Result<Vec<CryptsetupEntry>, NativeProbeError>,
        mappings: Result<Vec<DevmapperEntry>, NativeProbeError>,
    ) -> (r: Vec<DevmapperEntry>)
        ensures
            r@ == entries_of(mappings),
            final(state).mounts == old(state).mounts,
            final(state).environment == old(state).environment,
            appended_failures(
                *old(state),
                *final(state),
                failure_of("cryptsetup"@, luks) + failure_of("devmapper"@, mappings),
            ),
            exists|t1: GraphTrace, t2: GraphTrace|
                {
                    &&& is_luks_trace(t1, entries_of(luks))
                    &&& is_devmapper_trace(t2, endpoints@, r@)
                    &&& t1[0] == graph_view(old(state).graph)
                    &&& t1.last() == t2[0]
                    &&& t2.last() == graph_view(final(state).graph)
                },
    {
        let ghost s0 = *state;
        note_failure(state, "cryptsetup", &luks);
        let ghost s1 = *state;
        note_failure(state, "devmapper", &mappings);
        proof {
            lemma_appended_failures_chain(
                s0,
                s1,
                *state,
                failure_of("cryptsetup"@, luks),
                failure_of("devmapper"@, mappings),
            );
        }
        let luks_entries = match luks {
            Ok(v) => v,
            Err(_) => Vec::new(),
        };
        let mapping_entries = match mappings {
            Ok(v) => v,
            Err(_) => Vec::new(),
        };
        let ghost s2 = *state;
        enrich_luks(&mut state.graph, luks_entries.as_slice());
        enrich_devmapper(&mut state.graph, endpoints, mapping_entries.as_slice());
        assert(state.diagnostics == s2.diagnostics);
        mapping_entries
    }
}

/// Native adapter extending mapper state with loop, swap, and multipath data.
pub struct NativeRuntimeProvider<'a> {
    pub mapper: NativeMapperProvider<'a>,
    pub loop_provider: &'a RegisteredProvider,
    pub swap: &'a RegisteredProvider,
    pub multipath: &'a RegisteredProvider,
}

/// Members of a successful multipath call; none of a failed one.
pub open spec fn multipath_members(r: Result<MultipathEntry, NativeProbeError>) -> Seq<String> {
    match r {
        Ok(m) => m.members@,
        Err(_) => Seq::empty(),
    }
}

impl<'a> NativeRuntimeProvider<'a> {
    /// Binds native providers required by the current runtime topology layer.
    pub fn new(
        udev: &'a RegisteredProvider,
        fdisk: &'a RegisteredProvider,
        blkid: &'a RegisteredProvider,
        devmapper: &'a RegisteredProvider,
        cryptsetup: &'a RegisteredProvider,
        loop_provider: &'a RegisteredProvider,
        swap: &'a RegisteredProvider,
        multipath: &'a RegisteredProvider,
    ) -> (r: Self)
        ensures
            r.mapper.block.udev == udev,
            r.mapper.block.fdisk == fdisk,
            r.mapper.block.blkid == blkid,
            r.mapper.devmapper == devmapper,
            r.mapper.cryptsetup == cryptsetup,
            r.loop_provider == loop_provider,
            r.swap == swap,
            r.multipath == multipath,
    {
        NativeRuntimeProvider {
            mapper: NativeMapperProvider::new(udev, fdisk, blkid, devmapper, cryptsetup),
            loop_provider,
            swap,
            multipath,
        }
    }

    /// Identity of the adapter.
    pub fn id(&self) -> (r: &'static str)
        ensures
            r@ == "native-linux-runtime"@,
    {
        "native-linux-runtime"
    }

    /// Responsibility of the adapter.
    pub fn responsibility(&self) -> (r: &'static str)
        ensures
            r@ == "block.current-state"@,
    {
        "block.current-state"
    }

    /// The adapter is backed by native libraries.
    pub fn backend(&self) -> (r: ProviderBackend)
        ensures
            r == ProviderBackend::Library,
    {
        ProviderBackend::Library
    }

    /// Adds loop backing, swap warnings, and unlinked multipath members to
    /// the mapper state; a failed call is recorded and contributes nothing.
    pub fn finish(
        state: &mut ProviderState,
        mappings: &[DevmapperEntry],
        loops: Result<Vec<LoopEntry>, NativeProbeError>,
        swaps: Result<Vec<SwapEntry>, NativeProbeError>,
        multipath: Result<MultipathEntry, NativeProbeError>,
    )
        ensures
            final(state).mounts == old(state).mounts,
            final(state).environment == old(state).environment,
            exists|t: GraphTrace|
                is_loop_trace(t, entries_of(loops)) && t[0] == graph_view(old(state).graph)
                    && t.last() == graph_view(final(state).graph),
            exists|a: ProviderState, b: ProviderState|
                {
                    &&& appended_failures(
                        *old(state),
                        a,
                        failure_of("loop"@, loops) + failure_of("swap"@, swaps) + failure_of(
                            "multipath"@,
                            multipath,
                        ),
                    )
                    &&& a.graph == final(state).graph
                    &&& a.mounts == old(state).mounts
                    &&& a.environment == old(state).environment
                    &&& swap_warned(a, b, entries_of(swaps))
                    &&& multipath_warned(b, *final(state), mappings@, multipath_members(multipath))
                },
    {
        let ghost s0 = *state;
        note_failure(state, "loop", &loops);
        let ghost s1 = *state;
        note_failure(state, "swap", &swaps);
        let ghost s2 = *state;
        note_failure(state, "multipath", &multipath);
        proof {
            lemma_appended_failures_chain(
                s0,
                s1,
                s2,
                failure_of("loop"@, loops),
                failure_of("swap"@, swaps),
            );
            lemma_appended_failures_chain(
                s0,
                s2,
                *state,
                failure_of("loop"@, loops) + failure_of("swap"@, swaps),
                failure_of("multipath"@, multipath),
            );
        }
        let loop_entries = match loops {
            Ok(v) => v,
            Err(_) => Vec::new(),
        };
        let swap_entries = match swaps {
            Ok(v) => v,
            Err(_) => Vec::new(),
        };
        let multipath_entry = match multipath {
            Ok(m) => m,
            Err(_) => MultipathEntry { members: Vec::new() },
        };
        enrich_loop(&mut state.graph, loop_entries.as_slice());
        let ghost a = *state;
        enrich_swap(state, swap_entries.as_slice());
        let ghost b = *state;
        enrich_multipath(state, mappings, &multipath_entry);
        assert(appended_failures(s0, a, failure_of("loop"@, loops) + failure_of("swap"@, swaps)
            + failure_of("multipath"@, multipath)));
        assert(swap_warned(a, b, entries_of(swaps)));
        assert(multipath_warned(b, *state, mappings@, multipath_members(multipath)));
    }
}

/// The MD topology used: that of a successful call, else an empty one.
pub open spec fn mdraid_used(r: Result<MdraidEntry, NativeProbeError>, md: MdraidEntry) -> bool {
    match r {
        Ok(x) => md == x,
        Err(_) => md.arrays@.len() == 0 && md.members@.len() == 0,
    }
}

/// The LVM topology used: that of a successful call, else an empty one.
pub open spec fn lvm_used(r: Result<LvmEntry, NativeProbeError>, lvm: LvmEntry) -> bool {
    match r {
        Ok(x) => lvm == x,
        Err(_) => lvm.pvs@.len() == 0 && lvm.vgs@.len() == 0 && lvm.lvs@.len() == 0,
    }
}

/// The ZFS topology used: that of a successful call, else an empty one.
pub open spec fn zfs_used(r: Result<ZfsEntry, NativeProbeError>, zfs: ZfsEntry) -> bool {
    match r {
        Ok(x) => zfs == x,
        Err(_) => zfs.pools@.len() == 0 && zfs.datasets@.len() == 0,
    }
}

/// The NVMe topology used: that of a successful call, else an empty one.
pub open spec fn nvme_used(r: Result<NvmeEntry, NativeProbeError>, nvme: NvmeEntry) -> bool {
    match r {
        Ok(x) => nvme == x,
        Err(_) => nvme.subsystems@.len() == 0,
    }
}

/// Complete native adapter for the implemented Linux local-storage stack.
pub struct NativeLocalProvider<'a> {
    pub runtime: NativeRuntimeProvider<'a>,
    pub lvm: &'a RegisteredProvider,
    pub mdraid: &'a RegisteredProvider,
}

impl<'a> NativeLocalProvider<'a> {
    /// Binds every native provider currently feeding local-storage state.
    pub fn new(
        udev: &'a RegisteredProvider,
        fdisk: &'a RegisteredProvider,
        blkid: &'a RegisteredProvider,
        devmapper: &'a RegisteredProvider,
        cryptsetup: &'a RegisteredProvider,
        loop_provider: &'a RegisteredProvider,
        swap: &'a RegisteredProvider,
        multipath: &'a RegisteredProvider,
        lvm: &'a RegisteredProvider,
        mdraid: &'a RegisteredProvider,
    ) -> (r: Self)
        ensures
            r.runtime.mapper.block.udev == udev,
            r.runtime.mapper.block.fdisk == fdisk,
            r.runtime.mapper.block.blkid == blkid,
            r.runtime.mapper.devmapper == devmapper,
            r.runtime.mapper.cryptsetup == cryptsetup,
            r.runtime.loop_provider == loop_provider,
            r.runtime.swap == swap,
            r.runtime.multipath == multipath,
            r.lvm == lvm,
            r.mdraid == mdraid,
    {
        NativeLocalProvider {
            runtime: NativeRuntimeProvider::new(
                udev,
                fdisk,
                blkid,
                devmapper,
                cryptsetup,
                loop_provider,
                swap,
                multipath,
            ),
            lvm,
            mdraid,
        }
    }

    /// Identity of the adapter.
    pub fn id(&self) -> (r: &'static str)
        ensures
            r@ == "native-linux-local-storage"@,
    {
        "native-linux-local-storage"
    }

    /// Responsibility of the adapter.
    pub fn responsibility(&self) -> (r: &'static str)
        ensures
            r@ == "block.current-state"@,
    {
        "block.current-state"
    }

    /// The adapter is backed by native libraries.
    pub fn backend(&self) -> (r: ProviderBackend)
        ensures
            r == ProviderBackend::Library,
    {
        ProviderBackend::Library
    }

    /// Adds MD and LVM topology to the runtime state; a failed call is
    /// recorded and contributes an empty topology.
    pub fn finish(
        state: &mut ProviderState,
        endpoints: &[UdevBlockEntry],
        mappings: &[DevmapperEntry],
        mdraid: Result<MdraidEntry, NativeProbeError>,
        lvm: Result<LvmEntry, NativeProbeError>,
    )
        ensures
            final(state).mounts == old(state).mounts,
            final(state).environment == old(state).environment,
            appended_failures(
                *old(state),
                *final(state),
                failure_of("mdraid"@, mdraid) + failure_of("lvm"@, lvm),
            ),
            exists|md: MdraidEntry, lv: LvmEntry, t1: GraphTrace, t2: GraphTrace|
                {
                    &&& mdraid_used(mdraid, md)
                    &&& lvm_used(lvm, lv)
                    &&& is_mdraid_trace(t1, md)
                    &&& is_lvm_trace(t2, endpoints@, mappings@, lv)
                    &&& t1[0] == graph_view(old(state).graph)
                    &&& t1.last() == t2[0]
                    &&& t2.last() == graph_view(final(state).graph)
                },
    {
        let ghost s0 = *state;
        note_failure(state, "mdraid", &mdraid);
        let ghost s1 = *state;
        note_failure(state, "lvm", &lvm);
        proof {
            lemma_appended_failures_chain(
                s0,
                s1,
                *state,
                failure_of("mdraid"@, mdraid),
                failure_of("lvm"@, lvm),
            );
        }
        let md = match mdraid {
            Ok(m) => m,
            Err(_) => MdraidEntry { arrays: Vec::new(), members: Vec::new() },
        };
        let lv = match lvm {
            Ok(l) => l,
            Err(_) => LvmEntry { pvs: Vec::new(), vgs: Vec::new(), lvs: Vec::new() },
        };
        let ghost s2 = *state;
        enrich_mdraid(&mut state.graph, &md);
        enrich_lvm(&mut state.graph, endpoints, mappings, &lv);
        assert(state.diagnostics == s2.diagnostics);
    }
}

/// Native adapter adding Btrfs, ZFS, NVMe, and mounts to local-storage state.
pub struct NativeSystemProvider<'a> {
    pub local: NativeLocalProvider<'a>,
    pub libmount: &'a RegisteredProvider,
    pub btrfs: &'a RegisteredProvider,
    pub zfs: &'a RegisteredProvider,
    pub nvme: &'a RegisteredProvider,
}

impl<'a> NativeSystemProvider<'a> {
    /// Extends an assembled local provider with the remaining native sources.
    pub fn new(
        local: NativeLocalProvider<'a>,
        libmount: &'a RegisteredProvider,
        btrfs: &'a RegisteredProvider,
        zfs: &'a RegisteredProvider,
        nvme: &'a RegisteredProvider,
    ) -> (r: Self)
        ensures
            r.local == local,
            r.libmount == libmount,
            r.btrfs == btrfs,
            r.zfs == zfs,
            r.nvme == nvme,
    {
        NativeSystemProvider { local, libmount, btrfs, zfs, nvme }
    }

    /// Identity of the adapter.
    pub fn id(&self) -> (r: &'static str)
        ensures
            r@ == "native-linux-system-storage"@,
    {
        "native-linux-system-storage"
    }

    /// Responsibility of the adapter.
    pub fn responsibility(&self) -> (r: &'static str)
        ensures
            r@ == "storage.current-state"@,
    {
        "storage.current-state"
    }

    /// The adapter is backed by native libraries.
    pub fn backend(&self) -> (r: ProviderBackend)
        ensures
            r == ProviderBackend::Library,
    {
        ProviderBackend::Library
    }

    /// Replaces the state's mounts with those libmount reported (none when
    /// the call failed, which is recorded); returns the distinct Btrfs mount
    /// points to inspect next.
    pub fn record_mounts(
        state: &mut ProviderState,
        mounts: Result<Vec<LibmountEntry>, NativeProbeError>,
    ) -> (r: Vec<String>)
        ensures
            final(state).graph == old(state).graph,
            final(state).environment == old(state).environment,
            appended_failures(*old(state), *final(state), failure_of("libmount"@, mounts)),
            final(state).mounts@.len() == entries_of(mounts).len(),
            forall|i: int|
                0 <= i < final(state).mounts@.len() ==> is_observed_mount(
                    #[trigger] final(state).mounts@[i],
                    entries_of(mounts)[i],
                ),
            texts_of(r@).no_duplicates(),
            texts_of(r@).to_set() == btrfs_targets(entries_of(mounts)),
    {
        note_failure(state, "libmount", &mounts);
        let entries = match mounts {
            Ok(v) => v,
            Err(_) => Vec::new(),
        };
        let points = btrfs_mountpoints(entries.as_slice());
        state.mounts = observed_mounts(entries);
        points
    }

    /// Adds Btrfs subvolumes (against the recorded mounts), ZFS datasets,
    /// and NVMe namespaces; a failed call is recorded and contributes
    /// nothing.
    pub fn finish(
        state: &mut ProviderState,
        btrfs: Result<Vec<BtrfsEntry>, NativeProbeError>,
        zfs: Result<ZfsEntry, NativeProbeError>,
        nvme: Result<NvmeEntry, NativeProbeError>,
    )
        ensures
            final(state).mounts == old(state).mounts,
            final(state).environment == old(state).environment,
            appended_failures(
                *old(state),
                *final(state),
                failure_of("btrfs"@, btrfs) + failure_of("zfs"@, zfs) + failure_of("nvme"@, nvme),
            ),
            exists|z: ZfsEntry, n: NvmeEntry, t1: GraphTrace, t2: GraphTrace, t3: GraphTrace|
                {
                    &&& zfs_used(zfs, z)
                    &&& nvme_used(nvme, n)
                    &&& is_btrfs_trace(t1, old(state).mounts@, entries_of(btrfs))
                    &&& is_zfs_trace(t2, z)
                    &&& is_nvme_trace(t3, n)
                    &&& t1[0] == graph_view(old(state).graph)
                    &&& t1.last() == t2[0]
                    &&& t2.last() == t3[0]
                    &&& t3.last() == graph_view(final(state).graph)
                },
    {
        let ghost s0 = *state;
        note_failure(state, "btrfs", &btrfs);
        let ghost s1 = *state;
        note_failure(state, "zfs", &zfs);
        let ghost s2 = *state;
        note_failure(state, "nvme", &nvme);
        proof {
            lemma_appended_failures_chain(
                s0,
                s1,
                s2,
                failure_of("btrfs"@, btrfs),
                failure_of("zfs"@, zfs),
            );
            lemma_appended_failures_chain(
                s0,
                s2,
                *state,
                failure_of("btrfs"@, btrfs) + failure_of("zfs"@, zfs),
                failure_of("nvme"@, nvme),
            );
        }
        let filesystems = match btrfs {
            Ok(v) => v,
            Err(_) => Vec::new(),
        };
        let z = match zfs {
            Ok(x) => x,
            Err(_) => ZfsEntry { pools: Vec::new(), datasets: Vec::new() },
        };
        let n = match nvme {
            Ok(x) => x,
            Err(_) => NvmeEntry { subsystems: Vec::new() },
        };
        let ghost s3 = *state;
        enrich_btrfs(&mut state.graph, state.mounts.as_slice(), filesystems.as_slice());
        enrich_zfs(&mut state.graph, &z);
        enrich_nvme(&mut state.graph, &n);
        assert(state.diagnostics == s3.diagnostics);
    }
}

} // verus!
