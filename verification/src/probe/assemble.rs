//! Provider orchestration and assembly of the canonical current state.

use vstd::prelude::*;
use vstd::string::StringExecFns;

use crate::model::equality::{
    contains_mount, environment_eq, has_mount, node_eq, same_environment, same_mount, same_node,
};
use crate::model::graph::{entry_ids, Dependency, NodeGraph, Relation};
use crate::model::node::{Node, NodeId};
use crate::model::state::{
    CurrentState, Diagnostic, DiagnosticSeverity, DiagnosticSubject, Environment, MountState,
    ObservedMount, SystemEnvironment,
};
use crate::probe::ids::{uuid_hyphenated, uuid_text};
use crate::collections::str_eq;
use crate::provider::registry::{
    lemma_text_lt_irreflexive, lemma_text_lt_total, lemma_text_lt_transitive, str_lt, text_lt,
    ProviderBackend,
};

verus! {

/// Successful read-only contribution from one provider.
#[derive(Debug, Clone, PartialEq, Eq)]
pub struct ProviderState {
    /// Nodes and relationships owned or observed by the provider.
    pub graph: NodeGraph,
    /// Runtime mounts observed by the provider.
    pub mounts: Vec<ObservedMount>,
    /// Environment facts when this provider owns their discovery.
    pub environment: Option<Environment>,
    /// Provider-specific diagnostics produced during successful probing.
    pub diagnostics: Vec<Diagnostic>,
}

impl ProviderState {
    /// A contribution that observed nothing.
    pub open spec fn is_empty(self) -> bool {
        &&& self.graph.wf()
        &&& self.graph.node_map() == Map::<NodeId, Node>::empty()
        &&& self.graph.dependency_set() == Set::<Dependency>::empty()
        &&& self.graph.relation_set() == Set::<Relation>::empty()
        &&& self.mounts@.len() == 0
        &&& self.environment is None
        &&& self.diagnostics@.len() == 0
    }

    /// A contribution that observed nothing.
    pub fn empty() -> (r: ProviderState)
        ensures
            r.is_empty(),
    {
        ProviderState {
            graph: NodeGraph::new(),
            mounts: Vec::new(),
            environment: None,
            diagnostics: Vec::new(),
        }
    }
}

impl Default for ProviderState {
    fn default() -> (r: ProviderState)
        ensures
            r.is_empty(),
    {
        ProviderState::empty()
    }
}

/// Failure returned by a provider adapter.
#[derive(Debug, Clone, PartialEq, Eq)]
pub struct ProviderProbeError {
    /// Stable provider-specific failure code.
    pub code: String,
    /// Human-readable failure description.
    pub message: String,
}

impl ProviderProbeError {
    /// Creates a provider failure with a stable code and readable message.
    pub fn new(code: &str, message: &str) -> (r: ProviderProbeError)
        ensures
            r.code@ == code@,
            r.message@ == message@,
    {
        ProviderProbeError { code: code.to_string(), message: message.to_string() }
    }

    /// The failure as one line: `{code}: {message}`.
    pub fn summary(&self) -> (r: String)
        ensures
            r@ == self.code@ + ": "@ + self.message@,
    {
        let mut s = String::from_str(self.code.as_str());
        s.append(": ");
        s.append(self.message.as_str());
        s
    }
}

/// Provider-specific adapter capable of a read-only probe.
///
/// Library and CLI adapters must have distinct responsibilities. The assembler
/// never substitutes one adapter for another.
///
/// The spec functions name what an adapter reports, so that contracts can
/// speak of it. An implementation that does not state them says nothing of
/// its answers: its identity is left unknown and any probe outcome is
/// possible.
pub trait StateProvider {
    /// The integration ID this adapter reports.
    closed spec fn spec_id(&self) -> Seq<char> {
        arbitrary()
    }

    /// The responsibility this adapter reports.
    closed spec fn spec_responsibility(&self) -> Seq<char> {
        arbitrary()
    }

    /// The backend this adapter reports.
    closed spec fn spec_backend(&self) -> ProviderBackend {
        arbitrary()
    }

    /// `o` is an outcome that a probe of this adapter may return.
    closed spec fn probe_yields(&self, o: Result<ProviderState, ProviderProbeError>) -> bool {
        true
    }

    /// Stable provider integration ID.
    fn id(&self) -> (r: &str)
        ensures
            r@ == self.spec_id(),
    ;

    /// Exclusive area of current state owned by this adapter.
    fn responsibility(&self) -> (r: &str)
        ensures
            r@ == self.spec_responsibility(),
    ;

    /// Backend used by this adapter.
    fn backend(&self) -> (r: ProviderBackend)
        ensures
            r == self.spec_backend(),
    ;

    /// Reads current state without performing storage mutations.
    fn probe(&self) -> (r: Result<ProviderState, ProviderProbeError>)
        ensures
            self.probe_yields(r),
    ;
}

/// `ds` describes the adapters `ps`, one descriptor per adapter, in order.
pub open spec fn describes(ds: Seq<ProviderDescriptor>, ps: Seq<&dyn StateProvider>) -> bool {
    &&& ds.len() == ps.len()
    &&& forall|i: int|
        0 <= i < ds.len() ==> (#[trigger] ds[i]).id@ == ps[i].spec_id()
            && ds[i].responsibility@ == ps[i].spec_responsibility() && ds[i].backend
            == ps[i].spec_backend()
}

/// The outcomes that the adapter at each position of `ps` may return.
pub open spec fn adapter_outcomes(ps: Seq<&dyn StateProvider>) -> spec_fn(
    int,
    Result<ProviderState, ProviderProbeError>,
) -> bool {
    |i: int, o: Result<ProviderState, ProviderProbeError>| 0 <= i < ps.len() && ps[i].probe_yields(o)
}

/// What the assembler knows of one adapter before probing it.
#[derive(Debug, Clone, PartialEq, Eq)]
pub struct ProviderDescriptor {
    pub id: String,
    pub responsibility: String,
    pub backend: ProviderBackend,
}

/// Optional text by its characters.
pub open spec fn opt_text(o: Option<String>) -> Option<Seq<char>> {
    match o {
        Some(s) => Some(s@),
        None => None,
    }
}

/// `d` has exactly the given fields.
pub open spec fn diagnostic_is(
    d: Diagnostic,
    code: Seq<char>,
    severity: DiagnosticSeverity,
    subjects: Seq<DiagnosticSubject>,
    message: Seq<char>,
    evidence: Option<Seq<char>>,
    remedy: Option<Seq<char>>,
) -> bool {
    &&& d.code@ == code
    &&& d.severity == severity
    &&& d.subjects@ == subjects
    &&& d.message@ == message
    &&& opt_text(d.evidence) == evidence
    &&& opt_text(d.suggested_remedy) == remedy
}

/// How a backend is named in diagnostics (its `Debug` form).
pub open spec fn backend_name(b: ProviderBackend) -> Seq<char> {
    match b {
        ProviderBackend::Library => "Library"@,
        ProviderBackend::Cli => "Cli"@,
    }
}

fn backend_text(b: ProviderBackend) -> (r: &'static str)
    ensures
        r@ == backend_name(b),
{
    match b {
        ProviderBackend::Library => "Library",
        ProviderBackend::Cli => "Cli",
    }
}

/// The diagnostic recorded when a provider fails as a whole.
pub open spec fn is_provider_failure(
    d: Diagnostic,
    provider_id: Seq<char>,
    backend: ProviderBackend,
    evidence: Seq<char>,
) -> bool {
    diagnostic_is(
        d,
        "provider.probe_failed"@,
        DiagnosticSeverity::MissingInformation,
        Seq::empty(),
        "provider "@ + provider_id + " ("@ + backend_name(backend)
            + ") could not inspect its storage responsibility"@,
        Some(evidence),
        Some("install or repair the provider backend and repeat probing"@),
    )
}

/// Converts total provider failure into a current-state diagnostic.
pub fn provider_failure(provider_id: &str, backend: ProviderBackend, evidence: String) -> (r:
    Diagnostic)
    ensures
        is_provider_failure(r, provider_id@, backend, evidence@),
{
    let mut message = String::from_str("provider ");
    message.append(provider_id);
    message.append(" (");
    message.append(backend_text(backend));
    message.append(") could not inspect its storage responsibility");
    Diagnostic {
        code: "provider.probe_failed".to_string(),
        severity: DiagnosticSeverity::MissingInformation,
        subjects: Vec::new(),
        message,
        evidence: Some(evidence),
        suggested_remedy: Some(
            "install or repair the provider backend and repeat probing".to_string(),
        ),
    }
}

/// `{id} ({backend})` for one adapter.
pub open spec fn provider_label(p: ProviderDescriptor) -> Seq<char> {
    p.id@ + " ("@ + backend_name(p.backend) + ")"@
}

/// Labels of the adapters, separated by `, `.
pub open spec fn joined_labels(ps: Seq<ProviderDescriptor>) -> Seq<char>
    decreases ps.len(),
{
    if ps.len() == 0 {
        Seq::empty()
    } else if ps.len() == 1 {
        provider_label(ps[0])
    } else {
        joined_labels(ps.drop_last()) + ", "@ + provider_label(ps.last())
    }
}

/// The diagnostic recorded when several adapters claim one responsibility.
pub open spec fn is_responsibility_conflict(
    d: Diagnostic,
    responsibility: Seq<char>,
    providers: Seq<ProviderDescriptor>,
) -> bool {
    diagnostic_is(
        d,
        "provider.responsibility_conflict"@,
        DiagnosticSeverity::Error,
        Seq::empty(),
        "multiple providers own responsibility "@ + responsibility,
        Some(joined_labels(providers)),
        Some("assign each provider a distinct responsibility"@),
    )
}

/// Reports ambiguous ownership instead of choosing a provider implicitly.
pub fn responsibility_conflict(responsibility: &str, providers: &[ProviderDescriptor]) -> (r:
    Diagnostic)
    ensures
        is_responsibility_conflict(r, responsibility@, providers@),
{
    let mut evidence = String::new();
    let mut i: usize = 0;
    while i < providers.len()
        invariant
            i <= providers@.len(),
            evidence@ == joined_labels(providers@.take(i as int)),
        decreases providers.len() - i,
    {
        proof {
            assert(providers@.take(i + 1).drop_last() =~= providers@.take(i as int));
        }
        if i > 0 {
            evidence.append(", ");
        }
        evidence.append(providers[i].id.as_str());
        evidence.append(" (");
        evidence.append(backend_text(providers[i].backend));
        evidence.append(")");
        i = i + 1;
    }
    assert(providers@.take(providers@.len() as int) =~= providers@);
    let mut message = String::from_str("multiple providers own responsibility ");
    message.append(responsibility);
    Diagnostic {
        code: "provider.responsibility_conflict".to_string(),
        severity: DiagnosticSeverity::Error,
        subjects: Vec::new(),
        message,
        evidence: Some(evidence),
        suggested_remedy: Some("assign each provider a distinct responsibility".to_string()),
    }
}

/// An environment with no facts.
pub open spec fn blank_environment(e: Environment) -> bool {
    e.host.is_blank() && e.target is None
}

/// A current state before any contribution: nothing observed.
pub open spec fn is_empty_state(s: CurrentState) -> bool {
    &&& s.graph.wf()
    &&& s.graph.node_map() == Map::<NodeId, Node>::empty()
    &&& s.graph.dependency_set() == Set::<Dependency>::empty()
    &&& s.graph.relation_set() == Set::<Relation>::empty()
    &&& s.mounts.entries@.len() == 0
    &&& blank_environment(s.environment)
    &&& s.diagnostics@.len() == 0
}

fn blank_env() -> (r: Environment)
    ensures
        blank_environment(r),
{
    Environment { host: SystemEnvironment::default(), target: None }
}

/// Creates an empty state before provider contributions are merged.
pub fn empty_current_state() -> (r: CurrentState)
    ensures
        is_empty_state(r),
{
    CurrentState {
        graph: NodeGraph::new(),
        mounts: MountState { entries: Vec::new() },
        environment: blank_env(),
        diagnostics: Vec::new(),
    }
}

/// Which provider first contributed each node of the assembled graph.
pub struct NodeOwners {
    entries: Vec<(NodeId, String)>,
}

/// Owner names of a list of `(node, provider)` entries.
pub open spec fn owner_ids(e: Seq<(NodeId, String)>) -> Seq<NodeId> {
    e.map_values(|p: (NodeId, String)| p.0)
}

impl NodeOwners {
    /// Owner of each node, by provider name.
    pub closed spec fn owner_map(self) -> Map<NodeId, Seq<char>> {
        Map::new(
            |k: NodeId| owner_ids(self.entries@).contains(k),
            |k: NodeId| self.entries@[owner_ids(self.entries@).index_of(k)].1@,
        )
    }

    /// No node is recorded twice.
    pub closed spec fn wf(self) -> bool {
        owner_ids(self.entries@).no_duplicates()
    }

    /// No node has an owner yet.
    pub fn new() -> (r: NodeOwners)
        ensures
            r.wf(),
            r.owner_map() == Map::<NodeId, Seq<char>>::empty(),
    {
        let r = NodeOwners { entries: Vec::new() };
        assert(r.owner_map() =~= Map::<NodeId, Seq<char>>::empty());
        r
    }

    /// The owner of `id`, if it has one.
    pub fn get(&self, id: &NodeId) -> (r: Option<&String>)
        requires
            self.wf(),
        ensures
            match r {
                Some(o) => self.owner_map().contains_key(*id) && o@ == self.owner_map()[*id],
                None => !self.owner_map().contains_key(*id),
            },
    {
        let mut i: usize = 0;
        while i < self.entries.len()
            invariant
                i <= self.entries@.len(),
                self.wf(),
                forall|j: int| 0 <= j < i ==> self.entries@[j].0 != *id,
            decreases self.entries.len() - i,
        {
            if self.entries[i].0 == *id {
                proof {
                    let ids = owner_ids(self.entries@);
                    assert(ids[i as int] == *id);
                    assert(ids.contains(*id));
                    let j = ids.index_of(*id);
                    assert(ids[j] == *id);
                    assert(j == i);
                }
                return Some(&self.entries[i].1);
            }
            i = i + 1;
        }
        assert forall|j: int| 0 <= j < owner_ids(self.entries@).len() implies owner_ids(
            self.entries@,
        )[j] != *id by {}
        None
    }

    /// Records the first owner of a node that had none.
    pub fn insert_new(&mut self, id: NodeId, owner: String)
        requires
            old(self).wf(),
            !old(self).owner_map().contains_key(id),
        ensures
            final(self).wf(),
            final(self).owner_map() == old(self).owner_map().insert(id, owner@),
    {
        let ghost old_entries = self.entries@;
        let ghost old_map = self.owner_map();
        self.entries.push((id, owner));
        proof {
            let ids = owner_ids(self.entries@);
            let old_ids = owner_ids(old_entries);
            assert(ids =~= old_ids.push(id));
            assert(!old_ids.contains(id));
            assert forall|a: int, b: int| 0 <= a < ids.len() && 0 <= b < ids.len() && a != b implies ids[a]
                != ids[b] by {
                if a < old_ids.len() && b < old_ids.len() {
                    assert(ids[a] == old_ids[a]);
                    assert(ids[b] == old_ids[b]);
                } else if a < old_ids.len() {
                    assert(ids[a] == old_ids[a]);
                } else {
                    assert(ids[b] == old_ids[b]);
                }
            }
            assert forall|k: NodeId| #[trigger] self.owner_map().contains_key(k) <==> old_map.insert(
                id,
                owner@,
            ).contains_key(k) by {
                if k == id {
                    assert(ids[old_ids.len() as int] == id);
                } else if old_map.contains_key(k) {
                    let j = old_ids.index_of(k);
                    assert(ids[j] == k);
                } else if self.owner_map().contains_key(k) {
                    let j = ids.index_of(k);
                    assert(ids[j] == k);
                    assert(old_ids[j] == k);
                }
            }
            assert forall|k: NodeId| self.owner_map().contains_key(k) implies #[trigger] self.owner_map()[k]
                == old_map.insert(id, owner@)[k] by {
                let j = ids.index_of(k);
                assert(ids[j] == k);
                if k == id {
                    assert(ids[old_ids.len() as int] == id);
                    assert(j == old_ids.len());
                } else {
                    let jo = old_ids.index_of(k);
                    assert(old_ids[jo] == k);
                    assert(ids[jo] == k);
                }
            }
            assert(self.owner_map() =~= old_map.insert(id, owner@));
        }
    }
}

/// Owners after merging: each node new to the graph is owned by `provider`.
pub open spec fn merged_owners(
    owners: Map<NodeId, Seq<char>>,
    existing: Map<NodeId, Node>,
    incoming: Set<NodeId>,
    provider: Seq<char>,
) -> Map<NodeId, Seq<char>> {
    Map::new(
        |k: NodeId| owners.contains_key(k) || (incoming.contains(k) && !existing.contains_key(k)),
        |k: NodeId|
            if owners.contains_key(k) {
                owners[k]
            } else {
                provider
            },
    )
}

/// Incoming nodes, in contribution order, that disagree with the existing
/// node of the same identity.
pub open spec fn node_conflicts(existing: Map<NodeId, Node>, incoming: Seq<(NodeId, Node)>) -> Seq<
    NodeId,
>
    decreases incoming.len(),
{
    if incoming.len() == 0 {
        Seq::empty()
    } else {
        let prev = node_conflicts(existing, incoming.drop_last());
        let last = incoming.last();
        if existing.contains_key(last.0) && !same_node(existing[last.0], last.1) {
            prev.push(last.0)
        } else {
            prev
        }
    }
}

/// The diagnostic recorded when a provider disagrees about an existing node.
pub open spec fn is_node_conflict(
    d: Diagnostic,
    id: NodeId,
    first_owner: Option<Seq<char>>,
    provider: Seq<char>,
) -> bool {
    diagnostic_is(
        d,
        "provider.node_conflict"@,
        DiagnosticSeverity::Error,
        seq![DiagnosticSubject::Node(id)],
        "providers disagree about node NodeId("@ + uuid_hyphenated(id.0) + ")"@,
        match first_owner {
            Some(o) => Some("first provider: "@ + o + "; conflicting provider: "@ + provider),
            None => None,
        },
        Some("repeat probing and inspect provider evidence"@),
    )
}

/// Mounts after appending those of `incoming` not yet observed, in order.
pub open spec fn with_new_mounts(existing: Seq<ObservedMount>, incoming: Seq<ObservedMount>) -> Seq<
    ObservedMount,
>
    decreases incoming.len(),
{
    if incoming.len() == 0 {
        existing
    } else {
        let prev = with_new_mounts(existing, incoming.drop_last());
        if has_mount(prev, incoming.last()) {
            prev
        } else {
            prev.push(incoming.last())
        }
    }
}

/// The environment after a contribution: adopted while nothing is known.
pub open spec fn merged_environment(current: Environment, incoming: Option<Environment>) -> Environment {
    match incoming {
        Some(e) => if blank_environment(current) {
            e
        } else {
            current
        },
        None => current,
    }
}

/// A contribution reports environment facts other than those already known.
pub open spec fn environment_conflict(current: Environment, incoming: Option<Environment>) -> bool {
    match incoming {
        Some(e) => !blank_environment(current) && !same_environment(current, e),
        None => false,
    }
}

/// The diagnostic recorded when a provider disagrees about the environment.
pub open spec fn is_environment_conflict(d: Diagnostic, provider: Seq<char>) -> bool {
    diagnostic_is(
        d,
        "provider.environment_conflict"@,
        DiagnosticSeverity::Warning,
        seq![DiagnosticSubject::Environment],
        "provider "@ + provider + " reported conflicting environment facts"@,
        None,
        Some("repeat environment probing"@),
    )
}

proof fn lemma_blank_same(a: Environment, b: Environment)
    requires
        blank_environment(b),
    ensures
        same_environment(a, b) == blank_environment(a),
{
    if blank_environment(a) {
        assert(same_environment(a, b));
    }
    if same_environment(a, b) {
        assert(a.host.tools@.len() == 0);
        assert(a.host.kernel_modules@.len() == 0);
    }
}

fn node_conflict(id: NodeId, first_owner: Option<&String>, provider_id: &str) -> (r: Diagnostic)
    ensures
        is_node_conflict(
            r,
            id,
            match first_owner {
                Some(o) => Some(o@),
                None => None,
            },
            provider_id@,
        ),
{
    let mut message = String::from_str("providers disagree about node NodeId(");
    let text = uuid_text(id.0);
    message.append(text.as_str());
    message.append(")");
    let evidence = match first_owner {
        Some(owner) => {
            let mut e = String::from_str("first provider: ");
            e.append(owner.as_str());
            e.append("; conflicting provider: ");
            e.append(provider_id);
            Some(e)
        },
        None => None,
    };
    let subjects = vec![DiagnosticSubject::Node(id)];
    assert(subjects@ =~= seq![DiagnosticSubject::Node(id)]);
    Diagnostic {
        code: "provider.node_conflict".to_string(),
        severity: DiagnosticSeverity::Error,
        subjects,
        message,
        evidence,
        suggested_remedy: Some("repeat probing and inspect provider evidence".to_string()),
    }
}

fn environment_conflict_diagnostic(provider_id: &str) -> (r: Diagnostic)
    ensures
        is_environment_conflict(r, provider_id@),
{
    let mut message = String::from_str("provider ");
    message.append(provider_id);
    message.append(" reported conflicting environment facts");
    let subjects = vec![DiagnosticSubject::Environment];
    assert(subjects@ =~= seq![DiagnosticSubject::Environment]);
    Diagnostic {
        code: "provider.environment_conflict".to_string(),
        severity: DiagnosticSeverity::Warning,
        subjects,
        message,
        evidence: None,
        suggested_remedy: Some("repeat environment probing".to_string()),
    }
}

/// Every owned node is in the graph.
pub open spec fn owners_within(owners: Map<NodeId, Seq<char>>, graph: NodeGraph) -> bool {
    forall|k: NodeId| owners.contains_key(k) ==> #[trigger] graph.node_map().contains_key(k)
}

/// What merging contribution `c` of adapter `provider_id` into the
/// assembled state `a` (owners `oa`) gives: `b` (owners `ob`).
pub open spec fn merged_into(
    a: CurrentState,
    b: CurrentState,
    oa: Map<NodeId, Seq<char>>,
    ob: Map<NodeId, Seq<char>>,
    provider_id: Seq<char>,
    c: ProviderState,
) -> bool {
    &&& b.graph.node_map() == c.graph.node_map().union_prefer_right(a.graph.node_map())
    &&& b.graph.dependency_set() == a.graph.dependency_set().union(c.graph.dependency_set())
    &&& b.graph.relation_set() == a.graph.relation_set().union(c.graph.relation_set())
    &&& ob == merged_owners(oa, a.graph.node_map(), c.graph.node_map().dom(), provider_id)
    &&& b.mounts.entries@ == with_new_mounts(a.mounts.entries@, c.mounts@)
    &&& b.environment == merged_environment(a.environment, c.environment)
    &&& ({
        let conflicts = node_conflicts(
            a.graph.node_map(),
            c.graph.node_seq(),
        );
        let n0 = a.diagnostics@.len() as int;
        let n1 = n0 + conflicts.len();
        let n2 = n1 + (if environment_conflict(
            a.environment,
            c.environment,
        ) {
            1int
        } else {
            0int
        });
        let ds = b.diagnostics@;
        &&& ds.len() == n2 + c.diagnostics@.len()
        &&& ds.take(n0) == a.diagnostics@
        &&& forall|i: int|
            0 <= i < conflicts.len() ==> is_node_conflict(
                #[trigger] ds[n0 + i],
                conflicts[i],
                if oa.contains_key(conflicts[i]) {
                    Some(oa[conflicts[i]])
                } else {
                    None
                },
                provider_id,
            )
        &&& environment_conflict(a.environment, c.environment)
            ==> is_environment_conflict(ds[n1], provider_id)
        &&& ds.skip(n2) == c.diagnostics@
    })
}

/// Merges one successful provider contribution without replacing conflicts.
///
/// An existing node is never replaced; a node that disagrees with it is
/// reported, naming the provider that contributed it first. Edges are added,
/// mounts not yet observed are appended, environment facts are adopted only
/// while none are known, and the contribution's own diagnostics follow.
pub fn merge_provider_state(
    state: &mut CurrentState,
    owners: &mut NodeOwners,
    provider_id: &str,
    contribution: ProviderState,
)
    requires
        old(state).graph.wf(),
        old(owners).wf(),
        contribution.graph.wf(),
        owners_within(old(owners).owner_map(), old(state).graph),
    ensures
        final(state).graph.wf(),
        final(owners).wf(),
        owners_within(final(owners).owner_map(), final(state).graph),
        merged_into(
            *old(state),
            *final(state),
            old(owners).owner_map(),
            final(owners).owner_map(),
            provider_id@,
            contribution,
        ),
{
    let ghost old_map = state.graph.node_map();
    let ghost old_deps = state.graph.dependency_set();
    let ghost old_rels = state.graph.relation_set();
    let ghost old_owners = owners.owner_map();
    let ghost old_diags = state.diagnostics@;
    let ghost old_mounts = state.mounts.entries@;
    let ghost old_env = state.environment;
    proof {
        contribution.graph.lemma_node_seq();
    }
    let ghost incoming = contribution.graph.node_seq();
    let ghost incoming_map = contribution.graph.node_map();
    let ghost incoming_deps = contribution.graph.dependency_set();
    let ghost incoming_rels = contribution.graph.relation_set();
    let ghost incoming_env = contribution.environment;
    let ghost incoming_diags = contribution.diagnostics@;
    let ghost incoming_mounts = contribution.mounts@;
    let ProviderState { graph, mounts, environment, diagnostics } = contribution;
    let (nodes, deps, rels) = graph.into_parts();
    let mut rest = nodes;
    let total = rest.len();
    let mut k: usize = 0;
    let ghost n0 = old_diags.len();
    proof {
        assert(incoming.skip(0) =~= incoming);
        assert(entry_ids(incoming.take(0)).to_set() =~= Set::<NodeId>::empty());
        assert(incoming_map.restrict(Set::<NodeId>::empty()).union_prefer_right(old_map)
            =~= old_map);
        assert(merged_owners(old_owners, old_map, Set::<NodeId>::empty(), provider_id@)
            =~= old_owners);
        assert(state.diagnostics@.take(n0 as int) =~= old_diags);
        assert(incoming.take(0) =~= Seq::<(NodeId, Node)>::empty());
    }
    while rest.len() > 0
        invariant
            k <= incoming.len(),
            incoming.len() == total,
            rest@ == incoming.skip(k as int),
            entry_ids(incoming).no_duplicates(),
            entry_ids(incoming).to_set() == incoming_map.dom(),
            forall|i: int|
                0 <= i < incoming.len() ==> #[trigger] incoming_map[incoming[i].0]
                    == incoming[i].1,
            state.graph.wf(),
            owners.wf(),
            owners_within(owners.owner_map(), state.graph),
            forall|x: NodeId| old_owners.contains_key(x) ==> #[trigger] old_map.contains_key(x),
            state.graph.node_map() == incoming_map.restrict(
                entry_ids(incoming.take(k as int)).to_set(),
            ).union_prefer_right(old_map),
            owners.owner_map() == merged_owners(
                old_owners,
                old_map,
                entry_ids(incoming.take(k as int)).to_set(),
                provider_id@,
            ),
            state.graph.dependency_set() == old_deps,
            state.graph.relation_set() == old_rels,
            state.mounts.entries@ == old_mounts,
            state.environment == old_env,
            state.diagnostics@.len() == n0 + node_conflicts(old_map, incoming.take(k as int)).len(),
            state.diagnostics@.take(n0 as int) == old_diags,
            forall|i: int|
                0 <= i < node_conflicts(old_map, incoming.take(k as int)).len()
                    ==> is_node_conflict(
                    #[trigger] state.diagnostics@[n0 + i],
                    node_conflicts(old_map, incoming.take(k as int))[i],
                    if old_owners.contains_key(node_conflicts(old_map, incoming.take(k as int))[i]) {
                        Some(old_owners[node_conflicts(old_map, incoming.take(k as int))[i]])
                    } else {
                        None
                    },
                    provider_id@,
                ),
        decreases rest.len(),
    {
        let ghost prev = incoming.take(k as int);
        let ghost next = incoming.take(k + 1);
        let ghost prev_conf = node_conflicts(old_map, prev);
        let (id, node) = rest.remove(0);
        proof {
            assert(incoming.skip(k as int)[0] == incoming[k as int]);
            assert(incoming.skip(k + 1) =~= incoming.skip(k as int).drop_first());
            assert(k < incoming.len());
            assert(next.drop_last() =~= prev);
            assert(next.last() == (id, node));
            assert(entry_ids(next) =~= entry_ids(prev).push(id));
            entry_ids(prev).lemma_push_to_set_commute(id);
            assert(entry_ids(next).to_set() =~= entry_ids(prev).to_set().insert(id));
            assert(incoming_map[incoming[k as int].0] == incoming[k as int].1);
            assert(incoming_map[id] == node);
            assert(entry_ids(incoming)[k as int] == id);
            assert(incoming_map.dom().contains(id));
            assert(!entry_ids(prev).contains(id)) by {
                if entry_ids(prev).contains(id) {
                    let j = choose|j: int| 0 <= j < entry_ids(prev).len() && entry_ids(prev)[j] == id;
                    assert(entry_ids(incoming)[j] == id);
                    assert(entry_ids(incoming)[k as int] == id);
                }
            }
        }
        let present = match state.graph.node(&id) {
            Some(existing) => {
                proof {
                    assert(old_map.contains_key(id));
                    assert(*existing == old_map[id]);
                }
                if !node_eq(existing, &node) {
                    let d = node_conflict(id, owners.get(&id), provider_id);
                    state.diagnostics.push(d);
                    proof {
                        assert(node_conflicts(old_map, next) == prev_conf.push(id));
                        assert(state.diagnostics@.take(n0 as int) =~= old_diags);
                    }
                } else {
                    assert(node_conflicts(old_map, next) == prev_conf);
                }
                true
            },
            None => false,
        };
        if present {
            proof {
                assert(incoming_map.restrict(entry_ids(next).to_set()).union_prefer_right(old_map)
                    =~= incoming_map.restrict(entry_ids(prev).to_set()).union_prefer_right(
                    old_map,
                ));
                assert(merged_owners(old_owners, old_map, entry_ids(next).to_set(), provider_id@)
                    =~= merged_owners(old_owners, old_map, entry_ids(prev).to_set(), provider_id@));
            }
        } else {
            proof {
                assert(!old_map.contains_key(id));
                assert(!owners.owner_map().contains_key(id));
                assert(node_conflicts(old_map, next) == prev_conf);
            }
            state.graph.insert_node(id, node);
            owners.insert_new(id, provider_id.to_string());
            proof {
                assert(incoming_map.restrict(entry_ids(next).to_set()).union_prefer_right(old_map)
                    =~= incoming_map.restrict(entry_ids(prev).to_set()).union_prefer_right(
                    old_map,
                ).insert(id, node));
                assert(merged_owners(old_owners, old_map, entry_ids(next).to_set(), provider_id@)
                    =~= merged_owners(old_owners, old_map, entry_ids(prev).to_set(), provider_id@).insert(
                    id,
                    provider_id@,
                ));
            }
        }
        k = k + 1;
    }
    proof {
        assert(incoming.take(k as int) =~= incoming);
        assert(incoming_map.restrict(entry_ids(incoming).to_set()) =~= incoming_map);
    }
    let ghost conflicts = node_conflicts(old_map, incoming);
    let ghost diags_after_nodes = state.diagnostics@;
    let ghost owners_after = owners.owner_map();
    let mut i: usize = 0;
    while i < deps.len()
        invariant
            i <= deps@.len(),
            deps@.to_set() == incoming_deps,
            state.graph.wf(),
            state.graph.dependency_set() == old_deps.union(deps@.take(i as int).to_set()),
            state.graph.relation_set() == old_rels,
            state.graph.node_map() == incoming_map.union_prefer_right(old_map),
            state.diagnostics@ == diags_after_nodes,
            owners.wf(),
            owners.owner_map() == owners_after,
            owners_within(owners.owner_map(), state.graph),
            state.mounts.entries@ == old_mounts,
            state.environment == old_env,
        decreases deps.len() - i,
    {
        state.graph.insert_dependency(deps[i]);
        proof {
            assert(deps@.take(i + 1) =~= deps@.take(i as int).push(deps@[i as int]));
            deps@.take(i as int).lemma_push_to_set_commute(deps@[i as int]);
            assert(old_deps.union(deps@.take(i + 1).to_set()) =~= old_deps.union(
                deps@.take(i as int).to_set(),
            ).insert(deps@[i as int]));
        }
        i = i + 1;
    }
    assert(deps@.take(deps@.len() as int) =~= deps@);
    let mut i: usize = 0;
    while i < rels.len()
        invariant
            i <= rels@.len(),
            rels@.to_set() == incoming_rels,
            state.graph.wf(),
            state.graph.dependency_set() == old_deps.union(incoming_deps),
            state.graph.relation_set() == old_rels.union(rels@.take(i as int).to_set()),
            state.graph.node_map() == incoming_map.union_prefer_right(old_map),
            state.diagnostics@ == diags_after_nodes,
            owners.wf(),
            owners.owner_map() == owners_after,
            owners_within(owners.owner_map(), state.graph),
            state.mounts.entries@ == old_mounts,
            state.environment == old_env,
        decreases rels.len() - i,
    {
        state.graph.insert_relation(rels[i]);
        proof {
            assert(rels@.take(i + 1) =~= rels@.take(i as int).push(rels@[i as int]));
            rels@.take(i as int).lemma_push_to_set_commute(rels@[i as int]);
            assert(old_rels.union(rels@.take(i + 1).to_set()) =~= old_rels.union(
                rels@.take(i as int).to_set(),
            ).insert(rels@[i as int]));
        }
        i = i + 1;
    }
    assert(rels@.take(rels@.len() as int) =~= rels@);
    let mut rest = mounts;
    let total = rest.len();
    let mut k: usize = 0;
    assert(incoming_mounts.skip(0) =~= incoming_mounts);
    assert(incoming_mounts.take(0) =~= Seq::<ObservedMount>::empty());
    while rest.len() > 0
        invariant
            k <= incoming_mounts.len(),
            incoming_mounts.len() == total,
            state.diagnostics@ == diags_after_nodes,
            state.environment == old_env,
            state.graph.wf(),
            state.graph.dependency_set() == old_deps.union(incoming_deps),
            state.graph.relation_set() == old_rels.union(incoming_rels),
            state.graph.node_map() == incoming_map.union_prefer_right(old_map),
            owners.wf(),
            owners.owner_map() == owners_after,
            owners_within(owners.owner_map(), state.graph),
            rest@ == incoming_mounts.skip(k as int),
            state.mounts.entries@ == with_new_mounts(old_mounts, incoming_mounts.take(k as int)),
        decreases rest.len(),
    {
        let m = rest.remove(0);
        proof {
            assert(incoming_mounts.skip(k as int)[0] == incoming_mounts[k as int]);
            assert(incoming_mounts.skip(k + 1) =~= incoming_mounts.skip(k as int).drop_first());
            assert(incoming_mounts.take(k + 1).drop_last() =~= incoming_mounts.take(k as int));
        }
        if !contains_mount(&state.mounts.entries, &m) {
            state.mounts.entries.push(m);
        }
        k = k + 1;
    }
    assert(incoming_mounts.take(k as int) =~= incoming_mounts);
    let ghost n1 = state.diagnostics@.len();
    if let Some(env) = environment {
        let blank = blank_env();
        proof {
            lemma_blank_same(state.environment, blank);
        }
        if environment_eq(&state.environment, &blank) {
            state.environment = env;
        } else if !environment_eq(&state.environment, &env) {
            state.diagnostics.push(environment_conflict_diagnostic(provider_id));
        }
    }
    let ghost n2 = state.diagnostics@.len();
    let ghost before = state.diagnostics@;
    let mut diagnostics = diagnostics;
    state.diagnostics.append(&mut diagnostics);
    proof {
        assert(state.diagnostics@.skip(n2 as int) =~= incoming_diags);
        assert(state.diagnostics@.take(n0 as int) =~= before.take(n0 as int));
        assert forall|i: int| 0 <= i < conflicts.len() implies is_node_conflict(
            #[trigger] state.diagnostics@[n0 + i],
            conflicts[i],
            if old_owners.contains_key(conflicts[i]) {
                Some(old_owners[conflicts[i]])
            } else {
                None
            },
            provider_id@,
        ) by {
            assert(state.diagnostics@[n0 + i] == before[n0 + i]);
        }
        if environment_conflict(old_env, incoming_env) {
            assert(state.diagnostics@[n1 as int] == before[n1 as int]);
        }
        assert(state.graph.node_map() =~= incoming_map.union_prefer_right(old_map));
        assert(state.graph.dependency_set() =~= old_deps.union(incoming_deps));
        assert(state.graph.relation_set() =~= old_rels.union(incoming_rels));
        assert(owners.owner_map() =~= merged_owners(
            old_owners,
            old_map,
            incoming_map.dom(),
            provider_id@,
        ));
        assert(state.mounts.entries@ =~= with_new_mounts(old_mounts, incoming_mounts));
        assert(state.diagnostics@.take(n0 as int) =~= old_diags);
    }
}

/// Describes each adapter once, before any of them is probed.
fn describe<L: AdapterList + ?Sized>(providers: &L) -> (r: Vec<ProviderDescriptor>)
    ensures
        describes(r@, providers.adapter_seq()),
{
    let ghost ps = providers.adapter_seq();
    let count = providers.adapter_count();
    let mut out: Vec<ProviderDescriptor> = Vec::new();
    let mut i: usize = 0;
    while i < count
        invariant
            i <= count,
            count == ps.len(),
            ps == providers.adapter_seq(),
            describes(out@, ps.take(i as int)),
        decreases count - i,
    {
        out.push(
            ProviderDescriptor {
                id: providers.adapter_id(i).to_string(),
                responsibility: providers.adapter_responsibility(i).to_string(),
                backend: providers.adapter_backend(i),
            },
        );
        i = i + 1;
        assert(ps.take(i as int).drop_last() =~= ps.take(i - 1));
    }
    assert(ps.take(i as int) =~= ps);
    out
}

/// Adapters that claim one responsibility, by position in the adapter list.
#[derive(Debug, Clone, PartialEq, Eq)]
pub struct ResponsibilityGroup {
    pub responsibility: String,
    pub members: Vec<usize>,
}

/// Positions, in increasing order, of the first `n` adapters that claim
/// responsibility `r`.
pub open spec fn indices_with(ps: Seq<ProviderDescriptor>, r: Seq<char>, n: nat) -> Seq<usize>
    decreases n,
{
    if n == 0 {
        Seq::empty()
    } else {
        let prev = indices_with(ps, r, (n - 1) as nat);
        if ps[n - 1].responsibility@ == r {
            prev.push((n - 1) as usize)
        } else {
            prev
        }
    }
}

proof fn lemma_indices_with_empty(ps: Seq<ProviderDescriptor>, r: Seq<char>, n: nat)
    requires
        n <= ps.len(),
        forall|j: int| 0 <= j < n ==> (#[trigger] ps[j]).responsibility@ != r,
    ensures
        indices_with(ps, r, n).len() == 0,
    decreases n,
{
    if n > 0 {
        lemma_indices_with_empty(ps, r, (n - 1) as nat);
    }
}

/// Groups of the adapters by responsibility: one group per responsibility,
/// in strictly increasing responsibility order, each listing every adapter
/// that claims it in list order.
pub open spec fn groups_of(ps: Seq<ProviderDescriptor>, gs: Seq<ResponsibilityGroup>, n: nat) -> bool {
    &&& forall|a: int, b: int|
        0 <= a < b < gs.len() ==> text_lt(
            (#[trigger] gs[a]).responsibility@,
            (#[trigger] gs[b]).responsibility@,
        )
    &&& forall|a: int|
        0 <= a < gs.len() ==> (#[trigger] gs[a]).members@ == indices_with(
            ps,
            gs[a].responsibility@,
            n,
        ) && gs[a].members@.len() > 0
    &&& forall|j: int|
        0 <= j < n ==> exists|a: int|
            0 <= a < gs.len() && (#[trigger] gs[a]).responsibility@ == (
            #[trigger] ps[j]).responsibility@
}

/// Groups adapters by responsibility in increasing responsibility order.
pub fn group_by_responsibility(providers: &[ProviderDescriptor]) -> (r: Vec<ResponsibilityGroup>)
    ensures
        groups_of(providers@, r@, providers@.len()),
{
    let mut groups: Vec<ResponsibilityGroup> = Vec::new();
    let mut i: usize = 0;
    while i < providers.len()
        invariant
            i <= providers@.len(),
            groups_of(providers@, groups@, i as nat),
        decreases providers.len() - i,
    {
        let ghost ps = providers@;
        let ghost old_groups = groups@;
        let ghost r = ps[i as int].responsibility@;
        let resp = providers[i].responsibility.as_str();
        let mut g: usize = 0;
        while g < groups.len() && str_lt(groups[g].responsibility.as_str(), resp)
            invariant
                g <= groups@.len(),
                groups@ == old_groups,
                resp@ == r,
                forall|a: int| 0 <= a < g ==> text_lt(#[trigger] groups@[a].responsibility@, r),
            decreases groups.len() - g,
        {
            g = g + 1;
        }
        if g < groups.len() && str_eq(groups[g].responsibility.as_str(), resp) {
            let mut members: Vec<usize> = Vec::new();
            std::mem::swap(&mut members, &mut groups[g].members);
            members.push(i);
            std::mem::swap(&mut members, &mut groups[g].members);
            proof {
                assert forall|a: int| 0 <= a < groups@.len() implies (#[trigger] groups@[a]).members@
                    == indices_with(ps, groups@[a].responsibility@, (i + 1) as nat)
                    && groups@[a].members@.len() > 0 by {
                    if a != g {
                        assert(groups@[a] == old_groups[a]);
                        if a < g {
                            assert(text_lt(old_groups[a].responsibility@, old_groups[g as int].responsibility@));
                            lemma_text_lt_irreflexive(r);
                        } else {
                            assert(text_lt(old_groups[g as int].responsibility@, old_groups[a].responsibility@));
                            lemma_text_lt_irreflexive(r);
                        }
                    }
                }
                assert forall|j: int| 0 <= j < i + 1 implies exists|a: int|
                    0 <= a < groups@.len() && (#[trigger] groups@[a]).responsibility@ == (
                    #[trigger] ps[j]).responsibility@ by {
                    if j == i {
                        assert(groups@[g as int].responsibility@ == ps[j].responsibility@);
                    } else {
                        let a = choose|a: int|
                            0 <= a < old_groups.len() && (#[trigger] old_groups[a]).responsibility@
                                == ps[j].responsibility@;
                        assert(groups@[a].responsibility@ == old_groups[a].responsibility@);
                    }
                }
            }
        } else {
            proof {
                if g < old_groups.len() {
                    lemma_text_lt_total(old_groups[g as int].responsibility@, r);
                }
                assert forall|a: int| 0 <= a < old_groups.len() implies (
                #[trigger] old_groups[a]).responsibility@ != r by {
                    if a < g {
                        lemma_text_lt_irreflexive(r);
                    } else if g < old_groups.len() {
                        if a > g {
                            lemma_text_lt_transitive(
                                r,
                                old_groups[g as int].responsibility@,
                                old_groups[a].responsibility@,
                            );
                        }
                        lemma_text_lt_irreflexive(r);
                    }
                }
                assert forall|j: int| 0 <= j < i implies (#[trigger] ps[j]).responsibility@ != r by {
                    let a = choose|a: int|
                        0 <= a < old_groups.len() && (#[trigger] old_groups[a]).responsibility@
                            == ps[j].responsibility@;
                }
                lemma_indices_with_empty(ps, r, i as nat);
            }
            let members = vec![i];
            let group = ResponsibilityGroup { responsibility: resp.to_string(), members };
            groups.insert(g, group);
            proof {
                assert(groups@ == old_groups.insert(g as int, groups@[g as int]));
                assert(groups@[g as int].members@ =~= indices_with(ps, r, (i + 1) as nat));
                assert forall|a: int, b: int| 0 <= a < b < groups@.len() implies text_lt(
                    (#[trigger] groups@[a]).responsibility@,
                    (#[trigger] groups@[b]).responsibility@,
                ) by {
                    if b < g {
                    } else if b == g {
                        assert(groups@[a] == old_groups[a]);
                    } else if a == g {
                        assert(groups@[b] == old_groups[b - 1]);
                        lemma_text_lt_total(old_groups[g as int].responsibility@, r);
                        if b - 1 > g {
                            lemma_text_lt_transitive(
                                r,
                                old_groups[g as int].responsibility@,
                                old_groups[b - 1].responsibility@,
                            );
                        }
                    } else if a < g {
                        assert(groups@[a] == old_groups[a]);
                        assert(groups@[b] == old_groups[b - 1]);
                    } else {
                        assert(groups@[a] == old_groups[a - 1]);
                        assert(groups@[b] == old_groups[b - 1]);
                    }
                }
                assert forall|a: int| 0 <= a < groups@.len() implies (#[trigger] groups@[a]).members@
                    == indices_with(ps, groups@[a].responsibility@, (i + 1) as nat)
                    && groups@[a].members@.len() > 0 by {
                    if a < g {
                        assert(groups@[a] == old_groups[a]);
                    } else if a > g {
                        assert(groups@[a] == old_groups[a - 1]);
                    }
                }
                assert forall|j: int| 0 <= j < i + 1 implies exists|a: int|
                    0 <= a < groups@.len() && (#[trigger] groups@[a]).responsibility@ == (
                    #[trigger] ps[j]).responsibility@ by {
                    if j == i {
                        assert(groups@[g as int].responsibility@ == ps[j].responsibility@);
                    } else {
                        let a = choose|a: int|
                            0 <= a < old_groups.len() && (#[trigger] old_groups[a]).responsibility@
                                == ps[j].responsibility@;
                        if a < g {
                            assert(groups@[a] == old_groups[a]);
                        } else {
                            assert(groups@[a + 1] == old_groups[a]);
                        }
                    }
                }
            }
        }
        i = i + 1;
    }
    groups
}

/// What applying one adapter's outcome does to the assembled state `a`
/// (owners `oa`), giving `b` (owners `ob`).
pub open spec fn outcome_applied(
    a: CurrentState,
    b: CurrentState,
    oa: Map<NodeId, Seq<char>>,
    ob: Map<NodeId, Seq<char>>,
    provider: ProviderDescriptor,
    outcome: Result<ProviderState, ProviderProbeError>,
) -> bool {
    match outcome {
        Ok(c) => merged_into(a, b, oa, ob, provider.id@, c),
        Err(e) => {
            &&& b.graph == a.graph
            &&& ob == oa
            &&& b.mounts == a.mounts
            &&& b.environment == a.environment
            &&& b.diagnostics@.len() == a.diagnostics@.len() + 1
            &&& b.diagnostics@.drop_last() == a.diagnostics@
            &&& is_provider_failure(
                b.diagnostics@.last(),
                provider.id@,
                provider.backend,
                e.code@ + ": "@ + e.message@,
            )
        },
    }
}

/// Records one adapter's probe outcome in the assembled state: a
/// contribution is merged, a failure becomes a `provider.probe_failed`
/// diagnostic whose evidence is `{code}: {message}`.
pub fn apply_outcome(
    state: &mut CurrentState,
    owners: &mut NodeOwners,
    provider: &ProviderDescriptor,
    outcome: Result<ProviderState, ProviderProbeError>,
)
    requires
        old(owners).wf(),
        owners_within(old(owners).owner_map(), old(state).graph),
    ensures
        final(owners).wf(),
        owners_within(final(owners).owner_map(), final(state).graph),
        outcome_applied(
            *old(state),
            *final(state),
            old(owners).owner_map(),
            final(owners).owner_map(),
            *provider,
            outcome,
        ),
{
    proof {
        use_type_invariant(&state.graph);
    }
    match outcome {
        Ok(contribution) => {
            proof {
                use_type_invariant(&contribution.graph);
            }
            merge_provider_state(state, owners, provider.id.as_str(), contribution);
        },
        Err(error) => {
            let evidence = error.summary();
            let ghost before = state.diagnostics@;
            state.diagnostics.push(
                provider_failure(provider.id.as_str(), provider.backend, evidence),
            );
            assert(state.diagnostics@.drop_last() =~= before);
        },
    }
}

/// Two descriptor lists that agree on every adapter's identity,
/// responsibility, and backend.
pub open spec fn same_descriptors(a: Seq<ProviderDescriptor>, b: Seq<ProviderDescriptor>) -> bool {
    &&& a.len() == b.len()
    &&& forall|i: int|
        0 <= i < a.len() ==> (#[trigger] a[i]).id@ == b[i].id@ && a[i].responsibility@
            == b[i].responsibility@ && a[i].backend == b[i].backend
}

proof fn lemma_same_labels(a: Seq<ProviderDescriptor>, b: Seq<ProviderDescriptor>)
    requires
        same_descriptors(a, b),
    ensures
        joined_labels(a) == joined_labels(b),
    decreases a.len(),
{
    if a.len() > 1 {
        assert(same_descriptors(a.drop_last(), b.drop_last()));
        lemma_same_labels(a.drop_last(), b.drop_last());
        assert(a.last() == a[a.len() - 1]);
    } else if a.len() == 1 {
        assert(a[0].id@ == b[0].id@);
    }
}

/// The adapters of a group, by position in the adapter list.
pub open spec fn group_members(ds: Seq<ProviderDescriptor>, g: ResponsibilityGroup) -> Seq<
    ProviderDescriptor,
> {
    g.members@.map_values(|k: usize| ds[k as int])
}

/// One group's part of a probe pass: a responsibility claimed by several
/// adapters is reported as a conflict and changes nothing else; the single
/// adapter of any other is called once and the outcome it returned, one of
/// those `yields` allows at its position, is applied.
pub open spec fn probe_step(
    a: CurrentState,
    b: CurrentState,
    oa: Map<NodeId, Seq<char>>,
    ob: Map<NodeId, Seq<char>>,
    ds: Seq<ProviderDescriptor>,
    yields: spec_fn(int, Result<ProviderState, ProviderProbeError>) -> bool,
    g: ResponsibilityGroup,
) -> bool {
    if g.members@.len() != 1 {
        &&& b.graph == a.graph
        &&& b.mounts == a.mounts
        &&& b.environment == a.environment
        &&& ob == oa
        &&& b.diagnostics@.len() == a.diagnostics@.len() + 1
        &&& b.diagnostics@.drop_last() == a.diagnostics@
        &&& is_responsibility_conflict(
            b.diagnostics@.last(),
            g.responsibility@,
            group_members(ds, g),
        )
    } else {
        exists|o: Result<ProviderState, ProviderProbeError>|
            yields(g.members@[0] as int, o) && #[trigger] outcome_applied(
                a,
                b,
                oa,
                ob,
                ds[g.members@[0] as int],
                o,
            )
    }
}

/// `r` is what a probe pass over adapters described by `ds`, whose probes
/// return outcomes that `yields` allows, assembles: starting from nothing,
/// each responsibility group in turn, in increasing responsibility order.
pub open spec fn is_probe_pass(
    r: CurrentState,
    ds: Seq<ProviderDescriptor>,
    yields: spec_fn(int, Result<ProviderState, ProviderProbeError>) -> bool,
) -> bool {
    exists|gs: Seq<ResponsibilityGroup>, st: Seq<CurrentState>, ow: Seq<Map<NodeId, Seq<char>>>|
        {
            &&& groups_of(ds, gs, ds.len())
            &&& st.len() == gs.len() + 1
            &&& ow.len() == gs.len() + 1
            &&& is_empty_state(st[0])
            &&& ow[0] == Map::<NodeId, Seq<char>>::empty()
            &&& st.last() == r
            &&& forall|g: int|
                0 <= g < gs.len() ==> probe_step(
                    #[trigger] st[g],
                    st[g + 1],
                    ow[g],
                    ow[g + 1],
                    ds,
                    yields,
                    gs[g],
                )
        }
}

fn copy_descriptor(d: &ProviderDescriptor) -> (r: ProviderDescriptor)
    ensures
        r.id@ == d.id@,
        r.responsibility@ == d.responsibility@,
        r.backend == d.backend,
{
    ProviderDescriptor {
        id: d.id.clone(),
        responsibility: d.responsibility.clone(),
        backend: d.backend,
    }
}

/// Calls providers and assembles their observations into one current state.
///
/// Adapters are grouped by responsibility in increasing responsibility
/// order. A responsibility claimed by several adapters is reported as a
/// conflict and none of them is called; otherwise its single adapter is
/// called once and its outcome is applied.
pub fn probe(providers: &[&dyn StateProvider]) -> (r: CurrentState)
    ensures
        r.graph.wf(),
        exists|ds: Seq<ProviderDescriptor>|
            describes(ds, providers@) && is_probe_pass(r, ds, adapter_outcomes(providers@)),
{
    assemble_pass(providers)
}

/// A list of adapters, reached by position.
pub(crate) trait AdapterList {
    /// The adapters, in order.
    spec fn adapter_seq(&self) -> Seq<&dyn StateProvider>;

    /// Number of adapters.
    fn adapter_count(&self) -> (r: usize)
        ensures
            r == self.adapter_seq().len(),
    ;

    /// What the adapter at position `i` reports as its ID.
    fn adapter_id(&self, i: usize) -> (r: &str)
        requires
            i < self.adapter_seq().len(),
        ensures
            r@ == self.adapter_seq()[i as int].spec_id(),
    ;

    /// What the adapter at position `i` reports as its responsibility.
    fn adapter_responsibility(&self, i: usize) -> (r: &str)
        requires
            i < self.adapter_seq().len(),
        ensures
            r@ == self.adapter_seq()[i as int].spec_responsibility(),
    ;

    /// What the adapter at position `i` reports as its backend.
    fn adapter_backend(&self, i: usize) -> (r: ProviderBackend)
        requires
            i < self.adapter_seq().len(),
        ensures
            r == self.adapter_seq()[i as int].spec_backend(),
    ;

    /// Probes the adapter at position `i`.
    fn adapter_probe(&self, i: usize) -> (r: Result<ProviderState, ProviderProbeError>)
        requires
            i < self.adapter_seq().len(),
        ensures
            self.adapter_seq()[i as int].probe_yields(r),
    ;
}

impl<'a> AdapterList for [&'a dyn StateProvider] {
    open spec fn adapter_seq(&self) -> Seq<&dyn StateProvider> {
        self@
    }

    fn adapter_count(&self) -> (r: usize) {
        self.len()
    }

    fn adapter_id(&self, i: usize) -> (r: &str) {
        self[i].id()
    }

    fn adapter_responsibility(&self, i: usize) -> (r: &str) {
        self[i].responsibility()
    }

    fn adapter_backend(&self, i: usize) -> (r: ProviderBackend) {
        self[i].backend()
    }

    fn adapter_probe(&self, i: usize) -> (r: Result<ProviderState, ProviderProbeError>) {
        self[i].probe()
    }
}

/// The adapters inside a list of boxes, in order.
pub open spec fn boxed_adapters<'a>(providers: Seq<Box<dyn StateProvider>>) -> Seq<
    &'a dyn StateProvider,
> {
    providers.map_values(|b: Box<dyn StateProvider>| &*b)
}

impl AdapterList for [Box<dyn StateProvider>] {
    open spec fn adapter_seq(&self) -> Seq<&dyn StateProvider> {
        boxed_adapters(self@)
    }

    fn adapter_count(&self) -> (r: usize) {
        self.len()
    }

    fn adapter_id(&self, i: usize) -> (r: &str) {
        let p = &*self[i];
        assert(p == self.adapter_seq()[i as int]);
        p.id()
    }

    fn adapter_responsibility(&self, i: usize) -> (r: &str) {
        let p = &*self[i];
        assert(p == self.adapter_seq()[i as int]);
        p.responsibility()
    }

    fn adapter_backend(&self, i: usize) -> (r: ProviderBackend) {
        let p = &*self[i];
        assert(p == self.adapter_seq()[i as int]);
        p.backend()
    }

    fn adapter_probe(&self, i: usize) -> (r: Result<ProviderState, ProviderProbeError>) {
        let p = &*self[i];
        assert(p == self.adapter_seq()[i as int]);
        p.probe()
    }
}

/// One probe pass over the adapters of `providers`.
pub(crate) fn assemble_pass<L: AdapterList + ?Sized>(providers: &L) -> (r: CurrentState)
    ensures
        r.graph.wf(),
        exists|ds: Seq<ProviderDescriptor>|
            describes(ds, providers.adapter_seq()) && is_probe_pass(
                r,
                ds,
                adapter_outcomes(providers.adapter_seq()),
            ),
{
    let ghost yields = adapter_outcomes(providers.adapter_seq());
    let descriptors = describe(providers);
    let groups = group_by_responsibility(descriptors.as_slice());
    let mut state = empty_current_state();
    let mut owners = NodeOwners::new();
    let ghost ds = descriptors@;
    let ghost mut st: Seq<CurrentState> = seq![state];
    let ghost mut ow: Seq<Map<NodeId, Seq<char>>> = seq![owners.owner_map()];
    let mut g: usize = 0;
    let count = descriptors.len();
    while g < groups.len()
        invariant
            g <= groups@.len(),
            ds == descriptors@,
            yields == adapter_outcomes(providers.adapter_seq()),
            descriptors@.len() == providers.adapter_seq().len(),
            descriptors@.len() == count,
            groups_of(descriptors@, groups@, descriptors@.len()),
            owners.wf(),
            owners_within(owners.owner_map(), state.graph),
            st.len() == g + 1,
            ow.len() == g + 1,
            is_empty_state(st[0]),
            ow[0] == Map::<NodeId, Seq<char>>::empty(),
            st.last() == state,
            ow.last() == owners.owner_map(),
            forall|h: int|
                0 <= h < g ==> probe_step(
                    #[trigger] st[h],
                    st[h + 1],
                    ow[h],
                    ow[h + 1],
                    ds,
                    yields,
                    groups@[h],
                ),
        decreases groups.len() - g,
    {
        let group = &groups[g];
        let ghost before = state;
        let ghost owners_before = owners.owner_map();
        if group.members.len() != 1 {
            let mut members: Vec<ProviderDescriptor> = Vec::new();
            let mut m: usize = 0;
            while m < group.members.len()
                invariant
                    m <= group.members@.len(),
                    group == groups@[g as int],
                    group.members@ == indices_with(
                        descriptors@,
                        group.responsibility@,
                        descriptors@.len(),
                    ),
                    descriptors@.len() == providers.adapter_seq().len(),
                    descriptors@.len() == count,
                    same_descriptors(members@, group_members(ds, *group).take(m as int)),
                    ds == descriptors@,
                decreases group.members.len() - m,
            {
                proof {
                    lemma_indices_in_range(descriptors@, group.responsibility@, descriptors@.len(), m as int);
                }
                members.push(copy_descriptor(&descriptors[group.members[m]]));
                m = m + 1;
            }
            proof {
                assert(group_members(ds, *group).take(m as int) =~= group_members(ds, *group));
                lemma_same_labels(members@, group_members(ds, *group));
            }
            let d = responsibility_conflict(group.responsibility.as_str(), members.as_slice());
            state.diagnostics.push(d);
            assert(state.diagnostics@.drop_last() =~= before.diagnostics@);
        } else {
            proof {
                lemma_indices_in_range(descriptors@, group.responsibility@, descriptors@.len(), 0);
            }
            let index = group.members[0];
            let outcome = providers.adapter_probe(index);
            let ghost o = outcome;
            assert(yields(group.members@[0] as int, o));
            apply_outcome(&mut state, &mut owners, &descriptors[index], outcome);
            assert(outcome_applied(before, state, owners_before, owners.owner_map(), ds[group.members@[0] as int], o));
        }
        proof {
            st = st.push(state);
            ow = ow.push(owners.owner_map());
            assert(probe_step(st[g as int], st[g + 1], ow[g as int], ow[g + 1], ds, yields, groups@[g as int]));
        }
        g = g + 1;
    }
    proof {
        use_type_invariant(&state.graph);
        assert(is_probe_pass(state, ds, yields));
    }
    state
}

proof fn lemma_indices_in_range(ps: Seq<ProviderDescriptor>, r: Seq<char>, n: nat, m: int)
    requires
        n <= ps.len(),
        ps.len() <= usize::MAX,
        0 <= m < indices_with(ps, r, n).len(),
    ensures
        indices_with(ps, r, n)[m] < n,
        ps[indices_with(ps, r, n)[m] as int].responsibility@ == r,
    decreases n,
{
    if n > 0 {
        let prev = indices_with(ps, r, (n - 1) as nat);
        if m < prev.len() {
            lemma_indices_in_range(ps, r, (n - 1) as nat, m);
        }
    }
}

/// Merging a contribution never replaces a node already in the assembled
/// state, and every node the contribution observed is in the result.
pub proof fn law_merge_keeps_existing_nodes(
    a: CurrentState,
    b: CurrentState,
    oa: Map<NodeId, Seq<char>>,
    ob: Map<NodeId, Seq<char>>,
    provider_id: Seq<char>,
    c: ProviderState,
    id: NodeId,
)
    requires
        merged_into(a, b, oa, ob, provider_id, c),
    ensures
        a.graph.node_map().contains_key(id) ==> b.graph.node_map().contains_key(id)
            && b.graph.node_map()[id] == a.graph.node_map()[id],
        c.graph.node_map().contains_key(id) ==> b.graph.node_map().contains_key(id),
{
}

/// One step of a probe pass keeps the diagnostics recorded so far, in order.
proof fn lemma_step_keeps_diagnostics(
    a: CurrentState,
    b: CurrentState,
    oa: Map<NodeId, Seq<char>>,
    ob: Map<NodeId, Seq<char>>,
    ds: Seq<ProviderDescriptor>,
    yields: spec_fn(int, Result<ProviderState, ProviderProbeError>) -> bool,
    g: ResponsibilityGroup,
)
    requires
        probe_step(a, b, oa, ob, ds, yields, g),
    ensures
        a.diagnostics@.len() <= b.diagnostics@.len(),
        b.diagnostics@.take(a.diagnostics@.len() as int) == a.diagnostics@,
{
    if g.members@.len() != 1 {
        assert(b.diagnostics@.take(a.diagnostics@.len() as int) =~= b.diagnostics@.drop_last());
    } else {
        let o = choose|o: Result<ProviderState, ProviderProbeError>|
            yields(g.members@[0] as int, o) && #[trigger] outcome_applied(
                a,
                b,
                oa,
                ob,
                ds[g.members@[0] as int],
                o,
            );
        match o {
            Ok(c) => {},
            Err(e) => {
                assert(b.diagnostics@.take(a.diagnostics@.len() as int) =~= b.diagnostics@.drop_last());
            },
        }
    }
}

/// Along a probe pass, the diagnostics of a state stay at the front of
/// every later state's.
proof fn lemma_pass_keeps_diagnostics(
    st: Seq<CurrentState>,
    ow: Seq<Map<NodeId, Seq<char>>>,
    ds: Seq<ProviderDescriptor>,
    yields: spec_fn(int, Result<ProviderState, ProviderProbeError>) -> bool,
    gs: Seq<ResponsibilityGroup>,
    g: int,
    h: int,
)
    requires
        st.len() == gs.len() + 1,
        ow.len() == gs.len() + 1,
        forall|k: int|
            0 <= k < gs.len() ==> probe_step(
                #[trigger] st[k],
                st[k + 1],
                ow[k],
                ow[k + 1],
                ds,
                yields,
                gs[k],
            ),
        0 <= g <= h < st.len(),
    ensures
        st[g].diagnostics@.len() <= st[h].diagnostics@.len(),
        st[h].diagnostics@.take(st[g].diagnostics@.len() as int) == st[g].diagnostics@,
    decreases h - g,
{
    if g == h {
        assert(st[h].diagnostics@.take(st[g].diagnostics@.len() as int) =~= st[g].diagnostics@);
    } else {
        lemma_pass_keeps_diagnostics(st, ow, ds, yields, gs, g, h - 1);
        lemma_step_keeps_diagnostics(st[h - 1], st[h], ow[h - 1], ow[h], ds, yields, gs[h - 1]);
        let n = st[g].diagnostics@.len() as int;
        let m = st[h - 1].diagnostics@.len() as int;
        assert(st[h].diagnostics@.take(n) =~= st[g].diagnostics@) by {
            assert forall|i: int| 0 <= i < n implies st[h].diagnostics@[i] == st[g].diagnostics@[i] by {
                assert(st[h].diagnostics@.take(m)[i] == st[h - 1].diagnostics@[i]);
                assert(st[h - 1].diagnostics@.take(n)[i] == st[g].diagnostics@[i]);
            }
        }
    }
}

/// A responsibility that several adapters claim is reported in the
/// assembled state by a conflict diagnostic naming every claimant, in
/// adapter order.
pub proof fn law_shared_responsibility_is_reported(
    r: CurrentState,
    ds: Seq<ProviderDescriptor>,
    yields: spec_fn(int, Result<ProviderState, ProviderProbeError>) -> bool,
    responsibility: Seq<char>,
)
    requires
        ds.len() <= usize::MAX,
        is_probe_pass(r, ds, yields),
        indices_with(ds, responsibility, ds.len()).len() > 1,
    ensures
        exists|i: int|
            0 <= i < r.diagnostics@.len() && is_responsibility_conflict(
                #[trigger] r.diagnostics@[i],
                responsibility,
                indices_with(ds, responsibility, ds.len()).map_values(|k: usize| ds[k as int]),
            ),
{
    let (gs, st, ow) = choose|
        gs: Seq<ResponsibilityGroup>,
        st: Seq<CurrentState>,
        ow: Seq<Map<NodeId, Seq<char>>>,
    |
        {
            &&& groups_of(ds, gs, ds.len())
            &&& st.len() == gs.len() + 1
            &&& ow.len() == gs.len() + 1
            &&& is_empty_state(st[0])
            &&& ow[0] == Map::<NodeId, Seq<char>>::empty()
            &&& st.last() == r
            &&& forall|g: int|
                0 <= g < gs.len() ==> probe_step(
                    #[trigger] st[g],
                    st[g + 1],
                    ow[g],
                    ow[g + 1],
                    ds,
                    yields,
                    gs[g],
                )
        };
    let members = indices_with(ds, responsibility, ds.len());
    lemma_indices_in_range(ds, responsibility, ds.len(), 0);
    let j = members[0] as int;
    assert(ds[j].responsibility@ == responsibility);
    let a = choose|a: int|
        0 <= a < gs.len() && (#[trigger] gs[a]).responsibility@ == (#[trigger] ds[j]).responsibility@;
    assert(gs[a].members@ == members);
    assert(probe_step(st[a], st[a + 1], ow[a], ow[a + 1], ds, yields, gs[a]));
    assert(group_members(ds, gs[a]) == members.map_values(|k: usize| ds[k as int]));
    lemma_pass_keeps_diagnostics(st, ow, ds, yields, gs, a + 1, gs.len() as int);
    let i = st[a + 1].diagnostics@.len() - 1;
    assert(st[a + 1].diagnostics@.last() == st[a + 1].diagnostics@[i]);
    assert(st.last() == st[gs.len() as int]);
    assert(r.diagnostics@.take(st[a + 1].diagnostics@.len() as int)[i] == r.diagnostics@[i]);
}

} // verus!
