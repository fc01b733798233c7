//! Storage graph and relationship semantics.

use vstd::prelude::*;

use vstd::std_specs::cmp::PartialEqSpecImpl;

use super::equality::{node_eq, same_node};
use super::kinds::ZfsMember;
use super::node::{Node, NodeId};
use super::nonzero::NonZeroU64;
use super::sizes::Bytes;

verus! {

/// Identities of a sequence of graph entries.
pub open spec fn entry_ids(e: Seq<(NodeId, Node)>) -> Seq<NodeId> {
    e.map_values(|p: (NodeId, Node)| p.0)
}

/// Canonical collection of storage nodes and their relationships.
///
/// Each node identity occurs once; dependencies and relations are sets.
#[derive(Debug)]
pub struct NodeGraph {
    nodes: Vec<(NodeId, Node)>,
    dependencies: Vec<Dependency>,
    relations: Vec<Relation>,
}

impl Clone for NodeGraph {
    /// A copy with the same node identities, dependencies and relations.
    fn clone(&self) -> (r: NodeGraph)
        ensures
            r.node_map().dom() == self.node_map().dom(),
            r.dependency_set() == self.dependency_set(),
            r.relation_set() == self.relation_set(),
    {
        proof {
            use_type_invariant(self);
        }
        let mut nodes: Vec<(NodeId, Node)> = Vec::new();
        let mut i: usize = 0;
        while i < self.nodes.len()
            invariant
                i <= self.nodes@.len(),
                nodes@.len() == i,
                forall|j: int| 0 <= j < i ==> (#[trigger] nodes@[j]).0 == self.nodes@[j].0,
            decreases self.nodes.len() - i,
        {
            nodes.push((self.nodes[i].0, self.nodes[i].1.clone()));
            i = i + 1;
        }
        let mut dependencies: Vec<Dependency> = Vec::new();
        let mut i: usize = 0;
        while i < self.dependencies.len()
            invariant
                i <= self.dependencies@.len(),
                dependencies@ == self.dependencies@.take(i as int),
            decreases self.dependencies.len() - i,
        {
            dependencies.push(self.dependencies[i]);
            assert(self.dependencies@.take(i + 1) =~= self.dependencies@.take(i as int).push(
                self.dependencies@[i as int],
            ));
            i = i + 1;
        }
        let mut relations: Vec<Relation> = Vec::new();
        let mut i: usize = 0;
        while i < self.relations.len()
            invariant
                i <= self.relations@.len(),
                relations@ == self.relations@.take(i as int),
            decreases self.relations.len() - i,
        {
            relations.push(self.relations[i]);
            assert(self.relations@.take(i + 1) =~= self.relations@.take(i as int).push(
                self.relations@[i as int],
            ));
            i = i + 1;
        }
        assert(entry_ids(nodes@) =~= entry_ids(self.nodes@));
        assert(dependencies@ =~= self.dependencies@);
        assert(relations@ =~= self.relations@);
        let r = NodeGraph { nodes, dependencies, relations };
        assert(r.node_map().dom() =~= self.node_map().dom());
        r
    }
}

impl NodeGraph {
    /// Node identities distinct; dependencies and relations free of repeats.
    #[verifier::type_invariant]
    pub closed spec fn wf(self) -> bool {
        &&& entry_ids(self.nodes@).no_duplicates()
        &&& self.dependencies@.no_duplicates()
        &&& self.relations@.no_duplicates()
    }

    /// Nodes by identity.
    pub closed spec fn node_map(self) -> Map<NodeId, Node> {
        Map::new(
            |k: NodeId| entry_ids(self.nodes@).contains(k),
            |k: NodeId| self.nodes@[entry_ids(self.nodes@).index_of(k)].1,
        )
    }

    /// Dependency edges.
    pub closed spec fn dependency_set(self) -> Set<Dependency> {
        self.dependencies@.to_set()
    }

    /// Non-owning relations.
    pub closed spec fn relation_set(self) -> Set<Relation> {
        self.relations@.to_set()
    }

    /// Nodes in storage order.
    pub closed spec fn node_seq(self) -> Seq<(NodeId, Node)> {
        self.nodes@
    }

    /// Dependencies in storage order.
    pub closed spec fn dependency_seq(self) -> Seq<Dependency> {
        self.dependencies@
    }

    /// Relations in storage order.
    pub closed spec fn relation_seq(self) -> Seq<Relation> {
        self.relations@
    }

    /// Creates an empty storage graph.
    pub fn new() -> (r: NodeGraph)
        ensures
            r.wf(),
            r.node_map() == Map::<NodeId, Node>::empty(),
            r.dependency_set() == Set::<Dependency>::empty(),
            r.relation_set() == Set::<Relation>::empty(),
    {
        let r = NodeGraph { nodes: Vec::new(), dependencies: Vec::new(), relations: Vec::new() };
        assert(r.node_map() =~= Map::<NodeId, Node>::empty());
        assert(r.dependency_set() =~= Set::<Dependency>::empty());
        assert(r.relation_set() =~= Set::<Relation>::empty());
        r
    }

    fn position(&self, id: &NodeId) -> (r: Option<usize>)
        ensures
            match r {
                Some(i) => i < self.nodes@.len() && self.nodes@[i as int].0 == *id,
                None => !entry_ids(self.nodes@).contains(*id),
            },
    {
        let mut i: usize = 0;
        while i < self.nodes.len()
            invariant
                i <= self.nodes@.len(),
                forall|j: int| 0 <= j < i ==> self.nodes@[j].0 != *id,
            decreases self.nodes.len() - i,
        {
            if self.nodes[i].0 == *id {
                return Some(i);
            }
            i = i + 1;
        }
        assert forall|j: int| 0 <= j < entry_ids(self.nodes@).len() implies entry_ids(
            self.nodes@,
        )[j] != *id by {}
        None
    }

    proof fn lemma_lookup(self, i: int)
        requires
            self.wf(),
            0 <= i < self.nodes@.len(),
        ensures
            self.node_map().contains_key(self.nodes@[i].0),
            self.node_map()[self.nodes@[i].0] == self.nodes@[i].1,
    {
        let ids = entry_ids(self.nodes@);
        assert(ids[i] == self.nodes@[i].0);
        assert(ids.contains(ids[i]));
        let j = ids.index_of(ids[i]);
        assert(ids[j] == ids[i]);
    }

    /// Inserts or replaces a node under its canonical identity, returning
    /// the node it replaced.
    pub fn insert_node(&mut self, id: NodeId, node: Node) -> (r: Option<Node>)
        ensures
            final(self).wf(),
            final(self).node_map() == old(self).node_map().insert(id, node),
            final(self).dependency_set() == old(self).dependency_set(),
            final(self).relation_set() == old(self).relation_set(),
            r == (if old(self).node_map().contains_key(id) {
                Some(old(self).node_map()[id])
            } else {
                None
            }),
    {
        proof {
            use_type_invariant(&*self);
        }
        let ghost old_map = self.node_map();
        let ghost old_nodes = self.nodes@;
        match self.position(&id) {
            Some(i) => {
                proof {
                    self.lemma_lookup(i as int);
                }
                let mut replaced = (id, node);
                let mut nodes: Vec<(NodeId, Node)> = Vec::new();
                std::mem::swap(&mut nodes, &mut self.nodes);
                nodes.set_and_swap(i, &mut replaced);
                proof {
                    assert(entry_ids(nodes@) =~= entry_ids(old_nodes));
                }
                std::mem::swap(&mut nodes, &mut self.nodes);
                proof {
                    let ids = entry_ids(self.nodes@);
                    assert(ids =~= entry_ids(old_nodes));
                    assert(self.node_map().dom() =~= old_map.insert(id, node).dom());
                    assert forall|k: NodeId| self.node_map().contains_key(k) implies #[trigger] self.node_map()[k]
                        == old_map.insert(id, node)[k] by {
                        let j = ids.index_of(k);
                        assert(ids[j] == k);
                        if k == id {
                            assert(ids[i as int] == id);
                        } else {
                            let jo = entry_ids(old_nodes).index_of(k);
                            assert(entry_ids(old_nodes)[jo] == k);
                        }
                    }
                    assert(self.node_map() =~= old_map.insert(id, node));
                }
                Some(replaced.1)
            },
            None => {
                let mut nodes: Vec<(NodeId, Node)> = Vec::new();
                std::mem::swap(&mut nodes, &mut self.nodes);
                nodes.push((id, node));
                proof {
                    let ids = entry_ids(nodes@);
                    assert(ids =~= entry_ids(old_nodes).push(id));
                    assert forall|a: int, b: int|
                        0 <= a < ids.len() && 0 <= b < ids.len() && a != b implies ids[a]
                        != ids[b] by {
                        if a < old_nodes.len() && b < old_nodes.len() {
                            assert(ids[a] == entry_ids(old_nodes)[a]);
                            assert(ids[b] == entry_ids(old_nodes)[b]);
                        } else if a < old_nodes.len() {
                            assert(ids[a] == entry_ids(old_nodes)[a]);
                        } else {
                            assert(ids[b] == entry_ids(old_nodes)[b]);
                        }
                    }
                }
                std::mem::swap(&mut nodes, &mut self.nodes);
                proof {
                    let ids = entry_ids(self.nodes@);
                    assert(ids =~= entry_ids(old_nodes).push(id));
                    assert forall|a: int, b: int|
                        0 <= a < ids.len() && 0 <= b < ids.len() && a != b implies ids[a]
                        != ids[b] by {
                        if a < old_nodes.len() && b < old_nodes.len() {
                            assert(ids[a] == entry_ids(old_nodes)[a]);
                            assert(ids[b] == entry_ids(old_nodes)[b]);
                        } else if a < old_nodes.len() {
                            assert(ids[a] == entry_ids(old_nodes)[a]);
                        } else {
                            assert(ids[b] == entry_ids(old_nodes)[b]);
                        }
                    }
                    assert forall|k: NodeId| #[trigger] self.node_map().contains_key(k)
                        <==> old_map.insert(id, node).contains_key(k) by {
                        if k == id {
                            assert(ids[old_nodes.len() as int] == id);
                        } else if old_map.contains_key(k) {
                            let jo = entry_ids(old_nodes).index_of(k);
                            assert(ids[jo] == k);
                        } else if self.node_map().contains_key(k) {
                            let j = ids.index_of(k);
                            assert(ids[j] == k);
                            assert(entry_ids(old_nodes)[j] == k);
                        }
                    }
                    assert forall|k: NodeId| self.node_map().contains_key(k) implies #[trigger] self.node_map()[k]
                        == old_map.insert(id, node)[k] by {
                        let j = ids.index_of(k);
                        assert(ids[j] == k);
                        if k == id {
                            assert(ids[old_nodes.len() as int] == id);
                            assert(j == old_nodes.len());
                        } else {
                            let jo = entry_ids(old_nodes).index_of(k);
                            assert(entry_ids(old_nodes)[jo] == k);
                            assert(ids[jo] == k);
                        }
                    }
                    assert(self.node_map() =~= old_map.insert(id, node));
                }
                None
            },
        }
    }

    /// Adds a dependency, returning whether it was new.
    pub fn insert_dependency(&mut self, dependency: Dependency) -> (r: bool)
        ensures
            final(self).wf(),
            final(self).node_map() == old(self).node_map(),
            final(self).dependency_set() == old(self).dependency_set().insert(dependency),
            final(self).relation_set() == old(self).relation_set(),
            r == !old(self).dependency_set().contains(dependency),
    {
        proof {
            use_type_invariant(&*self);
        }
        let mut i: usize = 0;
        while i < self.dependencies.len()
            invariant
                i <= self.dependencies@.len(),
                self.wf(),
                forall|j: int| 0 <= j < i ==> self.dependencies@[j] != dependency,
            decreases self.dependencies.len() - i,
        {
            if self.dependencies[i] == dependency {
                assert(self.dependency_set() =~= self.dependency_set().insert(dependency));
                return false;
            }
            i = i + 1;
        }
        let ghost old_deps = self.dependencies@;
        let mut deps: Vec<Dependency> = Vec::new();
        std::mem::swap(&mut deps, &mut self.dependencies);
        deps.push(dependency);
        proof {
            old_deps.lemma_push_to_set_commute(dependency);
            assert forall|a: int, b: int|
                0 <= a < deps@.len() && 0 <= b < deps@.len() && a != b implies deps@[a]
                != deps@[b] by {
                if a < old_deps.len() && b < old_deps.len() {
                    assert(deps@[a] == old_deps[a]);
                    assert(deps@[b] == old_deps[b]);
                }
            }
        }
        std::mem::swap(&mut deps, &mut self.dependencies);
        true
    }

    /// Adds a relation, returning whether it was new.
    pub fn insert_relation(&mut self, relation: Relation) -> (r: bool)
        ensures
            final(self).wf(),
            final(self).node_map() == old(self).node_map(),
            final(self).dependency_set() == old(self).dependency_set(),
            final(self).relation_set() == old(self).relation_set().insert(relation),
            r == !old(self).relation_set().contains(relation),
    {
        proof {
            use_type_invariant(&*self);
        }
        let mut i: usize = 0;
        while i < self.relations.len()
            invariant
                i <= self.relations@.len(),
                self.wf(),
                forall|j: int| 0 <= j < i ==> self.relations@[j] != relation,
            decreases self.relations.len() - i,
        {
            if self.relations[i] == relation {
                assert(self.relation_set() =~= self.relation_set().insert(relation));
                return false;
            }
            i = i + 1;
        }
        let ghost old_rels = self.relations@;
        let mut rels: Vec<Relation> = Vec::new();
        std::mem::swap(&mut rels, &mut self.relations);
        rels.push(relation);
        proof {
            old_rels.lemma_push_to_set_commute(relation);
            assert forall|a: int, b: int|
                0 <= a < rels@.len() && 0 <= b < rels@.len() && a != b implies rels@[a]
                != rels@[b] by {
                if a < old_rels.len() && b < old_rels.len() {
                    assert(rels@[a] == old_rels[a]);
                    assert(rels@[b] == old_rels[b]);
                }
            }
        }
        std::mem::swap(&mut rels, &mut self.relations);
        true
    }

    /// Returns a node by canonical identity.
    pub fn node(&self, id: &NodeId) -> (r: Option<&Node>)
        ensures
            match r {
                Some(n) => self.node_map().contains_key(*id) && *n == self.node_map()[*id],
                None => !self.node_map().contains_key(*id),
            },
    {
        proof {
            use_type_invariant(self);
        }
        match self.position(id) {
            Some(i) => {
                proof {
                    self.lemma_lookup(i as int);
                }
                Some(&self.nodes[i].1)
            },
            None => None,
        }
    }

    /// All canonical nodes with their identities.
    pub fn nodes(&self) -> (r: &[(NodeId, Node)])
        ensures
            r@ == self.node_seq(),
            entry_ids(r@).no_duplicates(),
            entry_ids(r@).to_set() == self.node_map().dom(),
            forall|i: int|
                0 <= i < r@.len() ==> #[trigger] self.node_map()[r@[i].0] == r@[i].1,
    {
        proof {
            use_type_invariant(self);
        }
        proof {
            assert forall|i: int| 0 <= i < self.nodes@.len() implies #[trigger] self.node_map()[self.nodes@[i].0]
                == self.nodes@[i].1 by {
                self.lemma_lookup(i);
            }
            assert(entry_ids(self.nodes@).to_set() =~= self.node_map().dom());
        }
        self.nodes.as_slice()
    }

    /// What the entries of a well-formed graph say of its node map.
    pub proof fn lemma_node_seq(self)
        requires
            self.wf(),
        ensures
            entry_ids(self.node_seq()).no_duplicates(),
            entry_ids(self.node_seq()).to_set() == self.node_map().dom(),
            forall|i: int|
                0 <= i < self.node_seq().len() ==> #[trigger] self.node_map()[self.node_seq()[i].0]
                    == self.node_seq()[i].1,
    {
        assert forall|i: int| 0 <= i < self.nodes@.len() implies #[trigger] self.node_map()[self.nodes@[i].0]
            == self.nodes@[i].1 by {
            self.lemma_lookup(i);
        }
        assert(entry_ids(self.nodes@).to_set() =~= self.node_map().dom());
    }

    /// Takes the graph apart into its node entries, dependencies and
    /// relations, each in insertion order.
    pub fn into_parts(self) -> (r: (Vec<(NodeId, Node)>, Vec<Dependency>, Vec<Relation>))
        ensures
            r.0@ == self.node_seq(),
            r.1@ == self.dependency_seq(),
            r.2@ == self.relation_seq(),
            r.1@.to_set() == self.dependency_set(),
            r.2@.to_set() == self.relation_set(),
    {
        (self.nodes, self.dependencies, self.relations)
    }


    /// All dependency edges, each once.
    pub fn dependencies(&self) -> (r: &[Dependency])
        ensures
            r@ == self.dependency_seq(),
            r@.no_duplicates(),
            r@.to_set() == self.dependency_set(),
    {
        proof {
            use_type_invariant(self);
        }
        self.dependencies.as_slice()
    }

    /// All non-owning relations, each once.
    pub fn relations(&self) -> (r: &[Relation])
        ensures
            r@ == self.relation_seq(),
            r@.no_duplicates(),
            r@.to_set() == self.relation_set(),
    {
        proof {
            use_type_invariant(self);
        }
        self.relations.as_slice()
    }
}

/// Two graphs hold the same nodes under the same identities, and the same
/// dependencies and relations, whatever order they were built in.
pub open spec fn same_graph(a: NodeGraph, b: NodeGraph) -> bool {
    &&& forall|k: NodeId| #[trigger]
        a.node_map().contains_key(k) ==> b.node_map().contains_key(k) && same_node(
            a.node_map()[k],
            b.node_map()[k],
        )
    &&& forall|k: NodeId| #[trigger] b.node_map().contains_key(k) ==> a.node_map().contains_key(k)
    &&& a.dependency_set() == b.dependency_set()
    &&& a.relation_set() == b.relation_set()
}

/// Every node of `a` is in `b`, described the same way.
fn nodes_found(a: &NodeGraph, b: &NodeGraph) -> (r: bool)
    ensures
        r == forall|k: NodeId| #[trigger]
            a.node_map().contains_key(k) ==> b.node_map().contains_key(k) && same_node(
                a.node_map()[k],
                b.node_map()[k],
            ),
{
    proof {
        use_type_invariant(a);
        a.lemma_node_seq();
    }
    let mut i: usize = 0;
    while i < a.nodes.len()
        invariant
            i <= a.nodes@.len(),
            a.nodes@ == a.node_seq(),
            entry_ids(a.node_seq()).to_set() == a.node_map().dom(),
            forall|j: int|
                0 <= j < a.node_seq().len() ==> #[trigger] a.node_map()[a.node_seq()[j].0]
                    == a.node_seq()[j].1,
            forall|j: int|
                0 <= j < i ==> b.node_map().contains_key((#[trigger] a.nodes@[j]).0) && same_node(
                    a.nodes@[j].1,
                    b.node_map()[a.nodes@[j].0],
                ),
        decreases a.nodes.len() - i,
    {
        let id = &a.nodes[i].0;
        proof {
            assert(entry_ids(a.node_seq())[i as int] == *id);
            assert(a.node_map().contains_key(*id));
        }
        match b.node(id) {
            Some(n) => {
                if !node_eq(&a.nodes[i].1, n) {
                    return false;
                }
            },
            None => {
                return false;
            },
        }
        i = i + 1;
    }
    proof {
        assert forall|k: NodeId| #[trigger] a.node_map().contains_key(k) implies b.node_map().contains_key(k)
            && same_node(a.node_map()[k], b.node_map()[k]) by {
            let ids = entry_ids(a.node_seq());
            assert(ids.to_set().contains(k));
            let j = ids.index_of(k);
            assert(ids[j] == k);
            assert(a.nodes@[j] == a.node_seq()[j]);
        }
    }
    true
}

/// Every node identity of `b` is in `a`.
fn keys_found(b: &NodeGraph, a: &NodeGraph) -> (r: bool)
    ensures
        r == forall|k: NodeId| #[trigger] b.node_map().contains_key(k) ==> a.node_map().contains_key(k),
{
    proof {
        use_type_invariant(b);
        b.lemma_node_seq();
    }
    let mut i: usize = 0;
    while i < b.nodes.len()
        invariant
            i <= b.nodes@.len(),
            b.nodes@ == b.node_seq(),
            entry_ids(b.node_seq()).to_set() == b.node_map().dom(),
            forall|j: int| 0 <= j < i ==> a.node_map().contains_key((#[trigger] b.nodes@[j]).0),
        decreases b.nodes.len() - i,
    {
        let id = &b.nodes[i].0;
        proof {
            assert(entry_ids(b.node_seq())[i as int] == *id);
            assert(b.node_map().contains_key(*id));
        }
        if a.node(id).is_none() {
            return false;
        }
        i = i + 1;
    }
    proof {
        assert forall|k: NodeId| #[trigger] b.node_map().contains_key(k) implies a.node_map().contains_key(k) by {
            let ids = entry_ids(b.node_seq());
            assert(ids.to_set().contains(k));
            let j = ids.index_of(k);
            assert(ids[j] == k);
        }
    }
    true
}

/// Whether `x` occurs in `v`.
fn has_dependency(v: &[Dependency], x: Dependency) -> (r: bool)
    ensures
        r == v@.contains(x),
{
    let mut i: usize = 0;
    while i < v.len()
        invariant
            i <= v@.len(),
            forall|j: int| 0 <= j < i ==> v@[j] != x,
        decreases v.len() - i,
    {
        if v[i] == x {
            return true;
        }
        i = i + 1;
    }
    false
}

/// Whether every dependency of `a` occurs in `b`.
fn dependencies_within(a: &[Dependency], b: &[Dependency]) -> (r: bool)
    ensures
        r == forall|j: int| 0 <= j < a@.len() ==> b@.contains(#[trigger] a@[j]),
{
    let mut i: usize = 0;
    while i < a.len()
        invariant
            i <= a@.len(),
            forall|j: int| 0 <= j < i ==> b@.contains(#[trigger] a@[j]),
        decreases a.len() - i,
    {
        if !has_dependency(b, a[i]) {
            return false;
        }
        i = i + 1;
    }
    true
}

/// Whether `x` occurs in `v`.
fn has_relation(v: &[Relation], x: Relation) -> (r: bool)
    ensures
        r == v@.contains(x),
{
    let mut i: usize = 0;
    while i < v.len()
        invariant
            i <= v@.len(),
            forall|j: int| 0 <= j < i ==> v@[j] != x,
        decreases v.len() - i,
    {
        if v[i] == x {
            return true;
        }
        i = i + 1;
    }
    false
}

/// Whether every relation of `a` occurs in `b`.
fn relations_within(a: &[Relation], b: &[Relation]) -> (r: bool)
    ensures
        r == forall|j: int| 0 <= j < a@.len() ==> b@.contains(#[trigger] a@[j]),
{
    let mut i: usize = 0;
    while i < a.len()
        invariant
            i <= a@.len(),
            forall|j: int| 0 <= j < i ==> b@.contains(#[trigger] a@[j]),
        decreases a.len() - i,
    {
        if !has_relation(b, a[i]) {
            return false;
        }
        i = i + 1;
    }
    true
}

/// Two sequences have the same elements exactly when each one's elements
/// occur in the other.
proof fn lemma_same_set<T>(a: Seq<T>, b: Seq<T>)
    ensures
        (a.to_set() == b.to_set()) == ((forall|j: int| 0 <= j < a.len() ==> b.contains(#[trigger] a[j]))
            && (forall|j: int| 0 <= j < b.len() ==> a.contains(#[trigger] b[j]))),
{
    if a.to_set() == b.to_set() {
        assert forall|j: int| 0 <= j < a.len() implies b.contains(#[trigger] a[j]) by {
            assert(a.to_set().contains(a[j]));
        }
        assert forall|j: int| 0 <= j < b.len() implies a.contains(#[trigger] b[j]) by {
            assert(b.to_set().contains(b[j]));
        }
    }
    if (forall|j: int| 0 <= j < a.len() ==> b.contains(#[trigger] a[j])) && (forall|j: int|
        0 <= j < b.len() ==> a.contains(#[trigger] b[j])) {
        assert forall|x: T| a.to_set().contains(x) <==> b.to_set().contains(x) by {
            if a.contains(x) {
                let j = a.index_of(x);
                assert(b.contains(a[j]));
            }
            if b.contains(x) {
                let j = b.index_of(x);
                assert(a.contains(b[j]));
            }
        }
        assert(a.to_set() =~= b.to_set());
    }
}

impl PartialEq for NodeGraph {
    fn eq(&self, other: &Self) -> (r: bool) {
        proof {
            lemma_same_set(self.dependencies@, other.dependencies@);
            lemma_same_set(self.relations@, other.relations@);
        }
        nodes_found(self, other) && keys_found(other, self) && dependencies_within(
            self.dependencies.as_slice(),
            other.dependencies.as_slice(),
        ) && dependencies_within(other.dependencies.as_slice(), self.dependencies.as_slice())
            && relations_within(self.relations.as_slice(), other.relations.as_slice())
            && relations_within(other.relations.as_slice(), self.relations.as_slice())
    }
}

impl PartialEqSpecImpl for NodeGraph {
    open spec fn obeys_eq_spec() -> bool {
        true
    }

    open spec fn eq_spec(&self, other: &NodeGraph) -> bool {
        same_graph(*self, *other)
    }
}

impl Eq for NodeGraph {

}

/// Ownership edge from a lower storage layer to the layer it carries.
#[derive(Debug, Clone, Copy, PartialEq, Eq, Hash, Structural)]
pub struct Dependency {
    pub from: NodeId,
    pub to: NodeId,
    pub kind: DependencyKind,
}

/// Non-owning relationship between two nodes.
#[derive(Debug, Clone, Copy, PartialEq, Eq, Hash, Structural)]
pub struct Relation {
    pub from: NodeId,
    pub to: NodeId,
    pub kind: RelationKind,
}

#[derive(Debug, Clone, Copy, PartialEq, Eq, PartialOrd, Hash, Structural)]
pub struct BtrfsMember {
    pub devid: Option<NonZeroU64>,
}

#[derive(Debug, Clone, Copy, PartialEq, Eq, PartialOrd, Hash, Structural)]
pub struct MdMember {
    pub role: MdMemberRole,
    pub slot: Option<u16>,
    pub data_offset: Option<Bytes>,
}

#[derive(Debug, Clone, Copy, PartialEq, Eq, PartialOrd, Hash, Structural)]
pub enum MdMemberRole {
    Data,
    Spare,
    Replacement,
    Journal,
}

#[derive(Debug, Clone, Copy, PartialEq, Eq, PartialOrd, Hash, Structural)]
pub enum MemberRole {
    LvmPv,
    Md(MdMember),
    Btrfs(BtrfsMember),
    Zfs(ZfsMember),
}

#[derive(Debug, Clone, Copy, PartialEq, Eq, PartialOrd, Hash, Structural)]
pub enum CacheRole {
    Data,
    Metadata,
}

#[derive(Debug, Clone, Copy, PartialEq, Eq, PartialOrd, Hash, Structural)]
pub enum DependencyKind {
    Backs,
    Contains { offset: Bytes },
    Provides,
    MemberOf(MemberRole),
    Caches(CacheRole),
    Path,
}

#[derive(Debug, Clone, Copy, PartialEq, Eq, PartialOrd, Hash, Structural)]
pub enum RelationKind {
    SnapshotOf,
    NvmeAttachedTo,
    Replicates,
}

} // verus!
