use std::cell::Cell;
use std::rc::Rc;

use pdisks_storage::model::graph::NodeGraph;
use pdisks_storage::model::node::{Node, NodeFacts, NodeId, NodeKind, NodeSpec, Presence};
use pdisks_storage::model::state::{
    Diagnostic, DiagnosticSeverity, DiagnosticSubject, Environment, MountContext, MountSource,
    ObservedMount, SystemEnvironment,
};
use pdisks_storage::probe::assemble::{probe, ProviderProbeError, ProviderState, StateProvider};
use pdisks_storage::probe::snapshot::LinuxProbe;
use pdisks_storage::provider::registry::ProviderBackend;

/// Deterministic provider used to verify orchestration without loading host libraries.
struct FakeProvider {
    id: &'static str,
    responsibility: &'static str,
    backend: ProviderBackend,
    calls: Rc<Cell<u32>>,
    result: Result<ProviderState, ProviderProbeError>,
}

impl StateProvider for FakeProvider {
    fn id(&self) -> &str {
        self.id
    }

    fn responsibility(&self) -> &str {
        self.responsibility
    }

    fn backend(&self) -> ProviderBackend {
        self.backend
    }

    fn probe(&self) -> Result<ProviderState, ProviderProbeError> {
        self.calls.set(self.calls.get() + 1);
        self.result.clone()
    }
}

/// Creates one canonical disk contribution.
fn disk_state(id: NodeId) -> ProviderState {
    let mut graph = NodeGraph::new();
    graph.insert_node(
        id,
        Node {
            kind: NodeSpec { kind: NodeKind::Disk, size: None },
            size: NodeFacts { presence: Presence::Present, ..NodeFacts::default() },
        },
    );
    ProviderState { graph, ..ProviderState::default() }
}

#[test]
fn providers_with_distinct_responsibilities_are_called_independently() {
    let id = NodeId::from_uuid(1);
    let native_calls = Rc::new(Cell::new(0));
    let cli_calls = Rc::new(Cell::new(0));
    let native = FakeProvider {
        id: "block",
        responsibility: "block.topology",
        backend: ProviderBackend::Library,
        calls: Rc::clone(&native_calls),
        result: Ok(disk_state(id)),
    };
    let cli = FakeProvider {
        id: "mounts",
        responsibility: "mounts.runtime",
        backend: ProviderBackend::Cli,
        calls: Rc::clone(&cli_calls),
        result: Ok(ProviderState::default()),
    };

    let current = probe(&[&cli, &native]);

    assert_eq!(native_calls.get(), 1);
    assert_eq!(cli_calls.get(), 1);
    assert!(current.graph.node(&id).is_some());
    assert!(current.diagnostics.is_empty());
}

#[test]
fn duplicate_responsibility_is_rejected_without_substitution() {
    let native_calls = Rc::new(Cell::new(0));
    let cli_calls = Rc::new(Cell::new(0));
    let native = FakeProvider {
        id: "libmount",
        responsibility: "mounts.runtime",
        backend: ProviderBackend::Library,
        calls: Rc::clone(&native_calls),
        result: Ok(ProviderState::default()),
    };
    let cli = FakeProvider {
        id: "findmnt",
        responsibility: "mounts.runtime",
        backend: ProviderBackend::Cli,
        calls: Rc::clone(&cli_calls),
        result: Ok(ProviderState::default()),
    };

    let current = probe(&[&cli, &native]);

    assert_eq!(native_calls.get(), 0);
    assert_eq!(cli_calls.get(), 0);
    assert!(current
        .diagnostics
        .iter()
        .any(|diagnostic| diagnostic.code == "provider.responsibility_conflict"));
}

#[test]
fn conflicting_provider_nodes_are_not_silently_replaced() {
    let id = NodeId::from_uuid(3);
    let first = FakeProvider {
        id: "block",
        responsibility: "block.topology",
        backend: ProviderBackend::Library,
        calls: Rc::new(Cell::new(0)),
        result: Ok(disk_state(id)),
    };
    let mut conflicting = disk_state(id);
    conflicting.graph.insert_node(
        id,
        Node {
            kind: NodeSpec { kind: NodeKind::Zram, size: None },
            size: NodeFacts::default(),
        },
    );
    let second = FakeProvider {
        id: "zram",
        responsibility: "zram.devices",
        backend: ProviderBackend::Library,
        calls: Rc::new(Cell::new(0)),
        result: Ok(conflicting),
    };

    let current = probe(&[&first, &second]);

    assert!(matches!(
        current.graph.node(&id).map(|node| &node.kind.kind),
        Some(NodeKind::Disk)
    ));
    assert!(current
        .diagnostics
        .iter()
        .any(|diagnostic| diagnostic.code == "provider.node_conflict"));
}

#[test]
fn provider_contribution_populates_every_current_state_section() {
    let id = NodeId::from_uuid(4);
    let mut contribution = disk_state(id);
    contribution.mounts.push(ObservedMount {
        source: MountSource::Tmpfs,
        target: "/run".to_string(),
        options: vec!["rw".into()],
        context: MountContext::Host,
    });
    contribution.environment = Some(Environment {
        host: SystemEnvironment {
            os_release: Some("ALT".into()),
            architecture: Some("x86_64".into()),
            kernel_release: Some("test".into()),
            ..SystemEnvironment::default()
        },
        target: None,
    });
    contribution.diagnostics.push(Diagnostic {
        code: "provider.notice".into(),
        severity: DiagnosticSeverity::Warning,
        subjects: vec![DiagnosticSubject::Node(id)],
        message: "provider notice".into(),
        evidence: None,
        suggested_remedy: None,
    });
    let provider = FakeProvider {
        id: "block",
        responsibility: "block.topology",
        backend: ProviderBackend::Library,
        calls: Rc::new(Cell::new(0)),
        result: Ok(contribution),
    };

    let current = probe(&[&provider]);

    assert!(current.graph.node(&id).is_some());
    assert_eq!(current.mounts.entries.len(), 1);
    assert_eq!(current.environment.host.os_release.as_deref(), Some("ALT"));
    assert_eq!(current.diagnostics[0].code, "provider.notice");
}

#[test]
fn failed_provider_is_recorded_with_its_evidence() {
    let provider = FakeProvider {
        id: "udev",
        responsibility: "block.endpoints",
        backend: ProviderBackend::Library,
        calls: Rc::new(Cell::new(0)),
        result: Err(ProviderProbeError::new("udev.probe_failed", "no access")),
    };

    let current = probe(&[&provider]);

    assert_eq!(current.diagnostics.len(), 1);
    assert_eq!(current.diagnostics[0].code, "provider.probe_failed");
    assert_eq!(
        current.diagnostics[0].evidence.as_deref(),
        Some("udev.probe_failed: no access")
    );
    assert_eq!(
        current.diagnostics[0].message,
        "provider udev (Library) could not inspect its storage responsibility"
    );
}

#[test]
fn responsibility_conflict_names_every_claimant() {
    let a = FakeProvider {
        id: "libmount",
        responsibility: "mounts.runtime",
        backend: ProviderBackend::Library,
        calls: Rc::new(Cell::new(0)),
        result: Ok(ProviderState::default()),
    };
    let b = FakeProvider {
        id: "findmnt",
        responsibility: "mounts.runtime",
        backend: ProviderBackend::Cli,
        calls: Rc::new(Cell::new(0)),
        result: Ok(ProviderState::default()),
    };

    let current = probe(&[&a, &b]);

    assert_eq!(current.diagnostics.len(), 1);
    assert_eq!(
        current.diagnostics[0].evidence.as_deref(),
        Some("libmount (Library), findmnt (Cli)")
    );
    assert_eq!(
        current.diagnostics[0].message,
        "multiple providers own responsibility mounts.runtime"
    );
}

#[test]
fn node_conflict_names_the_node_and_both_providers() {
    let id = NodeId::from_uuid(0xbd11_7d79_8f6e_1a80_9f27_6f1a_7dc9_0ad9);
    let first = FakeProvider {
        id: "block",
        responsibility: "block.topology",
        backend: ProviderBackend::Library,
        calls: Rc::new(Cell::new(0)),
        result: Ok(disk_state(id)),
    };
    let mut conflicting = ProviderState::default();
    conflicting.graph.insert_node(
        id,
        Node { kind: NodeSpec { kind: NodeKind::Zram, size: None }, size: NodeFacts::default() },
    );
    let second = FakeProvider {
        id: "zram",
        responsibility: "zram.devices",
        backend: ProviderBackend::Library,
        calls: Rc::new(Cell::new(0)),
        result: Ok(conflicting),
    };

    let current = probe(&[&second, &first]);

    assert_eq!(current.diagnostics.len(), 1);
    assert_eq!(
        current.diagnostics[0].message,
        "providers disagree about node NodeId(bd117d79-8f6e-1a80-9f27-6f1a7dc90ad9)"
    );
    assert_eq!(
        current.diagnostics[0].evidence.as_deref(),
        Some("first provider: block; conflicting provider: zram")
    );
}

#[test]
fn linux_probe_calls_each_of_its_own_adapters_once() {
    let id = NodeId::from_uuid(7);
    let block_calls = Rc::new(Cell::new(0));
    let failing_calls = Rc::new(Cell::new(0));
    let block = FakeProvider {
        id: "block",
        responsibility: "block.topology",
        backend: ProviderBackend::Library,
        calls: Rc::clone(&block_calls),
        result: Ok(disk_state(id)),
    };
    let failing = FakeProvider {
        id: "zfs",
        responsibility: "zfs.pools",
        backend: ProviderBackend::Cli,
        calls: Rc::clone(&failing_calls),
        result: Err(ProviderProbeError::new("zfs.missing", "zpool absent")),
    };
    let providers: Vec<Box<dyn StateProvider>> = vec![Box::new(block), Box::new(failing)];
    let linux = LinuxProbe::from_providers(providers);

    let snapshot = linux.probe().expect("a provider failure is a diagnostic, not an error");

    assert_eq!(snapshot.generation, 1);
    assert_eq!(block_calls.get(), 1);
    assert_eq!(failing_calls.get(), 1);
    assert!(snapshot.current.graph.node(&id).is_some());
    assert_eq!(snapshot.current.diagnostics.len(), 1);
    assert_eq!(snapshot.current.diagnostics[0].code, "provider.probe_failed");
    assert_eq!(
        snapshot.current.diagnostics[0].evidence.as_deref(),
        Some("zfs.missing: zpool absent")
    );
}
