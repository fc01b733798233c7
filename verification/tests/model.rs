use pdisks_storage::model::graph::{Dependency, DependencyKind, NodeGraph, Relation, RelationKind};
use pdisks_storage::model::node::{Node, NodeFacts, NodeId, NodeKind, NodeSpec};
use pdisks_storage::provider::registry::ProviderId;
use pdisks_storage::model::block::{DeviceInfo, NetworkBacking, Transport};
use pdisks_storage::model::block::BlockSize;
use pdisks_storage::model::kinds::{
    BtrfsAllocation, BtrfsProfileSet, FilesystemKind, NvmeNamespaceId,
};
use pdisks_storage::model::raid::{CopyCount, DataStripeCount};

#[test]
fn every_existing_filesystem_kind_has_a_provider_name() {
    let btrfs = BtrfsAllocation {
        data: BtrfsProfileSet::new(),
        metadata: BtrfsProfileSet::new(),
        system: BtrfsProfileSet::new(),
    };
    let kinds = [
        FilesystemKind::Ext2,
        FilesystemKind::Ext3,
        FilesystemKind::Ext4,
        FilesystemKind::Xfs,
        FilesystemKind::Btrfs(btrfs),
        FilesystemKind::Jfs,
        FilesystemKind::Reiserfs,
        FilesystemKind::Vfat,
        FilesystemKind::Ntfs,
        FilesystemKind::Exfat,
        FilesystemKind::F2fs,
        FilesystemKind::Ocfs2,
        FilesystemKind::Gfs2,
        FilesystemKind::Apfs,
        FilesystemKind::Other("bcachefs".into()),
    ];
    let expected = [
        "ext2", "ext3", "ext4", "xfs", "btrfs", "jfs", "reiserfs", "vfat", "ntfs", "exfat", "f2fs",
        "ocfs2", "gfs2", "apfs", "bcachefs",
    ];
    for (kind, expected) in kinds.iter().zip(expected) {
        assert_eq!(kind.as_str(), expected);
    }
}

#[test]
fn provider_numeric_boundaries_reject_impossible_zero_values() {
    assert!(BlockSize::new(0).is_none());
    assert!(NvmeNamespaceId::new(0).is_none());
    assert!(DataStripeCount::new(0).is_none());
    assert!(CopyCount::new(0).is_none());
    assert!(CopyCount::new(1).is_none());
}

#[test]
fn network_storage_is_derived_from_transport() {
    for transport in [Transport::NvmeOf, Transport::FibreChannel, Transport::Iscsi] {
        let device = DeviceInfo { transport: Some(transport), ..DeviceInfo::default() };
        assert_eq!(device.is_network(), Some(true));
    }

    for transport in [
        Transport::Nvme,
        Transport::Sata,
        Transport::Sas,
        Transport::Scsi,
        Transport::Usb,
        Transport::Virtio,
        Transport::Mmc,
    ] {
        let device = DeviceInfo { transport: Some(transport), ..DeviceInfo::default() };
        assert_eq!(device.is_network(), Some(false));
    }

    assert_eq!(DeviceInfo::default().is_network(), None);

    for backing in [NetworkBacking::Rbd, NetworkBacking::Nbd] {
        let device = DeviceInfo { network_backing: Some(backing), ..DeviceInfo::default() };
        assert_eq!(device.is_network(), Some(true));
        assert_eq!(device.transport, None);
    }
}

#[test]
fn device_info_default_knows_no_fact() {
    let info = DeviceInfo::default();
    assert_eq!(info.model, None);
    assert_eq!(info.vendor, None);
    assert_eq!(info.transport, None);
    assert_eq!(info.network_backing, None);
    assert_eq!(info.rotational, None);
    assert_eq!(info.removable, None);
    assert_eq!(info.zoned, None);
    assert_eq!(info.is_network(), None);
}

fn graph_node(kind: NodeKind) -> Node {
    Node { kind: NodeSpec { kind, size: None }, size: NodeFacts::default() }
}

#[test]
fn graphs_built_in_different_orders_are_equal() {
    let (a, b, c) = (NodeId::from_uuid(1), NodeId::from_uuid(2), NodeId::from_uuid(3));
    let backs = Dependency { from: a, to: b, kind: DependencyKind::Backs };
    let path = Dependency { from: c, to: b, kind: DependencyKind::Path };
    let snap = Relation { from: b, to: c, kind: RelationKind::SnapshotOf };

    let mut first = NodeGraph::new();
    first.insert_node(a, graph_node(NodeKind::Disk));
    first.insert_node(b, graph_node(NodeKind::Swap));
    first.insert_node(c, graph_node(NodeKind::Zram));
    first.insert_dependency(backs);
    first.insert_dependency(path);
    first.insert_relation(snap);

    let mut second = NodeGraph::new();
    second.insert_node(c, graph_node(NodeKind::Zram));
    second.insert_node(a, graph_node(NodeKind::Disk));
    second.insert_node(b, graph_node(NodeKind::Swap));
    second.insert_dependency(path);
    second.insert_relation(snap);
    second.insert_dependency(backs);

    assert_eq!(first, second);

    let mut third = NodeGraph::new();
    third.insert_node(a, graph_node(NodeKind::Disk));
    third.insert_node(b, graph_node(NodeKind::Swap));
    third.insert_node(c, graph_node(NodeKind::Disk));
    third.insert_dependency(backs);
    third.insert_dependency(path);
    third.insert_relation(snap);
    assert_ne!(first, third);

    let mut fourth = NodeGraph::new();
    fourth.insert_node(a, graph_node(NodeKind::Disk));
    fourth.insert_node(b, graph_node(NodeKind::Swap));
    fourth.insert_node(c, graph_node(NodeKind::Zram));
    fourth.insert_dependency(backs);
    fourth.insert_relation(snap);
    assert_ne!(first, fourth);
    assert_ne!(NodeGraph::new(), first);
}

#[test]
fn provider_ids_order_by_text() {
    let block = ProviderId::new("block".to_string()).unwrap();
    let zfs = ProviderId::new("zfs".to_string()).unwrap();
    assert!(block < zfs);
    let mut ids = vec![zfs.clone(), block.clone()];
    ids.sort();
    assert_eq!(ids, vec![block, zfs]);
}
