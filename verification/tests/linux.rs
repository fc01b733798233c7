use pdisks_storage::model::graph::{DependencyKind, NodeGraph, RelationKind};
use pdisks_storage::model::kinds::{BtrfsAllocation, FilesystemKind};
use pdisks_storage::model::node::{Node, NodeFacts, NodeKind, NodeSpec, Presence};
use pdisks_storage::model::sizes::Bytes;
use pdisks_storage::model::state::{MountContext, MountSource, ObservedMount};
use pdisks_storage::parse::lsblk::{LsblkDevice, LsblkOutput};
use pdisks_storage::parse::mounts::{parse_findmnt, FilesystemEntry, MountsOutput};
use pdisks_storage::probe::cli::assemble_linux_block_state;
use pdisks_storage::probe::ids::{block_node_id, content_node_id, stable_node_id};
use pdisks_storage::probe::linux::mdraid_kind;
use pdisks_storage::probe::native::{
    assemble_native_block_state, enrich_btrfs, enrich_lvm, enrich_nvme, enrich_zfs,
    insert_native_endpoint,
};
use pdisks_storage::provider::entries::{
    BlkidEntry, BtrfsEntry, BtrfsSubvolumeEntry, DevmapperEntry, FdiskPartition, FdiskTable,
    LvmEntry, LvmLvEntry, LvmPvEntry, LvmVgEntry, MdraidArrayEntry, NativeDeviceNumber,
    NvmeControllerEntry, NvmeEntry, NvmeNamespaceEntry, NvmeSubsystemEntry, UdevBlockEntry,
    ZfsDatasetEntry, ZfsDatasetKind, ZfsEntry,
};

#[test]
fn native_block_observations_form_connected_graph() {
    let disk = UdevBlockEntry {
        devnode: "/dev/vda".to_string(),
        sysname: "vda".to_owned(),
        devtype: Some("disk".to_owned()),
        major: 252,
        minor: 0,
        size_sectors: Some(2_000),
        logical_block_size: Some(512),
        physical_block_size: Some(512),
        model: Some("fixture".to_owned()),
        serial: None,
        wwn: None,
        read_only: Some(false),
        rotational: Some(false),
        removable: Some(false),
    };
    let mut partition = disk.clone();
    partition.devnode = "/dev/vda1".to_string();
    partition.sysname = "vda1".to_owned();
    partition.devtype = Some("partition".to_owned());
    partition.minor = 1;
    partition.size_sectors = Some(1_000);
    let graph = assemble_native_block_state(
        &[disk, partition],
        &[FdiskTable {
            device: "/dev/vda".to_string(),
            label: Some("gpt".to_owned()),
            sector_size: 512,
            partitions: vec![FdiskPartition {
                number: 1,
                start_sectors: 2,
                size_sectors: 1_000,
                partition_type: None,
                name: None,
                uuid: None,
                bootable: false,
            }],
        }],
        &[BlkidEntry {
            device: "/dev/vda1".to_string(),
            signature_type: Some("ext4".to_owned()),
            uuid: Some("fixture-fs".to_owned()),
            label: Some("root".to_owned()),
            partition_uuid: None,
        }],
    )
    .graph;

    assert_eq!(graph.nodes().len(), 4);
    assert_eq!(graph.dependencies().len(), 3);
    assert!(matches!(
        graph.node(&content_node_id("/dev/vda1")).map(|node| &node.kind.kind),
        Some(NodeKind::Filesystem { .. })
    ));
}

#[test]
fn lvm_observations_enrich_existing_block_graph() {
    let mapper_endpoint = UdevBlockEntry {
        devnode: "/dev/dm-0".to_string(),
        sysname: "dm-0".to_owned(),
        devtype: Some("disk".to_owned()),
        major: 253,
        minor: 0,
        size_sectors: Some(1_000),
        logical_block_size: Some(512),
        physical_block_size: Some(512),
        model: None,
        serial: None,
        wwn: None,
        read_only: Some(false),
        rotational: None,
        removable: None,
    };
    let mut graph = NodeGraph::new();
    insert_native_endpoint(
        &mut graph,
        &mapper_endpoint,
        NodeKind::Unknown("device-mapper:linear".to_owned()),
    );
    graph.insert_node(
        content_node_id("/dev/vda1"),
        Node {
            kind: NodeSpec { kind: NodeKind::LvmPv, size: Some(Bytes::new(512_000)) },
            size: NodeFacts { presence: Presence::Present, ..NodeFacts::default() },
        },
    );
    let mappings = vec![DevmapperEntry {
        name: "vg-root".to_owned(),
        uuid: Some("LVM-aaaaaaaa-bbbbbbbb".to_owned()),
        devno: NativeDeviceNumber { major: 253, minor: 0 },
        targets: vec!["linear".to_owned()],
        dependencies: Vec::new(),
        read_only: false,
    }];
    let topology = LvmEntry {
        pvs: vec![LvmPvEntry {
            device: "/dev/vda1".to_string(),
            uuid: "pv-uuid".to_owned(),
            vg_name: Some("vg".to_owned()),
            vg_uuid: Some("aaaaaaaa".to_owned()),
            size: 512_000,
        }],
        vgs: vec![LvmVgEntry {
            name: "vg".to_owned(),
            uuid: "aaaaaaaa".to_owned(),
            size: 512_000,
            extent_size: 4_194_304,
        }],
        lvs: vec![LvmLvEntry {
            name: "root".to_owned(),
            vg_name: "vg".to_owned(),
            uuid: "bbbbbbbb".to_owned(),
            size: 512_000,
            segment_type: Some("linear".to_owned()),
        }],
    };

    enrich_lvm(&mut graph, &[mapper_endpoint], &mappings, &topology);

    let vg_id = stable_node_id("lvm-vg", "aaaaaaaa");
    let lv_id = block_node_id("/dev/dm-0");
    assert!(matches!(
        graph.node(&vg_id).map(|node| &node.kind.kind),
        Some(NodeKind::LvmVg { .. })
    ));
    assert!(matches!(
        graph.node(&lv_id).map(|node| &node.kind.kind),
        Some(NodeKind::LvmLv(_))
    ));
    assert!(graph.dependencies().iter().any(|dependency| {
        dependency.from == vg_id
            && dependency.to == lv_id
            && dependency.kind == DependencyKind::Provides
    }));
}

#[test]
fn mdraid_does_not_invent_missing_layout() {
    let mut array = MdraidArrayEntry {
        device: "/dev/md0".to_string(),
        level: "raid1".to_owned(),
        metadata: Some("1.2".to_owned()),
        uuid: None,
        size: 1_024,
        raid_devices: 2,
    };

    assert!(matches!(mdraid_kind(&array, &[]), NodeKind::MdArray(_)));
    array.level = "raid5".to_owned();
    assert_eq!(mdraid_kind(&array, &[]), NodeKind::Unknown("md:raid5".to_owned()));
}

#[test]
fn extended_native_topologies_enrich_the_graph() {
    let mut graph = NodeGraph::new();
    let filesystem_id = content_node_id("/dev/vda1");
    graph.insert_node(
        filesystem_id,
        Node {
            kind: NodeSpec {
                kind: NodeKind::Filesystem {
                    kind: FilesystemKind::Btrfs(BtrfsAllocation::empty()),
                    label: None,
                },
                size: None,
            },
            size: NodeFacts::default(),
        },
    );
    enrich_btrfs(
        &mut graph,
        &[ObservedMount {
            source: MountSource::Filesystem(filesystem_id),
            target: "/mnt/test".to_string(),
            options: Vec::new(),
            context: MountContext::Host,
        }],
        &[BtrfsEntry {
            mountpoint: "/mnt/test".to_string(),
            subvolumes: vec![BtrfsSubvolumeEntry {
                id: 256,
                path: "home".to_string(),
                read_only: false,
                is_default: true,
            }],
        }],
    );
    enrich_zfs(
        &mut graph,
        &ZfsEntry {
            pools: vec!["tank".to_owned()],
            datasets: vec![ZfsDatasetEntry {
                name: "tank/data".to_owned(),
                kind: ZfsDatasetKind::Filesystem,
            }],
        },
    );
    enrich_nvme(
        &mut graph,
        &NvmeEntry {
            subsystems: vec![NvmeSubsystemEntry {
                name: "nvme-subsys0".to_owned(),
                nqn: "nqn.test".to_owned(),
                controllers: vec![NvmeControllerEntry {
                    name: "nvme0".to_owned(),
                    transport: Some("pcie".to_owned()),
                }],
                namespaces: vec![NvmeNamespaceEntry {
                    name: "nvme0n1".to_owned(),
                    nsid: 1,
                    lba_size: 512,
                    metadata_size: 0,
                    nguid: Some([1; 16]),
                    eui64: None,
                    uuid: None,
                }],
            }],
        },
    );

    assert!(graph
        .nodes()
        .iter()
        .any(|(_, node)| matches!(node.kind.kind, NodeKind::BtrfsSubvolume { .. })));
    assert!(graph
        .nodes()
        .iter()
        .any(|(_, node)| matches!(node.kind.kind, NodeKind::ZfsDataset { .. })));
    assert!(matches!(
        graph.node(&block_node_id("/dev/nvme0n1")).map(|node| &node.kind.kind),
        Some(NodeKind::NvmeNamespace(_))
    ));
    assert!(graph
        .relations()
        .iter()
        .any(|relation| relation.kind == RelationKind::NvmeAttachedTo));
}

fn findmnt_entry(target: &str, source: &str, fstype: &str, options: &str, uuid: &str) -> FilesystemEntry {
    FilesystemEntry {
        target: target.to_string(),
        source: source.to_string(),
        fstype: fstype.to_string(),
        options: Some(options.to_string()),
        uuid: Some(uuid.to_string()),
    }
}

#[test]
fn parse_findmnt_output() {
    let output = MountsOutput {
        filesystems: vec![
            findmnt_entry("/", "/dev/sda2", "ext4", "rw,relatime", "abc-123"),
            findmnt_entry("/home", "/dev/sda2", "btrfs", "rw,subvol=@home", "def-456"),
        ],
    };
    let info = parse_findmnt(&output);

    assert_eq!(info.mounts_by_device.len(), 1);
    assert_eq!(info.mounts_by_target.len(), 2);

    let sda2_mounts = info.mounts_by_device.get("/dev/sda2").expect("device mounts");
    assert_eq!(sda2_mounts.len(), 2);
}

fn lsblk_device(name: &str, kind: &str, size: u64) -> LsblkDevice {
    LsblkDevice {
        name: name.to_string(),
        path: Some(format!("/dev/{name}")),
        maj_min: None,
        size,
        kind: kind.to_string(),
        mountpoint: None,
        mountpoints: None,
        uuid: None,
        partuuid: None,
        fstype: None,
        parttype: None,
        label: None,
        pttype: None,
        start: None,
        ro: None,
        log_sectorsize: None,
        phys_sectorsize: None,
        wwn: None,
        children: Vec::new(),
    }
}

#[test]
fn lsblk_disk_partition_and_mounts_form_provider_state() {
    let mut part = lsblk_device("sda1", "part", 536_870_912);
    part.start = Some(2048);
    part.fstype = Some("ext4".to_string());
    part.uuid = Some("root-uuid".to_string());
    let mut disk = lsblk_device("sda", "disk", 107_374_182_400);
    disk.pttype = Some("gpt".to_string());
    disk.wwn = Some("0x5000c500abcd".to_string());
    disk.children.push(part);
    let lsblk = LsblkOutput { blockdevices: vec![disk] };
    let mounts = MountsOutput {
        filesystems: vec![
            findmnt_entry("/", "/dev/sda1", "ext4", "rw,relatime", "root-uuid"),
            FilesystemEntry {
                target: "/run".to_string(),
                source: "tmpfs".to_string(),
                fstype: "tmpfs".to_string(),
                options: None,
                uuid: None,
            },
        ],
    };

    let state = assemble_linux_block_state(&lsblk, None, Some(&mounts));

    let disk_id = stable_node_id("block", "0x5000c500abcd");
    let table_id = stable_node_id("partition-table", "/dev/sda");
    let part_id = stable_node_id("block", "sda1");
    let fs_id = content_node_id("/dev/sda1");
    assert_eq!(state.graph.nodes().len(), 4);
    assert!(matches!(
        state.graph.node(&disk_id).map(|node| &node.kind.kind),
        Some(NodeKind::Disk)
    ));
    assert!(matches!(
        state.graph.node(&part_id).map(|node| &node.kind.kind),
        Some(NodeKind::Partition { offset, .. }) if offset.as_u64() == 2048 * 512
    ));
    assert!(state.graph.dependencies().iter().any(|d| d.from == disk_id && d.to == table_id));
    assert!(state.graph.dependencies().iter().any(|d| d.from == part_id && d.to == fs_id));
    assert_eq!(state.mounts.len(), 2);
    assert_eq!(state.mounts[0].source, MountSource::Filesystem(fs_id));
    assert_eq!(state.mounts[0].options, vec!["rw".to_string(), "relatime".to_string()]);
    assert_eq!(state.mounts[1].source, MountSource::Tmpfs);
    assert!(state.mounts[1].options.is_empty());
    assert!(state.diagnostics.is_empty());
}

#[test]
fn lsblk_swap_is_not_a_mount_source() {
    let mut disk = lsblk_device("vdb", "disk", 1_048_576);
    disk.fstype = Some("swap".to_string());
    let lsblk = LsblkOutput { blockdevices: vec![disk] };
    let mounts = MountsOutput {
        filesystems: vec![FilesystemEntry {
            target: "/mnt".to_string(),
            source: "/dev/vdb".to_string(),
            fstype: "ext4".to_string(),
            options: None,
            uuid: None,
        }],
    };

    let state = assemble_linux_block_state(&lsblk, None, Some(&mounts));

    assert!(matches!(
        state.graph.node(&content_node_id("/dev/vdb")).map(|node| &node.kind.kind),
        Some(NodeKind::Swap)
    ));
    assert_eq!(state.mounts[0].source, MountSource::Other("/dev/vdb".to_string()));
}

#[test]
fn empty_disk_provider_output_populates_canonical_graph() {
    let lsblk = LsblkOutput { blockdevices: vec![lsblk_device("sda", "disk", 1_000_204_886_016)] };

    let state = assemble_linux_block_state(&lsblk, None, None);

    assert!(state.graph.nodes().iter().any(|(_, node)| matches!(node.kind.kind, NodeKind::Disk)));
    assert!(state.diagnostics.is_empty());
}

#[test]
fn findmnt_provider_output_populates_mount_state() {
    let mut root = lsblk_device("sda2", "part", 53_687_091_200);
    root.start = Some(1_050_624);
    root.fstype = Some("ext4".to_string());
    root.uuid = Some("root-uuid".to_string());
    let mut boot = lsblk_device("sda1", "part", 536_870_912);
    boot.start = Some(2048);
    boot.fstype = Some("vfat".to_string());
    boot.uuid = Some("ABCD-1234".to_string());
    let mut disk = lsblk_device("sda", "disk", 107_374_182_400);
    disk.pttype = Some("gpt".to_string());
    disk.children.push(boot);
    disk.children.push(root);
    let lsblk = LsblkOutput { blockdevices: vec![disk] };
    let mounts = MountsOutput {
        filesystems: vec![
            findmnt_entry("/", "/dev/sda2", "ext4", "rw,relatime", "root-uuid"),
            findmnt_entry("/boot/efi", "/dev/sda1", "vfat", "rw", "ABCD-1234"),
        ],
    };

    let state = assemble_linux_block_state(&lsblk, None, Some(&mounts));

    assert_eq!(state.mounts.len(), 2);
    assert!(state.mounts.iter().all(|mount| matches!(mount.source, MountSource::Filesystem(_))));
}
