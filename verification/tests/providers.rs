use std::cmp::Ordering;

use pdisks_storage::probe::assemble::ProviderState;
use pdisks_storage::probe::capabilities::{CapabilityRegistry, ToolObservations};
use pdisks_storage::probe::providers::{
    btrfs_mountpoints, devices_named, disk_devices, probe_failure, signature_devices,
    LibmountProvider, NativeBlockProvider, NativeLocalProvider, NativeMapperProvider,
    NativeRuntimeProvider, NativeSystemProvider,
};
use pdisks_storage::provider::entries::{
    BlkidEntry, DevmapperEntry, FdiskTable, LibmountEntry, MultipathEntry, NativeDeviceNumber, SwapEntry,
    UdevBlockEntry,
};
use pdisks_storage::provider::native::NativeProbeError;
use pdisks_storage::provider::registry::{
    available_backend, validate_manifest, ProviderBackend, ProviderError, ProviderId,
    ProviderLibrary, ProviderManifest, ProviderManifests, ProviderRegistry,
};
use pdisks_storage::model::state::MountSource;

fn endpoint(devnode: &str, sysname: &str, devtype: Option<&str>) -> UdevBlockEntry {
    UdevBlockEntry {
        devnode: devnode.to_string(),
        sysname: sysname.to_string(),
        devtype: devtype.map(str::to_string),
        major: 8,
        minor: 0,
        size_sectors: None,
        logical_block_size: None,
        physical_block_size: None,
        model: None,
        serial: None,
        wwn: None,
        read_only: None,
        rotational: None,
        removable: None,
    }
}

fn signature(device: &str, kind: Option<&str>) -> BlkidEntry {
    BlkidEntry {
        device: device.to_string(),
        signature_type: kind.map(str::to_string),
        uuid: None,
        label: None,
        partition_uuid: None,
    }
}

fn mount(source: &str, target: &str, fstype: &str) -> LibmountEntry {
    LibmountEntry {
        source: source.to_string(),
        target: target.to_string(),
        filesystem_type: fstype.to_string(),
        options: vec!["rw".to_string()],
    }
}

#[test]
fn device_selections_keep_report_order() {
    let endpoints = vec![
        endpoint("/dev/sda", "sda", Some("disk")),
        endpoint("/dev/sda1", "sda1", Some("partition")),
        endpoint("/dev/loop0", "loop0", Some("disk")),
        endpoint("/dev/md0", "md0", Some("disk")),
        endpoint("/dev/md127", "md127", None),
    ];
    assert_eq!(disk_devices(&endpoints), vec!["/dev/sda", "/dev/loop0", "/dev/md0"]);
    assert_eq!(devices_named(&endpoints, "loop"), vec!["/dev/loop0"]);
    assert_eq!(devices_named(&endpoints, "md"), vec!["/dev/md0", "/dev/md127"]);

    let signatures = vec![
        signature("/dev/sda1", Some("crypto_LUKS")),
        signature("/dev/sda2", Some("swap")),
        signature("/dev/sdb", Some("linux_raid_member")),
        signature("/dev/sdc", None),
        signature("/dev/sdd", Some("swap")),
    ];
    assert_eq!(signature_devices(&signatures, "crypto_LUKS"), vec!["/dev/sda1"]);
    assert_eq!(signature_devices(&signatures, "swap"), vec!["/dev/sda2", "/dev/sdd"]);
    assert_eq!(signature_devices(&signatures, "linux_raid_member"), vec!["/dev/sdb"]);
}

#[test]
fn btrfs_mountpoints_are_distinct() {
    let mounts = vec![
        mount("/dev/sda2", "/", "btrfs"),
        mount("/dev/sda2", "/home", "btrfs"),
        mount("/dev/sda2", "/", "btrfs"),
        mount("tmpfs", "/tmp", "tmpfs"),
    ];
    let mut points = btrfs_mountpoints(&mounts);
    points.sort();
    assert_eq!(points, vec!["/", "/home"]);
}

#[test]
fn native_failure_messages_match_their_variant() {
    assert_eq!(
        NativeProbeError::LibraryRequired.message(),
        "native provider library is required"
    );
    assert_eq!(
        NativeProbeError::MissingSymbol { symbol: "udev_new" }.message(),
        "provider library does not export udev_new"
    );
    assert_eq!(
        NativeProbeError::CallFailed { operation: "mnt_table_parse_mtab", code: -22 }.message(),
        "native provider call mnt_table_parse_mtab failed with code -22"
    );
    assert_eq!(
        NativeProbeError::CallFailed { operation: "bd_init", code: 3 }.message(),
        "native provider call bd_init failed with code 3"
    );
    assert_eq!(
        NativeProbeError::AllocationFailed { object: "fdisk context" }.message(),
        "native provider could not allocate fdisk context"
    );
    assert_eq!(
        NativeProbeError::InvalidPath { path: "/dev/a\"b".to_string() }.message(),
        "native provider cannot inspect path containing NUL: \"/dev/a\\\"b\""
    );
    assert_eq!(
        NativeProbeError::InvalidData { operation: "blkid_probe" }.message(),
        "native provider returned invalid data from blkid_probe"
    );
}

#[test]
fn failed_block_call_fails_the_provider() {
    let error = probe_failure("udev", &NativeProbeError::LibraryRequired);
    assert_eq!(error.code, "udev.probe_failed");
    assert_eq!(error.message, "native provider library is required");
}

#[test]
fn libmount_contribution_holds_only_mounts() {
    let state = LibmountProvider::finish(Ok(vec![
        mount("/dev/sda1", "/", "ext4"),
        mount("server:/export", "/srv", "nfs"),
    ]))
    .expect("mounts");
    assert_eq!(state.mounts.len(), 2);
    assert!(matches!(state.mounts[0].source, MountSource::Filesystem(_)));
    assert!(matches!(state.mounts[1].source, MountSource::Network(_)));
    assert!(state.graph.nodes().is_empty());

    let error = LibmountProvider::finish(Err(NativeProbeError::LibraryRequired)).unwrap_err();
    assert_eq!(error.code, "libmount.probe_failed");
}

#[test]
fn mapper_failures_are_recorded_and_mappings_returned() {
    let mut state = ProviderState::default();
    let mapping = DevmapperEntry {
        name: "mpatha".to_string(),
        uuid: None,
        devno: NativeDeviceNumber { major: 253, minor: 1 },
        targets: vec!["multipath".to_string()],
        dependencies: Vec::new(),
        read_only: false,
    };
    let mappings = NativeMapperProvider::finish(
        &mut state,
        &[],
        Err(NativeProbeError::CallFailed { operation: "crypt_init", code: -1 }),
        Ok(vec![mapping.clone()]),
    );
    assert_eq!(mappings, vec![mapping]);
    assert_eq!(state.diagnostics.len(), 1);
    assert_eq!(state.diagnostics[0].code, "cryptsetup.probe_failed");
    assert_eq!(
        state.diagnostics[0].evidence.as_deref(),
        Some("native provider call crypt_init failed with code -1")
    );
}

#[test]
fn runtime_records_failures_before_warnings() {
    let mut state = ProviderState::default();
    let mapping = DevmapperEntry {
        name: "mpatha".to_string(),
        uuid: None,
        devno: NativeDeviceNumber { major: 253, minor: 1 },
        targets: vec!["multipath".to_string()],
        dependencies: Vec::new(),
        read_only: false,
    };
    NativeRuntimeProvider::finish(
        &mut state,
        &[mapping],
        Err(NativeProbeError::LibraryRequired),
        Ok(vec![SwapEntry { device: "/dev/sda2".to_string(), active: true }]),
        Ok(MultipathEntry { members: vec!["/dev/sdx".to_string()] }),
    );
    let codes: Vec<&str> = state.diagnostics.iter().map(|d| d.code.as_str()).collect();
    assert_eq!(codes.len(), 3);
    assert_eq!(codes[0], "loop.probe_failed");
}

#[test]
fn local_and_system_failures_keep_partial_state() {
    let mut state = ProviderState::default();
    NativeLocalProvider::finish(
        &mut state,
        &[],
        &[],
        Err(NativeProbeError::LibraryRequired),
        Err(NativeProbeError::LibraryRequired),
    );
    let points = NativeSystemProvider::record_mounts(
        &mut state,
        Ok(vec![mount("/dev/sda2", "/", "btrfs"), mount("/dev/sda2", "/", "btrfs")]),
    );
    assert_eq!(points, vec!["/"]);
    assert_eq!(state.mounts.len(), 2);
    NativeSystemProvider::finish(
        &mut state,
        Err(NativeProbeError::LibraryRequired),
        Err(NativeProbeError::LibraryRequired),
        Err(NativeProbeError::LibraryRequired),
    );
    let codes: Vec<&str> = state.diagnostics.iter().map(|d| d.code.as_str()).collect();
    assert_eq!(
        codes,
        vec![
            "mdraid.probe_failed",
            "lvm.probe_failed",
            "btrfs.probe_failed",
            "zfs.probe_failed",
            "nvme.probe_failed",
        ]
    );
    assert!(state.graph.nodes().is_empty());
}

fn tools(installed: &[&str]) -> ToolObservations {
    ToolObservations {
        installed: installed.iter().map(|s| s.to_string()).collect(),
        lvm_version: Some("  LVM version: 2.03.16(2)\n".to_string()),
        cryptsetup_version: None,
        btrfs_version: Some("btrfs-progs v6.6\n".to_string()),
    }
}

#[test]
fn capabilities_follow_installed_tools() {
    let registry = CapabilityRegistry::detect(&tools(&["mkfs.ext4", "resize2fs", "sgdisk", "lvm", "mdadm"]));
    assert!(registry.can_create_fs("ext4"));
    assert!(!registry.can_create_fs("xfs"));
    assert!(!registry.can_create_fs("zfs"));
    let ext4 = *registry.filesystems.get("ext4").expect("ext4");
    assert!(ext4.grow_online && ext4.shrink_offline && !ext4.check && !ext4.shrink_online);
    assert!(registry.partition.gpt && !registry.partition.mbr);
    assert!(registry.partition.create && registry.partition.delete && !registry.partition.resize);
    let lvm = registry.lvm.expect("lvm");
    assert_eq!(lvm.version.as_deref(), Some("LVM version: 2.03.16(2)"));
    assert_eq!(registry.mdraid.expect("mdadm").levels, vec![0, 1, 4, 5, 6, 10]);
    assert!(registry.luks.is_none());
    assert!(registry.btrfs.is_none());
}

#[test]
fn capabilities_without_tools() {
    let registry = CapabilityRegistry::detect(&tools(&[]));
    assert_eq!(registry.filesystems.len(), 3);
    assert!(!registry.can_create_fs("swap"));
    assert!(registry.lvm.is_none() && registry.mdraid.is_none());
    assert_eq!(CapabilityRegistry::probed_tools().len(), 16);
}

fn manifest(id: &str, library: Option<&str>, executable: Option<&str>) -> ProviderManifest {
    ProviderManifest {
        id: ProviderId::new(id.to_string()).expect("valid id"),
        library: library.map(|path| ProviderLibrary {
            path: path.to_string(),
            required_symbols: vec!["symbol".to_string()],
        }),
        executable: executable.map(str::to_string),
        capabilities: Vec::new(),
    }
}

#[test]
fn registry_orders_and_skips_providers() {
    let manifests = ProviderManifests {
        manifest_version: 1,
        providers: vec![
            manifest("zeta", None, Some("/usr/bin/zeta")),
            manifest("alpha", Some("/usr/lib/libalpha.so"), None),
            manifest("missing", None, Some("/usr/bin/missing")),
        ],
    };
    let available = [Some(ProviderBackend::Cli), Some(ProviderBackend::Library), None];
    let registry = ProviderRegistry::load_from("/etc/providers.json", manifests, &available)
        .expect("registry");
    let ids: Vec<&str> = registry.providers().iter().map(|p| p.manifest().id.as_str()).collect();
    assert_eq!(ids, vec!["alpha", "zeta"]);
    assert_eq!(registry.providers()[0].backend(), ProviderBackend::Library);
    assert_eq!(registry.providers()[0].manifest_path(), "/etc/providers.json");
}

#[test]
fn registry_rejects_schema_duplicates_and_relative_paths() {
    let newer = ProviderManifests { manifest_version: 2, providers: Vec::new() };
    assert!(matches!(
        ProviderRegistry::load_from("/p.json", newer, &[]),
        Err(ProviderError::UnsupportedManifestVersion { version: 2, .. })
    ));
    let duplicate = ProviderManifests {
        manifest_version: 1,
        providers: vec![manifest("a", None, Some("/bin/a")), manifest("a", None, Some("/bin/b"))],
    };
    assert!(matches!(
        ProviderRegistry::load_from("/p.json", duplicate, &[Some(ProviderBackend::Cli), Some(ProviderBackend::Cli)]),
        Err(ProviderError::DuplicateProvider(_))
    ));
    let relative = ProviderManifests {
        manifest_version: 1,
        providers: vec![manifest("a", Some("lib/liba.so"), None)],
    };
    assert!(matches!(
        ProviderRegistry::load_from("/p.json", relative, &[None]),
        Err(ProviderError::RelativeLibrary { .. })
    ));
}

#[test]
fn dependency_validation_is_strict() {
    let manifests = ProviderManifests {
        manifest_version: 1,
        providers: vec![manifest("a", Some("/usr/lib/liba.so"), Some("/usr/bin/a"))],
    };
    assert!(ProviderRegistry::validate_dependencies("/p.json", &manifests, &[true], &[true]).is_ok());
    assert!(matches!(
        ProviderRegistry::validate_dependencies("/p.json", &manifests, &[false], &[true]),
        Err(ProviderError::UnavailableLibrary { .. })
    ));
    assert!(matches!(
        ProviderRegistry::validate_dependencies("/p.json", &manifests, &[true], &[false]),
        Err(ProviderError::UnavailableExecutable { .. })
    ));
    let m = manifest("b", Some("/usr/lib/libb.so"), Some("/usr/bin/b"));
    assert_eq!(available_backend(&m, true, true), Some(ProviderBackend::Library));
    assert_eq!(available_backend(&m, false, true), Some(ProviderBackend::Cli));
    assert_eq!(available_backend(&m, false, false), None);
}

#[test]
fn cli_backend_refuses_library_calls() {
    let manifests = ProviderManifests {
        manifest_version: 1,
        providers: vec![manifest("cli", None, Some("/usr/bin/cli"))],
    };
    let registry = ProviderRegistry::load_from("/p.json", manifests, &[Some(ProviderBackend::Cli)])
        .expect("registry");
    let provider = &registry.providers()[0];
    let result = provider.probe_udev_blocks(|| Ok(Vec::new()));
    assert_eq!(result, Err(NativeProbeError::LibraryRequired));
    let lib_manifests = ProviderManifests {
        manifest_version: 1,
        providers: vec![manifest("lib", Some("/usr/lib/l.so"), None)],
    };
    let registry = ProviderRegistry::load_from("/p.json", lib_manifests, &[Some(ProviderBackend::Library)])
        .expect("registry");
    let provider = &registry.providers()[0];
    let devices = vec!["/dev/sda".to_string()];
    let result = provider.probe_fdisk_partitions(&devices, |d| {
        assert_eq!(d.len(), 1);
        Ok(Vec::new())
    });
    assert_eq!(result, Ok(Vec::new()));
}

#[test]
fn manifest_validation_reports_the_first_problem() {
    assert!(matches!(
        validate_manifest("/p.json", &manifest("a", None, None)),
        Err(ProviderError::MissingBackend { path }) if path == "/p.json"
    ));
    assert!(matches!(
        validate_manifest("/p.json", &manifest("a", Some("/lib/a.so"), Some("bin/a"))),
        Err(ProviderError::RelativeExecutable { executable, .. }) if executable == "bin/a"
    ));
    let mut bad_symbol = manifest("a", Some("/lib/a.so"), None);
    if let Some(library) = bad_symbol.library.as_mut() {
        library.required_symbols = vec!["ok".to_string(), "bad\0symbol".to_string()];
    }
    assert!(matches!(
        validate_manifest("/p.json", &bad_symbol),
        Err(ProviderError::InvalidLibrarySymbol { symbol, .. }) if symbol == "bad\0symbol"
    ));
    assert!(validate_manifest("/p.json", &manifest("a", Some("/lib/a.so"), Some("/bin/a"))).is_ok());
    assert!(ProviderId::new("has space".to_string()).is_none());
    assert!(ProviderId::new(String::new()).is_none());
}

#[test]
fn block_calls_stop_at_the_first_failure() {
    let endpoints = vec![
        endpoint("/dev/sda", "sda", Some("disk")),
        endpoint("/dev/sda1", "sda1", Some("partition")),
        endpoint("/dev/sdb", "sdb", Some("disk")),
    ];
    let (kept, disks) = NativeBlockProvider::after_udev(Ok(endpoints.clone())).unwrap();
    assert_eq!(kept.len(), 3);
    assert_eq!(disks, vec!["/dev/sda".to_string(), "/dev/sdb".to_string()]);

    let failed = NativeBlockProvider::after_udev(Err(NativeProbeError::LibraryRequired)).unwrap_err();
    assert_eq!(failed.code, "udev.probe_failed");
    assert_eq!(failed.message, "native provider library is required");

    let tables: Vec<FdiskTable> = Vec::new();
    assert!(NativeBlockProvider::after_fdisk(Ok(tables.clone())).unwrap().is_empty());
    let failed = NativeBlockProvider::after_fdisk(Err(NativeProbeError::CallFailed {
        operation: "fdisk_assign_device",
        code: -2,
    }))
    .unwrap_err();
    assert_eq!(failed.code, "fdisk.probe_failed");
    assert_eq!(failed.message, "native provider call fdisk_assign_device failed with code -2");

    let (state, signatures) = NativeBlockProvider::after_blkid(
        &endpoints,
        &tables,
        Ok(vec![signature("/dev/sda1", Some("ext4"))]),
    )
    .unwrap();
    assert_eq!(signatures.len(), 1);
    assert!(state.diagnostics.is_empty());
    assert!(!state.graph.nodes().is_empty());
    let failed = NativeBlockProvider::after_blkid(
        &endpoints,
        &tables,
        Err(NativeProbeError::AllocationFailed { object: "blkid_cache" }),
    )
    .unwrap_err();
    assert_eq!(failed.code, "blkid.probe_failed");
}

#[test]
fn strict_validation_passes_when_every_dependency_is_met() {
    let manifests = ProviderManifests {
        manifest_version: 1,
        providers: vec![
            manifest("block", Some("/usr/lib/libblock.so"), None),
            manifest("zfs", None, Some("/definitely/missing/zfs")),
        ],
    };
    assert!(ProviderRegistry::validate_dependencies("/p.json", &manifests, &[true, false], &[false, true])
        .is_ok());
    assert!(matches!(
        ProviderRegistry::validate_dependencies("/p.json", &manifests, &[true, true], &[true, false]),
        Err(ProviderError::UnavailableExecutable { .. })
    ));
}

#[test]
fn provider_ids_compare_by_text() {
    let a = ProviderId::new("block".to_string()).unwrap();
    let b = ProviderId::new("zfs".to_string()).unwrap();
    assert_eq!(a.partial_cmp(&b), Some(Ordering::Less));
    assert_eq!(b.partial_cmp(&a), Some(Ordering::Greater));
    assert_eq!(a.partial_cmp(&a.clone()), Some(Ordering::Equal));
    assert_eq!(a.cmp(&b), a.as_str().cmp(b.as_str()));
    assert_eq!(ProviderId::new("lvm".to_string()).unwrap().as_str(), "lvm");
}
