use std::fmt::Debug;

use pdisks_storage::model::graph::{
    BtrfsMember, CacheRole, DependencyKind, MdMember, MdMemberRole, MemberRole, RelationKind,
};
use pdisks_storage::model::kinds::{
    BcacheMode, BtrfsAllocation, BtrfsProfileSet, DmCacheMode, FilesystemKind, LuksVersion, LvmLv,
    LvmLvKind, ZfsParity, ZfsVdevClass, ZfsVdevKind,
};
use pdisks_storage::model::node::NodeKind;
use pdisks_storage::model::nonzero::NonZeroU64;
use pdisks_storage::model::raid::{
    BtrfsProfile, CopyCount, DataStripeCount, LvmRaid, LvmRaid0Variant, LvmRaid5Layout,
    LvmRaid6Layout, MdArray, MdExternalMetadata, MdMetadata, MdNativeMetadata, MdParityLayout,
    MdPersonality, MdRaid, MdRaid0Layout, MdRaid10Layout, MdRaid10Mode, MdRaid6DedicatedQ,
    MdRaid6Layout, ParityRotation,
};
use pdisks_storage::model::sizes::Bytes;

/// Model values carry no serialization of their own (the application's
/// transfer copies do); a model value must survive copying unchanged.
fn roundtrip<T: Clone + PartialEq + Debug>(value: &T) {
    let copy = value.clone();
    assert_eq!(&copy, value);
}

#[test]
fn mdadm_and_sysfs_md_fit_existing_raid_types() {
    let array = MdArray {
        personality: MdPersonality::Raid(MdRaid::Raid6 {
            layout: MdRaid6Layout::Standard(MdParityLayout::Rotating(
                ParityRotation::LeftSymmetric,
            )),
            chunk_size: Bytes::new(524_288),
        }),
        metadata: MdMetadata::Native(MdNativeMetadata::V1_2),
    };
    let member = MemberRole::Md(MdMember {
        role: MdMemberRole::Data,
        slot: Some(0),
        data_offset: Some(Bytes::new(1_048_576)),
    });
    roundtrip(&array);
    roundtrip(&member);
    roundtrip(&[
        MdPersonality::Raid(MdRaid::Raid0 {
            layout: MdRaid0Layout::Original,
            chunk_size: Bytes::new(64 * 1024),
        }),
        MdPersonality::Raid(MdRaid::Raid0 {
            layout: MdRaid0Layout::Alternate,
            chunk_size: Bytes::new(64 * 1024),
        }),
        MdPersonality::Raid(MdRaid::Raid0 {
            layout: MdRaid0Layout::Unspecified,
            chunk_size: Bytes::new(64 * 1024),
        }),
        MdPersonality::Raid(MdRaid::Raid1),
        MdPersonality::Raid(MdRaid::Raid4 { chunk_size: Bytes::new(64 * 1024) }),
        MdPersonality::Raid(MdRaid::Raid5 {
            layout: MdParityLayout::ParityFirst,
            chunk_size: Bytes::new(64 * 1024),
        }),
        MdPersonality::Raid(MdRaid::Raid5 {
            layout: MdParityLayout::ParityLast,
            chunk_size: Bytes::new(64 * 1024),
        }),
        MdPersonality::Raid(MdRaid::Raid6 {
            layout: MdRaid6Layout::DedicatedQ(MdRaid6DedicatedQ::ParityFirst6),
            chunk_size: Bytes::new(64 * 1024),
        }),
        MdPersonality::Raid(MdRaid::Raid10 {
            layout: MdRaid10Layout {
                mode: MdRaid10Mode::Far,
                copies: CopyCount::new(2).unwrap_or_else(|| unreachable!()),
            },
            chunk_size: Bytes::new(64 * 1024),
        }),
        MdPersonality::Linear { rounding: Some(Bytes::new(64 * 1024)) },
        MdPersonality::Multipath,
        MdPersonality::Faulty,
        MdPersonality::Container,
    ]);
    roundtrip(&[
        MdMetadata::Absent,
        MdMetadata::Native(MdNativeMetadata::V0_90),
        MdMetadata::Native(MdNativeMetadata::V1_0),
        MdMetadata::Native(MdNativeMetadata::V1_1),
        MdMetadata::Native(MdNativeMetadata::V1_2),
        MdMetadata::External(MdExternalMetadata::Ddf),
        MdMetadata::External(MdExternalMetadata::Imsm),
    ]);
    roundtrip(&[
        MdParityLayout::Rotating(ParityRotation::LeftSymmetric),
        MdParityLayout::Rotating(ParityRotation::LeftAsymmetric),
        MdParityLayout::Rotating(ParityRotation::RightSymmetric),
        MdParityLayout::Rotating(ParityRotation::RightAsymmetric),
        MdParityLayout::ParityFirst,
        MdParityLayout::ParityLast,
        MdParityLayout::DdfZeroRestart,
        MdParityLayout::DdfNRestart,
        MdParityLayout::DdfNContinue,
    ]);
    roundtrip(&[
        MdRaid6DedicatedQ::LeftSymmetric6,
        MdRaid6DedicatedQ::RightSymmetric6,
        MdRaid6DedicatedQ::LeftAsymmetric6,
        MdRaid6DedicatedQ::RightAsymmetric6,
        MdRaid6DedicatedQ::ParityFirst6,
    ]);
    roundtrip(&[MdRaid10Mode::Near, MdRaid10Mode::Offset, MdRaid10Mode::Far]);
}

#[test]
fn lvm_json_reports_fit_all_existing_lv_layouts() {
    let stripes = DataStripeCount::new(3).unwrap_or_else(|| unreachable!());
    let copies = CopyCount::new(2).unwrap_or_else(|| unreachable!());
    let kinds = [
        LvmLvKind::Linear,
        LvmLvKind::Striped { stripes },
        LvmLvKind::Raid(LvmRaid::Raid5 {
            layout: LvmRaid5Layout::Rotating(ParityRotation::RightAsymmetric),
            data_width: stripes,
            stripe_size: Bytes::new(65_536),
        }),
        LvmLvKind::Mirror { copies },
        LvmLvKind::ThinPool,
        LvmLvKind::Thin,
        LvmLvKind::Snapshot,
        LvmLvKind::CachePool,
        LvmLvKind::Cache,
        LvmLvKind::WriteCache,
        LvmLvKind::Other("vdo".into()),
    ];
    for (index, kind) in kinds.into_iter().enumerate() {
        roundtrip(&LvmLv { name: format!("lv{index}"), kind });
    }
    roundtrip(&[
        LvmRaid::Raid0 {
            variant: LvmRaid0Variant::Raid0,
            data_width: stripes,
            stripe_size: Bytes::new(64 * 1024),
        },
        LvmRaid::Raid0 {
            variant: LvmRaid0Variant::Raid0Meta,
            data_width: stripes,
            stripe_size: Bytes::new(64 * 1024),
        },
        LvmRaid::Raid1 { copies },
        LvmRaid::Raid4 { data_width: stripes, stripe_size: Bytes::new(64 * 1024) },
        LvmRaid::Raid5 {
            layout: LvmRaid5Layout::ParityN,
            data_width: stripes,
            stripe_size: Bytes::new(64 * 1024),
        },
        LvmRaid::Raid6 {
            layout: LvmRaid6Layout::DedicatedParity,
            data_width: stripes,
            stripe_size: Bytes::new(64 * 1024),
        },
        LvmRaid::Raid10 { copies, data_width: stripes, stripe_size: Bytes::new(64 * 1024) },
    ]);
    roundtrip(&[
        LvmRaid5Layout::Rotating(ParityRotation::LeftSymmetric),
        LvmRaid5Layout::Rotating(ParityRotation::LeftAsymmetric),
        LvmRaid5Layout::Rotating(ParityRotation::RightSymmetric),
        LvmRaid5Layout::Rotating(ParityRotation::RightAsymmetric),
        LvmRaid5Layout::ParityN,
    ]);
    roundtrip(&[
        LvmRaid6Layout::ZeroRestart,
        LvmRaid6Layout::NRestart,
        LvmRaid6Layout::NContinue,
        LvmRaid6Layout::DedicatedParity,
        LvmRaid6Layout::Raid5Compatible(ParityRotation::LeftSymmetric),
        LvmRaid6Layout::Raid5Compatible(ParityRotation::LeftAsymmetric),
        LvmRaid6Layout::Raid5Compatible(ParityRotation::RightSymmetric),
        LvmRaid6Layout::Raid5Compatible(ParityRotation::RightAsymmetric),
    ]);
}

#[test]
fn cryptsetup_and_device_mapper_fit_existing_crypto_and_cache_types() {
    let kinds = [
        NodeKind::LuksContainer { version: LuksVersion::Luks1 },
        NodeKind::LuksContainer { version: LuksVersion::Luks2 },
        NodeKind::DmCryptMapping { name: "cryptroot".into() },
        NodeKind::DmIntegrity { name: "integrity".into() },
        NodeKind::DmVerity { name: "verity".into() },
        NodeKind::Bcache { name: "bcache0".into(), mode: BcacheMode::Writeback },
        NodeKind::DmCache { name: "cached".into(), mode: DmCacheMode::Writethrough },
        NodeKind::DmWritecache { name: "writecache".into() },
    ];
    roundtrip(&kinds);
    roundtrip(&[
        BcacheMode::Writeback,
        BcacheMode::Writethrough,
        BcacheMode::Writearound,
        BcacheMode::Disabled,
    ]);
    roundtrip(&[DmCacheMode::Writeback, DmCacheMode::Writethrough, DmCacheMode::Passthrough]);
}

#[test]
fn btrfs_progs_fit_existing_profiles_members_and_subvolumes() {
    let mut data = BtrfsProfileSet::new();
    for profile in [
        BtrfsProfile::Single,
        BtrfsProfile::Dup,
        BtrfsProfile::Raid0,
        BtrfsProfile::Raid1,
        BtrfsProfile::Raid1C3,
        BtrfsProfile::Raid1C4,
        BtrfsProfile::Raid10,
        BtrfsProfile::Raid5,
        BtrfsProfile::Raid6,
    ] {
        data.insert(profile);
        assert!(data.contains(profile));
    }
    let mut metadata = BtrfsProfileSet::new();
    metadata.insert(BtrfsProfile::Raid1C3);
    let mut system = BtrfsProfileSet::new();
    system.insert(BtrfsProfile::Dup);
    assert!(!metadata.contains(BtrfsProfile::Dup));
    assert!(!system.contains(BtrfsProfile::Raid1C3));
    let allocation = BtrfsAllocation { data, metadata, system };
    let filesystem = NodeKind::Filesystem {
        kind: FilesystemKind::Btrfs(allocation),
        label: Some("pool".into()),
    };
    let member = BtrfsMember { devid: NonZeroU64::new(2) };
    let subvolume =
        NodeKind::BtrfsSubvolume { name: "@home".into(), read_only: true, is_default: false };
    roundtrip(&(filesystem, member, subvolume));
}

#[test]
fn zpool_and_zfs_fit_existing_pool_vdev_dataset_and_zvol_types() {
    let stripes = DataStripeCount::new(8).unwrap_or_else(|| unreachable!());
    let kinds = [
        NodeKind::ZfsPool { name: "tank".into() },
        NodeKind::ZfsVdev(ZfsVdevKind::Leaf),
        NodeKind::ZfsVdev(ZfsVdevKind::Mirror),
        NodeKind::ZfsVdev(ZfsVdevKind::RaidZ { parity: ZfsParity::One }),
        NodeKind::ZfsVdev(ZfsVdevKind::RaidZ { parity: ZfsParity::Three }),
        NodeKind::ZfsVdev(ZfsVdevKind::DRaid {
            parity: ZfsParity::Two,
            data_width: stripes,
            distributed_spares: 1,
        }),
        NodeKind::ZfsDataset { name: "tank/home".into() },
        NodeKind::ZfsVolume { name: "tank/vm".into() },
        NodeKind::ZfsVdev(ZfsVdevKind::Other("replacing".into())),
    ];
    let classes = [
        ZfsVdevClass::Data,
        ZfsVdevClass::Log,
        ZfsVdevClass::Special,
        ZfsVdevClass::Dedup,
        ZfsVdevClass::Cache,
        ZfsVdevClass::Spare,
    ];
    roundtrip(&(kinds, classes));
}

#[test]
fn graph_relations_cover_multipath_nvme_snapshots_and_replication() {
    let dependencies = [
        DependencyKind::Backs,
        DependencyKind::Contains { offset: Bytes::new(4096) },
        DependencyKind::Provides,
        DependencyKind::MemberOf(MemberRole::LvmPv),
        DependencyKind::Caches(CacheRole::Metadata),
        DependencyKind::Path,
    ];
    let relations =
        [RelationKind::SnapshotOf, RelationKind::NvmeAttachedTo, RelationKind::Replicates];
    roundtrip(&(dependencies, relations));
}
