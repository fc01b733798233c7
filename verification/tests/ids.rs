use pdisks_storage::model::block::ExternalId;
use pdisks_storage::model::node::NodeId;
use pdisks_storage::parse::lsblk::LsblkDevice;
use pdisks_storage::probe::cli::{block_facts, block_identity, device_path};
use pdisks_storage::probe::ids::{
    block_node_id, content_node_id, fnv1a, stable_node_id, uuid_from_bytes, HIGH_SEED, LOW_SEED,
};

#[test]
fn stable_identity_follows_the_fnv_formula() {
    assert_eq!(stable_node_id("block", "sda").0, 0xbd11_7d79_8f6e_1a80_9f27_6f1a_7dc9_0ad9);
    assert_eq!(block_node_id("/dev/sda").0, 0xf615_5e89_0b74_f2c3_80b8_f7be_d9ae_a662);
    assert_eq!(block_node_id("/dev/sda"), stable_node_id("block-path", "/dev/sda"));
    assert_eq!(content_node_id("/dev/sda"), stable_node_id("content-path", "/dev/sda"));
    assert_ne!(block_node_id("/dev/sda"), content_node_id("/dev/sda"));
    assert_eq!(stable_node_id("block", "sda"), stable_node_id("block", "sda"));
}

#[test]
fn fnv1a_hashes_bytes() {
    assert_eq!(fnv1a(HIGH_SEED, b""), HIGH_SEED);
    assert_eq!(fnv1a(LOW_SEED, b""), LOW_SEED);
    assert_eq!(fnv1a(HIGH_SEED, b"a"), 0xaf63_dc4c_8601_ec8c);
}

#[test]
fn uuid_bytes_are_big_endian() {
    let bytes = [0u8, 1, 2, 3, 4, 5, 6, 7, 8, 9, 10, 11, 12, 13, 14, 15];
    assert_eq!(uuid_from_bytes(bytes), 0x0001_0203_0405_0607_0809_0a0b_0c0d_0e0f);
    assert_eq!(uuid_from_bytes([0xff; 16]), u128::MAX);
}

#[test]
fn fresh_node_ids_are_version_7() {
    let id = NodeId::new();
    assert_eq!((id.0 >> 76) & 0xf, 7);
    assert_eq!((id.0 >> 62) & 0x3, 2);
    assert_eq!(NodeId::from_uuid(42).as_uuid(), 42);
}

fn part(partuuid: &str) -> LsblkDevice {
    LsblkDevice {
        name: "sda1".to_string(),
        path: None,
        maj_min: Some("8:1".to_string()),
        size: 1024,
        kind: "part".to_string(),
        mountpoint: None,
        mountpoints: None,
        uuid: None,
        partuuid: Some(partuuid.to_string()),
        fstype: None,
        parttype: None,
        label: None,
        pttype: None,
        start: None,
        ro: Some("1".to_string()),
        log_sectorsize: None,
        phys_sectorsize: Some("4096".to_string()),
        wwn: None,
        children: Vec::new(),
    }
}

#[test]
fn partition_uuid_becomes_an_identity_when_valid() {
    let device = part("a1b2c3d4-0000-4000-8000-000000000001");
    assert_eq!(device_path(&device), "/dev/sda1");
    assert_eq!(block_identity(&device, None), "a1b2c3d4-0000-4000-8000-000000000001");
    let facts = block_facts(&device, None, "/dev/sda1", 512);
    assert_eq!(
        facts.identities,
        vec![ExternalId::GptPartitionUuid(0xa1b2_c3d4_0000_4000_8000_0000_0000_0001)]
    );
    let block = facts.block.expect("block facts");
    assert_eq!(block.devno.major, 8);
    assert_eq!(block.devno.minor, 1);
    assert_eq!(block.read_only, Some(true));
    assert_eq!(block.paths, vec!["/dev/sda1".to_string()]);

    let invalid = part("a1b2c3d4-0001");
    assert!(block_facts(&invalid, None, "/dev/sda1", 512).identities.is_empty());
}
