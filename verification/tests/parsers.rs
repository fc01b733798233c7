use pdisks_storage::parse::sysfs::{SysfsDevice, SysfsOutput};
use pdisks_storage::parse::lsblk::{parse_lenient_text, parse_size_text, SizeParseError};
use pdisks_storage::parse::lvm::{
    parse_lvm, parse_size, LvmField, LvmReport, LvmReportData, LvmRow, LvmSection,
};
use pdisks_storage::parse::btrfs::parse_btrfs_subvolumes;
use pdisks_storage::parse::md::{parse_mdstat, MdState};

#[test]
fn parse_subvolume_list() {
    let content = r#"ID 256 gen 1024 top level 5 path @
ID 257 gen 1024 top level 5 path @home
ID 258 gen 1024 top level 5 path @snapshots"#;

    let subvols = parse_btrfs_subvolumes(content);
    assert_eq!(subvols.subvolumes.len(), 3);

    assert!(subvols.subvolumes.contains_key("@"));
    assert!(subvols.subvolumes.contains_key("@home"));
    assert!(subvols.subvolumes.contains_key("@snapshots"));

    let home = subvols.subvolumes.get("@home").unwrap();
    assert_eq!(home.id, 257);
}

#[test]
fn parse_simple_raid1() {
    let mdstat = r#"Personalities : [raid1]
md0 : active raid1 sdb1[1] sda1[0]
      214746752 blocks super 1.2 [2/2] [UU]

bitmap: 0/8 pages [0/8 KB], 65536k chunk"#;

    let info = parse_mdstat(mdstat);
    assert_eq!(info.arrays.len(), 1);

    let array = info.arrays.get("md0").unwrap();
    assert_eq!(array.level, "raid1");
    assert_eq!(array.total_devices, 2);
    assert_eq!(array.active_devices, 2);
    assert_eq!(array.members, vec!["sdb1", "sda1"]);
    assert_eq!(array.state, MdState::Clean);
}

#[test]
fn parse_degraded_raid1() {
    let mdstat = r#"Personalities : [raid1]
md0 : active raid1 sda2[0]
      499865088 blocks super 1.2 [2/1] [_U]
      resync = P(100.0%) speed=300000K/sec

bitmap: 0/8 pages [0/8 KB], 65536k chunk"#;

    let info = parse_mdstat(mdstat);
    assert_eq!(info.arrays.len(), 1);

    let array = info.arrays.get("md0").unwrap();
    assert_eq!(array.total_devices, 2);
    assert_eq!(array.active_devices, 1);
    assert_eq!(array.state, MdState::Degraded);
}

#[test]
fn lvm_sizes_are_scaled_and_rounded_down() {
    assert_eq!(parse_size("1024"), 1024);
    assert_eq!(parse_size("1.50g"), 1_610_612_736);
    assert_eq!(parse_size("512.00m"), 536_870_912);
    assert_eq!(parse_size("2.5K"), 2560);
    assert_eq!(parse_size("10.5x"), 10);
    assert_eq!(parse_size("<1.00t"), 0);
    assert_eq!(parse_size(" 7 "), 0);
    assert_eq!(parse_size(""), 0);
}

fn section(label: &str, fields: &[&str], rows: &[&[&str]]) -> LvmSection {
    LvmSection {
        report: LvmReportData {
            label: label.to_string(),
            fields: fields.iter().map(|f| LvmField { name: f.to_string() }).collect(),
            rows: rows
                .iter()
                .map(|r| LvmRow { values: r.iter().map(|v| v.to_string()).collect() })
                .collect(),
        },
    }
}

#[test]
fn lvm_reports_map_rows_by_key() {
    let pvs = LvmReport {
        block_device: vec![section(
            "pv",
            &["pv_name", "vg_name", "pv_size", "pv_uuid"],
            &[&["/dev/sda2", "vg0", "10.00g", "pv-1"], &["/dev/sdb", "", "1024", ""]],
        )],
    };
    let vgs = LvmReport {
        block_device: vec![section(
            "vg",
            &["vg_name", "vg_uuid", "vg_size", "vg_free"],
            &[&["vg0", "vg-uuid", "10.00g", "2.00g"]],
        )],
    };
    let lvs = LvmReport {
        block_device: vec![
            section("pv", &["lv_path"], &[&["/dev/vg0/ignored"]]),
            section(
                "lv",
                &["lv_path", "vg_name", "lv_name", "lv_size", "lv_uuid"],
                &[&["/dev/vg0/root", "vg0", "root", "8.00g", "lv-uuid"], &["/dev/vg0/x", "vg0"]],
            ),
        ],
    };

    let info = parse_lvm(&pvs, &vgs, &lvs);

    assert_eq!(info.physical_volumes.len(), 2);
    let pv = info.physical_volumes.get("/dev/sda2").expect("pv");
    assert_eq!(pv.vg_name.as_deref(), Some("vg0"));
    assert_eq!(pv.size, 10 * 1024 * 1024 * 1024);
    assert_eq!(pv.pv_uuid.as_deref(), Some("pv-1"));
    let bare = info.physical_volumes.get("/dev/sdb").expect("pv");
    assert_eq!(bare.vg_name, None);
    assert_eq!(bare.size, 1024);
    let vg = info.volume_groups.get("vg0").expect("vg");
    assert_eq!(vg.free, 2 * 1024 * 1024 * 1024);
    assert_eq!(info.logical_volumes.len(), 1);
    let lv = info.logical_volumes.get("/dev/vg0/root").expect("lv");
    assert_eq!(lv.lv_name, "root");
    assert_eq!(lv.size, 8 * 1024 * 1024 * 1024);
    assert_eq!(lv.uuid.as_deref(), Some("lv-uuid"));
}

#[test]
fn lsblk_sizes_must_be_whole_bytes() {
    assert_eq!(parse_size_text("107374182400"), Ok(107_374_182_400));
    assert_eq!(parse_size_text(" 512 "), Ok(512));
    assert_eq!(parse_size_text("1TB"), Err(SizeParseError("1TB".to_string())));
    assert_eq!(parse_size_text(""), Err(SizeParseError(String::new())));
    assert_eq!(parse_lenient_text(""), Some(None));
    assert_eq!(parse_lenient_text("2048"), Some(Some(2048)));
    assert_eq!(parse_lenient_text("x"), None);
}

#[test]
fn human_readable_size_is_error_in_live_path() {
    assert!(parse_size_text("1TB").is_err());
}

#[test]
fn empty_size_is_error() {
    assert!(parse_size_text("").is_err());
}

#[test]
fn real_empty_lvm_json_reports_map_to_no_nodes() {
    let pvs = LvmReport { block_device: vec![section("pv", &[], &[])] };
    let vgs = LvmReport { block_device: vec![section("vg", &[], &[])] };
    let lvs = LvmReport { block_device: vec![section("lv", &[], &[])] };
    for (report, label) in [(&pvs, "pv"), (&vgs, "vg"), (&lvs, "lv")] {
        assert_eq!(report.block_device[0].report.label, label);
        assert_eq!(report.block_device[0].report.rows.len(), 0);
    }
    let info = parse_lvm(&pvs, &vgs, &lvs);
    assert_eq!(info.physical_volumes.len(), 0);
    assert_eq!(info.volume_groups.len(), 0);
    assert_eq!(info.logical_volumes.len(), 0);
}

fn sysfs_device(name: &str, major: u32) -> SysfsDevice {
    SysfsDevice {
        name: name.to_string(),
        path: format!("/sys/block/{name}"),
        major,
        minor: 0,
        size_bytes: 512,
        logical_block_size: 512,
        physical_block_size: 4096,
        model: None,
        serial: None,
        wwn: None,
        rotational: false,
        removable: false,
        read_only: false,
    }
}

#[test]
fn borrowed_sysfs_lookup_matches_owned_map() {
    let devices = vec![sysfs_device("a", 1), sysfs_device("b", 8), sysfs_device("a", 2)];
    let borrowed = SysfsOutput { devices: devices.clone() };
    let owned = SysfsOutput { devices }.into_info();
    let view = borrowed.info_ref();
    assert_eq!(view.get("a").map(|d| d.major), Some(2));
    assert_eq!(owned.devices.get("a").map(|d| d.major), Some(2));
    assert_eq!(view.get("b").map(|d| d.major), Some(8));
    assert!(view.get("c").is_none());
    assert!(owned.devices.get("c").is_none());
}
