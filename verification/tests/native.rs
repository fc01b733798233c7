use pdisks_storage::provider::native::symbol_name;
use pdisks_storage::probe::linux::filesystem_kind;
use pdisks_storage::provider::entries::NativeDeviceNumber;
use pdisks_storage::provider::native::decode_devno;

#[test]
fn decodes_linux_device_numbers() {
    assert_eq!(
        decode_devno((259_u64 << 8) | 3),
        NativeDeviceNumber {
            major: 259,
            minor: 3
        }
    );
}

#[test]
fn decoding_inverts_the_kernel_encoding() {
    // makedev(0x12345, 0x6789a)
    assert_eq!(
        decode_devno(0x0001_2000_6783_459a),
        NativeDeviceNumber { major: 0x12345, minor: 0x6789a }
    );
    assert_eq!(decode_devno(0), NativeDeviceNumber { major: 0, minor: 0 });
}

#[test]
fn filesystem_names_round_trip() {
    for name in ["ext4", "xfs", "btrfs", "vfat", "ntfs", "exfat", "bcachefs"] {
        assert_eq!(filesystem_kind(name).as_str(), name);
    }
    assert_eq!(filesystem_kind("fat32").as_str(), "vfat");
}

#[test]
fn symbol_names_drop_the_terminator() {
    assert_eq!(symbol_name(b"udev_new\0"), "udev_new");
    assert_eq!(symbol_name(b"plain"), "plain");
    assert_eq!(symbol_name(b"\xff\0"), "invalid symbol name");
}
