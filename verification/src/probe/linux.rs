//! Classification of Linux provider observations into canonical kinds.

use vstd::prelude::*;
use vstd::string::StringExecFns;

use crate::collections::str_eq;
use crate::model::block::{ExternalId, Transport};
use crate::model::kinds::{
    empty_btrfs_allocation, BtrfsAllocation, FilesystemKind, LvmLvKind, PartitionTable,
};
use crate::model::node::NodeKind;
use crate::model::raid::{
    MdArray, MdExternalMetadata, MdMetadata, MdNativeMetadata, MdPersonality, MdRaid,
    MdRaid0Layout,
};
use crate::model::sizes::Bytes;
use crate::model::state::{Diagnostic, DiagnosticSeverity, MountContext, MountSource, NetworkMountSource, ObservedMount};
use crate::probe::assemble::{diagnostic_is, ProviderState};
use crate::probe::ids::{be_value, content_id, content_node_id, uuid_from_bytes};
use crate::provider::entries::{
    DevmapperEntry, LibmountEntry, MdraidArrayEntry, MdraidMemberEntry, NvmeNamespaceEntry,
    UdevBlockEntry,
};
use crate::text::{
    chars_of, decimal, decimal_string, has_prefix, is_alnum, is_digit, parse_u32,
    parse_unsigned, push_char, split_once, split_once_str, str_starts_with, strip_prefix,
    strip_prefix_str,
};

verus! {

/// Filesystem kind named by a signature type, when the name is known.
pub open spec fn known_filesystem(s: Seq<char>) -> Option<FilesystemKind> {
    if s == "ext2"@ {
        Some(FilesystemKind::Ext2)
    } else if s == "ext3"@ {
        Some(FilesystemKind::Ext3)
    } else if s == "ext4"@ {
        Some(FilesystemKind::Ext4)
    } else if s == "xfs"@ {
        Some(FilesystemKind::Xfs)
    } else if s == "btrfs"@ {
        Some(FilesystemKind::Btrfs(empty_btrfs_allocation()))
    } else if s == "jfs"@ {
        Some(FilesystemKind::Jfs)
    } else if s == "reiserfs"@ {
        Some(FilesystemKind::Reiserfs)
    } else if s == "vfat"@ || s == "fat16"@ || s == "fat32"@ {
        Some(FilesystemKind::Vfat)
    } else if s == "ntfs"@ {
        Some(FilesystemKind::Ntfs)
    } else if s == "exfat"@ {
        Some(FilesystemKind::Exfat)
    } else if s == "f2fs"@ {
        Some(FilesystemKind::F2fs)
    } else if s == "ocfs2"@ {
        Some(FilesystemKind::Ocfs2)
    } else if s == "gfs2"@ {
        Some(FilesystemKind::Gfs2)
    } else if s == "apfs"@ {
        Some(FilesystemKind::Apfs)
    } else {
        None
    }
}

/// `k` is the kind that signature type `s` names: a known kind, or the
/// name itself kept as `Other`.
pub open spec fn is_filesystem_kind_of(k: FilesystemKind, s: Seq<char>) -> bool {
    match known_filesystem(s) {
        Some(x) => k == x,
        None => k matches FilesystemKind::Other(o) && o@ == s,
    }
}

/// Maps a filesystem name without inventing provider-specific allocation data.
pub fn filesystem_kind(fstype: &str) -> (r: FilesystemKind)
    ensures
        is_filesystem_kind_of(r, fstype@),
{
    if str_eq(fstype, "ext2") {
        FilesystemKind::Ext2
    } else if str_eq(fstype, "ext3") {
        FilesystemKind::Ext3
    } else if str_eq(fstype, "ext4") {
        FilesystemKind::Ext4
    } else if str_eq(fstype, "xfs") {
        FilesystemKind::Xfs
    } else if str_eq(fstype, "btrfs") {
        FilesystemKind::Btrfs(BtrfsAllocation::empty())
    } else if str_eq(fstype, "jfs") {
        FilesystemKind::Jfs
    } else if str_eq(fstype, "reiserfs") {
        FilesystemKind::Reiserfs
    } else if str_eq(fstype, "vfat") || str_eq(fstype, "fat16") || str_eq(fstype, "fat32") {
        FilesystemKind::Vfat
    } else if str_eq(fstype, "ntfs") {
        FilesystemKind::Ntfs
    } else if str_eq(fstype, "exfat") {
        FilesystemKind::Exfat
    } else if str_eq(fstype, "f2fs") {
        FilesystemKind::F2fs
    } else if str_eq(fstype, "ocfs2") {
        FilesystemKind::Ocfs2
    } else if str_eq(fstype, "gfs2") {
        FilesystemKind::Gfs2
    } else if str_eq(fstype, "apfs") {
        FilesystemKind::Apfs
    } else {
        FilesystemKind::Other(fstype.to_string())
    }
}

/// Naming the kind read from a signature type gives the type back, except
/// for the FAT aliases `fat16` and `fat32`, which are read as `vfat`.
pub proof fn law_filesystem_name_round_trip(k: FilesystemKind, s: Seq<char>)
    requires
        is_filesystem_kind_of(k, s),
        s != "fat16"@,
        s != "fat32"@,
    ensures
        crate::model::kinds::filesystem_name(k) == s,
{
}

/// `m` is the typed form of the non-block mount source `source` of
/// filesystem type `fstype`.
pub open spec fn is_external_source(m: MountSource, source: Seq<char>, fstype: Seq<char>) -> bool {
    if fstype == "tmpfs"@ {
        m == MountSource::Tmpfs
    } else if fstype == "nfs"@ || fstype == "nfs4"@ {
        match split_once(source, ':') {
            Some((server, export)) => m matches MountSource::Network(
                NetworkMountSource::Nfs { server: s, export: e },
            ) && s@ == server && e@ == export,
            None => m matches MountSource::Other(o) && o@ == source,
        }
    } else if fstype == "cifs"@ {
        match strip_prefix(source, "//"@) {
            Some(rest) => match split_once(rest, '/') {
                Some((server, share)) => m matches MountSource::Network(
                    NetworkMountSource::Cifs { server: s, share: e },
                ) && s@ == server && e@ == share,
                None => m matches MountSource::Other(o) && o@ == source,
            },
            None => m matches MountSource::Other(o) && o@ == source,
        }
    } else {
        m matches MountSource::Other(o) && o@ == source
    }
}

/// Converts a non-block mount source into its typed representation.
pub fn external_mount_source(source: &str, fstype: &str) -> (r: MountSource)
    ensures
        is_external_source(r, source@, fstype@),
{
    if str_eq(fstype, "tmpfs") {
        MountSource::Tmpfs
    } else if str_eq(fstype, "nfs") || str_eq(fstype, "nfs4") {
        match split_once_str(source, ':') {
            Some((server, export)) => MountSource::Network(
                NetworkMountSource::Nfs { server, export },
            ),
            None => MountSource::Other(source.to_string()),
        }
    } else if str_eq(fstype, "cifs") {
        match strip_prefix_str(source, "//") {
            Some(rest) => match split_once_str(rest.as_str(), '/') {
                Some((server, share)) => MountSource::Network(
                    NetworkMountSource::Cifs { server, share },
                ),
                None => MountSource::Other(source.to_string()),
            },
            None => MountSource::Other(source.to_string()),
        }
    } else {
        MountSource::Other(source.to_string())
    }
}

/// Table kind named by a libfdisk label.
pub open spec fn partition_table_named(label: Seq<char>) -> Option<PartitionTable> {
    if label == "gpt"@ {
        Some(PartitionTable::Gpt)
    } else if label == "dos"@ {
        Some(PartitionTable::Mbr)
    } else {
        None
    }
}

/// Maps libfdisk label names to the canonical table kind.
pub fn native_partition_table(label: &str) -> (r: Option<PartitionTable>)
    ensures
        r == partition_table_named(label@),
{
    if str_eq(label, "gpt") {
        Some(PartitionTable::Gpt)
    } else if str_eq(label, "dos") {
        Some(PartitionTable::Mbr)
    } else {
        None
    }
}

/// Conventional Linux path of partition `number` of `device`: a `p` is
/// inserted when the device name ends in a digit.
pub open spec fn partition_path_of(device: Seq<char>, number: u32) -> Seq<char> {
    device + (if device.len() > 0 && is_digit(device.last()) {
        "p"@
    } else {
        Seq::empty()
    }) + decimal(number as nat)
}

/// A partition's path starts with its device's path. When the device's name
/// ends in an ASCII digit a `p` follows, then the partition number in
/// decimal; otherwise the number follows directly.
pub proof fn law_partition_path_separator(device: Seq<char>, number: u32)
    ensures
        ({
            let path = partition_path_of(device, number);
            let ends_in_digit = device.len() > 0 && '0' <= device.last() <= '9';
            &&& path.take(device.len() as int) == device
            &&& ends_in_digit ==> path.len() == device.len() + 1 + decimal(number as nat).len()
                && path[device.len() as int] == 'p' && path.skip(device.len() as int + 1) == decimal(
                number as nat,
            )
            &&& !ends_in_digit ==> path.len() == device.len() + decimal(number as nat).len()
                && path.skip(device.len() as int) == decimal(number as nat)
        }),
{
    reveal_strlit("p");
    let path = partition_path_of(device, number);
    let d = decimal(number as nat);
    assert(path.take(device.len() as int) =~= device);
    if device.len() > 0 && '0' <= device.last() <= '9' {
        assert(path.skip(device.len() as int + 1) =~= d);
    } else {
        assert(path.skip(device.len() as int) =~= d);
    }
}

/// Derives the conventional Linux partition device path.
pub fn partition_path(device: &str, number: u32) -> (r: String)
    ensures
        r@ == partition_path_of(device@, number),
{
    let v = chars_of(device);
    let mut path = String::from_str(device);
    if v.len() > 0 && '0' <= v[v.len() - 1] && v[v.len() - 1] <= '9' {
        path.append("p");
    }
    let digits = decimal_string(number as u64);
    path.append(digits.as_str());
    proof {
        reveal_strlit("p");
    }
    path
}

/// The trailing ASCII digits of a name.
pub open spec fn trailing_digits(s: Seq<char>) -> Seq<char>
    decreases s.len(),
{
    if s.len() > 0 && is_digit(s.last()) {
        trailing_digits(s.drop_last()).push(s.last())
    } else {
        Seq::empty()
    }
}

/// Number of a partition from its device name: the trailing digits read as
/// a `u32`, or 0 when there are none or they do not fit.
pub open spec fn partition_number_of(name: Seq<char>) -> u32 {
    match parse_unsigned(trailing_digits(name), u32::MAX as nat) {
        Some(v) => v as u32,
        None => 0,
    }
}

/// Extracts the trailing partition number from a Linux device name.
pub fn partition_number(name: &str) -> (r: u32)
    ensures
        r == partition_number_of(name@),
{
    let v = chars_of(name);
    let mut start = v.len();
    assert(v@.take(v@.len() as int) =~= v@);
    assert(v@.skip(v@.len() as int) =~= Seq::<char>::empty());
    assert(trailing_digits(v@) =~= trailing_digits(v@) + Seq::<char>::empty());
    while start > 0 && '0' <= v[start - 1] && v[start - 1] <= '9'
        invariant
            start <= v@.len(),
            trailing_digits(v@) == trailing_digits(v@.take(start as int)) + v@.skip(
                start as int,
            ),
        decreases start,
    {
        proof {
            let t = v@.take(start as int);
            assert(t.drop_last() =~= v@.take(start - 1));
            assert(v@.skip(start - 1) =~= seq![t.last()] + v@.skip(start as int));
            assert(trailing_digits(t) == trailing_digits(t.drop_last()).push(t.last()));
        }
        start = start - 1;
    }
    proof {
        let t = v@.take(start as int);
        assert(trailing_digits(t) =~= Seq::<char>::empty());
        assert(trailing_digits(v@) =~= v@.skip(start as int));
    }
    let digits = crate::text::subvec(v.as_slice(), start, v.len());
    match crate::text::parse_unsigned_chars(digits.as_slice(), u32::MAX as u64) {
        Some(x) => x as u32,
        None => 0,
    }
}

/// A `major:minor` device number, each part read as a `u32`.
pub open spec fn devno_of(value: Option<Seq<char>>) -> Option<(u32, u32)> {
    match value {
        None => None,
        Some(v) => match split_once(v, ':') {
            None => None,
            Some((a, b)) => match (
                parse_unsigned(a, u32::MAX as nat),
                parse_unsigned(b, u32::MAX as nat),
            ) {
                (Some(x), Some(y)) => Some((x as u32, y as u32)),
                _ => None,
            },
        },
    }
}

/// Text of an optional string slice.
pub open spec fn opt_str_view(o: Option<&str>) -> Option<Seq<char>> {
    match o {
        Some(s) => Some(s@),
        None => None,
    }
}

/// Parses a `major:minor` device number.
pub fn parse_devno(value: Option<&str>) -> (r: Option<(u32, u32)>)
    ensures
        r == devno_of(opt_str_view(value)),
{
    let v = match value {
        Some(v) => v,
        None => return None,
    };
    let (major, minor) = match split_once_str(v, ':') {
        Some(parts) => parts,
        None => return None,
    };
    let major = match parse_u32(major.as_str()) {
        Some(x) => x,
        None => return None,
    };
    let minor = match parse_u32(minor.as_str()) {
        Some(x) => x,
        None => return None,
    };
    Some((major, minor))
}

/// An optional decimal `u32` field.
pub open spec fn u32_of(value: Option<Seq<char>>) -> Option<u32> {
    match value {
        Some(v) => match parse_unsigned(v, u32::MAX as nat) {
            Some(x) => Some(x as u32),
            None => None,
        },
        None => None,
    }
}

/// Parses an optional decimal u32 field.
pub fn parsed_u32(value: Option<&str>) -> (r: Option<u32>)
    ensures
        r == u32_of(opt_str_view(value)),
{
    match value {
        Some(v) => parse_u32(v),
        None => None,
    }
}

/// Coarse transport implied by a Linux kernel device name.
pub open spec fn transport_of(name: Seq<char>) -> Option<Transport> {
    if has_prefix(name, "nvme"@) {
        Some(Transport::Nvme)
    } else if has_prefix(name, "sd"@) {
        Some(Transport::Scsi)
    } else if has_prefix(name, "vd"@) {
        Some(Transport::Virtio)
    } else if has_prefix(name, "mmcblk"@) {
        Some(Transport::Mmc)
    } else {
        None
    }
}

/// Infers a coarse transport from the Linux kernel device name.
pub fn transport(name: &str) -> (r: Option<Transport>)
    ensures
        r == transport_of(name@),
{
    if str_starts_with(name, "nvme") {
        Some(Transport::Nvme)
    } else if str_starts_with(name, "sd") {
        Some(Transport::Scsi)
    } else if str_starts_with(name, "vd") {
        Some(Transport::Virtio)
    } else if str_starts_with(name, "mmcblk") {
        Some(Transport::Mmc)
    } else {
        None
    }
}

/// `k` is the logical-volume kind that LVM segment type `segment` names
/// (`linear` when absent).
pub open spec fn is_lv_kind_of(k: LvmLvKind, segment: Option<Seq<char>>) -> bool {
    let s = match segment {
        Some(s) => s,
        None => "linear"@,
    };
    if s == "linear"@ {
        k == LvmLvKind::Linear
    } else if s == "thin-pool"@ {
        k == LvmLvKind::ThinPool
    } else if s == "thin"@ {
        k == LvmLvKind::Thin
    } else if s == "snapshot"@ {
        k == LvmLvKind::Snapshot
    } else if s == "cache-pool"@ {
        k == LvmLvKind::CachePool
    } else if s == "cache"@ {
        k == LvmLvKind::Cache
    } else if s == "writecache"@ {
        k == LvmLvKind::WriteCache
    } else {
        k matches LvmLvKind::Other(o) && o@ == s
    }
}

/// Maps LVM segment names that do not require missing geometry fields.
pub fn lvm_lv_kind(segment_type: Option<&str>) -> (r: LvmLvKind)
    ensures
        is_lv_kind_of(r, opt_str_view(segment_type)),
{
    let s = match segment_type {
        Some(s) => s,
        None => "linear",
    };
    if str_eq(s, "linear") {
        LvmLvKind::Linear
    } else if str_eq(s, "thin-pool") {
        LvmLvKind::ThinPool
    } else if str_eq(s, "thin") {
        LvmLvKind::Thin
    } else if str_eq(s, "snapshot") {
        LvmLvKind::Snapshot
    } else if str_eq(s, "cache-pool") {
        LvmLvKind::CachePool
    } else if str_eq(s, "cache") {
        LvmLvKind::Cache
    } else if str_eq(s, "writecache") {
        LvmLvKind::WriteCache
    } else {
        LvmLvKind::Other(s.to_string())
    }
}

/// ASCII lower case of a character (`char::to_ascii_lowercase`).
pub open spec fn ascii_lower(c: char) -> char {
    if 'A' <= c <= 'Z' {
        ((c as int) + 32) as char
    } else {
        c
    }
}

/// ASCII lower case of a text (`str::to_ascii_lowercase`).
pub open spec fn ascii_lowercase(s: Seq<char>) -> Seq<char> {
    s.map_values(|c: char| ascii_lower(c))
}

fn lower_char(c: char) -> (r: char)
    ensures
        r == ascii_lower(c),
{
    if 'A' <= c && c <= 'Z' {
        let n = (c as u32) + 32;
        assert(('a' as u32) <= n <= ('z' as u32));
        proof {
            assert(n as char == ((c as int) + 32) as char);
        }
        char_from_ascii(n)
    } else {
        c
    }
}

fn char_from_ascii(n: u32) -> (r: char)
    requires
        ('a' as u32) <= n <= ('z' as u32),
    ensures
        r == n as char,
{
    let chars = "abcdefghijklmnopqrstuvwxyz";
    proof {
        reveal_strlit("abcdefghijklmnopqrstuvwxyz");
    }
    let v = chars_of(chars);
    let i = (n - ('a' as u32)) as usize;
    assert(v@[i as int] == "abcdefghijklmnopqrstuvwxyz"@[i as int]);
    v[i]
}

/// `str::to_ascii_lowercase`.
pub fn to_ascii_lowercase(s: &str) -> (r: String)
    ensures
        r@ == ascii_lowercase(s@),
{
    let v = chars_of(s);
    let mut r = String::new();
    let mut i: usize = 0;
    while i < v.len()
        invariant
            i <= v@.len(),
            r@ == ascii_lowercase(v@.take(i as int)),
        decreases v.len() - i,
    {
        push_char(&mut r, lower_char(v[i]));
        assert(ascii_lowercase(v@.take(i + 1)) =~= ascii_lowercase(v@.take(i as int)).push(
            ascii_lower(v@[i as int]),
        ));
        i = i + 1;
    }
    assert(v@.take(v@.len() as int) =~= v@);
    r
}

/// Superblock format named by an MD metadata version, compared without
/// regard to ASCII case; unknown or absent names give `Absent`.
pub open spec fn md_metadata_of(metadata: Option<Seq<char>>) -> MdMetadata {
    let s = ascii_lowercase(
        match metadata {
            Some(m) => m,
            None => Seq::empty(),
        },
    );
    if s == "0.90"@ {
        MdMetadata::Native(MdNativeMetadata::V0_90)
    } else if s == "1.0"@ {
        MdMetadata::Native(MdNativeMetadata::V1_0)
    } else if s == "1.1"@ {
        MdMetadata::Native(MdNativeMetadata::V1_1)
    } else if s == "1.2"@ {
        MdMetadata::Native(MdNativeMetadata::V1_2)
    } else if s == "ddf"@ {
        MdMetadata::External(MdExternalMetadata::Ddf)
    } else if s == "imsm"@ {
        MdMetadata::External(MdExternalMetadata::Imsm)
    } else {
        MdMetadata::Absent
    }
}

/// Maps MD superblock names without guessing unknown formats.
pub fn md_metadata(metadata: Option<&str>) -> (r: MdMetadata)
    ensures
        r == md_metadata_of(opt_str_view(metadata)),
{
    let s = match metadata {
        Some(m) => to_ascii_lowercase(m),
        None => {
            let e = String::new();
            assert(ascii_lowercase(Seq::<char>::empty()) =~= Seq::<char>::empty());
            e
        },
    };
    let t = s.as_str();
    if str_eq(t, "0.90") {
        MdMetadata::Native(MdNativeMetadata::V0_90)
    } else if str_eq(t, "1.0") {
        MdMetadata::Native(MdNativeMetadata::V1_0)
    } else if str_eq(t, "1.1") {
        MdMetadata::Native(MdNativeMetadata::V1_1)
    } else if str_eq(t, "1.2") {
        MdMetadata::Native(MdNativeMetadata::V1_2)
    } else if str_eq(t, "ddf") {
        MdMetadata::External(MdExternalMetadata::Ddf)
    } else if str_eq(t, "imsm") {
        MdMetadata::External(MdExternalMetadata::Imsm)
    } else {
        MdMetadata::Absent
    }
}

/// A provider UUID with punctuation removed and ASCII letters lower-cased,
/// for comparison across libraries.
pub open spec fn normalized_uuid(s: Seq<char>) -> Seq<char>
    decreases s.len(),
{
    if s.len() == 0 {
        Seq::empty()
    } else {
        let prev = normalized_uuid(s.drop_last());
        if is_alnum(s.last()) {
            prev.push(ascii_lower(s.last()))
        } else {
            prev
        }
    }
}

/// Normalizes provider UUID punctuation for cross-library comparison.
pub fn normalized_native_uuid(value: &str) -> (r: String)
    ensures
        r@ == normalized_uuid(value@),
{
    let v = chars_of(value);
    let mut r = String::new();
    let mut i: usize = 0;
    while i < v.len()
        invariant
            i <= v@.len(),
            r@ == normalized_uuid(v@.take(i as int)),
        decreases v.len() - i,
    {
        let c = v[i];
        assert(v@.take(i + 1).drop_last() =~= v@.take(i as int));
        if ('0' <= c && c <= '9') || ('a' <= c && c <= 'z') || ('A' <= c && c <= 'Z') {
            push_char(&mut r, lower_char(c));
        }
        i = i + 1;
    }
    assert(v@.take(v@.len() as int) =~= v@);
    r
}

/// Whether one of the mapping's targets is `t`.
pub open spec fn has_target(targets: Seq<String>, t: Seq<char>) -> bool {
    exists|i: int| 0 <= i < targets.len() && (#[trigger] targets[i])@ == t
}

pub(crate) fn targets_include(targets: &Vec<String>, t: &str) -> (r: bool)
    ensures
        r == has_target(targets@, t@),
{
    let mut i: usize = 0;
    while i < targets.len()
        invariant
            i <= targets@.len(),
            forall|j: int| 0 <= j < i ==> (#[trigger] targets@[j])@ != t@,
        decreases targets.len() - i,
    {
        if str_eq(targets[i].as_str(), t) {
            return true;
        }
        i = i + 1;
    }
    false
}

/// Texts joined by `sep` (`[String]::join`).
pub open spec fn joined(parts: Seq<String>, sep: Seq<char>) -> Seq<char>
    decreases parts.len(),
{
    if parts.len() == 0 {
        Seq::empty()
    } else if parts.len() == 1 {
        parts[0]@
    } else {
        joined(parts.drop_last(), sep) + sep + parts.last()@
    }
}

fn join_strings(parts: &Vec<String>, sep: &str) -> (r: String)
    ensures
        r@ == joined(parts@, sep@),
{
    let mut r = String::new();
    let mut i: usize = 0;
    while i < parts.len()
        invariant
            i <= parts@.len(),
            r@ == joined(parts@.take(i as int), sep@),
        decreases parts.len() - i,
    {
        assert(parts@.take(i + 1).drop_last() =~= parts@.take(i as int));
        if i > 0 {
            r.append(sep);
        }
        r.append(parts[i].as_str());
        i = i + 1;
    }
    assert(parts@.take(parts@.len() as int) =~= parts@);
    r
}

/// `k` is the kind of a live mapping with the given targets and name.
pub open spec fn is_devmapper_kind(k: NodeKind, targets: Seq<String>, name: Seq<char>) -> bool {
    if has_target(targets, "crypt"@) {
        k matches NodeKind::DmCryptMapping { name: n } && n@ == name
    } else if has_target(targets, "integrity"@) {
        k matches NodeKind::DmIntegrity { name: n } && n@ == name
    } else if has_target(targets, "verity"@) {
        k matches NodeKind::DmVerity { name: n } && n@ == name
    } else if has_target(targets, "multipath"@) {
        k == NodeKind::DmMultipath
    } else if has_target(targets, "writecache"@) {
        k matches NodeKind::DmWritecache { name: n } && n@ == name
    } else {
        k matches NodeKind::Unknown(u) && u@ == "device-mapper:"@ + joined(targets, "+"@)
    }
}

/// Classifies a live mapping from its kernel target types.
pub fn devmapper_kind(entry: &DevmapperEntry) -> (r: NodeKind)
    ensures
        is_devmapper_kind(r, entry.targets@, entry.name@),
{
    if targets_include(&entry.targets, "crypt") {
        NodeKind::DmCryptMapping { name: entry.name.clone() }
    } else if targets_include(&entry.targets, "integrity") {
        NodeKind::DmIntegrity { name: entry.name.clone() }
    } else if targets_include(&entry.targets, "verity") {
        NodeKind::DmVerity { name: entry.name.clone() }
    } else if targets_include(&entry.targets, "multipath") {
        NodeKind::DmMultipath
    } else if targets_include(&entry.targets, "writecache") {
        NodeKind::DmWritecache { name: entry.name.clone() }
    } else {
        let mut s = String::from_str("device-mapper:");
        let j = join_strings(&entry.targets, "+");
        s.append(j.as_str());
        NodeKind::Unknown(s)
    }
}

/// Text of an optional string.
pub open spec fn opt_string_view(o: Option<String>) -> Option<Seq<char>> {
    match o {
        Some(s) => Some(s@),
        None => None,
    }
}

/// `k` is the most specific kind the block layer gives an endpoint.
pub open spec fn is_endpoint_kind(k: NodeKind, sysname: Seq<char>, devtype: Option<Seq<char>>) -> bool {
    if has_prefix(sysname, "loop"@) {
        k matches NodeKind::Loop { backing_file: None }
    } else if has_prefix(sysname, "zram"@) {
        k == NodeKind::Zram
    } else if devtype == Some("disk"@) {
        k == NodeKind::Disk
    } else {
        k matches NodeKind::Unknown(u) && u@ == "udev block endpoint"@
    }
}

/// Maps a native endpoint to the most specific kind owned by the block layer.
pub fn native_endpoint_kind(endpoint: &UdevBlockEntry) -> (r: NodeKind)
    ensures
        is_endpoint_kind(r, endpoint.sysname@, opt_string_view(endpoint.devtype)),
{
    if str_starts_with(endpoint.sysname.as_str(), "loop") {
        NodeKind::Loop { backing_file: None }
    } else if str_starts_with(endpoint.sysname.as_str(), "zram") {
        NodeKind::Zram
    } else if is_disk(&endpoint.devtype) {
        NodeKind::Disk
    } else {
        NodeKind::Unknown("udev block endpoint".to_string())
    }
}

/// Whether a udev device type is `disk`.
pub fn is_disk(devtype: &Option<String>) -> (r: bool)
    ensures
        r == (opt_string_view(*devtype) == Some("disk"@)),
{
    match devtype {
        Some(t) => str_eq(t.as_str(), "disk"),
        None => false,
    }
}

/// Identities of an NVMe namespace, in the order NGUID, EUI-64, UUID, for
/// those it reports.
pub open spec fn is_nvme_identities(ids: Seq<ExternalId>, ns: NvmeNamespaceEntry) -> bool {
    let a: Seq<ExternalId> = match ns.nguid {
        Some(g) => seq![ExternalId::NvmeNguid(g)],
        None => Seq::empty(),
    };
    let b: Seq<ExternalId> = match ns.eui64 {
        Some(e) => seq![ExternalId::NvmeEui64(e)],
        None => Seq::empty(),
    };
    let c: Seq<ExternalId> = match ns.uuid {
        Some(u) => seq![ExternalId::NvmeUuid(be_value(u@) as u128)],
        None => Seq::empty(),
    };
    ids == a + b + c
}

/// Converts libnvme identifiers into canonical external IDs.
pub fn nvme_identities(namespace: &NvmeNamespaceEntry) -> (r: Vec<ExternalId>)
    ensures
        is_nvme_identities(r@, *namespace),
{
    let mut identities: Vec<ExternalId> = Vec::new();
    if let Some(nguid) = namespace.nguid {
        identities.push(ExternalId::NvmeNguid(nguid));
    }
    if let Some(eui64) = namespace.eui64 {
        identities.push(ExternalId::NvmeEui64(eui64));
    }
    if let Some(uuid) = namespace.uuid {
        identities.push(ExternalId::NvmeUuid(uuid_from_bytes(uuid)));
    }
    proof {
        let ns = *namespace;
        let a: Seq<ExternalId> = match ns.nguid {
            Some(g) => seq![ExternalId::NvmeNguid(g)],
            None => Seq::empty(),
        };
        let b: Seq<ExternalId> = match ns.eui64 {
            Some(e) => seq![ExternalId::NvmeEui64(e)],
            None => Seq::empty(),
        };
        let c: Seq<ExternalId> = match ns.uuid {
            Some(u) => seq![ExternalId::NvmeUuid(be_value(u@) as u128)],
            None => Seq::empty(),
        };
        assert(identities@ =~= a + b + c);
    }
    identities
}

/// `m` is the canonical form of a libmount record: a `/dev/` source is the
/// content on that path, any other source is typed by filesystem type.
pub open spec fn is_observed_mount(m: ObservedMount, e: LibmountEntry) -> bool {
    &&& if has_prefix(e.source@, "/dev/"@) {
        m.source == MountSource::Filesystem(content_id(e.source@))
    } else {
        is_external_source(m.source, e.source@, e.filesystem_type@)
    }
    &&& m.target == e.target
    &&& m.options == e.options
    &&& m.context == MountContext::Host
}

/// Converts one native libmount record into the canonical mount model.
pub fn observed_mount(entry: LibmountEntry) -> (r: ObservedMount)
    ensures
        is_observed_mount(r, entry),
{
    let source = if str_starts_with(entry.source.as_str(), "/dev/") {
        MountSource::Filesystem(content_node_id(entry.source.as_str()))
    } else {
        external_mount_source(entry.source.as_str(), entry.filesystem_type.as_str())
    };
    ObservedMount {
        source,
        target: entry.target,
        options: entry.options,
        context: MountContext::Host,
    }
}

/// The diagnostic recorded when one native enrichment fails.
pub open spec fn is_native_failure(d: Diagnostic, provider: Seq<char>, evidence: Seq<char>) -> bool {
    diagnostic_is(
        d,
        provider + ".probe_failed"@,
        DiagnosticSeverity::MissingInformation,
        Seq::empty(),
        "native "@ + provider + " enrichment could not inspect its responsibility"@,
        Some(evidence),
        Some("fix provider access and repeat probing"@),
    )
}

/// Preserves partial state while recording one failed native enrichment.
pub fn push_native_failure(state: &mut ProviderState, provider: &str, evidence: String)
    ensures
        final(state).graph == old(state).graph,
        final(state).mounts == old(state).mounts,
        final(state).environment == old(state).environment,
        final(state).diagnostics@.len() == old(state).diagnostics@.len() + 1,
        final(state).diagnostics@.drop_last() == old(state).diagnostics@,
        is_native_failure(final(state).diagnostics@.last(), provider@, evidence@),
{
    let mut code = String::from_str(provider);
    code.append(".probe_failed");
    let mut message = String::from_str("native ");
    message.append(provider);
    message.append(" enrichment could not inspect its responsibility");
    state.diagnostics.push(
        Diagnostic {
            code,
            severity: DiagnosticSeverity::MissingInformation,
            subjects: Vec::new(),
            message,
            evidence: Some(evidence),
            suggested_remedy: Some("fix provider access and repeat probing".to_string()),
        },
    );
    assert(state.diagnostics@.drop_last() =~= old(state).diagnostics@);
}

/// Chunk size reported by the first member superblock of the array with
/// the given UUID (compared after normalization), or 0.
pub open spec fn member_chunk(members: Seq<MdraidMemberEntry>, uuid: Seq<char>) -> u64
    decreases members.len(),
{
    if members.len() == 0 {
        0
    } else if members[0].array_uuid is Some && normalized_uuid(
        members[0].array_uuid->0@,
    ) == normalized_uuid(uuid) {
        members[0].chunk_size
    } else {
        member_chunk(members.drop_first(), uuid)
    }
}

/// Chunk size of an array: from its members when it has a UUID, else 0.
pub open spec fn array_chunk(array: MdraidArrayEntry, members: Seq<MdraidMemberEntry>) -> u64 {
    match array.uuid {
        Some(u) => member_chunk(members, u@),
        None => 0,
    }
}

/// `k` is the strongest MD kind the array's level and metadata support.
pub open spec fn is_md_kind(k: NodeKind, array: MdraidArrayEntry, members: Seq<MdraidMemberEntry>) -> bool {
    let metadata = md_metadata_of(opt_string_view(array.metadata));
    let chunk = Bytes::of(array_chunk(array, members));
    let level = ascii_lowercase(array.level@);
    let personality = if level == "raid0"@ {
        Some(MdPersonality::Raid(MdRaid::Raid0 { layout: MdRaid0Layout::Unspecified, chunk_size: chunk }))
    } else if level == "raid1"@ {
        Some(MdPersonality::Raid(MdRaid::Raid1))
    } else if level == "raid4"@ {
        Some(MdPersonality::Raid(MdRaid::Raid4 { chunk_size: chunk }))
    } else if level == "linear"@ {
        Some(MdPersonality::Linear { rounding: None })
    } else if level == "multipath"@ {
        Some(MdPersonality::Multipath)
    } else if level == "faulty"@ {
        Some(MdPersonality::Faulty)
    } else if level == "container"@ {
        Some(MdPersonality::Container)
    } else {
        None
    };
    match personality {
        Some(p) => k == NodeKind::MdArray(MdArray { personality: p, metadata }),
        None => k matches NodeKind::Unknown(u) && u@ == "md:"@ + array.level@,
    }
}

fn find_member_chunk(members: &[MdraidMemberEntry], uuid: &str) -> (r: u64)
    ensures
        r == member_chunk(members@, uuid@),
{
    let target = normalized_native_uuid(uuid);
    let mut i: usize = 0;
    assert(members@.skip(0) =~= members@);
    while i < members.len()
        invariant
            i <= members@.len(),
            target@ == normalized_uuid(uuid@),
            member_chunk(members@, uuid@) == member_chunk(members@.skip(i as int), uuid@),
        decreases members.len() - i,
    {
        assert(members@.skip(i as int)[0] == members@[i as int]);
        assert(members@.skip(i + 1) =~= members@.skip(i as int).drop_first());
        match &members[i].array_uuid {
            Some(mu) => {
                let n = normalized_native_uuid(mu.as_str());
                if str_eq(n.as_str(), target.as_str()) {
                    return members[i].chunk_size;
                }
            },
            None => {},
        }
        i = i + 1;
    }
    0
}

/// Builds the strongest MD kind supported by the available metadata.
pub fn mdraid_kind(array: &MdraidArrayEntry, members: &[MdraidMemberEntry]) -> (r: NodeKind)
    ensures
        is_md_kind(r, *array, members@),
{
    let metadata = md_metadata(
        match &array.metadata {
            Some(m) => Some(m.as_str()),
            None => None,
        },
    );
    let chunk_size = match &array.uuid {
        Some(u) => find_member_chunk(members, u.as_str()),
        None => 0,
    };
    let chunk = Bytes::new(chunk_size);
    let level = to_ascii_lowercase(array.level.as_str());
    let l = level.as_str();
    let personality = if str_eq(l, "raid0") {
        Some(MdPersonality::Raid(MdRaid::Raid0 { layout: MdRaid0Layout::Unspecified, chunk_size: chunk }))
    } else if str_eq(l, "raid1") {
        Some(MdPersonality::Raid(MdRaid::Raid1))
    } else if str_eq(l, "raid4") {
        Some(MdPersonality::Raid(MdRaid::Raid4 { chunk_size: chunk }))
    } else if str_eq(l, "linear") {
        Some(MdPersonality::Linear { rounding: None })
    } else if str_eq(l, "multipath") {
        Some(MdPersonality::Multipath)
    } else if str_eq(l, "faulty") {
        Some(MdPersonality::Faulty)
    } else if str_eq(l, "container") {
        Some(MdPersonality::Container)
    } else {
        None
    };
    match personality {
        Some(personality) => NodeKind::MdArray(MdArray { personality, metadata }),
        None => {
            let mut s = String::from_str("md:");
            s.append(array.level.as_str());
            NodeKind::Unknown(s)
        },
    }
}

} // verus!
