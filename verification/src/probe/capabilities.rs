//! Capabilities of the running system, decided from which storage tools are
//! installed and what their version commands printed.

use vstd::prelude::*;

use crate::collections::StrMap;
use crate::probe::linux::opt_string_view;
use crate::text::{chars_of, string_from_chars, trim, trim_chars};

verus! {

/// Registry of system capabilities detected at runtime.
#[derive(Debug)]
pub struct CapabilityRegistry {
    pub filesystems: StrMap<FilesystemCapabilities>,
    pub partition: PartitionCapabilities,
    pub lvm: Option<LvmCapabilities>,
    pub mdraid: Option<MdCapabilities>,
    pub luks: Option<LuksCapabilities>,
    pub btrfs: Option<BtrfsCapabilities>,
}

/// Operations a filesystem's tools support.
#[derive(Debug, Clone, Copy, PartialEq, Eq)]
pub struct FilesystemCapabilities {
    pub create: bool,
    pub check: bool,
    pub repair: bool,
    pub grow_online: bool,
    pub grow_offline: bool,
    pub shrink_online: bool,
    pub shrink_offline: bool,
}

/// Partition table operations the installed tools support.
#[derive(Debug, Clone, Copy, PartialEq, Eq)]
pub struct PartitionCapabilities {
    pub gpt: bool,
    pub mbr: bool,
    pub create: bool,
    pub delete: bool,
    pub resize: bool,
}

/// LVM tooling.
#[derive(Debug, Clone, PartialEq, Eq)]
pub struct LvmCapabilities {
    pub available: bool,
    pub version: Option<String>,
}

/// MD RAID tooling and the RAID levels it creates.
#[derive(Debug, Clone, PartialEq, Eq)]
pub struct MdCapabilities {
    pub available: bool,
    pub levels: Vec<u8>,
}

/// LUKS tooling.
#[derive(Debug, Clone, PartialEq, Eq)]
pub struct LuksCapabilities {
    pub available: bool,
    pub version: Option<String>,
}

/// Btrfs tooling.
#[derive(Debug, Clone, PartialEq, Eq)]
pub struct BtrfsCapabilities {
    pub available: bool,
    pub version: Option<String>,
}

/// What was observed of the system's tools: the names found on the search
/// path, and the standard output of each version command that ran, exited
/// successfully and printed UTF-8.
#[derive(Debug, Clone)]
pub struct ToolObservations {
    pub installed: Vec<String>,
    /// Output of `lvm --version`.
    pub lvm_version: Option<String>,
    /// Output of `cryptsetup --version`.
    pub cryptsetup_version: Option<String>,
    /// Output of `btrfs version`.
    pub btrfs_version: Option<String>,
}

/// Whether a tool of that name was found.
pub open spec fn has_tool(tools: ToolObservations, name: Seq<char>) -> bool {
    exists|i: int| 0 <= i < tools.installed@.len() && (#[trigger] tools.installed@[i])@ == name
}

/// A version command's output with surrounding whitespace removed.
pub open spec fn version_of(output: Option<String>) -> Option<Seq<char>> {
    match output {
        Some(o) => Some(trim(o@)),
        None => None,
    }
}

/// Filesystems whose tools are probed, with what each tool enables.
pub open spec fn detected_filesystems(t: ToolObservations) -> Map<Seq<char>, FilesystemCapabilities> {
    map![
        "ext4"@ => FilesystemCapabilities {
            create: has_tool(t, "mkfs.ext4"@),
            check: has_tool(t, "e2fsck"@),
            repair: has_tool(t, "e2fsck"@),
            grow_online: has_tool(t, "resize2fs"@),
            grow_offline: has_tool(t, "resize2fs"@),
            shrink_online: false,
            shrink_offline: has_tool(t, "resize2fs"@),
        },
        "xfs"@ => FilesystemCapabilities {
            create: has_tool(t, "mkfs.xfs"@),
            check: has_tool(t, "xfs_repair"@),
            repair: has_tool(t, "xfs_repair"@),
            grow_online: has_tool(t, "xfs_growfs"@),
            grow_offline: false,
            shrink_online: false,
            shrink_offline: false,
        },
        "swap"@ => FilesystemCapabilities {
            create: has_tool(t, "mkswap"@),
            check: false,
            repair: false,
            grow_online: false,
            grow_offline: false,
            shrink_online: false,
            shrink_offline: false,
        }
    ]
}

/// Partition operations: GPT through `sgdisk` or `gdisk`, MBR through
/// `fdisk` or `sfdisk`; creating and deleting always, resizing never.
pub open spec fn detected_partition(t: ToolObservations) -> PartitionCapabilities {
    PartitionCapabilities {
        gpt: has_tool(t, "sgdisk"@) || has_tool(t, "gdisk"@),
        mbr: has_tool(t, "fdisk"@) || has_tool(t, "sfdisk"@),
        create: true,
        delete: true,
        resize: false,
    }
}

/// RAID levels `mdadm` creates.
pub open spec fn md_levels() -> Seq<u8> {
    seq![0u8, 1u8, 4u8, 5u8, 6u8, 10u8]
}

/// Every tool name `detect` consults.
pub open spec fn probed_tool_names() -> Seq<Seq<char>> {
    seq![
        "mkfs.ext4"@,
        "e2fsck"@,
        "resize2fs"@,
        "mkfs.xfs"@,
        "xfs_repair"@,
        "xfs_growfs"@,
        "mkswap"@,
        "sgdisk"@,
        "gdisk"@,
        "fdisk"@,
        "sfdisk"@,
        "lvm"@,
        "pvcreate"@,
        "mdadm"@,
        "cryptsetup"@,
        "btrfs"@,
    ]
}

/// What `detect` decides from the observed tools.
pub open spec fn is_detected(r: CapabilityRegistry, t: ToolObservations) -> bool {
    &&& r.filesystems@ == detected_filesystems(t)
    &&& r.partition == detected_partition(t)
    &&& match r.lvm {
        Some(c) => (has_tool(t, "lvm"@) || has_tool(t, "pvcreate"@)) && c.available
            && opt_string_view(c.version) == version_of(t.lvm_version),
        None => !(has_tool(t, "lvm"@) || has_tool(t, "pvcreate"@)),
    }
    &&& match r.mdraid {
        Some(c) => has_tool(t, "mdadm"@) && c.available && c.levels@ == md_levels(),
        None => !has_tool(t, "mdadm"@),
    }
    &&& match r.luks {
        Some(c) => has_tool(t, "cryptsetup"@) && c.available && opt_string_view(c.version)
            == version_of(t.cryptsetup_version),
        None => !has_tool(t, "cryptsetup"@),
    }
    &&& match r.btrfs {
        Some(c) => has_tool(t, "btrfs"@) && c.available && opt_string_view(c.version)
            == version_of(t.btrfs_version),
        None => !has_tool(t, "btrfs"@),
    }
}

fn tool_exists(tools: &ToolObservations, name: &str) -> (r: bool)
    ensures
        r == has_tool(*tools, name@),
{
    let mut i: usize = 0;
    while i < tools.installed.len()
        invariant
            i <= tools.installed@.len(),
            forall|j: int| 0 <= j < i ==> (#[trigger] tools.installed@[j])@ != name@,
        decreases tools.installed.len() - i,
    {
        if crate::collections::str_eq(tools.installed[i].as_str(), name) {
            return true;
        }
        i = i + 1;
    }
    false
}

fn trimmed_version(output: &Option<String>) -> (r: Option<String>)
    ensures
        opt_string_view(r) == version_of(*output),
{
    match output {
        Some(o) => {
            let v = chars_of(o.as_str());
            let t = trim_chars(v.as_slice());
            Some(string_from_chars(t.as_slice()))
        },
        None => None,
    }
}

impl CapabilityRegistry {
    /// Names of the tools whose presence `detect` consults.
    pub fn probed_tools() -> (r: Vec<&'static str>)
        ensures
            r@.map_values(|s: &str| s@) == probed_tool_names(),
    {
        let r = vec![
            "mkfs.ext4",
            "e2fsck",
            "resize2fs",
            "mkfs.xfs",
            "xfs_repair",
            "xfs_growfs",
            "mkswap",
            "sgdisk",
            "gdisk",
            "fdisk",
            "sfdisk",
            "lvm",
            "pvcreate",
            "mdadm",
            "cryptsetup",
            "btrfs",
        ];
        assert(r@.map_values(|s: &str| s@) =~= probed_tool_names());
        r
    }

    /// Decides the capabilities of the system from its observed tools.
    pub fn detect(tools: &ToolObservations) -> (r: CapabilityRegistry)
        ensures
            is_detected(r, *tools),
    {
        let mut filesystems: StrMap<FilesystemCapabilities> = StrMap::new();
        let resize2fs = tool_exists(tools, "resize2fs");
        let e2fsck = tool_exists(tools, "e2fsck");
        filesystems.insert(
            "ext4".to_string(),
            FilesystemCapabilities {
                create: tool_exists(tools, "mkfs.ext4"),
                check: e2fsck,
                repair: e2fsck,
                grow_online: resize2fs,
                grow_offline: resize2fs,
                shrink_online: false,
                shrink_offline: resize2fs,
            },
        );
        let xfs_repair = tool_exists(tools, "xfs_repair");
        filesystems.insert(
            "xfs".to_string(),
            FilesystemCapabilities {
                create: tool_exists(tools, "mkfs.xfs"),
                check: xfs_repair,
                repair: xfs_repair,
                grow_online: tool_exists(tools, "xfs_growfs"),
                grow_offline: false,
                shrink_online: false,
                shrink_offline: false,
            },
        );
        filesystems.insert(
            "swap".to_string(),
            FilesystemCapabilities {
                create: tool_exists(tools, "mkswap"),
                check: false,
                repair: false,
                grow_online: false,
                grow_offline: false,
                shrink_online: false,
                shrink_offline: false,
            },
        );
        let partition = PartitionCapabilities {
            gpt: tool_exists(tools, "sgdisk") || tool_exists(tools, "gdisk"),
            mbr: tool_exists(tools, "fdisk") || tool_exists(tools, "sfdisk"),
            create: true,
            delete: true,
            resize: false,
        };
        let lvm = if tool_exists(tools, "lvm") || tool_exists(tools, "pvcreate") {
            Some(LvmCapabilities { available: true, version: trimmed_version(&tools.lvm_version) })
        } else {
            None
        };
        let mdraid = if tool_exists(tools, "mdadm") {
            Some(MdCapabilities { available: true, levels: vec![0u8, 1u8, 4u8, 5u8, 6u8, 10u8] })
        } else {
            None
        };
        let luks = if tool_exists(tools, "cryptsetup") {
            Some(
                LuksCapabilities {
                    available: true,
                    version: trimmed_version(&tools.cryptsetup_version),
                },
            )
        } else {
            None
        };
        let btrfs = if tool_exists(tools, "btrfs") {
            Some(BtrfsCapabilities { available: true, version: trimmed_version(&tools.btrfs_version) })
        } else {
            None
        };
        let r = CapabilityRegistry { filesystems, partition, lvm, mdraid, luks, btrfs };
        assert(r.filesystems@ =~= detected_filesystems(*tools));
        r
    }

    /// Whether the named filesystem can be created.
    pub fn can_create_fs(&self, fs: &str) -> (r: bool)
        ensures
            r == (self.filesystems@.contains_key(fs@) && self.filesystems@[fs@].create),
    {
        match self.filesystems.get(fs) {
            Some(caps) => caps.create,
            None => false,
        }
    }
}


/// Whether a tool of that name is among the observed ones.
pub open spec fn installed(t: ToolObservations, name: Seq<char>) -> bool {
    exists|i: int| 0 <= i < t.installed@.len() && (#[trigger] t.installed@[i])@ == name
}

/// What `detect` reports of each filesystem follows from which tools are
/// installed: ext4 is created by `mkfs.ext4`, checked and repaired by
/// `e2fsck`, grown online and offline and shrunk offline by `resize2fs`;
/// xfs is created by `mkfs.xfs`, checked and repaired by `xfs_repair`,
/// grown online by `xfs_growfs`, and never grown offline or shrunk; swap is
/// created by `mkswap` and supports nothing else. No other filesystem is
/// reported.
pub proof fn law_filesystem_capabilities_follow_tools(r: CapabilityRegistry, t: ToolObservations)
    requires
        is_detected(r, t),
    ensures
        r.filesystems@.dom() == set!["ext4"@, "xfs"@, "swap"@],
        ({
            let ext4 = r.filesystems@["ext4"@];
            &&& ext4.create == installed(t, "mkfs.ext4"@)
            &&& ext4.check == installed(t, "e2fsck"@)
            &&& ext4.repair == installed(t, "e2fsck"@)
            &&& ext4.grow_online == installed(t, "resize2fs"@)
            &&& ext4.grow_offline == installed(t, "resize2fs"@)
            &&& !ext4.shrink_online
            &&& ext4.shrink_offline == installed(t, "resize2fs"@)
        }),
        ({
            let xfs = r.filesystems@["xfs"@];
            &&& xfs.create == installed(t, "mkfs.xfs"@)
            &&& xfs.check == installed(t, "xfs_repair"@)
            &&& xfs.repair == installed(t, "xfs_repair"@)
            &&& xfs.grow_online == installed(t, "xfs_growfs"@)
            &&& !xfs.grow_offline
            &&& !xfs.shrink_online
            &&& !xfs.shrink_offline
        }),
        ({
            let swap = r.filesystems@["swap"@];
            &&& swap.create == installed(t, "mkswap"@)
            &&& !swap.check && !swap.repair && !swap.grow_online && !swap.grow_offline
            &&& !swap.shrink_online && !swap.shrink_offline
        }),
{
    reveal_strlit("ext4");
    reveal_strlit("xfs");
    reveal_strlit("swap");
    assert("ext4"@[0] != "swap"@[0]);
    assert("xfs"@[0] != "swap"@[0]);
    assert("ext4"@ != "swap"@);
    assert("xfs"@ != "swap"@);
    assert("ext4"@ != "xfs"@);
    assert(r.filesystems@.dom() =~= set!["ext4"@, "xfs"@, "swap"@]);
}

/// Partition support and the volume tools follow what is installed: GPT
/// through `sgdisk` or `gdisk`, MBR through `fdisk` or `sfdisk`, creating and
/// deleting partitions always, resizing never; LVM when `lvm` or `pvcreate`
/// is installed, MD RAID with levels 0, 1, 4, 5, 6 and 10 when `mdadm` is,
/// LUKS when `cryptsetup` is and Btrfs when `btrfs` is, each reported
/// available with its version command's output trimmed.
pub proof fn law_tool_capabilities_follow_tools(r: CapabilityRegistry, t: ToolObservations)
    requires
        is_detected(r, t),
    ensures
        r.partition.gpt == (installed(t, "sgdisk"@) || installed(t, "gdisk"@)),
        r.partition.mbr == (installed(t, "fdisk"@) || installed(t, "sfdisk"@)),
        r.partition.create && r.partition.delete && !r.partition.resize,
        (r.lvm is Some) == (installed(t, "lvm"@) || installed(t, "pvcreate"@)),
        r.lvm matches Some(c) ==> c.available && opt_string_view(c.version) == match t.lvm_version {
            Some(o) => Some(trim(o@)),
            None => None,
        },
        (r.mdraid is Some) == installed(t, "mdadm"@),
        r.mdraid matches Some(c) ==> c.available && c.levels@ == seq![0u8, 1u8, 4u8, 5u8, 6u8, 10u8],
        (r.luks is Some) == installed(t, "cryptsetup"@),
        r.luks matches Some(c) ==> c.available && opt_string_view(c.version)
            == match t.cryptsetup_version {
            Some(o) => Some(trim(o@)),
            None => None,
        },
        (r.btrfs is Some) == installed(t, "btrfs"@),
        r.btrfs matches Some(c) ==> c.available && opt_string_view(c.version)
            == match t.btrfs_version {
            Some(o) => Some(trim(o@)),
            None => None,
        },
{
}

} // verus!
