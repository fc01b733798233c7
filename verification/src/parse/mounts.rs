//! Recorded `findmnt --json` output.

use vstd::prelude::*;

use crate::collections::StrMap;

verus! {

/// Raw findmnt JSON structure.
#[derive(Debug)]
pub struct MountsOutput {
    pub filesystems: Vec<FilesystemEntry>,
}

/// One mounted filesystem as findmnt reports it.
#[derive(Debug, Clone)]
pub struct FilesystemEntry {
    pub target: String,
    pub source: String,
    pub fstype: String,
    pub options: Option<String>,
    pub uuid: Option<String>,
}

/// Parsed mount information.
pub struct MountInfo {
    /// Mounts by device path, in report order.
    pub mounts_by_device: StrMap<Vec<MountEntry>>,
    /// Mounts by target; a later mount on a target replaces an earlier one.
    pub mounts_by_target: StrMap<MountEntry>,
}

/// One mount.
#[derive(Debug)]
pub struct MountEntry {
    pub source: String,
    pub target: String,
    pub fstype: String,
    pub options: Option<String>,
    pub uuid: Option<String>,
}

/// The mount a findmnt entry describes.
pub open spec fn mount_of(e: FilesystemEntry) -> MountEntry {
    MountEntry {
        source: e.source,
        target: e.target,
        fstype: e.fstype,
        options: e.options,
        uuid: e.uuid,
    }
}

/// Mounts of each device, in report order.
pub open spec fn mounts_by_source(entries: Seq<FilesystemEntry>) -> Map<Seq<char>, Seq<MountEntry>>
    decreases entries.len(),
{
    if entries.len() == 0 {
        Map::empty()
    } else {
        let prev = mounts_by_source(entries.drop_last());
        let key = entries.last().source@;
        let list = if prev.contains_key(key) {
            prev[key]
        } else {
            Seq::empty()
        };
        prev.insert(key, list.push(mount_of(entries.last())))
    }
}

/// The last mount on each target.
pub open spec fn mounts_by_target_of(entries: Seq<FilesystemEntry>) -> Map<Seq<char>, MountEntry>
    decreases entries.len(),
{
    if entries.len() == 0 {
        Map::empty()
    } else {
        mounts_by_target_of(entries.drop_last()).insert(
            entries.last().target@,
            mount_of(entries.last()),
        )
    }
}

fn clone_opt(o: &Option<String>) -> (r: Option<String>)
    ensures
        r == *o,
{
    match o {
        Some(s) => Some(s.clone()),
        None => None,
    }
}

fn entry_mount(e: &FilesystemEntry) -> (r: MountEntry)
    ensures
        r == mount_of(*e),
{
    MountEntry {
        source: e.source.clone(),
        target: e.target.clone(),
        fstype: e.fstype.clone(),
        options: clone_opt(&e.options),
        uuid: clone_opt(&e.uuid),
    }
}

/// Parse findmnt output.
pub fn parse_findmnt(output: &MountsOutput) -> (r: MountInfo)
    ensures
        r.mounts_by_target@ == mounts_by_target_of(output.filesystems@),
        r.mounts_by_device@.dom() == mounts_by_source(output.filesystems@).dom(),
        forall|k: Seq<char>|
            #[trigger] r.mounts_by_device@.contains_key(k) ==> r.mounts_by_device@[k]@
                == mounts_by_source(output.filesystems@)[k],
{
    let entries = &output.filesystems;
    let mut by_device: StrMap<Vec<MountEntry>> = StrMap::new();
    let mut by_target: StrMap<MountEntry> = StrMap::new();
    let mut i: usize = 0;
    assert(entries@.take(0) =~= Seq::<FilesystemEntry>::empty());
    assert(by_device@.dom() =~= mounts_by_source(entries@.take(0)).dom());
    while i < entries.len()
        invariant
            i <= entries@.len(),
            by_target@ == mounts_by_target_of(entries@.take(i as int)),
            by_device@.dom() == mounts_by_source(entries@.take(i as int)).dom(),
            forall|k: Seq<char>|
                #[trigger] by_device@.contains_key(k) ==> by_device@[k]@ == mounts_by_source(
                    entries@.take(i as int),
                )[k],
        decreases entries.len() - i,
    {
        let entry = &entries[i];
        let ghost prev = entries@.take(i as int);
        assert(entries@.take(i + 1).drop_last() =~= prev);
        let ghost before = by_device@;
        let mut list = match by_device.insert(entry.source.clone(), Vec::new()) {
            Some(v) => v,
            None => Vec::new(),
        };
        list.push(entry_mount(entry));
        by_device.insert(entry.source.clone(), list);
        by_target.insert(entry.target.clone(), entry_mount(entry));
        proof {
            let next = entries@.take(i + 1);
            assert(by_device@.dom() =~= mounts_by_source(next).dom());
            assert forall|k: Seq<char>| #[trigger] by_device@.contains_key(k) implies by_device@[k]@
                == mounts_by_source(next)[k] by {
                if k == entry.source@ {
                    if before.contains_key(k) {
                        assert(before[k]@ == mounts_by_source(prev)[k]);
                    }
                }
            }
        }
        i = i + 1;
    }
    assert(entries@.take(entries@.len() as int) =~= entries@);
    MountInfo { mounts_by_device: by_device, mounts_by_target: by_target }
}

} // verus!
