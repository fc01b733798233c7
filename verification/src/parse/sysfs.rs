//! Recorded sysfs attributes of block devices.

use vstd::prelude::*;

use crate::collections::{str_eq, StrMap};

verus! {

/// Raw sysfs JSON structure.
#[derive(Debug)]
pub struct SysfsOutput {
    pub devices: Vec<SysfsDevice>,
}

/// Attributes of one block device.
#[derive(Debug, Clone)]
pub struct SysfsDevice {
    pub name: String,
    pub path: String,
    pub major: u32,
    pub minor: u32,
    pub size_bytes: u64,
    pub logical_block_size: u32,
    pub physical_block_size: u32,
    pub model: Option<String>,
    pub serial: Option<String>,
    pub wwn: Option<String>,
    pub rotational: bool,
    pub removable: bool,
    pub read_only: bool,
}

/// Parsed sysfs information keyed by device name.
pub struct SysfsInfo {
    pub devices: StrMap<SysfsDevice>,
}

/// Devices by name; a later device replaces an earlier one of the same name.
pub open spec fn devices_by_name(devices: Seq<SysfsDevice>) -> Map<Seq<char>, SysfsDevice>
    decreases devices.len(),
{
    if devices.len() == 0 {
        Map::empty()
    } else {
        devices_by_name(devices.drop_last()).insert(devices.last().name@, devices.last())
    }
}

/// The first device with the given name.
pub open spec fn first_named(devices: Seq<SysfsDevice>, name: Seq<char>) -> Option<SysfsDevice>
    decreases devices.len(),
{
    if devices.len() == 0 {
        None
    } else if devices[0].name@ == name {
        Some(devices[0])
    } else {
        first_named(devices.drop_first(), name)
    }
}

impl SysfsOutput {
    /// Devices keyed by name.
    pub fn into_info(self) -> (r: SysfsInfo)
        ensures
            r.devices@ == devices_by_name(self.devices@),
    {
        let ghost all = self.devices@;
        let mut rest = self.devices;
        let total = rest.len();
        let mut devices: StrMap<SysfsDevice> = StrMap::new();
        let mut k: usize = 0;
        assert(all.skip(0) =~= all);
        assert(all.take(0) =~= Seq::<SysfsDevice>::empty());
        while rest.len() > 0
            invariant
                rest@ == all.skip(k as int),
                k <= all.len(),
                all.len() == total,
                devices@ == devices_by_name(all.take(k as int)),
            decreases rest.len(),
        {
            let d = rest.remove(0);
            proof {
                assert(all.skip(k as int)[0] == all[k as int]);
                assert(all.skip(k + 1) =~= all.skip(k as int).drop_first());
                assert(all.take(k + 1).drop_last() =~= all.take(k as int));
            }
            let name = d.name.clone();
            devices.insert(name, d);
            k = k + 1;
        }
        assert(all.take(k as int) =~= all);
        SysfsInfo { devices }
    }

    /// Borrowed view over the devices.
    pub fn info_ref(&self) -> (r: SysfsRef<'_>)
        ensures
            r.devices() == self.devices@,
    {
        SysfsRef { output: self }
    }
}

/// Borrowed view over parsed sysfs data.
pub struct SysfsRef<'a> {
    output: &'a SysfsOutput,
}

impl<'a> SysfsRef<'a> {
    /// The devices viewed.
    pub closed spec fn devices(self) -> Seq<SysfsDevice> {
        self.output.devices@
    }

    /// The device of the given name that `into_info` keeps: the last one.
    pub fn get(&self, name: &str) -> (r: Option<&'a SysfsDevice>)
        ensures
            match r {
                Some(d) => devices_by_name(self.devices()).contains_key(name@)
                    && devices_by_name(self.devices())[name@] == *d,
                None => !devices_by_name(self.devices()).contains_key(name@),
            },
    {
        let devices: &'a [SysfsDevice] = self.output.devices.as_slice();
        let mut i: usize = devices.len();
        while i > 0
            invariant
                i <= devices@.len(),
                devices@ == self.devices(),
                forall|j: int| i <= j < devices@.len() ==> (#[trigger] devices@[j]).name@ != name@,
            decreases i,
        {
            i = i - 1;
            if str_eq(devices[i].name.as_str(), name) {
                proof {
                    lemma_by_name_prefix(devices@, i + 1, name@);
                    assert(devices@.take(i + 1).drop_last() =~= devices@.take(i as int));
                }
                return Some(&devices[i]);
            }
        }
        proof {
            lemma_by_name_prefix(devices@, 0, name@);
            assert(devices@.take(0) =~= Seq::<SysfsDevice>::empty());
        }
        None
    }
}

/// When no device after position `k` has the name `n`, the devices up to `k`
/// decide what `devices_by_name` holds under `n`.
proof fn lemma_by_name_prefix(s: Seq<SysfsDevice>, k: int, n: Seq<char>)
    requires
        0 <= k <= s.len(),
        forall|j: int| k <= j < s.len() ==> (#[trigger] s[j]).name@ != n,
    ensures
        devices_by_name(s).contains_key(n) == devices_by_name(s.take(k)).contains_key(n),
        devices_by_name(s).contains_key(n) ==> devices_by_name(s)[n] == devices_by_name(
            s.take(k),
        )[n],
    decreases s.len() - k,
{
    if k == s.len() {
        assert(s.take(k) =~= s);
    } else {
        lemma_by_name_prefix(s, k + 1, n);
        assert(s.take(k + 1).drop_last() =~= s.take(k));
        assert(s.take(k + 1).last() == s[k]);
    }
}

/// The first device with the given name.
pub fn find_device<'a>(devices: &'a [SysfsDevice], name: &str) -> (r: Option<&'a SysfsDevice>)
    ensures
        match r {
            Some(d) => first_named(devices@, name@) == Some(*d),
            None => first_named(devices@, name@) is None,
        },
{
    let mut i: usize = 0;
    assert(devices@.skip(0) =~= devices@);
    while i < devices.len()
        invariant
            i <= devices@.len(),
            first_named(devices@, name@) == first_named(devices@.skip(i as int), name@),
        decreases devices.len() - i,
    {
        assert(devices@.skip(i as int)[0] == devices@[i as int]);
        assert(devices@.skip(i + 1) =~= devices@.skip(i as int).drop_first());
        if str_eq(devices[i].name.as_str(), name) {
            return Some(&devices[i]);
        }
        i = i + 1;
    }
    None
}

} // verus!
