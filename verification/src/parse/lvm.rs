//! LVM JSON reports (`pvs`, `vgs`, `lvs` with `--reportformat json_std`).

use vstd::prelude::*;

use crate::collections::{str_eq, StrMap};
use crate::text::{
    all_digits, chars_of, digits_value, is_digit, is_ws, leading_ws, parse_unsigned,
    parse_unsigned_chars, subvec, trailing_ws, trim, trim_chars, unsigned_digits,
};

verus! {

/// Raw LVM JSON structure, one section per report.
#[derive(Debug)]
pub struct LvmReport {
    pub block_device: Vec<LvmSection>,
}

impl Default for LvmReport {
    fn default() -> (r: LvmReport)
        ensures
            r.block_device@.len() == 0,
    {
        LvmReport { block_device: Vec::new() }
    }
}

/// One report section.
#[derive(Debug)]
pub struct LvmSection {
    pub report: LvmReportData,
}

/// Label, column names and rows of one report section.
#[derive(Debug)]
pub struct LvmReportData {
    pub label: String,
    pub fields: Vec<LvmField>,
    pub rows: Vec<LvmRow>,
}

/// One column of a report.
#[derive(Debug)]
pub struct LvmField {
    pub name: String,
}

/// One row of a report, a value per column.
#[derive(Debug)]
pub struct LvmRow {
    pub values: Vec<String>,
}

/// Parsed LVM information.
pub struct LvmInfo {
    /// PVs by device path.
    pub physical_volumes: StrMap<PhysicalVolume>,
    /// VGs by name.
    pub volume_groups: StrMap<VolumeGroup>,
    /// LVs by device path.
    pub logical_volumes: StrMap<LogicalVolume>,
}

#[derive(Debug, Clone)]
pub struct PhysicalVolume {
    pub path: String,
    pub vg_name: Option<String>,
    pub size: u64,
    pub pv_uuid: Option<String>,
}

#[derive(Debug, Clone)]
pub struct VolumeGroup {
    pub name: String,
    pub uuid: Option<String>,
    pub size: u64,
    pub free: u64,
}

#[derive(Debug, Clone)]
pub struct LogicalVolume {
    pub path: String,
    pub vg_name: String,
    pub lv_name: String,
    pub size: u64,
    pub uuid: Option<String>,
}

/// ASCII upper case of a character.
pub open spec fn ascii_upper(c: char) -> char {
    if 'a' <= c <= 'z' {
        ((c as int) - 32) as char
    } else {
        c
    }
}

/// Multiplier of a size unit, compared without regard to case; 1 when the
/// unit is unknown.
pub open spec fn unit_multiplier(unit: Seq<char>) -> u64 {
    let u = unit.map_values(|c: char| ascii_upper(c));
    if u == "B"@ {
        1
    } else if u == "KB"@ || u == "K"@ {
        1024
    } else if u == "MB"@ || u == "M"@ {
        0x10_0000
    } else if u == "GB"@ || u == "G"@ {
        0x4000_0000
    } else if u == "TB"@ || u == "T"@ {
        0x100_0000_0000
    } else {
        1
    }
}

/// Index of the first character that is neither a digit nor `.`.
pub open spec fn number_end(s: Seq<char>) -> Option<int>
    decreases s.len(),
{
    if s.len() == 0 {
        None
    } else if !(is_digit(s[0]) || s[0] == '.') {
        Some(0)
    } else {
        match number_end(s.drop_first()) {
            Some(i) => Some(i + 1),
            None => None,
        }
    }
}

/// Number of `.` in a text.
pub open spec fn dots(s: Seq<char>) -> nat
    decreases s.len(),
{
    if s.len() == 0 {
        0
    } else {
        dots(s.drop_last()) + if s.last() == '.' {
            1nat
        } else {
            0nat
        }
    }
}

/// Position of the decimal point, or the length when there is none.
pub open spec fn point(s: Seq<char>) -> int
    decreases s.len(),
{
    if s.len() == 0 {
        0
    } else if s[0] == '.' {
        0
    } else {
        point(s.drop_first()) + 1
    }
}

/// Digits and at most one decimal point, with at least one digit: the
/// numbers of this form that a float parser reads.
pub open spec fn is_decimal(n: Seq<char>) -> bool {
    dots(n) <= 1 && n.len() > dots(n)
}

/// `floor(mult × 0.d₀d₁…)` for fraction digits `d`.
pub open spec fn fraction_floor(mult: nat, d: Seq<char>) -> nat
    decreases d.len(),
{
    if d.len() == 0 {
        0
    } else {
        (mult * ((d[0] as int - '0' as int) as nat) + fraction_floor(mult, d.drop_first())) / 10
    }
}

/// `floor(n × mult)` for a decimal `n`; 0 when `n` is not a decimal.
pub open spec fn scaled_decimal(n: Seq<char>, mult: nat) -> nat {
    if is_decimal(n) {
        let p = point(n);
        let whole = n.take(p);
        let fraction = if p < n.len() {
            n.skip(p + 1)
        } else {
            Seq::empty()
        };
        digits_value(whole) * mult + fraction_floor(mult, fraction)
    } else {
        0
    }
}

/// Size in bytes of an LVM size field: a plain integer, else a decimal
/// number followed by a unit (`B`, `K[B]`, `M[B]`, `G[B]`, `T[B]`), scaled
/// and rounded down, at most `u64::MAX`; 0 when the field has no unit.
pub open spec fn size_of(s: Seq<char>) -> u64 {
    match parse_unsigned(s, u64::MAX as nat) {
        Some(v) => v as u64,
        None => {
            let t = trim(s);
            match number_end(t) {
                None => 0,
                Some(i) => {
                    let v = scaled_decimal(t.take(i), unit_multiplier(t.skip(i)) as nat);
                    if v > u64::MAX {
                        u64::MAX
                    } else {
                        v as u64
                    }
                },
            }
        },
    }
}

fn upper(c: char) -> (r: char)
    ensures
        r == ascii_upper(c),
{
    if 'a' <= c && c <= 'z' {
        let letters = chars_of("ABCDEFGHIJKLMNOPQRSTUVWXYZ");
        proof {
            reveal_strlit("ABCDEFGHIJKLMNOPQRSTUVWXYZ");
        }
        let i = (c as u32 - 'a' as u32) as usize;
        assert(letters@[i as int] == "ABCDEFGHIJKLMNOPQRSTUVWXYZ"@[i as int]);
        letters[i]
    } else {
        c
    }
}

fn multiplier(unit: &[char]) -> (r: u64)
    ensures
        r == unit_multiplier(unit@),
{
    let mut u: Vec<char> = Vec::new();
    let mut i: usize = 0;
    while i < unit.len()
        invariant
            i <= unit@.len(),
            u@ == unit@.take(i as int).map_values(|c: char| ascii_upper(c)),
        decreases unit.len() - i,
    {
        u.push(upper(unit[i]));
        assert(unit@.take(i + 1).map_values(|c: char| ascii_upper(c)) =~= unit@.take(
            i as int,
        ).map_values(|c: char| ascii_upper(c)).push(ascii_upper(unit@[i as int])));
        i = i + 1;
    }
    assert(unit@.take(unit@.len() as int) =~= unit@);
    let text = crate::text::string_from_chars(u.as_slice());
    let s = text.as_str();
    if str_eq(s, "B") {
        1
    } else if str_eq(s, "KB") || str_eq(s, "K") {
        1024
    } else if str_eq(s, "MB") || str_eq(s, "M") {
        0x10_0000
    } else if str_eq(s, "GB") || str_eq(s, "G") {
        0x4000_0000
    } else if str_eq(s, "TB") || str_eq(s, "T") {
        0x100_0000_0000
    } else {
        1
    }
}

proof fn lemma_number_end(s: Seq<char>, i: int)
    requires
        0 <= i <= s.len(),
        forall|j: int| 0 <= j < i ==> is_digit(#[trigger] s[j]) || s[j] == '.',
    ensures
        number_end(s) == match number_end(s.skip(i)) {
            Some(k) => Some(k + i),
            None => None::<int>,
        },
    decreases i,
{
    if i > 0 {
        assert(s.drop_first().skip(i - 1) =~= s.skip(i));
        lemma_number_end(s.drop_first(), i - 1);
    } else {
        assert(s.skip(0) =~= s);
    }
}

proof fn lemma_point(s: Seq<char>, i: int)
    requires
        0 <= i <= s.len(),
        forall|j: int| 0 <= j < i ==> s[j] != '.',
    ensures
        point(s) == point(s.skip(i)) + i,
    decreases i,
{
    if i > 0 {
        assert(s.drop_first().skip(i - 1) =~= s.skip(i));
        lemma_point(s.drop_first(), i - 1);
    } else {
        assert(s.skip(0) =~= s);
    }
}

/// Value of the digits in `n`, capped at 2^64.
fn capped_value(n: &[char]) -> (r: u128)
    requires
        forall|j: int| 0 <= j < n@.len() ==> is_digit(#[trigger] n@[j]),
    ensures
        r == if digits_value(n@) > u64::MAX {
            0x1_0000_0000_0000_0000u128
        } else {
            digits_value(n@) as u128
        },
{
    let mut acc: u128 = 0;
    let mut i: usize = 0;
    assert(n@.take(0) =~= Seq::<char>::empty());
    while i < n.len()
        invariant
            i <= n@.len(),
            forall|j: int| 0 <= j < n@.len() ==> is_digit(#[trigger] n@[j]),
            acc == if digits_value(n@.take(i as int)) > u64::MAX {
                0x1_0000_0000_0000_0000u128
            } else {
                digits_value(n@.take(i as int)) as u128
            },
        decreases n.len() - i,
    {
        assert(n@.take(i + 1).drop_last() =~= n@.take(i as int));
        let d = (n[i] as u32 - '0' as u32) as u128;
        assert(is_digit(n@[i as int]));
        if acc > u64::MAX as u128 {
            assert(digits_value(n@.take(i + 1)) >= digits_value(n@.take(i as int)) * 10);
        } else {
            let next = acc * 10 + d;
            if next > u64::MAX as u128 {
                acc = 0x1_0000_0000_0000_0000u128;
            } else {
                acc = next;
            }
        }
        i = i + 1;
    }
    assert(n@.take(n@.len() as int) =~= n@);
    acc
}

/// `floor(mult × 0.d₀d₁…)`, computed from the last digit backwards.
fn fraction_part(mult: u64, d: &[char]) -> (r: u128)
    requires
        forall|j: int| 0 <= j < d@.len() ==> is_digit(#[trigger] d@[j]),
    ensures
        r == fraction_floor(mult as nat, d@),
        r <= mult,
{
    let mut q: u128 = 0;
    let mut i = d.len();
    assert(d@.skip(d@.len() as int) =~= Seq::<char>::empty());
    while i > 0
        invariant
            i <= d@.len(),
            forall|j: int| 0 <= j < d@.len() ==> is_digit(#[trigger] d@[j]),
            q == fraction_floor(mult as nat, d@.skip(i as int)),
            q <= mult,
        decreases i,
    {
        assert(d@.skip(i - 1).drop_first() =~= d@.skip(i as int));
        assert(d@.skip(i - 1)[0] == d@[i - 1]);
        assert(is_digit(d@[i - 1]));
        let digit = (d[i - 1] as u32 - '0' as u32) as u128;
        assert((mult as u128) * digit + q <= (mult as u128) * 10) by (nonlinear_arith)
            requires
                digit <= 9,
                q <= mult,
        ;
        q = ((mult as u128) * digit + q) / 10;
        i = i - 1;
    }
    assert(d@.skip(0) =~= d@);
    q
}

/// `floor(n × mult)` for a decimal `n`, at most `u64::MAX`.
fn scaled(n: &[char], mult: u64) -> (r: u64)
    requires
        forall|j: int| 0 <= j < n@.len() ==> is_digit(#[trigger] n@[j]) || n@[j] == '.',
        mult >= 1,
    ensures
        r == if scaled_decimal(n@, mult as nat) > u64::MAX {
            u64::MAX
        } else {
            scaled_decimal(n@, mult as nat) as u64
        },
{
    let mut dots_seen: usize = 0;
    let mut point_at: usize = n.len();
    let mut i: usize = 0;
    assert(n@.take(0) =~= Seq::<char>::empty());
    while i < n.len()
        invariant
            i <= n@.len(),
            dots_seen == dots(n@.take(i as int)),
            dots_seen <= i,
            point_at == if dots_seen == 0 {
                n@.len() as int
            } else {
                point(n@)
            },
            dots_seen == 0 ==> forall|j: int| 0 <= j < i ==> n@[j] != '.',
            dots_seen > 0 ==> point(n@) < i && n@[point(n@)] == '.',
        decreases n.len() - i,
    {
        assert(n@.take(i + 1).drop_last() =~= n@.take(i as int));
        if n[i] == '.' {
            if dots_seen == 0 {
                proof {
                    lemma_point(n@, i as int);
                    assert(n@.skip(i as int)[0] == '.');
                }
                point_at = i;
            }
            dots_seen = dots_seen + 1;
        }
        i = i + 1;
    }
    assert(n@.take(n@.len() as int) =~= n@);
    if dots_seen > 1 || n.len() == dots_seen {
        return 0;
    }
    proof {
        if dots_seen == 0 {
            lemma_point(n@, n@.len() as int);
            assert(n@.skip(n@.len() as int) =~= Seq::<char>::empty());
        }
    }
    let whole = subvec(n, 0, point_at);
    let fraction = if point_at < n.len() {
        subvec(n, point_at + 1, n.len())
    } else {
        Vec::new()
    };
    assert(whole@ =~= n@.take(point(n@)));
    assert forall|j: int| 0 <= j < whole@.len() implies is_digit(#[trigger] whole@[j]) by {
        assert(whole@[j] == n@[j]);
        if dots_seen == 0 {
        } else {
            if n@[j] == '.' {
                assert(dots(n@) >= 2) by {
                    lemma_dots_two(n@, j, point(n@));
                }
            }
        }
    }
    assert forall|j: int| 0 <= j < fraction@.len() implies is_digit(#[trigger] fraction@[j]) by {
        assert(fraction@[j] == n@[point_at + 1 + j]);
        if n@[point_at + 1 + j] == '.' {
            assert(dots(n@) >= 2) by {
                lemma_dots_two(n@, point(n@), point_at + 1 + j);
            }
        }
    }
    if point_at < n.len() {
        assert(fraction@ =~= n@.skip(point(n@) + 1));
    } else {
        assert(fraction@ =~= Seq::<char>::empty());
    }
    let w = capped_value(whole.as_slice());
    let f = fraction_part(mult, fraction.as_slice());
    assert(w * (mult as u128) + f <= u128::MAX) by (nonlinear_arith)
        requires
            w <= 0x1_0000_0000_0000_0000u128,
            mult <= u64::MAX,
            f <= mult,
    ;
    let total: u128 = w * (mult as u128) + f;
    proof {
        if digits_value(whole@) > u64::MAX {
            assert(digits_value(whole@) * (mult as nat) >= digits_value(whole@)) by (nonlinear_arith)
                requires
                    mult >= 1,
            ;
            assert(w * (mult as u128) >= w) by (nonlinear_arith)
                requires
                    mult >= 1,
            ;
        }
    }
    if total > u64::MAX as u128 {
        u64::MAX
    } else {
        total as u64
    }
}

proof fn lemma_dots_two(s: Seq<char>, a: int, b: int)
    requires
        0 <= a < b < s.len(),
        s[a] == '.',
        s[b] == '.',
    ensures
        dots(s) >= 2,
    decreases s.len(),
{
    if b < s.len() - 1 {
        lemma_dots_two(s.drop_last(), a, b);
    } else {
        lemma_dots_one(s.drop_last(), a);
    }
}

proof fn lemma_dots_one(s: Seq<char>, a: int)
    requires
        0 <= a < s.len(),
        s[a] == '.',
    ensures
        dots(s) >= 1,
    decreases s.len(),
{
    if a < s.len() - 1 {
        lemma_dots_one(s.drop_last(), a);
    }
}

/// Parses an LVM size field.
pub fn parse_size(size: &str) -> (r: u64)
    ensures
        r == size_of(size@),
{
    let v = chars_of(size);
    match parse_unsigned_chars(v.as_slice(), u64::MAX) {
        Some(bytes) => return bytes,
        None => {},
    }
    let t = trim_chars(v.as_slice());
    let mut pos: usize = 0;
    while pos < t.len() && (('0' <= t[pos] && t[pos] <= '9') || t[pos] == '.')
        invariant
            pos <= t@.len(),
            forall|j: int| 0 <= j < pos ==> is_digit(#[trigger] t@[j]) || t@[j] == '.',
        decreases t.len() - pos,
    {
        pos = pos + 1;
    }
    proof {
        lemma_number_end(t@, pos as int);
    }
    if pos == t.len() {
        proof {
            assert(t@.skip(pos as int) =~= Seq::<char>::empty());
        }
        return 0;
    }
    proof {
        assert(number_end(t@.skip(pos as int)) == Some(0int));
    }
    let number = subvec(t.as_slice(), 0, pos);
    let unit = subvec(t.as_slice(), pos, t.len());
    assert(number@ =~= t@.take(pos as int));
    assert(unit@ =~= t@.skip(pos as int));
    let mult = multiplier(unit.as_slice());
    assert forall|j: int| 0 <= j < number@.len() implies is_digit(#[trigger] number@[j]) || number@[j]
        == '.' by {
        assert(number@[j] == t@[j]);
    }
    scaled(number.as_slice(), mult)
}

/// Value of the last column named `name` among the first `n` columns that
/// the row has a value for.
pub open spec fn column_value(
    fields: Seq<LvmField>,
    values: Seq<String>,
    name: Seq<char>,
    n: nat,
) -> Option<String>
    decreases n,
{
    if n == 0 {
        None
    } else if n - 1 < values.len() && fields[n - 1].name@ == name {
        Some(values[n - 1])
    } else {
        column_value(fields, values, name, (n - 1) as nat)
    }
}

/// Value of column `name` in a row; a repeated column name gives its last
/// value.
pub open spec fn row_value(fields: Seq<LvmField>, values: Seq<String>, name: Seq<char>) -> Option<
    String,
> {
    column_value(fields, values, name, fields.len())
}

/// A value that is present and not empty.
pub open spec fn non_empty(o: Option<String>) -> Option<String> {
    match o {
        Some(s) => if s@.len() > 0 {
            Some(s)
        } else {
            None
        },
        None => None,
    }
}

/// A size column, read as `0` when absent.
pub open spec fn size_column(fields: Seq<LvmField>, values: Seq<String>, name: Seq<char>) -> u64 {
    size_of(
        match row_value(fields, values, name) {
            Some(s) => s@,
            None => "0"@,
        },
    )
}

/// The physical volume a `pv` row describes, keyed by its path.
pub open spec fn pv_of_row(fields: Seq<LvmField>, values: Seq<String>) -> Option<
    (Seq<char>, PhysicalVolume),
> {
    match row_value(fields, values, "pv_name"@) {
        Some(path) => Some(
            (
                path@,
                PhysicalVolume {
                    path,
                    vg_name: non_empty(row_value(fields, values, "vg_name"@)),
                    size: size_column(fields, values, "pv_size"@),
                    pv_uuid: non_empty(row_value(fields, values, "pv_uuid"@)),
                },
            ),
        ),
        None => None,
    }
}

/// The volume group a `vg` row describes, keyed by its name.
pub open spec fn vg_of_row(fields: Seq<LvmField>, values: Seq<String>) -> Option<
    (Seq<char>, VolumeGroup),
> {
    match row_value(fields, values, "vg_name"@) {
        Some(name) => Some(
            (
                name@,
                VolumeGroup {
                    name,
                    uuid: non_empty(row_value(fields, values, "vg_uuid"@)),
                    size: size_column(fields, values, "vg_size"@),
                    free: size_column(fields, values, "vg_free"@),
                },
            ),
        ),
        None => None,
    }
}

/// The logical volume an `lv` row describes, keyed by its path; rows
/// without path, group or name describe none.
pub open spec fn lv_of_row(fields: Seq<LvmField>, values: Seq<String>) -> Option<
    (Seq<char>, LogicalVolume),
> {
    match (
        row_value(fields, values, "lv_path"@),
        row_value(fields, values, "vg_name"@),
        row_value(fields, values, "lv_name"@),
    ) {
        (Some(path), Some(vg_name), Some(lv_name)) => Some(
            (
                path@,
                LogicalVolume {
                    path,
                    vg_name,
                    lv_name,
                    size: size_column(fields, values, "lv_size"@),
                    uuid: non_empty(row_value(fields, values, "lv_uuid"@)),
                },
            ),
        ),
        _ => None,
    }
}

/// Map after recording each row of one section, later rows replacing
/// earlier ones with the same key.
pub open spec fn fold_rows<V>(
    m: Map<Seq<char>, V>,
    fields: Seq<LvmField>,
    rows: Seq<LvmRow>,
    f: spec_fn(Seq<LvmField>, Seq<String>) -> Option<(Seq<char>, V)>,
) -> Map<Seq<char>, V>
    decreases rows.len(),
{
    if rows.len() == 0 {
        m
    } else {
        let prev = fold_rows(m, fields, rows.drop_last(), f);
        match f(fields, rows.last().values@) {
            Some((k, v)) => prev.insert(k, v),
            None => prev,
        }
    }
}

/// Map after recording the rows of every section with the given label.
pub open spec fn fold_sections<V>(
    sections: Seq<LvmSection>,
    label: Seq<char>,
    f: spec_fn(Seq<LvmField>, Seq<String>) -> Option<(Seq<char>, V)>,
) -> Map<Seq<char>, V>
    decreases sections.len(),
{
    if sections.len() == 0 {
        Map::empty()
    } else {
        let prev = fold_sections(sections.drop_last(), label, f);
        let s = sections.last();
        if s.report.label@ == label {
            fold_rows(prev, s.report.fields@, s.report.rows@, f)
        } else {
            prev
        }
    }
}

fn column(fields: &Vec<LvmField>, values: &Vec<String>, name: &str) -> (r: Option<String>)
    ensures
        r == row_value(fields@, values@, name@),
{
    let mut n = fields.len();
    while n > 0
        invariant
            n <= fields@.len(),
            row_value(fields@, values@, name@) == column_value(fields@, values@, name@, n as nat),
        decreases n,
    {
        if n - 1 < values.len() && str_eq(fields[n - 1].name.as_str(), name) {
            return Some(values[n - 1].clone());
        }
        n = n - 1;
    }
    None
}

fn keep_non_empty(o: Option<String>) -> (r: Option<String>)
    ensures
        r == non_empty(o),
{
    match o {
        Some(s) => {
            let v = chars_of(s.as_str());
            if v.len() > 0 {
                Some(s)
            } else {
                None
            }
        },
        None => None,
    }
}

fn size_field(fields: &Vec<LvmField>, values: &Vec<String>, name: &str) -> (r: u64)
    ensures
        r == size_column(fields@, values@, name@),
{
    match column(fields, values, name) {
        Some(s) => parse_size(s.as_str()),
        None => {
            let r = parse_size("0");
            r
        },
    }
}

/// Parse LVM reports (pvs, vgs, lvs) into a unified structure.
///
/// Only sections labelled `pv`, `vg` and `lv` respectively are read; a row
/// is keyed by PV path, VG name or LV path, and a later row replaces an
/// earlier one with the same key.
pub fn parse_lvm(pvs: &LvmReport, vgs: &LvmReport, lvs: &LvmReport) -> (r: LvmInfo)
    ensures
        r.physical_volumes@ == fold_sections(
            pvs.block_device@,
            "pv"@,
            |fs: Seq<LvmField>, vs: Seq<String>| pv_of_row(fs, vs),
        ),
        r.volume_groups@ == fold_sections(
            vgs.block_device@,
            "vg"@,
            |fs: Seq<LvmField>, vs: Seq<String>| vg_of_row(fs, vs),
        ),
        r.logical_volumes@ == fold_sections(
            lvs.block_device@,
            "lv"@,
            |fs: Seq<LvmField>, vs: Seq<String>| lv_of_row(fs, vs),
        ),
{
    let physical_volumes = parse_pvs(pvs);
    let volume_groups = parse_vgs(vgs);
    let logical_volumes = parse_lvs(lvs);
    LvmInfo { physical_volumes, volume_groups, logical_volumes }
}

fn parse_pvs(report: &LvmReport) -> (r: StrMap<PhysicalVolume>)
    ensures
        r@ == fold_sections(
            report.block_device@,
            "pv"@,
            |fs: Seq<LvmField>, vs: Seq<String>| pv_of_row(fs, vs),
        ),
{
    let ghost f = |fs: Seq<LvmField>, vs: Seq<String>| pv_of_row(fs, vs);
    let sections = &report.block_device;
    let mut map: StrMap<PhysicalVolume> = StrMap::new();
    let mut s: usize = 0;
    assert(sections@.take(0) =~= Seq::<LvmSection>::empty());
    while s < sections.len()
        invariant
            s <= sections@.len(),
            map@ == fold_sections(sections@.take(s as int), "pv"@, f),
            f == |fs: Seq<LvmField>, vs: Seq<String>| pv_of_row(fs, vs),
        decreases sections.len() - s,
    {
        assert(sections@.take(s + 1).drop_last() =~= sections@.take(s as int));
        let data = &sections[s].report;
        if str_eq(data.label.as_str(), "pv") {
            let ghost m0 = map@;
            let mut i: usize = 0;
            assert(data.rows@.take(0) =~= Seq::<LvmRow>::empty());
            while i < data.rows.len()
                invariant
                    i <= data.rows@.len(),
                    map@ == fold_rows(m0, data.fields@, data.rows@.take(i as int), f),
                    f == |fs: Seq<LvmField>, vs: Seq<String>| pv_of_row(fs, vs),
                decreases data.rows.len() - i,
            {
                assert(data.rows@.take(i + 1).drop_last() =~= data.rows@.take(i as int));
                let values = &data.rows[i].values;
                assert(f(data.fields@, values@) == pv_of_row(data.fields@, values@));
                match column(&data.fields, values, "pv_name") {
                    Some(path) => {
                        let vg_name = keep_non_empty(column(&data.fields, values, "vg_name"));
                        let size = size_field(&data.fields, values, "pv_size");
                        let pv_uuid = keep_non_empty(column(&data.fields, values, "pv_uuid"));
                        let key = path.clone();
                        let pv = PhysicalVolume { path, vg_name, size, pv_uuid };
                        assert(f(data.fields@, data.rows@[i as int].values@) == Some((key@, pv)));
                        map.insert(key, pv);
                    },
                    None => {},
                }
                i = i + 1;
            }
            assert(data.rows@.take(data.rows@.len() as int) =~= data.rows@);
        }
        s = s + 1;
    }
    assert(sections@.take(sections@.len() as int) =~= sections@);
    map
}

fn parse_vgs(report: &LvmReport) -> (r: StrMap<VolumeGroup>)
    ensures
        r@ == fold_sections(
            report.block_device@,
            "vg"@,
            |fs: Seq<LvmField>, vs: Seq<String>| vg_of_row(fs, vs),
        ),
{
    let ghost f = |fs: Seq<LvmField>, vs: Seq<String>| vg_of_row(fs, vs);
    let sections = &report.block_device;
    let mut map: StrMap<VolumeGroup> = StrMap::new();
    let mut s: usize = 0;
    assert(sections@.take(0) =~= Seq::<LvmSection>::empty());
    while s < sections.len()
        invariant
            s <= sections@.len(),
            map@ == fold_sections(sections@.take(s as int), "vg"@, f),
            f == |fs: Seq<LvmField>, vs: Seq<String>| vg_of_row(fs, vs),
        decreases sections.len() - s,
    {
        assert(sections@.take(s + 1).drop_last() =~= sections@.take(s as int));
        let data = &sections[s].report;
        if str_eq(data.label.as_str(), "vg") {
            let ghost m0 = map@;
            let mut i: usize = 0;
            assert(data.rows@.take(0) =~= Seq::<LvmRow>::empty());
            while i < data.rows.len()
                invariant
                    i <= data.rows@.len(),
                    map@ == fold_rows(m0, data.fields@, data.rows@.take(i as int), f),
                    f == |fs: Seq<LvmField>, vs: Seq<String>| vg_of_row(fs, vs),
                decreases data.rows.len() - i,
            {
                assert(data.rows@.take(i + 1).drop_last() =~= data.rows@.take(i as int));
                let values = &data.rows[i].values;
                assert(f(data.fields@, values@) == vg_of_row(data.fields@, values@));
                match column(&data.fields, values, "vg_name") {
                    Some(name) => {
                        let uuid = keep_non_empty(column(&data.fields, values, "vg_uuid"));
                        let size = size_field(&data.fields, values, "vg_size");
                        let free = size_field(&data.fields, values, "vg_free");
                        let key = name.clone();
                        let vg = VolumeGroup { name, uuid, size, free };
                        assert(f(data.fields@, data.rows@[i as int].values@) == Some((key@, vg)));
                        map.insert(key, vg);
                    },
                    None => {},
                }
                i = i + 1;
            }
            assert(data.rows@.take(data.rows@.len() as int) =~= data.rows@);
        }
        s = s + 1;
    }
    assert(sections@.take(sections@.len() as int) =~= sections@);
    map
}

fn parse_lvs(report: &LvmReport) -> (r: StrMap<LogicalVolume>)
    ensures
        r@ == fold_sections(
            report.block_device@,
            "lv"@,
            |fs: Seq<LvmField>, vs: Seq<String>| lv_of_row(fs, vs),
        ),
{
    let ghost f = |fs: Seq<LvmField>, vs: Seq<String>| lv_of_row(fs, vs);
    let sections = &report.block_device;
    let mut map: StrMap<LogicalVolume> = StrMap::new();
    let mut s: usize = 0;
    assert(sections@.take(0) =~= Seq::<LvmSection>::empty());
    while s < sections.len()
        invariant
            s <= sections@.len(),
            map@ == fold_sections(sections@.take(s as int), "lv"@, f),
            f == |fs: Seq<LvmField>, vs: Seq<String>| lv_of_row(fs, vs),
        decreases sections.len() - s,
    {
        assert(sections@.take(s + 1).drop_last() =~= sections@.take(s as int));
        let data = &sections[s].report;
        if str_eq(data.label.as_str(), "lv") {
            let ghost m0 = map@;
            let mut i: usize = 0;
            assert(data.rows@.take(0) =~= Seq::<LvmRow>::empty());
            while i < data.rows.len()
                invariant
                    i <= data.rows@.len(),
                    map@ == fold_rows(m0, data.fields@, data.rows@.take(i as int), f),
                    f == |fs: Seq<LvmField>, vs: Seq<String>| lv_of_row(fs, vs),
                decreases data.rows.len() - i,
            {
                assert(data.rows@.take(i + 1).drop_last() =~= data.rows@.take(i as int));
                let values = &data.rows[i].values;
                assert(f(data.fields@, values@) == lv_of_row(data.fields@, values@));
                let path = column(&data.fields, values, "lv_path");
                let vg_name = column(&data.fields, values, "vg_name");
                let lv_name = column(&data.fields, values, "lv_name");
                match (path, vg_name, lv_name) {
                    (Some(path), Some(vg_name), Some(lv_name)) => {
                        let size = size_field(&data.fields, values, "lv_size");
                        let uuid = keep_non_empty(column(&data.fields, values, "lv_uuid"));
                        let key = path.clone();
                        let lv = LogicalVolume { path, vg_name, lv_name, size, uuid };
                        assert(f(data.fields@, data.rows@[i as int].values@) == Some((key@, lv)));
                        map.insert(key, lv);
                    },
                    _ => {},
                }
                i = i + 1;
            }
            assert(data.rows@.take(data.rows@.len() as int) =~= data.rows@);
        }
        s = s + 1;
    }
    assert(sections@.take(sections@.len() as int) =~= sections@);
    map
}


/// A count of bytes, saturated at `u64::MAX`.
pub open spec fn saturated(v: nat) -> u64 {
    if v > u64::MAX {
        u64::MAX
    } else {
        v as u64
    }
}

/// A unit spelled with ASCII letters, in any case, that reads as `word` in
/// upper case.
pub open spec fn spells(u: Seq<char>, word: Seq<char>) -> bool {
    &&& u.len() == word.len()
    &&& forall|i: int|
        0 <= i < u.len() ==> (#[trigger] u[i] == word[i] || (u[i] as int) == (word[i] as int)
            + 32)
}

proof fn lemma_letter_not_number(c: char, w: char)
    requires
        'A' <= w <= 'Z',
        c == w || (c as int) == (w as int) + 32,
    ensures
        !is_digit(c),
        c != '.',
        c != '+',
        !is_ws(c),
{
}

proof fn lemma_spells_upper(u: Seq<char>, word: Seq<char>)
    requires
        spells(u, word),
        forall|i: int| 0 <= i < word.len() ==> 'A' <= #[trigger] word[i] <= 'Z',
    ensures
        u.map_values(|c: char| ascii_upper(c)) == word,
{
    assert(u.map_values(|c: char| ascii_upper(c)) =~= word);
}

proof fn lemma_digits_no_dots(n: Seq<char>)
    requires
        all_digits(n),
    ensures
        dots(n) == 0,
        point(n) == n.len(),
    decreases n.len(),
{
    if n.len() > 0 {
        lemma_digits_no_dots(n.drop_last());
        lemma_digits_no_dots(n.drop_first());
    }
}

/// A whole number scaled by a multiplier is exactly their product.
pub proof fn law_whole_number_scales_exactly(n: Seq<char>, mult: nat)
    requires
        n.len() > 0,
        all_digits(n),
    ensures
        scaled_decimal(n, mult) == digits_value(n) * mult,
{
    lemma_digits_no_dots(n);
    assert(n.take(n.len() as int) =~= n);
}

/// An LVM size written as a number followed by a unit letter and an optional
/// `B`, in any case, is the number times the unit's power of 1024, rounded
/// down and saturated at `u64::MAX`: `B` is 1024⁰, `K` 1024¹, `M` 1024²,
/// `G` 1024³ and `T` 1024⁴.
pub proof fn law_lvm_size_units(n: Seq<char>, u: Seq<char>)
    requires
        forall|j: int| 0 <= j < n.len() ==> is_digit(#[trigger] n[j]) || n[j] == '.',
    ensures
        spells(u, "B"@) ==> size_of(n + u) == saturated(scaled_decimal(n, 1)),
        spells(u, "K"@) || spells(u, "KB"@) ==> size_of(n + u) == saturated(
            scaled_decimal(n, 1024),
        ),
        spells(u, "M"@) || spells(u, "MB"@) ==> size_of(n + u) == saturated(
            scaled_decimal(n, 1024 * 1024),
        ),
        spells(u, "G"@) || spells(u, "GB"@) ==> size_of(n + u) == saturated(
            scaled_decimal(n, 1024 * 1024 * 1024),
        ),
        spells(u, "T"@) || spells(u, "TB"@) ==> size_of(n + u) == saturated(
            scaled_decimal(n, 1024 * 1024 * 1024 * 1024),
        ),
{
    reveal_strlit("B");
    reveal_strlit("K");
    reveal_strlit("KB");
    reveal_strlit("M");
    reveal_strlit("MB");
    reveal_strlit("G");
    reveal_strlit("GB");
    reveal_strlit("T");
    reveal_strlit("TB");
    let words = seq!["B"@, "K"@, "KB"@, "M"@, "MB"@, "G"@, "GB"@, "T"@, "TB"@];
    if exists|w: int| 0 <= w < words.len() && spells(u, #[trigger] words[w]) {
        let w = choose|w: int| 0 <= w < words.len() && spells(u, #[trigger] words[w]);
        let word = words[w];
        assert(forall|i: int| 0 <= i < word.len() ==> 'A' <= #[trigger] word[i] <= 'Z');
        lemma_spells_upper(u, word);
        lemma_letter_not_number(u[0], word[0]);
        lemma_letter_not_number(u[u.len() - 1], word[word.len() - 1]);
        let s = n + u;
        let k = n.len() as int;
        assert(s[k] == u[0]);
        assert(!all_digits(s));
        if n.len() > 0 {
            assert(s[0] == n[0]);
        } else {
            assert(s[0] == u[0]);
        }
        assert(unsigned_digits(s) == s);
        assert(parse_unsigned(s, u64::MAX as nat) is None);
        assert(s.last() == u[u.len() - 1]);
        assert(leading_ws(s) == 0);
        assert(trailing_ws(s) == 0);
        assert(trim(s) =~= s);
        assert forall|j: int| 0 <= j < k implies is_digit(#[trigger] s[j]) || s[j] == '.' by {
            assert(s[j] == n[j]);
        }
        lemma_number_end(s, k);
        assert(s.skip(k) =~= u);
        assert(number_end(u) == Some(0int));
        assert(s.take(k) =~= n);
        let up = u.map_values(|c: char| ascii_upper(c));
        assert(up == word);
        assert(unit_multiplier(u) == unit_multiplier(s.skip(k)));
    }
    assert(spells(u, "B"@) ==> spells(u, words[0]));
    assert(spells(u, "K"@) ==> spells(u, words[1]));
    assert(spells(u, "KB"@) ==> spells(u, words[2]));
    assert(spells(u, "M"@) ==> spells(u, words[3]));
    assert(spells(u, "MB"@) ==> spells(u, words[4]));
    assert(spells(u, "G"@) ==> spells(u, words[5]));
    assert(spells(u, "GB"@) ==> spells(u, words[6]));
    assert(spells(u, "T"@) ==> spells(u, words[7]));
    assert(spells(u, "TB"@) ==> spells(u, words[8]));
}

/// A plain whole number of bytes is that many bytes.
pub proof fn law_lvm_plain_bytes(d: Seq<char>)
    requires
        d.len() > 0,
        all_digits(d),
        digits_value(d) <= u64::MAX,
    ensures
        size_of(d) == digits_value(d),
{
    if d[0] == '+' {
        assert(is_digit(d[0]));
    }
    assert(unsigned_digits(d) == d);
}

/// A number with a decimal point and no unit has no size.
pub proof fn law_lvm_number_without_unit(n: Seq<char>, k: int)
    requires
        0 <= k < n.len(),
        n[k] == '.',
        forall|j: int| 0 <= j < n.len() ==> is_digit(#[trigger] n[j]) || n[j] == '.',
    ensures
        size_of(n) == 0,
{
    assert(!all_digits(n)) by {
        assert(!is_digit(n[k]));
    }
    if n[0] == '+' {
        assert(false);
    }
    assert(unsigned_digits(n) == n);
    assert(!is_ws(n[0]));
    assert(!is_ws(n.last())) by {
        assert(n.last() == n[n.len() - 1]);
    }
    assert(leading_ws(n) == 0);
    assert(trailing_ws(n) == 0);
    assert(trim(n) =~= n);
    lemma_number_end(n, n.len() as int);
    assert(n.skip(n.len() as int) =~= Seq::<char>::empty());
}

/// A unit of ASCII letters that is none of `B`, `K[B]`, `M[B]`, `G[B]`,
/// `T[B]` in any case scales the number by 1.
pub proof fn law_lvm_unknown_unit(n: Seq<char>, u: Seq<char>)
    requires
        forall|j: int| 0 <= j < n.len() ==> is_digit(#[trigger] n[j]) || n[j] == '.',
        u.len() > 0,
        forall|j: int| 0 <= j < u.len() ==> ('A' <= #[trigger] u[j] <= 'Z' || 'a' <= u[j] <= 'z'),
        !spells(u, "B"@),
        !spells(u, "K"@),
        !spells(u, "KB"@),
        !spells(u, "M"@),
        !spells(u, "MB"@),
        !spells(u, "G"@),
        !spells(u, "GB"@),
        !spells(u, "T"@),
        !spells(u, "TB"@),
    ensures
        size_of(n + u) == saturated(scaled_decimal(n, 1)),
{
    reveal_strlit("B");
    reveal_strlit("K");
    reveal_strlit("KB");
    reveal_strlit("M");
    reveal_strlit("MB");
    reveal_strlit("G");
    reveal_strlit("GB");
    reveal_strlit("T");
    reveal_strlit("TB");
    let up = u.map_values(|c: char| ascii_upper(c));
    let words = seq!["B"@, "K"@, "KB"@, "M"@, "MB"@, "G"@, "GB"@, "T"@, "TB"@];
    assert forall|w: int| 0 <= w < words.len() implies up != #[trigger] words[w] by {
        let word = words[w];
        if up == word {
            assert(spells(u, word)) by {
                assert forall|i: int| 0 <= i < u.len() implies (#[trigger] u[i] == word[i] || (
                u[i] as int) == (word[i] as int) + 32) by {
                    assert(up[i] == ascii_upper(u[i]));
                }
            }
        }
    }
    assert(up != words[0] && up != words[1] && up != words[2] && up != words[3] && up
        != words[4] && up != words[5] && up != words[6] && up != words[7] && up != words[8]);
    assert(unit_multiplier(u) == 1);
    let s = n + u;
    let k = n.len() as int;
    assert(s[k] == u[0]);
    assert(!all_digits(s));
    if n.len() > 0 {
        assert(s[0] == n[0]);
    } else {
        assert(s[0] == u[0]);
    }
    assert(unsigned_digits(s) == s);
    assert(s.last() == u[u.len() - 1]);
    assert(leading_ws(s) == 0);
    assert(trailing_ws(s) == 0);
    assert(trim(s) =~= s);
    assert forall|j: int| 0 <= j < k implies is_digit(#[trigger] s[j]) || s[j] == '.' by {
        assert(s[j] == n[j]);
    }
    lemma_number_end(s, k);
    assert(s.skip(k) =~= u);
    assert(number_end(u) == Some(0int));
    assert(s.take(k) =~= n);
}

} // verus!
