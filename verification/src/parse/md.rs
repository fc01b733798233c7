//! `/proc/mdstat` content.

use vstd::prelude::*;

use crate::collections::StrMap;
use crate::text::{
    find_char_from, lemma_find_char_unique, chars_eq, chars_of, contains_chars, contains_seq, find_char, find_char_exec, has_prefix,
    is_digit, lemma_find_char, lines, lines_of, parse_unsigned, parse_unsigned_chars,
    starts_with_chars, string_from_chars, subvec, trim, trim_chars, views, words, words_of,
};

verus! {

/// Parsed MD RAID information keyed by array name.
pub struct MdInfo {
    /// Arrays: name -> information.
    pub arrays: StrMap<ArrayInfo>,
}

/// One MD array.
pub struct ArrayInfo {
    pub name: String,
    pub level: String,
    pub total_devices: usize,
    pub active_devices: usize,
    pub members: Vec<String>,
    pub state: MdState,
}

/// Health of an MD array.
#[derive(Debug, Clone, Copy, PartialEq, Eq, Structural)]
pub enum MdState {
    Clean,
    Resyncing,
    Degraded,
    Inconsistent,
}

/// What one parsed array line describes.
pub struct ArraySpec {
    pub name: Seq<char>,
    pub level: Seq<char>,
    pub total_devices: nat,
    pub active_devices: nat,
    pub members: Seq<Seq<char>>,
    pub state: MdState,
}

pub open spec fn text_active() -> Seq<char> {
    seq!['a', 'c', 't', 'i', 'v', 'e']
}

pub open spec fn text_inactive() -> Seq<char> {
    seq!['i', 'n', 'a', 'c', 't', 'i', 'v', 'e']
}

pub open spec fn text_resync() -> Seq<char> {
    seq!['r', 'e', 's', 'y', 'n', 'c']
}

pub open spec fn text_recovery() -> Seq<char> {
    seq!['r', 'e', 'c', 'o', 'v', 'e', 'r', 'y']
}

/// `[x/y]` contents: exactly one `/` between two non-empty digit runs.
pub open spec fn count_pair(inner: Seq<char>) -> Option<(nat, nat)> {
    match find_char(inner, '/') {
        Some(j) => {
            let a = inner.take(j);
            let b = inner.skip(j + 1);
            if find_char(b, '/') is None && a.len() > 0 && b.len() > 0 && (forall|i: int|
                0 <= i < a.len() ==> is_digit(#[trigger] a[i])) && (forall|i: int|
                0 <= i < b.len() ==> is_digit(#[trigger] b[i])) {
                Some((usize_or_zero(a), usize_or_zero(b)))
            } else {
                None
            }
        },
        None => None,
    }
}

/// A decimal `usize`, or zero when it does not fit.
pub open spec fn usize_or_zero(d: Seq<char>) -> nat {
    match parse_unsigned(d, usize::MAX as nat) {
        Some(v) => v,
        None => 0,
    }
}

/// The first `[total/active]` pair at or after `start`, or `(0, 0)`.
pub open spec fn counts_from(s: Seq<char>, start: int) -> (nat, nat)
    decreases s.len() - start,
{
    if start < 0 || start >= s.len() {
        (0, 0)
    } else {
        match find_char(s.skip(start), '[') {
            None => (0, 0),
            Some(rel) => {
                let open = start + rel;
                if rel < 0 {
                    (0, 0)
                } else {
                    let pair = match find_char(s.skip(open + 1), ']') {
                        Some(rc) => count_pair(s.subrange(open + 1, open + 1 + rc)),
                        None => None,
                    };
                    match pair {
                        Some(p) => p,
                        None => {
                            proof {
                                lemma_find_char(s.skip(start), '[');
                            }
                            counts_from(s, open + 1)
                        },
                    }
                }
            },
        }
    }
}

/// Device names of member tokens such as `sdb1[1]`.
pub open spec fn member_names(toks: Seq<Seq<char>>) -> Seq<Seq<char>>
    decreases toks.len(),
{
    if toks.len() == 0 {
        seq![]
    } else {
        let rest = member_names(toks.drop_last());
        match find_char(toks.last(), '[') {
            Some(p) => rest.push(toks.last().take(p)),
            None => rest,
        }
    }
}

/// What `name : details` describes, with the following indented text.
pub open spec fn array_line(name: Seq<char>, details: Seq<char>, tail_text: Seq<char>) -> Option<
    ArraySpec,
> {
    let toks = words(details);
    if toks.len() < 2 {
        None
    } else {
        let counts = counts_from(tail_text, 0);
        Some(
            ArraySpec {
                name,
                level: toks[1],
                total_devices: counts.0,
                active_devices: counts.1,
                members: member_names(toks.skip(2)),
                state: if toks[0] == text_active() && counts.1 < counts.0 {
                    MdState::Degraded
                } else if contains_seq(details, text_resync()) || contains_seq(
                    details,
                    text_recovery(),
                ) {
                    MdState::Resyncing
                } else {
                    MdState::Clean
                },
            },
        )
    }
}

/// Lines after `from` that are blank or indented, up to the first other line.
pub open spec fn detail_lines(ls: Seq<Seq<char>>, from: int) -> Seq<Seq<char>>
    decreases ls.len() - from,
{
    if from < 0 || from >= ls.len() {
        seq![]
    } else if trim(ls[from]).len() == 0 || has_prefix(ls[from], seq![' ']) {
        seq![ls[from]] + detail_lines(ls, from + 1)
    } else {
        seq![]
    }
}

/// Pieces joined with `\n`.
pub open spec fn join_lines(parts: Seq<Seq<char>>) -> Seq<char>
    decreases parts.len(),
{
    if parts.len() == 0 {
        seq![]
    } else if parts.len() == 1 {
        parts[0]
    } else {
        join_lines(parts.drop_last()) + seq!['\n'] + parts.last()
    }
}

/// The array that line `idx` of `ls` defines, if it defines one.
pub open spec fn array_at(ls: Seq<Seq<char>>, idx: int) -> Option<ArraySpec> {
    let line = trim(ls[idx]);
    match find_char(line, ':') {
        Some(c) => {
            let name = trim(line.take(c));
            let details = trim(line.skip(c + 1));
            let dw = words(details);
            if !has_prefix(line, seq![' ']) && dw.len() > 0 && (dw[0] == text_active() || dw[0]
                == text_inactive()) {
                array_line(name, details, join_lines(detail_lines(ls, idx + 1).push(details)))
            } else {
                None
            }
        },
        None => None,
    }
}

/// Arrays defined by the first `n` lines; later definitions replace earlier ones.
pub open spec fn arrays_upto(ls: Seq<Seq<char>>, n: int) -> Map<Seq<char>, ArraySpec>
    decreases n,
{
    if n <= 0 {
        Map::empty()
    } else {
        let m = arrays_upto(ls, n - 1);
        match array_at(ls, n - 1) {
            Some(a) => m.insert(a.name, a),
            None => m,
        }
    }
}

/// The arrays described by `/proc/mdstat` content.
pub open spec fn mdstat_arrays(content: Seq<char>) -> Map<Seq<char>, ArraySpec> {
    arrays_upto(lines(content), lines(content).len() as int)
}

impl ArrayInfo {
    /// Whether this value holds exactly what `a` describes.
    pub open spec fn matches(&self, a: ArraySpec) -> bool {
        &&& self.name@ == a.name
        &&& self.level@ == a.level
        &&& self.total_devices == a.total_devices
        &&& self.active_devices == a.active_devices
        &&& self.members@.map_values(|m: String| m@) == a.members
        &&& self.state == a.state
    }
}

impl MdInfo {
    /// Whether this value holds exactly the arrays in `m`.
    pub open spec fn describes(&self, m: Map<Seq<char>, ArraySpec>) -> bool {
        &&& self.arrays@.dom() == m.dom()
        &&& forall|k: Seq<char>| #[trigger] m.contains_key(k) ==> self.arrays@[k].matches(m[k])
    }
}

/// Parses the contents between `[` and `]` as `total/active`.
fn count_pair_exec(inner: &[char]) -> (r: Option<(usize, usize)>)
    ensures
        match r {
            Some((a, b)) => count_pair(inner@) == Some((a as nat, b as nat)),
            None => count_pair(inner@) is None,
        },
{
    let j = match find_char_exec(inner, '/') {
        Some(j) => j,
        None => return None,
    };
    proof {
        lemma_find_char(inner@, '/');
    }
    assert(j < inner.len());
    let a = subvec(inner, 0, j);
    let b = subvec(inner, j + 1, inner.len());
    assert(a@ =~= inner@.take(j as int));
    assert(b@ =~= inner@.skip(j + 1));
    if find_char_exec(b.as_slice(), '/').is_some() || a.len() == 0 || b.len() == 0 {
        return None;
    }
    if !all_ascii_digits(a.as_slice()) || !all_ascii_digits(b.as_slice()) {
        return None;
    }
    let x = match parse_unsigned_chars(a.as_slice(), usize::MAX as u64) {
        Some(v) => v as usize,
        None => 0,
    };
    let y = match parse_unsigned_chars(b.as_slice(), usize::MAX as u64) {
        Some(v) => v as usize,
        None => 0,
    };
    Some((x, y))
}

/// Whether every character is an ASCII digit.
fn all_ascii_digits(v: &[char]) -> (r: bool)
    ensures
        r == (forall|i: int| 0 <= i < v@.len() ==> is_digit(#[trigger] v@[i])),
{
    let mut i: usize = 0;
    while i < v.len()
        invariant
            i <= v@.len(),
            forall|j: int| 0 <= j < i ==> is_digit(#[trigger] v@[j]),
        decreases v.len() - i,
    {
        if !('0' <= v[i] && v[i] <= '9') {
            assert(!is_digit(v@[i as int]));
            return false;
        }
        i = i + 1;
    }
    true
}

/// Finds the first `[total/active]` pair; `(0, 0)` when there is none.
fn extract_device_counts(content: &[char]) -> (r: (usize, usize))
    ensures
        (r.0 as nat, r.1 as nat) == counts_from(content@, 0),
{
    let mut start: usize = 0;
    while start < content.len()
        invariant
            start <= content@.len(),
            counts_from(content@, 0) == counts_from(content@, start as int),
        decreases content.len() - start,
    {
        let open = match find_char_from(content, start, '[') {
            Some(open) => open,
            None => return (0, 0),
        };
        let pair = match find_char_from(content, open + 1, ']') {
            Some(close) => {
                let inner = subvec(content, open + 1, close);
                count_pair_exec(inner.as_slice())
            },
            None => None,
        };
        match pair {
            Some(p) => {
                return p;
            },
            None => {},
        }
        start = open + 1;
    }
    (0, 0)
}

/// Device names of member tokens: the part before `[`.
fn member_names_exec(toks: &[Vec<char>]) -> (r: Vec<String>)
    ensures
        r@.map_values(|m: String| m@) == member_names(views(toks@)),
{
    let mut r: Vec<String> = Vec::new();
    let mut i: usize = 0;
    while i < toks.len()
        invariant
            i <= toks@.len(),
            r@.map_values(|m: String| m@) == member_names(views(toks@).take(i as int)),
        decreases toks.len() - i,
    {
        let ghost before = r@;
        assert(views(toks@).take(i + 1).drop_last() =~= views(toks@).take(i as int));
        assert(views(toks@).take(i + 1).last() == toks@[i as int]@);
        match find_char_exec(toks[i].as_slice(), '[') {
            Some(p) => {
                proof {
                    lemma_find_char(toks@[i as int]@, '[');
                }
                let name = subvec(toks[i].as_slice(), 0, p);
                r.push(string_from_chars(name.as_slice()));
                assert(r@.map_values(|m: String| m@) =~= before.map_values(|m: String| m@).push(
                    name@,
                ));
            },
            None => {},
        }
        i = i + 1;
    }
    assert(views(toks@).take(toks.len() as int) =~= views(toks@));
    r
}

/// Builds the array defined by `name : details`, or `None` when the details
/// hold fewer than two words.
fn parse_array_line(name: &[char], details: &[char], tail_text: &[char]) -> (r: Option<ArrayInfo>)
    ensures
        match r {
            Some(a) => array_line(name@, details@, tail_text@) matches Some(s) && a.matches(s),
            None => array_line(name@, details@, tail_text@) is None,
        },
{
    let tokens = words_of(details);
    if tokens.len() < 2 {
        return None;
    }
    assert(views(tokens@)[0] == tokens@[0]@);
    assert(views(tokens@)[1] == tokens@[1]@);
    let rest = tail_tokens(tokens.as_slice());
    assert(views(rest@) =~= views(tokens@).skip(2));
    let members = member_names_exec(rest.as_slice());
    let (total, active) = extract_device_counts(tail_text);
    let active_text: [char; 6] = ['a', 'c', 't', 'i', 'v', 'e'];
    let resync_text: [char; 6] = ['r', 'e', 's', 'y', 'n', 'c'];
    let recovery_text: [char; 8] = ['r', 'e', 'c', 'o', 'v', 'e', 'r', 'y'];
    assert(active_text@ == text_active());
    assert(resync_text@ == text_resync());
    assert(recovery_text@ == text_recovery());
    let state = if chars_eq(tokens[0].as_slice(), active_text.as_slice()) && active < total {
        MdState::Degraded
    } else if contains_chars(details, resync_text.as_slice()) || contains_chars(
        details,
        recovery_text.as_slice(),
    ) {
        MdState::Resyncing
    } else {
        MdState::Clean
    };
    Some(
        ArrayInfo {
            name: string_from_chars(name),
            level: string_from_chars(tokens[1].as_slice()),
            total_devices: total,
            active_devices: active,
            members,
            state,
        },
    )
}

/// Copies of all tokens after the first two.
fn tail_tokens(toks: &[Vec<char>]) -> (r: Vec<Vec<char>>)
    requires
        toks@.len() >= 2,
    ensures
        views(r@) == views(toks@).skip(2),
{
    let mut r: Vec<Vec<char>> = Vec::new();
    let mut i: usize = 2;
    while i < toks.len()
        invariant
            2 <= i <= toks@.len(),
            views(r@) == views(toks@).subrange(2, i as int),
        decreases toks.len() - i,
    {
        let ghost before = r@;
        let t = subvec(toks[i].as_slice(), 0, toks[i].len());
        assert(t@ =~= toks@[i as int]@);
        r.push(t);
        assert(views(r@) =~= views(before).push(t@));
        assert(views(r@) =~= views(toks@).subrange(2, i + 1));
        i = i + 1;
    }
    assert(views(toks@).subrange(2, toks.len() as int) =~= views(toks@).skip(2));
    r
}

/// Blank or indented lines following line `from - 1`.
fn detail_lines_exec(ls: &[Vec<char>], from: usize) -> (r: Vec<Vec<char>>)
    requires
        from <= ls@.len(),
    ensures
        views(r@) == detail_lines(views(ls@), from as int),
{
    let mut r: Vec<Vec<char>> = Vec::new();
    let mut j = from;
    let space: [char; 1] = [' '];
    assert(space@ == seq![' ']);
    assert(views(r@) + detail_lines(views(ls@), from as int) =~= detail_lines(
        views(ls@),
        from as int,
    ));
    while j < ls.len()
        invariant
            from <= j <= ls@.len(),
            space@ == seq![' '],
            detail_lines(views(ls@), from as int) == views(r@) + detail_lines(
                views(ls@),
                j as int,
            ),
        decreases ls.len() - j,
    {
        assert(views(ls@)[j as int] == ls@[j as int]@);
        let t = trim_chars(ls[j].as_slice());
        if t.len() == 0 || starts_with_chars(ls[j].as_slice(), space.as_slice()) {
            let ghost before = r@;
            let copy = subvec(ls[j].as_slice(), 0, ls[j].len());
            assert(copy@ =~= ls@[j as int]@);
            r.push(copy);
            assert(views(r@) =~= views(before).push(copy@));
            assert(views(r@) + detail_lines(views(ls@), j + 1) =~= views(before) + detail_lines(
                views(ls@),
                j as int,
            ));
            j = j + 1;
        } else {
            assert(views(r@) + detail_lines(views(ls@), j as int) =~= views(r@));
            return r;
        }
    }
    assert(views(r@) + detail_lines(views(ls@), j as int) =~= views(r@));
    r
}

/// Pieces joined with `\n`.
fn join_lines_exec(parts: &[Vec<char>]) -> (r: Vec<char>)
    ensures
        r@ == join_lines(views(parts@)),
{
    let mut r: Vec<char> = Vec::new();
    let mut i: usize = 0;
    while i < parts.len()
        invariant
            i <= parts@.len(),
            r@ == join_lines(views(parts@).take(i as int)),
        decreases parts.len() - i,
    {
        let ghost before = r@;
        assert(views(parts@).take(i + 1).drop_last() =~= views(parts@).take(i as int));
        assert(views(parts@).take(i + 1).last() == parts@[i as int]@);
        if i > 0 {
            r.push('\n');
        }
        let mut k: usize = 0;
        let ghost mid = r@;
        while k < parts[i].len()
            invariant
                i < parts@.len(),
                k <= parts@[i as int]@.len(),
                r@ == mid + parts@[i as int]@.take(k as int),
            decreases parts@[i as int]@.len() - k,
        {
            r.push(parts[i][k]);
            k = k + 1;
            assert(r@ =~= mid + parts@[i as int]@.take(k as int));
        }
        assert(parts@[i as int]@.take(k as int) =~= parts@[i as int]@);
        proof {
            if i == 0 {
                assert(before =~= Seq::<char>::empty());
                assert(r@ =~= parts@[0]@);
            } else {
                assert(mid =~= before + seq!['\n']);
            }
        }
        i = i + 1;
    }
    assert(views(parts@).take(parts.len() as int) =~= views(parts@));
    r
}

/// The array defined by line `idx`, if any.
fn array_at_exec(ls: &[Vec<char>], idx: usize) -> (r: Option<ArrayInfo>)
    requires
        idx < ls@.len(),
    ensures
        match r {
            Some(a) => array_at(views(ls@), idx as int) matches Some(s) && a.matches(s),
            None => array_at(views(ls@), idx as int) is None,
        },
{
    assert(views(ls@)[idx as int] == ls@[idx as int]@);
    let line = trim_chars(ls[idx].as_slice());
    let c = match find_char_exec(line.as_slice(), ':') {
        Some(c) => c,
        None => return None,
    };
    proof {
        lemma_find_char(line@, ':');
    }
    assert(c < line.len());
    let before = subvec(line.as_slice(), 0, c);
    let after = subvec(line.as_slice(), c + 1, line.len());
    assert(before@ =~= line@.take(c as int));
    assert(after@ =~= line@.skip(c + 1));
    let name = trim_chars(before.as_slice());
    let details = trim_chars(after.as_slice());
    let space: [char; 1] = [' '];
    assert(space@ == seq![' ']);
    if starts_with_chars(line.as_slice(), space.as_slice()) {
        return None;
    }
    let dw = words_of(details.as_slice());
    let active_text: [char; 6] = ['a', 'c', 't', 'i', 'v', 'e'];
    let inactive_text: [char; 8] = ['i', 'n', 'a', 'c', 't', 'i', 'v', 'e'];
    assert(active_text@ == text_active());
    assert(inactive_text@ == text_inactive());
    if dw.len() == 0 {
        return None;
    }
    assert(views(dw@)[0] == dw@[0]@);
    if !chars_eq(dw[0].as_slice(), active_text.as_slice()) && !chars_eq(
        dw[0].as_slice(),
        inactive_text.as_slice(),
    ) {
        return None;
    }
    let mut tail = detail_lines_exec(ls, idx + 1);
    let ghost tail_before = tail@;
    let details_copy = subvec(details.as_slice(), 0, details.len());
    assert(details_copy@ =~= details@);
    tail.push(details_copy);
    assert(views(tail@) =~= views(tail_before).push(details@));
    let tail_text = join_lines_exec(tail.as_slice());
    parse_array_line(name.as_slice(), details.as_slice(), tail_text.as_slice())
}

/// Parses `/proc/mdstat` content.
///
/// Each `name : active|inactive <level> <members...>` line defines one array;
/// its `[total/active]` device counts come from the blank or indented lines
/// that follow it.
pub fn parse_mdstat(content: &str) -> (r: MdInfo)
    ensures
        r.describes(mdstat_arrays(content@)),
{
    let chars = chars_of(content);
    let ls = lines_of(chars.as_slice());
    let mut info = MdInfo { arrays: StrMap::new() };
    let mut idx: usize = 0;
    while idx < ls.len()
        invariant
            idx <= ls@.len(),
            views(ls@) == lines(content@),
            info.describes(arrays_upto(views(ls@), idx as int)),
        decreases ls.len() - idx,
    {
        let ghost prev = arrays_upto(views(ls@), idx as int);
        match array_at_exec(ls.as_slice(), idx) {
            Some(array) => {
                let ghost spec_array = array_at(views(ls@), idx as int)->0;
                let key = array.name.clone();
                info.arrays.insert(key, array);
                proof {
                    let m = prev.insert(spec_array.name, spec_array);
                    assert(arrays_upto(views(ls@), idx + 1) == m);
                    assert(info.arrays@.dom() =~= m.dom());
                }
            },
            None => {},
        }
        idx = idx + 1;
    }
    info
}


/// An array whose state word is `active` is degraded exactly when fewer of
/// its devices are active than it has in total, whatever the two counts
/// are; an array that is not degraded is resyncing when its line mentions a
/// resync or a recovery, and clean otherwise.
pub proof fn law_md_degraded_when_devices_missing(
    name: Seq<char>,
    details: Seq<char>,
    tail_text: Seq<char>,
)
    requires
        array_line(name, details, tail_text) is Some,
    ensures
        ({
            let a = array_line(name, details, tail_text)->0;
            &&& (a.state == MdState::Degraded) == (words(details)[0] == seq![
                'a',
                'c',
                't',
                'i',
                'v',
                'e',
            ] && a.active_devices < a.total_devices)
            &&& a.state != MdState::Degraded ==> ((a.state == MdState::Resyncing) == (
            contains_seq(details, text_resync()) || contains_seq(details, text_recovery())))
            &&& a.state != MdState::Inconsistent
        }),
{
}

proof fn lemma_no_char_in_digits(d: Seq<char>, c: char)
    requires
        forall|i: int| 0 <= i < d.len() ==> is_digit(#[trigger] d[i]),
        !is_digit(c),
    ensures
        find_char(d, c) is None,
{
    lemma_find_char(d, c);
    if let Some(i) = find_char(d, c) {
        assert(d[i] == c);
    }
}

/// The device counts of an array line read the first `[total/active]`
/// pair of the text that follows it: the first number is the total, the
/// second the number of active devices.
pub proof fn law_md_counts_total_then_active(
    name: Seq<char>,
    details: Seq<char>,
    x: Seq<char>,
    y: Seq<char>,
    rest: Seq<char>,
)
    requires
        words(details).len() >= 2,
        x.len() > 0,
        y.len() > 0,
        forall|i: int| 0 <= i < x.len() ==> is_digit(#[trigger] x[i]),
        forall|i: int| 0 <= i < y.len() ==> is_digit(#[trigger] y[i]),
        parse_unsigned(x, usize::MAX as nat) is Some,
        parse_unsigned(y, usize::MAX as nat) is Some,
    ensures
        ({
            let a = array_line(name, details, seq!['['] + x + seq!['/'] + y + seq![']'] + rest)->0;
            &&& Some(a.total_devices) == parse_unsigned(x, usize::MAX as nat)
            &&& Some(a.active_devices) == parse_unsigned(y, usize::MAX as nat)
        }),
{
    let s = seq!['['] + x + seq!['/'] + y + seq![']'] + rest;
    let xl = x.len() as int;
    let yl = y.len() as int;
    assert(s.skip(0) =~= s);
    lemma_find_char_unique(s, '[', 0);
    let t = s.skip(1);
    let rc = xl + 1 + yl;
    assert forall|j: int| 0 <= j < rc implies t[j] != ']' by {
        if j < xl {
            assert(t[j] == x[j]);
        } else if j > xl {
            assert(t[j] == y[j - xl - 1]);
        }
    }
    assert(t[rc] == ']');
    lemma_find_char_unique(t, ']', rc);
    let inner = s.subrange(1, 1 + rc);
    assert(inner =~= x + seq!['/'] + y);
    assert forall|j: int| 0 <= j < xl implies inner[j] != '/' by {
        assert(inner[j] == x[j]);
    }
    assert(inner[xl] == '/');
    lemma_find_char_unique(inner, '/', xl);
    assert(inner.take(xl) =~= x);
    assert(inner.skip(xl + 1) =~= y);
    lemma_no_char_in_digits(y, '/');
    assert(count_pair(inner) == Some((usize_or_zero(x), usize_or_zero(y))));
    assert(counts_from(s, 0) == (usize_or_zero(x), usize_or_zero(y)));
}

} // verus!
