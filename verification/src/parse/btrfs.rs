//! `btrfs subvolume list` output.

use vstd::prelude::*;

use crate::collections::StrMap;
use crate::text::{
    chars_eq, chars_of, contains_chars, contains_seq, has_prefix, lines, lines_of, parse_unsigned,
    parse_unsigned_chars, starts_with_chars, string_from_chars, subvec, trim, trim_chars, views,
    words, words_of,
};

verus! {

/// Parsed Btrfs subvolume information, keyed by subvolume path.
pub struct BtrfsSubvolumes {
    /// Subvolumes: path -> information.
    pub subvolumes: StrMap<SubvolInfo>,
}

/// One subvolume.
pub struct SubvolInfo {
    pub id: u64,
    pub path: String,
    pub quota: Option<u64>,
    pub mountpoint: Option<String>,
}

/// The word `path`.
pub open spec fn word_path() -> Seq<char> {
    seq!['p', 'a', 't', 'h']
}

/// The text `path ` (with its trailing space).
pub open spec fn text_path_space() -> Seq<char> {
    seq!['p', 'a', 't', 'h', ' ']
}

/// The text `ID`.
pub open spec fn text_id() -> Seq<char> {
    seq!['I', 'D']
}

/// First index `i >= from` with `ws[i] == "path"` and a word after it.
pub open spec fn path_index(ws: Seq<Seq<char>>, from: int) -> Option<int>
    decreases ws.len() - from,
{
    if from < 0 || from >= ws.len() {
        None
    } else if ws[from] == word_path() && from + 1 < ws.len() {
        Some(from)
    } else {
        path_index(ws, from + 1)
    }
}

/// The subvolume ID: the first word after the leading `ID`.
pub open spec fn subvol_id(line: Seq<char>) -> Option<nat> {
    if has_prefix(line, text_id()) && words(line.skip(2)).len() > 0 {
        parse_unsigned(words(line.skip(2))[0], u64::MAX as nat)
    } else {
        None
    }
}

/// ID and path of one `ID <id> ... path <path>` line.
pub open spec fn subvol_line(line: Seq<char>) -> Option<(nat, Seq<char>)> {
    let ws = words(line);
    match path_index(ws, 0) {
        Some(i) => match subvol_id(line) {
            Some(id) => Some((id, ws[i + 1])),
            None => None,
        },
        None => None,
    }
}

/// Subvolume IDs by path described by the given output lines.
pub open spec fn subvolumes_of(ls: Seq<Seq<char>>) -> Map<Seq<char>, nat>
    decreases ls.len(),
{
    if ls.len() == 0 {
        Map::empty()
    } else {
        let m = subvolumes_of(ls.drop_last());
        let t = trim(ls.last());
        if has_prefix(t, text_id()) && contains_seq(t, text_path_space()) {
            match subvol_line(t) {
                Some((id, p)) => m.insert(p, id),
                None => m,
            }
        } else {
            m
        }
    }
}

impl BtrfsSubvolumes {
    /// Whether this value describes exactly the given path -> ID map.
    pub open spec fn describes(&self, m: Map<Seq<char>, nat>) -> bool {
        &&& self.subvolumes@.dom() == m.dom()
        &&& forall|p: Seq<char>|
            #[trigger] m.contains_key(p) ==> {
                let info = self.subvolumes@[p];
                &&& info.id == m[p]
                &&& info.path@ == p
                &&& info.quota is None
                &&& info.mountpoint is None
            }
    }
}

/// Parses `btrfs subvolume list` output.
///
/// Lines of the form `ID 256 gen 1024 top level 5 path @` are recorded under
/// their path; other lines are ignored.
pub fn parse_btrfs_subvolumes(content: &str) -> (r: BtrfsSubvolumes)
    ensures
        r.describes(subvolumes_of(lines(content@))),
{
    let chars = chars_of(content);
    let ls = lines_of(chars.as_slice());
    let id_text: [char; 2] = ['I', 'D'];
    let path_text: [char; 5] = ['p', 'a', 't', 'h', ' '];
    assert(id_text@ == text_id());
    assert(path_text@ == text_path_space());
    let mut subvols = BtrfsSubvolumes { subvolumes: StrMap::new() };
    let mut k: usize = 0;
    while k < ls.len()
        invariant
            k <= ls@.len(),
            views(ls@) == lines(content@),
            id_text@ == text_id(),
            path_text@ == text_path_space(),
            subvols.describes(subvolumes_of(views(ls@).take(k as int))),
        decreases ls.len() - k,
    {
        let ghost before = subvolumes_of(views(ls@).take(k as int));
        assert(views(ls@).take(k + 1).drop_last() =~= views(ls@).take(k as int));
        assert(views(ls@)[k as int] == ls@[k as int]@);
        let line = trim_chars(ls[k].as_slice());
        if starts_with_chars(line.as_slice(), id_text.as_slice()) && contains_chars(
            line.as_slice(),
            path_text.as_slice(),
        ) {
            match parse_subvol_line(line.as_slice()) {
                Some((id, path)) => {
                    let ghost p = path@;
                    let key = string_from_chars(path.as_slice());
                    let info = SubvolInfo {
                        id,
                        path: string_from_chars(path.as_slice()),
                        quota: None,
                        mountpoint: None,
                    };
                    subvols.subvolumes.insert(key, info);
                    proof {
                        let m = before.insert(p, id as nat);
                        assert(subvolumes_of(views(ls@).take(k + 1)) == m);
                        assert(subvols.subvolumes@.dom() =~= m.dom());
                    }
                },
                None => {},
            }
        }
        k = k + 1;
    }
    assert(views(ls@).take(ls.len() as int) =~= views(ls@));
    subvols
}

/// Extracts the ID and path of one subvolume line.
fn parse_subvol_line(line: &[char]) -> (r: Option<(u64, Vec<char>)>)
    ensures
        match r {
            Some((id, p)) => subvol_line(line@) == Some((id as nat, p@)),
            None => subvol_line(line@) is None,
        },
{
    let parts = words_of(line);
    let path_word: [char; 4] = ['p', 'a', 't', 'h'];
    assert(path_word@ == word_path());
    let mut i: usize = 0;
    while i < parts.len()
        invariant
            i <= parts@.len(),
            views(parts@) == words(line@),
            path_word@ == word_path(),
            path_index(views(parts@), 0) == path_index(views(parts@), i as int),
        decreases parts.len() - i,
    {
        assert(views(parts@)[i as int] == parts@[i as int]@);
        if chars_eq(parts[i].as_slice(), path_word.as_slice()) && i + 1 < parts.len() {
            let id = parse_id(line);
            match id {
                Some(id) => {
                    assert(views(parts@)[i + 1] == parts@[i + 1]@);
                    let p = subvec(parts[i + 1].as_slice(), 0, parts[i + 1].len());
                    assert(p@ =~= parts@[i + 1]@);
                    return Some((id, p));
                },
                None => {
                    return None;
                },
            }
        }
        i = i + 1;
    }
    None
}

/// The subvolume ID following the leading `ID`.
fn parse_id(line: &[char]) -> (r: Option<u64>)
    ensures
        match r {
            Some(id) => subvol_id(line@) == Some(id as nat),
            None => subvol_id(line@) is None,
        },
{
    let id_text: [char; 2] = ['I', 'D'];
    assert(id_text@ == text_id());
    if !starts_with_chars(line, id_text.as_slice()) {
        return None;
    }
    let rest = subvec(line, 2, line.len());
    assert(rest@ =~= line@.skip(2));
    let ws = words_of(rest.as_slice());
    if ws.len() == 0 {
        return None;
    }
    assert(views(ws@)[0] == ws@[0]@);
    parse_unsigned_chars(ws[0].as_slice(), u64::MAX)
}

} // verus!
