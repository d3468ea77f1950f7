//! The compile database, indexed by canonical file path.
use vstd::prelude::*;
use vstd::string::*;
use crate::command::CompileCommandEntry;
use crate::paths::{is_absolute, join_path, joined};
use crate::text::{same_text, texts};

verus! {

/// The full path of an entry's file: as written when absolute, else under its directory.
pub open spec fn full_path_of(file: Seq<char>, directory: Seq<char>) -> Seq<char> {
    if is_absolute(file) {
        file
    } else {
        joined(directory, file)
    }
}

/// The full path of an entry's file.
pub fn entry_full_path(file: &str, directory: &str) -> (r: String)
    ensures
        r@ == full_path_of(file@, directory@),
{
    if file.unicode_len() > 0 && file.get_char(0) == '/' {
        String::from_str(file)
    } else {
        join_path(directory, file)
    }
}

/// The position of the first occurrence of `p` in `s`, or -1.
pub open spec fn first_index(s: Seq<Seq<char>>, p: Seq<char>) -> int
    decreases s.len(),
{
    if s.len() == 0 {
        -1
    } else {
        let i = first_index(s.drop_last(), p);
        if i >= 0 {
            i
        } else if s.last() == p {
            s.len() - 1
        } else {
            -1
        }
    }
}

proof fn lemma_first_index(s: Seq<Seq<char>>, p: Seq<char>)
    ensures
        -1 <= first_index(s, p) < s.len(),
        first_index(s, p) >= 0 ==> s[first_index(s, p)] == p,
        first_index(s, p) >= 0 ==> forall|k: int| 0 <= k < first_index(s, p) ==> #[trigger] s[k] != p,
        first_index(s, p) < 0 ==> forall|k: int| 0 <= k < s.len() ==> #[trigger] s[k] != p,
    decreases s.len(),
{
    if s.len() > 0 {
        lemma_first_index(s.drop_last(), p);
        assert(forall|k: int| 0 <= k < s.len() - 1 ==> #[trigger] s[k] == s.drop_last()[k]);
    }
}

fn find_first(v: &Vec<String>, p: &str) -> (r: Option<usize>)
    ensures
        match r {
            Some(i) => i as int == first_index(texts(v@), p@),
            None => first_index(texts(v@), p@) < 0,
        },
{
    proof {
        lemma_first_index(texts(v@), p@);
    }
    let mut i: usize = 0;
    while i < v.len()
        invariant
            i <= v@.len(),
            forall|k: int| 0 <= k < i ==> #[trigger] texts(v@)[k] != p@,
        decreases v@.len() - i,
    {
        if same_text(v[i].as_str(), p) {
            assert(texts(v@)[i as int] == p@);
            proof {
                lemma_first_index(texts(v@), p@);
            }
            return Some(i);
        }
        i += 1;
    }
    proof {
        lemma_first_index(texts(v@), p@);
        if first_index(texts(v@), p@) >= 0 {
            assert(texts(v@)[first_index(texts(v@), p@)] == p@);
        }
    }
    None
}

/// The distinct paths of `s`, each where it first occurs.
pub open spec fn distinct_paths(s: Seq<Seq<char>>) -> Seq<Seq<char>>
    decreases s.len(),
{
    if s.len() == 0 {
        seq![]
    } else {
        let rest = distinct_paths(s.drop_last());
        if first_index(rest, s.last()) >= 0 {
            rest
        } else {
            rest.push(s.last())
        }
    }
}

/// The project's files, each once, in order of first appearance.
pub fn unique_paths(paths: &Vec<String>) -> (r: Vec<String>)
    ensures
        texts(r@) == distinct_paths(texts(paths@)),
{
    let mut out: Vec<String> = Vec::new();
    let mut i: usize = 0;
    while i < paths.len()
        invariant
            i <= paths@.len(),
            texts(out@) == distinct_paths(texts(paths@.subrange(0, i as int))),
        decreases paths@.len() - i,
    {
        assert(texts(paths@.subrange(0, i + 1)).drop_last() =~= texts(paths@.subrange(0, i as int)));
        let p = paths[i].as_str();
        if find_first(&out, p).is_none() {
            let ghost before = texts(out@);
            out.push(String::from_str(p));
            assert(texts(out@) =~= before.push(p@));
        }
        i += 1;
    }
    assert(paths@.subrange(0, paths@.len() as int) =~= paths@);
    out
}

/// The compile database as loaded at one modification time: every entry's file by
/// canonical path, in order, and for each path the first entry that names it.
pub struct CompileIndex {
    path: String,
    mtime: u64,
    files: Vec<String>,
    entries: Vec<CompileCommandEntry>,
}

impl CompileIndex {
    pub closed spec fn keys(&self) -> Seq<Seq<char>> {
        texts(self.files@)
    }

    pub closed spec fn entry_at(&self, i: int) -> CompileCommandEntry {
        self.entries@[i]
    }

    /// The compile database the index was loaded from.
    pub closed spec fn source(&self) -> Seq<char> {
        self.path@
    }

    /// The database's modification time when it was loaded.
    pub closed spec fn loaded_mtime(&self) -> u64 {
        self.mtime
    }

    pub closed spec fn wf(&self) -> bool {
        self.files@.len() == self.entries@.len()
    }

    /// Indexes entries, each given with the canonical path of its file.
    pub fn build(path: String, mtime: u64, keyed: Vec<(String, CompileCommandEntry)>) -> (r: CompileIndex)
        ensures
            r.wf(),
            r.source() == path@,
            r.loaded_mtime() == mtime,
            r.keys() == keyed@.map_values(|p: (String, CompileCommandEntry)| p.0@),
            forall|i: int| 0 <= i < keyed@.len() ==> #[trigger] r.entry_at(i) == keyed@[i].1,
    {
        let mut rest = keyed;
        let ghost all = rest@;
        let mut rev: Vec<(String, CompileCommandEntry)> = Vec::new();
        while rest.len() > 0
            invariant
                all == rest@ + rev@.reverse(),
            decreases rest@.len(),
        {
            let x = rest.pop().unwrap();
            rev.push(x);
            assert(all =~= rest@ + rev@.reverse());
        }
        assert(all =~= rev@.reverse());
        let mut files: Vec<String> = Vec::new();
        let mut entries: Vec<CompileCommandEntry> = Vec::new();
        while rev.len() > 0
            invariant
                files@.len() == entries@.len(),
                files@.len() + rev@.len() == all.len(),
                all == all.subrange(0, files@.len() as int) + rev@.reverse(),
                texts(files@) == all.subrange(0, files@.len() as int).map_values(|p: (String, CompileCommandEntry)| p.0@),
                forall|k: int| 0 <= k < entries@.len() ==> #[trigger] entries@[k] == all[k].1,
            decreases rev@.len(),
        {
            let ghost r0 = rev@;
            let ghost n0: int = files@.len() as int;
            let (f, e) = rev.pop().unwrap();
            assert(r0.reverse() =~= seq![(f, e)] + rev@.reverse());
            assert(all[n0] == (f, e)) by {
                assert(all =~= all.subrange(0, n0) + seq![(f, e)] + rev@.reverse());
            }
            let ghost t0 = texts(files@);
            files.push(f);
            entries.push(e);
            assert(texts(files@) =~= t0.push(f@));
            assert(all.subrange(0, n0 + 1).map_values(|p: (String, CompileCommandEntry)| p.0@) =~= all.subrange(
                0,
                n0 as int,
            ).map_values(|p: (String, CompileCommandEntry)| p.0@).push(f@));
            assert(all =~= all.subrange(0, files@.len() as int) + rev@.reverse());
        }
        assert(all.subrange(0, all.len() as int) =~= all);
        CompileIndex { path, mtime, files, entries }
    }

    /// The indexed files, in the database's order.
    pub fn files(&self) -> (r: Vec<String>)
        ensures
            texts(r@) == self.keys(),
    {
        let mut out: Vec<String> = Vec::new();
        let mut i: usize = 0;
        while i < self.files.len()
            invariant
                i <= self.files@.len(),
                texts(out@) == texts(self.files@.subrange(0, i as int)),
            decreases self.files@.len() - i,
        {
            let c = self.files[i].clone();
            let ghost before = texts(out@);
            out.push(c);
            assert(texts(out@) =~= before.push(c@));
            assert(texts(self.files@.subrange(0, i + 1)) =~= texts(self.files@.subrange(0, i as int)).push(
                self.files@[i as int]@,
            ));
            i += 1;
        }
        assert(self.files@.subrange(0, self.files@.len() as int) =~= self.files@);
        out
    }

    /// Whether the index was loaded from `path` at `mtime`.
    pub fn is_fresh(&self, path: &str, mtime: u64) -> (r: bool)
        ensures
            r == (self.source() == path@ && self.loaded_mtime() == mtime),
    {
        same_text(self.path.as_str(), path) && self.mtime == mtime
    }

    /// Whether the file with this canonical path is in the database.
    pub fn file_in_index(&self, canonical: &str) -> (r: bool)
        ensures
            r == self.keys().contains(canonical@),
    {
        proof {
            lemma_first_index(self.keys(), canonical@);
        }
        let r = find_first(&self.files, canonical).is_some();
        proof {
            if r {
                assert(self.keys()[first_index(self.keys(), canonical@)] == canonical@);
            }
        }
        r
    }

    /// The first entry for the file with this canonical path.
    pub fn find_compile_entry(&self, canonical: &str) -> (r: Option<&CompileCommandEntry>)
        ensures
            match r {
                Some(e) => first_index(self.keys(), canonical@) >= 0 && *e == self.entry_at(
                    first_index(self.keys(), canonical@),
                ),
                None => first_index(self.keys(), canonical@) < 0 || !self.wf(),
            },
    {
        proof {
            lemma_first_index(self.keys(), canonical@);
        }
        match find_first(&self.files, canonical) {
            Some(i) => if i < self.entries.len() {
                Some(&self.entries[i])
            } else {
                None
            },
            None => None,
        }
    }
}

} // verus!
