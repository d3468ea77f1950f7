//! Paths as text: resolving relative paths, and choosing where to look for the
//! analyzer configuration, the compile database and the disk cache.
use vstd::prelude::*;
use vstd::string::*;
use crate::command::is_space;
use crate::text::{opt_str, opt_string, push_char, push_str, same_text, texts};

verus! {

/// A path is absolute when it starts at the root.
pub open spec fn is_absolute(p: Seq<char>) -> bool {
    p.len() > 0 && p[0] == '/'
}

/// `p` appended to `base` as a path: an absolute `p` replaces `base`; otherwise a
/// separator goes between them unless `base` is empty or already ends with one.
pub open spec fn joined(base: Seq<char>, p: Seq<char>) -> Seq<char> {
    if is_absolute(p) {
        p
    } else if base.len() == 0 || base.last() == '/' {
        base + p
    } else {
        base + seq!['/'] + p
    }
}

/// Joins two paths.
pub fn join_path(base: &str, p: &str) -> (r: String)
    ensures
        r@ == joined(base@, p@),
{
    let n = p.unicode_len();
    if n > 0 && p.get_char(0) == '/' {
        return String::from_str(p);
    }
    let mut s = String::from_str(base);
    let m = base.unicode_len();
    if m > 0 && base.get_char(m - 1) != '/' {
        push_char(&mut s, '/');
    }
    push_str(&mut s, p);
    s
}

/// Where a reported path points: nowhere when empty, itself when absolute or when
/// there is no base, else the path under `base`.
pub open spec fn resolved(p: Seq<char>, base: Option<Seq<char>>) -> Option<Seq<char>> {
    if p.len() == 0 {
        None
    } else if is_absolute(p) {
        Some(p)
    } else {
        match base {
            Some(b) => Some(joined(b, p)),
            None => Some(p),
        }
    }
}

/// Resolves a path as the analyzer reported it against a base directory.
pub fn resolve_path(path_str: &str, root_dir: Option<&str>) -> (r: Option<String>)
    ensures
        opt_string(r) == resolved(path_str@, opt_str(root_dir)),
{
    if path_str.unicode_len() == 0 {
        return None;
    }
    if path_str.get_char(0) == '/' {
        return Some(String::from_str(path_str));
    }
    match root_dir {
        Some(root) => Some(join_path(root, path_str)),
        None => Some(String::from_str(path_str)),
    }
}

/// The index of the first character that is not white space, from `i` on.
pub open spec fn first_non_space(s: Seq<char>, i: int) -> int
    decreases s.len() - i,
{
    if i >= s.len() {
        s.len() as int
    } else if !is_space(s[i]) {
        i
    } else {
        first_non_space(s, i + 1)
    }
}

/// One past the last character that is not white space, at `j` or before.
pub open spec fn end_non_space(s: Seq<char>, j: int) -> int
    decreases j,
{
    if j <= 0 {
        0
    } else if !is_space(s[j - 1]) {
        j
    } else {
        end_non_space(s, j - 1)
    }
}

/// `s` without white space at either end.
pub open spec fn trimmed(s: Seq<char>) -> Seq<char> {
    let a = first_non_space(s, 0);
    let b = end_non_space(s, s.len() as int);
    if a < b {
        s.subrange(a, b)
    } else {
        seq![]
    }
}

proof fn lemma_first_non_space(s: Seq<char>, i: int)
    requires
        0 <= i <= s.len(),
    ensures
        i <= first_non_space(s, i) <= s.len(),
    decreases s.len() - i,
{
    if i < s.len() && is_space(s[i]) {
        lemma_first_non_space(s, i + 1);
    }
}

proof fn lemma_end_non_space(s: Seq<char>, j: int)
    requires
        0 <= j <= s.len(),
    ensures
        0 <= end_non_space(s, j) <= j,
    decreases j,
{
    if j > 0 && is_space(s[j - 1]) {
        lemma_end_non_space(s, j - 1);
    }
}

/// Removes white space at both ends.
pub fn trim_text(s: &str) -> (r: String)
    ensures
        r@ == trimmed(s@),
{
    let n = s.unicode_len();
    let mut a: usize = 0;
    while a < n && crate::command::is_space_char(s.get_char(a))
        invariant
            n == s@.len(),
            a <= n,
            first_non_space(s@, 0) == first_non_space(s@, a as int),
        decreases n - a,
    {
        a += 1;
    }
    let mut b: usize = n;
    while b > 0 && crate::command::is_space_char(s.get_char(b - 1))
        invariant
            n == s@.len(),
            b <= n,
            end_non_space(s@, n as int) == end_non_space(s@, b as int),
        decreases b,
    {
        b -= 1;
    }
    proof {
        lemma_first_non_space(s@, a as int);
        lemma_end_non_space(s@, b as int);
    }
    if a < b {
        String::from_str(s.substring_char(a, b))
    } else {
        String::new()
    }
}

pub uninterp spec fn parent_of(p: Seq<char>) -> Option<Seq<char>>;

/// Relies on `Path::parent`: the path without its final component, a prefix of
/// it and so shorter, or nothing for a root or an empty path.
#[verifier::external_body]
fn parent_dir(p: &str) -> (r: Option<String>)
    ensures
        opt_string(r) == parent_of(p@),
        r matches Some(q) ==> q@.len() < p@.len(),
{
    match std::path::Path::new(p).parent() {
        Some(q) => Some(q.to_string_lossy().into_owned()),
        None => None,
    }
}

/// `p` without separators at its end, except a lone root.
pub open spec fn without_trailing_slashes(p: Seq<char>) -> Seq<char>
    decreases p.len(),
{
    if p.len() > 1 && p.last() == '/' {
        without_trailing_slashes(p.drop_last())
    } else {
        p
    }
}

/// Two directory paths name the same directory when they agree but for
/// separators at their ends.
pub open spec fn same_dir(a: Seq<char>, b: Seq<char>) -> bool {
    without_trailing_slashes(a) == without_trailing_slashes(b)
}

/// `o` is present and names the directory `d`.
pub open spec fn is_some_eq(o: Option<Seq<char>>, d: Seq<char>) -> bool {
    match o {
        Some(x) => same_dir(x, d),
        None => false,
    }
}

/// The directories between `dir` and the first stop (root or compile-database
/// directory), the stop included, walking from child to parent.
pub open spec fn ancestors_until(dir: Option<Seq<char>>, root: Option<Seq<char>>, compile_dir: Option<Seq<char>>) -> Seq<Seq<char>>
    decreases (match dir { Some(d) => d.len() + 1, None => 0 }),
{
    match dir {
        None => seq![],
        Some(d) => if is_some_eq(root, d) || is_some_eq(compile_dir, d) {
            seq![d]
        } else {
            match parent_of(d) {
                Some(p) => if p.len() < d.len() {
                    seq![d] + ancestors_until(Some(p), root, compile_dir)
                } else {
                    seq![d]
                },
                None => seq![d],
            }
        },
    }
}

/// The directories searched, in order, for the analyzer configuration of a file:
/// its ancestors up to the first stop, then the compile-database directory, then the root.
pub open spec fn config_search_order(file: Seq<char>, root: Option<Seq<char>>, compile_dir: Option<Seq<char>>) -> Seq<Seq<char>> {
    ancestors_until(parent_of(file), root, compile_dir) + match compile_dir {
        Some(c) => seq![c],
        None => seq![],
    } + match root {
        Some(r) => seq![r],
        None => seq![],
    }
}

/// `p` without separators at its end, except a lone root.
pub fn strip_trailing_slashes(p: &str) -> (r: String)
    ensures
        r@ == without_trailing_slashes(p@),
{
    let mut n = p.unicode_len();
    assert(p@.subrange(0, n as int) =~= p@);
    while n > 1 && p.get_char(n - 1) == '/'
        invariant
            n <= p@.len(),
            without_trailing_slashes(p@) == without_trailing_slashes(p@.subrange(0, n as int)),
        decreases n,
    {
        assert(p@.subrange(0, n as int).drop_last() =~= p@.subrange(0, n - 1));
        n -= 1;
    }
    String::from_str(p.substring_char(0, n))
}

fn opt_same(o: Option<&str>, d: &str) -> (r: bool)
    ensures
        r == is_some_eq(opt_str(o), d@),
{
    match o {
        Some(x) => {
            let a = strip_trailing_slashes(x);
            let b = strip_trailing_slashes(d);
            same_text(a.as_str(), b.as_str())
        },
        None => false,
    }
}

fn push_text(out: &mut Vec<String>, s: &str)
    ensures
        texts(final(out)@) == texts(old(out)@).push(s@),
{
    out.push(String::from_str(s));
    assert(texts(out@) =~= texts(old(out)@).push(s@));
}

/// The directories in which to look for the analyzer configuration of `file_path`,
/// in the order they are tried.
pub fn config_search_dirs(file_path: &str, root_dir: Option<&str>, compile_dir: Option<&str>) -> (r: Vec<String>)
    ensures
        texts(r@) == config_search_order(file_path@, opt_str(root_dir), opt_str(compile_dir)),
{
    let mut out: Vec<String> = Vec::new();
    let mut current = parent_dir(file_path);
    let ghost start = opt_string(current);
    loop
        invariant
            start == parent_of(file_path@),
            texts(out@) + ancestors_until(opt_string(current), opt_str(root_dir), opt_str(compile_dir))
                == ancestors_until(start, opt_str(root_dir), opt_str(compile_dir)),
        ensures
            texts(out@) == ancestors_until(start, opt_str(root_dir), opt_str(compile_dir)),
        decreases (match opt_string(current) { Some(d) => d.len() + 1, None => 0 }),
    {
        match current {
            None => {
                assert(texts(out@) =~= ancestors_until(start, opt_str(root_dir), opt_str(compile_dir)));
                break;
            },
            Some(dir) => {
                let ghost rest = ancestors_until(Some(dir@), opt_str(root_dir), opt_str(compile_dir));
                let stop = opt_same(root_dir, dir.as_str()) || opt_same(compile_dir, dir.as_str());
                let ghost before = texts(out@);
                push_text(&mut out, dir.as_str());
                if stop {
                    assert(texts(out@) =~= before + rest);
                    current = None;
                    break;
                }
                let next = parent_dir(dir.as_str());
                assert(before + rest =~= texts(out@) + ancestors_until(opt_string(next), opt_str(root_dir), opt_str(compile_dir)));
                current = next;
            },
        }
    }
    let ghost walked = texts(out@);
    assert(walked == ancestors_until(parent_of(file_path@), opt_str(root_dir), opt_str(compile_dir)));
    match compile_dir {
        Some(c) => push_text(&mut out, c),
        None => {},
    }
    let ghost with_compile = texts(out@);
    assert(with_compile =~= walked + match opt_str(compile_dir) {
        Some(c) => seq![c],
        None => seq![],
    });
    match root_dir {
        Some(r) => push_text(&mut out, r),
        None => {},
    }
    assert(texts(out@) =~= config_search_order(file_path@, opt_str(root_dir), opt_str(compile_dir)));
    out
}

/// The analyzer configuration file's name.
pub const CONFIG_FILE_NAME: &'static str = ".clang-tidy";

/// Picks the configuration file of the first searched directory that has one;
/// `present[i]` tells whether `dirs[i]` holds a configuration file.
pub fn find_clang_tidy_config(dirs: &Vec<String>, present: &Vec<bool>) -> (r: Option<String>)
    requires
        dirs@.len() == present@.len(),
    ensures
        match r {
            Some(p) => exists|i: int|
                0 <= i < dirs@.len() && present@[i] && (forall|k: int| 0 <= k < i ==> !present@[k])
                    && p@ == joined(dirs@[i]@, CONFIG_FILE_NAME@),
            None => forall|k: int| 0 <= k < present@.len() ==> !present@[k],
        },
{
    let mut i: usize = 0;
    while i < dirs.len()
        invariant
            dirs@.len() == present@.len(),
            i <= dirs@.len(),
            forall|k: int| 0 <= k < i ==> !present@[k],
        decreases dirs@.len() - i,
    {
        if present[i] {
            return Some(join_path(dirs[i].as_str(), CONFIG_FILE_NAME));
        }
        i += 1;
    }
    None
}

/// The directories whose configuration file's modification time enters the
/// fingerprint, in order of preference: the compile-database directory, then the root.
pub fn config_mtime_dirs(root_dir: Option<&str>, compile_dir: Option<&str>) -> (r: Vec<String>)
    ensures
        texts(r@) == (match opt_str(compile_dir) { Some(c) => seq![c], None => seq![] }) + (
        match opt_str(root_dir) {
            Some(d) => seq![d],
            None => seq![],
        }),
{
    let mut out: Vec<String> = Vec::new();
    match compile_dir {
        Some(c) => push_text(&mut out, c),
        None => {},
    }
    match root_dir {
        Some(d) => push_text(&mut out, d),
        None => {},
    }
    assert(texts(out@) =~= (match opt_str(compile_dir) { Some(c) => seq![c], None => seq![] }) + (
    match opt_str(root_dir) {
        Some(d) => seq![d],
        None => seq![],
    }));
    out
}

/// The modification time that stands for the analyzer configuration: that of the
/// first candidate whose file exists (`None` when its time cannot be read), or none.
/// Each probe is whether the file exists, and its modification time.
pub fn clang_tidy_config_mtime(probes: &Vec<(bool, Option<u64>)>) -> (r: Option<u64>)
    ensures
        match r {
            Some(t) => exists|i: int|
                0 <= i < probes@.len() && probes@[i].0 && (forall|k: int| 0 <= k < i ==> !probes@[k].0)
                    && probes@[i].1 == Some(t),
            None => forall|i: int|
                0 <= i < probes@.len() && probes@[i].0 ==> (exists|k: int| 0 <= k < i && probes@[k].0) || probes@[i].1 is None,
        },
{
    let mut i: usize = 0;
    while i < probes.len()
        invariant
            i <= probes@.len(),
            forall|k: int| 0 <= k < i ==> !probes@[k].0,
        decreases probes@.len() - i,
    {
        if probes[i].0 {
            return probes[i].1;
        }
        i += 1;
    }
    None
}

/// The name of the cache directory under `.vscode`.
pub const CACHE_DIR_NAME: &'static str = "clang-tidy-daemon-cache";

/// The disk cache directory, before it is created: none when disabled; else the
/// configured directory, or `.vscode/<cache>` under the root or else under the
/// compile-database directory; a relative result is taken under the root, else
/// under the compile-database directory.
pub open spec fn cache_dir_of(enabled: bool, configured: Seq<char>, root: Option<Seq<char>>, compile_dir: Option<Seq<char>>) -> Option<Seq<char>> {
    let t = trimmed(configured);
    let base = if t.len() > 0 {
        Some(t)
    } else {
        match root {
            Some(r) => Some(joined(joined(r, ".vscode"@), CACHE_DIR_NAME@)),
            None => match compile_dir {
                Some(c) => Some(joined(joined(c, ".vscode"@), CACHE_DIR_NAME@)),
                None => None,
            },
        }
    };
    if !enabled {
        None
    } else {
        match base {
            None => None,
            Some(b) => if is_absolute(b) {
                Some(b)
            } else {
                match root {
                    Some(r) => Some(joined(r, b)),
                    None => match compile_dir {
                        Some(c) => Some(joined(c, b)),
                        None => Some(b),
                    },
                }
            },
        }
    }
}

/// Where the disk cache lives, per the settings; the caller creates it.
pub fn resolve_cache_dir(enabled: bool, configured: &str, root_dir: Option<&str>, compile_dir: Option<&str>) -> (r: Option<String>)
    ensures
        opt_string(r) == cache_dir_of(enabled, configured@, opt_str(root_dir), opt_str(compile_dir)),
{
    if !enabled {
        return None;
    }
    let t = trim_text(configured);
    let base = if t.as_str().unicode_len() > 0 {
        t
    } else {
        match root_dir {
            Some(r) => join_path(join_path(r, ".vscode").as_str(), CACHE_DIR_NAME),
            None => match compile_dir {
                Some(c) => join_path(join_path(c, ".vscode").as_str(), CACHE_DIR_NAME),
                None => {
                    return None;
                },
            },
        }
    };
    let b = base.as_str();
    if b.unicode_len() > 0 && b.get_char(0) == '/' {
        return Some(base);
    }
    match root_dir {
        Some(r) => Some(join_path(r, b)),
        None => match compile_dir {
            Some(c) => Some(join_path(c, b)),
            None => Some(base),
        },
    }
}

/// The compile database's file name.
pub const COMPILE_DB_NAME: &'static str = "compile_commands.json";

/// The compile database named by the settings, if they name one: the trimmed
/// configured path, or the database inside it when it is a directory.
pub fn resolve_compile_commands_path(configured: &str, is_dir: bool) -> (r: Option<String>)
    ensures
        opt_string(r) == if trimmed(configured@).len() == 0 {
            None
        } else if is_dir {
            Some(joined(trimmed(configured@), COMPILE_DB_NAME@))
        } else {
            Some(trimmed(configured@))
        },
{
    let t = trim_text(configured);
    if t.as_str().unicode_len() == 0 {
        None
    } else if is_dir {
        Some(join_path(t.as_str(), COMPILE_DB_NAME))
    } else {
        Some(t)
    }
}

} // verus!
