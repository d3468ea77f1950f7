//! The diagnostic cache: settings fingerprints, cache keys and file names, the
//! in-memory tier, and the checks that decide hits and evictions on disk.
use vstd::prelude::*;
use vstd::string::*;
use crate::diagnostic::{RpcDiagnostic, RpcView, copy_rpc_diagnostics, rpcs_view};
use crate::text::opt_str;
use crate::text::{
    copy_strings, push_char, push_decimal, push_hex, push_str, same_text, starts_with_text, texts, decimal, hex_digits,
};

verus! {

/// The options that shape the analysis.
#[derive(Clone, Debug)]
pub struct Settings {
    pub clang_tidy_path: String,
    pub compile_commands_path: String,
    pub extra_args: Vec<String>,
    pub max_workers: u32,
    pub quick_checks: String,
    pub max_diagnostics_per_file: u32,
    pub max_fixes_per_file: u32,
    pub daemon_cache_on_disk: bool,
    pub daemon_cache_dir: String,
    pub per_file_timeout_ms: u64,
    pub publish_diagnostics_throttle_ms: u64,
}

/// Everything that can change the analyzer's output for a file, besides the file.
#[derive(Hash)]
pub struct FingerprintInput {
    pub analyzer_path: String,
    pub extra_args: Vec<String>,
    pub max_workers: u32,
    pub quick_checks: String,
    pub max_diagnostics: u32,
    pub max_fixes: u32,
    pub timeout_ms: u64,
    pub mode: String,
    pub compile_commands: Option<String>,
    pub compile_commands_mtime: Option<u64>,
    pub config_mtime: Option<u64>,
}

pub ghost struct FingerprintView {
    pub analyzer_path: Seq<char>,
    pub extra_args: Seq<Seq<char>>,
    pub max_workers: u32,
    pub quick_checks: Seq<char>,
    pub max_diagnostics: u32,
    pub max_fixes: u32,
    pub timeout_ms: u64,
    pub mode: Seq<char>,
    pub compile_commands: Option<Seq<char>>,
    pub compile_commands_mtime: Option<u64>,
    pub config_mtime: Option<u64>,
}

impl View for FingerprintInput {
    type V = FingerprintView;

    open spec fn view(&self) -> FingerprintView {
        FingerprintView {
            analyzer_path: self.analyzer_path@,
            extra_args: texts(self.extra_args@),
            max_workers: self.max_workers,
            quick_checks: self.quick_checks@,
            max_diagnostics: self.max_diagnostics,
            max_fixes: self.max_fixes,
            timeout_ms: self.timeout_ms,
            mode: self.mode@,
            compile_commands: crate::text::opt_string(self.compile_commands),
            compile_commands_mtime: self.compile_commands_mtime,
            config_mtime: self.config_mtime,
        }
    }
}

/// The hash of a fingerprint input.
pub uninterp spec fn fingerprint_of(input: FingerprintView) -> u64;

/// The hash of a path, which keys its disk cache files.
pub uninterp spec fn path_key_of(path: Seq<char>) -> u64;

/// Relies on `BuildHasher::hash_one` with std's `DefaultHasher`, whose keys are
/// fixed: the hash depends on the input's contents alone.
#[verifier::external_body]
fn hash_fingerprint(input: &FingerprintInput) -> (r: u64)
    ensures
        r == fingerprint_of(input@),
{
    let state = std::hash::BuildHasherDefault::<std::collections::hash_map::DefaultHasher>::default();
    std::hash::BuildHasher::hash_one(&state, input)
}

/// Relies on `BuildHasher::hash_one` with std's `DefaultHasher`, whose keys are
/// fixed: the hash depends on the path's text alone.
#[verifier::external_body]
fn hash_path(path: &str) -> (r: u64)
    ensures
        r == path_key_of(path@),
{
    let state = std::hash::BuildHasherDefault::<std::collections::hash_map::DefaultHasher>::default();
    std::hash::BuildHasher::hash_one(&state, path)
}

/// What the fingerprint of `settings` under the given compile database,
/// configuration time and mode is computed from.
pub open spec fn fingerprint_input(
    settings: Settings,
    compile_commands: Option<Seq<char>>,
    compile_commands_mtime: Option<u64>,
    config_mtime: Option<u64>,
    mode: Seq<char>,
) -> FingerprintView {
    FingerprintView {
        analyzer_path: settings.clang_tidy_path@,
        extra_args: texts(settings.extra_args@),
        max_workers: settings.max_workers,
        quick_checks: settings.quick_checks@,
        max_diagnostics: settings.max_diagnostics_per_file,
        max_fixes: settings.max_fixes_per_file,
        timeout_ms: settings.per_file_timeout_ms,
        mode,
        compile_commands,
        compile_commands_mtime,
        config_mtime,
    }
}

/// The fingerprint of everything besides the file that the analysis depends on.
pub fn settings_fingerprint(
    settings: &Settings,
    compile_commands: Option<&str>,
    compile_commands_mtime: Option<u64>,
    config_mtime: Option<u64>,
    mode: &str,
) -> (r: u64)
    ensures
        r == fingerprint_of(
            fingerprint_input(*settings, opt_str(compile_commands), compile_commands_mtime, config_mtime, mode@),
        ),
{
    let input = FingerprintInput {
        analyzer_path: settings.clang_tidy_path.clone(),
        extra_args: copy_strings(&settings.extra_args),
        max_workers: settings.max_workers,
        quick_checks: settings.quick_checks.clone(),
        max_diagnostics: settings.max_diagnostics_per_file,
        max_fixes: settings.max_fixes_per_file,
        timeout_ms: settings.per_file_timeout_ms,
        mode: String::from_str(mode),
        compile_commands: match compile_commands {
            Some(p) => Some(String::from_str(p)),
            None => None,
        },
        compile_commands_mtime,
        config_mtime,
    };
    assert(input@ == fingerprint_input(*settings, opt_str(compile_commands), compile_commands_mtime, config_mtime, mode@));
    hash_fingerprint(&input)
}

/// Every fingerprint input counts: two computations hash the same input only when
/// the analyzer path, extra arguments, worker count, quick checks, both caps, the
/// timeout, the mode, the compile database path and time, and the configuration
/// time all agree. (That different inputs get different hashes is up to the hash.)
pub proof fn lemma_fingerprint_inputs_all_count(
    s1: Settings, c1: Option<Seq<char>>, t1: Option<u64>, g1: Option<u64>, m1: Seq<char>,
    s2: Settings, c2: Option<Seq<char>>, t2: Option<u64>, g2: Option<u64>, m2: Seq<char>,
)
    ensures
        fingerprint_input(s1, c1, t1, g1, m1) == fingerprint_input(s2, c2, t2, g2, m2) <==> (
            s1.clang_tidy_path@ == s2.clang_tidy_path@
            && texts(s1.extra_args@) == texts(s2.extra_args@)
            && s1.max_workers == s2.max_workers
            && s1.quick_checks@ == s2.quick_checks@
            && s1.max_diagnostics_per_file == s2.max_diagnostics_per_file
            && s1.max_fixes_per_file == s2.max_fixes_per_file
            && s1.per_file_timeout_ms == s2.per_file_timeout_ms
            && m1 == m2 && c1 == c2 && t1 == t2 && g1 == g2),
{
}

/// The key under which a file's entries are stored on disk.
pub fn cache_key_for_path(path: &str) -> (r: u64)
    ensures
        r == path_key_of(path@),
{
    hash_path(path)
}

/// `<key>-<mtime>-<size>-<fingerprint>.json`, key and fingerprint in sixteen hex digits.
pub open spec fn cache_name(key: u64, mtime: u64, size: u64, settings_hash: u64) -> Seq<char> {
    hex_digits(key as nat, 16) + seq!['-'] + decimal(mtime as nat) + seq!['-'] + decimal(size as nat) + seq!['-']
        + hex_digits(settings_hash as nat, 16) + ".json"@
}

/// The prefix shared by every disk cache file of one key.
pub open spec fn key_prefix(key: u64) -> Seq<char> {
    hex_digits(key as nat, 16) + seq!['-']
}

/// The disk cache file name of an entry.
pub fn cache_file_name(key: u64, mtime: u64, size: u64, settings_hash: u64) -> (r: String)
    ensures
        r@ == cache_name(key, mtime, size, settings_hash),
{
    let mut s = String::new();
    push_hex(&mut s, key, 16);
    push_char(&mut s, '-');
    push_decimal(&mut s, mtime);
    push_char(&mut s, '-');
    push_decimal(&mut s, size);
    push_char(&mut s, '-');
    push_hex(&mut s, settings_hash, 16);
    push_str(&mut s, ".json");
    assert(s@ =~= cache_name(key, mtime, size, settings_hash));
    s
}

/// The prefix of a key's disk cache files.
pub fn cache_key_prefix(key: u64) -> (r: String)
    ensures
        r@ == key_prefix(key),
{
    let mut s = String::new();
    push_hex(&mut s, key, 16);
    push_char(&mut s, '-');
    s
}

pub open spec fn has_prefix(s: Seq<char>, p: Seq<char>) -> bool {
    p.len() <= s.len() && s.subrange(0, p.len() as int) == p
}

/// A file of the cache directory is evicted after `current` is written when it
/// is another file of the same key.
pub open spec fn stale(name: Seq<char>, key: u64, current: Seq<char>) -> bool {
    name != current && has_prefix(name, key_prefix(key))
}

/// Whether a file of the cache directory is an older entry of the same key.
pub fn is_stale_cache_file(name: &str, key: u64, current: &str) -> (r: bool)
    ensures
        r == stale(name@, key, current@),
{
    let prefix = cache_key_prefix(key);
    !same_text(name, current) && starts_with_text(name, prefix.as_str())
}

/// After the entry `current` of a key is written and the stale files of that key
/// are removed from the directory listing `names`, `current` remains, and it is the
/// only remaining file with the key's prefix.
pub proof fn lemma_eviction_leaves_one(names: Seq<Seq<char>>, key: u64, current: Seq<char>)
    requires
        names.contains(current),
    ensures
        exists|i: int| 0 <= i < names.len() && names[i] == current && !stale(#[trigger] names[i], key, current),
        forall|i: int|
            0 <= i < names.len() && !stale(#[trigger] names[i], key, current) && has_prefix(names[i], key_prefix(key))
                ==> names[i] == current,
{
    let i = choose|i: int| 0 <= i < names.len() && names[i] == current;
    assert(!stale(names[i], key, current));
}

/// The version of the disk entry layout.
pub const DISK_CACHE_VERSION: u32 = 1;

/// A cache entry as stored on disk.
#[derive(Clone, Debug)]
pub struct DiskCacheEntry {
    pub version: u32,
    pub file_path: String,
    pub mtime: u64,
    pub size: u64,
    pub settings_hash: u64,
    pub diagnostics: Vec<RpcDiagnostic>,
}

/// Whether an entry read from disk may be served for this file and fingerprint.
pub fn disk_entry_matches(entry: &DiskCacheEntry, file_path: &str, mtime: u64, size: u64, settings_hash: u64) -> (r: bool)
    ensures
        r == (entry.version == DISK_CACHE_VERSION && entry.file_path@ == file_path@ && entry.mtime == mtime
            && entry.size == size && entry.settings_hash == settings_hash),
{
    entry.version == DISK_CACHE_VERSION && same_text(entry.file_path.as_str(), file_path) && entry.mtime == mtime
        && entry.size == size && entry.settings_hash == settings_hash
}

/// A cached result for one file.
#[derive(Clone, Debug)]
pub struct CacheEntry {
    pub mtime: u64,
    pub size: u64,
    pub settings_hash: u64,
    pub diagnostics: Vec<RpcDiagnostic>,
}

pub ghost struct EntryView {
    pub mtime: u64,
    pub size: u64,
    pub settings_hash: u64,
    pub diagnostics: Seq<RpcView>,
}

impl View for CacheEntry {
    type V = EntryView;

    open spec fn view(&self) -> EntryView {
        EntryView {
            mtime: self.mtime,
            size: self.size,
            settings_hash: self.settings_hash,
            diagnostics: rpcs_view(self.diagnostics@),
        }
    }
}

/// The in-memory tier: at most one entry per file path.
pub struct MemoryCache {
    entries: Vec<(String, CacheEntry)>,
}

pub type CacheView = Seq<(Seq<char>, EntryView)>;

/// The position of `path`'s entry, or -1.
pub open spec fn entry_index(s: CacheView, path: Seq<char>) -> int
    decreases s.len(),
{
    if s.len() == 0 {
        -1
    } else {
        let i = entry_index(s.drop_last(), path);
        if i >= 0 {
            i
        } else if s.last().0 == path {
            s.len() - 1
        } else {
            -1
        }
    }
}

/// The entry stored for `path`.
pub open spec fn cached_entry(s: CacheView, path: Seq<char>) -> Option<EntryView> {
    let i = entry_index(s, path);
    if i >= 0 {
        Some(s[i].1)
    } else {
        None
    }
}

/// The cache after storing `e` for `path`, replacing what was there.
pub open spec fn stored(s: CacheView, path: Seq<char>, e: EntryView) -> CacheView {
    let i = entry_index(s, path);
    if i >= 0 {
        s.update(i, (path, e))
    } else {
        s.push((path, e))
    }
}

/// What the cache serves for `path` with this signature and fingerprint: the
/// stored diagnostics when all three agree.
pub open spec fn served(s: CacheView, path: Seq<char>, mtime: u64, size: u64, settings_hash: u64) -> Option<Seq<RpcView>> {
    match cached_entry(s, path) {
        Some(e) => if e.mtime == mtime && e.size == size && e.settings_hash == settings_hash {
            Some(e.diagnostics)
        } else {
            None
        },
        None => None,
    }
}

proof fn lemma_entry_index(s: CacheView, path: Seq<char>)
    ensures
        -1 <= entry_index(s, path) < s.len(),
        entry_index(s, path) >= 0 ==> s[entry_index(s, path)].0 == path,
        entry_index(s, path) >= 0 ==> forall|k: int| 0 <= k < entry_index(s, path) ==> #[trigger] s[k].0 != path,
        entry_index(s, path) < 0 ==> forall|k: int| 0 <= k < s.len() ==> #[trigger] s[k].0 != path,
    decreases s.len(),
{
    if s.len() > 0 {
        lemma_entry_index(s.drop_last(), path);
        assert(forall|k: int| 0 <= k < s.len() - 1 ==> #[trigger] s[k] == s.drop_last()[k]);
    }
}

proof fn lemma_entry_index_unique(s: CacheView, path: Seq<char>, i: int)
    requires
        0 <= i < s.len(),
        s[i].0 == path,
        forall|k: int| 0 <= k < i ==> #[trigger] s[k].0 != path,
    ensures
        entry_index(s, path) == i,
{
    lemma_entry_index(s, path);
}

/// Storing an entry for a file makes it the one served for that file, and
/// leaves the entries of other files as they were.
pub proof fn lemma_stored_entry(s: CacheView, path: Seq<char>, e: EntryView, other: Seq<char>)
    ensures
        cached_entry(stored(s, path, e), path) == Some(e),
        other != path ==> cached_entry(stored(s, path, e), other) == cached_entry(s, other),
{
    lemma_entry_index(s, path);
    lemma_entry_index(s, other);
    let t = stored(s, path, e);
    let i = entry_index(s, path);
    if i >= 0 {
        lemma_entry_index_unique(t, path, i);
        lemma_entry_index(t, other);
        if other != path {
            let j = entry_index(s, other);
            if j >= 0 {
                lemma_entry_index_unique(t, other, j);
            } else {
                assert forall|k: int| 0 <= k < t.len() implies #[trigger] t[k].0 != other by {
                    if k != i {
                        assert(t[k] == s[k]);
                    }
                }
            }
        }
    } else {
        lemma_entry_index_unique(t, path, s.len() as int);
        lemma_entry_index(t, other);
        if other != path {
            let j = entry_index(s, other);
            if j >= 0 {
                lemma_entry_index_unique(t, other, j);
            } else {
                assert forall|k: int| 0 <= k < t.len() implies #[trigger] t[k].0 != other by {
                    if k < s.len() {
                        assert(t[k] == s[k]);
                    }
                }
            }
        }
    }
}

/// A result stored for a file with a signature and fingerprint is served back for
/// the same file, signature and fingerprint, so the analyzer need not run again;
/// with any of the three changed it is not served.
pub proof fn lemma_cache_round_trip(s: CacheView, path: Seq<char>, e: EntryView, mtime: u64, size: u64, settings_hash: u64)
    ensures
        served(stored(s, path, e), path, e.mtime, e.size, e.settings_hash) == Some(e.diagnostics),
        (mtime != e.mtime || size != e.size || settings_hash != e.settings_hash) ==> served(
            stored(s, path, e),
            path,
            mtime,
            size,
            settings_hash,
        ) is None,
{
    lemma_stored_entry(s, path, e, path);
}

impl View for MemoryCache {
    type V = CacheView;

    closed spec fn view(&self) -> CacheView {
        self.entries@.map_values(|p: (String, CacheEntry)| (p.0@, p.1@))
    }
}

impl MemoryCache {
    /// An empty cache.
    pub fn new() -> (r: MemoryCache)
        ensures
            r@ == Seq::<(Seq<char>, EntryView)>::empty(),
    {
        let r = MemoryCache { entries: Vec::new() };
        assert(r@ =~= Seq::<(Seq<char>, EntryView)>::empty());
        r
    }

    fn find(&self, path: &str) -> (r: Option<usize>)
        ensures
            match r {
                Some(i) => i as int == entry_index(self@, path@),
                None => entry_index(self@, path@) < 0,
            },
    {
        proof {
            lemma_entry_index(self@, path@);
        }
        let mut i: usize = 0;
        while i < self.entries.len()
            invariant
                i <= self@.len(),
                self@.len() == self.entries@.len(),
                forall|k: int| 0 <= k < i ==> #[trigger] self@[k].0 != path@,
            decreases self.entries@.len() - i,
        {
            assert(self@[i as int].0 == self.entries@[i as int].0@);
            if same_text(self.entries[i].0.as_str(), path) {
                proof {
                    lemma_entry_index_unique(self@, path@, i as int);
                }
                return Some(i);
            }
            i += 1;
        }
        proof {
            lemma_entry_index(self@, path@);
            if entry_index(self@, path@) >= 0 {
                assert(self@[entry_index(self@, path@)].0 == path@);
            }
        }
        None
    }

    /// The stored diagnostics for `path`, when stored under this signature and fingerprint.
    pub fn lookup(&self, path: &str, mtime: u64, size: u64, settings_hash: u64) -> (r: Option<Vec<RpcDiagnostic>>)
        ensures
            match r {
                Some(v) => served(self@, path@, mtime, size, settings_hash) == Some(rpcs_view(v@)),
                None => served(self@, path@, mtime, size, settings_hash) is None,
            },
    {
        proof {
            lemma_entry_index(self@, path@);
        }
        assert(self@.len() == self.entries@.len());
        match self.find(path) {
            None => None,
            Some(i) => {
                let e = &self.entries[i].1;
                assert(self@[i as int].1 == e@);
                if e.mtime == mtime && e.size == size && e.settings_hash == settings_hash {
                    Some(copy_rpc_diagnostics(&e.diagnostics))
                } else {
                    None
                }
            },
        }
    }

    /// Whether an entry is stored for `path`, whatever its signature.
    pub fn contains(&self, path: &str) -> (r: bool)
        ensures
            r == (cached_entry(self@, path@) is Some),
    {
        self.find(path).is_some()
    }

    /// Stores `entry` for `path`, replacing what was there.
    pub fn store(&mut self, path: &str, entry: CacheEntry)
        ensures
            final(self)@ == stored(old(self)@, path@, entry@),
    {
        let ghost before = self@;
        proof {
            lemma_entry_index(self@, path@);
        }
        assert(self@.len() == self.entries@.len());
        match self.find(path) {
            Some(i) => {
                self.entries.set(i, (String::from_str(path), entry));
                assert(self@ =~= stored(before, path@, entry@));
            },
            None => {
                self.entries.push((String::from_str(path), entry));
                assert(self@ =~= stored(before, path@, entry@));
            },
        }
    }
}

/// Whether a file need not be analyzed again: its signature (modification time
/// and size) is known, and either the memory tier holds an entry for it, which
/// must agree on signature and fingerprint, or, lacking one, its disk cache file
/// exists. Nothing is cached for a file whose signature is unknown.
pub fn is_cached(file_path: &str, cache: &MemoryCache, signature: Option<(u64, u64)>, settings_hash: u64, disk_file_exists: bool) -> (r: bool)
    ensures
        r == match signature {
            None => false,
            Some((mtime, size)) => match cached_entry(cache@, file_path@) {
                Some(e) => e.mtime == mtime && e.size == size && e.settings_hash == settings_hash,
                None => disk_file_exists,
            },
        },
{
    match signature {
        None => false,
        Some((mtime, size)) => {
            if cache.contains(file_path) {
                cache.lookup(file_path, mtime, size, settings_hash).is_some()
            } else {
                disk_file_exists
            }
        },
    }
}

/// Where a single-file analysis takes its result from, before any disk read.
#[derive(Clone, Copy, Debug, PartialEq, Eq, Structural)]
pub enum CacheAction {
    /// The memory tier holds a matching entry: serve it.
    ServeMemory,
    /// Read the disk entry; on a match serve it and promote it to memory, else analyze.
    TryDisk,
    /// Run the analyzer.
    Analyze,
}

/// The order of the tiers: nothing is cached for a file whose signature cannot be
/// read; otherwise memory first, then disk when disk caching is on, then the analyzer.
pub fn first_cache_action(signature_known: bool, memory_hit: bool, disk_enabled: bool) -> (r: CacheAction)
    ensures
        !signature_known ==> r == CacheAction::Analyze,
        signature_known && memory_hit ==> r == CacheAction::ServeMemory,
        signature_known && !memory_hit && disk_enabled ==> r == CacheAction::TryDisk,
        signature_known && !memory_hit && !disk_enabled ==> r == CacheAction::Analyze,
{
    if !signature_known {
        CacheAction::Analyze
    } else if memory_hit {
        CacheAction::ServeMemory
    } else if disk_enabled {
        CacheAction::TryDisk
    } else {
        CacheAction::Analyze
    }
}

/// What is stored after the analyzer ran.
#[derive(Clone, Copy, Debug, PartialEq, Eq, Structural)]
pub enum CacheStore {
    /// The file's signature is unknown: store nothing.
    Nothing,
    /// Store in memory only.
    Memory,
    /// Store in memory, and write the disk entry.
    MemoryAndDisk,
}

/// A result is stored only under a known signature, on disk too when disk caching is on.
pub fn store_after_analysis(signature_known: bool, disk_enabled: bool) -> (r: CacheStore)
    ensures
        !signature_known ==> r == CacheStore::Nothing,
        signature_known && !disk_enabled ==> r == CacheStore::Memory,
        signature_known && disk_enabled ==> r == CacheStore::MemoryAndDisk,
{
    if !signature_known {
        CacheStore::Nothing
    } else if disk_enabled {
        CacheStore::MemoryAndDisk
    } else {
        CacheStore::Memory
    }
}

} // verus!
