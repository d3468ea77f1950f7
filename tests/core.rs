use tidyd::analysis::{analyzer_command, finish_diagnostics, retarget_diagnostics};
use tidyd::cache::{
    first_cache_action, store_after_analysis, CacheAction, CacheStore,
    cache_file_name, cache_key_for_path, cache_key_prefix, disk_entry_matches, is_cached, is_stale_cache_file,
    settings_fingerprint, CacheEntry, DiskCacheEntry, MemoryCache, Settings, DISK_CACHE_VERSION,
};
use tidyd::command::{
    replace_file_arg, resolve_arguments, shadow_arguments, shadow_compile_database, split_command, CompileCommandEntry,
    ShadowError,
};
use tidyd::diagnostic::{
    apply_diagnostic_caps, diag_key, merge_diagnostics, normalize_severity, to_rpc_diagnostic, Fix, InternalDiagnostic,
    RpcDiagnostic, TextEdit,
};
use tidyd::fixes::{fix_record_to_diagnostic, settle_fix_diagnostic, FixDiagnostic, FixMessage, FixReplacement, FixRecord, Replacement};
use tidyd::dispatch::{
    empty_run_message, message_kind, mode_or_default, plan_file_analysis, project_file_source, route, FilePlan,
    FileSource, MessageKind, Method,
};
use tidyd::index::{entry_full_path, unique_paths, CompileIndex};
use tidyd::output::{parse_diagnostics, parse_number};
use tidyd::paths::{
    clang_tidy_config_mtime, config_mtime_dirs, config_search_dirs, find_clang_tidy_config, join_path,
    resolve_cache_dir, resolve_compile_commands_path, resolve_path, trim_text,
};
use tidyd::position::{build_line_starts, offset_range, offset_to_line_col, range_from_line_col, Position, Range};
use tidyd::uri::{path_to_uri, requested_file, uri_to_path};
use tidyd::schedule::{batch_bounds, poll_action, progress_report, throttle_delay, worker_count, PollAction, RunRegistry};

fn settings() -> Settings {
    Settings {
        clang_tidy_path: String::new(),
        compile_commands_path: String::new(),
        extra_args: Vec::new(),
        max_workers: 1,
        quick_checks: String::new(),
        max_diagnostics_per_file: 0,
        max_fixes_per_file: 0,
        daemon_cache_on_disk: false,
        daemon_cache_dir: String::new(),
        per_file_timeout_ms: 0,
        publish_diagnostics_throttle_ms: 0,
    }
}

fn fix(title: &str) -> Fix {
    Fix {
        title: title.to_string(),
        edits: vec![TextEdit { range: range_from_line_col(1, 1), new_text: "x".to_string() }],
    }
}

fn diag(file: &str, line: usize, message: &str, fixes: Vec<Fix>) -> InternalDiagnostic {
    InternalDiagnostic {
        file: file.to_string(),
        range: range_from_line_col(line, 1),
        severity: "warning".to_string(),
        code: Some("chk".to_string()),
        message: message.to_string(),
        fixes,
    }
}

#[test]
fn utf16_column_after_two_byte_character() {
    let text = "a\u{e9}\n";
    assert_eq!(text.as_bytes(), &[0x61, 0xc3, 0xa9, 0x0a]);
    let starts = build_line_starts(text);
    assert_eq!(starts, vec![0, 4]);
    let r = offset_range(text, &starts, 3, 0);
    assert_eq!(r.start, Position { line: 0, character: 2 });
    assert_eq!(r.end, Position { line: 0, character: 2 });
}

#[test]
fn offsets_map_to_lines_and_utf16_columns() {
    let text = "ab\n\u{1F600}x\nz";
    let starts = build_line_starts(text);
    assert_eq!(starts, vec![0, 3, 9]);
    assert_eq!(offset_to_line_col(text, &starts, 0), (0, 0));
    assert_eq!(offset_to_line_col(text, &starts, 3), (1, 0));
    assert_eq!(offset_to_line_col(text, &starts, 7), (1, 2));
    assert_eq!(offset_to_line_col(text, &starts, 8), (1, 3));
    assert_eq!(offset_to_line_col(text, &starts, 9), (2, 0));
    assert_eq!(offset_to_line_col(text, &starts, 1000), (2, 1));
    assert_eq!(offset_to_line_col("", &build_line_starts(""), 5), (0, 0));
}

#[test]
fn one_based_positions_become_one_column_ranges() {
    let r = range_from_line_col(3, 5);
    assert_eq!(r, Range { start: Position { line: 2, character: 4 }, end: Position { line: 2, character: 5 } });
    let z = range_from_line_col(0, 0);
    assert_eq!(z.start, Position { line: 0, character: 0 });
    assert_eq!(z.end, Position { line: 0, character: 1 });
}

#[test]
fn analyzer_output_line_becomes_diagnostic() {
    let out = "/p/a.cc:3:5: warning: x [chk]\nnoise\nb.cc:1:2: note: see here\n\nrel.cc:10:1: error: bad thing\r\n";
    let d = parse_diagnostics(out, Some("/p"), "/p/a.cc");
    assert_eq!(d.len(), 3);
    assert_eq!(d[0].file, "/p/a.cc");
    assert_eq!(d[0].range, Range { start: Position { line: 2, character: 4 }, end: Position { line: 2, character: 5 } });
    assert_eq!(d[0].severity, "warning");
    assert_eq!(d[0].code.as_deref(), Some("chk"));
    assert_eq!(d[0].message, "x");
    assert_eq!(d[1].file, "/p/b.cc");
    assert_eq!(d[1].severity, "info");
    assert_eq!(d[1].code, None);
    assert_eq!(d[1].message, "see here");
    assert_eq!(d[2].file, "/p/rel.cc");
    assert_eq!(d[2].severity, "error");
    assert_eq!(d[2].message, "bad thing");
    assert_eq!(d[2].range.start, Position { line: 9, character: 0 });
}

#[test]
fn severities_normalize() {
    assert_eq!(normalize_severity("error"), "error");
    assert_eq!(normalize_severity("warning"), "warning");
    assert_eq!(normalize_severity("note"), "info");
    assert_eq!(normalize_severity("Error"), "info");
}

#[test]
fn numbers_parse_like_usize() {
    assert_eq!(parse_number("42"), Some(42));
    assert_eq!(parse_number("+7"), Some(7));
    assert_eq!(parse_number(""), None);
    assert_eq!(parse_number("+"), None);
    assert_eq!(parse_number("1a"), None);
    assert_eq!(parse_number("99999999999999999999999"), None);
    assert_eq!(parse_number("18446744073709551615"), Some(usize::MAX));
}

#[test]
fn cap_distribution_over_diagnostics() {
    let mut d = vec![
        diag("/p/a.cc", 1, "a", vec![fix("1"), fix("2")]),
        diag("/p/a.cc", 2, "b", vec![fix("3"), fix("4")]),
        diag("/p/a.cc", 3, "c", vec![fix("5"), fix("6")]),
    ];
    apply_diagnostic_caps(&mut d, 0, 3);
    assert_eq!(d.len(), 3);
    assert_eq!(d[0].fixes.len(), 2);
    assert_eq!(d[1].fixes.len(), 1);
    assert_eq!(d[1].fixes[0].title, "3");
    assert_eq!(d[2].fixes.len(), 0);
}

#[test]
fn caps_bound_diagnostics_and_zero_means_unlimited() {
    let mk = || {
        vec![
            diag("/p/a.cc", 1, "a", vec![fix("1"), fix("2")]),
            diag("/p/a.cc", 2, "b", vec![]),
            diag("/p/a.cc", 3, "c", vec![fix("5")]),
        ]
    };
    let mut d = mk();
    apply_diagnostic_caps(&mut d, 2, 1);
    assert_eq!(d.len(), 2);
    assert_eq!(d.iter().map(|x| x.fixes.len()).sum::<usize>(), 1);
    let mut u = mk();
    apply_diagnostic_caps(&mut u, 0, 0);
    assert_eq!(u.len(), 3);
    assert_eq!(u.iter().map(|x| x.fixes.len()).sum::<usize>(), 3);
}

#[test]
fn merge_joins_fixes_of_same_key() {
    let mut base = vec![diag("/p/a.cc", 1, "m", vec![]), diag("/p/a.cc", 2, "n", vec![])];
    let fixes = vec![diag("/p/a.cc", 1, "m", vec![fix("f")]), diag("/p/a.cc", 5, "o", vec![fix("g")])];
    merge_diagnostics(&mut base, fixes);
    assert_eq!(base.len(), 3);
    assert_eq!(base[0].message, "m");
    assert_eq!(base[0].fixes.len(), 1);
    assert_eq!(base[0].fixes[0].title, "f");
    assert_eq!(base[1].fixes.len(), 0);
    assert_eq!(base[2].message, "o");
}

#[test]
fn merge_key_text() {
    let d = diag("/p/a.cc", 3, "msg", vec![]);
    assert_eq!(diag_key(&d), "/p/a.cc:2:0:chk:msg");
    let mut e = diag("f", 1, "m", vec![]);
    e.code = None;
    assert_eq!(diag_key(&e), "f:0:0::m");
}

#[test]
fn client_form_drops_empty_fixes() {
    let r = to_rpc_diagnostic(diag("/p/a.cc", 1, "m", vec![]));
    assert!(r.fixes.is_none());
    let s = to_rpc_diagnostic(diag("/p/a.cc", 1, "m", vec![fix("f")]));
    assert_eq!(s.fixes.map(|f| f.len()), Some(1));
}

#[test]
fn command_line_splits_like_a_shell() {
    assert_eq!(split_command("cc  -c 'a b.c'  -DX=\"1 2\" a\\ b"), vec!["cc", "-c", "a b.c", "-DX=1 2", "a b"]);
    assert_eq!(split_command("  "), Vec::<String>::new());
    assert_eq!(split_command("'it''s' \"q\\\"x\""), vec!["its", "q\"x"]);
    assert_eq!(split_command("a\tb\nc"), vec!["a", "b", "c"]);
    assert_eq!(split_command("''"), Vec::<String>::new());
}

#[test]
fn file_arguments_are_pointed_at_the_copy() {
    let mut args = vec!["cc".to_string(), "a.cc".to_string(), "/p/a.cc".to_string(), "-o".to_string()];
    assert!(replace_file_arg(&mut args, "a.cc", "/p/a.cc", "/tmp/x/a.cc"));
    assert_eq!(args, vec!["cc", "/tmp/x/a.cc", "/tmp/x/a.cc", "-o"]);
    let mut none = vec!["cc".to_string()];
    assert!(!replace_file_arg(&mut none, "a.cc", "/p/a.cc", "/tmp/x/a.cc"));
}

fn entry(command: Option<&str>, arguments: Option<Vec<&str>>) -> CompileCommandEntry {
    CompileCommandEntry {
        file: "a.cc".to_string(),
        directory: "/p".to_string(),
        command: command.map(|c| c.to_string()),
        arguments: arguments.map(|v| v.into_iter().map(|s| s.to_string()).collect()),
    }
}

#[test]
fn arguments_prefer_the_list_over_the_command() {
    assert_eq!(resolve_arguments(&entry(Some("cc x.cc"), Some(vec!["c++", "a.cc"]))), Some(vec!["c++".to_string(), "a.cc".to_string()]));
    assert_eq!(resolve_arguments(&entry(Some("cc -c a.cc"), None)), Some(vec!["cc".to_string(), "-c".to_string(), "a.cc".to_string()]));
    assert_eq!(resolve_arguments(&entry(None, None)), None);
}

#[test]
fn shadow_entry_arguments_and_errors() {
    let ok = shadow_arguments(&entry(Some("cc -c a.cc"), None), "/p/a.cc", "/tmp/s/a.cc");
    assert_eq!(ok, Ok(vec!["cc".to_string(), "-c".to_string(), "/tmp/s/a.cc".to_string()]));
    assert_eq!(shadow_arguments(&entry(None, None), "/p/a.cc", "/t/a.cc"), Err(ShadowError::MissingArguments));
    assert_eq!(shadow_arguments(&entry(Some("cc -c b.cc"), None), "/p/a.cc", "/t/a.cc"), Err(ShadowError::FileNotReferenced));
    assert_eq!(ShadowError::FileNotReferenced.message(), "compile command does not reference file path");
}

#[test]
fn unsaved_buffer_fallback_when_file_not_in_database() {
    let idx = CompileIndex::build(
        "/p/compile_commands.json".to_string(),
        7,
        vec![("/p/b.cc".to_string(), entry(Some("cc -c b.cc"), None))],
    );
    assert!(!idx.file_in_index("/p/a.cc"));
    assert!(idx.find_compile_entry("/p/a.cc").is_none());
    assert!(idx.file_in_index("/p/b.cc"));
}

#[test]
fn shadow_diagnostics_report_the_original_path() {
    let mut d = vec![diag("/tmp/s/a.cc", 1, "m", vec![]), diag("/tmp/s/a.cc", 2, "n", vec![])];
    retarget_diagnostics(&mut d, "/p/a.cc");
    assert!(d.iter().all(|x| x.file == "/p/a.cc"));
    assert_eq!(d[1].message, "n");
}

#[test]
fn index_keeps_first_entry_per_path() {
    let idx = CompileIndex::build(
        "/p/cc.json".to_string(),
        3,
        vec![
            ("/p/a.cc".to_string(), entry(Some("first a.cc"), None)),
            ("/p/a.cc".to_string(), entry(Some("second a.cc"), None)),
        ],
    );
    assert_eq!(idx.files(), vec!["/p/a.cc", "/p/a.cc"]);
    assert_eq!(idx.find_compile_entry("/p/a.cc").unwrap().command.as_deref(), Some("first a.cc"));
    assert!(idx.is_fresh("/p/cc.json", 3));
    assert!(!idx.is_fresh("/p/cc.json", 4));
}

#[test]
fn project_files_resolve_and_dedupe() {
    assert_eq!(entry_full_path("a.cc", "/p"), "/p/a.cc");
    assert_eq!(entry_full_path("/q/a.cc", "/p"), "/q/a.cc");
    let v = vec!["/p/a.cc".to_string(), "/p/b.cc".to_string(), "/p/a.cc".to_string()];
    assert_eq!(unique_paths(&v), vec!["/p/a.cc", "/p/b.cc"]);
}

#[test]
fn paths_resolve_and_join() {
    assert_eq!(resolve_path("", Some("/p")), None);
    assert_eq!(resolve_path("/a/b", Some("/p")), Some("/a/b".to_string()));
    assert_eq!(resolve_path("b.cc", Some("/p")), Some("/p/b.cc".to_string()));
    assert_eq!(resolve_path("b.cc", Some("/p/")), Some("/p/b.cc".to_string()));
    assert_eq!(resolve_path("b.cc", None), Some("b.cc".to_string()));
    assert_eq!(join_path("", "x"), "x");
    assert_eq!(trim_text("  a b \t"), "a b");
    assert_eq!(trim_text(" \u{3000} "), "");
}

#[test]
fn config_search_walks_up_to_the_root() {
    let dirs = config_search_dirs("/r/src/sub/a.cc", Some("/r"), None);
    assert_eq!(dirs, vec!["/r/src/sub", "/r/src", "/r", "/r"]);
    let stop = config_search_dirs("/r/build/x/a.cc", Some("/r"), Some("/r/build"));
    assert_eq!(stop, vec!["/r/build/x", "/r/build", "/r/build", "/r"]);
    let found = find_clang_tidy_config(&dirs, &vec![false, true, true, true]);
    assert_eq!(found, Some("/r/src/.clang-tidy".to_string()));
    assert_eq!(find_clang_tidy_config(&dirs, &vec![false; 4]), None);
}

#[test]
fn config_mtime_prefers_compile_dir() {
    assert_eq!(config_mtime_dirs(Some("/r"), Some("/r/b")), vec!["/r/b", "/r"]);
    assert_eq!(clang_tidy_config_mtime(&vec![(false, Some(1)), (true, Some(9))]), Some(9));
    assert_eq!(clang_tidy_config_mtime(&vec![(true, None), (true, Some(9))]), None);
    assert_eq!(clang_tidy_config_mtime(&vec![]), None);
}

#[test]
fn cache_dir_resolution() {
    assert_eq!(resolve_cache_dir(false, "/c", Some("/r"), None), None);
    assert_eq!(resolve_cache_dir(true, "", Some("/r"), None), Some("/r/.vscode/clang-tidy-daemon-cache".to_string()));
    assert_eq!(resolve_cache_dir(true, "", None, Some("/b")), Some("/b/.vscode/clang-tidy-daemon-cache".to_string()));
    assert_eq!(resolve_cache_dir(true, " rel ", Some("/r"), None), Some("/r/rel".to_string()));
    assert_eq!(resolve_cache_dir(true, "/abs", Some("/r"), None), Some("/abs".to_string()));
    assert_eq!(resolve_cache_dir(true, "", None, None), None);
}

#[test]
fn compile_database_setting() {
    assert_eq!(resolve_compile_commands_path("  ", false), None);
    assert_eq!(resolve_compile_commands_path(" /b ", true), Some("/b/compile_commands.json".to_string()));
    assert_eq!(resolve_compile_commands_path("/b/cc.json", false), Some("/b/cc.json".to_string()));
}

#[test]
fn fingerprint_changes_with_extra_args() {
    let s = settings();
    let a = settings_fingerprint(&s, Some("/p/compile_commands.json"), Some(5), None, "full");
    let b = settings_fingerprint(&s, Some("/p/compile_commands.json"), Some(5), None, "full");
    assert_eq!(a, b);
    let mut t = settings();
    t.extra_args.push("-DX".to_string());
    assert_ne!(a, settings_fingerprint(&t, Some("/p/compile_commands.json"), Some(5), None, "full"));
    assert_ne!(a, settings_fingerprint(&s, Some("/p/compile_commands.json"), Some(5), None, "quick"));
    assert_ne!(a, settings_fingerprint(&s, Some("/p/compile_commands.json"), Some(6), None, "full"));
}

#[test]
fn cache_file_names_and_eviction() {
    assert_eq!(cache_file_name(0xab, 12, 34, 1), "00000000000000ab-12-34-0000000000000001.json");
    let key = cache_key_for_path("/p/a.cc");
    assert_eq!(key, cache_key_for_path("/p/a.cc"));
    assert_ne!(key, cache_key_for_path("/p/b.cc"));
    let prefix = cache_key_prefix(key);
    assert_eq!(prefix.len(), 17);
    let current = cache_file_name(key, 1, 2, 3);
    let old = cache_file_name(key, 1, 2, 4);
    let other = cache_file_name(key ^ 1, 1, 2, 3);
    assert!(!is_stale_cache_file(&current, key, &current));
    assert!(is_stale_cache_file(&old, key, &current));
    assert!(!is_stale_cache_file(&other, key, &current));
    let names = vec![current.clone(), old, other];
    let left: Vec<&String> = names.iter().filter(|n| !is_stale_cache_file(n, key, &current)).filter(|n| n.starts_with(&prefix)).collect();
    assert_eq!(left, vec![&current]);
}

fn rpc(message: &str) -> RpcDiagnostic {
    to_rpc_diagnostic(diag("/p/a.cc", 3, message, vec![]))
}

#[test]
fn cache_hit_returns_stored_diagnostics() {
    let mut cache = MemoryCache::new();
    assert_eq!(cache.lookup("/p/a.cc", 1, 2, 3).map(|v| v.len()), None);
    cache.store("/p/a.cc", CacheEntry { mtime: 1, size: 2, settings_hash: 3, diagnostics: vec![rpc("x")] });
    let hit = cache.lookup("/p/a.cc", 1, 2, 3).expect("hit");
    assert_eq!(hit.len(), 1);
    assert_eq!(hit[0].message, "x");
    assert_eq!(hit[0].range.start, Position { line: 2, character: 0 });
    assert!(cache.lookup("/p/a.cc", 1, 2, 4).is_none());
    assert!(cache.lookup("/p/a.cc", 9, 2, 3).is_none());
    assert!(cache.lookup("/p/b.cc", 1, 2, 3).is_none());
    cache.store("/p/a.cc", CacheEntry { mtime: 1, size: 2, settings_hash: 4, diagnostics: vec![] });
    assert!(cache.lookup("/p/a.cc", 1, 2, 3).is_none());
    assert_eq!(cache.lookup("/p/a.cc", 1, 2, 4).map(|v| v.len()), Some(0));
}

#[test]
fn incremental_filter_skips_cached_files() {
    let mut cache = MemoryCache::new();
    cache.store("/p/a.cc", CacheEntry { mtime: 1, size: 2, settings_hash: 3, diagnostics: vec![] });
    assert!(is_cached("/p/a.cc", &cache, Some((1, 2)), 3, false));
    assert!(!is_cached("/p/a.cc", &cache, Some((1, 2)), 4, true));
    assert!(!is_cached("/p/b.cc", &cache, Some((1, 2)), 3, false));
    assert!(is_cached("/p/b.cc", &cache, Some((1, 2)), 3, true));
    assert!(!is_cached("/p/a.cc", &cache, None, 3, true));
}

#[test]
fn disk_entries_are_checked() {
    let e = DiskCacheEntry { version: DISK_CACHE_VERSION, file_path: "/p/a.cc".to_string(), mtime: 1, size: 2, settings_hash: 3, diagnostics: vec![] };
    assert!(disk_entry_matches(&e, "/p/a.cc", 1, 2, 3));
    assert!(!disk_entry_matches(&e, "/p/b.cc", 1, 2, 3));
    assert!(!disk_entry_matches(&e, "/p/a.cc", 1, 2, 4));
    let v = DiskCacheEntry { version: 2, ..e };
    assert!(!disk_entry_matches(&v, "/p/a.cc", 1, 2, 3));
}

#[test]
fn analyzer_argv_follows_settings() {
    let mut s = settings();
    s.quick_checks = " bugprone-* ".to_string();
    s.extra_args = vec!["-DX".to_string()];
    let full = analyzer_command(&s, "/p/a.cc", Some("/p/build"), "/tmp/f.yaml", "full", None);
    assert_eq!(full, vec!["clang-tidy", "/p/a.cc", "-p", "/p/build", "-export-fixes", "/tmp/f.yaml", "--quiet", "-extra-arg=-fno-color-diagnostics", "-DX"]);
    s.clang_tidy_path = "/opt/ct".to_string();
    let quick = analyzer_command(&s, "/t/a.cc", None, "/tmp/f.yaml", "quick", Some("/p/.clang-tidy"));
    assert_eq!(quick, vec!["/opt/ct", "/t/a.cc", "-export-fixes", "/tmp/f.yaml", "--quiet", "-extra-arg=-fno-color-diagnostics", "--config-file=/p/.clang-tidy", "-checks=bugprone-*", "-DX"]);
}

#[test]
fn finishing_filters_caps_and_converts() {
    let d = vec![
        diag("/p/a.cc", 1, "a", vec![fix("1")]),
        diag("/p/other.cc", 2, "b", vec![]),
        diag("/p/a.cc", 3, "c", vec![]),
    ];
    let r = finish_diagnostics(d, &vec![true, false, true], 0, 0);
    assert_eq!(r.len(), 2);
    assert_eq!(r[0].message, "a");
    assert_eq!(r[0].fixes.as_ref().map(|f| f.len()), Some(1));
    assert_eq!(r[1].message, "c");
    assert!(r[1].fixes.is_none());
}

fn rep(path: &str, offset: usize, length: usize, text: &str) -> FixReplacement {
    FixReplacement { file_path: path.to_string(), offset, length, replacement_text: text.to_string() }
}

#[test]
fn fix_document_fields_come_from_the_message_record() {
    let d = FixDiagnostic {
        diagnostic_name: Some("chk".to_string()),
        diagnostic_message: Some(FixMessage {
            message: Some("inner".to_string()),
            file_path: None,
            file_offset: Some(4),
            replacements: Some(vec![rep("a.cc", 1, 2, "zz")]),
        }),
        message: Some("outer".to_string()),
        file_path: Some("a.cc".to_string()),
        file_offset: Some(9),
        replacements: None,
    };
    let r = settle_fix_diagnostic(d, Some("/p"), "/p/a.cc");
    assert_eq!(r.message, "inner");
    assert_eq!(r.path, "/p/a.cc");
    assert_eq!(r.offset, 4);
    assert_eq!(r.replacements.len(), 1);
    assert_eq!(r.replacements[0].path, "/p/a.cc");
    assert_eq!(r.replacements[0].text, "zz");
}

#[test]
fn fix_record_becomes_warning_with_one_fix() {
    let text = "a\u{e9}\nxy\n";
    let starts = build_line_starts(text);
    let rec = FixRecord {
        name: Some("chk".to_string()),
        message: "m".to_string(),
        path: "/p/a.cc".to_string(),
        offset: 4,
        in_target: true,
        replacements: vec![
            Replacement { path: "/p/a.cc".to_string(), offset: 3, length: 0, text: "!".to_string(), in_target: true },
            Replacement { path: "/p/o.cc".to_string(), offset: 0, length: 1, text: "?".to_string(), in_target: false },
            Replacement { path: "/p/a.cc".to_string(), offset: 4, length: 2, text: "".to_string(), in_target: true },
        ],
    };
    let d = fix_record_to_diagnostic(rec, text, &starts).expect("diagnostic");
    assert_eq!(d.severity, "warning");
    assert_eq!(d.range, Range { start: Position { line: 1, character: 0 }, end: Position { line: 1, character: 1 } });
    assert_eq!(d.fixes.len(), 1);
    assert_eq!(d.fixes[0].title, "Apply clang-tidy fix (chk)");
    assert_eq!(d.fixes[0].edits.len(), 2);
    assert_eq!(d.fixes[0].edits[0].range.start, Position { line: 0, character: 2 });
    assert_eq!(d.fixes[0].edits[1].range.end, Position { line: 1, character: 2 });
    let none = FixRecord { name: None, message: String::new(), path: "/p/a.cc".to_string(), offset: 0, in_target: true, replacements: vec![] };
    assert!(fix_record_to_diagnostic(none, text, &starts).is_none());
}

#[test]
fn scheduler_decisions() {
    assert_eq!(worker_count(0), 1);
    assert_eq!(worker_count(4), 4);
    assert_eq!(batch_bounds(5, 2), vec![(0, 2), (2, 4), (4, 5)]);
    assert_eq!(batch_bounds(5, 0), vec![(0, 5)]);
    assert_eq!(batch_bounds(0, 3), vec![]);
    assert_eq!(progress_report(2, 2), Some(100));
    assert_eq!(progress_report(1, 2), None);
    assert_eq!(progress_report(10, 30), Some(33));
    assert_eq!(progress_report(29, 29), Some(100));
    assert_eq!(progress_report(10, 11), Some(90));
    assert_eq!(throttle_delay(30, 100), 70);
    assert_eq!(throttle_delay(300, 100), 0);
    assert_eq!(throttle_delay(0, 0), 0);
    assert_eq!(poll_action(true, 999, 1), PollAction::Collect);
    assert_eq!(poll_action(false, 10, 10), PollAction::Kill);
    assert_eq!(poll_action(false, 10, 0), PollAction::Wait);
}

#[test]
fn cancellation_reaches_the_named_run_and_stays() {
    let mut runs = RunRegistry::new();
    let p1 = runs.register("p1");
    let p2 = runs.register("p2");
    runs.cancel("unknown");
    assert!(!runs.is_cancelled(p1) && !runs.is_cancelled(p2));
    runs.cancel("p2");
    assert!(runs.is_cancelled(p2));
    assert!(!runs.is_cancelled(p1));
    let again = runs.register("p2");
    assert!(runs.is_cancelled(p2));
    assert!(!runs.is_cancelled(again));
    runs.cancel("*");
    assert!(runs.is_cancelled(p1) && runs.is_cancelled(p2) && runs.is_cancelled(again));
}

#[test]
fn file_uris_map_to_paths_and_back() {
    assert_eq!(uri_to_path("file:///p/a.cc"), Some("/p/a.cc".to_string()));
    assert_eq!(uri_to_path("not a uri"), None);
    assert_eq!(requested_file("file:///p/b%20c.cc"), "/p/b c.cc");
    assert_eq!(requested_file("/p/b.cc"), "/p/b.cc");
    assert_eq!(path_to_uri("/p/a.cc"), Some("file:///p/a.cc".to_string()));
    assert_eq!(path_to_uri("rel.cc"), None);
}

#[test]
fn dispatcher_decisions() {
    assert_eq!(message_kind(true, true), MessageKind::Request);
    assert_eq!(message_kind(true, false), MessageKind::Notification);
    assert_eq!(message_kind(false, true), MessageKind::Ignored);
    assert_eq!(route("analyzeFile"), Method::AnalyzeFile);
    assert_eq!(route("cancel"), Method::Cancel);
    assert_eq!(route("initialize"), Method::Initialize);
    assert_eq!(route("bogus"), Method::Other);
    assert_eq!(plan_file_analysis(true, false, true), FilePlan::NotInDatabase);
    assert_eq!(plan_file_analysis(false, false, true), FilePlan::UnsavedThenOnDisk);
    assert_eq!(plan_file_analysis(true, true, false), FilePlan::OnDisk);
    assert_eq!(project_file_source(true, true), FileSource::Requested);
    assert_eq!(project_file_source(false, true), FileSource::Index);
    assert_eq!(project_file_source(false, false), FileSource::Database);
    assert_eq!(empty_run_message(true), "No changed files to analyze");
    assert_eq!(mode_or_default(None), "full");
    assert_eq!(mode_or_default(Some("quick")), "quick");
}

#[test]
fn shadow_database_has_one_entry() {
    let args = vec!["cc".to_string(), "-DQ=\"x\"".to_string(), "/t/a.cc".to_string()];
    let text = shadow_compile_database("/p", "/t/a.cc", &args);
    assert_eq!(text, r#"[{"directory":"/p","file":"/t/a.cc","arguments":["cc","-DQ=\"x\"","/t/a.cc"]}]"#);
    let parsed: serde_json::Value = serde_json::from_str(&text).unwrap();
    assert_eq!(parsed[0]["arguments"][1], "-DQ=\"x\"");
    assert_eq!(shadow_compile_database("/p", "f", &vec![]), r#"[{"directory":"/p","file":"f","arguments":[]}]"#);
}

#[test]
fn cache_hit_scenario_serves_parsed_result() {
    let out = "/p/a.cc:3:5: warning: x [chk]\n";
    let parsed = parse_diagnostics(out, Some("/p"), "/p/a.cc");
    let keep = vec![true; parsed.len()];
    let first = finish_diagnostics(parsed, &keep, 0, 0);
    assert_eq!(first.len(), 1);
    assert_eq!(first[0].range, Range { start: Position { line: 2, character: 4 }, end: Position { line: 2, character: 5 } });
    assert_eq!(first[0].severity, "warning");
    assert_eq!(first[0].code.as_deref(), Some("chk"));
    let fp = settings_fingerprint(&settings(), None, None, None, "full");
    let mut cache = MemoryCache::new();
    cache.store("/p/a.cc", CacheEntry { mtime: 10, size: 20, settings_hash: fp, diagnostics: first.clone() });
    let again = settings_fingerprint(&settings(), None, None, None, "full");
    let second = cache.lookup("/p/a.cc", 10, 20, again).expect("served from cache");
    assert_eq!(second.len(), 1);
    assert_eq!(second[0].range, first[0].range);
    assert_eq!(second[0].message, "x");
}

#[test]
fn incremental_run_reports_completion() {
    let mut cache = MemoryCache::new();
    cache.store("/p/a.cc", CacheEntry { mtime: 1, size: 2, settings_hash: 3, diagnostics: vec![] });
    let files = ["/p/a.cc", "/p/b.cc"];
    let left: Vec<&&str> = files.iter().filter(|f| !is_cached(f, &cache, Some((1, 2)), 3, false)).collect();
    assert_eq!(left, vec![&"/p/b.cc"]);
    assert_eq!(progress_report(1, left.len()), Some(100));
}

#[test]
fn shadow_error_texts() {
    assert_eq!(ShadowError::MissingArguments.message(), "compile command missing arguments");
    assert_eq!(ShadowError::FileNotReferenced.message(), "compile command does not reference file path");
}

#[test]
fn shadow_database_escapes_like_json() {
    let args = vec!["a\\b".to_string(), "t\u{1}\u{8}\u{c}\n\r\t\u{7f}\u{e9}".to_string()];
    let text = shadow_compile_database("/p", "/t/a.cc", &args);
    assert_eq!(text, "[{\"directory\":\"/p\",\"file\":\"/t/a.cc\",\"arguments\":[\"a\\\\b\",\"t\\u0001\\b\\f\\n\\r\\t\u{7f}\u{e9}\"]}]");
    let parsed: serde_json::Value = serde_json::from_str(&text).unwrap();
    assert_eq!(parsed[0]["arguments"][1], "t\u{1}\u{8}\u{c}\n\r\t\u{7f}\u{e9}");
}

#[test]
fn one_matched_line_becomes_a_warning() {
    let m = tidyd::output::LineMatch {
        file: "/p/a.cc".to_string(),
        line: "3".to_string(),
        col: "5".to_string(),
        severity: "warning".to_string(),
        message: "x".to_string(),
        code: Some("chk".to_string()),
    };
    let d = tidyd::output::diagnostic_of_line(&m, Some("/p"), "/p/other.cc");
    assert_eq!(d.file, "/p/a.cc");
    assert_eq!(d.range, Range { start: Position { line: 2, character: 4 }, end: Position { line: 2, character: 5 } });
    assert_eq!(d.severity, "warning");
    assert_eq!(d.code.as_deref(), Some("chk"));
    assert!(d.fixes.is_empty());
    let odd = tidyd::output::LineMatch { line: "x".to_string(), col: "0".to_string(), file: String::new(), ..m };
    let e = tidyd::output::diagnostic_of_line(&odd, Some("/p"), "/p/other.cc");
    assert_eq!(e.file, "/p/other.cc");
    assert_eq!(e.range.start, Position { line: 0, character: 0 });
}

#[test]
fn output_lines_split_at_line_feeds() {
    let d = parse_diagnostics("a.cc:1:1: warning: x\ry [c]\r\n\nb.cc:2:2: error: z", Some("/p"), "/p/a.cc");
    assert_eq!(d.len(), 2);
    assert_eq!(d[0].message, "x\ry");
    assert_eq!(d[0].code.as_deref(), Some("c"));
    assert_eq!(d[1].file, "/p/b.cc");
    assert_eq!(d[1].message, "z");
    assert!(parse_diagnostics("", None, "/p/a.cc").is_empty());
}

#[test]
fn config_walk_stops_at_root_with_trailing_separator() {
    let dirs = config_search_dirs("/p/src/a.cc", Some("/p/"), None);
    assert_eq!(dirs, vec!["/p/src", "/p", "/p/"]);
    assert_eq!(tidyd::paths::strip_trailing_slashes("/p//"), "/p");
    assert_eq!(tidyd::paths::strip_trailing_slashes("/"), "/");
}

#[test]
fn cache_tiers_in_order() {
    assert_eq!(first_cache_action(false, true, true), CacheAction::Analyze);
    assert_eq!(first_cache_action(true, true, true), CacheAction::ServeMemory);
    assert_eq!(first_cache_action(true, false, true), CacheAction::TryDisk);
    assert_eq!(first_cache_action(true, false, false), CacheAction::Analyze);
    assert_eq!(store_after_analysis(false, true), CacheStore::Nothing);
    assert_eq!(store_after_analysis(true, false), CacheStore::Memory);
    assert_eq!(store_after_analysis(true, true), CacheStore::MemoryAndDisk);
}

#[test]
fn registry_counts_runs() {
    let mut runs = RunRegistry::new();
    assert_eq!(runs.run_count(), 0);
    let t = runs.register("r");
    assert_eq!(runs.run_count(), 1);
    assert!(t < runs.run_count());
}
