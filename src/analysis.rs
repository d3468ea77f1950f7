//! One file's analysis: the analyzer's command line, and the steps from parsed
//! diagnostics to what the client receives.
use vstd::prelude::*;
use vstd::string::*;
use crate::cache::Settings;
use crate::diagnostic::{
    DiagView, InternalDiagnostic, RpcDiagnostic, RpcView, apply_diagnostic_caps, capped, diags_view, rpcs_view,
    to_rpc_diagnostic,
};
use crate::paths::{trim_text, trimmed};
use crate::text::opt_str;
use crate::text::{push_str, same_text, texts};

verus! {

/// The analyzer to run: the configured one, or `clang-tidy` from the search path.
pub open spec fn analyzer_program(configured: Seq<char>) -> Seq<char> {
    if configured.len() == 0 {
        "clang-tidy"@
    } else {
        configured
    }
}

/// The analyzer's command line, program first: the file; `-p` and the compile
/// database directory when there is one; the fix export path; quiet output without
/// colors; the configuration file when given; the quick checks in quick mode when
/// there are any; then the extra arguments.
pub open spec fn analyzer_argv(
    settings: Settings,
    file: Seq<char>,
    compile_dir: Option<Seq<char>>,
    fixes_path: Seq<char>,
    mode: Seq<char>,
    config_file: Option<Seq<char>>,
) -> Seq<Seq<char>> {
    seq![analyzer_program(settings.clang_tidy_path@), file] + match compile_dir {
        Some(d) => seq!["-p"@, d],
        None => seq![],
    } + seq!["-export-fixes"@, fixes_path, "--quiet"@, "-extra-arg=-fno-color-diagnostics"@] + match config_file {
        Some(c) => seq!["--config-file="@ + c],
        None => seq![],
    } + if mode == "quick"@ && trimmed(settings.quick_checks@).len() > 0 {
        seq!["-checks="@ + trimmed(settings.quick_checks@)]
    } else {
        seq![]
    } + texts(settings.extra_args@)
}

fn push_word(out: &mut Vec<String>, s: &str)
    ensures
        texts(final(out)@) == texts(old(out)@).push(s@),
{
    out.push(String::from_str(s));
    assert(texts(out@) =~= texts(old(out)@).push(s@));
}

fn push_joined(out: &mut Vec<String>, a: &str, b: &str)
    ensures
        texts(final(out)@) == texts(old(out)@).push(a@ + b@),
{
    let mut s = String::from_str(a);
    push_str(&mut s, b);
    out.push(s);
    assert(texts(out@) =~= texts(old(out)@).push(a@ + b@));
}

/// Builds the analyzer's command line, program first.
pub fn analyzer_command(
    settings: &Settings,
    file: &str,
    compile_dir: Option<&str>,
    fixes_path: &str,
    mode: &str,
    config_file: Option<&str>,
) -> (r: Vec<String>)
    ensures
        texts(r@) == analyzer_argv(*settings, file@, opt_str(compile_dir), fixes_path@, mode@, opt_str(config_file)),
{
    let mut out: Vec<String> = Vec::new();
    if settings.clang_tidy_path.as_str().unicode_len() == 0 {
        push_word(&mut out, "clang-tidy");
    } else {
        push_word(&mut out, settings.clang_tidy_path.as_str());
    }
    push_word(&mut out, file);
    match compile_dir {
        Some(d) => {
            push_word(&mut out, "-p");
            push_word(&mut out, d);
        },
        None => {},
    }
    push_word(&mut out, "-export-fixes");
    push_word(&mut out, fixes_path);
    push_word(&mut out, "--quiet");
    push_word(&mut out, "-extra-arg=-fno-color-diagnostics");
    match config_file {
        Some(f) => push_joined(&mut out, "--config-file=", f),
        None => {},
    }
    let checks = trim_text(settings.quick_checks.as_str());
    if same_text(mode, "quick") && checks.as_str().unicode_len() > 0 {
        push_joined(&mut out, "-checks=", checks.as_str());
    }
    let ghost e = texts(out@);
    let mut i: usize = 0;
    let extra = &settings.extra_args;
    while i < extra.len()
        invariant
            i <= extra@.len(),
            texts(out@) == e + texts(extra@.subrange(0, i as int)),
        decreases extra@.len() - i,
    {
        push_word(&mut out, extra[i].as_str());
        assert(texts(extra@.subrange(0, i + 1)) =~= texts(extra@.subrange(0, i as int)).push(extra@[i as int]@));
        assert(texts(out@) =~= e + texts(extra@.subrange(0, i + 1)));
        i += 1;
    }
    assert(extra@.subrange(0, extra@.len() as int) =~= extra@);
    assert(texts(out@) =~= analyzer_argv(*settings, file@, opt_str(compile_dir), fixes_path@, mode@, opt_str(config_file)));
    out
}

/// `d` reported against `file`.
pub open spec fn with_file(d: DiagView, file: Seq<char>) -> DiagView {
    DiagView { file, ..d }
}

/// Reports every diagnostic against `original_path`, as the analysis of a copy of
/// a file must: clients see their own path, never the copy's.
pub fn retarget_diagnostics(diags: &mut Vec<InternalDiagnostic>, original_path: &str)
    ensures
        final(diags)@.len() == old(diags)@.len(),
        forall|i: int| 0 <= i < old(diags)@.len() ==> #[trigger] final(diags)@[i]@ == with_file(old(diags)@[i]@, original_path@),
        forall|i: int| 0 <= i < final(diags)@.len() ==> #[trigger] final(diags)@[i].file@ == original_path@,
{
    let ghost orig = diags@;
    let mut i: usize = 0;
    while i < diags.len()
        invariant
            orig.len() == diags@.len(),
            i <= diags@.len(),
            forall|k: int| 0 <= k < i ==> #[trigger] diags@[k]@ == with_file(orig[k]@, original_path@),
            forall|k: int| i <= k < diags@.len() ==> #[trigger] diags@[k] == orig[k],
        decreases diags@.len() - i,
    {
        let target = &mut diags[i];
        target.file = String::from_str(original_path);
        assert(diags@[i as int]@ =~= with_file(orig[i as int]@, original_path@));
        i += 1;
    }
    assert forall|k: int| 0 <= k < diags@.len() implies #[trigger] diags@[k].file@ == original_path@ by {
        assert(diags@[k]@ == with_file(orig[k]@, original_path@));
    }
}

/// The elements of `s` whose flag is set, in order.
pub open spec fn selected(s: Seq<DiagView>, flags: Seq<bool>) -> Seq<DiagView>
    decreases s.len(),
{
    if s.len() == 0 || flags.len() != s.len() {
        seq![]
    } else {
        let rest = selected(s.drop_last(), flags.drop_last());
        if flags.last() {
            rest.push(s.last())
        } else {
            rest
        }
    }
}

/// The client form of a diagnostic view.
pub open spec fn rpc_of(d: DiagView) -> RpcView {
    RpcView {
        range: d.range,
        severity: d.severity,
        code: d.code,
        message: d.message,
        fixes: if d.fixes.len() == 0 { None } else { Some(d.fixes) },
    }
}

/// What the client receives: the diagnostics about the file under analysis
/// (those whose flag is set), capped, in client form.
pub open spec fn finished(s: Seq<DiagView>, in_target: Seq<bool>, max_diags: nat, max_fixes: nat) -> Seq<RpcView> {
    capped(selected(s, in_target), max_diags, max_fixes).map_values(|d: DiagView| rpc_of(d))
}

/// Keeps the diagnostics about the file under analysis (`in_target[i]` tells
/// whether `diags[i]` is), applies the caps, and converts them to client form.
pub fn finish_diagnostics(diags: Vec<InternalDiagnostic>, in_target: &Vec<bool>, max_diags: u32, max_fixes: u32) -> (r: Vec<RpcDiagnostic>)
    requires
        in_target@.len() == diags@.len(),
    ensures
        rpcs_view(r@) == finished(diags_view(diags@), in_target@, max_diags as nat, max_fixes as nat),
{
    let mut kept: Vec<InternalDiagnostic> = Vec::new();
    let mut rest = diags;
    let ghost all = rest@;
    let mut rev: Vec<InternalDiagnostic> = Vec::new();
    while rest.len() > 0
        invariant
            all == rest@ + rev@.reverse(),
        decreases rest@.len(),
    {
        let x = rest.pop().unwrap();
        rev.push(x);
        assert(all =~= rest@ + rev@.reverse());
    }
    assert(all =~= rev@.reverse());
    let n = in_target.len();
    let mut i: usize = 0;
    while rev.len() > 0
        invariant
            n == in_target@.len(),
            all.len() == in_target@.len(),
            i + rev@.len() == all.len(),
            all == all.subrange(0, i as int) + rev@.reverse(),
            diags_view(kept@) == selected(diags_view(all.subrange(0, i as int)), in_target@.subrange(0, i as int)),
        decreases rev@.len(),
    {
        let ghost r0 = rev@;
        let x = rev.pop().unwrap();
        assert(r0.reverse() =~= seq![x] + rev@.reverse());
        assert(all[i as int] == x) by {
            assert(all =~= all.subrange(0, i as int) + seq![x] + rev@.reverse());
        }
        let ghost prev = diags_view(all.subrange(0, i as int));
        assert(diags_view(all.subrange(0, i + 1)).drop_last() =~= prev);
        assert(in_target@.subrange(0, i + 1).drop_last() =~= in_target@.subrange(0, i as int));
        if in_target[i] {
            let ghost k0 = kept@;
            kept.push(x);
            assert(diags_view(kept@) =~= diags_view(k0).push(x@));
        }
        i += 1;
        assert(all =~= all.subrange(0, i as int) + rev@.reverse());
    }
    assert(all.subrange(0, all.len() as int) =~= all);
    assert(in_target@.subrange(0, all.len() as int) =~= in_target@);
    apply_diagnostic_caps(&mut kept, max_diags, max_fixes);
    let mut out: Vec<RpcDiagnostic> = Vec::new();
    let mut back: Vec<InternalDiagnostic> = Vec::new();
    let ghost ks = kept@;
    let m = kept.len();
    while kept.len() > 0
        invariant
            ks == kept@ + back@.reverse(),
        decreases kept@.len(),
    {
        let x = kept.pop().unwrap();
        back.push(x);
        assert(ks =~= kept@ + back@.reverse());
    }
    let mut j: usize = 0;
    while back.len() > 0
        invariant
            m == ks.len(),
            j + back@.len() == ks.len(),
            ks == ks.subrange(0, j as int) + back@.reverse(),
            rpcs_view(out@) == diags_view(ks.subrange(0, j as int)).map_values(|d: DiagView| rpc_of(d)),
        decreases back@.len(),
    {
        let ghost b0 = back@;
        let x = back.pop().unwrap();
        assert(b0.reverse() =~= seq![x] + back@.reverse());
        assert(ks[j as int] == x) by {
            assert(ks =~= ks.subrange(0, j as int) + seq![x] + back@.reverse());
        }
        let ghost xv = x@;
        let c = to_rpc_diagnostic(x);
        assert(c@ == rpc_of(xv));
        let ghost o0 = rpcs_view(out@);
        out.push(c);
        assert(rpcs_view(out@) =~= o0.push(c@));
        assert(diags_view(ks.subrange(0, j + 1)).map_values(|d: DiagView| rpc_of(d)) =~= diags_view(
            ks.subrange(0, j as int),
        ).map_values(|d: DiagView| rpc_of(d)).push(rpc_of(ks[j as int]@)));
        j += 1;
        assert(ks =~= ks.subrange(0, j as int) + back@.reverse());
    }
    assert(ks.subrange(0, ks.len() as int) =~= ks);
    out
}

} // verus!
