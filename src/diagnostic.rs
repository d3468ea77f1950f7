//! Diagnostics: their internal and client-facing forms, merging of the text and
//! fix channels, and the per-file caps on diagnostics and fixes.
use vstd::prelude::*;
use vstd::string::*;
use crate::position::Range;
use crate::text::{opt_string, push_char, push_decimal, push_str, same_text, decimal};

verus! {

/// A replacement of the text within `range` by `new_text`.
#[derive(Clone, Debug)]
pub struct TextEdit {
    pub range: Range,
    pub new_text: String,
}

/// A titled group of edits that together apply one fix.
#[derive(Clone, Debug)]
pub struct Fix {
    pub title: String,
    pub edits: Vec<TextEdit>,
}

/// A diagnostic as the analysis produces it, tied to the file it speaks of.
#[derive(Clone, Debug)]
pub struct InternalDiagnostic {
    pub file: String,
    pub range: Range,
    pub severity: String,
    pub code: Option<String>,
    pub message: String,
    pub fixes: Vec<Fix>,
}

/// A diagnostic as the client receives it: no file, and no fix list when there is none.
#[derive(Clone, Debug)]
pub struct RpcDiagnostic {
    pub range: Range,
    pub severity: String,
    pub code: Option<String>,
    pub message: String,
    pub fixes: Option<Vec<Fix>>,
}

pub ghost struct FixView {
    pub title: Seq<char>,
    pub edits: Seq<(Range, Seq<char>)>,
}

pub ghost struct DiagView {
    pub file: Seq<char>,
    pub range: Range,
    pub severity: Seq<char>,
    pub code: Option<Seq<char>>,
    pub message: Seq<char>,
    pub fixes: Seq<FixView>,
}

impl View for TextEdit {
    type V = (Range, Seq<char>);

    open spec fn view(&self) -> (Range, Seq<char>) {
        (self.range, self.new_text@)
    }
}

impl View for Fix {
    type V = FixView;

    open spec fn view(&self) -> FixView {
        FixView { title: self.title@, edits: self.edits@.map_values(|e: TextEdit| e@) }
    }
}

pub open spec fn fixes_view(f: Seq<Fix>) -> Seq<FixView> {
    f.map_values(|x: Fix| x@)
}

impl View for InternalDiagnostic {
    type V = DiagView;

    open spec fn view(&self) -> DiagView {
        DiagView {
            file: self.file@,
            range: self.range,
            severity: self.severity@,
            code: opt_string(self.code),
            message: self.message@,
            fixes: fixes_view(self.fixes@),
        }
    }
}

pub open spec fn diags_view(s: Seq<InternalDiagnostic>) -> Seq<DiagView> {
    s.map_values(|d: InternalDiagnostic| d@)
}

/// The severity reported for an analyzer severity word.
pub open spec fn severity_of(raw: Seq<char>) -> Seq<char> {
    if raw == "error"@ {
        "error"@
    } else if raw == "warning"@ {
        "warning"@
    } else {
        "info"@
    }
}

/// Maps `error` and `warning` to themselves and everything else to `info`.
pub fn normalize_severity(raw: &str) -> (r: String)
    ensures
        r@ == severity_of(raw@),
{
    if same_text(raw, "error") {
        String::from_str("error")
    } else if same_text(raw, "warning") {
        String::from_str("warning")
    } else {
        String::from_str("info")
    }
}

/// The client form of a diagnostic.
pub fn to_rpc_diagnostic(d: InternalDiagnostic) -> (r: RpcDiagnostic)
    ensures
        r.range == d.range,
        r.severity == d.severity,
        r.code == d.code,
        r.message == d.message,
        d.fixes@.len() == 0 ==> r.fixes is None,
        d.fixes@.len() > 0 ==> r.fixes == Some(d.fixes),
{
    let empty = d.fixes.len() == 0;
    RpcDiagnostic {
        range: d.range,
        severity: d.severity,
        code: d.code,
        message: d.message,
        fixes: if empty { None } else { Some(d.fixes) },
    }
}

pub open spec fn code_text(c: Option<Seq<char>>) -> Seq<char> {
    match c {
        Some(s) => s,
        None => seq![],
    }
}

/// The textual merge key `file:line:character:code:message`.
pub open spec fn key_text(d: DiagView) -> Seq<char> {
    d.file + seq![':'] + decimal(d.range.start.line as nat) + seq![':'] + decimal(
        d.range.start.character as nat,
    ) + seq![':'] + code_text(d.code) + seq![':'] + d.message
}

/// Renders the merge key of a diagnostic.
pub fn diag_key(d: &InternalDiagnostic) -> (r: String)
    ensures
        r@ == key_text(d@),
{
    let mut s = String::new();
    push_str(&mut s, d.file.as_str());
    push_char(&mut s, ':');
    push_decimal(&mut s, d.range.start.line as u64);
    push_char(&mut s, ':');
    push_decimal(&mut s, d.range.start.character as u64);
    push_char(&mut s, ':');
    match &d.code {
        Some(c) => push_str(&mut s, c.as_str()),
        None => {},
    }
    push_char(&mut s, ':');
    push_str(&mut s, d.message.as_str());
    assert(s@ =~= key_text(d@));
    s
}

/// Two diagnostics merge when they agree on file, start position, code and message.
pub open spec fn same_key(a: DiagView, b: DiagView) -> bool {
    &&& a.file == b.file
    &&& a.range.start == b.range.start
    &&& code_text(a.code) == code_text(b.code)
    &&& a.message == b.message
}

/// The index of the first diagnostic of `s` that shares `d`'s key, or -1.
pub open spec fn key_index(s: Seq<DiagView>, d: DiagView) -> int
    decreases s.len(),
{
    if s.len() == 0 {
        -1
    } else {
        let i = key_index(s.drop_last(), d);
        if i >= 0 {
            i
        } else if same_key(s.last(), d) {
            s.len() - 1
        } else {
            -1
        }
    }
}

/// `d` with its fixes replaced by `f`.
pub open spec fn with_fixes(d: DiagView, f: Seq<FixView>) -> DiagView {
    DiagView { fixes: f, ..d }
}

/// Adds `d` to `acc`: its fixes go to the diagnostic with the same key, if any,
/// and otherwise `d` is appended.
pub open spec fn merge_one(acc: Seq<DiagView>, d: DiagView) -> Seq<DiagView> {
    let i = key_index(acc, d);
    if i < 0 {
        acc.push(d)
    } else {
        acc.update(i, with_fixes(acc[i], acc[i].fixes + d.fixes))
    }
}

/// All of `s`, merged in order.
pub open spec fn merged(s: Seq<DiagView>) -> Seq<DiagView>
    decreases s.len(),
{
    if s.len() == 0 {
        seq![]
    } else {
        merge_one(merged(s.drop_last()), s.last())
    }
}

proof fn lemma_key_index(s: Seq<DiagView>, d: DiagView)
    ensures
        -1 <= key_index(s, d) < s.len(),
        key_index(s, d) >= 0 ==> same_key(s[key_index(s, d)], d),
        key_index(s, d) >= 0 ==> forall|k: int| 0 <= k < key_index(s, d) ==> !same_key(#[trigger] s[k], d),
        key_index(s, d) < 0 ==> forall|k: int| 0 <= k < s.len() ==> !same_key(#[trigger] s[k], d),
    decreases s.len(),
{
    if s.len() > 0 {
        lemma_key_index(s.drop_last(), d);
        assert(forall|k: int| 0 <= k < s.len() - 1 ==> #[trigger] s[k] == s.drop_last()[k]);
    }
}

fn keys_match(a: &InternalDiagnostic, b: &InternalDiagnostic) -> (r: bool)
    ensures
        r == same_key(a@, b@),
{
    let codes = match (&a.code, &b.code) {
        (Some(x), Some(y)) => same_text(x.as_str(), y.as_str()),
        (Some(x), None) => x.as_str().unicode_len() == 0,
        (None, Some(y)) => y.as_str().unicode_len() == 0,
        (None, None) => true,
    };
    proof {
        if codes {
            assert(code_text(a@.code) =~= code_text(b@.code));
        }
    }
    same_text(a.file.as_str(), b.file.as_str()) && a.range.start == b.range.start && codes
        && same_text(a.message.as_str(), b.message.as_str())
}

/// The position in `acc` of the diagnostic that shares `d`'s key, if any.
fn find_key(acc: &Vec<InternalDiagnostic>, d: &InternalDiagnostic) -> (r: Option<usize>)
    ensures
        match r {
            Some(i) => i as int == key_index(diags_view(acc@), d@),
            None => key_index(diags_view(acc@), d@) < 0,
        },
{
    proof {
        lemma_key_index(diags_view(acc@), d@);
    }
    let mut i: usize = 0;
    while i < acc.len()
        invariant
            i <= acc@.len(),
            forall|k: int| 0 <= k < i ==> !same_key(#[trigger] diags_view(acc@)[k], d@),
            -1 <= key_index(diags_view(acc@), d@) < acc@.len(),
            key_index(diags_view(acc@), d@) >= 0 ==> same_key(
                diags_view(acc@)[key_index(diags_view(acc@), d@)],
                d@,
            ),
            key_index(diags_view(acc@), d@) >= 0 ==> forall|k: int|
                0 <= k < key_index(diags_view(acc@), d@) ==> !same_key(
                    #[trigger] diags_view(acc@)[k],
                    d@,
                ),
            key_index(diags_view(acc@), d@) < 0 ==> forall|k: int|
                0 <= k < acc@.len() ==> !same_key(#[trigger] diags_view(acc@)[k], d@),
        decreases acc@.len() - i,
    {
        if keys_match(&acc[i], d) {
            assert(diags_view(acc@)[i as int] == acc@[i as int]@);
            return Some(i);
        }
        i += 1;
    }
    None
}

/// Moves every element of `v`, in order, onto the end of `out`.
fn append_fixes(out: &mut Vec<Fix>, v: Vec<Fix>)
    ensures
        fixes_view(final(out)@) == fixes_view(old(out)@) + fixes_view(v@),
{
    let mut v = v;
    let ghost orig = v@;
    let mut rev: Vec<Fix> = Vec::new();
    while v.len() > 0
        invariant
            orig == v@ + rev@.reverse(),
        decreases v@.len(),
    {
        let x = v.pop().unwrap();
        rev.push(x);
        assert(orig =~= v@ + rev@.reverse());
    }
    let ghost start = out@;
    while rev.len() > 0
        invariant
            orig == out@.subrange(start.len() as int, out@.len() as int) + rev@.reverse(),
            out@.subrange(0, start.len() as int) == start,
            start.len() <= out@.len(),
        decreases rev@.len(),
    {
        let x = rev.pop().unwrap();
        out.push(x);
        assert(orig =~= out@.subrange(start.len() as int, out@.len() as int) + rev@.reverse());
        assert(out@.subrange(0, start.len() as int) =~= start);
    }
    assert(out@ =~= start + orig);
    assert(fixes_view(out@) =~= fixes_view(start) + fixes_view(orig));
}

/// Merges the fix channel into the text channel: each diagnostic of `base` and
/// then of `fixes` is added in turn, and one whose key is already present gives
/// its fixes to that diagnostic instead of being kept.
pub fn merge_diagnostics(base: &mut Vec<InternalDiagnostic>, fixes: Vec<InternalDiagnostic>)
    ensures
        diags_view(final(base)@) == merged(diags_view(old(base)@ + fixes@)),
{
    let ghost all = old(base)@ + fixes@;
    let mut pending: Vec<InternalDiagnostic> = Vec::new();
    let mut f = fixes;
    while f.len() > 0
        invariant
            all == base@ + f@ + pending@.reverse(),
        decreases f@.len(),
    {
        let x = f.pop().unwrap();
        pending.push(x);
        assert(all =~= base@ + f@ + pending@.reverse());
    }
    while base.len() > 0
        invariant
            all == base@ + pending@.reverse(),
        decreases base@.len(),
    {
        let x = base.pop().unwrap();
        pending.push(x);
        assert(all =~= base@ + pending@.reverse());
    }
    assert(base@.len() == 0);
    let mut out: Vec<InternalDiagnostic> = Vec::new();
    let ghost total = all.len();
    while pending.len() > 0
        invariant
            all == all.subrange(0, total - pending@.len()) + pending@.reverse(),
            pending@.len() <= total == all.len(),
            diags_view(out@) == merged(diags_view(all.subrange(0, total - pending@.len()))),
        decreases pending@.len(),
    {
        let ghost done_before = all.subrange(0, total - pending@.len());
        let d = pending.pop().unwrap();
        let ghost done_after = all.subrange(0, total - pending@.len());
        assert(done_after =~= done_before.push(d)) by {
            assert(all =~= done_before + seq![d] + pending@.reverse());
            assert(all[total - pending@.len() - 1] == d);
        }
        assert(diags_view(done_after).drop_last() =~= diags_view(done_before));
        proof {
            lemma_key_index(diags_view(out@), d@);
        }
        match find_key(&out, &d) {
            Some(i) => {
                let ghost prev = out@;
                let target = &mut out[i];
                let InternalDiagnostic { fixes: extra, .. } = d;
                append_fixes(&mut target.fixes, extra);
                assert(diags_view(out@) =~= merge_one(diags_view(prev), d@));
            },
            None => {
                let ghost prev = out@;
                out.push(d);
                assert(diags_view(out@) =~= merge_one(diags_view(prev), d@));
            },
        }
        assert(all =~= all.subrange(0, total - pending@.len()) + pending@.reverse());
    }
    assert(all.subrange(0, total as int) =~= all);
    *base = out;
}

/// The total number of fixes across `s`.
pub open spec fn fix_total(s: Seq<DiagView>) -> nat
    decreases s.len(),
{
    if s.len() == 0 {
        0
    } else {
        fix_total(s.drop_last()) + s.last().fixes.len()
    }
}

pub open spec fn min_nat(a: nat, b: nat) -> nat {
    if a <= b {
        a
    } else {
        b
    }
}

/// How many fixes the diagnostic at `i` keeps under a budget of `max_fixes`
/// (zero meaning no budget): the budget goes to diagnostics in order.
pub open spec fn fixes_kept(s: Seq<DiagView>, i: int, max_fixes: nat) -> nat {
    if max_fixes == 0 {
        s[i].fixes.len()
    } else {
        let used = fix_total(s.subrange(0, i));
        let left: nat = if used >= max_fixes { 0 } else { (max_fixes - used) as nat };
        min_nat(s[i].fixes.len(), left)
    }
}

/// The number of diagnostics kept under a cap of `max_diags` (zero meaning no cap).
pub open spec fn diags_kept(n: nat, max_diags: nat) -> nat {
    if max_diags > 0 && n > max_diags {
        max_diags
    } else {
        n
    }
}

/// The result of both caps on `s`.
pub open spec fn capped(s: Seq<DiagView>, max_diags: nat, max_fixes: nat) -> Seq<DiagView> {
    let t = s.subrange(0, diags_kept(s.len(), max_diags) as int);
    Seq::new(
        t.len(),
        |i: int| with_fixes(t[i], t[i].fixes.subrange(0, fixes_kept(t, i, max_fixes) as int)),
    )
}

proof fn lemma_fix_total_push(s: Seq<DiagView>, d: DiagView)
    ensures
        fix_total(s.push(d)) == fix_total(s) + d.fixes.len(),
{
    assert(s.push(d).drop_last() =~= s);
}

/// Keeps the first `max_diags` diagnostics (all when zero), then hands out a
/// budget of `max_fixes` fixes (unlimited when zero) to them in order; a
/// diagnostic whose turn comes after the budget is spent keeps no fixes.
pub fn apply_diagnostic_caps(diags: &mut Vec<InternalDiagnostic>, max_diags: u32, max_fixes: u32)
    ensures
        diags_view(final(diags)@) == capped(diags_view(old(diags)@), max_diags as nat, max_fixes as nat),
{
    if max_diags > 0 && diags.len() > max_diags as usize {
        diags.truncate(max_diags as usize);
    }
    let ghost t = diags_view(diags@);
    assert(t =~= diags_view(old(diags)@).subrange(0, diags_kept(old(diags)@.len(), max_diags as nat) as int));
    if max_fixes == 0 {
        assert forall|k: int| 0 <= k < t.len() implies #[trigger] with_fixes(
            t[k],
            t[k].fixes.subrange(0, t[k].fixes.len() as int),
        ) == t[k] by {
            assert(t[k].fixes.subrange(0, t[k].fixes.len() as int) =~= t[k].fixes);
        }
        assert(diags_view(diags@) =~= capped(diags_view(old(diags)@), max_diags as nat, max_fixes as nat));
        return;
    }
    let mut remaining: usize = max_fixes as usize;
    let mut i: usize = 0;
    while i < diags.len()
        invariant
            t.len() == diags@.len(),
            i <= diags@.len(),
            max_fixes > 0,
            remaining as nat == if fix_total(t.subrange(0, i as int)) >= max_fixes as nat { 0 } else {
                (max_fixes - fix_total(t.subrange(0, i as int))) as nat
            },
            forall|k: int| 0 <= k < i ==> #[trigger] diags@[k]@ == with_fixes(
                t[k],
                t[k].fixes.subrange(0, fixes_kept(t, k, max_fixes as nat) as int),
            ),
            forall|k: int| i <= k < t.len() ==> #[trigger] diags@[k]@ == t[k],
        decreases diags@.len() - i,
    {
        let ghost before = diags@;
        assert(diags@[i as int]@ == t[i as int]);
        assert(t.subrange(0, i + 1) =~= t.subrange(0, i as int).push(t[i as int]));
        proof {
            lemma_fix_total_push(t.subrange(0, i as int), t[i as int]);
        }
        let n = diags[i].fixes.len();
        if n > remaining {
            let target = &mut diags[i];
            target.fixes.truncate(remaining);
            remaining = 0;
        } else {
            remaining = remaining - n;
        }
        assert(fixes_view(diags@[i as int].fixes@) =~= t[i as int].fixes.subrange(
            0,
            fixes_kept(t, i as int, max_fixes as nat) as int,
        ));
        assert(diags@[i as int]@ =~= with_fixes(
            t[i as int],
            t[i as int].fixes.subrange(0, fixes_kept(t, i as int, max_fixes as nat) as int),
        ));
        assert forall|k: int| 0 <= k < diags@.len() && k != i implies #[trigger] diags@[k] == before[k] by {}
        i += 1;
    }
    assert(diags_view(diags@) =~= capped(diags_view(old(diags)@), max_diags as nat, max_fixes as nat));
}

proof fn lemma_capped_prefix(s: Seq<DiagView>, max_diags: nat, max_fixes: nat, i: int)
    requires
        max_fixes > 0,
        0 <= i <= capped(s, max_diags, max_fixes).len(),
    ensures
        fix_total(capped(s, max_diags, max_fixes).subrange(0, i)) == min_nat(
            max_fixes,
            fix_total(s.subrange(0, diags_kept(s.len(), max_diags) as int).subrange(0, i)),
        ),
    decreases i,
{
    let c = capped(s, max_diags, max_fixes);
    let t = s.subrange(0, diags_kept(s.len(), max_diags) as int);
    if i == 0 {
        assert(c.subrange(0, 0) =~= Seq::<DiagView>::empty());
        assert(t.subrange(0, 0) =~= Seq::<DiagView>::empty());
    } else {
        lemma_capped_prefix(s, max_diags, max_fixes, i - 1);
        assert(c.subrange(0, i).drop_last() =~= c.subrange(0, i - 1));
        assert(t.subrange(0, i).drop_last() =~= t.subrange(0, i - 1));
    }
}

/// The caps hold: with a positive cap on diagnostics at most that many remain, with
/// a positive budget of fixes at most that many remain in all, and a cap of zero
/// takes nothing away.
pub proof fn lemma_caps_bounded(s: Seq<DiagView>, max_diags: nat, max_fixes: nat)
    ensures
        max_diags > 0 ==> capped(s, max_diags, max_fixes).len() <= max_diags,
        max_fixes > 0 ==> fix_total(capped(s, max_diags, max_fixes)) <= max_fixes,
        max_diags == 0 ==> capped(s, max_diags, max_fixes).len() == s.len(),
        max_diags == 0 && max_fixes == 0 ==> capped(s, max_diags, max_fixes) == s,
{
    let c = capped(s, max_diags, max_fixes);
    if max_fixes > 0 {
        lemma_capped_prefix(s, max_diags, max_fixes, c.len() as int);
        assert(c.subrange(0, c.len() as int) =~= c);
    }
    if max_diags == 0 && max_fixes == 0 {
        assert forall|k: int| 0 <= k < s.len() implies #[trigger] c[k] == s[k] by {
            assert(s[k].fixes.subrange(0, s[k].fixes.len() as int) =~= s[k].fixes);
        }
        assert(c =~= s);
    }
}

pub ghost struct RpcView {
    pub range: Range,
    pub severity: Seq<char>,
    pub code: Option<Seq<char>>,
    pub message: Seq<char>,
    pub fixes: Option<Seq<FixView>>,
}

impl View for RpcDiagnostic {
    type V = RpcView;

    open spec fn view(&self) -> RpcView {
        RpcView {
            range: self.range,
            severity: self.severity@,
            code: opt_string(self.code),
            message: self.message@,
            fixes: match self.fixes {
                Some(f) => Some(fixes_view(f@)),
                None => None,
            },
        }
    }
}

pub open spec fn rpcs_view(s: Seq<RpcDiagnostic>) -> Seq<RpcView> {
    s.map_values(|d: RpcDiagnostic| d@)
}

fn copy_opt_string(o: &Option<String>) -> (r: Option<String>)
    ensures
        opt_string(r) == opt_string(*o),
{
    match o {
        Some(s) => Some(s.clone()),
        None => None,
    }
}

fn copy_fix(f: &Fix) -> (r: Fix)
    ensures
        r@ == f@,
{
    let mut edits: Vec<TextEdit> = Vec::new();
    let mut i: usize = 0;
    while i < f.edits.len()
        invariant
            i <= f.edits@.len(),
            edits@.map_values(|e: TextEdit| e@) == f.edits@.subrange(0, i as int).map_values(|e: TextEdit| e@),
        decreases f.edits@.len() - i,
    {
        let e = &f.edits[i];
        let c = TextEdit { range: e.range, new_text: e.new_text.clone() };
        let ghost before = edits@;
        edits.push(c);
        assert(edits@.map_values(|e: TextEdit| e@) =~= before.map_values(|e: TextEdit| e@).push(c@));
        assert(f.edits@.subrange(0, i + 1).map_values(|e: TextEdit| e@) =~= f.edits@.subrange(
            0,
            i as int,
        ).map_values(|e: TextEdit| e@).push(f.edits@[i as int]@));
        i += 1;
    }
    assert(f.edits@.subrange(0, f.edits@.len() as int) =~= f.edits@);
    Fix { title: f.title.clone(), edits }
}

/// A copy of a list of fixes.
pub fn copy_fixes(v: &Vec<Fix>) -> (r: Vec<Fix>)
    ensures
        fixes_view(r@) == fixes_view(v@),
{
    let mut out: Vec<Fix> = Vec::new();
    let mut i: usize = 0;
    while i < v.len()
        invariant
            i <= v@.len(),
            fixes_view(out@) == fixes_view(v@.subrange(0, i as int)),
        decreases v@.len() - i,
    {
        let c = copy_fix(&v[i]);
        let ghost before = out@;
        out.push(c);
        assert(fixes_view(out@) =~= fixes_view(before).push(c@));
        assert(fixes_view(v@.subrange(0, i + 1)) =~= fixes_view(v@.subrange(0, i as int)).push(v@[i as int]@));
        i += 1;
    }
    assert(v@.subrange(0, v@.len() as int) =~= v@);
    out
}

fn copy_rpc(d: &RpcDiagnostic) -> (r: RpcDiagnostic)
    ensures
        r@ == d@,
{
    RpcDiagnostic {
        range: d.range,
        severity: d.severity.clone(),
        code: copy_opt_string(&d.code),
        message: d.message.clone(),
        fixes: match &d.fixes {
            Some(f) => Some(copy_fixes(f)),
            None => None,
        },
    }
}

/// A copy of a list of client diagnostics.
pub fn copy_rpc_diagnostics(v: &Vec<RpcDiagnostic>) -> (r: Vec<RpcDiagnostic>)
    ensures
        rpcs_view(r@) == rpcs_view(v@),
{
    let mut out: Vec<RpcDiagnostic> = Vec::new();
    let mut i: usize = 0;
    while i < v.len()
        invariant
            i <= v@.len(),
            rpcs_view(out@) == rpcs_view(v@.subrange(0, i as int)),
        decreases v@.len() - i,
    {
        let c = copy_rpc(&v[i]);
        let ghost before = out@;
        out.push(c);
        assert(rpcs_view(out@) =~= rpcs_view(before).push(c@));
        assert(rpcs_view(v@.subrange(0, i + 1)) =~= rpcs_view(v@.subrange(0, i as int)).push(v@[i as int]@));
        i += 1;
    }
    assert(v@.subrange(0, v@.len() as int) =~= v@);
    out
}

} // verus!
