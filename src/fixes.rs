//! Turning the analyzer's exported fix document into diagnostics with fixes.
use vstd::prelude::*;
use vstd::string::*;
use crate::diagnostic::{Fix, InternalDiagnostic, TextEdit};
use crate::paths::{resolve_path, resolved};
use crate::position::{Range, is_position_of, line_starts_of, offset_range};
use crate::text::{opt_str, push_str};

verus! {

/// One replacement as the fix document gives it.
#[derive(Clone, Debug)]
pub struct FixReplacement {
    pub file_path: String,
    pub offset: usize,
    pub length: usize,
    pub replacement_text: String,
}

/// The nested message record of a fix-document diagnostic.
#[derive(Clone, Debug)]
pub struct FixMessage {
    pub message: Option<String>,
    pub file_path: Option<String>,
    pub file_offset: Option<usize>,
    pub replacements: Option<Vec<FixReplacement>>,
}

/// One diagnostic of the fix document.
#[derive(Clone, Debug)]
pub struct FixDiagnostic {
    pub diagnostic_name: Option<String>,
    pub diagnostic_message: Option<FixMessage>,
    pub message: Option<String>,
    pub file_path: Option<String>,
    pub file_offset: Option<usize>,
    pub replacements: Option<Vec<FixReplacement>>,
}

/// A replacement with its path resolved; `in_target` tells whether that path
/// is the file under analysis.
#[derive(Clone, Debug)]
pub struct Replacement {
    pub path: String,
    pub offset: usize,
    pub length: usize,
    pub text: String,
    pub in_target: bool,
}

/// A fix-document diagnostic with its fields settled and its path resolved;
/// `in_target` tells whether that path is the file under analysis.
#[derive(Clone, Debug)]
pub struct FixRecord {
    pub name: Option<String>,
    pub message: String,
    pub path: String,
    pub offset: usize,
    pub in_target: bool,
    pub replacements: Vec<Replacement>,
}

pub open spec fn text_or_empty(o: Option<String>) -> Seq<char> {
    match o {
        Some(s) => s@,
        None => seq![],
    }
}

/// Where a path of the fix document points: resolved under `base`, or the target
/// file when the path is empty.
pub open spec fn fix_path(p: Seq<char>, base: Option<Seq<char>>, target: Seq<char>) -> Seq<char> {
    match resolved(p, base) {
        Some(r) => r,
        None => target,
    }
}

fn resolve_or(p: &str, base: Option<&str>, target: &str) -> (r: String)
    ensures
        r@ == fix_path(p@, opt_str(base), target@),
{
    match resolve_path(p, base) {
        Some(r) => r,
        None => String::from_str(target),
    }
}

fn text_of(o: Option<String>) -> (r: String)
    ensures
        r@ == text_or_empty(o),
{
    match o {
        Some(s) => s,
        None => String::new(),
    }
}

pub open spec fn replacement_settled(x: FixReplacement, y: Replacement, base: Option<Seq<char>>, target: Seq<char>) -> bool {
    &&& y.path@ == fix_path(x.file_path@, base, target)
    &&& y.offset == x.offset
    &&& y.length == x.length
    &&& y.text@ == x.replacement_text@
    &&& !y.in_target
}

fn settle_replacements(v: Vec<FixReplacement>, base: Option<&str>, target: &str) -> (r: Vec<Replacement>)
    ensures
        r@.len() == v@.len(),
        forall|i: int| 0 <= i < v@.len() ==> replacement_settled(v@[i], #[trigger] r@[i], opt_str(base), target@),
{
    let mut out: Vec<Replacement> = Vec::new();
    let mut i: usize = 0;
    while i < v.len()
        invariant
            i <= v@.len(),
            out@.len() == i,
            forall|k: int| 0 <= k < i ==> replacement_settled(v@[k], #[trigger] out@[k], opt_str(base), target@),
        decreases v@.len() - i,
    {
        let x = &v[i];
        let path = resolve_or(x.file_path.as_str(), base, target);
        let mut text = String::new();
        push_str(&mut text, x.replacement_text.as_str());
        out.push(Replacement { path, offset: x.offset, length: x.length, text, in_target: false });
        i += 1;
    }
    out
}

/// The fields of a fix-document diagnostic: each from the nested message record
/// when it has it, else from the diagnostic itself, else empty (offset zero).
pub open spec fn settled_fields(d: FixDiagnostic) -> (Option<String>, Option<String>, Option<usize>, Option<Vec<FixReplacement>>) {
    match d.diagnostic_message {
        Some(m) => (
            if m.message is Some { m.message } else { d.message },
            if m.file_path is Some { m.file_path } else { d.file_path },
            if m.file_offset is Some { m.file_offset } else { d.file_offset },
            if m.replacements is Some { m.replacements } else { d.replacements },
        ),
        None => (d.message, d.file_path, d.file_offset, d.replacements),
    }
}

/// Settles a fix-document diagnostic: picks each field from the nested message
/// record or from the diagnostic, and resolves its paths under `root_dir`, an empty
/// path standing for `target_file`. Whether each path is the target is left open.
pub fn settle_fix_diagnostic(d: FixDiagnostic, root_dir: Option<&str>, target_file: &str) -> (r: FixRecord)
    ensures
        r.name == d.diagnostic_name,
        r.message@ == text_or_empty(settled_fields(d).0),
        r.path@ == fix_path(text_or_empty(settled_fields(d).1), opt_str(root_dir), target_file@),
        r.offset == match settled_fields(d).2 { Some(o) => o, None => 0 },
        !r.in_target,
        match settled_fields(d).3 {
            Some(v) => r.replacements@.len() == v@.len() && forall|i: int|
                0 <= i < v@.len() ==> replacement_settled(v@[i], #[trigger] r.replacements@[i], opt_str(root_dir), target_file@),
            None => r.replacements@.len() == 0,
        },
{
    let FixDiagnostic { diagnostic_name, diagnostic_message, message, file_path, file_offset, replacements } = d;
    let (message, file_path, file_offset, replacements) = match diagnostic_message {
        Some(m) => (
            if m.message.is_some() { m.message } else { message },
            if m.file_path.is_some() { m.file_path } else { file_path },
            if m.file_offset.is_some() { m.file_offset } else { file_offset },
            if m.replacements.is_some() { m.replacements } else { replacements },
        ),
        None => (message, file_path, file_offset, replacements),
    };
    let path_text = text_of(file_path);
    let reps = match replacements {
        Some(v) => settle_replacements(v, root_dir, target_file),
        None => Vec::new(),
    };
    FixRecord {
        name: diagnostic_name,
        message: text_of(message),
        path: resolve_or(path_text.as_str(), root_dir, target_file),
        offset: match file_offset {
            Some(o) => o,
            None => 0,
        },
        in_target: false,
        replacements: reps,
    }
}

/// The title of the fix made from a diagnostic with check name `name`.
pub open spec fn fix_title(name: Option<Seq<char>>) -> Seq<char> {
    match name {
        Some(n) => if n.len() > 0 {
            "Apply clang-tidy fix ("@ + n + ")"@
        } else {
            "Apply clang-tidy fix"@
        },
        None => "Apply clang-tidy fix"@,
    }
}

fn make_title(name: &Option<String>) -> (r: String)
    ensures
        r@ == fix_title(crate::text::opt_string(*name)),
{
    match name {
        Some(n) => if n.as_str().unicode_len() > 0 {
            let mut s = String::from_str("Apply clang-tidy fix (");
            push_str(&mut s, n.as_str());
            push_str(&mut s, ")");
            s
        } else {
            String::from_str("Apply clang-tidy fix")
        },
        None => String::from_str("Apply clang-tidy fix"),
    }
}

pub open spec fn targets_file(x: Replacement) -> bool {
    x.in_target
}

/// The replacements that are about the file under analysis, in order.
pub open spec fn kept(reps: Seq<Replacement>) -> Seq<Replacement> {
    reps.filter(|x: Replacement| targets_file(x))
}

/// `e` is the edit that replacement `x` makes in `text`.
pub open spec fn is_edit_of(e: (Range, Seq<char>), x: Replacement, text: Seq<u8>, starts: Seq<usize>) -> bool {
    &&& is_position_of(text, starts, x.offset as int, (e.0.start.line, e.0.start.character))
    &&& is_position_of(text, starts, x.offset + x.length, (e.0.end.line, e.0.end.character))
    &&& e.1 == x.text@
}

/// `d` is the diagnostic that `rec` yields in `text`.
pub open spec fn is_fix_diagnostic(d: InternalDiagnostic, rec: FixRecord, text: Seq<u8>, starts: Seq<usize>) -> bool {
    &&& d.file == rec.path
    &&& is_position_of(text, starts, rec.offset as int, (d.range.start.line, d.range.start.character))
    &&& is_position_of(text, starts, rec.offset + 1, (d.range.end.line, d.range.end.character))
    &&& d.severity@ == "warning"@
    &&& d.code == rec.name
    &&& d.message == rec.message
    &&& d@.fixes.len() == 1
    &&& d@.fixes[0].title == fix_title(crate::text::opt_string(rec.name))
    &&& d@.fixes[0].edits.len() == kept(rec.replacements@).len()
    &&& forall|k: int|
        0 <= k < kept(rec.replacements@).len() ==> is_edit_of(
            #[trigger] d@.fixes[0].edits[k],
            kept(rec.replacements@)[k],
            text,
            starts,
        )
}

/// The diagnostic that a settled record yields in the file `text`: none when the
/// record is about another file or none of its replacements is about this one;
/// else a warning at its offset, carrying one fix with an edit per replacement
/// about this file, in order.
pub fn fix_record_to_diagnostic(rec: FixRecord, text: &str, line_starts: &[usize]) -> (r: Option<InternalDiagnostic>)
    requires
        line_starts@ == line_starts_of(text.spec_bytes()),
    ensures
        (!rec.in_target || kept(rec.replacements@).len() == 0) ==> r is None,
        (rec.in_target && kept(rec.replacements@).len() > 0) ==> (r matches Some(d) && is_fix_diagnostic(
            d,
            rec,
            text.spec_bytes(),
            line_starts@,
        )),
{
    if !rec.in_target {
        return None;
    }
    let FixRecord { name, message, path, offset, in_target, replacements } = rec;
    let ghost reps = replacements@;
    let mut edits: Vec<TextEdit> = Vec::new();
    let mut i: usize = 0;
    while i < replacements.len()
        invariant
            reps == replacements@,
            line_starts@ == line_starts_of(text.spec_bytes()),
            i <= reps.len(),
            edits@.len() == kept(reps.subrange(0, i as int)).len(),
            forall|k: int| 0 <= k < edits@.len() ==> is_edit_of(
                #[trigger] edits@[k]@,
                kept(reps.subrange(0, i as int))[k],
                text.spec_bytes(),
                line_starts@,
            ),
        decreases reps.len() - i,
    {
        let x = &replacements[i];
        assert(reps.subrange(0, i + 1) =~= reps.subrange(0, i as int).push(reps[i as int]));
        proof {
            reps.subrange(0, i as int).lemma_filter_push(reps[i as int], |x: Replacement| targets_file(x));
        }
        if x.in_target {
            let range = offset_range(text, line_starts, x.offset, x.length);
            let mut new_text = String::new();
            push_str(&mut new_text, x.text.as_str());
            edits.push(TextEdit { range, new_text });
        }
        i += 1;
    }
    assert(reps.subrange(0, reps.len() as int) =~= reps);
    if edits.len() == 0 {
        return None;
    }
    let title = make_title(&name);
    let fix = Fix { title, edits };
    let range = offset_range(text, line_starts, offset, 1);
    let mut fixes: Vec<Fix> = Vec::new();
    fixes.push(fix);
    let d = InternalDiagnostic {
        file: path,
        range,
        severity: String::from_str("warning"),
        code: name,
        message,
        fixes,
    };
    assert(d@.fixes[0] == fix@);
    Some(d)
}

} // verus!
