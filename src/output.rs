//! Reading diagnostics from the analyzer's textual output.
use vstd::prelude::*;
use vstd::string::*;
use crate::diagnostic::{normalize_severity, severity_of, DiagView, InternalDiagnostic, fixes_view};
use crate::paths::{resolve_path, resolved};
use crate::text::opt_str;
use crate::position::range_from_line_col;
use crate::text::texts;

verus! {

/// One line of output that has the shape of a diagnostic, cut into its parts.
#[derive(Clone, Debug)]
pub struct LineMatch {
    pub file: String,
    pub line: String,
    pub col: String,
    pub severity: String,
    pub message: String,
    pub code: Option<String>,
}

pub type LineMatchView = (Seq<char>, Seq<char>, Seq<char>, Seq<char>, Seq<char>, Option<Seq<char>>);

impl View for LineMatch {
    type V = LineMatchView;

    open spec fn view(&self) -> LineMatchView {
        (self.file@, self.line@, self.col@, self.severity@, self.message@, crate::text::opt_string(self.code))
    }
}

/// Where the line splitter stands after a prefix of the text.
pub ghost struct LineSplit {
    pub done: Seq<Seq<char>>,
    pub current: Seq<char>,
}

/// A line without the carriage return that ended it.
pub open spec fn without_cr(l: Seq<char>) -> Seq<char> {
    if l.len() > 0 && l.last() == '\r' {
        l.drop_last()
    } else {
        l
    }
}

pub open spec fn line_split(s: Seq<char>) -> LineSplit
    decreases s.len(),
{
    if s.len() == 0 {
        LineSplit { done: seq![], current: seq![] }
    } else {
        let st = line_split(s.drop_last());
        if s.last() == '\n' {
            LineSplit { done: st.done.push(without_cr(st.current)), current: seq![] }
        } else {
            LineSplit { done: st.done, current: st.current.push(s.last()) }
        }
    }
}

/// The lines of a text: split at each line feed, a carriage return just before it
/// dropped; a last line without a line feed is kept unless empty.
pub open spec fn lines_of(s: Seq<char>) -> Seq<Seq<char>> {
    let st = line_split(s);
    if st.current.len() > 0 {
        st.done.push(st.current)
    } else {
        st.done
    }
}

/// Relies on `str::lines`: lines end at `\n` or `\r\n`, the ending not included;
/// the final ending is optional.
#[verifier::external_body]
fn split_lines(s: &str) -> (r: Vec<String>)
    ensures
        texts(r@) == lines_of(s@),
{
    s.lines().map(|l| l.to_string()).collect()
}

/// A line of `<file>:<line>:<col>: <warning|error|note>: <message>[ [<code>]]`
/// shape, cut into those parts; nothing for a line of another shape.
pub uninterp spec fn line_match_of(line: Seq<char>) -> Option<LineMatchView>;

const LINE_PATTERN: &'static str = r"^(?P<file>.+?):(?P<line>\d+):(?P<col>\d+): (?P<severity>warning|error|note): (?P<message>.*?)(?: \[(?P<code>.+?)\])?$";

pub open spec fn opt_match(m: Option<LineMatch>) -> Option<LineMatchView> {
    match m {
        Some(x) => Some(x@),
        None => None,
    }
}

/// Relies on `regex::Regex::captures` over `LINE_PATTERN` (a valid pattern, so
/// compiling it does not fail), applied to each line.
#[verifier::external_body]
fn match_lines(lines: &Vec<String>) -> (r: Vec<Option<LineMatch>>)
    ensures
        r@.len() == lines@.len(),
        forall|i: int| 0 <= i < lines@.len() ==> #[trigger] opt_match(r@[i]) == line_match_of(lines@[i]@),
{
    let re = regex::Regex::new(LINE_PATTERN).ok();
    let part = |c: &regex::Captures, k: &str| c.name(k).map_or(String::new(), |m| m.as_str().to_string());
    lines.iter().map(|l| re.as_ref().and_then(|re| re.captures(l)).map(|c| LineMatch {
        file: part(&c, "file"), line: part(&c, "line"), col: part(&c, "col"),
        severity: part(&c, "severity"), message: part(&c, "message"),
        code: c.name("code").map(|m| m.as_str().to_string()),
    })).collect()
}

/// The matched lines among `ms`, in order.
pub open spec fn matched(ms: Seq<Option<LineMatchView>>) -> Seq<LineMatchView>
    decreases ms.len(),
{
    if ms.len() == 0 {
        seq![]
    } else {
        match ms.last() {
            Some(m) => matched(ms.drop_last()).push(m),
            None => matched(ms.drop_last()),
        }
    }
}

/// The lines of diagnostic shape in an analyzer's output, in order, cut into parts.
pub open spec fn diagnostic_lines(output: Seq<char>) -> Seq<LineMatchView> {
    matched(lines_of(output).map_values(|l: Seq<char>| line_match_of(l)))
}

pub open spec fn is_digit(c: char) -> bool {
    '0' <= c <= '9'
}

pub open spec fn all_digits(s: Seq<char>) -> bool {
    forall|i: int| 0 <= i < s.len() ==> is_digit(#[trigger] s[i])
}

/// The value of a string of decimal digits.
pub open spec fn digits_value(s: Seq<char>) -> nat
    decreases s.len(),
{
    if s.len() == 0 {
        0
    } else {
        digits_value(s.drop_last()) * 10 + ((s.last() as u32 - '0' as u32) as nat)
    }
}

/// The digits of an unsigned number as written: after an optional `+`, at least one digit.
pub open spec fn number_digits(s: Seq<char>) -> Seq<char> {
    if s.len() > 0 && s[0] == '+' {
        s.drop_first()
    } else {
        s
    }
}

/// The unsigned number that `s` writes, if it writes one that fits in `usize`.
pub open spec fn number_of(s: Seq<char>) -> Option<nat> {
    let d = number_digits(s);
    if d.len() > 0 && all_digits(d) && digits_value(d) <= usize::MAX {
        Some(digits_value(d))
    } else {
        None
    }
}

proof fn lemma_digits_value_grows(s: Seq<char>, i: int)
    requires
        0 <= i <= s.len(),
        all_digits(s),
    ensures
        digits_value(s.subrange(0, i)) <= digits_value(s),
    decreases s.len() - i,
{
    if i < s.len() {
        lemma_digits_value_grows(s, i + 1);
        assert(s.subrange(0, i + 1).drop_last() =~= s.subrange(0, i));
    } else {
        assert(s.subrange(0, i) =~= s);
    }
}

/// Reads an unsigned decimal number, as `usize::from_str` does.
pub fn parse_number(s: &str) -> (r: Option<usize>)
    ensures
        match number_of(s@) {
            Some(v) => r == Some(v as usize),
            None => r is None,
        },
{
    let n = s.unicode_len();
    let mut i: usize = 0;
    if n > 0 && s.get_char(0) == '+' {
        i = 1;
    }
    let start = i;
    let ghost d = number_digits(s@);
    assert(d =~= s@.subrange(start as int, n as int));
    if start == n {
        return None;
    }
    let mut v: usize = 0;
    while i < n
        invariant
            n == s@.len(),
            start <= i <= n,
            d == s@.subrange(start as int, n as int),
            d == number_digits(s@),
            all_digits(d.subrange(0, i - start)),
            v as nat == digits_value(d.subrange(0, i - start)),
        decreases n - i,
    {
        let c = s.get_char(i);
        assert(d.subrange(0, i + 1 - start).drop_last() =~= d.subrange(0, i - start));
        assert(d[i - start] == c);
        assert(d.subrange(0, i + 1 - start).last() == c);
        if c < '0' || c > '9' {
            assert(!is_digit(d[i - start]));
            assert(!all_digits(d));
            return None;
        }
        let digit = (c as u32 - '0' as u32) as usize;
        let next = match v.checked_mul(10) {
            Some(x) => x.checked_add(digit),
            None => None,
        };
        match next {
            Some(x) => {
                assert(x == v * 10 + digit);
                v = x;
                assert(all_digits(d.subrange(0, i + 1 - start)));
            },
            None => {
                assert(all_digits(d.subrange(0, i + 1 - start)));
                assert(digits_value(d.subrange(0, i + 1 - start)) == v * 10 + digit);
                assert(digits_value(d.subrange(0, i + 1 - start)) > usize::MAX) by (nonlinear_arith)
                    requires
                        digits_value(d.subrange(0, i + 1 - start)) == v * 10 + digit,
                        v * 10 > usize::MAX || v * 10 + digit > usize::MAX,
                ;
                proof {
                    if all_digits(d) {
                        lemma_digits_value_grows(d, i + 1 - start);
                        assert(digits_value(d) > usize::MAX);
                    }
                }
                return None;
            },
        }
        i += 1;
    }
    assert(d.subrange(0, n - start) =~= d);
    Some(v)
}

/// The number of a line or column as reported, with one for anything unreadable.
pub open spec fn reported_number(s: Seq<char>) -> nat {
    match number_of(s) {
        Some(v) => v,
        None => 1,
    }
}

pub open spec fn zero_based(n: nat) -> nat {
    if n == 0 {
        0
    } else {
        (n - 1) as nat
    }
}

/// The diagnostic that one matched line stands for.
pub open spec fn diag_of_line(m: LineMatchView, base: Option<Seq<char>>, default_file: Seq<char>) -> DiagView {
    let line = zero_based(reported_number(m.1));
    let col = zero_based(reported_number(m.2));
    DiagView {
        file: match resolved(m.0, base) {
            Some(p) => p,
            None => default_file,
        },
        range: crate::position::Range {
            start: crate::position::Position { line: line as usize, character: col as usize },
            end: crate::position::Position { line: line as usize, character: (col + 1) as usize },
        },
        severity: severity_of(m.3),
        code: m.5,
        message: m.4,
        fixes: seq![],
    }
}

/// The diagnostic that one matched line stands for: its path resolved under
/// `base_dir` (`default_file` when empty), its line and column made zero-based
/// (unreadable numbers count as one), its severity normalized, no fixes.
pub fn diagnostic_of_line(m: &LineMatch, base_dir: Option<&str>, default_file: &str) -> (r: InternalDiagnostic)
    ensures
        r@ == diag_of_line(m@, opt_str(base_dir), default_file@),
{
    let file = match resolve_path(m.file.as_str(), base_dir) {
        Some(p) => p,
        None => String::from_str(default_file),
    };
    let line = match parse_number(m.line.as_str()) {
        Some(v) => v,
        None => 1,
    };
    let col = match parse_number(m.col.as_str()) {
        Some(v) => v,
        None => 1,
    };
    let severity = normalize_severity(m.severity.as_str());
    let range = range_from_line_col(line, col);
    let code = match &m.code {
        Some(c) => Some(c.clone()),
        None => None,
    };
    let r = InternalDiagnostic { file, range, severity, code, message: m.message.clone(), fixes: Vec::new() };
    assert(fixes_view(r.fixes@) =~= Seq::<crate::diagnostic::FixView>::empty());
    r
}

/// Every diagnostic that the analyzer's output reports, in order. A relative path is
/// taken under `root_dir`; a line without a path is given `default_file`.
pub fn parse_diagnostics(output: &str, root_dir: Option<&str>, default_file: &str) -> (r: Vec<InternalDiagnostic>)
    ensures
        r@.len() == diagnostic_lines(output@).len(),
        forall|i: int| 0 <= i < r@.len() ==> #[trigger] r@[i]@ == diag_of_line(
            diagnostic_lines(output@)[i],
            opt_str(root_dir),
            default_file@,
        ),
{
    let lines = split_lines(output);
    let matches = match_lines(&lines);
    let ghost ms = lines_of(output@).map_values(|l: Seq<char>| line_match_of(l));
    assert forall|k: int| 0 <= k < matches@.len() implies #[trigger] opt_match(matches@[k]) == ms[k] by {
        assert(lines@[k]@ == texts(lines@)[k]);
    }
    let mut out: Vec<InternalDiagnostic> = Vec::new();
    let mut i: usize = 0;
    assert(ms.subrange(0, 0) =~= Seq::<Option<LineMatchView>>::empty());
    while i < matches.len()
        invariant
            i <= matches@.len() == ms.len(),
            ms == lines_of(output@).map_values(|l: Seq<char>| line_match_of(l)),
            forall|k: int| 0 <= k < matches@.len() ==> #[trigger] opt_match(matches@[k]) == ms[k],
            out@.len() == matched(ms.subrange(0, i as int)).len(),
            forall|k: int| 0 <= k < out@.len() ==> #[trigger] out@[k]@ == diag_of_line(
                matched(ms.subrange(0, i as int))[k],
                opt_str(root_dir),
                default_file@,
            ),
        decreases matches@.len() - i,
    {
        assert(ms.subrange(0, i + 1).drop_last() =~= ms.subrange(0, i as int));
        assert(opt_match(matches@[i as int]) == ms[i as int]);
        match &matches[i] {
            Some(m) => {
                let d = diagnostic_of_line(m, root_dir, default_file);
                out.push(d);
            },
            None => {},
        }
        i += 1;
    }
    assert(ms.subrange(0, ms.len() as int) =~= ms);
    out
}

/// Each diagnostic read from the analyzer's output spans one column from the
/// reported position made zero-based, and has one of the three severities.
pub proof fn lemma_parsed_ranges(m: LineMatchView, base: Option<Seq<char>>, default_file: Seq<char>)
    requires
        reported_number(m.1) >= 1,
        reported_number(m.2) >= 1,
    ensures
        diag_of_line(m, base, default_file).range.start.line == reported_number(m.1) - 1,
        diag_of_line(m, base, default_file).range.start.character == reported_number(m.2) - 1,
        diag_of_line(m, base, default_file).range.end.line == diag_of_line(m, base, default_file).range.start.line,
        diag_of_line(m, base, default_file).range.end.character == diag_of_line(m, base, default_file).range.start.character + 1,
        diag_of_line(m, base, default_file).severity == "error"@ || diag_of_line(m, base, default_file).severity == "warning"@
            || diag_of_line(m, base, default_file).severity == "info"@,
{
    assert(reported_number(m.1) <= usize::MAX);
    assert(reported_number(m.2) <= usize::MAX);
}

} // verus!
