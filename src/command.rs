//! Compile commands: splitting a shell command line into words, and deriving the
//! arguments of a shadow entry that points the analyzer at a copy of a file.
use vstd::prelude::*;
use vstd::string::*;
use crate::text::{copy_strings, digit_char, push_char, push_str, same_text, texts};

verus! {

/// One entry of the compile database.
#[derive(Clone, Debug)]
pub struct CompileCommandEntry {
    pub file: String,
    pub directory: String,
    pub command: Option<String>,
    pub arguments: Option<Vec<String>>,
}

/// The characters with the Unicode `White_Space` property.
pub open spec fn is_space(c: char) -> bool {
    let u = c as u32;
    (9 <= u <= 13) || u == 32 || u == 0x85 || u == 0xA0 || u == 0x1680 || (0x2000 <= u <= 0x200A)
        || u == 0x2028 || u == 0x2029 || u == 0x202F || u == 0x205F || u == 0x3000
}

/// Whether `c` is white space.
pub fn is_space_char(c: char) -> (r: bool)
    ensures
        r == is_space(c),
{
    let u = c as u32;
    (9 <= u && u <= 13) || u == 32 || u == 0x85 || u == 0xA0 || u == 0x1680 || (0x2000 <= u && u
        <= 0x200A) || u == 0x2028 || u == 0x2029 || u == 0x202F || u == 0x205F || u == 0x3000
}

/// Where the splitter stands after a prefix of the command.
pub ghost struct SplitState {
    pub words: Seq<Seq<char>>,
    pub current: Seq<char>,
    pub in_single: bool,
    pub in_double: bool,
    pub escape: bool,
}

pub open spec fn split_start() -> SplitState {
    SplitState { words: seq![], current: seq![], in_single: false, in_double: false, escape: false }
}

/// One character of the command: after a backslash outside single quotes it is
/// taken literally; quotes toggle their mode unless inside the other kind; white
/// space outside quotes ends the current word; anything else joins the word.
pub open spec fn split_step(st: SplitState, c: char) -> SplitState {
    if st.escape {
        SplitState { current: st.current.push(c), escape: false, ..st }
    } else if c == '\\' && !st.in_single {
        SplitState { escape: true, ..st }
    } else if c == '\'' && !st.in_double {
        SplitState { in_single: !st.in_single, ..st }
    } else if c == '"' && !st.in_single {
        SplitState { in_double: !st.in_double, ..st }
    } else if is_space(c) && !st.in_single && !st.in_double {
        if st.current.len() > 0 {
            SplitState { words: st.words.push(st.current), current: seq![], ..st }
        } else {
            st
        }
    } else {
        SplitState { current: st.current.push(c), ..st }
    }
}

pub open spec fn split_run(s: Seq<char>) -> SplitState
    decreases s.len(),
{
    if s.len() == 0 {
        split_start()
    } else {
        split_step(split_run(s.drop_last()), s.last())
    }
}

/// The words of a command line.
pub open spec fn split_words(s: Seq<char>) -> Seq<Seq<char>> {
    let st = split_run(s);
    if st.current.len() > 0 {
        st.words.push(st.current)
    } else {
        st.words
    }
}

/// Splits a command line into words as a POSIX shell would, without expansions.
pub fn split_command(command: &str) -> (r: Vec<String>)
    ensures
        texts(r@) == split_words(command@),
{
    let mut args: Vec<String> = Vec::new();
    let mut current = String::new();
    let mut in_single = false;
    let mut in_double = false;
    let mut escape = false;
    let n = command.unicode_len();
    let mut i: usize = 0;
    assert(command@.subrange(0, 0) =~= Seq::<char>::empty());
    assert(texts(args@) =~= Seq::<Seq<char>>::empty());
    while i < n
        invariant
            n == command@.len(),
            i <= n,
            split_run(command@.subrange(0, i as int)) == (SplitState {
                words: texts(args@),
                current: current@,
                in_single,
                in_double,
                escape,
            }),
        decreases n - i,
    {
        let ch = command.get_char(i);
        assert(command@.subrange(0, i + 1).drop_last() =~= command@.subrange(0, i as int));
        let ghost words_before = texts(args@);
        if escape {
            push_char(&mut current, ch);
            escape = false;
        } else if ch == '\\' && !in_single {
            escape = true;
        } else if ch == '\'' && !in_double {
            in_single = !in_single;
        } else if ch == '"' && !in_single {
            in_double = !in_double;
        } else if is_space_char(ch) && !in_single && !in_double {
            if current.unicode_len() > 0 {
                args.push(current.clone());
                current = String::new();
                assert(texts(args@) =~= words_before.push(split_run(command@.subrange(0, i as int)).current));
            }
        } else {
            push_char(&mut current, ch);
        }
        i += 1;
    }
    assert(command@.subrange(0, n as int) =~= command@);
    if current.unicode_len() > 0 {
        let ghost words_before = texts(args@);
        args.push(current);
        assert(texts(args@) =~= words_before.push(split_run(command@).current));
    }
    args
}

/// `a` with every word equal to `raw_file` or `original_path` replaced by `temp_path`.
pub open spec fn replaced_args(a: Seq<Seq<char>>, raw_file: Seq<char>, original_path: Seq<char>, temp_path: Seq<char>) -> Seq<Seq<char>> {
    a.map_values(|w: Seq<char>| if w == raw_file || w == original_path { temp_path } else { w })
}

pub open spec fn mentions(a: Seq<Seq<char>>, raw_file: Seq<char>, original_path: Seq<char>) -> bool {
    exists|i: int| 0 <= i < a.len() && (a[i] == raw_file || a[i] == original_path)
}

/// Points every argument naming the file (as written in the entry, or as its full
/// path) at `temp_path`; tells whether any did.
pub fn replace_file_arg(args: &mut Vec<String>, raw_file: &str, original_path: &str, temp_path: &str) -> (r: bool)
    ensures
        texts(final(args)@) == replaced_args(texts(old(args)@), raw_file@, original_path@, temp_path@),
        r == mentions(texts(old(args)@), raw_file@, original_path@),
{
    let ghost orig = texts(args@);
    let mut replaced = false;
    let mut i: usize = 0;
    while i < args.len()
        invariant
            orig.len() == args@.len(),
            i <= args@.len(),
            forall|k: int| 0 <= k < i ==> #[trigger] args@[k]@ == replaced_args(orig, raw_file@, original_path@, temp_path@)[k],
            forall|k: int| i <= k < args@.len() ==> #[trigger] args@[k]@ == orig[k],
            replaced == exists|k: int| 0 <= k < i && (orig[k] == raw_file@ || orig[k] == original_path@),
        decreases args@.len() - i,
    {
        assert(args@[i as int]@ == orig[i as int]);
        let hit = same_text(args[i].as_str(), raw_file) || same_text(args[i].as_str(), original_path);
        if hit {
            args.set(i, String::from_str(temp_path));
            replaced = true;
        }
        i += 1;
    }
    assert(texts(args@) =~= replaced_args(orig, raw_file@, original_path@, temp_path@));
    replaced
}

/// The argument words of an entry: its `arguments` as they stand, else its
/// `command` split into words, else nothing.
pub open spec fn entry_arguments(e: CompileCommandEntry) -> Option<Seq<Seq<char>>> {
    match e.arguments {
        Some(a) => Some(texts(a@)),
        None => match e.command {
            Some(c) => Some(split_words(c@)),
            None => None,
        },
    }
}

/// The arguments of an entry: its `arguments` if present, else its `command` split.
pub fn resolve_arguments(entry: &CompileCommandEntry) -> (r: Option<Vec<String>>)
    ensures
        match r {
            Some(v) => entry_arguments(*entry) == Some(texts(v@)),
            None => entry_arguments(*entry) is None,
        },
{
    match &entry.arguments {
        Some(args) => Some(copy_strings(args)),
        None => match &entry.command {
            Some(cmd) => Some(split_command(cmd.as_str())),
            None => None,
        },
    }
}

/// Why a shadow entry could not be derived.
#[derive(Clone, Copy, Debug, PartialEq, Eq, Structural)]
pub enum ShadowError {
    /// The entry has neither `arguments` nor `command`.
    MissingArguments,
    /// No argument names the file.
    FileNotReferenced,
}

impl ShadowError {
    /// The error's text.
    pub fn message(&self) -> (r: String)
        ensures
            r@ == match *self {
                ShadowError::MissingArguments => "compile command missing arguments"@,
                ShadowError::FileNotReferenced => "compile command does not reference file path"@,
            },
    {
        match self {
            ShadowError::MissingArguments => String::from_str("compile command missing arguments"),
            ShadowError::FileNotReferenced => String::from_str("compile command does not reference file path"),
        }
    }
}

/// The arguments of the shadow entry for analysing a copy of the file at
/// `temp_path`: those of `entry`, with every word naming the file pointed at the copy.
pub fn shadow_arguments(entry: &CompileCommandEntry, original_path: &str, temp_path: &str) -> (r: Result<Vec<String>, ShadowError>)
    ensures
        match entry_arguments(*entry) {
            None => r == Err::<Vec<String>, ShadowError>(ShadowError::MissingArguments),
            Some(a) => if mentions(a, entry.file@, original_path@) {
                r is Ok && texts(r->Ok_0@) == replaced_args(a, entry.file@, original_path@, temp_path@)
            } else {
                r == Err::<Vec<String>, ShadowError>(ShadowError::FileNotReferenced)
            },
        },
{
    match resolve_arguments(entry) {
        None => Err(ShadowError::MissingArguments),
        Some(args) => {
            let mut args = args;
            if replace_file_arg(&mut args, entry.file.as_str(), original_path, temp_path) {
                Ok(args)
            } else {
                Err(ShadowError::FileNotReferenced)
            }
        },
    }
}

/// How a character appears inside a JSON string: quote and backslash behind a
/// backslash, backspace, form feed, line feed, carriage return and tab as `\b`,
/// `\f`, `\n`, `\r`, `\t`, any other character below 0x20 as `\u00` and two
/// lower-case hex digits, and every other character as it is.
pub open spec fn json_char(c: char) -> Seq<char> {
    let u = c as u32;
    if c == '"' {
        seq!['\\', '"']
    } else if c == '\\' {
        seq!['\\', '\\']
    } else if u == 8 {
        seq!['\\', 'b']
    } else if u == 12 {
        seq!['\\', 'f']
    } else if c == '\n' {
        seq!['\\', 'n']
    } else if c == '\r' {
        seq!['\\', 'r']
    } else if c == '\t' {
        seq!['\\', 't']
    } else if u < 0x20 {
        seq!['\\', 'u', '0', '0', digit_char((u / 16) as nat), digit_char((u % 16) as nat)]
    } else {
        seq![c]
    }
}

/// The characters of `s`, each as it appears inside a JSON string.
pub open spec fn json_escaped(s: Seq<char>) -> Seq<char>
    decreases s.len(),
{
    if s.len() == 0 {
        seq![]
    } else {
        json_escaped(s.drop_last()) + json_char(s.last())
    }
}

/// The JSON string literal of a text: its escaped characters between quotes.
pub open spec fn json_text_of(s: Seq<char>) -> Seq<char> {
    seq!['"'] + json_escaped(s) + seq!['"']
}

/// Relies on `serde_json::to_string` of a `str` (`format_escaped_str` and its
/// `ESCAPE` table): the text as a quoted, escaped JSON string. Serializing a string
/// into memory does not fail.
#[verifier::external_body]
fn json_string(s: &str) -> (r: String)
    ensures
        r@ == json_text_of(s@),
{
    match serde_json::to_string(s) {
        Ok(t) => t,
        Err(_) => String::new(),
    }
}

/// The JSON array of the given texts.
pub open spec fn json_array_of(a: Seq<Seq<char>>) -> Seq<char>
    decreases a.len(),
{
    if a.len() == 0 {
        "[]"@
    } else {
        json_items_of(a) + "]"@
    }
}

/// `[` and the texts as JSON strings separated by commas, without the closing bracket.
pub open spec fn json_items_of(a: Seq<Seq<char>>) -> Seq<char>
    decreases a.len(),
{
    if a.len() == 0 {
        "["@
    } else if a.len() == 1 {
        "["@ + json_text_of(a[0])
    } else {
        json_items_of(a.drop_last()) + ","@ + json_text_of(a.last())
    }
}

/// A compile database with the one entry `{directory, file, arguments}`.
pub open spec fn shadow_database_text(directory: Seq<char>, file: Seq<char>, arguments: Seq<Seq<char>>) -> Seq<char> {
    "[{\"directory\":"@ + json_text_of(directory) + ",\"file\":"@ + json_text_of(file) + ",\"arguments\":"@
        + json_array_of(arguments) + "}]"@
}

/// The text of the compile database that points the analyzer at the copy of a file.
pub fn shadow_compile_database(directory: &str, file: &str, arguments: &Vec<String>) -> (r: String)
    ensures
        r@ == shadow_database_text(directory@, file@, texts(arguments@)),
{
    let mut s = String::from_str("[{\"directory\":");
    push_str(&mut s, json_string(directory).as_str());
    push_str(&mut s, ",\"file\":");
    push_str(&mut s, json_string(file).as_str());
    push_str(&mut s, ",\"arguments\":");
    let ghost head = s@;
    let n = arguments.len();
    if n == 0 {
        push_str(&mut s, "[]");
    } else {
        push_str(&mut s, "[");
        let mut i: usize = 0;
        while i < n
            invariant
                n == arguments@.len() > 0,
                i <= n,
                i == 0 ==> s@ == head + "["@,
                i > 0 ==> s@ == head + json_items_of(texts(arguments@.subrange(0, i as int))),
            decreases n - i,
        {
            let ghost prefix = texts(arguments@.subrange(0, i as int));
            let ghost next = texts(arguments@.subrange(0, i + 1));
            assert(next.drop_last() =~= prefix);
            assert(next.last() == arguments@[i as int]@);
            if i > 0 {
                push_str(&mut s, ",");
            }
            push_str(&mut s, json_string(arguments[i].as_str()).as_str());
            proof {
                if i == 0 {
                    assert(next.len() == 1);
                    assert(next[0] == arguments@[0]@);
                }
            }
            assert(s@ =~= head + json_items_of(next));
            i += 1;
        }
        assert(arguments@.subrange(0, n as int) =~= arguments@);
        push_str(&mut s, "]");
    }
    push_str(&mut s, "}]");
    assert(s@ =~= shadow_database_text(directory@, file@, texts(arguments@)));
    s
}

} // verus!
