//! Decisions of the JSON-RPC dispatcher: what a message is, which handler a
//! method goes to, and how a file or project request is to be served.
use vstd::prelude::*;
use vstd::string::*;
use crate::text::same_text;

verus! {

/// What an incoming message is.
#[derive(Clone, Copy, Debug, PartialEq, Eq, Structural)]
pub enum MessageKind {
    /// It has a method and an id: it gets a response.
    Request,
    /// It has a method and no id: it gets none.
    Notification,
    /// It has no method.
    Ignored,
}

/// Tells a request from a notification.
pub fn message_kind(has_method: bool, has_id: bool) -> (r: MessageKind)
    ensures
        !has_method ==> r == MessageKind::Ignored,
        has_method && has_id ==> r == MessageKind::Request,
        has_method && !has_id ==> r == MessageKind::Notification,
{
    if !has_method {
        MessageKind::Ignored
    } else if has_id {
        MessageKind::Request
    } else {
        MessageKind::Notification
    }
}

/// The requests the daemon knows.
#[derive(Clone, Copy, Debug, PartialEq, Eq, Structural)]
pub enum Method {
    Initialize,
    Shutdown,
    Ping,
    AnalyzeFile,
    AnalyzeProject,
    Cancel,
    /// Anything else, answered with an empty result.
    Other,
}

/// The request that a method name names.
pub open spec fn method_of(name: Seq<char>) -> Method {
    if name == "initialize"@ {
        Method::Initialize
    } else if name == "shutdown"@ {
        Method::Shutdown
    } else if name == "ping"@ {
        Method::Ping
    } else if name == "analyzeFile"@ {
        Method::AnalyzeFile
    } else if name == "analyzeProject"@ {
        Method::AnalyzeProject
    } else if name == "cancel"@ {
        Method::Cancel
    } else {
        Method::Other
    }
}

/// Routes a request by its method name.
pub fn route(name: &str) -> (r: Method)
    ensures
        r == method_of(name@),
{
    if same_text(name, "initialize") {
        Method::Initialize
    } else if same_text(name, "shutdown") {
        Method::Shutdown
    } else if same_text(name, "ping") {
        Method::Ping
    } else if same_text(name, "analyzeFile") {
        Method::AnalyzeFile
    } else if same_text(name, "analyzeProject") {
        Method::AnalyzeProject
    } else if same_text(name, "cancel") {
        Method::Cancel
    } else {
        Method::Other
    }
}

/// How a single-file request is served.
#[derive(Clone, Copy, Debug, PartialEq, Eq, Structural)]
pub enum FilePlan {
    /// The file is not in the loaded compile database: no diagnostics, no analyzer.
    NotInDatabase,
    /// Analyze the editor's content first, falling back to the file on disk.
    UnsavedThenOnDisk,
    /// Analyze the file on disk.
    OnDisk,
}

/// The plan for a file request: a loaded compile database without the file
/// settles it; otherwise content sent along is analyzed first.
pub fn plan_file_analysis(index_loaded: bool, in_index: bool, has_content: bool) -> (r: FilePlan)
    ensures
        index_loaded && !in_index ==> r == FilePlan::NotInDatabase,
        !(index_loaded && !in_index) && has_content ==> r == FilePlan::UnsavedThenOnDisk,
        !(index_loaded && !in_index) && !has_content ==> r == FilePlan::OnDisk,
{
    if index_loaded && !in_index {
        FilePlan::NotInDatabase
    } else if has_content {
        FilePlan::UnsavedThenOnDisk
    } else {
        FilePlan::OnDisk
    }
}

/// Where a project run takes its files from.
#[derive(Clone, Copy, Debug, PartialEq, Eq, Structural)]
pub enum FileSource {
    /// The files listed in the request.
    Requested,
    /// The loaded compile database index.
    Index,
    /// The compile database, read directly.
    Database,
}

/// The request's own list first, then the loaded index, then the database file.
pub fn project_file_source(listed: bool, index_loaded: bool) -> (r: FileSource)
    ensures
        listed ==> r == FileSource::Requested,
        !listed && index_loaded ==> r == FileSource::Index,
        !listed && !index_loaded ==> r == FileSource::Database,
{
    if listed {
        FileSource::Requested
    } else if index_loaded {
        FileSource::Index
    } else {
        FileSource::Database
    }
}

/// The message that ends a run with nothing to analyze.
pub fn empty_run_message(incremental: bool) -> (r: String)
    ensures
        r@ == if incremental { "No changed files to analyze"@ } else { "No files found in compile_commands.json"@ },
{
    if incremental {
        String::from_str("No changed files to analyze")
    } else {
        String::from_str("No files found in compile_commands.json")
    }
}

/// The analysis mode of a request: as given, `full` when absent.
pub fn mode_or_default(mode: Option<&str>) -> (r: String)
    ensures
        r@ == match mode {
            Some(m) => m@,
            None => "full"@,
        },
{
    match mode {
        Some(m) => String::from_str(m),
        None => String::from_str("full"),
    }
}

} // verus!
