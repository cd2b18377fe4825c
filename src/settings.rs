//! The watched log directory and the session snapshot that the host reads,
//! with the validation a new directory goes through.

use vstd::prelude::*;
use crate::events::{default_job_id, default_job_id_string};
use crate::text::{trim_str, trimmed};

verus! {

/// Why a candidate log directory was refused.
#[derive(Debug, Clone, Copy, PartialEq, Eq, Structural)]
pub enum LogsPathError {
    /// Nothing but whitespace was given.
    EmptyPath,
    /// The path does not name an existing directory.
    NotADirectory,
}

/// Text shown to the user for an error.
pub open spec fn error_message(e: LogsPathError) -> Seq<char> {
    match e {
        LogsPathError::EmptyPath => "Path cannot be empty"@,
        LogsPathError::NotADirectory => "Path must be an existing directory"@,
    }
}

impl LogsPathError {
    /// Text shown to the user for this error.
    pub fn message(&self) -> (r: String)
        ensures
            r@ == error_message(*self),
    {
        match self {
            LogsPathError::EmptyPath => String::from_str("Path cannot be empty"),
            LogsPathError::NotADirectory => String::from_str("Path must be an existing directory"),
        }
    }
}

/// The candidate as it will be checked and stored: without surrounding whitespace.
pub fn trimmed_path(path: &str) -> (r: String)
    ensures
        r@ == trimmed(path@),
{
    String::from_str(trim_str(path))
}

/// Outcome of validating a candidate directory; `is_dir` tells whether the
/// trimmed candidate names an existing directory.
pub open spec fn validated(path: Seq<char>, is_dir: bool) -> Result<Seq<char>, LogsPathError> {
    if trimmed(path).len() == 0 {
        Err(LogsPathError::EmptyPath)
    } else if !is_dir {
        Err(LogsPathError::NotADirectory)
    } else {
        Ok(trimmed(path))
    }
}

pub open spec fn result_view(r: Result<String, LogsPathError>) -> Result<Seq<char>, LogsPathError> {
    match r {
        Ok(s) => Ok(s@),
        Err(e) => Err(e),
    }
}

/// Checks a candidate directory: empty after trimming, or not a directory, is refused.
pub fn validate_logs_path(path: &str, is_dir: bool) -> (r: Result<String, LogsPathError>)
    ensures
        result_view(r) == validated(path@, is_dir),
{
    let t = trim_str(path);
    if t.unicode_len() == 0 {
        return Err(LogsPathError::EmptyPath);
    }
    if !is_dir {
        return Err(LogsPathError::NotADirectory);
    }
    Ok(String::from_str(t))
}

/// The directory being watched and the last session id the watcher resolved.
pub struct LogSettingsState {
    logs_path: String,
    job_id: String,
}

impl LogSettingsState {
    pub closed spec fn logs_path_view(&self) -> Seq<char> {
        self.logs_path@
    }

    pub closed spec fn job_id_view(&self) -> Seq<char> {
        self.job_id@
    }

    /// Starts on `initial` with no active session.
    pub fn new(initial: String) -> (r: LogSettingsState)
        ensures
            r.logs_path_view() == initial@,
            r.job_id_view() == default_job_id(),
    {
        LogSettingsState { logs_path: initial, job_id: default_job_id_string() }
    }

    /// Stores the session id that the watcher resolved last.
    pub fn record_job_id(&mut self, job_id: String)
        ensures
            final(self).job_id_view() == job_id@,
            final(self).logs_path_view() == old(self).logs_path_view(),
    {
        self.job_id = job_id;
    }
}

/// The directory being watched.
pub fn get_roblox_logs_path(state: &LogSettingsState) -> (r: String)
    ensures
        r@ == state.logs_path_view(),
{
    state.logs_path.clone()
}

/// Validates `path` and, when it is accepted, makes it the watched directory.
/// The caller then hands the returned directory to the watcher.
pub fn set_roblox_logs_path(state: &mut LogSettingsState, path: &str, is_dir: bool) -> (r: Result<
    String,
    LogsPathError,
>)
    ensures
        result_view(r) == validated(path@, is_dir),
        r is Ok ==> final(state).logs_path_view() == trimmed(path@),
        r is Err ==> final(state).logs_path_view() == old(state).logs_path_view(),
        final(state).job_id_view() == old(state).job_id_view(),
{
    let next = validate_logs_path(path, is_dir);
    match next {
        Ok(p) => {
            state.logs_path = p.clone();
            Ok(p)
        },
        Err(e) => Err(e),
    }
}

/// The current session id; the default token when no game is active.
pub fn get_job_id(state: &LogSettingsState) -> (r: String)
    ensures
        r@ == state.job_id_view(),
{
    state.job_id.clone()
}

/// A command's result as the host expects it: errors become their message.
pub fn to_cmd<T>(result: Result<T, LogsPathError>) -> (r: Result<T, String>)
    ensures
        result is Ok ==> r == Ok::<T, String>(result->Ok_0),
        result is Err ==> r is Err && r->Err_0@ == error_message(result->Err_0),
{
    match result {
        Ok(v) => Ok(v),
        Err(e) => Err(e.message()),
    }
}

/// Sub-path of the home directory where the client writes its logs.
pub open spec fn logs_suffix() -> Seq<char> {
    "AppData\\Local\\Roblox\\logs"@
}

pub open spec fn ends_with_separator(s: Seq<char>) -> bool {
    s.len() > 0 && (s.last() == '\\' || s.last() == '/')
}

/// The default log directory under the home directory `home`.
pub fn default_roblox_logs_path(home: &str) -> (r: String)
    ensures
        r@ == if home@.len() == 0 || ends_with_separator(home@) {
            home@ + logs_suffix()
        } else {
            home@ + seq!['\\'] + logs_suffix()
        },
{
    let n = home.unicode_len();
    let base = String::from_str(home);
    if n == 0 {
        return base.concat("AppData\\Local\\Roblox\\logs");
    }
    let last = home.get_char(n - 1);
    if last == '\\' || last == '/' {
        base.concat("AppData\\Local\\Roblox\\logs")
    } else {
        proof {
            reveal_strlit("\\");
        }
        base.concat("\\").concat("AppData\\Local\\Roblox\\logs")
    }
}

/// Greeting shown by the host's demo command.
pub fn greet(name: &str) -> (r: String)
    ensures
        r@ == "Hello, "@ + name@ + "! You've been greeted from Rust!"@,
{
    String::from_str("Hello, ").concat(name).concat("! You've been greeted from Rust!")
}

} // verus!
