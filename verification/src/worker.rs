//! The isolated `engine-worker` process: where its binary is found, how its
//! exit is classified, and how the `R <path>` result line of its protocol
//! is read back.

use vstd::prelude::*;

use crate::text::{chars_of, is_ws, lines, lines_of, strip_lit, strip_prefix, string_of, trimmed};

verus! {

/// `std::io::Error`, carried through unchanged.
#[verifier::external_type_specification]
#[verifier::external_body]
pub struct ExIoError(std::io::Error);

/// File name of the worker binary, deployed next to the backend.
pub const WORKER_BIN_NAME: &'static str = "engine-worker";

/// Default time limit of a worker run, in seconds.
pub const DEFAULT_TIMEOUT_SECS: u64 = 120;

/// Parent directory of a path, as `std::path::Path::parent` computes it.
pub uninterp spec fn path_parent(p: Seq<char>) -> Option<Seq<char>>;

/// `dir` joined with `name`, as `std::path::Path::join` computes it.
pub uninterp spec fn path_join(dir: Seq<char>, name: Seq<char>) -> Seq<char>;

/// A non-empty path that does not start at the root.
pub open spec fn is_relative_name(name: Seq<char>) -> bool {
    name.len() > 0 && name[0] != '/'
}

/// `dir` followed by the relative `name`, with a `/` between them unless
/// `dir` is empty or already ends with one.
pub open spec fn join_text(dir: Seq<char>, name: Seq<char>) -> Seq<char> {
    if dir.len() == 0 || dir.last() == '/' {
        dir + name
    } else {
        dir + "/"@ + name
    }
}

/// Text of a byte string with invalid UTF-8 replaced by U+FFFD, as
/// `String::from_utf8_lossy` computes it.
pub uninterp spec fn utf8_lossy(b: Seq<u8>) -> Seq<char>;

/// `Path::new(p).parent()`: the path without its last component; `None`
/// for a root or an empty path. The result is a function of `p` alone.
#[verifier::external_body]
fn parent_of(p: &str) -> (r: Option<String>)
    ensures
        r.is_some() == path_parent(p@).is_some(),
        r.is_some() ==> r.unwrap()@ == path_parent(p@).unwrap(),
{
    std::path::Path::new(p).parent().map(|d| d.to_string_lossy().into_owned())
}

/// `Path::new(dir).join(name)`: the result is a function of both
/// arguments; for a relative `name` it is `dir`, a `/` separator unless
/// `dir` is empty or already ends with one, then `name` (`PathBuf::push`).
#[verifier::external_body]
pub(crate) fn join_path(dir: &str, name: &str) -> (r: String)
    ensures
        r@ == path_join(dir@, name@),
        is_relative_name(name@) ==> r@ == join_text(dir@, name@),
{
    std::path::Path::new(dir).join(name).to_string_lossy().into_owned()
}

/// `String::from_utf8_lossy`: the result is a function of the bytes alone,
/// and well-formed UTF-8 gives back exactly the characters it encodes.
#[verifier::external_body]
pub fn lossy_text(b: &[u8]) -> (r: String)
    ensures
        r@ == utf8_lossy(b@),
        vstd::utf8::valid_utf8(b@) ==> r@ == vstd::utf8::decode_utf8(b@),
{
    String::from_utf8_lossy(b).into_owned()
}

/// Worker binary: the override when it is set and not empty, else the
/// binary next to the current executable, else the bare name.
pub open spec fn spec_resolve_binary(
    env_override: Option<Seq<char>>,
    current_exe: Option<Seq<char>>,
) -> Seq<char> {
    match env_override {
        Some(p) if p.len() > 0 => p,
        _ => match current_exe {
            Some(exe) => match path_parent(exe) {
                Some(dir) => path_join(dir, WORKER_BIN_NAME@),
                None => WORKER_BIN_NAME@,
            },
            None => WORKER_BIN_NAME@,
        },
    }
}

/// Resolves the worker binary path from the `ENGINE_WORKER_BIN` override
/// and the current executable's path (both read by the caller).
pub fn resolve_binary(env_override: Option<&str>, current_exe: Option<&str>) -> (r: String)
    ensures
        r@ == spec_resolve_binary(
            match env_override {
                Some(p) => Some(p@),
                None => None,
            },
            match current_exe {
                Some(p) => Some(p@),
                None => None,
            },
        ),
{
    if let Some(path) = env_override {
        if !path.is_empty() {
            return path.to_owned();
        }
    }
    match current_exe {
        Some(exe) => match parent_of(exe) {
            Some(dir) => join_path(dir.as_str(), WORKER_BIN_NAME),
            None => WORKER_BIN_NAME.to_owned(),
        },
        None => WORKER_BIN_NAME.to_owned(),
    }
}

/// Failure of a worker run.
#[derive(Debug)]
pub enum WorkerError {
    /// The binary could not be started.
    Spawn { binary: String, source: std::io::Error },
    /// The time limit (seconds) was exceeded and the worker killed.
    Timeout(u64),
    /// Terminated by a signal (contained engine crash), with its stderr.
    Crashed { stderr: String },
    /// Non-zero exit code, with its stderr.
    Failed { code: i32, stderr: String },
    /// I/O error while reading the worker's output.
    Io(std::io::Error),
}

/// Outcome of a finished worker from its exit status: stdout on success,
/// `Failed` with the exit code, or `Crashed` when there is no code (signal);
/// stderr is reported as trimmed lossy text.
pub open spec fn spec_exit_outcome(
    success: bool,
    code: Option<i32>,
    stdout: Seq<u8>,
    stderr: Seq<u8>,
) -> Result<Seq<u8>, (Option<i32>, Seq<char>)> {
    if success {
        Ok(stdout)
    } else {
        Err((code, crate::text::trim(utf8_lossy(stderr))))
    }
}

/// Classifies the exit of a worker run.
pub fn classify_exit(success: bool, code: Option<i32>, stdout: Vec<u8>, stderr: &[u8]) -> (r:
    Result<Vec<u8>, WorkerError>)
    ensures
        match r {
            Ok(out) => spec_exit_outcome(success, code, stdout@, stderr@) == Ok::<
                Seq<u8>,
                (Option<i32>, Seq<char>),
            >(out@),
            Err(WorkerError::Failed { code: c, stderr: e }) => spec_exit_outcome(
                success,
                code,
                stdout@,
                stderr@,
            ) == Err::<Seq<u8>, (Option<i32>, Seq<char>)>((Some(c), e@)),
            Err(WorkerError::Crashed { stderr: e }) => spec_exit_outcome(
                success,
                code,
                stdout@,
                stderr@,
            ) == Err::<Seq<u8>, (Option<i32>, Seq<char>)>((None, e@)),
            Err(_) => false,
        },
{
    if success {
        return Ok(stdout);
    }
    let text = chars_of(lossy_text(stderr).as_str());
    let trimmed_text = string_of(&trimmed(&text));
    match code {
        Some(c) => Err(WorkerError::Failed { code: c, stderr: trimmed_text }),
        None => Err(WorkerError::Crashed { stderr: trimmed_text }),
    }
}

/// Index of the first line that starts with `R `.
pub open spec fn first_result_line(ls: Seq<Seq<char>>, from: int) -> Option<int>
    decreases ls.len() - from,
{
    if from < 0 || from >= ls.len() {
        None
    } else if "R "@.is_prefix_of(ls[from]) {
        Some(from)
    } else {
        first_result_line(ls, from + 1)
    }
}

/// The path carried by the first `R <path>` line of the worker's stdout
/// (log noise before it is ignored).
pub open spec fn spec_result_path(stdout: Seq<u8>) -> Option<Seq<char>> {
    let ls = lines_of(utf8_lossy(stdout));
    match first_result_line(ls, 0) {
        Some(k) => strip_prefix(ls[k], "R "@),
        None => None,
    }
}

/// Extracts the path of the `R <path>` result line.
pub fn parse_result_path(stdout: &[u8]) -> (r: Option<String>)
    ensures
        r.is_some() == spec_result_path(stdout@).is_some(),
        r.is_some() ==> r.unwrap()@ == spec_result_path(stdout@).unwrap(),
{
    let text = chars_of(lossy_text(stdout).as_str());
    let ls = lines(&text);
    let ghost lv = ls.deep_view();
    let mut i: usize = 0;
    while i < ls.len()
        invariant
            lv == ls.deep_view(),
            lv == lines_of(utf8_lossy(stdout@)),
            i <= ls.len(),
            first_result_line(lv, 0) == first_result_line(lv, i as int),
        decreases ls.len() - i,
    {
        assert(ls[i as int].deep_view() =~= ls[i as int]@);
        if let Some(rest) = strip_lit(&ls[i], "R ") {
            return Some(string_of(&rest));
        }
        i = i + 1;
    }
    None
}

/// Index of the last line before `upto` that starts with `R `.
pub open spec fn last_result_line(ls: Seq<Seq<char>>, upto: int) -> Option<int>
    decreases upto,
{
    if upto <= 0 {
        None
    } else if "R "@.is_prefix_of(ls[upto - 1]) {
        Some(upto - 1)
    } else {
        last_result_line(ls, upto - 1)
    }
}

/// The payload of the last `R <payload>` line of the worker's stdout (the
/// slicing result of its `P`/`R`/`E` protocol).
pub open spec fn spec_result_payload(stdout: Seq<u8>) -> Option<Seq<char>> {
    let ls = lines_of(utf8_lossy(stdout));
    match last_result_line(ls, ls.len() as int) {
        Some(k) => strip_prefix(ls[k], "R "@),
        None => None,
    }
}

/// Extracts the payload of the last `R <payload>` line.
pub fn last_result_payload(stdout: &[u8]) -> (r: Option<String>)
    ensures
        match spec_result_payload(stdout@) {
            Some(p) => r is Some && r->0@ == p,
            None => r is None,
        },
{
    let text = chars_of(lossy_text(stdout).as_str());
    let ls = lines(&text);
    let ghost lv = ls.deep_view();
    let mut i: usize = ls.len();
    while i > 0
        invariant
            lv == ls.deep_view(),
            lv == lines_of(utf8_lossy(stdout@)),
            i <= ls.len(),
            last_result_line(lv, lv.len() as int) == last_result_line(lv, i as int),
        decreases i,
    {
        assert(ls[i - 1].deep_view() =~= ls[i - 1]@);
        if let Some(rest) = strip_lit(&ls[i - 1], "R ") {
            return Some(string_of(&rest));
        }
        i = i - 1;
    }
    None
}

/// Decoder that runs `engine-worker load-model` on a stored model file.
pub struct WorkerMeshDecoder {
    /// Time limit of one decoding, in seconds.
    pub timeout_secs: u64,
}

impl WorkerMeshDecoder {
    /// Decoder with the default time limit (120 s).
    pub fn new() -> (r: Self)
        ensures
            r.timeout_secs == DEFAULT_TIMEOUT_SECS,
    {
        WorkerMeshDecoder { timeout_secs: DEFAULT_TIMEOUT_SECS }
    }
}

} // verus!
