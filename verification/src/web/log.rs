//! Request logging: every control interaction at `info`, everything else at `debug`.
//!
//! A console can hang on a single call without a word. With every interaction
//! logged, the last line before a stall shows which action hung.

use vstd::prelude::*;
use crate::listener::event::{decode_lossy, text_of};
use crate::text;
use crate::web::error::{debug_text, quoted};

verus! {

/// The longest form body that is kept for the log, in bytes. Control forms are
/// tiny; what is longer counts as empty.
pub const LOG_BODY_LIMIT: usize = 1048576;

/// How loud a line is logged.
#[derive(Copy, Clone, Debug, PartialEq, Eq, Structural)]
pub enum LogLevel {
    Info,
    Debug,
}

/// Whether a request controls something: a `POST` to a zone, to all zones, to an AC
/// unit or to the refresh.
pub open spec fn spec_is_control(method: Seq<char>, path: Seq<char>) -> bool {
    method == "POST"@ && (path == "/refresh"@ || "/zone/"@.is_prefix_of(path)
        || "/zones/"@.is_prefix_of(path) || "/ac/"@.is_prefix_of(path))
}

/// Whether a request controls something: a `POST` to a zone, to all zones, to an AC
/// unit or to the refresh.
pub fn is_control(method: &str, path: &str) -> (r: bool)
    ensures
        r == spec_is_control(method@, path@),
{
    text::same(method, "POST") && (text::same(path, "/refresh") || text::starts_with(path, "/zone/")
        || text::starts_with(path, "/zones/") || text::starts_with(path, "/ac/"))
}

/// The client's address for the log: a dash where it is not known.
pub fn request_ip(ip: &Option<String>) -> (r: String)
    ensures
        r@ == match ip {
            Some(ip) => ip@,
            None => "-"@,
        },
{
    match ip {
        Some(ip) => ip.as_str().to_owned(),
        None => "-".to_owned(),
    }
}

/// A request as it came in.
pub struct Received {
    /// The client's address, where it is known.
    pub ip: Option<String>,
    pub method: String,
    pub path: String,
    /// The body of a control request, where it could be read within the limit; that of
    /// another request is not read for the log.
    pub body: Option<Vec<u8>>,
}

impl Received {
    /// Whether the request controls something.
    pub open spec fn spec_control(&self) -> bool {
        spec_is_control(self.method@, self.path@)
    }

    /// The body that the handler of a control request gets: the one that was read, or
    /// an empty one where it was too long or could not be read.
    pub open spec fn spec_kept_body(&self) -> Seq<u8> {
        match self.body {
            Some(body) => body@,
            None => Seq::empty(),
        }
    }

    /// The body that the handler of a control request gets: the one that was read, or
    /// an empty one where it was too long or could not be read.
    pub fn kept_body(&self) -> (r: Vec<u8>)
        ensures
            r@ == self.spec_kept_body(),
    {
        let mut out: Vec<u8> = Vec::new();
        if let Some(body) = &self.body {
            for i in 0..body.len()
                invariant
                    out@ == body@.take(i as int),
            {
                out.push(body[i]);
                assert(body@.take(i + 1) =~= body@.take(i as int).push(body@[i as int]));
            }
            assert(body@.take(body@.len() as int) =~= body@);
        }
        out
    }
}

/// The line about a request and its outcome: an interaction with its action, the raw
/// form body; any other request without.
pub open spec fn spec_log_line(
    req: Received,
    status: Seq<char>,
    duration: Seq<char>,
) -> Seq<char> {
    let ip = match req.ip {
        Some(ip) => ip@,
        None => "-"@,
    };
    let outcome = " -> "@ + status + " ("@ + duration + ")"@;
    let request = "ip="@ + ip + " "@ + req.method@ + " "@ + req.path@;
    if req.spec_control() {
        "interaction "@ + request + " action=Some("@ + debug_text(text_of(req.spec_kept_body()))
            + ")"@ + outcome
    } else {
        "request "@ + request + outcome
    }
}

/// The line about a request and its outcome, and how loud it is: a control interaction
/// is logged at `info` with its action, any other request at `debug`.
pub fn request_log(req: &Received, status: &str, duration: &str) -> (r: (LogLevel, String))
    ensures
        r.0 == (if req.spec_control() {
            LogLevel::Info
        } else {
            LogLevel::Debug
        }),
        r.1@ == spec_log_line(*req, status@, duration@),
{
    let mut request = "ip=".to_owned();
    request.append(request_ip(&req.ip).as_str());
    request.append(" ");
    request.append(req.method.as_str());
    request.append(" ");
    request.append(req.path.as_str());
    let mut outcome = " -> ".to_owned();
    outcome.append(status);
    outcome.append(" (");
    outcome.append(duration);
    outcome.append(")");
    if is_control(req.method.as_str(), req.path.as_str()) {
        let action = decode_lossy(req.kept_body().as_slice());
        let mut line = "interaction ".to_owned();
        line.append(request.as_str());
        line.append(" action=Some(");
        line.append(quoted(action.as_str()).as_str());
        line.append(")");
        line.append(outcome.as_str());
        (LogLevel::Info, line)
    } else {
        let mut line = "request ".to_owned();
        line.append(request.as_str());
        line.append(outcome.as_str());
        (LogLevel::Debug, line)
    }
}

} // verus!
