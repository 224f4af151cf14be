//! What is logged of a request, by what came in.

use vstd::prelude::*;
use crate::listener::event::text_of;
use crate::web::error::debug_text;
use crate::web::log::{
    is_control, request_ip, request_log, spec_is_control, LogLevel, Received, LOG_BODY_LIMIT,
};

verus! {

/// Whether a method and a path are those of a control request: a post to the refresh,
/// or below a zone, all zones or an AC unit.
pub open spec fn controls(method: Seq<char>, path: Seq<char>) -> bool {
    &&& method == "POST"@
    &&& {
        ||| path == "/refresh"@
        ||| path.len() >= 6 && path.take(6) == "/zone/"@
        ||| path.len() >= 7 && path.take(7) == "/zones/"@
        ||| path.len() >= 4 && path.take(4) == "/ac/"@
    }
}

/// A prefix is what a text starts with.
proof fn lemma_prefix(s: Seq<char>, prefix: Seq<char>)
    ensures
        prefix.is_prefix_of(s) <==> s.len() >= prefix.len() && s.take(prefix.len() as int)
            == prefix,
{
    if s.len() >= prefix.len() {
        assert(s.subrange(0, prefix.len() as int) =~= s.take(prefix.len() as int));
    }
}

/// The prefixes of control paths.
proof fn lemma_controls(method: Seq<char>, path: Seq<char>)
    ensures
        spec_is_control(method, path) <==> controls(method, path),
{
    reveal_strlit("/zone/");
    reveal_strlit("/zones/");
    reveal_strlit("/ac/");
    lemma_prefix(path, "/zone/"@);
    lemma_prefix(path, "/zones/"@);
    lemma_prefix(path, "/ac/"@);
}

/// A request controls something exactly where it posts to one of the control paths.
pub proof fn law_is_control(method: &str, path: &str, r: bool)
    requires
        call_ensures(is_control, (method, path), r),
    ensures
        r <==> controls(method@, path@),
{
    lemma_controls(method@, path@);
}

/// A client that is not known is a dash in the log.
pub proof fn law_request_ip(ip: Option<String>, r: String)
    requires
        call_ensures(request_ip, (&ip,), r),
    ensures
        ip is Some ==> r@ == ip->0@,
        ip is None ==> r@ == "-"@,
{
}

/// The handler gets the body that was read, byte for byte, or an empty one.
pub proof fn law_kept_body(req: Received, r: Vec<u8>)
    requires
        call_ensures(Received::kept_body, (&req,), r),
    ensures
        req.body is Some ==> r@ == req.body->0@,
        req.body is None ==> r@.len() == 0,
{
}

/// A control request is logged aloud, with what its body says; any other quietly and
/// without. Each line has the client, the method, the path, the status and the duration.
pub proof fn law_request_log(req: Received, status: &str, duration: &str, r: (LogLevel, String))
    requires
        call_ensures(request_log, (&req, status, duration), r),
    ensures
        ({
            let ip = if req.ip is Some {
                req.ip->0@
            } else {
                "-"@
            };
            let body: Seq<u8> = if req.body is Some {
                req.body->0@
            } else {
                Seq::empty()
            };
            let request = "ip="@ + ip + " "@ + req.method@ + " "@ + req.path@;
            let outcome = " -> "@ + status@ + " ("@ + duration@ + ")"@;
            &&& controls(req.method@, req.path@) ==> r.0 == LogLevel::Info && r.1@
                == "interaction "@ + request + " action=Some("@ + debug_text(text_of(body)) + ")"@
                + outcome
            &&& !controls(req.method@, req.path@) ==> r.0 == LogLevel::Debug && r.1@ == "request "@
                + request + outcome
        }),
{
    lemma_controls(req.method@, req.path@);
}

/// A body is kept for the log up to a mebibyte.
pub proof fn law_body_limit()
    ensures
        LOG_BODY_LIMIT == 1024 * 1024,
{
}

} // verus!
