//! The error that a request is answered with.

use vstd::prelude::*;
use crate::text;

verus! {

/// A refused request: the message shown to the user.
#[derive(Debug, PartialEq, Eq)]
pub struct AppError {
    pub message: String,
}

impl View for AppError {
    type V = Seq<char>;

    open spec fn view(&self) -> Seq<char> {
        self.message@
    }
}

impl AppError {
    /// The error with a message.
    pub fn msg(message: &str) -> (r: AppError)
        ensures
            r@ == message@,
    {
        AppError { message: message.to_owned() }
    }

    /// The HTTP status that a refused request is answered with: the request was
    /// understood and cannot be carried out.
    pub fn status(&self) -> (r: u16)
        ensures
            r == 422,
    {
        422
    }
}

/// How the standard library's `Debug` shows a string: between double quotes,
/// with escapes.
pub uninterp spec fn debug_text(s: Seq<char>) -> Seq<char>;

/// Calls `format!` with the `Debug` form of a string. What it returns is named
/// [`debug_text`] and depends on the string alone; which characters are escaped,
/// and how, is not stated.
#[verifier::external_body]
pub(crate) fn quoted(s: &str) -> (r: String)
    ensures
        r@ == debug_text(s@),
{
    format!("{:?}", s)
}

/// The message about a form value that is not one of those accepted.
pub open spec fn unknown_text(what: Seq<char>, value: Seq<char>) -> Seq<char> {
    "unknown "@ + what + ": "@ + debug_text(value)
}

/// The error about a form value that is not one of those accepted.
pub fn unknown(what: &str, value: &str) -> (r: AppError)
    ensures
        r@ == unknown_text(what@, value@),
{
    let head = text::joined(text::joined("unknown ", what).as_str(), ": ");
    AppError { message: text::joined(head.as_str(), quoted(value).as_str()) }
}

/// The message about an id that the snapshot does not hold.
pub open spec fn missing_text(what: Seq<char>, id: u8) -> Seq<char> {
    what + " "@ + text::spec_decimal(id as nat) + " not found"@
}

/// The error about an id that the snapshot does not hold.
pub fn missing(what: &str, id: u8) -> (r: AppError)
    ensures
        r@ == missing_text(what@, id),
{
    let head = text::joined(text::joined(what, " ").as_str(), text::decimal(id as u64).as_str());
    AppError { message: text::joined(head.as_str(), " not found") }
}

} // verus!
