use vstd::prelude::*;
use vstd::string::*;

use crate::bcp::COLLATION_PATTERN;

verus! {

/// `text` with every non-overlapping match of `pattern` replaced by
/// `replacement`, named groups (`$name`) expanded.
pub uninterp spec fn regex_replaced(
    pattern: Seq<char>,
    text: Seq<char>,
    replacement: Seq<char>,
) -> Seq<char>;

/// The library's own patterns, each valid regular expression syntax.
pub open spec fn known_pattern(pattern: Seq<char>) -> bool {
    pattern == PASSWORD_PATTERN@ || pattern == COLLATION_PATTERN@
}

/// Relies on `regex::Regex::new`, which compiles each of the library's
/// patterns (valid syntax, far below the size limit), and on
/// `regex::Regex::replace_all`, whose rewritten text depends on the
/// pattern, the text and the replacement alone.
#[verifier::external_body]
pub(crate) fn replace_all_matches(pattern: &str, text: &str, replacement: &str) -> (r: String)
    requires
        known_pattern(pattern@),
    ensures
        r@ == regex_replaced(pattern@, text@, replacement@),
{
    regex::Regex::new(pattern).expect("the library's patterns compile").replace_all(
        text,
        replacement,
    ).into_owned()
}

/// Matches the value that follows a `-P` flag in a quoted argument list.
pub const PASSWORD_PATTERN: &'static str = "(?P<pre>,\\s\"-P\",\\s\")(.+)(?P<post>\"])";

/// Keeps the text around the password and masks the password itself.
pub const PASSWORD_MASK: &'static str = "$pre******$post";

/// What `from_bcp_error` makes of a message that may hold a password.
pub open spec fn bcp_error_message(prefix: Seq<char>, msg: Seq<char>) -> Seq<char> {
    prefix + ": "@ + regex_replaced(PASSWORD_PATTERN@, msg, PASSWORD_MASK@)
}

/// An error of any step of a transfer, carried as one human readable line.
#[derive(Clone, Debug)]
pub struct TransferError {
    pub message: String,
}

impl View for TransferError {
    type V = Seq<char>;

    open spec fn view(&self) -> Seq<char> {
        self.message@
    }
}

impl TransferError {
    /// An error whose message is what `e` displays.
    pub fn new<E: std::fmt::Display>(e: &E) -> (r: Self)
        ensures
            to_string_from_display_ensures::<E>(e, r.message),
    {
        TransferError { message: e.to_string() }
    }

    pub fn from_string(message: String) -> (r: Self)
        ensures
            r@ == message@,
    {
        TransferError { message }
    }

    pub fn from_str(message: &str) -> (r: Self)
        ensures
            r@ == message@,
    {
        TransferError { message: String::from_str(message) }
    }

    /// An error of the bulk-copy utility, whose message may quote the
    /// command line: the password after `-P` is masked.
    pub fn from_bcp_error(prefix: &str, msg_with_password: String) -> (r: Self)
        ensures
            r@ == bcp_error_message(prefix@, msg_with_password@),
    {
        let masked = replace_all_matches(PASSWORD_PATTERN, msg_with_password.as_str(), PASSWORD_MASK);
        Self::from_masked(prefix, masked)
    }

    /// The error of the bulk-copy utility once its message went through the
    /// password mask: the prefix, then the masked message.
    pub fn from_masked(prefix: &str, masked: String) -> (r: Self)
        ensures
            r@ == prefix@ + ": "@ + masked@,
    {
        TransferError { message: String::from_str(prefix).concat(": ").concat(masked.as_str()) }
    }

    /// The message of this error.
    pub fn to_string(&self) -> (r: String)
        ensures
            r@ == self@,
    {
        self.message.clone()
    }
}

} // verus!
