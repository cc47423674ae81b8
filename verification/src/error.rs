//! The errors a request can end in, the HTTP status each maps to and the
//! text shown to the caller.

use vstd::prelude::*;
use crate::proxy::ProxyError;
use crate::sniff::Category;
use crate::store::StoreError;

verus! {

/// Why a request was turned down.
#[derive(Clone, Copy, Debug, PartialEq, Eq, Structural)]
pub enum ServiceError {
    /// An upload is not media of the endpoint's category.
    NotMedia(Category),
    /// An upload is longer than the endpoint's body limit.
    TooLarge,
    /// A requested name is not a safe name.
    InvalidName,
    /// A proxy target names this service itself.
    SelfReference,
    /// A proxy target could not be reached.
    Unreachable,
    /// A proxy target answered with a failure status.
    UpstreamStatus(u16),
    /// A proxy target sent more than the fetcher accepts.
    UpstreamTooLarge,
    /// A proxy target sent something that is not media of the category.
    UpstreamNotMedia(Category),
    /// No asset is stored under the requested name.
    NotFound,
    /// The store could not complete a write or read.
    Storage,
}

/// Why a stored payload could not be read.
#[derive(Clone, Copy, Debug, PartialEq, Eq, Structural)]
pub enum ReadFailure {
    /// Nothing is stored under the name.
    Missing,
    /// The read failed for any other reason.
    Other,
}

/// The character of one decimal digit.
pub open spec fn digit_char(d: nat) -> char {
    if d == 0 {
        '0'
    } else if d == 1 {
        '1'
    } else if d == 2 {
        '2'
    } else if d == 3 {
        '3'
    } else if d == 4 {
        '4'
    } else if d == 5 {
        '5'
    } else if d == 6 {
        '6'
    } else if d == 7 {
        '7'
    } else if d == 8 {
        '8'
    } else {
        '9'
    }
}

/// A number in decimal, without leading zeros.
pub open spec fn decimal(n: nat) -> Seq<char>
    decreases n,
{
    if n < 10 {
        seq![digit_char(n)]
    } else {
        decimal(n / 10).push(digit_char(n % 10))
    }
}

/// A valid HTTP status code as its number, a space and its reason phrase,
/// such as `404 Not Found`.
pub uninterp spec fn status_line(code: u16) -> Seq<char>;

/// A status code that the HTTP status type accepts.
pub open spec fn valid_status(code: u16) -> bool {
    100 <= code <= 999
}

/// How a status code is shown: with its reason phrase where it is a valid
/// code, as the bare number where it is not.
pub open spec fn status_text(code: u16) -> Seq<char> {
    if valid_status(code) {
        status_line(code)
    } else {
        decimal(code as nat)
    }
}

/// The text that reports an upstream status shown as `shown`.
pub open spec fn upstream_text(shown: Seq<char>) -> Seq<char> {
    "Target website returned status code "@ + shown + "."@
}

/// The HTTP status that reports `e`.
pub open spec fn status_of(e: ServiceError) -> u16 {
    match e {
        ServiceError::NotMedia(_) => 400,
        ServiceError::TooLarge => 409,
        ServiceError::InvalidName => 400,
        ServiceError::SelfReference => 400,
        ServiceError::Unreachable => 400,
        ServiceError::UpstreamStatus(_) => 400,
        ServiceError::UpstreamTooLarge => 400,
        ServiceError::UpstreamNotMedia(_) => 400,
        ServiceError::NotFound => 404,
        ServiceError::Storage => 500,
    }
}

/// The text that reports `e` to the caller.
pub open spec fn text_of(e: ServiceError) -> Seq<char> {
    match e {
        ServiceError::NotMedia(Category::Image) => "The provided data wasn't an image."@,
        ServiceError::NotMedia(Category::Audio) => "The provided data wasn't an audio format."@,
        ServiceError::TooLarge => "The provided data is too large."@,
        ServiceError::InvalidName => "The requested name is not valid."@,
        ServiceError::SelfReference => "Can't try to use local images as external."@,
        ServiceError::Unreachable => "The specified website failed to respond."@,
        ServiceError::UpstreamStatus(code) => upstream_text(status_text(code)),
        ServiceError::UpstreamTooLarge => "The target website returned too much data."@,
        ServiceError::UpstreamNotMedia(Category::Image) =>
            "The target website didn't return an image."@,
        ServiceError::UpstreamNotMedia(Category::Audio) =>
            "The target website didn't return an audio format."@,
        ServiceError::NotFound => "No such file."@,
        ServiceError::Storage => "Server failed to make file"@,
    }
}

/// The service error that stands for a proxy error on the endpoint of
/// `category`.
pub open spec fn of_proxy(e: ProxyError, category: Category) -> ServiceError {
    match e {
        ProxyError::SelfReference => ServiceError::SelfReference,
        ProxyError::Unreachable => ServiceError::Unreachable,
        ProxyError::UpstreamStatus(code) => ServiceError::UpstreamStatus(code),
        ProxyError::TooLarge => ServiceError::UpstreamTooLarge,
        ProxyError::NotMedia => ServiceError::UpstreamNotMedia(category),
    }
}

/// The service error that stands for a failed read: a missing asset is
/// the caller's concern, any other failure the server's.
pub open spec fn of_read(f: ReadFailure) -> ServiceError {
    match f {
        ReadFailure::Missing => ServiceError::NotFound,
        ReadFailure::Other => ServiceError::Storage,
    }
}

/// The service error that stands for a store error.
pub open spec fn of_store(e: StoreError) -> ServiceError {
    match e {
        StoreError::InvalidName => ServiceError::InvalidName,
        StoreError::NotFound => ServiceError::NotFound,
    }
}

/// Every error is reported as a client or server failure, and only a
/// storage failure is the server's.
pub proof fn lemma_status_classes(e: ServiceError)
    ensures
        400 <= status_of(e) <= 599,
        status_of(e) >= 500 <==> e == ServiceError::Storage,
        status_of(e) == 404 <==> e == ServiceError::NotFound,
{
}

/// The text of one decimal digit.
fn digit_text(d: u16) -> (text: &'static str)
    requires
        d < 10,
    ensures
        text@ == seq![digit_char(d as nat)],
{
    proof {
        reveal_strlit("0");
        reveal_strlit("1");
        reveal_strlit("2");
        reveal_strlit("3");
        reveal_strlit("4");
        reveal_strlit("5");
        reveal_strlit("6");
        reveal_strlit("7");
        reveal_strlit("8");
        reveal_strlit("9");
    }
    let text = if d == 0 {
        "0"
    } else if d == 1 {
        "1"
    } else if d == 2 {
        "2"
    } else if d == 3 {
        "3"
    } else if d == 4 {
        "4"
    } else if d == 5 {
        "5"
    } else if d == 6 {
        "6"
    } else if d == 7 {
        "7"
    } else if d == 8 {
        "8"
    } else {
        "9"
    };
    proof {
        assert(text@ =~= seq![digit_char(d as nat)]);
    }
    text
}

/// Writes a number in decimal.
pub fn to_decimal(n: u16) -> (text: String)
    ensures
        text@ == decimal(n as nat),
    decreases n,
{
    if n < 10 {
        String::from_str(digit_text(n))
    } else {
        let head = to_decimal(n / 10);
        let text = head.concat(digit_text(n % 10));
        proof {
            assert(text@ =~= decimal(n as nat));
        }
        text
    }
}

/// Calls `reqwest::StatusCode::from_u16` and writes the status with its
/// `Display` impl. Trusted: the conversion succeeds exactly on codes from
/// 100 to 999, and the text is the number, a space and the canonical reason
/// phrase, a function of the code alone, named [`status_line`].
#[verifier::external_body]
fn describe_status(code: u16) -> (line: Option<String>)
    ensures
        line.is_some() == valid_status(code),
        line matches Some(t) ==> t@ == status_line(code),
{
    match reqwest::StatusCode::from_u16(code) {
        Ok(status) => Some(status.to_string()),
        Err(_) => None,
    }
}

/// Shows a status code: with its reason phrase where it is a valid code, as
/// the bare number where it is not.
pub fn show_status(code: u16) -> (shown: String)
    ensures
        shown@ == status_text(code),
{
    match describe_status(code) {
        Some(line) => line,
        None => to_decimal(code),
    }
}

/// Builds the text that reports an upstream status from the shown status.
pub fn upstream_message(shown: &str) -> (text: String)
    ensures
        text@ == upstream_text(shown@),
{
    String::from_str("Target website returned status code ").concat(shown).concat(".")
}

impl ServiceError {
    /// The error that stands for a failed read.
    pub fn from_read(f: ReadFailure) -> (err: ServiceError)
        ensures
            err == of_read(f),
    {
        match f {
            ReadFailure::Missing => ServiceError::NotFound,
            ReadFailure::Other => ServiceError::Storage,
        }
    }

    /// The error that stands for a proxy error on the endpoint of
    /// `category`.
    pub fn from_proxy(e: ProxyError, category: Category) -> (err: ServiceError)
        ensures
            err == of_proxy(e, category),
    {
        match e {
            ProxyError::SelfReference => ServiceError::SelfReference,
            ProxyError::Unreachable => ServiceError::Unreachable,
            ProxyError::UpstreamStatus(code) => ServiceError::UpstreamStatus(code),
            ProxyError::TooLarge => ServiceError::UpstreamTooLarge,
            ProxyError::NotMedia => ServiceError::UpstreamNotMedia(category),
        }
    }

    /// The error that stands for a store error.
    pub fn from_store(e: StoreError) -> (err: ServiceError)
        ensures
            err == of_store(e),
    {
        match e {
            StoreError::InvalidName => ServiceError::InvalidName,
            StoreError::NotFound => ServiceError::NotFound,
        }
    }

    /// The HTTP status that reports this error.
    pub fn status_code(&self) -> (code: u16)
        ensures
            code == status_of(*self),
    {
        match self {
            ServiceError::NotMedia(_) => 400,
            ServiceError::TooLarge => 409,
            ServiceError::InvalidName => 400,
            ServiceError::SelfReference => 400,
            ServiceError::Unreachable => 400,
            ServiceError::UpstreamStatus(_) => 400,
            ServiceError::UpstreamTooLarge => 400,
            ServiceError::UpstreamNotMedia(_) => 400,
            ServiceError::NotFound => 404,
            ServiceError::Storage => 500,
        }
    }

    /// The text that reports this error to the caller. It never carries a
    /// path or a system error.
    pub fn message(&self) -> (text: String)
        ensures
            text@ == text_of(*self),
    {
        match self {
            ServiceError::NotMedia(Category::Image) => String::from_str(
                "The provided data wasn't an image.",
            ),
            ServiceError::NotMedia(Category::Audio) => String::from_str(
                "The provided data wasn't an audio format.",
            ),
            ServiceError::TooLarge => String::from_str("The provided data is too large."),
            ServiceError::InvalidName => String::from_str("The requested name is not valid."),
            ServiceError::SelfReference => String::from_str(
                "Can't try to use local images as external.",
            ),
            ServiceError::Unreachable => String::from_str(
                "The specified website failed to respond.",
            ),
            ServiceError::UpstreamStatus(code) => {
                let shown = show_status(*code);
                upstream_message(shown.as_str())
            },
            ServiceError::UpstreamTooLarge => String::from_str(
                "The target website returned too much data.",
            ),
            ServiceError::UpstreamNotMedia(Category::Image) => String::from_str(
                "The target website didn't return an image.",
            ),
            ServiceError::UpstreamNotMedia(Category::Audio) => String::from_str(
                "The target website didn't return an audio format.",
            ),
            ServiceError::NotFound => String::from_str("No such file."),
            ServiceError::Storage => String::from_str("Server failed to make file"),
        }
    }
}

} // verus!
