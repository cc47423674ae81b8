//! The proxy fetcher's decisions. The outbound request itself is made by
//! the caller; this module says whether it may be made at all and what its
//! outcome amounts to.

use vstd::prelude::*;
use crate::sniff::{admits, classify_for, kind_for, sniff, sniff_of, Category, MediaKind, Sniff, SniffView};
use crate::text::{has_run, str_contains};

verus! {

/// Why a proxy fetch failed.
#[derive(Clone, Copy, Debug, PartialEq, Eq, Structural)]
pub enum ProxyError {
    /// The target is this service itself.
    SelfReference,
    /// The remote host could not be reached or did not answer in time.
    Unreachable,
    /// The remote host answered with a status that is not a success.
    UpstreamStatus(u16),
    /// The remote body is longer than the fetcher accepts.
    TooLarge,
    /// The remote body is not media of the wanted category.
    NotMedia,
}

/// What came of one outbound request.
#[derive(Debug)]
pub enum FetchOutcome {
    /// No response: DNS, connection or timeout failure.
    Unreachable,
    /// A response with its status code and full body.
    Response { status: u16, body: Vec<u8> },
}

/// A validated remote payload.
#[derive(Debug)]
pub struct Fetched {
    pub bytes: Vec<u8>,
    pub kind: MediaKind,
}

/// The target names this service: the domain occurs in the URL.
pub open spec fn self_referential(url: Seq<char>, domain: Seq<char>) -> bool {
    has_run(url, domain)
}

/// An HTTP status code that reports success.
pub open spec fn success_status(status: u16) -> bool {
    200 <= status <= 299
}

/// What a response with `status`, a body of `len` bytes and the body's
/// signature report `s` amounts to, for a fetcher that accepts `max_bytes`
/// of `category`: the first failing check, if any.
pub open spec fn verdict(
    status: u16,
    len: nat,
    s: SniffView,
    category: Category,
    max_bytes: nat,
) -> Option<ProxyError> {
    if !success_status(status) {
        Some(ProxyError::UpstreamStatus(status))
    } else if len > max_bytes {
        Some(ProxyError::TooLarge)
    } else if !admits(s, category) {
        Some(ProxyError::NotMedia)
    } else {
        None
    }
}

/// A URL that holds the domain anywhere, as its host or otherwise, is
/// self-referential.
pub proof fn lemma_domain_inside_is_self_reference(
    before: Seq<char>,
    domain: Seq<char>,
    after: Seq<char>,
)
    ensures
        self_referential(before + domain + after, domain),
{
    let url = before + domain + after;
    assert(url.subrange(before.len() as int, (before.len() + domain.len()) as int) =~= domain);
    assert(crate::text::occurs_at(url, domain, before.len() as int));
}

/// A response is passed on only if its status is a success, its body fits
/// and the body is media of the wanted category.
pub proof fn lemma_verdict_passes(
    status: u16,
    len: nat,
    s: SniffView,
    category: Category,
    max_bytes: nat,
)
    ensures
        verdict(status, len, s, category, max_bytes).is_none() <==> success_status(status) && len
            <= max_bytes && admits(s, category),
{
}

/// Decides whether `url` may be fetched by a service known as `domain`.
/// A self-referential target is refused here, before any request exists.
pub fn check_target(url: &str, domain: &str) -> (checked: Result<(), ProxyError>)
    ensures
        checked.is_err() == self_referential(url@, domain@),
        checked matches Err(e) ==> e == ProxyError::SelfReference,
{
    if str_contains(url, domain) {
        Err(ProxyError::SelfReference)
    } else {
        Ok(())
    }
}

/// Reading a body goes on while what has been read does not yet exceed the
/// bound: a body over the bound is thus known to be over it without being
/// read whole.
pub open spec fn reads_on(read: nat, max_bytes: nat) -> bool {
    read <= max_bytes
}

/// Decides, after `read` bytes of a body, whether to read another chunk.
pub fn wants_more(read: usize, max_bytes: usize) -> (more: bool)
    ensures
        more == reads_on(read as nat, max_bytes as nat),
{
    read <= max_bytes
}

/// A body whose reading was stopped by the bound is turned down as too
/// large, unless its status has already failed it.
pub proof fn lemma_stopped_body_is_too_large(
    status: u16,
    read: nat,
    s: SniffView,
    category: Category,
    max_bytes: nat,
)
    requires
        !reads_on(read, max_bytes),
    ensures
        verdict(status, read, s, category, max_bytes) == Some(
            if success_status(status) {
                ProxyError::TooLarge
            } else {
                ProxyError::UpstreamStatus(status)
            },
        ),
{
}

/// Whether a status code reports success.
pub fn is_success(status: u16) -> (ok: bool)
    ensures
        ok == success_status(status),
{
    200 <= status && status <= 299
}

/// Judges a response whose body has already been sniffed.
pub fn judge_response(
    status: u16,
    body: Vec<u8>,
    report: &Sniff,
    category: Category,
    max_bytes: usize,
) -> (judged: Result<Fetched, ProxyError>)
    ensures
        match judged {
            Ok(f) => {
                &&& verdict(status, body@.len(), report@, category, max_bytes as nat).is_none()
                &&& f.bytes@ == body@
                &&& Some(f.kind@) == kind_for(report@, category)
            },
            Err(e) => verdict(status, body@.len(), report@, category, max_bytes as nat) == Some(e),
        },
{
    if !is_success(status) {
        return Err(ProxyError::UpstreamStatus(status));
    }
    if body.len() > max_bytes {
        return Err(ProxyError::TooLarge);
    }
    match classify_for(report, category) {
        Some(kind) => Ok(Fetched { bytes: body, kind }),
        None => Err(ProxyError::NotMedia),
    }
}

/// What the outcome of a request amounts to, given the signature report
/// of the body where there is one.
pub open spec fn settled(
    outcome: FetchOutcome,
    category: Category,
    max_bytes: nat,
) -> Option<ProxyError> {
    match outcome {
        FetchOutcome::Unreachable => Some(ProxyError::Unreachable),
        FetchOutcome::Response { status, body } => verdict(
            status,
            body@.len(),
            sniff_of(body@),
            category,
            max_bytes,
        ),
    }
}

/// Turns the outcome of the outbound request into validated bytes or the
/// error that describes the first check it failed.
pub fn settle(outcome: FetchOutcome, category: Category, max_bytes: usize) -> (settled: Result<
    Fetched,
    ProxyError,
>)
    ensures
        match settled {
            Ok(f) => {
                &&& self::settled(outcome, category, max_bytes as nat).is_none()
                &&& outcome matches FetchOutcome::Response { status, body }
                &&& f.bytes@ == body@
                &&& Some(f.kind@) == kind_for(sniff_of(body@), category)
            },
            Err(e) => self::settled(outcome, category, max_bytes as nat) == Some(e),
        },
{
    match outcome {
        FetchOutcome::Unreachable => Err(ProxyError::Unreachable),
        FetchOutcome::Response { status, body } => {
            let report = sniff(body.as_slice());
            judge_response(status, body, &report, category, max_bytes)
        },
    }
}

} // verus!
