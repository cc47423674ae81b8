//! Proxy-embed: fetching a remote image on the caller's behalf, so that the
//! remote host only ever sees this service. The request itself is made by
//! whoever drives [`embed_external`]; every decision is made here.

use vstd::prelude::*;
use crate::config::{limit_of, Config};
use crate::error::{of_proxy, ServiceError};
use crate::proxy::{check_target, self_referential, settle, settled, FetchOutcome, ProxyError};
use crate::name::{hyphenated_id, joined, safe_extension};
use crate::pipeline::keep;
use crate::reply::{envelope_of, json_text, link_of, Accepted, Served, PROXY_MAX_AGE};
use crate::sniff::{kind_for, sniff_of, Category};
use crate::store::{read, written, AssetStore, StoreError};

verus! {

/// How long, in seconds, the outbound request may take.
pub const FETCH_TIMEOUT_SECONDS: u64 = 10;

/// An outbound request that may be made.
#[derive(Debug)]
pub struct FetchRequest {
    /// The URL to send a GET to.
    pub url: String,
    /// The request is given up after this many seconds.
    pub timeout_seconds: u64,
    /// No more than this many bytes of the body are to be read.
    pub max_bytes: usize,
}

/// Where one proxy-embed request stands.
#[derive(Clone, Copy, Debug, PartialEq, Eq, Structural)]
pub enum EmbedState {
    /// Nothing has happened yet.
    Idle,
    /// The outbound request is under way.
    Fetching,
    /// The request has been answered.
    Done,
}

/// What happened to a proxy-embed request.
#[derive(Debug)]
pub enum EmbedEvent {
    /// A caller asked for `url` to be embedded.
    Asked { url: String },
    /// The outbound request ended.
    Fetched(FetchOutcome),
}

/// What to do next for a proxy-embed request.
#[derive(Debug)]
pub enum EmbedAction {
    /// Make this outbound request and report its outcome.
    Fetch(FetchRequest),
    /// Answer the caller.
    Reply(Result<Served, ServiceError>),
    /// The event does not belong to this state: do nothing.
    Ignore,
}

/// Decides whether a request to embed `url` may go out, and with which
/// bounds. A URL that names this service's own domain is refused without
/// any request being made.
pub fn begin_embed(url: &str, config: &Config) -> (begun: Result<FetchRequest, ServiceError>)
    ensures
        begun.is_err() == self_referential(url@, config.domain@),
        match begun {
            Ok(request) => {
                &&& request.url@ == url@
                &&& request.timeout_seconds == FETCH_TIMEOUT_SECONDS
                &&& request.max_bytes == limit_of(config.max_image_size as nat)
            },
            Err(e) => e == ServiceError::SelfReference,
        },
{
    match check_target(url, config.domain.as_str()) {
        Ok(()) => Ok(
            FetchRequest {
                url: String::from_str(url),
                timeout_seconds: FETCH_TIMEOUT_SECONDS,
                max_bytes: config.body_limit(Category::Image),
            },
        ),
        Err(e) => Err(ServiceError::from_proxy(e, Category::Image)),
    }
}

/// Turns the outcome of the outbound request into the answer: the remote
/// bytes with their sniffed content type and a day of caching, or the
/// error of the first check the outcome failed.
pub fn finish_embed(outcome: FetchOutcome, config: &Config) -> (done: Result<Served, ServiceError>)
    ensures
        match done {
            Ok(s) => {
                &&& settled(outcome, Category::Image, limit_of(config.max_image_size as nat)).is_none()
                &&& outcome matches FetchOutcome::Response { status, body }
                &&& s.bytes@ == body@
                &&& s.content_type@ == kind_for(sniff_of(body@), Category::Image).unwrap().mime
                &&& s.max_age == Some(PROXY_MAX_AGE)
            },
            Err(e) => {
                &&& settled(outcome, Category::Image, limit_of(config.max_image_size as nat)) matches Some(p)
                &&& e == of_proxy(p, Category::Image)
            },
        },
{
    match settle(outcome, Category::Image, config.body_limit(Category::Image)) {
        Ok(f) => Ok(
            Served { bytes: f.bytes, content_type: f.kind.mime, max_age: Some(PROXY_MAX_AGE) },
        ),
        Err(e) => Err(ServiceError::from_proxy(e, Category::Image)),
    }
}

/// An outcome that ends in a stored asset: it passes every check of the
/// fetcher and the sniffed extension is safe to name a file with.
pub open spec fn stored_outcome(outcome: FetchOutcome, max_bytes: nat) -> bool {
    &&& settled(outcome, Category::Image, max_bytes).is_none()
    &&& outcome matches FetchOutcome::Response { status, body }
    &&& safe_extension(kind_for(sniff_of(body@), Category::Image).unwrap().extension)
}

/// Turns the outcome of the outbound request into a stored asset and the
/// link that points at it, so that the remote resource is fetched once and
/// served from here afterwards. On failure nothing is stored.
pub fn embed_and_store(store: &mut AssetStore, outcome: FetchOutcome, config: &Config) -> (done:
    Result<Accepted, ServiceError>)
    ensures
        done.is_ok() == stored_outcome(outcome, limit_of(config.max_image_size as nat)),
        match done {
            Ok(a) => {
                &&& outcome matches FetchOutcome::Response { status, body }
                &&& exists|id: Seq<char>|
                    hyphenated_id(id) && a.name@ == joined(
                        id,
                        kind_for(sniff_of(body@), Category::Image).unwrap().extension,
                    )
                &&& final(store)@ == written(old(store)@, a.name@, body@)
                &&& read(final(store)@, a.name@) == Ok::<Seq<u8>, StoreError>(body@)
                &&& a.link@ == link_of(config.protocol@, config.domain@, Category::Image, a.name@)
                &&& a.body@ == envelope_of(json_text(a.link@))
            },
            Err(e) => {
                &&& final(store)@ == old(store)@
                &&& match settled(outcome, Category::Image, limit_of(config.max_image_size as nat)) {
                    Some(p) => e == of_proxy(p, Category::Image),
                    None => e == ServiceError::Storage,
                }
            },
        },
{
    match settle(outcome, Category::Image, config.body_limit(Category::Image)) {
        Ok(f) => keep(
            store,
            f.bytes.as_slice(),
            f.kind.extension.as_str(),
            Category::Image,
            config,
        ),
        Err(e) => Err(ServiceError::from_proxy(e, Category::Image)),
    }
}

/// One step of a proxy-embed request: from the state it stands in and the
/// event that arrived to the state it moves to and the action to take.
///
/// An idle request that is asked for a URL either starts fetching or, for a
/// self-referential URL, is answered at once. A fetching request that learns
/// the outcome is answered. Any other event is ignored.
pub fn embed_external(state: EmbedState, event: EmbedEvent, config: &Config) -> (step: (
    EmbedState,
    EmbedAction,
))
    ensures
        match (state, event) {
            (EmbedState::Idle, EmbedEvent::Asked { url }) => {
                if self_referential(url@, config.domain@) {
                    &&& step.0 == EmbedState::Done
                    &&& step.1 matches EmbedAction::Reply(Err(e))
                    &&& e == ServiceError::SelfReference
                } else {
                    &&& step.0 == EmbedState::Fetching
                    &&& step.1 matches EmbedAction::Fetch(request)
                    &&& request.url@ == url@
                    &&& request.timeout_seconds == FETCH_TIMEOUT_SECONDS
                    &&& request.max_bytes == limit_of(config.max_image_size as nat)
                }
            },
            (EmbedState::Fetching, EmbedEvent::Fetched(outcome)) => {
                &&& step.0 == EmbedState::Done
                &&& step.1 matches EmbedAction::Reply(reply)
                &&& match reply {
                    Ok(s) => {
                        &&& settled(
                            outcome,
                            Category::Image,
                            limit_of(config.max_image_size as nat),
                        ).is_none()
                        &&& outcome matches FetchOutcome::Response { status, body }
                        &&& s.bytes@ == body@
                        &&& s.content_type@ == kind_for(
                            sniff_of(body@),
                            Category::Image,
                        ).unwrap().mime
                        &&& s.max_age == Some(PROXY_MAX_AGE)
                    },
                    Err(e) => {
                        &&& settled(outcome, Category::Image, limit_of(config.max_image_size as nat))
                            matches Some(p)
                        &&& e == of_proxy(p, Category::Image)
                    },
                }
            },
            _ => step.0 == state && step.1 is Ignore,
        },
{
    match state {
        EmbedState::Idle => match event {
            EmbedEvent::Asked { url } => match begin_embed(url.as_str(), config) {
                Ok(request) => (EmbedState::Fetching, EmbedAction::Fetch(request)),
                Err(e) => (EmbedState::Done, EmbedAction::Reply(Err(e))),
            },
            EmbedEvent::Fetched(_) => (state, EmbedAction::Ignore),
        },
        EmbedState::Fetching => match event {
            EmbedEvent::Fetched(outcome) => (
                EmbedState::Done,
                EmbedAction::Reply(finish_embed(outcome, config)),
            ),
            EmbedEvent::Asked { .. } => (state, EmbedAction::Ignore),
        },
        EmbedState::Done => (state, EmbedAction::Ignore),
    }
}

} // verus!
