//! What a successful request answers with: links to stored assets, the JSON
//! envelope around a link, and raw payloads with their content type.

use vstd::prelude::*;
use crate::config::Config;
use crate::error::ServiceError;
use crate::name::AssetName;
use crate::sniff::Category;

verus! {

/// How long, in seconds, a client may keep a proxied payload.
pub const PROXY_MAX_AGE: u32 = 86_400;

/// A payload served as it is.
#[derive(Debug)]
pub struct Served {
    pub bytes: Vec<u8>,
    /// The MIME type of the payload.
    pub content_type: String,
    /// The `max-age` of the `Cache-Control` header, where one is sent.
    pub max_age: Option<u32>,
}

/// The answer to an accepted upload.
#[derive(Debug)]
pub struct Accepted {
    /// The name the asset is stored under.
    pub name: AssetName,
    /// The link the asset can be fetched from.
    pub link: String,
    /// The JSON body that carries the link.
    pub body: String,
}

/// The path under which assets of `category` are fetched, with both
/// slashes.
pub open spec fn route_of(category: Category) -> Seq<char> {
    match category {
        Category::Image => "/v1/image/"@,
        Category::Audio => "/v1/audio/"@,
    }
}

/// The link to the asset `name` of `category` on the service at
/// `protocol://domain`.
pub open spec fn link_of(
    protocol: Seq<char>,
    domain: Seq<char>,
    category: Category,
    name: Seq<char>,
) -> Seq<char> {
    protocol + "://"@ + domain + route_of(category) + name
}

/// The JSON object that carries an already encoded link.
pub open spec fn envelope_of(encoded_link: Seq<char>) -> Seq<char> {
    "{\"data\":{\"link\":"@ + encoded_link + "}}"@
}

/// The MIME type of the envelope.
pub open spec fn json_type() -> Seq<char> {
    "application/json"@
}

/// A text as a JSON string literal: quoted and escaped.
pub uninterp spec fn json_text(text: Seq<char>) -> Seq<char>;

/// Declares `serde_json::Error`, the error of a failed encoding. It is
/// carried as an opaque value and never looked into.
#[verifier::external_type_specification]
#[verifier::external_body]
pub struct ExJsonError(serde_json::Error);

/// Calls `serde_json::to_string` on a string slice. Trusted: the call
/// succeeds, since a string is written into a growing buffer and nothing on
/// that path can fail, and the result is the text's JSON string literal, a
/// function of the text alone, named [`json_text`].
#[verifier::external_body]
fn encode_json_text(text: &str) -> (encoded: Result<String, serde_json::Error>)
    ensures
        encoded.is_ok(),
        encoded matches Ok(s) ==> s@ == json_text(text@),
{
    serde_json::to_string(text)
}

/// Builds the link to a stored asset.
pub fn link_for(config: &Config, category: Category, name: &AssetName) -> (link: String)
    ensures
        link@ == link_of(config.protocol@, config.domain@, category, name@),
{
    let route = match category {
        Category::Image => "/v1/image/",
        Category::Audio => "/v1/audio/",
    };
    config.protocol.clone().concat("://").concat(config.domain.as_str()).concat(route).concat(
        name.as_str(),
    )
}

/// Puts an already encoded link into its JSON envelope.
pub fn frame_envelope(encoded_link: &str) -> (body: String)
    ensures
        body@ == envelope_of(encoded_link@),
{
    String::from_str("{\"data\":{\"link\":").concat(encoded_link).concat("}}")
}

/// The JSON body that carries `link`. Every link has one.
pub fn envelope(link: &str) -> (body: Result<String, ServiceError>)
    ensures
        body.is_ok(),
        body matches Ok(b) ==> b@ == envelope_of(json_text(link@)),
{
    match encode_json_text(link) {
        Ok(encoded) => Ok(frame_envelope(encoded.as_str())),
        Err(_) => Err(ServiceError::Storage),
    }
}

/// The MIME type of the envelope.
pub fn json_content_type() -> (mime: String)
    ensures
        mime@ == json_type(),
{
    String::from_str("application/json")
}

} // verus!
