//! The ingestion pipeline: from received bytes to a stored, named asset and
//! the answer that points at it, and from a name back to the bytes.

use vstd::prelude::*;
use crate::bytes::{field_views, flatten, flatten_fields};
use crate::cached::{cache_after_read, CachedStore};
use crate::config::{limit_of, Config};
use crate::error::{of_read, of_store, ReadFailure, ServiceError};
use crate::name::{hyphenated_id, joined, safe_extension, safe_name, AssetName};
use crate::reply::{envelope, envelope_of, json_text, link_for, link_of, Accepted, Served};
use crate::sniff::{
    admits, classify_for, kind_for, sniff, sniff_of, Category, MediaKind, Sniff, SniffView,
};
use crate::store::{read, written, AssetStore, StoreError};

verus! {

/// What an upload of `len` bytes with signature report `s` is turned down
/// with on the endpoint of `category` with body limit `limit`: the first
/// failing check, if any.
pub open spec fn rejection(len: nat, s: SniffView, category: Category, limit: nat) -> Option<
    ServiceError,
> {
    if len > limit {
        Some(ServiceError::TooLarge)
    } else if !admits(s, category) {
        Some(ServiceError::NotMedia(category))
    } else if !safe_extension(s.kind.unwrap().1) {
        Some(ServiceError::Storage)
    } else {
        None
    }
}

/// A buffer that carries no signature of the endpoint's category is always
/// turned down as the caller's fault, whatever else holds of it, and a
/// buffer is admitted only with such a signature.
pub proof fn lemma_unrecognised_is_rejected(
    len: nat,
    s: SniffView,
    category: Category,
    limit: nat,
)
    requires
        !admits(s, category),
    ensures
        rejection(len, s, category, limit) == Some(
            if len > limit {
                ServiceError::TooLarge
            } else {
                ServiceError::NotMedia(category)
            },
        ),
        crate::error::status_of(rejection(len, s, category, limit).unwrap()) < 500,
{
}

/// The MIME type served for assets of `category` whose own type is not
/// known.
pub open spec fn default_type(category: Category) -> Seq<char> {
    match category {
        Category::Image => "image/png"@,
        Category::Audio => "audio/ogg"@,
    }
}

/// The MIME type served for a payload with signature report `s` on the
/// endpoint of `category`.
pub open spec fn content_type_of(s: SniffView, category: Category) -> Seq<char> {
    if admits(s, category) {
        s.kind.unwrap().0
    } else {
        default_type(category)
    }
}

/// An upload that passed every check, with the name it is to be stored
/// under and the link that will point at it.
#[derive(Debug)]
pub struct Staged {
    pub name: AssetName,
    pub link: String,
    pub kind: MediaKind,
}

/// Checks an upload whose signature report is already at hand.
pub fn admit_upload(len: usize, report: &Sniff, category: Category, limit: usize) -> (admitted:
    Result<MediaKind, ServiceError>)
    ensures
        match admitted {
            Ok(kind) => {
                &&& rejection(len as nat, report@, category, limit as nat).is_none()
                &&& Some(kind@) == kind_for(report@, category)
            },
            Err(e) => rejection(len as nat, report@, category, limit as nat) == Some(e),
        },
{
    if len > limit {
        return Err(ServiceError::TooLarge);
    }
    match classify_for(report, category) {
        None => Err(ServiceError::NotMedia(category)),
        Some(kind) => {
            if crate::name::is_safe_extension(kind.extension.as_str()) {
                Ok(kind)
            } else {
                Err(ServiceError::Storage)
            }
        },
    }
}

/// Checks an upload and, where it passes, generates its name and link.
/// Nothing is stored yet.
pub fn stage_upload(data: &[u8], category: Category, config: &Config) -> (staged: Result<
    Staged,
    ServiceError,
>)
    ensures
        match staged {
            Ok(s) => {
                &&& rejection(
                    data@.len(),
                    sniff_of(data@),
                    category,
                    limit_of(config.max_size(category)),
                ).is_none()
                &&& Some(s.kind@) == kind_for(sniff_of(data@), category)
                &&& exists|id: Seq<char>|
                    hyphenated_id(id) && s.name@ == joined(id, s.kind.extension@)
                &&& s.link@ == link_of(config.protocol@, config.domain@, category, s.name@)
            },
            Err(e) => rejection(
                data@.len(),
                sniff_of(data@),
                category,
                limit_of(config.max_size(category)),
            ) == Some(e),
        },
{
    let report = sniff(data);
    let kind = admit_upload(data.len(), &report, category, config.body_limit(category))?;
    match AssetName::generate(kind.extension.as_str()) {
        Some(name) => {
            let link = link_for(config, category, &name);
            Ok(Staged { name, link, kind })
        },
        None => Err(ServiceError::Storage),
    }
}

/// Builds the answer that points at the asset `name` of `category`: its
/// link and the JSON body around the link. This holds for every name,
/// however it was drawn.
pub fn answer(name: AssetName, category: Category, config: &Config) -> (done: Result<
    Accepted,
    ServiceError,
>)
    ensures
        done.is_ok(),
        done matches Ok(a) ==> {
            &&& a.name@ == name@
            &&& a.link@ == link_of(config.protocol@, config.domain@, category, name@)
            &&& a.body@ == envelope_of(json_text(a.link@))
        },
{
    let link = link_for(config, category, &name);
    let body = envelope(link.as_str())?;
    Ok(Accepted { name, link, body })
}

/// Stores an already validated payload under the given name and builds the
/// answer that points at it. This holds for every name, however it was
/// drawn.
pub fn keep_named(
    store: &mut AssetStore,
    name: AssetName,
    data: &[u8],
    category: Category,
    config: &Config,
) -> (done: Result<Accepted, ServiceError>)
    ensures
        done.is_ok(),
        final(store)@ == written(old(store)@, name@, data@),
        read(final(store)@, name@) == Ok::<Seq<u8>, StoreError>(data@),
        done matches Ok(a) ==> {
            &&& a.name@ == name@
            &&& a.link@ == link_of(config.protocol@, config.domain@, category, name@)
            &&& a.body@ == envelope_of(json_text(a.link@))
        },
{
    store.put_named(&name, data);
    answer(name, category, config)
}

/// Stores an already validated payload under a fresh name with the given
/// extension and builds the answer that points at it. It succeeds exactly
/// on safe extensions; on failure nothing is stored.
pub fn keep(
    store: &mut AssetStore,
    data: &[u8],
    extension: &str,
    category: Category,
    config: &Config,
) -> (done: Result<Accepted, ServiceError>)
    ensures
        done.is_ok() == safe_extension(extension@),
        match done {
            Ok(a) => {
                &&& exists|id: Seq<char>| hyphenated_id(id) && a.name@ == joined(id, extension@)
                &&& final(store)@ == written(old(store)@, a.name@, data@)
                &&& read(final(store)@, a.name@) == Ok::<Seq<u8>, StoreError>(data@)
                &&& a.link@ == link_of(config.protocol@, config.domain@, category, a.name@)
                &&& a.body@ == envelope_of(json_text(a.link@))
            },
            Err(e) => e == ServiceError::Storage && final(store)@ == old(store)@,
        },
{
    match AssetName::generate(extension) {
        Some(name) => keep_named(store, name, data, category, config),
        None => Err(ServiceError::Storage),
    }
}

/// Takes one assembled payload through every step before storage: sniff,
/// check, name, answer. It succeeds exactly where no check turns the
/// payload down. Nothing is stored.
pub fn plan(data: &[u8], category: Category, config: &Config) -> (done: Result<
    Accepted,
    ServiceError,
>)
    ensures
        done.is_ok() == rejection(
            data@.len(),
            sniff_of(data@),
            category,
            limit_of(config.max_size(category)),
        ).is_none(),
        match done {
            Ok(a) => {
                &&& exists|id: Seq<char>|
                    hyphenated_id(id) && a.name@ == joined(
                        id,
                        kind_for(sniff_of(data@), category).unwrap().extension,
                    )
                &&& a.link@ == link_of(config.protocol@, config.domain@, category, a.name@)
                &&& a.body@ == envelope_of(json_text(a.link@))
            },
            Err(e) => rejection(
                data@.len(),
                sniff_of(data@),
                category,
                limit_of(config.max_size(category)),
            ) == Some(e),
        },
{
    let staged = stage_upload(data, category, config)?;
    answer(staged.name, category, config)
}

/// Takes one assembled payload through the pipeline: sniff, check, name,
/// store, answer. It succeeds exactly where no check turns the payload
/// down; on failure nothing is stored.
pub fn ingest(store: &mut AssetStore, data: &[u8], category: Category, config: &Config) -> (done:
    Result<Accepted, ServiceError>)
    ensures
        done.is_ok() == rejection(
            data@.len(),
            sniff_of(data@),
            category,
            limit_of(config.max_size(category)),
        ).is_none(),
        match done {
            Ok(a) => {
                &&& exists|id: Seq<char>|
                    hyphenated_id(id) && a.name@ == joined(
                        id,
                        kind_for(sniff_of(data@), category).unwrap().extension,
                    )
                &&& final(store)@ == written(old(store)@, a.name@, data@)
                &&& read(final(store)@, a.name@) == Ok::<Seq<u8>, StoreError>(data@)
                &&& a.link@ == link_of(config.protocol@, config.domain@, category, a.name@)
                &&& a.body@ == envelope_of(json_text(a.link@))
            },
            Err(e) => {
                &&& final(store)@ == old(store)@
                &&& rejection(
                    data@.len(),
                    sniff_of(data@),
                    category,
                    limit_of(config.max_size(category)),
                ) == Some(e)
            },
        },
{
    let accepted = plan(data, category, config)?;
    store.put_named(&accepted.name, data);
    Ok(accepted)
}

/// A multipart upload that passed every check: its answer and the
/// assembled payload that is to be written under the answer's name.
#[derive(Debug)]
pub struct Planned {
    pub accepted: Accepted,
    pub data: Vec<u8>,
}

/// Takes a multipart upload through every step before storage. The payload
/// is every chunk of every field, in stream order, as one buffer. It
/// succeeds exactly where no check turns the payload down.
pub fn plan_upload(fields: &Vec<Vec<Vec<u8>>>, category: Category, config: &Config) -> (done:
    Result<Planned, ServiceError>)
    ensures
        ({
            let data = flatten(field_views(fields@));
            let rejected = rejection(
                data.len(),
                sniff_of(data),
                category,
                limit_of(config.max_size(category)),
            );
            &&& done.is_ok() == rejected.is_none()
            &&& match done {
                Ok(p) => {
                    &&& p.data@ == data
                    &&& exists|id: Seq<char>|
                        hyphenated_id(id) && p.accepted.name@ == joined(
                            id,
                            kind_for(sniff_of(data), category).unwrap().extension,
                        )
                    &&& p.accepted.link@ == link_of(
                        config.protocol@,
                        config.domain@,
                        category,
                        p.accepted.name@,
                    )
                    &&& p.accepted.body@ == envelope_of(json_text(p.accepted.link@))
                },
                Err(e) => rejected == Some(e),
            }
        }),
{
    let data = flatten_fields(fields);
    let accepted = plan(data.as_slice(), category, config)?;
    Ok(Planned { accepted, data })
}

/// Settles an upload once the write of its payload has ended: the answer
/// stands where the write completed, and a write that did not complete is
/// a failure of the server.
pub fn finish_write(accepted: Accepted, written: bool) -> (done: Result<Accepted, ServiceError>)
    ensures
        done.is_ok() == written,
        match done {
            Ok(a) => a == accepted,
            Err(e) => e == ServiceError::Storage,
        },
{
    if written {
        Ok(accepted)
    } else {
        Err(ServiceError::Storage)
    }
}

/// Takes a multipart upload through the pipeline. The payload is every
/// chunk of every field, in stream order, as one buffer. It succeeds
/// exactly where no check turns the payload down; on failure nothing is
/// stored.
pub fn upload(
    store: &mut AssetStore,
    fields: &Vec<Vec<Vec<u8>>>,
    category: Category,
    config: &Config,
) -> (done: Result<Accepted, ServiceError>)
    ensures
        ({
            let data = flatten(field_views(fields@));
            let rejected = rejection(
                data.len(),
                sniff_of(data),
                category,
                limit_of(config.max_size(category)),
            );
            &&& done.is_ok() == rejected.is_none()
            &&& match done {
                Ok(a) => {
                    &&& exists|id: Seq<char>|
                        hyphenated_id(id) && a.name@ == joined(
                            id,
                            kind_for(sniff_of(data), category).unwrap().extension,
                        )
                    &&& final(store)@ == written(old(store)@, a.name@, data)
                    &&& read(final(store)@, a.name@) == Ok::<Seq<u8>, StoreError>(data)
                    &&& a.link@ == link_of(config.protocol@, config.domain@, category, a.name@)
                    &&& a.body@ == envelope_of(json_text(a.link@))
                },
                Err(e) => final(store)@ == old(store)@ && rejected == Some(e),
            }
        }),
{
    let planned = plan_upload(fields, category, config)?;
    store.put_named(&planned.accepted.name, planned.data.as_slice());
    Ok(planned.accepted)
}

/// Handles an upload to the image endpoint.
pub fn upload_image(store: &mut AssetStore, fields: &Vec<Vec<Vec<u8>>>, config: &Config) -> (done:
    Result<Accepted, ServiceError>)
    ensures
        ({
            let data = flatten(field_views(fields@));
            let rejected = rejection(
                data.len(),
                sniff_of(data),
                Category::Image,
                limit_of(config.max_image_size as nat),
            );
            &&& done.is_ok() == rejected.is_none()
            &&& match done {
                Ok(a) => {
                    &&& exists|id: Seq<char>|
                        hyphenated_id(id) && a.name@ == joined(
                            id,
                            kind_for(sniff_of(data), Category::Image).unwrap().extension,
                        )
                    &&& final(store)@ == written(old(store)@, a.name@, data)
                    &&& read(final(store)@, a.name@) == Ok::<Seq<u8>, StoreError>(data)
                    &&& a.link@ == link_of(
                        config.protocol@,
                        config.domain@,
                        Category::Image,
                        a.name@,
                    )
                    &&& a.body@ == envelope_of(json_text(a.link@))
                },
                Err(e) => final(store)@ == old(store)@ && rejected == Some(e),
            }
        }),
{
    upload(store, fields, Category::Image, config)
}

/// Handles an upload to the audio endpoint.
pub fn upload_audio(store: &mut AssetStore, fields: &Vec<Vec<Vec<u8>>>, config: &Config) -> (done:
    Result<Accepted, ServiceError>)
    ensures
        ({
            let data = flatten(field_views(fields@));
            let rejected = rejection(
                data.len(),
                sniff_of(data),
                Category::Audio,
                limit_of(config.max_audio_size as nat),
            );
            &&& done.is_ok() == rejected.is_none()
            &&& match done {
                Ok(a) => {
                    &&& exists|id: Seq<char>|
                        hyphenated_id(id) && a.name@ == joined(
                            id,
                            kind_for(sniff_of(data), Category::Audio).unwrap().extension,
                        )
                    &&& final(store)@ == written(old(store)@, a.name@, data)
                    &&& read(final(store)@, a.name@) == Ok::<Seq<u8>, StoreError>(data)
                    &&& a.link@ == link_of(
                        config.protocol@,
                        config.domain@,
                        Category::Audio,
                        a.name@,
                    )
                    &&& a.body@ == envelope_of(json_text(a.link@))
                },
                Err(e) => final(store)@ == old(store)@ && rejected == Some(e),
            }
        }),
{
    upload(store, fields, Category::Audio, config)
}

/// What fetching `name` from a store with contents `assets` answers on
/// the endpoint of `category`: the payload and its content type, or the
/// error.
pub open spec fn fetched(assets: Map<Seq<char>, Seq<u8>>, name: Seq<char>, category: Category)
    -> Result<(Seq<u8>, Seq<char>), ServiceError> {
    match read(assets, name) {
        Ok(bytes) => Ok((bytes, content_type_of(sniff_of(bytes), category))),
        Err(e) => Err(of_store(e)),
    }
}

/// Wraps a payload read from the store of `category` into its answer.
pub fn serve(bytes: Vec<u8>, report: &Sniff, category: Category) -> (served: Served)
    ensures
        served.bytes@ == bytes@,
        served.content_type@ == content_type_of(report@, category),
        served.max_age.is_none(),
{
    let content_type = match classify_for(report, category) {
        Some(kind) => kind.mime,
        None => match category {
            Category::Image => String::from_str("image/png"),
            Category::Audio => String::from_str("audio/ogg"),
        },
    };
    Served { bytes, content_type, max_age: None }
}

/// Checks the name of a fetch before anything is read: only a safe name
/// may reach the storage layer.
pub fn plan_fetch(name: &str) -> (planned: Result<AssetName, ServiceError>)
    ensures
        planned.is_ok() == safe_name(name@),
        match planned {
            Ok(valid) => valid@ == name@,
            Err(e) => e == ServiceError::InvalidName,
        },
{
    match AssetName::parse(name) {
        Some(valid) => Ok(valid),
        None => Err(ServiceError::InvalidName),
    }
}

/// What the outcome of reading a payload answers on the endpoint of
/// `category`.
pub open spec fn read_answer(outcome: Result<Seq<u8>, ReadFailure>, category: Category) -> Result<
    (Seq<u8>, Seq<char>),
    ServiceError,
> {
    match outcome {
        Ok(bytes) => Ok((bytes, content_type_of(sniff_of(bytes), category))),
        Err(f) => Err(of_read(f)),
    }
}

/// Settles a fetch once the read has ended: the payload with its content
/// type, not found for a missing asset, a failure of the server for any
/// other failed read.
pub fn finish_fetch(outcome: Result<Vec<u8>, ReadFailure>, category: Category) -> (done: Result<
    Served,
    ServiceError,
>)
    ensures
        match (outcome, done) {
            (Ok(bytes), Ok(s)) => {
                &&& s.bytes@ == bytes@
                &&& s.content_type@ == content_type_of(sniff_of(bytes@), category)
                &&& s.max_age.is_none()
            },
            (Err(f), Err(e)) => e == of_read(f),
            _ => false,
        },
{
    match outcome {
        Ok(bytes) => {
            let report = sniff(bytes.as_slice());
            Ok(serve(bytes, &report, category))
        },
        Err(f) => Err(ServiceError::from_read(f)),
    }
}

/// Fetches an asset by name from the store of `category`.
pub fn fetch(store: &AssetStore, name: &str, category: Category) -> (done: Result<
    Served,
    ServiceError,
>)
    ensures
        match done {
            Ok(s) => fetched(store@, name@, category) == Ok::<
                (Seq<u8>, Seq<char>),
                ServiceError,
            >((s.bytes@, s.content_type@)) && s.max_age.is_none(),
            Err(e) => fetched(store@, name@, category) == Err::<
                (Seq<u8>, Seq<char>),
                ServiceError,
            >(e),
        },
{
    let valid = plan_fetch(name)?;
    let outcome = match store.get_named(&valid) {
        Ok(bytes) => Ok(bytes),
        Err(_) => Err(ReadFailure::Missing),
    };
    finish_fetch(outcome, category)
}

/// Fetches an asset by name through the cache in front of the store of
/// `category`. The answer is the one the store alone would give.
pub fn fetch_cached(assets: &mut CachedStore, name: &str, category: Category, now: u64) -> (done:
    Result<Served, ServiceError>)
    ensures
        final(assets).assets() == old(assets).assets(),
        final(assets).ttl() == old(assets).ttl(),
        final(assets).cached() == cache_after_read(
            old(assets).cached(),
            old(assets).assets(),
            name@,
            now as nat,
            old(assets).ttl(),
        ),
        match done {
            Ok(s) => fetched(old(assets).assets(), name@, category) == Ok::<
                (Seq<u8>, Seq<char>),
                ServiceError,
            >((s.bytes@, s.content_type@)) && s.max_age.is_none(),
            Err(e) => fetched(old(assets).assets(), name@, category) == Err::<
                (Seq<u8>, Seq<char>),
                ServiceError,
            >(e),
        },
{
    match assets.get(name, now) {
        Ok(bytes) => {
            let report = sniff(bytes.as_slice());
            Ok(serve(bytes, &report, category))
        },
        Err(e) => Err(ServiceError::from_store(e)),
    }
}

/// Handles a fetch from the image endpoint.
pub fn fetch_image(store: &AssetStore, image_name: &str) -> (done: Result<Served, ServiceError>)
    ensures
        match done {
            Ok(s) => fetched(store@, image_name@, Category::Image) == Ok::<
                (Seq<u8>, Seq<char>),
                ServiceError,
            >((s.bytes@, s.content_type@)) && s.max_age.is_none(),
            Err(e) => fetched(store@, image_name@, Category::Image) == Err::<
                (Seq<u8>, Seq<char>),
                ServiceError,
            >(e),
        },
{
    fetch(store, image_name, Category::Image)
}

/// Handles a fetch from the audio endpoint.
pub fn fetch_audio(store: &AssetStore, audio_name: &str) -> (done: Result<Served, ServiceError>)
    ensures
        match done {
            Ok(s) => fetched(store@, audio_name@, Category::Audio) == Ok::<
                (Seq<u8>, Seq<char>),
                ServiceError,
            >((s.bytes@, s.content_type@)) && s.max_age.is_none(),
            Err(e) => fetched(store@, audio_name@, Category::Audio) == Err::<
                (Seq<u8>, Seq<char>),
                ServiceError,
            >(e),
        },
{
    fetch(store, audio_name, Category::Audio)
}

} // verus!
