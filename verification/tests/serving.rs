use media_host::config::Config;
use media_host::error::{show_status, to_decimal, upstream_message, ReadFailure, ServiceError};
use media_host::name::AssetName;
use media_host::pipeline::{
    admit_upload, answer, fetch, fetch_audio, fetch_cached, fetch_image, finish_fetch,
    finish_write, ingest, keep, keep_named, plan, plan_fetch, plan_upload, serve, stage_upload,
    upload, upload_audio, upload_image,
};
use media_host::cached::CachedStore;
use media_host::proxy::ProxyError;
use media_host::reply::{envelope, frame_envelope, json_content_type, link_for};
use media_host::sniff::{sniff, Category};
use media_host::store::{AssetStore, StoreError};

fn small_png() -> Vec<u8> {
    vec![
        137, 80, 78, 71, 13, 10, 26, 10, 0, 0, 0, 13, 73, 72, 68, 82, 0, 0, 0, 16, 0, 0, 0, 16, 8,
        0, 0, 0, 0, 58, 152, 160, 189, 0, 0, 1, 27, 73, 68, 65, 84, 120, 218, 1, 16, 1, 239, 254,
        0, 0, 16, 32, 48, 64, 80, 96, 112, 128, 144, 160, 176, 192, 208, 224, 240, 0, 1, 17, 33,
        49, 65, 81, 97, 113, 129, 145, 161, 177, 193, 209, 225, 241, 0, 2, 18, 34, 50, 66, 82, 98,
        114, 130, 146, 162, 178, 194, 210, 226, 242, 0, 3, 19, 35, 51, 67, 83, 99, 115, 131, 147,
        163, 179, 195, 211, 227, 243, 0, 4, 20, 36, 52, 68, 84, 100, 116, 132, 148, 164, 180, 196,
        212, 228, 244, 0, 5, 21, 37, 53, 69, 85, 101, 117, 133, 149, 165, 181, 197, 213, 229, 245,
        0, 6, 22, 38, 54, 70, 86, 102, 118, 134, 150, 166, 182, 198, 214, 230, 246, 0, 7, 23, 39,
        55, 71, 87, 103, 119, 135, 151, 167, 183, 199, 215, 231, 247, 0, 8, 24, 40, 56, 72, 88,
        104, 120, 136, 152, 168, 184, 200, 216, 232, 248, 0, 9, 25, 41, 57, 73, 89, 105, 121, 137,
        153, 169, 185, 201, 217, 233, 249, 0, 10, 26, 42, 58, 74, 90, 106, 122, 138, 154, 170,
        186, 202, 218, 234, 250, 0, 11, 27, 43, 59, 75, 91, 107, 123, 139, 155, 171, 187, 203,
        219, 235, 251, 0, 12, 28, 44, 60, 76, 92, 108, 124, 140, 156, 172, 188, 204, 220, 236,
        252, 0, 13, 29, 45, 61, 77, 93, 109, 125, 141, 157, 173, 189, 205, 221, 237, 253, 0, 14,
        30, 46, 62, 78, 94, 110, 126, 142, 158, 174, 190, 206, 222, 238, 254, 0, 15, 31, 47, 63,
        79, 95, 111, 127, 143, 159, 175, 191, 207, 223, 239, 255, 3, 159, 127, 129, 49, 196, 249,
        86, 0, 0, 0, 0, 73, 69, 78, 68, 174, 66, 96, 130,
    ]
}

fn small_ogg() -> Vec<u8> {
    vec![0x4F, 0x67, 0x67, 0x53, 0, 2, 0, 0, 0, 0, 0, 0, 0, 0, 1, 2, 3]
}

fn config() -> Config {
    Config::new("127.0.0.1", "https", "media.example.org", 8080, 10_485_760, 2_097_152)
}

#[test]
fn config_keeps_its_settings() {
    let c = config();
    assert_eq!(c.ip, "127.0.0.1");
    assert_eq!(c.protocol, "https");
    assert_eq!(c.domain, "media.example.org");
    assert_eq!(c.port, 8080);
    assert_eq!(c.max_image_size, 10_485_760);
    assert_eq!(c.max_audio_size, 2_097_152);
}

#[test]
fn body_limit_is_the_configured_size_over_1024() {
    let c = config();
    assert_eq!(c.body_limit(Category::Image), 10_240);
    assert_eq!(c.body_limit(Category::Audio), 2_048);
    let tiny = Config::new("::1", "http", "h", 1, 1023, 1024);
    assert_eq!(tiny.body_limit(Category::Image), 0);
    assert_eq!(tiny.body_limit(Category::Audio), 1);
}

#[test]
fn posting_a_png_stores_it_and_links_to_it() {
    let mut store = AssetStore::new();
    let png = small_png();
    let accepted = upload_image(&mut store, &vec![vec![png.clone()]], &config()).expect("accepted");
    assert!(accepted.link.ends_with(".png"));
    assert!(accepted.link.starts_with("https://media.example.org/v1/image/"));
    assert_eq!(
        accepted.link,
        format!("https://media.example.org/v1/image/{}", accepted.name.as_str())
    );
    assert_eq!(accepted.body, format!("{{\"data\":{{\"link\":\"{}\"}}}}", accepted.link));
    let parsed: serde_json::Value = serde_json::from_str(&accepted.body).expect("JSON");
    assert_eq!(parsed["data"]["link"].as_str(), Some(accepted.link.as_str()));

    let name = accepted.link.rsplit('/').next().expect("segment").to_string();
    let served = fetch_image(&store, &name).expect("found");
    assert_eq!(served.bytes, png);
    assert_eq!(served.content_type, "image/png");
    assert_eq!(served.max_age, None);
}

#[test]
fn posting_plain_text_is_rejected_and_stores_nothing() {
    let mut store = AssetStore::new();
    let rejected = upload_image(&mut store, &vec![vec![b"hello world".to_vec()]], &config())
        .expect_err("rejected");
    assert_eq!(rejected, ServiceError::NotMedia(Category::Image));
    assert_eq!(rejected.status_code(), 400);
    assert_eq!(store.len(), 0);
}

#[test]
fn a_buffer_without_a_signature_is_never_stored() {
    let mut store = AssetStore::new();
    for _ in 0..3 {
        let rejected = ingest(&mut store, b"not an image", Category::Image, &config())
            .expect_err("rejected");
        assert_eq!(rejected, ServiceError::NotMedia(Category::Image));
    }
    assert_eq!(store.len(), 0);
}

#[test]
fn multipart_chunks_are_one_payload() {
    let mut store = AssetStore::new();
    let png = small_png();
    let fields = vec![
        vec![png[..3].to_vec(), png[3..100].to_vec()],
        vec![],
        vec![png[100..].to_vec()],
    ];
    let accepted = upload(&mut store, &fields, Category::Image, &config()).expect("accepted");
    assert_eq!(store.get(accepted.name.as_str()), Ok(png));
}

#[test]
fn audio_goes_to_the_audio_endpoint_only() {
    let mut images = AssetStore::new();
    let mut audio = AssetStore::new();
    let ogg = small_ogg();
    let rejected =
        upload_image(&mut images, &vec![vec![ogg.clone()]], &config()).expect_err("rejected");
    assert_eq!(rejected, ServiceError::NotMedia(Category::Image));
    let accepted = upload_audio(&mut audio, &vec![vec![ogg.clone()]], &config()).expect("accepted");
    assert!(accepted.link.starts_with("https://media.example.org/v1/audio/"));
    assert!(accepted.link.ends_with(".ogg"));
    let served = fetch_audio(&audio, accepted.name.as_str()).expect("found");
    assert_eq!(served.bytes, ogg);
    assert_eq!(served.content_type, "audio/ogg");

    let rejected = upload_audio(&mut audio, &vec![vec![small_png()]], &config())
        .expect_err("rejected");
    assert_eq!(rejected, ServiceError::NotMedia(Category::Audio));
    assert_eq!(rejected.message(), "The provided data wasn't an audio format.");
}

#[test]
fn an_upload_over_the_limit_conflicts() {
    let mut store = AssetStore::new();
    let small = Config::new("127.0.0.1", "http", "h", 80, 340 * 1024 - 1, 0);
    let rejected = ingest(&mut store, &small_png(), Category::Image, &small).expect_err("too big");
    assert_eq!(rejected, ServiceError::TooLarge);
    assert_eq!(rejected.status_code(), 409);
    assert_eq!(store.len(), 0);
    let enough = Config::new("127.0.0.1", "http", "h", 80, 340 * 1024, 0);
    assert!(ingest(&mut store, &small_png(), Category::Image, &enough).is_ok());
}

#[test]
fn admit_upload_reports_the_first_failing_check() {
    let png = small_png();
    let report = sniff(&png);
    assert_eq!(
        admit_upload(png.len(), &report, Category::Image, 10).err(),
        Some(ServiceError::TooLarge)
    );
    assert_eq!(
        admit_upload(png.len(), &report, Category::Audio, 1000).err(),
        Some(ServiceError::NotMedia(Category::Audio))
    );
    let kind = admit_upload(png.len(), &report, Category::Image, 340).expect("admitted");
    assert_eq!(kind.extension, "png");
    let text = sniff(b"words");
    assert_eq!(
        admit_upload(5, &text, Category::Image, 4).err(),
        Some(ServiceError::TooLarge)
    );
}

#[test]
fn staging_names_an_upload_without_storing_it() {
    let staged = stage_upload(&small_png(), Category::Image, &config()).expect("staged");
    assert!(staged.name.as_str().ends_with(".png"));
    assert_eq!(staged.name.as_str().len(), 40);
    assert_eq!(staged.kind.mime, "image/png");
    assert_eq!(
        staged.link,
        format!("https://media.example.org/v1/image/{}", staged.name.as_str())
    );
    assert_eq!(
        stage_upload(b"hello world", Category::Image, &config()).err(),
        Some(ServiceError::NotMedia(Category::Image))
    );
}

#[test]
fn keep_refuses_an_unsafe_extension() {
    let mut store = AssetStore::new();
    let failed = keep(&mut store, &[1, 2], "../png", Category::Image, &config()).expect_err("no");
    assert_eq!(failed, ServiceError::Storage);
    assert_eq!(failed.status_code(), 500);
    assert_eq!(store.len(), 0);
    let kept = keep(&mut store, &[1, 2], "bin", Category::Audio, &config()).expect("kept");
    assert!(kept.link.starts_with("https://media.example.org/v1/audio/"));
    assert_eq!(store.get(kept.name.as_str()), Ok(vec![1, 2]));
}

#[test]
fn fetching_an_unknown_name_is_not_found() {
    let mut store = AssetStore::new();
    let missing = fetch_image(&store, "0b0e7c1e-3c59-4c33-9d0b-5d0c2a3b8f11.png").expect_err("no");
    assert_eq!(missing, ServiceError::NotFound);
    assert_eq!(missing.status_code(), 404);
    upload_image(&mut store, &vec![vec![small_png()]], &config()).expect("accepted");
    assert_eq!(fetch_image(&store, "other.png").err(), Some(ServiceError::NotFound));
    assert_eq!(fetch_audio(&store, "other.ogg").err(), Some(ServiceError::NotFound));
    assert_eq!(fetch(&store, "x", Category::Audio).err(), Some(ServiceError::NotFound));
}

#[test]
fn fetching_a_traversal_name_is_refused() {
    let store = AssetStore::new();
    let refused = fetch_image(&store, "../config.toml").expect_err("refused");
    assert_eq!(refused, ServiceError::InvalidName);
    assert_eq!(refused.status_code(), 400);
}

#[test]
fn an_asset_of_unknown_type_is_served_with_the_default_type() {
    let mut images = AssetStore::new();
    let name = AssetName::parse("raw.bin").expect("safe");
    images.put_named(&name, &[1, 2, 3]);
    assert_eq!(fetch_image(&images, "raw.bin").expect("found").content_type, "image/png");
    assert_eq!(fetch_audio(&images, "raw.bin").expect("found").content_type, "audio/ogg");
    let served = serve(vec![0xFF, 0xD8, 0xFF, 0xAA], &sniff(&[0xFF, 0xD8, 0xFF, 0xAA]), Category::Image);
    assert_eq!(served.content_type, "image/jpeg");
    assert_eq!(served.bytes, vec![0xFF, 0xD8, 0xFF, 0xAA]);
}

#[test]
fn fetching_through_the_cache_answers_alike() {
    let mut plain = AssetStore::new();
    let mut cached = CachedStore::new(10);
    let name = AssetName::parse("a.png").expect("safe");
    plain.put_named(&name, &small_png());
    cached.put_named(&name, &small_png());
    for now in [0u64, 1, 50] {
        let a = fetch_cached(&mut cached, "a.png", Category::Image, now).expect("found");
        let b = fetch_image(&plain, "a.png").expect("found");
        assert_eq!(a.bytes, b.bytes);
        assert_eq!(a.content_type, b.content_type);
        assert_eq!(
            fetch_cached(&mut cached, "missing.png", Category::Image, now).err(),
            Some(ServiceError::NotFound)
        );
    }
}

#[test]
fn links_follow_the_route_of_the_category() {
    let name = AssetName::parse("abc.png").expect("safe");
    assert_eq!(
        link_for(&config(), Category::Image, &name),
        "https://media.example.org/v1/image/abc.png"
    );
    assert_eq!(
        link_for(&config(), Category::Audio, &name),
        "https://media.example.org/v1/audio/abc.png"
    );
}

#[test]
fn the_envelope_carries_the_link_as_a_json_string() {
    assert_eq!(
        envelope("https://h/v1/image/a.png"),
        Ok("{\"data\":{\"link\":\"https://h/v1/image/a.png\"}}".to_string())
    );
    assert_eq!(
        envelope("quote\"and\\slash"),
        Ok("{\"data\":{\"link\":\"quote\\\"and\\\\slash\"}}".to_string())
    );
    assert_eq!(frame_envelope("\"x\""), "{\"data\":{\"link\":\"x\"}}");
    assert_eq!(json_content_type(), "application/json");
}

#[test]
fn every_error_has_its_status() {
    assert_eq!(ServiceError::NotMedia(Category::Image).status_code(), 400);
    assert_eq!(ServiceError::NotMedia(Category::Audio).status_code(), 400);
    assert_eq!(ServiceError::TooLarge.status_code(), 409);
    assert_eq!(ServiceError::InvalidName.status_code(), 400);
    assert_eq!(ServiceError::SelfReference.status_code(), 400);
    assert_eq!(ServiceError::Unreachable.status_code(), 400);
    assert_eq!(ServiceError::UpstreamStatus(503).status_code(), 400);
    assert_eq!(ServiceError::UpstreamTooLarge.status_code(), 400);
    assert_eq!(ServiceError::UpstreamNotMedia(Category::Image).status_code(), 400);
    assert_eq!(ServiceError::NotFound.status_code(), 404);
    assert_eq!(ServiceError::Storage.status_code(), 500);
}

#[test]
fn every_error_has_its_text() {
    assert_eq!(
        ServiceError::NotMedia(Category::Image).message(),
        "The provided data wasn't an image."
    );
    assert_eq!(ServiceError::TooLarge.message(), "The provided data is too large.");
    assert_eq!(ServiceError::InvalidName.message(), "The requested name is not valid.");
    assert_eq!(
        ServiceError::SelfReference.message(),
        "Can't try to use local images as external."
    );
    assert_eq!(ServiceError::Unreachable.message(), "The specified website failed to respond.");
    assert_eq!(
        ServiceError::UpstreamStatus(404).message(),
        "Target website returned status code 404 Not Found."
    );
    assert_eq!(
        ServiceError::UpstreamStatus(503).message(),
        "Target website returned status code 503 Service Unavailable."
    );
    assert_eq!(
        ServiceError::UpstreamStatus(42).message(),
        "Target website returned status code 42."
    );
    assert_eq!(
        ServiceError::UpstreamTooLarge.message(),
        "The target website returned too much data."
    );
    assert_eq!(
        ServiceError::UpstreamNotMedia(Category::Image).message(),
        "The target website didn't return an image."
    );
    assert_eq!(
        ServiceError::UpstreamNotMedia(Category::Audio).message(),
        "The target website didn't return an audio format."
    );
    assert_eq!(ServiceError::NotFound.message(), "No such file.");
    assert_eq!(ServiceError::Storage.message(), "Server failed to make file");
}

#[test]
fn numbers_are_written_in_decimal() {
    assert_eq!(to_decimal(0), "0");
    assert_eq!(to_decimal(7), "7");
    assert_eq!(to_decimal(10), "10");
    assert_eq!(to_decimal(404), "404");
    assert_eq!(to_decimal(65535), "65535");
}

#[test]
fn other_errors_map_onto_service_errors() {
    assert_eq!(ServiceError::from_store(StoreError::NotFound), ServiceError::NotFound);
    assert_eq!(ServiceError::from_store(StoreError::InvalidName), ServiceError::InvalidName);
    assert_eq!(
        ServiceError::from_proxy(ProxyError::SelfReference, Category::Image),
        ServiceError::SelfReference
    );
    assert_eq!(
        ServiceError::from_proxy(ProxyError::Unreachable, Category::Image),
        ServiceError::Unreachable
    );
    assert_eq!(
        ServiceError::from_proxy(ProxyError::UpstreamStatus(500), Category::Image),
        ServiceError::UpstreamStatus(500)
    );
    assert_eq!(
        ServiceError::from_proxy(ProxyError::TooLarge, Category::Image),
        ServiceError::UpstreamTooLarge
    );
    assert_eq!(
        ServiceError::from_proxy(ProxyError::NotMedia, Category::Audio),
        ServiceError::UpstreamNotMedia(Category::Audio)
    );
}

#[test]
fn a_cloned_config_keeps_every_setting() {
    let c = config();
    let d = c.clone();
    assert_eq!(d.ip, c.ip);
    assert_eq!(d.protocol, c.protocol);
    assert_eq!(d.domain, c.domain);
    assert_eq!(d.port, c.port);
    assert_eq!(d.max_image_size, c.max_image_size);
    assert_eq!(d.max_audio_size, c.max_audio_size);
}

#[test]
fn a_status_is_shown_with_its_reason_phrase() {
    assert_eq!(show_status(200), "200 OK");
    assert_eq!(show_status(404), "404 Not Found");
    assert_eq!(show_status(100), "100 Continue");
    assert_eq!(show_status(999), "999 <unknown status code>");
}

#[test]
fn a_code_that_is_no_status_is_shown_as_a_number() {
    assert_eq!(show_status(0), "0");
    assert_eq!(show_status(99), "99");
    assert_eq!(show_status(1000), "1000");
    assert_eq!(show_status(65535), "65535");
}

#[test]
fn the_upstream_text_wraps_the_shown_status() {
    assert_eq!(
        upstream_message("404 Not Found"),
        "Target website returned status code 404 Not Found."
    );
    assert_eq!(upstream_message(""), "Target website returned status code .");
}

#[test]
fn a_failed_read_is_not_found_only_where_the_asset_is_missing() {
    assert_eq!(ServiceError::from_read(ReadFailure::Missing), ServiceError::NotFound);
    assert_eq!(ServiceError::from_read(ReadFailure::Other), ServiceError::Storage);
    assert_eq!(ServiceError::from_read(ReadFailure::Missing).status_code(), 404);
    assert_eq!(ServiceError::from_read(ReadFailure::Other).status_code(), 500);
}

#[test]
fn the_answer_is_built_for_any_name() {
    let name = AssetName::parse("00000000-0000-4000-8000-000000000001.png").expect("safe");
    let media = Config::new("127.0.0.1", "https", "media.example", 443, 1 << 20, 1 << 20);
    let accepted = answer(name, Category::Image, &media).expect("always answered");
    assert_eq!(accepted.name.as_str(), "00000000-0000-4000-8000-000000000001.png");
    assert_eq!(
        accepted.link,
        "https://media.example/v1/image/00000000-0000-4000-8000-000000000001.png"
    );
    assert_eq!(
        accepted.body,
        "{\"data\":{\"link\":\"https://media.example/v1/image/00000000-0000-4000-8000-000000000001.png\"}}"
    );
}

#[test]
fn keeping_under_a_given_name_stores_and_answers() {
    let mut store = AssetStore::new();
    let name = AssetName::parse("00000000-0000-4000-8000-000000000002.ogg").expect("safe");
    let media = Config::new("127.0.0.1", "https", "media.example", 443, 1 << 20, 1 << 20);
    let data = small_ogg();
    let accepted =
        keep_named(&mut store, name, &data, Category::Audio, &media).expect("always kept");
    assert_eq!(
        accepted.body,
        "{\"data\":{\"link\":\"https://media.example/v1/audio/00000000-0000-4000-8000-000000000002.ogg\"}}"
    );
    assert_eq!(store.len(), 1);
    assert_eq!(store.get("00000000-0000-4000-8000-000000000002.ogg"), Ok(data));
}

#[test]
fn planning_checks_and_answers_without_storing() {
    let accepted = plan(&small_png(), Category::Image, &config()).expect("planned");
    assert!(accepted.name.as_str().ends_with(".png"));
    assert_eq!(
        accepted.link,
        format!("https://media.example.org/v1/image/{}", accepted.name.as_str())
    );
    assert_eq!(accepted.body, format!("{{\"data\":{{\"link\":\"{}\"}}}}", accepted.link));
    assert_eq!(
        plan(b"hello world", Category::Image, &config()).err(),
        Some(ServiceError::NotMedia(Category::Image))
    );
    assert_eq!(
        plan(&small_png(), Category::Audio, &config()).err(),
        Some(ServiceError::NotMedia(Category::Audio))
    );
}

#[test]
fn planning_an_upload_hands_back_the_assembled_payload() {
    let png = small_png();
    let fields = vec![vec![png[..3].to_vec(), vec![], png[3..].to_vec()]];
    let planned = plan_upload(&fields, Category::Image, &config()).expect("planned");
    assert_eq!(planned.data, png);
    assert!(planned.accepted.link.ends_with(".png"));
    assert_eq!(
        plan_upload(&vec![vec![b"hello ".to_vec()], vec![b"world".to_vec()]], Category::Image, &config())
            .err(),
        Some(ServiceError::NotMedia(Category::Image))
    );
}

#[test]
fn chunking_never_changes_the_outcome() {
    let ogg = small_ogg();
    let whole = vec![vec![ogg.clone()]];
    let cut = vec![vec![ogg[..1].to_vec(), vec![], ogg[1..5].to_vec(), ogg[5..].to_vec()]];
    let mut first = AssetStore::new();
    let mut second = AssetStore::new();
    let a = upload_audio(&mut first, &whole, &config()).expect("accepted");
    let b = upload_audio(&mut second, &cut, &config()).expect("accepted");
    assert!(a.name.as_str().ends_with(".ogg"));
    assert!(b.name.as_str().ends_with(".ogg"));
    assert_eq!(first.get(a.name.as_str()), second.get(b.name.as_str()));
    let text_whole = vec![vec![b"hello world".to_vec()]];
    let text_cut = vec![vec![b"hello".to_vec(), b" world".to_vec()]];
    assert_eq!(
        upload_audio(&mut first, &text_whole, &config()).err(),
        upload_audio(&mut second, &text_cut, &config()).err()
    );
}

#[test]
fn an_upload_stands_only_where_the_write_completed() {
    let accepted = plan(&small_png(), Category::Image, &config()).expect("planned");
    let link = accepted.link.clone();
    let kept = finish_write(accepted, true).expect("written");
    assert_eq!(kept.link, link);
    let accepted = plan(&small_png(), Category::Image, &config()).expect("planned");
    let failed = finish_write(accepted, false).expect_err("not written");
    assert_eq!(failed, ServiceError::Storage);
    assert_eq!(failed.status_code(), 500);
    assert_eq!(failed.message(), "Server failed to make file");
}

#[test]
fn a_fetch_is_planned_only_for_a_safe_name() {
    assert_eq!(plan_fetch("a.png").expect("safe").as_str(), "a.png");
    assert_eq!(plan_fetch("../a.png").err(), Some(ServiceError::InvalidName));
    assert_eq!(plan_fetch("").err(), Some(ServiceError::InvalidName));
    assert_eq!(plan_fetch("dir/a.png").err(), Some(ServiceError::InvalidName));
}

#[test]
fn a_fetch_is_settled_by_the_outcome_of_the_read() {
    let served = finish_fetch(Ok(small_png()), Category::Image).expect("served");
    assert_eq!(served.bytes, small_png());
    assert_eq!(served.content_type, "image/png");
    assert_eq!(served.max_age, None);
    let served = finish_fetch(Ok(vec![1, 2, 3]), Category::Audio).expect("served");
    assert_eq!(served.content_type, "audio/ogg");
    assert_eq!(
        finish_fetch(Err(ReadFailure::Missing), Category::Image).err(),
        Some(ServiceError::NotFound)
    );
    assert_eq!(
        finish_fetch(Err(ReadFailure::Other), Category::Image).err(),
        Some(ServiceError::Storage)
    );
}
