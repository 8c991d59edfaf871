//! The threat feed that is kept on disk.

use vapour_protection::atomic_file::FileRead;
use vapour_protection::cache::{
    accept_feed, encode_envelope, load_feodo_cache, load_feodo_cache_at,
    max_feodo_cache_file_bytes, replace_feodo_cache, replace_feodo_cache_at, CacheEnvelope,
    CacheError,
};
use vapour_protection::digest::sha256_hex;
use vapour_protection::feeds::{FeedEndpoint, FeedMetadata, FeedSource, ValidatedThreatFeed};
use vapour_protection::net::ip_from_text;

const TEST_NOW: u64 = 1_757_000_000;
const FEED_URL: &str = "https://feeds.example/recommended.json";

fn source() -> FeedSource {
    FeedSource {
        url: FEED_URL.to_owned(),
        license: "CC0".to_owned(),
        max_input_bytes: 4096,
    }
}

fn feed(ip: &str, port: u16) -> Vec<u8> {
    format!(r#"[{{"ip_address":"{ip}","port":{port},"status":"online"}}]"#).into_bytes()
}

/// Takes the endpoints of a feed, and refuses those of private networks.
fn parse(raw: Vec<u8>, retrieved_at: u64) -> Result<ValidatedThreatFeed, String> {
    let value: serde_json::Value =
        serde_json::from_slice(&raw).map_err(|error| error.to_string())?;
    let mut endpoints = Vec::new();
    for entry in value.as_array().ok_or("not a list")? {
        let ip = entry["ip_address"].as_str().ok_or("no address")?;
        if ip.starts_with("192.168.") {
            return Err("non-public address".to_owned());
        }
        endpoints.push(FeedEndpoint {
            ip_address: ip_from_text(ip).ok_or("bad address")?,
            port: entry["port"].as_u64().ok_or("no port")? as u16,
        });
    }
    Ok(ValidatedThreatFeed {
        endpoints,
        metadata: FeedMetadata {
            source: FEED_URL.to_owned(),
            retrieved_at_unix_secs: retrieved_at,
            content_sha256: sha256_hex(&raw),
        },
    })
}

fn parse_text(raw: String, retrieved_at: u64) -> Result<ValidatedThreatFeed, String> {
    parse(raw.into_bytes(), retrieved_at)
}

fn decode(bytes: Vec<u8>) -> Result<CacheEnvelope, String> {
    let value: serde_json::Value =
        serde_json::from_slice(&bytes).map_err(|error| error.to_string())?;
    let text = |key: &str| {
        value[key]
            .as_str()
            .map(|text| text.to_owned())
            .ok_or_else(|| format!("missing {key}"))
    };
    let number = |key: &str| value[key].as_u64().ok_or_else(|| format!("missing {key}"));
    Ok(CacheEnvelope {
        format_version: number("format_version")? as u32,
        source: text("source")?,
        license: text("license")?,
        retrieved_at_unix_secs: number("retrieved_at_unix_secs")?,
        content_sha256: text("content_sha256")?,
        entry_count: number("entry_count")?,
        raw_feed_json: text("raw_feed_json")?,
    })
}

fn opened(bytes: &[u8]) -> FileRead {
    FileRead::Opened {
        length: Some(bytes.len() as u64),
        bytes: Ok(bytes.to_vec()),
    }
}

fn load(bytes: &[u8], now: u64) -> Result<Option<ValidatedThreatFeed>, CacheError> {
    load_feodo_cache_at(opened(bytes), now, &source(), decode, parse_text)
}

fn written(ip: &str, port: u16) -> (ValidatedThreatFeed, String) {
    replace_feodo_cache_at(feed(ip, port), TEST_NOW, TEST_NOW + 1, &source(), parse).unwrap()
}

#[test]
fn writes_and_loads_a_validated_feed() {
    let original = feed("8.8.8.8", 443);

    let (written, text) =
        replace_feodo_cache_at(original, TEST_NOW, TEST_NOW + 1, &source(), parse).unwrap();
    let loaded = load(text.as_bytes(), TEST_NOW + 1).unwrap().unwrap();

    assert_eq!(loaded, written);
    assert_eq!(loaded.metadata.retrieved_at_unix_secs, TEST_NOW);
    assert_eq!(loaded.metadata.source, FEED_URL);
}

#[test]
fn corrupt_cache_is_rejected_without_returning_endpoints() {
    assert!(matches!(
        load(b"not-json", TEST_NOW),
        Err(CacheError::InvalidEnvelope(_))
    ));
}

#[test]
fn oversize_cache_is_rejected_before_deserialization() {
    let bytes = vec![b'x'; max_feodo_cache_file_bytes(&source()) + 1];
    assert!(matches!(
        load_feodo_cache_at(
            opened(&bytes),
            TEST_NOW,
            &source(),
            |_| panic!("an oversize cache is not decoded"),
            parse_text
        ),
        Err(CacheError::CacheTooLarge { .. })
    ));
}

#[test]
fn invalid_update_preserves_the_last_known_good_file() {
    let (_, previous) = written("8.8.8.8", 443);

    let invalid = br#"[{"ip_address":"192.168.1.1","port":443}]"#;
    assert!(matches!(
        replace_feodo_cache_at(
            invalid.to_vec(),
            TEST_NOW + 2,
            TEST_NOW + 2,
            &source(),
            parse
        ),
        Err(CacheError::Feed(_))
    ));
    assert_eq!(
        load(previous.as_bytes(), TEST_NOW + 2)
            .unwrap()
            .unwrap()
            .endpoints[0]
            .ip_address,
        ip_from_text("8.8.8.8").unwrap()
    );
}

#[test]
fn tampered_hash_is_rejected_after_reparsing_raw_feed() {
    let (_, text) = written("8.8.8.8", 443);

    let mut envelope: serde_json::Value = serde_json::from_str(&text).unwrap();
    envelope["raw_feed_json"] =
        serde_json::Value::String(String::from_utf8(feed("1.1.1.1", 443)).unwrap());
    envelope["content_sha256"] = serde_json::Value::String("00".repeat(32));
    let bytes = serde_json::to_vec(&envelope).unwrap();

    assert!(matches!(
        load(&bytes, TEST_NOW + 1),
        Err(CacheError::HashMismatch { .. })
    ));
}

#[test]
fn serialized_endpoints_are_ignored_in_favor_of_reparsed_raw_feed() {
    let (_, text) = written("8.8.8.8", 443);

    let mut envelope: serde_json::Value = serde_json::from_str(&text).unwrap();
    envelope["endpoints"] =
        serde_json::from_str(r#"[{"ip_address":"1.1.1.1","port":53}]"#).unwrap();
    let bytes = serde_json::to_vec(&envelope).unwrap();

    let loaded = load(&bytes, TEST_NOW + 1).unwrap().unwrap();
    assert_eq!(loaded.endpoints.len(), 1);
    assert_eq!(
        loaded.endpoints[0].ip_address,
        ip_from_text("8.8.8.8").unwrap()
    );
    assert_eq!(loaded.endpoints[0].port, 443);
}

#[test]
fn tampered_source_and_future_timestamp_are_rejected() {
    let (_, text) = written("8.8.8.8", 443);

    let mut envelope: serde_json::Value = serde_json::from_str(&text).unwrap();
    envelope["source"] = serde_json::Value::String("https://example.invalid/feed".into());
    let bytes = serde_json::to_vec(&envelope).unwrap();
    assert!(matches!(
        load(&bytes, TEST_NOW + 1),
        Err(CacheError::SourceMismatch { .. })
    ));

    let mut envelope: serde_json::Value = serde_json::from_str(&text).unwrap();
    envelope["retrieved_at_unix_secs"] = serde_json::Value::from(TEST_NOW + 10_000);
    let bytes = serde_json::to_vec(&envelope).unwrap();
    assert!(matches!(
        load(&bytes, TEST_NOW + 1),
        Err(CacheError::TimestampInFuture { .. })
    ));
}

#[test]
fn missing_cache_returns_none() {
    assert_eq!(
        load_feodo_cache_at(FileRead::Missing, TEST_NOW, &source(), decode, parse_text).unwrap(),
        None
    );
}

#[test]
fn each_part_of_an_envelope_is_checked() {
    let (kept, text) = written("8.8.8.8", 443);
    let changed = |key: &str, value: serde_json::Value| {
        let mut envelope: serde_json::Value = serde_json::from_str(&text).unwrap();
        envelope[key] = value;
        load(&serde_json::to_vec(&envelope).unwrap(), TEST_NOW + 1).unwrap_err()
    };
    assert!(matches!(
        changed("format_version", 2.into()),
        CacheError::UnsupportedVersion {
            actual: 2,
            expected: 1
        }
    ));
    assert!(matches!(
        changed("license", "other".into()),
        CacheError::LicenseMismatch { .. }
    ));
    assert!(matches!(
        changed("entry_count", 2.into()),
        CacheError::EntryCountMismatch {
            expected: 2,
            actual: 1
        }
    ));
    assert!(matches!(
        changed("raw_feed_json", "nonsense".into()),
        CacheError::Feed(_)
    ));

    let envelope = decode(text.clone().into_bytes()).unwrap();
    assert_eq!(encode_envelope(&envelope), text);
    assert_eq!(accept_feed(&envelope, Ok(kept.clone())), Ok(kept));
}

#[test]
fn a_clock_that_fails_refuses_the_cache() {
    let (kept, text) = written("8.8.8.8", 443);
    assert!(matches!(
        load_feodo_cache(
            opened(text.as_bytes()),
            Err("no clock".to_owned()),
            &source(),
            decode,
            parse_text
        ),
        Err(CacheError::Io(_))
    ));
    assert_eq!(
        load_feodo_cache(
            opened(text.as_bytes()),
            Ok(TEST_NOW + 1),
            &source(),
            decode,
            parse_text
        ),
        Ok(Some(kept.clone()))
    );
    assert!(replace_feodo_cache(
        feed("8.8.8.8", 443),
        TEST_NOW,
        Err("no clock".to_owned()),
        &source(),
        parse
    )
    .is_err());
    assert_eq!(
        replace_feodo_cache(
            feed("8.8.8.8", 443),
            TEST_NOW,
            Ok(TEST_NOW + 1),
            &source(),
            parse
        ),
        Ok((kept, text))
    );
}

#[test]
fn feeds_from_the_future_and_bytes_that_are_no_text_are_not_kept() {
    assert!(matches!(
        replace_feodo_cache_at(
            feed("8.8.8.8", 443),
            TEST_NOW + 301,
            TEST_NOW,
            &source(),
            parse
        ),
        Err(CacheError::TimestampInFuture { .. })
    ));
    let lax = |_: Vec<u8>, at: u64| parse(feed("8.8.8.8", 443), at);
    assert!(matches!(
        replace_feodo_cache_at(vec![0xff, 0xfe], TEST_NOW, TEST_NOW, &source(), lax),
        Err(CacheError::InvalidEnvelope(_))
    ));
}

#[test]
fn failures_are_told() {
    assert!(matches!(
        load_feodo_cache_at(
            FileRead::Failed("denied".to_owned()),
            TEST_NOW,
            &source(),
            decode,
            parse_text
        ),
        Err(CacheError::Io(_))
    ));
    let message = CacheError::UnsupportedVersion {
        actual: 2,
        expected: 1,
    }
    .message();
    assert!(message.contains('2') && message.contains('1'), "{message}");
}
