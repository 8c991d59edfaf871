//! The filter that is kept on disk.

use vapour_protection::atomic_file::FileRead;
use vapour_protection::dns_cache::{
    accept, count_rules, encode_filter, load, replace, DnsFilter, FilterSource, MAX_CACHE_AGE_SECS,
    MAX_ENVELOPE, MAX_SOURCE_BYTES, MAX_TEXT, REFRESH_INTERVAL_SECS,
};

const SOURCE: &str = "https://filters.example/dns.txt";

fn source() -> FilterSource {
    FilterSource::new(SOURCE.to_owned()).unwrap()
}

fn parser(text: String) -> Result<u64, String> {
    if text == "||ads.example^" {
        Ok(1)
    } else {
        Err("invalid fixture".into())
    }
}

fn text_of(value: &serde_json::Value, key: &str) -> Result<String, String> {
    value[key]
        .as_str()
        .map(|text| text.to_owned())
        .ok_or_else(|| format!("missing {key}"))
}

fn number_of(value: &serde_json::Value, key: &str) -> Result<u64, String> {
    value[key].as_u64().ok_or_else(|| format!("missing {key}"))
}

fn decode(bytes: Vec<u8>) -> Result<DnsFilter, String> {
    let value: serde_json::Value =
        serde_json::from_slice(&bytes).map_err(|error| error.to_string())?;
    Ok(DnsFilter {
        version: number_of(&value, "version")? as u8,
        source: text_of(&value, "source")?,
        retrieved_at: number_of(&value, "retrieved_at")?,
        hash: text_of(&value, "hash")?,
        rules_count: number_of(&value, "rules_count")?,
        rules: text_of(&value, "rules")?,
    })
}

fn opened(bytes: &[u8]) -> FileRead {
    FileRead::Opened {
        length: Some(bytes.len() as u64),
        bytes: Ok(bytes.to_vec()),
    }
}

#[test]
fn expired_cache_cannot_reenable_protection() {
    let (_, text) = replace("||ads.example^".into(), 100, &source(), parser).unwrap();
    let expired = load(
        opened(text.as_bytes()),
        100 + 8 * 86400,
        &source(),
        decode,
        parser,
    );
    assert!(
        expired.is_err(),
        "an old list must be refreshed before enabling"
    );
}

#[test]
fn invalid_replacement_preserves_the_previous_filter() {
    assert!(load(FileRead::Missing, 100, &source(), decode, parser)
        .unwrap()
        .is_none());
    let (_, before) = replace("||ads.example^".into(), 100, &source(), parser).unwrap();
    assert!(replace("invalid".into(), 101, &source(), parser).is_err());
    assert!(replace("! comments only".into(), 101, &source(), |_| Ok(0)).is_err());
    assert_eq!(
        load(opened(before.as_bytes()), 102, &source(), decode, parser)
            .unwrap()
            .unwrap()
            .rules_count,
        1
    );
    assert!(load(opened(before.as_bytes()), 102, &source(), decode, |_| Err(
        "parser rejects cached text".into()
    ))
    .is_err());
    let mut tampered: serde_json::Value = serde_json::from_str(&before).unwrap();
    tampered["rules"] = "||other.example^".into();
    let bytes = serde_json::to_vec(&tampered).unwrap();
    assert!(load(opened(&bytes), 102, &source(), decode, parser).is_err());
}

#[test]
fn what_is_kept_is_what_was_replaced() {
    let (kept, text) = replace("||ads.example^".into(), 100, &source(), parser).unwrap();
    assert_eq!(kept.version, 1);
    assert_eq!(kept.retrieved_at, 100);
    assert_eq!(kept.source, SOURCE);
    assert_eq!(
        kept.hash,
        "2067b80d0bbf4c061ef92bda0e33c06f17589229ed1bdaf561d1260995e16f23"
    );
    assert_eq!(encode_filter(&kept), text);
    let loaded = load(opened(text.as_bytes()), 100, &source(), decode, parser)
        .unwrap()
        .unwrap();
    assert_eq!(loaded, kept);
    assert_eq!(loaded.copied(), kept);
}

#[test]
fn filters_age() {
    let (kept, _) = replace("||ads.example^".into(), 1000, &source(), parser).unwrap();
    assert!(!kept.stale(1000 + REFRESH_INTERVAL_SECS - 1));
    assert!(kept.stale(1000 + REFRESH_INTERVAL_SECS));
    assert!(accept(kept.copied(), 1000 + MAX_CACHE_AGE_SECS, &source(), parser).is_ok());
    assert!(accept(kept.copied(), 1001 + MAX_CACHE_AGE_SECS, &source(), parser).is_err());
    assert!(accept(kept.copied(), 700, &source(), parser).is_ok());
    assert!(accept(kept.copied(), 699, &source(), parser).is_err());
    let other = FilterSource::new("https://other.example".to_owned()).unwrap();
    assert!(accept(kept, 1000, &other, parser).is_err());
}

#[test]
fn rules_and_files_are_bounded() {
    assert!(replace("x".repeat(MAX_TEXT + 1), 100, &source(), |_| Ok(1)).is_err());
    assert!(load(
        FileRead::Opened {
            length: Some(MAX_ENVELOPE as u64 + 1),
            bytes: Ok(Vec::new())
        },
        100,
        &source(),
        decode,
        parser
    )
    .is_err());
    assert!(load(
        FileRead::Failed("denied".to_owned()),
        100,
        &source(),
        decode,
        parser
    )
    .is_err());
    assert!(count_rules(Ok(0)).is_err());
    assert_eq!(count_rules(Ok(7)), Ok(7));
    assert!(count_rules(Err("bad".to_owned())).is_err());
}

#[test]
fn the_largest_rules_fit_their_file() {
    let rules = "\u{1}".repeat(MAX_TEXT);
    let (kept, text) = replace(rules, 100, &source(), |_| Ok(7)).unwrap();
    assert!(text.len() <= MAX_ENVELOPE);
    let loaded = load(opened(text.as_bytes()), 100, &source(), decode, |_| Ok(7)).unwrap();
    assert_eq!(loaded, Some(kept));
}

#[test]
fn the_longest_address_fits_its_file() {
    assert_eq!(FilterSource::new("x".repeat(MAX_SOURCE_BYTES + 1)), None);
    let source = FilterSource::new("\u{1}".repeat(MAX_SOURCE_BYTES)).unwrap();
    assert_eq!(source.url().len(), MAX_SOURCE_BYTES);
    let rules = "\u{1}".repeat(MAX_TEXT);
    let (kept, text) = replace(rules, u64::MAX, &source, |_| Ok(u64::MAX)).unwrap();
    assert!(text.len() <= MAX_ENVELOPE);
    let loaded = load(opened(text.as_bytes()), u64::MAX, &source, decode, |_| {
        Ok(u64::MAX)
    });
    assert_eq!(loaded, Ok(Some(kept)));
}
