//! Retrieving the threat feed.

use vapour_protection::download::{check_answer, read_bounded, refresh_feodo, Answer};
use vapour_protection::feeds::{FeedMetadata, FeedSource, ValidatedThreatFeed};

fn source() -> FeedSource {
    FeedSource {
        url: "https://feeds.example/recommended.json".to_owned(),
        license: "CC0".to_owned(),
        max_input_bytes: 4096,
    }
}

fn parse(raw: Vec<u8>, at: u64) -> Result<ValidatedThreatFeed, String> {
    if raw != b"[]" {
        return Err("invalid fixture".to_owned());
    }
    Ok(ValidatedThreatFeed {
        endpoints: Vec::new(),
        metadata: FeedMetadata {
            source: source().url,
            retrieved_at_unix_secs: at,
            content_sha256: vapour_protection::digest::sha256_hex(b"[]"),
        },
    })
}

#[test]
fn rejects_oversize_body_without_content_length() {
    // A body without end is read to one byte beyond the limit.
    assert!(read_bounded(Some(vec![b' '; source().max_input_bytes + 1]), &source()).is_err());
    assert_eq!(read_bounded(Some(b"[]".to_vec()), &source()).unwrap(), b"[]");
}

#[test]
fn answers_are_checked_before_the_body_is_read() {
    let answer = |status: u16, content_length: Option<u64>| Answer::Response {
        status,
        content_length,
    };
    assert_eq!(check_answer(&answer(200, None), &source()), Ok(()));
    assert_eq!(check_answer(&answer(200, Some(4096)), &source()), Ok(()));
    assert_eq!(
        check_answer(&answer(200, Some(4097)), &source()),
        Err("Threat feed exceeds size limit".to_owned())
    );
    assert_eq!(
        check_answer(&answer(404, None), &source()),
        Err("Threat feed HTTP 404".to_owned())
    );
    assert_eq!(
        check_answer(&Answer::Failed, &source()),
        Err("Threat feed download failed".to_owned())
    );
    assert_eq!(
        check_answer(&Answer::ClientUnavailable, &source()),
        Err("HTTPS client unavailable".to_owned())
    );
    assert_eq!(
        read_bounded(None, &source()),
        Err("Threat feed body could not be read".to_owned())
    );
}

#[test]
fn a_retrieved_feed_is_validated_and_kept() {
    let (feed, text) = refresh_feodo(
        Ok(b"[]".to_vec()),
        Some(1_757_000_000),
        Ok(1_757_000_000),
        &source(),
        parse,
    )
    .unwrap();
    assert_eq!(feed.metadata.retrieved_at_unix_secs, 1_757_000_000);
    let kept: serde_json::Value = serde_json::from_str(&text).unwrap();
    assert_eq!(kept["raw_feed_json"], "[]");
    assert_eq!(kept["entry_count"], 0);
    assert_eq!(
        kept["content_sha256"],
        "4f53cda18c2baa0c0354bb5f9a3ecbe5ed12ab4d8e11ba873c2f11161202b945"
    );

    assert_eq!(
        refresh_feodo(
            Err("Threat feed download failed".to_owned()),
            Some(1),
            Ok(1),
            &source(),
            parse
        ),
        Err("Threat feed download failed".to_owned())
    );
    assert_eq!(
        refresh_feodo(Ok(b"[]".to_vec()), None, Ok(1), &source(), parse),
        Err("System clock unavailable".to_owned())
    );
    assert_eq!(
        refresh_feodo(Ok(b"[1]".to_vec()), Some(1), Ok(1), &source(), parse),
        Err("Threat feed validation or cache update failed".to_owned())
    );
}
