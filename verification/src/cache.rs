//! The last threat feed that was good, in a small JSON envelope.
//!
//! What is kept on disk is the feed as it was retrieved. Every load parses and
//! validates it again before an endpoint is handed out.

use crate::atomic_file::{
    bounded_contents, holds, read_bounded_file, FileRead, ReadFault, ReadFaultView,
};
use crate::feeds::{FeedSource, ValidatedThreatFeed};
use crate::json::{json_string, json_text};
use crate::text::{
    byte_len, decimal, decimal_text, join, join4, join5, quoted, quoted_text, same_text,
};
use vstd::prelude::*;
use vstd::string::*;

verus! {

/// The version of the envelope.
pub const FEODO_CACHE_FORMAT_VERSION: u32 = 1;

/// How far the time of a feed may be ahead, in seconds: the clocks of its publisher
/// and of this machine may differ.
pub const MAX_CACHE_TIMESTAMP_SKEW_SECS: u64 = 300;

/// How large a cache may be: twice the feed, since JSON escapes can expand it, and
/// something for the rest of the envelope.
pub open spec fn cache_limit(source: FeedSource) -> nat {
    if source.max_input_bytes * 2 > usize::MAX - 16384 {
        usize::MAX as nat
    } else {
        (source.max_input_bytes * 2 + 16384) as nat
    }
}

/// How large a cache may be, in bytes.
pub fn max_feodo_cache_file_bytes(source: &FeedSource) -> (result: usize)
    ensures
        result == cache_limit(*source),
{
    source.max_input_bytes.saturating_add(source.max_input_bytes).saturating_add(16_384)
}

/// Why a cache is refused.
#[derive(Clone, Debug, PartialEq, Eq)]
#[allow(inconsistent_fields)]
pub enum CacheError {
    Io(String),
    CacheTooLarge { actual: u64, maximum: usize },
    InvalidEnvelope(String),
    UnsupportedVersion { actual: u32, expected: u32 },
    SourceMismatch { actual: String },
    LicenseMismatch { actual: String },
    TimestampInFuture { retrieved_at: u64, now: u64 },
    HashMismatch { expected: String, actual: String },
    EntryCountMismatch { expected: u64, actual: usize },
    /// The feed itself is not valid.
    Feed(String),
}

/// Why a cache is refused, as mathematical values.
#[allow(inconsistent_fields)]
pub ghost enum CacheFault {
    Io(Seq<char>),
    CacheTooLarge { actual: u64, maximum: usize },
    InvalidEnvelope(Seq<char>),
    UnsupportedVersion { actual: u32, expected: u32 },
    SourceMismatch { actual: Seq<char> },
    LicenseMismatch { actual: Seq<char> },
    TimestampInFuture { retrieved_at: u64, now: u64 },
    HashMismatch { expected: Seq<char>, actual: Seq<char> },
    EntryCountMismatch { expected: u64, actual: usize },
    Feed(Seq<char>),
}

impl CacheError {
    pub open spec fn view(&self) -> CacheFault {
        match self {
            CacheError::Io(message) => CacheFault::Io(message@),
            CacheError::CacheTooLarge { actual, maximum } => CacheFault::CacheTooLarge {
                actual: *actual,
                maximum: *maximum,
            },
            CacheError::InvalidEnvelope(message) => CacheFault::InvalidEnvelope(message@),
            CacheError::UnsupportedVersion { actual, expected } => CacheFault::UnsupportedVersion {
                actual: *actual,
                expected: *expected,
            },
            CacheError::SourceMismatch { actual } => CacheFault::SourceMismatch {
                actual: actual@,
            },
            CacheError::LicenseMismatch { actual } => CacheFault::LicenseMismatch {
                actual: actual@,
            },
            CacheError::TimestampInFuture { retrieved_at, now } => CacheFault::TimestampInFuture {
                retrieved_at: *retrieved_at,
                now: *now,
            },
            CacheError::HashMismatch { expected, actual } => CacheFault::HashMismatch {
                expected: expected@,
                actual: actual@,
            },
            CacheError::EntryCountMismatch { expected, actual } => CacheFault::EntryCountMismatch {
                expected: *expected,
                actual: *actual,
            },
            CacheError::Feed(message) => CacheFault::Feed(message@),
        }
    }

    /// The message for a reader.
    pub fn message(&self) -> (result: String)
        ensures
            result@ == self@.message(),
    {
        match self {
            CacheError::Io(message) => join("cache I/O failed: ", message.as_str()),
            CacheError::CacheTooLarge { actual, maximum } => join4(
                "cache is ",
                decimal_text(*actual).as_str(),
                " bytes; maximum is ",
                decimal_text(*maximum as u64).as_str(),
            ),
            CacheError::InvalidEnvelope(message) => join(
                "cache envelope is invalid: ",
                message.as_str(),
            ),
            CacheError::UnsupportedVersion { actual, expected } => join4(
                "cache format version ",
                decimal_text(*actual as u64).as_str(),
                " is unsupported; expected ",
                decimal_text(*expected as u64).as_str(),
            ),
            CacheError::SourceMismatch { actual } => join(
                "cache source is not the Feodo recommended feed: ",
                quoted_text(actual.as_str()).as_str(),
            ),
            CacheError::LicenseMismatch { actual } => join(
                "cache license is not the Feodo feed license: ",
                quoted_text(actual.as_str()).as_str(),
            ),
            CacheError::TimestampInFuture { retrieved_at, now } => join4(
                "cache timestamp ",
                decimal_text(*retrieved_at).as_str(),
                " is more than 300s ahead of ",
                decimal_text(*now).as_str(),
            ),
            CacheError::HashMismatch { expected, actual } => join4(
                "cache content hash ",
                quoted_text(expected.as_str()).as_str(),
                " does not match raw feed hash ",
                quoted_text(actual.as_str()).as_str(),
            ),
            CacheError::EntryCountMismatch { expected, actual } => join4(
                "cache entry count ",
                decimal_text(*expected).as_str(),
                " does not match reparsed feed count ",
                decimal_text(*actual as u64).as_str(),
            ),
            CacheError::Feed(message) => join("cached feed is invalid: ", message.as_str()),
        }
    }
}

impl CacheFault {
    /// The message for a reader.
    pub open spec fn message(self) -> Seq<char> {
        match self {
            CacheFault::Io(message) => "cache I/O failed: "@ + message,
            CacheFault::CacheTooLarge { actual, maximum } => "cache is "@ + decimal(actual as nat)
                + " bytes; maximum is "@ + decimal(maximum as nat),
            CacheFault::InvalidEnvelope(message) => "cache envelope is invalid: "@ + message,
            CacheFault::UnsupportedVersion { actual, expected } => "cache format version "@
                + decimal(actual as nat) + " is unsupported; expected "@ + decimal(
                expected as nat,
            ),
            CacheFault::SourceMismatch { actual } =>
            "cache source is not the Feodo recommended feed: "@ + quoted(actual),
            CacheFault::LicenseMismatch { actual } =>
            "cache license is not the Feodo feed license: "@ + quoted(actual),
            CacheFault::TimestampInFuture { retrieved_at, now } => "cache timestamp "@ + decimal(
                retrieved_at as nat,
            ) + " is more than 300s ahead of "@ + decimal(now as nat),
            CacheFault::HashMismatch { expected, actual } => "cache content hash "@ + quoted(
                expected,
            ) + " does not match raw feed hash "@ + quoted(actual),
            CacheFault::EntryCountMismatch { expected, actual } => "cache entry count "@ + decimal(
                expected as nat,
            ) + " does not match reparsed feed count "@ + decimal(actual as nat),
            CacheFault::Feed(message) => "cached feed is invalid: "@ + message,
        }
    }
}

/// What is kept on disk.
#[derive(Debug, PartialEq, Eq)]
pub struct CacheEnvelope {
    pub format_version: u32,
    pub source: String,
    pub license: String,
    pub retrieved_at_unix_secs: u64,
    pub content_sha256: String,
    pub entry_count: u64,
    pub raw_feed_json: String,
}

/// What is kept on disk, as mathematical values.
pub ghost struct EnvelopeView {
    pub format_version: u32,
    pub source: Seq<char>,
    pub license: Seq<char>,
    pub retrieved_at: u64,
    pub content_sha256: Seq<char>,
    pub entry_count: u64,
    pub raw_feed: Seq<char>,
}

impl CacheEnvelope {
    pub open spec fn view(&self) -> EnvelopeView {
        EnvelopeView {
            format_version: self.format_version,
            source: self.source@,
            license: self.license@,
            retrieved_at: self.retrieved_at_unix_secs,
            content_sha256: self.content_sha256@,
            entry_count: self.entry_count,
            raw_feed: self.raw_feed_json@,
        }
    }
}

/// The JSON of the envelope.
pub open spec fn envelope_json(envelope: EnvelopeView) -> Seq<char> {
    "{\"format_version\":"@ + decimal(envelope.format_version as nat) + ",\"source\":"@
        + json_string(envelope.source) + ",\"license\":"@ + json_string(envelope.license)
        + ",\"retrieved_at_unix_secs\":"@ + decimal(envelope.retrieved_at as nat)
        + ",\"content_sha256\":"@ + json_string(envelope.content_sha256) + ",\"entry_count\":"@
        + decimal(envelope.entry_count as nat) + ",\"raw_feed_json\":"@ + json_string(
        envelope.raw_feed,
    ) + "}"@
}

/// The JSON of the envelope.
pub fn encode_envelope(envelope: &CacheEnvelope) -> (result: String)
    ensures
        result@ == envelope_json(envelope@),
{
    let mut text = join5(
        "{\"format_version\":",
        decimal_text(envelope.format_version as u64).as_str(),
        ",\"source\":",
        json_text(envelope.source.as_str()).as_str(),
        ",\"license\":",
    );
    text.append(json_text(envelope.license.as_str()).as_str());
    text.append(",\"retrieved_at_unix_secs\":");
    text.append(decimal_text(envelope.retrieved_at_unix_secs).as_str());
    text.append(",\"content_sha256\":");
    text.append(json_text(envelope.content_sha256.as_str()).as_str());
    text.append(",\"entry_count\":");
    text.append(decimal_text(envelope.entry_count).as_str());
    text.append(",\"raw_feed_json\":");
    text.append(json_text(envelope.raw_feed_json.as_str()).as_str());
    text.append("}");
    text
}

/// Whether a feed can have been retrieved at a time.
pub open spec fn plausible_time(retrieved_at: u64, now: u64) -> bool {
    retrieved_at <= now + MAX_CACHE_TIMESTAMP_SKEW_SECS
}

fn validate_timestamp(retrieved_at: u64, now: u64) -> (result: Result<(), CacheError>)
    ensures
        result is Ok <==> plausible_time(retrieved_at, now),
        result matches Err(error) ==> error@ == (CacheFault::TimestampInFuture {
            retrieved_at,
            now,
        }),
{
    if retrieved_at > now.saturating_add(MAX_CACHE_TIMESTAMP_SKEW_SECS) {
        return Err(CacheError::TimestampInFuture { retrieved_at, now });
    }
    Ok(())
}

/// What is wrong with an envelope before its feed is looked at.
pub open spec fn envelope_fault(
    envelope: EnvelopeView,
    now: u64,
    source: FeedSource,
) -> Option<CacheFault> {
    if envelope.format_version != FEODO_CACHE_FORMAT_VERSION {
        Some(
            CacheFault::UnsupportedVersion {
                actual: envelope.format_version,
                expected: FEODO_CACHE_FORMAT_VERSION,
            },
        )
    } else if envelope.source != source.url@ {
        Some(CacheFault::SourceMismatch { actual: envelope.source })
    } else if envelope.license != source.license@ {
        Some(CacheFault::LicenseMismatch { actual: envelope.license })
    } else if !plausible_time(envelope.retrieved_at, now) {
        Some(CacheFault::TimestampInFuture { retrieved_at: envelope.retrieved_at, now })
    } else {
        None
    }
}

/// What a sound envelope is worth, given what its feed parses to.
pub open spec fn feed_outcome(
    envelope: EnvelopeView,
    parsed: Result<ValidatedThreatFeed, String>,
) -> Result<ValidatedThreatFeed, CacheFault> {
    match parsed {
        Err(message) => Err(CacheFault::Feed(message@)),
        Ok(feed) => if envelope.content_sha256 != feed.metadata.content_sha256@ {
            Err(
                CacheFault::HashMismatch {
                    expected: envelope.content_sha256,
                    actual: feed.metadata.content_sha256@,
                },
            )
        } else if envelope.entry_count != feed.endpoints@.len() {
            Err(
                CacheFault::EntryCountMismatch {
                    expected: envelope.entry_count,
                    actual: feed.endpoints@.len() as usize,
                },
            )
        } else {
            Ok(feed)
        },
    }
}

/// A result with its error as a mathematical value.
pub open spec fn feed_result(result: Result<ValidatedThreatFeed, CacheError>) -> Result<
    ValidatedThreatFeed,
    CacheFault,
> {
    match result {
        Ok(feed) => Ok(feed),
        Err(error) => Err(error@),
    }
}

/// Takes what the feed of an envelope parses to.
pub fn accept_feed(envelope: &CacheEnvelope, parsed: Result<ValidatedThreatFeed, String>) -> (result:
    Result<ValidatedThreatFeed, CacheError>)
    ensures
        feed_result(result) == feed_outcome(envelope@, parsed),
{
    match parsed {
        Err(message) => Err(CacheError::Feed(message)),
        Ok(feed) => {
            if !same_text(
                envelope.content_sha256.as_str(),
                feed.metadata.content_sha256.as_str(),
            ) {
                return Err(
                    CacheError::HashMismatch {
                        expected: envelope.content_sha256.clone(),
                        actual: feed.metadata.content_sha256.clone(),
                    },
                );
            }
            if envelope.entry_count != feed.endpoints.len() as u64 {
                return Err(
                    CacheError::EntryCountMismatch {
                        expected: envelope.entry_count,
                        actual: feed.endpoints.len(),
                    },
                );
            }
            Ok(feed)
        },
    }
}

/// Whether `result` is what an envelope comes to with a parser: it is refused for
/// what is wrong with it, or its feed is parsed once and decides.
pub open spec fn validated<P: FnOnce(String, u64) -> Result<ValidatedThreatFeed, String>>(
    envelope: EnvelopeView,
    now: u64,
    source: FeedSource,
    parse: P,
    result: Result<ValidatedThreatFeed, CacheFault>,
) -> bool {
    match envelope_fault(envelope, now, source) {
        Some(fault) => result == Err::<ValidatedThreatFeed, CacheFault>(fault),
        None => exists|raw: String, parsed: Result<ValidatedThreatFeed, String>|
            raw@ == envelope.raw_feed && #[trigger] call_ensures(
                parse,
                (raw, envelope.retrieved_at),
                parsed,
            ) && result == feed_outcome(envelope, parsed),
    }
}

/// Validates an envelope; its feed is parsed again by `parse`.
pub fn validate_envelope<P: FnOnce(String, u64) -> Result<ValidatedThreatFeed, String>>(
    envelope: CacheEnvelope,
    now: u64,
    source: &FeedSource,
    parse: P,
) -> (result: Result<ValidatedThreatFeed, CacheError>)
    requires
        forall|raw: String, at: u64| call_requires(parse, (raw, at)),
    ensures
        validated(envelope@, now, *source, parse, feed_result(result)),
{
    if envelope.format_version != FEODO_CACHE_FORMAT_VERSION {
        return Err(
            CacheError::UnsupportedVersion {
                actual: envelope.format_version,
                expected: FEODO_CACHE_FORMAT_VERSION,
            },
        );
    }
    if !same_text(envelope.source.as_str(), source.url.as_str()) {
        return Err(CacheError::SourceMismatch { actual: envelope.source });
    }
    if !same_text(envelope.license.as_str(), source.license.as_str()) {
        return Err(CacheError::LicenseMismatch { actual: envelope.license });
    }
    if let Err(error) = validate_timestamp(envelope.retrieved_at_unix_secs, now) {
        return Err(error);
    }
    let raw = envelope.raw_feed_json.clone();
    let parsed = parse(raw, envelope.retrieved_at_unix_secs);
    accept_feed(&envelope, parsed)
}

/// Whether `result` is what a cache file comes to with a decoder and a parser.
pub open spec fn loaded<
    D: FnOnce(Vec<u8>) -> Result<CacheEnvelope, String>,
    P: FnOnce(String, u64) -> Result<ValidatedThreatFeed, String>,
>(
    file: FileRead,
    now: u64,
    source: FeedSource,
    decode: D,
    parse: P,
    result: Result<Option<ValidatedThreatFeed>, CacheError>,
) -> bool {
    match bounded_contents(file, cache_limit(source)) {
        Ok(None) => result matches Ok(None),
        Err(ReadFaultView::Io(message)) => result matches Err(error) && error@ == CacheFault::Io(
            message,
        ),
        Err(ReadFaultView::TooLarge { actual }) => result matches Err(error) && error@
            == (CacheFault::CacheTooLarge { actual, maximum: cache_limit(source) as usize }),
        Ok(Some(contents)) => exists|bytes: Vec<u8>, decoded: Result<CacheEnvelope, String>|
            {
                &&& bytes@ == contents
                &&& #[trigger] call_ensures(decode, (bytes,), decoded)
                &&& match decoded {
                    Err(message) => result matches Err(error) && error@
                        == CacheFault::InvalidEnvelope(message@),
                    Ok(envelope) => match result {
                        Ok(None) => false,
                        Ok(Some(feed)) => validated(envelope@, now, source, parse, Ok(feed)),
                        Err(error) => validated(envelope@, now, source, parse, Err(error@)),
                    },
                }
            },
    }
}

/// Loads a cache at a given time; `None` where there is none. The file is read by
/// the caller, and decoded and parsed only where its size is in order.
pub fn load_feodo_cache_at<
    D: FnOnce(Vec<u8>) -> Result<CacheEnvelope, String>,
    P: FnOnce(String, u64) -> Result<ValidatedThreatFeed, String>,
>(file: FileRead, now: u64, source: &FeedSource, decode: D, parse: P) -> (result: Result<
    Option<ValidatedThreatFeed>,
    CacheError,
>)
    requires
        forall|bytes: Vec<u8>| call_requires(decode, (bytes,)),
        forall|raw: String, at: u64| call_requires(parse, (raw, at)),
    ensures
        loaded(file, now, *source, decode, parse, result),
{
    let maximum = max_feodo_cache_file_bytes(source);
    let contents = match read_bounded_file(file, maximum) {
        Err(ReadFault::Io(message)) => {
            return Err(CacheError::Io(message));
        },
        Err(ReadFault::TooLarge { actual }) => {
            return Err(CacheError::CacheTooLarge { actual, maximum });
        },
        Ok(None) => {
            return Ok(None);
        },
        Ok(Some(contents)) => contents,
    };
    let decoded = decode(contents);
    match decoded {
        Err(message) => Err(CacheError::InvalidEnvelope(message)),
        Ok(envelope) => match validate_envelope(envelope, now, source, parse) {
            Ok(feed) => Ok(Some(feed)),
            Err(error) => Err(error),
        },
    }
}

/// Loads a cache; the clock may be unusable.
pub fn load_feodo_cache<
    D: FnOnce(Vec<u8>) -> Result<CacheEnvelope, String>,
    P: FnOnce(String, u64) -> Result<ValidatedThreatFeed, String>,
>(
    file: FileRead,
    clock: Result<u64, String>,
    source: &FeedSource,
    decode: D,
    parse: P,
) -> (result: Result<Option<ValidatedThreatFeed>, CacheError>)
    requires
        forall|bytes: Vec<u8>| call_requires(decode, (bytes,)),
        forall|raw: String, at: u64| call_requires(parse, (raw, at)),
    ensures
        match clock {
            Ok(now) => loaded(file, now, *source, decode, parse, result),
            Err(message) => result matches Err(error) && error@ == CacheFault::Io(
                "system clock is before Unix epoch: "@ + message@,
            ),
        },
{
    match clock {
        Ok(now) => load_feodo_cache_at(file, now, source, decode, parse),
        Err(message) => Err(
            CacheError::Io(join("system clock is before Unix epoch: ", message.as_str())),
        ),
    }
}

/// The envelope of a feed that was just retrieved.
pub open spec fn new_envelope(
    feed: ValidatedThreatFeed,
    raw: Seq<char>,
    retrieved_at: u64,
    source: FeedSource,
) -> EnvelopeView {
    EnvelopeView {
        format_version: FEODO_CACHE_FORMAT_VERSION,
        source: source.url@,
        license: source.license@,
        retrieved_at,
        content_sha256: feed.metadata.content_sha256@,
        entry_count: feed.endpoints@.len() as u64,
        raw_feed: raw,
    }
}

/// What a feed that was just retrieved comes to, given what it parses to: the feed
/// and the text to keep.
pub open spec fn replacement(
    parsed: Result<ValidatedThreatFeed, String>,
    raw: Seq<u8>,
    retrieved_at: u64,
    now: u64,
    source: FeedSource,
) -> Result<(ValidatedThreatFeed, Seq<char>), CacheFault> {
    match parsed {
        Err(message) => Err(CacheFault::Feed(message@)),
        Ok(feed) => if !plausible_time(retrieved_at, now) {
            Err(CacheFault::TimestampInFuture { retrieved_at, now })
        } else if !vstd::utf8::valid_utf8(raw) {
            Err(CacheFault::InvalidEnvelope("raw feed is not valid UTF-8 JSON"@))
        } else {
            let text = envelope_json(
                new_envelope(feed, vstd::utf8::decode_utf8(raw), retrieved_at, source),
            );
            if byte_len(text) > cache_limit(source) {
                Err(
                    CacheFault::CacheTooLarge {
                        actual: byte_len(text) as u64,
                        maximum: cache_limit(source) as usize,
                    },
                )
            } else {
                Ok((feed, text))
            }
        },
    }
}

/// A replacement with its parts as mathematical values.
pub open spec fn replacement_result(
    result: Result<(ValidatedThreatFeed, String), CacheError>,
) -> Result<(ValidatedThreatFeed, Seq<char>), CacheFault> {
    match result {
        Ok((feed, text)) => Ok((feed, text@)),
        Err(error) => Err(error@),
    }
}

/// `String::from_utf8` makes a text of bytes where they are valid UTF-8, and fails
/// where they are not.
#[verifier::external_body]
fn utf8_text(bytes: Vec<u8>) -> (result: Option<String>)
    ensures
        result is Some <==> vstd::utf8::valid_utf8(bytes@),
        result matches Some(text) ==> text@ == vstd::utf8::decode_utf8(bytes@),
{
    match String::from_utf8(bytes) {
        Ok(text) => Some(text),
        Err(_) => None,
    }
}

/// Takes what a retrieved feed parses to. Nothing is to be kept where this fails.
pub fn make_replacement(
    parsed: Result<ValidatedThreatFeed, String>,
    raw: Vec<u8>,
    retrieved_at: u64,
    now: u64,
    source: &FeedSource,
) -> (result: Result<(ValidatedThreatFeed, String), CacheError>)
    ensures
        replacement_result(result) == replacement(parsed, raw@, retrieved_at, now, *source),
{
    let feed = match parsed {
        Ok(feed) => feed,
        Err(message) => {
            return Err(CacheError::Feed(message));
        },
    };
    if let Err(error) = validate_timestamp(retrieved_at, now) {
        return Err(error);
    }
    let raw_feed_json = match utf8_text(raw) {
        Some(text) => text,
        None => {
            return Err(
                CacheError::InvalidEnvelope("raw feed is not valid UTF-8 JSON".to_owned()),
            );
        },
    };
    let envelope = CacheEnvelope {
        format_version: FEODO_CACHE_FORMAT_VERSION,
        source: source.url.clone(),
        license: source.license.clone(),
        retrieved_at_unix_secs: retrieved_at,
        content_sha256: feed.metadata.content_sha256.clone(),
        entry_count: feed.endpoints.len() as u64,
        raw_feed_json,
    };
    let text = encode_envelope(&envelope);
    let length: usize = text.as_str().as_bytes().len();
    let maximum = max_feodo_cache_file_bytes(source);
    if length > maximum {
        return Err(CacheError::CacheTooLarge { actual: length as u64, maximum });
    }
    Ok((feed, text))
}

/// Validates a retrieved feed at a given time, and gives the text to keep.
pub fn replace_feodo_cache_at<P: FnOnce(Vec<u8>, u64) -> Result<ValidatedThreatFeed, String>>(
    raw_feed_json: Vec<u8>,
    retrieved_at: u64,
    now: u64,
    source: &FeedSource,
    parse: P,
) -> (result: Result<(ValidatedThreatFeed, String), CacheError>)
    requires
        forall|raw: Vec<u8>, at: u64| call_requires(parse, (raw, at)),
    ensures
        exists|raw: Vec<u8>, parsed: Result<ValidatedThreatFeed, String>|
            raw@ == raw_feed_json@ && #[trigger] call_ensures(parse, (raw, retrieved_at), parsed)
                && replacement_result(result) == replacement(
                parsed,
                raw_feed_json@,
                retrieved_at,
                now,
                *source,
            ),
{
    let copy = crate::text::bytes_of(raw_feed_json.as_slice());
    let parsed = parse(copy, retrieved_at);
    make_replacement(parsed, raw_feed_json, retrieved_at, now, source)
}

/// Validates a retrieved feed, and gives the text to keep; the clock may be
/// unusable.
pub fn replace_feodo_cache<P: FnOnce(Vec<u8>, u64) -> Result<ValidatedThreatFeed, String>>(
    raw_feed_json: Vec<u8>,
    retrieved_at: u64,
    clock: Result<u64, String>,
    source: &FeedSource,
    parse: P,
) -> (result: Result<(ValidatedThreatFeed, String), CacheError>)
    requires
        forall|raw: Vec<u8>, at: u64| call_requires(parse, (raw, at)),
    ensures
        match clock {
            Err(message) => result matches Err(error) && error@ == CacheFault::Io(
                "system clock is before Unix epoch: "@ + message@,
            ),
            Ok(now) => exists|raw: Vec<u8>, parsed: Result<ValidatedThreatFeed, String>|
                raw@ == raw_feed_json@ && #[trigger] call_ensures(
                    parse,
                    (raw, retrieved_at),
                    parsed,
                ) && replacement_result(result) == replacement(
                    parsed,
                    raw_feed_json@,
                    retrieved_at,
                    now,
                    *source,
                ),
        },
{
    match clock {
        Ok(now) => replace_feodo_cache_at(raw_feed_json, retrieved_at, now, source, parse),
        Err(message) => Err(
            CacheError::Io(join("system clock is before Unix epoch: ", message.as_str())),
        ),
    }
}

/// A feed that was accepted is accepted again from its own envelope, at any time
/// that is not earlier, as long as it parses to the same.
pub proof fn kept_feeds_are_accepted(
    feed: ValidatedThreatFeed,
    raw: Seq<u8>,
    retrieved_at: u64,
    now: u64,
    later: u64,
    source: FeedSource,
)
    requires
        replacement(Ok(feed), raw, retrieved_at, now, source) is Ok,
        now <= later,
        feed.endpoints@.len() <= u64::MAX,
    ensures
        ({
            let envelope = new_envelope(
                feed,
                vstd::utf8::decode_utf8(raw),
                retrieved_at,
                source,
            );
            &&& replacement(Ok(feed), raw, retrieved_at, now, source)->Ok_0 == (
                feed,
                envelope_json(envelope),
            )
            &&& envelope_fault(envelope, later, source) is None
            &&& feed_outcome(envelope, Ok(feed)) == Ok::<ValidatedThreatFeed, CacheFault>(feed)
            &&& vstd::utf8::encode_utf8(envelope.raw_feed) == raw
        }),
{
    vstd::utf8::decode_utf8_encode_utf8(raw);
}

/// A feed that was kept is loaded again from a file that still holds what was written,
/// at any time that is not earlier, as long as it parses to the same. The file is
/// decoded by the caller, to the envelope that was encoded.
pub proof fn kept_feeds_are_loaded<
    D: FnOnce(Vec<u8>) -> Result<CacheEnvelope, String>,
    P: FnOnce(String, u64) -> Result<ValidatedThreatFeed, String>,
>(
    feed: ValidatedThreatFeed,
    raw: Seq<u8>,
    retrieved_at: u64,
    now: u64,
    source: FeedSource,
    file: FileRead,
    later: u64,
    decode: D,
    parse: P,
    result: Result<Option<ValidatedThreatFeed>, CacheError>,
)
    requires
        replacement(Ok(feed), raw, retrieved_at, now, source) is Ok,
        now <= later,
        feed.endpoints@.len() <= u64::MAX,
        ({
            let text = replacement(Ok(feed), raw, retrieved_at, now, source)->Ok_0.1;
            let contents = vstd::utf8::encode_utf8(text);
            &&& holds(file, contents)
            &&& forall|bytes: Vec<u8>, decoded: Result<CacheEnvelope, String>|
                bytes@ == contents && #[trigger] call_ensures(decode, (bytes,), decoded) ==> (
                decoded matches Ok(own) && own@ == new_envelope(
                    feed,
                    vstd::utf8::decode_utf8(raw),
                    retrieved_at,
                    source,
                ))
        }),
        forall|text: String, parsed: Result<ValidatedThreatFeed, String>|
            vstd::utf8::encode_utf8(text@) == raw && #[trigger] call_ensures(
                parse,
                (text, retrieved_at),
                parsed,
            ) ==> parsed == Ok::<ValidatedThreatFeed, String>(feed),
        loaded(file, later, source, decode, parse, result),
    ensures
        result == Ok::<Option<ValidatedThreatFeed>, CacheError>(Some(feed)),
{
    kept_feeds_are_accepted(feed, raw, retrieved_at, now, later, source);
}

/// A feed whose hash or number of entries is not that of the envelope is never
/// handed out.
pub proof fn changed_feeds_are_refused(envelope: EnvelopeView, feed: ValidatedThreatFeed)
    requires
        envelope.content_sha256 != feed.metadata.content_sha256@ || envelope.entry_count
            != feed.endpoints@.len(),
    ensures
        feed_outcome(envelope, Ok(feed)) is Err,
{
}

/// A cache may have twice the bytes of the feed and sixteen kibibytes, as far as that can
/// be counted.
pub proof fn caches_are_bounded(source: FeedSource)
    ensures
        2 * source.max_input_bytes + 16 * 1024 <= usize::MAX ==> cache_limit(source) == 2
            * source.max_input_bytes + 16 * 1024,
        2 * source.max_input_bytes + 16 * 1024 > usize::MAX ==> cache_limit(source) == usize::MAX,
{
}

/// An envelope has no fault exactly where it has the first version, the one source with
/// its license, and a time that is at most five minutes ahead. The first thing that
/// differs is what is told.
pub proof fn envelopes_are_checked_in_order(envelope: EnvelopeView, now: u64, source: FeedSource)
    ensures
        ({
            let fault = envelope_fault(envelope, now, source);
            let version = envelope.format_version == 1;
            let origin = envelope.source == source.url@;
            let license = envelope.license == source.license@;
            let time = envelope.retrieved_at <= now + 300;
            &&& fault is None <==> version && origin && license && time
            &&& !version ==> fault == Some(
                CacheFault::UnsupportedVersion { actual: envelope.format_version, expected: 1 },
            )
            &&& version && !origin ==> fault == Some(
                CacheFault::SourceMismatch { actual: envelope.source },
            )
            &&& version && origin && !license ==> fault == Some(
                CacheFault::LicenseMismatch { actual: envelope.license },
            )
            &&& version && origin && license && !time ==> fault == Some(
                CacheFault::TimestampInFuture { retrieved_at: envelope.retrieved_at, now },
            )
        }),
{
}

/// A feed is handed out exactly where it parses to the digest and to as many entries as
/// its envelope tells.
pub proof fn parsed_feeds_match_their_envelope(
    envelope: EnvelopeView,
    parsed: Result<ValidatedThreatFeed, String>,
)
    ensures
        ({
            let outcome = feed_outcome(envelope, parsed);
            &&& outcome is Ok <==> parsed is Ok && parsed->Ok_0.metadata.content_sha256@
                == envelope.content_sha256 && parsed->Ok_0.endpoints@.len() == envelope.entry_count
            &&& outcome matches Ok(feed) ==> parsed == Ok::<ValidatedThreatFeed, String>(feed)
            &&& parsed matches Err(message) ==> outcome == Err::<ValidatedThreatFeed, CacheFault>(
                CacheFault::Feed(message@),
            )
            &&& parsed matches Ok(feed) ==> {
                &&& feed.metadata.content_sha256@ != envelope.content_sha256 ==> outcome == Err::<
                    ValidatedThreatFeed,
                    CacheFault,
                >(
                    CacheFault::HashMismatch {
                        expected: envelope.content_sha256,
                        actual: feed.metadata.content_sha256@,
                    },
                )
                &&& feed.metadata.content_sha256@ == envelope.content_sha256
                    && feed.endpoints@.len() != envelope.entry_count ==> outcome == Err::<
                    ValidatedThreatFeed,
                    CacheFault,
                >(
                    CacheFault::EntryCountMismatch {
                        expected: envelope.entry_count,
                        actual: feed.endpoints@.len() as usize,
                    },
                )
            }
        }),
{
}

/// A retrieved feed is kept exactly where it parses, its time is at most five minutes
/// ahead, it is UTF-8 and its envelope fits. The envelope tells of the feed what parsing
/// it again will find.
pub proof fn retrieved_feeds_are_kept_with_their_envelope(
    parsed: Result<ValidatedThreatFeed, String>,
    raw: Seq<u8>,
    retrieved_at: u64,
    now: u64,
    source: FeedSource,
)
    requires
        parsed matches Ok(feed) ==> feed.endpoints@.len() <= usize::MAX,
    ensures
        ({
            let outcome = replacement(parsed, raw, retrieved_at, now, source);
            let text = vstd::utf8::decode_utf8(raw);
            &&& parsed matches Err(message) ==> outcome == Err::<
                (ValidatedThreatFeed, Seq<char>),
                CacheFault,
            >(CacheFault::Feed(message@))
            &&& parsed matches Ok(feed) ==> {
                let envelope = new_envelope(feed, text, retrieved_at, source);
                let length = vstd::utf8::encode_utf8(envelope_json(envelope)).len();
                let late = retrieved_at > now + 300;
                let utf8 = vstd::utf8::valid_utf8(raw);
                let maximum = if 2 * source.max_input_bytes + 16_384 <= usize::MAX {
                    2 * source.max_input_bytes + 16_384
                } else {
                    usize::MAX as int
                };
                &&& envelope.raw_feed == text && envelope.retrieved_at == retrieved_at
                &&& envelope_fault(envelope, now, source) is None <==> !late
                &&& feed_outcome(envelope, parsed) == Ok::<ValidatedThreatFeed, CacheFault>(feed)
                &&& late ==> outcome == Err::<(ValidatedThreatFeed, Seq<char>), CacheFault>(
                    CacheFault::TimestampInFuture { retrieved_at, now },
                )
                &&& !late && !utf8 ==> outcome == Err::<
                    (ValidatedThreatFeed, Seq<char>),
                    CacheFault,
                >(CacheFault::InvalidEnvelope("raw feed is not valid UTF-8 JSON"@))
                &&& !late && utf8 && length > maximum ==> outcome == Err::<
                    (ValidatedThreatFeed, Seq<char>),
                    CacheFault,
                >(CacheFault::CacheTooLarge { actual: length as u64, maximum: maximum as usize })
                &&& !late && utf8 && length <= maximum ==> outcome == Ok::<
                    (ValidatedThreatFeed, Seq<char>),
                    CacheFault,
                >((feed, envelope_json(envelope)))
            }
        }),
{
}

} // verus!
