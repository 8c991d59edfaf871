//! The last DNS filter that was good. Its rules are parsed by the companion; text
//! that was downloaded or kept is never trusted for its hash alone.

use crate::atomic_file::{
    bounded_contents, holds, read_bounded_file, FileRead, ReadFault, ReadFaultView,
};
use crate::digest::{sha256, sha256_hex};
use crate::json::{json_string, json_strings_are_bounded, json_text};
use crate::text::{
    byte_len, decimal, decimal_text, hex_of, join5, lemma_decimal_bytes, lemma_hex_bytes,
    lemma_joined_bytes, lemma_plain_bytes, same_text,
};
use vstd::prelude::*;
use vstd::string::*;

verus! {

/// How large the rules may be, in bytes.
pub const MAX_TEXT: usize = 8_388_608;

/// How large the file may be, in bytes: JSON escapes can expand the rules sixfold.
pub const MAX_ENVELOPE: usize = 50_335_744;

/// After how many seconds a filter is stale.
pub const REFRESH_INTERVAL_SECS: u64 = 86_400;

/// After how many seconds a filter must not be used.
pub const MAX_CACHE_AGE_SECS: u64 = 604_800;

/// How far the time of a filter may be ahead, in seconds.
pub const MAX_CLOCK_SKEW_SECS: u64 = 300;

/// How long the address of a source may be, in bytes, for every filter to fit its file.
pub const MAX_SOURCE_BYTES: usize = 512;

/// The address that filters come from.
#[derive(Debug, PartialEq, Eq)]
pub struct FilterSource {
    url: String,
}

impl FilterSource {
    pub closed spec fn view(&self) -> Seq<char> {
        self.url@
    }

    #[verifier::type_invariant]
    spec fn bounded(self) -> bool {
        byte_len(self.url@) <= MAX_SOURCE_BYTES
    }

    /// A source, if its address is not too long.
    pub fn new(url: String) -> (result: Option<Self>)
        ensures
            result is Some <==> byte_len(url@) <= MAX_SOURCE_BYTES,
            result matches Some(source) ==> source@ == url@,
    {
        if url.as_str().as_bytes().len() > MAX_SOURCE_BYTES {
            None
        } else {
            Some(FilterSource { url })
        }
    }

    /// The address.
    pub fn url(&self) -> (result: &str)
        ensures
            result@ == self@,
            byte_len(self@) <= MAX_SOURCE_BYTES,
    {
        proof {
            use_type_invariant(self);
        }
        self.url.as_str()
    }
}

/// A DNS filter, with where it came from and when.
#[derive(Clone, Debug, PartialEq, Eq)]
pub struct DnsFilter {
    pub version: u8,
    pub source: String,
    pub retrieved_at: u64,
    pub hash: String,
    pub rules_count: u64,
    pub rules: String,
}

/// A DNS filter, as mathematical values.
pub ghost struct StoredFilter {
    pub version: u8,
    pub source: Seq<char>,
    pub retrieved_at: u64,
    pub hash: Seq<char>,
    pub rules_count: u64,
    pub rules: Seq<char>,
}

/// The time between two moments, 0 if the second is earlier.
pub open spec fn elapsed(from: u64, to: u64) -> int {
    if to >= from {
        to - from
    } else {
        0
    }
}

impl StoredFilter {
    /// Whether the filter should be retrieved again.
    pub open spec fn stale_at(self, now: u64) -> bool {
        elapsed(self.retrieved_at, now) >= REFRESH_INTERVAL_SECS
    }

    /// Whether the filter is too old to be used.
    pub open spec fn expired_at(self, now: u64) -> bool {
        elapsed(self.retrieved_at, now) > MAX_CACHE_AGE_SECS
    }

    /// Whether the filter can have been retrieved by now.
    pub open spec fn plausible_at(self, now: u64) -> bool {
        self.retrieved_at <= now + MAX_CLOCK_SKEW_SECS
    }
}

impl DnsFilter {
    pub open spec fn view(&self) -> StoredFilter {
        StoredFilter {
            version: self.version,
            source: self.source@,
            retrieved_at: self.retrieved_at,
            hash: self.hash@,
            rules_count: self.rules_count,
            rules: self.rules@,
        }
    }

    /// Whether the filter should be retrieved again.
    pub fn stale(&self, now: u64) -> (result: bool)
        ensures
            result == self@.stale_at(now),
    {
        now.saturating_sub(self.retrieved_at) >= REFRESH_INTERVAL_SECS
    }

    /// A copy.
    pub fn copied(&self) -> (result: Self)
        ensures
            result@ == self@,
    {
        DnsFilter {
            version: self.version,
            source: self.source.clone(),
            retrieved_at: self.retrieved_at,
            hash: self.hash.clone(),
            rules_count: self.rules_count,
            rules: self.rules.clone(),
        }
    }
}

/// The JSON of a filter.
pub open spec fn filter_json(filter: StoredFilter) -> Seq<char> {
    "{\"version\":"@ + decimal(filter.version as nat) + ",\"source\":"@ + json_string(
        filter.source,
    ) + ",\"retrieved_at\":"@ + decimal(filter.retrieved_at as nat) + ",\"hash\":"@ + json_string(
        filter.hash,
    ) + ",\"rules_count\":"@ + decimal(filter.rules_count as nat) + ",\"rules\":"@ + json_string(
        filter.rules,
    ) + "}"@
}

/// The JSON of a filter.
pub fn encode_filter(filter: &DnsFilter) -> (result: String)
    ensures
        result@ == filter_json(filter@),
{
    let mut text = join5(
        "{\"version\":",
        decimal_text(filter.version as u64).as_str(),
        ",\"source\":",
        json_text(filter.source.as_str()).as_str(),
        ",\"retrieved_at\":",
    );
    text.append(decimal_text(filter.retrieved_at).as_str());
    text.append(",\"hash\":");
    text.append(json_text(filter.hash.as_str()).as_str());
    text.append(",\"rules_count\":");
    text.append(decimal_text(filter.rules_count).as_str());
    text.append(",\"rules\":");
    text.append(json_text(filter.rules.as_str()).as_str());
    text.append("}");
    text
}

/// The digest that is kept with the rules.
pub open spec fn rules_hash(rules: Seq<char>) -> Seq<char> {
    hex_of(sha256(vstd::utf8::encode_utf8(rules)))
}

/// Whether rules have a size at which they are parsed at all.
pub open spec fn size_allowed(rules: Seq<char>) -> bool {
    rules.len() > 0 && byte_len(rules) <= MAX_TEXT
}

/// How many rules there are, given what the parser says of them.
pub open spec fn counted(parsed: Result<u64, String>) -> Result<u64, Seq<char>> {
    match parsed {
        Err(message) => Err(message@),
        Ok(count) => if count == 0 {
            Err("DNS filter contains no usable rules"@)
        } else {
            Ok(count)
        },
    }
}

/// Takes what the parser says of some rules.
pub fn count_rules(parsed: Result<u64, String>) -> (result: Result<u64, String>)
    ensures
        match counted(parsed) {
            Ok(count) => result matches Ok(n) && n == count,
            Err(message) => result matches Err(text) && text@ == message,
        },
{
    match parsed {
        Err(message) => Err(message),
        Ok(count) => if count == 0 {
            Err("DNS filter contains no usable rules".to_owned())
        } else {
            Ok(count)
        },
    }
}

/// Whether `result` is what some rules come to with a parser.
pub open spec fn validated<P: FnOnce(String) -> Result<u64, String>>(
    rules: Seq<char>,
    parser: P,
    result: Result<u64, Seq<char>>,
) -> bool {
    if !size_allowed(rules) {
        result == Err::<u64, Seq<char>>("DNS filter is empty or exceeds its size limit"@)
    } else {
        exists|text: String, parsed: Result<u64, String>|
            text@ == rules && #[trigger] call_ensures(parser, (text,), parsed) && result == counted(
                parsed,
            )
    }
}

/// A count with its error as a mathematical value.
pub open spec fn count_view(result: Result<u64, String>) -> Result<u64, Seq<char>> {
    match result {
        Ok(count) => Ok(count),
        Err(message) => Err(message@),
    }
}

fn validate<P: FnOnce(String) -> Result<u64, String>>(rules: &str, parser: P) -> (result: Result<
    u64,
    String,
>)
    requires
        forall|text: String| call_requires(parser, (text,)),
    ensures
        validated(rules@, parser, count_view(result)),
{
    if rules.is_empty() || rules.as_bytes().len() > MAX_TEXT {
        return Err("DNS filter is empty or exceeds its size limit".to_owned());
    }
    let text = rules.to_owned();
    let parsed = parser(text);
    count_rules(parsed)
}

/// The filter of rules that were just retrieved.
pub open spec fn new_filter(
    rules: Seq<char>,
    count: u64,
    now: u64,
    source: Seq<char>,
) -> StoredFilter {
    StoredFilter {
        version: 1,
        source,
        retrieved_at: now,
        hash: rules_hash(rules),
        rules_count: count,
        rules,
    }
}

proof fn lemma_filter_fits(filter: StoredFilter)
    requires
        size_allowed(filter.rules),
        byte_len(filter.source) <= MAX_SOURCE_BYTES,
        filter.hash == rules_hash(filter.rules),
        sha256(vstd::utf8::encode_utf8(filter.rules)).len() == 32,
    ensures
        byte_len(filter_json(filter)) <= MAX_ENVELOPE,
{
    reveal_strlit("{\"version\":");
    reveal_strlit(",\"source\":");
    reveal_strlit(",\"retrieved_at\":");
    reveal_strlit(",\"hash\":");
    reveal_strlit(",\"rules_count\":");
    reveal_strlit(",\"rules\":");
    reveal_strlit("}");
    lemma_plain_bytes("{\"version\":"@);
    lemma_plain_bytes(",\"source\":"@);
    lemma_plain_bytes(",\"retrieved_at\":"@);
    lemma_plain_bytes(",\"hash\":"@);
    lemma_plain_bytes(",\"rules_count\":"@);
    lemma_plain_bytes(",\"rules\":"@);
    lemma_plain_bytes("}"@);
    lemma_decimal_bytes(filter.version as nat);
    lemma_decimal_bytes(filter.retrieved_at as nat);
    lemma_decimal_bytes(filter.rules_count as nat);
    lemma_hex_bytes(sha256(vstd::utf8::encode_utf8(filter.rules)));
    json_strings_are_bounded(filter.source);
    json_strings_are_bounded(filter.hash);
    json_strings_are_bounded(filter.rules);
    let t1 = "{\"version\":"@ + decimal(filter.version as nat);
    let t2 = t1 + ",\"source\":"@;
    let t3 = t2 + json_string(filter.source);
    let t4 = t3 + ",\"retrieved_at\":"@;
    let t5 = t4 + decimal(filter.retrieved_at as nat);
    let t6 = t5 + ",\"hash\":"@;
    let t7 = t6 + json_string(filter.hash);
    let t8 = t7 + ",\"rules_count\":"@;
    let t9 = t8 + decimal(filter.rules_count as nat);
    let t10 = t9 + ",\"rules\":"@;
    let t11 = t10 + json_string(filter.rules);
    lemma_joined_bytes("{\"version\":"@, decimal(filter.version as nat));
    lemma_joined_bytes(t1, ",\"source\":"@);
    lemma_joined_bytes(t2, json_string(filter.source));
    lemma_joined_bytes(t3, ",\"retrieved_at\":"@);
    lemma_joined_bytes(t4, decimal(filter.retrieved_at as nat));
    lemma_joined_bytes(t5, ",\"hash\":"@);
    lemma_joined_bytes(t6, json_string(filter.hash));
    lemma_joined_bytes(t7, ",\"rules_count\":"@);
    lemma_joined_bytes(t8, decimal(filter.rules_count as nat));
    lemma_joined_bytes(t9, ",\"rules\":"@);
    lemma_joined_bytes(t10, json_string(filter.rules));
    lemma_joined_bytes(t11, "}"@);
}

/// Whether `result` is what rules that were just retrieved come to with a parser: the
/// filter and the text to keep, which fits its file.
pub open spec fn replaced<P: FnOnce(String) -> Result<u64, String>>(
    rules: Seq<char>,
    now: u64,
    source: Seq<char>,
    parser: P,
    result: Result<(DnsFilter, String), String>,
) -> bool {
    match result {
        Ok((filter, text)) => {
            &&& validated(rules, parser, Ok(filter.rules_count))
            &&& filter@ == new_filter(rules, filter.rules_count, now, source)
            &&& text@ == filter_json(filter@)
            &&& byte_len(text@) <= MAX_ENVELOPE
        },
        Err(message) => validated(rules, parser, Err(message@)),
    }
}

/// Makes the filter of rules that were just retrieved from `source`, and the text to
/// keep. Nothing is to be kept where this fails.
pub fn replace<P: FnOnce(String) -> Result<u64, String>>(
    rules: String,
    now: u64,
    source: &FilterSource,
    parser: P,
) -> (result: Result<(DnsFilter, String), String>)
    requires
        forall|text: String| call_requires(parser, (text,)),
    ensures
        replaced(rules@, now, source@, parser, result),
{
    let rules_count = match validate(rules.as_str(), parser) {
        Ok(count) => count,
        Err(message) => {
            return Err(message);
        },
    };
    let hash = sha256_hex(rules.as_str().as_bytes());
    let url = source.url();
    let filter = DnsFilter {
        version: 1,
        source: url.to_owned(),
        retrieved_at: now,
        hash,
        rules_count,
        rules,
    };
    let text = encode_filter(&filter);
    proof {
        lemma_filter_fits(filter@);
    }
    Ok((filter, text))
}

/// What is wrong with a filter before its rules are parsed again.
pub open spec fn filter_fault(filter: StoredFilter, now: u64, source: Seq<char>) -> Option<
    Seq<char>,
> {
    if filter.expired_at(now) {
        Some("DNS filter is too old; refresh it before enabling protection"@)
    } else if filter.version != 1 || filter.source != source || !filter.plausible_at(now)
        || filter.hash != rules_hash(filter.rules) {
        Some("DNS filter cache metadata is invalid"@)
    } else {
        None
    }
}

/// Whether a kept filter is accepted, given how many rules the parser finds.
pub open spec fn recount(filter: StoredFilter, count: Result<u64, Seq<char>>) -> Result<
    StoredFilter,
    Seq<char>,
> {
    match count {
        Err(message) => Err(message),
        Ok(count) => if count != filter.rules_count {
            Err("DNS filter cache rule count changed"@)
        } else {
            Ok(filter)
        },
    }
}

/// Whether `result` is what a kept filter comes to with a parser.
pub open spec fn accepted<P: FnOnce(String) -> Result<u64, String>>(
    filter: StoredFilter,
    now: u64,
    source: Seq<char>,
    parser: P,
    result: Result<StoredFilter, Seq<char>>,
) -> bool {
    match filter_fault(filter, now, source) {
        Some(message) => result == Err::<StoredFilter, Seq<char>>(message),
        None => exists|count: Result<u64, Seq<char>>| #[trigger]
            validated(filter.rules, parser, count) && result == recount(filter, count),
    }
}

/// Accepts a kept filter or refuses it.
pub fn accept<P: FnOnce(String) -> Result<u64, String>>(
    filter: DnsFilter,
    now: u64,
    source: &FilterSource,
    parser: P,
) -> (result: Result<DnsFilter, String>)
    requires
        forall|text: String| call_requires(parser, (text,)),
    ensures
        match result {
            Ok(kept) => accepted(filter@, now, source@, parser, Ok(kept@)),
            Err(message) => accepted(filter@, now, source@, parser, Err(message@)),
        },
{
    if now.saturating_sub(filter.retrieved_at) > MAX_CACHE_AGE_SECS {
        return Err("DNS filter is too old; refresh it before enabling protection".to_owned());
    }
    let hash = sha256_hex(filter.rules.as_str().as_bytes());
    if filter.version != 1 || !same_text(filter.source.as_str(), source.url()) || filter.retrieved_at
        > now.saturating_add(MAX_CLOCK_SKEW_SECS) || !same_text(
        filter.hash.as_str(),
        hash.as_str(),
    ) {
        return Err("DNS filter cache metadata is invalid".to_owned());
    }
    let counted = validate(filter.rules.as_str(), parser);
    let ghost count = count_view(counted);
    assert(validated(filter@.rules, parser, count));
    match counted {
        Err(message) => {
            assert(Err::<StoredFilter, Seq<char>>(message@) == recount(filter@, count));
            Err(message)
        },
        Ok(n) => if n != filter.rules_count {
            assert(Err::<StoredFilter, Seq<char>>("DNS filter cache rule count changed"@)
                == recount(filter@, count));
            Err("DNS filter cache rule count changed".to_owned())
        } else {
            assert(Ok::<StoredFilter, Seq<char>>(filter@) == recount(filter@, count));
            Ok(filter)
        },
    }
}

/// Whether `result` is what a file comes to with a decoder and a parser.
pub open spec fn loaded<
    D: FnOnce(Vec<u8>) -> Result<DnsFilter, String>,
    P: FnOnce(String) -> Result<u64, String>,
>(
    file: FileRead,
    now: u64,
    source: Seq<char>,
    decode: D,
    parser: P,
    result: Result<Option<DnsFilter>, String>,
) -> bool {
    match bounded_contents(file, MAX_ENVELOPE as nat) {
        Ok(None) => result matches Ok(None),
        Err(ReadFaultView::Io(message)) => result matches Err(text) && text@ == message,
        Err(ReadFaultView::TooLarge { .. }) => result matches Err(text) && text@
            == "DNS filter cache exceeds its size limit"@,
        Ok(Some(contents)) => exists|bytes: Vec<u8>, decoded: Result<DnsFilter, String>|
            {
                &&& bytes@ == contents
                &&& #[trigger] call_ensures(decode, (bytes,), decoded)
                &&& match decoded {
                    Err(message) => result matches Err(text) && text@ == message@,
                    Ok(filter) => match result {
                        Ok(None) => false,
                        Ok(Some(kept)) => accepted(filter@, now, source, parser, Ok(kept@)),
                        Err(text) => accepted(filter@, now, source, parser, Err(text@)),
                    },
                }
            },
    }
}

/// Loads a kept filter; `None` where there is none. The file is read by the caller,
/// and decoded and parsed only where its size is in order.
pub fn load<
    D: FnOnce(Vec<u8>) -> Result<DnsFilter, String>,
    P: FnOnce(String) -> Result<u64, String>,
>(file: FileRead, now: u64, source: &FilterSource, decode: D, parser: P) -> (result: Result<
    Option<DnsFilter>,
    String,
>)
    requires
        forall|bytes: Vec<u8>| call_requires(decode, (bytes,)),
        forall|text: String| call_requires(parser, (text,)),
    ensures
        loaded(file, now, source@, decode, parser, result),
        file is Missing ==> result matches Ok(None),
{
    let contents = match read_bounded_file(file, MAX_ENVELOPE) {
        Err(ReadFault::Io(message)) => {
            return Err(message);
        },
        Err(ReadFault::TooLarge { .. }) => {
            return Err("DNS filter cache exceeds its size limit".to_owned());
        },
        Ok(None) => {
            return Ok(None);
        },
        Ok(Some(contents)) => contents,
    };
    let decoded = decode(contents);
    match decoded {
        Err(message) => Err(message),
        Ok(filter) => match accept(filter, now, source, parser) {
            Ok(kept) => Ok(Some(kept)),
            Err(message) => Err(message),
        },
    }
}

/// A filter that was kept is accepted from its file until it is a week old, as long
/// as the parser finds as many rules; it is refused afterwards, and by a clock that is
/// further behind than the skew that is allowed.
pub proof fn kept_filters_last_a_week(
    rules: Seq<char>,
    count: u64,
    kept_at: u64,
    now: u64,
    source: Seq<char>,
    found: Result<u64, Seq<char>>,
)
    requires
        count > 0,
    ensures
        ({
            let filter = new_filter(rules, count, kept_at, source);
            &&& filter_fault(filter, now, source) is None <==> kept_at <= now + MAX_CLOCK_SKEW_SECS
                && elapsed(kept_at, now) <= MAX_CACHE_AGE_SECS
            &&& recount(filter, found) == Ok::<StoredFilter, Seq<char>>(filter) <==> found == Ok::<
                u64,
                Seq<char>,
            >(count)
            &&& recount(filter, found) is Ok <==> found == Ok::<u64, Seq<char>>(count)
        }),
{
}

/// A filter that was made of rules is loaded again from a file that still holds its text,
/// with its rules, their number and the time of its retrieval, for a week and by a clock
/// no further behind than the skew that is allowed; otherwise an error comes back. So
/// does one where the parser now refuses the rules or finds another number of them. The
/// file is decoded by the caller, to the filter that was encoded.
pub proof fn kept_filters_are_loaded<
    P: FnOnce(String) -> Result<u64, String>,
    D: FnOnce(Vec<u8>) -> Result<DnsFilter, String>,
    Q: FnOnce(String) -> Result<u64, String>,
>(
    rules: Seq<char>,
    kept_at: u64,
    source: Seq<char>,
    first_parser: P,
    kept: (DnsFilter, String),
    file: FileRead,
    now: u64,
    decode: D,
    parser: Q,
    found: Result<u64, Seq<char>>,
    result: Result<Option<DnsFilter>, String>,
)
    requires
        replaced(rules, kept_at, source, first_parser, Ok(kept)),
        holds(file, vstd::utf8::encode_utf8(kept.1@)),
        forall|bytes: Vec<u8>, decoded: Result<DnsFilter, String>|
            bytes@ == vstd::utf8::encode_utf8(kept.1@) && #[trigger] call_ensures(
                decode,
                (bytes,),
                decoded,
            ) ==> (decoded matches Ok(own) && own@ == kept.0@),
        forall|text: String, parsed: Result<u64, String>|
            text@ == rules && #[trigger] call_ensures(parser, (text,), parsed) ==> count_view(
                parsed,
            ) == found,
        loaded(file, now, source, decode, parser, result),
    ensures
        kept_at <= now + MAX_CLOCK_SKEW_SECS && elapsed(kept_at, now) <= MAX_CACHE_AGE_SECS && found
            == Ok::<u64, Seq<char>>(kept.0.rules_count) ==> (result matches Ok(Some(own)) && own@
            == kept.0@ && own.rules@ == rules && own.retrieved_at == kept_at),
        kept_at > now + MAX_CLOCK_SKEW_SECS || elapsed(kept_at, now) > MAX_CACHE_AGE_SECS || found
            is Err || found->Ok_0 != kept.0.rules_count ==> result is Err,
{
    let contents = vstd::utf8::encode_utf8(kept.1@);
    let (bytes, decoded) = choose|bytes: Vec<u8>, decoded: Result<DnsFilter, String>|
        {
            &&& bytes@ == contents
            &&& #[trigger] call_ensures(decode, (bytes,), decoded)
            &&& match decoded {
                Err(message) => result matches Err(text) && text@ == message@,
                Ok(filter) => match result {
                    Ok(None) => false,
                    Ok(Some(own)) => accepted(filter@, now, source, parser, Ok(own@)),
                    Err(text) => accepted(filter@, now, source, parser, Err(text@)),
                },
            }
        };
    assert(decoded->Ok_0@ == kept.0@);
}

/// A filter with other rules than those it was kept with is refused, unless the
/// digests of the two agree.
pub proof fn changed_rules_are_refused(filter: StoredFilter, rules: Seq<char>, now: u64)
    requires
        filter.hash == rules_hash(filter.rules),
        rules_hash(rules) != rules_hash(filter.rules),
    ensures
        filter_fault(StoredFilter { rules, ..filter }, now, filter.source) is Some,
{
}

/// A filter is stale a day after it was retrieved, too old when more than a week has
/// passed, and cannot have been retrieved more than five minutes ahead.
pub proof fn filters_age_by_day_and_week(filter: StoredFilter, now: u64)
    ensures
        filter.stale_at(now) <==> now >= filter.retrieved_at + 24 * 60 * 60,
        filter.expired_at(now) <==> now > filter.retrieved_at + 7 * 24 * 60 * 60,
        filter.plausible_at(now) <==> filter.retrieved_at <= now + 5 * 60,
{
}

/// Rules are parsed where there are any, of at most eight mebibytes; a file is read up to
/// six times that and four kibibytes.
pub proof fn rules_are_bounded(rules: Seq<char>)
    ensures
        size_allowed(rules) <==> rules.len() >= 1 && vstd::utf8::encode_utf8(rules).len() <= 8 * 1024
            * 1024,
        MAX_ENVELOPE == 6 * 8 * 1024 * 1024 + 4096,
{
}

/// A kept filter has no fault exactly where it is of the one format, from the one source,
/// not from the future, at most a week old, and its digest is that of its rules. Age is
/// what is told first.
pub proof fn kept_filters_are_checked(filter: StoredFilter, now: u64, source: Seq<char>)
    ensures
        filter_fault(filter, now, source) is None <==> {
            &&& filter.version == 1
            &&& filter.source == source
            &&& filter.retrieved_at <= now + 300
            &&& now <= filter.retrieved_at + 604_800
            &&& filter.hash == hex_of(sha256(vstd::utf8::encode_utf8(filter.rules)))
        },
        filter_fault(filter, now, source) == Some(
            "DNS filter is too old; refresh it before enabling protection"@,
        ) <==> now > filter.retrieved_at + 604_800,
        filter_fault(filter, now, source) is Some && now <= filter.retrieved_at + 604_800
            ==> filter_fault(filter, now, source) == Some("DNS filter cache metadata is invalid"@),
{
    reveal_strlit("DNS filter is too old; refresh it before enabling protection");
    reveal_strlit("DNS filter cache metadata is invalid");
    assert("DNS filter is too old; refresh it before enabling protection"@.len()
        != "DNS filter cache metadata is invalid"@.len());
}

/// The count of the parser is taken where it is not zero.
pub proof fn only_usable_rules_count(parsed: Result<u64, String>)
    ensures
        counted(parsed) is Ok <==> parsed is Ok && parsed->Ok_0 > 0,
        counted(parsed) matches Ok(n) ==> parsed == Ok::<u64, String>(n),
        parsed matches Err(message) ==> counted(parsed) == Err::<u64, Seq<char>>(message@),
        parsed == Ok::<u64, String>(0) ==> counted(parsed) == Err::<u64, Seq<char>>(
            "DNS filter contains no usable rules"@,
        ),
{
}

/// A kept filter is accepted, as it is, exactly where the parser finds as many rules in it
/// as it tells.
pub proof fn kept_counts_are_exact(filter: StoredFilter, count: Result<u64, Seq<char>>)
    ensures
        recount(filter, count) is Ok <==> count is Ok && count->Ok_0 == filter.rules_count,
        recount(filter, count) matches Ok(kept) ==> kept == filter,
        count is Err ==> recount(filter, count) == Err::<StoredFilter, Seq<char>>(count->Err_0),
        count is Ok && count->Ok_0 != filter.rules_count ==> recount(filter, count) == Err::<
            StoredFilter,
            Seq<char>,
        >("DNS filter cache rule count changed"@),
{
}

/// Rules come to what the parser says of them where there are any, of at most eight
/// mebibytes, and to an error without the parser otherwise.
pub proof fn rules_are_parsed_within_their_size<P: FnOnce(String) -> Result<u64, String>>(
    rules: String,
    parser: P,
    parsed: Result<u64, String>,
    result: Result<u64, Seq<char>>,
)
    ensures
        rules@.len() == 0 || vstd::utf8::encode_utf8(rules@).len() > 8_388_608 ==> (validated(
            rules@,
            parser,
            result,
        ) <==> result == Err::<u64, Seq<char>>("DNS filter is empty or exceeds its size limit"@)),
        rules@.len() > 0 && vstd::utf8::encode_utf8(rules@).len() <= 8_388_608 && call_ensures(
            parser,
            (rules,),
            parsed,
        ) ==> match parsed {
            Err(message) => validated(rules@, parser, Err(message@)),
            Ok(n) => if n > 0 {
                validated(rules@, parser, Ok(n))
            } else {
                validated(rules@, parser, Err("DNS filter contains no usable rules"@))
            },
        },
        rules@.len() > 0 && vstd::utf8::encode_utf8(rules@).len() <= 8_388_608 && validated(
            rules@,
            parser,
            result,
        ) ==> exists|text: String, said: Result<u64, String>|
            text@ == rules@ && #[trigger] call_ensures(parser, (text,), said) && match said {
                Err(message) => result == Err::<u64, Seq<char>>(message@),
                Ok(n) => n > 0 && result == Ok::<u64, Seq<char>>(n) || n == 0 && result == Err::<
                    u64,
                    Seq<char>,
                >("DNS filter contains no usable rules"@),
            },
{
    if rules@.len() > 0 && vstd::utf8::encode_utf8(rules@).len() <= 8_388_608 && call_ensures(
        parser,
        (rules,),
        parsed,
    ) {
        assert(validated(rules@, parser, counted(parsed)));
    }
}

/// A filter that was just made has no fault at that moment and for a week, and is accepted
/// with the count that it was made with.
pub proof fn new_filters_are_sound(
    rules: Seq<char>,
    count: u64,
    now: u64,
    later: u64,
    source: Seq<char>,
)
    requires
        now <= later <= now + 604_800,
    ensures
        ({
            let filter = new_filter(rules, count, now, source);
            &&& filter.rules == rules && filter.rules_count == count && filter.retrieved_at == now
            &&& filter.source == source && filter.version == 1
            &&& filter_fault(filter, later, source) is None
            &&& recount(filter, Ok(count)) == Ok::<StoredFilter, Seq<char>>(filter)
        }),
{
}

} // verus!
