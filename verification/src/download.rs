//! Retrieving the threat feed from its one source.

use crate::cache::{replace_feodo_cache, replacement};
use crate::feeds::{FeedSource, ValidatedThreatFeed};
use crate::text::{decimal, decimal_text, join};
use vstd::prelude::*;
use vstd::string::*;

verus! {

/// What the server answered before its body is read.
#[derive(Debug, PartialEq, Eq)]
pub enum Answer {
    ClientUnavailable,
    Failed,
    /// The status of the response and the length it announces.
    Response { status: u16, content_length: Option<u64> },
}

/// What the answer to a request for the feed comes to: whether its body is read.
pub open spec fn answer_outcome(answer: Answer, maximum: nat) -> Result<(), Seq<char>> {
    match answer {
        Answer::ClientUnavailable => Err("HTTPS client unavailable"@),
        Answer::Failed => Err("Threat feed download failed"@),
        Answer::Response { status, content_length } => if status != 200 {
            Err("Threat feed HTTP "@ + decimal(status as nat))
        } else if content_length matches Some(n) && n > maximum {
            Err("Threat feed exceeds size limit"@)
        } else {
            Ok(())
        },
    }
}

/// Takes the answer to a request for the feed.
pub fn check_answer(answer: &Answer, source: &FeedSource) -> (result: Result<(), String>)
    ensures
        match answer_outcome(*answer, source.max_input_bytes as nat) {
            Ok(()) => result is Ok,
            Err(message) => result matches Err(text) && text@ == message,
        },
{
    match answer {
        Answer::ClientUnavailable => Err("HTTPS client unavailable".to_owned()),
        Answer::Failed => Err("Threat feed download failed".to_owned()),
        Answer::Response { status, content_length } => {
            if *status != 200 {
                return Err(join("Threat feed HTTP ", decimal_text(*status as u64).as_str()));
            }
            if let Some(n) = content_length {
                if *n > source.max_input_bytes as u64 {
                    return Err("Threat feed exceeds size limit".to_owned());
                }
            }
            Ok(())
        },
    }
}

/// What a body comes to of which one byte more than is allowed was read, where it
/// has that many.
pub open spec fn body_outcome(body: Option<Seq<u8>>, maximum: nat) -> Result<Seq<u8>, Seq<char>> {
    match body {
        None => Err("Threat feed body could not be read"@),
        Some(bytes) => if bytes.len() > maximum {
            Err("Threat feed exceeds size limit"@)
        } else {
            Ok(bytes)
        },
    }
}

/// Takes a body, or that it could not be read.
pub fn read_bounded(body: Option<Vec<u8>>, source: &FeedSource) -> (result: Result<Vec<u8>, String>)
    ensures
        match body_outcome(
            match body {
                Some(bytes) => Some(bytes@),
                None => None,
            },
            source.max_input_bytes as nat,
        ) {
            Ok(bytes) => result matches Ok(own) && own@ == bytes,
            Err(message) => result matches Err(text) && text@ == message,
        },
{
    match body {
        None => Err("Threat feed body could not be read".to_owned()),
        Some(bytes) => if bytes.len() > source.max_input_bytes {
            Err("Threat feed exceeds size limit".to_owned())
        } else {
            Ok(bytes)
        },
    }
}

/// Takes what was downloaded and makes the feed of it, with the text to keep. The
/// time of retrieval and the time it is checked against are read by the caller, one
/// after the other; either may be unusable.
pub fn refresh_feodo<P: FnOnce(Vec<u8>, u64) -> Result<ValidatedThreatFeed, String>>(
    downloaded: Result<Vec<u8>, String>,
    retrieved_at: Option<u64>,
    clock: Result<u64, String>,
    source: &FeedSource,
    parse: P,
) -> (result: Result<(ValidatedThreatFeed, String), String>)
    requires
        forall|raw: Vec<u8>, at: u64| call_requires(parse, (raw, at)),
    ensures
        match downloaded {
            Err(message) => result matches Err(text) && text@ == message@,
            Ok(bytes) => match retrieved_at {
                None => result matches Err(text) && text@ == "System clock unavailable"@,
                Some(at) => match clock {
                    Err(_) => result matches Err(text) && text@
                        == "Threat feed validation or cache update failed"@,
                    Ok(now) => exists|raw: Vec<u8>, parsed: Result<ValidatedThreatFeed, String>|
                        {
                            &&& raw@ == bytes@
                            &&& #[trigger] call_ensures(parse, (raw, at), parsed)
                            &&& match replacement(parsed, bytes@, at, now, *source) {
                                Ok((feed, kept)) => result matches Ok((own, text)) && own == feed
                                    && text@ == kept,
                                Err(_) => result matches Err(text) && text@
                                    == "Threat feed validation or cache update failed"@,
                            }
                        },
                },
            },
        },
{
    let bytes = match downloaded {
        Ok(bytes) => bytes,
        Err(message) => {
            return Err(message);
        },
    };
    let at = match retrieved_at {
        Some(at) => at,
        None => {
            return Err("System clock unavailable".to_owned());
        },
    };
    match replace_feodo_cache(bytes, at, clock, source, parse) {
        Ok(kept) => Ok(kept),
        Err(_) => Err("Threat feed validation or cache update failed".to_owned()),
    }
}

/// The body of an answer is read exactly where its status is 200 and it announces no more
/// than is allowed.
pub proof fn bodies_are_read_only_of_good_answers(answer: Answer, maximum: nat)
    ensures
        answer_outcome(answer, maximum) is Ok <==> (answer matches Answer::Response {
            status,
            content_length,
        } && status == 200 && (content_length is None || content_length->0 <= maximum)),
        answer is ClientUnavailable ==> answer_outcome(answer, maximum) == Err::<(), Seq<char>>(
            "HTTPS client unavailable"@,
        ),
        answer is Failed ==> answer_outcome(answer, maximum) == Err::<(), Seq<char>>(
            "Threat feed download failed"@,
        ),
        answer matches Answer::Response { status, .. } ==> {
            &&& status != 200 ==> answer_outcome(answer, maximum) == Err::<(), Seq<char>>(
                "Threat feed HTTP "@ + decimal(status as nat),
            )
            &&& status == 200 && answer_outcome(answer, maximum) is Err ==> answer_outcome(
                answer,
                maximum,
            ) == Err::<(), Seq<char>>("Threat feed exceeds size limit"@)
        },
{
}

/// A body is taken, as it is, exactly where it was read and has no more bytes than are
/// allowed.
pub proof fn bodies_are_taken_up_to_their_limit(body: Option<Seq<u8>>, maximum: nat)
    ensures
        body_outcome(body, maximum) is Ok <==> body is Some && body->0.len() <= maximum,
        body_outcome(body, maximum) matches Ok(bytes) ==> body == Some(bytes),
        body is None ==> body_outcome(body, maximum) == Err::<Seq<u8>, Seq<char>>(
            "Threat feed body could not be read"@,
        ),
        body is Some && body->0.len() > maximum ==> body_outcome(body, maximum) == Err::<
            Seq<u8>,
            Seq<char>,
        >("Threat feed exceeds size limit"@),
{
}

} // verus!
