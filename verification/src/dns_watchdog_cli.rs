//! How the program is told to be the watchdog, and what it says when it has ended.

use crate::dns_watchdog::{DnsWatchdogError, DnsWatchdogOutcome, OutcomeView, WatchdogFault};
use crate::json::{json_string, json_text};
use crate::net_text::{lemma_plain_number, written_digit};
use crate::text::{
    amount, chars_of, decimal, decimal_text, join3, join5, numbers_are_sums_of_their_digits, of_digits,
    parse_number, read_number, same_text, shorten,
    shortened, views,
};
use vstd::prelude::*;
use vstd::string::*;

verus! {

/// How many characters of an error are told.
pub const MAX_STATUS_CHARS: usize = 1024;

/// The first argument of a watchdog.
pub open spec fn spec_switch() -> Seq<char> {
    "--vapour-dns-watchdog"@
}

/// The first argument of a watchdog.
pub fn switch() -> (result: &'static str)
    ensures
        result@ == spec_switch(),
{
    "--vapour-dns-watchdog"
}

/// The line that tells that a watchdog is ready.
pub fn ready_line() -> (result: &'static str)
    ensures
        result@ == "{\"status\":\"ready\"}\n"@,
{
    "{\"status\":\"ready\"}\n"
}

/// Which process the watchdog is for.
#[derive(Clone, Copy, Debug, PartialEq, Eq, Structural)]
pub struct Request {
    pub pid: u32,
    pub creation: u64,
}

/// A number that is not zero.
pub open spec fn nonzero(text: Option<Seq<char>>, limit: nat) -> Option<nat> {
    match text {
        None => None,
        Some(text) => match read_number(text, 10, limit) {
            Ok(n) => if n == 0 {
                None
            } else {
                Some(n)
            },
            Err(_) => None,
        },
    }
}

/// Arguments; `None` for those that are not text.
pub open spec fn argument_views(args: Seq<Option<String>>) -> Seq<Option<Seq<char>>> {
    Seq::new(
        args.len(),
        |i: int|
            match args[i] {
                Some(text) => Some(text@),
                None => None,
            },
    )
}

/// What the arguments of the program ask for: `None` where it is not to be a
/// watchdog.
pub open spec fn requested(args: Seq<Option<Seq<char>>>) -> Option<Result<Request, Seq<char>>> {
    if args.len() == 0 || args[0] != Some(spec_switch()) {
        None
    } else if args.len() != 3 {
        Some(Err("invalid watchdog arguments"@))
    } else {
        match nonzero(args[1], u32::MAX as nat) {
            None => Some(Err("invalid parent PID"@)),
            Some(pid) => match nonzero(args[2], u64::MAX as nat) {
                None => Some(Err("invalid parent creation time"@)),
                Some(creation) => Some(
                    Ok(Request { pid: pid as u32, creation: creation as u64 }),
                ),
            },
        }
    }
}

/// The arguments that make the program the watchdog of a process.
pub open spec fn watchdog_arguments(pid: u32, creation: u64) -> Seq<Seq<char>> {
    seq![spec_switch(), decimal(pid as nat), decimal(creation as nat)]
}

/// Writes the arguments that make the program the watchdog of a process. No path is
/// among them.
pub fn arguments(pid: u32, creation: u64) -> (result: Vec<String>)
    ensures
        views(result@) == watchdog_arguments(pid, creation),
{
    let mut result: Vec<String> = Vec::new();
    result.push(switch().to_owned());
    result.push(decimal_text(pid as u64));
    result.push(decimal_text(creation));
    assert(views(result@) =~= watchdog_arguments(pid, creation));
    result
}

proof fn lemma_nonzero(n: nat, limit: nat)
    requires
        0 < n <= limit,
    ensures
        nonzero(Some(decimal(n)), limit) == Some(n),
{
    lemma_plain_number(n, limit);
    let text = decimal(n);
    assert(written_digit(text[0]));
    assert(text[0] != '+');
}

/// The arguments that a watchdog is started with are understood as the process that
/// started it.
pub proof fn own_arguments_are_understood(pid: u32, creation: u64)
    requires
        pid != 0,
        creation != 0,
    ensures
        requested(
            watchdog_arguments(pid, creation).map_values(|text: Seq<char>| Some(text)),
        ) == Some(Ok::<Request, Seq<char>>(Request { pid, creation })),
{
    let args = watchdog_arguments(pid, creation).map_values(|text: Seq<char>| Some(text));
    lemma_nonzero(pid as nat, u32::MAX as nat);
    lemma_nonzero(creation as nat, u64::MAX as nat);
    assert(args.len() == 3);
    assert(args[0] == Some(spec_switch()));
    assert(args[1] == Some(decimal(pid as nat)));
    assert(args[2] == Some(decimal(creation as nat)));
}

fn parse_nonzero(text: &Option<String>, limit: u64) -> (result: Option<u64>)
    ensures
        ({
            let view = match *text {
                Some(text) => Some(text@),
                None => None,
            };
            match nonzero(view, limit as nat) {
                Some(n) => result matches Some(own) && own == n && own <= limit,
                None => result is None,
            }
        }),
{
    match text {
        None => None,
        Some(text) => {
            let chars = chars_of(text.as_str());
            match parse_number(chars.as_slice(), 10, limit) {
                Ok(n) => if n == 0 {
                    None
                } else {
                    Some(n)
                },
                Err(_) => None,
            }
        },
    }
}

/// Reads the arguments of the program. A path is never taken from them.
pub fn parse(args: &[Option<String>]) -> (result: Option<Result<Request, &'static str>>)
    ensures
        match requested(argument_views(args@)) {
            None => result is None,
            Some(Ok(request)) => result matches Some(Ok(own)) && own == request,
            Some(Err(message)) => result matches Some(Err(text)) && text@ == message,
        },
{
    let ghost all = argument_views(args@);
    if args.len() == 0 {
        return None;
    }
    assert(all[0] == (match args@[0] {
        Some(text) => Some(text@),
        None => None,
    }));
    let switched = match &args[0] {
        Some(text) => same_text(text.as_str(), switch()),
        None => false,
    };
    if !switched {
        return None;
    }
    if args.len() != 3 {
        return Some(Err("invalid watchdog arguments"));
    }
    let pid = match parse_nonzero(&args[1], u32::MAX as u64) {
        Some(pid) => pid as u32,
        None => {
            return Some(Err("invalid parent PID"));
        },
    };
    let creation = match parse_nonzero(&args[2], u64::MAX) {
        Some(creation) => creation,
        None => {
            return Some(Err("invalid parent creation time"));
        },
    };
    Some(Ok(Request { pid, creation }))
}

/// The code with which the program exits, and what it says.
pub open spec fn completion(result: Result<OutcomeView, WatchdogFault>) -> (i32, Seq<char>) {
    match result {
        Ok(OutcomeView::Restored { attempts, result }) => (
            0,
            "{\"attempts\":"@ + decimal(attempts as nat) + ",\"restored_stacks\":"@ + decimal(
                result.restored,
            ) + ",\"status\":\"restored\"}"@,
        ),
        Ok(OutcomeView::ParentExitedWithoutJournal) => (
            0,
            "{\"journal_present\":false,\"status\":\"stopped\"}"@,
        ),
        Ok(OutcomeView::ParentIdentityMismatch) => (2, "{\"status\":\"parent_mismatch\"}"@),
        Ok(OutcomeView::PersistentRestoreFailure { attempts, last_error }) => (
            1,
            "{\"attempts\":"@ + decimal(attempts as nat) + ",\"error\":"@ + json_string(
                shortened(last_error, MAX_STATUS_CHARS as nat),
            ) + ",\"status\":\"recovery_failed\"}"@,
        ),
        Err(fault) => (
            1,
            "{\"error\":"@ + json_string(shortened(fault.message(), MAX_STATUS_CHARS as nat))
                + ",\"status\":\"error\"}"@,
        ),
    }
}

/// The code with which the program exits, and what it says.
pub fn completion_status(result: Result<DnsWatchdogOutcome, DnsWatchdogError>) -> (status: (
    i32,
    String,
))
    ensures
        (status.0, status.1@) == completion(
            match result {
                Ok(outcome) => Ok(outcome@),
                Err(error) => Err(error@),
            },
        ),
{
    match result {
        Ok(DnsWatchdogOutcome::Restored { attempts, result }) => (
            0,
            join5(
                "{\"attempts\":",
                decimal_text(attempts as u64).as_str(),
                ",\"restored_stacks\":",
                decimal_text(result.restored_stack_count as u64).as_str(),
                ",\"status\":\"restored\"}",
            ),
        ),
        Ok(DnsWatchdogOutcome::ParentExitedWithoutJournal) => (
            0,
            "{\"journal_present\":false,\"status\":\"stopped\"}".to_owned(),
        ),
        Ok(DnsWatchdogOutcome::ParentIdentityMismatch) => (
            2,
            "{\"status\":\"parent_mismatch\"}".to_owned(),
        ),
        Ok(DnsWatchdogOutcome::PersistentRestoreFailure { attempts, last_error }) => (
            1,
            join5(
                "{\"attempts\":",
                decimal_text(attempts as u64).as_str(),
                ",\"error\":",
                json_text(shorten(last_error.as_str(), MAX_STATUS_CHARS).as_str()).as_str(),
                ",\"status\":\"recovery_failed\"}",
            ),
        ),
        Err(error) => (
            1,
            join3(
                "{\"error\":",
                json_text(
                    shorten(error.message().as_str(), MAX_STATUS_CHARS).as_str(),
                ).as_str(),
                ",\"status\":\"error\"}",
            ),
        ),
    }
}

/// What is said, and the code with which the program exits, where nothing is guarded:
/// the arguments or the place of the journal were refused.
pub fn refusal(error: &str) -> (result: (i32, String))
    ensures
        result.0 == 2,
        result.1@ == shortened(error@, MAX_STATUS_CHARS as nat),
{
    (2, shorten(error, MAX_STATUS_CHARS))
}

/// The code with which the program exits: that of the outcome if it could be said.
pub fn exit_code(code: i32, said: bool) -> (result: i32)
    ensures
        result == (if said {
            code
        } else {
            1
        }),
{
    if said {
        code
    } else {
        1
    }
}

/// Only a watchdog that gave the settings back, or found nothing to give back, exits
/// with success.
pub proof fn success_means_nothing_is_left(result: Result<OutcomeView, WatchdogFault>)
    ensures
        completion(result).0 == 0 <==> (result matches Ok(outcome) && (outcome is Restored || outcome
            is ParentExitedWithoutJournal)),
{
}

/// Whether an argument tells a number from one up to a limit.
pub open spec fn tells_a_number(text: Option<Seq<char>>, limit: nat) -> bool {
    match text {
        None => false,
        Some(text) => {
            let digits = if text.len() >= 2 && text[0] == '+' {
                text.skip(1)
            } else {
                text
            };
            text.len() > 0 && of_digits(digits, 10) && 1 <= amount(digits, 10) <= limit
        },
    }
}

/// The number that an argument tells.
pub open spec fn number_told(text: Seq<char>) -> int {
    if text.len() >= 2 && text[0] == '+' {
        amount(text.skip(1), 10)
    } else {
        amount(text, 10)
    }
}

/// What arguments ask for: nothing without the switch; with it exactly two more are
/// needed, first the number of the process and then its creation time, neither of them
/// zero.
pub proof fn arguments_tell_the_process(args: Seq<Option<Seq<char>>>)
    ensures
        ({
            let asked = requested(args);
            let switched = args.len() > 0 && args[0] == Some("--vapour-dns-watchdog"@);
            let pid = args.len() == 3 && tells_a_number(args[1], 4_294_967_295);
            let creation = args.len() == 3 && tells_a_number(args[2], 18_446_744_073_709_551_615);
            &&& asked is Some <==> switched
            &&& (asked matches Some(Ok(_))) <==> switched && args.len() == 3 && pid && creation
            &&& asked matches Some(Ok(request)) ==> request.pid == number_told(args[1]->0)
                && request.creation == number_told(args[2]->0)
            &&& switched && args.len() != 3 ==> asked == Some(
                Err::<Request, Seq<char>>("invalid watchdog arguments"@),
            )
            &&& switched && args.len() == 3 && !pid ==> asked == Some(
                Err::<Request, Seq<char>>("invalid parent PID"@),
            )
            &&& switched && args.len() == 3 && pid && !creation ==> asked == Some(
                Err::<Request, Seq<char>>("invalid parent creation time"@),
            )
        }),
{
    if args.len() == 3 {
        if let Some(text) = args[1] {
            numbers_are_sums_of_their_digits(text, 10, u32::MAX as nat);
        }
        if let Some(text) = args[2] {
            numbers_are_sums_of_their_digits(text, 10, u64::MAX as nat);
        }
    }
}

/// The code is 0 where the settings were given back or nothing was to be given back, 2
/// where the number named another process, and 1 for every failure.
pub proof fn exit_codes_tell_the_outcome(result: Result<OutcomeView, WatchdogFault>)
    ensures
        completion(result).0 == 0 <==> (result is Ok && (result->Ok_0 is Restored || result->Ok_0
            is ParentExitedWithoutJournal)),
        completion(result).0 == 2 <==> (result is Ok && result->Ok_0 is ParentIdentityMismatch),
        completion(result).0 == 1 <==> (result is Err || result->Ok_0 is PersistentRestoreFailure),
{
}

} // verus!
