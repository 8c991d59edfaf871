//! Bounded ownership and reconciliation of transparent DNS generations.
//!
//! The controller owns one session at a time. It decides what is done next; the
//! caller does it and reports what came of it. A stop that failed or took too long
//! never lets go of the session: it stays owned until its cleanup is confirmed.

use crate::dns_process::TransparentDnsConfig;
use crate::dns_session::{text_option, DnsSessionState};
use crate::dns_supervisor::result_view;
use crate::text::{copy_texts, same_text, same_texts, views};
use crate::text_order::{
    distinct_texts, distinct_texts_are_ascending, reordered_lists_agree, sort_and_dedup,
};
use vstd::arithmetic::power2::{lemma2_to64, lemma_pow2_strictly_increases, pow2};
use vstd::prelude::*;
use vstd::string::*;

verus! {

/// The least time between two starts, in milliseconds.
pub const MIN_START_INTERVAL_MS: u64 = 5_000;

/// How long a reload may take, in milliseconds. The companion takes up to ten
/// seconds to parse, after a registration that is already under way.
pub const RELOAD_TIMEOUT_MS: u64 = 15_000;

/// How long one attempt to stop may take, in milliseconds.
pub const STOP_TIMEOUT_MS: u64 = 3_000;

/// The longest wait before another attempt, in milliseconds.
pub const MAX_RETRY_DELAY_MS: u64 = 300_000;

/// What the controller tells of itself.
#[derive(Clone, Debug, PartialEq, Eq)]
pub struct DnsGenerationStatus {
    pub requested: bool,
    pub running: bool,
    pub cleanup_pending: bool,
    pub error: Option<String>,
}

/// What the controller tells of itself, as mathematical values.
pub ghost struct StatusView {
    pub requested: bool,
    pub running: bool,
    pub cleanup_pending: bool,
    pub error: Option<Seq<char>>,
}

impl DnsGenerationStatus {
    pub open spec fn view(&self) -> StatusView {
        StatusView {
            requested: self.requested,
            running: self.running,
            cleanup_pending: self.cleanup_pending,
            error: text_option(self.error),
        }
    }

    /// A copy.
    pub fn copied(&self) -> (result: Self)
        ensures
            result@ == self@,
    {
        DnsGenerationStatus {
            requested: self.requested,
            running: self.running,
            cleanup_pending: self.cleanup_pending,
            error: match &self.error {
                Some(text) => Some(text.clone()),
                None => None,
            },
        }
    }
}

/// What a session says of itself.
#[derive(Debug, PartialEq, Eq)]
pub struct SessionReport {
    pub state: DnsSessionState,
    pub rollover_requested: bool,
    pub cleanup_complete: bool,
    pub last_error: Option<String>,
}

impl SessionReport {
    /// Whether the session has to be replaced.
    pub open spec fn unhealthy(self) -> bool {
        self.rollover_requested || self.state != DnsSessionState::Running
    }

    /// Whether the session has to be replaced.
    pub fn is_unhealthy(&self) -> (result: bool)
        ensures
            result == self.unhealthy(),
    {
        self.rollover_requested || self.state != DnsSessionState::Running
    }
}

/// Where a session listens: addresses in order, each once, and a port.
#[derive(Debug, PartialEq, Eq)]
struct Topology {
    addresses: Vec<String>,
    port: u16,
}

/// Where a session listens, as mathematical values.
pub ghost struct TopologyView {
    pub addresses: Seq<Seq<char>>,
    pub port: u16,
}

impl Topology {
    spec fn view(&self) -> TopologyView {
        TopologyView { addresses: views(self.addresses@), port: self.port }
    }

    fn same(&self, other: &Topology) -> (result: bool)
        ensures
            result == (self@ == other@),
    {
        same_texts(self.addresses.as_slice(), other.addresses.as_slice()) && self.port
            == other.port
    }

    fn copied(&self) -> (result: Self)
        ensures
            result@ == self@,
    {
        Topology { addresses: copy_texts(self.addresses.as_slice()), port: self.port }
    }
}

/// What was asked for.
#[derive(Debug, PartialEq, Eq)]
struct DesiredConfig {
    topology: Topology,
    rules: String,
}

/// What was asked for, as mathematical values.
pub ghost struct DesiredView {
    pub topology: TopologyView,
    pub rules: Seq<char>,
}

/// What a configuration asks for. Addresses are compared as they are spelled, so
/// that the zone of a scoped address counts.
pub open spec fn desired_of(config: TransparentDnsConfig) -> DesiredView {
    DesiredView {
        topology: TopologyView {
            addresses: distinct_texts(views(config.listen_addresses@)),
            port: config.listen_port,
        },
        rules: config.rules@,
    }
}

/// What an optional configuration asks for.
pub open spec fn desired_option(config: Option<TransparentDnsConfig>) -> Option<DesiredView> {
    match config {
        None => None,
        Some(config) => Some(desired_of(config)),
    }
}

impl DesiredConfig {
    spec fn view(&self) -> DesiredView {
        DesiredView { topology: self.topology@, rules: self.rules@ }
    }

    fn from_config(config: TransparentDnsConfig) -> (result: Self)
        ensures
            result@ == desired_of(config),
    {
        DesiredConfig {
            topology: Topology {
                addresses: sort_and_dedup(config.listen_addresses.as_slice()),
                port: config.listen_port,
            },
            rules: config.rules,
        }
    }

    fn to_config(&self) -> (result: TransparentDnsConfig)
        ensures
            views(result.listen_addresses@) == self@.topology.addresses,
            result.listen_port == self@.topology.port,
            result.rules@ == self@.rules,
    {
        TransparentDnsConfig {
            listen_addresses: copy_texts(self.topology.addresses.as_slice()),
            listen_port: self.topology.port,
            rules: self.rules.clone(),
        }
    }
}

#[derive(Debug, PartialEq, Eq)]
struct ActiveGeneration {
    revision: u64,
    topology: Topology,
}

/// The session that is owned: what it was started for.
pub ghost struct ActiveView {
    pub revision: u64,
    pub topology: TopologyView,
}

impl ActiveGeneration {
    spec fn view(&self) -> ActiveView {
        ActiveView { revision: self.revision, topology: self.topology@ }
    }
}

/// What the controller waits for.
#[derive(Clone, Copy, Debug, PartialEq, Eq, Structural)]
pub enum Waiting {
    Nothing,
    Start,
    Reload,
    Stop,
}

/// What the caller does next.
#[derive(Debug, PartialEq, Eq)]
pub enum GenerationAction {
    /// Nothing until the next round.
    Rest,
    /// Starts a session.
    Start(TransparentDnsConfig),
    /// Gives the session these rules.
    Reload(String),
    /// Stops the session.
    Stop,
}

/// What the caller does next, as mathematical values.
pub ghost enum ActionView {
    Rest,
    Start(DesiredView),
    Reload(Seq<char>),
    Stop,
}

impl GenerationAction {
    pub open spec fn view(&self) -> ActionView {
        match self {
            GenerationAction::Rest => ActionView::Rest,
            GenerationAction::Start(config) => ActionView::Start(
                DesiredView {
                    topology: TopologyView {
                        addresses: views(config.listen_addresses@),
                        port: config.listen_port,
                    },
                    rules: config.rules@,
                },
            ),
            GenerationAction::Reload(rules) => ActionView::Reload(rules@),
            GenerationAction::Stop => ActionView::Stop,
        }
    }
}

/// How long to wait after a number of failures in a row, in milliseconds: five
/// seconds, doubled with each failure up to five minutes.
pub open spec fn delay_after(failures: nat) -> nat {
    if failures <= 1 {
        5_000
    } else if failures == 2 {
        10_000
    } else if failures == 3 {
        20_000
    } else if failures == 4 {
        40_000
    } else if failures == 5 {
        80_000
    } else if failures == 6 {
        160_000
    } else {
        300_000
    }
}

/// A longer row of failures never shortens the wait, which doubles until it
/// reaches five minutes.
pub proof fn retry_delay_grows_to_its_bound(failures: nat)
    requires
        failures >= 1,
    ensures
        delay_after(failures) <= delay_after(failures + 1) <= MAX_RETRY_DELAY_MS,
        delay_after(failures + 1) == 2 * delay_after(failures) || delay_after(failures + 1)
            == MAX_RETRY_DELAY_MS,
{
}

fn retry_delay(failures: u32) -> (result: u64)
    ensures
        result == delay_after(failures as nat),
{
    let shift: u32 = if failures == 0 {
        0
    } else if failures - 1 < 6 {
        failures - 1
    } else {
        6
    };
    let mut multiplier: u64 = 1;
    let mut i: u32 = 0;
    while i < shift
        invariant
            i <= shift <= 6,
            i == 0 ==> multiplier == 1,
            i == 1 ==> multiplier == 2,
            i == 2 ==> multiplier == 4,
            i == 3 ==> multiplier == 8,
            i == 4 ==> multiplier == 16,
            i == 5 ==> multiplier == 32,
            i == 6 ==> multiplier == 64,
        decreases shift - i,
    {
        multiplier = multiplier * 2;
        i += 1;
    }
    let delay: u64 = MIN_START_INTERVAL_MS * multiplier;
    if delay < MAX_RETRY_DELAY_MS {
        delay
    } else {
        MAX_RETRY_DELAY_MS
    }
}

/// One text, or else another.
pub open spec fn text_or(first: Option<Seq<char>>, second: Option<Seq<char>>) -> Option<Seq<char>> {
    match first {
        Some(_) => first,
        None => second,
    }
}

/// The controller: what is owned, what is asked for and when to try again. Times
/// are milliseconds of one clock.
#[derive(Debug, PartialEq, Eq)]
pub struct DnsGenerationController {
    active: Option<ActiveGeneration>,
    desired: Option<DesiredConfig>,
    desired_revision: u64,
    last_start_at: Option<u64>,
    next_start_at: Option<u64>,
    start_failures: u32,
    next_reload_at: Option<u64>,
    reload_failures: u32,
    stop_requested: bool,
    stop_attempted: bool,
    error: Option<String>,
    waiting: Waiting,
}

/// The controller, as mathematical values.
pub ghost struct GenerationView {
    pub active: Option<ActiveView>,
    pub desired: Option<DesiredView>,
    pub desired_revision: u64,
    pub last_start_at: Option<u64>,
    pub next_start_at: Option<u64>,
    pub start_failures: u32,
    pub next_reload_at: Option<u64>,
    pub reload_failures: u32,
    pub stop_requested: bool,
    pub stop_attempted: bool,
    pub error: Option<Seq<char>>,
    pub waiting: Waiting,
}

/// The next revision; it wraps.
pub open spec fn next_revision(revision: u64) -> u64 {
    if revision == u64::MAX {
        0
    } else {
        (revision + 1) as u64
    }
}

/// One more failure, up to the largest number there is.
pub open spec fn more_failures(failures: u32) -> u32 {
    if failures == u32::MAX {
        failures
    } else {
        (failures + 1) as u32
    }
}

impl GenerationView {
    /// What holds of the controller at all times.
    pub open spec fn valid(self) -> bool {
        &&& self.waiting == Waiting::Start ==> self.active is None && self.desired is Some
            && !self.stop_requested
        &&& self.waiting == Waiting::Stop ==> self.active is Some && self.stop_requested
            && self.stop_attempted
        &&& self.waiting == Waiting::Reload ==> self.active is Some && self.desired is Some
            && !self.stop_requested && self.active->0.topology == self.desired->0.topology
        &&& self.active is None ==> !self.stop_attempted
    }

    /// Whether the session that is owned has nothing that was not asked for yet: revisions
    /// are counted upwards.
    pub open spec fn in_order(self) -> bool {
        self.active matches Some(active) ==> active.revision <= self.desired_revision
    }

    /// Whether what is asked for was not applied yet: no session has it.
    pub open spec fn unapplied(self) -> bool {
        self.active matches Some(active) ==> active.revision < self.desired_revision
    }

    /// The controller once something else is asked for.
    pub open spec fn asked(self, next: Option<DesiredView>) -> GenerationView {
        if next == self.desired {
            self
        } else {
            GenerationView {
                desired: next,
                desired_revision: next_revision(self.desired_revision),
                next_reload_at: None,
                reload_failures: 0,
                error: None,
                next_start_at: None,
                start_failures: 0,
                stop_requested: match next {
                    None => self.active is Some,
                    Some(desired) => if self.active is Some && !self.stop_attempted {
                        self.active->0.topology != desired.topology
                    } else {
                        self.stop_requested
                    },
                },
                ..self
            }
        }
    }

    /// Whether a start is allowed at `now`, with nothing of an earlier one left.
    pub open spec fn may_start(self, now: u64, pending: bool) -> bool {
        &&& !pending
        &&& (self.next_start_at matches Some(at) ==> now >= at)
        &&& (self.last_start_at matches Some(last) ==> now >= last + MIN_START_INTERVAL_MS)
    }

    /// The controller that starts a session if it may.
    pub open spec fn starting(self, now: u64, pending: bool) -> (GenerationView, ActionView) {
        if self.may_start(now, pending) {
            (
                GenerationView {
                    last_start_at: Some(now),
                    waiting: Waiting::Start,
                    ..self
                },
                ActionView::Start(self.desired->0),
            )
        } else {
            (self, ActionView::Rest)
        }
    }

    /// The controller that has taken note of what its session says of itself.
    pub open spec fn noticed(self, report: Option<SessionReport>) -> GenerationView {
        match report {
            Some(report) => if report.unhealthy() {
                GenerationView {
                    stop_requested: true,
                    error: text_or(
                        text_or(self.error, text_option(report.last_error)),
                        Some("DNS generation stopped unexpectedly"@),
                    ),
                    ..self
                }
            } else {
                self
            },
            None => self,
        }
    }

    /// The controller that stops a session for another topology.
    pub open spec fn replaced(self) -> GenerationView {
        if self.active is Some && self.active->0.topology != self.desired->0.topology {
            GenerationView { stop_requested: true, ..self }
        } else {
            self
        }
    }

    /// The controller that stops its session.
    pub open spec fn stopping(self) -> (GenerationView, ActionView) {
        (
            GenerationView {
                stop_requested: true,
                stop_attempted: true,
                waiting: Waiting::Stop,
                ..self
            },
            ActionView::Stop,
        )
    }

    /// One round, up to what is done next.
    pub open spec fn round(
        self,
        now: u64,
        report: Option<SessionReport>,
        pending: bool,
    ) -> (GenerationView, ActionView) {
        if self.desired is None {
            if self.active is Some {
                self.stopping()
            } else {
                (self, ActionView::Rest)
            }
        } else {
            let seen = self.noticed(report).replaced();
            if seen.stop_requested {
                if seen.active is Some {
                    seen.stopping()
                } else {
                    GenerationView {
                        stop_requested: false,
                        stop_attempted: false,
                        ..seen
                    }.starting(now, pending)
                }
            } else if seen.active is None {
                seen.starting(now, pending)
            } else if seen.active->0.revision == seen.desired_revision {
                (seen, ActionView::Rest)
            } else if seen.next_reload_at matches Some(at) && now < at {
                (seen, ActionView::Rest)
            } else {
                (
                    GenerationView { waiting: Waiting::Reload, ..seen },
                    ActionView::Reload(seen.desired->0.rules),
                )
            }
        }
    }

    /// The controller once a stop was attempted.
    pub open spec fn stopped(
        self,
        now: u64,
        result: Result<(), Seq<char>>,
        cleanup_complete: bool,
        pending: bool,
    ) -> (GenerationView, ActionView) {
        let noted = GenerationView {
            waiting: Waiting::Nothing,
            error: match result {
                Ok(()) => self.error,
                Err(message) => Some(message),
            },
            ..self
        };
        if !cleanup_complete {
            (noted, ActionView::Rest)
        } else {
            let released = GenerationView {
                active: None,
                stop_requested: false,
                stop_attempted: false,
                ..noted
            };
            if self.desired is None {
                (GenerationView { error: None, ..released }, ActionView::Rest)
            } else {
                released.starting(now, pending)
            }
        }
    }

    /// The controller once a session was started.
    pub open spec fn started(self, report: SessionReport) -> GenerationView {
        let owned = GenerationView {
            waiting: Waiting::Nothing,
            active: Some(
                ActiveView {
                    revision: self.desired_revision,
                    topology: self.desired->0.topology,
                },
            ),
            next_start_at: None,
            start_failures: 0,
            ..self
        };
        if report.unhealthy() {
            GenerationView {
                stop_requested: true,
                error: text_or(
                    text_option(report.last_error),
                    Some("DNS generation did not start Running"@),
                ),
                ..owned
            }
        } else {
            GenerationView { error: None, ..owned }
        }
    }

    /// The controller once a start failed.
    pub open spec fn start_failed(self, now: u64, message: Seq<char>) -> GenerationView {
        GenerationView {
            waiting: Waiting::Nothing,
            start_failures: more_failures(self.start_failures),
            next_start_at: Some(
                (now + delay_after(more_failures(self.start_failures) as nat)) as u64,
            ),
            error: Some(message),
            ..self
        }
    }

    /// The controller once a reload was attempted.
    pub open spec fn reloaded(
        self,
        now: u64,
        result: Result<(), Seq<char>>,
        report: SessionReport,
    ) -> GenerationView {
        let noted = GenerationView { waiting: Waiting::Nothing, ..self };
        match result {
            Ok(()) => if report.unhealthy() {
                GenerationView { stop_requested: true, ..noted }
            } else {
                GenerationView {
                    active: Some(
                        ActiveView { revision: self.desired_revision, ..self.active->0 },
                    ),
                    next_reload_at: None,
                    reload_failures: 0,
                    error: None,
                    ..noted
                }
            },
            Err(message) => if report.unhealthy() {
                GenerationView { stop_requested: true, error: Some(message), ..noted }
            } else {
                GenerationView {
                    error: Some(message),
                    reload_failures: more_failures(self.reload_failures),
                    next_reload_at: Some(
                        (now + delay_after(more_failures(self.reload_failures) as nat)) as u64,
                    ),
                    ..noted
                }
            },
        }
    }

    /// What the controller tells of itself.
    pub open spec fn status(self, report: Option<SessionReport>, pending: bool) -> StatusView {
        let unhealthy = report matches Some(report) && report.unhealthy();
        let cleanup_pending = match report {
            Some(report) => (self.stop_requested || self.stop_attempted || unhealthy)
                && !report.cleanup_complete,
            None => pending,
        };
        StatusView {
            requested: self.desired is Some,
            running: self.desired is Some && !cleanup_pending && !self.stop_requested && !unhealthy
                && (self.active matches Some(active) && active.revision == self.desired_revision),
            cleanup_pending,
            error: text_or(
                self.error,
                match report {
                    Some(report) => text_option(report.last_error),
                    None => None,
                },
            ),
        }
    }
}

/// Every step of the controller keeps what holds of it.
pub proof fn generation_steps_keep_validity(
    state: GenerationView,
    next: Option<DesiredView>,
    now: u64,
    report: SessionReport,
    result: Result<(), Seq<char>>,
    pending: bool,
)
    requires
        state.valid(),
    ensures
        state.waiting == Waiting::Nothing ==> state.asked(next).valid(),
        state.waiting == Waiting::Nothing ==> state.round(
            now,
            if state.active is Some {
                Some(report)
            } else {
                None
            },
            pending,
        ).0.valid(),
        state.waiting == Waiting::Stop ==> state.stopped(
            now,
            result,
            report.cleanup_complete,
            pending,
        ).0.valid(),
        state.waiting == Waiting::Start ==> state.started(report).valid(),
        state.waiting == Waiting::Start && result is Err ==> state.start_failed(
            now,
            result->Err_0,
        ).valid(),
        state.waiting == Waiting::Reload ==> state.reloaded(now, result, report).valid(),
{
}

/// Every step of the controller keeps its revisions in order. The number of the last
/// revision there is cannot be passed.
pub proof fn revisions_stay_in_order(
    state: GenerationView,
    next: Option<DesiredView>,
    now: u64,
    report: SessionReport,
    seen: Option<SessionReport>,
    result: Result<(), Seq<char>>,
    pending: bool,
)
    requires
        state.in_order(),
    ensures
        state.desired_revision < u64::MAX ==> state.asked(next).in_order(),
        state.round(now, seen, pending).0.in_order(),
        state.stopped(now, result, report.cleanup_complete, pending).0.in_order(),
        state.started(report).in_order(),
        result is Err ==> state.start_failed(now, result->Err_0).in_order(),
        state.reloaded(now, result, report).in_order(),
{
}

/// What is newly asked for, or that nothing is, is not told as running, whatever the
/// session that is owned says of itself.
pub proof fn new_requests_are_not_running(
    state: GenerationView,
    next: Option<DesiredView>,
    report: Option<SessionReport>,
    pending: bool,
)
    requires
        state.in_order(),
        state.desired_revision < u64::MAX,
        next != state.desired,
    ensures
        state.asked(next).unapplied(),
        !state.asked(next).status(report, pending).running,
{
}

/// What was not applied yet is not told as running, and stays so in every step but one:
/// a session that was started for it, or that took its rules.
pub proof fn requests_run_only_once_applied(
    state: GenerationView,
    next: Option<DesiredView>,
    now: u64,
    report: SessionReport,
    seen: Option<SessionReport>,
    result: Result<(), Seq<char>>,
    pending: bool,
)
    requires
        state.unapplied(),
    ensures
        !state.status(seen, pending).running,
        state.desired_revision < u64::MAX ==> state.asked(next).unapplied(),
        state.round(now, seen, pending).0.unapplied(),
        state.stopped(now, result, report.cleanup_complete, pending).0.unapplied(),
        result is Err ==> state.start_failed(now, result->Err_0).unapplied(),
        result is Err || report.unhealthy() ==> state.reloaded(now, result, report).unapplied(),
        report.unhealthy() ==> !state.started(report).status(Some(report), pending).running,
{
}

/// Two configurations ask for the same exactly where they have the same rules, the same
/// port and the same addresses, in whatever order and with whatever repetitions.
pub proof fn equal_requests_have_equal_addresses(
    first: TransparentDnsConfig,
    second: TransparentDnsConfig,
)
    ensures
        desired_of(first) == desired_of(second) <==> {
            &&& forall|address: Seq<char>|
                views(first.listen_addresses@).contains(address) <==> views(
                    second.listen_addresses@,
                ).contains(address)
            &&& first.listen_port == second.listen_port
            &&& first.rules@ == second.rules@
        },
{
    let left = views(first.listen_addresses@);
    let right = views(second.listen_addresses@);
    distinct_texts_are_ascending(left);
    distinct_texts_are_ascending(right);
    if forall|address: Seq<char>| left.contains(address) <==> right.contains(address) {
        reordered_lists_agree(left, right);
    }
    if desired_of(first) == desired_of(second) {
        assert(distinct_texts(left) == distinct_texts(right));
        assert forall|address: Seq<char>| left.contains(address) <==> right.contains(address) by {
            assert(distinct_texts(left).contains(address) <==> left.contains(address));
            assert(distinct_texts(right).contains(address) <==> right.contains(address));
        }
    }
}

/// The session that is owned is let go only once its cleanup is confirmed.
pub proof fn session_is_owned_until_cleanup(
    state: GenerationView,
    next: Option<DesiredView>,
    now: u64,
    report: SessionReport,
    result: Result<(), Seq<char>>,
    pending: bool,
)
    requires
        state.valid(),
        state.active is Some,
    ensures
        state.asked(next).active == state.active,
        state.round(now, Some(report), pending).0.active == state.active,
        state.waiting == Waiting::Reload ==> state.reloaded(now, result, report).active is Some,
        state.waiting == Waiting::Stop && !report.cleanup_complete ==> state.stopped(
            now,
            result,
            report.cleanup_complete,
            pending,
        ).0.active == state.active,
{
}

/// A session is started only while none is owned, nothing of an earlier one is
/// left, and the least time since the last start has passed.
pub proof fn starts_are_serialized(
    state: GenerationView,
    now: u64,
    report: Option<SessionReport>,
    result: Result<(), Seq<char>>,
    cleanup_complete: bool,
    pending: bool,
)
    requires
        state.valid(),
        state.active is None ==> report is None,
    ensures
        state.waiting == Waiting::Nothing && state.round(now, report, pending).1 is Start ==> {
            &&& state.active is None
            &&& !pending
            &&& state.last_start_at matches Some(last) ==> now >= last + MIN_START_INTERVAL_MS
        },
        state.waiting == Waiting::Stop && state.stopped(now, result, cleanup_complete, pending).1
            is Start ==> {
            &&& cleanup_complete
            &&& !pending
            &&& state.last_start_at matches Some(last) ==> now >= last + MIN_START_INTERVAL_MS
        },
{
}

/// While nothing is asked for, nothing is started and nothing is reloaded.
pub proof fn disabled_controllers_never_start(
    state: GenerationView,
    now: u64,
    report: Option<SessionReport>,
    result: Result<(), Seq<char>>,
    cleanup_complete: bool,
    pending: bool,
)
    requires
        state.desired is None,
    ensures
        state.round(now, report, pending).1 is Rest || state.round(now, report, pending).1 is Stop,
        state.stopped(now, result, cleanup_complete, pending).1 is Rest,
{
}

/// Rules that a healthy session refuses leave it running and owned; they are not
/// tried again before the wait is over.
pub proof fn rejected_rules_keep_the_session(
    state: GenerationView,
    now: u64,
    message: Seq<char>,
    report: SessionReport,
    later: u64,
    pending: bool,
)
    requires
        state.valid(),
        state.waiting == Waiting::Reload,
        state.active->0.revision != state.desired_revision,
        now <= u64::MAX - MAX_RETRY_DELAY_MS,
        !report.unhealthy(),
    ensures
        ({
            let after = state.reloaded(now, Err(message), report);
            &&& after.active == state.active
            &&& !after.stop_requested
            &&& after.error == Some(message)
            &&& later < now + delay_after(more_failures(state.reload_failures) as nat)
                ==> after.round(later, Some(report), pending).1 is Rest
            &&& later >= now + delay_after(more_failures(state.reload_failures) as nat)
                ==> after.round(later, Some(report), pending).1 == ActionView::Reload(
                state.desired->0.rules,
            )
        }),
{
}

/// Asking again for the same rules at the same addresses, in another order or with
/// repetitions, changes nothing.
pub proof fn reordered_addresses_change_nothing(
    state: GenerationView,
    first: TransparentDnsConfig,
    second: TransparentDnsConfig,
)
    requires
        state.desired == Some(desired_of(first)),
        forall|address: Seq<char>|
            views(first.listen_addresses@).contains(address) <==> views(
                second.listen_addresses@,
            ).contains(address),
        first.listen_port == second.listen_port,
        first.rules@ == second.rules@,
    ensures
        state.asked(Some(desired_of(second))) == state,
{
    equal_requests_have_equal_addresses(first, second);
}

/// A stop that was attempted is not taken back by asking for something else.
pub proof fn attempted_stops_are_final(
    state: GenerationView,
    next: Option<DesiredView>,
    now: u64,
    report: SessionReport,
    pending: bool,
)
    requires
        state.valid(),
        state.waiting == Waiting::Nothing,
        state.active is Some,
        state.stop_attempted,
        state.stop_requested,
    ensures
        state.asked(next).stop_requested,
        state.asked(next).round(now, Some(report), pending).1 is Stop,
{
}

impl DnsGenerationController {
    pub closed spec fn view(&self) -> GenerationView {
        GenerationView {
            active: match self.active {
                Some(active) => Some(active@),
                None => None,
            },
            desired: match self.desired {
                Some(desired) => Some(desired@),
                None => None,
            },
            desired_revision: self.desired_revision,
            last_start_at: self.last_start_at,
            next_start_at: self.next_start_at,
            start_failures: self.start_failures,
            next_reload_at: self.next_reload_at,
            reload_failures: self.reload_failures,
            stop_requested: self.stop_requested,
            stop_attempted: self.stop_attempted,
            error: text_option(self.error),
            waiting: self.waiting,
        }
    }

    /// A controller that owns nothing and was asked for nothing.
    pub fn new() -> (result: Self)
        ensures
            result@.valid(),
            result@.in_order(),
            result@ == (GenerationView {
                active: None,
                desired: None,
                desired_revision: 0,
                last_start_at: None,
                next_start_at: None,
                start_failures: 0,
                next_reload_at: None,
                reload_failures: 0,
                stop_requested: false,
                stop_attempted: false,
                error: None,
                waiting: Waiting::Nothing,
            }),
    {
        DnsGenerationController {
            active: None,
            desired: None,
            desired_revision: 0,
            last_start_at: None,
            next_start_at: None,
            start_failures: 0,
            next_reload_at: None,
            reload_failures: 0,
            stop_requested: false,
            stop_attempted: false,
            error: None,
            waiting: Waiting::Nothing,
        }
    }

    /// Whether a session is owned.
    pub fn owns_session(&self) -> (result: bool)
        ensures
            result == (self@.active is Some),
    {
        self.active.is_some()
    }

    /// What the controller waits for.
    pub fn waiting(&self) -> (result: Waiting)
        ensures
            result == self@.waiting,
    {
        self.waiting
    }

    fn wants(&self, next: &Option<DesiredConfig>) -> (result: bool)
        ensures
            result == (self@.desired == (match *next {
                Some(next) => Some(next@),
                None => None,
            })),
    {
        match (&self.desired, next) {
            (None, None) => true,
            (Some(old), Some(new)) => old.topology.same(&new.topology) && same_text(
                old.rules.as_str(),
                new.rules.as_str(),
            ),
            _ => false,
        }
    }

    /// Whether the session that is owned listens elsewhere than asked for.
    fn topology_changed(&self) -> (result: bool)
        ensures
            result == (self@.active is Some && self@.desired is Some && self@.active->0.topology
                != self@.desired->0.topology),
    {
        match (&self.active, &self.desired) {
            (Some(active), Some(desired)) => !active.topology.same(&desired.topology),
            _ => false,
        }
    }

    /// Replaces what is asked for.
    pub fn set_desired(&mut self, desired: Option<TransparentDnsConfig>)
        requires
            old(self)@.valid(),
            old(self)@.waiting == Waiting::Nothing,
        ensures
            final(self)@.valid(),
            final(self)@ == old(self)@.asked(desired_option(desired)),
    {
        let next = match desired {
            None => None,
            Some(config) => Some(DesiredConfig::from_config(config)),
        };
        if self.wants(&next) {
            return;
        }
        self.desired = next;
        self.desired_revision = if self.desired_revision == u64::MAX {
            0
        } else {
            self.desired_revision + 1
        };
        self.next_reload_at = None;
        self.reload_failures = 0;
        self.error = None;
        self.next_start_at = None;
        self.start_failures = 0;
        if self.desired.is_none() {
            self.stop_requested = self.active.is_some();
        } else if self.active.is_some() && !self.stop_attempted {
            self.stop_requested = self.topology_changed();
        }
    }

    fn try_start(&mut self, now: u64, pending: bool) -> (result: GenerationAction)
        requires
            old(self)@.desired is Some,
        ensures
            (final(self)@, result@) == old(self)@.starting(now, pending),
    {
        if pending {
            return GenerationAction::Rest;
        }
        if let Some(at) = self.next_start_at {
            if now < at {
                return GenerationAction::Rest;
            }
        }
        if let Some(last) = self.last_start_at {
            if now < last || now - last < MIN_START_INTERVAL_MS {
                return GenerationAction::Rest;
            }
        }
        let action = match &self.desired {
            Some(desired) => GenerationAction::Start(desired.to_config()),
            None => GenerationAction::Rest,
        };
        self.last_start_at = Some(now);
        self.waiting = Waiting::Start;
        action
    }

    /// Begins a round: takes what the session that is owned says of itself, and
    /// whether something of an earlier one is left.
    pub fn reconcile(
        &mut self,
        now: u64,
        report: Option<SessionReport>,
        pending: bool,
    ) -> (result: GenerationAction)
        requires
            old(self)@.valid(),
            old(self)@.waiting == Waiting::Nothing,
            report is Some <==> old(self)@.active is Some,
        ensures
            final(self)@.valid(),
            (final(self)@, result@) == old(self)@.round(now, report, pending),
    {
        if self.desired.is_none() {
            if self.active.is_some() {
                self.stop_requested = true;
                self.stop_attempted = true;
                self.waiting = Waiting::Stop;
                return GenerationAction::Stop;
            }
            return GenerationAction::Rest;
        }
        if let Some(report) = report {
            if report.is_unhealthy() {
                self.stop_requested = true;
                if self.error.is_none() {
                    self.error = match report.last_error {
                        Some(message) => Some(message),
                        None => Some("DNS generation stopped unexpectedly".to_owned()),
                    };
                }
            }
        }
        if self.topology_changed() {
            self.stop_requested = true;
        }
        if self.stop_requested {
            if self.active.is_some() {
                self.stop_attempted = true;
                self.waiting = Waiting::Stop;
                return GenerationAction::Stop;
            }
            self.stop_requested = false;
            self.stop_attempted = false;
            return self.try_start(now, pending);
        }
        let current = match &self.active {
            None => {
                return self.try_start(now, pending);
            },
            Some(active) => active.revision == self.desired_revision,
        };
        if current {
            return GenerationAction::Rest;
        }
        if let Some(at) = self.next_reload_at {
            if now < at {
                return GenerationAction::Rest;
            }
        }
        self.waiting = Waiting::Reload;
        match &self.desired {
            Some(desired) => GenerationAction::Reload(desired.rules.clone()),
            None => GenerationAction::Rest,
        }
    }

    /// Takes the outcome of an attempt to stop the session.
    pub fn stopped(
        &mut self,
        now: u64,
        result: Result<(), String>,
        cleanup_complete: bool,
        pending: bool,
    ) -> (action: GenerationAction)
        requires
            old(self)@.valid(),
            old(self)@.waiting == Waiting::Stop,
        ensures
            final(self)@.valid(),
            (final(self)@, action@) == old(self)@.stopped(
                now,
                result_view(result),
                cleanup_complete,
                pending,
            ),
    {
        self.waiting = Waiting::Nothing;
        if let Err(message) = result {
            self.error = Some(message);
        }
        if !cleanup_complete {
            return GenerationAction::Rest;
        }
        self.active = None;
        self.stop_requested = false;
        self.stop_attempted = false;
        if self.desired.is_none() {
            self.error = None;
            return GenerationAction::Rest;
        }
        self.try_start(now, pending)
    }

    /// Takes the outcome of a start: what the new session says of itself, or why
    /// there is none.
    pub fn started(&mut self, now: u64, outcome: Result<SessionReport, String>)
        requires
            old(self)@.valid(),
            old(self)@.waiting == Waiting::Start,
            now <= u64::MAX - MAX_RETRY_DELAY_MS,
        ensures
            final(self)@.valid(),
            final(self)@ == (match outcome {
                Ok(report) => old(self)@.started(report),
                Err(message) => old(self)@.start_failed(now, message@),
            }),
    {
        self.waiting = Waiting::Nothing;
        match outcome {
            Ok(report) => {
                self.active = match &self.desired {
                    Some(desired) => Some(
                        ActiveGeneration {
                            revision: self.desired_revision,
                            topology: desired.topology.copied(),
                        },
                    ),
                    None => None,
                };
                self.next_start_at = None;
                self.start_failures = 0;
                if report.is_unhealthy() {
                    self.stop_requested = true;
                    self.error = match report.last_error {
                        Some(message) => Some(message),
                        None => Some("DNS generation did not start Running".to_owned()),
                    };
                } else {
                    self.error = None;
                }
            },
            Err(message) => {
                self.start_failures = if self.start_failures == u32::MAX {
                    u32::MAX
                } else {
                    self.start_failures + 1
                };
                self.next_start_at = Some(now + retry_delay(self.start_failures));
                self.error = Some(message);
            },
        }
    }

    /// Takes the outcome of a reload, and what the session says of itself then.
    pub fn reloaded(&mut self, now: u64, result: Result<(), String>, report: SessionReport)
        requires
            old(self)@.valid(),
            old(self)@.waiting == Waiting::Reload,
            now <= u64::MAX - MAX_RETRY_DELAY_MS,
        ensures
            final(self)@.valid(),
            final(self)@ == old(self)@.reloaded(now, result_view(result), report),
    {
        self.waiting = Waiting::Nothing;
        match result {
            Ok(()) => {
                if report.is_unhealthy() {
                    self.stop_requested = true;
                    return;
                }
                let active = self.active.take();
                self.active = match active {
                    Some(active) => Some(
                        ActiveGeneration {
                            revision: self.desired_revision,
                            topology: active.topology,
                        },
                    ),
                    None => None,
                };
                self.next_reload_at = None;
                self.reload_failures = 0;
                self.error = None;
            },
            Err(message) => {
                self.error = Some(message);
                if report.is_unhealthy() {
                    self.stop_requested = true;
                    return;
                }
                self.reload_failures = if self.reload_failures == u32::MAX {
                    u32::MAX
                } else {
                    self.reload_failures + 1
                };
                self.next_reload_at = Some(now + retry_delay(self.reload_failures));
            },
        }
    }

    /// What the controller tells of itself.
    pub fn status(&self, report: Option<SessionReport>, pending: bool) -> (result:
        DnsGenerationStatus)
        requires
            report is Some <==> self@.active is Some,
        ensures
            result@ == self@.status(report, pending),
    {
        let requested = self.desired.is_some();
        let current = match &self.active {
            Some(active) => active.revision == self.desired_revision,
            None => false,
        };
        let own_error = match &self.error {
            Some(message) => Some(message.clone()),
            None => None,
        };
        match report {
            Some(report) => {
                let unhealthy = report.is_unhealthy();
                let cleanup_pending = (self.stop_requested || self.stop_attempted || unhealthy)
                    && !report.cleanup_complete;
                DnsGenerationStatus {
                    requested,
                    running: requested && !cleanup_pending && !self.stop_requested && !unhealthy
                        && current,
                    cleanup_pending,
                    error: match own_error {
                        Some(message) => Some(message),
                        None => report.last_error,
                    },
                }
            },
            None => DnsGenerationStatus {
                requested,
                running: requested && !pending && !self.stop_requested && current,
                cleanup_pending: pending,
                error: own_error,
            },
        }
    }
}

/// Whether a session says that it has to be replaced: it wants to roll over, or it does
/// not run.
pub open spec fn wants_to_go(report: SessionReport) -> bool {
    report.rollover_requested || !(report.state is Running)
}

proof fn lemma_late_delays(failures: nat)
    requires
        failures >= 7,
    ensures
        pow2((failures - 1) as nat) >= 64,
{
    lemma2_to64();
    if failures > 7 {
        lemma_pow2_strictly_increases(6, (failures - 1) as nat);
    }
}

/// The wait after the first failure is five seconds. It is twice as long after each
/// failure that follows, and never longer than three hundred seconds.
pub proof fn waits_double_with_each_failure(failures: nat)
    ensures
        delay_after(0) == 5_000,
        failures >= 1 && 5_000 * pow2((failures - 1) as nat) <= 300_000 ==> delay_after(failures)
            == 5_000 * pow2((failures - 1) as nat),
        failures >= 1 && 5_000 * pow2((failures - 1) as nat) > 300_000 ==> delay_after(failures)
            == 300_000,
{
    lemma2_to64();
    if failures >= 7 {
        lemma_late_delays(failures);
    }
}

/// What a round does. The session is stopped where nothing is asked for, a stop was
/// requested, the session says that it has to go, or it listens elsewhere than asked for.
/// One is started where none is owned, nothing of an earlier one is left, the wait after a
/// failure is over and the last start was five seconds ago. The rules are given to a
/// session that stays where they are newer than its own and the wait after a failure is
/// over. Nothing else is done.
pub proof fn rounds_do_what_is_due(
    state: GenerationView,
    now: u64,
    report: Option<SessionReport>,
    pending: bool,
)
    requires
        state.valid(),
        state.waiting == Waiting::Nothing,
        state.active is None ==> report is None,
    ensures
        ({
            let (after, action) = state.round(now, report, pending);
            let gone = report is Some && wants_to_go(report->0);
            let elsewhere = state.active is Some && state.desired is Some
                && state.active->0.topology != state.desired->0.topology;
            let stops = state.active is Some && (state.desired is None || state.stop_requested
                || gone || elsewhere);
            let starts = state.active is None && state.desired is Some && !pending && (
            state.next_start_at is None || state.next_start_at->0 <= now) && (
            state.last_start_at is None || now - state.last_start_at->0 >= 5_000);
            let reloads = state.active is Some && state.desired is Some && !stops
                && state.active->0.revision != state.desired_revision && (state.next_reload_at
                is None || state.next_reload_at->0 <= now);
            &&& action is Stop <==> stops
            &&& action is Start <==> starts
            &&& action is Reload <==> reloads
            &&& starts ==> action == ActionView::Start(state.desired->0)
            &&& reloads ==> action == ActionView::Reload(state.desired->0.rules)
            &&& after.waiting is Stop <==> stops
            &&& after.waiting is Start <==> starts
            &&& after.waiting is Reload <==> reloads
            &&& after.active == state.active && after.desired == state.desired
            &&& after.desired_revision == state.desired_revision
            &&& after.next_start_at == state.next_start_at && after.start_failures
                == state.start_failures
            &&& after.next_reload_at == state.next_reload_at && after.reload_failures
                == state.reload_failures
            &&& after.last_start_at == if starts {
                Some(now)
            } else {
                state.last_start_at
            }
            &&& stops ==> after.stop_requested && after.stop_attempted
            &&& !stops && state.desired is Some ==> !after.stop_requested
            &&& !stops ==> after.stop_attempted == state.stop_attempted
            &&& state.error is Some || state.desired is None || !gone ==> after.error
                == state.error
            &&& state.error is None && state.desired is Some && gone ==> match report->0.last_error {
                Some(message) => after.error == Some(message@),
                None => after.error == Some("DNS generation stopped unexpectedly"@),
            }
        }),
{
}

/// What asking for something else does: the failures and waits of what was asked for
/// before are forgotten, the revision is another one, and what runs is stopped where it
/// listens elsewhere or nothing is asked for.
pub proof fn requests_start_afresh(state: GenerationView, next: Option<DesiredView>)
    ensures
        ({
            let after = state.asked(next);
            &&& after.desired == next
            &&& after.active == state.active && after.last_start_at == state.last_start_at
            &&& after.waiting == state.waiting && after.stop_attempted == state.stop_attempted
            &&& next == state.desired ==> after == state
            &&& next != state.desired ==> {
                &&& after.error is None
                &&& after.next_start_at is None && after.next_reload_at is None
                &&& after.start_failures == 0 && after.reload_failures == 0
                &&& state.desired_revision < u64::MAX ==> after.desired_revision
                    == state.desired_revision + 1
                &&& state.desired_revision == u64::MAX ==> after.desired_revision == 0
                &&& next is None ==> (after.stop_requested <==> state.active is Some)
                &&& next is Some && (state.active is None || state.stop_attempted)
                    ==> after.stop_requested == state.stop_requested
                &&& next is Some && state.active is Some && !state.stop_attempted ==> (
                after.stop_requested <==> state.active->0.topology != next->0.topology)
            }
        }),
{
}

/// What a stop that was attempted leaves: the session, until its cleanup is complete; its
/// error, if it failed; and nothing at all once it is gone and nothing is asked for.
pub proof fn stops_let_go_after_the_cleanup(
    state: GenerationView,
    now: u64,
    result: Result<(), Seq<char>>,
    cleanup_complete: bool,
    pending: bool,
)
    requires
        state.valid(),
        state.waiting == Waiting::Stop,
    ensures
        ({
            let (after, action) = state.stopped(now, result, cleanup_complete, pending);
            let starts = cleanup_complete && state.desired is Some && !pending && (
            state.next_start_at is None || state.next_start_at->0 <= now) && (
            state.last_start_at is None || now - state.last_start_at->0 >= 5_000);
            &&& after.active is None <==> cleanup_complete
            &&& after.active is Some ==> after.active == state.active
            &&& after.stop_requested == !cleanup_complete && after.stop_attempted
                == !cleanup_complete
            &&& starts ==> action == ActionView::Start(state.desired->0)
            &&& !starts ==> action is Rest
            &&& after.waiting is Start <==> starts
            &&& after.waiting is Nothing <==> !starts
            &&& after.last_start_at == if starts {
                Some(now)
            } else {
                state.last_start_at
            }
            &&& cleanup_complete && state.desired is None ==> after.error is None
            &&& !cleanup_complete || state.desired is Some ==> match result {
                Ok(_) => after.error == state.error,
                Err(message) => after.error == Some(message),
            }
            &&& after.desired == state.desired && after.desired_revision == state.desired_revision
            &&& after.next_start_at == state.next_start_at && after.start_failures
                == state.start_failures
            &&& after.next_reload_at == state.next_reload_at && after.reload_failures
                == state.reload_failures
        }),
{
}

/// What a start leaves: the session is owned for what was asked for, and the failures
/// before it are forgotten. One that does not run is to be stopped, with its error.
pub proof fn started_sessions_are_owned(state: GenerationView, report: SessionReport)
    requires
        state.valid(),
        state.waiting == Waiting::Start,
    ensures
        ({
            let after = state.started(report);
            &&& after.active == Some(
                ActiveView {
                    revision: state.desired_revision,
                    topology: state.desired->0.topology,
                },
            )
            &&& after.waiting is Nothing
            &&& after.next_start_at is None && after.start_failures == 0
            &&& after.stop_requested <==> wants_to_go(report)
            &&& !wants_to_go(report) ==> after.error is None
            &&& wants_to_go(report) ==> match report.last_error {
                Some(message) => after.error == Some(message@),
                None => after.error == Some("DNS generation did not start Running"@),
            }
            &&& after.desired == state.desired && after.desired_revision == state.desired_revision
            &&& after.last_start_at == state.last_start_at && after.stop_attempted
                == state.stop_attempted
            &&& after.next_reload_at == state.next_reload_at && after.reload_failures
                == state.reload_failures
        }),
{
}

/// What a start that failed leaves: its error, one failure more and the wait that comes
/// with that many.
pub proof fn failed_starts_are_waited_for(state: GenerationView, now: u64, message: Seq<char>)
    requires
        state.start_failures < u32::MAX,
        now <= u64::MAX - 300_000,
    ensures
        ({
            let after = state.start_failed(now, message);
            &&& after == GenerationView {
                waiting: Waiting::Nothing,
                start_failures: after.start_failures,
                next_start_at: after.next_start_at,
                error: Some(message),
                ..state
            }
            &&& after.start_failures == state.start_failures + 1
            &&& after.next_start_at is Some
            &&& 5_000 * pow2(state.start_failures as nat) <= 300_000 ==> after.next_start_at->0
                == now + 5_000 * pow2(state.start_failures as nat)
            &&& 5_000 * pow2(state.start_failures as nat) > 300_000 ==> after.next_start_at->0
                == now + 300_000
        }),
{
    waits_double_with_each_failure((state.start_failures + 1) as nat);
}

/// What a reload leaves: the session has the rules, or the wait begins after which they
/// are given to it again. A session that says that it has to go is to be stopped.
pub proof fn reloads_bring_the_session_up_to_date(
    state: GenerationView,
    now: u64,
    result: Result<(), Seq<char>>,
    report: SessionReport,
)
    requires
        state.valid(),
        state.waiting == Waiting::Reload,
        state.reload_failures < u32::MAX,
        now <= u64::MAX - 300_000,
    ensures
        ({
            let after = state.reloaded(now, result, report);
            let taken = result is Ok && !wants_to_go(report);
            let refused = result is Err && !wants_to_go(report);
            &&& after.waiting is Nothing
            &&& after.stop_requested <==> wants_to_go(report)
            &&& after.active is Some && after.active->0.topology == state.active->0.topology
            &&& after.active->0.revision == if taken {
                state.desired_revision
            } else {
                state.active->0.revision
            }
            &&& taken ==> after.error is None && after.next_reload_at is None
                && after.reload_failures == 0
            &&& result is Err ==> after.error == Some(result->Err_0)
            &&& result is Ok && !taken ==> after.error == state.error
            &&& refused ==> after.reload_failures == state.reload_failures + 1
                && after.next_reload_at is Some
            &&& refused && 5_000 * pow2(state.reload_failures as nat) <= 300_000
                ==> after.next_reload_at->0 == now + 5_000 * pow2(state.reload_failures as nat)
            &&& refused && 5_000 * pow2(state.reload_failures as nat) > 300_000
                ==> after.next_reload_at->0 == now + 300_000
            &&& wants_to_go(report) ==> after.reload_failures == state.reload_failures
                && after.next_reload_at == state.next_reload_at
            &&& after.desired == state.desired && after.desired_revision == state.desired_revision
            &&& after.last_start_at == state.last_start_at && after.next_start_at
                == state.next_start_at && after.start_failures == state.start_failures
            &&& after.stop_attempted == state.stop_attempted
        }),
{
    waits_double_with_each_failure((state.reload_failures + 1) as nat);
}

/// What is told: that it runs exactly where the session that is owned has what is asked
/// for, is well and is not being stopped; and that a cleanup is pending exactly where a
/// session that goes has something left, or, with none owned, something of an earlier one
/// is left.
pub proof fn status_tells_what_is_so(
    state: GenerationView,
    report: Option<SessionReport>,
    pending: bool,
)
    requires
        state.valid(),
        state.active is Some <==> report is Some,
    ensures
        ({
            let told = state.status(report, pending);
            let going = state.stop_requested || state.stop_attempted || (report is Some
                && wants_to_go(report->0));
            &&& told.requested <==> state.desired is Some
            &&& report is Some ==> (told.cleanup_pending <==> going && !report->0.cleanup_complete)
            &&& report is None ==> told.cleanup_pending == pending
            &&& told.running <==> {
                &&& state.desired is Some && state.active is Some
                &&& state.active->0.revision == state.desired_revision
                &&& !state.stop_requested && !wants_to_go(report->0)
                &&& !state.stop_attempted || report->0.cleanup_complete
            }
            &&& state.error is Some ==> told.error == state.error
            &&& state.error is None && report is None ==> told.error is None
            &&& state.error is None && report is Some ==> match report->0.last_error {
                Some(message) => told.error == Some(message@),
                None => told.error is None,
            }
        }),
{
}

} // verus!
