//! When the DNS filter is retrieved, and what is kept of it. This never enables
//! filtering and never changes the DNS configuration.

use crate::dns_cache::{elapsed, DnsFilter, StoredFilter, MAX_CACHE_AGE_SECS, MAX_CLOCK_SKEW_SECS};
use crate::dns_session::text_option;
use crate::text::{shorten, shortened};
use vstd::prelude::*;
use vstd::string::*;

verus! {

/// How long to wait after an attempt, in milliseconds.
pub const FAILURE_RETRY_MS: u64 = 900_000;

/// How many characters of an error are kept.
pub const MAX_ERROR_CHARS: usize = 1024;

/// What is told of the filter.
#[derive(Clone, Debug, PartialEq, Eq)]
pub struct DnsUpdateStatus {
    pub refreshing: bool,
    pub available: bool,
    pub stale: bool,
    pub retrieved_at: Option<u64>,
    pub rules_count: u64,
    pub last_error: Option<String>,
}

/// What is told of the filter, as mathematical values.
pub ghost struct UpdateView {
    pub refreshing: bool,
    pub available: bool,
    pub stale: bool,
    pub retrieved_at: Option<u64>,
    pub rules_count: u64,
    pub last_error: Option<Seq<char>>,
}

impl DnsUpdateStatus {
    pub open spec fn view(&self) -> UpdateView {
        UpdateView {
            refreshing: self.refreshing,
            available: self.available,
            stale: self.stale,
            retrieved_at: self.retrieved_at,
            rules_count: self.rules_count,
            last_error: text_option(self.last_error),
        }
    }
}

/// The filter that is held and how its retrieval goes. Moments of the steady clock
/// are milliseconds, moments of the calendar are seconds.
#[derive(Debug, PartialEq, Eq)]
pub struct DnsUpdater {
    initialized: bool,
    refreshing: bool,
    last_attempt: Option<u64>,
    filter: Option<DnsFilter>,
    error: Option<String>,
}

/// The updater, as mathematical values.
pub ghost struct UpdaterView {
    pub initialized: bool,
    pub refreshing: bool,
    pub last_attempt: Option<u64>,
    pub filter: Option<StoredFilter>,
    pub error: Option<Seq<char>>,
}

/// An optional filter, as mathematical values.
pub open spec fn filter_option(filter: Option<DnsFilter>) -> Option<StoredFilter> {
    match filter {
        Some(filter) => Some(filter@),
        None => None,
    }
}

impl UpdaterView {
    /// The filter that may be used: one that is neither too old nor from the future.
    pub open spec fn usable(self, now: u64) -> Option<StoredFilter> {
        match self.filter {
            Some(filter) => if filter.plausible_at(now) && !filter.expired_at(now) {
                Some(filter)
            } else {
                None
            },
            None => None,
        }
    }

    /// Whether the wait after the last attempt is over.
    pub open spec fn rested(self, instant: u64) -> bool {
        self.last_attempt matches Some(last) ==> elapsed(last, instant) >= FAILURE_RETRY_MS
    }

    /// Whether the filter is to be retrieved.
    pub open spec fn due(self, instant: u64, now: u64, force: bool) -> bool {
        if self.refreshing {
            false
        } else if force {
            true
        } else if !self.initialized {
            self.rested(instant)
        } else {
            self.rested(instant) && (self.error is Some || match self.usable(now) {
                Some(filter) => filter.stale_at(now),
                None => true,
            })
        }
    }

    /// What is told of the filter.
    pub open spec fn status(self, now: u64) -> UpdateView {
        UpdateView {
            refreshing: self.refreshing,
            available: self.usable(now) is Some,
            stale: self.filter matches Some(filter) && filter.stale_at(now),
            retrieved_at: match self.filter {
                Some(filter) => Some(filter.retrieved_at),
                None => None,
            },
            rules_count: match self.usable(now) {
                Some(filter) => filter.rules_count,
                None => 0,
            },
            last_error: self.error,
        }
    }

    /// The updater while a retrieval runs.
    pub open spec fn begun(self, instant: u64) -> UpdaterView {
        UpdaterView { refreshing: true, last_attempt: Some(instant), ..self }
    }

    /// The updater once a retrieval ended.
    pub open spec fn finished(self, result: Result<StoredFilter, Seq<char>>) -> UpdaterView {
        match result {
            Ok(filter) => UpdaterView {
                refreshing: false,
                filter: Some(filter),
                error: None,
                ..self
            },
            Err(message) => UpdaterView {
                refreshing: false,
                error: Some(shortened(message, MAX_ERROR_CHARS as nat)),
                ..self
            },
        }
    }

    /// The updater once the kept filter was looked for, and whether the source is
    /// still to be asked.
    pub open spec fn initialized(
        self,
        loaded: Result<Option<StoredFilter>, Seq<char>>,
        now: u64,
        force: bool,
    ) -> (UpdaterView, bool) {
        let read = match loaded {
            Ok(filter) => UpdaterView { initialized: true, filter, ..self },
            Err(_) => UpdaterView {
                initialized: true,
                error: Some("Cached DNS filter could not be validated"@),
                ..self
            },
        };
        if !force && (read.filter matches Some(filter) && !filter.stale_at(now)) {
            (UpdaterView { refreshing: false, ..read }, false)
        } else {
            (read, true)
        }
    }

    /// The updater once the one who retrieved stopped without a word.
    pub open spec fn interrupted(self) -> UpdaterView {
        if self.refreshing {
            UpdaterView {
                refreshing: false,
                error: Some("DNS filter worker stopped unexpectedly"@),
                ..self
            }
        } else {
            self
        }
    }
}

/// While a retrieval runs no other is begun, not even one that is demanded.
pub proof fn retrievals_are_coalesced(state: UpdaterView, instant: u64, now: u64, force: bool)
    ensures
        !state.begun(instant).due(instant, now, force),
{
}

/// After a retrieval failed the next is begun once the wait is over and not before,
/// unless it is demanded.
pub proof fn failed_retrievals_back_off(
    state: UpdaterView,
    instant: u64,
    later: u64,
    now: u64,
    message: Seq<char>,
)
    requires
        instant <= later,
    ensures
        ({
            let after = state.begun(instant).finished(Err(message));
            &&& after.due(later, now, false) <==> later - instant >= FAILURE_RETRY_MS
            &&& after.due(later, now, true)
            &&& after.filter == state.filter
        }),
{
}

/// A worker that stops unexpectedly releases the retrieval and leaves the wait in
/// force.
pub proof fn interrupted_retrievals_back_off(
    state: UpdaterView,
    instant: u64,
    later: u64,
    now: u64,
)
    requires
        instant <= later,
    ensures
        ({
            let after = state.begun(instant).interrupted();
            &&& !after.refreshing
            &&& after.error is Some
            &&& after.due(later, now, false) <==> later - instant >= FAILURE_RETRY_MS
        }),
{
}

/// A filter that is held is handed out for a week and no longer, whatever fails
/// meanwhile.
pub proof fn held_filters_expire(state: UpdaterView, filter: StoredFilter, message: Seq<char>, now: u64)
    requires
        filter.retrieved_at <= now,
    ensures
        ({
            let after = state.finished(Ok(filter)).finished(Err(message));
            &&& now - filter.retrieved_at <= MAX_CACHE_AGE_SECS ==> after.usable(now) == Some(filter)
            &&& now - filter.retrieved_at > MAX_CACHE_AGE_SECS ==> after.usable(now) is None
                && !after.status(now).available && after.status(now).rules_count == 0
        }),
{
}

impl DnsUpdater {
    pub closed spec fn view(&self) -> UpdaterView {
        UpdaterView {
            initialized: self.initialized,
            refreshing: self.refreshing,
            last_attempt: self.last_attempt,
            filter: filter_option(self.filter),
            error: text_option(self.error),
        }
    }

    /// An updater that has not looked for a filter yet.
    pub fn new() -> (result: Self)
        ensures
            result@ == (UpdaterView {
                initialized: false,
                refreshing: false,
                last_attempt: None,
                filter: None,
                error: None,
            }),
    {
        DnsUpdater {
            initialized: false,
            refreshing: false,
            last_attempt: None,
            filter: None,
            error: None,
        }
    }

    /// The filter that may be used.
    pub fn snapshot(&self, now: u64) -> (result: Option<&DnsFilter>)
        ensures
            result is Some <==> self@.usable(now) is Some,
            result matches Some(filter) ==> self@.usable(now) == Some(filter@),
    {
        match &self.filter {
            Some(filter) => if filter.retrieved_at <= now.saturating_add(MAX_CLOCK_SKEW_SECS)
                && now.saturating_sub(filter.retrieved_at) <= MAX_CACHE_AGE_SECS {
                Some(filter)
            } else {
                None
            },
            None => None,
        }
    }

    /// What is told of the filter.
    pub fn status(&self, now: u64) -> (result: DnsUpdateStatus)
        ensures
            result@ == self@.status(now),
    {
        let usable = self.snapshot(now);
        DnsUpdateStatus {
            refreshing: self.refreshing,
            available: usable.is_some(),
            stale: match &self.filter {
                Some(filter) => filter.stale(now),
                None => false,
            },
            retrieved_at: match &self.filter {
                Some(filter) => Some(filter.retrieved_at),
                None => None,
            },
            rules_count: match usable {
                Some(filter) => filter.rules_count,
                None => 0,
            },
            last_error: match &self.error {
                Some(message) => Some(message.clone()),
                None => None,
            },
        }
    }

    /// Whether the filter is to be retrieved.
    pub fn due(&self, instant: u64, now: u64, force: bool) -> (result: bool)
        ensures
            result == self@.due(instant, now, force),
    {
        if self.refreshing {
            return false;
        }
        if force {
            return true;
        }
        if let Some(last) = self.last_attempt {
            if instant.saturating_sub(last) < FAILURE_RETRY_MS {
                return false;
            }
        }
        if !self.initialized {
            return true;
        }
        if self.error.is_some() {
            return true;
        }
        match self.snapshot(now) {
            Some(filter) => filter.stale(now),
            None => true,
        }
    }

    /// Begins a retrieval if it is due; tells whether the kept filter is to be looked
    /// for first.
    pub fn request(&mut self, instant: u64, now: u64, force: bool) -> (result: Option<bool>)
        ensures
            result is Some <==> old(self)@.due(instant, now, force),
            result matches Some(initialize) ==> initialize == !old(self)@.initialized
                && final(self)@ == old(self)@.begun(instant),
            result is None ==> final(self)@ == old(self)@,
    {
        if !self.due(instant, now, force) {
            return None;
        }
        let initialize = !self.initialized;
        self.refreshing = true;
        self.last_attempt = Some(instant);
        Some(initialize)
    }

    /// Takes what looking for the kept filter came to; tells whether the source is
    /// still to be asked. A fresh filter does without, unless it was demanded.
    pub fn initialize(
        &mut self,
        loaded: Result<Option<DnsFilter>, String>,
        now: u64,
        force: bool,
    ) -> (result: bool)
        ensures
            (final(self)@, result) == old(self)@.initialized(
                match loaded {
                    Ok(filter) => Ok(filter_option(filter)),
                    Err(message) => Err(message@),
                },
                now,
                force,
            ),
    {
        self.initialized = true;
        match loaded {
            Ok(filter) => {
                self.filter = filter;
            },
            Err(_) => {
                self.error = Some("Cached DNS filter could not be validated".to_owned());
            },
        }
        if !force {
            let fresh = match &self.filter {
                Some(filter) => !filter.stale(now),
                None => false,
            };
            if fresh {
                self.refreshing = false;
                return false;
            }
        }
        true
    }

    /// Takes what a retrieval came to.
    pub fn finish(&mut self, result: Result<DnsFilter, String>)
        ensures
            final(self)@ == old(self)@.finished(
                match result {
                    Ok(filter) => Ok(filter@),
                    Err(message) => Err(message@),
                },
            ),
    {
        self.refreshing = false;
        match result {
            Ok(filter) => {
                self.filter = Some(filter);
                self.error = None;
            },
            Err(message) => {
                self.error = Some(shorten(message.as_str(), MAX_ERROR_CHARS));
            },
        }
    }

    /// Takes that the one who retrieves has ended; where it gave no outcome it
    /// stopped unexpectedly.
    pub fn worker_ended(&mut self)
        ensures
            final(self)@ == old(self)@.interrupted(),
    {
        if self.refreshing {
            self.refreshing = false;
            self.error = Some("DNS filter worker stopped unexpectedly".to_owned());
        }
    }

    /// Takes that nobody could be set to retrieve.
    pub fn worker_unavailable(&mut self)
        ensures
            final(self)@ == (UpdaterView {
                refreshing: false,
                error: Some("DNS filter worker unavailable"@),
                ..old(self)@
            }),
    {
        self.refreshing = false;
        self.error = Some("DNS filter worker unavailable".to_owned());
    }
}

/// Whether a filter may be used: at most a week old, and not more than five minutes ahead.
pub open spec fn in_date(filter: StoredFilter, now: u64) -> bool {
    filter.retrieved_at <= now + 300 && now <= filter.retrieved_at + 604_800
}

/// What is held is handed out, as it is, exactly while it is in date; what is told of it
/// goes by the same rule.
pub proof fn filters_in_date_are_handed_out(state: UpdaterView, now: u64)
    ensures
        state.usable(now) is Some <==> state.filter is Some && in_date(state.filter->0, now),
        state.usable(now) is Some ==> state.usable(now) == state.filter,
        ({
            let told = state.status(now);
            let held = state.filter is Some && in_date(state.filter->0, now);
            &&& told.refreshing == state.refreshing
            &&& told.available == held
            &&& told.stale <==> state.filter is Some && now >= state.filter->0.retrieved_at + 86_400
            &&& state.filter is Some ==> told.retrieved_at == Some(state.filter->0.retrieved_at)
            &&& state.filter is None ==> told.retrieved_at is None
            &&& held ==> told.rules_count == state.filter->0.rules_count
            &&& !held ==> told.rules_count == 0
            &&& told.last_error == state.error
        }),
{
}

/// A retrieval is due where none runs and it is demanded; or where none runs, the last
/// attempt was at least fifteen minutes ago, and the kept filter was not looked for yet,
/// the last attempt failed, or no filter in date is held that is less than a day old.
pub proof fn retrievals_are_due(state: UpdaterView, instant: u64, now: u64, force: bool)
    ensures
        state.due(instant, now, force) <==> !state.refreshing && (force || {
            &&& state.last_attempt is None || instant >= state.last_attempt->0 + 15 * 60 * 1000
            &&& {
                ||| !state.initialized
                ||| state.error is Some
                ||| state.filter is None
                ||| !in_date(state.filter->0, now)
                ||| now >= state.filter->0.retrieved_at + 24 * 60 * 60
            }
        }),
        ({
            let after = state.begun(instant);
            &&& after.refreshing && after.last_attempt == Some(instant)
            &&& after.filter == state.filter && after.error == state.error && after.initialized
                == state.initialized
        }),
{
}

/// A retrieval that succeeds leaves its filter and no error; one that fails leaves the
/// filter that was held and the first 1024 characters of its error. No retrieval runs
/// after either, nor after the worker has gone.
pub proof fn retrievals_end(
    state: UpdaterView,
    result: Result<StoredFilter, Seq<char>>,
)
    ensures
        ({
            let after = state.finished(result);
            &&& !after.refreshing && after.initialized == state.initialized && after.last_attempt
                == state.last_attempt
            &&& result matches Ok(filter) ==> after.filter == Some(filter) && after.error is None
            &&& result matches Err(message) ==> {
                &&& after.filter == state.filter
                &&& after.error is Some
                &&& message.len() <= 1024 ==> after.error == Some(message)
                &&& message.len() > 1024 ==> after.error == Some(message.subrange(0, 1024))
            }
        }),
        ({
            let after = state.interrupted();
            &&& !after.refreshing && after.initialized == state.initialized && after.last_attempt
                == state.last_attempt && after.filter == state.filter
            &&& state.refreshing ==> after.error == Some("DNS filter worker stopped unexpectedly"@)
            &&& !state.refreshing ==> after.error == state.error
        }),
{
    if let Err(message) = result {
        if message.len() > 1024 {
            assert(message.take(1024) =~= message.subrange(0, 1024));
        }
    }
}

/// Looking for the kept filter is done once: what was found is held, and a failure is
/// noted. The source is still asked, unless what is held then is less than a day old and
/// nothing was demanded.
pub proof fn kept_filters_save_a_retrieval(
    state: UpdaterView,
    loaded: Result<Option<StoredFilter>, Seq<char>>,
    now: u64,
    force: bool,
)
    ensures
        ({
            let (after, asks) = state.initialized(loaded, now, force);
            &&& after.initialized && after.last_attempt == state.last_attempt
            &&& loaded matches Ok(filter) ==> after.filter == filter && after.error == state.error
            &&& loaded is Err ==> after.filter == state.filter && after.error == Some(
                "Cached DNS filter could not be validated"@,
            )
            &&& asks <==> force || after.filter is None || now >= after.filter->0.retrieved_at
                + 86_400
            &&& asks ==> after.refreshing == state.refreshing
            &&& !asks ==> !after.refreshing
        }),
{
}

} // verus!
