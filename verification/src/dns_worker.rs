//! The one background owner of the DNS generations: requests are coalesced while a
//! start, a reload or a stop is under way, and the owner ends only once nothing is
//! left to clean up.

use crate::dns_generation::{desired_option, DesiredView, DnsGenerationStatus, StatusView};
use crate::dns_process::TransparentDnsConfig;
use crate::dns_supervisor::result_view;
use vstd::prelude::*;
use vstd::string::*;

verus! {

/// How long the owner waits between two rounds, in milliseconds.
pub const ACTIVE_POLL_MS: u64 = 250;

/// What the owner does after a round.
#[derive(Clone, Copy, Debug, PartialEq, Eq, Structural)]
pub enum WorkerStep {
    /// Ends.
    End,
    /// Goes on at once: something else is asked for.
    Again,
    /// Goes on after a while, or once something else is asked for.
    Poll,
    /// Goes on once something is asked for.
    Sleep,
}

/// What the owner shares with those who ask.
#[derive(Debug, PartialEq, Eq)]
pub struct DnsGenerationWorker {
    pending: Option<Option<TransparentDnsConfig>>,
    shutdown: bool,
    result: Option<Result<(), String>>,
    status: DnsGenerationStatus,
}

/// What the owner shares, as mathematical values.
pub ghost struct SharedView {
    pub pending: Option<Option<DesiredView>>,
    pub shutdown: bool,
    pub result: Option<Result<(), Seq<char>>>,
    pub status: StatusView,
}

impl SharedView {
    /// What is shared once something else is asked for.
    pub open spec fn asked(self, desired: Option<DesiredView>) -> SharedView {
        SharedView {
            pending: Some(desired),
            status: StatusView {
                requested: desired is Some,
                running: false,
                cleanup_pending: self.status.cleanup_pending || (desired is None
                    && self.status.requested),
                ..self.status
            },
            ..self
        }
    }

    /// What is shared once a stop is asked for.
    pub open spec fn stop_asked(self) -> SharedView {
        SharedView {
            shutdown: true,
            pending: Some(None),
            status: StatusView {
                requested: false,
                running: false,
                cleanup_pending: self.status.cleanup_pending || self.status.requested,
                ..self.status
            },
            ..self
        }
    }

    /// What is shared after a round: what the controller tells of itself, unless
    /// something else was asked for meanwhile.
    pub open spec fn published(self, actual: StatusView) -> SharedView {
        SharedView {
            status: match self.pending {
                None => actual,
                Some(desired) => StatusView {
                    requested: desired is Some,
                    running: false,
                    cleanup_pending: actual.cleanup_pending || (desired is None
                        && actual.requested),
                    ..actual
                },
            },
            ..self
        }
    }

    /// What the owner does after a round.
    pub open spec fn next(self, actual: StatusView) -> WorkerStep {
        if self.pending is Some {
            WorkerStep::Again
        } else if self.shutdown && !actual.requested && !actual.cleanup_pending {
            WorkerStep::End
        } else if actual.requested || actual.cleanup_pending {
            WorkerStep::Poll
        } else {
            WorkerStep::Sleep
        }
    }

    /// What is shared once the owner has ended, by itself or by a panic.
    pub open spec fn ended(self, panicked: bool) -> SharedView {
        if panicked {
            let message = "DNS controller worker panicked; cleanup is unconfirmed"@;
            SharedView {
                status: StatusView {
                    running: false,
                    cleanup_pending: true,
                    error: Some(message),
                    ..self.status
                },
                result: Some(Err(message)),
                ..self
            }
        } else {
            SharedView { result: Some(Ok(())), ..self }
        }
    }
}

/// The owner ends only after a stop was asked for, with nothing requested and
/// nothing left to clean up.
pub proof fn the_owner_ends_only_after_cleanup(shared: SharedView, actual: StatusView)
    ensures
        shared.next(actual) == WorkerStep::End ==> shared.shutdown && shared.pending is None
            && !actual.requested && !actual.cleanup_pending,
{
}

/// A later request replaces an earlier one that was not taken up yet.
pub proof fn requests_are_coalesced(
    shared: SharedView,
    first: Option<DesiredView>,
    second: Option<DesiredView>,
)
    ensures
        shared.asked(first).asked(second).pending == Some(second),
        shared.asked(first).stop_asked().pending == Some(None::<DesiredView>),
{
}

/// While something else is asked for, nothing is told to be running; what was
/// requested before counts as left to clean up once it is no longer asked for.
pub proof fn pending_requests_are_visible(
    shared: SharedView,
    desired: Option<DesiredView>,
    actual: StatusView,
)
    ensures
        !shared.asked(desired).status.running,
        !shared.asked(desired).published(actual).status.running,
        shared.asked(desired).published(actual).status.requested == (desired is Some),
        desired is None && actual.requested ==> shared.asked(desired).published(
            actual,
        ).status.cleanup_pending,
{
}

/// A panic is never told as a successful stop.
pub proof fn panics_are_failures(shared: SharedView)
    ensures
        shared.ended(true).result matches Some(Err(_)),
        !shared.ended(true).status.running,
        shared.ended(true).status.cleanup_pending,
{
}

impl DnsGenerationWorker {
    pub closed spec fn view(&self) -> SharedView {
        SharedView {
            pending: match self.pending {
                None => None,
                Some(desired) => Some(desired_option(desired)),
            },
            shutdown: self.shutdown,
            result: match self.result {
                None => None,
                Some(result) => Some(result_view(result)),
            },
            status: self.status@,
        }
    }

    /// Nothing is asked for yet.
    pub fn new() -> (result: Self)
        ensures
            result@ == (SharedView {
                pending: None,
                shutdown: false,
                result: None,
                status: StatusView {
                    requested: false,
                    running: false,
                    cleanup_pending: false,
                    error: None,
                },
            }),
    {
        DnsGenerationWorker {
            pending: None,
            shutdown: false,
            result: None,
            status: DnsGenerationStatus {
                requested: false,
                running: false,
                cleanup_pending: false,
                error: None,
            },
        }
    }

    /// Asks for something else. This is refused once a stop was asked for or the
    /// owner has ended.
    pub fn set_desired(&mut self, desired: Option<TransparentDnsConfig>) -> (result: Result<
        (),
        String,
    >)
        ensures
            result is Err <==> old(self)@.shutdown || old(self)@.result is Some,
            result is Ok ==> final(self)@ == old(self)@.asked(desired_option(desired)),
            result matches Err(message) ==> message@
                == "DNS controller worker is stopping or stopped"@ && final(self)@ == old(self)@,
    {
        if self.shutdown || self.result.is_some() {
            return Err("DNS controller worker is stopping or stopped".to_owned());
        }
        if desired.is_none() && self.status.requested {
            self.status.cleanup_pending = true;
        }
        self.status.requested = desired.is_some();
        self.status.running = false;
        self.pending = Some(desired);
        Ok(())
    }

    /// What was told last.
    pub fn status(&self) -> (result: DnsGenerationStatus)
        ensures
            result@ == self@.status,
    {
        self.status.copied()
    }

    /// Asks for a stop.
    pub fn request_stop(&mut self)
        ensures
            final(self)@ == old(self)@.stop_asked(),
    {
        self.shutdown = true;
        self.pending = Some(None);
        if self.status.requested {
            self.status.cleanup_pending = true;
        }
        self.status.requested = false;
        self.status.running = false;
    }

    /// What the one who waits for the stop is told once `elapsed` milliseconds of
    /// their `timeout` have passed; `None` while they still wait.
    pub fn stop_outcome(&self, elapsed: u64, timeout: u64) -> (result: Option<Result<(), String>>)
        ensures
            self@.result matches Some(outcome) ==> (result matches Some(told) && result_view(told)
                == outcome),
            self@.result is None ==> (result is Some <==> elapsed >= timeout),
            self@.result is None ==> (result matches Some(told) ==> (told matches Err(message)
                && message@ == "DNS worker cleanup is still pending"@)),
    {
        match &self.result {
            Some(Ok(())) => Some(Ok(())),
            Some(Err(message)) => Some(Err(message.clone())),
            None => if elapsed >= timeout {
                Some(Err("DNS worker cleanup is still pending".to_owned()))
            } else {
                None
            },
        }
    }

    /// Takes up what is asked for, before a round.
    pub fn take_pending(&mut self) -> (result: Option<Option<TransparentDnsConfig>>)
        ensures
            old(self)@.pending == (match result {
                None => None,
                Some(desired) => Some(desired_option(desired)),
            }),
            final(self)@ == (SharedView { pending: None, ..old(self)@ }),
    {
        self.pending.take()
    }

    /// Takes what the controller tells of itself, after a round.
    pub fn publish(&mut self, actual: DnsGenerationStatus) -> (result: WorkerStep)
        ensures
            final(self)@ == old(self)@.published(actual@),
            result == old(self)@.next(actual@),
    {
        let requested = actual.requested;
        let cleanup_pending = actual.cleanup_pending;
        self.status = actual;
        if let Some(desired) = &self.pending {
            let wanted = desired.is_some();
            self.status.requested = wanted;
            self.status.running = false;
            if !wanted && requested {
                self.status.cleanup_pending = true;
            }
            return WorkerStep::Again;
        }
        if self.shutdown && !requested && !cleanup_pending {
            return WorkerStep::End;
        }
        if requested || cleanup_pending {
            WorkerStep::Poll
        } else {
            WorkerStep::Sleep
        }
    }

    /// Takes that the owner has ended, by itself or by a panic.
    pub fn ended(&mut self, panicked: bool)
        ensures
            final(self)@ == old(self)@.ended(panicked),
    {
        if panicked {
            self.status.running = false;
            self.status.cleanup_pending = true;
            self.status.error = Some(
                "DNS controller worker panicked; cleanup is unconfirmed".to_owned(),
            );
            self.result = Some(
                Err("DNS controller worker panicked; cleanup is unconfirmed".to_owned()),
            );
        } else {
            self.result = Some(Ok(()));
        }
    }
}

/// What the owner does after a round: it goes on at once where something else is asked
/// for; otherwise it polls while something is requested or left to clean up, ends once a
/// stop was asked for, and sleeps until then.
pub proof fn owners_poll_while_something_is_left(shared: SharedView, actual: StatusView)
    ensures
        ({
            let step = shared.next(actual);
            let busy = actual.requested || actual.cleanup_pending;
            &&& step is Again <==> shared.pending is Some
            &&& step is Poll <==> shared.pending is None && busy
            &&& step is End <==> shared.pending is None && !busy && shared.shutdown
            &&& step is Sleep <==> shared.pending is None && !busy && !shared.shutdown
        }),
{
}

/// What asking leaves: it is pending, told as requested or not and as not running; once
/// what was requested is not any more, a cleanup is pending. A stop asks for nothing and
/// is for good.
pub proof fn asking_is_told_at_once(shared: SharedView, desired: Option<DesiredView>)
    ensures
        ({
            let after = shared.asked(desired);
            &&& after.pending == Some(desired) && after.shutdown == shared.shutdown && after.result
                == shared.result
            &&& after.status.requested <==> desired is Some
            &&& !after.status.running
            &&& after.status.cleanup_pending <==> shared.status.cleanup_pending || (
            shared.status.requested && desired is None)
            &&& after.status.error == shared.status.error
        }),
        ({
            let after = shared.stop_asked();
            &&& after.shutdown && after.pending == Some(None::<DesiredView>) && after.result
                == shared.result
            &&& !after.status.requested && !after.status.running
            &&& after.status.cleanup_pending <==> shared.status.cleanup_pending
                || shared.status.requested
            &&& after.status.error == shared.status.error
        }),
{
}

/// What a round tells: what the controller tells, where nothing else was asked for
/// meanwhile; otherwise what is asked for now, as not running.
pub proof fn rounds_tell_what_is_asked_for(shared: SharedView, actual: StatusView)
    ensures
        ({
            let after = shared.published(actual);
            &&& after.pending == shared.pending && after.shutdown == shared.shutdown
                && after.result == shared.result
            &&& shared.pending is None ==> after.status == actual
            &&& shared.pending is Some ==> {
                &&& after.status.requested <==> shared.pending->0 is Some
                &&& !after.status.running
                &&& after.status.cleanup_pending <==> actual.cleanup_pending || (
                shared.pending->0 is None && actual.requested)
                &&& after.status.error == actual.error
            }
        }),
{
}

/// What the end of the owner tells: success where it ended by itself; where it panicked,
/// that the cleanup is not confirmed.
pub proof fn ends_are_told(shared: SharedView)
    ensures
        shared.ended(false).result == Some(Ok::<(), Seq<char>>(())),
        shared.ended(false).status == shared.status,
        shared.ended(true).result == Some(
            Err::<(), Seq<char>>("DNS controller worker panicked; cleanup is unconfirmed"@),
        ),
        shared.ended(true).status.error == Some(
            "DNS controller worker panicked; cleanup is unconfirmed"@,
        ),
        shared.ended(true).status.requested == shared.status.requested,
        shared.ended(true).pending == shared.pending && shared.ended(false).pending
            == shared.pending,
        shared.ended(true).shutdown == shared.shutdown && shared.ended(false).shutdown
            == shared.shutdown,
{
}

} // verus!
