//! Giving back the stacks that a recovery journal names.
//!
//! Only stacks that still have what they were given are written. A stack that someone
//! else changed, or that cannot be read, stays in the journal.

use crate::dns_configuration::{
    copy_servers, issue_views, ConfigurationFault, DnsConfigurationError, DnsFamily,
    DnsRestoreIssue, DnsRestoreResult, DnsSetting, IssueView, RestoreResultView, SettingView,
};
use crate::dns_journal::{
    journal_fault, journal_views, stack_option, DnsJournalAdapter, DnsJournalStack,
    DnsRecoveryJournal, JournalAdapterView, JournalStackView,
};
use crate::net::IpAddr;
use vstd::prelude::*;
use vstd::string::*;

verus! {

/// A stack to give back.
#[derive(Debug, PartialEq, Eq)]
pub struct RestoreItem {
    pub interface_guid: String,
    pub family: DnsFamily,
    pub original: DnsSetting,
    pub applied: Vec<IpAddr>,
}

/// A stack to give back, as mathematical values.
pub ghost struct ItemView {
    pub guid: Seq<char>,
    pub family: DnsFamily,
    pub stack: JournalStackView,
}

impl RestoreItem {
    pub open spec fn view(&self) -> ItemView {
        ItemView {
            guid: self.interface_guid@,
            family: self.family,
            stack: JournalStackView { original: self.original@, applied: self.applied@ },
        }
    }
}

/// Stacks to give back, as mathematical values.
pub open spec fn item_views(items: Seq<RestoreItem>) -> Seq<ItemView> {
    Seq::new(items.len(), |i: int| items[i]@)
}

/// A list of stacks with one more, if it was recorded.
pub open spec fn with_item(
    items: Seq<ItemView>,
    guid: Seq<char>,
    family: DnsFamily,
    stack: Option<JournalStackView>,
) -> Seq<ItemView> {
    match stack {
        Some(stack) => items.push(ItemView { guid, family, stack }),
        None => items,
    }
}

/// The recorded stacks of the first `n` interfaces.
pub open spec fn items_of(adapters: Seq<JournalAdapterView>, n: int) -> Seq<ItemView>
    decreases n,
{
    if n <= 0 {
        Seq::empty()
    } else {
        let adapter = adapters[n - 1];
        let first = with_item(
            items_of(adapters, n - 1),
            adapter.guid,
            DnsFamily::Ipv4,
            adapter.ipv4,
        );
        with_item(first, adapter.guid, DnsFamily::Ipv6, adapter.ipv6)
    }
}

fn push_item(
    items: &mut Vec<RestoreItem>,
    guid: &str,
    family: DnsFamily,
    stack: &Option<DnsJournalStack>,
)
    ensures
        item_views(final(items)@) == with_item(
            item_views(old(items)@),
            guid@,
            family,
            stack_option(*stack),
        ),
{
    let ghost before = items@;
    if let Some(stack) = stack {
        let item = RestoreItem {
            interface_guid: guid.to_owned(),
            family,
            original: stack.original.copied(),
            applied: copy_servers(stack.applied_servers.as_slice()),
        };
        items.push(item);
        assert(item_views(items@) =~= item_views(before).push(item@));
    }
}

fn collect_items(adapters: &Vec<DnsJournalAdapter>) -> (result: Vec<RestoreItem>)
    ensures
        item_views(result@) == items_of(journal_views(adapters@), adapters@.len() as int),
{
    let ghost all = journal_views(adapters@);
    let mut items: Vec<RestoreItem> = Vec::new();
    let mut i: usize = 0;
    assert(item_views(items@) =~= Seq::empty());
    while i < adapters.len()
        invariant
            i <= adapters.len(),
            all == journal_views(adapters@),
            item_views(items@) == items_of(all, i as int),
        decreases adapters.len() - i,
    {
        let adapter = &adapters[i];
        assert(all[i as int] == adapter@);
        push_item(&mut items, adapter.interface_guid.as_str(), DnsFamily::Ipv4, &adapter.ipv4);
        push_item(&mut items, adapter.interface_guid.as_str(), DnsFamily::Ipv6, &adapter.ipv6);
        i += 1;
    }
    items
}

/// What a restoration waits for.
#[derive(Clone, Copy, Debug, PartialEq, Eq, Structural)]
pub enum RestorePhase {
    Read,
    Restore,
    Remove,
    Finished,
}

/// What became of the journal file.
#[derive(Debug, PartialEq, Eq)]
pub enum Removal {
    Removed,
    /// It was not there any more.
    Missing,
    Failed(String),
}

/// What happened while stacks are given back.
#[derive(Debug, PartialEq, Eq)]
pub enum RestoreEvent {
    /// The setting of the stack.
    Read(Result<DnsSetting, DnsConfigurationError>),
    /// The stack was given back, or not.
    Restored(Result<(), String>),
    Removed(Removal),
}

/// What the caller does next. The number is that of a stack.
#[derive(Clone, Copy, Debug, PartialEq, Eq, Structural)]
pub enum RestoreAction {
    Read(usize),
    Restore(usize),
    RemoveJournal,
    Finish,
}

/// A restoration.
#[derive(Debug, PartialEq, Eq)]
pub struct RestoreRun {
    items: Vec<RestoreItem>,
    phase: RestorePhase,
    index: usize,
    restored: usize,
    skipped: usize,
    remaining: Vec<DnsRestoreIssue>,
    removal: Option<Removal>,
}

/// What became of the journal file, as mathematical values.
pub ghost enum RemovalView {
    Removed,
    Missing,
    Failed(Seq<char>),
}

impl Removal {
    pub open spec fn view(&self) -> RemovalView {
        match self {
            Removal::Removed => RemovalView::Removed,
            Removal::Missing => RemovalView::Missing,
            Removal::Failed(message) => RemovalView::Failed(message@),
        }
    }
}

/// A restoration, as mathematical values.
pub ghost struct RestoreView {
    pub items: Seq<ItemView>,
    pub phase: RestorePhase,
    pub index: int,
    pub restored: int,
    pub skipped: int,
    pub remaining: Seq<IssueView>,
    pub removal: Option<RemovalView>,
}

impl RestoreView {
    pub open spec fn item(self) -> ItemView {
        self.items[self.index]
    }

    /// What holds at all times: every stack so far was given back or remains, those
    /// that were passed over remain, the journal goes only once nothing remains, and it
    /// ends only after the last stack.
    pub open spec fn valid(self) -> bool {
        &&& 0 <= self.index <= self.items.len() <= usize::MAX
        &&& self.restored >= 0
        &&& self.restored + self.remaining.len() == self.index
        &&& 0 <= self.skipped <= self.remaining.len()
        &&& (self.phase == RestorePhase::Read || self.phase == RestorePhase::Restore) ==> self.index
            < self.items.len()
        &&& self.phase == RestorePhase::Remove ==> self.remaining.len() == 0 && self.index
            == self.items.len()
        &&& self.removal is Some ==> self.remaining.len() == 0 && self.index == self.items.len()
        &&& self.phase == RestorePhase::Finished ==> self.index == self.items.len() && (
        self.remaining.len() > 0 || self.removal is Some)
    }

    pub open spec fn expects(self, event: RestoreEvent) -> bool {
        match event {
            RestoreEvent::Read(_) => self.phase == RestorePhase::Read,
            RestoreEvent::Restored(_) => self.phase == RestorePhase::Restore,
            RestoreEvent::Removed(_) => self.phase == RestorePhase::Remove,
        }
    }

    /// The restoration that goes on to the next stack, or to the journal.
    pub open spec fn going_on(self) -> (RestoreView, RestoreAction) {
        if self.index < self.items.len() {
            (
                RestoreView { phase: RestorePhase::Read, ..self },
                RestoreAction::Read(self.index as usize),
            )
        } else if self.remaining.len() > 0 {
            (RestoreView { phase: RestorePhase::Finished, ..self }, RestoreAction::Finish)
        } else {
            (RestoreView { phase: RestorePhase::Remove, ..self }, RestoreAction::RemoveJournal)
        }
    }

    /// The restoration with the stack that is under way given back.
    pub open spec fn given_back(self) -> (RestoreView, RestoreAction) {
        RestoreView { index: self.index + 1, restored: self.restored + 1, ..self }.going_on()
    }

    /// The restoration with the stack that is under way left in the journal.
    pub open spec fn left(self, reason: Seq<char>, passed_over: bool) -> (
        RestoreView,
        RestoreAction,
    ) {
        RestoreView {
            index: self.index + 1,
            skipped: if passed_over {
                self.skipped + 1
            } else {
                self.skipped
            },
            remaining: self.remaining.push(
                IssueView { guid: self.item().guid, family: self.item().family, reason },
            ),
            ..self
        }.going_on()
    }

    /// What an event does, and what comes next.
    pub open spec fn step(self, event: RestoreEvent) -> (RestoreView, RestoreAction) {
        match event {
            RestoreEvent::Read(Ok(current)) => if current@ == self.item().stack.original {
                self.given_back()
            } else if current@ == (SettingView::Static { servers: self.item().stack.applied }) {
                (
                    RestoreView { phase: RestorePhase::Restore, ..self },
                    RestoreAction::Restore(self.index as usize),
                )
            } else {
                self.left("current DNS value no longer matches the Vapour generation"@, true)
            },
            RestoreEvent::Read(Err(error)) => self.left(error@.message(), true),
            RestoreEvent::Restored(Ok(())) => self.given_back(),
            RestoreEvent::Restored(Err(reason)) => self.left(reason@, false),
            RestoreEvent::Removed(removal) => (
                RestoreView {
                    phase: RestorePhase::Finished,
                    removal: Some(removal@),
                    ..self
                },
                RestoreAction::Finish,
            ),
        }
    }

    /// What a restoration that has ended came to.
    pub open spec fn outcome(self) -> Result<RestoreResultView, ConfigurationFault> {
        if self.remaining.len() > 0 {
            Err(
                ConfigurationFault::RestoreIncomplete {
                    restored: self.restored as nat,
                    skipped: self.skipped as nat,
                    remaining: self.remaining,
                },
            )
        } else {
            match self.removal {
                Some(RemovalView::Removed) => Ok(
                    RestoreResultView {
                        restored: self.restored as nat,
                        skipped: self.skipped as nat,
                        remaining: self.remaining,
                        journal_removed: true,
                    },
                ),
                Some(RemovalView::Failed(message)) => Err(
                    ConfigurationFault::JournalCleanupFailed {
                        restored: self.restored as nat,
                        path_error: message,
                    },
                ),
                _ => Err(
                    ConfigurationFault::JournalCleanupFailed {
                        restored: self.restored as nat,
                        path_error: "journal disappeared before cleanup"@,
                    },
                ),
            }
        }
    }
}

/// The journal is removed only once every stack was given back; a restoration
/// succeeds only then.
pub proof fn journals_go_last(state: RestoreView, event: RestoreEvent)
    requires
        state.valid(),
        state.expects(event),
    ensures
        state.step(event).0.valid(),
        state.step(event).1 == RestoreAction::RemoveJournal ==> state.step(event).0.restored
            == state.items.len(),
        state.step(event).1 == RestoreAction::Finish && state.step(event).0.outcome() is Ok ==> {
            &&& state.step(event).0.restored == state.items.len()
            &&& event matches RestoreEvent::Removed(Removal::Removed)
        },
{
}

/// A restoration ends only once every stack that the journal names was given back or
/// remains in it; one that is incomplete accounts for all of them.
pub proof fn restorations_account_for_every_stack(state: RestoreView, event: RestoreEvent)
    requires
        state.valid(),
        state.expects(event),
    ensures
        state.step(event).0.items == state.items,
        state.step(event).1 == RestoreAction::Finish ==> state.step(event).0.restored
            + state.step(event).0.remaining.len() == state.items.len(),
        state.step(event).1 == RestoreAction::Finish ==> (state.step(event).0.outcome()
            matches Err(ConfigurationFault::RestoreIncomplete { restored, remaining, .. })
            ==> restored + remaining.len() == state.items.len()),
        state.remaining.len() <= state.step(event).0.remaining.len() <= state.remaining.len() + 1,
        state.step(event).0.remaining.len() > state.remaining.len() ==> {
            let last = state.step(event).0.remaining.last();
            &&& state.step(event).0.remaining.drop_last() == state.remaining
            &&& last.guid == state.item().guid
            &&& last.family == state.item().family
        },
        state.step(event).0.remaining.len() == state.remaining.len() ==> state.step(
            event,
        ).0.remaining == state.remaining,
{
}

/// A stack is written only where it was read with what it was given; one that has its
/// original setting already counts as given back.
pub proof fn only_owned_stacks_are_written(state: RestoreView, event: RestoreEvent)
    requires
        state.valid(),
        state.expects(event),
    ensures
        state.step(event).1 is Restore ==> (event matches RestoreEvent::Read(Ok(current))
            && current@ == (SettingView::Static { servers: state.item().stack.applied })),
        event matches RestoreEvent::Read(Ok(current)) && current@ == state.item().stack.original
            ==> state.step(event).0.restored == state.restored + 1,
{
}

impl RestoreRun {
    pub closed spec fn view(&self) -> RestoreView {
        RestoreView {
            items: item_views(self.items@),
            phase: self.phase,
            index: self.index as int,
            restored: self.restored as int,
            skipped: self.skipped as int,
            remaining: issue_views(self.remaining@),
            removal: match self.removal {
                Some(removal) => Some(removal@),
                None => None,
            },
        }
    }

    /// Begins to give back what a journal names.
    pub fn restore(journal: Result<Option<DnsRecoveryJournal>, DnsConfigurationError>) -> (result:
        Result<(Self, RestoreAction), DnsConfigurationError>)
        requires
            journal matches Ok(Some(journal)) ==> journal_fault(journal@) is None,
        ensures
            match journal {
                Err(error) => result matches Err(own) && own == error,
                Ok(None) => result matches Err(error) && error@
                    == ConfigurationFault::JournalMissing,
                Ok(Some(journal)) => result matches Ok((run, action)) && run@.valid() && (
                run@,
                action,
                ) == (RestoreView {
                    items: items_of(journal@.adapters, journal@.adapters.len() as int),
                    phase: RestorePhase::Read,
                    index: 0,
                    restored: 0,
                    skipped: 0,
                    remaining: Seq::empty(),
                    removal: None,
                }).going_on(),
            },
    {
        let journal = match journal {
            Err(error) => {
                return Err(error);
            },
            Ok(None) => {
                return Err(DnsConfigurationError::JournalMissing);
            },
            Ok(Some(journal)) => journal,
        };
        let items = collect_items(&journal.adapters);
        let mut run = RestoreRun {
            items,
            phase: RestorePhase::Read,
            index: 0,
            restored: 0,
            skipped: 0,
            remaining: Vec::new(),
            removal: None,
        };
        assert(issue_views(run.remaining@) =~= Seq::empty());
        assert(run@.items.len() == run.items.len() <= usize::MAX);
        let action = run.go_on();
        Ok((run, action))
    }

    /// What the restoration waits for.
    pub fn phase(&self) -> (result: RestorePhase)
        ensures
            result == self@.phase,
    {
        self.phase
    }

    /// A stack to give back.
    pub fn item(&self, index: usize) -> (result: &RestoreItem)
        requires
            index < self@.items.len(),
        ensures
            result@ == self@.items[index as int],
    {
        &self.items[index]
    }

    fn go_on(&mut self) -> (result: RestoreAction)
        ensures
            (final(self)@, result) == old(self)@.going_on(),
    {
        if self.index < self.items.len() {
            self.phase = RestorePhase::Read;
            RestoreAction::Read(self.index)
        } else if self.remaining.len() > 0 {
            self.phase = RestorePhase::Finished;
            RestoreAction::Finish
        } else {
            self.phase = RestorePhase::Remove;
            RestoreAction::RemoveJournal
        }
    }

    fn give_back(&mut self) -> (result: RestoreAction)
        requires
            old(self)@.valid(),
            old(self)@.index < old(self)@.items.len(),
        ensures
            (final(self)@, result) == old(self)@.given_back(),
    {
        self.index = self.index + 1;
        self.restored = self.restored + 1;
        self.go_on()
    }

    fn leave(&mut self, reason: String, passed_over: bool) -> (result: RestoreAction)
        requires
            old(self)@.valid(),
            old(self)@.index < old(self)@.items.len(),
        ensures
            (final(self)@, result) == old(self)@.left(reason@, passed_over),
    {
        let ghost before = self.remaining@;
        let item = &self.items[self.index];
        assert(item@ == self@.item());
        let issue = DnsRestoreIssue {
            interface_guid: item.interface_guid.clone(),
            family: item.family,
            reason,
        };
        self.remaining.push(issue);
        assert(issue_views(self.remaining@) =~= issue_views(before).push(issue@));
        self.index = self.index + 1;
        if passed_over {
            self.skipped = self.skipped + 1;
        }
        self.go_on()
    }

    /// Takes an event that is waited for.
    pub fn step(&mut self, event: RestoreEvent) -> (result: RestoreAction)
        requires
            old(self)@.valid(),
            old(self)@.expects(event),
        ensures
            final(self)@.valid(),
            (final(self)@, result) == old(self)@.step(event),
    {
        proof {
            journals_go_last(self@, event);
        }
        match event {
            RestoreEvent::Read(read) => match read {
                Err(error) => self.leave(error.message(), true),
                Ok(current) => {
                    let item = &self.items[self.index];
                    assert(item@ == self@.item());
                    if current.same(&item.original) {
                        return self.give_back();
                    }
                    if current.is_static(item.applied.as_slice()) {
                        self.phase = RestorePhase::Restore;
                        return RestoreAction::Restore(self.index);
                    }
                    self.leave(
                        "current DNS value no longer matches the Vapour generation".to_owned(),
                        true,
                    )
                },
            },
            RestoreEvent::Restored(result) => match result {
                Ok(()) => self.give_back(),
                Err(reason) => self.leave(reason, false),
            },
            RestoreEvent::Removed(removal) => {
                self.phase = RestorePhase::Finished;
                self.removal = Some(removal);
                RestoreAction::Finish
            },
        }
    }

    /// What a restoration that has ended came to.
    pub fn outcome(self) -> (result: Result<DnsRestoreResult, DnsConfigurationError>)
        requires
            self@.valid(),
            self@.phase == RestorePhase::Finished,
        ensures
            self@.outcome() matches Ok(done) ==> done.restored == self@.items.len(),
            self@.outcome() matches Err(
                ConfigurationFault::RestoreIncomplete { restored, remaining, .. },
            ) ==> restored + remaining.len() == self@.items.len(),
            match self@.outcome() {
                Ok(done) => result matches Ok(own) && own@ == done,
                Err(fault) => result matches Err(error) && error@ == fault,
            },
    {
        if self.remaining.len() > 0 {
            return Err(
                DnsConfigurationError::RestoreIncomplete {
                    restored_stack_count: self.restored,
                    skipped_stack_count: self.skipped,
                    remaining: self.remaining,
                },
            );
        }
        match self.removal {
            Some(Removal::Removed) => Ok(
                DnsRestoreResult {
                    restored_stack_count: self.restored,
                    skipped_stack_count: self.skipped,
                    remaining: self.remaining,
                    journal_removed: true,
                },
            ),
            Some(Removal::Failed(message)) => Err(
                DnsConfigurationError::JournalCleanupFailed {
                    restored_stack_count: self.restored,
                    path_error: message,
                },
            ),
            _ => Err(
                DnsConfigurationError::JournalCleanupFailed {
                    restored_stack_count: self.restored,
                    path_error: "journal disappeared before cleanup".to_owned(),
                },
            ),
        }
    }
}

/// The stacks to give back are those that the journal records, interface by interface and
/// the IPv4 stack first.
pub proof fn recorded_stacks_are_given_back_in_order(adapters: Seq<JournalAdapterView>, n: int)
    requires
        0 <= n <= adapters.len(),
    ensures
        ({
            let items = items_of(adapters, n);
            &&& items_of(adapters, 0).len() == 0
            &&& forall|k: int|
                0 <= k < n && (#[trigger] adapters[k]).ipv4 is Some ==> items.contains(
                    ItemView {
                        guid: adapters[k].guid,
                        family: DnsFamily::Ipv4,
                        stack: adapters[k].ipv4->0,
                    },
                )
            &&& forall|k: int|
                0 <= k < n && (#[trigger] adapters[k]).ipv6 is Some ==> items.contains(
                    ItemView {
                        guid: adapters[k].guid,
                        family: DnsFamily::Ipv6,
                        stack: adapters[k].ipv6->0,
                    },
                )
            &&& n > 0 ==> {
                let last = adapters[n - 1];
                let before = items_of(adapters, n - 1);
                &&& items.len() == before.len() + (if last.ipv4 is Some {
                    1int
                } else {
                    0
                }) + (if last.ipv6 is Some {
                    1int
                } else {
                    0
                })
                &&& items.take(before.len() as int) == before
                &&& last.ipv4 is Some ==> items[before.len() as int].family is Ipv4
                &&& last.ipv6 is Some ==> items.last().family is Ipv6
                &&& forall|i: int|
                    before.len() <= i < items.len() ==> (#[trigger] items[i]).guid == last.guid
            }
        }),
    decreases n,
{
    if n > 0 {
        recorded_stacks_are_given_back_in_order(adapters, n - 1);
        let before = items_of(adapters, n - 1);
        let last = adapters[n - 1];
        let first = with_item(before, last.guid, DnsFamily::Ipv4, last.ipv4);
        let items = items_of(adapters, n);
        assert(items.take(before.len() as int) =~= before);
        assert forall|k: int| 0 <= k < n && (#[trigger] adapters[k]).ipv4 is Some implies items.contains(
            ItemView {
                guid: adapters[k].guid,
                family: DnsFamily::Ipv4,
                stack: adapters[k].ipv4->0,
            },
        ) by {
            let item = ItemView {
                guid: adapters[k].guid,
                family: DnsFamily::Ipv4,
                stack: adapters[k].ipv4->0,
            };
            if k < n - 1 {
                let i = before.index_of(item);
                assert(items[i] == item);
            } else {
                assert(items[before.len() as int] == item);
            }
        }
        assert forall|k: int| 0 <= k < n && (#[trigger] adapters[k]).ipv6 is Some implies items.contains(
            ItemView {
                guid: adapters[k].guid,
                family: DnsFamily::Ipv6,
                stack: adapters[k].ipv6->0,
            },
        ) by {
            let item = ItemView {
                guid: adapters[k].guid,
                family: DnsFamily::Ipv6,
                stack: adapters[k].ipv6->0,
            };
            if k < n - 1 {
                let i = before.index_of(item);
                assert(items[i] == item);
            } else {
                assert(items[first.len() as int] == item);
            }
        }
    }
}

/// What each event does while stacks are given back. One that has its original setting is
/// done; one that has what it was given is written; every other one, and one that cannot
/// be read, is passed over and remains. After the last the journal is removed where
/// nothing remains.
pub proof fn stacks_are_given_back_one_by_one(state: RestoreView, event: RestoreEvent)
    requires
        state.valid(),
        state.expects(event),
    ensures
        ({
            let (after, action) = state.step(event);
            let item = state.items[state.index];
            let done = match event {
                RestoreEvent::Read(Ok(current)) => current@ == item.stack.original,
                RestoreEvent::Restored(Ok(_)) => true,
                _ => false,
            };
            let writes = match event {
                RestoreEvent::Read(Ok(current)) => !done && current@ == (SettingView::Static {
                    servers: item.stack.applied,
                }),
                _ => false,
            };
            let reason = match event {
                RestoreEvent::Read(Ok(_)) => if done || writes {
                    None
                } else {
                    Some("current DNS value no longer matches the Vapour generation"@)
                },
                RestoreEvent::Read(Err(error)) => Some(error@.message()),
                RestoreEvent::Restored(Err(reason)) => Some(reason@),
                _ => None,
            };
            &&& writes ==> action == RestoreAction::Restore(state.index as usize) && after
                == RestoreView { phase: RestorePhase::Restore, ..state }
            &&& done ==> after.restored == state.restored + 1 && after.remaining == state.remaining
            &&& reason is Some ==> after.restored == state.restored && after.remaining
                == state.remaining.push(
                IssueView { guid: item.guid, family: item.family, reason: reason->0 },
            )
            &&& after.skipped == if reason is Some && event is Read {
                state.skipped + 1
            } else {
                state.skipped
            }
            &&& after.index == if done || reason is Some {
                state.index + 1
            } else {
                state.index
            }
            &&& done || reason is Some ==> {
                let last = after.index == state.items.len();
                &&& !last ==> action == RestoreAction::Read(after.index as usize) && after.phase
                    is Read
                &&& last && after.remaining.len() == 0 ==> action is RemoveJournal && after.phase
                    is Remove
                &&& last && after.remaining.len() > 0 ==> action is Finish && after.phase
                    is Finished
            }
            &&& event matches RestoreEvent::Removed(removal) ==> action is Finish && after.phase
                is Finished && after.removal == Some(removal@)
            &&& !(event is Removed) ==> after.removal == state.removal
            &&& after.items == state.items
        }),
{
}

/// A restoration that has ended succeeded exactly where nothing remains and the journal was
/// removed; what remains, or that the journal could not be removed, is told.
pub proof fn restorations_succeed_without_a_remainder(state: RestoreView)
    requires
        state.valid(),
        state.phase is Finished,
    ensures
        ({
            let told = state.outcome();
            &&& told is Ok <==> state.remaining.len() == 0 && state.removal == Some(
                RemovalView::Removed,
            )
            &&& told matches Ok(result) ==> result.restored == state.items.len() && result.skipped
                == 0 && result.journal_removed && result.remaining.len() == 0
            &&& state.remaining.len() > 0 ==> (told matches Err(
                ConfigurationFault::RestoreIncomplete { restored, skipped, remaining },
            ) && restored == state.restored && skipped == state.skipped && remaining
                == state.remaining)
            &&& state.remaining.len() == 0 && told is Err ==> (told matches Err(
                ConfigurationFault::JournalCleanupFailed { restored, path_error },
            ) && restored == state.restored && path_error == match state.removal {
                Some(RemovalView::Failed(message)) => message,
                _ => "journal disappeared before cleanup"@,
            })
        }),
{
}

} // verus!
