//! The recovery journal: what each changed stack was before, kept until every stack
//! has been given back.

use crate::atomic_file::{bounded_contents, read_bounded_file, FileRead, ReadFault, ReadFaultView};
use crate::dns_configuration::{
    adapter_views, copy_servers, loopback_ipv4, loopback_ipv6, operation_views, source,
    spec_source, AdapterDnsSnapshot, AdapterView, ConfigurationFault, DnsApplyPlan,
    DnsConfigurationError, DnsFamily, DnsOperation, DnsSetting, DnsSnapshot, OperationView,
    PlanView, SettingView, SnapshotView, MAX_ADAPTERS,
};
use crate::dns_plan::{
    already_seen, check_setting, distinct_stacks, identity_json, listener, loopback_of,
    named_before, servers_json, setting_fault, setting_in_order, setting_json, write_identity,
    write_servers, write_setting,
};
use crate::guid::{canonical, canonical_guid};
use crate::json::{json_string, json_text};
use crate::net::IpAddr;
use crate::text::{byte_len, decimal, decimal_text, join5, same_text};
use crate::text_order::{comes_before, text_before};
use vstd::prelude::*;
use vstd::string::*;

verus! {

/// The version of the journal.
pub const JOURNAL_FORMAT_VERSION: u32 = 1;

/// How large the journal may be, in bytes.
pub const MAX_JOURNAL_BYTES: usize = 262_144;

/// A stack that was changed.
#[derive(Clone, Debug, PartialEq, Eq)]
pub struct DnsJournalStack {
    /// What it was right before.
    pub original: DnsSetting,
    /// What it was given; it is restored only while it still has these.
    pub applied_servers: Vec<IpAddr>,
}

/// A stack that was changed, as mathematical values.
pub ghost struct JournalStackView {
    pub original: SettingView,
    pub applied: Seq<IpAddr>,
}

impl DnsJournalStack {
    pub open spec fn view(&self) -> JournalStackView {
        JournalStackView { original: self.original@, applied: self.applied_servers@ }
    }
}

/// An optional stack, as mathematical values.
pub open spec fn stack_option(stack: Option<DnsJournalStack>) -> Option<JournalStackView> {
    match stack {
        Some(stack) => Some(stack@),
        None => None,
    }
}

/// An interface with a stack that was changed.
#[derive(Clone, Debug, PartialEq, Eq)]
pub struct DnsJournalAdapter {
    pub interface_guid: String,
    pub interface_index: u32,
    pub interface_type: u32,
    pub operational_status: u32,
    pub media_connect_state: u32,
    pub ipv4: Option<DnsJournalStack>,
    pub ipv6: Option<DnsJournalStack>,
}

/// An interface with a stack that was changed, as mathematical values.
pub ghost struct JournalAdapterView {
    pub guid: Seq<char>,
    pub index: u32,
    pub kind: u32,
    pub operational_status: u32,
    pub media_connect_state: u32,
    pub ipv4: Option<JournalStackView>,
    pub ipv6: Option<JournalStackView>,
}

impl JournalAdapterView {
    /// What was recorded of a stack.
    pub open spec fn stack(self, family: DnsFamily) -> Option<JournalStackView> {
        match family {
            DnsFamily::Ipv4 => self.ipv4,
            DnsFamily::Ipv6 => self.ipv6,
        }
    }

    /// The interface with a stack recorded.
    pub open spec fn with_stack(
        self,
        family: DnsFamily,
        stack: JournalStackView,
    ) -> JournalAdapterView {
        match family {
            DnsFamily::Ipv4 => JournalAdapterView { ipv4: Some(stack), ..self },
            DnsFamily::Ipv6 => JournalAdapterView { ipv6: Some(stack), ..self },
        }
    }
}

impl DnsJournalAdapter {
    pub open spec fn view(&self) -> JournalAdapterView {
        JournalAdapterView {
            guid: self.interface_guid@,
            index: self.interface_index,
            kind: self.interface_type,
            operational_status: self.operational_status,
            media_connect_state: self.media_connect_state,
            ipv4: stack_option(self.ipv4),
            ipv6: stack_option(self.ipv6),
        }
    }
}

/// What was changed.
#[derive(Clone, Debug, PartialEq, Eq)]
pub struct DnsRecoveryJournal {
    pub format_version: u32,
    pub source: String,
    pub generation: String,
    pub created_at_unix_secs: u64,
    pub adapters: Vec<DnsJournalAdapter>,
}

/// What was changed, as mathematical values.
pub ghost struct JournalView {
    pub format_version: u32,
    pub source: Seq<char>,
    pub generation: Seq<char>,
    pub created_at: u64,
    pub adapters: Seq<JournalAdapterView>,
}

/// Journaled interfaces, as mathematical values.
pub open spec fn journal_views(adapters: Seq<DnsJournalAdapter>) -> Seq<JournalAdapterView> {
    Seq::new(adapters.len(), |i: int| adapters[i]@)
}

impl DnsRecoveryJournal {
    pub open spec fn view(&self) -> JournalView {
        JournalView {
            format_version: self.format_version,
            source: self.source@,
            generation: self.generation@,
            created_at: self.created_at_unix_secs,
            adapters: journal_views(self.adapters@),
        }
    }
}

/// Whether a byte is a hexadecimal digit.
pub open spec fn hex_byte(byte: u8) -> bool {
    48 <= byte <= 57 || 65 <= byte <= 70 || 97 <= byte <= 102
}

/// Whether a text is a digest in hexadecimal.
pub open spec fn digest_text(text: Seq<char>) -> bool {
    let bytes = vstd::utf8::encode_utf8(text);
    bytes.len() == 64 && forall|i: int| 0 <= i < 64 ==> hex_byte(#[trigger] bytes[i])
}

fn is_digest_text(text: &str) -> (result: bool)
    ensures
        result == digest_text(text@),
{
    let bytes = text.as_bytes();
    if bytes.len() != 64 {
        return false;
    }
    let mut i: usize = 0;
    while i < 64
        invariant
            i <= 64 == bytes@.len(),
            bytes@ == vstd::utf8::encode_utf8(text@),
            forall|j: int| 0 <= j < i ==> hex_byte(#[trigger] bytes@[j]),
        decreases 64 - i,
    {
        let byte: u8 = bytes[i];
        if !((48 <= byte && byte <= 57) || (65 <= byte && byte <= 70) || (97 <= byte && byte
            <= 102)) {
            assert(!hex_byte(bytes@[i as int]));
            return false;
        }
        i += 1;
    }
    true
}

/// Whether servers are ones that a stack can have been given.
pub open spec fn applied_allowed(servers: Seq<IpAddr>, family: DnsFamily) -> bool {
    &&& 0 < servers.len() <= 2
    &&& forall|i: int|
        0 <= i < servers.len() ==> family.spec_accepts(#[trigger] servers[i]) && (servers[i]
            == listener(DnsFamily::Ipv4) || servers[i] == listener(DnsFamily::Ipv6))
}

/// What is wrong with a recorded stack.
pub open spec fn stack_fault(stack: Option<JournalStackView>, family: DnsFamily) -> Option<
    Seq<char>,
> {
    match stack {
        None => None,
        Some(stack) => if setting_fault(stack.original, family) is Some {
            Some(
                ConfigurationFault::InvalidSnapshot(
                    setting_fault(stack.original, family)->0,
                ).message(),
            )
        } else if !applied_allowed(stack.applied, family) {
            Some("journal applied DNS list is not an approved loopback value"@)
        } else if stack.original is Unavailable {
            Some("unavailable DNS settings cannot be placed in a recovery journal"@)
        } else {
            None
        },
    }
}

fn is_applied_allowed(servers: &[IpAddr], family: DnsFamily) -> (result: bool)
    ensures
        result == applied_allowed(servers@, family),
{
    if servers.len() == 0 || servers.len() > 2 {
        return false;
    }
    let mut i: usize = 0;
    while i < servers.len()
        invariant
            i <= servers.len(),
            forall|j: int|
                0 <= j < i ==> family.spec_accepts(#[trigger] servers@[j]) && (servers@[j]
                    == listener(DnsFamily::Ipv4) || servers@[j] == listener(DnsFamily::Ipv6)),
        decreases servers.len() - i,
    {
        let server = servers[i];
        if !family.accepts(server) || (server != loopback_ipv4() && server != loopback_ipv6()) {
            assert(servers@[i as int] == server);
            return false;
        }
        i += 1;
    }
    true
}

/// What is wrong with a recorded stack.
fn check_stack(stack: &Option<DnsJournalStack>, family: DnsFamily) -> (result: Option<String>)
    ensures
        match stack_fault(stack_option(*stack), family) {
            Some(reason) => result matches Some(text) && text@ == reason,
            None => result is None,
        },
{
    match stack {
        None => None,
        Some(stack) => {
            if let Some(reason) = check_setting(&stack.original, family) {
                return Some(
                    DnsConfigurationError::InvalidSnapshot(reason.to_owned()).message(),
                );
            }
            if !is_applied_allowed(stack.applied_servers.as_slice(), family) {
                return Some(
                    "journal applied DNS list is not an approved loopback value".to_owned(),
                );
            }
            if let DnsSetting::Unavailable { .. } = &stack.original {
                return Some(
                    "unavailable DNS settings cannot be placed in a recovery journal".to_owned(),
                );
            }
            None
        },
    }
}

/// The identifiers of journaled interfaces.
pub open spec fn journal_guids(adapters: Seq<JournalAdapterView>) -> Seq<Seq<char>> {
    Seq::new(adapters.len(), |i: int| adapters[i].guid)
}

/// What is wrong with one journaled interface, apart from its identifier.
pub open spec fn entry_fault(adapter: JournalAdapterView) -> Option<Seq<char>> {
    if adapter.index == 0 || (adapter.ipv4 is None && adapter.ipv6 is None) {
        Some("journal adapter has no usable identity or stack"@)
    } else if stack_fault(adapter.ipv4, DnsFamily::Ipv4) is Some {
        stack_fault(adapter.ipv4, DnsFamily::Ipv4)
    } else {
        stack_fault(adapter.ipv6, DnsFamily::Ipv6)
    }
}

/// What is wrong with one journaled interface.
pub open spec fn journal_adapter_fault(adapters: Seq<JournalAdapterView>, i: int) -> Option<
    Seq<char>,
> {
    match canonical(adapters[i].guid) {
        Err(reason) => Some(reason),
        Ok(name) => if named_before(journal_guids(adapters), i, name) {
            Some("journal contains a duplicate interface GUID"@)
        } else {
            entry_fault(adapters[i])
        },
    }
}

/// What is wrong with the first `n` journaled interfaces.
pub open spec fn journal_adapters_fault(adapters: Seq<JournalAdapterView>, n: int) -> Option<
    Seq<char>,
>
    decreases n,
{
    if n <= 0 {
        None
    } else {
        match journal_adapters_fault(adapters, n - 1) {
            Some(reason) => Some(reason),
            None => journal_adapter_fault(adapters, n - 1),
        }
    }
}

/// What is wrong with a journal.
pub open spec fn journal_fault(journal: JournalView) -> Option<Seq<char>> {
    if journal.format_version != JOURNAL_FORMAT_VERSION {
        Some("unsupported recovery journal version"@)
    } else if journal.source != spec_source() {
        Some("unexpected recovery journal source"@)
    } else if !digest_text(journal.generation) {
        Some("generation is not a SHA-256 hexadecimal value"@)
    } else if journal.adapters.len() == 0 || journal.adapters.len() > MAX_ADAPTERS {
        Some("journal adapter count is outside the bounded range"@)
    } else {
        journal_adapters_fault(journal.adapters, journal.adapters.len() as int)
    }
}

proof fn lemma_journal_adapters_fault(adapters: Seq<JournalAdapterView>, n: int, m: int)
    requires
        0 <= n <= m,
        journal_adapters_fault(adapters, n) is Some,
    ensures
        journal_adapters_fault(adapters, m) == journal_adapters_fault(adapters, n),
    decreases m,
{
    if n < m {
        lemma_journal_adapters_fault(adapters, n, m - 1);
    }
}

fn check_entry(adapter: &DnsJournalAdapter) -> (result: Option<String>)
    ensures
        match entry_fault(adapter@) {
            Some(reason) => result matches Some(text) && text@ == reason,
            None => result is None,
        },
{
    if adapter.interface_index == 0 || (adapter.ipv4.is_none() && adapter.ipv6.is_none()) {
        return Some("journal adapter has no usable identity or stack".to_owned());
    }
    match check_stack(&adapter.ipv4, DnsFamily::Ipv4) {
        Some(reason) => Some(reason),
        None => check_stack(&adapter.ipv6, DnsFamily::Ipv6),
    }
}

fn check_adapters(adapters: &Vec<DnsJournalAdapter>) -> (result: Option<String>)
    ensures
        match journal_adapters_fault(journal_views(adapters@), adapters@.len() as int) {
            Some(reason) => result matches Some(text) && text@ == reason,
            None => result is None,
        },
{
    let ghost all = journal_views(adapters@);
    let ghost guids = journal_guids(all);
    let mut seen: Vec<String> = Vec::new();
    let mut i: usize = 0;
    while i < adapters.len()
        invariant
            i <= adapters.len(),
            seen.len() == i,
            all == journal_views(adapters@),
            guids == journal_guids(all),
            journal_adapters_fault(all, i as int) is None,
            forall|j: int|
                0 <= j < i ==> canonical(#[trigger] guids[j]) == Ok::<Seq<char>, Seq<char>>(
                    seen@[j]@,
                ),
        decreases adapters.len() - i,
    {
        let adapter = &adapters[i];
        assert(adapter@ == all[i as int]);
        assert(guids[i as int] == adapter@.guid);
        let name = match canonical_guid(adapter.interface_guid.as_str()) {
            Ok(name) => name,
            Err(reason) => {
                proof {
                    lemma_journal_adapters_fault(all, i + 1, all.len() as int);
                }
                return Some(reason.to_owned());
            },
        };
        let duplicate = already_seen(&seen, name.as_str());
        proof {
            if duplicate {
                let j = choose|j: int| 0 <= j < seen@.len() && (#[trigger] seen@[j])@ == name@;
                assert(canonical(guids[j]) == Ok::<Seq<char>, Seq<char>>(name@));
            }
            assert(duplicate == named_before(guids, i as int, name@));
        }
        if duplicate {
            proof {
                lemma_journal_adapters_fault(all, i + 1, all.len() as int);
            }
            return Some("journal contains a duplicate interface GUID".to_owned());
        }
        if let Some(reason) = check_entry(adapter) {
            proof {
                lemma_journal_adapters_fault(all, i + 1, all.len() as int);
            }
            return Some(reason);
        }
        seen.push(name);
        i += 1;
    }
    None
}

/// What is wrong with a journal.
pub fn validate_journal(journal: &DnsRecoveryJournal) -> (result: Result<
    (),
    DnsConfigurationError,
>)
    ensures
        match journal_fault(journal@) {
            None => result is Ok,
            Some(reason) => result matches Err(error) && error@
                == ConfigurationFault::JournalInvalid(reason),
        },
{
    if journal.format_version != JOURNAL_FORMAT_VERSION {
        return Err(
            DnsConfigurationError::JournalInvalid(
                "unsupported recovery journal version".to_owned(),
            ),
        );
    }
    if !same_text(journal.source.as_str(), source()) {
        return Err(
            DnsConfigurationError::JournalInvalid("unexpected recovery journal source".to_owned()),
        );
    }
    if !is_digest_text(journal.generation.as_str()) {
        return Err(
            DnsConfigurationError::JournalInvalid(
                "generation is not a SHA-256 hexadecimal value".to_owned(),
            ),
        );
    }
    if journal.adapters.len() == 0 || journal.adapters.len() > MAX_ADAPTERS {
        return Err(
            DnsConfigurationError::JournalInvalid(
                "journal adapter count is outside the bounded range".to_owned(),
            ),
        );
    }
    match check_adapters(&journal.adapters) {
        Some(reason) => Err(DnsConfigurationError::JournalInvalid(reason)),
        None => Ok(()),
    }
}

/// The first interface of a snapshot with a name.
pub open spec fn adapter_named(adapters: Seq<AdapterView>, name: Seq<char>) -> Option<AdapterView>
    decreases adapters.len(),
{
    if adapters.len() == 0 {
        None
    } else if canonical(adapters[0].guid) == Ok::<Seq<char>, Seq<char>>(name) {
        Some(adapters[0])
    } else {
        adapter_named(adapters.skip(1), name)
    }
}

fn find_adapter(adapters: &Vec<AdapterDnsSnapshot>, name: &str) -> (result: Option<usize>)
    ensures
        match adapter_named(adapter_views(adapters@), name@) {
            Some(adapter) => result matches Some(i) && i < adapters@.len() && adapters@[i as int]@
                == adapter,
            None => result is None,
        },
{
    let ghost all = adapter_views(adapters@);
    let mut i: usize = 0;
    assert(all.skip(0) =~= all);
    while i < adapters.len()
        invariant
            i <= adapters.len(),
            all == adapter_views(adapters@),
            adapter_named(all, name@) == adapter_named(all.skip(i as int), name@),
        decreases adapters.len() - i,
    {
        assert(all.skip(i as int)[0] == adapters@[i as int]@);
        if let Ok(own) = canonical_guid(adapters[i].interface_guid.as_str()) {
            if same_text(own.as_str(), name) {
                return Some(i);
            }
        }
        assert(all.skip(i as int).skip(1) =~= all.skip(i + 1));
        i += 1;
    }
    None
}

/// Where an interface belongs in a journal, which is ordered by name.
pub open spec fn entry_place(entries: Seq<JournalAdapterView>, name: Seq<char>) -> int
    decreases entries.len(),
{
    if entries.len() > 0 && text_before(entries[0].guid, name) {
        1 + entry_place(entries.skip(1), name)
    } else {
        0
    }
}

/// A journaled interface without a stack.
pub open spec fn bare_entry(name: Seq<char>, adapter: AdapterView) -> JournalAdapterView {
    JournalAdapterView {
        guid: name,
        index: adapter.index,
        kind: adapter.kind,
        operational_status: adapter.operational_status,
        media_connect_state: adapter.media_connect_state,
        ipv4: None,
        ipv6: None,
    }
}

/// A journal with one more operation recorded.
pub open spec fn recorded(
    entries: Seq<JournalAdapterView>,
    operation: OperationView,
    adapter: AdapterView,
) -> Seq<JournalAdapterView> {
    let at = entry_place(entries, operation.guid);
    let stack = JournalStackView { original: operation.original, applied: operation.desired };
    if at < entries.len() && entries[at].guid == operation.guid {
        entries.update(at, entries[at].with_stack(operation.family, stack))
    } else {
        entries.insert(at, bare_entry(operation.guid, adapter).with_stack(operation.family, stack))
    }
}

/// The entries of a journal for the first `n` operations; `None` where one is on an
/// interface that the snapshot does not have.
pub open spec fn entries_of(
    adapters: Seq<AdapterView>,
    operations: Seq<OperationView>,
    n: int,
) -> Option<Seq<JournalAdapterView>>
    decreases n,
{
    if n <= 0 {
        Some(Seq::empty())
    } else {
        match entries_of(adapters, operations, n - 1) {
            None => None,
            Some(entries) => match adapter_named(adapters, operations[n - 1].guid) {
                None => None,
                Some(adapter) => Some(recorded(entries, operations[n - 1], adapter)),
            },
        }
    }
}

/// The journal of a plan.
pub open spec fn journal_outcome(snapshot: SnapshotView, plan: PlanView, now: u64) -> Result<
    JournalView,
    ConfigurationFault,
> {
    match entries_of(snapshot.adapters, plan.operations, plan.operations.len() as int) {
        None => Err(
            ConfigurationFault::InvalidSnapshot(
                "plan refers to an interface absent from the snapshot"@,
            ),
        ),
        Some(entries) => {
            let journal = JournalView {
                format_version: JOURNAL_FORMAT_VERSION,
                source: spec_source(),
                generation: plan.generation,
                created_at: now,
                adapters: entries,
            };
            match journal_fault(journal) {
                None => Ok(journal),
                Some(reason) => Err(ConfigurationFault::JournalInvalid(reason)),
            }
        },
    }
}

proof fn lemma_entries_none(
    adapters: Seq<AdapterView>,
    operations: Seq<OperationView>,
    n: int,
    m: int,
)
    requires
        0 <= n <= m,
        entries_of(adapters, operations, n) is None,
    ensures
        entries_of(adapters, operations, m) is None,
    decreases m,
{
    if n < m {
        lemma_entries_none(adapters, operations, n, m - 1);
    }
}

fn find_entry(entries: &Vec<DnsJournalAdapter>, name: &str) -> (result: usize)
    ensures
        result <= entries@.len(),
        result == entry_place(journal_views(entries@), name@),
{
    let ghost all = journal_views(entries@);
    let mut i: usize = 0;
    assert(all.skip(0) =~= all);
    while i < entries.len() && comes_before(entries[i].interface_guid.as_str(), name)
        invariant
            i <= entries.len(),
            all == journal_views(entries@),
            entry_place(all, name@) == i + entry_place(all.skip(i as int), name@),
        decreases entries.len() - i,
    {
        assert(all.skip(i as int)[0] == entries@[i as int]@);
        assert(all.skip(i as int).skip(1) =~= all.skip(i + 1));
        i += 1;
    }
    if i < entries.len() {
        assert(all.skip(i as int)[0] == entries@[i as int]@);
    }
    i
}

fn record(
    entries: &mut Vec<DnsJournalAdapter>,
    operation: &DnsOperation,
    adapter: &AdapterDnsSnapshot,
)
    ensures
        journal_views(final(entries)@) == recorded(
            journal_views(old(entries)@),
            operation@,
            adapter@,
        ),
{
    let ghost before = entries@;
    let at = find_entry(entries, operation.interface_guid.as_str());
    let stack = DnsJournalStack {
        original: operation.original.copied(),
        applied_servers: copy_servers(operation.desired_servers.as_slice()),
    };
    if at < entries.len() && same_text(
        entries[at].interface_guid.as_str(),
        operation.interface_guid.as_str(),
    ) {
        let entry = entries.remove(at);
        let updated = match operation.family {
            DnsFamily::Ipv4 => DnsJournalAdapter {
                interface_guid: entry.interface_guid,
                interface_index: entry.interface_index,
                interface_type: entry.interface_type,
                operational_status: entry.operational_status,
                media_connect_state: entry.media_connect_state,
                ipv4: Some(stack),
                ipv6: entry.ipv6,
            },
            DnsFamily::Ipv6 => DnsJournalAdapter {
                interface_guid: entry.interface_guid,
                interface_index: entry.interface_index,
                interface_type: entry.interface_type,
                operational_status: entry.operational_status,
                media_connect_state: entry.media_connect_state,
                ipv4: entry.ipv4,
                ipv6: Some(stack),
            },
        };
        entries.insert(at, updated);
        assert(journal_views(entries@) =~= journal_views(before).update(at as int, updated@));
    } else {
        let (ipv4, ipv6) = match operation.family {
            DnsFamily::Ipv4 => (Some(stack), None),
            DnsFamily::Ipv6 => (None, Some(stack)),
        };
        let entry = DnsJournalAdapter {
            interface_guid: operation.interface_guid.clone(),
            interface_index: adapter.interface_index,
            interface_type: adapter.interface_type,
            operational_status: adapter.operational_status,
            media_connect_state: adapter.media_connect_state,
            ipv4,
            ipv6,
        };
        entries.insert(at, entry);
        assert(journal_views(entries@) =~= journal_views(before).insert(at as int, entry@));
    }
}

fn collect_entries(adapters: &Vec<AdapterDnsSnapshot>, operations: &Vec<DnsOperation>) -> (result:
    Option<Vec<DnsJournalAdapter>>)
    ensures
        match entries_of(
            adapter_views(adapters@),
            operation_views(operations@),
            operations@.len() as int,
        ) {
            None => result is None,
            Some(entries) => result matches Some(own) && journal_views(own@) == entries,
        },
{
    let ghost all = adapter_views(adapters@);
    let ghost planned = operation_views(operations@);
    let mut entries: Vec<DnsJournalAdapter> = Vec::new();
    let mut i: usize = 0;
    assert(journal_views(entries@) =~= Seq::empty());
    while i < operations.len()
        invariant
            i <= operations.len(),
            all == adapter_views(adapters@),
            planned == operation_views(operations@),
            entries_of(all, planned, i as int) == Some(journal_views(entries@)),
        decreases operations.len() - i,
    {
        assert(planned[i as int] == operations@[i as int]@);
        let operation = &operations[i];
        match find_adapter(adapters, operation.interface_guid.as_str()) {
            None => {
                proof {
                    lemma_entries_none(all, planned, i + 1, planned.len() as int);
                }
                return None;
            },
            Some(at) => {
                record(&mut entries, operation, &adapters[at]);
            },
        }
        i += 1;
    }
    Some(entries)
}

/// Makes the journal of a plan.
pub fn journal_from_plan(snapshot: &DnsSnapshot, plan: &DnsApplyPlan, now: u64) -> (result: Result<
    DnsRecoveryJournal,
    DnsConfigurationError,
>)
    ensures
        match journal_outcome(snapshot@, plan@, now) {
            Ok(journal) => result matches Ok(own) && own@ == journal,
            Err(fault) => result matches Err(error) && error@ == fault,
        },
{
    let entries = match collect_entries(&snapshot.adapters, &plan.operations) {
        Some(entries) => entries,
        None => {
            return Err(
                DnsConfigurationError::InvalidSnapshot(
                    "plan refers to an interface absent from the snapshot".to_owned(),
                ),
            );
        },
    };
    let journal = DnsRecoveryJournal {
        format_version: JOURNAL_FORMAT_VERSION,
        source: source().to_owned(),
        generation: plan.generation.clone(),
        created_at_unix_secs: now,
        adapters: entries,
    };
    match validate_journal(&journal) {
        Ok(()) => Ok(journal),
        Err(error) => Err(error),
    }
}

/// The JSON of a recorded stack.
pub open spec fn stack_json(stack: Option<JournalStackView>) -> Seq<char> {
    match stack {
        None => "null"@,
        Some(stack) => "{\"original\":"@ + setting_json(stack.original) + ",\"applied_servers\":["@
            + servers_json(stack.applied) + "]}"@,
    }
}

fn write_stack(stack: &Option<DnsJournalStack>) -> (result: String)
    ensures
        result@ == stack_json(stack_option(*stack)),
{
    match stack {
        None => "null".to_owned(),
        Some(stack) => join5(
            "{\"original\":",
            write_setting(&stack.original).as_str(),
            ",\"applied_servers\":[",
            write_servers(stack.applied_servers.as_slice()).as_str(),
            "]}",
        ),
    }
}

/// The JSON of a journaled interface.
pub open spec fn entry_json(adapter: JournalAdapterView) -> Seq<char> {
    identity_json(
        adapter.guid,
        adapter.index,
        adapter.kind,
        adapter.operational_status,
        adapter.media_connect_state,
    ) + ",\"ipv4\":"@ + stack_json(adapter.ipv4) + ",\"ipv6\":"@ + stack_json(adapter.ipv6) + "}"@
}

/// The JSON of journaled interfaces, without the brackets of the list.
pub open spec fn entries_json(adapters: Seq<JournalAdapterView>) -> Seq<char>
    decreases adapters.len(),
{
    if adapters.len() == 0 {
        Seq::empty()
    } else if adapters.len() == 1 {
        entry_json(adapters[0])
    } else {
        entries_json(adapters.drop_last()) + ","@ + entry_json(adapters.last())
    }
}

/// The JSON of a journal.
pub open spec fn journal_json(journal: JournalView) -> Seq<char> {
    "{\"format_version\":"@ + decimal(journal.format_version as nat) + ",\"source\":"@
        + json_string(journal.source) + ",\"generation\":"@ + json_string(journal.generation)
        + ",\"created_at_unix_secs\":"@ + decimal(journal.created_at as nat) + ",\"adapters\":["@
        + entries_json(journal.adapters) + "]}"@
}

fn write_entries(adapters: &Vec<DnsJournalAdapter>) -> (result: String)
    ensures
        result@ == entries_json(journal_views(adapters@)),
{
    let ghost all = journal_views(adapters@);
    let mut text = String::new();
    let mut i: usize = 0;
    while i < adapters.len()
        invariant
            i <= adapters.len(),
            all == journal_views(adapters@),
            text@ == entries_json(all.take(i as int)),
        decreases adapters.len() - i,
    {
        if i > 0 {
            text.append(",");
        }
        let adapter = &adapters[i];
        let mut own = write_identity(
            adapter.interface_guid.as_str(),
            adapter.interface_index,
            adapter.interface_type,
            adapter.operational_status,
            adapter.media_connect_state,
        );
        own.append(",\"ipv4\":");
        own.append(write_stack(&adapter.ipv4).as_str());
        own.append(",\"ipv6\":");
        own.append(write_stack(&adapter.ipv6).as_str());
        own.append("}");
        assert(own@ == entry_json(all[i as int]));
        text.append(own.as_str());
        proof {
            let now = all.take(i + 1);
            assert(now.drop_last() =~= all.take(i as int));
            assert(now.last() == all[i as int]);
            if i == 0 {
                assert(text@ =~= entry_json(all[0]));
            }
        }
        i += 1;
    }
    assert(all.take(i as int) =~= all);
    text
}

/// The text of a journal, unless it is too large.
pub fn journal_text(journal: &DnsRecoveryJournal) -> (result: Result<String, DnsConfigurationError>)
    ensures
        result is Ok <==> byte_len(journal_json(journal@)) <= MAX_JOURNAL_BYTES,
        result matches Ok(text) ==> text@ == journal_json(journal@),
        result matches Err(error) ==> error@ == (ConfigurationFault::JournalTooLarge {
            actual: byte_len(journal_json(journal@)) as u64,
            maximum: MAX_JOURNAL_BYTES,
        }),
{
    let mut text = join5(
        "{\"format_version\":",
        decimal_text(journal.format_version as u64).as_str(),
        ",\"source\":",
        json_text(journal.source.as_str()).as_str(),
        ",\"generation\":",
    );
    text.append(json_text(journal.generation.as_str()).as_str());
    text.append(",\"created_at_unix_secs\":");
    text.append(decimal_text(journal.created_at_unix_secs).as_str());
    text.append(",\"adapters\":[");
    text.append(write_entries(&journal.adapters).as_str());
    text.append("]}");
    let length: usize = text.as_str().as_bytes().len();
    if length > MAX_JOURNAL_BYTES {
        return Err(
            DnsConfigurationError::JournalTooLarge {
                actual: length as u64,
                maximum: MAX_JOURNAL_BYTES,
            },
        );
    }
    Ok(text)
}

/// Takes a decoded journal.
pub fn accept_journal(decoded: Result<DnsRecoveryJournal, String>) -> (result: Result<
    DnsRecoveryJournal,
    DnsConfigurationError,
>)
    ensures
        match decoded {
            Err(message) => result matches Err(error) && error@
                == ConfigurationFault::JournalInvalid(message@),
            Ok(journal) => match journal_fault(journal@) {
                None => result matches Ok(own) && own == journal,
                Some(reason) => result matches Err(error) && error@
                    == ConfigurationFault::JournalInvalid(reason),
            },
        },
{
    match decoded {
        Err(message) => Err(DnsConfigurationError::JournalInvalid(message)),
        Ok(journal) => match validate_journal(&journal) {
            Ok(()) => Ok(journal),
            Err(error) => Err(error),
        },
    }
}

/// Whether `result` is what a journal file comes to with a decoder.
pub open spec fn journal_read<D: FnOnce(Vec<u8>) -> Result<DnsRecoveryJournal, String>>(
    file: FileRead,
    decode: D,
    result: Result<Option<DnsRecoveryJournal>, DnsConfigurationError>,
) -> bool {
    match bounded_contents(file, MAX_JOURNAL_BYTES as nat) {
        Ok(None) => result matches Ok(None),
        Err(ReadFaultView::Io(message)) => result matches Err(error) && error@
            == ConfigurationFault::JournalIo(message),
        Err(ReadFaultView::TooLarge { actual }) => result matches Err(error) && error@ == (
        ConfigurationFault::JournalTooLarge { actual, maximum: MAX_JOURNAL_BYTES }),
        Ok(Some(contents)) => exists|bytes: Vec<u8>, decoded: Result<DnsRecoveryJournal, String>|
            {
                &&& bytes@ == contents
                &&& #[trigger] call_ensures(decode, (bytes,), decoded)
                &&& match decoded {
                    Err(message) => result matches Err(error) && error@
                        == ConfigurationFault::JournalInvalid(message@),
                    Ok(journal) => match journal_fault(journal@) {
                        None => result matches Ok(Some(own)) && own == journal,
                        Some(reason) => result matches Err(error) && error@
                            == ConfigurationFault::JournalInvalid(reason),
                    },
                }
            },
    }
}

/// Reads a journal; `None` where there is none. The file is read by the caller, and
/// decoded only where its size is in order.
pub fn read_journal<D: FnOnce(Vec<u8>) -> Result<DnsRecoveryJournal, String>>(
    file: FileRead,
    decode: D,
) -> (result: Result<Option<DnsRecoveryJournal>, DnsConfigurationError>)
    requires
        forall|bytes: Vec<u8>| call_requires(decode, (bytes,)),
    ensures
        journal_read(file, decode, result),
{
    let contents = match read_bounded_file(file, MAX_JOURNAL_BYTES) {
        Err(ReadFault::Io(message)) => {
            return Err(DnsConfigurationError::JournalIo(message));
        },
        Err(ReadFault::TooLarge { actual }) => {
            return Err(
                DnsConfigurationError::JournalTooLarge { actual, maximum: MAX_JOURNAL_BYTES },
            );
        },
        Ok(None) => {
            return Ok(None);
        },
        Ok(Some(contents)) => contents,
    };
    let decoded = decode(contents);
    match accept_journal(decoded) {
        Ok(journal) => Ok(Some(journal)),
        Err(error) => Err(error),
    }
}

/// Whether a journal records what a stack was and what it was given.
pub open spec fn records(
    entries: Seq<JournalAdapterView>,
    guid: Seq<char>,
    family: DnsFamily,
    stack: JournalStackView,
) -> bool {
    exists|k: int|
        0 <= k < entries.len() && (#[trigger] entries[k]).guid == guid && entries[k].stack(family)
            == Some(stack)
}

proof fn lemma_entry_place(entries: Seq<JournalAdapterView>, name: Seq<char>)
    ensures
        0 <= entry_place(entries, name) <= entries.len(),
    decreases entries.len(),
{
    if entries.len() > 0 && text_before(entries[0].guid, name) {
        lemma_entry_place(entries.skip(1), name);
    }
}

proof fn lemma_recorded(
    entries: Seq<JournalAdapterView>,
    operation: OperationView,
    adapter: AdapterView,
    guid: Seq<char>,
    family: DnsFamily,
    stack: JournalStackView,
)
    ensures
        records(
            recorded(entries, operation, adapter),
            operation.guid,
            operation.family,
            JournalStackView { original: operation.original, applied: operation.desired },
        ),
        records(entries, guid, family, stack) && (guid != operation.guid || family
            != operation.family) ==> records(
            recorded(entries, operation, adapter),
            guid,
            family,
            stack,
        ),
{
    let at = entry_place(entries, operation.guid);
    lemma_entry_place(entries, operation.guid);
    let after = recorded(entries, operation, adapter);
    assert(after[at].guid == operation.guid);
    if records(entries, guid, family, stack) && (guid != operation.guid || family
        != operation.family) {
        let k = choose|k: int|
            0 <= k < entries.len() && (#[trigger] entries[k]).guid == guid && entries[k].stack(
                family,
            ) == Some(stack);
        if at < entries.len() && entries[at].guid == operation.guid {
            assert(after[k].guid == guid && after[k].stack(family) == Some(stack));
        } else {
            let m = if k < at {
                k
            } else {
                k + 1
            };
            assert(after[m] == entries[k]);
        }
    }
}

/// The journal of a plan records of every operation what the stack was and what it
/// is given, so that each can be undone.
pub proof fn journals_record_every_operation(
    adapters: Seq<AdapterView>,
    operations: Seq<OperationView>,
    n: int,
)
    requires
        0 <= n <= operations.len(),
        distinct_stacks(operations),
        entries_of(adapters, operations, n) is Some,
    ensures
        forall|i: int|
            0 <= i < n ==> records(
                entries_of(adapters, operations, n)->0,
                (#[trigger] operations[i]).guid,
                operations[i].family,
                JournalStackView {
                    original: operations[i].original,
                    applied: operations[i].desired,
                },
            ),
    decreases n,
{
    if n > 0 {
        journals_record_every_operation(adapters, operations, n - 1);
        let before = entries_of(adapters, operations, n - 1)->0;
        let adapter = adapter_named(adapters, operations[n - 1].guid)->0;
        assert forall|i: int| 0 <= i < n implies records(
            entries_of(adapters, operations, n)->0,
            (#[trigger] operations[i]).guid,
            operations[i].family,
            JournalStackView { original: operations[i].original, applied: operations[i].desired },
        ) by {
            lemma_recorded(
                before,
                operations[n - 1],
                adapter,
                operations[i].guid,
                operations[i].family,
                JournalStackView {
                    original: operations[i].original,
                    applied: operations[i].desired,
                },
            );
        }
    }
}

/// Whether a recorded stack is in order: what it was can be had again, and what it was
/// given is the local listener of its family, once or twice.
pub open spec fn stack_in_order(stack: JournalStackView, family: DnsFamily) -> bool {
    &&& !(stack.original is Unavailable)
    &&& setting_in_order(stack.original, family)
    &&& 1 <= stack.applied.len() <= 2
    &&& forall|i: int|
        0 <= i < stack.applied.len() ==> #[trigger] stack.applied[i] == loopback_of(family)
}

/// Whether a journaled interface is in order: it has an index and a stack, and each stack
/// that it has is in order.
pub open spec fn entry_in_order(adapter: JournalAdapterView) -> bool {
    &&& adapter.index != 0
    &&& adapter.ipv4 is Some || adapter.ipv6 is Some
    &&& adapter.ipv4 is Some ==> stack_in_order(adapter.ipv4->0, DnsFamily::Ipv4)
    &&& adapter.ipv6 is Some ==> stack_in_order(adapter.ipv6->0, DnsFamily::Ipv6)
}

proof fn lemma_entry_in_order(adapter: JournalAdapterView)
    ensures
        entry_fault(adapter) is None <==> entry_in_order(adapter),
{
    if let Some(stack) = adapter.ipv4 {
        lemma_stack_in_order(stack, DnsFamily::Ipv4);
    }
    if let Some(stack) = adapter.ipv6 {
        lemma_stack_in_order(stack, DnsFamily::Ipv6);
    }
}

proof fn lemma_stack_in_order(stack: JournalStackView, family: DnsFamily)
    ensures
        stack_fault(Some(stack), family) is None <==> stack_in_order(stack, family),
{
    if applied_allowed(stack.applied, family) {
        assert forall|i: int| 0 <= i < stack.applied.len() implies #[trigger] stack.applied[i]
            == loopback_of(family) by {
            assert(family.spec_accepts(stack.applied[i]));
        }
    }
    if setting_fault(stack.original, family) is None {
        if let SettingView::Static { servers } = stack.original {
            assert forall|k: int| 0 <= k < servers.len() implies ((#[trigger] servers[k]) is V4) == (
            family == DnsFamily::Ipv4) by {
                assert(family.spec_accepts(servers[k]));
            }
        }
    }
    if setting_in_order(stack.original, family) {
        if let SettingView::Static { servers } = stack.original {
            assert forall|k: int| 0 <= k < servers.len() implies family.spec_accepts(
                #[trigger] servers[k],
            ) by {
                assert((servers[k] is V4) == (family == DnsFamily::Ipv4));
            }
        }
    }
}

proof fn lemma_entries_in_order(adapters: Seq<JournalAdapterView>, n: int)
    requires
        0 <= n <= adapters.len(),
    ensures
        journal_adapters_fault(adapters, n) is None <==> {
            &&& forall|i: int|
                0 <= i < n ==> canonical((#[trigger] adapters[i]).guid) is Ok && entry_in_order(
                    adapters[i],
                )
            &&& forall|i: int, j: int|
                0 <= i < j < n ==> canonical((#[trigger] adapters[i]).guid) != canonical(
                    (#[trigger] adapters[j]).guid,
                )
        },
    decreases n,
{
    if n > 0 {
        lemma_entries_in_order(adapters, n - 1);
        let last = adapters[n - 1];
        lemma_entry_in_order(last);
        let guids = journal_guids(adapters);
        if let Ok(name) = canonical(last.guid) {
            if named_before(guids, n - 1, name) {
                let j = choose|j: int|
                    0 <= j < n - 1 && canonical(#[trigger] guids[j]) == Ok::<Seq<char>, Seq<char>>(
                        name,
                    );
                assert(canonical(adapters[j].guid) == canonical(adapters[n - 1].guid));
            } else {
                assert forall|j: int| 0 <= j < n - 1 implies canonical((#[trigger] adapters[j]).guid)
                    != canonical(last.guid) by {
                    assert(canonical(guids[j]) != Ok::<Seq<char>, Seq<char>>(name));
                }
            }
        }
    }
}

/// A journal is accepted exactly where it has the first version, the one source, a digest
/// of 64 hexadecimal digits, and from one to 512 interfaces, each with an identifier of
/// its own and in order.
pub proof fn journals_in_order_are_accepted(journal: JournalView)
    ensures
        journal_fault(journal) is None <==> {
            let adapters = journal.adapters;
            let digest = vstd::utf8::encode_utf8(journal.generation);
            &&& journal.format_version == 1
            &&& journal.source == "windows_iphelper_interface_dns"@
            &&& digest.len() == 64
            &&& forall|i: int|
                0 <= i < 64 ==> {
                    let byte = (#[trigger] digest[i]) as char;
                    '0' <= byte <= '9' || 'a' <= byte <= 'f' || 'A' <= byte <= 'F'
                }
            &&& 1 <= adapters.len() <= 512
            &&& forall|i: int|
                0 <= i < adapters.len() ==> canonical((#[trigger] adapters[i]).guid) is Ok
                    && entry_in_order(adapters[i])
            &&& forall|i: int, j: int|
                0 <= i < j < adapters.len() ==> canonical((#[trigger] adapters[i]).guid)
                    != canonical((#[trigger] adapters[j]).guid)
        },
{
    lemma_entries_in_order(journal.adapters, journal.adapters.len() as int);
    let digest = vstd::utf8::encode_utf8(journal.generation);
    if digest.len() == 64 {
        assert(digest_text(journal.generation) <==> forall|i: int|
            0 <= i < 64 ==> {
                let byte = (#[trigger] digest[i]) as char;
                '0' <= byte <= '9' || 'a' <= byte <= 'f' || 'A' <= byte <= 'F'
            }) by {
            assert forall|i: int| 0 <= i < 64 implies (hex_byte(#[trigger] digest[i]) <==> {
                let byte = digest[i] as char;
                '0' <= byte <= '9' || 'a' <= byte <= 'f' || 'A' <= byte <= 'F'
            }) by {}
            if digest_text(journal.generation) {
                assert forall|i: int| 0 <= i < 64 implies {
                    let byte = (#[trigger] digest[i]) as char;
                    '0' <= byte <= '9' || 'a' <= byte <= 'f' || 'A' <= byte <= 'F'
                } by {
                    assert(hex_byte(digest[i]));
                }
            }
        }
    }
}

/// A file of more than 256 kibibytes is no journal, whether it tells so or is found so;
/// only a file that is not there is none.
pub proof fn journals_are_bounded<D: FnOnce(Vec<u8>) -> Result<DnsRecoveryJournal, String>>(
    file: FileRead,
    decode: D,
    result: Result<Option<DnsRecoveryJournal>, DnsConfigurationError>,
)
    requires
        journal_read(file, decode, result),
    ensures
        file is Missing ==> (result matches Ok(None)),
        (file matches FileRead::Opened { length: Some(length), .. } && length > 256 * 1024)
            ==> result is Err,
        (file matches FileRead::Opened { bytes: Ok(bytes), .. } && bytes@.len() > 256 * 1024)
            ==> result is Err,
        result matches Ok(Some(journal)) ==> journal_fault(journal@) is None,
        result matches Ok(None) ==> file is Missing,
{
}

/// The interface that is looked up by name is the first that has it; there is none exactly
/// where no interface has it.
pub proof fn interfaces_are_found_by_name(adapters: Seq<AdapterView>, name: Seq<char>)
    ensures
        adapter_named(adapters, name) is None <==> forall|i: int|
            0 <= i < adapters.len() ==> canonical((#[trigger] adapters[i]).guid) != Ok::<
                Seq<char>,
                Seq<char>,
            >(name),
        adapter_named(adapters, name) matches Some(found) ==> exists|i: int|
            0 <= i < adapters.len() && #[trigger] adapters[i] == found && canonical(found.guid)
                == Ok::<Seq<char>, Seq<char>>(name) && forall|j: int|
                0 <= j < i ==> canonical((#[trigger] adapters[j]).guid) != Ok::<
                    Seq<char>,
                    Seq<char>,
                >(name),
    decreases adapters.len(),
{
    if adapters.len() > 0 {
        let rest = adapters.skip(1);
        let wanted = Ok::<Seq<char>, Seq<char>>(name);
        interfaces_are_found_by_name(rest, name);
        if canonical(adapters[0].guid) == wanted {
            assert(adapters[0] == adapters[0]);
        } else {
            if adapter_named(rest, name) is Some {
                let found = adapter_named(rest, name)->0;
                let i = choose|i: int|
                    0 <= i < rest.len() && #[trigger] rest[i] == found && canonical(found.guid)
                        == wanted && forall|j: int|
                        0 <= j < i ==> canonical((#[trigger] rest[j]).guid) != wanted;
                assert(adapters[i + 1] == found);
                assert forall|j: int| 0 <= j < i + 1 implies canonical(
                    (#[trigger] adapters[j]).guid,
                ) != wanted by {
                    if j > 0 {
                        assert(rest[j - 1] == adapters[j]);
                    }
                }
            } else {
                assert forall|i: int| 0 <= i < adapters.len() implies canonical(
                    (#[trigger] adapters[i]).guid,
                ) != wanted by {
                    if i > 0 {
                        assert(rest[i - 1] == adapters[i]);
                    }
                }
            }
        }
    }
}

/// A journal that is made has the entries of every operation, the digest of its plan and
/// the time; it is made exactly where every operation is on an interface of the snapshot
/// and the journal is accepted.
pub proof fn journals_are_made_of_their_plan(snapshot: SnapshotView, plan: PlanView, now: u64)
    ensures
        ({
            let made = journal_outcome(snapshot, plan, now);
            let entries = entries_of(
                snapshot.adapters,
                plan.operations,
                plan.operations.len() as int,
            );
            &&& made matches Ok(journal) ==> {
                &&& entries == Some(journal.adapters)
                &&& journal.format_version == 1
                &&& journal.source == "windows_iphelper_interface_dns"@
                &&& journal.generation == plan.generation
                &&& journal.created_at == now
                &&& journal_fault(journal) is None
            }
            &&& entries is None ==> (made matches Err(ConfigurationFault::InvalidSnapshot(_)))
            &&& entries is Some && made is Err ==> (made matches Err(
                ConfigurationFault::JournalInvalid(_),
            ))
        }),
{
}

/// What is recorded of an interface that is new to a journal is what the snapshot has of
/// it; what was recorded of one that is there stays, but for the stack.
pub proof fn records_keep_what_was_there(
    adapter: AdapterView,
    entry: JournalAdapterView,
    name: Seq<char>,
    family: DnsFamily,
    stack: JournalStackView,
)
    ensures
        ({
            let bare = bare_entry(name, adapter);
            &&& bare.guid == name && bare.index == adapter.index && bare.kind == adapter.kind
            &&& bare.operational_status == adapter.operational_status
            &&& bare.media_connect_state == adapter.media_connect_state
            &&& bare.ipv4 is None && bare.ipv6 is None
        }),
        ({
            let after = entry.with_stack(family, stack);
            &&& after.guid == entry.guid && after.index == entry.index && after.kind == entry.kind
            &&& after.operational_status == entry.operational_status
            &&& after.media_connect_state == entry.media_connect_state
            &&& family is Ipv4 ==> after.ipv4 == Some(stack) && after.ipv6 == entry.ipv6
            &&& family is Ipv6 ==> after.ipv6 == Some(stack) && after.ipv4 == entry.ipv4
            &&& after.stack(family) == Some(stack)
        }),
{
}

} // verus!
