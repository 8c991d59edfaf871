//! The DNS settings of network interfaces: what they are, what is to be changed to
//! have them answered by the local listener, and why that can fail.
//!
//! Nothing here picks an upstream server, and an interface that cannot be read is
//! never taken for one without a setting of its own.

use crate::net::{IpAddr, Ipv4Addr, Ipv6Addr};
use crate::text::{decimal, decimal_text, join, join3, join4, join5, quoted, quoted_text};
use vstd::prelude::*;
use vstd::string::*;

verus! {

/// How many interfaces there may be.
pub const MAX_ADAPTERS: usize = 512;

/// How many servers a setting may have.
pub const MAX_DNS_SERVERS: usize = 16;

/// Where a snapshot comes from.
pub open spec fn spec_source() -> Seq<char> {
    "windows_iphelper_interface_dns"@
}

/// Where a snapshot comes from.
pub fn source() -> (result: &'static str)
    ensures
        result@ == spec_source(),
{
    "windows_iphelper_interface_dns"
}

/// The IPv4 address of the local listener.
pub open spec fn spec_loopback_ipv4() -> IpAddr {
    IpAddr::V4(Ipv4Addr { a: 127, b: 0, c: 0, d: 1 })
}

/// The IPv4 address of the local listener.
pub fn loopback_ipv4() -> (result: IpAddr)
    ensures
        result == spec_loopback_ipv4(),
{
    IpAddr::V4(Ipv4Addr::new(127, 0, 0, 1))
}

/// The IPv6 address of the local listener.
pub open spec fn spec_loopback_ipv6() -> IpAddr {
    IpAddr::V6(Ipv6Addr { s0: 0, s1: 0, s2: 0, s3: 0, s4: 0, s5: 0, s6: 0, s7: 1 })
}

/// The IPv6 address of the local listener.
pub fn loopback_ipv6() -> (result: IpAddr)
    ensures
        result == spec_loopback_ipv6(),
{
    IpAddr::V6(Ipv6Addr { s0: 0, s1: 0, s2: 0, s3: 0, s4: 0, s5: 0, s6: 0, s7: 1 })
}

/// Why a setting could not be read.
#[derive(Clone, Copy, Debug, PartialEq, Eq, Structural)]
pub enum DnsUnavailableReason {
    QueryFailed { code: u32 },
    InvalidData,
    Unsupported,
}

/// The setting of one stack of an interface.
#[derive(Clone, Debug, PartialEq, Eq)]
pub enum DnsSetting {
    /// The interface has no servers of its own; the system finds them.
    Automatic,
    /// The servers of the interface, in order.
    Static { servers: Vec<IpAddr> },
    /// The stack could not be read.
    Unavailable { reason: DnsUnavailableReason },
}

/// A setting, as a mathematical value.
pub ghost enum SettingView {
    Automatic,
    Static { servers: Seq<IpAddr> },
    Unavailable { reason: DnsUnavailableReason },
}

/// Compares lists of addresses.
pub fn same_servers(left: &[IpAddr], right: &[IpAddr]) -> (result: bool)
    ensures
        result == (left@ == right@),
{
    if left.len() != right.len() {
        return false;
    }
    let mut i: usize = 0;
    while i < left.len()
        invariant
            i <= left.len() == right.len(),
            left@.take(i as int) == right@.take(i as int),
        decreases left.len() - i,
    {
        if left[i] != right[i] {
            assert(left@[i as int] != right@[i as int]);
            return false;
        }
        assert(left@.take(i + 1) =~= left@.take(i as int).push(left@[i as int]));
        assert(right@.take(i + 1) =~= right@.take(i as int).push(right@[i as int]));
        i += 1;
    }
    assert(left@.take(i as int) =~= left@);
    assert(right@.take(i as int) =~= right@);
    true
}

/// Copies a list of addresses.
pub fn copy_servers(servers: &[IpAddr]) -> (result: Vec<IpAddr>)
    ensures
        result@ == servers@,
{
    let mut copy: Vec<IpAddr> = Vec::new();
    let mut i: usize = 0;
    while i < servers.len()
        invariant
            i <= servers.len(),
            copy@ == servers@.take(i as int),
        decreases servers.len() - i,
    {
        copy.push(servers[i]);
        assert(copy@ =~= servers@.take(i + 1));
        i += 1;
    }
    assert(servers@.take(i as int) =~= servers@);
    copy
}

impl DnsSetting {
    pub open spec fn view(&self) -> SettingView {
        match self {
            DnsSetting::Automatic => SettingView::Automatic,
            DnsSetting::Static { servers } => SettingView::Static { servers: servers@ },
            DnsSetting::Unavailable { reason } => SettingView::Unavailable { reason: *reason },
        }
    }

    /// Whether two settings are the same.
    pub fn same(&self, other: &DnsSetting) -> (result: bool)
        ensures
            result == (self@ == other@),
    {
        match (self, other) {
            (DnsSetting::Automatic, DnsSetting::Automatic) => true,
            (DnsSetting::Static { servers: own }, DnsSetting::Static { servers: theirs }) => same_servers(
                own.as_slice(),
                theirs.as_slice(),
            ),
            (
                DnsSetting::Unavailable { reason: own },
                DnsSetting::Unavailable { reason: theirs },
            ) => *own == *theirs,
            _ => false,
        }
    }

    /// Whether the setting is exactly a list of servers.
    pub fn is_static(&self, expected: &[IpAddr]) -> (result: bool)
        ensures
            result == (self@ == (SettingView::Static { servers: expected@ })),
    {
        match self {
            DnsSetting::Static { servers } => same_servers(servers.as_slice(), expected),
            _ => false,
        }
    }

    /// A copy.
    pub fn copied(&self) -> (result: Self)
        ensures
            result@ == self@,
    {
        match self {
            DnsSetting::Automatic => DnsSetting::Automatic,
            DnsSetting::Static { servers } => DnsSetting::Static {
                servers: copy_servers(servers.as_slice()),
            },
            DnsSetting::Unavailable { reason } => DnsSetting::Unavailable { reason: *reason },
        }
    }
}

/// The stack of an interface.
#[derive(Clone, Copy, Debug, PartialEq, Eq, Structural)]
pub enum DnsFamily {
    Ipv4,
    Ipv6,
}

impl DnsFamily {
    /// Whether an address belongs to the stack.
    pub open spec fn spec_accepts(self, address: IpAddr) -> bool {
        match self {
            DnsFamily::Ipv4 => address.v4(),
            DnsFamily::Ipv6 => !address.v4(),
        }
    }

    /// Whether an address belongs to the stack.
    pub fn accepts(self, address: IpAddr) -> (result: bool)
        ensures
            result == self.spec_accepts(address),
    {
        match self {
            DnsFamily::Ipv4 => address.is_ipv4(),
            DnsFamily::Ipv6 => !address.is_ipv4(),
        }
    }

    /// Whether this is the IPv6 stack.
    pub fn is_ipv6(self) -> (result: bool)
        ensures
            result == (self == DnsFamily::Ipv6),
    {
        match self {
            DnsFamily::Ipv4 => false,
            DnsFamily::Ipv6 => true,
        }
    }

    /// The name of the stack.
    pub open spec fn spec_name(self) -> Seq<char> {
        match self {
            DnsFamily::Ipv4 => "Ipv4"@,
            DnsFamily::Ipv6 => "Ipv6"@,
        }
    }

    /// The name of the stack.
    pub fn name(self) -> (result: &'static str)
        ensures
            result@ == self.spec_name(),
    {
        match self {
            DnsFamily::Ipv4 => "Ipv4",
            DnsFamily::Ipv6 => "Ipv6",
        }
    }
}

/// The settings of an interface.
#[derive(Clone, Debug, PartialEq, Eq)]
pub struct AdapterDnsSnapshot {
    pub interface_guid: String,
    pub interface_index: u32,
    pub interface_type: u32,
    pub operational_status: u32,
    pub media_connect_state: u32,
    pub ipv4: DnsSetting,
    pub ipv6: DnsSetting,
}

/// The settings of an interface, as mathematical values.
pub ghost struct AdapterView {
    pub guid: Seq<char>,
    pub index: u32,
    pub kind: u32,
    pub operational_status: u32,
    pub media_connect_state: u32,
    pub ipv4: SettingView,
    pub ipv6: SettingView,
}

impl AdapterDnsSnapshot {
    pub open spec fn view(&self) -> AdapterView {
        AdapterView {
            guid: self.interface_guid@,
            index: self.interface_index,
            kind: self.interface_type,
            operational_status: self.operational_status,
            media_connect_state: self.media_connect_state,
            ipv4: self.ipv4@,
            ipv6: self.ipv6@,
        }
    }
}

/// The settings of all interfaces at one time.
#[derive(Clone, Debug, PartialEq, Eq)]
pub struct DnsSnapshot {
    pub source: String,
    pub sampled_at_unix_secs: u64,
    pub adapters: Vec<AdapterDnsSnapshot>,
}

/// The settings of all interfaces, as mathematical values.
pub ghost struct SnapshotView {
    pub source: Seq<char>,
    pub sampled_at: u64,
    pub adapters: Seq<AdapterView>,
}

/// Interfaces, as mathematical values.
pub open spec fn adapter_views(adapters: Seq<AdapterDnsSnapshot>) -> Seq<AdapterView> {
    Seq::new(adapters.len(), |i: int| adapters[i]@)
}

impl DnsSnapshot {
    pub open spec fn view(&self) -> SnapshotView {
        SnapshotView {
            source: self.source@,
            sampled_at: self.sampled_at_unix_secs,
            adapters: adapter_views(self.adapters@),
        }
    }
}

/// A stack that is to be changed.
#[derive(Clone, Debug, PartialEq, Eq)]
pub struct DnsOperation {
    pub interface_guid: String,
    pub interface_index: u32,
    pub family: DnsFamily,
    pub original: DnsSetting,
    pub desired_servers: Vec<IpAddr>,
}

/// A stack that is to be changed, as mathematical values.
pub ghost struct OperationView {
    pub guid: Seq<char>,
    pub index: u32,
    pub family: DnsFamily,
    pub original: SettingView,
    pub desired: Seq<IpAddr>,
}

impl DnsOperation {
    pub open spec fn view(&self) -> OperationView {
        OperationView {
            guid: self.interface_guid@,
            index: self.interface_index,
            family: self.family,
            original: self.original@,
            desired: self.desired_servers@,
        }
    }
}

/// Why a stack is left as it is.
#[derive(Clone, Copy, Debug, PartialEq, Eq, Structural)]
pub enum DnsSkipReason {
    NoLoopbackServer,
    AlreadyApplied,
    Unavailable(DnsUnavailableReason),
}

/// A stack that is left as it is.
#[derive(Clone, Debug, PartialEq, Eq)]
pub struct DnsSkippedStack {
    pub interface_guid: String,
    pub family: DnsFamily,
    pub reason: DnsSkipReason,
}

/// A stack that is left as it is, as mathematical values.
pub ghost struct SkipView {
    pub guid: Seq<char>,
    pub family: DnsFamily,
    pub reason: DnsSkipReason,
}

impl DnsSkippedStack {
    pub open spec fn view(&self) -> SkipView {
        SkipView { guid: self.interface_guid@, family: self.family, reason: self.reason }
    }
}

/// What is to be changed.
#[derive(Clone, Debug, PartialEq, Eq)]
pub struct DnsApplyPlan {
    pub generation: String,
    pub operations: Vec<DnsOperation>,
    pub skipped: Vec<DnsSkippedStack>,
}

/// What is to be changed, as mathematical values.
pub ghost struct PlanView {
    pub generation: Seq<char>,
    pub operations: Seq<OperationView>,
    pub skipped: Seq<SkipView>,
}

/// Operations, as mathematical values.
pub open spec fn operation_views(operations: Seq<DnsOperation>) -> Seq<OperationView> {
    Seq::new(operations.len(), |i: int| operations[i]@)
}

/// Skipped stacks, as mathematical values.
pub open spec fn skip_views(skipped: Seq<DnsSkippedStack>) -> Seq<SkipView> {
    Seq::new(skipped.len(), |i: int| skipped[i]@)
}

impl DnsApplyPlan {
    pub open spec fn view(&self) -> PlanView {
        PlanView {
            generation: self.generation@,
            operations: operation_views(self.operations@),
            skipped: skip_views(self.skipped@),
        }
    }
}

/// What came of a plan.
#[derive(Clone, Debug, PartialEq, Eq)]
pub struct DnsApplyResult {
    pub generation: String,
    pub attempted_stack_count: usize,
    pub changed_stack_count: usize,
    pub skipped_stack_count: usize,
    pub journal_present: bool,
}

/// What came of a plan, as mathematical values.
pub ghost struct ApplyResultView {
    pub generation: Seq<char>,
    pub attempted: nat,
    pub changed: nat,
    pub skipped: nat,
    pub journal_present: bool,
}

impl DnsApplyResult {
    pub open spec fn view(&self) -> ApplyResultView {
        ApplyResultView {
            generation: self.generation@,
            attempted: self.attempted_stack_count as nat,
            changed: self.changed_stack_count as nat,
            skipped: self.skipped_stack_count as nat,
            journal_present: self.journal_present,
        }
    }
}

/// A stack that could not be restored.
#[derive(Clone, Debug, PartialEq, Eq)]
pub struct DnsRestoreIssue {
    pub interface_guid: String,
    pub family: DnsFamily,
    pub reason: String,
}

/// A stack that could not be restored, as mathematical values.
pub ghost struct IssueView {
    pub guid: Seq<char>,
    pub family: DnsFamily,
    pub reason: Seq<char>,
}

impl DnsRestoreIssue {
    pub open spec fn view(&self) -> IssueView {
        IssueView { guid: self.interface_guid@, family: self.family, reason: self.reason@ }
    }
}

/// Stacks that could not be restored, as mathematical values.
pub open spec fn issue_views(issues: Seq<DnsRestoreIssue>) -> Seq<IssueView> {
    Seq::new(issues.len(), |i: int| issues[i]@)
}

/// What came of a restoration.
#[derive(Clone, Debug, PartialEq, Eq)]
pub struct DnsRestoreResult {
    pub restored_stack_count: usize,
    pub skipped_stack_count: usize,
    pub remaining: Vec<DnsRestoreIssue>,
    pub journal_removed: bool,
}

/// What came of a restoration, as mathematical values.
pub ghost struct RestoreResultView {
    pub restored: nat,
    pub skipped: nat,
    pub remaining: Seq<IssueView>,
    pub journal_removed: bool,
}

impl DnsRestoreResult {
    pub open spec fn view(&self) -> RestoreResultView {
        RestoreResultView {
            restored: self.restored_stack_count as nat,
            skipped: self.skipped_stack_count as nat,
            remaining: issue_views(self.remaining@),
            journal_removed: self.journal_removed,
        }
    }
}

/// Why the settings could not be read, changed or restored.
#[derive(Clone, Debug, PartialEq, Eq)]
pub enum DnsConfigurationError {
    UnsupportedPlatform,
    InvalidSnapshot(String),
    InvalidLoopbackServer { address: String },
    NoApplicableStacks,
    JournalAlreadyExists,
    JournalMissing,
    JournalTooLarge { actual: u64, maximum: usize },
    JournalIo(String),
    JournalInvalid(String),
    NativeSnapshot { code: u32 },
    NativeQuery { interface_guid: String, family: DnsFamily, code: u32 },
    NativeSet { interface_guid: String, family: DnsFamily, code: u32 },
    ApplyFailed {
        interface_guid: String,
        family: DnsFamily,
        code: u32,
        changed_stack_count: usize,
        rollback_failures: Vec<DnsRestoreIssue>,
    },
    ApplyPreconditionFailed {
        interface_guid: String,
        family: DnsFamily,
        changed_stack_count: usize,
        rollback_failures: Vec<DnsRestoreIssue>,
    },
    RestoreIncomplete {
        restored_stack_count: usize,
        skipped_stack_count: usize,
        remaining: Vec<DnsRestoreIssue>,
    },
    JournalCleanupFailed { restored_stack_count: usize, path_error: String },
}

/// Why the settings could not be read, changed or restored, as mathematical values.
pub ghost enum ConfigurationFault {
    UnsupportedPlatform,
    InvalidSnapshot(Seq<char>),
    InvalidLoopbackServer { address: Seq<char> },
    NoApplicableStacks,
    JournalAlreadyExists,
    JournalMissing,
    JournalTooLarge { actual: u64, maximum: usize },
    JournalIo(Seq<char>),
    JournalInvalid(Seq<char>),
    NativeSnapshot { code: u32 },
    NativeQuery { guid: Seq<char>, family: DnsFamily, code: u32 },
    NativeSet { guid: Seq<char>, family: DnsFamily, code: u32 },
    ApplyFailed {
        guid: Seq<char>,
        family: DnsFamily,
        code: u32,
        changed: nat,
        failures: Seq<IssueView>,
    },
    ApplyPreconditionFailed {
        guid: Seq<char>,
        family: DnsFamily,
        changed: nat,
        failures: Seq<IssueView>,
    },
    RestoreIncomplete { restored: nat, skipped: nat, remaining: Seq<IssueView> },
    JournalCleanupFailed { restored: nat, path_error: Seq<char> },
}

/// A message on one stack of an interface.
pub open spec fn on_stack(
    before: Seq<char>,
    family: DnsFamily,
    guid: Seq<char>,
    after: Seq<char>,
) -> Seq<char> {
    before + family.spec_name() + " on interface "@ + quoted(guid) + after
}

/// A status code in brackets.
pub open spec fn in_brackets(code: u32) -> Seq<char> {
    " ("@ + decimal(code as nat) + ")"@
}

/// What is said of a change that was undone.
pub open spec fn rollback_summary(changed: nat, failures: nat) -> Seq<char> {
    decimal(changed) + " stacks changed and "@ + decimal(failures) + " rollback operations failed"@
}

impl ConfigurationFault {
    /// The message for a reader.
    pub open spec fn message(self) -> Seq<char> {
        match self {
            ConfigurationFault::UnsupportedPlatform =>
            "Windows DNS configuration is unavailable on this platform"@,
            ConfigurationFault::InvalidSnapshot(reason) => "DNS snapshot is invalid: "@ + reason,
            ConfigurationFault::InvalidLoopbackServer { address } => "DNS server "@ + quoted(
                address,
            ) + " is not an approved loopback listener"@,
            ConfigurationFault::NoApplicableStacks =>
            "the snapshot contains no applicable DNS stacks"@,
            ConfigurationFault::JournalAlreadyExists =>
            "a DNS recovery journal already exists; restore it before replacing the generation"@,
            ConfigurationFault::JournalMissing => "DNS recovery journal is missing"@,
            ConfigurationFault::JournalTooLarge { actual, maximum } => "DNS recovery journal is "@
                + decimal(actual as nat) + " bytes; maximum is "@ + decimal(maximum as nat),
            ConfigurationFault::JournalIo(reason) => "DNS recovery journal I/O failed: "@ + reason,
            ConfigurationFault::JournalInvalid(reason) => "DNS recovery journal is invalid: "@
                + reason,
            ConfigurationFault::NativeSnapshot { code } =>
            "Windows DNS interface enumeration failed"@ + in_brackets(code),
            ConfigurationFault::NativeQuery { guid, family, code } => on_stack(
                "Windows DNS read failed for "@,
                family,
                guid,
                in_brackets(code),
            ),
            ConfigurationFault::NativeSet { guid, family, code } => on_stack(
                "Windows DNS update failed for "@,
                family,
                guid,
                in_brackets(code),
            ),
            ConfigurationFault::ApplyFailed { guid, family, code, changed, failures } => on_stack(
                "DNS update failed for "@,
                family,
                guid,
                in_brackets(code),
            ) + "; "@ + rollback_summary(changed, failures.len()),
            ConfigurationFault::ApplyPreconditionFailed { guid, family, changed, failures } =>
            on_stack(
                "DNS update stopped because "@,
                family,
                guid,
                " changed before it was written; "@,
            ) + rollback_summary(changed, failures.len()),
            ConfigurationFault::RestoreIncomplete { restored, skipped, remaining } =>
            "DNS restore incomplete: "@ + decimal(restored) + " restored, "@ + decimal(skipped)
                + " skipped, "@ + decimal(remaining.len()) + " remain in the journal"@,
            ConfigurationFault::JournalCleanupFailed { restored, path_error } =>
            "DNS settings restored for "@ + decimal(restored)
                + " stacks, but the recovery journal could not be removed: "@ + path_error,
        }
    }
}

fn stack_message(before: &str, family: DnsFamily, guid: &str, after: &str) -> (result: String)
    ensures
        result@ == on_stack(before@, family, guid@, after@),
{
    join5(before, family.name(), " on interface ", quoted_text(guid).as_str(), after)
}

fn bracketed(code: u32) -> (result: String)
    ensures
        result@ == in_brackets(code),
{
    join3(" (", decimal_text(code as u64).as_str(), ")")
}

fn rollback_text(changed: usize, failures: usize) -> (result: String)
    ensures
        result@ == rollback_summary(changed as nat, failures as nat),
{
    join4(
        decimal_text(changed as u64).as_str(),
        " stacks changed and ",
        decimal_text(failures as u64).as_str(),
        " rollback operations failed",
    )
}

impl DnsConfigurationError {
    pub open spec fn view(&self) -> ConfigurationFault {
        match self {
            DnsConfigurationError::UnsupportedPlatform => ConfigurationFault::UnsupportedPlatform,
            DnsConfigurationError::InvalidSnapshot(reason) => ConfigurationFault::InvalidSnapshot(
                reason@,
            ),
            DnsConfigurationError::InvalidLoopbackServer { address } =>
            ConfigurationFault::InvalidLoopbackServer { address: address@ },
            DnsConfigurationError::NoApplicableStacks => ConfigurationFault::NoApplicableStacks,
            DnsConfigurationError::JournalAlreadyExists => ConfigurationFault::JournalAlreadyExists,
            DnsConfigurationError::JournalMissing => ConfigurationFault::JournalMissing,
            DnsConfigurationError::JournalTooLarge { actual, maximum } =>
            ConfigurationFault::JournalTooLarge { actual: *actual, maximum: *maximum },
            DnsConfigurationError::JournalIo(reason) => ConfigurationFault::JournalIo(reason@),
            DnsConfigurationError::JournalInvalid(reason) => ConfigurationFault::JournalInvalid(
                reason@,
            ),
            DnsConfigurationError::NativeSnapshot { code } => ConfigurationFault::NativeSnapshot {
                code: *code,
            },
            DnsConfigurationError::NativeQuery { interface_guid, family, code } =>
            ConfigurationFault::NativeQuery { guid: interface_guid@, family: *family, code: *code },
            DnsConfigurationError::NativeSet { interface_guid, family, code } =>
            ConfigurationFault::NativeSet { guid: interface_guid@, family: *family, code: *code },
            DnsConfigurationError::ApplyFailed {
                interface_guid,
                family,
                code,
                changed_stack_count,
                rollback_failures,
            } => ConfigurationFault::ApplyFailed {
                guid: interface_guid@,
                family: *family,
                code: *code,
                changed: *changed_stack_count as nat,
                failures: issue_views(rollback_failures@),
            },
            DnsConfigurationError::ApplyPreconditionFailed {
                interface_guid,
                family,
                changed_stack_count,
                rollback_failures,
            } => ConfigurationFault::ApplyPreconditionFailed {
                guid: interface_guid@,
                family: *family,
                changed: *changed_stack_count as nat,
                failures: issue_views(rollback_failures@),
            },
            DnsConfigurationError::RestoreIncomplete {
                restored_stack_count,
                skipped_stack_count,
                remaining,
            } => ConfigurationFault::RestoreIncomplete {
                restored: *restored_stack_count as nat,
                skipped: *skipped_stack_count as nat,
                remaining: issue_views(remaining@),
            },
            DnsConfigurationError::JournalCleanupFailed { restored_stack_count, path_error } =>
            ConfigurationFault::JournalCleanupFailed {
                restored: *restored_stack_count as nat,
                path_error: path_error@,
            },
        }
    }

    /// The message for a reader.
    pub fn message(&self) -> (result: String)
        ensures
            result@ == self@.message(),
    {
        match self {
            DnsConfigurationError::UnsupportedPlatform => {
                "Windows DNS configuration is unavailable on this platform".to_owned()
            },
            DnsConfigurationError::InvalidSnapshot(reason) => join(
                "DNS snapshot is invalid: ",
                reason.as_str(),
            ),
            DnsConfigurationError::InvalidLoopbackServer { address } => join3(
                "DNS server ",
                quoted_text(address.as_str()).as_str(),
                " is not an approved loopback listener",
            ),
            DnsConfigurationError::NoApplicableStacks => {
                "the snapshot contains no applicable DNS stacks".to_owned()
            },
            DnsConfigurationError::JournalAlreadyExists => {
                "a DNS recovery journal already exists; restore it before replacing the generation".to_owned()
            },
            DnsConfigurationError::JournalMissing => "DNS recovery journal is missing".to_owned(),
            DnsConfigurationError::JournalTooLarge { actual, maximum } => join4(
                "DNS recovery journal is ",
                decimal_text(*actual).as_str(),
                " bytes; maximum is ",
                decimal_text(*maximum as u64).as_str(),
            ),
            DnsConfigurationError::JournalIo(reason) => join(
                "DNS recovery journal I/O failed: ",
                reason.as_str(),
            ),
            DnsConfigurationError::JournalInvalid(reason) => join(
                "DNS recovery journal is invalid: ",
                reason.as_str(),
            ),
            DnsConfigurationError::NativeSnapshot { code } => join(
                "Windows DNS interface enumeration failed",
                bracketed(*code).as_str(),
            ),
            DnsConfigurationError::NativeQuery { interface_guid, family, code } => stack_message(
                "Windows DNS read failed for ",
                *family,
                interface_guid.as_str(),
                bracketed(*code).as_str(),
            ),
            DnsConfigurationError::NativeSet { interface_guid, family, code } => stack_message(
                "Windows DNS update failed for ",
                *family,
                interface_guid.as_str(),
                bracketed(*code).as_str(),
            ),
            DnsConfigurationError::ApplyFailed {
                interface_guid,
                family,
                code,
                changed_stack_count,
                rollback_failures,
            } => join3(
                stack_message(
                    "DNS update failed for ",
                    *family,
                    interface_guid.as_str(),
                    bracketed(*code).as_str(),
                ).as_str(),
                "; ",
                rollback_text(*changed_stack_count, rollback_failures.len()).as_str(),
            ),
            DnsConfigurationError::ApplyPreconditionFailed {
                interface_guid,
                family,
                changed_stack_count,
                rollback_failures,
            } => join(
                stack_message(
                    "DNS update stopped because ",
                    *family,
                    interface_guid.as_str(),
                    " changed before it was written; ",
                ).as_str(),
                rollback_text(*changed_stack_count, rollback_failures.len()).as_str(),
            ),
            DnsConfigurationError::RestoreIncomplete {
                restored_stack_count,
                skipped_stack_count,
                remaining,
            } => join3(
                join5(
                    "DNS restore incomplete: ",
                    decimal_text(*restored_stack_count as u64).as_str(),
                    " restored, ",
                    decimal_text(*skipped_stack_count as u64).as_str(),
                    " skipped, ",
                ).as_str(),
                decimal_text(remaining.len() as u64).as_str(),
                " remain in the journal",
            ),
            DnsConfigurationError::JournalCleanupFailed { restored_stack_count, path_error } => join4(
                "DNS settings restored for ",
                decimal_text(*restored_stack_count as u64).as_str(),
                " stacks, but the recovery journal could not be removed: ",
                path_error.as_str(),
            ),
        }
    }
}

/// A stack takes exactly the addresses of its own family.
pub proof fn stacks_take_their_own_addresses(address: IpAddr)
    ensures
        DnsFamily::Ipv4.spec_accepts(address) <==> address is V4,
        DnsFamily::Ipv6.spec_accepts(address) <==> address is V6,
{
}

/// The listener of each stack is an address of that stack, and no other than the first of
/// its loopback network.
pub proof fn listeners_are_loopback_addresses(address: IpAddr)
    ensures
        address == spec_loopback_ipv4() <==> (address matches IpAddr::V4(ip) && ip.a == 127 && ip.b
            == 0 && ip.c == 0 && ip.d == 1),
        address == spec_loopback_ipv6() <==> (address matches IpAddr::V6(ip) && ip.s0 == 0 && ip.s1
            == 0 && ip.s2 == 0 && ip.s3 == 0 && ip.s4 == 0 && ip.s5 == 0 && ip.s6 == 0 && ip.s7
            == 1),
{
}

/// Settings agree exactly where both are automatic, both have the same servers in the same
/// order, or both could not be read for the same reason.
pub proof fn settings_agree_in_kind_and_servers(left: DnsSetting, right: DnsSetting)
    ensures
        left@ == right@ <==> match (left, right) {
            (DnsSetting::Automatic, DnsSetting::Automatic) => true,
            (
                DnsSetting::Static { servers: own },
                DnsSetting::Static { servers: theirs },
            ) => own@.len() == theirs@.len() && forall|i: int|
                0 <= i < own@.len() ==> own@[i] == theirs@[i],
            (
                DnsSetting::Unavailable { reason: own },
                DnsSetting::Unavailable { reason: theirs },
            ) => own == theirs,
            _ => false,
        },
{
    if let (DnsSetting::Static { servers: own }, DnsSetting::Static { servers: theirs }) = (
        left,
        right,
    ) {
        if own@.len() == theirs@.len() && forall|i: int|
            0 <= i < own@.len() ==> own@[i] == theirs@[i] {
            assert(own@ =~= theirs@);
        }
    }
}

/// A message on a change that was undone begins with the stack and the interface, and tells
/// the changed stacks before the failures.
pub proof fn undone_changes_are_told_in_order(
    guid: Seq<char>,
    family: DnsFamily,
    code: u32,
    changed: nat,
    failures: Seq<IssueView>,
)
    ensures
        ({
            let name = if family == DnsFamily::Ipv4 {
                "Ipv4"@
            } else {
                "Ipv6"@
            };
            let stack = name + " on interface "@ + quoted(guid);
            let counts = decimal(changed) + " stacks changed and "@ + decimal(failures.len())
                + " rollback operations failed"@;
            let status = " ("@ + decimal(code as nat) + ")"@;
            &&& (ConfigurationFault::ApplyFailed {
                guid,
                family,
                code,
                changed,
                failures,
            }).message() == "DNS update failed for "@ + stack + status + "; "@ + counts
            &&& (ConfigurationFault::ApplyPreconditionFailed {
                guid,
                family,
                changed,
                failures,
            }).message() == "DNS update stopped because "@ + stack
                + " changed before it was written; "@ + counts
            &&& (ConfigurationFault::NativeQuery { guid, family, code }).message()
                == "Windows DNS read failed for "@ + stack + status
            &&& (ConfigurationFault::NativeSet { guid, family, code }).message()
                == "Windows DNS update failed for "@ + stack + status
            &&& (ConfigurationFault::NativeSnapshot { code }).message()
                == "Windows DNS interface enumeration failed"@ + status
        }),
{
}

/// A restoration that is not complete tells what was restored, what was skipped and what
/// remains, in this order; a journal that is too large tells its size before the limit.
pub proof fn remainders_are_told_in_order(
    restored: nat,
    skipped: nat,
    remaining: Seq<IssueView>,
    actual: u64,
    maximum: usize,
)
    ensures
        (ConfigurationFault::RestoreIncomplete { restored, skipped, remaining }).message()
            == "DNS restore incomplete: "@ + decimal(restored) + " restored, "@ + decimal(skipped)
            + " skipped, "@ + decimal(remaining.len()) + " remain in the journal"@,
        (ConfigurationFault::JournalTooLarge { actual, maximum }).message()
            == "DNS recovery journal is "@ + decimal(actual as nat) + " bytes; maximum is "@
            + decimal(maximum as nat),
{
}

} // verus!
