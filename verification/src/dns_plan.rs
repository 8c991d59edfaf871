//! What is to be changed so that the local listener answers for every interface.

use crate::digest::{sha256, sha256_hex};
use crate::dns_configuration::{
    adapter_views, loopback_ipv4, loopback_ipv6, operation_views, skip_views, source,
    spec_loopback_ipv4, spec_loopback_ipv6, spec_source, AdapterDnsSnapshot, AdapterView,
    ConfigurationFault, DnsApplyPlan, DnsConfigurationError, DnsFamily, DnsOperation, DnsSetting,
    DnsSkipReason, DnsSkippedStack, DnsSnapshot, DnsUnavailableReason, OperationView, PlanView,
    SettingView, SkipView, SnapshotView, MAX_ADAPTERS, MAX_DNS_SERVERS,
};
use crate::guid::{canonical, canonical_guid};
use crate::json::{json_string, json_text};
use crate::net::{IpAddr, Ipv4Addr, Ipv6Addr};
use crate::text::{decimal, decimal_text, hex_of, join3, join5, same_text};
use crate::text_order::{
    comes_before, text_before, text_order_is_irreflexive, text_order_is_transitive,
};
use vstd::prelude::*;
use vstd::string::*;

verus! {

/// What is wrong with the setting of a stack.
pub open spec fn setting_fault(setting: SettingView, family: DnsFamily) -> Option<Seq<char>> {
    match setting {
        SettingView::Static { servers } => if servers.len() == 0 || servers.len()
            > MAX_DNS_SERVERS {
            Some("static DNS server count is outside the bounded range"@)
        } else if !family_matches(servers, family) {
            Some("static DNS server family does not match its stack"@)
        } else {
            None
        },
        _ => None,
    }
}

/// Whether every server belongs to a stack.
pub open spec fn family_matches(servers: Seq<IpAddr>, family: DnsFamily) -> bool {
    forall|i: int| 0 <= i < servers.len() ==> family.spec_accepts(#[trigger] servers[i])
}

/// Whether every server belongs to a stack.
pub fn all_accepted(servers: &[IpAddr], family: DnsFamily) -> (result: bool)
    ensures
        result == family_matches(servers@, family),
{
    let mut i: usize = 0;
    while i < servers.len()
        invariant
            i <= servers.len(),
            forall|j: int| 0 <= j < i ==> family.spec_accepts(#[trigger] servers@[j]),
        decreases servers.len() - i,
    {
        if !family.accepts(servers[i]) {
            assert(!family.spec_accepts(servers@[i as int]));
            return false;
        }
        i += 1;
    }
    true
}

/// What is wrong with the setting of a stack.
pub fn check_setting(setting: &DnsSetting, family: DnsFamily) -> (result: Option<&'static str>)
    ensures
        match setting_fault(setting@, family) {
            Some(reason) => result matches Some(text) && text@ == reason,
            None => result is None,
        },
{
    if let DnsSetting::Static { servers } = setting {
        if servers.len() == 0 || servers.len() > MAX_DNS_SERVERS {
            return Some("static DNS server count is outside the bounded range");
        }
        if !all_accepted(servers.as_slice(), family) {
            return Some("static DNS server family does not match its stack");
        }
    }
    None
}

/// Whether a name occurs among the first `n` of a list of identifiers, in whatever
/// way they are spelled.
pub open spec fn named_before(guids: Seq<Seq<char>>, n: int, name: Seq<char>) -> bool {
    exists|j: int|
        0 <= j < n && canonical(#[trigger] guids[j]) == Ok::<Seq<char>, Seq<char>>(name)
}

/// Whether a name occurs in a list.
pub fn already_seen(seen: &Vec<String>, name: &str) -> (result: bool)
    ensures
        result == exists|j: int| 0 <= j < seen@.len() && (#[trigger] seen@[j])@ == name@,
{
    let mut i: usize = 0;
    while i < seen.len()
        invariant
            i <= seen.len(),
            forall|j: int| 0 <= j < i ==> (#[trigger] seen@[j])@ != name@,
        decreases seen.len() - i,
    {
        if same_text(seen[i].as_str(), name) {
            assert(seen@[i as int]@ == name@);
            return true;
        }
        i += 1;
    }
    false
}

/// The identifiers of interfaces.
pub open spec fn guids_of(adapters: Seq<AdapterView>) -> Seq<Seq<char>> {
    Seq::new(adapters.len(), |i: int| adapters[i].guid)
}

/// What is wrong with one interface of a snapshot.
pub open spec fn adapter_fault(adapters: Seq<AdapterView>, i: int) -> Option<Seq<char>> {
    let adapter = adapters[i];
    match canonical(adapter.guid) {
        Err(reason) => Some(reason),
        Ok(name) => if named_before(guids_of(adapters), i, name) {
            Some("duplicate interface GUID"@)
        } else if adapter.index == 0 {
            Some("interface index is zero"@)
        } else if setting_fault(adapter.ipv4, DnsFamily::Ipv4) is Some {
            setting_fault(adapter.ipv4, DnsFamily::Ipv4)
        } else {
            setting_fault(adapter.ipv6, DnsFamily::Ipv6)
        },
    }
}

/// What is wrong with the first `n` interfaces of a snapshot.
pub open spec fn adapters_fault(adapters: Seq<AdapterView>, n: int) -> Option<Seq<char>>
    decreases n,
{
    if n <= 0 {
        None
    } else {
        match adapters_fault(adapters, n - 1) {
            Some(reason) => Some(reason),
            None => adapter_fault(adapters, n - 1),
        }
    }
}

/// What is wrong with a snapshot.
pub open spec fn snapshot_fault(snapshot: SnapshotView) -> Option<Seq<char>> {
    if snapshot.source != spec_source() {
        Some("unexpected DNS snapshot source"@)
    } else if snapshot.adapters.len() > MAX_ADAPTERS {
        Some("interface count exceeds the bounded limit"@)
    } else {
        adapters_fault(snapshot.adapters, snapshot.adapters.len() as int)
    }
}

proof fn lemma_adapters_fault(adapters: Seq<AdapterView>, n: int, m: int)
    requires
        0 <= n <= m,
        adapters_fault(adapters, n) is Some,
    ensures
        adapters_fault(adapters, m) == adapters_fault(adapters, n),
    decreases m,
{
    if n < m {
        lemma_adapters_fault(adapters, n, m - 1);
    }
}

fn check_adapter(adapter: &AdapterDnsSnapshot) -> (result: Option<&'static str>)
    ensures
        match result {
            Some(text) => {
                &&& adapter@.index == 0 ==> text@ == "interface index is zero"@
                &&& adapter@.index != 0 ==> Some(text@) == (if setting_fault(
                    adapter@.ipv4,
                    DnsFamily::Ipv4,
                ) is Some {
                    setting_fault(adapter@.ipv4, DnsFamily::Ipv4)
                } else {
                    setting_fault(adapter@.ipv6, DnsFamily::Ipv6)
                })
            },
            None => adapter@.index != 0 && setting_fault(adapter@.ipv4, DnsFamily::Ipv4) is None
                && setting_fault(adapter@.ipv6, DnsFamily::Ipv6) is None,
        },
{
    if adapter.interface_index == 0 {
        return Some("interface index is zero");
    }
    match check_setting(&adapter.ipv4, DnsFamily::Ipv4) {
        Some(reason) => Some(reason),
        None => check_setting(&adapter.ipv6, DnsFamily::Ipv6),
    }
}

/// What is wrong with a snapshot.
pub fn validate_snapshot(snapshot: &DnsSnapshot) -> (result: Result<(), DnsConfigurationError>)
    ensures
        match snapshot_fault(snapshot@) {
            None => result is Ok,
            Some(reason) => result matches Err(error) && error@
                == ConfigurationFault::InvalidSnapshot(reason),
        },
{
    if !same_text(snapshot.source.as_str(), source()) {
        return Err(
            DnsConfigurationError::InvalidSnapshot("unexpected DNS snapshot source".to_owned()),
        );
    }
    if snapshot.adapters.len() > MAX_ADAPTERS {
        return Err(
            DnsConfigurationError::InvalidSnapshot(
                "interface count exceeds the bounded limit".to_owned(),
            ),
        );
    }
    let ghost all = adapter_views(snapshot.adapters@);
    let ghost guids = guids_of(all);
    let mut seen: Vec<String> = Vec::new();
    let mut i: usize = 0;
    while i < snapshot.adapters.len()
        invariant
            i <= snapshot.adapters.len(),
            seen.len() == i,
            snapshot@.source == spec_source(),
            snapshot@.adapters.len() <= MAX_ADAPTERS,
            all == adapter_views(snapshot.adapters@),
            all == snapshot@.adapters,
            guids == guids_of(all),
            adapters_fault(all, i as int) is None,
            forall|j: int|
                0 <= j < i ==> canonical(#[trigger] guids[j]) == Ok::<Seq<char>, Seq<char>>(
                    seen@[j]@,
                ),
        decreases snapshot.adapters.len() - i,
    {
        let adapter = &snapshot.adapters[i];
        assert(adapter@ == all[i as int]);
        assert(guids[i as int] == adapter@.guid);
        let name = match canonical_guid(adapter.interface_guid.as_str()) {
            Ok(name) => name,
            Err(reason) => {
                proof {
                    lemma_adapters_fault(all, i + 1, all.len() as int);
                }
                return Err(DnsConfigurationError::InvalidSnapshot(reason.to_owned()));
            },
        };
        let duplicate = already_seen(&seen, name.as_str());
        proof {
            if duplicate {
                let j = choose|j: int| 0 <= j < seen@.len() && (#[trigger] seen@[j])@ == name@;
                assert(canonical(guids[j]) == Ok::<Seq<char>, Seq<char>>(name@));
            }
            assert(duplicate == named_before(guids, i as int, name@));
        }
        if duplicate {
            proof {
                lemma_adapters_fault(all, i + 1, all.len() as int);
            }
            return Err(
                DnsConfigurationError::InvalidSnapshot("duplicate interface GUID".to_owned()),
            );
        }
        if let Some(reason) = check_adapter(adapter) {
            proof {
                lemma_adapters_fault(all, i + 1, all.len() as int);
            }
            return Err(DnsConfigurationError::InvalidSnapshot(reason.to_owned()));
        }
        seen.push(name);
        i += 1;
    }
    Ok(())
}

/// The address of the local listener for a stack.
pub open spec fn listener(family: DnsFamily) -> IpAddr {
    match family {
        DnsFamily::Ipv4 => spec_loopback_ipv4(),
        DnsFamily::Ipv6 => spec_loopback_ipv6(),
    }
}

/// What is wrong with the servers that are asked for: the first that is not a local
/// listener, or their number.
pub open spec fn loopback_fault(desired: Seq<IpAddr>) -> Option<Seq<char>> {
    if desired.len() == 0 || desired.len() > 2 {
        Some("the loopback DNS list must contain one IPv4 and/or one IPv6 listener"@)
    } else if desired[0] != listener(DnsFamily::Ipv4) && desired[0] != listener(DnsFamily::Ipv6) {
        Some(desired[0].spec_text())
    } else if desired.len() == 2 && desired[1] != listener(DnsFamily::Ipv4) && desired[1]
        != listener(DnsFamily::Ipv6) {
        Some(desired[1].spec_text())
    } else {
        None
    }
}

/// The servers that a stack is to have.
pub open spec fn wanted(desired: Seq<IpAddr>, family: DnsFamily) -> Seq<IpAddr> {
    if desired.contains(listener(family)) {
        seq![listener(family)]
    } else {
        Seq::empty()
    }
}

/// The servers that are asked for, in order and each once.
pub open spec fn normalized(desired: Seq<IpAddr>) -> Seq<IpAddr> {
    wanted(desired, DnsFamily::Ipv4) + wanted(desired, DnsFamily::Ipv6)
}

fn asked_for(desired: &[IpAddr], family: DnsFamily) -> (result: Vec<IpAddr>)
    ensures
        result@ == wanted(desired@, family),
{
    let address = match family {
        DnsFamily::Ipv4 => loopback_ipv4(),
        DnsFamily::Ipv6 => loopback_ipv6(),
    };
    let mut i: usize = 0;
    while i < desired.len()
        invariant
            i <= desired.len(),
            address == listener(family),
            forall|j: int| 0 <= j < i ==> desired@[j] != address,
        decreases desired.len() - i,
    {
        if desired[i] == address {
            assert(desired@.contains(address));
            let mut own: Vec<IpAddr> = Vec::new();
            own.push(address);
            assert(own@ =~= wanted(desired@, family));
            return own;
        }
        i += 1;
    }
    let none: Vec<IpAddr> = Vec::new();
    assert(none@ =~= wanted(desired@, family));
    none
}

/// Puts the servers that are asked for in order; only the local listeners are
/// accepted.
pub fn normalized_loopback_servers(desired: &[IpAddr]) -> (result: Result<
    Vec<IpAddr>,
    DnsConfigurationError,
>)
    ensures
        match loopback_fault(desired@) {
            None => result matches Ok(servers) && servers@ == normalized(desired@),
            Some(address) => result matches Err(error) && error@ == (
            ConfigurationFault::InvalidLoopbackServer { address }),
        },
{
    if desired.len() == 0 || desired.len() > 2 {
        return Err(
            DnsConfigurationError::InvalidLoopbackServer {
                address:
                    "the loopback DNS list must contain one IPv4 and/or one IPv6 listener".to_owned(),
            },
        );
    }
    let mut i: usize = 0;
    while i < desired.len()
        invariant
            i <= desired.len() <= 2,
            desired.len() > 0,
            forall|j: int|
                0 <= j < i ==> desired@[j] == listener(DnsFamily::Ipv4) || desired@[j] == listener(
                    DnsFamily::Ipv6,
                ),
        decreases desired.len() - i,
    {
        let server = desired[i];
        if server != loopback_ipv4() && server != loopback_ipv6() {
            return Err(
                DnsConfigurationError::InvalidLoopbackServer { address: server.text() },
            );
        }
        i += 1;
    }
    let mut servers = asked_for(desired, DnsFamily::Ipv4);
    let mut others = asked_for(desired, DnsFamily::Ipv6);
    servers.append(&mut others);
    assert(servers@ =~= normalized(desired@));
    Ok(servers)
}

/// Where an interface belongs in a list that is ordered by identifier: behind all
/// that do not come after it.
pub open spec fn adapter_place(ordered: Seq<AdapterView>, guid: Seq<char>) -> int
    decreases ordered.len(),
{
    if ordered.len() > 0 && !text_before(guid, ordered[0].guid) {
        1 + adapter_place(ordered.skip(1), guid)
    } else {
        0
    }
}

/// Interfaces in the order of their identifiers, as they are spelled.
pub open spec fn by_guid(adapters: Seq<AdapterView>) -> Seq<AdapterView>
    decreases adapters.len(),
{
    if adapters.len() == 0 {
        Seq::empty()
    } else {
        let rest = by_guid(adapters.drop_last());
        rest.insert(adapter_place(rest, adapters.last().guid), adapters.last())
    }
}

/// The interfaces at some places of a list.
spec fn picked(adapters: Seq<AdapterView>, order: Seq<usize>) -> Seq<AdapterView> {
    Seq::new(order.len(), |k: int| adapters[order[k] as int])
}

fn find_place(adapters: &Vec<AdapterDnsSnapshot>, order: &Vec<usize>, guid: &str) -> (result: usize)
    requires
        forall|k: int| 0 <= k < order@.len() ==> (#[trigger] order@[k]) < adapters@.len(),
    ensures
        result <= order@.len(),
        result == adapter_place(picked(adapter_views(adapters@), order@), guid@),
{
    let ghost all = picked(adapter_views(adapters@), order@);
    let mut i: usize = 0;
    assert(all.skip(0) =~= all);
    while i < order.len() && !comes_before(guid, adapters[order[i]].interface_guid.as_str())
        invariant
            i <= order.len(),
            all == picked(adapter_views(adapters@), order@),
            forall|k: int| 0 <= k < order@.len() ==> (#[trigger] order@[k]) < adapters@.len(),
            adapter_place(all, guid@) == i + adapter_place(all.skip(i as int), guid@),
        decreases order.len() - i,
    {
        assert(all.skip(i as int).skip(1) =~= all.skip(i + 1));
        assert(all.skip(i as int)[0] == all[i as int]);
        i += 1;
    }
    if i < order.len() {
        assert(all.skip(i as int)[0] == all[i as int]);
    }
    i
}

fn order_by_guid(adapters: &Vec<AdapterDnsSnapshot>) -> (result: Vec<usize>)
    ensures
        forall|k: int| 0 <= k < result@.len() ==> (#[trigger] result@[k]) < adapters@.len(),
        picked(adapter_views(adapters@), result@) == by_guid(adapter_views(adapters@)),
{
    let ghost all = adapter_views(adapters@);
    let mut order: Vec<usize> = Vec::new();
    let mut i: usize = 0;
    assert(picked(all, order@) =~= by_guid(all.take(0)));
    while i < adapters.len()
        invariant
            i <= adapters.len(),
            all == adapter_views(adapters@),
            forall|k: int| 0 <= k < order@.len() ==> (#[trigger] order@[k]) < adapters@.len(),
            picked(all, order@) == by_guid(all.take(i as int)),
        decreases adapters.len() - i,
    {
        let ghost before = order@;
        let at = find_place(adapters, &order, adapters[i].interface_guid.as_str());
        order.insert(at, i);
        proof {
            assert(all.take(i + 1).drop_last() =~= all.take(i as int));
            assert(picked(all, order@) =~= picked(all, before).insert(at as int, all[i as int]));
        }
        i += 1;
    }
    assert(all.take(i as int) =~= all);
    order
}

/// What becomes of a stack.
pub ghost enum StackDecision {
    Change(OperationView),
    Skip(SkipView),
}

/// What becomes of a stack that is to have some servers.
pub open spec fn decided(
    adapter: AdapterView,
    name: Seq<char>,
    family: DnsFamily,
    desired: Seq<IpAddr>,
) -> StackDecision {
    let original = match family {
        DnsFamily::Ipv4 => adapter.ipv4,
        DnsFamily::Ipv6 => adapter.ipv6,
    };
    if desired.len() == 0 {
        StackDecision::Skip(
            SkipView { guid: name, family, reason: DnsSkipReason::NoLoopbackServer },
        )
    } else if original == (SettingView::Static { servers: desired }) {
        StackDecision::Skip(SkipView { guid: name, family, reason: DnsSkipReason::AlreadyApplied })
    } else {
        match original {
            SettingView::Unavailable { reason } => StackDecision::Skip(
                SkipView { guid: name, family, reason: DnsSkipReason::Unavailable(reason) },
            ),
            _ => StackDecision::Change(
                OperationView { guid: name, index: adapter.index, family, original, desired },
            ),
        }
    }
}

/// A plan with one more decision.
pub open spec fn with_decision(
    plan: (Seq<OperationView>, Seq<SkipView>),
    decision: StackDecision,
) -> (Seq<OperationView>, Seq<SkipView>) {
    match decision {
        StackDecision::Change(operation) => (plan.0.push(operation), plan.1),
        StackDecision::Skip(skip) => (plan.0, plan.1.push(skip)),
    }
}

/// The name of an interface whose identifier is in order.
pub open spec fn name_of(adapter: AdapterView) -> Seq<char> {
    canonical(adapter.guid)->Ok_0
}

/// What becomes of the stacks of the first `n` interfaces.
pub open spec fn decisions(adapters: Seq<AdapterView>, desired: Seq<IpAddr>, n: int) -> (
    Seq<OperationView>,
    Seq<SkipView>,
)
    decreases n,
{
    if n <= 0 {
        (Seq::empty(), Seq::empty())
    } else {
        let adapter = adapters[n - 1];
        let first = with_decision(
            decisions(adapters, desired, n - 1),
            decided(adapter, name_of(adapter), DnsFamily::Ipv4, wanted(desired, DnsFamily::Ipv4)),
        );
        with_decision(
            first,
            decided(adapter, name_of(adapter), DnsFamily::Ipv6, wanted(desired, DnsFamily::Ipv6)),
        )
    }
}

fn append_stack_plan(
    operations: &mut Vec<DnsOperation>,
    skipped: &mut Vec<DnsSkippedStack>,
    adapter: &AdapterDnsSnapshot,
    name: &str,
    family: DnsFamily,
    desired: Vec<IpAddr>,
)
    ensures
        (operation_views(final(operations)@), skip_views(final(skipped)@)) == with_decision(
            (operation_views(old(operations)@), skip_views(old(skipped)@)),
            decided(adapter@, name@, family, desired@),
        ),
{
    let ghost before = operations@;
    let ghost left = skipped@;
    let original = match family {
        DnsFamily::Ipv4 => &adapter.ipv4,
        DnsFamily::Ipv6 => &adapter.ipv6,
    };
    let reason = if desired.len() == 0 {
        Some(DnsSkipReason::NoLoopbackServer)
    } else if original.is_static(desired.as_slice()) {
        Some(DnsSkipReason::AlreadyApplied)
    } else {
        match original {
            DnsSetting::Unavailable { reason } => Some(DnsSkipReason::Unavailable(*reason)),
            _ => None,
        }
    };
    match reason {
        Some(reason) => {
            let skip = DnsSkippedStack { interface_guid: name.to_owned(), family, reason };
            skipped.push(skip);
            assert(skip_views(skipped@) =~= skip_views(left).push(skip@));
        },
        None => {
            let operation = DnsOperation {
                interface_guid: name.to_owned(),
                interface_index: adapter.interface_index,
                family,
                original: original.copied(),
                desired_servers: desired,
            };
            operations.push(operation);
            assert(operation_views(operations@) =~= operation_views(before).push(operation@));
        },
    }
}

/// The JSON of a list of addresses, without its brackets.
pub open spec fn servers_json(servers: Seq<IpAddr>) -> Seq<char>
    decreases servers.len(),
{
    if servers.len() == 0 {
        Seq::empty()
    } else if servers.len() == 1 {
        json_string(servers[0].spec_text())
    } else {
        servers_json(servers.drop_last()) + ","@ + json_string(servers.last().spec_text())
    }
}

/// Writes a list of addresses, without its brackets.
pub fn write_servers(servers: &[IpAddr]) -> (result: String)
    ensures
        result@ == servers_json(servers@),
{
    let mut text = String::new();
    let mut i: usize = 0;
    while i < servers.len()
        invariant
            i <= servers.len(),
            text@ == servers_json(servers@.take(i as int)),
        decreases servers.len() - i,
    {
        if i > 0 {
            text.append(",");
        }
        text.append(json_text(servers[i].text().as_str()).as_str());
        proof {
            let now = servers@.take(i + 1);
            assert(now.drop_last() =~= servers@.take(i as int));
            assert(now.last() == servers@[i as int]);
            if i == 0 {
                assert(text@ =~= json_string(servers@[0].spec_text()));
            }
        }
        i += 1;
    }
    assert(servers@.take(i as int) =~= servers@);
    text
}

/// The JSON of a setting.
pub open spec fn setting_json(setting: SettingView) -> Seq<char> {
    match setting {
        SettingView::Automatic => "\"automatic\""@,
        SettingView::Static { servers } => "{\"static\":{\"servers\":["@ + servers_json(servers)
            + "]}}"@,
        SettingView::Unavailable { reason } => match reason {
            DnsUnavailableReason::QueryFailed { code } =>
            "{\"unavailable\":{\"reason\":{\"query_failed\":{\"code\":"@ + decimal(code as nat)
                + "}}}}"@,
            DnsUnavailableReason::InvalidData =>
            "{\"unavailable\":{\"reason\":\"invalid_data\"}}"@,
            DnsUnavailableReason::Unsupported =>
            "{\"unavailable\":{\"reason\":\"unsupported\"}}"@,
        },
    }
}

/// Writes a setting.
pub fn write_setting(setting: &DnsSetting) -> (result: String)
    ensures
        result@ == setting_json(setting@),
{
    match setting {
        DnsSetting::Automatic => "\"automatic\"".to_owned(),
        DnsSetting::Static { servers } => join3(
            "{\"static\":{\"servers\":[",
            write_servers(servers.as_slice()).as_str(),
            "]}}",
        ),
        DnsSetting::Unavailable { reason } => match reason {
            DnsUnavailableReason::QueryFailed { code } => join3(
                "{\"unavailable\":{\"reason\":{\"query_failed\":{\"code\":",
                decimal_text(*code as u64).as_str(),
                "}}}}",
            ),
            DnsUnavailableReason::InvalidData => {
                "{\"unavailable\":{\"reason\":\"invalid_data\"}}".to_owned()
            },
            DnsUnavailableReason::Unsupported => {
                "{\"unavailable\":{\"reason\":\"unsupported\"}}".to_owned()
            },
        },
    }
}

/// The JSON of what identifies an interface and of its state.
pub open spec fn identity_json(
    guid: Seq<char>,
    index: u32,
    kind: u32,
    operational_status: u32,
    media_connect_state: u32,
) -> Seq<char> {
    "{\"interface_guid\":"@ + json_string(guid) + ",\"interface_index\":"@ + decimal(index as nat)
        + ",\"interface_type\":"@ + decimal(kind as nat) + ",\"operational_status\":"@ + decimal(
        operational_status as nat,
    ) + ",\"media_connect_state\":"@ + decimal(media_connect_state as nat)
}

/// Writes what identifies an interface and its state.
pub fn write_identity(
    guid: &str,
    index: u32,
    kind: u32,
    operational_status: u32,
    media_connect_state: u32,
) -> (result: String)
    ensures
        result@ == identity_json(guid@, index, kind, operational_status, media_connect_state),
{
    let mut text = join5(
        "{\"interface_guid\":",
        json_text(guid).as_str(),
        ",\"interface_index\":",
        decimal_text(index as u64).as_str(),
        ",\"interface_type\":",
    );
    text.append(decimal_text(kind as u64).as_str());
    text.append(",\"operational_status\":");
    text.append(decimal_text(operational_status as u64).as_str());
    text.append(",\"media_connect_state\":");
    text.append(decimal_text(media_connect_state as u64).as_str());
    text
}

/// The JSON of the settings of an interface.
pub open spec fn adapter_json(adapter: AdapterView) -> Seq<char> {
    identity_json(
        adapter.guid,
        adapter.index,
        adapter.kind,
        adapter.operational_status,
        adapter.media_connect_state,
    ) + ",\"ipv4\":"@ + setting_json(adapter.ipv4) + ",\"ipv6\":"@ + setting_json(adapter.ipv6)
        + "}"@
}

/// The JSON of interfaces, without the brackets of the list.
pub open spec fn adapters_json(adapters: Seq<AdapterView>) -> Seq<char>
    decreases adapters.len(),
{
    if adapters.len() == 0 {
        Seq::empty()
    } else if adapters.len() == 1 {
        adapter_json(adapters[0])
    } else {
        adapters_json(adapters.drop_last()) + ","@ + adapter_json(adapters.last())
    }
}

/// The JSON of a snapshot and of the servers that are asked for.
pub open spec fn generation_json(snapshot: SnapshotView, desired: Seq<IpAddr>) -> Seq<char> {
    "{\"snapshot\":{\"source\":"@ + json_string(snapshot.source) + ",\"sampled_at_unix_secs\":"@
        + decimal(snapshot.sampled_at as nat) + ",\"adapters\":["@ + adapters_json(
        snapshot.adapters,
    ) + "]},\"desired\":["@ + servers_json(desired) + "]}"@
}

/// The name of a plan: the digest of what it is made from.
pub open spec fn generation(snapshot: SnapshotView, desired: Seq<IpAddr>) -> Seq<char> {
    hex_of(sha256(vstd::utf8::encode_utf8(generation_json(snapshot, desired))))
}

fn write_adapters(adapters: &Vec<AdapterDnsSnapshot>) -> (result: String)
    ensures
        result@ == adapters_json(adapter_views(adapters@)),
{
    let ghost all = adapter_views(adapters@);
    let mut text = String::new();
    let mut i: usize = 0;
    while i < adapters.len()
        invariant
            i <= adapters.len(),
            all == adapter_views(adapters@),
            text@ == adapters_json(all.take(i as int)),
        decreases adapters.len() - i,
    {
        if i > 0 {
            text.append(",");
        }
        let adapter = &adapters[i];
        let mut own = write_identity(
            adapter.interface_guid.as_str(),
            adapter.interface_index,
            adapter.interface_type,
            adapter.operational_status,
            adapter.media_connect_state,
        );
        own.append(",\"ipv4\":");
        own.append(write_setting(&adapter.ipv4).as_str());
        own.append(",\"ipv6\":");
        own.append(write_setting(&adapter.ipv6).as_str());
        own.append("}");
        assert(own@ == adapter_json(all[i as int]));
        text.append(own.as_str());
        proof {
            let now = all.take(i + 1);
            assert(now.drop_last() =~= all.take(i as int));
            assert(now.last() == all[i as int]);
            if i == 0 {
                assert(text@ =~= adapter_json(all[0]));
            }
        }
        i += 1;
    }
    assert(all.take(i as int) =~= all);
    text
}

/// The name of a plan.
pub fn generation_for(snapshot: &DnsSnapshot, desired: &[IpAddr]) -> (result: String)
    ensures
        result@ == generation(snapshot@, desired@),
{
    let mut text = join5(
        "{\"snapshot\":{\"source\":",
        json_text(snapshot.source.as_str()).as_str(),
        ",\"sampled_at_unix_secs\":",
        decimal_text(snapshot.sampled_at_unix_secs).as_str(),
        ",\"adapters\":[",
    );
    text.append(write_adapters(&snapshot.adapters).as_str());
    text.append("]},\"desired\":[");
    text.append(write_servers(desired).as_str());
    text.append("]}");
    sha256_hex(text.as_str().as_bytes())
}

/// Whether a stack that is left as it is has the servers already.
pub open spec fn any_applied(skipped: Seq<SkipView>) -> bool {
    exists|i: int|
        0 <= i < skipped.len() && (#[trigger] skipped[i]).reason == DnsSkipReason::AlreadyApplied
}

/// What is to be changed.
pub open spec fn plan_outcome(snapshot: SnapshotView, desired: Seq<IpAddr>) -> Result<
    PlanView,
    ConfigurationFault,
> {
    match snapshot_fault(snapshot) {
        Some(reason) => Err(ConfigurationFault::InvalidSnapshot(reason)),
        None => match loopback_fault(desired) {
            Some(address) => Err(ConfigurationFault::InvalidLoopbackServer { address }),
            None => {
                let (operations, skipped) = decisions(
                    by_guid(snapshot.adapters),
                    desired,
                    snapshot.adapters.len() as int,
                );
                if operations.len() == 0 && !any_applied(skipped) {
                    Err(ConfigurationFault::NoApplicableStacks)
                } else {
                    Ok(
                        PlanView {
                            generation: generation(snapshot, normalized(desired)),
                            operations,
                            skipped,
                        },
                    )
                }
            },
        },
    }
}

proof fn lemma_adapter_place(ordered: Seq<AdapterView>, guid: Seq<char>)
    ensures
        0 <= adapter_place(ordered, guid) <= ordered.len(),
    decreases ordered.len(),
{
    if ordered.len() > 0 && !text_before(guid, ordered[0].guid) {
        lemma_adapter_place(ordered.skip(1), guid);
    }
}

/// Ordering the interfaces keeps exactly those that there are.
pub proof fn ordering_keeps_the_interfaces(adapters: Seq<AdapterView>)
    ensures
        by_guid(adapters).len() == adapters.len(),
        by_guid(adapters).to_multiset() == adapters.to_multiset(),
    decreases adapters.len(),
{
    broadcast use vstd::seq_lib::group_to_multiset_ensures;

    if adapters.len() > 0 {
        let rest = by_guid(adapters.drop_last());
        ordering_keeps_the_interfaces(adapters.drop_last());
        let at = adapter_place(rest, adapters.last().guid);
        lemma_adapter_place(rest, adapters.last().guid);
        vstd::seq_lib::to_multiset_insert(rest, at, adapters.last());
        assert(adapters =~= adapters.drop_last().push(adapters.last()));
    } else {
        assert(by_guid(adapters) =~= adapters);
    }
}

proof fn lemma_names_are_valid(adapters: Seq<AdapterView>, n: int)
    requires
        adapters_fault(adapters, n) is None,
        0 <= n <= adapters.len(),
    ensures
        forall|i: int| 0 <= i < n ==> canonical((#[trigger] adapters[i]).guid) is Ok,
    decreases n,
{
    if n > 0 {
        lemma_names_are_valid(adapters, n - 1);
    }
}

fn applied_somewhere(skipped: &Vec<DnsSkippedStack>) -> (result: bool)
    ensures
        result == any_applied(skip_views(skipped@)),
{
    let ghost all = skip_views(skipped@);
    let mut i: usize = 0;
    while i < skipped.len()
        invariant
            i <= skipped.len(),
            all == skip_views(skipped@),
            forall|j: int| 0 <= j < i ==> (#[trigger] all[j]).reason != DnsSkipReason::AlreadyApplied,
        decreases skipped.len() - i,
    {
        assert(all[i as int] == skipped@[i as int]@);
        if skipped[i].reason == DnsSkipReason::AlreadyApplied {
            assert(all[i as int].reason == DnsSkipReason::AlreadyApplied);
            return true;
        }
        i += 1;
    }
    false
}

/// Decides on both stacks of every interface.
fn decide(adapters: &Vec<AdapterDnsSnapshot>, desired_servers: &[IpAddr]) -> (result: (
    Vec<DnsOperation>,
    Vec<DnsSkippedStack>,
))
    requires
        adapters_fault(adapter_views(adapters@), adapters@.len() as int) is None,
    ensures
        (operation_views(result.0@), skip_views(result.1@)) == decisions(
            by_guid(adapter_views(adapters@)),
            desired_servers@,
            adapters@.len() as int,
        ),
{
    let ghost all = adapter_views(adapters@);
    let ghost ordered = by_guid(all);
    let order = order_by_guid(adapters);
    proof {
        lemma_names_are_valid(all, all.len() as int);
        ordering_keeps_the_interfaces(all);
    }
    let mut operations: Vec<DnsOperation> = Vec::new();
    let mut skipped: Vec<DnsSkippedStack> = Vec::new();
    let mut i: usize = 0;
    assert(operation_views(operations@) =~= Seq::empty());
    assert(skip_views(skipped@) =~= Seq::empty());
    while i < order.len()
        invariant
            i <= order.len(),
            all == adapter_views(adapters@),
            ordered == picked(all, order@),
            forall|k: int|
                0 <= k < order@.len() ==> (#[trigger] order@[k]) < adapters@.len(),
            forall|k: int| 0 <= k < all.len() ==> canonical((#[trigger] all[k]).guid) is Ok,
            (operation_views(operations@), skip_views(skipped@)) == decisions(
                ordered,
                desired_servers@,
                i as int,
            ),
        decreases order.len() - i,
    {
        let adapter = &adapters[order[i]];
        assert(adapter@ == all[order@[i as int] as int]);
        assert(ordered[i as int] == adapter@);
        let name = match canonical_guid(adapter.interface_guid.as_str()) {
            Ok(name) => name,
            Err(reason) => {
                assert(false);
                reason.to_owned()
            },
        };
        append_stack_plan(
            &mut operations,
            &mut skipped,
            adapter,
            name.as_str(),
            DnsFamily::Ipv4,
            asked_for(desired_servers, DnsFamily::Ipv4),
        );
        append_stack_plan(
            &mut operations,
            &mut skipped,
            adapter,
            name.as_str(),
            DnsFamily::Ipv6,
            asked_for(desired_servers, DnsFamily::Ipv6),
        );
        i += 1;
    }
    assert(order@.len() == all.len());
    (operations, skipped)
}

/// Makes a plan: for each interface and stack what is to be changed, or why it is
/// left as it is. Only the local listeners are accepted as servers.
pub fn plan(snapshot: &DnsSnapshot, desired_servers: &[IpAddr]) -> (result: Result<
    DnsApplyPlan,
    DnsConfigurationError,
>)
    ensures
        match plan_outcome(snapshot@, desired_servers@) {
            Ok(plan) => result matches Ok(own) && own@ == plan,
            Err(fault) => result matches Err(error) && error@ == fault,
        },
{
    if let Err(error) = validate_snapshot(snapshot) {
        return Err(error);
    }
    let desired = match normalized_loopback_servers(desired_servers) {
        Ok(desired) => desired,
        Err(error) => {
            return Err(error);
        },
    };
    let (operations, skipped) = decide(&snapshot.adapters, desired_servers);
    let generation = generation_for(snapshot, desired.as_slice());
    if operations.len() == 0 && !applied_somewhere(&skipped) {
        return Err(DnsConfigurationError::NoApplicableStacks);
    }
    Ok(DnsApplyPlan { generation, operations, skipped })
}

proof fn lemma_decisions(adapters: Seq<AdapterView>, desired: Seq<IpAddr>, n: int)
    requires
        0 <= n <= adapters.len(),
    ensures
        decisions(adapters, desired, n).0.len() + decisions(adapters, desired, n).1.len() == 2 * n,
        forall|i: int|
            0 <= i < decisions(adapters, desired, n).0.len() ==> safe_operation(
                #[trigger] decisions(adapters, desired, n).0[i],
            ),
    decreases n,
{
    if n > 0 {
        lemma_decisions(adapters, desired, n - 1);
    }
}

/// Whether an operation gives a stack its local listener, in place of a setting that
/// was read and that can be given back.
pub open spec fn safe_operation(operation: OperationView) -> bool {
    &&& operation.desired == seq![listener(operation.family)]
    &&& !(operation.original is Unavailable)
    &&& operation.original != (SettingView::Static { servers: operation.desired })
}

/// A plan decides on both stacks of every interface, changes only stacks whose
/// setting is known, and gives them no server but their local listener.
pub proof fn plans_cover_every_stack(snapshot: SnapshotView, desired: Seq<IpAddr>)
    requires
        plan_outcome(snapshot, desired) is Ok,
    ensures
        ({
            let plan = plan_outcome(snapshot, desired)->Ok_0;
            &&& plan.operations.len() + plan.skipped.len() == 2 * snapshot.adapters.len()
            &&& forall|i: int|
                0 <= i < plan.operations.len() ==> safe_operation(#[trigger] plan.operations[i])
        }),
{
    ordering_keeps_the_interfaces(snapshot.adapters);
    lemma_decisions(by_guid(snapshot.adapters), desired, snapshot.adapters.len() as int);
}

/// Whether no stack occurs twice.
pub open spec fn distinct_stacks(operations: Seq<OperationView>) -> bool {
    forall|i: int, j: int|
        0 <= i < j < operations.len() ==> (#[trigger] operations[i]).guid != (
        #[trigger] operations[j]).guid || operations[i].family != operations[j].family
}

/// Whether the identifiers of interfaces are in order and name each once.
spec fn distinct_names(adapters: Seq<AdapterView>) -> bool {
    &&& forall|i: int| 0 <= i < adapters.len() ==> canonical((#[trigger] adapters[i]).guid) is Ok
    &&& forall|i: int, j: int|
        0 <= i < j < adapters.len() ==> name_of(#[trigger] adapters[i]) != name_of(
            #[trigger] adapters[j],
        )
}

proof fn lemma_snapshot_names(adapters: Seq<AdapterView>, n: int)
    requires
        0 <= n <= adapters.len(),
        adapters_fault(adapters, n) is None,
    ensures
        distinct_names(adapters.take(n)),
    decreases n,
{
    if n > 0 {
        lemma_snapshot_names(adapters, n - 1);
        let front = adapters.take(n - 1);
        let all = adapters.take(n);
        let last = adapters[n - 1];
        assert(adapter_fault(adapters, n - 1) is None);
        assert(!named_before(guids_of(adapters), n - 1, name_of(last)));
        assert forall|i: int| 0 <= i < n implies canonical((#[trigger] all[i]).guid) is Ok by {
            if i < n - 1 {
                assert(front[i] == all[i]);
            }
        }
        assert forall|i: int, j: int| 0 <= i < j < n implies name_of(#[trigger] all[i]) != name_of(
            #[trigger] all[j],
        ) by {
            assert(front[i] == all[i]);
            if j < n - 1 {
                assert(front[j] == all[j]);
            } else {
                assert(guids_of(adapters)[i] == all[i].guid);
            }
        }
    }
}

#[verifier::rlimit(60)]
#[verifier::spinoff_prover]
proof fn lemma_ordered_names(adapters: Seq<AdapterView>)
    requires
        distinct_names(adapters),
    ensures
        distinct_names(by_guid(adapters)),
        by_guid(adapters).len() == adapters.len(),
        forall|k: int|
            0 <= k < by_guid(adapters).len() ==> adapters.contains(#[trigger] by_guid(adapters)[k]),
    decreases adapters.len(),
{
    if adapters.len() > 0 {
        let front = adapters.drop_last();
        let last = adapters.last();
        assert(distinct_names(front)) by {
            assert forall|i: int| 0 <= i < front.len() implies canonical(
                (#[trigger] front[i]).guid,
            ) is Ok by {
                assert(front[i] == adapters[i]);
            }
            assert forall|i: int, j: int| 0 <= i < j < front.len() implies name_of(
                #[trigger] front[i],
            ) != name_of(#[trigger] front[j]) by {
                assert(front[i] == adapters[i]);
                assert(front[j] == adapters[j]);
            }
        }
        lemma_ordered_names(front);
        let rest = by_guid(front);
        let at = adapter_place(rest, last.guid);
        lemma_adapter_place(rest, last.guid);
        let after = by_guid(adapters);
        assert(after =~= rest.insert(at, last));
        assert forall|k: int| 0 <= k < rest.len() implies name_of(#[trigger] rest[k]) != name_of(
            last,
        ) && adapters.contains(rest[k]) by {
            assert(front.contains(rest[k]));
            let m = choose|m: int| 0 <= m < front.len() && front[m] == rest[k];
            assert(adapters[m] == rest[k]);
            assert(adapters[adapters.len() - 1] == last);
        }
        assert forall|k: int| 0 <= k < after.len() implies adapters.contains(#[trigger] after[k])
            && canonical(after[k].guid) is Ok by {
            if k < at {
                assert(after[k] == rest[k]);
            } else if k == at {
                assert(adapters[adapters.len() - 1] == last);
            } else {
                assert(after[k] == rest[k - 1]);
            }
        }
        assert forall|i: int, j: int| 0 <= i < j < after.len() implies name_of(
            #[trigger] after[i],
        ) != name_of(#[trigger] after[j]) by {
            if i < at {
                assert(after[i] == rest[i]);
            } else if i > at {
                assert(after[i] == rest[i - 1]);
            }
            if j < at {
                assert(after[j] == rest[j]);
            } else if j > at {
                assert(after[j] == rest[j - 1]);
            }
        }
    }
}

proof fn lemma_distinct_decisions(adapters: Seq<AdapterView>, desired: Seq<IpAddr>, n: int)
    requires
        0 <= n <= adapters.len(),
        distinct_names(adapters),
    ensures
        distinct_stacks(decisions(adapters, desired, n).0),
        forall|k: int|
            0 <= k < decisions(adapters, desired, n).0.len() ==> exists|m: int|
                0 <= m < n && (#[trigger] decisions(adapters, desired, n).0[k]).guid == name_of(
                    #[trigger] adapters[m],
                ),
    decreases n,
{
    if n > 0 {
        lemma_distinct_decisions(adapters, desired, n - 1);
        let before = decisions(adapters, desired, n - 1).0;
        let after = decisions(adapters, desired, n).0;
        let last = adapters[n - 1];
        assert forall|k: int| 0 <= k < after.len() implies exists|m: int|
            0 <= m < n && (#[trigger] after[k]).guid == name_of(#[trigger] adapters[m]) by {
            if k < before.len() {
                assert(after[k] == before[k]);
                let m = choose|m: int|
                    0 <= m < n - 1 && before[k].guid == name_of(#[trigger] adapters[m]);
                assert(after[k].guid == name_of(adapters[m]));
            } else {
                assert(after[k].guid == name_of(adapters[n - 1]));
            }
        }
        assert forall|i: int, j: int| 0 <= i < j < after.len() implies (#[trigger] after[i]).guid
            != (#[trigger] after[j]).guid || after[i].family != after[j].family by {
            if j < before.len() {
                assert(after[i] == before[i]);
                assert(after[j] == before[j]);
            } else if i < before.len() {
                assert(after[i] == before[i]);
                let m = choose|m: int|
                    0 <= m < n - 1 && before[i].guid == name_of(#[trigger] adapters[m]);
                assert(name_of(adapters[m]) != name_of(adapters[n - 1]));
            }
        }
    }
}

/// A plan changes no stack twice.
pub proof fn plans_change_each_stack_once(snapshot: SnapshotView, desired: Seq<IpAddr>)
    requires
        plan_outcome(snapshot, desired) is Ok,
    ensures
        distinct_stacks(plan_outcome(snapshot, desired)->Ok_0.operations),
{
    let adapters = snapshot.adapters;
    lemma_snapshot_names(adapters, adapters.len() as int);
    assert(adapters.take(adapters.len() as int) =~= adapters);
    lemma_ordered_names(adapters);
    lemma_distinct_decisions(by_guid(adapters), desired, adapters.len() as int);
}

/// The local listener of a stack: 127.0.0.1 or ::1.
pub open spec fn loopback_of(family: DnsFamily) -> IpAddr {
    match family {
        DnsFamily::Ipv4 => IpAddr::V4(Ipv4Addr { a: 127, b: 0, c: 0, d: 1 }),
        DnsFamily::Ipv6 => IpAddr::V6(
            Ipv6Addr { s0: 0, s1: 0, s2: 0, s3: 0, s4: 0, s5: 0, s6: 0, s7: 1 },
        ),
    }
}

/// The setting of a stack of an interface.
pub open spec fn setting_of(adapter: AdapterView, family: DnsFamily) -> SettingView {
    match family {
        DnsFamily::Ipv4 => adapter.ipv4,
        DnsFamily::Ipv6 => adapter.ipv6,
    }
}

/// Whether a decision is among those of a plan.
spec fn among(plan: (Seq<OperationView>, Seq<SkipView>), decision: StackDecision) -> bool {
    match decision {
        StackDecision::Change(operation) => plan.0.contains(operation),
        StackDecision::Skip(skip) => plan.1.contains(skip),
    }
}

/// The decision on a stack of an interface.
spec fn decision_on(adapter: AdapterView, desired: Seq<IpAddr>, family: DnsFamily) -> StackDecision {
    decided(adapter, name_of(adapter), family, wanted(desired, family))
}

proof fn lemma_with_decision(
    plan: (Seq<OperationView>, Seq<SkipView>),
    first: StackDecision,
    other: StackDecision,
)
    ensures
        among(with_decision(plan, first), other) <==> among(plan, other) || other == first,
{
    match first {
        StackDecision::Change(operation) => {
            let after = plan.0.push(operation);
            if let StackDecision::Change(sought) = other {
                assert(after[plan.0.len() as int] == operation);
                if plan.0.contains(sought) {
                    let i = plan.0.index_of(sought);
                    assert(after[i] == sought);
                }
                if after.contains(sought) && sought != operation {
                    let i = after.index_of(sought);
                    assert(plan.0[i] == sought);
                }
            }
        },
        StackDecision::Skip(skip) => {
            let after = plan.1.push(skip);
            if let StackDecision::Skip(sought) = other {
                assert(after[plan.1.len() as int] == skip);
                if plan.1.contains(sought) {
                    let i = plan.1.index_of(sought);
                    assert(after[i] == sought);
                }
                if after.contains(sought) && sought != skip {
                    let i = after.index_of(sought);
                    assert(plan.1[i] == sought);
                }
            }
        },
    }
}

proof fn lemma_decisions_among(
    adapters: Seq<AdapterView>,
    desired: Seq<IpAddr>,
    n: int,
    decision: StackDecision,
)
    requires
        0 <= n <= adapters.len(),
    ensures
        among(decisions(adapters, desired, n), decision) <==> exists|m: int, family: DnsFamily|
            0 <= m < n && decision == #[trigger] decision_on(adapters[m], desired, family),
    decreases n,
{
    if n > 0 {
        let before = decisions(adapters, desired, n - 1);
        let first = decision_on(adapters[n - 1], desired, DnsFamily::Ipv4);
        let second = decision_on(adapters[n - 1], desired, DnsFamily::Ipv6);
        lemma_decisions_among(adapters, desired, n - 1, decision);
        lemma_with_decision(before, first, decision);
        lemma_with_decision(with_decision(before, first), second, decision);
        if exists|m: int, family: DnsFamily|
            0 <= m < n && decision == #[trigger] decision_on(adapters[m], desired, family) {
            let (m, family) = choose|m: int, family: DnsFamily|
                0 <= m < n && decision == #[trigger] decision_on(adapters[m], desired, family);
            if m == n - 1 {
                match family {
                    DnsFamily::Ipv4 => {},
                    DnsFamily::Ipv6 => {},
                }
            } else {
                assert(decision == decision_on(adapters[m], desired, family));
            }
        }
        if decision == first {
            assert(decision == decision_on(adapters[n - 1], desired, DnsFamily::Ipv4));
        }
        if decision == second {
            assert(decision == decision_on(adapters[n - 1], desired, DnsFamily::Ipv6));
        }
    } else {
        match decision {
            StackDecision::Change(operation) => {
                assert(!Seq::<OperationView>::empty().contains(operation));
            },
            StackDecision::Skip(skip) => {
                assert(!Seq::<SkipView>::empty().contains(skip));
            },
        }
    }
}

proof fn lemma_in_order_contains(adapters: Seq<AdapterView>, i: int)
    requires
        0 <= i < adapters.len(),
    ensures
        by_guid(adapters).contains(adapters[i]),
        by_guid(adapters).len() == adapters.len(),
{
    let ordered = by_guid(adapters);
    ordering_keeps_the_interfaces(adapters);
    assert(ordered.contains(adapters[i])) by {
        broadcast use vstd::seq_lib::group_to_multiset_ensures;

        assert(adapters.to_multiset().count(adapters[i]) > 0);
    }
}

proof fn lemma_same_interface(snapshot: SnapshotView, i: int, other: AdapterView)
    requires
        snapshot_fault(snapshot) is None,
        0 <= i < snapshot.adapters.len(),
        by_guid(snapshot.adapters).contains(other),
        name_of(other) == name_of(snapshot.adapters[i]),
    ensures
        other == snapshot.adapters[i],
{
    let adapters = snapshot.adapters;
    let n = adapters.len() as int;
    lemma_snapshot_names(adapters, n);
    assert(adapters.take(n) =~= adapters);
    lemma_ordered_names(adapters);
    let m = by_guid(adapters).index_of(other);
    assert(adapters.contains(by_guid(adapters)[m]));
    let k = adapters.index_of(other);
    assert(adapters[k] == other);
    if k < i {
        assert(name_of(adapters[k]) != name_of(adapters[i]));
    } else if i < k {
        assert(name_of(adapters[i]) != name_of(adapters[k]));
    }
}

#[verifier::rlimit(60)]
#[verifier::spinoff_prover]
proof fn lemma_planned(
    snapshot: SnapshotView,
    desired: Seq<IpAddr>,
    i: int,
    family: DnsFamily,
    decision: StackDecision,
)
    requires
        snapshot_fault(snapshot) is None,
        0 <= i < snapshot.adapters.len(),
        match decision {
            StackDecision::Change(operation) => operation.guid == name_of(snapshot.adapters[i])
                && operation.family == family,
            StackDecision::Skip(skip) => skip.guid == name_of(snapshot.adapters[i]) && skip.family
                == family,
        },
    ensures
        among(
            decisions(by_guid(snapshot.adapters), desired, snapshot.adapters.len() as int),
            decision,
        ) <==> decision == decision_on(snapshot.adapters[i], desired, family),
{
    let adapters = snapshot.adapters;
    let ordered = by_guid(adapters);
    let n = adapters.len() as int;
    lemma_in_order_contains(adapters, i);
    lemma_decisions_among(ordered, desired, n, decision);
    if among(decisions(ordered, desired, n), decision) {
        let (m, other) = choose|m: int, other: DnsFamily|
            0 <= m < n && decision == #[trigger] decision_on(ordered[m], desired, other);
        assert(ordered.contains(ordered[m]));
        lemma_same_interface(snapshot, i, ordered[m]);
        assert(other == family);
    }
    if decision == decision_on(adapters[i], desired, family) {
        let m = ordered.index_of(adapters[i]);
        assert(decision == decision_on(ordered[m], desired, family));
    }
}

/// A plan changes a stack exactly where its listener is asked for and its setting is known
/// and not already that listener alone: to that listener, from the setting that it has.
/// Every other stack is skipped, for the one reason that holds of it.
pub proof fn plans_change_exactly_the_other_stacks(
    snapshot: SnapshotView,
    desired: Seq<IpAddr>,
    i: int,
    family: DnsFamily,
    code: DnsUnavailableReason,
)
    requires
        plan_outcome(snapshot, desired) is Ok,
        0 <= i < snapshot.adapters.len(),
    ensures
        ({
            let plan = plan_outcome(snapshot, desired)->Ok_0;
            let adapter = snapshot.adapters[i];
            let setting = setting_of(adapter, family);
            let name = canonical(adapter.guid)->Ok_0;
            let servers = seq![loopback_of(family)];
            let asked = desired.contains(loopback_of(family));
            let applied = setting == (SettingView::Static { servers });
            &&& canonical(adapter.guid) is Ok
            &&& plan.operations.contains(
                OperationView {
                    guid: name,
                    index: adapter.index,
                    family,
                    original: setting,
                    desired: servers,
                },
            ) <==> asked && !(setting is Unavailable) && !applied
            &&& plan.skipped.contains(
                SkipView { guid: name, family, reason: DnsSkipReason::AlreadyApplied },
            ) <==> asked && applied
            &&& plan.skipped.contains(
                SkipView { guid: name, family, reason: DnsSkipReason::NoLoopbackServer },
            ) <==> !asked
            &&& plan.skipped.contains(
                SkipView { guid: name, family, reason: DnsSkipReason::Unavailable(code) },
            ) <==> asked && setting == (SettingView::Unavailable { reason: code })
        }),
{
    let adapter = snapshot.adapters[i];
    let name = name_of(adapter);
    let setting = setting_of(adapter, family);
    lemma_snapshot_names(snapshot.adapters, snapshot.adapters.len() as int);
    assert(snapshot.adapters.take(snapshot.adapters.len() as int) =~= snapshot.adapters);
    assert(canonical(snapshot.adapters[i].guid) is Ok);
    lemma_planned(
        snapshot,
        desired,
        i,
        family,
        StackDecision::Change(
            OperationView {
                guid: name,
                index: adapter.index,
                family,
                original: setting,
                desired: seq![loopback_of(family)],
            },
        ),
    );
    lemma_planned(
        snapshot,
        desired,
        i,
        family,
        StackDecision::Skip(SkipView { guid: name, family, reason: DnsSkipReason::AlreadyApplied }),
    );
    lemma_planned(
        snapshot,
        desired,
        i,
        family,
        StackDecision::Skip(
            SkipView { guid: name, family, reason: DnsSkipReason::NoLoopbackServer },
        ),
    );
    lemma_planned(
        snapshot,
        desired,
        i,
        family,
        StackDecision::Skip(
            SkipView { guid: name, family, reason: DnsSkipReason::Unavailable(code) },
        ),
    );
    assert(seq![loopback_of(family)].len() == 1);
}

/// Of a snapshot in order a plan is made exactly where one or two servers are asked for,
/// none but 127.0.0.1 and ::1, and a stack whose listener is asked for has a setting that
/// is known.
pub proof fn plans_are_made_for_loopback_listeners(snapshot: SnapshotView, desired: Seq<IpAddr>)
    requires
        snapshot_fault(snapshot) is None,
    ensures
        ({
            let outcome = plan_outcome(snapshot, desired);
            let listeners = 1 <= desired.len() <= 2 && forall|k: int|
                0 <= k < desired.len() ==> #[trigger] desired[k] == loopback_of(DnsFamily::Ipv4)
                    || desired[k] == loopback_of(DnsFamily::Ipv6);
            let applicable = exists|i: int, family: DnsFamily|
                0 <= i < snapshot.adapters.len() && desired.contains(loopback_of(family)) && !(
                (#[trigger] setting_of(snapshot.adapters[i], family)) is Unavailable);
            &&& !listeners ==> (outcome matches Err(fault) && fault is InvalidLoopbackServer)
            &&& listeners && !applicable ==> (outcome matches Err(fault) && fault
                == ConfigurationFault::NoApplicableStacks)
            &&& listeners && applicable ==> outcome is Ok
        }),
{
    let adapters = snapshot.adapters;
    let ordered = by_guid(adapters);
    let n = adapters.len() as int;
    let made = decisions(ordered, desired, n);
    lemma_snapshot_names(adapters, n);
    assert(adapters.take(n) =~= adapters);
    lemma_ordered_names(adapters);
    let applicable = exists|i: int, family: DnsFamily|
        0 <= i < adapters.len() && desired.contains(loopback_of(family)) && !((
        #[trigger] setting_of(adapters[i], family)) is Unavailable);
    if loopback_fault(desired) is None {
        assert(forall|k: int|
            0 <= k < desired.len() ==> #[trigger] desired[k] == loopback_of(DnsFamily::Ipv4)
                || desired[k] == loopback_of(DnsFamily::Ipv6));
    } else if 1 <= desired.len() <= 2 {
        let k: int = if desired[0] != listener(DnsFamily::Ipv4) && desired[0] != listener(
            DnsFamily::Ipv6,
        ) {
            0
        } else {
            1
        };
        assert(desired[k] != loopback_of(DnsFamily::Ipv4) && desired[k] != loopback_of(
            DnsFamily::Ipv6,
        ));
    }
    if applicable {
        let (i, family) = choose|i: int, family: DnsFamily|
            0 <= i < adapters.len() && desired.contains(loopback_of(family)) && !((
            #[trigger] setting_of(adapters[i], family)) is Unavailable);
        assert(seq![loopback_of(family)].len() == 1);
        let decision = decision_on(adapters[i], desired, family);
        lemma_planned(snapshot, desired, i, family, decision);
        match decision {
            StackDecision::Change(operation) => {
                assert(made.0.contains(operation));
            },
            StackDecision::Skip(skip) => {
                let k = made.1.index_of(skip);
                assert(made.1[k].reason == DnsSkipReason::AlreadyApplied);
            },
        }
    } else {
        if made.0.len() > 0 {
            let operation = made.0[0];
            assert(among(made, StackDecision::Change(operation)));
            lemma_decisions_among(ordered, desired, n, StackDecision::Change(operation));
            let (m, family) = choose|m: int, family: DnsFamily|
                0 <= m < n && StackDecision::Change(operation) == #[trigger] decision_on(
                    ordered[m],
                    desired,
                    family,
                );
            assert(adapters.contains(ordered[m]));
            let k = adapters.index_of(ordered[m]);
            assert(!(setting_of(adapters[k], family) is Unavailable));
        }
        if any_applied(made.1) {
            let j = choose|j: int|
                0 <= j < made.1.len() && (#[trigger] made.1[j]).reason
                    == DnsSkipReason::AlreadyApplied;
            let skip = made.1[j];
            assert(among(made, StackDecision::Skip(skip)));
            lemma_decisions_among(ordered, desired, n, StackDecision::Skip(skip));
            let (m, family) = choose|m: int, family: DnsFamily|
                0 <= m < n && StackDecision::Skip(skip) == #[trigger] decision_on(
                    ordered[m],
                    desired,
                    family,
                );
            assert(adapters.contains(ordered[m]));
            let k = adapters.index_of(ordered[m]);
            assert(!(setting_of(adapters[k], family) is Unavailable));
        }
    }
}

/// Whether the setting of a stack is in order: a static one has from one to sixteen
/// servers, all of the family of the stack.
pub open spec fn setting_in_order(setting: SettingView, family: DnsFamily) -> bool {
    setting matches SettingView::Static { servers } ==> 1 <= servers.len() <= 16 && forall|k: int|
        0 <= k < servers.len() ==> ((#[trigger] servers[k]) is V4) == (family == DnsFamily::Ipv4)
}

proof fn lemma_adapters_in_order(adapters: Seq<AdapterView>, n: int)
    requires
        0 <= n <= adapters.len(),
    ensures
        adapters_fault(adapters, n) is None <==> {
            &&& forall|i: int|
                0 <= i < n ==> canonical((#[trigger] adapters[i]).guid) is Ok && adapters[i].index
                    != 0 && setting_in_order(adapters[i].ipv4, DnsFamily::Ipv4) && setting_in_order(
                    adapters[i].ipv6,
                    DnsFamily::Ipv6,
                )
            &&& forall|i: int, j: int|
                0 <= i < j < n ==> canonical((#[trigger] adapters[i]).guid) != canonical(
                    (#[trigger] adapters[j]).guid,
                )
        },
    decreases n,
{
    if n > 0 {
        lemma_adapters_in_order(adapters, n - 1);
        let last = adapters[n - 1];
        assert(setting_in_order(last.ipv4, DnsFamily::Ipv4) <==> setting_fault(
            last.ipv4,
            DnsFamily::Ipv4,
        ) is None);
        assert(setting_in_order(last.ipv6, DnsFamily::Ipv6) <==> setting_fault(
            last.ipv6,
            DnsFamily::Ipv6,
        ) is None);
        if let Ok(name) = canonical(last.guid) {
            if named_before(guids_of(adapters), n - 1, name) {
                let j = choose|j: int|
                    0 <= j < n - 1 && canonical(#[trigger] guids_of(adapters)[j]) == Ok::<
                        Seq<char>,
                        Seq<char>,
                    >(name);
                assert(canonical(adapters[j].guid) == canonical(adapters[n - 1].guid));
            } else {
                assert forall|i: int| 0 <= i < n - 1 implies canonical(
                    (#[trigger] adapters[i]).guid,
                ) != canonical(last.guid) by {
                    assert(guids_of(adapters)[i] == adapters[i].guid);
                }
            }
        }
    }
}

/// A snapshot is in order exactly where it comes from the one source and has at most 512
/// interfaces, each with an identifier of its own, an index other than zero and settings
/// in order.
pub proof fn snapshots_in_order_are_accepted(snapshot: SnapshotView)
    ensures
        snapshot_fault(snapshot) is None <==> {
            let adapters = snapshot.adapters;
            &&& snapshot.source == "windows_iphelper_interface_dns"@
            &&& adapters.len() <= 512
            &&& forall|i: int|
                0 <= i < adapters.len() ==> canonical((#[trigger] adapters[i]).guid) is Ok
                    && adapters[i].index != 0 && setting_in_order(
                    adapters[i].ipv4,
                    DnsFamily::Ipv4,
                ) && setting_in_order(adapters[i].ipv6, DnsFamily::Ipv6)
            &&& forall|i: int, j: int|
                0 <= i < j < adapters.len() ==> canonical((#[trigger] adapters[i]).guid)
                    != canonical((#[trigger] adapters[j]).guid)
        },
{
    lemma_adapters_in_order(snapshot.adapters, snapshot.adapters.len() as int);
}

/// The servers that are asked for are the IPv4 listener, if it is among them, and then the
/// IPv6 one, if it is.
pub proof fn asked_for_listeners_are_in_order(desired: Seq<IpAddr>)
    ensures
        ({
            let first = desired.contains(loopback_of(DnsFamily::Ipv4));
            let second = desired.contains(loopback_of(DnsFamily::Ipv6));
            let listed = normalized(desired);
            &&& listed.len() == (if first {
                1int
            } else {
                0
            }) + (if second {
                1int
            } else {
                0
            })
            &&& first ==> listed[0] == loopback_of(DnsFamily::Ipv4)
            &&& second ==> listed[listed.len() - 1] == loopback_of(DnsFamily::Ipv6)
        }),
{
}

/// Interfaces are in the order of their identifiers.
pub proof fn interfaces_are_in_order(adapters: Seq<AdapterView>)
    ensures
        forall|i: int, j: int|
            0 <= i < j < by_guid(adapters).len() ==> !text_before(
                (#[trigger] by_guid(adapters)[j]).guid,
                (#[trigger] by_guid(adapters)[i]).guid,
            ),
    decreases adapters.len(),
{
    if adapters.len() > 0 {
        let rest = by_guid(adapters.drop_last());
        let last = adapters.last();
        interfaces_are_in_order(adapters.drop_last());
        let at = adapter_place(rest, last.guid);
        lemma_place_between(rest, last.guid);
        let whole = by_guid(adapters);
        assert(whole == rest.insert(at, last));
        assert forall|i: int, j: int| 0 <= i < j < whole.len() implies !text_before(
            (#[trigger] whole[j]).guid,
            (#[trigger] whole[i]).guid,
        ) by {
            let p = if i < at {
                i
            } else {
                i - 1
            };
            let q = if j < at {
                j
            } else {
                j - 1
            };
            if j == at {
                assert(whole[i] == rest[p]);
            } else if i == at {
                assert(whole[j] == rest[q]);
                if q > at {
                    assert(!text_before(rest[q].guid, rest[at].guid));
                    if text_before(rest[q].guid, last.guid) {
                        text_order_is_transitive(rest[q].guid, last.guid, rest[at].guid);
                    }
                } else {
                    if text_before(rest[at].guid, last.guid) {
                        text_order_is_transitive(last.guid, rest[at].guid, last.guid);
                        text_order_is_irreflexive(last.guid);
                    }
                }
            } else {
                assert(whole[i] == rest[p] && whole[j] == rest[q]);
            }
        }
    }
}

proof fn lemma_place_between(ordered: Seq<AdapterView>, guid: Seq<char>)
    ensures
        0 <= adapter_place(ordered, guid) <= ordered.len(),
        forall|i: int|
            0 <= i < adapter_place(ordered, guid) ==> !text_before(
                guid,
                (#[trigger] ordered[i]).guid,
            ),
        adapter_place(ordered, guid) < ordered.len() ==> text_before(
            guid,
            ordered[adapter_place(ordered, guid)].guid,
        ),
    decreases ordered.len(),
{
    if ordered.len() > 0 && !text_before(guid, ordered[0].guid) {
        let rest = ordered.skip(1);
        lemma_place_between(rest, guid);
        assert forall|i: int| 0 <= i < adapter_place(ordered, guid) implies !text_before(
            guid,
            (#[trigger] ordered[i]).guid,
        ) by {
            if i > 0 {
                assert(rest[i - 1] == ordered[i]);
            }
        }
    }
}

} // verus!
