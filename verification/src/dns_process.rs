//! Supervision of the DNS filtering companion.
//!
//! The companion is a separate process that takes one JSON command per line and
//! answers with one status per line. This module holds what is decided about it:
//! which configurations it may be given, how commands are written, which answers
//! are believed, and what becomes of the process. Starting it never changes the
//! DNS settings of the machine.

use crate::dns_filter::{lemma_sorted_ips, sort_ips, sorted_ips, unfit};
use crate::dns_packet::host_and_port;
use crate::json::{
    json_bool, json_list, json_string, json_strings, json_strings_are_single_lines, json_text,
    json_truth, lemma_strings_printable,
};
use crate::net::{
    ip_of, parse_ip, parse_socket, socket_from_text, socket_of, special_addresses_have_their_prefix,
    IpAddr, Ipv4Addr, Ipv6Addr, SocketAddr,
};
use crate::net_text::{
    address_texts_are_read_back, lemma_address_text, lemma_plain_number, written_digit,
};
use crate::text::{
    byte_len, bytes_of, chars_of, contains_char, copy_texts, decimal, decimal_text, first_index,
    first_places_are_found, index_of, join, join3, join4, join5, lemma_first_index,
    lemma_line_bytes, lemma_numeral_printable, lemma_printable_bytes, lemma_printable_join,
    numbers_are_sums_of_their_digits, parse_number, part, printable, quoted, quoted_text,
    read_number, same_text, string_of, trim, trimmed, views, white_space, NumberError,
};
use vstd::prelude::*;
use vstd::string::*;

verus! {

/// The largest rule text.
pub const MAX_RULE_TEXT_BYTES: usize = 8388608;

/// The largest command: twice the largest rule text and 64 KiB.
pub const MAX_COMMAND_BYTES: usize = 16842752;

/// The largest status line.
pub const MAX_STATUS_LINE_BYTES: usize = 65536;

/// How long the companion may take to become ready, and to reload.
pub const READY_TIMEOUT_SECS: u64 = 10;

/// How long the companion may take to register or release a flow.
pub const FLOW_TIMEOUT_SECS: u64 = 2;

/// How long the companion may take to quiesce.
pub const QUIESCE_TIMEOUT_SECS: u64 = 6;

/// How long the companion may take to stop.
pub const STOP_TIMEOUT_SECS: u64 = 3;

/// The configuration of the companion's start command. The upstream is a numeric
/// address and port; the listen address is a loopback one, and port zero asks for
/// any free port.
#[derive(Clone, Debug, PartialEq, Eq)]
pub struct DnsProcessConfig {
    pub upstream: String,
    pub listen_address: String,
    pub listen_port: u16,
    pub dual_stack: bool,
    pub rules: String,
}

/// The configuration of the transparent companion, which binds the requested
/// local addresses itself and reserves eight source endpoints of each transport
/// for each of them.
#[derive(Clone, Debug, PartialEq, Eq)]
pub struct TransparentDnsConfig {
    pub listen_addresses: Vec<String>,
    pub listen_port: u16,
    pub rules: String,
}

/// A reserved source endpoint of one transparent listener address.
#[derive(Clone, Debug, PartialEq, Eq)]
pub struct UpstreamSlot {
    pub id: usize,
    pub udp_addr: String,
    pub tcp_addr: String,
}

/// What the companion reported once its listeners were ready.
#[derive(Clone, Debug, PartialEq, Eq)]
pub struct DnsProcessStatus {
    pub udp_addr: String,
    pub tcp_addr: String,
    pub udp_addrs: Vec<String>,
    pub tcp_addrs: Vec<String>,
    pub rules_count: u64,
    pub slots: Vec<UpstreamSlot>,
}

/// One exact reflected flow to authorize in the companion.
#[derive(Clone, Debug, PartialEq, Eq)]
pub struct TransparentFlowRegistration {
    pub protocol: String,
    pub peer: String,
    pub local: String,
    pub resolver: String,
    pub slot: usize,
    pub lifetime_ms: u64,
}

/// A status line of the companion.
#[derive(Clone, Debug, PartialEq, Eq)]
pub struct WireStatus {
    pub status: String,
    pub error: Option<String>,
    pub udp_addr: Option<String>,
    pub tcp_addr: Option<String>,
    pub udp_addrs: Option<Vec<String>>,
    pub tcp_addrs: Option<Vec<String>>,
    pub rules_count: Option<u64>,
    pub slots: Option<Vec<UpstreamSlot>>,
}

/// A slot as mathematical values.
pub ghost struct SlotView {
    pub id: int,
    pub udp_addr: Seq<char>,
    pub tcp_addr: Seq<char>,
}

/// The mathematical values of slots.
pub open spec fn slot_views(slots: Seq<UpstreamSlot>) -> Seq<SlotView> {
    Seq::new(
        slots.len(),
        |i: int|
            SlotView {
                id: slots[i].id as int,
                udp_addr: slots[i].udp_addr@,
                tcp_addr: slots[i].tcp_addr@,
            },
    )
}

/// A ready status as mathematical values.
pub ghost struct StatusView {
    pub udp_addr: Seq<char>,
    pub tcp_addr: Seq<char>,
    pub udp_addrs: Seq<Seq<char>>,
    pub tcp_addrs: Seq<Seq<char>>,
    pub rules_count: u64,
    pub slots: Seq<SlotView>,
}

impl DnsProcessStatus {
    pub open spec fn view(&self) -> StatusView {
        StatusView {
            udp_addr: self.udp_addr@,
            tcp_addr: self.tcp_addr@,
            udp_addrs: views(self.udp_addrs@),
            tcp_addrs: views(self.tcp_addrs@),
            rules_count: self.rules_count,
            slots: slot_views(self.slots@),
        }
    }

    /// A copy of the status.
    pub fn copied(&self) -> (result: Self)
        ensures
            result@ == self@,
    {
        let mut slots: Vec<UpstreamSlot> = Vec::new();
        let mut i: usize = 0;
        while i < self.slots.len()
            invariant
                i <= self.slots.len(),
                slots.len() == i,
                forall|j: int|
                    0 <= j < i ==> (#[trigger] slots@[j]).id == self.slots@[j].id
                        && slots@[j].udp_addr == self.slots@[j].udp_addr && slots@[j].tcp_addr
                        == self.slots@[j].tcp_addr,
            decreases self.slots.len() - i,
        {
            let slot = &self.slots[i];
            slots.push(
                UpstreamSlot {
                    id: slot.id,
                    udp_addr: slot.udp_addr.clone(),
                    tcp_addr: slot.tcp_addr.clone(),
                },
            );
            i += 1;
        }
        assert(slot_views(slots@) =~= slot_views(self.slots@));
        DnsProcessStatus {
            udp_addr: self.udp_addr.clone(),
            tcp_addr: self.tcp_addr.clone(),
            udp_addrs: copy_texts(&self.udp_addrs),
            tcp_addrs: copy_texts(&self.tcp_addrs),
            rules_count: self.rules_count,
            slots,
        }
    }
}

/// An address with the interface that it names.
#[derive(Clone, Copy, Debug, PartialEq, Eq, Structural)]
pub struct ScopedIp {
    pub ip: IpAddr,
    pub zone: u32,
}

/// An endpoint with the interface that its address names. Zone zero stands for
/// none.
#[derive(Clone, Copy, Debug, PartialEq, Eq, Structural)]
pub struct ScopedSocketAddr {
    pub ip: ScopedIp,
    pub port: u16,
}

impl ScopedIp {
    /// The address, and behind `%` its interface.
    pub open spec fn spec_canonical_text(self) -> Seq<char> {
        if self.zone == 0 {
            self.ip.spec_text()
        } else {
            self.ip.spec_text() + "%"@ + decimal(self.zone as nat)
        }
    }

    pub fn canonical_text(&self) -> (result: String)
        ensures
            result@ == self.spec_canonical_text(),
    {
        if self.zone == 0 {
            self.ip.text()
        } else {
            join3(self.ip.text().as_str(), "%", decimal_text(self.zone as u64).as_str())
        }
    }
}

impl ScopedSocketAddr {
    /// The address and the port, an IPv6 address in brackets.
    pub open spec fn spec_canonical_text(self) -> Seq<char> {
        if self.ip.ip is V6 {
            "["@ + self.ip.spec_canonical_text() + "]:"@ + decimal(self.port as nat)
        } else {
            self.ip.spec_canonical_text() + ":"@ + decimal(self.port as nat)
        }
    }

    pub fn canonical_text(&self) -> (result: String)
        ensures
            result@ == self.spec_canonical_text(),
    {
        let port = decimal_text(self.port as u64);
        if self.ip.ip.is_ipv6() {
            join4("[", self.ip.canonical_text().as_str(), "]:", port.as_str())
        } else {
            join3(self.ip.canonical_text().as_str(), ":", port.as_str())
        }
    }
}

/// What is said of an address text that cannot be read.
pub open spec fn bad_address(text: Seq<char>) -> Seq<char> {
    "invalid transparent listen address "@ + quoted(text)
}

/// What is said of an interface that is no positive number.
pub open spec fn bad_zone(text: Seq<char>) -> Seq<char> {
    "transparent interface zone must be a positive numeric index: "@ + quoted(text)
}

/// Reads the part of an address before `%`, for an interface read already.
pub open spec fn zoned_ip(whole: Seq<char>, text: Seq<char>, zone: u32) -> Result<
    ScopedIp,
    Seq<char>,
> {
    match ip_of(text) {
        None => Err(bad_address(whole) + ": "@ + "invalid IP address syntax"@),
        Some(ip) => if ip matches IpAddr::V6(v6) && v6.mapped() {
            Err("IPv4-mapped transparent listen address is not allowed: "@ + quoted(whole))
        } else {
            Ok(ScopedIp { ip, zone })
        },
    }
}

/// Reads `address` or `address%interface`, with white space around it.
#[verifier::opaque]
pub open spec fn scoped_ip_of(source: Seq<char>) -> Result<ScopedIp, Seq<char>> {
    let text = trim(source);
    let at = first_index(text, '%');
    let zone = text.skip(at + 1);
    if text.len() == 0 {
        Err("transparent listen address is empty"@)
    } else if at >= text.len() {
        zoned_ip(text, text, 0)
    } else if at == 0 || zone.len() == 0 || zone.contains('%') {
        Err(bad_address(text))
    } else {
        match read_number(zone, 10, 0xffff_ffff) {
            Ok(index) if index != 0 => zoned_ip(text, text.take(at), index as u32),
            _ => Err(bad_zone(text)),
        }
    }
}

fn finish_scoped_ip(whole: &[char], text: &[char], zone: u32) -> (result: Result<ScopedIp, String>)
    ensures
        result is Ok <==> zoned_ip(whole@, text@, zone) is Ok,
        result matches Ok(ip) ==> zoned_ip(whole@, text@, zone) == Ok::<ScopedIp, Seq<char>>(ip),
        result matches Err(message) ==> zoned_ip(whole@, text@, zone) == Err::<
            ScopedIp,
            Seq<char>,
        >(message@),
{
    let shown = quoted_text(string_of(whole).as_str());
    match parse_ip(text) {
        None => Err(
            join4(
                "invalid transparent listen address ",
                shown.as_str(),
                ": ",
                "invalid IP address syntax",
            ),
        ),
        Some(ip) => {
            let mapped = match ip {
                IpAddr::V4(_) => false,
                IpAddr::V6(v6) => v6.is_mapped(),
            };
            if mapped {
                Err(
                    join(
                        "IPv4-mapped transparent listen address is not allowed: ",
                        shown.as_str(),
                    ),
                )
            } else {
                Ok(ScopedIp { ip, zone })
            }
        },
    }
}

fn parse_scoped_chars(text: &[char]) -> (result: Result<ScopedIp, String>)
    requires
        trim(text@) == text@,
    ensures
        result is Ok <==> scoped_ip_of(text@) is Ok,
        result matches Ok(ip) ==> scoped_ip_of(text@) == Ok::<ScopedIp, Seq<char>>(ip),
        result matches Err(message) ==> scoped_ip_of(text@) == Err::<ScopedIp, Seq<char>>(message@),
{
    reveal(scoped_ip_of);
    if text.len() == 0 {
        return Err("transparent listen address is empty".to_owned());
    }
    let at = index_of(text, '%');
    if at == text.len() {
        return finish_scoped_ip(text, text, 0);
    }
    let zone = part(text, at + 1, text.len());
    assert(zone@ =~= text@.skip(at + 1));
    if at == 0 || zone.len() == 0 || contains_char(&zone, '%') {
        return Err(
            join(
                "invalid transparent listen address ",
                quoted_text(string_of(text).as_str()).as_str(),
            ),
        );
    }
    match parse_number(&zone, 10, 0xffff_ffff) {
        Ok(index) => if index != 0 {
            let address = part(text, 0, at);
            assert(address@ =~= text@.take(at as int));
            return finish_scoped_ip(text, &address, index as u32);
        },
        Err(_) => {},
    }
    Err(
        join(
            "transparent interface zone must be a positive numeric index: ",
            quoted_text(string_of(text).as_str()).as_str(),
        ),
    )
}

/// Reads `address` or `address%interface`, with white space around it.
pub fn parse_scoped_ip(text: &str) -> (result: Result<ScopedIp, String>)
    ensures
        result is Ok <==> scoped_ip_of(text@) is Ok,
        result matches Ok(ip) ==> scoped_ip_of(text@) == Ok::<ScopedIp, Seq<char>>(ip),
        result matches Err(message) ==> scoped_ip_of(text@) == Err::<ScopedIp, Seq<char>>(message@),
{
    let chars = trimmed(text);
    proof {
        crate::text::lemma_trim_idempotent(text@);
        assert(scoped_ip_of(text@) == scoped_ip_of(chars@)) by {
            reveal(scoped_ip_of);
        }
    }
    parse_scoped_chars(&chars)
}

/// Reads the port of an endpoint, then its address.
pub open spec fn endpoint_parts(whole: Seq<char>, host: Seq<char>, port: Seq<char>) -> Result<
    ScopedSocketAddr,
    Seq<char>,
> {
    match read_number(port, 10, 0xffff) {
        Err(error) => Err(
            "invalid DNS proxy endpoint "@ + quoted(whole) + ": "@ + error.spec_message(),
        ),
        Ok(number) => match scoped_ip_of(host) {
            Err(message) => Err(message),
            Ok(ip) => Ok(ScopedSocketAddr { ip, port: number as u16 }),
        },
    }
}

/// Reads `a.b.c.d:port`, `[groups]:port` or `[groups%interface]:port`, with white
/// space around it.
#[verifier::opaque]
pub open spec fn scoped_socket_of(source: Seq<char>) -> Result<ScopedSocketAddr, Seq<char>> {
    let text = trim(source);
    let invalid = Err("invalid DNS proxy endpoint "@ + quoted(text));
    if text.len() > 0 && text[0] == '[' {
        let rest = text.skip(1);
        let close = first_index(rest, ']');
        if close + 1 >= rest.len() || rest[close + 1] != ':' {
            invalid
        } else {
            endpoint_parts(text, rest.take(close), rest.skip(close + 2))
        }
    } else {
        let at = first_index(text, ':');
        if at >= text.len() {
            invalid
        } else if text.skip(at + 1).contains(':') {
            Err("IPv6 DNS proxy endpoint must use brackets: "@ + quoted(text))
        } else {
            endpoint_parts(text, text.take(at), text.skip(at + 1))
        }
    }
}

/// Whether a text has neither white space around it nor brackets in it.
spec fn bare(text: Seq<char>) -> bool {
    &&& text.len() > 0
    &&& !white_space(text[0])
    &&& !white_space(text.last())
    &&& forall|i: int| 0 <= i < text.len() ==> #[trigger] text[i] != '[' && text[i] != ']'
}

proof fn lemma_scoped_text(ip: ScopedIp)
    ensures
        bare(ip.spec_canonical_text()),
        ip.ip is V4 ==> forall|i: int|
            0 <= i < ip.spec_canonical_text().len() ==> #[trigger] ip.spec_canonical_text()[i]
                != ':',
{
    reveal_strlit("%");
    let text = ip.spec_canonical_text();
    let host = ip.ip.spec_text();
    let zone = decimal(ip.zone as nat);
    lemma_address_text(ip.ip);
    lemma_plain_number(ip.zone as nat, 0xffff_ffff);
    assert forall|i: int| 0 <= i < text.len() implies (written_digit(#[trigger] text[i]) || text[i]
        == ':' || text[i] == '.' || text[i] == '%') && (ip.ip is V4 ==> text[i] != ':') by {
        if i < host.len() {
            assert(text[i] == host[i]);
        } else if i > host.len() {
            assert(text[i] == zone[i - host.len() - 1]);
        }
    }
    assert(written_digit(text[0]) || text[0] == ':' || text[0] == '.' || text[0] == '%');
    let last = text.last();
    assert(written_digit(last) || last == ':' || last == '.' || last == '%');
}

/// The canonical text of an address is read back as the address with its interface,
/// unless it stands for an IPv4 address, which is refused.
pub proof fn scoped_addresses_are_read_back(ip: ScopedIp)
    requires
        !(ip.ip matches IpAddr::V6(v6) && v6.mapped()),
    ensures
        scoped_ip_of(ip.spec_canonical_text()) == Ok::<ScopedIp, Seq<char>>(ip),
{
    reveal(scoped_ip_of);
    reveal_strlit("%");
    let text = ip.spec_canonical_text();
    let host = ip.ip.spec_text();
    let zone = decimal(ip.zone as nat);
    lemma_scoped_text(ip);
    lemma_address_text(ip.ip);
    address_texts_are_read_back(ip.ip);
    lemma_plain_number(ip.zone as nat, 0xffff_ffff);
    assert(trim(text) == text);
    if ip.zone == 0 {
        lemma_first_index(text, '%', text.len() as int);
    } else {
        let at = host.len() as int;
        assert forall|j: int| 0 <= j < at implies text[j] != '%' by {
            assert(text[j] == host[j]);
        }
        lemma_first_index(text, '%', at);
        assert(text.take(at) =~= host);
        assert(text.skip(at + 1) =~= zone);
        assert(zone[0] != '+');
        assert(!zone.contains('%'));
    }
}

/// The canonical text of an endpoint is read back as the endpoint with its interface,
/// unless its address stands for an IPv4 address, which is refused.
pub proof fn scoped_endpoints_are_read_back(endpoint: ScopedSocketAddr)
    requires
        !(endpoint.ip.ip matches IpAddr::V6(v6) && v6.mapped()),
    ensures
        scoped_socket_of(endpoint.spec_canonical_text()) == Ok::<ScopedSocketAddr, Seq<char>>(
            endpoint,
        ),
{
    reveal(scoped_socket_of);
    reveal_strlit("[");
    reveal_strlit("]:");
    reveal_strlit(":");
    let text = endpoint.spec_canonical_text();
    let host = endpoint.ip.spec_canonical_text();
    let port = decimal(endpoint.port as nat);
    lemma_scoped_text(endpoint.ip);
    scoped_addresses_are_read_back(endpoint.ip);
    lemma_plain_number(endpoint.port as nat, 0xffff);
    assert(written_digit(port[0]) && written_digit(port.last()));
    assert(text.last() == port.last());
    assert(trim(text) == text);
    assert(port[0] != '+');
    if endpoint.ip.ip is V6 {
        let rest = text.skip(1);
        let close = host.len() as int;
        assert(rest =~= host + "]:"@ + port);
        assert forall|j: int| 0 <= j < close implies rest[j] != ']' by {
            assert(rest[j] == host[j]);
        }
        lemma_first_index(rest, ']', close);
        assert(rest.take(close) =~= host);
        assert(rest.skip(close + 2) =~= port);
    } else {
        let at = host.len() as int;
        assert(text[0] == host[0]);
        assert forall|j: int| 0 <= j < at implies text[j] != ':' by {
            assert(text[j] == host[j]);
        }
        lemma_first_index(text, ':', at);
        assert(text.take(at) =~= host);
        assert(text.skip(at + 1) =~= port);
        assert(!port.contains(':'));
    }
}

fn finish_scoped_socket(whole: &[char], host: &[char], port: &[char]) -> (result: Result<
    ScopedSocketAddr,
    String,
>)
    ensures
        result is Ok <==> endpoint_parts(whole@, host@, port@) is Ok,
        result matches Ok(endpoint) ==> endpoint_parts(whole@, host@, port@) == Ok::<
            ScopedSocketAddr,
            Seq<char>,
        >(endpoint),
        result matches Err(message) ==> endpoint_parts(whole@, host@, port@) == Err::<
            ScopedSocketAddr,
            Seq<char>,
        >(message@),
{
    match parse_number(port, 10, 0xffff) {
        Err(error) => Err(
            join4(
                "invalid DNS proxy endpoint ",
                quoted_text(string_of(whole).as_str()).as_str(),
                ": ",
                error.message().as_str(),
            ),
        ),
        Ok(number) => match parse_scoped_ip(string_of(host).as_str()) {
            Err(message) => Err(message),
            Ok(ip) => Ok(ScopedSocketAddr { ip, port: number as u16 }),
        },
    }
}

fn invalid_endpoint(text: &[char]) -> (result: String)
    ensures
        result@ == "invalid DNS proxy endpoint "@ + quoted(text@),
{
    join("invalid DNS proxy endpoint ", quoted_text(string_of(text).as_str()).as_str())
}

/// Reads an endpoint whose address may name an interface, with white space around it.
pub fn parse_scoped_socket_addr(source: &str) -> (result: Result<ScopedSocketAddr, String>)
    ensures
        result is Ok <==> scoped_socket_of(source@) is Ok,
        result matches Ok(endpoint) ==> scoped_socket_of(source@) == Ok::<
            ScopedSocketAddr,
            Seq<char>,
        >(endpoint),
        result matches Err(message) ==> scoped_socket_of(source@) == Err::<
            ScopedSocketAddr,
            Seq<char>,
        >(message@),
{
    reveal(scoped_socket_of);
    let text = trimmed(source);
    if text.len() > 0 && text[0] == '[' {
        let rest = part(&text, 1, text.len());
        assert(rest@ =~= text@.skip(1));
        let close = index_of(&rest, ']');
        if close >= rest.len() || close + 1 >= rest.len() || rest[close + 1] != ':' {
            return Err(invalid_endpoint(&text));
        }
        let host = part(&rest, 0, close);
        let port = part(&rest, close + 2, rest.len());
        assert(host@ =~= rest@.take(close as int));
        assert(port@ =~= rest@.skip(close + 2));
        finish_scoped_socket(&text, &host, &port)
    } else {
        let at = index_of(&text, ':');
        if at == text.len() {
            return Err(invalid_endpoint(&text));
        }
        let host = part(&text, 0, at);
        let port = part(&text, at + 1, text.len());
        assert(host@ =~= text@.take(at as int));
        assert(port@ =~= text@.skip(at + 1));
        if contains_char(&port, ':') {
            return Err(
                join(
                    "IPv6 DNS proxy endpoint must use brackets: ",
                    quoted_text(string_of(&text).as_str()).as_str(),
                ),
            );
        }
        finish_scoped_socket(&text, &host, &port)
    }
}

/// What is said of something larger than its limit.
pub open spec fn over_limit(what: Seq<char>, limit: nat) -> Seq<char> {
    what + decimal(limit) + " byte limit"@
}

/// A command as the companion reads it, within the bound on its size: the JSON
/// text and a line feed.
pub open spec fn framed(text: Seq<char>, what: Seq<char>) -> Result<Seq<u8>, Seq<char>> {
    let bytes = vstd::utf8::encode_utf8(text + "\n"@);
    if bytes.len() > 16842752 {
        Err(over_limit(what, 16842752))
    } else {
        Ok(bytes)
    }
}

fn frame_command(text: String, what: &str) -> (result: Result<Vec<u8>, String>)
    ensures
        result is Ok <==> framed(text@, what@) is Ok,
        result matches Ok(bytes) ==> framed(text@, what@) == Ok::<Seq<u8>, Seq<char>>(bytes@),
        result matches Err(message) ==> framed(text@, what@) == Err::<Seq<u8>, Seq<char>>(message@),
{
    let mut line = text;
    line.append("\n");
    let bytes = line.as_str().as_bytes();
    if bytes.len() > MAX_COMMAND_BYTES {
        return Err(join3(what, decimal_text(16842752).as_str(), " byte limit"));
    }
    Ok(bytes_of(bytes))
}

/// The JSON text of a start command.
pub open spec fn start_text(config: DnsProcessConfig) -> Seq<char> {
    "{\"op\":\"start\",\"config\":{\"upstream\":"@ + json_string(config.upstream@)
        + ",\"listen_address\":"@ + json_string(config.listen_address@) + ",\"listen_port\":"@
        + decimal(config.listen_port as nat) + ",\"dual_stack\":"@ + json_bool(config.dual_stack)
        + ",\"rules\":"@ + json_string(config.rules@) + "}}"@
}

/// Writes the start command of the companion.
pub fn encode_start_command(config: &DnsProcessConfig) -> (result: Result<Vec<u8>, String>)
    ensures
        result is Ok <==> framed(
            start_text(*config),
            "DNS proxy configuration exceeds the "@,
        ) is Ok,
        result matches Ok(bytes) ==> framed(
            start_text(*config),
            "DNS proxy configuration exceeds the "@,
        ) == Ok::<Seq<u8>, Seq<char>>(bytes@),
        result matches Err(message) ==> framed(
            start_text(*config),
            "DNS proxy configuration exceeds the "@,
        ) == Err::<Seq<u8>, Seq<char>>(message@),
{
    let mut text = join(
        "{\"op\":\"start\",\"config\":{\"upstream\":",
        json_text(config.upstream.as_str()).as_str(),
    );
    text.append(",\"listen_address\":");
    text.append(json_text(config.listen_address.as_str()).as_str());
    text.append(",\"listen_port\":");
    text.append(decimal_text(config.listen_port as u64).as_str());
    text.append(",\"dual_stack\":");
    text.append(json_truth(config.dual_stack));
    text.append(",\"rules\":");
    text.append(json_text(config.rules.as_str()).as_str());
    text.append("}}");
    frame_command(text, "DNS proxy configuration exceeds the ")
}

/// The JSON text of a transparent start command.
pub open spec fn transparent_start_text(config: TransparentDnsConfig) -> Seq<char> {
    "{\"op\":\"start\",\"config\":{\"transparent\":true,\"listen_addresses\":["@
        + json_strings(config.listen_addresses@) + "],\"listen_port\":"@ + decimal(
        config.listen_port as nat,
    ) + ",\"rules\":"@ + json_string(config.rules@) + "}}"@
}

/// Writes the start command of the transparent companion.
pub fn encode_transparent_start_command(config: &TransparentDnsConfig) -> (result: Result<
    Vec<u8>,
    String,
>)
    ensures
        result is Ok <==> framed(
            transparent_start_text(*config),
            "transparent DNS configuration exceeds the "@,
        ) is Ok,
        result matches Ok(bytes) ==> framed(
            transparent_start_text(*config),
            "transparent DNS configuration exceeds the "@,
        ) == Ok::<Seq<u8>, Seq<char>>(bytes@),
        result matches Err(message) ==> framed(
            transparent_start_text(*config),
            "transparent DNS configuration exceeds the "@,
        ) == Err::<Seq<u8>, Seq<char>>(message@),
{
    let mut text = join(
        "{\"op\":\"start\",\"config\":{\"transparent\":true,\"listen_addresses\":[",
        json_list(&config.listen_addresses).as_str(),
    );
    text.append("],\"listen_port\":");
    text.append(decimal_text(config.listen_port as u64).as_str());
    text.append(",\"rules\":");
    text.append(json_text(config.rules.as_str()).as_str());
    text.append("}}");
    frame_command(text, "transparent DNS configuration exceeds the ")
}

/// What is said of rules that are too large.
pub open spec fn oversize_rules() -> Seq<char> {
    over_limit("rules exceed the "@, 8388608)
}

fn oversize_rules_message() -> (result: String)
    ensures
        result@ == oversize_rules(),
{
    join3("rules exceed the ", decimal_text(8388608).as_str(), " byte limit")
}

/// The reload command for a rule text, or what is wrong with it.
pub open spec fn reload_command(rules: Seq<char>) -> Result<Seq<u8>, Seq<char>> {
    if byte_len(rules) > 8388608 {
        Err(oversize_rules())
    } else {
        framed(
            "{\"op\":\"reload\",\"rules\":"@ + json_string(rules) + "}"@,
            "DNS proxy reload exceeds the "@,
        )
    }
}

/// Writes a reload command.
pub fn encode_reload_command(rules: &str) -> (result: Result<Vec<u8>, String>)
    ensures
        result is Ok <==> reload_command(rules@) is Ok,
        result matches Ok(bytes) ==> reload_command(rules@) == Ok::<Seq<u8>, Seq<char>>(bytes@),
        result matches Err(message) ==> reload_command(rules@) == Err::<Seq<u8>, Seq<char>>(
            message@,
        ),
{
    if rules.as_bytes().len() > MAX_RULE_TEXT_BYTES {
        return Err(oversize_rules_message());
    }
    let text = join3("{\"op\":\"reload\",\"rules\":", json_text(rules).as_str(), "}");
    frame_command(text, "DNS proxy reload exceeds the ")
}

/// The JSON text of a flow command.
pub open spec fn flow_text(operation: Seq<char>, flow: TransparentFlowRegistration) -> Seq<char> {
    "{\"op\":"@ + json_string(operation) + ",\"flow\":{\"protocol\":"@ + json_string(flow.protocol@)
        + ",\"peer\":"@ + json_string(flow.peer@) + ",\"local\":"@ + json_string(flow.local@)
        + ",\"resolver\":"@ + json_string(flow.resolver@) + ",\"slot\":"@ + decimal(
        flow.slot as nat,
    ) + ",\"lifetime_ms\":"@ + decimal(flow.lifetime_ms as nat) + "}}"@
}

/// The flow command for an operation, or what is wrong with it.
pub open spec fn flow_command_of(
    operation: Seq<char>,
    flow: TransparentFlowRegistration,
) -> Result<Seq<u8>, Seq<char>> {
    if operation != "register"@ && operation != "release"@ {
        Err("unsupported transparent flow operation "@ + quoted(operation))
    } else {
        framed(flow_text(operation, flow), "transparent DNS flow command exceeds the "@)
    }
}

/// Writes a flow command: `register` authorizes a reflected flow, `release` ends
/// its authorization.
pub fn encode_flow_command(operation: &str, flow: &TransparentFlowRegistration) -> (result: Result<
    Vec<u8>,
    String,
>)
    ensures
        result is Ok <==> flow_command_of(operation@, *flow) is Ok,
        result matches Ok(bytes) ==> flow_command_of(operation@, *flow) == Ok::<
            Seq<u8>,
            Seq<char>,
        >(bytes@),
        result matches Err(message) ==> flow_command_of(operation@, *flow) == Err::<
            Seq<u8>,
            Seq<char>,
        >(message@),
{
    if !same_text(operation, "register") && !same_text(operation, "release") {
        return Err(
            join("unsupported transparent flow operation ", quoted_text(operation).as_str()),
        );
    }
    let mut text = join("{\"op\":", json_text(operation).as_str());
    text.append(",\"flow\":{\"protocol\":");
    text.append(json_text(flow.protocol.as_str()).as_str());
    text.append(",\"peer\":");
    text.append(json_text(flow.peer.as_str()).as_str());
    text.append(",\"local\":");
    text.append(json_text(flow.local.as_str()).as_str());
    text.append(",\"resolver\":");
    text.append(json_text(flow.resolver.as_str()).as_str());
    text.append(",\"slot\":");
    text.append(decimal_text(flow.slot as u64).as_str());
    text.append(",\"lifetime_ms\":");
    text.append(decimal_text(flow.lifetime_ms).as_str());
    text.append("}}");
    frame_command(text, "transparent DNS flow command exceeds the ")
}

/// Whether bytes are one line: they end in a line feed and hold no other.
pub open spec fn single_line(bytes: Seq<u8>) -> bool {
    &&& bytes.len() > 0
    &&& bytes.last() == 10
    &&& forall|i: int| 0 <= i < bytes.len() - 1 ==> #[trigger] bytes[i] != 10
}

proof fn lemma_framed_line(text: Seq<char>, what: Seq<char>)
    requires
        printable(text),
    ensures
        framed(text, what) matches Ok(bytes) ==> single_line(bytes),
{
    reveal_strlit("\n");
    assert(text + "\n"@ =~= text.push('\n'));
    lemma_line_bytes(text);
    lemma_printable_bytes(text);
    let bytes = vstd::utf8::encode_utf8(text);
    assert forall|i: int| 0 <= i < bytes.push(10).len() - 1 implies #[trigger] bytes.push(10)[i]
        != 10 by {
        assert(bytes.push(10)[i] == bytes[i]);
    }
}

proof fn lemma_decimal_printable(n: nat)
    ensures
        printable(decimal(n)),
{
    reveal(decimal);
    lemma_numeral_printable(n, 10);
}

/// A text, then a literal and a string.
proof fn lemma_field(front: Seq<char>, name: Seq<char>, value: Seq<char>)
    requires
        printable(front),
        printable(name),
        printable(value),
    ensures
        printable(front + name + value),
{
    lemma_printable_join(front, name);
    lemma_printable_join(front + name, value);
}

proof fn lemma_start_line(config: DnsProcessConfig)
    ensures
        printable(start_text(config)),
{
    reveal_strlit("{\"op\":\"start\",\"config\":{\"upstream\":");
    reveal_strlit(",\"listen_address\":");
    reveal_strlit(",\"listen_port\":");
    reveal_strlit(",\"dual_stack\":");
    reveal_strlit(",\"rules\":");
    reveal_strlit("}}");
    reveal_strlit("true");
    reveal_strlit("false");
    json_strings_are_single_lines(config.upstream@);
    json_strings_are_single_lines(config.listen_address@);
    json_strings_are_single_lines(config.rules@);
    lemma_decimal_printable(config.listen_port as nat);
    let a = "{\"op\":\"start\",\"config\":{\"upstream\":"@ + json_string(config.upstream@);
    lemma_printable_join(
        "{\"op\":\"start\",\"config\":{\"upstream\":"@,
        json_string(config.upstream@),
    );
    let b = a + ",\"listen_address\":"@ + json_string(config.listen_address@);
    lemma_field(a, ",\"listen_address\":"@, json_string(config.listen_address@));
    let c = b + ",\"listen_port\":"@ + decimal(config.listen_port as nat);
    lemma_field(b, ",\"listen_port\":"@, decimal(config.listen_port as nat));
    let d = c + ",\"dual_stack\":"@ + json_bool(config.dual_stack);
    lemma_field(c, ",\"dual_stack\":"@, json_bool(config.dual_stack));
    let e = d + ",\"rules\":"@ + json_string(config.rules@);
    lemma_field(d, ",\"rules\":"@, json_string(config.rules@));
    lemma_printable_join(e, "}}"@);
}

proof fn lemma_transparent_start_line(config: TransparentDnsConfig)
    ensures
        printable(transparent_start_text(config)),
{
    reveal_strlit("{\"op\":\"start\",\"config\":{\"transparent\":true,\"listen_addresses\":[");
    reveal_strlit("],\"listen_port\":");
    reveal_strlit(",\"rules\":");
    reveal_strlit("}}");
    lemma_strings_printable(config.listen_addresses@);
    json_strings_are_single_lines(config.rules@);
    lemma_decimal_printable(config.listen_port as nat);
    let begin = "{\"op\":\"start\",\"config\":{\"transparent\":true,\"listen_addresses\":["@;
    let a = begin + json_strings(config.listen_addresses@);
    lemma_printable_join(begin, json_strings(config.listen_addresses@));
    let b = a + "],\"listen_port\":"@ + decimal(config.listen_port as nat);
    lemma_field(a, "],\"listen_port\":"@, decimal(config.listen_port as nat));
    let c = b + ",\"rules\":"@ + json_string(config.rules@);
    lemma_field(b, ",\"rules\":"@, json_string(config.rules@));
    lemma_printable_join(c, "}}"@);
}

proof fn lemma_flow_line(operation: Seq<char>, flow: TransparentFlowRegistration)
    ensures
        printable(flow_text(operation, flow)),
{
    reveal_strlit("{\"op\":");
    reveal_strlit(",\"flow\":{\"protocol\":");
    reveal_strlit(",\"peer\":");
    reveal_strlit(",\"local\":");
    reveal_strlit(",\"resolver\":");
    reveal_strlit(",\"slot\":");
    reveal_strlit(",\"lifetime_ms\":");
    reveal_strlit("}}");
    json_strings_are_single_lines(operation);
    json_strings_are_single_lines(flow.protocol@);
    json_strings_are_single_lines(flow.peer@);
    json_strings_are_single_lines(flow.local@);
    json_strings_are_single_lines(flow.resolver@);
    lemma_decimal_printable(flow.slot as nat);
    lemma_decimal_printable(flow.lifetime_ms as nat);
    let a = "{\"op\":"@ + json_string(operation);
    lemma_printable_join("{\"op\":"@, json_string(operation));
    let b = a + ",\"flow\":{\"protocol\":"@ + json_string(flow.protocol@);
    lemma_field(a, ",\"flow\":{\"protocol\":"@, json_string(flow.protocol@));
    let c = b + ",\"peer\":"@ + json_string(flow.peer@);
    lemma_field(b, ",\"peer\":"@, json_string(flow.peer@));
    let d = c + ",\"local\":"@ + json_string(flow.local@);
    lemma_field(c, ",\"local\":"@, json_string(flow.local@));
    let e = d + ",\"resolver\":"@ + json_string(flow.resolver@);
    lemma_field(d, ",\"resolver\":"@, json_string(flow.resolver@));
    let f = e + ",\"slot\":"@ + decimal(flow.slot as nat);
    lemma_field(e, ",\"slot\":"@, decimal(flow.slot as nat));
    let g = f + ",\"lifetime_ms\":"@ + decimal(flow.lifetime_ms as nat);
    lemma_field(f, ",\"lifetime_ms\":"@, decimal(flow.lifetime_ms as nat));
    lemma_printable_join(g, "}}"@);
}

/// Every command is one line, whatever the addresses and the rules hold, so that the
/// companion never takes a part of one for another command.
pub proof fn commands_are_single_lines(
    config: DnsProcessConfig,
    transparent: TransparentDnsConfig,
    rules: Seq<char>,
    operation: Seq<char>,
    flow: TransparentFlowRegistration,
)
    ensures
        framed(start_text(config), "DNS proxy configuration exceeds the "@) matches Ok(bytes)
            ==> single_line(bytes),
        framed(
            transparent_start_text(transparent),
            "transparent DNS configuration exceeds the "@,
        ) matches Ok(bytes) ==> single_line(bytes),
        reload_command(rules) matches Ok(bytes) ==> single_line(bytes),
        flow_command_of(operation, flow) matches Ok(bytes) ==> single_line(bytes),
{
    lemma_start_line(config);
    lemma_framed_line(start_text(config), "DNS proxy configuration exceeds the "@);
    lemma_transparent_start_line(transparent);
    lemma_framed_line(
        transparent_start_text(transparent),
        "transparent DNS configuration exceeds the "@,
    );
    reveal_strlit("{\"op\":\"reload\",\"rules\":");
    reveal_strlit("}");
    json_strings_are_single_lines(rules);
    let begin = "{\"op\":\"reload\",\"rules\":"@;
    lemma_field(begin, json_string(rules), "}"@);
    lemma_framed_line(begin + json_string(rules) + "}"@, "DNS proxy reload exceeds the "@);
    lemma_flow_line(operation, flow);
    lemma_framed_line(flow_text(operation, flow), "transparent DNS flow command exceeds the "@);
}

/// A listen address text; an empty one stands for `127.0.0.1`.
pub open spec fn listen_text(address: Seq<char>) -> Seq<char> {
    if trim(address).len() == 0 {
        "127.0.0.1"@
    } else {
        trim(address)
    }
}

fn listen_chars(address: &str) -> (result: Vec<char>)
    ensures
        result@ == listen_text(address@),
{
    let text = trimmed(address);
    if text.len() == 0 {
        chars_of("127.0.0.1")
    } else {
        text
    }
}

/// The first fault of a configuration.
pub open spec fn config_fault(config: DnsProcessConfig) -> Option<Seq<char>> {
    let upstream = socket_of(trim(config.upstream@));
    let listen = ip_of(listen_text(config.listen_address@));
    let command = framed(start_text(config), "DNS proxy configuration exceeds the "@);
    if upstream is None {
        Some("upstream must be an explicit IP:port: "@ + "invalid socket address syntax"@)
    } else if upstream->0.spec_port() == 0 {
        Some("upstream port must be between 1 and 65535"@)
    } else if listen is None {
        Some("listen_address must be a loopback IP address: "@ + "invalid IP address syntax"@)
    } else if !listen->0.loopback() {
        Some("listen_address must be a loopback IP address"@)
    } else if byte_len(config.rules@) > 8388608 {
        Some(oversize_rules())
    } else if command is Err {
        Some(command->Err_0)
    } else {
        None
    }
}

/// Checks the configuration of the companion.
pub fn validate_config(config: &DnsProcessConfig) -> (result: Result<(), String>)
    ensures
        result is Ok <==> config_fault(*config) is None,
        result matches Err(message) ==> config_fault(*config) == Some(message@),
{
    let upstream = trimmed(config.upstream.as_str());
    match parse_socket(&upstream) {
        None => return Err(
            join("upstream must be an explicit IP:port: ", "invalid socket address syntax"),
        ),
        Some(endpoint) => if endpoint.port() == 0 {
            return Err("upstream port must be between 1 and 65535".to_owned());
        },
    }
    let listen = listen_chars(config.listen_address.as_str());
    match parse_ip(&listen) {
        None => return Err(
            join(
                "listen_address must be a loopback IP address: ",
                "invalid IP address syntax",
            ),
        ),
        Some(ip) => if !ip.is_loopback() {
            return Err("listen_address must be a loopback IP address".to_owned());
        },
    }
    if config.rules.as_str().as_bytes().len() > MAX_RULE_TEXT_BYTES {
        return Err(oversize_rules_message());
    }
    match encode_start_command(config) {
        Ok(_) => Ok(()),
        Err(message) => Err(message),
    }
}

/// What is wrong with transparent listen address `i`, given those before it.
pub open spec fn address_fault(addresses: Seq<String>, i: int) -> Option<Seq<char>> {
    let shown = quoted(addresses[i]@);
    match scoped_ip_of(addresses[i]@) {
        Err(message) => Some(message),
        Ok(scoped) => if scoped.ip.unspecified() || scoped.ip.multicast() {
            Some("transparent listen address "@ + shown + " is not unicast"@)
        } else if scoped.ip is V4 && scoped.zone != 0 {
            Some("transparent IPv4 address "@ + shown + " cannot have a zone"@)
        } else if scoped.ip.link_local_v6() && scoped.zone == 0 {
            Some("transparent link-local address "@ + shown + " requires a zone"@)
        } else if scoped.ip is V6 && !scoped.ip.link_local_v6() && scoped.zone != 0 {
            Some("transparent zone is only valid for link-local IPv6 address "@ + shown)
        } else if exists|j: int|
            0 <= j < i && scoped_ip_of((#[trigger] addresses[j])@) == Ok::<ScopedIp, Seq<char>>(
                scoped,
            ) {
            Some("duplicate transparent listen address "@ + shown)
        } else {
            None
        },
    }
}

/// The first fault of the transparent listen addresses from `i` on.
pub open spec fn addresses_fault(addresses: Seq<String>, i: int) -> Option<Seq<char>>
    decreases addresses.len() - i,
{
    if i < 0 || i >= addresses.len() {
        None
    } else {
        match address_fault(addresses, i) {
            Some(message) => Some(message),
            None => addresses_fault(addresses, i + 1),
        }
    }
}

/// The first fault of a transparent configuration.
pub open spec fn transparent_fault(config: TransparentDnsConfig) -> Option<Seq<char>> {
    let command = framed(
        transparent_start_text(config),
        "transparent DNS configuration exceeds the "@,
    );
    if config.listen_addresses@.len() == 0 || config.listen_addresses@.len() > 16 {
        Some("transparent DNS requires 1..16 listen addresses"@)
    } else if config.listen_port == 53 {
        Some("transparent DNS listen_port must not be 53"@)
    } else if addresses_fault(config.listen_addresses@, 0) is Some {
        addresses_fault(config.listen_addresses@, 0)
    } else if byte_len(config.rules@) > 8388608 {
        Some(oversize_rules())
    } else if command is Err {
        Some(command->Err_0)
    } else {
        None
    }
}

/// The addresses that the first `n` texts name.
pub open spec fn scoped_ips(addresses: Seq<String>, n: int) -> Seq<ScopedIp> {
    Seq::new(n as nat, |i: int| scoped_ip_of(addresses[i]@)->Ok_0)
}

fn is_seen(addresses: &[String], seen: &[ScopedIp], scoped: ScopedIp) -> (result: bool)
    requires
        seen.len() <= addresses.len(),
        seen@ == scoped_ips(addresses@, seen@.len() as int),
        forall|j: int| 0 <= j < seen@.len() ==> scoped_ip_of((#[trigger] addresses@[j])@) is Ok,
    ensures
        result == exists|j: int|
            0 <= j < seen@.len() && scoped_ip_of((#[trigger] addresses@[j])@) == Ok::<
                ScopedIp,
                Seq<char>,
            >(scoped),
{
    let mut j: usize = 0;
    while j < seen.len()
        invariant
            j <= seen.len() <= addresses.len(),
            seen@ == scoped_ips(addresses@, seen@.len() as int),
            forall|k: int| 0 <= k < seen@.len() ==> scoped_ip_of((#[trigger] addresses@[k])@) is Ok,
            forall|k: int|
                0 <= k < j ==> scoped_ip_of((#[trigger] addresses@[k])@) != Ok::<
                    ScopedIp,
                    Seq<char>,
                >(scoped),
        decreases seen.len() - j,
    {
        assert(seen@[j as int] == scoped_ip_of(addresses@[j as int]@)->Ok_0);
        if seen[j] == scoped {
            return true;
        }
        j += 1;
    }
    false
}

fn validate_address(addresses: &[String], seen: &[ScopedIp]) -> (result: Result<ScopedIp, String>)
    requires
        seen.len() < addresses.len(),
        seen@ == scoped_ips(addresses@, seen@.len() as int),
        forall|j: int| 0 <= j < seen@.len() ==> scoped_ip_of((#[trigger] addresses@[j])@) is Ok,
    ensures
        result is Ok <==> address_fault(addresses@, seen@.len() as int) is None,
        result matches Ok(scoped) ==> scoped_ip_of(addresses@[seen@.len() as int]@) == Ok::<
            ScopedIp,
            Seq<char>,
        >(scoped),
        result matches Err(message) ==> address_fault(addresses@, seen@.len() as int) == Some(
            message@,
        ),
{
    let address = addresses[seen.len()].as_str();
    let scoped = match parse_scoped_ip(address) {
        Ok(scoped) => scoped,
        Err(message) => return Err(message),
    };
    let shown = quoted_text(address);
    if scoped.ip.is_unspecified() || scoped.ip.is_multicast() {
        return Err(join3("transparent listen address ", shown.as_str(), " is not unicast"));
    }
    if scoped.ip.is_ipv4() && scoped.zone != 0 {
        return Err(join3("transparent IPv4 address ", shown.as_str(), " cannot have a zone"));
    }
    if scoped.ip.is_link_local_v6() && scoped.zone == 0 {
        return Err(join3("transparent link-local address ", shown.as_str(), " requires a zone"));
    }
    if scoped.ip.is_ipv6() && !scoped.ip.is_link_local_v6() && scoped.zone != 0 {
        return Err(
            join(
                "transparent zone is only valid for link-local IPv6 address ",
                shown.as_str(),
            ),
        );
    }
    if is_seen(addresses, seen, scoped) {
        return Err(join("duplicate transparent listen address ", shown.as_str()));
    }
    Ok(scoped)
}

fn validate_addresses(addresses: &[String]) -> (result: Result<Vec<ScopedIp>, String>)
    ensures
        result is Ok <==> addresses_fault(addresses@, 0) is None,
        result matches Ok(ips) ==> ips@ == scoped_ips(addresses@, addresses@.len() as int),
        result matches Err(message) ==> addresses_fault(addresses@, 0) == Some(message@),
{
    let mut seen: Vec<ScopedIp> = Vec::new();
    assert(seen@ =~= scoped_ips(addresses@, 0));
    while seen.len() < addresses.len()
        invariant
            seen.len() <= addresses.len(),
            seen@ == scoped_ips(addresses@, seen@.len() as int),
            forall|k: int| 0 <= k < seen@.len() ==> scoped_ip_of((#[trigger] addresses@[k])@) is Ok,
            addresses_fault(addresses@, 0) == addresses_fault(addresses@, seen@.len() as int),
        decreases addresses.len() - seen.len(),
    {
        match validate_address(addresses, &seen) {
            Ok(scoped) => {
                seen.push(scoped);
                assert(seen@ =~= scoped_ips(addresses@, seen@.len() as int));
            },
            Err(message) => return Err(message),
        }
    }
    Ok(seen)
}

/// Checks the configuration of the transparent companion.
pub fn validate_transparent_config(config: &TransparentDnsConfig) -> (result: Result<(), String>)
    ensures
        result is Ok <==> transparent_fault(*config) is None,
        result matches Err(message) ==> transparent_fault(*config) == Some(message@),
{
    if config.listen_addresses.len() == 0 || config.listen_addresses.len() > 16 {
        return Err("transparent DNS requires 1..16 listen addresses".to_owned());
    }
    if config.listen_port == 53 {
        return Err("transparent DNS listen_port must not be 53".to_owned());
    }
    match validate_addresses(&config.listen_addresses) {
        Ok(_) => {},
        Err(message) => return Err(message),
    }
    if config.rules.as_str().as_bytes().len() > MAX_RULE_TEXT_BYTES {
        return Err(oversize_rules_message());
    }
    match encode_transparent_start_command(config) {
        Ok(_) => Ok(()),
        Err(message) => Err(message),
    }
}

/// What is wrong with an address in a ready status.
pub open spec fn ready_address_fault(name: Seq<char>, address: Seq<char>) -> Option<Seq<char>> {
    match scoped_socket_of(address) {
        Err(message) => Some("DNS proxy ready "@ + name + " is invalid: "@ + message),
        Ok(endpoint) => if endpoint.port == 0 {
            Some("DNS proxy ready "@ + name + " has port zero"@)
        } else {
            None
        },
    }
}

fn validate_ready_address(name: &str, address: &str) -> (result: Result<(), String>)
    ensures
        result is Ok <==> ready_address_fault(name@, address@) is None,
        result matches Err(message) ==> ready_address_fault(name@, address@) == Some(message@),
{
    match parse_scoped_socket_addr(address) {
        Err(message) => Err(join4("DNS proxy ready ", name, " is invalid: ", message.as_str())),
        Ok(endpoint) => if endpoint.port == 0 {
            Err(join3("DNS proxy ready ", name, " has port zero"))
        } else {
            Ok(())
        },
    }
}

/// The first fault of the listener addresses from `i` on.
pub open spec fn listed_fault(addresses: Seq<Seq<char>>, i: int) -> Option<Seq<char>>
    decreases addresses.len() - i,
{
    if i < 0 || i >= addresses.len() {
        None
    } else {
        match ready_address_fault("listener"@, addresses[i]) {
            Some(message) => Some(message),
            None => listed_fault(addresses, i + 1),
        }
    }
}

/// What is wrong with a listener list: it starts with the primary address.
pub open spec fn list_fault(primary: Seq<char>, addresses: Seq<Seq<char>>) -> Option<Seq<char>> {
    if addresses.len() == 0 || addresses.len() > 16 || addresses[0] != primary {
        Some("DNS proxy listener list is inconsistent"@)
    } else {
        listed_fault(addresses, 0)
    }
}

fn validate_list(primary: &str, addresses: &[String]) -> (result: Result<(), String>)
    ensures
        result is Ok <==> list_fault(primary@, views(addresses@)) is None,
        result matches Err(message) ==> list_fault(primary@, views(addresses@)) == Some(message@),
{
    let ghost listed = views(addresses@);
    if addresses.len() == 0 || addresses.len() > 16 || !same_text(addresses[0].as_str(), primary) {
        return Err("DNS proxy listener list is inconsistent".to_owned());
    }
    let mut i: usize = 0;
    while i < addresses.len()
        invariant
            i <= addresses.len(),
            listed == views(addresses@),
            list_fault(primary@, listed) == listed_fault(listed, i as int),
        decreases addresses.len() - i,
    {
        assert(listed[i as int] == addresses@[i as int]@);
        match validate_ready_address("listener", addresses[i].as_str()) {
            Ok(()) => {},
            Err(message) => {
                assert(listed_fault(listed, i as int) == Some(message@));
                return Err(message);
            },
        }
        i += 1;
    }
    Ok(())
}

/// The listener list of a status; without one the primary address alone.
pub open spec fn listed(primary: Seq<char>, addresses: Option<Vec<String>>) -> Seq<Seq<char>> {
    match addresses {
        Some(texts) => views(texts@),
        None => seq![primary],
    }
}

/// What a ready status says, or what is wrong with it.
pub open spec fn ready_outcome(wire: WireStatus) -> Result<StatusView, Seq<char>> {
    if wire.udp_addr is None {
        Err("DNS proxy ready status omitted udp_addr"@)
    } else if ready_address_fault("udp_addr"@, wire.udp_addr->0@) is Some {
        Err(ready_address_fault("udp_addr"@, wire.udp_addr->0@)->0)
    } else if wire.tcp_addr is None {
        Err("DNS proxy ready status omitted tcp_addr"@)
    } else if ready_address_fault("tcp_addr"@, wire.tcp_addr->0@) is Some {
        Err(ready_address_fault("tcp_addr"@, wire.tcp_addr->0@)->0)
    } else {
        let udp_addr = wire.udp_addr->0@;
        let tcp_addr = wire.tcp_addr->0@;
        let udp_addrs = listed(udp_addr, wire.udp_addrs);
        let tcp_addrs = listed(tcp_addr, wire.tcp_addrs);
        if list_fault(udp_addr, udp_addrs) is Some {
            Err(list_fault(udp_addr, udp_addrs)->0)
        } else if list_fault(tcp_addr, tcp_addrs) is Some {
            Err(list_fault(tcp_addr, tcp_addrs)->0)
        } else {
            Ok(
                StatusView {
                    udp_addr,
                    tcp_addr,
                    udp_addrs,
                    tcp_addrs,
                    rules_count: match wire.rules_count {
                        Some(count) => count,
                        None => 0,
                    },
                    slots: match wire.slots {
                        Some(slots) => slot_views(slots@),
                        None => Seq::empty(),
                    },
                },
            )
        }
    }
}

fn list_or_primary(addresses: Option<Vec<String>>, primary: &String) -> (result: Vec<String>)
    ensures
        views(result@) == listed(primary@, addresses),
{
    match addresses {
        Some(texts) => texts,
        None => {
            let mut texts: Vec<String> = Vec::new();
            texts.push(primary.clone());
            assert(views(texts@) =~= seq![primary@]);
            texts
        },
    }
}

/// The mathematical value of an outcome with a status.
pub open spec fn status_outcome(outcome: Result<DnsProcessStatus, String>) -> Result<
    StatusView,
    Seq<char>,
> {
    match outcome {
        Ok(status) => Ok(status@),
        Err(message) => Err(message@),
    }
}

/// Reads what a ready status says.
pub fn ready_status(status: WireStatus) -> (result: Result<DnsProcessStatus, String>)
    ensures
        status_outcome(result) == ready_outcome(status),
{
    let udp_addr = match status.udp_addr {
        Some(text) => text,
        None => return Err("DNS proxy ready status omitted udp_addr".to_owned()),
    };
    match validate_ready_address("udp_addr", udp_addr.as_str()) {
        Ok(()) => {},
        Err(message) => return Err(message),
    }
    let tcp_addr = match status.tcp_addr {
        Some(text) => text,
        None => return Err("DNS proxy ready status omitted tcp_addr".to_owned()),
    };
    match validate_ready_address("tcp_addr", tcp_addr.as_str()) {
        Ok(()) => {},
        Err(message) => return Err(message),
    }
    let udp_addrs = list_or_primary(status.udp_addrs, &udp_addr);
    let tcp_addrs = list_or_primary(status.tcp_addrs, &tcp_addr);
    match validate_list(udp_addr.as_str(), &udp_addrs) {
        Ok(()) => {},
        Err(message) => return Err(message),
    }
    match validate_list(tcp_addr.as_str(), &tcp_addrs) {
        Ok(()) => {},
        Err(message) => return Err(message),
    }
    let slots = match status.slots {
        Some(slots) => slots,
        None => {
            let none: Vec<UpstreamSlot> = Vec::new();
            assert(slot_views(none@) =~= Seq::empty());
            none
        },
    };
    let rules_count: u64 = match status.rules_count {
        Some(count) => count,
        None => 0,
    };
    Ok(DnsProcessStatus { udp_addr, tcp_addr, udp_addrs, tcp_addrs, rules_count, slots })
}

/// What is wrong with a transparent listener.
pub open spec fn listener_fault(
    protocol: Seq<char>,
    index: nat,
    expected: ScopedIp,
    actual: ScopedSocketAddr,
    requested_port: u16,
) -> Option<Seq<char>> {
    let subject = "DNS proxy "@ + protocol + " listener "@ + decimal(index);
    if actual.ip != expected {
        Some(subject + " does not match the requested IP/zone"@)
    } else if actual.port == 0 || actual.port == 53 {
        Some(subject + " has an invalid port"@)
    } else if requested_port != 0 && actual.port != requested_port {
        Some(subject + " did not bind the requested port"@)
    } else {
        None
    }
}

fn validate_transparent_listener_endpoint(
    protocol: &str,
    index: usize,
    expected_ip: ScopedIp,
    actual: ScopedSocketAddr,
    requested_port: u16,
) -> (result: Result<(), String>)
    ensures
        result is Ok <==> listener_fault(
            protocol@,
            index as nat,
            expected_ip,
            actual,
            requested_port,
        ) is None,
        result matches Err(message) ==> listener_fault(
            protocol@,
            index as nat,
            expected_ip,
            actual,
            requested_port,
        ) == Some(message@),
{
    let subject = join4("DNS proxy ", protocol, " listener ", decimal_text(index as u64).as_str());
    if actual.ip != expected_ip {
        return Err(join(subject.as_str(), " does not match the requested IP/zone"));
    }
    if actual.port == 0 || actual.port == 53 {
        return Err(join(subject.as_str(), " has an invalid port"));
    }
    if requested_port != 0 && actual.port != requested_port {
        return Err(join(subject.as_str(), " did not bind the requested port"));
    }
    Ok(())
}

/// What is wrong with the `i`-th pair of transparent listeners.
pub open spec fn listener_pair_fault(
    status: DnsProcessStatus,
    config: TransparentDnsConfig,
    i: int,
) -> Option<Seq<char>> {
    let expected = scoped_ip_of(config.listen_addresses@[i]@)->Ok_0;
    match scoped_socket_of(status.udp_addrs@[i]@) {
        Err(message) => Some(message),
        Ok(udp) => match scoped_socket_of(status.tcp_addrs@[i]@) {
            Err(message) => Some(message),
            Ok(tcp) => match listener_fault("UDP"@, i as nat, expected, udp, config.listen_port) {
                Some(message) => Some(message),
                None => listener_fault("TCP"@, i as nat, expected, tcp, config.listen_port),
            },
        },
    }
}

/// The first fault of the transparent listeners from `i` on.
pub open spec fn listener_pairs_fault(
    status: DnsProcessStatus,
    config: TransparentDnsConfig,
    i: int,
) -> Option<Seq<char>>
    decreases config.listen_addresses@.len() - i,
{
    if i < 0 || i >= config.listen_addresses@.len() {
        None
    } else {
        match listener_pair_fault(status, config, i) {
            Some(message) => Some(message),
            None => listener_pairs_fault(status, config, i + 1),
        }
    }
}

/// What is wrong with the endpoint of an upstream slot.
pub open spec fn slot_endpoint_fault(
    protocol: Seq<char>,
    index: nat,
    expected: ScopedIp,
    actual: ScopedSocketAddr,
) -> Option<Seq<char>> {
    if actual.ip != expected || actual.port == 0 || actual.port == 53 {
        Some(
            "DNS proxy "@ + protocol + " upstream slot "@ + decimal(index)
                + " has an invalid IP/zone/port"@,
        )
    } else {
        None
    }
}

fn validate_transparent_slot_endpoint(
    protocol: &str,
    index: usize,
    expected_ip: ScopedIp,
    actual: ScopedSocketAddr,
) -> (result: Result<(), String>)
    ensures
        result is Ok <==> slot_endpoint_fault(
            protocol@,
            index as nat,
            expected_ip,
            actual,
        ) is None,
        result matches Err(message) ==> slot_endpoint_fault(
            protocol@,
            index as nat,
            expected_ip,
            actual,
        ) == Some(message@),
{
    if actual.ip != expected_ip || actual.port == 0 || actual.port == 53 {
        return Err(
            join5(
                "DNS proxy ",
                protocol,
                " upstream slot ",
                decimal_text(index as u64).as_str(),
                " has an invalid IP/zone/port",
            ),
        );
    }
    Ok(())
}

/// The endpoint that a text names.
pub open spec fn endpoint_at(text: Seq<char>) -> ScopedSocketAddr {
    scoped_socket_of(text)->Ok_0
}

/// What is wrong with upstream slot `i`, given those before it.
pub open spec fn slot_fault(
    status: DnsProcessStatus,
    config: TransparentDnsConfig,
    i: int,
) -> Option<Seq<char>> {
    let slot = status.slots@[i];
    let expected = scoped_ip_of(config.listen_addresses@[i / 8]@)->Ok_0;
    let udp = endpoint_at(slot.udp_addr@);
    let tcp = endpoint_at(slot.tcp_addr@);
    if slot.id != i {
        Some("DNS proxy upstream slot IDs are not contiguous"@)
    } else if scoped_socket_of(slot.udp_addr@) is Err {
        Some(scoped_socket_of(slot.udp_addr@)->Err_0)
    } else if scoped_socket_of(slot.tcp_addr@) is Err {
        Some(scoped_socket_of(slot.tcp_addr@)->Err_0)
    } else if slot_endpoint_fault("UDP"@, i as nat, expected, udp) is Some {
        slot_endpoint_fault("UDP"@, i as nat, expected, udp)
    } else if slot_endpoint_fault("TCP"@, i as nat, expected, tcp) is Some {
        slot_endpoint_fault("TCP"@, i as nat, expected, tcp)
    } else if exists|j: int|
        0 <= j < i && (endpoint_at((#[trigger] status.slots@[j]).udp_addr@) == udp || endpoint_at(
            status.slots@[j].tcp_addr@,
        ) == tcp) {
        Some("DNS proxy upstream slot endpoints are duplicated"@)
    } else if (exists|j: int|
        0 <= j < status.udp_addrs@.len() && endpoint_at((#[trigger] status.udp_addrs@[j])@) == udp)
        || (exists|j: int|
        0 <= j < status.tcp_addrs@.len() && endpoint_at((#[trigger] status.tcp_addrs@[j])@) == tcp) {
        Some("DNS proxy upstream slot overlaps a transparent listener"@)
    } else {
        None
    }
}

/// The first fault of the upstream slots from `i` on.
pub open spec fn slots_fault(
    status: DnsProcessStatus,
    config: TransparentDnsConfig,
    i: int,
) -> Option<Seq<char>>
    decreases status.slots@.len() - i,
{
    if i < 0 || i >= status.slots@.len() {
        None
    } else {
        match slot_fault(status, config, i) {
            Some(message) => Some(message),
            None => slots_fault(status, config, i + 1),
        }
    }
}

/// What is wrong with the readiness of a transparent companion: it has to bind
/// every requested address and interface over both transports, and to reserve
/// eight distinct source endpoints for each that are no listeners.
pub open spec fn transparent_ready_fault(
    status: DnsProcessStatus,
    config: TransparentDnsConfig,
) -> Option<Seq<char>> {
    let count = config.listen_addresses@.len();
    if transparent_fault(config) is Some {
        transparent_fault(config)
    } else if status.udp_addrs@.len() != count || status.tcp_addrs@.len() != count {
        Some("DNS proxy transparent listener count does not match the request"@)
    } else if listener_pairs_fault(status, config, 0) is Some {
        listener_pairs_fault(status, config, 0)
    } else if status.slots@.len() != count * 8 {
        Some(
            "DNS proxy reported "@ + decimal(status.slots@.len()) + " upstream slots, expected "@
                + decimal(count * 8),
        )
    } else {
        slots_fault(status, config, 0)
    }
}

/// The endpoints that the first `n` texts name.
pub open spec fn endpoints_upto(texts: Seq<String>, n: int) -> Seq<ScopedSocketAddr> {
    Seq::new(n as nat, |i: int| endpoint_at(texts[i]@))
}

fn has_scoped(endpoints: &[ScopedSocketAddr], endpoint: ScopedSocketAddr) -> (result: bool)
    ensures
        result == endpoints@.contains(endpoint),
{
    let mut i: usize = 0;
    while i < endpoints.len()
        invariant
            i <= endpoints.len(),
            forall|j: int| 0 <= j < i ==> endpoints@[j] != endpoint,
        decreases endpoints.len() - i,
    {
        if endpoints[i] == endpoint {
            assert(endpoints@[i as int] == endpoint);
            return true;
        }
        i += 1;
    }
    false
}

fn validate_listener_pairs(
    status: &DnsProcessStatus,
    config: &TransparentDnsConfig,
    expected: &[ScopedIp],
) -> (result: Result<(Vec<ScopedSocketAddr>, Vec<ScopedSocketAddr>), String>)
    requires
        expected@ == scoped_ips(config.listen_addresses@, config.listen_addresses@.len() as int),
        status.udp_addrs@.len() == config.listen_addresses@.len(),
        status.tcp_addrs@.len() == config.listen_addresses@.len(),
    ensures
        result is Ok <==> listener_pairs_fault(*status, *config, 0) is None,
        result matches Ok((udp, tcp)) ==> udp@ == endpoints_upto(
            status.udp_addrs@,
            status.udp_addrs@.len() as int,
        ) && tcp@ == endpoints_upto(status.tcp_addrs@, status.tcp_addrs@.len() as int),
        result matches Err(message) ==> listener_pairs_fault(*status, *config, 0) == Some(message@),
{
    let mut udp_endpoints: Vec<ScopedSocketAddr> = Vec::new();
    let mut tcp_endpoints: Vec<ScopedSocketAddr> = Vec::new();
    let mut i: usize = 0;
    assert(udp_endpoints@ =~= endpoints_upto(status.udp_addrs@, 0));
    assert(tcp_endpoints@ =~= endpoints_upto(status.tcp_addrs@, 0));
    while i < expected.len()
        invariant
            expected@ == scoped_ips(
                config.listen_addresses@,
                config.listen_addresses@.len() as int,
            ),
            status.udp_addrs@.len() == config.listen_addresses@.len(),
            status.tcp_addrs@.len() == config.listen_addresses@.len(),
            i <= expected.len(),
            udp_endpoints@ == endpoints_upto(status.udp_addrs@, i as int),
            tcp_endpoints@ == endpoints_upto(status.tcp_addrs@, i as int),
            listener_pairs_fault(*status, *config, 0) == listener_pairs_fault(
                *status,
                *config,
                i as int,
            ),
        decreases expected.len() - i,
    {
        assert(expected@[i as int] == scoped_ip_of(config.listen_addresses@[i as int]@)->Ok_0);
        let udp = match parse_scoped_socket_addr(status.udp_addrs[i].as_str()) {
            Ok(endpoint) => endpoint,
            Err(message) => return Err(message),
        };
        let tcp = match parse_scoped_socket_addr(status.tcp_addrs[i].as_str()) {
            Ok(endpoint) => endpoint,
            Err(message) => return Err(message),
        };
        match validate_transparent_listener_endpoint(
            "UDP",
            i,
            expected[i],
            udp,
            config.listen_port,
        ) {
            Ok(()) => {},
            Err(message) => return Err(message),
        }
        match validate_transparent_listener_endpoint(
            "TCP",
            i,
            expected[i],
            tcp,
            config.listen_port,
        ) {
            Ok(()) => {},
            Err(message) => return Err(message),
        }
        udp_endpoints.push(udp);
        tcp_endpoints.push(tcp);
        i += 1;
        assert(udp_endpoints@ =~= endpoints_upto(status.udp_addrs@, i as int));
        assert(tcp_endpoints@ =~= endpoints_upto(status.tcp_addrs@, i as int));
    }
    Ok((udp_endpoints, tcp_endpoints))
}

/// The UDP endpoints of the first `n` slots.
pub open spec fn slot_udp(slots: Seq<UpstreamSlot>, n: int) -> Seq<ScopedSocketAddr> {
    Seq::new(n as nat, |i: int| endpoint_at(slots[i].udp_addr@))
}

/// The TCP endpoints of the first `n` slots.
pub open spec fn slot_tcp(slots: Seq<UpstreamSlot>, n: int) -> Seq<ScopedSocketAddr> {
    Seq::new(n as nat, |i: int| endpoint_at(slots[i].tcp_addr@))
}

fn validate_slot(
    status: &DnsProcessStatus,
    config: &TransparentDnsConfig,
    expected: ScopedIp,
    udp_listeners: &[ScopedSocketAddr],
    tcp_listeners: &[ScopedSocketAddr],
    seen_udp: &[ScopedSocketAddr],
    seen_tcp: &[ScopedSocketAddr],
) -> (result: Result<(ScopedSocketAddr, ScopedSocketAddr), String>)
    requires
        seen_udp@.len() < status.slots@.len(),
        expected == scoped_ip_of(
            config.listen_addresses@[seen_udp@.len() as int / 8]@,
        )->Ok_0,
        seen_udp@ == slot_udp(status.slots@, seen_udp@.len() as int),
        seen_tcp@ == slot_tcp(status.slots@, seen_udp@.len() as int),
        udp_listeners@ == endpoints_upto(status.udp_addrs@, status.udp_addrs@.len() as int),
        tcp_listeners@ == endpoints_upto(status.tcp_addrs@, status.tcp_addrs@.len() as int),
    ensures
        result is Ok <==> slot_fault(*status, *config, seen_udp@.len() as int) is None,
        result matches Ok((udp, tcp)) ==> udp == endpoint_at(
            status.slots@[seen_udp@.len() as int].udp_addr@,
        ) && tcp == endpoint_at(status.slots@[seen_udp@.len() as int].tcp_addr@),
        result matches Err(message) ==> slot_fault(*status, *config, seen_udp@.len() as int)
            == Some(message@),
{
    let index: usize = seen_udp.len();
    let slot = &status.slots[index];
    if slot.id != index {
        return Err("DNS proxy upstream slot IDs are not contiguous".to_owned());
    }
    let udp = match parse_scoped_socket_addr(slot.udp_addr.as_str()) {
        Ok(endpoint) => endpoint,
        Err(message) => return Err(message),
    };
    let tcp = match parse_scoped_socket_addr(slot.tcp_addr.as_str()) {
        Ok(endpoint) => endpoint,
        Err(message) => return Err(message),
    };
    match validate_transparent_slot_endpoint("UDP", index, expected, udp) {
        Ok(()) => {},
        Err(message) => return Err(message),
    }
    match validate_transparent_slot_endpoint("TCP", index, expected, tcp) {
        Ok(()) => {},
        Err(message) => return Err(message),
    }
    let repeated = has_scoped(seen_udp, udp) || has_scoped(seen_tcp, tcp);
    let listening = has_scoped(udp_listeners, udp) || has_scoped(tcp_listeners, tcp);
    proof {
        lemma_slot_repeats(status.slots@, index as int, udp, tcp);
        lemma_listed(status.udp_addrs@, udp);
        lemma_listed(status.tcp_addrs@, tcp);
    }
    if repeated {
        return Err("DNS proxy upstream slot endpoints are duplicated".to_owned());
    }
    if listening {
        return Err("DNS proxy upstream slot overlaps a transparent listener".to_owned());
    }
    Ok((udp, tcp))
}

proof fn lemma_slot_repeats(
    slots: Seq<UpstreamSlot>,
    n: int,
    udp: ScopedSocketAddr,
    tcp: ScopedSocketAddr,
)
    requires
        0 <= n <= slots.len(),
    ensures
        slot_udp(slots, n).contains(udp) || slot_tcp(slots, n).contains(tcp) <==> exists|j: int|
            0 <= j < n && (endpoint_at((#[trigger] slots[j]).udp_addr@) == udp || endpoint_at(
                slots[j].tcp_addr@,
            ) == tcp),
{
    if slot_udp(slots, n).contains(udp) {
        let j = choose|j: int| 0 <= j < n && slot_udp(slots, n)[j] == udp;
        assert(endpoint_at(slots[j].udp_addr@) == udp);
    }
    if slot_tcp(slots, n).contains(tcp) {
        let j = choose|j: int| 0 <= j < n && slot_tcp(slots, n)[j] == tcp;
        assert(endpoint_at(slots[j].tcp_addr@) == tcp);
    }
    if exists|j: int|
        0 <= j < n && (endpoint_at((#[trigger] slots[j]).udp_addr@) == udp || endpoint_at(
            slots[j].tcp_addr@,
        ) == tcp) {
        let j = choose|j: int|
            0 <= j < n && (endpoint_at((#[trigger] slots[j]).udp_addr@) == udp || endpoint_at(
                slots[j].tcp_addr@,
            ) == tcp);
        assert(slot_udp(slots, n)[j] == endpoint_at(slots[j].udp_addr@));
        assert(slot_tcp(slots, n)[j] == endpoint_at(slots[j].tcp_addr@));
    }
}

proof fn lemma_listed(texts: Seq<String>, endpoint: ScopedSocketAddr)
    ensures
        endpoints_upto(texts, texts.len() as int).contains(endpoint) <==> exists|j: int|
            0 <= j < texts.len() && endpoint_at((#[trigger] texts[j])@) == endpoint,
{
    let all = endpoints_upto(texts, texts.len() as int);
    if all.contains(endpoint) {
        let j = choose|j: int| 0 <= j < all.len() && all[j] == endpoint;
        assert(endpoint_at(texts[j]@) == endpoint);
    }
    if exists|j: int| 0 <= j < texts.len() && endpoint_at((#[trigger] texts[j])@) == endpoint {
        let j = choose|j: int|
            0 <= j < texts.len() && endpoint_at((#[trigger] texts[j])@) == endpoint;
        assert(all[j] == endpoint);
    }
}

/// Checks the readiness of a transparent companion against its configuration.
pub fn validate_transparent_listeners(
    status: &DnsProcessStatus,
    config: &TransparentDnsConfig,
) -> (result: Result<(), String>)
    ensures
        result is Ok <==> transparent_ready_fault(*status, *config) is None,
        result matches Err(message) ==> transparent_ready_fault(*status, *config) == Some(message@),
{
    match validate_transparent_config(config) {
        Ok(()) => {},
        Err(message) => return Err(message),
    }
    let expected = match validate_addresses(&config.listen_addresses) {
        Ok(expected) => expected,
        Err(message) => return Err(message),
    };
    if status.udp_addrs.len() != expected.len() || status.tcp_addrs.len() != expected.len() {
        return Err(
            "DNS proxy transparent listener count does not match the request".to_owned(),
        );
    }
    let (udp_listeners, tcp_listeners) = match validate_listener_pairs(status, config, &expected) {
        Ok(pair) => pair,
        Err(message) => return Err(message),
    };
    let expected_slot_count: usize = expected.len() * 8;
    if status.slots.len() != expected_slot_count {
        return Err(
            join4(
                "DNS proxy reported ",
                decimal_text(status.slots.len() as u64).as_str(),
                " upstream slots, expected ",
                decimal_text(expected_slot_count as u64).as_str(),
            ),
        );
    }
    let mut seen_udp: Vec<ScopedSocketAddr> = Vec::new();
    let mut seen_tcp: Vec<ScopedSocketAddr> = Vec::new();
    assert(seen_udp@ =~= slot_udp(status.slots@, 0));
    assert(seen_tcp@ =~= slot_tcp(status.slots@, 0));
    while seen_udp.len() < status.slots.len()
        invariant
            seen_udp@.len() <= status.slots@.len(),
            expected@.len() == config.listen_addresses@.len(),
            status.slots@.len() == expected@.len() * 8,
            expected@ == scoped_ips(
                config.listen_addresses@,
                config.listen_addresses@.len() as int,
            ),
            seen_udp@ == slot_udp(status.slots@, seen_udp@.len() as int),
            seen_tcp@ == slot_tcp(status.slots@, seen_udp@.len() as int),
            udp_listeners@ == endpoints_upto(status.udp_addrs@, status.udp_addrs@.len() as int),
            tcp_listeners@ == endpoints_upto(status.tcp_addrs@, status.tcp_addrs@.len() as int),
            transparent_ready_fault(*status, *config) == slots_fault(
                *status,
                *config,
                seen_udp@.len() as int,
            ),
        decreases status.slots.len() - seen_udp.len(),
    {
        let address: usize = seen_udp.len() / 8;
        assert(expected@[address as int] == scoped_ip_of(
            config.listen_addresses@[address as int]@,
        )->Ok_0);
        match validate_slot(
            status,
            config,
            expected[address],
            &udp_listeners,
            &tcp_listeners,
            &seen_udp,
            &seen_tcp,
        ) {
            Ok((udp, tcp)) => {
                seen_udp.push(udp);
                seen_tcp.push(tcp);
                assert(seen_udp@ =~= slot_udp(status.slots@, seen_udp@.len() as int));
                assert(seen_tcp@ =~= slot_tcp(status.slots@, seen_udp@.len() as int));
            },
            Err(message) => return Err(message),
        }
    }
    Ok(())
}

/// The addresses that a legacy companion has to bind.
pub open spec fn expected_ips(listen_address: Seq<char>, dual_stack: bool) -> Option<Seq<IpAddr>> {
    if dual_stack {
        Some(
            seq![
                IpAddr::V4(Ipv4Addr { a: 127, b: 0, c: 0, d: 1 }),
                IpAddr::V6(
                    Ipv6Addr { s0: 0, s1: 0, s2: 0, s3: 0, s4: 0, s5: 0, s6: 0, s7: 1 },
                ),
            ],
        )
    } else {
        match ip_of(listen_text(listen_address)) {
            Some(ip) => Some(seq![ip]),
            None => None,
        }
    }
}

/// What is wrong with a bound address.
pub open spec fn binding_fault(address: Seq<char>, port: u16, upstream: SocketAddr) -> Option<
    Seq<char>,
> {
    match socket_of(address) {
        None => Some("invalid DNS listener"@),
        Some(endpoint) => if endpoint.spec_ip().canonical() == upstream.spec_ip().canonical()
            && endpoint.spec_port() == upstream.spec_port() {
            Some("DNS proxy upstream points back to its own listener"@)
        } else if port != 0 && endpoint.spec_port() != port {
            Some("DNS proxy did not bind the requested port"@)
        } else {
            None
        },
    }
}

/// The first fault of the bound addresses from `i` on.
pub open spec fn bindings_fault(
    addresses: Seq<Seq<char>>,
    i: int,
    port: u16,
    upstream: SocketAddr,
) -> Option<Seq<char>>
    decreases addresses.len() - i,
{
    if i < 0 || i >= addresses.len() {
        None
    } else {
        match binding_fault(addresses[i], port, upstream) {
            Some(message) => Some(message),
            None => bindings_fault(addresses, i + 1, port, upstream),
        }
    }
}

/// The addresses of bound endpoints.
pub open spec fn bound_ips(addresses: Seq<Seq<char>>) -> Seq<IpAddr> {
    Seq::new(addresses.len(), |i: int| socket_of(addresses[i])->0.spec_ip())
}

/// What is wrong with the bound addresses of one transport.
pub open spec fn transport_fault(
    addresses: Seq<Seq<char>>,
    expected: Seq<IpAddr>,
    port: u16,
    upstream: SocketAddr,
) -> Option<Seq<char>> {
    if bindings_fault(addresses, 0, port, upstream) is Some {
        bindings_fault(addresses, 0, port, upstream)
    } else if sorted_ips(bound_ips(addresses)) != sorted_ips(expected) {
        Some("DNS proxy did not bind every requested address family"@)
    } else {
        None
    }
}

/// What is wrong with the readiness of a companion: it has to bind exactly the
/// requested addresses over both transports, and must not be its own upstream.
pub open spec fn ready_fault(
    status: StatusView,
    listen_address: Seq<char>,
    port: u16,
    dual_stack: bool,
    upstream: Seq<char>,
) -> Option<Seq<char>> {
    match expected_ips(listen_address, dual_stack) {
        None => Some("invalid expected DNS listener"@),
        Some(expected) => match socket_of(trim(upstream)) {
            None => Some("invalid expected upstream"@),
            Some(endpoint) => match transport_fault(status.udp_addrs, expected, port, endpoint) {
                Some(message) => Some(message),
                None => transport_fault(status.tcp_addrs, expected, port, endpoint),
            },
        },
    }
}

fn same_ips(left: &[IpAddr], right: &[IpAddr]) -> (result: bool)
    ensures
        result == (left@ == right@),
{
    if left.len() != right.len() {
        return false;
    }
    let mut i: usize = 0;
    while i < left.len()
        invariant
            i <= left.len() == right.len(),
            forall|j: int| 0 <= j < i ==> left@[j] == right@[j],
        decreases left.len() - i,
    {
        if left[i] != right[i] {
            return false;
        }
        i += 1;
    }
    assert(left@ =~= right@);
    true
}

fn validate_transport(
    addresses: &[String],
    expected: &[IpAddr],
    port: u16,
    upstream: SocketAddr,
) -> (result: Result<(), String>)
    ensures
        result is Ok <==> transport_fault(views(addresses@), expected@, port, upstream) is None,
        result matches Err(message) ==> transport_fault(
            views(addresses@),
            expected@,
            port,
            upstream,
        ) == Some(message@),
{
    let ghost texts = views(addresses@);
    let mut observed: Vec<IpAddr> = Vec::new();
    let mut i: usize = 0;
    while i < addresses.len()
        invariant
            i <= addresses.len(),
            texts == views(addresses@),
            observed@ == bound_ips(texts).take(i as int),
            bindings_fault(texts, 0, port, upstream) == bindings_fault(
                texts,
                i as int,
                port,
                upstream,
            ),
        decreases addresses.len() - i,
    {
        assert(texts[i as int] == addresses@[i as int]@);
        let endpoint = match socket_from_text(addresses[i].as_str()) {
            Some(endpoint) => endpoint,
            None => {
                assert(bindings_fault(texts, i as int, port, upstream) is Some);
                return Err("invalid DNS listener".to_owned());
            },
        };
        if endpoint.ip().to_canonical() == upstream.ip().to_canonical() && endpoint.port()
            == upstream.port() {
            assert(bindings_fault(texts, i as int, port, upstream) is Some);
            return Err("DNS proxy upstream points back to its own listener".to_owned());
        }
        if port != 0 && endpoint.port() != port {
            assert(bindings_fault(texts, i as int, port, upstream) is Some);
            return Err("DNS proxy did not bind the requested port".to_owned());
        }
        observed.push(endpoint.ip());
        i += 1;
        assert(observed@ =~= bound_ips(texts).take(i as int));
    }
    assert(bound_ips(texts).take(i as int) =~= bound_ips(texts));
    let observed_sorted = sort_ips(&observed);
    let expected_sorted = sort_ips(expected);
    if !same_ips(&observed_sorted, &expected_sorted) {
        return Err("DNS proxy did not bind every requested address family".to_owned());
    }
    Ok(())
}

/// Checks the readiness of a companion against its configuration.
pub fn validate_listeners(
    status: &DnsProcessStatus,
    listen_address: &str,
    port: u16,
    dual_stack: bool,
    upstream: &str,
) -> (result: Result<(), String>)
    ensures
        result is Ok <==> ready_fault(
            status@,
            listen_address@,
            port,
            dual_stack,
            upstream@,
        ) is None,
        result matches Err(message) ==> ready_fault(
            status@,
            listen_address@,
            port,
            dual_stack,
            upstream@,
        ) == Some(message@),
{
    let mut expected: Vec<IpAddr> = Vec::new();
    if dual_stack {
        expected.push(IpAddr::V4(Ipv4Addr::new(127, 0, 0, 1)));
        expected.push(IpAddr::V6(Ipv6Addr::new(0, 0, 0, 0, 0, 0, 0, 1)));
        proof {
            lemma_loopbacks(expected@[0], expected@[1]);
            assert(expected@ =~= expected_ips(listen_address@, true)->0);
        }
    } else {
        let listen = listen_chars(listen_address);
        match parse_ip(&listen) {
            Some(ip) => {
                expected.push(ip);
                assert(expected@ =~= seq![ip]);
            },
            None => return Err("invalid expected DNS listener".to_owned()),
        }
    }
    let text = trimmed(upstream);
    let endpoint = match parse_socket(&text) {
        Some(endpoint) => endpoint,
        None => return Err("invalid expected upstream".to_owned()),
    };
    match validate_transport(&status.udp_addrs, &expected, port, endpoint) {
        Ok(()) => {},
        Err(message) => return Err(message),
    }
    validate_transport(&status.tcp_addrs, &expected, port, endpoint)
}

proof fn lemma_loopbacks(v4: IpAddr, v6: IpAddr)
    requires
        v4 matches IpAddr::V4(ip) && ip.octets() == seq![127u8, 0, 0, 1],
        v6 matches IpAddr::V6(ip) && ip.segments() == seq![0u16, 0, 0, 0, 0, 0, 0, 1],
    ensures
        v4 == IpAddr::V4(Ipv4Addr { a: 127, b: 0, c: 0, d: 1 }),
        v6 == IpAddr::V6(Ipv6Addr { s0: 0, s1: 0, s2: 0, s3: 0, s4: 0, s5: 0, s6: 0, s7: 1 }),
{
    let ip = v4->V4_0;
    let o = ip.octets();
    assert(o[0] == ip.a && o[1] == ip.b && o[2] == ip.c && o[3] == ip.d);
    let ip6 = v6->V6_0;
    let s = ip6.segments();
    assert(s[0] == ip6.s0 && s[1] == ip6.s1 && s[2] == ip6.s2 && s[3] == ip6.s3 && s[4] == ip6.s4
        && s[5] == ip6.s5 && s[6] == ip6.s6 && s[7] == ip6.s7);
}

/// Whether a status carries anything besides its name, an error and a count.
pub open spec fn carries_endpoints(wire: WireStatus) -> bool {
    wire.udp_addr is Some || wire.tcp_addr is Some || wire.udp_addrs is Some || wire.tcp_addrs
        is Some || wire.slots is Some
}

fn has_endpoints(wire: &WireStatus) -> (result: bool)
    ensures
        result == carries_endpoints(*wire),
{
    wire.udp_addr.is_some() || wire.tcp_addr.is_some() || wire.udp_addrs.is_some()
        || wire.tcp_addrs.is_some() || wire.slots.is_some()
}

/// Whether a status has an error message that says something.
pub open spec fn has_message(wire: WireStatus) -> bool {
    wire.error matches Some(error) && trim(error@).len() > 0
}

fn says_error(wire: &WireStatus) -> (result: bool)
    ensures
        result == has_message(*wire),
{
    match &wire.error {
        Some(error) => trimmed(error.as_str()).len() > 0,
        None => false,
    }
}

/// The error message of a status.
pub open spec fn wire_message(wire: WireStatus) -> Seq<char> {
    if has_message(wire) {
        wire.error->0@
    } else {
        "DNS proxy reported an error without a message"@
    }
}

/// Reads the error message of a status.
pub fn wire_error(status: &WireStatus) -> (result: String)
    ensures
        result@ == wire_message(*status),
{
    if says_error(status) {
        match &status.error {
            Some(error) => error.clone(),
            None => "DNS proxy reported an error without a message".to_owned(),
        }
    } else {
        "DNS proxy reported an error without a message".to_owned()
    }
}

/// What is wrong with a ready status before it is read.
pub fn validate_ready_status(status: &WireStatus) -> (result: Result<(), String>)
    ensures
        result is Ok <==> status.error is None,
        result matches Err(message) ==> message@
            == "DNS proxy ready status carried an unexpected error"@,
{
    if status.error.is_some() {
        return Err("DNS proxy ready status carried an unexpected error".to_owned());
    }
    Ok(())
}

/// What is wrong with an acknowledgement: it carries nothing.
pub open spec fn empty_fault(wire: WireStatus, context: Seq<char>) -> Option<Seq<char>> {
    if wire.error is Some || carries_endpoints(wire) || wire.rules_count is Some {
        Some("DNS proxy "@ + context + " status carried unexpected fields"@)
    } else {
        None
    }
}

/// Checks an acknowledgement.
pub fn validate_empty_status(status: &WireStatus, context: &str) -> (result: Result<(), String>)
    ensures
        result is Ok <==> empty_fault(*status, context@) is None,
        result matches Err(message) ==> empty_fault(*status, context@) == Some(message@),
{
    if status.error.is_some() || has_endpoints(status) || status.rules_count.is_some() {
        return Err(join3("DNS proxy ", context, " status carried unexpected fields"));
    }
    Ok(())
}

/// What is wrong with an error status: it carries a message and nothing else.
pub open spec fn error_fault(wire: WireStatus, context: Seq<char>) -> Option<Seq<char>> {
    if !has_message(wire) {
        Some("DNS proxy "@ + context + " error status omitted an error message"@)
    } else if carries_endpoints(wire) || wire.rules_count is Some {
        Some("DNS proxy "@ + context + " error status carried unexpected fields"@)
    } else {
        None
    }
}

/// Checks an error status.
pub fn validate_error_status(status: &WireStatus, context: &str) -> (result: Result<(), String>)
    ensures
        result is Ok <==> error_fault(*status, context@) is None,
        result matches Err(message) ==> error_fault(*status, context@) == Some(message@),
{
    if !says_error(status) {
        return Err(join3("DNS proxy ", context, " error status omitted an error message"));
    }
    if has_endpoints(status) || status.rules_count.is_some() {
        return Err(join3("DNS proxy ", context, " error status carried unexpected fields"));
    }
    Ok(())
}

/// Checks the acknowledgement of a reload: it may carry a count of rules. A count
/// of zero is left out by the companion.
pub fn validate_updated_status(status: &WireStatus) -> (result: Result<(), String>)
    ensures
        result is Ok <==> status.error is None && !carries_endpoints(*status),
        result matches Err(message) ==> message@
            == "DNS proxy updated status carried an invalid payload"@,
{
    if status.error.is_some() || has_endpoints(status) {
        return Err("DNS proxy updated status carried an invalid payload".to_owned());
    }
    Ok(())
}

/// Whether an address is written inside ::ffff:0:0/96.
pub open spec fn holds_ipv4(ip: IpAddr) -> bool {
    ip matches IpAddr::V6(v6) && v6.s0 == 0 && v6.s1 == 0 && v6.s2 == 0 && v6.s3 == 0 && v6.s4 == 0
        && v6.s5 == 65535
}

/// An address is read from a text without the white space around it: alone, or before one
/// percent sign and the number of an interface, which is not zero. One that holds an IPv4
/// address is refused.
pub proof fn scoped_addresses_name_one_interface(source: Seq<char>, scoped: ScopedIp)
    ensures
        scoped_ip_of(source) == Ok::<ScopedIp, Seq<char>>(scoped) <==> {
            let text = trim(source);
            let at = first_index(text, '%');
            let zone = text.skip(at + 1);
            &&& !holds_ipv4(scoped.ip)
            &&& text.len() > 0
            &&& at == text.len() ==> ip_of(text) == Some(scoped.ip) && scoped.zone == 0
            &&& at < text.len() ==> {
                &&& ip_of(text.take(at)) == Some(scoped.ip)
                &&& at > 0
                &&& !zone.contains('%')
                &&& read_number(zone, 10, 4_294_967_295) == Ok::<nat, NumberError>(
                    scoped.zone as nat,
                )
                &&& scoped.zone > 0
            }
        },
{
    reveal(scoped_ip_of);
    first_places_are_found(trim(source), '%');
    let text = trim(source);
    let zone = text.skip(first_index(text, '%') + 1);
    numbers_are_sums_of_their_digits(zone, 10, 4_294_967_295);
}

/// An endpoint is read from a text without the white space around it: an address in
/// brackets, a colon and a port; or an address, the only colon and a port.
pub proof fn scoped_endpoints_have_a_port(source: Seq<char>, endpoint: ScopedSocketAddr)
    ensures
        scoped_socket_of(source) == Ok::<ScopedSocketAddr, Seq<char>>(endpoint) <==> {
            let text = trim(source);
            let bracketed = text.len() > 0 && text[0] == '[';
            let close = first_index(text.skip(1), ']') + 1;
            let colon = first_index(text, ':');
            let host = if bracketed {
                text.subrange(1, close)
            } else {
                text.take(colon)
            };
            let port = if bracketed {
                text.skip(close + 2)
            } else {
                text.skip(colon + 1)
            };
            &&& bracketed ==> close + 1 < text.len() && text[close + 1] == ':'
            &&& !bracketed ==> colon < text.len() && !port.contains(':')
            &&& scoped_ip_of(host) == Ok::<ScopedIp, Seq<char>>(endpoint.ip)
            &&& read_number(port, 10, 65_535) == Ok::<nat, NumberError>(endpoint.port as nat)
        },
{
    reveal(scoped_socket_of);
    let text = trim(source);
    let rest = text.skip(1);
    first_places_are_found(rest, ']');
    first_places_are_found(text, ':');
    let close = first_index(rest, ']');
    if text.len() > 0 && text[0] == '[' && close + 1 < rest.len() {
        assert(rest.take(close) =~= text.subrange(1, close + 1));
        assert(rest.skip(close + 2) =~= text.skip(close + 3));
        numbers_are_sums_of_their_digits(rest.skip(close + 2), 10, 65_535);
    } else if text.len() > 0 && text[0] != '[' && first_index(text, ':') < text.len() {
        numbers_are_sums_of_their_digits(text.skip(first_index(text, ':') + 1), 10, 65_535);
    }
}

/// A command is sent exactly where it has, with its line feed, no more than twice eight
/// mebibytes and 64 kibibytes. Rules may have eight mebibytes.
pub proof fn commands_are_bounded(text: Seq<char>, what: Seq<char>, rules: Seq<char>)
    ensures
        ({
            let bytes = vstd::utf8::encode_utf8(text + "\n"@);
            &&& framed(text, what) is Ok <==> bytes.len() <= 2 * 8 * 1024 * 1024 + 64 * 1024
            &&& framed(text, what) matches Ok(sent) ==> sent == bytes
            &&& framed(text, what) is Err ==> framed(text, what) == Err::<Seq<u8>, Seq<char>>(
                what + decimal(16_842_752) + " byte limit"@,
            )
        }),
        vstd::utf8::encode_utf8(rules).len() > 8 * 1024 * 1024 ==> reload_command(rules) == Err::<
            Seq<u8>,
            Seq<char>,
        >("rules exceed the "@ + decimal(8_388_608) + " byte limit"@),
        vstd::utf8::encode_utf8(rules).len() <= 8 * 1024 * 1024 ==> reload_command(rules) == framed(
            "{\"op\":\"reload\",\"rules\":"@ + json_string(rules) + "}"@,
            "DNS proxy reload exceeds the "@,
        ),
{
}

/// A configuration is accepted exactly where the upstream is an endpoint with a port, the
/// listener is on 127.x.x.x or ::1, and rules and command are within their size. Without
/// a listener it is 127.0.0.1.
pub proof fn configurations_listen_on_loopback(config: DnsProcessConfig)
    ensures
        config_fault(config) is None <==> {
            let listen = if trim(config.listen_address@).len() == 0 {
                ip_of("127.0.0.1"@)
            } else {
                ip_of(trim(config.listen_address@))
            };
            let upstream = socket_of(trim(config.upstream@));
            &&& upstream is Some && host_and_port(upstream->0).1 > 0
            &&& match listen {
                None => false,
                Some(IpAddr::V4(v4)) => v4.a == 127,
                Some(IpAddr::V6(v6)) => v6 == (Ipv6Addr {
                    s0: 0,
                    s1: 0,
                    s2: 0,
                    s3: 0,
                    s4: 0,
                    s5: 0,
                    s6: 0,
                    s7: 1,
                }),
            }
            &&& vstd::utf8::encode_utf8(config.rules@).len() <= 8 * 1024 * 1024
            &&& vstd::utf8::encode_utf8(start_text(config) + "\n"@).len() <= 2 * 8 * 1024 * 1024
                + 64 * 1024
        },
{
}

/// Whether an address can be listened on transparently: it is fit, and names an interface
/// exactly where it is in fe80::/10.
pub open spec fn can_be_listened_on(scoped: ScopedIp) -> bool {
    &&& !unfit(scoped.ip)
    &&& scoped.zone != 0 <==> (scoped.ip matches IpAddr::V6(v6) && v6.s0 / 64 == 0x3fa)
}

proof fn lemma_listened_on(addresses: Seq<String>, i: int)
    requires
        0 <= i < addresses.len(),
    ensures
        address_fault(addresses, i) is None <==> {
            &&& scoped_ip_of(addresses[i]@) is Ok
            &&& can_be_listened_on(scoped_ip_of(addresses[i]@)->Ok_0)
            &&& forall|j: int|
                0 <= j < i ==> scoped_ip_of((#[trigger] addresses[j])@) != scoped_ip_of(
                    addresses[i]@,
                )
        },
{
    if let Ok(scoped) = scoped_ip_of(addresses[i]@) {
        scoped_addresses_name_one_interface(addresses[i]@, scoped);
        special_addresses_have_their_prefix(scoped.ip);
        if let IpAddr::V4(v4) = scoped.ip {
            assert(scoped.ip.unspecified() <==> v4.a == 0 && v4.b == 0 && v4.c == 0 && v4.d == 0);
        }
    }
}

proof fn lemma_all_listened_on(addresses: Seq<String>, i: int)
    requires
        0 <= i <= addresses.len(),
    ensures
        addresses_fault(addresses, i) is None <==> forall|k: int|
            i <= k < addresses.len() ==> #[trigger] address_fault(addresses, k) is None,
    decreases addresses.len() - i,
{
    if i < addresses.len() {
        lemma_all_listened_on(addresses, i + 1);
        assert(address_fault(addresses, i) is None || address_fault(addresses, i) is Some);
    }
}

/// A transparent configuration is accepted exactly where it has from one to sixteen
/// addresses, each of which can be listened on and none twice, another port than 53, and
/// rules and command within their size.
pub proof fn transparent_configurations_have_fit_addresses(config: TransparentDnsConfig)
    ensures
        transparent_fault(config) is None <==> {
            let addresses = config.listen_addresses@;
            &&& 1 <= addresses.len() <= 16
            &&& config.listen_port != 53
            &&& forall|i: int|
                0 <= i < addresses.len() ==> scoped_ip_of((#[trigger] addresses[i])@) is Ok
                    && can_be_listened_on(scoped_ip_of(addresses[i]@)->Ok_0)
            &&& forall|i: int, j: int|
                0 <= i < j < addresses.len() ==> scoped_ip_of((#[trigger] addresses[i])@)
                    != scoped_ip_of((#[trigger] addresses[j])@)
            &&& vstd::utf8::encode_utf8(config.rules@).len() <= 8 * 1024 * 1024
            &&& vstd::utf8::encode_utf8(transparent_start_text(config) + "\n"@).len() <= 2 * 8 * 1024
                * 1024 + 64 * 1024
        },
{
    let addresses = config.listen_addresses@;
    lemma_all_listened_on(addresses, 0);
    assert forall|i: int| 0 <= i < addresses.len() implies (#[trigger] address_fault(addresses, i)
        is None <==> {
        &&& scoped_ip_of(addresses[i]@) is Ok
        &&& can_be_listened_on(scoped_ip_of(addresses[i]@)->Ok_0)
        &&& forall|j: int|
            0 <= j < i ==> scoped_ip_of((#[trigger] addresses[j])@) != scoped_ip_of(addresses[i]@)
    }) by {
        lemma_listened_on(addresses, i);
    }
    if addresses_fault(addresses, 0) is None {
        assert forall|i: int, j: int| 0 <= i < j < addresses.len() implies scoped_ip_of(
            (#[trigger] addresses[i])@,
        ) != scoped_ip_of((#[trigger] addresses[j])@) by {
            assert(address_fault(addresses, j) is None);
        }
        assert forall|i: int| 0 <= i < addresses.len() implies scoped_ip_of(
            (#[trigger] addresses[i])@,
        ) is Ok && can_be_listened_on(scoped_ip_of(addresses[i]@)->Ok_0) by {
            assert(address_fault(addresses, i) is None);
        }
    }
}

/// A status that acknowledges carries nothing but its name; one of an error carries a
/// message that is not blank and nothing else.
pub proof fn acknowledgements_carry_nothing(wire: WireStatus, context: Seq<char>)
    ensures
        ({
            let bare = wire.udp_addr is None && wire.tcp_addr is None && wire.udp_addrs is None
                && wire.tcp_addrs is None && wire.slots is None;
            let told = wire.error is Some && trim(wire.error->0@).len() > 0;
            &&& carries_endpoints(wire) <==> !bare
            &&& empty_fault(wire, context) is None <==> bare && wire.error is None
                && wire.rules_count is None
            &&& error_fault(wire, context) is None <==> bare && told && wire.rules_count is None
            &&& told ==> wire_message(wire) == wire.error->0@
            &&& !told ==> wire_message(wire) == "DNS proxy reported an error without a message"@
            &&& !told ==> error_fault(wire, context) == Some(
                "DNS proxy "@ + context + " error status omitted an error message"@,
            )
        }),
{
}

proof fn lemma_all_listed(addresses: Seq<Seq<char>>, i: int)
    requires
        0 <= i <= addresses.len(),
    ensures
        listed_fault(addresses, i) is None <==> forall|k: int|
            i <= k < addresses.len() ==> ready_address_fault(
                "listener"@,
                #[trigger] addresses[k],
            ) is None,
    decreases addresses.len() - i,
{
    if i < addresses.len() {
        lemma_all_listed(addresses, i + 1);
        assert(addresses[i] == addresses[i]);
    }
}

/// Whether a text names an endpoint with a port.
pub open spec fn names_a_port(text: Seq<char>) -> bool {
    scoped_socket_of(text) matches Ok(endpoint) && endpoint.port > 0
}

/// Whether a list of listeners can be that of a status: up to sixteen with a port, the
/// first being the one that is told alone.
pub open spec fn lists_from(primary: Seq<char>, addresses: Seq<Seq<char>>) -> bool {
    &&& 1 <= addresses.len() <= 16
    &&& addresses[0] == primary
    &&& forall|i: int| 0 <= i < addresses.len() ==> names_a_port(#[trigger] addresses[i])
}

/// A ready status is read exactly where it names an endpoint with a port for each
/// transport, and its lists, where it has any, begin with them. What it leaves out is
/// taken for the one endpoint, no rules and no slots.
pub proof fn ready_statuses_name_their_listeners(wire: WireStatus)
    ensures
        ({
            let read = ready_outcome(wire);
            let udp = wire.udp_addr is Some && names_a_port(wire.udp_addr->0@) && (wire.udp_addrs
                is Some ==> lists_from(wire.udp_addr->0@, views(wire.udp_addrs->0@)));
            let tcp = wire.tcp_addr is Some && names_a_port(wire.tcp_addr->0@) && (wire.tcp_addrs
                is Some ==> lists_from(wire.tcp_addr->0@, views(wire.tcp_addrs->0@)));
            &&& read is Ok <==> udp && tcp
            &&& read matches Ok(status) ==> {
                &&& status.udp_addr == wire.udp_addr->0@ && status.tcp_addr == wire.tcp_addr->0@
                &&& wire.udp_addrs is Some ==> status.udp_addrs == views(wire.udp_addrs->0@)
                &&& wire.udp_addrs is None ==> status.udp_addrs == seq![status.udp_addr]
                &&& wire.tcp_addrs is Some ==> status.tcp_addrs == views(wire.tcp_addrs->0@)
                &&& wire.tcp_addrs is None ==> status.tcp_addrs == seq![status.tcp_addr]
                &&& wire.rules_count is Some ==> status.rules_count == wire.rules_count->0
                &&& wire.rules_count is None ==> status.rules_count == 0
                &&& wire.slots is Some ==> status.slots.len() == wire.slots->0@.len()
                &&& wire.slots is None ==> status.slots.len() == 0
            }
        }),
{
    if wire.udp_addr is Some && wire.tcp_addr is Some {
        let udp = listed(wire.udp_addr->0@, wire.udp_addrs);
        let tcp = listed(wire.tcp_addr->0@, wire.tcp_addrs);
        lemma_all_listed(udp, 0);
        lemma_all_listed(tcp, 0);
        if wire.udp_addrs is None {
            assert(udp[0] == wire.udp_addr->0@);
        }
        if wire.tcp_addrs is None {
            assert(tcp[0] == wire.tcp_addr->0@);
        }
    }
}

/// Whether a listener is the one that was asked for: at the address, on the port if one was
/// asked for, and on neither 0 nor 53.
pub open spec fn listens_as_asked(text: Seq<char>, address: Seq<char>, port: u16) -> bool {
    scoped_socket_of(text) matches Ok(endpoint) && scoped_ip_of(address) == Ok::<
        ScopedIp,
        Seq<char>,
    >(endpoint.ip) && endpoint.port != 0 && endpoint.port != 53 && (port == 0 || endpoint.port
        == port)
}

/// Whether a slot is in order: numbered by its place, with an endpoint of each transport at
/// the address that every eight slots share, on neither 0 nor 53, that no slot before it
/// and no listener of its transport has.
pub open spec fn slot_in_order(
    status: DnsProcessStatus,
    config: TransparentDnsConfig,
    i: int,
) -> bool {
    let slot = status.slots@[i];
    let address = config.listen_addresses@[i / 8]@;
    &&& slot.id == i
    &&& listens_as_asked(slot.udp_addr@, address, 0)
    &&& listens_as_asked(slot.tcp_addr@, address, 0)
    &&& forall|j: int|
        0 <= j < i ==> scoped_socket_of((#[trigger] status.slots@[j]).udp_addr@)
            != scoped_socket_of(slot.udp_addr@) && scoped_socket_of(status.slots@[j].tcp_addr@)
            != scoped_socket_of(slot.tcp_addr@)
    &&& forall|j: int|
        0 <= j < status.udp_addrs@.len() ==> scoped_socket_of((#[trigger] status.udp_addrs@[j])@)
            != scoped_socket_of(slot.udp_addr@)
    &&& forall|j: int|
        0 <= j < status.tcp_addrs@.len() ==> scoped_socket_of((#[trigger] status.tcp_addrs@[j])@)
            != scoped_socket_of(slot.tcp_addr@)
}

proof fn lemma_pairs_listen(status: DnsProcessStatus, config: TransparentDnsConfig, i: int)
    requires
        0 <= i <= config.listen_addresses@.len(),
        forall|k: int|
            0 <= k < config.listen_addresses@.len() ==> scoped_ip_of(
                (#[trigger] config.listen_addresses@[k])@,
            ) is Ok,
    ensures
        listener_pairs_fault(status, config, i) is None <==> forall|k: int|
            i <= k < config.listen_addresses@.len() ==> listens_as_asked(
                status.udp_addrs@[k]@,
                (#[trigger] config.listen_addresses@[k])@,
                config.listen_port,
            ) && listens_as_asked(
                status.tcp_addrs@[k]@,
                config.listen_addresses@[k]@,
                config.listen_port,
            ),
    decreases config.listen_addresses@.len() - i,
{
    if i < config.listen_addresses@.len() {
        lemma_pairs_listen(status, config, i + 1);
        assert(scoped_ip_of(config.listen_addresses@[i]@) is Ok);
        assert(listener_pair_fault(status, config, i) is None <==> listens_as_asked(
            status.udp_addrs@[i]@,
            config.listen_addresses@[i]@,
            config.listen_port,
        ) && listens_as_asked(
            status.tcp_addrs@[i]@,
            config.listen_addresses@[i]@,
            config.listen_port,
        ));
    }
}

proof fn lemma_slots_in_order(status: DnsProcessStatus, config: TransparentDnsConfig, i: int)
    requires
        0 <= i <= status.slots@.len() == 8 * config.listen_addresses@.len(),
        status.udp_addrs@.len() == config.listen_addresses@.len(),
        status.tcp_addrs@.len() == config.listen_addresses@.len(),
        forall|k: int|
            0 <= k < config.listen_addresses@.len() ==> scoped_ip_of(
                (#[trigger] config.listen_addresses@[k])@,
            ) is Ok,
        forall|k: int|
            0 <= k < config.listen_addresses@.len() ==> scoped_socket_of(
                (#[trigger] status.udp_addrs@[k])@,
            ) is Ok,
        forall|k: int|
            0 <= k < config.listen_addresses@.len() ==> scoped_socket_of(
                (#[trigger] status.tcp_addrs@[k])@,
            ) is Ok,
        forall|k: int| 0 <= k < i ==> #[trigger] slot_in_order(status, config, k),
    ensures
        slots_fault(status, config, i) is None <==> forall|k: int|
            i <= k < status.slots@.len() ==> #[trigger] slot_in_order(status, config, k),
    decreases status.slots@.len() - i,
{
    if i < status.slots@.len() {
        let slot = status.slots@[i];
        let udp = endpoint_at(slot.udp_addr@);
        let tcp = endpoint_at(slot.tcp_addr@);
        assert(0 <= i / 8 < config.listen_addresses@.len());
        assert(scoped_ip_of(config.listen_addresses@[i / 8]@) is Ok);
        assert forall|j: int| 0 <= j < i implies scoped_socket_of(
            (#[trigger] status.slots@[j]).udp_addr@,
        ) is Ok && scoped_socket_of(status.slots@[j].tcp_addr@) is Ok by {
            assert(slot_in_order(status, config, j));
        }
        assert(slot_fault(status, config, i) is None <==> slot_in_order(status, config, i)) by {
            if slot_fault(status, config, i) is None {
                assert forall|j: int| 0 <= j < i implies scoped_socket_of(
                    (#[trigger] status.slots@[j]).udp_addr@,
                ) != scoped_socket_of(slot.udp_addr@) && scoped_socket_of(
                    status.slots@[j].tcp_addr@,
                ) != scoped_socket_of(slot.tcp_addr@) by {
                    assert(endpoint_at(status.slots@[j].udp_addr@) != udp);
                }
            }
            if slot_in_order(status, config, i) {
                if exists|j: int|
                    0 <= j < i && (endpoint_at((#[trigger] status.slots@[j]).udp_addr@) == udp
                        || endpoint_at(status.slots@[j].tcp_addr@) == tcp) {
                    let j = choose|j: int|
                        0 <= j < i && (endpoint_at((#[trigger] status.slots@[j]).udp_addr@) == udp
                            || endpoint_at(status.slots@[j].tcp_addr@) == tcp);
                    assert(scoped_socket_of(status.slots@[j].udp_addr@) is Ok);
                    assert(false);
                }
            }
        }
        if slot_in_order(status, config, i) {
            lemma_slots_in_order(status, config, i + 1);
        } else {
            assert(!slot_in_order(status, config, i));
        }
    }
}

/// A transparent companion is ready exactly where its configuration is accepted, it listens
/// over both transports as asked at every address in order, and it has reserved eight
/// slots for each, all of them in order.
pub proof fn transparent_companions_bind_what_was_asked(
    status: DnsProcessStatus,
    config: TransparentDnsConfig,
)
    ensures
        transparent_ready_fault(status, config) is None <==> {
            let count = config.listen_addresses@.len();
            &&& transparent_fault(config) is None
            &&& status.udp_addrs@.len() == count && status.tcp_addrs@.len() == count
            &&& forall|k: int|
                0 <= k < count ==> listens_as_asked(
                    status.udp_addrs@[k]@,
                    (#[trigger] config.listen_addresses@[k])@,
                    config.listen_port,
                ) && listens_as_asked(
                    status.tcp_addrs@[k]@,
                    config.listen_addresses@[k]@,
                    config.listen_port,
                )
            &&& status.slots@.len() == 8 * count
            &&& forall|k: int| 0 <= k < 8 * count ==> #[trigger] slot_in_order(status, config, k)
        },
{
    let count = config.listen_addresses@.len();
    if transparent_fault(config) is None && status.udp_addrs@.len() == count
        && status.tcp_addrs@.len() == count {
        transparent_configurations_have_fit_addresses(config);
        lemma_pairs_listen(status, config, 0);
        if listener_pairs_fault(status, config, 0) is None && status.slots@.len() == count * 8 {
            assert forall|k: int| 0 <= k < count implies scoped_socket_of(
                (#[trigger] status.udp_addrs@[k])@,
            ) is Ok by {
                assert(scoped_ip_of(config.listen_addresses@[k]@) is Ok);
            }
            assert forall|k: int| 0 <= k < count implies scoped_socket_of(
                (#[trigger] status.tcp_addrs@[k])@,
            ) is Ok by {
                assert(scoped_ip_of(config.listen_addresses@[k]@) is Ok);
            }
            lemma_slots_in_order(status, config, 0);
        }
    }
}

/// Whether an address is bound as asked: it is an endpoint on the port that was asked for,
/// if any, and not the upstream itself.
pub open spec fn binds_as_asked(text: Seq<char>, port: u16, upstream: SocketAddr) -> bool {
    socket_of(text) matches Some(endpoint) && (port == 0 || host_and_port(endpoint).1 == port) && !(
    host_and_port(endpoint).0.canonical() == host_and_port(upstream).0.canonical()
        && host_and_port(endpoint).1 == host_and_port(upstream).1)
}

proof fn lemma_all_bound(addresses: Seq<Seq<char>>, i: int, port: u16, upstream: SocketAddr)
    requires
        0 <= i <= addresses.len(),
    ensures
        bindings_fault(addresses, i, port, upstream) is None <==> forall|k: int|
            i <= k < addresses.len() ==> binds_as_asked(#[trigger] addresses[k], port, upstream),
    decreases addresses.len() - i,
{
    if i < addresses.len() {
        lemma_all_bound(addresses, i + 1, port, upstream);
        assert(binding_fault(addresses[i], port, upstream) is None <==> binds_as_asked(
            addresses[i],
            port,
            upstream,
        ));
    }
}

/// The listeners of a transport are accepted only where each is bound as asked, there are
/// as many as addresses, and the addresses are the same; in the order of the addresses
/// they are accepted whenever each is bound as asked.
pub proof fn companions_bind_every_family(
    addresses: Seq<Seq<char>>,
    expected: Seq<IpAddr>,
    port: u16,
    upstream: SocketAddr,
)
    ensures
        transport_fault(addresses, expected, port, upstream) is None ==> {
            &&& addresses.len() == expected.len()
            &&& forall|k: int|
                0 <= k < addresses.len() ==> binds_as_asked(#[trigger] addresses[k], port, upstream)
                    && expected.contains(host_and_port(socket_of(addresses[k])->0).0)
            &&& forall|ip: IpAddr| #[trigger]
                expected.contains(ip) ==> bound_ips(addresses).contains(ip)
        },
        addresses.len() == expected.len() && (forall|k: int|
            0 <= k < addresses.len() ==> binds_as_asked(#[trigger] addresses[k], port, upstream)
                && host_and_port(socket_of(addresses[k])->0).0 == expected[k]) ==> transport_fault(
            addresses,
            expected,
            port,
            upstream,
        ) is None,
{
    let bound = bound_ips(addresses);
    lemma_all_bound(addresses, 0, port, upstream);
    lemma_sorted_ips(bound);
    lemma_sorted_ips(expected);
    if transport_fault(addresses, expected, port, upstream) is None {
        assert forall|ip: IpAddr| #[trigger] expected.contains(ip) implies bound.contains(ip) by {
            assert(sorted_ips(expected).contains(ip));
            assert(sorted_ips(bound).contains(ip));
        }
        assert forall|k: int| 0 <= k < addresses.len() implies binds_as_asked(
            #[trigger] addresses[k],
            port,
            upstream,
        ) && expected.contains(host_and_port(socket_of(addresses[k])->0).0) by {
            let ip = bound[k];
            assert(bound.contains(ip));
            assert(sorted_ips(bound).contains(ip));
            assert(sorted_ips(expected).contains(ip));
        }
    }
    if addresses.len() == expected.len() && (forall|k: int|
        0 <= k < addresses.len() ==> binds_as_asked(#[trigger] addresses[k], port, upstream)
            && host_and_port(socket_of(addresses[k])->0).0 == expected[k]) {
        assert forall|k: int| 0 <= k < bound.len() implies bound[k] == expected[k] by {
            assert(binds_as_asked(addresses[k], port, upstream));
        }
        assert(bound =~= expected);
    }
}

} // verus!
