//! How the system spells the DNS settings of an interface: lists of servers as text,
//! and the value that holds the list of the IPv6 stack.

use crate::dns_configuration::{
    ConfigurationFault, DnsConfigurationError, DnsFamily, DnsSetting, DnsUnavailableReason,
    SettingView, MAX_ADAPTERS, MAX_DNS_SERVERS,
};
use crate::dns_plan::{all_accepted, family_matches};
use crate::guid::GuidParts;
use crate::net::{ip_of, parse_ip, part_views, IpAddr};
use crate::net_text::{address_texts_are_read_back, lemma_address_text, written_digit};
use crate::text::{
    chars_of, decimal, decimal_text, join3, join4, trim, trim_end, trimmed, white_space,
};
use vstd::prelude::*;
use vstd::string::*;

verus! {

/// How many characters the list of an interface may have.
pub const MAX_NATIVE_STRING_CHARS: usize = 4096;

/// How many bytes the value of an interface may have: the characters and a
/// terminator.
pub const MAX_REGISTRY_VALUE_BYTES: usize = 8194;

/// The type of a value that is text.
pub const REG_SZ: u32 = 1;

/// The code of a value that is not there.
pub const ERROR_FILE_NOT_FOUND_CODE: u32 = 2;

/// The code of a function that the system does not have.
pub const ERROR_PROC_NOT_FOUND_CODE: u32 = 127;

/// Why a setting could not be read.
#[derive(Clone, Copy, Debug, PartialEq, Eq, Structural)]
pub enum QueryError {
    Code(u32),
    InvalidData,
}

impl QueryError {
    /// Why the setting is unavailable.
    pub open spec fn reason(self) -> DnsUnavailableReason {
        match self {
            QueryError::Code(code) => if code == ERROR_PROC_NOT_FOUND_CODE {
                DnsUnavailableReason::Unsupported
            } else {
                DnsUnavailableReason::QueryFailed { code }
            },
            QueryError::InvalidData => DnsUnavailableReason::InvalidData,
        }
    }

    /// Why the setting is unavailable.
    pub fn unavailable_reason(self) -> (result: DnsUnavailableReason)
        ensures
            result == self.reason(),
    {
        match self {
            QueryError::Code(code) => if code == ERROR_PROC_NOT_FOUND_CODE {
                DnsUnavailableReason::Unsupported
            } else {
                DnsUnavailableReason::QueryFailed { code }
            },
            QueryError::InvalidData => DnsUnavailableReason::InvalidData,
        }
    }
}

/// A setting for a snapshot: one that could not be read is unavailable.
pub fn snapshot_setting(queried: Result<DnsSetting, QueryError>) -> (result: DnsSetting)
    ensures
        match queried {
            Ok(setting) => result == setting,
            Err(error) => result@ == (SettingView::Unavailable { reason: error.reason() }),
        },
{
    match queried {
        Ok(setting) => setting,
        Err(error) => DnsSetting::Unavailable { reason: error.unavailable_reason() },
    }
}

/// A setting that was read by itself, or what is told of the failure.
pub fn get_stack(queried: Result<DnsSetting, QueryError>, guid: GuidParts, family: DnsFamily) -> (result:
    Result<DnsSetting, DnsConfigurationError>)
    ensures
        match queried {
            Ok(setting) => result matches Ok(own) && own == setting,
            Err(QueryError::Code(code)) => result matches Err(error) && error@ == (
            ConfigurationFault::NativeQuery { guid: guid.spec_text(), family, code }),
            Err(QueryError::InvalidData) => result matches Err(error) && error@
                == ConfigurationFault::InvalidSnapshot(
                "Windows returned malformed DNS interface data"@,
            ),
        },
{
    match queried {
        Ok(setting) => Ok(setting),
        Err(QueryError::Code(code)) => Err(
            DnsConfigurationError::NativeQuery { interface_guid: guid.text(), family, code },
        ),
        Err(QueryError::InvalidData) => Err(
            DnsConfigurationError::InvalidSnapshot(
                "Windows returned malformed DNS interface data".to_owned(),
            ),
        ),
    }
}

/// Whether a character stands between two servers of a list.
pub open spec fn separates(c: char) -> bool {
    c == ',' || c == ' ' || c == '\t' || c == '\n' || c == '\r' || c == '\u{c}'
}

/// What a list holds: the words that have ended, and the one that has not.
pub open spec fn scanned(text: Seq<char>) -> (Seq<Seq<char>>, Seq<char>)
    decreases text.len(),
{
    if text.len() == 0 {
        (Seq::empty(), Seq::empty())
    } else {
        let (words, word) = scanned(text.drop_last());
        if separates(text.last()) {
            (
                if word.len() > 0 {
                    words.push(word)
                } else {
                    words
                },
                Seq::empty(),
            )
        } else {
            (words, word.push(text.last()))
        }
    }
}

/// The words of a list.
pub open spec fn words_of(text: Seq<char>) -> Seq<Seq<char>> {
    let (words, word) = scanned(text);
    if word.len() > 0 {
        words.push(word)
    } else {
        words
    }
}

fn split_words(text: &str) -> (result: Vec<Vec<char>>)
    ensures
        part_views(result@) == words_of(text@),
{
    let chars = chars_of(text);
    let mut words: Vec<Vec<char>> = Vec::new();
    let mut word: Vec<char> = Vec::new();
    let mut i: usize = 0;
    assert(part_views(words@) =~= Seq::<Seq<char>>::empty());
    assert(chars@.take(0) =~= Seq::<char>::empty());
    while i < chars.len()
        invariant
            i <= chars.len(),
            chars@ == text@,
            (part_views(words@), word@) == scanned(chars@.take(i as int)),
        decreases chars.len() - i,
    {
        let c = chars[i];
        assert(chars@.take(i + 1).drop_last() =~= chars@.take(i as int));
        assert(chars@.take(i + 1).last() == c);
        if c == ',' || c == ' ' || c == '\t' || c == '\n' || c == '\r' || c == '\u{c}' {
            if word.len() > 0 {
                let ghost before = words@;
                let ghost ended = word@;
                words.push(word);
                assert(part_views(words@) =~= part_views(before).push(ended));
                word = Vec::new();
            }
            assert(word@ =~= Seq::<char>::empty());
        } else {
            word.push(c);
        }
        i += 1;
    }
    assert(chars@.take(i as int) =~= text@);
    if word.len() > 0 {
        let ghost before = words@;
        let ghost ended = word@;
        words.push(word);
        assert(part_views(words@) =~= part_views(before).push(ended));
    }
    words
}

/// The servers that the first `n` words name.
pub open spec fn named_servers(words: Seq<Seq<char>>, family: DnsFamily, n: int) -> Option<
    Seq<IpAddr>,
>
    decreases n,
{
    if n <= 0 {
        Some(Seq::empty())
    } else {
        match named_servers(words, family, n - 1) {
            None => None,
            Some(servers) => match ip_of(words[n - 1]) {
                None => None,
                Some(address) => if !family.spec_accepts(address) || servers.len()
                    >= MAX_DNS_SERVERS {
                    None
                } else {
                    Some(servers.push(address))
                },
            },
        }
    }
}

/// The servers of a list: at least one, not too many, all of the stack.
pub open spec fn server_list(text: Seq<char>, family: DnsFamily) -> Option<Seq<IpAddr>> {
    let words = words_of(text);
    match named_servers(words, family, words.len() as int) {
        None => None,
        Some(servers) => if servers.len() == 0 {
            None
        } else {
            Some(servers)
        },
    }
}

proof fn lemma_named_servers(words: Seq<Seq<char>>, family: DnsFamily, n: int, m: int)
    requires
        0 <= n <= m,
        named_servers(words, family, n) is None,
    ensures
        named_servers(words, family, m) is None,
    decreases m,
{
    if n < m {
        lemma_named_servers(words, family, n, m - 1);
    }
}

/// Reads a list of servers.
pub fn parse_server_list(text: &str, family: DnsFamily) -> (result: Result<Vec<IpAddr>, QueryError>)
    ensures
        match server_list(text@, family) {
            Some(servers) => result matches Ok(own) && own@ == servers,
            None => result matches Err(error) && error == QueryError::InvalidData,
        },
{
    let words = split_words(text);
    let ghost all = part_views(words@);
    let mut servers: Vec<IpAddr> = Vec::new();
    let mut i: usize = 0;
    while i < words.len()
        invariant
            i <= words.len(),
            all == part_views(words@),
            all == words_of(text@),
            named_servers(all, family, i as int) == Some(servers@),
        decreases words.len() - i,
    {
        assert(all[i as int] == words@[i as int]@);
        let address = match parse_ip(words[i].as_slice()) {
            Some(address) => address,
            None => {
                proof {
                    lemma_named_servers(all, family, i + 1, all.len() as int);
                }
                return Err(QueryError::InvalidData);
            },
        };
        if !family.accepts(address) || servers.len() >= MAX_DNS_SERVERS {
            proof {
                lemma_named_servers(all, family, i + 1, all.len() as int);
            }
            return Err(QueryError::InvalidData);
        }
        servers.push(address);
        i += 1;
    }
    if servers.len() == 0 {
        return Err(QueryError::InvalidData);
    }
    Ok(servers)
}

/// The setting that a list spells: a list without a word is none at all.
pub open spec fn setting_of_text(text: Seq<char>, family: DnsFamily) -> Result<
    SettingView,
    QueryError,
> {
    if trim(text).len() == 0 {
        Ok(SettingView::Automatic)
    } else {
        match server_list(text, family) {
            Some(servers) => Ok(SettingView::Static { servers }),
            None => Err(QueryError::InvalidData),
        }
    }
}

fn read_setting(text: &str, family: DnsFamily) -> (result: Result<DnsSetting, QueryError>)
    ensures
        match setting_of_text(text@, family) {
            Ok(setting) => result matches Ok(own) && own@ == setting,
            Err(error) => result matches Err(own) && own == error,
        },
{
    if trimmed(text).len() == 0 {
        return Ok(DnsSetting::Automatic);
    }
    match parse_server_list(text, family) {
        Ok(servers) => Ok(DnsSetting::Static { servers }),
        Err(error) => Err(error),
    }
}

/// The character of a pair of surrogates.
pub open spec fn paired(high: u16, low: u16) -> char {
    (0x10000 + (high - 0xD800) * 0x400 + (low - 0xDC00)) as char
}

/// The text of UTF-16 code units; `None` where a surrogate stands alone.
pub open spec fn utf16_text(units: Seq<u16>) -> Option<Seq<char>>
    decreases units.len(),
{
    if units.len() == 0 {
        Some(Seq::empty())
    } else if units[0] < 0xD800 || units[0] > 0xDFFF {
        match utf16_text(units.skip(1)) {
            Some(rest) => Some(seq![units[0] as char] + rest),
            None => None,
        }
    } else if units[0] < 0xDC00 && units.len() > 1 && 0xDC00 <= units[1] <= 0xDFFF {
        match utf16_text(units.skip(2)) {
            Some(rest) => Some(seq![paired(units[0], units[1])] + rest),
            None => None,
        }
    } else {
        None
    }
}

/// `String::from_utf16` decodes UTF-16 code units, and fails where they are not valid
/// UTF-16: where a surrogate is not part of a pair.
#[verifier::external_body]
fn decode_utf16(units: &[u16]) -> (result: Option<String>)
    ensures
        match utf16_text(units@) {
            Some(text) => result matches Some(own) && own@ == text,
            None => result is None,
        },
{
    match String::from_utf16(units) {
        Ok(text) => Some(text),
        Err(_) => None,
    }
}

/// The setting that code units spell.
pub open spec fn setting_of_units(units: Seq<u16>, family: DnsFamily) -> Result<
    SettingView,
    QueryError,
> {
    match utf16_text(units) {
        None => Err(QueryError::InvalidData),
        Some(text) => setting_of_text(text, family),
    }
}

/// The setting that the system tells of a stack: nothing, the code units before the
/// terminator, or no terminator within the bound.
pub open spec fn native_setting(name_server: Option<Seq<u16>>, family: DnsFamily) -> Result<
    SettingView,
    QueryError,
> {
    match name_server {
        None => Ok(SettingView::Automatic),
        Some(units) => if units.len() >= MAX_NATIVE_STRING_CHARS {
            Err(QueryError::InvalidData)
        } else {
            setting_of_units(units, family)
        },
    }
}

/// Takes what the system tells of a stack. The code units are those before the
/// terminator, or as many as are looked at where there is none.
pub fn decode_settings(name_server: Option<Vec<u16>>, family: DnsFamily) -> (result: Result<
    DnsSetting,
    QueryError,
>)
    ensures
        match native_setting(
            match name_server {
                Some(units) => Some(units@),
                None => None,
            },
            family,
        ) {
            Ok(setting) => result matches Ok(own) && own@ == setting,
            Err(error) => result matches Err(own) && own == error,
        },
{
    match name_server {
        None => Ok(DnsSetting::Automatic),
        Some(units) => {
            if units.len() >= MAX_NATIVE_STRING_CHARS {
                return Err(QueryError::InvalidData);
            }
            match decode_utf16(units.as_slice()) {
                None => Err(QueryError::InvalidData),
                Some(text) => read_setting(text.as_str(), family),
            }
        },
    }
}

/// Where the value of an interface is kept.
pub open spec fn registry_path(guid: GuidParts) -> Seq<char> {
    "SYSTEM\\CurrentControlSet\\Services\\Tcpip6\\Parameters\\Interfaces\\{"@ + guid.spec_text()
        + "}"@
}

/// Where the value of an interface is kept.
pub fn registry_key(guid: GuidParts) -> (result: String)
    ensures
        result@ == registry_path(guid),
{
    join3(
        "SYSTEM\\CurrentControlSet\\Services\\Tcpip6\\Parameters\\Interfaces\\{",
        guid.text().as_str(),
        "}",
    )
}

/// Takes what opening the key of an interface came to: its code, and whether there is
/// a key.
pub fn registry_opened(code: u32, has_key: bool) -> (result: Result<(), QueryError>)
    ensures
        result is Ok <==> code == 0 && has_key,
        result matches Err(error) ==> error == (if code != 0 {
            QueryError::Code(code)
        } else {
            QueryError::InvalidData
        }),
{
    if code != 0 {
        return Err(QueryError::Code(code));
    }
    if !has_key {
        return Err(QueryError::InvalidData);
    }
    Ok(())
}

/// What the type and the size of a value say: that there is none, or how many bytes
/// are to be read.
pub open spec fn sized(code: u32, kind: u32, size: u32) -> Result<Option<u32>, QueryError> {
    if code == ERROR_FILE_NOT_FOUND_CODE {
        Ok(None)
    } else if code != 0 {
        Err(QueryError::Code(code))
    } else if kind != REG_SZ {
        Err(QueryError::InvalidData)
    } else if size == 0 {
        Ok(None)
    } else if size > MAX_REGISTRY_VALUE_BYTES || size % 2 != 0 {
        Err(QueryError::InvalidData)
    } else {
        Ok(Some(size))
    }
}

/// Takes the type and the size of a value; `None` where the stack is automatic.
pub fn registry_sized(code: u32, kind: u32, size: u32) -> (result: Result<Option<u32>, QueryError>)
    ensures
        result == sized(code, kind, size),
{
    if code == ERROR_FILE_NOT_FOUND_CODE {
        return Ok(None);
    }
    if code != 0 {
        return Err(QueryError::Code(code));
    }
    if kind != REG_SZ {
        return Err(QueryError::InvalidData);
    }
    if size == 0 {
        return Ok(None);
    }
    if size as usize > MAX_REGISTRY_VALUE_BYTES || size % 2 != 0 {
        return Err(QueryError::InvalidData);
    }
    Ok(Some(size))
}

/// The code units of some bytes, the lower byte of each first.
pub open spec fn units_of(bytes: Seq<u8>) -> Seq<u16> {
    Seq::new(bytes.len() / 2, |i: int| (bytes[2 * i] + 256 * bytes[2 * i + 1]) as u16)
}

fn collect_units(bytes: &[u8]) -> (result: Vec<u16>)
    requires
        bytes@.len() % 2 == 0,
    ensures
        result@ == units_of(bytes@),
{
    let mut units: Vec<u16> = Vec::new();
    let count: usize = bytes.len() / 2;
    let mut i: usize = 0;
    while i < count
        invariant
            i <= count,
            count == bytes@.len() / 2,
            bytes@.len() == bytes.len(),
            bytes@.len() % 2 == 0,
            units@ =~= units_of(bytes@).take(i as int),
        decreases count - i,
    {
        let low: u16 = bytes[2 * i] as u16;
        let high: u16 = bytes[2 * i + 1] as u16;
        let unit: u16 = low + 256 * high;
        units.push(unit);
        assert(units_of(bytes@)[i as int] == unit);
        assert(units@ =~= units_of(bytes@).take(i + 1));
        i += 1;
    }
    assert(units_of(bytes@).take(i as int) =~= units_of(bytes@));
    units
}

/// Where the terminator of a text is; its length where there is none.
pub open spec fn terminator(units: Seq<u16>) -> int
    decreases units.len(),
{
    if units.len() == 0 || units[0] == 0 {
        0
    } else {
        1 + terminator(units.skip(1))
    }
}

/// The code units before the terminator of a text; `None` where there is no
/// terminator, or something behind it.
pub open spec fn terminated(units: Seq<u16>) -> Option<Seq<u16>> {
    let at = terminator(units);
    if at >= units.len() {
        None
    } else if exists|i: int| at < i < units.len() && #[trigger] units[i] != 0 {
        None
    } else {
        Some(units.take(at))
    }
}

fn take_terminated(units: &Vec<u16>) -> (result: Option<Vec<u16>>)
    ensures
        match terminated(units@) {
            Some(front) => result matches Some(own) && own@ == front,
            None => result is None,
        },
{
    let mut front: Vec<u16> = Vec::new();
    let mut at: usize = 0;
    assert(units@.skip(0) =~= units@);
    while at < units.len() && units[at] != 0
        invariant
            at <= units.len(),
            front@ =~= units@.take(at as int),
            terminator(units@) == at + terminator(units@.skip(at as int)),
        decreases units.len() - at,
    {
        assert(units@.skip(at as int).skip(1) =~= units@.skip(at + 1));
        assert(units@.skip(at as int)[0] == units@[at as int]);
        front.push(units[at]);
        at += 1;
    }
    if at < units.len() {
        assert(units@.skip(at as int)[0] == units@[at as int]);
    }
    assert(terminator(units@) == at);
    if at >= units.len() {
        return None;
    }
    let mut i: usize = at + 1;
    while i < units.len()
        invariant
            at < i <= units.len(),
            terminator(units@) == at,
            forall|j: int| at < j < i ==> #[trigger] units@[j] == 0,
        decreases units.len() - i,
    {
        if units[i] != 0 {
            assert(units@[i as int] != 0);
            return None;
        }
        i += 1;
    }
    Some(front)
}

/// What a value that was read says of the IPv6 stack.
pub open spec fn registry_value(code: u32, kind: u32, size: u32, bytes: Seq<u8>) -> Result<
    SettingView,
    QueryError,
> {
    if code != 0 {
        Err(QueryError::Code(code))
    } else if kind != REG_SZ || size == 0 || size > bytes.len() || size % 2 != 0 {
        Err(QueryError::InvalidData)
    } else {
        match terminated(units_of(bytes.take(size as int))) {
            None => Err(QueryError::InvalidData),
            Some(units) => setting_of_units(units, DnsFamily::Ipv6),
        }
    }
}

/// Takes a value that was read: its code, its type, how many bytes it has and the
/// bytes.
pub fn registry_read(code: u32, kind: u32, size: u32, bytes: &[u8]) -> (result: Result<
    DnsSetting,
    QueryError,
>)
    ensures
        match registry_value(code, kind, size, bytes@) {
            Ok(setting) => result matches Ok(own) && own@ == setting,
            Err(error) => result matches Err(own) && own == error,
        },
{
    if code != 0 {
        return Err(QueryError::Code(code));
    }
    if kind != REG_SZ || size == 0 || size as usize > bytes.len() || size % 2 != 0 {
        return Err(QueryError::InvalidData);
    }
    let value = vstd::slice::slice_subrange(bytes, 0, size as usize);
    assert(value@ =~= bytes@.take(size as int));
    let units = collect_units(value);
    match take_terminated(&units) {
        None => Err(QueryError::InvalidData),
        Some(front) => match decode_utf16(front.as_slice()) {
            None => Err(QueryError::InvalidData),
            Some(text) => read_setting(text.as_str(), DnsFamily::Ipv6),
        },
    }
}

/// A list of servers as text.
pub open spec fn servers_text(servers: Seq<IpAddr>) -> Seq<char>
    decreases servers.len(),
{
    if servers.len() == 0 {
        Seq::empty()
    } else if servers.len() == 1 {
        servers[0].spec_text()
    } else {
        servers_text(servers.drop_last()) + " "@ + servers.last().spec_text()
    }
}

fn write_servers_text(servers: &[IpAddr]) -> (result: String)
    ensures
        result@ == servers_text(servers@),
{
    let mut text = String::new();
    let mut i: usize = 0;
    while i < servers.len()
        invariant
            i <= servers.len(),
            text@ == servers_text(servers@.take(i as int)),
        decreases servers.len() - i,
    {
        if i > 0 {
            text.append(" ");
        }
        text.append(servers[i].text().as_str());
        proof {
            let now = servers@.take(i + 1);
            assert(now.drop_last() =~= servers@.take(i as int));
            assert(now.last() == servers@[i as int]);
            if i == 0 {
                assert(text@ =~= servers@[0].spec_text());
            }
        }
        i += 1;
    }
    assert(servers@.take(i as int) =~= servers@);
    text
}

/// The text that a stack is to be given; an empty one takes its own servers from it.
pub open spec fn written_text(setting: SettingView, family: DnsFamily) -> Result<
    Seq<char>,
    ConfigurationFault,
> {
    match setting {
        SettingView::Unavailable { .. } => Err(
            ConfigurationFault::InvalidSnapshot("cannot write an unavailable DNS setting"@),
        ),
        SettingView::Automatic => Ok(Seq::empty()),
        SettingView::Static { servers } => if servers.len() > MAX_DNS_SERVERS || !family_matches(
            servers,
            family,
        ) {
            Err(
                ConfigurationFault::InvalidSnapshot(
                    "DNS server list is outside the bounded family-specific range"@,
                ),
            )
        } else {
            Ok(servers_text(servers))
        },
    }
}

/// The text that a stack is to be given.
pub fn set_setting(setting: &DnsSetting, family: DnsFamily) -> (result: Result<
    String,
    DnsConfigurationError,
>)
    ensures
        match written_text(setting@, family) {
            Ok(text) => result matches Ok(own) && own@ == text,
            Err(fault) => result matches Err(error) && error@ == fault,
        },
{
    match setting {
        DnsSetting::Unavailable { .. } => Err(
            DnsConfigurationError::InvalidSnapshot(
                "cannot write an unavailable DNS setting".to_owned(),
            ),
        ),
        DnsSetting::Automatic => Ok(String::new()),
        DnsSetting::Static { servers } => {
            if servers.len() > MAX_DNS_SERVERS || !all_accepted(servers.as_slice(), family) {
                return Err(
                    DnsConfigurationError::InvalidSnapshot(
                        "DNS server list is outside the bounded family-specific range".to_owned(),
                    ),
                );
            }
            Ok(write_servers_text(servers.as_slice()))
        },
    }
}

proof fn lemma_scan_word(front: Seq<char>, word: Seq<char>)
    requires
        forall|i: int| 0 <= i < word.len() ==> !separates(#[trigger] word[i]),
    ensures
        scanned(front + word) == (scanned(front).0, scanned(front).1 + word),
    decreases word.len(),
{
    if word.len() == 0 {
        assert(front + word =~= front);
        assert(scanned(front).1 + word =~= scanned(front).1);
    } else {
        let most = word.drop_last();
        lemma_scan_word(front, most);
        assert((front + word).drop_last() =~= front + most);
        assert((scanned(front).1 + most).push(word.last()) =~= scanned(front).1 + word);
    }
}

/// The texts of some servers.
spec fn server_texts(servers: Seq<IpAddr>) -> Seq<Seq<char>> {
    servers.map_values(|server: IpAddr| server.spec_text())
}

proof fn lemma_server_words(servers: Seq<IpAddr>)
    requires
        servers.len() > 0,
    ensures
        scanned(servers_text(servers)) == (
            server_texts(servers.drop_last()),
            servers.last().spec_text(),
        ),
        servers_text(servers).len() > 0,
        servers_text(servers)[0] == servers[0].spec_text()[0],
    decreases servers.len(),
{
    let last = servers.last().spec_text();
    lemma_address_text(servers.last());
    assert forall|i: int| 0 <= i < last.len() implies !separates(#[trigger] last[i]) by {
        assert(written_digit(last[i]) || last[i] == ':' || last[i] == '.');
    }
    let most = servers.drop_last();
    if servers.len() == 1 {
        lemma_scan_word(Seq::empty(), last);
        assert(Seq::<char>::empty() + last =~= last);
        assert(server_texts(most) =~= Seq::<Seq<char>>::empty());
    } else {
        reveal_strlit(" ");
        lemma_server_words(most);
        let front = servers_text(most);
        let spaced = front + " "@;
        lemma_address_text(most.last());
        assert(spaced.drop_last() =~= front);
        assert(server_texts(most) =~= server_texts(most.drop_last()).push(most.last().spec_text()));
        assert(scanned(spaced) == (server_texts(most), Seq::<char>::empty()));
        lemma_scan_word(spaced, last);
        assert(Seq::<char>::empty() + last =~= last);
        assert(servers_text(servers) =~= spaced + last);
    }
}

proof fn lemma_named_texts(servers: Seq<IpAddr>, family: DnsFamily, n: int)
    requires
        0 <= n <= servers.len() <= MAX_DNS_SERVERS,
        family_matches(servers, family),
    ensures
        named_servers(server_texts(servers), family, n) == Some(servers.take(n)),
    decreases n,
{
    if n > 0 {
        lemma_named_texts(servers, family, n - 1);
        address_texts_are_read_back(servers[n - 1]);
        assert(server_texts(servers)[n - 1] == servers[n - 1].spec_text());
        assert(servers.take(n - 1).push(servers[n - 1]) =~= servers.take(n));
    } else {
        assert(servers.take(0) =~= Seq::<IpAddr>::empty());
    }
}

proof fn lemma_trim_end_keeps(text: Seq<char>)
    requires
        text.len() > 0,
        !white_space(text[0]),
    ensures
        trim_end(text).len() > 0,
    decreases text.len(),
{
    if white_space(text.last()) {
        lemma_trim_end_keeps(text.drop_last());
    }
}

/// What a stack is given is read back as the setting that was meant. A list without
/// servers can not be told from an automatic setting.
pub proof fn written_settings_are_read_back(setting: SettingView, family: DnsFamily)
    requires
        written_text(setting, family) is Ok,
        setting matches SettingView::Static { servers } ==> servers.len() > 0,
    ensures
        setting_of_text(written_text(setting, family)->Ok_0, family) == Ok::<
            SettingView,
            QueryError,
        >(setting),
{
    match setting {
        SettingView::Static { servers } => {
            let text = servers_text(servers);
            lemma_server_words(servers);
            lemma_address_text(servers[0]);
            lemma_address_text(servers.last());
            assert(!white_space(text[0]));
            lemma_trim_end_keeps(text);
            assert(server_texts(servers) =~= server_texts(servers.drop_last()).push(
                servers.last().spec_text(),
            ));
            assert(words_of(text) == server_texts(servers));
            lemma_named_texts(servers, family, servers.len() as int);
            assert(servers.take(servers.len() as int) =~= servers);
        },
        _ => {},
    }
}

/// Takes the code of a write.
pub fn setting_written(code: u32, guid: GuidParts, family: DnsFamily) -> (result: Result<
    (),
    DnsConfigurationError,
>)
    ensures
        result is Ok <==> code == 0,
        result matches Err(error) ==> error@ == (ConfigurationFault::NativeSet {
            guid: guid.spec_text(),
            family,
            code,
        }),
{
    if code == 0 {
        Ok(())
    } else {
        Err(DnsConfigurationError::NativeSet { interface_guid: guid.text(), family, code })
    }
}

/// Takes how the interfaces were counted: the code, whether there is a table, and how
/// many there are.
pub fn snapshot_counted(code: u32, has_table: bool, count: usize) -> (result: Result<
    (),
    DnsConfigurationError,
>)
    ensures
        result is Ok <==> code == 0 && has_table && count <= MAX_ADAPTERS,
        result matches Err(error) ==> error@ == (if code != 0 {
            ConfigurationFault::NativeSnapshot { code }
        } else if !has_table {
            ConfigurationFault::InvalidSnapshot("Windows returned a null interface table"@)
        } else {
            ConfigurationFault::InvalidSnapshot(
                "Windows returned "@ + decimal(count as nat) + " interfaces; maximum is "@
                    + decimal(MAX_ADAPTERS as nat),
            )
        }),
{
    if code != 0 {
        return Err(DnsConfigurationError::NativeSnapshot { code });
    }
    if !has_table {
        return Err(
            DnsConfigurationError::InvalidSnapshot(
                "Windows returned a null interface table".to_owned(),
            ),
        );
    }
    if count > MAX_ADAPTERS {
        return Err(
            DnsConfigurationError::InvalidSnapshot(
                join4(
                    "Windows returned ",
                    decimal_text(count as u64).as_str(),
                    " interfaces; maximum is ",
                    decimal_text(MAX_ADAPTERS as u64).as_str(),
                ),
            ),
        );
    }
    Ok(())
}

/// Whether an interface belongs in a snapshot: it has an identifier and a number.
pub fn snapshot_includes(guid: GuidParts, index: u32) -> (result: bool)
    ensures
        result == (index != 0 && guid != (GuidParts {
            data1: 0,
            data2: 0,
            data3: 0,
            node0: 0,
            node1: 0,
            node2: 0,
            node3: 0,
            node4: 0,
            node5: 0,
            node6: 0,
            node7: 0,
        })),
{
    let zero = GuidParts {
        data1: 0,
        data2: 0,
        data3: 0,
        node0: 0,
        node1: 0,
        node2: 0,
        node3: 0,
        node4: 0,
        node5: 0,
        node6: 0,
        node7: 0,
    };
    !(guid == zero || index == 0)
}

/// Whether a character stands between two servers: a comma, or white space of ASCII.
pub open spec fn between_servers(c: char) -> bool {
    let code = c as int;
    code == 44 || code == 9 || code == 10 || code == 12 || code == 13 || code == 32
}

proof fn lemma_scanned_after(front: Seq<char>, mark: char, back: Seq<char>)
    requires
        separates(mark),
    ensures
        scanned(front + seq![mark] + back).0 == words_of(front) + scanned(back).0,
        scanned(front + seq![mark] + back).1 == scanned(back).1,
    decreases back.len(),
{
    let whole = front + seq![mark] + back;
    if back.len() == 0 {
        assert(whole.drop_last() =~= front);
        assert(words_of(front) + scanned(back).0 =~= words_of(front));
    } else {
        lemma_scanned_after(front, mark, back.drop_last());
        assert(whole.drop_last() =~= front + seq![mark] + back.drop_last());
        let (words, word) = scanned(back.drop_last());
        assert(words_of(front) + words.push(word) =~= (words_of(front) + words).push(word));
    }
}

proof fn lemma_scanned_word(word: Seq<char>)
    requires
        forall|i: int| 0 <= i < word.len() ==> !separates(#[trigger] word[i]),
    ensures
        scanned(word).0.len() == 0,
        scanned(word).1 == word,
    decreases word.len(),
{
    if word.len() > 0 {
        let front = word.drop_last();
        assert forall|i: int| 0 <= i < front.len() implies !separates(#[trigger] front[i]) by {
            assert(front[i] == word[i]);
        }
        lemma_scanned_word(front);
        assert(!separates(word[word.len() - 1]));
        assert(front.push(word.last()) =~= word);
    } else {
        assert(word =~= Seq::empty());
    }
}

/// The words of a list are what stands between commas and white space: a text without
/// them is one word, or none where it is empty, and each of them parts what is before it
/// from what is behind.
pub proof fn words_stand_between_separators(front: Seq<char>, mark: char, back: Seq<char>)
    ensures
        separates(mark) <==> between_servers(mark),
        between_servers(mark) ==> words_of(front + seq![mark] + back) == words_of(front) + words_of(
            back,
        ),
        (forall|i: int| 0 <= i < front.len() ==> !between_servers(#[trigger] front[i])) ==> words_of(
            front,
        ) == if front.len() == 0 {
            Seq::<Seq<char>>::empty()
        } else {
            seq![front]
        },
{
    if between_servers(mark) {
        lemma_scanned_after(front, mark, back);
        let (words, word) = scanned(back);
        assert(words_of(front) + words.push(word) =~= (words_of(front) + words).push(word));
    }
    if forall|i: int| 0 <= i < front.len() ==> !between_servers(#[trigger] front[i]) {
        assert forall|i: int| 0 <= i < front.len() implies !separates(#[trigger] front[i]) by {
            assert(!between_servers(front[i]));
        }
        lemma_scanned_word(front);
        assert(words_of(front) =~= if front.len() == 0 {
            Seq::<Seq<char>>::empty()
        } else {
            seq![front]
        });
    }
}

/// Whether a word names a server of a stack.
pub open spec fn names_server(word: Seq<char>, family: DnsFamily) -> bool {
    match ip_of(word) {
        None => false,
        Some(ip) => (ip is V4 && family is Ipv4) || (ip is V6 && family is Ipv6),
    }
}

proof fn lemma_all_named(words: Seq<Seq<char>>, family: DnsFamily, n: int)
    requires
        0 <= n <= words.len(),
    ensures
        named_servers(words, family, n) is Some <==> n <= 16 && forall|i: int|
            0 <= i < n ==> names_server(#[trigger] words[i], family),
        named_servers(words, family, n) matches Some(servers) ==> servers.len() == n && forall|
            i: int,
        |
            0 <= i < n ==> ip_of(#[trigger] words[i]) == Some(servers[i]),
    decreases n,
{
    if n > 0 {
        lemma_all_named(words, family, n - 1);
        if named_servers(words, family, n - 1) is Some {
            let before = named_servers(words, family, n - 1)->0;
            assert(names_server(words[n - 1], family) || !names_server(words[n - 1], family));
            if n <= 16 && names_server(words[n - 1], family) {
                let servers = named_servers(words, family, n)->0;
                assert forall|i: int| 0 <= i < n implies ip_of(#[trigger] words[i]) == Some(
                    servers[i],
                ) by {
                    if i < n - 1 {
                        assert(servers[i] == before[i]);
                    }
                }
            }
        }
    }
}

/// A list spells servers exactly where it has from one to sixteen words that all name one
/// of the stack; they are its servers, in order.
pub proof fn lists_spell_their_servers(text: Seq<char>, family: DnsFamily)
    ensures
        ({
            let words = words_of(text);
            let servers = server_list(text, family);
            &&& servers is Some <==> 1 <= words.len() <= 16 && forall|i: int|
                0 <= i < words.len() ==> names_server(#[trigger] words[i], family)
            &&& servers is Some ==> servers->0.len() == words.len() && forall|i: int|
                0 <= i < words.len() ==> ip_of(#[trigger] words[i]) == Some(servers->0[i])
            &&& trim(text).len() == 0 ==> setting_of_text(text, family) == Ok::<
                SettingView,
                QueryError,
            >(SettingView::Automatic)
            &&& trim(text).len() > 0 && servers is Some ==> setting_of_text(text, family) == Ok::<
                SettingView,
                QueryError,
            >(SettingView::Static { servers: servers->0 })
            &&& trim(text).len() > 0 && servers is None ==> setting_of_text(text, family) == Err::<
                SettingView,
                QueryError,
            >(QueryError::InvalidData)
        }),
{
    let words = words_of(text);
    lemma_all_named(words, family, words.len() as int);
}

/// What the system tells of a stack is its text, unless there is none, which is an
/// automatic setting, or it is not UTF-16 or has no terminator within the bound.
pub proof fn told_settings_are_texts(units: Seq<u16>, family: DnsFamily)
    ensures
        native_setting(None, family) == Ok::<SettingView, QueryError>(SettingView::Automatic),
        units.len() >= 4096 || utf16_text(units) is None ==> native_setting(
            Some(units),
            family,
        ) == Err::<SettingView, QueryError>(QueryError::InvalidData),
        units.len() < 4096 && utf16_text(units) is Some ==> native_setting(
            Some(units),
            family,
        ) == setting_of_text(utf16_text(units)->0, family),
{
}

/// A value is read exactly where it is there, a text, and of an even number of bytes
/// within the bound. One that is not there, or is empty, is an automatic setting.
pub proof fn values_are_sized_texts(code: u32, kind: u32, size: u32)
    ensures
        ({
            let told = sized(code, kind, size);
            &&& told == Ok::<Option<u32>, QueryError>(None) <==> code == 2 || (code == 0 && kind == 1
                && size == 0)
            &&& told == Ok::<Option<u32>, QueryError>(Some(size)) <==> code == 0 && kind == 1 && 0
                < size && size <= 2 * 4096 + 2 && size % 2 == 0
            &&& told is Ok ==> told->Ok_0 is None || told->Ok_0 == Some(size)
            &&& code != 0 && code != 2 ==> told == Err::<Option<u32>, QueryError>(
                QueryError::Code(code),
            )
            &&& code == 0 && told is Err ==> told == Err::<Option<u32>, QueryError>(
                QueryError::InvalidData,
            )
        }),
        QueryError::InvalidData.reason() is InvalidData,
        code == 127 ==> QueryError::Code(code).reason() is Unsupported,
        code != 127 ==> QueryError::Code(code).reason() == (DnsUnavailableReason::QueryFailed {
            code,
        }),
{
}

/// Code units have their lower byte first; the text of a value is what is before the first
/// zero, behind which nothing but zeros may follow.
pub proof fn values_end_with_zeros(bytes: Seq<u8>, units: Seq<u16>)
    ensures
        units_of(bytes).len() == bytes.len() / 2,
        forall|i: int|
            0 <= i < bytes.len() / 2 ==> #[trigger] units_of(bytes)[i] == bytes[2 * i] + 256
                * bytes[2 * i + 1],
        ({
            let at = terminator(units);
            &&& 0 <= at <= units.len()
            &&& forall|i: int| 0 <= i < at ==> #[trigger] units[i] != 0
            &&& at < units.len() ==> units[at] == 0
            &&& terminated(units) is Some <==> at < units.len() && forall|i: int|
                at < i < units.len() ==> #[trigger] units[i] == 0
            &&& terminated(units) matches Some(front) ==> front == units.take(at)
        }),
    decreases units.len(),
{
    if units.len() > 0 && units[0] != 0 {
        let rest = units.skip(1);
        values_end_with_zeros(bytes, rest);
        let at = terminator(units);
        assert forall|i: int| 0 <= i < at implies #[trigger] units[i] != 0 by {
            if i > 0 {
                assert(rest[i - 1] == units[i]);
            }
        }
        if at < units.len() {
            assert(rest[at - 1] == units[at]);
        }
    }
}

/// A value that was read is a setting of the IPv6 stack exactly where reading succeeded,
/// it is a text of an even number of the bytes, and it ends with zeros.
pub proof fn read_values_are_settings(code: u32, kind: u32, size: u32, bytes: Seq<u8>)
    ensures
        ({
            let told = registry_value(code, kind, size, bytes);
            let sound = kind == 1 && 0 < size <= bytes.len() && size % 2 == 0;
            let units = terminated(units_of(bytes.take(size as int)));
            &&& code != 0 ==> told == Err::<SettingView, QueryError>(QueryError::Code(code))
            &&& code == 0 && !(sound && units is Some) ==> told == Err::<SettingView, QueryError>(
                QueryError::InvalidData,
            )
            &&& code == 0 && sound && units is Some ==> told == native_setting(
                Some(units->0),
                DnsFamily::Ipv6,
            ) || units->0.len() >= 4096
        }),
{
}

/// A setting is written exactly where it is automatic, as an empty text, or has up to
/// sixteen servers of the stack, with a space between two.
pub proof fn settings_are_written_in_order(first: Seq<IpAddr>, second: Seq<IpAddr>)
    ensures
        servers_text(Seq::empty()) == Seq::<char>::empty(),
        first.len() == 1 ==> servers_text(first) == first[0].spec_text(),
        first.len() > 0 && second.len() > 0 ==> servers_text(first + second) == servers_text(first)
            + seq![' '] + servers_text(second),
        forall|family: DnsFamily, servers: Seq<IpAddr>|
            #![trigger written_text(SettingView::Static { servers }, family)]
            (written_text(SettingView::Static { servers }, family) is Ok <==> servers.len() <= 16
                && forall|i: int|
                0 <= i < servers.len() ==> ((#[trigger] servers[i]) is V4 <==> family is Ipv4)),
        forall|family: DnsFamily| #[trigger]
            written_text(SettingView::Automatic, family) == Ok::<Seq<char>, ConfigurationFault>(
                Seq::<char>::empty(),
            ),
    decreases second.len(),
{
    reveal_strlit(" ");
    assert(" "@ =~= seq![' ']);
    if first.len() > 0 && second.len() > 0 {
        let whole = first + second;
        let front = second.drop_last();
        assert(whole.drop_last() =~= first + front);
        assert(whole.last() == second.last());
        if second.len() == 1 {
            assert(first + front =~= first);
        } else {
            settings_are_written_in_order(first, front);
            assert(servers_text(whole) =~= servers_text(first) + seq![' '] + (servers_text(front)
                + " "@ + second.last().spec_text()));
        }
    }
}

} // verus!
