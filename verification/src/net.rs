//! Internet addresses and endpoints as plain values, with their text forms.

use crate::text::{
    amount, chars_of, decimal, decimal_text, digit_char, first_index, first_places_are_found,
    hexadecimal_text, index_of, join, join3, lemma_amounts, numeral, of_digits, parse_digits, part,
    read_digits, worth,
};
use vstd::prelude::*;
use vstd::string::*;

verus! {

/// An IPv4 address, most significant octet first.
#[derive(Clone, Copy, Debug, PartialEq, Eq, Structural)]
pub struct Ipv4Addr {
    pub a: u8,
    pub b: u8,
    pub c: u8,
    pub d: u8,
}

/// An IPv6 address as its eight groups, most significant first.
#[derive(Clone, Copy, Debug, PartialEq, Eq, Structural)]
pub struct Ipv6Addr {
    pub s0: u16,
    pub s1: u16,
    pub s2: u16,
    pub s3: u16,
    pub s4: u16,
    pub s5: u16,
    pub s6: u16,
    pub s7: u16,
}

/// An address of either family.
#[derive(Clone, Copy, Debug, PartialEq, Eq, Structural)]
pub enum IpAddr {
    V4(Ipv4Addr),
    V6(Ipv6Addr),
}

/// An IPv4 endpoint.
#[derive(Clone, Copy, Debug, PartialEq, Eq, Structural)]
pub struct SocketAddrV4 {
    pub ip: Ipv4Addr,
    pub port: u16,
}

/// An IPv6 endpoint with its flow label and the index of its interface (zero
/// where it names none).
#[derive(Clone, Copy, Debug, PartialEq, Eq, Structural)]
pub struct SocketAddrV6 {
    pub ip: Ipv6Addr,
    pub port: u16,
    pub flowinfo: u32,
    pub scope_id: u32,
}

/// An endpoint of either family.
#[derive(Clone, Copy, Debug, PartialEq, Eq, Structural)]
pub enum SocketAddr {
    V4(SocketAddrV4),
    V6(SocketAddrV6),
}

/// The number that two octets spell, most significant first.
pub open spec fn word(high: u8, low: u8) -> int {
    high as int * 256 + low as int
}

/// Splits a group into its two octets.
pub fn word_octets(value: u16) -> (result: (u8, u8))
    ensures
        word(result.0, result.1) == value,
        result.0 == value / 256,
        result.1 == value % 256,
{
    ((value / 256) as u8, (value % 256) as u8)
}

/// Joins two octets to a group.
pub fn word_value(high: u8, low: u8) -> (result: u16)
    ensures
        result == word(high, low),
{
    high as u16 * 256 + low as u16
}

impl Ipv4Addr {
    pub fn new(a: u8, b: u8, c: u8, d: u8) -> (result: Self)
        ensures
            result.octets() == seq![a, b, c, d],
    {
        Ipv4Addr { a, b, c, d }
    }

    pub open spec fn octets(self) -> Seq<u8> {
        seq![self.a, self.b, self.c, self.d]
    }

    /// The address as one number; it orders addresses.
    pub open spec fn bits(self) -> int {
        word(self.a, self.b) * 65536 + word(self.c, self.d)
    }

    /// The decimal octets, joined by dots.
    pub open spec fn spec_text(self) -> Seq<char> {
        decimal(self.a as nat) + "."@ + decimal(self.b as nat) + "."@ + decimal(self.c as nat)
            + "."@ + decimal(self.d as nat)
    }

    pub fn text(&self) -> (result: String)
        ensures
            result@ == self.spec_text(),
    {
        let mut result = decimal_text(self.a as u64);
        result.append(".");
        result.append(decimal_text(self.b as u64).as_str());
        result.append(".");
        result.append(decimal_text(self.c as u64).as_str());
        result.append(".");
        result.append(decimal_text(self.d as u64).as_str());
        result
    }
}

impl Ipv6Addr {
    pub fn new(
        s0: u16,
        s1: u16,
        s2: u16,
        s3: u16,
        s4: u16,
        s5: u16,
        s6: u16,
        s7: u16,
    ) -> (result: Self)
        ensures
            result.segments() == seq![s0, s1, s2, s3, s4, s5, s6, s7],
    {
        Ipv6Addr { s0, s1, s2, s3, s4, s5, s6, s7 }
    }

    pub open spec fn segments(self) -> Seq<u16> {
        seq![self.s0, self.s1, self.s2, self.s3, self.s4, self.s5, self.s6, self.s7]
    }

    /// The octets of the address, most significant first.
    pub open spec fn octets(self) -> Seq<u8> {
        Seq::new(
            16,
            |i: int|
                if i % 2 == 0 {
                    (self.segments()[i / 2] / 256) as u8
                } else {
                    (self.segments()[i / 2] % 256) as u8
                },
        )
    }

    pub fn to_segments(&self) -> (result: [u16; 8])
        ensures
            result@ == self.segments(),
    {
        let result: [u16; 8] = [
            self.s0,
            self.s1,
            self.s2,
            self.s3,
            self.s4,
            self.s5,
            self.s6,
            self.s7,
        ];
        assert(result@ =~= self.segments());
        result
    }

    pub fn from_segments(segments: &[u16]) -> (result: Self)
        requires
            segments.len() == 8,
        ensures
            result.segments() == segments@,
    {
        let result = Ipv6Addr {
            s0: segments[0],
            s1: segments[1],
            s2: segments[2],
            s3: segments[3],
            s4: segments[4],
            s5: segments[5],
            s6: segments[6],
            s7: segments[7],
        };
        assert(result.segments() =~= segments@);
        result
    }

    /// Whether the address stands for an IPv4 address, as `::ffff:a.b.c.d`.
    pub open spec fn mapped(self) -> bool {
        self.s0 == 0 && self.s1 == 0 && self.s2 == 0 && self.s3 == 0 && self.s4 == 0 && self.s5
            == 0xffff
    }

    /// The IPv4 address in the last two groups.
    pub open spec fn embedded(self) -> Ipv4Addr {
        Ipv4Addr {
            a: (self.s6 / 256) as u8,
            b: (self.s6 % 256) as u8,
            c: (self.s7 / 256) as u8,
            d: (self.s7 % 256) as u8,
        }
    }

    pub fn is_mapped(&self) -> (result: bool)
        ensures
            result == self.mapped(),
    {
        self.s0 == 0 && self.s1 == 0 && self.s2 == 0 && self.s3 == 0 && self.s4 == 0 && self.s5
            == 0xffff
    }

    pub fn embedded_v4(&self) -> (result: Ipv4Addr)
        ensures
            result == self.embedded(),
    {
        let (a, b) = word_octets(self.s6);
        let (c, d) = word_octets(self.s7);
        Ipv4Addr { a, b, c, d }
    }

    /// Whether the address is unicast on one link only (`fe80::/10`).
    pub open spec fn link_local(self) -> bool {
        0xfe80 <= self.s0 <= 0xfebf
    }

    pub fn is_unicast_link_local(&self) -> (result: bool)
        ensures
            result == self.link_local(),
    {
        0xfe80 <= self.s0 && self.s0 <= 0xfebf
    }
}

/// How many groups from `from` on are zero.
pub open spec fn zero_run(segments: Seq<u16>, from: int) -> int
    decreases segments.len() - from,
{
    if 0 <= from < segments.len() && segments[from] == 0 {
        1 + zero_run(segments, from + 1)
    } else {
        0
    }
}

/// Whether the zero groups from `start` on are the ones that `::` replaces: the
/// longest run, and the first of that length.
pub open spec fn longest_run(segments: Seq<u16>, start: int) -> bool {
    &&& 0 <= start < segments.len()
    &&& forall|i: int|
        0 <= i < segments.len() ==> #[trigger] zero_run(segments, i) <= zero_run(segments, start)
    &&& forall|i: int| 0 <= i < start ==> #[trigger] zero_run(segments, i) < zero_run(segments, start)
}

/// The start of the longest run of zero groups.
pub open spec fn run_start(segments: Seq<u16>) -> int {
    choose|start: int| longest_run(segments, start)
}

/// The hexadecimal groups, joined by colons.
pub open spec fn joined_groups(groups: Seq<u16>) -> Seq<char>
    decreases groups.len(),
{
    if groups.len() == 0 {
        Seq::empty()
    } else if groups.len() == 1 {
        numeral(groups[0] as nat, 16)
    } else {
        joined_groups(groups.drop_last()) + ":"@ + numeral(groups.last() as nat, 16)
    }
}

fn joined_text(groups: &[u16], from: usize, to: usize) -> (result: String)
    requires
        from <= to <= groups.len(),
    ensures
        result@ == joined_groups(groups@.subrange(from as int, to as int)),
{
    let mut result = String::new();
    let mut i: usize = from;
    while i < to
        invariant
            from <= i <= to <= groups.len(),
            result@ == joined_groups(groups@.subrange(from as int, i as int)),
        decreases to - i,
    {
        if i > from {
            result.append(":");
        }
        result.append(hexadecimal_text(groups[i] as u64).as_str());
        i += 1;
        proof {
            let now = groups@.subrange(from as int, i as int);
            assert(now.drop_last() =~= groups@.subrange(from as int, i - 1));
            assert(now.last() == groups@[i - 1]);
            if i == from + 1 {
                assert(result@ =~= joined_groups(now));
            }
        }
    }
    result
}

fn zero_run_from(segments: &[u16], from: usize) -> (result: usize)
    requires
        from <= segments.len(),
    ensures
        result == zero_run(segments@, from as int),
        from + result <= segments.len(),
    decreases segments.len() - from,
{
    if from < segments.len() && segments[from] == 0 {
        1 + zero_run_from(segments, from + 1)
    } else {
        0
    }
}

proof fn lemma_longest_run_unique(segments: Seq<u16>, i: int, j: int)
    requires
        longest_run(segments, i),
        longest_run(segments, j),
    ensures
        i == j,
{
    assert(zero_run(segments, i) <= zero_run(segments, j));
    assert(zero_run(segments, j) <= zero_run(segments, i));
    if i < j {
        assert(zero_run(segments, i) < zero_run(segments, j));
    }
    if j < i {
        assert(zero_run(segments, j) < zero_run(segments, i));
    }
}

fn find_run(segments: &[u16]) -> (result: (usize, usize))
    requires
        segments.len() > 0,
    ensures
        result.0 == run_start(segments@),
        result.1 == zero_run(segments@, run_start(segments@)),
        result.0 + result.1 <= segments.len(),
{
    let mut start: usize = 0;
    let mut length: usize = zero_run_from(segments, 0);
    let mut i: usize = 1;
    while i < segments.len()
        invariant
            0 <= start < i <= segments.len(),
            length == zero_run(segments@, start as int),
            start + length <= segments.len(),
            forall|j: int| 0 <= j < i ==> #[trigger] zero_run(segments@, j) <= length,
            forall|j: int| 0 <= j < start ==> #[trigger] zero_run(segments@, j) < length,
        decreases segments.len() - i,
    {
        let candidate = zero_run_from(segments, i);
        if candidate > length {
            start = i;
            length = candidate;
        }
        i += 1;
    }
    proof {
        assert(longest_run(segments@, start as int));
        lemma_longest_run_unique(segments@, start as int, run_start(segments@));
    }
    (start, length)
}

impl Ipv6Addr {
    /// The canonical text: lower-case groups without leading zeros, `::` in place
    /// of the first longest run of at least two zero groups, and dotted octets
    /// for an address that stands for an IPv4 one.
    pub open spec fn spec_text(self) -> Seq<char> {
        let segments = self.segments();
        let start = run_start(segments);
        let length = zero_run(segments, start);
        if self.mapped() {
            "::ffff:"@ + self.embedded().spec_text()
        } else if length > 1 {
            joined_groups(segments.subrange(0, start)) + "::"@ + joined_groups(
                segments.subrange(start + length, 8),
            )
        } else {
            joined_groups(segments)
        }
    }

    pub fn text(&self) -> (result: String)
        ensures
            result@ == self.spec_text(),
    {
        if self.is_mapped() {
            return join("::ffff:", self.embedded_v4().text().as_str());
        }
        let segments = self.to_segments();
        let (start, length) = find_run(&segments);
        if length > 1 {
            let head = joined_text(&segments, 0, start);
            let tail = joined_text(&segments, start + length, 8);
            join3(head.as_str(), "::", tail.as_str())
        } else {
            assert(segments@.subrange(0, 8) =~= segments@);
            joined_text(&segments, 0, 8)
        }
    }
}

impl IpAddr {
    pub open spec fn v4(self) -> bool {
        self is V4
    }

    pub fn is_ipv4(&self) -> (result: bool)
        ensures
            result == (self is V4),
    {
        match self {
            IpAddr::V4(_) => true,
            IpAddr::V6(_) => false,
        }
    }

    pub fn is_ipv6(&self) -> (result: bool)
        ensures
            result == (self is V6),
    {
        !self.is_ipv4()
    }

    /// The text of the address in its family.
    #[verifier::opaque]
    pub open spec fn spec_text(self) -> Seq<char> {
        match self {
            IpAddr::V4(ip) => ip.spec_text(),
            IpAddr::V6(ip) => ip.spec_text(),
        }
    }

    pub fn text(&self) -> (result: String)
        ensures
            result@ == self.spec_text(),
    {
        reveal(IpAddr::spec_text);
        match self {
            IpAddr::V4(ip) => ip.text(),
            IpAddr::V6(ip) => ip.text(),
        }
    }

    /// `0.0.0.0` and `::`.
    pub open spec fn unspecified(self) -> bool {
        match self {
            IpAddr::V4(ip) => ip.octets() == seq![0u8, 0, 0, 0],
            IpAddr::V6(ip) => ip.segments() == seq![0u16, 0, 0, 0, 0, 0, 0, 0],
        }
    }

    pub fn is_unspecified(&self) -> (result: bool)
        ensures
            result == self.unspecified(),
    {
        match self {
            IpAddr::V4(ip) => {
                let result = ip.a == 0 && ip.b == 0 && ip.c == 0 && ip.d == 0;
                proof {
                    let zero = seq![0u8, 0, 0, 0];
                    let octets = ip.octets();
                    if result {
                        assert(octets =~= zero);
                    }
                    if octets == zero {
                        assert(octets[0] == 0 && octets[1] == 0 && octets[2] == 0 && octets[3] == 0);
                    }
                }
                result
            },
            IpAddr::V6(ip) => {
                let result = ip.s0 == 0 && ip.s1 == 0 && ip.s2 == 0 && ip.s3 == 0 && ip.s4 == 0
                    && ip.s5 == 0 && ip.s6 == 0 && ip.s7 == 0;
                proof {
                    let zero = seq![0u16, 0, 0, 0, 0, 0, 0, 0];
                    let segments = ip.segments();
                    if result {
                        assert(segments =~= zero);
                    }
                    if segments == zero {
                        assert(segments[0] == 0 && segments[1] == 0 && segments[2] == 0
                            && segments[3] == 0 && segments[4] == 0 && segments[5] == 0
                            && segments[6] == 0 && segments[7] == 0);
                    }
                }
                result
            },
        }
    }

    /// `127.0.0.0/8` and `::1`.
    pub open spec fn loopback(self) -> bool {
        match self {
            IpAddr::V4(ip) => ip.a == 127,
            IpAddr::V6(ip) => ip == (Ipv6Addr {
                s0: 0,
                s1: 0,
                s2: 0,
                s3: 0,
                s4: 0,
                s5: 0,
                s6: 0,
                s7: 1,
            }),
        }
    }

    pub fn is_loopback(&self) -> (result: bool)
        ensures
            result == self.loopback(),
    {
        match self {
            IpAddr::V4(ip) => ip.a == 127,
            IpAddr::V6(ip) => ip.s0 == 0 && ip.s1 == 0 && ip.s2 == 0 && ip.s3 == 0 && ip.s4 == 0
                && ip.s5 == 0 && ip.s6 == 0 && ip.s7 == 1,
        }
    }

    /// `224.0.0.0/4` and `ff00::/8`.
    pub open spec fn multicast(self) -> bool {
        match self {
            IpAddr::V4(ip) => 224 <= ip.a <= 239,
            IpAddr::V6(ip) => ip.s0 >= 0xff00,
        }
    }

    pub fn is_multicast(&self) -> (result: bool)
        ensures
            result == self.multicast(),
    {
        match self {
            IpAddr::V4(ip) => 224 <= ip.a && ip.a <= 239,
            IpAddr::V6(ip) => ip.s0 >= 0xff00,
        }
    }

    /// An IPv6 address that is unicast on one link only.
    pub open spec fn link_local_v6(self) -> bool {
        match self {
            IpAddr::V4(_) => false,
            IpAddr::V6(ip) => ip.link_local(),
        }
    }

    pub fn is_link_local_v6(&self) -> (result: bool)
        ensures
            result == self.link_local_v6(),
    {
        match self {
            IpAddr::V4(_) => false,
            IpAddr::V6(ip) => ip.is_unicast_link_local(),
        }
    }

    /// The IPv4 address that an IPv6 address stands for; any other unchanged.
    pub open spec fn canonical(self) -> IpAddr {
        match self {
            IpAddr::V6(ip) if ip.mapped() => IpAddr::V4(ip.embedded()),
            _ => self,
        }
    }

    pub fn to_canonical(&self) -> (result: IpAddr)
        ensures
            result == self.canonical(),
    {
        match self {
            IpAddr::V4(ip) => IpAddr::V4(*ip),
            IpAddr::V6(ip) => if ip.is_mapped() {
                IpAddr::V4(ip.embedded_v4())
            } else {
                IpAddr::V6(*ip)
            },
        }
    }

    /// The family and the groups that order addresses: IPv4 before IPv6, then by
    /// the most significant difference.
    pub open spec fn order_key(self) -> Seq<int> {
        match self {
            IpAddr::V4(ip) => seq![0int, ip.a as int, ip.b as int, ip.c as int, ip.d as int, 0, 0, 0, 0],
            IpAddr::V6(ip) => seq![
                1int,
                ip.s0 as int,
                ip.s1 as int,
                ip.s2 as int,
                ip.s3 as int,
                ip.s4 as int,
                ip.s5 as int,
                ip.s6 as int,
                ip.s7 as int,
            ],
        }
    }

    /// Whether this address comes before `other`.
    pub open spec fn before(self, other: IpAddr) -> bool {
        key_before(self.order_key(), other.order_key(), 0)
    }

    pub fn comes_before(&self, other: &IpAddr) -> (result: bool)
        ensures
            result == self.before(*other),
    {
        let ghost left = self.order_key();
        let ghost right = other.order_key();
        proof {
            reveal_with_fuel(key_before, 10);
        }
        match (self, other) {
            (IpAddr::V4(x), IpAddr::V4(y)) => {
                x.a < y.a || (x.a == y.a && (x.b < y.b || (x.b == y.b && (x.c < y.c || (x.c == y.c
                    && x.d < y.d)))))
            },
            (IpAddr::V4(_), IpAddr::V6(_)) => true,
            (IpAddr::V6(_), IpAddr::V4(_)) => false,
            (IpAddr::V6(x), IpAddr::V6(y)) => {
                x.s0 < y.s0 || (x.s0 == y.s0 && (x.s1 < y.s1 || (x.s1 == y.s1 && (x.s2 < y.s2 || (
                x.s2 == y.s2 && (x.s3 < y.s3 || (x.s3 == y.s3 && (x.s4 < y.s4 || (x.s4 == y.s4 && (
                x.s5 < y.s5 || (x.s5 == y.s5 && (x.s6 < y.s6 || (x.s6 == y.s6 && x.s7
                    < y.s7)))))))))))))
            },
        }
    }
}

/// Lexicographic order of two keys of equal length, from position `from` on.
pub open spec fn key_before(left: Seq<int>, right: Seq<int>, from: int) -> bool
    decreases left.len() - from,
{
    if from < 0 || from >= left.len() || from >= right.len() {
        false
    } else if left[from] != right[from] {
        left[from] < right[from]
    } else {
        key_before(left, right, from + 1)
    }
}

/// The order of addresses is total: of two different ones exactly one comes first.
pub proof fn order_is_total(x: IpAddr, y: IpAddr)
    ensures
        x != y ==> (x.before(y) <==> !y.before(x)),
        !x.before(x),
{
    reveal_with_fuel(key_before, 10);
}

/// The order of addresses is transitive.
pub proof fn order_is_transitive(x: IpAddr, y: IpAddr, z: IpAddr)
    requires
        x.before(y),
        y.before(z),
    ensures
        x.before(z),
{
    reveal_with_fuel(key_before, 10);
}

impl SocketAddr {
    pub fn new(ip: IpAddr, port: u16) -> (result: Self)
        ensures
            result.spec_ip() == ip,
            result.spec_port() == port,
            result.spec_scope() == 0,
            result matches SocketAddr::V6(v6) ==> v6.flowinfo == 0,
    {
        match ip {
            IpAddr::V4(ip) => SocketAddr::V4(SocketAddrV4 { ip, port }),
            IpAddr::V6(ip) => SocketAddr::V6(SocketAddrV6 { ip, port, flowinfo: 0, scope_id: 0 }),
        }
    }

    pub open spec fn spec_ip(self) -> IpAddr {
        match self {
            SocketAddr::V4(v4) => IpAddr::V4(v4.ip),
            SocketAddr::V6(v6) => IpAddr::V6(v6.ip),
        }
    }

    pub fn ip(&self) -> (result: IpAddr)
        ensures
            result == self.spec_ip(),
    {
        match self {
            SocketAddr::V4(v4) => IpAddr::V4(v4.ip),
            SocketAddr::V6(v6) => IpAddr::V6(v6.ip),
        }
    }

    pub open spec fn spec_port(self) -> u16 {
        match self {
            SocketAddr::V4(v4) => v4.port,
            SocketAddr::V6(v6) => v6.port,
        }
    }

    pub fn port(&self) -> (result: u16)
        ensures
            result == self.spec_port(),
    {
        match self {
            SocketAddr::V4(v4) => v4.port,
            SocketAddr::V6(v6) => v6.port,
        }
    }

    /// The interface index of an IPv6 endpoint; zero for IPv4.
    pub open spec fn spec_scope(self) -> u32 {
        match self {
            SocketAddr::V4(_) => 0,
            SocketAddr::V6(v6) => v6.scope_id,
        }
    }

    pub fn scope(&self) -> (result: u32)
        ensures
            result == self.spec_scope(),
    {
        match self {
            SocketAddr::V4(_) => 0,
            SocketAddr::V6(v6) => v6.scope_id,
        }
    }

    /// `a.b.c.d:port`, `[groups]:port` or `[groups%scope]:port`.
    #[verifier::opaque]
    pub open spec fn spec_text(self) -> Seq<char> {
        match self {
            SocketAddr::V4(v4) => v4.ip.spec_text() + ":"@ + decimal(v4.port as nat),
            SocketAddr::V6(v6) => if v6.scope_id == 0 {
                "["@ + v6.ip.spec_text() + "]:"@ + decimal(v6.port as nat)
            } else {
                "["@ + v6.ip.spec_text() + "%"@ + decimal(v6.scope_id as nat) + "]:"@ + decimal(
                    v6.port as nat,
                )
            },
        }
    }

    pub fn text(&self) -> (result: String)
        ensures
            result@ == self.spec_text(),
    {
        reveal(SocketAddr::spec_text);
        match self {
            SocketAddr::V4(v4) => join3(
                v4.ip.text().as_str(),
                ":",
                decimal_text(v4.port as u64).as_str(),
            ),
            SocketAddr::V6(v6) => {
                let mut result = join("[", v6.ip.text().as_str());
                if v6.scope_id != 0 {
                    result.append("%");
                    result.append(decimal_text(v6.scope_id as u64).as_str());
                }
                result.append("]:");
                result.append(decimal_text(v6.port as u64).as_str());
                result
            },
        }
    }
}

/// The parts of `text` between the separators, in order.
pub open spec fn split(text: Seq<char>, separator: char) -> Seq<Seq<char>>
    decreases text.len(),
{
    let at = first_index(text, separator);
    if at < 0 || at >= text.len() {
        seq![text]
    } else {
        seq![text.take(at)] + split(text.skip(at + 1), separator)
    }
}

/// The texts that `parts` hold.
pub open spec fn part_views(parts: Seq<Vec<char>>) -> Seq<Seq<char>> {
    Seq::new(parts.len(), |i: int| parts[i]@)
}

/// Splits a text at every separator.
pub fn split_at(text: &[char], separator: char) -> (result: Vec<Vec<char>>)
    ensures
        part_views(result@) == split(text@, separator),
        result.len() > 0,
{
    let mut result: Vec<Vec<char>> = Vec::new();
    let mut from: usize = 0;
    assert(text@.skip(0) =~= text@);
    assert(part_views(result@) =~= Seq::empty());
    loop
        invariant
            from <= text.len(),
            split(text@, separator) == part_views(result@) + split(
                text@.skip(from as int),
                separator,
            ),
        decreases text.len() - from,
    {
        let rest = part(text, from, text.len());
        assert(rest@ =~= text@.skip(from as int));
        let at = index_of(&rest, separator);
        let ghost before = part_views(result@);
        if at == rest.len() {
            result.push(rest);
            assert(part_views(result@) =~= before.push(rest@));
            assert(before.push(rest@) =~= before + seq![rest@]);
            return result;
        }
        let piece = part(&rest, 0, at);
        assert(piece@ =~= rest@.take(at as int));
        let ghost seen = piece@;
        result.push(piece);
        proof {
            assert(part_views(result@) =~= before.push(seen));
            assert(rest@.skip(at + 1) =~= text@.skip(from + at + 1));
            assert(before + (seq![seen] + split(rest@.skip(at + 1), separator)) =~= before.push(
                seen,
            ) + split(rest@.skip(at + 1), separator));
        }
        from = from + at + 1;
    }
}

/// The value of a decimal octet: one to three digits, no leading zero.
pub open spec fn octet_value(text: Seq<char>) -> Option<u8> {
    if text.len() == 0 || text.len() > 3 || (text.len() > 1 && text[0] == '0') {
        None
    } else {
        match read_digits(text, 10, 255) {
            Ok(value) => Some(value as u8),
            Err(_) => None,
        }
    }
}

fn parse_octet(text: &[char]) -> (result: Option<u8>)
    ensures
        result == octet_value(text@),
{
    if text.len() == 0 || text.len() > 3 || (text.len() > 1 && text[0] == '0') {
        return None;
    }
    match parse_digits(text, 10, 255) {
        Ok(value) => Some(value as u8),
        Err(_) => None,
    }
}

/// Reads four decimal octets that dots separate.
pub open spec fn ipv4_of(text: Seq<char>) -> Option<Ipv4Addr> {
    let parts = split(text, '.');
    if parts.len() != 4 {
        None
    } else {
        match (
            octet_value(parts[0]),
            octet_value(parts[1]),
            octet_value(parts[2]),
            octet_value(parts[3]),
        ) {
            (Some(a), Some(b), Some(c), Some(d)) => Some(Ipv4Addr { a, b, c, d }),
            _ => None,
        }
    }
}

/// Reads an IPv4 address.
pub fn parse_ipv4(text: &[char]) -> (result: Option<Ipv4Addr>)
    ensures
        result == ipv4_of(text@),
{
    let parts = split_at(text, '.');
    let ghost views = part_views(parts@);
    assert(views.len() == parts.len());
    if parts.len() != 4 {
        return None;
    }
    assert(views[0] == parts@[0]@ && views[1] == parts@[1]@ && views[2] == parts@[2]@ && views[3]
        == parts@[3]@);
    match (parse_octet(&parts[0]), parse_octet(&parts[1]), parse_octet(&parts[2]), parse_octet(&parts[3])) {
        (Some(a), Some(b), Some(c), Some(d)) => Some(Ipv4Addr { a, b, c, d }),
        _ => None,
    }
}

/// The value of a group: one to four hexadecimal digits.
pub open spec fn group_value(text: Seq<char>) -> Option<u16> {
    if text.len() == 0 || text.len() > 4 {
        None
    } else {
        match read_digits(text, 16, 0xffff) {
            Ok(value) => Some(value as u16),
            Err(_) => None,
        }
    }
}

fn parse_group(text: &[char]) -> (result: Option<u16>)
    ensures
        result == group_value(text@),
{
    if text.len() == 0 || text.len() > 4 {
        return None;
    }
    match parse_digits(text, 16, 0xffff) {
        Ok(value) => Some(value as u16),
        Err(_) => None,
    }
}

/// The values of all groups, where each is one.
pub open spec fn group_values(parts: Seq<Seq<char>>) -> Option<Seq<u16>>
    decreases parts.len(),
{
    if parts.len() == 0 {
        Some(Seq::empty())
    } else {
        match (group_values(parts.drop_last()), group_value(parts.last())) {
            (Some(values), Some(value)) => Some(values.push(value)),
            _ => None,
        }
    }
}

/// A group at fault in a prefix is at fault in the whole.
proof fn lemma_group_values_prefix(parts: Seq<Seq<char>>, n: int)
    requires
        0 <= n <= parts.len(),
        group_values(parts.take(n)) is None,
    ensures
        group_values(parts) is None,
    decreases parts.len() - n,
{
    if n < parts.len() {
        assert(parts.take(n + 1).drop_last() =~= parts.take(n));
        lemma_group_values_prefix(parts, n + 1);
    } else {
        assert(parts.take(n) =~= parts);
    }
}

fn parse_groups(parts: &[Vec<char>], count: usize) -> (result: Option<Vec<u16>>)
    requires
        count <= parts.len(),
    ensures
        result is Some <==> group_values(part_views(parts@).take(count as int)) is Some,
        result matches Some(values) ==> group_values(part_views(parts@).take(count as int)) == Some(
            values@,
        ),
{
    let ghost views = part_views(parts@);
    let mut values: Vec<u16> = Vec::new();
    let mut i: usize = 0;
    while i < count
        invariant
            i <= count <= parts.len(),
            views == part_views(parts@),
            group_values(views.take(i as int)) == Some(values@),
        decreases count - i,
    {
        proof {
            assert(views.take(i + 1).drop_last() =~= views.take(i as int));
            assert(views.take(i + 1).last() == parts@[i as int]@);
        }
        match parse_group(&parts[i]) {
            None => {
                proof {
                    assert(views.take(count as int).take(i + 1) =~= views.take(i + 1));
                    lemma_group_values_prefix(views.take(count as int), i + 1);
                }
                return None;
            },
            Some(value) => {
                values.push(value);
            },
        }
        i += 1;
    }
    Some(values)
}

/// The groups of one side of an IPv6 address. Its last part may be an IPv4
/// address, worth two groups, where `dotted` allows it.
pub open spec fn side_values(text: Seq<char>, dotted: bool) -> Option<Seq<u16>> {
    let parts = split(text, ':');
    if text.len() == 0 {
        Some(Seq::empty())
    } else {
        match (ipv4_of(parts.last()), dotted) {
            (Some(ip), true) => match group_values(parts.drop_last()) {
                Some(values) => Some(
                    values.push(word(ip.a, ip.b) as u16).push(word(ip.c, ip.d) as u16),
                ),
                None => None,
            },
            _ => group_values(parts),
        }
    }
}

fn parse_side(text: &[char], dotted: bool) -> (result: Option<Vec<u16>>)
    ensures
        result is Some <==> side_values(text@, dotted) is Some,
        result matches Some(values) ==> side_values(text@, dotted) == Some(values@),
{
    if text.len() == 0 {
        let values: Vec<u16> = Vec::new();
        assert(values@ =~= Seq::empty());
        return Some(values);
    }
    let parts = split_at(text, ':');
    let last: usize = parts.len() - 1;
    let ghost views = part_views(parts@);
    assert(views.last() == parts@[last as int]@);
    assert(views.take(last as int) =~= views.drop_last());
    assert(views.take(parts@.len() as int) =~= views);
    match (parse_ipv4(&parts[last]), dotted) {
        (Some(ip), true) => match parse_groups(&parts, last) {
            Some(mut values) => {
                values.push(word_value(ip.a, ip.b));
                values.push(word_value(ip.c, ip.d));
                Some(values)
            },
            None => None,
        },
        _ => parse_groups(&parts, parts.len()),
    }
}

/// Where `::` first stands in a text: the length if nowhere.
pub open spec fn gap_index(text: Seq<char>) -> int
    decreases text.len(),
{
    if text.len() < 2 {
        text.len() as int
    } else if text[0] == ':' && text[1] == ':' {
        0
    } else {
        1 + gap_index(text.drop_first())
    }
}

pub(crate) proof fn lemma_gap_index(text: Seq<char>, at: int)
    requires
        0 <= at <= text.len(),
        forall|j: int| 0 <= j < at && j + 1 < text.len() ==> !(#[trigger] text[j] == ':' && text[j + 1] == ':'),
        at == text.len() || (at + 1 < text.len() && text[at] == ':' && text[at + 1] == ':'),
    ensures
        gap_index(text) == at,
    decreases text.len(),
{
    if text.len() >= 2 && at > 0 {
        assert(!(text[0] == ':' && text[0int + 1] == ':'));
        let rest = text.drop_first();
        assert forall|j: int| 0 <= j < at - 1 && j + 1 < rest.len() implies !(#[trigger] rest[j]
            == ':' && rest[j + 1] == ':') by {
            assert(!(text[j + 1] == ':' && text[j + 1 + 1] == ':'));
        }
        lemma_gap_index(rest, at - 1);
    }
}

fn find_gap(text: &[char]) -> (result: usize)
    ensures
        result == gap_index(text@),
        result == text.len() || result + 1 < text.len(),
{
    let mut i: usize = 0;
    while i < text.len() && i + 1 < text.len()
        invariant
            i <= text.len(),
            forall|j: int|
                0 <= j < i && j + 1 < text.len() ==> !(#[trigger] text@[j] == ':' && text@[j + 1]
                    == ':'),
        decreases text.len() - i,
    {
        if text[i] == ':' && text[i + 1] == ':' {
            proof {
                lemma_gap_index(text@, i as int);
            }
            return i;
        }
        i += 1;
    }
    proof {
        lemma_gap_index(text@, text@.len() as int);
    }
    text.len()
}

/// The groups of an IPv6 address: eight, or fewer around one `::` that stands for
/// the zero groups that are missing (at least one).
pub open spec fn segments_of(text: Seq<char>) -> Option<Seq<u16>> {
    let at = gap_index(text);
    if at >= text.len() {
        match side_values(text, true) {
            Some(values) if values.len() == 8 => Some(values),
            _ => None,
        }
    } else {
        match (side_values(text.take(at), false), side_values(text.skip(at + 2), true)) {
            (Some(head), Some(tail)) if head.len() + tail.len() <= 7 => Some(
                head + Seq::new((8 - head.len() - tail.len()) as nat, |i: int| 0u16) + tail,
            ),
            _ => None,
        }
    }
}

/// The address with the given eight groups.
pub open spec fn ipv6_from(segments: Seq<u16>) -> Ipv6Addr {
    Ipv6Addr {
        s0: segments[0],
        s1: segments[1],
        s2: segments[2],
        s3: segments[3],
        s4: segments[4],
        s5: segments[5],
        s6: segments[6],
        s7: segments[7],
    }
}

/// Reads an IPv6 address.
pub open spec fn ipv6_of(text: Seq<char>) -> Option<Ipv6Addr> {
    match segments_of(text) {
        Some(segments) => Some(ipv6_from(segments)),
        None => None,
    }
}

/// `head` and `tail` with the zero groups between them that make eight.
fn fill_gap(head: &[u16], tail: &[u16]) -> (result: Vec<u16>)
    requires
        head.len() + tail.len() <= 7,
    ensures
        result@ == head@ + Seq::new((8 - head@.len() - tail@.len()) as nat, |i: int| 0u16) + tail@,
{
    let mut values: Vec<u16> = Vec::new();
    let missing: usize = 8 - head.len() - tail.len();
    let ghost whole = head@ + Seq::new(missing as nat, |i: int| 0u16) + tail@;
    let mut i: usize = 0;
    while i < 8
        invariant
            i <= 8,
            head.len() + missing + tail.len() == 8,
            whole == head@ + Seq::new(missing as nat, |i: int| 0u16) + tail@,
            values@ == whole.take(i as int),
        decreases 8 - i,
    {
        let value: u16 = if i < head.len() {
            head[i]
        } else if i < head.len() + missing {
            0
        } else {
            tail[i - head.len() - missing]
        };
        assert(value == whole[i as int]);
        values.push(value);
        i += 1;
        assert(whole.take(i as int) =~= whole.take(i - 1).push(whole[i - 1]));
    }
    assert(whole.take(8) =~= whole);
    values
}

/// Reads an IPv6 address.
pub fn parse_ipv6(text: &[char]) -> (result: Option<Ipv6Addr>)
    ensures
        result == ipv6_of(text@),
{
    let at = find_gap(text);
    if at == text.len() {
        match parse_side(text, true) {
            Some(values) => if values.len() == 8 {
                let result = Ipv6Addr::from_segments(&values);
                assert(result.segments()[0] == result.s0);
                assert(result =~= ipv6_from(values@));
                Some(result)
            } else {
                None
            },
            None => None,
        }
    } else {
        let left = part(text, 0, at);
        let right = part(text, at + 2, text.len());
        assert(left@ =~= text@.take(at as int));
        assert(right@ =~= text@.skip(at + 2));
        match (parse_side(&left, false), parse_side(&right, true)) {
            (Some(head), Some(tail)) => {
                if head.len() > 7 || tail.len() > 7 || head.len() + tail.len() > 7 {
                    return None;
                }
                let values = fill_gap(&head, &tail);
                let result = Ipv6Addr::from_segments(&values);
                assert(result.segments()[0] == result.s0);
                assert(result =~= ipv6_from(values@));
                Some(result)
            },
            _ => None,
        }
    }
}

/// Reads an address of either family.
#[verifier::opaque]
pub open spec fn ip_of(text: Seq<char>) -> Option<IpAddr> {
    match ipv4_of(text) {
        Some(ip) => Some(IpAddr::V4(ip)),
        None => match ipv6_of(text) {
            Some(ip) => Some(IpAddr::V6(ip)),
            None => None,
        },
    }
}

/// Reads an address of either family.
pub fn parse_ip(text: &[char]) -> (result: Option<IpAddr>)
    ensures
        result == ip_of(text@),
{
    reveal(ip_of);
    match parse_ipv4(text) {
        Some(ip) => Some(IpAddr::V4(ip)),
        None => match parse_ipv6(text) {
            Some(ip) => Some(IpAddr::V6(ip)),
            None => None,
        },
    }
}

/// A decimal numeral without a sign that is at most `limit`.
pub open spec fn plain_number(text: Seq<char>, limit: nat) -> Option<nat> {
    if text.len() == 0 {
        None
    } else {
        match read_digits(text, 10, limit) {
            Ok(value) => Some(value),
            Err(_) => None,
        }
    }
}

fn parse_plain_number(text: &[char], limit: u64) -> (result: Option<u64>)
    ensures
        result is Some <==> plain_number(text@, limit as nat) is Some,
        result matches Some(value) ==> plain_number(text@, limit as nat) == Some(value as nat)
            && value <= limit,
{
    if text.len() == 0 {
        return None;
    }
    match parse_digits(text, 10, limit) {
        Ok(value) => Some(value),
        Err(_) => None,
    }
}

/// Reads `a.b.c.d:port`.
pub open spec fn socket_v4_of(text: Seq<char>) -> Option<SocketAddrV4> {
    let at = first_index(text, ':');
    if at >= text.len() {
        None
    } else {
        match (ipv4_of(text.take(at)), plain_number(text.skip(at + 1), 0xffff)) {
            (Some(ip), Some(port)) => Some(SocketAddrV4 { ip, port: port as u16 }),
            _ => None,
        }
    }
}

/// Reads the address and the interface between the brackets.
pub open spec fn scoped_v6_of(text: Seq<char>) -> Option<(Ipv6Addr, u32)> {
    let at = first_index(text, '%');
    if at >= text.len() {
        match ipv6_of(text) {
            Some(ip) => Some((ip, 0u32)),
            None => None,
        }
    } else {
        match (ipv6_of(text.take(at)), plain_number(text.skip(at + 1), 0xffff_ffff)) {
            (Some(ip), Some(scope)) => Some((ip, scope as u32)),
            _ => None,
        }
    }
}

/// Reads `[groups]:port` and `[groups%scope]:port`.
pub open spec fn socket_v6_of(text: Seq<char>) -> Option<SocketAddrV6> {
    let close = first_index(text, ']');
    if text.len() == 0 || text[0] != '[' || close + 1 >= text.len() || text[close + 1] != ':' {
        None
    } else {
        match (scoped_v6_of(text.subrange(1, close)), plain_number(text.skip(close + 2), 0xffff)) {
            (Some((ip, scope_id)), Some(port)) => Some(
                SocketAddrV6 { ip, port: port as u16, flowinfo: 0, scope_id },
            ),
            _ => None,
        }
    }
}

/// Reads an endpoint of either family.
#[verifier::opaque]
pub open spec fn socket_of(text: Seq<char>) -> Option<SocketAddr> {
    match socket_v4_of(text) {
        Some(v4) => Some(SocketAddr::V4(v4)),
        None => match socket_v6_of(text) {
            Some(v6) => Some(SocketAddr::V6(v6)),
            None => None,
        },
    }
}

fn parse_socket_v4(text: &[char]) -> (result: Option<SocketAddrV4>)
    ensures
        result == socket_v4_of(text@),
{
    let at = index_of(text, ':');
    if at == text.len() {
        return None;
    }
    let host = part(text, 0, at);
    let tail = part(text, at + 1, text.len());
    assert(host@ =~= text@.take(at as int));
    assert(tail@ =~= text@.skip(at + 1));
    match (parse_ipv4(&host), parse_plain_number(&tail, 0xffff)) {
        (Some(ip), Some(port)) => Some(SocketAddrV4 { ip, port: port as u16 }),
        _ => None,
    }
}

fn parse_scoped_v6(text: &[char]) -> (result: Option<(Ipv6Addr, u32)>)
    ensures
        result == scoped_v6_of(text@),
{
    let at = index_of(text, '%');
    if at == text.len() {
        return match parse_ipv6(text) {
            Some(ip) => Some((ip, 0)),
            None => None,
        };
    }
    let host = part(text, 0, at);
    let tail = part(text, at + 1, text.len());
    assert(host@ =~= text@.take(at as int));
    assert(tail@ =~= text@.skip(at + 1));
    match (parse_ipv6(&host), parse_plain_number(&tail, 0xffff_ffff)) {
        (Some(ip), Some(scope)) => Some((ip, scope as u32)),
        _ => None,
    }
}

fn parse_socket_v6(text: &[char]) -> (result: Option<SocketAddrV6>)
    ensures
        result == socket_v6_of(text@),
{
    let close = index_of(text, ']');
    if text.len() == 0 || text[0] != '[' || close >= text.len() || close + 1 >= text.len()
        || text[close + 1] != ':' {
        return None;
    }
    let inner = part(text, 1, close);
    let tail = part(text, close + 2, text.len());
    assert(tail@ =~= text@.skip(close + 2));
    match (parse_scoped_v6(&inner), parse_plain_number(&tail, 0xffff)) {
        (Some((ip, scope_id)), Some(port)) => Some(
            SocketAddrV6 { ip, port: port as u16, flowinfo: 0, scope_id },
        ),
        _ => None,
    }
}

/// Reads an endpoint of either family.
pub fn parse_socket(text: &[char]) -> (result: Option<SocketAddr>)
    ensures
        result == socket_of(text@),
{
    reveal(socket_of);
    match parse_socket_v4(text) {
        Some(v4) => Some(SocketAddr::V4(v4)),
        None => match parse_socket_v6(text) {
            Some(v6) => Some(SocketAddr::V6(v6)),
            None => None,
        },
    }
}

/// Reads an address from a text.
pub fn ip_from_text(text: &str) -> (result: Option<IpAddr>)
    ensures
        result == ip_of(text@),
{
    let chars = chars_of(text);
    parse_ip(&chars)
}

/// Reads an endpoint from a text.
pub fn socket_from_text(text: &str) -> (result: Option<SocketAddr>)
    ensures
        result == socket_of(text@),
{
    let chars = chars_of(text);
    parse_socket(&chars)
}

/// Parts with a separator between two.
pub open spec fn with_separators(parts: Seq<Seq<char>>, separator: char) -> Seq<char>
    decreases parts.len(),
{
    if parts.len() == 0 {
        Seq::empty()
    } else if parts.len() == 1 {
        parts[0]
    } else {
        parts[0] + seq![separator] + with_separators(parts.skip(1), separator)
    }
}

/// A text is made up of its parts with a separator between two, and no part holds one.
pub proof fn parts_make_up_their_text(text: Seq<char>, separator: char)
    ensures
        split(text, separator).len() >= 1,
        with_separators(split(text, separator), separator) == text,
        forall|i: int|
            0 <= i < split(text, separator).len() ==> !(#[trigger] split(
                text,
                separator,
            )[i]).contains(separator),
    decreases text.len(),
{
    first_places_are_found(text, separator);
    let at = first_index(text, separator);
    let parts = split(text, separator);
    if at >= text.len() {
        if text.contains(separator) {
            let i = text.index_of(separator);
            assert(text[i] != separator);
        }
        assert(parts =~= seq![text]);
    } else {
        let rest = text.skip(at + 1);
        parts_make_up_their_text(rest, separator);
        assert(parts =~= seq![text.take(at)] + split(rest, separator));
        assert(parts.skip(1) =~= split(rest, separator));
        assert(text =~= text.take(at) + seq![separator] + rest);
        assert forall|i: int| 0 <= i < parts.len() implies !(#[trigger] parts[i]).contains(
            separator,
        ) by {
            if i == 0 {
                let front = text.take(at);
                if front.contains(separator) {
                    let j = front.index_of(separator);
                    assert(text[j] != separator);
                }
            } else {
                assert(parts[i] == split(rest, separator)[i - 1]);
            }
        }
    }
}

/// Some part of a text is not empty exactly where it holds something else than separators.
pub proof fn parts_name_something(text: Seq<char>, separator: char)
    ensures
        (exists|i: int|
            0 <= i < split(text, separator).len() && (#[trigger] split(text, separator)[i]).len()
                > 0) <==> exists|i: int| 0 <= i < text.len() && #[trigger] text[i] != separator,
    decreases text.len(),
{
    first_places_are_found(text, separator);
    let at = first_index(text, separator);
    let parts = split(text, separator);
    if at >= text.len() {
        assert(parts =~= seq![text]);
        if text.len() > 0 {
            assert(text[0] != separator);
            assert(parts[0].len() > 0);
        }
    } else {
        let rest = text.skip(at + 1);
        parts_name_something(rest, separator);
        assert(parts =~= seq![text.take(at)] + split(rest, separator));
        if exists|i: int| 0 <= i < parts.len() && (#[trigger] parts[i]).len() > 0 {
            let i = choose|i: int| 0 <= i < parts.len() && (#[trigger] parts[i]).len() > 0;
            if i == 0 {
                assert(text[0] != separator);
            } else {
                assert(parts[i] == split(rest, separator)[i - 1]);
                let j = choose|j: int| 0 <= j < rest.len() && #[trigger] rest[j] != separator;
                assert(text[at + 1 + j] != separator);
            }
        }
        if exists|i: int| 0 <= i < text.len() && #[trigger] text[i] != separator {
            let i = choose|i: int| 0 <= i < text.len() && #[trigger] text[i] != separator;
            if i < at {
                assert(parts[0].len() > 0);
            } else {
                assert(rest[i - at - 1] == text[i]);
                let j = choose|j: int|
                    0 <= j < split(rest, separator).len() && (#[trigger] split(rest, separator)[j]).len()
                        > 0;
                assert(parts[j + 1] == split(rest, separator)[j]);
            }
        }
    }
}

/// Which addresses are special: all zero; 127.x.x.x and ::1; 224 to 239 and ff00 on; the
/// first 1024 groups from fe80 on for one link; and ::ffff:x:x for an IPv4 address.
pub proof fn special_addresses_have_their_prefix(ip: IpAddr)
    ensures
        ip matches IpAddr::V4(v4) ==> {
            let n = v4.a * 0x100_0000 + v4.b * 0x1_0000 + v4.c * 0x100 + v4.d;
            &&& ip.unspecified() <==> n == 0
            &&& ip.loopback() <==> n / 0x100_0000 == 127
            &&& ip.multicast() <==> n / 0x1000_0000 == 14
            &&& !ip.link_local_v6()
            &&& ip.canonical() == ip
            &&& ip.v4()
        },
        ip matches IpAddr::V6(v6) ==> {
            let front = v6.s0 + v6.s1 + v6.s2 + v6.s3 + v6.s4;
            &&& ip.unspecified() <==> front + v6.s5 + v6.s6 + v6.s7 == 0
            &&& ip.loopback() <==> front + v6.s5 + v6.s6 == 0 && v6.s7 == 1
            &&& ip.multicast() <==> v6.s0 / 256 == 255
            &&& ip.link_local_v6() <==> v6.s0 / 64 == 0x3fa
            &&& v6.mapped() <==> front == 0 && v6.s5 == 65535
            &&& !v6.mapped() ==> ip.canonical() == ip
            &&& v6.mapped() ==> (ip.canonical() matches IpAddr::V4(v4) && v4.a * 256 + v4.b == v6.s6
                && v4.c * 256 + v4.d == v6.s7)
            &&& !ip.v4()
        },
{
    match ip {
        IpAddr::V4(v4) => {
            let octets = v4.octets();
            let zero = seq![0u8, 0, 0, 0];
            assert(octets[0] == v4.a && octets[1] == v4.b && octets[2] == v4.c && octets[3] == v4.d);
            if v4.a == 0 && v4.b == 0 && v4.c == 0 && v4.d == 0 {
                assert(octets =~= zero);
            }
        },
        IpAddr::V6(v6) => {
            let groups = v6.segments();
            assert(groups[0] == v6.s0 && groups[1] == v6.s1 && groups[2] == v6.s2 && groups[3]
                == v6.s3 && groups[4] == v6.s4 && groups[5] == v6.s5 && groups[6] == v6.s6
                && groups[7] == v6.s7);
            if v6.s0 == 0 && v6.s1 == 0 && v6.s2 == 0 && v6.s3 == 0 && v6.s4 == 0 && v6.s5 == 0
                && v6.s6 == 0 && v6.s7 == 0 {
                assert(groups =~= seq![0u16, 0, 0, 0, 0, 0, 0, 0]);
            }
        },
    }
}

/// Addresses are in the order of the numbers that they are, IPv4 before IPv6.
pub proof fn addresses_are_ordered_as_numbers(x: IpAddr, y: IpAddr)
    ensures
        x is V4 && y is V6 ==> x.before(y) && !y.before(x),
        x is V4 && y is V4 ==> {
            let (p, q) = (x->V4_0, y->V4_0);
            x.before(y) <==> p.a * 0x100_0000 + p.b * 0x1_0000 + p.c * 0x100 + p.d < q.a
                * 0x100_0000 + q.b * 0x1_0000 + q.c * 0x100 + q.d
        },
        x is V6 && y is V6 ==> {
            let (p, q) = (x->V6_0, y->V6_0);
            let upper = |v: Ipv6Addr|
                v.s0 * 0x1_0000_0000_0000 + v.s1 * 0x1_0000_0000 + v.s2 * 0x1_0000 + v.s3;
            let lower = |v: Ipv6Addr|
                v.s4 * 0x1_0000_0000_0000 + v.s5 * 0x1_0000_0000 + v.s6 * 0x1_0000 + v.s7;
            x.before(y) <==> upper(p) < upper(q) || (upper(p) == upper(q) && lower(p) < lower(q))
        },
{
    reveal_with_fuel(key_before, 10);
}

/// A group is one to four hexadecimal digits of either case, and worth what they come to.
pub proof fn groups_are_up_to_four_digits(text: Seq<char>)
    ensures
        group_value(text) is Some <==> 1 <= text.len() <= 4 && of_digits(text, 16) && amount(
            text,
            16,
        ) <= 65535,
        group_value(text) matches Some(value) ==> value == amount(text, 16),
{
    lemma_amounts(text, 16, 0xffff);
}

/// A plain number is one digit at least, without a sign, that come to no more than is
/// allowed.
pub proof fn plain_numbers_have_no_sign(text: Seq<char>, limit: nat)
    ensures
        plain_number(text, limit) is Some <==> text.len() >= 1 && of_digits(text, 10) && amount(
            text,
            10,
        ) <= limit,
        plain_number(text, limit) matches Some(value) ==> value == amount(text, 10),
{
    lemma_amounts(text, 10, limit);
}

proof fn lemma_positive(text: Seq<char>)
    requires
        text.len() > 0,
        text[0] != '0',
        of_digits(text, 10),
    ensures
        amount(text, 10) > 0,
    decreases text.len(),
{
    let front = text.drop_last();
    assert(worth(text[0]) < 10);
    if front.len() > 0 {
        assert forall|i: int| 0 <= i < front.len() implies worth(#[trigger] front[i]) < 10 by {
            assert(front[i] == text[i]);
        }
        lemma_positive(front);
        assert(worth(text.last()) >= 0);
    } else {
        assert(front =~= Seq::empty());
        assert(amount(front, 10) == 0);
    }
}

proof fn lemma_only_numeral(text: Seq<char>)
    requires
        text.len() > 0,
        of_digits(text, 10),
        text.len() > 1 ==> text[0] != '0',
    ensures
        amount(text, 10) >= 0,
        numeral(amount(text, 10) as nat, 10) == text,
    decreases text.len(),
{
    let front = text.drop_last();
    let last = text.last();
    assert(worth(text[text.len() - 1]) < 10);
    assert(digit_char(worth(last)) == last);
    if front.len() > 0 {
        assert forall|i: int| 0 <= i < front.len() implies worth(#[trigger] front[i]) < 10 by {
            assert(front[i] == text[i]);
        }
        assert(front[0] == text[0]);
        lemma_positive(front);
        lemma_only_numeral(front);
        let n = amount(text, 10);
        assert(n / 10 == amount(front, 10) && n % 10 == worth(last));
        assert(numeral(n as nat, 10) =~= front.push(last));
        assert(front.push(last) =~= text);
    } else {
        assert(front =~= Seq::empty());
        assert(amount(front, 10) == 0);
        assert(text =~= seq![last]);
    }
}

/// An octet is read from its one decimal numeral and from no other text.
pub proof fn octets_have_one_spelling(text: Seq<char>, value: u8)
    ensures
        octet_value(text) == Some(value) ==> text == decimal(value as nat),
        octet_value(text) is Some <==> 1 <= text.len() <= 3 && of_digits(text, 10) && amount(
            text,
            10,
        ) <= 255 && (text.len() == 1 || text[0] != '0'),
        octet_value(text) matches Some(n) ==> n == amount(text, 10),
{
    reveal(decimal);
    lemma_amounts(text, 10, 255);
    if octet_value(text) == Some(value) {
        lemma_only_numeral(text);
    }
}

/// An IPv4 address is read from its one spelling and from no other text.
pub proof fn ipv4_addresses_have_one_spelling(text: Seq<char>, ip: Ipv4Addr)
    requires
        ipv4_of(text) == Some(ip),
    ensures
        text == decimal(ip.a as nat) + seq!['.'] + decimal(ip.b as nat) + seq!['.'] + decimal(
            ip.c as nat,
        ) + seq!['.'] + decimal(ip.d as nat),
{
    let parts = split(text, '.');
    parts_make_up_their_text(text, '.');
    octets_have_one_spelling(parts[0], ip.a);
    octets_have_one_spelling(parts[1], ip.b);
    octets_have_one_spelling(parts[2], ip.c);
    octets_have_one_spelling(parts[3], ip.d);
    reveal_with_fuel(with_separators, 5);
    assert(parts.skip(1).skip(1) =~= parts.skip(2));
    assert(parts.skip(2).skip(1) =~= parts.skip(3));
    assert(text =~= parts[0] + seq!['.'] + parts[1] + seq!['.'] + parts[2] + seq!['.'] + parts[3]);
}

/// The first gap is the only place with two colons and without two before.
pub proof fn gaps_are_found(text: Seq<char>)
    ensures
        0 <= gap_index(text) <= text.len(),
        gap_index(text) < text.len() ==> gap_index(text) + 1 < text.len() && text[gap_index(text)]
            == ':' && text[gap_index(text) + 1] == ':',
        forall|j: int|
            0 <= j < gap_index(text) && j + 1 < text.len() ==> !(#[trigger] text[j] == ':' && text[j
                + 1] == ':'),
    decreases text.len(),
{
    if text.len() >= 2 && !(text[0] == ':' && text[1] == ':') {
        let rest = text.drop_first();
        gaps_are_found(rest);
        assert forall|j: int| 0 <= j < gap_index(text) && j + 1 < text.len() implies !(
        #[trigger] text[j] == ':' && text[j + 1] == ':') by {
            if j > 0 {
                assert(rest[j - 1] == text[j]);
                assert(rest[j] == text[j + 1]);
            }
        }
    }
}

/// An IPv6 address has eight groups: all of them spelled, or up to seven around one gap
/// that stands for zeros.
pub proof fn ipv6_addresses_have_eight_groups(text: Seq<char>)
    ensures
        ({
            let at = gap_index(text);
            let groups = segments_of(text);
            let all = side_values(text, true);
            let head = side_values(text.take(at), false);
            let tail = side_values(text.skip(at + 2), true);
            &&& groups is Some ==> groups->0.len() == 8
            &&& at == text.len() ==> (groups is Some <==> all is Some && all->0.len() == 8)
            &&& at == text.len() && groups is Some ==> groups == all
            &&& at < text.len() ==> (groups is Some <==> head is Some && tail is Some
                && head->0.len() + tail->0.len() < 8)
            &&& at < text.len() && groups is Some ==> forall|i: int|
                0 <= i < 8 ==> #[trigger] groups->0[i] == if i < head->0.len() {
                    head->0[i]
                } else if i < 8 - tail->0.len() {
                    0
                } else {
                    tail->0[i - 8 + tail->0.len()]
                }
        }),
{
    gaps_are_found(text);
}

/// The groups that parts are worth are those of each part, and there are none where one
/// is no group.
pub proof fn groups_are_read_one_by_one(parts: Seq<Seq<char>>)
    ensures
        group_values(parts) is Some <==> forall|i: int|
            0 <= i < parts.len() ==> group_value(#[trigger] parts[i]) is Some,
        group_values(parts) matches Some(values) ==> values.len() == parts.len() && forall|i: int|
            0 <= i < parts.len() ==> group_value(#[trigger] parts[i]) == Some(values[i]),
    decreases parts.len(),
{
    if parts.len() > 0 {
        let front = parts.drop_last();
        groups_are_read_one_by_one(front);
        if group_values(parts) is Some {
            let values = group_values(parts)->0;
            assert forall|i: int| 0 <= i < parts.len() implies group_value(#[trigger] parts[i])
                == Some(values[i]) by {
                if i < front.len() {
                    assert(front[i] == parts[i]);
                }
            }
        }
        if forall|i: int| 0 <= i < parts.len() ==> group_value(#[trigger] parts[i]) is Some {
            assert forall|i: int| 0 <= i < front.len() implies group_value(#[trigger] front[i])
                is Some by {
                assert(front[i] == parts[i]);
            }
            assert(group_value(parts[parts.len() - 1]) is Some);
        }
    }
}

/// What stands on one side of a gap: nothing, or groups between colons. In place of the
/// last two an IPv4 address may stand, but only where the address ends with it.
pub proof fn sides_are_groups(text: Seq<char>)
    ensures
        ({
            let parts = split(text, ':');
            let dotted = text.len() > 0 && ipv4_of(parts.last()) is Some;
            &&& text.len() == 0 ==> side_values(text, true) == Some(Seq::<u16>::empty())
                && side_values(text, false) == Some(Seq::<u16>::empty())
            &&& text.len() > 0 ==> side_values(text, false) == group_values(parts)
            &&& text.len() > 0 && !dotted ==> side_values(text, true) == group_values(parts)
            &&& dotted ==> (side_values(text, true) is Some <==> group_values(parts.drop_last())
                is Some)
            &&& dotted ==> (side_values(text, true) matches Some(values) ==> {
                let ip = ipv4_of(parts.last())->0;
                &&& values.len() == parts.len() + 1
                &&& values.take(parts.len() - 1) == group_values(parts.drop_last())->0
                &&& values[parts.len() - 1] == ip.a * 256 + ip.b
                &&& values[parts.len() as int] == ip.c * 256 + ip.d
            })
        }),
{
    let parts = split(text, ':');
    if text.len() > 0 {
        parts_make_up_their_text(text, ':');
        groups_are_read_one_by_one(parts.drop_last());
        if ipv4_of(parts.last()) is Some && group_values(parts.drop_last()) is Some {
            let values = side_values(text, true)->0;
            assert(values.take(parts.len() - 1) =~= group_values(parts.drop_last())->0);
        }
    }
}

/// An endpoint is read as address and port around the first colon, or around brackets with
/// an optional interface behind a percent sign.
pub proof fn endpoints_are_read_in_parts(text: Seq<char>)
    ensures
        ({
            let colon = first_index(text, ':');
            let host = ipv4_of(text.take(colon));
            let port = plain_number(text.skip(colon + 1), 65535);
            &&& socket_v4_of(text) is Some <==> colon < text.len() && host is Some && port is Some
            &&& socket_v4_of(text) matches Some(v4) ==> v4.ip == host->0 && v4.port == port->0
        }),
        ({
            let close = first_index(text, ']');
            let inner = text.subrange(1, close);
            let percent = first_index(inner, '%');
            let port = plain_number(text.skip(close + 2), 65535);
            let scoped = percent < inner.len();
            let host = if scoped {
                ipv6_of(inner.take(percent))
            } else {
                ipv6_of(inner)
            };
            let scope = plain_number(inner.skip(percent + 1), 0xffff_ffff);
            &&& socket_v6_of(text) is Some <==> text.len() > 0 && text[0] == '[' && close + 1
                < text.len() && text[close + 1] == ':' && host is Some && (scoped ==> scope is Some)
                && port is Some
            &&& socket_v6_of(text) matches Some(v6) ==> v6.ip == host->0 && v6.port == port->0
                && v6.flowinfo == 0 && v6.scope_id == if scoped {
                scope->0
            } else {
                0
            }
        }),
{
    let close = first_index(text, ']');
    let inner = text.subrange(1, close);
    first_places_are_found(text, ':');
    first_places_are_found(text, ']');
    first_places_are_found(inner, '%');
    plain_numbers_have_no_sign(text.skip(first_index(text, ':') + 1), 65535);
    plain_numbers_have_no_sign(text.skip(close + 2), 65535);
    plain_numbers_have_no_sign(inner.skip(first_index(inner, '%') + 1), 0xffff_ffff);
}

} // verus!
