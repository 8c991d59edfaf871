//! What is written of an address is read back as that address.

use crate::net::{
    group_value, group_values, ip_of, ipv4_of, ipv6_from, ipv6_of, joined_groups, lemma_gap_index,
    longest_run, octet_value, plain_number, run_start, scoped_v6_of, segments_of, side_values,
    socket_of, socket_v4_of, socket_v6_of, split, word, zero_run, IpAddr, Ipv4Addr, Ipv6Addr,
    SocketAddr, SocketAddrV4, SocketAddrV6,
};
use crate::text::{
    decimal, digit_char, digit_value, first_index, lemma_first_index, lemma_read_digits_prefix,
    numeral, read_digits, NumberError,
};
use vstd::prelude::*;
use vstd::string::*;

verus! {

/// Whether a character is a digit as numerals are written.
pub open spec fn written_digit(c: char) -> bool {
    '0' <= c <= '9' || 'a' <= c <= 'f'
}

/// Whether a text is made of such digits.
pub open spec fn written_digits(text: Seq<char>) -> bool {
    forall|i: int| 0 <= i < text.len() ==> written_digit(#[trigger] text[i])
}

/// A numeral is read back as the number that it was written for.
pub proof fn numerals_are_read_back(n: nat, radix: nat, limit: nat)
    requires
        2 <= radix <= 16,
        n <= limit,
    ensures
        read_digits(numeral(n, radix), radix, limit) == Ok::<nat, NumberError>(n),
    decreases n,
{
    let text = numeral(n, radix);
    if n < radix {
        assert(text.drop_last() =~= Seq::<char>::empty());
        assert(digit_value(digit_char(n as int), radix) == Some(n));
        assert(0 * radix + n == n);
        reveal_with_fuel(read_digits, 2);
    } else {
        assert(n / radix < n && n % radix < radix && (n / radix) * radix + n % radix == n)
            by (nonlinear_arith)
            requires
                2 <= radix <= n,
        ;
        numerals_are_read_back(n / radix, radix, limit);
        assert(text.drop_last() =~= numeral(n / radix, radix));
        assert(digit_value(digit_char((n % radix) as int), radix) == Some(n % radix));
    }
}

proof fn lemma_numeral(n: nat, radix: nat)
    requires
        2 <= radix <= 16,
    ensures
        numeral(n, radix).len() > 0,
        written_digits(numeral(n, radix)),
        n > 0 ==> numeral(n, radix)[0] != '0',
        n < radix ==> numeral(n, radix).len() == 1,
    decreases n,
{
    if n >= radix {
        assert(0 < n / radix < n && n % radix < radix) by (nonlinear_arith)
            requires
                2 <= radix <= n,
        ;
        lemma_numeral(n / radix, radix);
    }
}

proof fn lemma_octet(n: u8)
    ensures
        octet_value(decimal(n as nat)) == Some(n),
        written_digits(decimal(n as nat)),
        1 <= decimal(n as nat).len() <= 3,
{
    reveal(decimal);
    lemma_numeral(n as nat, 10);
    numerals_are_read_back(n as nat, 10, 255);
    if n >= 10 {
        lemma_numeral((n / 10) as nat, 10);
        if n >= 100 {
            lemma_numeral((n / 10 / 10) as nat, 10);
        }
    }
}

proof fn lemma_group(n: u16)
    ensures
        group_value(numeral(n as nat, 16)) == Some(n),
        written_digits(numeral(n as nat, 16)),
        1 <= numeral(n as nat, 16).len() <= 4,
{
    lemma_numeral(n as nat, 16);
    numerals_are_read_back(n as nat, 16, 0xffff);
    if n >= 16 {
        lemma_numeral((n / 16) as nat, 16);
        if n >= 256 {
            lemma_numeral((n / 16 / 16) as nat, 16);
            if n >= 4096 {
                lemma_numeral((n / 16 / 16 / 16) as nat, 16);
            }
        }
    }
}

proof fn lemma_first(hay: Seq<char>, needle: char)
    ensures
        0 <= first_index(hay, needle) <= hay.len(),
        first_index(hay, needle) < hay.len() ==> hay[first_index(hay, needle)] == needle,
        forall|j: int| 0 <= j < first_index(hay, needle) ==> hay[j] != needle,
    decreases hay.len(),
{
    if hay.len() > 0 && hay[0] != needle {
        let rest = hay.drop_first();
        lemma_first(rest, needle);
        assert forall|j: int| 0 <= j < first_index(hay, needle) implies hay[j] != needle by {
            if j > 0 {
                assert(rest[j - 1] != needle);
            }
        }
    }
}

proof fn lemma_split_front(front: Seq<char>, rest: Seq<char>, separator: char)
    requires
        forall|i: int| 0 <= i < front.len() ==> front[i] != separator,
    ensures
        split(front.push(separator) + rest, separator) == seq![front] + split(rest, separator),
{
    let text = front.push(separator) + rest;
    assert forall|j: int| 0 <= j < front.len() implies text[j] != separator by {
        assert(text[j] == front[j]);
    }
    lemma_first_index(text, separator, front.len() as int);
    assert(text.take(front.len() as int) =~= front);
    assert(text.skip(front.len() as int + 1) =~= rest);
}

proof fn lemma_split_single(text: Seq<char>, separator: char)
    requires
        forall|i: int| 0 <= i < text.len() ==> text[i] != separator,
    ensures
        split(text, separator) == seq![text],
{
    lemma_first_index(text, separator, text.len() as int);
}

proof fn lemma_split_back(front: Seq<char>, last: Seq<char>, separator: char)
    requires
        forall|i: int| 0 <= i < last.len() ==> last[i] != separator,
    ensures
        split(front.push(separator) + last, separator) == split(front, separator).push(last),
    decreases front.len(),
{
    let at = first_index(front, separator);
    lemma_first(front, separator);
    if at >= front.len() {
        lemma_split_front(front, last, separator);
        lemma_split_single(last, separator);
        assert(seq![front] + seq![last] =~= seq![front].push(last));
    } else {
        let head = front.take(at);
        let tail = front.skip(at + 1);
        lemma_split_back(tail, last, separator);
        assert(front.push(separator) + last =~= head.push(separator) + (tail.push(separator)
            + last));
        lemma_split_front(head, tail.push(separator) + last, separator);
        assert(seq![head] + split(tail, separator).push(last) =~= (seq![head] + split(
            tail,
            separator,
        )).push(last));
    }
}

/// The text of an IPv4 address is read back as the address.
pub proof fn ipv4_texts_are_read_back(ip: Ipv4Addr)
    ensures
        ipv4_of(ip.spec_text()) == Some(ip),
{
    reveal_strlit(".");
    let a = decimal(ip.a as nat);
    let b = decimal(ip.b as nat);
    let c = decimal(ip.c as nat);
    let d = decimal(ip.d as nat);
    lemma_octet(ip.a);
    lemma_octet(ip.b);
    lemma_octet(ip.c);
    lemma_octet(ip.d);
    let last = c.push('.') + d;
    let most = b.push('.') + last;
    assert(ip.spec_text() =~= a.push('.') + most);
    lemma_split_front(a, most, '.');
    lemma_split_front(b, last, '.');
    lemma_split_front(c, d, '.');
    lemma_split_single(d, '.');
    let parts = split(ip.spec_text(), '.');
    assert(parts =~= seq![a, b, c, d]);
}

proof fn lemma_ipv4_text(ip: Ipv4Addr)
    ensures
        ip.spec_text().len() > 0,
        written_digit(ip.spec_text()[0]),
        forall|i: int|
            0 <= i < ip.spec_text().len() ==> written_digit(#[trigger] ip.spec_text()[i])
                || ip.spec_text()[i] == '.',
{
    reveal_strlit(".");
    lemma_octet(ip.a);
    lemma_octet(ip.b);
    lemma_octet(ip.c);
    lemma_octet(ip.d);
    assert(ip.spec_text()[0] == decimal(ip.a as nat)[0]);
}

/// A text without dots is no IPv4 address.
proof fn lemma_undotted(text: Seq<char>)
    requires
        forall|i: int| 0 <= i < text.len() ==> text[i] != '.',
    ensures
        ipv4_of(text) is None,
{
    lemma_split_single(text, '.');
}

/// The numerals of some groups.
spec fn group_texts(groups: Seq<u16>) -> Seq<Seq<char>> {
    Seq::new(groups.len(), |i: int| numeral(groups[i] as nat, 16))
}

/// Whether a text is made of numerals with single colons between them.
spec fn colon_text(text: Seq<char>) -> bool {
    &&& text.len() > 0
    &&& text[0] != ':'
    &&& text.last() != ':'
    &&& forall|i: int| 0 <= i < text.len() ==> written_digit(#[trigger] text[i]) || text[i] == ':'
    &&& forall|i: int|
        0 <= i && i + 1 < text.len() ==> !(#[trigger] text[i] == ':' && text[i + 1] == ':')
}

proof fn lemma_joined(groups: Seq<u16>)
    requires
        groups.len() > 0,
    ensures
        split(joined_groups(groups), ':') == group_texts(groups),
        group_values(group_texts(groups)) == Some(groups),
        colon_text(joined_groups(groups)),
    decreases groups.len(),
{
    reveal_strlit(":");
    let text = joined_groups(groups);
    let last = numeral(groups.last() as nat, 16);
    lemma_group(groups.last());
    let front = groups.drop_last();
    assert(group_texts(groups).drop_last() =~= group_texts(front));
    assert(group_texts(groups).last() == last);
    assert(front.push(groups.last()) =~= groups);
    if groups.len() == 1 {
        lemma_split_single(text, ':');
        assert(group_texts(groups) =~= seq![text]);
        assert(group_values(group_texts(front)) == Some(Seq::<u16>::empty()));
        assert(front =~= Seq::<u16>::empty());
    } else {
        lemma_joined(front);
        let head = joined_groups(front);
        assert(text =~= head.push(':') + last);
        lemma_split_back(head, last, ':');
        assert(group_texts(groups) =~= group_texts(front).push(last));
        assert forall|i: int| 0 <= i < text.len() implies written_digit(#[trigger] text[i])
            || text[i] == ':' by {
            if i < head.len() {
                assert(text[i] == head[i]);
            } else if i > head.len() {
                assert(text[i] == last[i - head.len() - 1]);
            }
        }
        assert forall|i: int| 0 <= i && i + 1 < text.len() implies !(#[trigger] text[i] == ':'
            && text[i + 1] == ':') by {
            if i + 1 < head.len() {
                assert(text[i] == head[i] && text[i + 1] == head[i + 1]);
            } else if i + 1 == head.len() {
                assert(text[i] == head.last());
            } else {
                assert(text[i + 1] == last[i - head.len()]);
            }
        }
    }
}

proof fn lemma_side(groups: Seq<u16>, dotted: bool)
    ensures
        side_values(joined_groups(groups), dotted) == Some(groups),
{
    let text = joined_groups(groups);
    if groups.len() == 0 {
        assert(groups =~= Seq::<u16>::empty());
    } else {
        lemma_joined(groups);
        let parts = split(text, ':');
        assert(parts.last() == numeral(groups.last() as nat, 16));
        lemma_group(groups.last());
        lemma_undotted(parts.last());
    }
}

proof fn lemma_zero_run(segments: Seq<u16>, from: int)
    requires
        0 <= from <= segments.len(),
    ensures
        0 <= zero_run(segments, from) <= segments.len() - from,
        forall|i: int| from <= i < from + zero_run(segments, from) ==> segments[i] == 0,
    decreases segments.len() - from,
{
    if from < segments.len() && segments[from] == 0 {
        lemma_zero_run(segments, from + 1);
    }
}

proof fn lemma_longest_run(segments: Seq<u16>, n: int) -> (start: int)
    requires
        0 < n <= segments.len(),
    ensures
        0 <= start < n,
        forall|i: int|
            0 <= i < n ==> #[trigger] zero_run(segments, i) <= zero_run(segments, start),
        forall|i: int|
            0 <= i < start ==> #[trigger] zero_run(segments, i) < zero_run(segments, start),
    decreases n,
{
    if n == 1 {
        0
    } else {
        let best = lemma_longest_run(segments, n - 1);
        if zero_run(segments, n - 1) > zero_run(segments, best) {
            n - 1
        } else {
            best
        }
    }
}

proof fn lemma_run(segments: Seq<u16>)
    requires
        segments.len() == 8,
    ensures
        0 <= run_start(segments) < 8,
        0 <= zero_run(segments, run_start(segments)) <= 8 - run_start(segments),
        forall|i: int|
            run_start(segments) <= i < run_start(segments) + zero_run(
                segments,
                run_start(segments),
            ) ==> segments[i] == 0,
{
    let start = lemma_longest_run(segments, 8);
    assert(longest_run(segments, start));
    assert(longest_run(segments, run_start(segments)));
    lemma_zero_run(segments, run_start(segments));
}

proof fn lemma_gap_text(head: Seq<u16>, tail: Seq<u16>)
    requires
        head.len() + tail.len() <= 7,
    ensures
        segments_of(joined_groups(head) + "::"@ + joined_groups(tail)) == Some(
            head + Seq::new((8 - head.len() - tail.len()) as nat, |i: int| 0u16) + tail,
        ),
{
    reveal_strlit("::");
    let front = joined_groups(head);
    let back = joined_groups(tail);
    let text = front + "::"@ + back;
    let at = front.len() as int;
    if head.len() > 0 {
        lemma_joined(head);
    }
    assert(text[at] == ':' && text[at + 1] == ':');
    assert forall|j: int| 0 <= j < at && j + 1 < text.len() implies !(#[trigger] text[j] == ':'
        && text[j + 1] == ':') by {
        assert(text[j] == front[j]);
        if j + 1 < at {
            assert(text[j + 1] == front[j + 1]);
        } else {
            assert(front[j] == front.last());
        }
    }
    lemma_gap_index(text, at);
    assert(text.take(at) =~= front);
    assert(text.skip(at + 2) =~= back);
    lemma_side(head, false);
    lemma_side(tail, true);
}

proof fn lemma_single_group(text: Seq<char>, value: u16)
    requires
        group_value(text) == Some(value),
    ensures
        group_values(seq![text]) == Some(seq![value]),
{
    assert(seq![text].drop_last() =~= Seq::<Seq<char>>::empty());
    assert(group_values(Seq::<Seq<char>>::empty()) == Some(Seq::<u16>::empty()));
    assert(Seq::<u16>::empty().push(value) =~= seq![value]);
}

proof fn lemma_mark()
    ensures
        group_value(seq!['f', 'f', 'f', 'f']) == Some(0xffffu16),
{
    lemma_group(0xffff);
    reveal_with_fuel(numeral, 4);
    assert(numeral(0xffff, 16) =~= seq!['f', 'f', 'f', 'f']);
}

/// The side of the text of a mapped address behind its gap.
proof fn lemma_mapped_side(side: Seq<char>, inner: Ipv4Addr)
    requires
        side == seq!['f', 'f', 'f', 'f', ':'] + inner.spec_text(),
    ensures
        side_values(side, true) == Some(
            seq![
                0xffffu16,
                word(inner.a, inner.b) as u16,
                word(inner.c, inner.d) as u16,
            ],
        ),
{
    let dotted = inner.spec_text();
    let group = seq!['f', 'f', 'f', 'f'];
    lemma_ipv4_text(inner);
    ipv4_texts_are_read_back(inner);
    assert(side =~= group.push(':') + dotted);
    lemma_split_front(group, dotted, ':');
    lemma_split_single(dotted, ':');
    let parts = split(side, ':');
    assert(parts =~= seq![group, dotted]);
    assert(parts.drop_last() =~= seq![group]);
    lemma_mark();
    lemma_single_group(group, 0xffff);
    let high = word(inner.a, inner.b) as u16;
    let low = word(inner.c, inner.d) as u16;
    assert(seq![0xffffu16].push(high).push(low) =~= seq![0xffffu16, high, low]);
}

proof fn lemma_mapped_text(ip: Ipv6Addr)
    requires
        ip.mapped(),
    ensures
        segments_of(ip.spec_text()) == Some(ip.segments()),
{
    reveal_strlit("::ffff:");
    let inner = ip.embedded();
    let text = ip.spec_text();
    lemma_gap_index(text, 0);
    assert(text.take(0) =~= Seq::<char>::empty());
    let side = text.skip(2);
    assert(side =~= seq!['f', 'f', 'f', 'f', ':'] + inner.spec_text());
    lemma_mapped_side(side, inner);
    let tail = seq![0xffffu16, ip.s6, ip.s7];
    assert(side_values(side, true) == Some(tail));
    assert(Seq::<u16>::empty() + Seq::new(5, |i: int| 0u16) + tail =~= ip.segments());
}

/// The text of an IPv6 address is read back as the address, whichever groups it
/// leaves out.
pub proof fn ipv6_texts_are_read_back(ip: Ipv6Addr)
    ensures
        ipv6_of(ip.spec_text()) == Some(ip),
{
    let segments = ip.segments();
    let start = run_start(segments);
    let length = zero_run(segments, start);
    lemma_run(segments);
    if ip.mapped() {
        lemma_mapped_text(ip);
    } else if length > 1 {
        let head = segments.subrange(0, start);
        let tail = segments.subrange(start + length, 8);
        lemma_gap_text(head, tail);
        assert(head + Seq::new((8 - head.len() - tail.len()) as nat, |i: int| 0u16) + tail
            =~= segments);
    } else {
        let text = joined_groups(segments);
        lemma_joined(segments);
        lemma_gap_index(text, text.len() as int);
        lemma_side(segments, true);
    }
    assert(ipv6_from(segments) == ip);
}

/// What is known of the characters of an IPv6 address.
proof fn lemma_ipv6_text(ip: Ipv6Addr)
    ensures
        ip.spec_text().len() > 0,
        forall|i: int|
            0 <= i < ip.spec_text().len() ==> written_digit(#[trigger] ip.spec_text()[i])
                || ip.spec_text()[i] == ':' || ip.spec_text()[i] == '.',
        !ip.mapped() ==> forall|i: int|
            0 <= i < ip.spec_text().len() ==> #[trigger] ip.spec_text()[i] != '.',
        ip.mapped() ==> ip.spec_text().len() > 7 && ip.spec_text()[0] == ':' && forall|i: int|
            0 <= i < 7 ==> #[trigger] ip.spec_text()[i] != '.',
{
    reveal_strlit("::");
    reveal_strlit("::ffff:");
    let text = ip.spec_text();
    let segments = ip.segments();
    let start = run_start(segments);
    let length = zero_run(segments, start);
    lemma_run(segments);
    if ip.mapped() {
        let dotted = ip.embedded().spec_text();
        lemma_ipv4_text(ip.embedded());
        assert forall|i: int| 0 <= i < text.len() implies written_digit(#[trigger] text[i])
            || text[i] == ':' || text[i] == '.' by {
            if i >= 7 {
                assert(text[i] == dotted[i - 7]);
            }
        }
    } else if length > 1 {
        let head = segments.subrange(0, start);
        let tail = segments.subrange(start + length, 8);
        let front = joined_groups(head);
        let back = joined_groups(tail);
        if head.len() > 0 {
            lemma_joined(head);
        }
        if tail.len() > 0 {
            lemma_joined(tail);
        }
        assert forall|i: int| 0 <= i < text.len() implies written_digit(#[trigger] text[i])
            || text[i] == ':' by {
            if i < front.len() {
                assert(text[i] == front[i]);
            } else if i >= front.len() + 2 {
                assert(text[i] == back[i - front.len() - 2]);
            }
        }
    } else {
        lemma_joined(segments);
    }
}

/// The text of an address holds digits, dots and colons and nothing else.
pub(crate) proof fn lemma_address_text(ip: IpAddr)
    ensures
        ip.spec_text().len() > 0,
        forall|i: int|
            0 <= i < ip.spec_text().len() ==> written_digit(#[trigger] ip.spec_text()[i])
                || ip.spec_text()[i] == ':' || ip.spec_text()[i] == '.',
        ip is V4 ==> forall|i: int|
            0 <= i < ip.spec_text().len() ==> #[trigger] ip.spec_text()[i] != ':',
{
    reveal(IpAddr::spec_text);
    match ip {
        IpAddr::V4(v4) => lemma_ipv4_text(v4),
        IpAddr::V6(v6) => lemma_ipv6_text(v6),
    }
}

/// The text of an address is read back as the address.
pub proof fn address_texts_are_read_back(ip: IpAddr)
    ensures
        ip_of(ip.spec_text()) == Some(ip),
{
    reveal(ip_of);
    reveal(IpAddr::spec_text);
    match ip {
        IpAddr::V4(v4) => {
            ipv4_texts_are_read_back(v4);
        },
        IpAddr::V6(v6) => {
            let text = v6.spec_text();
            ipv6_texts_are_read_back(v6);
            lemma_ipv6_text(v6);
            if v6.mapped() {
                let at = first_index(text, '.');
                lemma_first(text, '.');
                let parts = split(text, '.');
                assert(parts[0] == if at < text.len() {
                    text.take(at)
                } else {
                    text
                });
                assert(parts[0].len() >= 7) by {
                    if at < 7 {
                        assert(text[at] != '.');
                    }
                }
                assert(octet_value(parts[0]) is None);
            } else {
                lemma_undotted(text);
            }
        },
    }
}

pub(crate) proof fn lemma_plain_number(n: nat, limit: nat)
    requires
        n <= limit,
    ensures
        plain_number(decimal(n), limit) == Some(n),
        decimal(n).len() > 0,
        written_digits(decimal(n)),
{
    reveal(decimal);
    lemma_numeral(n, 10);
    numerals_are_read_back(n, 10, limit);
}

proof fn lemma_v4_endpoint(v4: SocketAddrV4, text: Seq<char>)
    requires
        text == v4.ip.spec_text() + seq![':'] + decimal(v4.port as nat),
    ensures
        socket_v4_of(text) == Some(v4),
{
    let host = v4.ip.spec_text();
    let port = decimal(v4.port as nat);
    lemma_ipv4_text(v4.ip);
    ipv4_texts_are_read_back(v4.ip);
    lemma_plain_number(v4.port as nat, 0xffff);
    let at = host.len() as int;
    assert forall|j: int| 0 <= j < at implies text[j] != ':' by {
        assert(text[j] == host[j]);
    }
    lemma_first_index(text, ':', at);
    assert(text.take(at) =~= host);
    assert(text.skip(at + 1) =~= port);
}

/// What stands between the brackets of an endpoint.
spec fn bracketed(v6: SocketAddrV6) -> Seq<char> {
    if v6.scope_id == 0 {
        v6.ip.spec_text()
    } else {
        v6.ip.spec_text() + seq!['%'] + decimal(v6.scope_id as nat)
    }
}

proof fn lemma_bracketed_text(v6: SocketAddrV6)
    ensures
        scoped_v6_of(bracketed(v6)) == Some((v6.ip, v6.scope_id)),
        forall|i: int| 0 <= i < bracketed(v6).len() ==> #[trigger] bracketed(v6)[i] != ']',
{
    let host = v6.ip.spec_text();
    let scope = decimal(v6.scope_id as nat);
    let inner = bracketed(v6);
    lemma_ipv6_text(v6.ip);
    ipv6_texts_are_read_back(v6.ip);
    lemma_plain_number(v6.scope_id as nat, 0xffff_ffff);
    if v6.scope_id == 0 {
        lemma_first_index(inner, '%', inner.len() as int);
    } else {
        assert forall|i: int| 0 <= i < inner.len() implies #[trigger] inner[i] != ']' && (i
            < host.len() ==> inner[i] != '%') by {
            if i < host.len() {
                assert(inner[i] == host[i]);
            } else if i > host.len() {
                assert(inner[i] == scope[i - host.len() - 1]);
            }
        }
        lemma_first_index(inner, '%', host.len() as int);
        assert(inner.take(host.len() as int) =~= host);
        assert(inner.skip(host.len() as int + 1) =~= scope);
    }
}

proof fn lemma_v6_endpoint(v6: SocketAddrV6, text: Seq<char>)
    requires
        v6.flowinfo == 0,
        text == seq!['['] + bracketed(v6) + seq![']', ':'] + decimal(v6.port as nat),
    ensures
        socket_v6_of(text) == Some(v6),
{
    let inner = bracketed(v6);
    let port = decimal(v6.port as nat);
    lemma_bracketed_text(v6);
    lemma_plain_number(v6.port as nat, 0xffff);
    let close = inner.len() as int + 1;
    assert forall|j: int| 0 <= j < close implies text[j] != ']' by {
        if j > 0 {
            assert(text[j] == inner[j - 1]);
        }
    }
    lemma_first_index(text, ']', close);
    assert(text.subrange(1, close) =~= inner);
    assert(text.skip(close + 2) =~= port);
}

/// The text of an endpoint is read back as the endpoint. A flow label is not written,
/// so that one with a label comes back without it.
pub proof fn endpoint_texts_are_read_back(endpoint: SocketAddr)
    requires
        endpoint matches SocketAddr::V6(v6) ==> v6.flowinfo == 0,
    ensures
        socket_of(endpoint.spec_text()) == Some(endpoint),
{
    reveal(socket_of);
    reveal(SocketAddr::spec_text);
    let text = endpoint.spec_text();
    match endpoint {
        SocketAddr::V4(v4) => {
            reveal_strlit(":");
            assert(text =~= v4.ip.spec_text() + seq![':'] + decimal(v4.port as nat));
            lemma_v4_endpoint(v4, text);
        },
        SocketAddr::V6(v6) => {
            reveal_strlit("[");
            reveal_strlit("%");
            reveal_strlit("]:");
            assert(text =~= seq!['['] + bracketed(v6) + seq![']', ':'] + decimal(v6.port as nat));
            lemma_v6_endpoint(v6, text);
            lemma_bracketed(text);
        },
    }
}

/// A text that begins with a bracket is no IPv4 endpoint.
proof fn lemma_bracketed(text: Seq<char>)
    requires
        text.len() > 0,
        text[0] == '[',
    ensures
        socket_v4_of(text) is None,
{
    let at = first_index(text, ':');
    lemma_first(text, ':');
    if at < text.len() {
        let host = text.take(at);
        assert(host[0] == '[');
        let dot = first_index(host, '.');
        lemma_first(host, '.');
        let part = split(host, '.')[0];
        assert(part == if dot < host.len() {
            host.take(dot)
        } else {
            host
        });
        assert(part.len() > 0 && part[0] == '[');
        assert(read_digits(part.take(1), 10, 255) is Err) by {
            assert(part.take(1).drop_last() =~= Seq::<char>::empty());
            reveal_with_fuel(read_digits, 2);
        }
        lemma_read_digits_prefix(part, 10, 255, 1);
        assert(octet_value(part) is None);
    }
}

} // verus!
