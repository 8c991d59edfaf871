//! The language in which capture filters are handed to the driver, as far as they use it:
//! tests of a packet, joined by `and` and `or`, with brackets. `and` binds tighter.

use crate::dns_filter::{
    alternatives, captures, clause_matches, clauses_for, exclusions, filter_captures_exactly,
    filter_text, filters_partition_the_traffic, group, group_count, lemma_sorted_ips, on_interface,
    protocol_name, scope_of, sends, sorted_ips, source_test, wanted, Clause, FilterView, Traffic,
};
use crate::dns_packet::{host_and_port, Protocol};
use crate::net::{ip_of, IpAddr, SocketAddr};
use crate::net_text::{address_texts_are_read_back, lemma_address_text, written_digit};
use crate::text::{decimal, digit_char, numeral};
use vstd::prelude::*;
use vstd::string::*;

verus! {

/// Whether a character ends a word.
pub open spec fn breaks(c: char) -> bool {
    c == ' ' || c == '(' || c == ')'
}

/// The words and brackets of a text, without the spaces between them.
pub open spec fn tokens(text: Seq<char>) -> Seq<Seq<char>>
    decreases text.len(),
{
    if text.len() == 0 {
        Seq::empty()
    } else {
        let front = text.drop_last();
        let before = tokens(front);
        let c = text.last();
        if c == ' ' {
            before
        } else if !breaks(c) && front.len() > 0 && !breaks(front.last()) {
            before.drop_last().push(before.last().push(c))
        } else {
            before.push(seq![c])
        }
    }
}

/// How many brackets are open behind some tokens.
pub open spec fn depth(list: Seq<Seq<char>>) -> int
    decreases list.len(),
{
    if list.len() == 0 {
        0
    } else {
        depth(list.drop_last()) + if list.last() == seq!['('] {
            1int
        } else if list.last() == seq![')'] {
            -1int
        } else {
            0int
        }
    }
}

/// The last place among the first `n` where a word stands outside all brackets, or -1.
pub open spec fn last_outside(list: Seq<Seq<char>>, word: Seq<char>, n: int) -> int
    decreases n,
{
    if n <= 0 {
        -1
    } else if list[n - 1] == word && depth(list.take(n - 1)) == 0 {
        n - 1
    } else {
        last_outside(list, word, n - 1)
    }
}

/// The number that decimal digits spell.
pub open spec fn number_of(digits: Seq<char>) -> Option<nat>
    decreases digits.len(),
{
    if digits.len() == 0 {
        None
    } else if !('0' <= digits.last() <= '9') {
        None
    } else if digits.len() == 1 {
        Some((digits.last() as int - '0' as int) as nat)
    } else {
        match number_of(digits.drop_last()) {
            Some(value) => Some(value * 10 + (digits.last() as int - '0' as int) as nat),
            None => None,
        }
    }
}

/// Whether a number of a packet stands in a relation to a value.
pub open spec fn compares(number: nat, relation: Seq<char>, value: Seq<char>) -> bool {
    ||| relation == seq!['=', '='] && number_of(value) == Some(number)
    ||| relation == seq!['!', '='] && number_of(value) is Some && number_of(value) != Some(number)
}

/// Whether a packet passes a single test. A test of a header that the packet does not have
/// fails.
pub open spec fn passes(test: Seq<Seq<char>>, traffic: Traffic) -> bool {
    if test.len() == 1 {
        ||| test[0] == "outbound"@ && traffic.outbound
        ||| test[0] == "udp"@ && traffic.protocol == Protocol::Udp
        ||| test[0] == "tcp"@ && traffic.protocol == Protocol::Tcp
        ||| test[0] == "ip"@ && traffic.source is V4
        ||| test[0] == "ipv6"@ && traffic.source is V6
    } else if test.len() == 3 {
        let field = test[0];
        let relation = test[1];
        let value = test[2];
        ||| field == "ip.SrcAddr"@ && traffic.source is V4 && relation == seq!['=', '='] && ip_of(
            value,
        ) == Some(traffic.source)
        ||| field == "ipv6.SrcAddr"@ && traffic.source is V6 && relation == seq!['=', '=']
            && ip_of(value) == Some(traffic.source)
        ||| field == "udp.SrcPort"@ && traffic.protocol == Protocol::Udp && compares(
            traffic.source_port as nat,
            relation,
            value,
        )
        ||| field == "tcp.SrcPort"@ && traffic.protocol == Protocol::Tcp && compares(
            traffic.source_port as nat,
            relation,
            value,
        )
        ||| field == "udp.DstPort"@ && traffic.protocol == Protocol::Udp && compares(
            traffic.destination_port as nat,
            relation,
            value,
        )
        ||| field == "tcp.DstPort"@ && traffic.protocol == Protocol::Tcp && compares(
            traffic.destination_port as nat,
            relation,
            value,
        )
        ||| field == "ifIdx"@ && compares(traffic.interface as nat, relation, value)
    } else {
        false
    }
}

/// Whether a packet meets an expression.
pub open spec fn meets(list: Seq<Seq<char>>, traffic: Traffic) -> bool
    decreases list.len(),
{
    let either = last_outside(list, seq!['o', 'r'], list.len() as int);
    let both = last_outside(list, seq!['a', 'n', 'd'], list.len() as int);
    if 0 <= either < list.len() {
        meets(list.take(either), traffic) || meets(list.skip(either + 1), traffic)
    } else if 0 <= both < list.len() {
        meets(list.take(both), traffic) && meets(list.skip(both + 1), traffic)
    } else if list.len() >= 2 && list[0] == seq!['('] && list.last() == seq![')'] {
        meets(list.subrange(1, list.len() - 1), traffic)
    } else {
        passes(list, traffic)
    }
}

/// Whether the driver captures a packet with the text of a filter.
pub open spec fn selects(text: Seq<char>, traffic: Traffic) -> bool {
    meets(tokens(text), traffic)
}

/// Whether a text is one word.
pub open spec fn is_word(text: Seq<char>) -> bool {
    text.len() > 0 && forall|i: int| 0 <= i < text.len() ==> !breaks(#[trigger] text[i])
}

proof fn lemma_tokens_nonempty(text: Seq<char>)
    requires
        text.len() > 0,
        !breaks(text.last()),
    ensures
        tokens(text).len() > 0,
    decreases text.len(),
{
    if text.len() > 1 && !breaks(text.drop_last().last()) {
        lemma_tokens_nonempty(text.drop_last());
    }
}

proof fn lemma_tokens_join(a: Seq<char>, b: Seq<char>)
    requires
        a.len() == 0 || b.len() == 0 || breaks(a.last()) || breaks(b[0]),
    ensures
        tokens(a + b) == tokens(a) + tokens(b),
    decreases b.len(),
{
    if b.len() == 0 {
        assert(a + b =~= a);
        assert(tokens(a) + tokens(b) =~= tokens(a));
    } else if a.len() == 0 {
        assert(a + b =~= b);
        assert(tokens(a) + tokens(b) =~= tokens(b));
    } else {
        let front = b.drop_last();
        let c = b.last();
        lemma_tokens_join(a, front);
        assert((a + b).drop_last() =~= a + front);
        assert((a + b).last() == c);
        if front.len() > 0 {
            assert((a + front).last() == front.last());
            if !breaks(c) && !breaks(front.last()) {
                lemma_tokens_nonempty(front);
                assert(tokens(a + b) =~= tokens(a) + tokens(b));
            } else if c != ' ' {
                assert(tokens(a + b) =~= tokens(a) + tokens(b));
            }
        } else {
            assert(a + front =~= a);
            assert(b[0] == c);
            assert(tokens(front) =~= Seq::empty());
            if c != ' ' {
                assert(tokens(a + b) =~= tokens(a).push(seq![c]));
                assert(tokens(b) =~= seq![seq![c]]);
                assert(tokens(a + b) =~= tokens(a) + tokens(b));
            } else {
                assert(tokens(b) =~= Seq::empty());
                assert(tokens(a + b) =~= tokens(a) + tokens(b));
            }
        }
    }
}

proof fn lemma_word_token(word: Seq<char>)
    requires
        is_word(word),
    ensures
        tokens(word) == seq![word],
    decreases word.len(),
{
    let front = word.drop_last();
    if front.len() > 0 {
        assert(is_word(front)) by {
            assert forall|i: int| 0 <= i < front.len() implies !breaks(#[trigger] front[i]) by {
                assert(front[i] == word[i]);
            }
        }
        lemma_word_token(front);
        assert(!breaks(word[word.len() - 1]));
        assert(!breaks(front[front.len() - 1]));
        assert(front.push(word.last()) =~= word);
        assert(tokens(word) =~= seq![word]);
    } else {
        assert(!breaks(word[0]));
        assert(tokens(front) =~= Seq::empty());
        assert(word =~= seq![word.last()]);
        assert(tokens(word) =~= seq![word]);
    }
}

proof fn lemma_space_tokens()
    ensures
        tokens(seq![' ']) == Seq::<Seq<char>>::empty(),
        tokens(seq!['(']) == seq![seq!['(']],
        tokens(seq![')']) == seq![seq![')']],
{
    assert(seq![' '].drop_last() =~= Seq::<char>::empty());
    assert(seq!['('].drop_last() =~= Seq::<char>::empty());
    assert(seq![')'].drop_last() =~= Seq::<char>::empty());
    reveal_with_fuel(tokens, 2);
    assert(seq!['('].last() == '(' && seq![')'].last() == ')' && seq![' '].last() == ' ');
    assert(tokens(seq!['(']) =~= Seq::<Seq<char>>::empty().push(seq!['(']));
    assert(tokens(seq![')']) =~= Seq::<Seq<char>>::empty().push(seq![')']));
}

/// A word between spaces is a token of its own.
proof fn lemma_spaced(front: Seq<char>, word: Seq<char>, back: Seq<char>)
    requires
        is_word(word),
    ensures
        tokens(front + (seq![' '] + word + seq![' ']) + back) == tokens(front) + seq![word] + tokens(
            back,
        ),
{
    let left = seq![' '] + word;
    let middle = left + seq![' '];
    lemma_space_tokens();
    lemma_word_token(word);
    lemma_tokens_join(seq![' '], word);
    lemma_tokens_join(left, seq![' ']);
    lemma_tokens_join(front, middle);
    lemma_tokens_join(front + middle, back);
    assert((front + middle).last() == ' ');
    assert(middle[0] == ' ');
    assert(tokens(middle) =~= seq![word]);
}

proof fn lemma_depth_join(a: Seq<Seq<char>>, b: Seq<Seq<char>>)
    ensures
        depth(a + b) == depth(a) + depth(b),
    decreases b.len(),
{
    if b.len() == 0 {
        assert(a + b =~= a);
    } else {
        lemma_depth_join(a, b.drop_last());
        assert((a + b).drop_last() =~= a + b.drop_last());
        assert((a + b).last() == b.last());
    }
}

/// Whether no bracket is closed that was not opened, and all are closed in the end.
spec fn balanced(list: Seq<Seq<char>>) -> bool {
    &&& depth(list) == 0
    &&& forall|i: int| 0 <= i <= list.len() ==> #[trigger] depth(list.take(i)) >= 0
}

/// Whether some tokens have no brackets and join nothing.
spec fn plain(list: Seq<Seq<char>>) -> bool {
    forall|i: int|
        0 <= i < list.len() ==> #[trigger] list[i] != seq!['('] && list[i] != seq![')'] && list[i]
            != seq!['o', 'r'] && list[i] != seq!['a', 'n', 'd']
}

/// Whether some tokens have no brackets and no `or`.
spec fn flat(list: Seq<Seq<char>>) -> bool {
    forall|i: int|
        0 <= i < list.len() ==> #[trigger] list[i] != seq!['('] && list[i] != seq![')'] && list[i]
            != seq!['o', 'r']
}

proof fn lemma_flat_depth(list: Seq<Seq<char>>)
    requires
        flat(list),
    ensures
        depth(list) == 0,
        balanced(list),
    decreases list.len(),
{
    if list.len() > 0 {
        let front = list.drop_last();
        assert(flat(front)) by {
            assert forall|i: int| 0 <= i < front.len() implies #[trigger] front[i] != seq!['(']
                && front[i] != seq![')'] && front[i] != seq!['o', 'r'] by {
                assert(front[i] == list[i]);
            }
        }
        lemma_flat_depth(front);
        assert(list.last() == list[list.len() - 1]);
        assert forall|i: int| 0 <= i <= list.len() implies #[trigger] depth(list.take(i)) >= 0 by {
            if i < list.len() {
                assert(list.take(i) =~= front.take(i));
            } else {
                assert(list.take(i) =~= list);
            }
        }
    } else {
        assert forall|i: int| 0 <= i <= list.len() implies #[trigger] depth(list.take(i)) >= 0 by {
            assert(list.take(i) =~= list);
        }
    }
}

proof fn lemma_balanced_join(a: Seq<Seq<char>>, b: Seq<Seq<char>>)
    requires
        balanced(a),
        balanced(b),
    ensures
        balanced(a + b),
{
    lemma_depth_join(a, b);
    assert forall|i: int| 0 <= i <= (a + b).len() implies #[trigger] depth((a + b).take(i)) >= 0 by {
        if i <= a.len() {
            assert((a + b).take(i) =~= a.take(i));
        } else {
            assert((a + b).take(i) =~= a + b.take(i - a.len()));
            lemma_depth_join(a, b.take(i - a.len()));
        }
    }
}

/// Tokens in brackets.
spec fn bracketed(list: Seq<Seq<char>>) -> Seq<Seq<char>> {
    seq![seq!['(']] + list + seq![seq![')']]
}

proof fn lemma_single_depth()
    ensures
        depth(seq![seq!['(']]) == 1,
        depth(seq![seq![')']]) == -1,
{
    assert(seq![seq!['(']].drop_last() =~= Seq::<Seq<char>>::empty());
    assert(seq![seq![')']].drop_last() =~= Seq::<Seq<char>>::empty());
    assert(depth(Seq::<Seq<char>>::empty()) == 0);
    assert(seq!['('][0] != seq![')'][0]);
}

/// Inside brackets nothing is outside of them.
proof fn lemma_bracketed_depth(list: Seq<Seq<char>>, i: int)
    requires
        balanced(list),
        0 < i < bracketed(list).len(),
    ensures
        depth(bracketed(list).take(i)) >= 1,
{
    lemma_single_depth();
    let whole = bracketed(list);
    assert(whole.take(i) =~= seq![seq!['(']] + list.take(i - 1));
    lemma_depth_join(seq![seq!['(']], list.take(i - 1));
}

proof fn lemma_bracketed_balanced(list: Seq<Seq<char>>)
    requires
        balanced(list),
    ensures
        balanced(bracketed(list)),
{
    let whole = bracketed(list);
    lemma_single_depth();
    lemma_depth_join(seq![seq!['(']], list);
    lemma_depth_join(seq![seq!['(']] + list, seq![seq![')']]);
    assert forall|i: int| 0 <= i <= whole.len() implies #[trigger] depth(whole.take(i)) >= 0 by {
        if i == 0 {
            assert(whole.take(i) =~= Seq::empty());
        } else if i < whole.len() {
            lemma_bracketed_depth(list, i);
        } else {
            assert(whole.take(i) =~= whole);
        }
    }
}

proof fn lemma_last_outside(list: Seq<Seq<char>>, word: Seq<char>, n: int, at: int)
    requires
        0 <= n <= list.len(),
        -1 <= at < n || at == -1,
        at >= 0 ==> list[at] == word && depth(list.take(at)) == 0,
        forall|i: int|
            at < i < n ==> #[trigger] list[i] != word || depth(list.take(i)) != 0,
    ensures
        last_outside(list, word, n) == at,
    decreases n,
{
    if n > 0 && at < n - 1 {
        assert(list[n - 1] != word || depth(list.take(n - 1)) != 0);
        lemma_last_outside(list, word, n - 1, at);
    }
}

proof fn lemma_marks_differ()
    ensures
        seq!['('] != seq!['o', 'r'],
        seq!['('] != seq!['a', 'n', 'd'],
        seq![')'] != seq!['o', 'r'],
        seq![')'] != seq!['a', 'n', 'd'],
        seq!['a', 'n', 'd'] != seq!['o', 'r'],
        seq!['('] != seq![')'],
{
    assert(seq!['('].len() == 1 && seq!['o', 'r'].len() == 2 && seq!['a', 'n', 'd'].len() == 3);
    assert(seq!['('][0] != seq![')'][0]);
}

/// Brackets change nothing.
proof fn lemma_meets_bracketed(list: Seq<Seq<char>>, traffic: Traffic)
    requires
        balanced(list),
    ensures
        meets(bracketed(list), traffic) == meets(list, traffic),
{
    let whole = bracketed(list);
    lemma_marks_differ();
    assert forall|i: int| -1 < i < whole.len() implies (#[trigger] whole[i] != seq!['o', 'r']
        && whole[i] != seq!['a', 'n', 'd']) || depth(whole.take(i)) != 0 by {
        if i > 0 {
            lemma_bracketed_depth(list, i);
        }
    }
    lemma_last_outside(whole, seq!['o', 'r'], whole.len() as int, -1);
    lemma_last_outside(whole, seq!['a', 'n', 'd'], whole.len() as int, -1);
    assert(whole.subrange(1, whole.len() - 1) =~= list);
}

/// Tests joined by `and`.
spec fn conjunction(tests: Seq<Seq<Seq<char>>>) -> Seq<Seq<char>>
    decreases tests.len(),
{
    if tests.len() == 0 {
        Seq::empty()
    } else if tests.len() == 1 {
        tests[0]
    } else {
        conjunction(tests.drop_last()) + seq![seq!['a', 'n', 'd']] + tests.last()
    }
}

proof fn lemma_conjunction(tests: Seq<Seq<Seq<char>>>, traffic: Traffic)
    requires
        tests.len() > 0,
        forall|i: int| 0 <= i < tests.len() ==> plain(#[trigger] tests[i]),
    ensures
        flat(conjunction(tests)),
        meets(conjunction(tests), traffic) <==> forall|i: int|
            0 <= i < tests.len() ==> passes(#[trigger] tests[i], traffic),
    decreases tests.len(),
{
    let whole = conjunction(tests);
    lemma_marks_differ();
    let last = tests[tests.len() - 1];
    assert(plain(last));
    if tests.len() == 1 {
        assert(flat(whole));
        lemma_last_outside(whole, seq!['o', 'r'], whole.len() as int, -1);
        lemma_last_outside(whole, seq!['a', 'n', 'd'], whole.len() as int, -1);
        if whole.len() >= 2 {
            assert(whole[0] != seq!['(']);
        }
        assert(meets(whole, traffic) == passes(tests[0], traffic));
    } else {
        let rest = tests.drop_last();
        assert forall|i: int| 0 <= i < rest.len() implies plain(#[trigger] rest[i]) by {
            assert(rest[i] == tests[i]);
        }
        lemma_conjunction(rest, traffic);
        let front = conjunction(rest);
        let at = front.len() as int;
        assert forall|i: int| 0 <= i < whole.len() implies #[trigger] whole[i] != seq!['(']
            && whole[i] != seq![')'] && whole[i] != seq!['o', 'r'] && (i > at ==> whole[i]
            != seq!['a', 'n', 'd']) by {
            if i < at {
                assert(whole[i] == front[i]);
            } else if i > at {
                assert(whole[i] == last[i - at - 1]);
            }
        }
        lemma_last_outside(whole, seq!['o', 'r'], whole.len() as int, -1);
        assert(whole.take(at) =~= front);
        lemma_flat_depth(front);
        assert(whole[at] == seq!['a', 'n', 'd']);
        lemma_last_outside(whole, seq!['a', 'n', 'd'], whole.len() as int, at);
        assert(whole.skip(at + 1) =~= last);
        lemma_last_outside(last, seq!['o', 'r'], last.len() as int, -1);
        lemma_last_outside(last, seq!['a', 'n', 'd'], last.len() as int, -1);
        if last.len() >= 2 {
            assert(last[0] != seq!['(']);
        }
        assert(meets(last, traffic) == passes(last, traffic));
        if forall|i: int| 0 <= i < rest.len() ==> passes(#[trigger] rest[i], traffic) {
            assert forall|i: int| 0 <= i < tests.len() && passes(last, traffic) implies passes(
                #[trigger] tests[i],
                traffic,
            ) by {
                if i < rest.len() {
                    assert(rest[i] == tests[i]);
                }
            }
        } else {
            let i = choose|i: int| 0 <= i < rest.len() && !passes(#[trigger] rest[i], traffic);
            assert(!passes(tests[i], traffic));
        }
    }
}

/// The decimal numeral of a number is one word, and spells the number.
proof fn lemma_decimal_word(n: nat)
    ensures
        is_word(decimal(n)),
        number_of(decimal(n)) == Some(n),
        forall|i: int| 0 <= i < decimal(n).len() ==> '0' <= #[trigger] decimal(n)[i] <= '9',
    decreases n,
{
    reveal(decimal);
    if n < 10 {
        assert(decimal(n) =~= seq![digit_char(n as int)]);
        assert('0' <= digit_char(n as int) <= '9');
    } else {
        lemma_decimal_word(n / 10);
        let front = decimal(n / 10);
        let c = digit_char((n % 10) as int);
        assert(decimal(n) =~= front.push(c));
        assert('0' <= c <= '9');
        assert(decimal(n).drop_last() =~= front);
        assert forall|i: int| 0 <= i < decimal(n).len() implies '0' <= #[trigger] decimal(n)[i]
            <= '9' by {
            if i < front.len() {
                assert(decimal(n)[i] == front[i]);
            }
        }
    }
}

/// The tests of where a packet comes from.
spec fn source_tests(protocol: Protocol, ip: IpAddr, scope: Option<u32>) -> Seq<Seq<Seq<char>>> {
    let family = match ip {
        IpAddr::V4(_) => "ip"@,
        IpAddr::V6(_) => "ipv6"@,
    };
    let tests = seq![
        seq![protocol_name(protocol)],
        seq![family],
        seq![family + ".SrcAddr"@, seq!['=', '='], ip.spec_text()],
    ];
    match scope {
        Some(index) => tests.push(seq!["ifIdx"@, seq!['=', '='], decimal(index as nat)]),
        None => tests,
    }
}

/// A test of a port.
spec fn port_test(protocol: Protocol, name: Seq<char>, relation: Seq<char>, port: u16) -> Seq<
    Seq<char>,
> {
    seq![protocol_name(protocol) + name, relation, decimal(port as nat)]
}

/// The tests with one for each excluded port.
spec fn excluding(tests: Seq<Seq<Seq<char>>>, protocol: Protocol, ports: Seq<u16>) -> Seq<
    Seq<Seq<char>>,
>
    decreases ports.len(),
{
    if ports.len() == 0 {
        tests
    } else {
        excluding(tests, protocol, ports.drop_last()).push(
            port_test(protocol, ".SrcPort"@, seq!['!', '='], ports.last()),
        )
    }
}

/// The tests of a clause.
spec fn tests_of(clause: Clause) -> Seq<Seq<Seq<char>>> {
    match clause {
        Clause::Request { protocol, ip, scope, excluded } => excluding(
            source_tests(protocol, ip, scope).push(
                port_test(protocol, ".DstPort"@, seq!['=', '='], 53),
            ),
            protocol,
            excluded,
        ),
        Clause::Listener { protocol, ip, scope, port } => source_tests(protocol, ip, scope).push(
            port_test(protocol, ".SrcPort"@, seq!['=', '='], port),
        ),
    }
}

proof fn lemma_conjunction_push(tests: Seq<Seq<Seq<char>>>, test: Seq<Seq<char>>)
    requires
        tests.len() > 0,
    ensures
        conjunction(tests.push(test)) == conjunction(tests) + seq![seq!['a', 'n', 'd']] + test,
{
    assert(tests.push(test).drop_last() =~= tests);
}

proof fn lemma_and_word()
    ensures
        " and "@ == seq![' '] + seq!['a', 'n', 'd'] + seq![' '],
        " or "@ == seq![' '] + seq!['o', 'r'] + seq![' '],
        " == "@ == seq![' '] + seq!['=', '='] + seq![' '],
        " != "@ == seq![' '] + seq!['!', '='] + seq![' '],
        is_word(seq!['a', 'n', 'd']),
        is_word(seq!['o', 'r']),
        is_word(seq!['=', '=']),
        is_word(seq!['!', '=']),
{
    reveal_strlit(" and ");
    reveal_strlit(" or ");
    reveal_strlit(" == ");
    reveal_strlit(" != ");
    assert(" and "@ =~= seq![' '] + seq!['a', 'n', 'd'] + seq![' ']);
    assert(" or "@ =~= seq![' '] + seq!['o', 'r'] + seq![' ']);
    assert(" == "@ =~= seq![' '] + seq!['=', '='] + seq![' ']);
    assert(" != "@ =~= seq![' '] + seq!['!', '='] + seq![' ']);
}

/// One more test of a single word.
proof fn lemma_word_test(front: Seq<char>, tests: Seq<Seq<Seq<char>>>, word: Seq<char>)
    requires
        tests.len() > 0,
        tokens(front) == conjunction(tests),
        is_word(word),
    ensures
        tokens(front + " and "@ + word) == conjunction(tests.push(seq![word])),
{
    lemma_and_word();
    lemma_spaced(front, seq!['a', 'n', 'd'], word);
    lemma_word_token(word);
    lemma_conjunction_push(tests, seq![word]);
}

/// One more test of a field.
proof fn lemma_field_test(
    front: Seq<char>,
    tests: Seq<Seq<Seq<char>>>,
    field: Seq<char>,
    relation: Seq<char>,
    value: Seq<char>,
)
    requires
        tests.len() > 0,
        tokens(front) == conjunction(tests),
        is_word(field),
        is_word(relation),
        is_word(value),
    ensures
        tokens(front + " and "@ + (field + (seq![' '] + relation + seq![' ']) + value))
            == conjunction(tests.push(seq![field, relation, value])),
{
    let test = field + (seq![' '] + relation + seq![' ']) + value;
    lemma_and_word();
    lemma_spaced(front, seq!['a', 'n', 'd'], test);
    lemma_spaced(field, relation, value);
    lemma_word_token(field);
    lemma_word_token(value);
    assert(seq![field] + seq![relation] + seq![value] =~= seq![field, relation, value]);
    lemma_conjunction_push(tests, seq![field, relation, value]);
}

proof fn lemma_names(protocol: Protocol)
    ensures
        is_word(protocol_name(protocol)),
        is_word("ip"@),
        is_word("ipv6"@),
        is_word("ip"@ + ".SrcAddr"@),
        is_word("ipv6"@ + ".SrcAddr"@),
        is_word("ifIdx"@),
        is_word(protocol_name(protocol) + ".SrcPort"@),
        is_word(protocol_name(protocol) + ".DstPort"@),
        "ip"@ + ".SrcAddr"@ == "ip.SrcAddr"@,
        "ipv6"@ + ".SrcAddr"@ == "ipv6.SrcAddr"@,
        "udp"@ + ".SrcPort"@ == "udp.SrcPort"@,
        "tcp"@ + ".SrcPort"@ == "tcp.SrcPort"@,
        "udp"@ + ".DstPort"@ == "udp.DstPort"@,
        "tcp"@ + ".DstPort"@ == "tcp.DstPort"@,
{
    reveal_strlit("udp");
    reveal_strlit("tcp");
    reveal_strlit("ip");
    reveal_strlit("ipv6");
    reveal_strlit("ifIdx");
    reveal_strlit(".SrcAddr");
    reveal_strlit(".SrcPort");
    reveal_strlit(".DstPort");
    reveal_strlit("ip.SrcAddr");
    reveal_strlit("ipv6.SrcAddr");
    reveal_strlit("udp.SrcPort");
    reveal_strlit("tcp.SrcPort");
    reveal_strlit("udp.DstPort");
    reveal_strlit("tcp.DstPort");
    assert("ip"@ + ".SrcAddr"@ =~= "ip.SrcAddr"@);
    assert("ipv6"@ + ".SrcAddr"@ =~= "ipv6.SrcAddr"@);
    assert("udp"@ + ".SrcPort"@ =~= "udp.SrcPort"@);
    assert("tcp"@ + ".SrcPort"@ =~= "tcp.SrcPort"@);
    assert("udp"@ + ".DstPort"@ =~= "udp.DstPort"@);
    assert("tcp"@ + ".DstPort"@ =~= "tcp.DstPort"@);
}

proof fn lemma_address_word(ip: IpAddr)
    ensures
        is_word(ip.spec_text()),
{
    lemma_address_text(ip);
    assert forall|i: int| 0 <= i < ip.spec_text().len() implies !breaks(
        #[trigger] ip.spec_text()[i],
    ) by {
        assert(written_digit(ip.spec_text()[i]) || ip.spec_text()[i] == ':' || ip.spec_text()[i]
            == '.');
    }
}

proof fn lemma_source_tokens(protocol: Protocol, ip: IpAddr, scope: Option<u32>)
    ensures
        tokens(protocol_name(protocol) + " and "@ + source_test(ip, scope)) == conjunction(
            source_tests(protocol, ip, scope),
        ),
{
    let name = protocol_name(protocol);
    let family = match ip {
        IpAddr::V4(_) => "ip"@,
        IpAddr::V6(_) => "ipv6"@,
    };
    let address = ip.spec_text();
    lemma_names(protocol);
    lemma_and_word();
    lemma_address_word(ip);
    lemma_word_token(name);
    let t1 = name + " and "@ + family;
    assert(conjunction(seq![seq![name]]) == seq![name]);
    lemma_word_test(name, seq![seq![name]], family);
    let two = seq![seq![name], seq![family]];
    assert(seq![seq![name]].push(seq![family]) =~= two);
    let field = family + ".SrcAddr"@;
    lemma_field_test(t1, two, field, seq!['=', '='], address);
    let test = field + " == "@ + address;
    let t2 = t1 + " and "@ + test;
    let three = seq![seq![name], seq![family], seq![field, seq!['=', '='], address]];
    assert(two.push(seq![field, seq!['=', '='], address]) =~= three);
    assert(tokens(t2) == conjunction(three));
    reveal_strlit(".SrcAddr == ");
    reveal_strlit(".SrcAddr");
    assert(".SrcAddr == "@ =~= ".SrcAddr"@ + " == "@);
    let plain_source = family + " and "@ + family + ".SrcAddr == "@ + address;
    assert(plain_source =~= family + " and "@ + test);
    assert(t2 =~= name + " and "@ + plain_source);
    if let Some(index) = scope {
        let number = decimal(index as nat);
        lemma_decimal_word(index as nat);
        lemma_field_test(t2, three, "ifIdx"@, seq!['=', '='], number);
        reveal_strlit(" and ifIdx == ");
        reveal_strlit("ifIdx");
        assert(" and ifIdx == "@ =~= " and "@ + "ifIdx"@ + " == "@);
        let more = "ifIdx"@ + " == "@ + number;
        assert(plain_source + " and ifIdx == "@ + number =~= plain_source + " and "@ + more);
        assert(t2 + " and "@ + more =~= name + " and "@ + source_test(ip, scope));
    }
}

proof fn lemma_port_tokens(
    front: Seq<char>,
    tests: Seq<Seq<Seq<char>>>,
    protocol: Protocol,
    name: Seq<char>,
    relation: Seq<char>,
    port: u16,
)
    requires
        tests.len() > 0,
        tokens(front) == conjunction(tests),
        name == ".SrcPort"@ || name == ".DstPort"@,
        relation == seq!['=', '='] || relation == seq!['!', '='],
    ensures
        tokens(
            front + " and "@ + (protocol_name(protocol) + name + (seq![' '] + relation + seq![' '])
                + decimal(port as nat)),
        ) == conjunction(tests.push(port_test(protocol, name, relation, port))),
{
    lemma_names(protocol);
    lemma_and_word();
    lemma_decimal_word(port as nat);
    lemma_field_test(
        front,
        tests,
        protocol_name(protocol) + name,
        relation,
        decimal(port as nat),
    );
}

proof fn lemma_exclusion_tokens(
    front: Seq<char>,
    tests: Seq<Seq<Seq<char>>>,
    protocol: Protocol,
    ports: Seq<u16>,
)
    requires
        tests.len() > 0,
        tokens(front) == conjunction(tests),
    ensures
        excluding(tests, protocol, ports).len() > 0,
        tokens(front + exclusions(protocol, ports)) == conjunction(
            excluding(tests, protocol, ports),
        ),
    decreases ports.len(),
{
    if ports.len() == 0 {
        assert(front + exclusions(protocol, ports) =~= front);
    } else {
        let rest = ports.drop_last();
        lemma_exclusion_tokens(front, tests, protocol, rest);
        let before = front + exclusions(protocol, rest);
        let name = protocol_name(protocol);
        let number = decimal(ports.last() as nat);
        lemma_port_tokens(
            before,
            excluding(tests, protocol, rest),
            protocol,
            ".SrcPort"@,
            seq!['!', '='],
            ports.last(),
        );
        lemma_and_word();
        reveal_strlit(".SrcPort != ");
        reveal_strlit(".SrcPort");
        assert(".SrcPort != "@ =~= ".SrcPort"@ + " != "@);
        assert(name + ".SrcPort"@ + " != "@ + number =~= name + ".SrcPort != "@ + number);
        assert(front + exclusions(protocol, ports) =~= before + " and "@ + (name + ".SrcPort"@
            + " != "@ + number));
    }
}

proof fn lemma_bracket_tokens(text: Seq<char>)
    ensures
        tokens("("@ + text + ")"@) == bracketed(tokens(text)),
{
    reveal_strlit("(");
    reveal_strlit(")");
    assert("("@ =~= seq!['(']);
    assert(")"@ =~= seq![')']);
    lemma_space_tokens();
    lemma_tokens_join("("@, text);
    lemma_tokens_join("("@ + text, ")"@);
}

proof fn lemma_regroup(
    open: Seq<char>,
    a: Seq<char>,
    b: Seq<char>,
    c: Seq<char>,
    d: Seq<char>,
    e: Seq<char>,
    f: Seq<char>,
    g: Seq<char>,
    close: Seq<char>,
)
    ensures
        open + a + b + c + d + e + f + g + close == open + (a + b + c + d + (e + f) + g) + close,
{
    assert(open + a + b + c + d + e + f + g + close =~= open + (a + b + c + d + (e + f) + g)
        + close);
}

proof fn lemma_request_tokens(protocol: Protocol, ip: IpAddr, scope: Option<u32>, excluded: Seq<u16>)
    ensures
        ({
            let clause = Clause::Request { protocol, ip, scope, excluded };
            &&& tests_of(clause).len() > 0
            &&& tokens(clause.text()) == bracketed(conjunction(tests_of(clause)))
        }),
{
    let clause = Clause::Request { protocol, ip, scope, excluded };
    let name = protocol_name(protocol);
    let from = source_test(ip, scope);
    let start = name + " and "@ + from;
    let tests = source_tests(protocol, ip, scope);
    let number = decimal(53);
    let asked = name + ".DstPort"@ + " == "@ + number;
    lemma_source_tokens(protocol, ip, scope);
    lemma_port_tokens(start, tests, protocol, ".DstPort"@, seq!['=', '='], 53);
    lemma_and_word();
    assert(asked == name + ".DstPort == 53"@) by {
        reveal_strlit(".DstPort == 53");
        reveal_strlit(".DstPort");
        reveal_strlit(" == ");
        assert(number =~= seq!['5', '3']) by {
            reveal(decimal);
            reveal_with_fuel(numeral, 3);
        }
        assert(".DstPort == 53"@ =~= ".DstPort"@ + " == "@ + number);
        assert(asked =~= name + ".DstPort == 53"@);
    }
    let next = start + " and "@ + asked;
    let more = tests.push(port_test(protocol, ".DstPort"@, seq!['=', '='], 53));
    assert(tokens(next) == conjunction(more));
    lemma_exclusion_tokens(next, more, protocol, excluded);
    let inner = next + exclusions(protocol, excluded);
    lemma_bracket_tokens(inner);
    lemma_regroup(
        "("@,
        name,
        " and "@,
        from,
        " and "@,
        name,
        ".DstPort == 53"@,
        exclusions(protocol, excluded),
        ")"@,
    );
    assert(clause.text() == "("@ + inner + ")"@);
}

proof fn lemma_listener_tokens(protocol: Protocol, ip: IpAddr, scope: Option<u32>, port: u16)
    ensures
        ({
            let clause = Clause::Listener { protocol, ip, scope, port };
            &&& tests_of(clause).len() > 0
            &&& tokens(clause.text()) == bracketed(conjunction(tests_of(clause)))
        }),
{
    let clause = Clause::Listener { protocol, ip, scope, port };
    let name = protocol_name(protocol);
    let from = source_test(ip, scope);
    let start = name + " and "@ + from;
    let tests = source_tests(protocol, ip, scope);
    let number = decimal(port as nat);
    let sent = name + ".SrcPort"@ + " == "@ + number;
    lemma_source_tokens(protocol, ip, scope);
    lemma_port_tokens(start, tests, protocol, ".SrcPort"@, seq!['=', '='], port);
    lemma_and_word();
    assert(sent == name + ".SrcPort == "@ + number) by {
        reveal_strlit(".SrcPort == ");
        reveal_strlit(".SrcPort");
        reveal_strlit(" == ");
        assert(".SrcPort == "@ =~= ".SrcPort"@ + " == "@);
        assert(sent =~= name + ".SrcPort == "@ + number);
    }
    let inner = start + " and "@ + sent;
    lemma_bracket_tokens(inner);
    lemma_regroup(
        "("@,
        name,
        " and "@,
        from,
        " and "@,
        name + ".SrcPort == "@,
        number,
        Seq::empty(),
        ")"@,
    );
    assert(inner + Seq::empty() =~= inner);
    assert(clause.text() =~= "("@ + name + " and "@ + from + " and "@ + (name + ".SrcPort == "@)
        + number + Seq::empty() + ")"@);
    assert(clause.text() == "("@ + inner + ")"@);
}

proof fn lemma_clause_tokens(clause: Clause)
    ensures
        tests_of(clause).len() > 0,
        tokens(clause.text()) == bracketed(conjunction(tests_of(clause))),
{
    match clause {
        Clause::Request { protocol, ip, scope, excluded } => {
            lemma_request_tokens(protocol, ip, scope, excluded);
        },
        Clause::Listener { protocol, ip, scope, port } => {
            lemma_listener_tokens(protocol, ip, scope, port);
        },
    }
}

proof fn lemma_fields_differ()
    ensures
        "udp"@ != "tcp"@,
        "ip"@ != "ipv6"@,
        "outbound"@ != "udp"@,
        "outbound"@ != "tcp"@,
        "outbound"@ != "ip"@,
        "outbound"@ != "ipv6"@,
        "udp"@ != "ip"@,
        "udp"@ != "ipv6"@,
        "tcp"@ != "ip"@,
        "tcp"@ != "ipv6"@,
        "ip.SrcAddr"@.len() == 10,
        "ipv6.SrcAddr"@.len() == 12,
        "ifIdx"@.len() == 5,
        "udp.SrcPort"@.len() == 11,
        "tcp.SrcPort"@.len() == 11,
        "udp.DstPort"@.len() == 11,
        "tcp.DstPort"@.len() == 11,
        "udp.SrcPort"@ != "tcp.SrcPort"@,
        "udp.SrcPort"@ != "udp.DstPort"@,
        "udp.SrcPort"@ != "tcp.DstPort"@,
        "tcp.SrcPort"@ != "udp.DstPort"@,
        "tcp.SrcPort"@ != "tcp.DstPort"@,
        "udp.DstPort"@ != "tcp.DstPort"@,
        seq!['=', '='] != seq!['!', '='],
{
    reveal_strlit("outbound");
    reveal_strlit("udp");
    reveal_strlit("tcp");
    reveal_strlit("ip");
    reveal_strlit("ipv6");
    reveal_strlit("ifIdx");
    reveal_strlit("ip.SrcAddr");
    reveal_strlit("ipv6.SrcAddr");
    reveal_strlit("udp.SrcPort");
    reveal_strlit("tcp.SrcPort");
    reveal_strlit("udp.DstPort");
    reveal_strlit("tcp.DstPort");
    assert("udp"@[0] == 'u' && "tcp"@[0] == 't');
    assert("udp"@.len() == 3 && "tcp"@.len() == 3 && "ip"@.len() == 2 && "ipv6"@.len() == 4
        && "outbound"@.len() == 8);
    assert("udp.SrcPort"@[0] == 'u' && "tcp.SrcPort"@[0] == 't');
    assert("udp.DstPort"@[0] == 'u' && "tcp.DstPort"@[0] == 't');
    assert("udp.SrcPort"@[4] == 'S' && "tcp.SrcPort"@[4] == 'S');
    assert("udp.DstPort"@[4] == 'D' && "tcp.DstPort"@[4] == 'D');
    assert(seq!['=', '='][0] != seq!['!', '='][0]);
}

/// A word other than a joining one is a plain test.
proof fn lemma_not_joining(word: Seq<char>)
    requires
        is_word(word),
        word.len() != 2 || word[0] != 'o',
        word.len() != 3 || word[1] != 'n',
    ensures
        word != seq!['('],
        word != seq![')'],
        word != seq!['o', 'r'],
        word != seq!['a', 'n', 'd'],
{
    assert(!breaks(word[0]));
    assert(seq!['('][0] == '(' && seq![')'][0] == ')' && seq!['o', 'r'][0] == 'o' && seq![
        'a',
        'n',
        'd',
    ][1] == 'n');
    assert(seq!['o', 'r'].len() == 2 && seq!['a', 'n', 'd'].len() == 3);
}

proof fn lemma_protocol_test(protocol: Protocol, traffic: Traffic)
    ensures
        plain(seq![protocol_name(protocol)]),
        passes(seq![protocol_name(protocol)], traffic) <==> traffic.protocol == protocol,
{
    lemma_fields_differ();
    lemma_names(protocol);
    reveal_strlit("udp");
    reveal_strlit("tcp");
    lemma_not_joining(protocol_name(protocol));
}

proof fn lemma_family_test(ip: IpAddr, traffic: Traffic)
    ensures
        ({
            let family = match ip {
                IpAddr::V4(_) => "ip"@,
                IpAddr::V6(_) => "ipv6"@,
            };
            &&& plain(seq![family])
            &&& passes(seq![family], traffic) <==> (traffic.source is V4) == (ip is V4)
        }),
{
    lemma_fields_differ();
    lemma_names(Protocol::Udp);
    reveal_strlit("ip");
    reveal_strlit("ipv6");
    match ip {
        IpAddr::V4(_) => {
            lemma_not_joining("ip"@);
        },
        IpAddr::V6(_) => {
            lemma_not_joining("ipv6"@);
        },
    }
}

proof fn lemma_address_test(ip: IpAddr, traffic: Traffic)
    ensures
        ({
            let family = match ip {
                IpAddr::V4(_) => "ip"@,
                IpAddr::V6(_) => "ipv6"@,
            };
            let test = seq![family + ".SrcAddr"@, seq!['=', '='], ip.spec_text()];
            &&& plain(test)
            &&& passes(test, traffic) <==> traffic.source == ip
        }),
{
    let family = match ip {
        IpAddr::V4(_) => "ip"@,
        IpAddr::V6(_) => "ipv6"@,
    };
    let text = ip.spec_text();
    let test = seq![family + ".SrcAddr"@, seq!['=', '='], text];
    lemma_fields_differ();
    lemma_names(Protocol::Udp);
    lemma_and_word();
    lemma_address_word(ip);
    lemma_address_text(ip);
    address_texts_are_read_back(ip);
    assert(written_digit(text[0]) || text[0] == ':' || text[0] == '.');
    if text.len() == 3 {
        assert(written_digit(text[1]) || text[1] == ':' || text[1] == '.');
    }
    lemma_not_joining(text);
    lemma_not_joining(family + ".SrcAddr"@);
    lemma_not_joining(seq!['=', '=']);
    assert(test[0] == family + ".SrcAddr"@ && test[1] == seq!['=', '='] && test[2] == text);
}

proof fn lemma_number_word(n: nat)
    ensures
        is_word(decimal(n)),
        decimal(n) != seq!['('],
        decimal(n) != seq![')'],
        decimal(n) != seq!['o', 'r'],
        decimal(n) != seq!['a', 'n', 'd'],
{
    lemma_decimal_word(n);
    assert('0' <= decimal(n)[0] <= '9');
    if decimal(n).len() == 3 {
        assert('0' <= decimal(n)[1] <= '9');
    }
    lemma_not_joining(decimal(n));
}

proof fn lemma_interface_test(index: u32, traffic: Traffic)
    ensures
        ({
            let test = seq!["ifIdx"@, seq!['=', '='], decimal(index as nat)];
            &&& plain(test)
            &&& passes(test, traffic) <==> traffic.interface == index
        }),
{
    let test = seq!["ifIdx"@, seq!['=', '='], decimal(index as nat)];
    lemma_fields_differ();
    lemma_names(Protocol::Udp);
    lemma_and_word();
    lemma_decimal_word(index as nat);
    lemma_number_word(index as nat);
    lemma_not_joining("ifIdx"@);
    lemma_not_joining(seq!['=', '=']);
    assert(test[0] == "ifIdx"@ && test[1] == seq!['=', '='] && test[2] == decimal(index as nat));
}

proof fn lemma_port_test(
    protocol: Protocol,
    name: Seq<char>,
    relation: Seq<char>,
    port: u16,
    traffic: Traffic,
)
    requires
        name == ".SrcPort"@ || name == ".DstPort"@,
        relation == seq!['=', '='] || relation == seq!['!', '='],
    ensures
        plain(port_test(protocol, name, relation, port)),
        passes(port_test(protocol, name, relation, port), traffic) <==> traffic.protocol == protocol
            && {
            let own = if name == ".SrcPort"@ {
                traffic.source_port
            } else {
                traffic.destination_port
            };
            (own == port) == (relation == seq!['=', '='])
        },
{
    let test = port_test(protocol, name, relation, port);
    lemma_fields_differ();
    lemma_names(protocol);
    lemma_and_word();
    lemma_decimal_word(port as nat);
    lemma_number_word(port as nat);
    reveal_strlit(".SrcPort");
    reveal_strlit(".DstPort");
    assert(".SrcPort"@[1] == 'S' && ".DstPort"@[1] == 'D');
    let field = protocol_name(protocol) + name;
    match protocol {
        Protocol::Udp => {
            assert(field == "udp.SrcPort"@ || field == "udp.DstPort"@);
        },
        Protocol::Tcp => {
            assert(field == "tcp.SrcPort"@ || field == "tcp.DstPort"@);
        },
    }
    lemma_not_joining(field);
    lemma_not_joining(seq!['=', '=']);
    lemma_not_joining(seq!['!', '=']);
    assert(test[0] == field && test[1] == relation && test[2] == decimal(port as nat));
}

/// Whether a packet passes all of some tests.
spec fn passes_all(tests: Seq<Seq<Seq<char>>>, traffic: Traffic) -> bool {
    forall|i: int| 0 <= i < tests.len() ==> passes(#[trigger] tests[i], traffic)
}

/// Whether all of some tests are plain.
spec fn all_plain(tests: Seq<Seq<Seq<char>>>) -> bool {
    forall|i: int| 0 <= i < tests.len() ==> plain(#[trigger] tests[i])
}

proof fn lemma_passes_push(tests: Seq<Seq<Seq<char>>>, test: Seq<Seq<char>>, traffic: Traffic)
    ensures
        passes_all(tests.push(test), traffic) <==> passes_all(tests, traffic) && passes(
            test,
            traffic,
        ),
        all_plain(tests.push(test)) <==> all_plain(tests) && plain(test),
{
    let more = tests.push(test);
    assert(more[tests.len() as int] == test);
    if passes_all(more, traffic) {
        assert forall|i: int| 0 <= i < tests.len() implies passes(#[trigger] tests[i], traffic) by {
            assert(more[i] == tests[i]);
        }
    }
    if all_plain(more) {
        assert forall|i: int| 0 <= i < tests.len() implies plain(#[trigger] tests[i]) by {
            assert(more[i] == tests[i]);
        }
    }
}

proof fn lemma_source_passes(protocol: Protocol, ip: IpAddr, scope: Option<u32>, traffic: Traffic)
    ensures
        all_plain(source_tests(protocol, ip, scope)),
        passes_all(source_tests(protocol, ip, scope), traffic) <==> {
            &&& traffic.protocol == protocol
            &&& traffic.source == ip
            &&& scope matches Some(index) ==> traffic.interface == index
        },
{
    let family = match ip {
        IpAddr::V4(_) => "ip"@,
        IpAddr::V6(_) => "ipv6"@,
    };
    let a = seq![protocol_name(protocol)];
    let b = seq![family];
    let c = seq![family + ".SrcAddr"@, seq!['=', '='], ip.spec_text()];
    let none = Seq::<Seq<Seq<char>>>::empty();
    lemma_protocol_test(protocol, traffic);
    lemma_family_test(ip, traffic);
    lemma_address_test(ip, traffic);
    lemma_passes_push(none, a, traffic);
    lemma_passes_push(none.push(a), b, traffic);
    lemma_passes_push(none.push(a).push(b), c, traffic);
    assert(none.push(a).push(b).push(c) =~= seq![a, b, c]);
    if let Some(index) = scope {
        lemma_interface_test(index, traffic);
        lemma_passes_push(
            seq![a, b, c],
            seq!["ifIdx"@, seq!['=', '='], decimal(index as nat)],
            traffic,
        );
    }
}

proof fn lemma_excluding_passes(
    tests: Seq<Seq<Seq<char>>>,
    protocol: Protocol,
    ports: Seq<u16>,
    traffic: Traffic,
)
    requires
        all_plain(tests),
        passes_all(tests, traffic) ==> traffic.protocol == protocol,
    ensures
        all_plain(excluding(tests, protocol, ports)),
        passes_all(excluding(tests, protocol, ports), traffic) <==> passes_all(tests, traffic)
            && !ports.contains(traffic.source_port),
    decreases ports.len(),
{
    if ports.len() > 0 {
        let rest = ports.drop_last();
        lemma_excluding_passes(tests, protocol, rest, traffic);
        lemma_fields_differ();
        lemma_port_test(protocol, ".SrcPort"@, seq!['!', '='], ports.last(), traffic);
        lemma_passes_push(
            excluding(tests, protocol, rest),
            port_test(protocol, ".SrcPort"@, seq!['!', '='], ports.last()),
            traffic,
        );
        if ports.contains(traffic.source_port) && ports.last() != traffic.source_port {
            let i = ports.index_of(traffic.source_port);
            assert(rest[i] == traffic.source_port);
        }
        if rest.contains(traffic.source_port) {
            let i = rest.index_of(traffic.source_port);
            assert(ports[i] == traffic.source_port);
        }
        if ports.last() == traffic.source_port {
            assert(ports[ports.len() - 1] == traffic.source_port);
        }
    }
}

proof fn lemma_clause_passes(clause: Clause, traffic: Traffic)
    ensures
        all_plain(tests_of(clause)),
        passes_all(tests_of(clause), traffic) <==> clause_matches(clause, traffic),
{
    lemma_fields_differ();
    reveal_strlit(".SrcPort");
    reveal_strlit(".DstPort");
    assert(".SrcPort"@[1] == 'S' && ".DstPort"@[1] == 'D');
    match clause {
        Clause::Request { protocol, ip, scope, excluded } => {
            let tests = source_tests(protocol, ip, scope);
            let asked = port_test(protocol, ".DstPort"@, seq!['=', '='], 53);
            lemma_source_passes(protocol, ip, scope, traffic);
            lemma_port_test(protocol, ".DstPort"@, seq!['=', '='], 53, traffic);
            lemma_passes_push(tests, asked, traffic);
            lemma_excluding_passes(tests.push(asked), protocol, excluded, traffic);
        },
        Clause::Listener { protocol, ip, scope, port } => {
            let tests = source_tests(protocol, ip, scope);
            let sent = port_test(protocol, ".SrcPort"@, seq!['=', '='], port);
            lemma_source_passes(protocol, ip, scope, traffic);
            lemma_port_test(protocol, ".SrcPort"@, seq!['=', '='], port, traffic);
            lemma_passes_push(tests, sent, traffic);
        },
    }
}

/// The text of a clause is met by exactly the traffic that the clause matches.
proof fn lemma_clause_meaning(clause: Clause, traffic: Traffic)
    ensures
        meets(tokens(clause.text()), traffic) <==> clause_matches(clause, traffic),
        balanced(tokens(clause.text())),
        tokens(clause.text()) == bracketed(conjunction(tests_of(clause))),
        balanced(conjunction(tests_of(clause))),
{
    let tests = tests_of(clause);
    lemma_clause_tokens(clause);
    lemma_clause_passes(clause, traffic);
    lemma_conjunction(tests, traffic);
    lemma_flat_depth(conjunction(tests));
    lemma_bracketed_balanced(conjunction(tests));
    lemma_meets_bracketed(conjunction(tests), traffic);
}

/// Alternatives are met by exactly the traffic that one of the clauses matches.
proof fn lemma_alternatives_meaning(clauses: Seq<Clause>, traffic: Traffic)
    requires
        clauses.len() > 0,
    ensures
        balanced(tokens(alternatives(clauses))),
        meets(tokens(alternatives(clauses)), traffic) <==> exists|i: int|
            0 <= i < clauses.len() && clause_matches(#[trigger] clauses[i], traffic),
    decreases clauses.len(),
{
    let last = clauses.last();
    lemma_clause_meaning(last, traffic);
    if clauses.len() == 1 {
        assert(clauses[0] == last);
    } else {
        let rest = clauses.drop_last();
        lemma_alternatives_meaning(rest, traffic);
        lemma_and_word();
        lemma_marks_differ();
        lemma_spaced(alternatives(rest), seq!['o', 'r'], last.text());
        let front = tokens(alternatives(rest));
        let back = tokens(last.text());
        let joint = seq![seq!['o', 'r']];
        let whole = front + joint + back;
        assert(tokens(alternatives(clauses)) == whole);
        let inner = conjunction(tests_of(last));
        let at = front.len() as int;
        assert(depth(joint) == 0 && balanced(joint)) by {
            assert(joint.drop_last() =~= Seq::<Seq<char>>::empty());
            assert(depth(Seq::<Seq<char>>::empty()) == 0);
            assert forall|i: int| 0 <= i <= joint.len() implies #[trigger] depth(joint.take(i))
                >= 0 by {
                if i == 0 {
                    assert(joint.take(i) =~= Seq::<Seq<char>>::empty());
                } else {
                    assert(joint.take(i) =~= joint);
                }
            }
        }
        lemma_balanced_join(front, joint);
        lemma_balanced_join(front + joint, back);
        assert(whole.take(at) =~= front);
        assert(whole[at] == seq!['o', 'r']);
        assert forall|i: int| at < i < whole.len() implies #[trigger] whole[i] != seq!['o', 'r']
            || depth(whole.take(i)) != 0 by {
            let k = i - at - 1;
            assert(whole[i] == back[k]);
            if k == 0 {
                assert(back[0] == seq!['(']);
            } else {
                lemma_bracketed_depth(inner, k);
                assert(whole.take(i) =~= front + joint + back.take(k));
                lemma_depth_join(front + joint, back.take(k));
                lemma_depth_join(front, joint);
            }
        }
        lemma_last_outside(whole, seq!['o', 'r'], whole.len() as int, at);
        assert(whole.skip(at + 1) =~= back);
        if exists|i: int| 0 <= i < rest.len() && clause_matches(#[trigger] rest[i], traffic) {
            let i = choose|i: int| 0 <= i < rest.len() && clause_matches(#[trigger] rest[i], traffic);
            assert(clauses[i] == rest[i]);
        }
        if exists|i: int| 0 <= i < clauses.len() && clause_matches(#[trigger] clauses[i], traffic) {
            let i = choose|i: int|
                0 <= i < clauses.len() && clause_matches(#[trigger] clauses[i], traffic);
            if i < rest.len() {
                assert(rest[i] == clauses[i]);
            }
        }
        if clause_matches(last, traffic) {
            assert(clauses[clauses.len() - 1] == last);
        }
    }
}

/// The text that is handed to the driver selects exactly the traffic that the clauses of
/// the filter match.
pub proof fn filter_texts_mean_their_clauses(
    config: FilterView,
    ips: Seq<IpAddr>,
    traffic: Traffic,
)
    requires
        ips.len() > 0,
    ensures
        selects(filter_text(config, ips), traffic) <==> traffic.outbound && exists|i: int|
            0 <= i < clauses_for(config, ips).len() && clause_matches(
                #[trigger] clauses_for(config, ips)[i],
                traffic,
            ),
{
    let clauses = clauses_for(config, ips);
    let body = alternatives(clauses);
    let inner = tokens(body);
    lemma_alternatives_meaning(clauses, traffic);
    lemma_bracket_tokens(body);
    lemma_and_word();
    lemma_marks_differ();
    lemma_fields_differ();
    reveal_strlit("outbound");
    reveal_strlit("(");
    reveal_strlit("outbound and (");
    assert(is_word("outbound"@));
    lemma_word_token("outbound"@);
    lemma_spaced("outbound"@, seq!['a', 'n', 'd'], "("@ + body + ")"@);
    assert("outbound and ("@ =~= "outbound"@ + " and "@ + "("@);
    assert(filter_text(config, ips) =~= "outbound"@ + " and "@ + ("("@ + body + ")"@));
    let back = bracketed(inner);
    let front = seq!["outbound"@];
    let whole = front + seq![seq!['a', 'n', 'd']] + back;
    assert(tokens(filter_text(config, ips)) == whole);
    lemma_not_joining("outbound"@);
    assert(depth(front) == 0) by {
        assert(front.drop_last() =~= Seq::<Seq<char>>::empty());
        assert(depth(Seq::<Seq<char>>::empty()) == 0);
        assert(front.last() == "outbound"@);
    }
    let two = front + seq![seq!['a', 'n', 'd']];
    assert(depth(two) == 0) by {
        assert(two.drop_last() =~= front);
    }
    assert forall|i: int| 1 < i < whole.len() implies (#[trigger] whole[i] != seq!['o', 'r']
        && whole[i] != seq!['a', 'n', 'd']) || depth(whole.take(i)) != 0 by {
        let k = i - 2;
        assert(whole[i] == back[k]);
        if k == 0 {
            assert(back[0] == seq!['(']);
        } else {
            lemma_bracketed_depth(inner, k);
            assert(whole.take(i) =~= two + back.take(k));
            lemma_depth_join(two, back.take(k));
        }
    }
    assert(whole[0] == "outbound"@ && whole[1] == seq!['a', 'n', 'd']);
    lemma_last_outside(whole, seq!['o', 'r'], whole.len() as int, -1);
    assert(whole.take(1) =~= front);
    lemma_last_outside(whole, seq!['a', 'n', 'd'], whole.len() as int, 1);
    assert(whole.skip(2) =~= back);
    lemma_meets_bracketed(inner, traffic);
    lemma_last_outside(front, seq!['o', 'r'], 1, -1);
    lemma_last_outside(front, seq!['a', 'n', 'd'], 1, -1);
    assert(meets(front, traffic) == passes(front, traffic));
}

/// Whether an endpoint is where traffic comes from.
pub open spec fn comes_from(endpoint: SocketAddr, traffic: Traffic) -> bool {
    host_and_port(endpoint) == (traffic.source, traffic.source_port)
}

/// Whether traffic leaves where an endpoint says, if the endpoint is at its source and
/// names an interface.
pub open spec fn leaves_where(endpoint: SocketAddr, traffic: Traffic) -> bool {
    host_and_port(endpoint).0 == traffic.source ==> (endpoint matches SocketAddr::V6(v6)
        ==> v6.scope_id == 0 || traffic.interface == v6.scope_id)
}

/// What belongs to a transport, of what belongs to UDP and what belongs to TCP.
pub open spec fn of_transport(
    udp: Seq<SocketAddr>,
    tcp: Seq<SocketAddr>,
    protocol: Protocol,
) -> Seq<SocketAddr> {
    if protocol == Protocol::Udp {
        udp
    } else {
        tcp
    }
}

/// Whether a session is to see traffic: it goes out from one of the local addresses, on
/// the interface that every endpoint there names, and is either addressed to port 53 and
/// not sent by one of the session's own sockets of its transport, or sent by the proxy's
/// listener of its transport.
pub open spec fn concerns(config: FilterView, traffic: Traffic) -> bool {
    let own = of_transport(config.udp_upstreams, config.tcp_upstreams, traffic.protocol);
    let proxy = of_transport(config.udp_listeners, config.tcp_listeners, traffic.protocol);
    let endpoints = config.udp_listeners + config.tcp_listeners + config.udp_upstreams
        + config.tcp_upstreams;
    &&& traffic.outbound
    &&& config.local_ips.contains(traffic.source)
    &&& forall|j: int|
        0 <= j < endpoints.len() ==> leaves_where(#[trigger] endpoints[j], traffic)
    &&& {
        ||| traffic.destination_port == 53 && !exists|j: int|
            0 <= j < own.len() && comes_from(#[trigger] own[j], traffic)
        ||| exists|j: int| 0 <= j < proxy.len() && comes_from(#[trigger] proxy[j], traffic)
    }
}

proof fn lemma_concerns(config: FilterView, traffic: Traffic)
    ensures
        concerns(config, traffic) <==> wanted(config, traffic),
{
    let own = config.upstreams(traffic.protocol);
    let proxy = config.listeners(traffic.protocol);
    let endpoints = config.endpoints();
    assert(own == of_transport(config.udp_upstreams, config.tcp_upstreams, traffic.protocol));
    assert(proxy == of_transport(config.udp_listeners, config.tcp_listeners, traffic.protocol));
    assert(sends(own, traffic) <==> exists|j: int|
        0 <= j < own.len() && comes_from(#[trigger] own[j], traffic)) by {
        if sends(own, traffic) {
            let j = choose|j: int|
                0 <= j < own.len() && (#[trigger] own[j]).spec_ip() == traffic.source
                    && own[j].spec_port() == traffic.source_port;
            assert(comes_from(own[j], traffic));
        }
        if exists|j: int| 0 <= j < own.len() && comes_from(#[trigger] own[j], traffic) {
            let j = choose|j: int| 0 <= j < own.len() && comes_from(#[trigger] own[j], traffic);
            assert(own[j].spec_ip() == traffic.source);
        }
    }
    assert(sends(proxy, traffic) <==> exists|j: int|
        0 <= j < proxy.len() && comes_from(#[trigger] proxy[j], traffic)) by {
        if sends(proxy, traffic) {
            let j = choose|j: int|
                0 <= j < proxy.len() && (#[trigger] proxy[j]).spec_ip() == traffic.source
                    && proxy[j].spec_port() == traffic.source_port;
            assert(comes_from(proxy[j], traffic));
        }
        if exists|j: int| 0 <= j < proxy.len() && comes_from(#[trigger] proxy[j], traffic) {
            let j = choose|j: int| 0 <= j < proxy.len() && comes_from(#[trigger] proxy[j], traffic);
            assert(proxy[j].spec_ip() == traffic.source);
        }
    }
    assert(on_interface(config, traffic) <==> forall|j: int|
        0 <= j < endpoints.len() ==> leaves_where(#[trigger] endpoints[j], traffic)) by {
        if on_interface(config, traffic) {
            assert forall|j: int| 0 <= j < endpoints.len() implies leaves_where(
                #[trigger] endpoints[j],
                traffic,
            ) by {
                assert(config.endpoints()[j] == endpoints[j]);
            }
        }
        if forall|j: int|
            0 <= j < endpoints.len() ==> leaves_where(#[trigger] endpoints[j], traffic) {
            assert forall|j: int|
                #![trigger config.endpoints()[j]]
                0 <= j < config.endpoints().len() && config.endpoints()[j].spec_ip()
                    == traffic.source implies (scope_of(config.endpoints()[j]) matches Some(index)
                ==> traffic.interface == index) by {
                assert(leaves_where(endpoints[j], traffic));
            }
        }
    }
}

/// The text of a filter, as the driver reads it, selects exactly the traffic from its
/// addresses that the session is to see.
pub proof fn filter_texts_select_exactly(config: FilterView, ips: Seq<IpAddr>, traffic: Traffic)
    requires
        config.fault() is None,
        ips.len() > 0,
        forall|i: int| 0 <= i < ips.len() ==> config.local_ips.contains(#[trigger] ips[i]),
    ensures
        selects(filter_text(config, ips), traffic) <==> ips.contains(traffic.source) && concerns(
            config,
            traffic,
        ),
{
    filter_texts_mean_their_clauses(config, ips, traffic);
    filter_captures_exactly(config, ips, traffic);
    lemma_concerns(config, traffic);
}

/// The texts of the filters of a session, as the driver reads them, select what the
/// session is to see, each packet by exactly one of them, and nothing else. Each has the
/// clauses of four addresses, the last of the rest.
pub proof fn session_filters_select_exactly_once(config: FilterView, traffic: Traffic)
    requires
        config.fault() is None,
    ensures
        ({
            let sorted = sorted_ips(config.local_ips);
            let count = group_count(sorted);
            &&& 4 * (count - 1) < config.local_ips.len() <= 4 * count
            &&& sorted.len() == config.local_ips.len()
            &&& concerns(config, traffic) <==> exists|k: int|
                0 <= k < count && selects(
                    filter_text(config, #[trigger] group(sorted, k)),
                    traffic,
                )
            &&& forall|j: int, k: int|
                0 <= j < count && 0 <= k < count && selects(
                    filter_text(config, #[trigger] group(sorted, j)),
                    traffic,
                ) && selects(filter_text(config, #[trigger] group(sorted, k)), traffic) ==> j == k
            &&& forall|k: int| 0 <= k < count - 1 ==> (#[trigger] group(sorted, k)).len() == 4
            &&& group(sorted, count - 1).len() == config.local_ips.len() - 4 * (count - 1)
        }),
{
    let sorted = sorted_ips(config.local_ips);
    let count = group_count(sorted);
    lemma_sorted_ips(config.local_ips);
    lemma_concerns(config, traffic);
    assert forall|k: int| 0 <= k < count implies selects(
        filter_text(config, #[trigger] group(sorted, k)),
        traffic,
    ) == captures(config, group(sorted, k), traffic) by {
        assert forall|i: int| 0 <= i < group(sorted, k).len() implies config.local_ips.contains(
            #[trigger] group(sorted, k)[i],
        ) by {
            assert(group(sorted, k)[i] == sorted[4 * k + i]);
            assert(sorted.contains(sorted[4 * k + i]));
        }
        filter_texts_mean_their_clauses(config, group(sorted, k), traffic);
    }
    filters_partition_the_traffic(config, traffic, 0, 0);
    assert forall|j: int, k: int|
        0 <= j < count && 0 <= k < count && selects(
            filter_text(config, #[trigger] group(sorted, j)),
            traffic,
        ) && selects(filter_text(config, #[trigger] group(sorted, k)), traffic) implies j == k by {
        filters_partition_the_traffic(config, traffic, j, k);
    }
}

} // verus!
