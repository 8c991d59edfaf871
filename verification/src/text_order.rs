//! The order of texts, and lists of texts without repetition.

use vstd::prelude::*;
use vstd::string::*;
use crate::text::views;

verus! {

/// Whether one text comes before another: they are compared character by
/// character, and a text comes after its own beginnings.
pub open spec fn text_before(left: Seq<char>, right: Seq<char>) -> bool
    decreases right.len(),
{
    if right.len() == 0 {
        false
    } else if left.len() == 0 {
        true
    } else if left[0] != right[0] {
        left[0] < right[0]
    } else {
        text_before(left.skip(1), right.skip(1))
    }
}

/// No text comes before itself.
pub proof fn text_order_is_irreflexive(text: Seq<char>)
    ensures
        !text_before(text, text),
    decreases text.len(),
{
    if text.len() > 0 {
        text_order_is_irreflexive(text.skip(1));
    }
}

/// Of two texts that differ, one comes before the other.
pub proof fn text_order_is_total(left: Seq<char>, right: Seq<char>)
    ensures
        left == right || text_before(left, right) || text_before(right, left),
    decreases left.len(),
{
    if left.len() == 0 || right.len() == 0 {
        if left.len() == 0 && right.len() == 0 {
            assert(left =~= right);
        }
    } else if left[0] == right[0] {
        text_order_is_total(left.skip(1), right.skip(1));
        if left.skip(1) == right.skip(1) {
            assert(left =~= seq![left[0]] + left.skip(1));
            assert(right =~= seq![right[0]] + right.skip(1));
        }
    }
}

/// What comes before a text comes before all that the text comes before.
pub proof fn text_order_is_transitive(first: Seq<char>, second: Seq<char>, third: Seq<char>)
    requires
        text_before(first, second),
        text_before(second, third),
    ensures
        text_before(first, third),
    decreases third.len(),
{
    if first.len() > 0 && first[0] == second[0] && second[0] == third[0] {
        text_order_is_transitive(first.skip(1), second.skip(1), third.skip(1));
    }
}

/// Whether one text comes before another.
pub fn comes_before(left: &str, right: &str) -> (result: bool)
    ensures
        result == text_before(left@, right@),
{
    let a = crate::text::chars_of(left);
    let b = crate::text::chars_of(right);
    let mut i: usize = 0;
    assert(a@.skip(0) =~= a@);
    assert(b@.skip(0) =~= b@);
    while i < a.len() && i < b.len() && a[i] == b[i]
        invariant
            i <= a.len(),
            i <= b.len(),
            text_before(a@, b@) == text_before(a@.skip(i as int), b@.skip(i as int)),
        decreases a.len() - i,
    {
        assert(a@.skip(i as int).skip(1) =~= a@.skip(i + 1));
        assert(b@.skip(i as int).skip(1) =~= b@.skip(i + 1));
        i += 1;
    }
    if i == b.len() {
        false
    } else if i == a.len() {
        true
    } else {
        a[i] < b[i]
    }
}

/// Where a text belongs in an ascending list.
pub open spec fn text_place(ascending: Seq<Seq<char>>, text: Seq<char>) -> int
    decreases ascending.len(),
{
    if ascending.len() > 0 && text_before(ascending[0], text) {
        1 + text_place(ascending.skip(1), text)
    } else {
        0
    }
}

proof fn lemma_text_place(ascending: Seq<Seq<char>>, text: Seq<char>)
    ensures
        0 <= text_place(ascending, text) <= ascending.len(),
        forall|i: int|
            0 <= i < text_place(ascending, text) ==> text_before(#[trigger] ascending[i], text),
        text_place(ascending, text) < ascending.len() ==> !text_before(
            ascending[text_place(ascending, text)],
            text,
        ),
    decreases ascending.len(),
{
    if ascending.len() > 0 && text_before(ascending[0], text) {
        let rest = ascending.skip(1);
        lemma_text_place(rest, text);
        assert forall|i: int| 0 <= i < text_place(ascending, text) implies text_before(
            #[trigger] ascending[i],
            text,
        ) by {
            if i > 0 {
                assert(rest[i - 1] == ascending[i]);
            }
        }
    }
}

/// A list with one text put in its place, unless it is there.
pub open spec fn text_inserted(ascending: Seq<Seq<char>>, text: Seq<char>) -> Seq<Seq<char>> {
    let at = text_place(ascending, text);
    if at < ascending.len() && ascending[at] == text {
        ascending
    } else {
        ascending.insert(at, text)
    }
}

/// The texts of a list in ascending order, each once.
pub open spec fn distinct_texts(texts: Seq<Seq<char>>) -> Seq<Seq<char>>
    decreases texts.len(),
{
    if texts.len() == 0 {
        Seq::empty()
    } else {
        text_inserted(distinct_texts(texts.drop_last()), texts.last())
    }
}

/// Whether each text comes before all that follow it.
pub open spec fn strictly_ascending(texts: Seq<Seq<char>>) -> bool {
    forall|i: int, j: int|
        0 <= i < j < texts.len() ==> text_before(#[trigger] texts[i], #[trigger] texts[j])
}

proof fn lemma_text_inserted(ascending: Seq<Seq<char>>, text: Seq<char>)
    requires
        strictly_ascending(ascending),
    ensures
        strictly_ascending(text_inserted(ascending, text)),
        forall|t: Seq<char>|
            text_inserted(ascending, text).contains(t) <==> ascending.contains(t) || t == text,
{
    let at = text_place(ascending, text);
    let after = text_inserted(ascending, text);
    lemma_text_place(ascending, text);
    if at < ascending.len() && ascending[at] == text {
    } else {
        assert forall|i: int, j: int| 0 <= i < j < after.len() implies text_before(
            #[trigger] after[i],
            #[trigger] after[j],
        ) by {
            if i == at {
                text_order_is_total(ascending[at], text);
                if j - 1 > at {
                    text_order_is_transitive(text, ascending[at], ascending[j - 1]);
                }
            } else if j == at {
            } else {
                let p = if i < at {
                    i
                } else {
                    i - 1
                };
                let q = if j < at {
                    j
                } else {
                    j - 1
                };
                assert(text_before(ascending[p], ascending[q]));
            }
        }
        assert forall|t: Seq<char>| after.contains(t) <==> ascending.contains(t) || t == text by {
            if ascending.contains(t) {
                let i = choose|i: int| 0 <= i < ascending.len() && ascending[i] == t;
                assert(after[if i < at {
                    i
                } else {
                    i + 1
                }] == t);
            }
            if t == text {
                assert(after[at] == t);
            }
            if after.contains(t) {
                let i = choose|i: int| 0 <= i < after.len() && after[i] == t;
                if i < at {
                    assert(ascending[i] == t);
                } else if i > at {
                    assert(ascending[i - 1] == t);
                }
            }
        }
    }
}

/// Putting a list in order keeps exactly its texts, each once, in ascending order.
pub proof fn distinct_texts_are_ascending(texts: Seq<Seq<char>>)
    ensures
        strictly_ascending(distinct_texts(texts)),
        forall|t: Seq<char>| distinct_texts(texts).contains(t) <==> texts.contains(t),
    decreases texts.len(),
{
    if texts.len() > 0 {
        let front = texts.drop_last();
        distinct_texts_are_ascending(front);
        lemma_text_inserted(distinct_texts(front), texts.last());
        assert forall|t: Seq<char>| distinct_texts(texts).contains(t) <==> texts.contains(t) by {
            if texts.contains(t) {
                let i = choose|i: int| 0 <= i < texts.len() && texts[i] == t;
                if i < front.len() {
                    assert(front[i] == t);
                }
            }
            if front.contains(t) {
                let i = choose|i: int| 0 <= i < front.len() && front[i] == t;
                assert(texts[i] == t);
            }
            if t == texts.last() {
                assert(texts[texts.len() - 1] == t);
            }
        }
    }
}

proof fn lemma_ascending_unique(left: Seq<Seq<char>>, right: Seq<Seq<char>>)
    requires
        strictly_ascending(left),
        strictly_ascending(right),
        forall|t: Seq<char>| left.contains(t) <==> right.contains(t),
    ensures
        left == right,
    decreases left.len(),
{
    if left.len() == 0 {
        if right.len() > 0 {
            assert(right.contains(right[0]));
        }
        assert(left =~= right);
    } else {
        assert(left.contains(left.last()));
        assert(right.len() > 0);
        assert(right.contains(right.last()));
        let i = choose|i: int| 0 <= i < right.len() && right[i] == left.last();
        let j = choose|j: int| 0 <= j < left.len() && left[j] == right.last();
        if i < right.len() - 1 {
            assert(text_before(right[i], right[right.len() - 1]));
            if j < left.len() - 1 {
                assert(text_before(left[j], left[left.len() - 1]));
                text_order_is_transitive(left.last(), right.last(), left.last());
            }
            text_order_is_irreflexive(left.last());
        }
        assert(left.last() == right.last());
        let a = left.drop_last();
        let b = right.drop_last();
        assert forall|t: Seq<char>| a.contains(t) <==> b.contains(t) by {
            if a.contains(t) {
                let k = choose|k: int| 0 <= k < a.len() && a[k] == t;
                assert(left[k] == t);
                assert(left.contains(t));
                let m = choose|m: int| 0 <= m < right.len() && right[m] == t;
                assert(text_before(left[k], left[left.len() - 1]));
                text_order_is_irreflexive(t);
                assert(b[m] == t);
            }
            if b.contains(t) {
                let k = choose|k: int| 0 <= k < b.len() && b[k] == t;
                assert(right[k] == t);
                assert(right.contains(t));
                let m = choose|m: int| 0 <= m < left.len() && left[m] == t;
                assert(text_before(right[k], right[right.len() - 1]));
                text_order_is_irreflexive(t);
                assert(a[m] == t);
            }
        }
        lemma_ascending_unique(a, b);
        assert(left =~= a.push(left.last()));
        assert(right =~= b.push(right.last()));
    }
}

/// Neither the order of a list nor a repetition in it matters once it is put in
/// order.
pub proof fn reordered_lists_agree(left: Seq<Seq<char>>, right: Seq<Seq<char>>)
    requires
        forall|t: Seq<char>| left.contains(t) <==> right.contains(t),
    ensures
        distinct_texts(left) == distinct_texts(right),
{
    distinct_texts_are_ascending(left);
    distinct_texts_are_ascending(right);
    assert forall|t: Seq<char>|
        distinct_texts(left).contains(t) <==> distinct_texts(right).contains(t) by {
        assert(left.contains(t) <==> right.contains(t));
    }
    lemma_ascending_unique(distinct_texts(left), distinct_texts(right));
}

fn find_place(ascending: &Vec<String>, text: &str) -> (result: usize)
    ensures
        result == text_place(views(ascending@), text@),
        result <= ascending.len(),
{
    let ghost all = views(ascending@);
    let mut i: usize = 0;
    assert(all.skip(0) =~= all);
    while i < ascending.len() && comes_before(ascending[i].as_str(), text)
        invariant
            i <= ascending.len(),
            all == views(ascending@),
            text_place(all, text@) == i + text_place(all.skip(i as int), text@),
        decreases ascending.len() - i,
    {
        assert(all.skip(i as int).skip(1) =~= all.skip(i + 1));
        i += 1;
    }
    i
}

/// Puts a list in ascending order and drops repetitions.
pub fn sort_and_dedup(texts: &[String]) -> (result: Vec<String>)
    ensures
        views(result@) == distinct_texts(views(texts@)),
{
    let mut result: Vec<String> = Vec::new();
    let ghost all = views(texts@);
    let mut i: usize = 0;
    assert(views(result@) =~= distinct_texts(all.take(0)));
    while i < texts.len()
        invariant
            i <= texts.len(),
            all == views(texts@),
            views(result@) == distinct_texts(all.take(i as int)),
        decreases texts.len() - i,
    {
        assert(all.take(i + 1).drop_last() =~= all.take(i as int));
        let at = find_place(&result, texts[i].as_str());
        let ghost before = result@;
        if at == result.len() || !crate::text::same_text(result[at].as_str(), texts[i].as_str()) {
            result.insert(at, texts[i].clone());
            assert(views(result@) =~= views(before).insert(at as int, texts@[i as int]@));
        }
        i += 1;
    }
    assert(all.take(i as int) =~= all);
    result
}

/// Whether two texts agree up to a place where one ends before the other or has the lower
/// character.
pub open spec fn differs_lower(left: Seq<char>, right: Seq<char>, at: int) -> bool {
    &&& 0 <= at <= left.len() && at < right.len()
    &&& forall|i: int| 0 <= i < at ==> #[trigger] left[i] == right[i]
    &&& at == left.len() || left[at] < right[at]
}

/// One text comes before another exactly where, at the first place in which they differ,
/// it has ended or has the lower character.
pub proof fn texts_are_ordered_by_their_first_difference(left: Seq<char>, right: Seq<char>)
    ensures
        text_before(left, right) <==> exists|at: int| differs_lower(left, right, at),
    decreases right.len(),
{
    if right.len() > 0 && left.len() > 0 && left[0] == right[0] {
        let (l, r) = (left.skip(1), right.skip(1));
        texts_are_ordered_by_their_first_difference(l, r);
        if exists|at: int| differs_lower(l, r, at) {
            let at = choose|at: int| differs_lower(l, r, at);
            assert forall|i: int| 0 <= i < at + 1 implies #[trigger] left[i] == right[i] by {
                if i > 0 {
                    assert(l[i - 1] == r[i - 1]);
                }
            }
            assert(differs_lower(left, right, at + 1));
        }
        if exists|at: int| differs_lower(left, right, at) {
            let at = choose|at: int| differs_lower(left, right, at);
            assert(at > 0);
            assert forall|i: int| 0 <= i < at - 1 implies #[trigger] l[i] == r[i] by {
                assert(left[i + 1] == right[i + 1]);
            }
            assert(differs_lower(l, r, at - 1));
        }
    } else if right.len() > 0 {
        if left.len() == 0 || left[0] < right[0] {
            assert(differs_lower(left, right, 0));
        } else {
            assert forall|at: int| !differs_lower(left, right, at) by {
                if differs_lower(left, right, at) && at > 0 {
                    assert(left[0] == right[0]);
                }
            }
        }
    }
}

} // verus!
