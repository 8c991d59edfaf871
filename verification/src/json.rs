//! JSON text of the values that the companion and the recovery journal exchange.

use crate::text::{
    byte_len, digit_char, lemma_joined_bytes, lemma_plain_bytes, lemma_printable_join, printable,
};
use vstd::prelude::*;
use vstd::string::*;

verus! {

/// A character inside a JSON string: quotes, backslashes and control characters
/// are escaped, everything else stands for itself.
pub open spec fn json_escape(c: char) -> Seq<char> {
    let code = c as int;
    if c == '"' {
        seq!['\\', '"']
    } else if c == '\\' {
        seq!['\\', '\\']
    } else if code == 8 {
        seq!['\\', 'b']
    } else if code == 9 {
        seq!['\\', 't']
    } else if code == 10 {
        seq!['\\', 'n']
    } else if code == 12 {
        seq!['\\', 'f']
    } else if code == 13 {
        seq!['\\', 'r']
    } else if code < 32 {
        seq!['\\', 'u', '0', '0', digit_char(code / 16), digit_char(code % 16)]
    } else {
        seq![c]
    }
}

/// The characters of a text inside a JSON string.
pub open spec fn json_escaped(text: Seq<char>) -> Seq<char>
    decreases text.len(),
{
    if text.len() == 0 {
        Seq::empty()
    } else {
        json_escaped(text.drop_last()) + json_escape(text.last())
    }
}

/// The JSON string of a text.
pub open spec fn json_string(text: Seq<char>) -> Seq<char> {
    seq!['"'] + json_escaped(text) + seq!['"']
}

proof fn lemma_escape_printable(c: char)
    ensures
        printable(json_escape(c)),
{
    let escape = json_escape(c);
    let code = c as int;
    assert forall|i: int| 0 <= i < escape.len() implies 32 <= (#[trigger] escape[i]) as u32 by {
        if escape.len() == 6 {
            assert(escape[i] == '\\' || escape[i] == 'u' || escape[i] == '0' || escape[i]
                == digit_char(code / 16) || escape[i] == digit_char(code % 16));
        } else if escape.len() == 1 {
            assert(escape[i] == c && code >= 32);
        }
    }
}

proof fn lemma_escaped_printable(text: Seq<char>)
    ensures
        printable(json_escaped(text)),
    decreases text.len(),
{
    if text.len() > 0 {
        lemma_escaped_printable(text.drop_last());
        lemma_escape_printable(text.last());
        lemma_printable_join(json_escaped(text.drop_last()), json_escape(text.last()));
    }
}

/// A JSON string is a single line, whatever the text holds: it has no control
/// character in it.
pub proof fn json_strings_are_single_lines(text: Seq<char>)
    ensures
        printable(json_string(text)),
{
    lemma_escaped_printable(text);
    lemma_printable_join(seq!['"'], json_escaped(text));
    lemma_printable_join(seq!['"'] + json_escaped(text), seq!['"']);
}

proof fn lemma_escape_bytes(c: char)
    ensures
        byte_len(json_escape(c)) <= 6 * byte_len(seq![c]),
{
    let escape = json_escape(c);
    assert(byte_len(seq![c]) >= 1) by {
        reveal_with_fuel(vstd::utf8::encode_utf8, 2);
        assert(seq![c].drop_first() =~= Seq::<char>::empty());
    }
    if escape != seq![c] {
        lemma_plain_bytes(escape);
    }
}

proof fn lemma_escaped_bytes(text: Seq<char>)
    ensures
        byte_len(json_escaped(text)) <= 6 * byte_len(text),
    decreases text.len(),
{
    if text.len() > 0 {
        let front = text.drop_last();
        lemma_escaped_bytes(front);
        lemma_escape_bytes(text.last());
        lemma_joined_bytes(json_escaped(front), json_escape(text.last()));
        assert(front + seq![text.last()] =~= text);
        lemma_joined_bytes(front, seq![text.last()]);
    }
}

/// A JSON string has at most six bytes for each byte of its text, and two for its
/// quotes.
pub proof fn json_strings_are_bounded(text: Seq<char>)
    ensures
        byte_len(json_string(text)) <= 6 * byte_len(text) + 2,
{
    lemma_escaped_bytes(text);
    lemma_plain_bytes(seq!['"']);
    lemma_joined_bytes(seq!['"'], json_escaped(text));
    lemma_joined_bytes(seq!['"'] + json_escaped(text), seq!['"']);
}

/// `serde_json::to_string` on a text writes the JSON string of the text: double
/// quotes around it, the two-character escapes for the quote, the backslash,
/// backspace, tab, line feed, form feed and carriage return, `\u00xx` in lower
/// case for the other characters below the space, and every other character as
/// it is. Writing a text into memory does not fail.
#[verifier::external_body]
pub(crate) fn json_text(text: &str) -> (result: String)
    ensures
        result@ == json_string(text@),
{
    serde_json::to_string(text).unwrap()
}

/// The elements of a JSON array of strings, without its brackets.
pub open spec fn json_strings(texts: Seq<String>) -> Seq<char>
    decreases texts.len(),
{
    if texts.len() == 0 {
        Seq::empty()
    } else if texts.len() == 1 {
        json_string(texts[0]@)
    } else {
        json_strings(texts.drop_last()) + ","@ + json_string(texts.last()@)
    }
}

pub(crate) proof fn lemma_strings_printable(texts: Seq<String>)
    ensures
        printable(json_strings(texts)),
    decreases texts.len(),
{
    if texts.len() == 1 {
        json_strings_are_single_lines(texts[0]@);
    } else if texts.len() > 1 {
        reveal_strlit(",");
        let front = json_strings(texts.drop_last());
        lemma_strings_printable(texts.drop_last());
        json_strings_are_single_lines(texts.last()@);
        lemma_printable_join(front, ","@);
        lemma_printable_join(front + ","@, json_string(texts.last()@));
    }
}

/// Writes the elements of a JSON array of strings.
pub fn json_list(texts: &[String]) -> (result: String)
    ensures
        result@ == json_strings(texts@),
{
    let mut result = String::new();
    let mut i: usize = 0;
    while i < texts.len()
        invariant
            i <= texts.len(),
            result@ == json_strings(texts@.take(i as int)),
        decreases texts.len() - i,
    {
        if i > 0 {
            result.append(",");
        }
        result.append(json_text(texts[i].as_str()).as_str());
        proof {
            let now = texts@.take(i + 1);
            assert(now.drop_last() =~= texts@.take(i as int));
            assert(now.last() == texts@[i as int]);
            if i == 0 {
                assert(result@ =~= json_string(texts@[0]@));
            }
        }
        i += 1;
    }
    assert(texts@.take(i as int) =~= texts@);
    result
}

/// A JSON truth value.
pub open spec fn json_bool(value: bool) -> Seq<char> {
    if value {
        "true"@
    } else {
        "false"@
    }
}

/// Writes a JSON truth value.
pub fn json_truth(value: bool) -> (result: &'static str)
    ensures
        result@ == json_bool(value),
{
    if value {
        "true"
    } else {
        "false"
    }
}

/// Lists of JSON strings are joined by one comma; a list of one is its string, and one of
/// none is empty.
pub proof fn lists_are_joined_by_commas(first: Seq<String>, second: Seq<String>, text: String)
    ensures
        json_strings(Seq::empty()) == Seq::<char>::empty(),
        json_strings(seq![text]) == json_string(text@),
        first.len() > 0 && second.len() > 0 ==> json_strings(first + second) == json_strings(first)
            + seq![','] + json_strings(second),
    decreases second.len(),
{
    reveal_strlit(",");
    assert(","@ =~= seq![',']);
    if first.len() > 0 && second.len() > 0 {
        let whole = first + second;
        let front = second.drop_last();
        assert(whole.drop_last() =~= first + front);
        assert(whole.last() == second.last());
        if second.len() == 1 {
            assert(first + front =~= first);
            assert(json_strings(second) == json_string(second.last()@));
        } else {
            lists_are_joined_by_commas(first, front, text);
            assert(json_strings(whole) =~= json_strings(first) + seq![','] + (json_strings(front)
                + ","@ + json_string(second.last()@)));
        }
    }
}

} // verus!
