//! The identifiers of network interfaces.

use crate::text::{
    amount, blank, digit_value, numbers_are_sums_of_their_digits, of_digits, padding_is_trimmed,
    parse_number, part, read_digits, read_number, string_of, trim, trimmed, unsigned_part,
    white_space, worth, NumberError,
};
use vstd::prelude::*;
use vstd::string::*;

verus! {

/// The parts of an interface identifier.
#[derive(Clone, Copy, Debug, PartialEq, Eq, Structural)]
pub struct GuidParts {
    pub data1: u32,
    pub data2: u16,
    pub data3: u16,
    pub node0: u8,
    pub node1: u8,
    pub node2: u8,
    pub node3: u8,
    pub node4: u8,
    pub node5: u8,
    pub node6: u8,
    pub node7: u8,
}

/// A text without a pair of braces around it.
pub open spec fn unbraced(text: Seq<char>) -> Seq<char> {
    if text.len() >= 2 && text[0] == '{' && text.last() == '}' {
        text.subrange(1, text.len() - 1)
    } else {
        text
    }
}

/// Bytes as characters of the same codes.
pub open spec fn byte_chars(bytes: Seq<u8>) -> Seq<char> {
    Seq::new(bytes.len(), |i: int| bytes[i] as char)
}

/// Whether some bytes have the shape of an identifier: four dashes in their places.
pub open spec fn guid_shaped(bytes: Seq<u8>) -> bool {
    bytes.len() == 36 && bytes[8] == 45 && bytes[13] == 45 && bytes[18] == 45 && bytes[23] == 45
}

/// The number in a field of the identifier.
pub open spec fn guid_field(chars: Seq<char>, from: int, to: int, limit: nat) -> Option<nat> {
    match read_number(chars.subrange(from, to), 16, limit) {
        Ok(n) => Some(n),
        Err(_) => None,
    }
}

/// The text of an identifier as bytes, without white space and braces around it.
pub open spec fn guid_bytes(text: Seq<char>) -> Seq<u8> {
    vstd::utf8::encode_utf8(unbraced(trim(text)))
}

/// What a text says of an interface.
#[verifier::opaque]
pub open spec fn guid_of(text: Seq<char>) -> Result<GuidParts, Seq<char>> {
    let bytes = guid_bytes(text);
    if !guid_shaped(bytes) {
        Err("interface GUID has an invalid shape"@)
    } else {
        let chars = byte_chars(bytes);
        let bad = Err("interface GUID has invalid hexadecimal digits"@);
        match (
            guid_field(chars, 0, 8, 0xFFFF_FFFF),
            guid_field(chars, 9, 13, 0xFFFF),
            guid_field(chars, 14, 18, 0xFFFF),
        ) {
            (Some(data1), Some(data2), Some(data3)) => match (
                guid_field(chars, 19, 21, 0xFF),
                guid_field(chars, 21, 23, 0xFF),
                guid_field(chars, 24, 26, 0xFF),
                guid_field(chars, 26, 28, 0xFF),
            ) {
                (Some(node0), Some(node1), Some(node2), Some(node3)) => match (
                    guid_field(chars, 28, 30, 0xFF),
                    guid_field(chars, 30, 32, 0xFF),
                    guid_field(chars, 32, 34, 0xFF),
                    guid_field(chars, 34, 36, 0xFF),
                ) {
                    (Some(node4), Some(node5), Some(node6), Some(node7)) => Ok(
                        GuidParts {
                            data1: data1 as u32,
                            data2: data2 as u16,
                            data3: data3 as u16,
                            node0: node0 as u8,
                            node1: node1 as u8,
                            node2: node2 as u8,
                            node3: node3 as u8,
                            node4: node4 as u8,
                            node5: node5 as u8,
                            node6: node6 as u8,
                            node7: node7 as u8,
                        },
                    ),
                    _ => bad,
                },
                _ => bad,
            },
            _ => bad,
        }
    }
}

fn field(chars: &Vec<char>, from: usize, to: usize, limit: u64) -> (result: Option<u64>)
    requires
        from <= to <= chars@.len(),
        limit <= 0xFFFF_FFFF,
    ensures
        result is Some <==> guid_field(chars@, from as int, to as int, limit as nat) is Some,
        result matches Some(n) ==> guid_field(chars@, from as int, to as int, limit as nat) == Some(
            n as nat,
        ) && n <= limit,
{
    let digits = part(chars.as_slice(), from, to);
    match parse_number(digits.as_slice(), 16, limit) {
        Ok(n) => Some(n),
        Err(_) => None,
    }
}

fn node(chars: &Vec<char>, from: usize) -> (result: Option<u8>)
    requires
        from <= 34,
        chars@.len() == 36,
    ensures
        result is Some <==> guid_field(chars@, from as int, from + 2, 0xFF) is Some,
        result matches Some(n) ==> guid_field(chars@, from as int, from + 2, 0xFF) == Some(
            n as nat,
        ),
{
    match field(chars, from, from + 2, 0xFF) {
        Some(n) => Some(n as u8),
        None => None,
    }
}

fn chars_of_bytes(bytes: &[u8]) -> (result: Vec<char>)
    ensures
        result@ == byte_chars(bytes@),
{
    let mut chars: Vec<char> = Vec::new();
    let mut i: usize = 0;
    while i < bytes.len()
        invariant
            i <= bytes.len(),
            chars@ == byte_chars(bytes@.take(i as int)),
        decreases bytes.len() - i,
    {
        chars.push(bytes[i] as char);
        assert(chars@ =~= byte_chars(bytes@.take(i + 1)));
        i += 1;
    }
    assert(bytes@.take(i as int) =~= bytes@);
    chars
}

/// Reads the parts of an identifier. A pair of braces around it and white space
/// around that are passed over.
pub fn parse_guid(value: &str) -> (result: Result<GuidParts, &'static str>)
    ensures
        match guid_of(value@) {
            Ok(parts) => result matches Ok(own) && own == parts,
            Err(message) => result matches Err(text) && text@ == message,
        },
{
    proof {
        reveal(guid_of);
    }
    let mut inner = trimmed(value);
    let n: usize = inner.len();
    if n >= 2 && inner[0] == '{' && inner[n - 1] == '}' {
        let middle = part(inner.as_slice(), 1, n - 1);
        inner = middle;
    }
    assert(inner@ == unbraced(trim(value@)));
    let text = string_of(inner.as_slice());
    let bytes = text.as_str().as_bytes();
    if bytes.len() != 36 || bytes[8] != 45 || bytes[13] != 45 || bytes[18] != 45 || bytes[23]
        != 45 {
        return Err("interface GUID has an invalid shape");
    }
    let chars = chars_of_bytes(bytes);
    match (
        field(&chars, 0, 8, 0xFFFF_FFFF),
        field(&chars, 9, 13, 0xFFFF),
        field(&chars, 14, 18, 0xFFFF),
    ) {
        (Some(data1), Some(data2), Some(data3)) => match (
            node(&chars, 19),
            node(&chars, 21),
            node(&chars, 24),
            node(&chars, 26),
        ) {
            (Some(node0), Some(node1), Some(node2), Some(node3)) => match (
                node(&chars, 28),
                node(&chars, 30),
                node(&chars, 32),
                node(&chars, 34),
            ) {
                (Some(node4), Some(node5), Some(node6), Some(node7)) => Ok(
                    GuidParts {
                        data1: data1 as u32,
                        data2: data2 as u16,
                        data3: data3 as u16,
                        node0,
                        node1,
                        node2,
                        node3,
                        node4,
                        node5,
                        node6,
                        node7,
                    },
                ),
                _ => Err("interface GUID has invalid hexadecimal digits"),
            },
            _ => Err("interface GUID has invalid hexadecimal digits"),
        },
        _ => Err("interface GUID has invalid hexadecimal digits"),
    }
}

/// An upper-case hexadecimal digit.
pub open spec fn upper_digit(digit: int) -> char {
    if digit < 10 {
        (48 + digit) as char
    } else {
        (55 + digit) as char
    }
}

/// A number in upper-case hexadecimal, with a fixed number of digits.
pub open spec fn padded_hex(n: nat, width: nat) -> Seq<char>
    decreases width,
{
    if width == 0 {
        Seq::empty()
    } else {
        padded_hex(n / 16, (width - 1) as nat).push(upper_digit((n % 16) as int))
    }
}

impl GuidParts {
    /// The canonical spelling: upper case, with dashes and without braces.
    pub open spec fn spec_text(self) -> Seq<char> {
        padded_hex(self.data1 as nat, 8) + seq!['-'] + padded_hex(self.data2 as nat, 4) + seq!['-']
            + padded_hex(self.data3 as nat, 4) + seq!['-'] + padded_hex(self.node0 as nat, 2)
            + padded_hex(self.node1 as nat, 2) + seq!['-'] + padded_hex(self.node2 as nat, 2)
            + padded_hex(self.node3 as nat, 2) + padded_hex(self.node4 as nat, 2) + padded_hex(
            self.node5 as nat,
            2,
        ) + padded_hex(self.node6 as nat, 2) + padded_hex(self.node7 as nat, 2)
    }

    /// The canonical spelling.
    pub fn text(self) -> (result: String)
        ensures
            result@ == self.spec_text(),
    {
        let mut chars: Vec<char> = Vec::new();
        push_hex(&mut chars, self.data1 as u64, 8);
        chars.push('-');
        push_hex(&mut chars, self.data2 as u64, 4);
        chars.push('-');
        push_hex(&mut chars, self.data3 as u64, 4);
        chars.push('-');
        push_hex(&mut chars, self.node0 as u64, 2);
        push_hex(&mut chars, self.node1 as u64, 2);
        chars.push('-');
        push_hex(&mut chars, self.node2 as u64, 2);
        push_hex(&mut chars, self.node3 as u64, 2);
        push_hex(&mut chars, self.node4 as u64, 2);
        push_hex(&mut chars, self.node5 as u64, 2);
        push_hex(&mut chars, self.node6 as u64, 2);
        push_hex(&mut chars, self.node7 as u64, 2);
        assert(chars@ =~= self.spec_text());
        string_of(chars.as_slice())
    }
}

fn upper_digit_char(digit: u8) -> (result: char)
    requires
        digit < 16,
    ensures
        result == upper_digit(digit as int),
{
    if digit < 10 {
        (48 + digit) as char
    } else {
        (55 + digit) as char
    }
}

fn push_hex(chars: &mut Vec<char>, n: u64, width: usize)
    ensures
        final(chars)@ == old(chars)@ + padded_hex(n as nat, width as nat),
    decreases width,
{
    if width > 0 {
        let ghost before = chars@;
        push_hex(chars, n / 16, width - 1);
        let digit: u8 = (n % 16) as u8;
        chars.push(upper_digit_char(digit));
        assert(chars@ =~= before + padded_hex(n as nat, width as nat));
    } else {
        assert(chars@ =~= old(chars)@ + padded_hex(n as nat, 0));
    }
}

/// The canonical spelling of an identifier, in whatever way it is spelled.
pub open spec fn canonical(text: Seq<char>) -> Result<Seq<char>, Seq<char>> {
    match guid_of(text) {
        Ok(parts) => Ok(parts.spec_text()),
        Err(message) => Err(message),
    }
}

/// The canonical spelling of an identifier, in whatever way it is spelled.
pub fn canonical_guid(value: &str) -> (result: Result<String, &'static str>)
    ensures
        match canonical(value@) {
            Ok(text) => result matches Ok(own) && own@ == text,
            Err(message) => result matches Err(text) && text@ == message,
        },
{
    match parse_guid(value) {
        Ok(parts) => Ok(parts.text()),
        Err(message) => Err(message),
    }
}

/// How many numbers a fixed number of hexadecimal digits can spell.
pub open spec fn hex_capacity(width: nat) -> nat
    decreases width,
{
    if width == 0 {
        1
    } else {
        16 * hex_capacity((width - 1) as nat)
    }
}

spec fn upper_hex(c: char) -> bool {
    '0' <= c <= '9' || 'A' <= c <= 'F'
}

proof fn lemma_padded_hex(n: nat, width: nat, limit: nat)
    requires
        n < hex_capacity(width),
        n <= limit,
    ensures
        padded_hex(n, width).len() == width,
        forall|i: int| 0 <= i < width ==> upper_hex(#[trigger] padded_hex(n, width)[i]),
        read_digits(padded_hex(n, width), 16, limit) == Ok::<nat, NumberError>(n),
    decreases width,
{
    if width > 0 {
        let front = padded_hex(n / 16, (width - 1) as nat);
        lemma_padded_hex(n / 16, (width - 1) as nat, limit);
        assert(padded_hex(n, width).drop_last() =~= front);
        assert(digit_value(upper_digit((n % 16) as int), 16) == Some(n % 16));
    }
}

proof fn lemma_guid_field(chars: Seq<char>, n: nat, from: int, width: nat, limit: nat)
    requires
        n < hex_capacity(width),
        n <= limit,
        width > 0,
        0 <= from <= from + width <= chars.len(),
        chars.subrange(from, from + width) == padded_hex(n, width),
    ensures
        guid_field(chars, from, from + width, limit) == Some(n),
{
    lemma_padded_hex(n, width, limit);
    assert(upper_hex(padded_hex(n, width)[0]));
}

proof fn lemma_spec_text(parts: GuidParts)
    ensures
        ({
            let text = parts.spec_text();
            &&& text.len() == 36
            &&& text[8] == '-' && text[13] == '-' && text[18] == '-' && text[23] == '-'
            &&& forall|i: int| 0 <= i < 36 ==> upper_hex(#[trigger] text[i]) || text[i] == '-'
            &&& upper_hex(text[0]) && upper_hex(text[35])
            &&& text.subrange(0, 8) == padded_hex(parts.data1 as nat, 8)
            &&& text.subrange(9, 13) == padded_hex(parts.data2 as nat, 4)
            &&& text.subrange(14, 18) == padded_hex(parts.data3 as nat, 4)
            &&& text.subrange(19, 21) == padded_hex(parts.node0 as nat, 2)
            &&& text.subrange(21, 23) == padded_hex(parts.node1 as nat, 2)
            &&& text.subrange(24, 26) == padded_hex(parts.node2 as nat, 2)
            &&& text.subrange(26, 28) == padded_hex(parts.node3 as nat, 2)
            &&& text.subrange(28, 30) == padded_hex(parts.node4 as nat, 2)
            &&& text.subrange(30, 32) == padded_hex(parts.node5 as nat, 2)
            &&& text.subrange(32, 34) == padded_hex(parts.node6 as nat, 2)
            &&& text.subrange(34, 36) == padded_hex(parts.node7 as nat, 2)
        }),
{
    lemma_capacities();
    let a = padded_hex(parts.data1 as nat, 8);
    let b = padded_hex(parts.data2 as nat, 4);
    let c = padded_hex(parts.data3 as nat, 4);
    let d0 = padded_hex(parts.node0 as nat, 2);
    let d1 = padded_hex(parts.node1 as nat, 2);
    let d2 = padded_hex(parts.node2 as nat, 2);
    let d3 = padded_hex(parts.node3 as nat, 2);
    let d4 = padded_hex(parts.node4 as nat, 2);
    let d5 = padded_hex(parts.node5 as nat, 2);
    let d6 = padded_hex(parts.node6 as nat, 2);
    let d7 = padded_hex(parts.node7 as nat, 2);
    lemma_padded_hex(parts.data1 as nat, 8, parts.data1 as nat);
    lemma_padded_hex(parts.data2 as nat, 4, parts.data2 as nat);
    lemma_padded_hex(parts.data3 as nat, 4, parts.data3 as nat);
    lemma_padded_hex(parts.node0 as nat, 2, parts.node0 as nat);
    lemma_padded_hex(parts.node1 as nat, 2, parts.node1 as nat);
    lemma_padded_hex(parts.node2 as nat, 2, parts.node2 as nat);
    lemma_padded_hex(parts.node3 as nat, 2, parts.node3 as nat);
    lemma_padded_hex(parts.node4 as nat, 2, parts.node4 as nat);
    lemma_padded_hex(parts.node5 as nat, 2, parts.node5 as nat);
    lemma_padded_hex(parts.node6 as nat, 2, parts.node6 as nat);
    lemma_padded_hex(parts.node7 as nat, 2, parts.node7 as nat);
    let text = parts.spec_text();
    assert(upper_hex(a[0]));
    assert(upper_hex(d7[1]));
    assert forall|i: int| 0 <= i < 36 implies upper_hex(#[trigger] text[i]) || text[i] == '-' by {
        if i < 8 {
            assert(text[i] == a[i]);
        } else if i == 8 {
        } else if i < 13 {
            assert(text[i] == b[i - 9]);
        } else if i == 13 {
        } else if i < 18 {
            assert(text[i] == c[i - 14]);
        } else if i == 18 {
        } else if i < 21 {
            assert(text[i] == d0[i - 19]);
        } else if i < 23 {
            assert(text[i] == d1[i - 21]);
        } else if i == 23 {
        } else if i < 26 {
            assert(text[i] == d2[i - 24]);
        } else if i < 28 {
            assert(text[i] == d3[i - 26]);
        } else if i < 30 {
            assert(text[i] == d4[i - 28]);
        } else if i < 32 {
            assert(text[i] == d5[i - 30]);
        } else if i < 34 {
            assert(text[i] == d6[i - 32]);
        } else {
            assert(text[i] == d7[i - 34]);
        }
    }
    assert(text.subrange(0, 8) =~= a);
    assert(text.subrange(9, 13) =~= b);
    assert(text.subrange(14, 18) =~= c);
    assert(text.subrange(19, 21) =~= d0);
    assert(text.subrange(21, 23) =~= d1);
    assert(text.subrange(24, 26) =~= d2);
    assert(text.subrange(26, 28) =~= d3);
    assert(text.subrange(28, 30) =~= d4);
    assert(text.subrange(30, 32) =~= d5);
    assert(text.subrange(32, 34) =~= d6);
    assert(text.subrange(34, 36) =~= d7);
    assert(text[35] == d7[1]);
}

proof fn lemma_spelled(parts: GuidParts)
    ensures
        canonically_spelled(parts.spec_text()),
{
    lemma_capacities();
    lemma_spec_text(parts);
    lemma_padded_hex(parts.data1 as nat, 8, parts.data1 as nat);
    lemma_padded_hex(parts.data2 as nat, 4, parts.data2 as nat);
    lemma_padded_hex(parts.data3 as nat, 4, parts.data3 as nat);
    lemma_padded_hex(parts.node0 as nat, 2, parts.node0 as nat);
    lemma_padded_hex(parts.node1 as nat, 2, parts.node1 as nat);
    lemma_padded_hex(parts.node2 as nat, 2, parts.node2 as nat);
    lemma_padded_hex(parts.node3 as nat, 2, parts.node3 as nat);
    lemma_padded_hex(parts.node4 as nat, 2, parts.node4 as nat);
    lemma_padded_hex(parts.node5 as nat, 2, parts.node5 as nat);
    lemma_padded_hex(parts.node6 as nat, 2, parts.node6 as nat);
    lemma_padded_hex(parts.node7 as nat, 2, parts.node7 as nat);
    let text = parts.spec_text();
    assert forall|i: int| 0 <= i < 36 implies if i == 8 || i == 13 || i == 18 || i == 23 {
        #[trigger] text[i] == '-'
    } else {
        upper_hex(text[i])
    } by {
        if i < 8 {
            assert(text[i] == text.subrange(0, 8)[i]);
        } else if 8 < i < 13 {
            assert(text[i] == text.subrange(9, 13)[i - 9]);
        } else if 13 < i < 18 {
            assert(text[i] == text.subrange(14, 18)[i - 14]);
        } else if 18 < i < 21 {
            assert(text[i] == text.subrange(19, 21)[i - 19]);
        } else if 20 < i < 23 {
            assert(text[i] == text.subrange(21, 23)[i - 21]);
        } else if 23 < i < 26 {
            assert(text[i] == text.subrange(24, 26)[i - 24]);
        } else if 25 < i < 28 {
            assert(text[i] == text.subrange(26, 28)[i - 26]);
        } else if 27 < i < 30 {
            assert(text[i] == text.subrange(28, 30)[i - 28]);
        } else if 29 < i < 32 {
            assert(text[i] == text.subrange(30, 32)[i - 30]);
        } else if 31 < i < 34 {
            assert(text[i] == text.subrange(32, 34)[i - 32]);
        } else if 33 < i {
            assert(text[i] == text.subrange(34, 36)[i - 34]);
        }
    }
}

proof fn lemma_capacities()
    ensures
        hex_capacity(2) == 0x100,
        hex_capacity(4) == 0x1_0000,
        hex_capacity(8) == 0x1_0000_0000,
{
    reveal_with_fuel(hex_capacity, 9);
}

/// A character in lower case, if it is an upper-case letter of the alphabet.
pub open spec fn lower(c: char) -> char {
    if 'A' <= c <= 'Z' {
        (c as int + 32) as char
    } else {
        c
    }
}

/// A text in lower case.
pub open spec fn lower_case(text: Seq<char>) -> Seq<char> {
    Seq::new(text.len(), |i: int| lower(text[i]))
}

proof fn lemma_lower_digits(digits: Seq<char>, limit: nat)
    ensures
        read_digits(lower_case(digits), 16, limit) == read_digits(digits, 16, limit),
    decreases digits.len(),
{
    if digits.len() > 0 {
        lemma_lower_digits(digits.drop_last(), limit);
        assert(lower_case(digits).drop_last() =~= lower_case(digits.drop_last()));
    }
}

proof fn lemma_lower_field(chars: Seq<char>, from: int, to: int, limit: nat)
    requires
        0 <= from <= to <= chars.len(),
    ensures
        guid_field(lower_case(chars), from, to, limit) == guid_field(chars, from, to, limit),
{
    let digits = chars.subrange(from, to);
    assert(lower_case(chars).subrange(from, to) =~= lower_case(digits));
    lemma_lower_digits(unsigned_part(digits), limit);
    assert(unsigned_part(lower_case(digits)) =~= lower_case(unsigned_part(digits)));
}

/// Whether a text is a canonical spelling up to the case of its letters, so that it
/// has no white space, braces or other characters than its digits and dashes.
spec fn plain_spelling(text: Seq<char>) -> bool {
    &&& text.len() == 36
    &&& text[8] == '-' && text[13] == '-' && text[18] == '-' && text[23] == '-'
    &&& forall|i: int|
        0 <= i < 36 ==> upper_hex(#[trigger] text[i]) || text[i] == '-' || 'a' <= text[i] <= 'f'
    &&& text[0] != '-' && text[35] != '-'
}

proof fn lemma_plain_spelling(text: Seq<char>)
    requires
        plain_spelling(text),
    ensures
        trim(text) == text,
        unbraced(text) == text,
        unbraced(seq!['{'] + text + seq!['}']) == text,
        trim(seq!['{'] + text + seq!['}']) == seq!['{'] + text + seq!['}'],
        guid_bytes(text).len() == 36,
        byte_chars(vstd::utf8::encode_utf8(text)) == text,
        guid_shaped(vstd::utf8::encode_utf8(text)),
{
    assert(upper_hex(text[0]) || 'a' <= text[0] <= 'f');
    assert(upper_hex(text[35]) || 'a' <= text[35] <= 'f');
    assert(!white_space(text[0]));
    assert(!white_space(text.last()));
    assert(trim(text) == text);
    let braced = seq!['{'] + text + seq!['}'];
    assert(!white_space(braced[0]));
    assert(!white_space(braced.last()));
    assert(braced.subrange(1, braced.len() - 1) =~= text);
    assert(vstd::utf8::is_ascii_chars(text)) by {
        assert forall|i: int| 0 <= i < text.len() implies '\0' <= #[trigger] text[i] <= '\u{7f}' by {}
    }
    vstd::utf8::is_ascii_chars_encode_utf8(text);
    assert(byte_chars(vstd::utf8::encode_utf8(text)) =~= text);
}

/// The canonical spelling of an identifier is read back as the same identifier.
pub proof fn canonical_spelling_is_read_back(parts: GuidParts)
    ensures
        guid_of(parts.spec_text()) == Ok::<GuidParts, Seq<char>>(parts),
{
    reveal(guid_of);
    let text = parts.spec_text();
    lemma_spec_text(parts);
    lemma_capacities();
    lemma_plain_spelling(text);
    lemma_guid_field(text, parts.data1 as nat, 0, 8, 0xFFFF_FFFF);
    lemma_guid_field(text, parts.data2 as nat, 9, 4, 0xFFFF);
    lemma_guid_field(text, parts.data3 as nat, 14, 4, 0xFFFF);
    lemma_guid_field(text, parts.node0 as nat, 19, 2, 0xFF);
    lemma_guid_field(text, parts.node1 as nat, 21, 2, 0xFF);
    lemma_guid_field(text, parts.node2 as nat, 24, 2, 0xFF);
    lemma_guid_field(text, parts.node3 as nat, 26, 2, 0xFF);
    lemma_guid_field(text, parts.node4 as nat, 28, 2, 0xFF);
    lemma_guid_field(text, parts.node5 as nat, 30, 2, 0xFF);
    lemma_guid_field(text, parts.node6 as nat, 32, 2, 0xFF);
    lemma_guid_field(text, parts.node7 as nat, 34, 2, 0xFF);
}

/// Whether a text is spelled as canonical spellings are: groups of upper-case
/// hexadecimal digits with dashes between them, and no braces.
pub open spec fn canonically_spelled(text: Seq<char>) -> bool {
    &&& text.len() == 36
    &&& forall|i: int|
        0 <= i < 36 ==> if i == 8 || i == 13 || i == 18 || i == 23 {
            #[trigger] text[i] == '-'
        } else {
            '0' <= text[i] <= '9' || 'A' <= text[i] <= 'F'
        }
}

/// A canonical spelling has its form, and an identifier spelled in lower case, in
/// braces or with white space around it is the same identifier.
pub proof fn other_spellings_agree(text: Seq<char>, front: Seq<char>, back: Seq<char>)
    requires
        canonical(text) is Ok,
        blank(front),
        blank(back),
    ensures
        canonically_spelled(canonical(text)->Ok_0),
        canonical(front + text + back) == canonical(text),
        canonical(lower_case(canonical(text)->Ok_0)) == canonical(text),
        canonical(seq!['{'] + canonical(text)->Ok_0 + seq!['}']) == canonical(text),
        canonical(front + canonical(text)->Ok_0 + back) == canonical(text),
{
    let parts = guid_of(text)->Ok_0;
    let own = canonical(text)->Ok_0;
    lemma_spec_text(parts);
    lemma_spelled(parts);
    canonical_spelling_is_read_back(parts);
    lemma_plain_spelling(own);
    assert(canonical(front + text + back) == canonical(text)) by {
        reveal(guid_of);
        padding_is_trimmed(front, text, back);
    }
    assert(canonical(front + own + back) == canonical(own)) by {
        reveal(guid_of);
        padding_is_trimmed(front, own, back);
    }
    assert(guid_of(seq!['{'] + own + seq!['}']) == guid_of(own)) by {
        reveal(guid_of);
    }
    let low = lower_case(own);
    assert(plain_spelling(low)) by {
        assert forall|i: int| 0 <= i < 36 implies upper_hex(#[trigger] low[i]) || low[i] == '-'
            || 'a' <= low[i] <= 'f' by {
            assert(upper_hex(own[i]) || own[i] == '-');
        }
    }
    lemma_plain_spelling(low);
    assert(guid_of(low) == guid_of(own)) by {
        reveal(guid_of);
        lemma_lower_field(own, 0, 8, 0xFFFF_FFFF);
        lemma_lower_field(own, 9, 13, 0xFFFF);
        lemma_lower_field(own, 14, 18, 0xFFFF);
        lemma_lower_field(own, 19, 21, 0xFF);
        lemma_lower_field(own, 21, 23, 0xFF);
        lemma_lower_field(own, 24, 26, 0xFF);
        lemma_lower_field(own, 26, 28, 0xFF);
        lemma_lower_field(own, 28, 30, 0xFF);
        lemma_lower_field(own, 30, 32, 0xFF);
        lemma_lower_field(own, 32, 34, 0xFF);
        lemma_lower_field(own, 34, 36, 0xFF);
    }
}

/// The canonical spelling of a canonical spelling is the spelling itself.
pub proof fn canonical_spelling_is_stable(text: Seq<char>)
    requires
        canonical(text) is Ok,
    ensures
        canonical(canonical(text)->Ok_0) == canonical(text),
{
    canonical_spelling_is_read_back(guid_of(text)->Ok_0);
}

/// Whether a field of an identifier can be read.
pub open spec fn field_spells(chars: Seq<char>, from: int, to: int, n: nat) -> bool {
    let text = chars.subrange(from, to);
    let digits = if text.len() >= 2 && text[0] == '+' {
        text.skip(1)
    } else {
        text
    };
    of_digits(digits, 16) && amount(digits, 16) == n
}

proof fn lemma_field_spells(chars: Seq<char>, from: int, to: int, limit: nat)
    requires
        0 <= from < to <= chars.len(),
    ensures
        guid_field(chars, from, to, limit) matches Some(n) ==> field_spells(chars, from, to, n),
        forall|n: nat| n <= limit && #[trigger] field_spells(chars, from, to, n) ==> guid_field(
            chars,
            from,
            to,
            limit,
        ) == Some(n),
{
    numbers_are_sums_of_their_digits(chars.subrange(from, to), 16, limit);
}

/// An identifier is read exactly where it has, without white space and braces around it,
/// 36 bytes, dashes at the ninth, the fourteenth, the nineteenth and the twenty-fourth,
/// and between them hexadecimal digits that come to its parts.
pub proof fn identifiers_are_read_field_by_field(text: Seq<char>, parts: GuidParts)
    ensures
        guid_of(text) == Ok::<GuidParts, Seq<char>>(parts) <==> {
            let bytes = vstd::utf8::encode_utf8(unbraced(trim(text)));
            let chars = Seq::new(bytes.len(), |i: int| bytes[i] as char);
            &&& bytes.len() == 36
            &&& bytes[8] == '-' as u8 && bytes[13] == '-' as u8 && bytes[18] == '-' as u8
                && bytes[23] == '-' as u8
            &&& field_spells(chars, 0, 8, parts.data1 as nat)
            &&& field_spells(chars, 9, 13, parts.data2 as nat)
            &&& field_spells(chars, 14, 18, parts.data3 as nat)
            &&& field_spells(chars, 19, 21, parts.node0 as nat)
            &&& field_spells(chars, 21, 23, parts.node1 as nat)
            &&& field_spells(chars, 24, 26, parts.node2 as nat)
            &&& field_spells(chars, 26, 28, parts.node3 as nat)
            &&& field_spells(chars, 28, 30, parts.node4 as nat)
            &&& field_spells(chars, 30, 32, parts.node5 as nat)
            &&& field_spells(chars, 32, 34, parts.node6 as nat)
            &&& field_spells(chars, 34, 36, parts.node7 as nat)
        },
{
    reveal(guid_of);
    let bytes = vstd::utf8::encode_utf8(unbraced(trim(text)));
    let chars = byte_chars(bytes);
    assert(chars =~= Seq::new(bytes.len(), |i: int| bytes[i] as char));
    if bytes.len() == 36 {
        lemma_field_spells(chars, 0, 8, 0xFFFF_FFFF);
        lemma_field_spells(chars, 9, 13, 0xFFFF);
        lemma_field_spells(chars, 14, 18, 0xFFFF);
        lemma_field_spells(chars, 19, 21, 0xFF);
        lemma_field_spells(chars, 21, 23, 0xFF);
        lemma_field_spells(chars, 24, 26, 0xFF);
        lemma_field_spells(chars, 26, 28, 0xFF);
        lemma_field_spells(chars, 28, 30, 0xFF);
        lemma_field_spells(chars, 30, 32, 0xFF);
        lemma_field_spells(chars, 32, 34, 0xFF);
        lemma_field_spells(chars, 34, 36, 0xFF);
    }
}

/// Braces are taken off only as a pair.
pub proof fn braces_come_in_pairs(text: Seq<char>)
    ensures
        unbraced(seq!['{'] + text + seq!['}']) == text,
        !(text.len() >= 2 && text[0] == '{' && text[text.len() - 1] == '}') ==> unbraced(text)
            == text,
{
    let braced = seq!['{'] + text + seq!['}'];
    assert(braced.subrange(1, braced.len() - 1) =~= text);
}

/// A number is written with as many upper-case hexadecimal digits as its field has, which
/// come to the number as far as they go.
pub proof fn fields_are_padded(n: nat, width: nat)
    ensures
        padded_hex(n, width).len() == width,
        forall|i: int|
            0 <= i < width ==> '0' <= #[trigger] padded_hex(n, width)[i] <= '9' || 'A'
                <= padded_hex(n, width)[i] <= 'F',
        n < hex_capacity(width) ==> amount(padded_hex(n, width), 16) == n,
    decreases width,
{
    if width > 0 {
        let before = (width - 1) as nat;
        fields_are_padded(n / 16, before);
        let text = padded_hex(n, width);
        let front = padded_hex(n / 16, before);
        assert(text.drop_last() =~= front);
        assert(worth(upper_digit((n % 16) as int)) == n % 16);
        assert forall|i: int| 0 <= i < width implies '0' <= #[trigger] text[i] <= '9' || 'A'
            <= text[i] <= 'F' by {
            if i < before {
                assert(text[i] == front[i]);
            }
        }
        if n < hex_capacity(width) {
            assert(n / 16 < hex_capacity(before));
            assert(amount(front, 16) == n / 16);
        }
    }
}

} // verus!
