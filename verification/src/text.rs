//! Text primitives: decimal and hexadecimal numerals, white space and the
//! quoting of text inside messages.

use vstd::prelude::*;
use vstd::string::*;

verus! {

/// `String::push` appends one character to the end of the text.
pub assume_specification[ String::push ](text: &mut String, c: char)
    ensures
        final(text)@ == old(text)@.push(c),
;

/// What the `Debug` formatting of a text writes: the text in double quotes
/// with its escapes.
pub uninterp spec fn quoted(text: Seq<char>) -> Seq<char>;

/// Formats a text with `format!` and `{:?}`. The contract claims only that the
/// outcome is a function of the text.
#[verifier::external_body]
pub(crate) fn quoted_text(text: &str) -> (result: String)
    ensures
        result@ == quoted(text@),
{
    format!("{:?}", text)
}

/// The characters of `text`.
pub fn chars_of(text: &str) -> (result: Vec<char>)
    ensures
        result@ == text@,
{
    let mut result: Vec<char> = Vec::new();
    for c in it: text.chars()
        invariant
            result@ == it.seq().take(it.index()),
            it.seq() == text@,
    {
        result.push(c);
    }
    result
}

/// The text made of `chars`.
pub fn string_of(chars: &[char]) -> (result: String)
    ensures
        result@ == chars@,
{
    let mut result = String::new();
    let mut i: usize = 0;
    while i < chars.len()
        invariant
            i <= chars.len(),
            result@ == chars@.take(i as int),
        decreases chars.len() - i,
    {
        result.push(chars[i]);
        i += 1;
        assert(chars@.take(i as int) =~= chars@.take(i - 1).push(chars@[i - 1]));
    }
    assert(chars@.take(i as int) =~= chars@);
    result
}

/// The concatenation of two texts.
pub fn join(first: &str, second: &str) -> (result: String)
    ensures
        result@ == first@ + second@,
{
    let mut result = first.to_owned();
    result.append(second);
    result
}

/// The concatenation of three texts.
pub fn join3(first: &str, second: &str, third: &str) -> (result: String)
    ensures
        result@ == first@ + second@ + third@,
{
    let mut result = first.to_owned();
    result.append(second);
    result.append(third);
    result
}

/// The concatenation of four texts.
pub fn join4(first: &str, second: &str, third: &str, fourth: &str) -> (result: String)
    ensures
        result@ == first@ + second@ + third@ + fourth@,
{
    let mut result = join3(first, second, third);
    result.append(fourth);
    result
}

/// The concatenation of five texts.
pub fn join5(first: &str, second: &str, third: &str, fourth: &str, fifth: &str) -> (result: String)
    ensures
        result@ == first@ + second@ + third@ + fourth@ + fifth@,
{
    let mut result = join4(first, second, third, fourth);
    result.append(fifth);
    result
}

/// Compares two texts.
pub fn same_text(first: &str, second: &str) -> (result: bool)
    ensures
        result == (first@ == second@),
{
    let left = chars_of(first);
    let right = chars_of(second);
    same_chars(&left, &right)
}

/// Compares two sequences of characters.
pub fn same_chars(left: &[char], right: &[char]) -> (result: bool)
    ensures
        result == (left@ == right@),
{
    if left.len() != right.len() {
        return false;
    }
    let mut i: usize = 0;
    while i < left.len()
        invariant
            i <= left.len() == right.len(),
            forall|j: int| 0 <= j < i ==> left@[j] == right@[j],
        decreases left.len() - i,
    {
        if left[i] != right[i] {
            return false;
        }
        i += 1;
    }
    assert(left@ =~= right@);
    true
}

/// Compares two sequences of bytes.
pub fn same_bytes(left: &[u8], right: &[u8]) -> (result: bool)
    ensures
        result == (left@ == right@),
{
    if left.len() != right.len() {
        return false;
    }
    let mut i: usize = 0;
    while i < left.len()
        invariant
            i <= left.len() == right.len(),
            forall|j: int| 0 <= j < i ==> left@[j] == right@[j],
        decreases left.len() - i,
    {
        if left[i] != right[i] {
            return false;
        }
        i += 1;
    }
    assert(left@ =~= right@);
    true
}

/// A copy of `bytes`.
pub fn bytes_of(bytes: &[u8]) -> (result: Vec<u8>)
    ensures
        result@ == bytes@,
{
    let mut result: Vec<u8> = Vec::new();
    let mut i: usize = 0;
    while i < bytes.len()
        invariant
            i <= bytes.len(),
            result@ == bytes@.take(i as int),
        decreases bytes.len() - i,
    {
        result.push(bytes[i]);
        i += 1;
        assert(bytes@.take(i as int) =~= bytes@.take(i - 1).push(bytes@[i - 1]));
    }
    assert(bytes@.take(i as int) =~= bytes@);
    result
}

/// The views of a list of texts.
pub open spec fn views(texts: Seq<String>) -> Seq<Seq<char>> {
    Seq::new(texts.len(), |i: int| texts[i]@)
}

/// Copies a list of texts.
pub fn copy_texts(texts: &[String]) -> (result: Vec<String>)
    ensures
        result@ == texts@,
{
    let mut result: Vec<String> = Vec::new();
    let mut i: usize = 0;
    while i < texts.len()
        invariant
            i <= texts.len(),
            result@ == texts@.take(i as int),
        decreases texts.len() - i,
    {
        result.push(texts[i].clone());
        i += 1;
        assert(texts@.take(i as int) =~= texts@.take(i - 1).push(texts@[i - 1]));
    }
    assert(texts@.take(i as int) =~= texts@);
    result
}

/// Whether two lists hold the same texts in the same order.
pub fn same_texts(left: &[String], right: &[String]) -> (result: bool)
    ensures
        result == (views(left@) == views(right@)),
{
    if left.len() != right.len() {
        assert(views(left@).len() != views(right@).len());
        return false;
    }
    let mut i: usize = 0;
    while i < left.len()
        invariant
            i <= left.len() == right.len(),
            forall|j: int| 0 <= j < i ==> left@[j]@ == right@[j]@,
        decreases left.len() - i,
    {
        if !same_text(left[i].as_str(), right[i].as_str()) {
            assert(views(left@)[i as int] != views(right@)[i as int]);
            return false;
        }
        i += 1;
    }
    assert(views(left@) =~= views(right@));
    true
}

/// Whether `needle` stands somewhere in `hay`.
pub fn contains_char(hay: &[char], needle: char) -> (result: bool)
    ensures
        result == hay@.contains(needle),
{
    let mut i: usize = 0;
    while i < hay.len()
        invariant
            i <= hay.len(),
            forall|j: int| 0 <= j < i ==> hay@[j] != needle,
        decreases hay.len() - i,
    {
        if hay[i] == needle {
            assert(hay@[i as int] == needle);
            return true;
        }
        i += 1;
    }
    false
}

/// Where a character first stands in a text: the length if nowhere.
pub open spec fn first_index(hay: Seq<char>, needle: char) -> int
    decreases hay.len(),
{
    if hay.len() == 0 {
        0
    } else if hay[0] == needle {
        0
    } else {
        1 + first_index(hay.drop_first(), needle)
    }
}

/// The first index is the one place with the character and without it before.
pub proof fn lemma_first_index(hay: Seq<char>, needle: char, at: int)
    requires
        0 <= at <= hay.len(),
        forall|j: int| 0 <= j < at ==> hay[j] != needle,
        at < hay.len() ==> hay[at] == needle,
    ensures
        first_index(hay, needle) == at,
    decreases hay.len(),
{
    if hay.len() > 0 && at > 0 {
        assert(hay[0] != needle);
        lemma_first_index(hay.drop_first(), needle, at - 1);
    }
}

/// Finds where a character first stands.
pub fn index_of(hay: &[char], needle: char) -> (result: usize)
    ensures
        result == first_index(hay@, needle),
        result <= hay.len(),
        result < hay.len() ==> hay@[result as int] == needle,
        forall|j: int| 0 <= j < result ==> hay@[j] != needle,
{
    let mut i: usize = 0;
    while i < hay.len()
        invariant
            i <= hay.len(),
            forall|j: int| 0 <= j < i ==> hay@[j] != needle,
        decreases hay.len() - i,
    {
        if hay[i] == needle {
            proof {
                lemma_first_index(hay@, needle, i as int);
            }
            return i;
        }
        i += 1;
    }
    proof {
        lemma_first_index(hay@, needle, i as int);
    }
    i
}

/// The part of `chars` from `from` up to `to`.
pub fn part(chars: &[char], from: usize, to: usize) -> (result: Vec<char>)
    requires
        from <= to <= chars.len(),
    ensures
        result@ == chars@.subrange(from as int, to as int),
{
    let mut result: Vec<char> = Vec::new();
    let mut i: usize = from;
    while i < to
        invariant
            from <= i <= to <= chars.len(),
            result@ == chars@.subrange(from as int, i as int),
        decreases to - i,
    {
        result.push(chars[i]);
        i += 1;
        assert(chars@.subrange(from as int, i as int) =~= chars@.subrange(
            from as int,
            i - 1,
        ).push(chars@[i - 1]));
    }
    result
}

/// The Unicode `White_Space` property.
pub open spec fn white_space(c: char) -> bool {
    ||| '\u{9}' <= c <= '\u{d}'
    ||| c == '\u{20}'
    ||| c == '\u{85}'
    ||| c == '\u{a0}'
    ||| c == '\u{1680}'
    ||| '\u{2000}' <= c <= '\u{200a}'
    ||| c == '\u{2028}'
    ||| c == '\u{2029}'
    ||| c == '\u{202f}'
    ||| c == '\u{205f}'
    ||| c == '\u{3000}'
}

pub fn is_white_space(c: char) -> (result: bool)
    ensures
        result == white_space(c),
{
    ('\u{9}' <= c && c <= '\u{d}') || c == '\u{20}' || c == '\u{85}' || c == '\u{a0}' || c
        == '\u{1680}' || ('\u{2000}' <= c && c <= '\u{200a}') || c == '\u{2028}' || c == '\u{2029}'
        || c == '\u{202f}' || c == '\u{205f}' || c == '\u{3000}'
}

/// `text` without its leading white space.
pub open spec fn trim_start(text: Seq<char>) -> Seq<char>
    decreases text.len(),
{
    if text.len() > 0 && white_space(text[0]) {
        trim_start(text.drop_first())
    } else {
        text
    }
}

/// `text` without its trailing white space.
pub open spec fn trim_end(text: Seq<char>) -> Seq<char>
    decreases text.len(),
{
    if text.len() > 0 && white_space(text.last()) {
        trim_end(text.drop_last())
    } else {
        text
    }
}

/// `text` without the white space around it.
pub open spec fn trim(text: Seq<char>) -> Seq<char> {
    trim_end(trim_start(text))
}

proof fn lemma_trim_start(text: Seq<char>)
    ensures
        trim_start(text).len() == 0 || !white_space(trim_start(text)[0]),
    decreases text.len(),
{
    if text.len() > 0 && white_space(text[0]) {
        lemma_trim_start(text.drop_first());
    }
}

proof fn lemma_trim_end(text: Seq<char>)
    ensures
        trim_end(text).len() == 0 || !white_space(trim_end(text).last()),
        text.len() > 0 && !white_space(text[0]) ==> trim_end(text).len() > 0 && trim_end(text)[0]
            == text[0],
    decreases text.len(),
{
    if text.len() > 0 && white_space(text.last()) {
        lemma_trim_end(text.drop_last());
    }
}

/// A trimmed text has no white space around it: trimming it changes nothing.
pub proof fn lemma_trim_idempotent(text: Seq<char>)
    ensures
        trim(trim(text)) == trim(text),
{
    lemma_trim_start(text);
    lemma_trim_end(trim_start(text));
}

/// Whether a text is white space alone.
pub open spec fn blank(text: Seq<char>) -> bool {
    forall|i: int| 0 <= i < text.len() ==> white_space(#[trigger] text[i])
}

proof fn lemma_trim_start_blank(front: Seq<char>, text: Seq<char>)
    requires
        blank(front),
    ensures
        trim_start(front + text) == trim_start(text),
    decreases front.len(),
{
    if front.len() > 0 {
        assert(white_space(front[0]));
        assert((front + text).drop_first() =~= front.drop_first() + text);
        assert forall|i: int| 0 <= i < front.len() - 1 implies white_space(
            #[trigger] front.drop_first()[i],
        ) by {
            assert(front.drop_first()[i] == front[i + 1]);
        }
        lemma_trim_start_blank(front.drop_first(), text);
    } else {
        assert(front + text =~= text);
    }
}

proof fn lemma_trim_start_front(text: Seq<char>, back: Seq<char>)
    requires
        trim_start(text).len() > 0,
    ensures
        trim_start(text + back) == trim_start(text) + back,
    decreases text.len(),
{
    if white_space(text[0]) {
        assert((text + back).drop_first() =~= text.drop_first() + back);
        lemma_trim_start_front(text.drop_first(), back);
    }
}

proof fn lemma_trim_start_empty(text: Seq<char>)
    requires
        trim_start(text).len() == 0,
    ensures
        blank(text),
    decreases text.len(),
{
    if text.len() > 0 {
        lemma_trim_start_empty(text.drop_first());
        assert forall|i: int| 0 <= i < text.len() implies white_space(#[trigger] text[i]) by {
            if i > 0 {
                assert(text.drop_first()[i - 1] == text[i]);
            }
        }
    }
}

proof fn lemma_trim_end_blank(text: Seq<char>, back: Seq<char>)
    requires
        blank(back),
    ensures
        trim_end(text + back) == trim_end(text),
    decreases back.len(),
{
    if back.len() > 0 {
        assert(white_space(back[back.len() - 1]));
        assert((text + back).drop_last() =~= text + back.drop_last());
        assert forall|i: int| 0 <= i < back.len() - 1 implies white_space(
            #[trigger] back.drop_last()[i],
        ) by {
            assert(back.drop_last()[i] == back[i]);
        }
        lemma_trim_end_blank(text, back.drop_last());
    } else {
        assert(text + back =~= text);
    }
}

/// White space around a text does not change what trimming leaves of it.
pub proof fn padding_is_trimmed(front: Seq<char>, text: Seq<char>, back: Seq<char>)
    requires
        blank(front),
        blank(back),
    ensures
        trim(front + text + back) == trim(text),
{
    assert(front + text + back =~= front + (text + back));
    lemma_trim_start_blank(front, text + back);
    if trim_start(text).len() > 0 {
        lemma_trim_start_front(text, back);
        lemma_trim_end_blank(trim_start(text), back);
    } else {
        lemma_trim_start_empty(text);
        lemma_trim_start_blank(text, back);
        lemma_trim_start_blank(back, Seq::empty());
        assert(back + Seq::<char>::empty() =~= back);
        assert(trim_start(text) =~= Seq::empty());
    }
}

/// Removes the white space around a text.
pub fn trimmed(text: &str) -> (result: Vec<char>)
    ensures
        result@ == trim(text@),
{
    let chars = chars_of(text);
    let mut from: usize = 0;
    assert(chars@.subrange(0, chars@.len() as int) =~= chars@);
    while from < chars.len() && is_white_space(chars[from])
        invariant
            from <= chars.len(),
            trim_start(chars@) == trim_start(chars@.subrange(from as int, chars@.len() as int)),
        decreases chars.len() - from,
    {
        assert(chars@.subrange(from as int, chars@.len() as int).drop_first() =~= chars@.subrange(
            from + 1,
            chars@.len() as int,
        ));
        from += 1;
    }
    let ghost rest = chars@.subrange(from as int, chars@.len() as int);
    assert(trim_start(chars@) == rest);
    let mut to: usize = chars.len();
    while to > from && is_white_space(chars[to - 1])
        invariant
            from <= to <= chars.len(),
            trim_end(rest) == trim_end(chars@.subrange(from as int, to as int)),
        decreases to - from,
    {
        assert(chars@.subrange(from as int, to as int).drop_last() =~= chars@.subrange(
            from as int,
            to - 1,
        ));
        to -= 1;
    }
    part(&chars, from, to)
}

/// The character of a digit below sixteen, in lower case.
pub open spec fn digit_char(digit: int) -> char {
    if digit == 0 { '0' }
    else if digit == 1 { '1' }
    else if digit == 2 { '2' }
    else if digit == 3 { '3' }
    else if digit == 4 { '4' }
    else if digit == 5 { '5' }
    else if digit == 6 { '6' }
    else if digit == 7 { '7' }
    else if digit == 8 { '8' }
    else if digit == 9 { '9' }
    else if digit == 10 { 'a' }
    else if digit == 11 { 'b' }
    else if digit == 12 { 'c' }
    else if digit == 13 { 'd' }
    else if digit == 14 { 'e' }
    else { 'f' }
}

pub fn digit_to_char(digit: u8) -> (result: char)
    requires
        digit < 16,
    ensures
        result == digit_char(digit as int),
{
    match digit {
        0 => '0',
        1 => '1',
        2 => '2',
        3 => '3',
        4 => '4',
        5 => '5',
        6 => '6',
        7 => '7',
        8 => '8',
        9 => '9',
        10 => 'a',
        11 => 'b',
        12 => 'c',
        13 => 'd',
        14 => 'e',
        _ => 'f',
    }
}

/// The value of a digit in a numeral of base `radix` (at most sixteen).
pub open spec fn digit_value(c: char, radix: nat) -> Option<nat> {
    let value = if '0' <= c <= '9' {
        (c as int - '0' as int) as nat
    } else if 'a' <= c <= 'f' {
        (c as int - 'a' as int + 10) as nat
    } else if 'A' <= c <= 'F' {
        (c as int - 'A' as int + 10) as nat
    } else {
        16
    };
    if value < radix && value < 16 {
        Some(value)
    } else {
        None
    }
}

pub fn value_of_digit(c: char, radix: u8) -> (result: Option<u8>)
    ensures
        result is Some <==> digit_value(c, radix as nat) is Some,
        result matches Some(value) ==> digit_value(c, radix as nat) == Some(value as nat) && value
            < 16,
{
    let value: u8 = if '0' <= c && c <= '9' {
        (c as u32 - '0' as u32) as u8
    } else if 'a' <= c && c <= 'f' {
        (c as u32 - 'a' as u32 + 10) as u8
    } else if 'A' <= c && c <= 'F' {
        (c as u32 - 'A' as u32 + 10) as u8
    } else {
        16
    };
    if value < radix && value < 16 {
        Some(value)
    } else {
        None
    }
}

/// The numeral of `n` in base `radix`, without leading zeros.
pub open spec fn numeral(n: nat, radix: nat) -> Seq<char>
    decreases n,
{
    if radix < 2 {
        Seq::empty()
    } else if n < radix {
        seq![digit_char(n as int)]
    } else {
        proof {
            assert(n / radix < n) by (nonlinear_arith)
                requires
                    2 <= radix <= n,
            ;
        }
        numeral(n / radix, radix).push(digit_char((n % radix) as int))
    }
}

/// The decimal numeral of `n`.
#[verifier::opaque]
pub open spec fn decimal(n: nat) -> Seq<char> {
    numeral(n, 10)
}

fn numeral_text(n: u64, radix: u64) -> (result: String)
    requires
        2 <= radix <= 16,
    ensures
        result@ == numeral(n as nat, radix as nat),
    decreases n,
{
    if n < radix {
        let mut result = String::new();
        result.push(digit_to_char(n as u8));
        assert(result@ =~= seq![digit_char(n as int)]);
        result
    } else {
        assert(n / radix < n && n % radix < radix) by (nonlinear_arith)
            requires
                2 <= radix <= n,
        ;
        let mut result = numeral_text(n / radix, radix);
        result.push(digit_to_char((n % radix) as u8));
        result
    }
}

/// Writes a number in decimal.
pub fn decimal_text(n: u64) -> (result: String)
    ensures
        result@ == decimal(n as nat),
{
    reveal(decimal);
    numeral_text(n, 10)
}

/// Writes a number in lower-case hexadecimal.
pub fn hexadecimal_text(n: u64) -> (result: String)
    ensures
        result@ == numeral(n as nat, 16),
{
    numeral_text(n, 16)
}

/// Two lower-case hexadecimal digits for each byte, in order.
pub open spec fn hex_of(bytes: Seq<u8>) -> Seq<char>
    decreases bytes.len(),
{
    if bytes.len() == 0 {
        Seq::empty()
    } else {
        hex_of(bytes.drop_last()).push(digit_char((bytes.last() / 16) as int)).push(
            digit_char((bytes.last() % 16) as int),
        )
    }
}

/// Writes bytes in lower-case hexadecimal.
pub fn hex_text(bytes: &[u8]) -> (result: String)
    ensures
        result@ == hex_of(bytes@),
{
    let mut result = String::new();
    let mut i: usize = 0;
    while i < bytes.len()
        invariant
            i <= bytes.len(),
            result@ == hex_of(bytes@.take(i as int)),
        decreases bytes.len() - i,
    {
        result.push(digit_to_char(bytes[i] / 16));
        result.push(digit_to_char(bytes[i] % 16));
        i += 1;
        assert(bytes@.take(i as int).drop_last() =~= bytes@.take(i - 1));
    }
    assert(bytes@.take(i as int) =~= bytes@);
    result
}

/// Why a text is no number.
#[derive(Clone, Copy, Debug, PartialEq, Eq, Structural)]
pub enum NumberError {
    Empty,
    InvalidDigit,
    TooLarge,
}

impl NumberError {
    pub open spec fn spec_message(self) -> Seq<char> {
        match self {
            NumberError::Empty => "cannot parse integer from empty string"@,
            NumberError::InvalidDigit => "invalid digit found in string"@,
            NumberError::TooLarge => "number too large to fit in target type"@,
        }
    }

    pub fn message(self) -> (result: String)
        ensures
            result@ == self.spec_message(),
    {
        match self {
            NumberError::Empty => "cannot parse integer from empty string".to_owned(),
            NumberError::InvalidDigit => "invalid digit found in string".to_owned(),
            NumberError::TooLarge => "number too large to fit in target type".to_owned(),
        }
    }
}

/// Reads digits from left to right; the first digit at fault decides.
pub open spec fn read_digits(digits: Seq<char>, radix: nat, limit: nat) -> Result<nat, NumberError>
    decreases digits.len(),
{
    if digits.len() == 0 {
        Ok(0)
    } else {
        match read_digits(digits.drop_last(), radix, limit) {
            Err(error) => Err(error),
            Ok(value) => match digit_value(digits.last(), radix) {
                None => Err(NumberError::InvalidDigit),
                Some(digit) => if value * radix + digit > limit {
                    Err(NumberError::TooLarge)
                } else {
                    Ok(value * radix + digit)
                },
            },
        }
    }
}

/// The digits of a numeral: what follows an optional plus sign.
pub open spec fn unsigned_part(text: Seq<char>) -> Seq<char> {
    if text.len() > 1 && text[0] == '+' {
        text.drop_first()
    } else {
        text
    }
}

/// Reads an unsigned numeral of base `radix` that is at most `limit`. One plus
/// sign may stand before the digits.
pub open spec fn read_number(text: Seq<char>, radix: nat, limit: nat) -> Result<nat, NumberError> {
    if text.len() == 0 {
        Err(NumberError::Empty)
    } else {
        read_digits(unsigned_part(text), radix, limit)
    }
}

/// A digit at fault in a prefix is at fault in the whole.
pub proof fn lemma_read_digits_prefix(digits: Seq<char>, radix: nat, limit: nat, n: int)
    requires
        0 <= n <= digits.len(),
        read_digits(digits.take(n), radix, limit) is Err,
    ensures
        read_digits(digits, radix, limit) == read_digits(digits.take(n), radix, limit),
    decreases digits.len() - n,
{
    if n < digits.len() {
        assert(digits.take(n + 1).drop_last() =~= digits.take(n));
        lemma_read_digits_prefix(digits, radix, limit, n + 1);
    } else {
        assert(digits.take(n) =~= digits);
    }
}

/// Reads digits without a sign.
pub fn parse_digits(digits: &[char], radix: u8, limit: u64) -> (result: Result<u64, NumberError>)
    requires
        2 <= radix <= 16,
    ensures
        result is Ok <==> read_digits(digits@, radix as nat, limit as nat) is Ok,
        result matches Ok(value) ==> read_digits(digits@, radix as nat, limit as nat) == Ok::<
            nat,
            NumberError,
        >(value as nat) && value <= limit,
        result matches Err(error) ==> read_digits(digits@, radix as nat, limit as nat) == Err::<
            nat,
            NumberError,
        >(error),
{
    let mut value: u64 = 0;
    let mut i: usize = 0;
    while i < digits.len()
        invariant
            i <= digits.len(),
            2 <= radix <= 16,
            value <= limit,
            read_digits(digits@.take(i as int), radix as nat, limit as nat) == Ok::<
                nat,
                NumberError,
            >(value as nat),
        decreases digits.len() - i,
    {
        proof {
            assert(digits@.take(i + 1).drop_last() =~= digits@.take(i as int));
        }
        match value_of_digit(digits[i], radix) {
            None => {
                proof {
                    lemma_read_digits_prefix(digits@, radix as nat, limit as nat, i + 1);
                }
                return Err(NumberError::InvalidDigit);
            },
            Some(digit) => {
                assert(value * radix <= u64::MAX * 16) by (nonlinear_arith)
                    requires
                        value <= u64::MAX,
                        radix <= 16,
                ;
                let next: u128 = value as u128 * radix as u128 + digit as u128;
                if next > limit as u128 {
                    proof {
                        lemma_read_digits_prefix(digits@, radix as nat, limit as nat, i + 1);
                    }
                    return Err(NumberError::TooLarge);
                }
                value = next as u64;
            },
        }
        i += 1;
    }
    assert(digits@.take(i as int) =~= digits@);
    Ok(value)
}

/// Reads an unsigned numeral with an optional plus sign.
pub fn parse_number(text: &[char], radix: u8, limit: u64) -> (result: Result<u64, NumberError>)
    requires
        2 <= radix <= 16,
    ensures
        result is Ok <==> read_number(text@, radix as nat, limit as nat) is Ok,
        result matches Ok(value) ==> read_number(text@, radix as nat, limit as nat) == Ok::<
            nat,
            NumberError,
        >(value as nat) && value <= limit,
        result matches Err(error) ==> read_number(text@, radix as nat, limit as nat) == Err::<
            nat,
            NumberError,
        >(error),
{
    if text.len() == 0 {
        return Err(NumberError::Empty);
    }
    if text.len() > 1 && text[0] == '+' {
        let digits = part(text, 1, text.len());
        assert(digits@ =~= text@.drop_first());
        parse_digits(&digits, radix, limit)
    } else {
        parse_digits(text, radix, limit)
    }
}

/// The number of bytes of a text in UTF-8.
pub open spec fn byte_len(text: Seq<char>) -> nat {
    vstd::utf8::encode_utf8(text).len()
}

/// Whether a text holds no control character below the space.
pub open spec fn printable(text: Seq<char>) -> bool {
    forall|i: int| 0 <= i < text.len() ==> 32 <= (#[trigger] text[i]) as u32
}

pub(crate) proof fn lemma_printable_join(first: Seq<char>, second: Seq<char>)
    requires
        printable(first),
        printable(second),
    ensures
        printable(first + second),
{
    let text = first + second;
    assert forall|i: int| 0 <= i < text.len() implies 32 <= (#[trigger] text[i]) as u32 by {
        if i < first.len() {
            assert(text[i] == first[i]);
        } else {
            assert(text[i] == second[i - first.len()]);
        }
    }
}

pub(crate) proof fn lemma_numeral_printable(n: nat, radix: nat)
    requires
        2 <= radix <= 16,
    ensures
        printable(numeral(n, radix)),
    decreases n,
{
    if n >= radix {
        assert(n / radix < n) by (nonlinear_arith)
            requires
                2 <= radix <= n,
        ;
        lemma_numeral_printable(n / radix, radix);
    }
}

/// No byte of a character above the control characters is a control character.
proof fn lemma_scalar_bytes(scalar: u32)
    by (bit_vector)
    requires
        32 <= scalar,
    ensures
        scalar <= 0x7f ==> 32 <= vstd::utf8::leading_byte_width_1(scalar),
        32 <= vstd::utf8::leading_byte_width_2(scalar),
        32 <= vstd::utf8::leading_byte_width_3(scalar),
        32 <= vstd::utf8::leading_byte_width_4(scalar),
        32 <= vstd::utf8::last_continuation_byte(scalar),
        32 <= vstd::utf8::second_last_continuation_byte(scalar),
        32 <= vstd::utf8::third_last_continuation_byte(scalar),
{
}

/// The bytes of a text without control characters hold none either.
pub(crate) proof fn lemma_printable_bytes(text: Seq<char>)
    requires
        printable(text),
    ensures
        forall|i: int|
            0 <= i < vstd::utf8::encode_utf8(text).len() ==> 32 <= #[trigger] vstd::utf8::encode_utf8(
                text,
            )[i],
    decreases text.len(),
{
    if text.len() > 0 {
        let rest = text.drop_first();
        assert forall|i: int| 0 <= i < rest.len() implies 32 <= (#[trigger] rest[i]) as u32 by {
            assert(rest[i] == text[i + 1]);
        }
        lemma_printable_bytes(rest);
        lemma_scalar_bytes(text[0] as u32);
        let head = vstd::utf8::encode_scalar(text[0] as u32);
        let tail = vstd::utf8::encode_utf8(rest);
        let bytes = vstd::utf8::encode_utf8(text);
        assert(bytes =~= head + tail);
        assert forall|i: int| 0 <= i < bytes.len() implies 32 <= #[trigger] bytes[i] by {
            if i < head.len() {
                assert(bytes[i] == head[i]);
            } else {
                assert(bytes[i] == tail[i - head.len()]);
            }
        }
    }
}

/// The bytes of two texts behind each other are those of the one behind those of the
/// other.
pub(crate) proof fn lemma_joined_bytes(front: Seq<char>, back: Seq<char>)
    ensures
        byte_len(front + back) == byte_len(front) + byte_len(back),
    decreases front.len(),
{
    let whole = front + back;
    if front.len() == 0 {
        assert(whole =~= back);
    } else {
        assert(whole.drop_first() =~= front.drop_first() + back);
        lemma_joined_bytes(front.drop_first(), back);
    }
}

/// A text of plain characters has a byte for each.
pub(crate) proof fn lemma_plain_bytes(text: Seq<char>)
    requires
        forall|i: int| 0 <= i < text.len() ==> '\0' <= #[trigger] text[i] <= '\u{7f}',
    ensures
        byte_len(text) == text.len(),
{
    assert(vstd::utf8::is_ascii_chars(text));
    vstd::utf8::is_ascii_chars_encode_utf8(text);
}

/// A decimal numeral of a 64-bit number has at most twenty bytes.
pub(crate) proof fn lemma_decimal_bytes(n: nat)
    requires
        n <= u64::MAX,
    ensures
        byte_len(decimal(n)) <= 20,
{
    assert(power_of_ten(20) == 100_000_000_000_000_000_000) by {
        reveal_with_fuel(power_of_ten, 21);
    }
    lemma_decimal_digits(n, 20);
    lemma_plain_bytes(decimal(n));
}

spec fn power_of_ten(k: nat) -> nat
    decreases k,
{
    if k == 0 {
        1
    } else {
        10 * power_of_ten((k - 1) as nat)
    }
}

proof fn lemma_decimal_digits(n: nat, k: nat)
    requires
        n < power_of_ten(k),
        k > 0,
    ensures
        decimal(n).len() <= k,
        forall|i: int| 0 <= i < decimal(n).len() ==> '\0' <= #[trigger] decimal(n)[i]
            <= '\u{7f}',
    decreases k,
{
    reveal(decimal);
    if n >= 10 {
        assert(k > 1) by {
            reveal_with_fuel(power_of_ten, 2);
        }
        lemma_decimal_digits(n / 10, (k - 1) as nat);
        assert(decimal(n) == decimal(n / 10).push(digit_char((n % 10) as int)));
    } else {
        assert(decimal(n) == seq![digit_char(n as int)]);
    }
}

/// The hexadecimal text of bytes has two bytes for each.
pub(crate) proof fn lemma_hex_bytes(bytes: Seq<u8>)
    ensures
        byte_len(hex_of(bytes)) == 2 * bytes.len(),
{
    lemma_hex_digits(bytes);
    lemma_plain_bytes(hex_of(bytes));
}

proof fn lemma_hex_digits(bytes: Seq<u8>)
    ensures
        hex_of(bytes).len() == 2 * bytes.len(),
        forall|i: int| 0 <= i < hex_of(bytes).len() ==> '\0' <= #[trigger] hex_of(bytes)[i]
            <= '\u{7f}',
    decreases bytes.len(),
{
    if bytes.len() > 0 {
        lemma_hex_digits(bytes.drop_last());
    }
}

/// A line feed behind a text is one byte behind its bytes.
pub(crate) proof fn lemma_line_bytes(text: Seq<char>)
    ensures
        vstd::utf8::encode_utf8(text.push('\n')) == vstd::utf8::encode_utf8(text).push(10),
    decreases text.len(),
{
    let line = text.push('\n');
    if text.len() == 0 {
        assert(line.drop_first() =~= Seq::<char>::empty());
        assert(vstd::utf8::leading_byte_width_1(10) == 10) by (bit_vector);
        reveal_with_fuel(vstd::utf8::encode_utf8, 2);
        assert(vstd::utf8::encode_utf8(line) =~= seq![10u8]);
        assert(vstd::utf8::encode_utf8(text).push(10) =~= seq![10u8]);
    } else {
        let rest = text.drop_first();
        lemma_line_bytes(rest);
        assert(line.drop_first() =~= rest.push('\n'));
        let head = vstd::utf8::encode_scalar(text[0] as u32);
        assert(head + vstd::utf8::encode_utf8(rest).push(10) =~= (head
            + vstd::utf8::encode_utf8(rest)).push(10));
    }
}

/// A text cut off after some characters.
pub open spec fn shortened(text: Seq<char>, limit: nat) -> Seq<char> {
    if text.len() > limit {
        text.take(limit as int)
    } else {
        text
    }
}

/// Cuts a text off after some characters.
pub fn shorten(text: &str, limit: usize) -> (result: String)
    ensures
        result@ == shortened(text@, limit as nat),
{
    let chars = chars_of(text);
    if chars.len() > limit {
        let front = part(chars.as_slice(), 0, limit);
        assert(front@ =~= text@.take(limit as int));
        string_of(front.as_slice())
    } else {
        text.to_owned()
    }
}

/// What a character is worth as a digit: 16 if it is none.
pub open spec fn worth(c: char) -> int {
    let code = c as int;
    if 48 <= code <= 57 {
        code - 48
    } else if 65 <= code <= 70 {
        code - 55
    } else if 97 <= code <= 102 {
        code - 87
    } else {
        16
    }
}

/// The number that digits come to, each place worth `radix` times the one after it.
pub open spec fn amount(digits: Seq<char>, radix: nat) -> int
    decreases digits.len(),
{
    if digits.len() == 0 {
        0
    } else {
        amount(digits.drop_last(), radix) * radix + worth(digits.last())
    }
}

/// Whether a text consists of digits of base `radix`.
pub open spec fn of_digits(text: Seq<char>, radix: nat) -> bool {
    forall|i: int| 0 <= i < text.len() ==> worth(#[trigger] text[i]) < radix
}

pub(crate) proof fn lemma_amounts(digits: Seq<char>, radix: nat, limit: nat)
    requires
        2 <= radix <= 16,
    ensures
        amount(digits, radix) >= 0,
        read_digits(digits, radix, limit) is Ok <==> of_digits(digits, radix) && amount(
            digits,
            radix,
        ) <= limit,
        read_digits(digits, radix, limit) matches Ok(n) ==> n == amount(digits, radix),
        of_digits(digits, radix) && amount(digits, radix) > limit ==> read_digits(
            digits,
            radix,
            limit,
        ) == Err::<nat, NumberError>(NumberError::TooLarge),
    decreases digits.len(),
{
    if digits.len() > 0 {
        let front = digits.drop_last();
        lemma_amounts(front, radix, limit);
        let value = amount(front, radix);
        assert(value * radix >= value) by (nonlinear_arith)
            requires
                value >= 0,
                radix >= 2,
        ;
        if of_digits(digits, radix) {
            assert forall|i: int| 0 <= i < front.len() implies worth(#[trigger] front[i]) < radix by {
                assert(front[i] == digits[i]);
            }
        }
        if of_digits(front, radix) && worth(digits.last()) < radix {
            assert forall|i: int| 0 <= i < digits.len() implies worth(#[trigger] digits[i])
                < radix by {
                if i < front.len() {
                    assert(front[i] == digits[i]);
                }
            }
        }
        assert(worth(digits.last()) == worth(digits[digits.len() - 1]));
    }
}

/// A numeral is read exactly where it has digits of its base, after one plus sign at most,
/// that come to no more than is allowed; it is read as what they come to. One without any
/// character is empty, and one whose digits come to more is too large.
pub proof fn numbers_are_sums_of_their_digits(text: Seq<char>, radix: nat, limit: nat)
    requires
        2 <= radix <= 16,
    ensures
        ({
            let digits = if text.len() >= 2 && text[0] == '+' {
                text.skip(1)
            } else {
                text
            };
            let read = read_number(text, radix, limit);
            &&& text.len() == 0 <==> read == Err::<nat, NumberError>(NumberError::Empty)
            &&& read is Ok <==> text.len() > 0 && of_digits(digits, radix) && amount(digits, radix)
                <= limit
            &&& read matches Ok(n) ==> n == amount(digits, radix)
            &&& text.len() > 0 && of_digits(digits, radix) && amount(digits, radix) > limit
                ==> read == Err::<nat, NumberError>(NumberError::TooLarge)
        }),
{
    let digits = unsigned_part(text);
    lemma_amounts(digits, radix, limit);
    if text.len() >= 2 && text[0] == '+' {
        assert(text.skip(1) =~= text.drop_first());
    }
    lemma_never_empty(digits, radix, limit);
}

proof fn lemma_never_empty(digits: Seq<char>, radix: nat, limit: nat)
    ensures
        read_digits(digits, radix, limit) != Err::<nat, NumberError>(NumberError::Empty),
    decreases digits.len(),
{
    if digits.len() > 0 {
        lemma_never_empty(digits.drop_last(), radix, limit);
    }
}

/// A numeral is written with the digits that come to its number, in lower case and
/// without zeros before them.
pub proof fn numerals_come_to_their_number(n: nat, radix: nat)
    requires
        2 <= radix <= 16,
    ensures
        amount(numeral(n, radix), radix) == n,
        numeral(n, radix).len() >= 1,
        n > 0 ==> numeral(n, radix)[0] != '0',
        forall|i: int|
            0 <= i < numeral(n, radix).len() ==> worth(#[trigger] numeral(n, radix)[i]) < radix
                && !('A' <= numeral(n, radix)[i] <= 'F'),
    decreases n,
{
    let text = numeral(n, radix);
    if n < radix {
        assert(text =~= seq![digit_char(n as int)]);
        assert(text.drop_last() =~= Seq::empty());
        assert(amount(text.drop_last(), radix) == 0);
        assert(0 * radix == 0) by (nonlinear_arith);
    } else {
        assert(n / radix < n && n == (n / radix) * radix + n % radix && 0 < n / radix && n % radix
            < radix) by (nonlinear_arith)
            requires
                2 <= radix <= n,
        ;
        numerals_come_to_their_number(n / radix, radix);
        let front = numeral(n / radix, radix);
        assert(text.drop_last() =~= front);
        assert(worth(digit_char((n % radix) as int)) == n % radix);
        assert forall|i: int| 0 <= i < text.len() implies worth(#[trigger] text[i]) < radix && !(
        'A' <= text[i] <= 'F') by {
            if i < front.len() {
                assert(text[i] == front[i]);
            }
        }
        assert(text[0] == front[0]);
    }
}

/// Bytes are written with two digits each, the upper half first, in lower case.
pub proof fn bytes_are_written_in_halves(bytes: Seq<u8>)
    ensures
        hex_of(bytes).len() == 2 * bytes.len(),
        forall|i: int|
            0 <= i < bytes.len() ==> 16 * worth(hex_of(bytes)[2 * i]) + worth(
                hex_of(bytes)[2 * i + 1],
            ) == #[trigger] bytes[i],
        forall|i: int|
            0 <= i < hex_of(bytes).len() ==> '0' <= #[trigger] hex_of(bytes)[i] <= '9' || 'a'
                <= hex_of(bytes)[i] <= 'f',
    decreases bytes.len(),
{
    if bytes.len() > 0 {
        let front = bytes.drop_last();
        bytes_are_written_in_halves(front);
        let text = hex_of(bytes);
        let before = hex_of(front);
        assert(text.len() == before.len() + 2);
        assert forall|i: int| 0 <= i < bytes.len() implies 16 * worth(text[2 * i]) + worth(
            text[2 * i + 1],
        ) == #[trigger] bytes[i] by {
            if i < front.len() {
                assert(front[i] == bytes[i]);
                assert(text[2 * i] == before[2 * i] && text[2 * i + 1] == before[2 * i + 1]);
            }
        }
        assert forall|i: int| 0 <= i < text.len() implies '0' <= #[trigger] text[i] <= '9' || 'a'
            <= text[i] <= 'f' by {
            if i < before.len() {
                assert(text[i] == before[i]);
            }
        }
    }
}

/// The characters that have the Unicode property of white space.
pub open spec fn spacing(c: char) -> bool {
    seq![
        0x09int, 0x0a, 0x0b, 0x0c, 0x0d, 0x20, 0x85, 0xa0, 0x1680, 0x2000, 0x2001, 0x2002,
        0x2003, 0x2004, 0x2005, 0x2006, 0x2007, 0x2008, 0x2009, 0x200a, 0x2028, 0x2029, 0x202f,
        0x205f, 0x3000,
    ].contains(c as int)
}

proof fn lemma_spacing(c: char)
    ensures
        spacing(c) == white_space(c),
{
    let codes = seq![
        0x09int, 0x0a, 0x0b, 0x0c, 0x0d, 0x20, 0x85, 0xa0, 0x1680, 0x2000, 0x2001, 0x2002,
        0x2003, 0x2004, 0x2005, 0x2006, 0x2007, 0x2008, 0x2009, 0x200a, 0x2028, 0x2029, 0x202f,
        0x205f, 0x3000,
    ];
    let code = c as int;
    if white_space(c) {
        let k = if 0x09 <= code <= 0x0d {
            code - 0x09
        } else if code == 0x20 {
            5
        } else if code == 0x85 {
            6
        } else if code == 0xa0 {
            7
        } else if code == 0x1680 {
            8
        } else if 0x2000 <= code <= 0x200a {
            code - 0x2000 + 9
        } else if code == 0x2028 {
            20
        } else if code == 0x2029 {
            21
        } else if code == 0x202f {
            22
        } else if code == 0x205f {
            23
        } else {
            24
        };
        assert(codes[k] == code);
    }
}

proof fn lemma_start_trimmed(text: Seq<char>)
    ensures
        exists|k: int|
            0 <= k <= text.len() && trim_start(text) == #[trigger] text.skip(k) && forall|i: int|
                0 <= i < k ==> white_space(#[trigger] text[i]),
    decreases text.len(),
{
    if text.len() > 0 && white_space(text[0]) {
        let rest = text.drop_first();
        lemma_start_trimmed(rest);
        let k = choose|k: int|
            0 <= k <= rest.len() && trim_start(rest) == #[trigger] rest.skip(k) && forall|i: int|
                0 <= i < k ==> white_space(#[trigger] rest[i]);
        assert(text.skip(k + 1) =~= rest.skip(k));
        assert forall|i: int| 0 <= i < k + 1 implies white_space(#[trigger] text[i]) by {
            if i > 0 {
                assert(rest[i - 1] == text[i]);
            }
        }
    } else {
        assert(text.skip(0) =~= text);
    }
}

proof fn lemma_end_trimmed(text: Seq<char>)
    ensures
        trim_end(text).len() <= text.len(),
        trim_end(text) == text.take(trim_end(text).len() as int),
        forall|i: int| trim_end(text).len() <= i < text.len() ==> white_space(#[trigger] text[i]),
    decreases text.len(),
{
    if text.len() > 0 && white_space(text.last()) {
        let front = text.drop_last();
        lemma_end_trimmed(front);
        let n = trim_end(front).len() as int;
        assert(text.take(n) =~= front.take(n));
        assert forall|i: int| n <= i < text.len() implies white_space(#[trigger] text[i]) by {
            if i < front.len() {
                assert(front[i] == text[i]);
            }
        }
    } else {
        assert(text.take(text.len() as int) =~= text);
    }
}

/// Trimming takes away the white space before the first other character and after the
/// last one, and nothing else.
pub proof fn trimming_takes_only_white_space(text: Seq<char>)
    ensures
        exists|k: int|
            {
                let left = trim(text);
                &&& 0 <= k && k + left.len() <= text.len()
                &&& left == (#[trigger] text.skip(k)).take(left.len() as int)
                &&& forall|i: int|
                    0 <= i < text.len() && !(k <= i < k + left.len()) ==> spacing(#[trigger] text[i])
                &&& left.len() > 0 ==> !spacing(left[0]) && !spacing(left.last())
            },
{
    let started = trim_start(text);
    let left = trim(text);
    lemma_start_trimmed(text);
    lemma_trim_start(text);
    lemma_trim_end(started);
    lemma_end_trimmed(started);
    let k = choose|k: int|
        0 <= k <= text.len() && started == #[trigger] text.skip(k) && forall|i: int|
            0 <= i < k ==> white_space(#[trigger] text[i]);
    assert(text.skip(k).take(left.len() as int) =~= left);
    assert forall|i: int| 0 <= i < text.len() && !(k <= i < k + left.len()) implies spacing(
        #[trigger] text[i],
    ) by {
        lemma_spacing(text[i]);
        if i >= k + left.len() {
            assert(started[i - k] == text[i]);
        }
    }
    if left.len() > 0 {
        lemma_spacing(left[0]);
        lemma_spacing(left.last());
        assert(left[0] == started[0]);
    }
}

/// A text that is cut off keeps its beginning, and all of it where it is short enough.
pub proof fn cut_texts_keep_their_beginning(text: Seq<char>, limit: nat)
    ensures
        shortened(text, limit).len() == if text.len() < limit {
            text.len()
        } else {
            limit
        },
        forall|i: int|
            0 <= i < shortened(text, limit).len() ==> #[trigger] shortened(text, limit)[i]
                == text[i],
{
}

/// The first place of a character is the only one with the character and without it
/// before; it is the end of a text without it.
pub proof fn first_places_are_found(hay: Seq<char>, needle: char)
    ensures
        0 <= first_index(hay, needle) <= hay.len(),
        first_index(hay, needle) < hay.len() ==> hay[first_index(hay, needle)] == needle,
        forall|j: int| 0 <= j < first_index(hay, needle) ==> hay[j] != needle,
    decreases hay.len(),
{
    if hay.len() > 0 && hay[0] != needle {
        let rest = hay.drop_first();
        first_places_are_found(rest, needle);
        assert forall|j: int| 0 <= j < first_index(hay, needle) implies hay[j] != needle by {
            if j > 0 {
                assert(rest[j - 1] == hay[j]);
            }
        }
    }
}

} // verus!
