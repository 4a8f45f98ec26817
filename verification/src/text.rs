//! Text as a sequence of characters: trimming, letter case, decimal numbers.

use vstd::prelude::*;
use vstd::string::*;

verus! {

/// The characters with the Unicode property `White_Space`.
pub open spec fn white_space(c: char) -> bool {
    let n = c as u32;
    ||| 0x09 <= n <= 0x0d
    ||| n == 0x20
    ||| n == 0x85
    ||| n == 0xa0
    ||| n == 0x1680
    ||| 0x2000 <= n <= 0x200a
    ||| n == 0x2028
    ||| n == 0x2029
    ||| n == 0x202f
    ||| n == 0x205f
    ||| n == 0x3000
}

/// The text without the white space at its start.
pub open spec fn trimmed_start(text: Seq<char>) -> Seq<char>
    decreases text.len(),
{
    if text.len() > 0 && white_space(text[0]) {
        trimmed_start(text.drop_first())
    } else {
        text
    }
}

/// The text without the white space at its end.
pub open spec fn trimmed_end(text: Seq<char>) -> Seq<char>
    decreases text.len(),
{
    if text.len() > 0 && white_space(text.last()) {
        trimmed_end(text.drop_last())
    } else {
        text
    }
}

/// The text without the white space around it.
pub open spec fn trimmed(text: Seq<char>) -> Seq<char> {
    trimmed_end(trimmed_start(text))
}

/// The letter `a` to `z` for `A` to `Z`; any other character unchanged.
pub open spec fn lower(c: char) -> char {
    if 'A' <= c <= 'Z' {
        ((c as u8) + 32) as u8 as char
    } else {
        c
    }
}

/// The text with `lower` applied to each character.
pub open spec fn lowered(text: Seq<char>) -> Seq<char> {
    text.map_values(|c: char| lower(c))
}

pub open spec fn is_digit(c: char) -> bool {
    '0' <= c <= '9'
}

pub open spec fn digit_value(c: char) -> int {
    c as int - '0' as int
}

pub open spec fn all_digits(text: Seq<char>) -> bool {
    forall|i: int| 0 <= i < text.len() ==> is_digit(#[trigger] text[i])
}

/// The number that a text of decimal digits stands for.
pub open spec fn decimal_value(text: Seq<char>) -> int
    decreases text.len(),
{
    if text.len() == 0 {
        0
    } else {
        decimal_value(text.drop_last()) * 10 + digit_value(text.last())
    }
}

/// The digits of a number that may have a plus sign before it.
pub open spec fn unsigned_digits(text: Seq<char>) -> Seq<char> {
    if text.len() > 0 && text[0] == '+' {
        text.drop_first()
    } else {
        text
    }
}

/// The 16-bit number that a text stands for: decimal digits, perhaps after a plus sign.
pub open spec fn parsed_u16(text: Seq<char>) -> Option<u16> {
    let digits = unsigned_digits(text);
    if digits.len() > 0 && all_digits(digits) && decimal_value(digits) <= 0xffff {
        Some(decimal_value(digits) as u16)
    } else {
        None
    }
}

/// The decimal digits of a number.
pub open spec fn decimal_text(n: nat) -> Seq<char>
    decreases n,
{
    if n < 10 {
        seq![digit_char(n as int)]
    } else {
        decimal_text(n / 10).push(digit_char((n % 10) as int))
    }
}

pub open spec fn digit_char(d: int) -> char {
    (('0' as u8) + d) as u8 as char
}

/// The parts of a text between the given separators.
pub open spec fn split_at(text: Seq<char>, separator: char) -> Seq<Seq<char>>
    decreases text.len(),
{
    if text.len() == 0 {
        seq![Seq::empty()]
    } else {
        let before = split_at(text.drop_last(), separator);
        if text.last() == separator {
            before.push(Seq::empty())
        } else {
            before.drop_last().push(before.last().push(text.last()))
        }
    }
}

/// The characters of a string.
pub fn chars_of(text: &str) -> (r: Vec<char>)
    ensures
        r@ == text@,
{
    let mut chars: Vec<char> = Vec::new();
    for c in iter: text.chars()
        invariant
            iter.seq() == text@,
            chars@ == text@.take(iter.index()),
    {
        chars.push(c);
        assert(chars@ =~= text@.take(iter.index() + 1));
    }
    assert(text@.take(text@.len() as int) =~= text@);
    chars
}

/// Whether the characters are those of a string.
pub fn is_text(chars: &Vec<char>, text: &str) -> (r: bool)
    ensures
        r == (chars@ == text@),
{
    let other = chars_of(text);
    if chars.len() != other.len() {
        return false;
    }
    let mut i: usize = 0;
    while i < chars.len()
        invariant
            i <= chars@.len(),
            chars@.len() == other@.len(),
            other@ == text@,
            forall|k: int| 0 <= k < i ==> chars@[k] == other@[k],
        decreases chars@.len() - i,
    {
        if chars[i] != other[i] {
            assert(chars@[i as int] != other@[i as int]);
            return false;
        }
        i += 1;
    }
    assert(chars@ =~= other@);
    true
}

fn is_white_space(c: char) -> (r: bool)
    ensures
        r == white_space(c),
{
    let n: u32 = c as u32;
    (0x09 <= n && n <= 0x0d) || n == 0x20 || n == 0x85 || n == 0xa0 || n == 0x1680 || (0x2000 <= n
        && n <= 0x200a) || n == 0x2028 || n == 0x2029 || n == 0x202f || n == 0x205f || n == 0x3000
}

fn to_lower(c: char) -> (r: char)
    ensures
        r == lower(c),
{
    if 'A' <= c && c <= 'Z' {
        ((c as u8) + 32) as char
    } else {
        c
    }
}

proof fn lemma_trimmed_start_at(text: Seq<char>, k: int)
    requires
        0 <= k <= text.len(),
        forall|i: int| 0 <= i < k ==> white_space(#[trigger] text[i]),
        k == text.len() || !white_space(text[k]),
    ensures
        trimmed_start(text) == text.skip(k),
    decreases k,
{
    if k == 0 {
        assert(text.skip(0) =~= text);
    } else {
        let rest = text.drop_first();
        assert forall|i: int| 0 <= i < k - 1 implies white_space(#[trigger] rest[i]) by {
            assert(rest[i] == text[i + 1]);
        }
        assert(white_space(text[0]));
        lemma_trimmed_start_at(rest, k - 1);
        assert(rest.skip(k - 1) =~= text.skip(k));
    }
}

proof fn lemma_trimmed_end_at(text: Seq<char>, k: int)
    requires
        0 <= k <= text.len(),
        forall|i: int| k <= i < text.len() ==> white_space(#[trigger] text[i]),
        k == 0 || !white_space(text[k - 1]),
    ensures
        trimmed_end(text) == text.take(k),
    decreases text.len() - k,
{
    if k == text.len() {
        assert(text.take(k) =~= text);
    } else {
        let rest = text.drop_last();
        assert(white_space(text[text.len() - 1]));
        lemma_trimmed_end_at(rest, k);
        assert(rest.take(k) =~= text.take(k));
    }
}

/// The characters without the white space around them, in lower case.
pub fn trim_and_lower(chars: &Vec<char>) -> (r: Vec<char>)
    ensures
        r@ == lowered(trimmed(chars@)),
{
    let kept = trim(chars);
    let mut out: Vec<char> = Vec::new();
    let mut i: usize = 0;
    while i < kept.len()
        invariant
            i <= kept@.len(),
            out@ == lowered(kept@.take(i as int)),
        decreases kept@.len() - i,
    {
        out.push(to_lower(kept[i]));
        assert(out@ =~= lowered(kept@.take(i + 1)));
        i += 1;
    }
    assert(kept@.take(kept@.len() as int) =~= kept@);
    out
}

proof fn lemma_decimal_grows(digits: Seq<char>, k: int)
    requires
        0 <= k <= digits.len(),
        all_digits(digits),
        decimal_value(digits.take(k)) > 0xffff,
    ensures
        decimal_value(digits) > 0xffff,
    decreases digits.len(),
{
    if k == digits.len() {
        assert(digits.take(k) =~= digits);
    } else {
        let inner = digits.drop_last();
        assert(inner.take(k) =~= digits.take(k));
        assert(all_digits(inner));
        lemma_decimal_grows(inner, k);
        assert(is_digit(digits[digits.len() - 1]));
    }
}

/// Reads the characters from `from` on as a 16-bit decimal number.
pub fn parse_u16(chars: &Vec<char>, from: usize) -> (r: Option<u16>)
    requires
        from <= chars@.len(),
    ensures
        r == parsed_u16(chars@.skip(from as int)),
{
    let ghost text = chars@.skip(from as int);
    let ghost digits = unsigned_digits(text);
    let start: usize = if from < chars.len() && chars[from] == '+' {
        from + 1
    } else {
        from
    };
    proof {
        if from < chars@.len() {
            assert(text[0] == chars@[from as int]);
        }
        assert(digits =~= chars@.skip(start as int));
    }
    if start == chars.len() {
        return None;
    }
    let mut value: u32 = 0;
    let mut i: usize = start;
    assert(digits.take(0) =~= Seq::<char>::empty());
    while i < chars.len()
        invariant
            start <= i <= chars@.len(),
            digits == chars@.skip(start as int),
            digits == unsigned_digits(text),
            text == chars@.skip(from as int),
            all_digits(digits.take(i - start)),
            value == decimal_value(digits.take(i - start)),
            value <= 0xffff,
        decreases chars@.len() - i,
    {
        let c = chars[i];
        assert(digits[i - start] == c);
        if !('0' <= c && c <= '9') {
            assert(!is_digit(digits[i - start]));
            return None;
        }
        proof {
            let grown = digits.take(i + 1 - start);
            assert(grown.drop_last() =~= digits.take(i - start));
            assert(grown.last() == c);
            assert(all_digits(grown)) by {
                assert forall|k: int| 0 <= k < grown.len() implies is_digit(#[trigger] grown[k]) by {
                    if k < i - start {
                        assert(grown[k] == digits.take(i - start)[k]);
                    }
                }
            }
        }
        value = value * 10 + (c as u32 - '0' as u32);
        i += 1;
        if value > 0xffff {
            proof {
                if all_digits(digits) {
                    lemma_decimal_grows(digits, i - start);
                }
            }
            return None;
        }
    }
    assert(digits.take(i - start) =~= digits);
    Some(value as u16)
}

/// The text of one decimal digit.
fn digit_text(d: u64) -> (r: &'static str)
    requires
        d < 10,
    ensures
        r@ == seq![digit_char(d as int)],
{
    proof {
        reveal_strlit("0123456789");
    }
    let r = "0123456789".substring_char(d as usize, (d + 1) as usize);
    assert(r@ =~= seq![digit_char(d as int)]);
    r
}

/// Appends the decimal digits of a number.
pub fn append_decimal(out: &mut String, n: u64)
    ensures
        final(out)@ == old(out)@ + decimal_text(n as nat),
    decreases n,
{
    if n < 10 {
        out.append(digit_text(n));
    } else {
        append_decimal(out, n / 10);
        out.append(digit_text(n % 10));
        assert(out@ =~= old(out)@ + decimal_text(n as nat));
    }
}

/// The parts one after the other, with the separator between them.
pub open spec fn joined(parts: Seq<Seq<char>>, separator: Seq<char>) -> Seq<char>
    decreases parts.len(),
{
    if parts.len() == 0 {
        Seq::empty()
    } else if parts.len() == 1 {
        parts[0]
    } else {
        joined(parts.drop_last(), separator) + separator + parts.last()
    }
}

/// The characters without the white space around them.
pub fn trim(chars: &Vec<char>) -> (r: Vec<char>)
    ensures
        r@ == trimmed(chars@),
{
    let mut from: usize = 0;
    while from < chars.len() && is_white_space(chars[from])
        invariant
            from <= chars@.len(),
            forall|i: int| 0 <= i < from ==> white_space(#[trigger] chars@[i]),
        decreases chars@.len() - from,
    {
        from += 1;
    }
    let ghost rest = chars@.skip(from as int);
    let mut to: usize = chars.len();
    while to > from && is_white_space(chars[to - 1])
        invariant
            from <= to <= chars@.len(),
            forall|i: int| to <= i < chars@.len() ==> white_space(#[trigger] chars@[i]),
        decreases to,
    {
        to -= 1;
    }
    proof {
        lemma_trimmed_start_at(chars@, from as int);
        assert forall|i: int| to - from <= i < rest.len() implies white_space(#[trigger] rest[i]) by {
            assert(rest[i] == chars@[i + from]);
        }
        lemma_trimmed_end_at(rest, to - from);
    }
    let ghost kept = rest.take(to - from);
    let mut out: Vec<char> = Vec::new();
    let mut i: usize = from;
    while i < to
        invariant
            from <= i <= to <= chars@.len(),
            kept == chars@.skip(from as int).take(to - from),
            out@ == kept.take(i - from),
        decreases to - i,
    {
        out.push(chars[i]);
        assert(out@ =~= kept.take(i + 1 - from));
        i += 1;
    }
    assert(kept.take(to - from) =~= kept);
    out
}

/// Whether the characters are those of a string, but for the case of the letters `a` to `z`.
pub fn is_text_in_any_case(chars: &Vec<char>, text: &str) -> (r: bool)
    ensures
        r == (lowered(chars@) == lowered(text@)),
{
    let other = chars_of(text);
    if chars.len() != other.len() {
        assert(lowered(chars@).len() != lowered(text@).len());
        return false;
    }
    let mut i: usize = 0;
    while i < chars.len()
        invariant
            i <= chars@.len(),
            chars@.len() == other@.len(),
            other@ == text@,
            forall|k: int| 0 <= k < i ==> lower(chars@[k]) == lower(other@[k]),
        decreases chars@.len() - i,
    {
        if to_lower(chars[i]) != to_lower(other[i]) {
            assert(lowered(chars@)[i as int] != lowered(text@)[i as int]);
            return false;
        }
        i += 1;
    }
    assert(lowered(chars@) =~= lowered(text@));
    true
}

/// The part of a text behind the last separator; the whole text without one.
pub open spec fn last_part(text: Seq<char>, separator: char) -> Seq<char>
    decreases text.len(),
{
    if text.len() == 0 || text.last() == separator {
        Seq::empty()
    } else {
        last_part(text.drop_last(), separator).push(text.last())
    }
}

/// The part of a text behind the last separator; the whole text without one.
pub fn after_last(chars: &Vec<char>, separator: char) -> (r: Vec<char>)
    ensures
        r@ == last_part(chars@, separator),
{
    let mut out: Vec<char> = Vec::new();
    let mut i: usize = 0;
    assert(last_part(chars@.take(0), separator) =~= Seq::<char>::empty());
    while i < chars.len()
        invariant
            i <= chars@.len(),
            out@ == last_part(chars@.take(i as int), separator),
        decreases chars@.len() - i,
    {
        assert(chars@.take(i + 1).drop_last() =~= chars@.take(i as int));
        if chars[i] == separator {
            out = Vec::new();
        } else {
            out.push(chars[i]);
        }
        assert(out@ =~= last_part(chars@.take(i + 1), separator));
        i += 1;
    }
    assert(chars@.take(chars@.len() as int) =~= chars@);
    out
}

proof fn lemma_start_is_trimmed(text: Seq<char>) -> (k: int)
    ensures
        0 <= k <= text.len(),
        forall|i: int| 0 <= i < k ==> white_space(#[trigger] text[i]),
        k < text.len() ==> !white_space(text[k]),
        trimmed_start(text) == text.skip(k),
    decreases text.len(),
{
    if text.len() > 0 && white_space(text[0]) {
        let rest = text.drop_first();
        let k = lemma_start_is_trimmed(rest);
        assert forall|i: int| 0 <= i < k + 1 implies white_space(#[trigger] text[i]) by {
            if i > 0 {
                assert(text[i] == rest[i - 1]);
            }
        }
        assert(rest.skip(k) =~= text.skip(k + 1));
        k + 1
    } else {
        assert(text.skip(0) =~= text);
        0
    }
}

proof fn lemma_end_is_trimmed(text: Seq<char>) -> (k: int)
    ensures
        0 <= k <= text.len(),
        forall|i: int| k <= i < text.len() ==> white_space(#[trigger] text[i]),
        k > 0 ==> !white_space(text[k - 1]),
        trimmed_end(text) == text.take(k),
    decreases text.len(),
{
    if text.len() > 0 && white_space(text.last()) {
        let rest = text.drop_last();
        let k = lemma_end_is_trimmed(rest);
        assert(rest.take(k) =~= text.take(k));
        assert forall|i: int| k <= i < text.len() implies white_space(#[trigger] text[i]) by {
            if i < rest.len() {
                assert(text[i] == rest[i]);
            }
        }
        k
    } else {
        assert(text.take(text.len() as int) =~= text);
        text.len() as int
    }
}

/// Trimming takes the white space before and behind a text, all of it and nothing else: what is
/// left is a stretch of the text that neither begins nor ends with white space.
pub proof fn trimming_takes_the_white_space_around(text: Seq<char>)
    ensures
        exists|from: int, to: int|
            0 <= from <= to <= text.len() && trimmed(text) == #[trigger] text.subrange(from, to)
                && (forall|i: int|
                0 <= i < text.len() && (i < from || to <= i) ==> white_space(#[trigger] text[i])),
        trimmed(text).len() > 0 ==> !white_space(trimmed(text)[0]) && !white_space(
            trimmed(text).last(),
        ),
        trimmed(trimmed(text)) == trimmed(text),
{
    let from = lemma_start_is_trimmed(text);
    let rest = text.skip(from);
    let kept = lemma_end_is_trimmed(rest);
    let to = from + kept;
    assert(rest.take(kept) =~= text.subrange(from, to));
    assert forall|i: int| 0 <= i < text.len() && (i < from || to <= i) implies white_space(
        #[trigger] text[i],
    ) by {
        if to <= i {
            assert(text[i] == rest[i - from]);
        }
    }
    let left = trimmed(text);
    if left.len() > 0 {
        assert(left[0] == text[from]);
        assert(left.last() == rest[kept - 1]);
    }
}

/// Blanks, tabs and the ends of lines are white space; no letter, digit or sign of ASCII is.
pub proof fn signs_are_no_white_space(c: char)
    ensures
        c == ' ' || c == '\t' || c == '\n' || c == '\r' ==> white_space(c),
        0x21 <= c as u32 <= 0x7e ==> !white_space(c),
        c as u32 > 0x3000 ==> !white_space(c),
{
}

/// Lower case changes the letters `A` to `Z` and nothing else: each to the letter of the same
/// place among `a` to `z`. Doing it twice is doing it once.
pub proof fn lower_case_changes_capitals_only(text: Seq<char>, i: int)
    requires
        0 <= i < text.len(),
    ensures
        lowered(text).len() == text.len(),
        'A' <= text[i] <= 'Z' ==> lowered(text)[i] as int - 'a' as int == text[i] as int
            - 'A' as int,
        !('A' <= text[i] <= 'Z') ==> lowered(text)[i] == text[i],
        lowered(lowered(text)) == lowered(text),
{
    assert forall|k: int| 0 <= k < text.len() implies lower(lower(#[trigger] text[k])) == lower(
        text[k],
    ) by {
        assert('A' <= text[k] <= 'Z' ==> lower(text[k]) as int == text[k] as int + 32);
    }
    assert(lowered(lowered(text)) =~= lowered(text));
}

proof fn lemma_split_parts(text: Seq<char>, separator: char)
    ensures
        split_at(text, separator).len() > 0,
        forall|i: int, j: int|
            0 <= i < split_at(text, separator).len() && 0 <= j < split_at(text, separator)[i].len()
                ==> #[trigger] split_at(text, separator)[i][j] != separator,
        joined(split_at(text, separator), seq![separator]) == text,
    decreases text.len(),
{
    let parts = split_at(text, separator);
    if text.len() == 0 {
        assert(joined(parts, seq![separator]) =~= text);
    } else {
        let before = split_at(text.drop_last(), separator);
        lemma_split_parts(text.drop_last(), separator);
        if text.last() == separator {
            assert(parts.drop_last() =~= before);
            assert forall|i: int, j: int|
                0 <= i < parts.len() && 0 <= j < parts[i].len() implies #[trigger] parts[i][j]
                != separator by {
                assert(parts[i] == before[i]);
                assert(before[i][j] != separator);
            }
            assert(joined(parts, seq![separator]) =~= text);
        } else {
            assert(parts.drop_last() =~= before.drop_last());
            assert(joined(parts, seq![separator]) =~= joined(before, seq![separator]).push(
                text.last(),
            ));
            assert(joined(parts, seq![separator]) =~= text);
            assert forall|i: int, j: int|
                0 <= i < parts.len() && 0 <= j < parts[i].len() implies #[trigger] parts[i][j]
                != separator by {
                if i < before.len() - 1 {
                    assert(parts[i] == before[i]);
                    assert(before[i][j] != separator);
                } else if j < before.last().len() {
                    assert(parts[i][j] == before[i][j]);
                }
            }
        }
    }
}

/// Splitting a text loses nothing but the separators, and leaves none: the parts hold no
/// separator, and with separators between them they are the text again.
pub proof fn splitting_is_undone_by_joining(text: Seq<char>, separator: char, i: int, j: int)
    ensures
        split_at(text, separator).len() > 0,
        joined(split_at(text, separator), seq![separator]) == text,
        0 <= i < split_at(text, separator).len() && 0 <= j < split_at(text, separator)[i].len()
            ==> split_at(text, separator)[i][j] != separator,
{
    lemma_split_parts(text, separator);
}

pub(crate) proof fn lemma_decimal_digits(n: nat)
    ensures
        decimal_text(n).len() > 0,
        all_digits(decimal_text(n)),
        decimal_value(decimal_text(n)) == n,
    decreases n,
{
    let digits = decimal_text(n);
    if n < 10 {
        assert(digits.drop_last() =~= Seq::<char>::empty());
        assert(decimal_value(digits.drop_last()) == 0);
    } else {
        lemma_decimal_digits(n / 10);
        assert(digits.drop_last() =~= decimal_text(n / 10));
        assert forall|i: int| 0 <= i < digits.len() implies is_digit(#[trigger] digits[i]) by {
            if i < digits.len() - 1 {
                assert(digits[i] == decimal_text(n / 10)[i]);
            }
        }
    }
}

/// A number is read from the text that it is written as, with or without a plus sign before it,
/// if it has 16 bits; a longer one is not.
pub proof fn written_numbers_are_read(n: nat)
    ensures
        n <= 0xffff ==> parsed_u16(decimal_text(n)) == Some(n as u16),
        n <= 0xffff ==> parsed_u16(seq!['+'] + decimal_text(n)) == Some(n as u16),
        n > 0xffff ==> parsed_u16(decimal_text(n)) is None,
{
    lemma_decimal_digits(n);
    let digits = decimal_text(n);
    assert(is_digit(digits[0]));
    assert((seq!['+'] + digits).drop_first() =~= digits);
}

/// Only digits are read as a number: with any other character, but for one plus sign in front,
/// a text is none, and neither is one without digits.
pub proof fn only_digits_are_read(text: Seq<char>, i: int)
    requires
        0 <= i < text.len(),
        !('0' <= text[i] <= '9'),
        i > 0 || text[i] != '+' || text.len() == 1,
    ensures
        parsed_u16(text) is None,
        parsed_u16(Seq::empty()) is None,
{
    let digits = unsigned_digits(text);
    if text[0] == '+' {
        if text.len() > 1 {
            assert(digits[i - 1] == text[i]);
            assert(!is_digit(digits[i - 1]));
        }
    } else {
        assert(!is_digit(digits[i]));
    }
}

/// The last part of a text is its end behind the last separator: it holds none, and what comes
/// before it ends with one or is nothing.
pub proof fn last_part_follows_the_last_separator(text: Seq<char>, separator: char)
    ensures
        ({
            let part = last_part(text, separator);
            let at = text.len() - part.len();
            &&& at >= 0
            &&& part == text.skip(at)
            &&& forall|i: int| 0 <= i < part.len() ==> #[trigger] part[i] != separator
            &&& at > 0 ==> text[at - 1] == separator
        }),
    decreases text.len(),
{
    let part = last_part(text, separator);
    if text.len() == 0 || text.last() == separator {
        assert(part =~= text.skip(text.len() as int));
    } else {
        last_part_follows_the_last_separator(text.drop_last(), separator);
        let inner = last_part(text.drop_last(), separator);
        let at = text.len() - part.len();
        assert(part =~= text.skip(at));
        assert forall|i: int| 0 <= i < part.len() implies #[trigger] part[i] != separator by {
            if i < inner.len() {
                assert(part[i] == inner[i]);
            }
        }
    }
}

} // verus!
