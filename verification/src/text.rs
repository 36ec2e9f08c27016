//! Numbers in texts.

use vstd::prelude::*;
use vstd::string::*;

verus! {

/// One decimal digit.
pub open spec fn digit_text(value: nat) -> Seq<char> {
    if value == 0 {
        "0"@
    } else if value == 1 {
        "1"@
    } else if value == 2 {
        "2"@
    } else if value == 3 {
        "3"@
    } else if value == 4 {
        "4"@
    } else if value == 5 {
        "5"@
    } else if value == 6 {
        "6"@
    } else if value == 7 {
        "7"@
    } else if value == 8 {
        "8"@
    } else {
        "9"@
    }
}

/// A number in decimal digits.
pub open spec fn decimal_text(value: nat) -> Seq<char>
    decreases value,
{
    if value < 10 {
        digit_text(value)
    } else {
        decimal_text(value / 10) + digit_text(value % 10)
    }
}

fn append_digit(out: &mut String, value: u64)
    requires
        value < 10,
    ensures
        final(out)@ == old(out)@ + digit_text(value as nat),
{
    match value {
        0 => out.append("0"),
        1 => out.append("1"),
        2 => out.append("2"),
        3 => out.append("3"),
        4 => out.append("4"),
        5 => out.append("5"),
        6 => out.append("6"),
        7 => out.append("7"),
        8 => out.append("8"),
        _ => out.append("9"),
    }
}

pub fn append_decimal(out: &mut String, value: u64)
    ensures
        final(out)@ == old(out)@ + decimal_text(value as nat),
    decreases value,
{
    if value < 10 {
        append_digit(out, value);
    } else {
        append_decimal(out, value / 10);
        append_digit(out, value % 10);
        assert(out@ =~= old(out)@ + decimal_text(value as nat));
    }
}

/// Appends a text.
pub fn append_text(out: &mut String, text: &str)
    ensures
        final(out)@ == old(out)@ + text@,
{
    out.append(text);
}

/// What follows a prefix, where the text begins with it.
pub open spec fn text_after(text: Seq<char>, prefix: Seq<char>) -> Option<Seq<char>> {
    if prefix.len() <= text.len() && text.subrange(0, prefix.len() as int) == prefix {
        Some(text.subrange(prefix.len() as int, text.len() as int))
    } else {
        None
    }
}

pub fn strip_prefix<'a>(text: &'a str, prefix: &str) -> (rest: Option<&'a str>)
    ensures
        match text_after(text@, prefix@) {
            Some(after) => rest matches Some(found) && found@ == after,
            None => rest is None,
        },
{
    let length: usize = text.unicode_len();
    let cut: usize = prefix.unicode_len();
    if cut > length {
        return None;
    }
    let head = text.substring_char(0, cut);
    if !crate::text_map::text_equal(head, prefix) {
        return None;
    }
    Some(text.substring_char(cut, length))
}

/// The value of a decimal digit.
pub open spec fn digit_value(c: char) -> Option<nat> {
    if '0' <= c && c <= '9' {
        Some((c as u32 - 48) as nat)
    } else {
        None
    }
}

/// The number that decimal digits spell.
pub open spec fn digits_value(text: Seq<char>) -> Option<nat>
    decreases text.len(),
{
    if text.len() == 0 {
        Some(0nat)
    } else {
        match (digits_value(text.drop_last()), digit_value(text.last())) {
            (Some(high), Some(low)) => Some(high * 10 + low),
            _ => None,
        }
    }
}

/// The number that a text spells: decimal digits, at least one, behind an
/// optional plus sign.
pub open spec fn parsed_number(text: Seq<char>) -> Option<nat> {
    let digits = if text.len() > 0 && text[0] == '+' {
        text.drop_first()
    } else {
        text
    };
    if digits.len() == 0 {
        None
    } else {
        digits_value(digits)
    }
}

/// The same within 64 bits.
pub open spec fn parsed_u64(text: Seq<char>) -> Option<u64> {
    match parsed_number(text) {
        Some(value) => if value <= u64::MAX {
            Some(value as u64)
        } else {
            None
        },
        None => None,
    }
}

proof fn lemma_digit_text(value: nat)
    requires
        value < 10,
    ensures
        digit_text(value).len() == 1,
        digit_value(digit_text(value)[0]) == Some(value),
{
    reveal_strlit("0");
    reveal_strlit("1");
    reveal_strlit("2");
    reveal_strlit("3");
    reveal_strlit("4");
    reveal_strlit("5");
    reveal_strlit("6");
    reveal_strlit("7");
    reveal_strlit("8");
    reveal_strlit("9");
}

proof fn lemma_decimal_digits(value: nat)
    ensures
        decimal_text(value).len() > 0,
        digits_value(decimal_text(value)) == Some(value),
        digit_value(decimal_text(value)[0]) is Some,
    decreases value,
{
    reveal_with_fuel(digits_value, 2);
    if value < 10 {
        lemma_digit_text(value);
        assert(decimal_text(value).drop_last() =~= Seq::<char>::empty());
    } else {
        lemma_decimal_digits(value / 10);
        lemma_digit_text(value % 10);
        assert(decimal_text(value).drop_last() =~= decimal_text(value / 10));
    }
}

/// A number that was written is read back.
pub proof fn lemma_decimal_round_trip(value: u64)
    ensures
        parsed_u64(decimal_text(value as nat)) == Some(value),
{
    lemma_decimal_digits(value as nat);
}

/// The same within 128 bits.
pub open spec fn parsed_u128(text: Seq<char>) -> Option<u128> {
    match parsed_number(text) {
        Some(value) => if value <= u128::MAX {
            Some(value as u128)
        } else {
            None
        },
        None => None,
    }
}

/// A number within 128 bits as it is written, without a sign or leading zeros.
pub open spec fn u128_text(text: Seq<char>) -> Option<Seq<char>> {
    match parsed_u128(text) {
        Some(value) => Some(decimal_text(value as nat)),
        None => None,
    }
}

proof fn lemma_digits_prefix(text: Seq<char>, count: int)
    requires
        0 <= count <= text.len(),
        match digits_value(text.take(count)) {
            Some(value) => value > u128::MAX,
            None => true,
        },
    ensures
        match digits_value(text) {
            Some(value) => value > u128::MAX,
            None => true,
        },
    decreases text.len(),
{
    if count < text.len() {
        assert(text.drop_last().take(count) =~= text.take(count));
        lemma_digits_prefix(text.drop_last(), count);
    } else {
        assert(text.take(count) =~= text);
    }
}

pub fn parse_u64(text: &str) -> (value: Option<u64>)
    ensures
        value == parsed_u64(text@),
{
    match parse_u128(text) {
        Some(value) => if value <= 0xffff_ffff_ffff_ffff {
            Some(value as u64)
        } else {
            None
        },
        None => None,
    }
}

/// The text of the error of reading a text as a 64-bit number.
pub uninterp spec fn number_error(text: Seq<char>) -> Seq<char>;

/// Calls `str::parse` for `u64`, which reads decimal digits, at least one, behind
/// an optional plus sign, and refuses anything else and what 64 bits do not
/// hold. The text of its error depends on the text alone.
#[verifier::external_body]
pub(crate) fn read_number(text: &str) -> (r: Result<u64, String>)
    ensures
        r is Ok == parsed_u64(text@) is Some,
        r matches Ok(value) ==> parsed_u64(text@) == Some(value),
        r matches Err(e) ==> e@ == number_error(text@),
{
    text.parse::<u64>().map_err(|error| error.to_string())
}

pub fn parse_u128(text: &str) -> (value: Option<u128>)
    ensures
        value == parsed_u128(text@),
{
    let length: usize = text.unicode_len();
    let mut start: usize = 0;
    if length > 0 && text.get_char(0) == '+' {
        start = 1;
    }
    let ghost digits = text@.subrange(start as int, length as int);
    proof {
        if start == 1 {
            assert(digits =~= text@.drop_first());
        } else {
            assert(digits =~= text@);
        }
    }
    if start == length {
        return None;
    }
    let mut total: u128 = 0;
    let mut i: usize = start;
    assert(digits.take(0) =~= Seq::<char>::empty());
    while i < length
        invariant
            start <= i <= length,
            length == text@.len(),
            digits == text@.subrange(start as int, length as int),
            digits_value(digits.take(i - start)) == Some(total as nat),
            digits.len() > 0,
            parsed_u128(text@) == (match digits_value(digits) {
                Some(v) => if v <= u128::MAX {
                    Some(v as u128)
                } else {
                    None
                },
                None => None,
            }),
        decreases length - i,
    {
        let c: char = text.get_char(i);
        let ghost k = i - start;
        assert(digits[k] == c);
        assert(digits.take(k + 1).drop_last() =~= digits.take(k));
        assert(digits.take(k + 1).last() == c);
        if !('0' <= c && c <= '9') {
            proof {
                lemma_digits_prefix(digits, k + 1);
            }
            return None;
        }
        let low: u128 = (c as u32 - 48) as u128;
        match total.checked_mul(10) {
            None => {
                proof {
                    lemma_digits_prefix(digits, k + 1);
                }
                return None;
            },
            Some(tens) => match tens.checked_add(low) {
                None => {
                    proof {
                        lemma_digits_prefix(digits, k + 1);
                    }
                    return None;
                },
                Some(next) => {
                    total = next;
                },
            },
        }
        i += 1;
    }
    assert(digits.take(i - start) =~= digits);
    Some(total)
}

fn append_decimal_u128(out: &mut String, value: u128)
    ensures
        final(out)@ == old(out)@ + decimal_text(value as nat),
    decreases value,
{
    if value < 10 {
        append_digit(out, value as u64);
    } else {
        append_decimal_u128(out, value / 10);
        append_digit(out, (value % 10) as u64);
        assert(out@ =~= old(out)@ + decimal_text(value as nat));
    }
}

/// Write a number within 128 bits without a sign or leading zeros.
pub fn parse_u128_text(text: &str) -> (number: Option<String>)
    ensures
        number is Some == u128_text(text@) is Some,
        number matches Some(written) ==> Some(written@) == u128_text(text@),
{
    match parse_u128(text) {
        None => None,
        Some(value) => {
            let mut written: String = String::new();
            append_decimal_u128(&mut written, value);
            assert(written@ =~= decimal_text(value as nat));
            Some(written)
        },
    }
}

/// The first characters of a text, as many as there are up to `count`.
pub fn first_chars(text: &str, count: usize) -> (start: String)
    ensures
        start@ == (if text@.len() <= count {
            text@
        } else {
            text@.take(count as int)
        }),
{
    let total: usize = text.unicode_len();
    if total <= count {
        return text.to_owned();
    }
    let part = text.substring_char(0, count);
    assert(part@ =~= text@.take(count as int));
    part.to_owned()
}

/// Whether a text occurs in another.
pub open spec fn text_contains(text: Seq<char>, part: Seq<char>) -> bool {
    exists|i: int| #[trigger] occurs_at(text, part, i)
}

pub open spec fn occurs_at(text: Seq<char>, part: Seq<char>, i: int) -> bool {
    0 <= i && i + part.len() <= text.len() && text.subrange(i, i + part.len()) == part
}

pub fn contains_text(text: &str, part: &str) -> (found: bool)
    ensures
        found == text_contains(text@, part@),
{
    let total: usize = text.unicode_len();
    let length: usize = part.unicode_len();
    if length > total {
        return false;
    }
    let mut i: usize = 0;
    while i <= total - length
        invariant
            total == text@.len(),
            length == part@.len(),
            length <= total,
            i <= total - length + 1,
            forall|j: int| 0 <= j < i ==> !(#[trigger] occurs_at(text@, part@, j)),
        decreases total - length + 1 - i,
    {
        let here = text.substring_char(i, i + length);
        if crate::text_map::text_equal(here, part) {
            assert(occurs_at(text@, part@, i as int));
            return true;
        }
        assert(!occurs_at(text@, part@, i as int));
        if i == total - length {
            assert forall|j: int| !(#[trigger] occurs_at(text@, part@, j)) by {}
            return false;
        }
        i += 1;
    }
    false
}

/// A character that Unicode counts as white space.
pub open spec fn blank_char(c: char) -> bool {
    ||| '\u{9}' <= c <= '\u{d}'
    ||| c == ' '
    ||| c == '\u{85}'
    ||| c == '\u{a0}'
    ||| c == '\u{1680}'
    ||| '\u{2000}' <= c <= '\u{200a}'
    ||| c == '\u{2028}'
    ||| c == '\u{2029}'
    ||| c == '\u{202f}'
    ||| c == '\u{205f}'
    ||| c == '\u{3000}'
}

fn is_blank(c: char) -> (blank: bool)
    ensures
        blank == blank_char(c),
{
    ('\u{9}' <= c && c <= '\u{d}') || c == ' ' || c == '\u{85}' || c == '\u{a0}' || c == '\u{1680}'
        || ('\u{2000}' <= c && c <= '\u{200a}') || c == '\u{2028}' || c == '\u{2029}' || c
        == '\u{202f}' || c == '\u{205f}' || c == '\u{3000}'
}

/// A text without the white space at its beginning.
pub open spec fn trimmed_start(text: Seq<char>) -> Seq<char>
    decreases text.len(),
{
    if text.len() > 0 && blank_char(text[0]) {
        trimmed_start(text.drop_first())
    } else {
        text
    }
}

/// A text without the white space at its end.
pub open spec fn trimmed_end(text: Seq<char>) -> Seq<char>
    decreases text.len(),
{
    if text.len() > 0 && blank_char(text.last()) {
        trimmed_end(text.drop_last())
    } else {
        text
    }
}

/// A text without the white space around it.
pub open spec fn trimmed(text: Seq<char>) -> Seq<char> {
    trimmed_end(trimmed_start(text))
}

pub fn trim<'a>(text: &'a str) -> (inner: &'a str)
    ensures
        inner@ == trimmed(text@),
{
    let total: usize = text.unicode_len();
    let mut from: usize = 0;
    assert(text@.subrange(0, total as int) =~= text@);
    while from < total && is_blank(text.get_char(from))
        invariant
            total == text@.len(),
            from <= total,
            trimmed_start(text@) == trimmed_start(text@.subrange(from as int, total as int)),
        decreases total - from,
    {
        assert(text@.subrange(from as int, total as int).drop_first() =~= text@.subrange(
            from + 1,
            total as int,
        ));
        from += 1;
    }
    assert(trimmed_start(text@) == text@.subrange(from as int, total as int));
    let mut to: usize = total;
    while from < to && is_blank(text.get_char(to - 1))
        invariant
            total == text@.len(),
            from <= to <= total,
            trimmed(text@) == trimmed_end(text@.subrange(from as int, to as int)),
        decreases to,
    {
        assert(text@.subrange(from as int, to as int).drop_last() =~= text@.subrange(
            from as int,
            to - 1,
        ));
        to -= 1;
    }
    text.substring_char(from, to)
}

/// Where the word that begins at `start` ends: at white space, or at the end of
/// the text.
pub open spec fn word_end(text: Seq<char>, start: int) -> int
    decreases text.len() - start,
{
    if start >= text.len() || blank_char(text[start]) {
        start
    } else {
        word_end(text, start + 1)
    }
}

proof fn lemma_word_end(text: Seq<char>, start: int)
    ensures
        start <= word_end(text, start),
        start <= text.len() ==> word_end(text, start) <= text.len(),
    decreases text.len() - start,
{
    if start < text.len() && !blank_char(text[start]) {
        lemma_word_end(text, start + 1);
    }
}

/// The words from `start` on: the longest stretches without white space.
pub open spec fn words_from(text: Seq<char>, start: int) -> Seq<Seq<char>>
    decreases text.len() - start,
    via words_from_ends
{
    if start < 0 || start >= text.len() {
        Seq::empty()
    } else if blank_char(text[start]) {
        words_from(text, start + 1)
    } else {
        let end = word_end(text, start);
        seq![text.subrange(start, end)] + words_from(text, end)
    }
}

#[via_fn]
proof fn words_from_ends(text: Seq<char>, start: int) {
    if 0 <= start < text.len() && !blank_char(text[start]) {
        lemma_word_end(text, start + 1);
    }
}

/// The words of a text.
pub open spec fn words(text: Seq<char>) -> Seq<Seq<char>> {
    words_from(text, 0)
}

/// The words of a text.
pub fn split_words(text: &str) -> (list: Vec<String>)
    ensures
        list@.len() == words(text@).len(),
        forall|i: int| 0 <= i < list@.len() ==> (#[trigger] list@[i])@ == words(text@)[i],
{
    let total: usize = text.unicode_len();
    let mut list: Vec<String> = Vec::new();
    let mut start: usize = 0;
    let ghost mut seen: Seq<Seq<char>> = Seq::empty();
    assert(seen + words_from(text@, 0) =~= words(text@));
    while start < total
        invariant
            total == text@.len(),
            start <= total,
            seen + words_from(text@, start as int) == words(text@),
            list@.len() == seen.len(),
            forall|i: int| 0 <= i < list@.len() ==> (#[trigger] list@[i])@ == seen[i],
        decreases total - start,
    {
        if is_blank(text.get_char(start)) {
            start += 1;
        } else {
            let mut end: usize = start + 1;
            while end < total && !is_blank(text.get_char(end))
                invariant
                    total == text@.len(),
                    start < end <= total,
                    word_end(text@, start as int) == word_end(text@, end as int),
                decreases total - end,
            {
                end += 1;
            }
            assert(word_end(text@, start as int) == end);
            let word = text.substring_char(start, end);
            list.push(word.to_owned());
            let ghost rest = words_from(text@, end as int);
            assert(seen + (seq![word@] + rest) =~= seen.push(word@) + rest);
            proof {
                seen = seen.push(word@);
            }
            start = end;
        }
    }
    assert(words_from(text@, start as int) =~= Seq::<Seq<char>>::empty());
    assert(seen =~= words(text@));
    list
}

/// A signed number in decimal.
pub open spec fn signed_text(value: int) -> Seq<char> {
    if value < 0 {
        "-"@ + decimal_text((-value) as nat)
    } else {
        decimal_text(value as nat)
    }
}

/// Append a signed number in decimal.
pub fn append_signed(out: &mut String, value: i32)
    ensures
        final(out)@ == old(out)@ + signed_text(value as int),
{
    if value < 0 {
        append_text(out, "-");
        append_decimal(out, (-(value as i64)) as u64);
        assert(out@ =~= old(out)@ + signed_text(value as int));
    } else {
        append_decimal(out, value as u64);
    }
}

/// A text behind another.
pub fn joined_text(start: &str, rest: &str) -> (text: String)
    ensures
        text@ == start@ + rest@,
{
    let mut text: String = start.to_owned();
    append_text(&mut text, rest);
    text
}

} // verus!
