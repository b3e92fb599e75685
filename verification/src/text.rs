//! Plain text handling shared by the configuration code: splitting at a
//! separator, and reading and writing hexadecimal numbers.

use vstd::prelude::*;

verus! {

/// The position of the first `separator` in `s` at or after `from`, or the
/// length of `s` if there is none.
pub open spec fn find(s: Seq<char>, separator: char, from: int) -> int
    decreases s.len() - from,
{
    if from >= s.len() {
        s.len() as int
    } else if s[from] == separator {
        from
    } else {
        find(s, separator, from + 1)
    }
}

/// The pieces of `s` between its separators, in order. A sequence with `n`
/// separators has `n + 1` pieces, some of which may be empty.
pub open spec fn split(s: Seq<char>, separator: char) -> Seq<Seq<char>>
    decreases s.len(),
{
    let end = find(s, separator, 0);
    if 0 <= end < s.len() {
        seq![s.subrange(0, end)] + split(s.subrange(end + 1, s.len() as int), separator)
    } else {
        seq![s]
    }
}

/// `s` with every occurrence of the hexadecimal mark `0x` taken out, reading
/// from the left.
pub open spec fn without_marks(s: Seq<char>) -> Seq<char>
    decreases s.len(),
{
    if s.len() == 0 {
        s
    } else if s.len() >= 2 && s[0] == '0' && s[1] == 'x' {
        without_marks(s.skip(2))
    } else {
        seq![s[0]] + without_marks(s.skip(1))
    }
}

/// The value of a hexadecimal digit, in either case.
pub open spec fn digit_value(c: char) -> Option<int> {
    if '0' <= c <= '9' {
        Some(c as int - '0' as int)
    } else if 'a' <= c <= 'f' {
        Some(c as int - 'a' as int + 10)
    } else if 'A' <= c <= 'F' {
        Some(c as int - 'A' as int + 10)
    } else {
        None
    }
}

/// The number that a run of hexadecimal digits denotes, or `None` if some
/// character is no digit. The empty run denotes 0.
pub open spec fn digits_value(s: Seq<char>) -> Option<int>
    decreases s.len(),
{
    if s.len() == 0 {
        Some(0)
    } else {
        match (digits_value(s.drop_last()), digit_value(s.last())) {
            (Some(value), Some(digit)) => Some(value * 16 + digit),
            _ => None,
        }
    }
}

/// The number that `s` denotes in hexadecimal: an optional `+`, then at
/// least one digit, with a value that fits in 32 bits.
pub open spec fn hex_value(s: Seq<char>) -> Option<u32> {
    let digits = if s.len() > 0 && s[0] == '+' {
        s.skip(1)
    } else {
        s
    };
    if digits.len() == 0 {
        None
    } else {
        match digits_value(digits) {
            Some(value) => if value <= u32::MAX {
                Some(value as u32)
            } else {
                None
            },
            None => None,
        }
    }
}

/// The colour that `s` denotes: its hexadecimal value once every `0x` mark
/// is taken out.
pub open spec fn color_value(s: Seq<char>) -> Option<u32> {
    hex_value(without_marks(s))
}

/// The character for a hexadecimal digit, in upper or lower case.
pub open spec fn digit_char(digit: int, upper: bool) -> char {
    if digit < 10 {
        ('0' as int + digit) as char
    } else if upper {
        ('A' as int + digit - 10) as char
    } else {
        ('a' as int + digit - 10) as char
    }
}

/// The hexadecimal digits of `value`, most significant first, without
/// leading zeros; 0 has the one digit `0`.
pub open spec fn hex_digits(value: nat, upper: bool) -> Seq<char>
    decreases value,
{
    if value < 16 {
        seq![digit_char(value as int, upper)]
    } else {
        hex_digits(value / 16, upper).push(digit_char((value % 16) as int, upper))
    }
}

/// `count` zeros; none if `count` is negative.
pub open spec fn zeros(count: int) -> Seq<char> {
    Seq::new(
        if count > 0 {
            count as nat
        } else {
            0
        },
        |k: int| '0',
    )
}

/// `value` written in hexadecimal: the mark `0x`, then the digits, padded
/// with zeros in front to at least `min_digits` digits.
pub open spec fn hex_text(value: u32, upper: bool, min_digits: int) -> Seq<char> {
    seq!['0', 'x'] + zeros(min_digits - hex_digits(value as nat, upper).len()) + hex_digits(
        value as nat,
        upper,
    )
}

/// The characters of `text`, for access by position.
pub fn chars_of(text: &str) -> (chars: Vec<char>)
    ensures
        chars@ == text@,
{
    let mut chars: Vec<char> = Vec::new();
    for c in it: text.chars()
        invariant
            chars@ == it.seq().take(it.index()),
            it.seq() == text@,
    {
        chars.push(c);
    }
    chars
}

/// A search ends between where it starts and the end of the sequence.
proof fn lemma_find_bounds(s: Seq<char>, separator: char, from: int)
    requires
        0 <= from <= s.len(),
    ensures
        from <= find(s, separator, from) <= s.len(),
    decreases s.len() - from,
{
    if from < s.len() && s[from] != separator {
        lemma_find_bounds(s, separator, from + 1);
    }
}

/// Where no separator stands between `from` and `end`, a search from `from`
/// ends at `end` or later, and at `end` exactly if a separator stands there
/// or the sequence ends there.
proof fn lemma_find(s: Seq<char>, separator: char, from: int, end: int)
    requires
        0 <= from <= end <= s.len(),
        forall|k: int| from <= k < end ==> s[k] != separator,
    ensures
        find(s, separator, from) >= end,
        end < s.len() && s[end] == separator ==> find(s, separator, from) == end,
        end == s.len() ==> find(s, separator, from) == end,
    decreases end - from,
{
    if from < end {
        lemma_find(s, separator, from + 1, end);
    } else {
        lemma_find_bounds(s, separator, from);
    }
}

/// The pieces of the part of `chars` from `from` to `to`, each given by the
/// positions where it starts and ends in `chars`.
pub fn split_ranges(chars: &Vec<char>, from: usize, to: usize, separator: char) -> (pieces: Vec<
    (usize, usize),
>)
    requires
        from <= to <= chars@.len(),
    ensures
        pieces@.len() == split(chars@.subrange(from as int, to as int), separator).len(),
        forall|k: int|
            0 <= k < pieces@.len() ==> from <= (#[trigger] pieces@[k]).0 <= pieces@[k].1 <= to
                && chars@.subrange(pieces@[k].0 as int, pieces@[k].1 as int) == split(
                chars@.subrange(from as int, to as int),
                separator,
            )[k],
{
    let ghost whole = chars@.subrange(from as int, to as int);
    let mut pieces: Vec<(usize, usize)> = Vec::new();
    let mut start: usize = from;
    let mut i: usize = from;
    while i < to
        invariant
            from <= start <= i <= to <= chars@.len(),
            whole == chars@.subrange(from as int, to as int),
            forall|k: int| start <= k < i ==> chars@[k] != separator,
            split(whole, separator).len() == pieces@.len() + split(
                chars@.subrange(start as int, to as int),
                separator,
            ).len(),
            forall|k: int|
                0 <= k < pieces@.len() ==> from <= (#[trigger] pieces@[k]).0 <= pieces@[k].1 <= to
                    && chars@.subrange(pieces@[k].0 as int, pieces@[k].1 as int) == split(
                    whole,
                    separator,
                )[k],
            forall|k: int|
                0 <= k < split(chars@.subrange(start as int, to as int), separator).len()
                    ==> #[trigger] split(whole, separator)[pieces@.len() + k] == split(
                    chars@.subrange(start as int, to as int),
                    separator,
                )[k],
        decreases to - i,
    {
        if chars[i] == separator {
            proof {
                let rest = chars@.subrange(start as int, to as int);
                lemma_find(rest, separator, 0, i - start);
                assert(rest.subrange(i - start + 1, rest.len() as int) =~= chars@.subrange(
                    i + 1,
                    to as int,
                ));
                let next = chars@.subrange(i + 1, to as int);
                assert(split(whole, separator)[pieces@.len() as int + 0] == split(rest, separator)[0]);
                assert forall|k: int| 0 <= k < split(next, separator).len() implies #[trigger] split(
                    whole,
                    separator,
                )[pieces@.len() + 1 + k] == split(next, separator)[k] by {
                    assert(split(whole, separator)[pieces@.len() + (k + 1)] == split(
                        rest,
                        separator,
                    )[k + 1]);
                }
            }
            pieces.push((start, i));
            start = i + 1;
        }
        i += 1;
    }
    proof {
        let rest = chars@.subrange(start as int, to as int);
        lemma_find(rest, separator, 0, to - start);
        assert(split(whole, separator)[pieces@.len() as int + 0] == split(rest, separator)[0]);
    }
    pieces.push((start, to));
    pieces
}

/// The part of `chars` from `from` to `to` without its `0x` marks.
pub fn strip_marks(chars: &Vec<char>, from: usize, to: usize) -> (stripped: Vec<char>)
    requires
        from <= to <= chars@.len(),
    ensures
        stripped@ == without_marks(chars@.subrange(from as int, to as int)),
{
    let mut stripped: Vec<char> = Vec::new();
    let mut i: usize = from;
    while i < to
        invariant
            from <= i <= to <= chars@.len(),
            without_marks(chars@.subrange(from as int, to as int)) == stripped@ + without_marks(
                chars@.subrange(i as int, to as int),
            ),
        decreases to - i,
    {
        let ghost rest = chars@.subrange(i as int, to as int);
        if chars[i] == '0' && i + 1 < to && chars[i + 1] == 'x' {
            assert(rest.skip(2) =~= chars@.subrange(i + 2, to as int));
            i += 2;
        } else {
            assert(rest.skip(1) =~= chars@.subrange(i + 1, to as int));
            stripped.push(chars[i]);
            i += 1;
        }
    }
    stripped
}

/// The value of a hexadecimal digit.
fn digit_of(c: char) -> (digit: Option<u32>)
    ensures
        match digit {
            Some(d) => digit_value(c) == Some(d as int) && d < 16,
            None => digit_value(c) is None,
        },
{
    if '0' <= c && c <= '9' {
        Some(c as u32 - '0' as u32)
    } else if 'a' <= c && c <= 'f' {
        Some(c as u32 - 'a' as u32 + 10)
    } else if 'A' <= c && c <= 'F' {
        Some(c as u32 - 'A' as u32 + 10)
    } else {
        None
    }
}

/// A run of digits denotes at least what any of its beginnings denotes, and
/// denotes nothing if a beginning denotes nothing.
proof fn lemma_digits_prefix(s: Seq<char>, k: int)
    requires
        0 <= k <= s.len(),
    ensures
        match digits_value(s) {
            Some(value) => match digits_value(s.take(k)) {
                Some(part) => 0 <= part <= value,
                None => false,
            },
            None => true,
        },
    decreases s.len() - k,
{
    if k == s.len() {
        assert(s.take(k) =~= s);
        lemma_digits_nonnegative(s);
    } else {
        assert(s.drop_last().take(k) =~= s.take(k));
        lemma_digits_prefix(s.drop_last(), k);
    }
}

/// What a run of digits denotes is never negative.
proof fn lemma_digits_nonnegative(s: Seq<char>)
    ensures
        match digits_value(s) {
            Some(value) => value >= 0,
            None => true,
        },
    decreases s.len(),
{
    if s.len() > 0 {
        lemma_digits_nonnegative(s.drop_last());
    }
}

/// Reads a hexadecimal number: an optional `+`, then at least one digit,
/// with a value that fits in 32 bits.
pub fn parse_hex(chars: &Vec<char>) -> (value: Option<u32>)
    ensures
        value == hex_value(chars@),
{
    let n: usize = chars.len();
    let start: usize = if n > 0 && chars[0] == '+' {
        1
    } else {
        0
    };
    if start == n {
        return None;
    }
    let ghost digits = if start == 1 {
        chars@.skip(1)
    } else {
        chars@
    };
    let mut value: u32 = 0;
    let mut i: usize = start;
    while i < n
        invariant
            start <= i <= n == chars@.len(),
            start <= 1,
            start < n,
            (start == 1) == (chars@[0] == '+'),
            digits == if start == 1 {
                chars@.skip(1)
            } else {
                chars@
            },
            digits_value(digits.take(i - start)) == Some(value as int),
        decreases n - i,
    {
        let ghost longer = digits.take(i - start + 1);
        proof {
            lemma_digits_prefix(digits, i - start + 1);
            assert(longer.drop_last() =~= digits.take(i - start));
        }
        let digit: u32 = match digit_of(chars[i]) {
            Some(digit) => digit,
            None => {
                return None;
            },
        };
        if value > (u32::MAX - digit) / 16 {
            return None;
        }
        value = value * 16 + digit;
        i += 1;
    }
    assert(digits.take(n - start) =~= digits);
    Some(value)
}

/// Reads the colour in the part of `chars` from `from` to `to`.
pub fn parse_color(chars: &Vec<char>, from: usize, to: usize) -> (color: Option<u32>)
    requires
        from <= to <= chars@.len(),
    ensures
        color == color_value(chars@.subrange(from as int, to as int)),
{
    let stripped: Vec<char> = strip_marks(chars, from, to);
    parse_hex(&stripped)
}

/// The text of one hexadecimal digit.
fn digit_text(digit: u32, upper: bool) -> (text: &'static str)
    requires
        digit < 16,
    ensures
        text@ == seq![digit_char(digit as int, upper)],
{
    proof {
        reveal_strlit("0");
        reveal_strlit("1");
        reveal_strlit("2");
        reveal_strlit("3");
        reveal_strlit("4");
        reveal_strlit("5");
        reveal_strlit("6");
        reveal_strlit("7");
        reveal_strlit("8");
        reveal_strlit("9");
        reveal_strlit("a");
        reveal_strlit("b");
        reveal_strlit("c");
        reveal_strlit("d");
        reveal_strlit("e");
        reveal_strlit("f");
        reveal_strlit("A");
        reveal_strlit("B");
        reveal_strlit("C");
        reveal_strlit("D");
        reveal_strlit("E");
        reveal_strlit("F");
    }
    let text: &'static str = match (digit, upper) {
        (0, _) => "0",
        (1, _) => "1",
        (2, _) => "2",
        (3, _) => "3",
        (4, _) => "4",
        (5, _) => "5",
        (6, _) => "6",
        (7, _) => "7",
        (8, _) => "8",
        (9, _) => "9",
        (10, false) => "a",
        (11, false) => "b",
        (12, false) => "c",
        (13, false) => "d",
        (14, false) => "e",
        (15, false) => "f",
        (10, true) => "A",
        (11, true) => "B",
        (12, true) => "C",
        (13, true) => "D",
        (14, true) => "E",
        (_, _) => "F",
    };
    text
}

/// The characters for `digits`, which holds the least significant digit
/// first, in the order in which they are written.
spec fn written(digits: Seq<u32>, upper: bool) -> Seq<char> {
    Seq::new(digits.len(), |k: int| digit_char(digits[digits.len() - 1 - k] as int, upper))
}

/// Writes `value` in hexadecimal: the mark `0x`, then the digits, in upper
/// or lower case, padded with zeros in front to at least `min_digits`
/// digits.
pub fn format_hex(value: u32, upper: bool, min_digits: usize) -> (text: String)
    ensures
        text@ == hex_text(value, upper, min_digits as int),
{
    let mut digits: Vec<u32> = Vec::new();
    digits.push(value % 16);
    let mut rest: u32 = value / 16;
    while rest > 0
        invariant
            digits@.len() >= 1,
            forall|k: int| 0 <= k < digits@.len() ==> #[trigger] digits@[k] < 16,
            hex_digits(value as nat, upper) == (if rest > 0 {
                hex_digits(rest as nat, upper)
            } else {
                Seq::<char>::empty()
            }) + written(digits@, upper),
        decreases rest,
    {
        digits.push(rest % 16);
        rest = rest / 16;
    }
    proof {
        reveal_strlit("0x");
        reveal_strlit("0");
    }
    let mut text: String = String::from_str("0x");
    let mut padding: usize = digits.len();
    while padding < min_digits
        invariant
            padding >= digits@.len(),
            padding == digits@.len() || padding <= min_digits,
            text@ == seq!['0', 'x'] + zeros(padding - digits@.len()),
            "0"@ == seq!['0'],
        decreases min_digits - padding,
    {
        text.append("0");
        padding += 1;
    }
    let mut k: usize = digits.len();
    while k > 0
        invariant
            k <= digits@.len(),
            forall|j: int| 0 <= j < digits@.len() ==> #[trigger] digits@[j] < 16,
            text@ == seq!['0', 'x'] + zeros(min_digits - digits@.len()) + written(
                digits@,
                upper,
            ).take(digits@.len() - k),
        decreases k,
    {
        k -= 1;
        let piece: &'static str = digit_text(digits[k], upper);
        text.append(piece);
    }
    text
}

/// Whether two texts hold the same characters.
pub fn same_text(a: &str, b: &str) -> (same: bool)
    ensures
        same == (a@ == b@),
{
    let left: Vec<char> = chars_of(a);
    let right: Vec<char> = chars_of(b);
    if left.len() != right.len() {
        return false;
    }
    let mut k: usize = 0;
    while k < left.len()
        invariant
            k <= left@.len() == right@.len(),
            left@ == a@,
            right@ == b@,
            forall|j: int| 0 <= j < k ==> left@[j] == right@[j],
        decreases left@.len() - k,
    {
        if left[k] != right[k] {
            return false;
        }
        k += 1;
    }
    assert(left@ =~= right@);
    true
}

/// A digit's character denotes the digit.
pub proof fn lemma_digit_round_trip(digit: int, upper: bool)
    requires
        0 <= digit < 16,
    ensures
        digit_value(digit_char(digit, upper)) == Some(digit),
        digit_char(digit, upper) != 'x',
        digit_char(digit, upper) != '+',
        digit_char(digit, upper) != ' ',
        digit_char(digit, upper) != '\n',
{
}

/// A run of zeros denotes 0.
proof fn lemma_zeros_value(count: int)
    ensures
        digits_value(zeros(count)) == Some(0int),
    decreases count,
{
    if count > 0 {
        lemma_zeros_value(count - 1);
        assert(zeros(count).drop_last() =~= zeros(count - 1));
    }
}

/// The digits of a number are digits, however many zeros stand in front,
/// and denote the number.
proof fn lemma_digits_round_trip(value: nat, upper: bool, padding: int)
    ensures
        digits_value(zeros(padding) + hex_digits(value, upper)) == Some(value as int),
        forall|k: int|
            0 <= k < (zeros(padding) + hex_digits(value, upper)).len() ==> digit_value(
                #[trigger] (zeros(padding) + hex_digits(value, upper))[k],
            ) is Some,
    decreases value,
{
    let text = zeros(padding) + hex_digits(value, upper);
    let front = if value >= 16 {
        zeros(padding) + hex_digits(value / 16, upper)
    } else {
        zeros(padding)
    };
    lemma_digit_round_trip((value % 16) as int, upper);
    if value >= 16 {
        lemma_digits_round_trip(value / 16, upper, padding);
    } else {
        lemma_zeros_value(padding);
    }
    assert(text.drop_last() =~= front);
    assert forall|k: int| 0 <= k < text.len() implies digit_value(#[trigger] text[k]) is Some by {
        if k < front.len() {
            assert(text[k] == front[k]);
        }
    }
}

/// A text without the letter `x` holds no mark.
proof fn lemma_no_marks(s: Seq<char>)
    requires
        forall|k: int| 0 <= k < s.len() ==> s[k] != 'x',
    ensures
        without_marks(s) == s,
    decreases s.len(),
{
    if s.len() > 0 {
        lemma_no_marks(s.skip(1));
    }
}

/// What `format_hex` writes, `parse_color` reads back as the same number,
/// whatever the case and the padding.
pub proof fn lemma_hex_round_trip(value: u32, upper: bool, min_digits: int)
    ensures
        color_value(hex_text(value, upper, min_digits)) == Some(value),
        forall|k: int|
            0 <= k < hex_text(value, upper, min_digits).len() ==> #[trigger] hex_text(
                value,
                upper,
                min_digits,
            )[k] != ' ' && hex_text(value, upper, min_digits)[k] != '\n',
{
    let padding = min_digits - hex_digits(value as nat, upper).len();
    let digits = zeros(padding) + hex_digits(value as nat, upper);
    let text = hex_text(value, upper, min_digits);
    lemma_digits_round_trip(value as nat, upper, padding);
    assert(text.skip(2) =~= digits);
    assert forall|k: int| 0 <= k < digits.len() implies digits[k] != 'x' && digits[k] != '+'
        && digits[k] != ' ' && digits[k] != '\n' by {}
    lemma_no_marks(digits);
    assert forall|k: int| 0 <= k < text.len() implies #[trigger] text[k] != ' ' && text[k]
        != '\n' by {
        if k >= 2 {
            assert(text[k] == digits[k - 2]);
        }
    }
}

/// A text without the separator is its own single piece.
pub proof fn lemma_split_whole(s: Seq<char>, separator: char)
    requires
        forall|k: int| 0 <= k < s.len() ==> s[k] != separator,
    ensures
        split(s, separator) == seq![s],
{
    lemma_find(s, separator, 0, s.len() as int);
}

/// A text without the separator, a separator and more text split into that
/// first text and the pieces of the rest.
pub proof fn lemma_split_first(first: Seq<char>, separator: char, rest: Seq<char>)
    requires
        forall|k: int| 0 <= k < first.len() ==> first[k] != separator,
    ensures
        split(first + seq![separator] + rest, separator) == seq![first] + split(rest, separator),
{
    let s = first + seq![separator] + rest;
    assert forall|k: int| 0 <= k < first.len() implies s[k] != separator by {}
    lemma_find(s, separator, 0, first.len() as int);
    assert(s.subrange(0, first.len() as int) =~= first);
    assert(s.subrange(first.len() as int + 1, s.len() as int) =~= rest);
}

} // verus!
