//! Text helpers shared by the rest of the library: characters of a string,
//! decimal notation, lines and tails, padding and trimming.

use vstd::prelude::*;
use vstd::string::{StrSliceExecFns, StringExecFns};

verus! {

/// `String::push` appends exactly one character to the end of the string.
pub assume_specification[ String::push ](s: &mut String, c: char)
    ensures
        final(s)@ == old(s)@.push(c),
;

/// Whether `a` and `b` hold the same characters in the same order.
pub fn same_text(a: &str, b: &str) -> (r: bool)
    ensures
        r == (a@ == b@),
{
    let left = a.to_owned();
    let right = b.to_owned();
    left == right
}

/// Whether `c` is white space: whether it has the Unicode property
/// `White_Space`, as `char::is_whitespace` tells.
pub open spec fn white_space(c: char) -> bool {
    ||| '\u{0009}' <= c <= '\u{000D}'
    ||| c == '\u{0020}'
    ||| c == '\u{0085}'
    ||| c == '\u{00A0}'
    ||| c == '\u{1680}'
    ||| '\u{2000}' <= c <= '\u{200A}'
    ||| c == '\u{2028}'
    ||| c == '\u{2029}'
    ||| c == '\u{202F}'
    ||| c == '\u{205F}'
    ||| c == '\u{3000}'
}

/// Whether `c` is white space.
pub fn is_white_space(c: char) -> (b: bool)
    ensures
        b == white_space(c),
{
    ('\u{0009}' <= c && c <= '\u{000D}') || c == '\u{0020}' || c == '\u{0085}' || c == '\u{00A0}'
        || c == '\u{1680}' || ('\u{2000}' <= c && c <= '\u{200A}') || c == '\u{2028}' || c
        == '\u{2029}' || c == '\u{202F}' || c == '\u{205F}' || c == '\u{3000}'
}

/// The characters of `s`, in order.
pub fn chars_of(s: &str) -> (v: Vec<char>)
    ensures
        v@ == s@,
{
    let mut v: Vec<char> = Vec::new();
    for c in it: s.chars()
        invariant
            it.seq() == s@,
            v@ == it.seq().take(it.index() as int),
    {
        v.push(c);
        assert(it.seq().take(it.index() + 1) =~= it.seq().take(it.index() as int).push(c));
    }
    assert(v@ =~= s@);
    v
}

/// The string made of the characters `v[from..to]`.
pub(crate) fn string_of(v: &Vec<char>, from: usize, to: usize) -> (s: String)
    requires
        from <= to <= v.len(),
    ensures
        s@ == v@.subrange(from as int, to as int),
{
    let mut s = String::new();
    let mut i: usize = from;
    while i < to
        invariant
            from <= i <= to <= v.len(),
            s@ == v@.subrange(from as int, i as int),
        decreases to - i,
    {
        s.push(v[i]);
        assert(v@.subrange(from as int, i + 1) =~= v@.subrange(from as int, i as int).push(
            v@[i as int],
        ));
        i += 1;
    }
    s
}

/// The character that writes the decimal digit `d`.
pub open spec fn digit_char(d: nat) -> char {
    if d == 0 {
        '0'
    } else if d == 1 {
        '1'
    } else if d == 2 {
        '2'
    } else if d == 3 {
        '3'
    } else if d == 4 {
        '4'
    } else if d == 5 {
        '5'
    } else if d == 6 {
        '6'
    } else if d == 7 {
        '7'
    } else if d == 8 {
        '8'
    } else {
        '9'
    }
}

/// Decimal notation of `n`, most significant digit first, without leading zeros.
pub open spec fn decimal_digits(n: nat) -> Seq<char>
    decreases n,
{
    if n < 10 {
        seq![digit_char(n)]
    } else {
        decimal_digits(n / 10).push(digit_char(n % 10))
    }
}

fn digit(d: u64) -> (c: char)
    requires
        d < 10,
    ensures
        c == digit_char(d as nat),
{
    if d == 0 {
        '0'
    } else if d == 1 {
        '1'
    } else if d == 2 {
        '2'
    } else if d == 3 {
        '3'
    } else if d == 4 {
        '4'
    } else if d == 5 {
        '5'
    } else if d == 6 {
        '6'
    } else if d == 7 {
        '7'
    } else if d == 8 {
        '8'
    } else {
        '9'
    }
}

/// Appends the decimal notation of `n` to `out`.
pub fn push_decimal(out: &mut String, n: u64)
    ensures
        final(out)@ == old(out)@ + decimal_digits(n as nat),
    decreases n,
{
    if n < 10 {
        out.push(digit(n));
        assert(out@ =~= old(out)@ + decimal_digits(n as nat));
    } else {
        push_decimal(out, n / 10);
        out.push(digit(n % 10));
        assert(out@ =~= old(out)@ + decimal_digits(n as nat));
    }
}

/// Decimal notation of `n` as a string.
pub fn decimal(n: u64) -> (s: String)
    ensures
        s@ == decimal_digits(n as nat),
{
    let mut s = String::new();
    push_decimal(&mut s, n);
    assert(s@ =~= decimal_digits(n as nat));
    s
}

/// Whether `text` begins with `prefix`.
pub open spec fn begins_with(text: Seq<char>, prefix: Seq<char>) -> bool {
    text.len() >= prefix.len() && text.take(prefix.len() as int) == prefix
}

/// Views of the strings of `v`, in order.
pub open spec fn strings_view(v: Seq<String>) -> Seq<Seq<char>> {
    Seq::new(v.len(), |i: int| v[i]@)
}

/// A fresh copy of the strings of `v`.
pub fn copy_strings(v: &Vec<String>) -> (r: Vec<String>)
    ensures
        strings_view(r@) == strings_view(v@),
{
    let mut r: Vec<String> = Vec::new();
    let mut i: usize = 0;
    while i < v.len()
        invariant
            i <= v.len(),
            r.len() == i,
            forall|j: int| 0 <= j < i ==> (#[trigger] r@[j])@ == v@[j]@,
        decreases v.len() - i,
    {
        r.push(v[i].clone());
        i += 1;
    }
    assert(strings_view(r@) =~= strings_view(v@));
    r
}

/// Whether `i` is the position of the first `c` in `text`.
pub open spec fn is_first_of(text: Seq<char>, c: char, i: int) -> bool {
    &&& 0 <= i < text.len()
    &&& text[i] == c
    &&& forall|j: int| 0 <= j < i ==> text[j] != c
}

/// Whether `text` holds a `c`.
pub open spec fn holds_char(text: Seq<char>, c: char) -> bool {
    exists|i: int| is_first_of(text, c, i)
}

/// Position of the first `c` in a text that holds one.
pub open spec fn first_of(text: Seq<char>, c: char) -> int {
    choose|i: int| is_first_of(text, c, i)
}

/// A line without the carriage return that ended it, if one did.
pub open spec fn without_carriage_return(line: Seq<char>) -> Seq<char> {
    if line.len() > 0 && line.last() == '\r' {
        line.drop_last()
    } else {
        line
    }
}

/// The lines of `text`, as `str::lines` gives them. A line ends at a line
/// feed, or at a carriage return followed by one; the line ending is not
/// part of the line. What follows the last line feed is a line if it is
/// not empty, and keeps a carriage return at its end.
pub open spec fn lines_of(text: Seq<char>) -> Seq<Seq<char>>
    decreases text.len(),
{
    if text.len() == 0 {
        Seq::empty()
    } else if holds_char(text, '\n') {
        let i = first_of(text, '\n');
        if 0 <= i < text.len() {
            seq![without_carriage_return(text.take(i))] + lines_of(text.skip(i + 1))
        } else {
            Seq::empty()
        }
    } else {
        seq![text]
    }
}

/// The texts of `parts` with `separator` between each two.
pub open spec fn joined(parts: Seq<Seq<char>>, separator: Seq<char>) -> Seq<char>
    decreases parts.len(),
{
    if parts.len() == 0 {
        Seq::empty()
    } else if parts.len() == 1 {
        parts[0]
    } else {
        joined(parts.drop_last(), separator) + separator + parts.last()
    }
}

/// The last `count` entries of `parts`, or all if there are fewer.
pub open spec fn last_entries<T>(parts: Seq<T>, count: nat) -> Seq<T> {
    if parts.len() > count {
        parts.skip(parts.len() - count)
    } else {
        parts
    }
}

/// The last `count` lines of `text`, joined by line feeds.
pub open spec fn tail_of(text: Seq<char>, count: nat) -> Seq<char> {
    joined(last_entries(lines_of(text), count), seq!['\n'])
}

/// The first `c` of a text is where a scan from the start finds it.
pub proof fn lemma_first_of(text: Seq<char>, c: char, i: int)
    requires
        is_first_of(text, c, i),
    ensures
        holds_char(text, c),
        first_of(text, c) == i,
{
    let found = first_of(text, c);
    assert(is_first_of(text, c, found));
    if found < i {
        assert(text[found] != c);
    }
    if i < found {
        assert(text[i] != c);
    }
}

/// Position of the first `c` in `chars`, if there is one.
pub fn find_char(chars: &Vec<char>, c: char) -> (found: Option<usize>)
    ensures
        match found {
            Some(i) => holds_char(chars@, c) && first_of(chars@, c) == i && i < chars@.len(),
            None => !holds_char(chars@, c),
        },
{
    let mut i: usize = 0;
    while i < chars.len()
        invariant
            i <= chars.len(),
            forall|j: int| 0 <= j < i ==> chars@[j] != c,
        decreases chars.len() - i,
    {
        if chars[i] == c {
            proof {
                lemma_first_of(chars@, c, i as int);
            }
            return Some(i);
        }
        i += 1;
    }
    proof {
        if holds_char(chars@, c) {
            let found = first_of(chars@, c);
            assert(is_first_of(chars@, c, found));
        }
    }
    None
}

/// The lines of `text`, as `str::lines` gives them.
pub fn split_lines(text: &str) -> (lines: Vec<String>)
    ensures
        strings_view(lines@) == lines_of(text@),
{
    let chars = chars_of(text);
    let total = chars.len();
    let mut lines: Vec<String> = Vec::new();
    let mut start: usize = 0;
    assert(chars@.skip(0) =~= chars@);
    assert(strings_view(lines@) =~= Seq::<Seq<char>>::empty());
    while start < total
        invariant
            start <= total,
            total == chars.len(),
            chars@ == text@,
            strings_view(lines@) + lines_of(chars@.skip(start as int)) == lines_of(chars@),
        decreases total - start,
    {
        let ghost rest = chars@.skip(start as int);
        let mut end: usize = start;
        while end < total && chars[end] != '\n'
            invariant
                start <= end <= total,
                total == chars.len(),
                forall|j: int| start <= j < end ==> chars@[j] != '\n',
            decreases total - end,
        {
            end += 1;
        }
        let ghost before = strings_view(lines@);
        if end < total {
            proof {
                assert(rest[end - start] == chars@[end as int]);
                assert forall|j: int| 0 <= j < end - start implies rest[j] != '\n' by {
                    assert(rest[j] == chars@[start + j]);
                }
                lemma_first_of(rest, '\n', end - start);
                assert(rest.take(end - start) =~= chars@.subrange(start as int, end as int));
                assert(rest.skip(end - start + 1) =~= chars@.skip(end + 1));
            }
            let stop = if end > start && chars[end - 1] == '\r' {
                end - 1
            } else {
                end
            };
            let line = string_of(&chars, start, stop);
            proof {
                let raw = chars@.subrange(start as int, end as int);
                if end > start {
                    assert(raw.last() == chars@[end - 1]);
                }
                assert(line@ =~= without_carriage_return(raw));
            }
            lines.push(line);
            proof {
                assert(strings_view(lines@) =~= before.push(line@));
                assert(before.push(line@) + lines_of(chars@.skip(end + 1)) =~= before + lines_of(
                    rest,
                ));
            }
            start = end + 1;
        } else {
            proof {
                if holds_char(rest, '\n') {
                    let c = first_of(rest, '\n');
                    assert(is_first_of(rest, '\n', c));
                    assert(rest[c] == chars@[start + c]);
                }
                assert(rest =~= chars@.subrange(start as int, total as int));
                assert(chars@.skip(total as int) =~= Seq::<char>::empty());
            }
            let line = string_of(&chars, start, total);
            lines.push(line);
            proof {
                assert(strings_view(lines@) =~= before.push(line@));
                assert(before.push(line@) + lines_of(chars@.skip(total as int)) =~= before
                    + lines_of(rest));
            }
            start = total;
        }
    }
    proof {
        assert(chars@.skip(total as int) =~= Seq::<char>::empty());
        assert(strings_view(lines@) + Seq::<Seq<char>>::empty() =~= strings_view(lines@));
    }
    lines
}

/// The texts of `parts[from..]` with `separator` between each two.
pub(crate) fn join_from(parts: &Vec<String>, from: usize, separator: &str) -> (text: String)
    requires
        from <= parts.len(),
    ensures
        text@ == joined(strings_view(parts@).skip(from as int), separator@),
{
    let ghost all = strings_view(parts@).skip(from as int);
    let mut text = String::new();
    let mut i: usize = from;
    assert(all.take(0) =~= Seq::<Seq<char>>::empty());
    while i < parts.len()
        invariant
            from <= i <= parts.len(),
            all == strings_view(parts@).skip(from as int),
            text@ == joined(all.take(i - from), separator@),
        decreases parts.len() - i,
    {
        let ghost done = all.take(i - from);
        let ghost grown = all.take(i - from + 1);
        proof {
            assert(grown.drop_last() =~= done);
            assert(grown.last() == parts@[i as int]@);
        }
        if i > from {
            text.append(separator);
        }
        text.append(parts[i].as_str());
        proof {
            if i == from {
                assert(grown.len() == 1);
                assert(text@ =~= grown[0]);
            }
        }
        i += 1;
    }
    assert(all.take(parts.len() - from) =~= all);
    text
}

/// The last `count` lines of `text`, joined by line feeds.
pub fn tail(text: &str, count: usize) -> (tail: String)
    ensures
        tail@ == tail_of(text@, count as nat),
{
    let lines = split_lines(text);
    let from = if lines.len() > count {
        lines.len() - count
    } else {
        0
    };
    proof {
        reveal_strlit("\n");
        assert("\n"@ =~= seq!['\n']);
        let all = strings_view(lines@);
        if lines.len() > count {
            assert(last_entries(all, count as nat) == all.skip(from as int));
        } else {
            assert(all.skip(0) =~= all);
        }
    }
    join_from(&lines, from, "\n")
}

/// `count` spaces.
pub open spec fn spaces(count: nat) -> Seq<char> {
    Seq::new(count, |i: int| ' ')
}

/// `text` followed by as many spaces as it takes to fill `width`
/// characters; `text` itself if it is as long or longer.
pub open spec fn padded(text: Seq<char>, width: nat) -> Seq<char> {
    if text.len() >= width {
        text
    } else {
        text + spaces((width - text.len()) as nat)
    }
}

/// Appends `text` to `out`, filled with spaces to `width` characters.
pub fn push_padded(out: &mut String, text: &str, width: usize)
    ensures
        final(out)@ == old(out)@ + padded(text@, width as nat),
{
    let length = text.unicode_len();
    out.append(text);
    let ghost before = out@;
    let mut i: usize = length;
    assert(spaces(0) =~= Seq::<char>::empty());
    while i < width
        invariant
            length <= i,
            length < width ==> i <= width,
            length >= width ==> i == length,
            length == text@.len(),
            before == old(out)@ + text@,
            out@ == before + spaces((i - length) as nat),
        decreases width - i,
    {
        out.push(' ');
        assert(spaces((i - length) as nat).push(' ') =~= spaces((i + 1 - length) as nat));
        i += 1;
    }
    proof {
        let fill = spaces((i - length) as nat);
        assert(out@ == (old(out)@ + text@) + fill);
        assert((old(out)@ + text@) + fill =~= old(out)@ + (text@ + fill));
        if length >= width {
            assert(text@ + fill =~= text@);
        }
    }
}

/// `text` without the white space at its end.
pub open spec fn trimmed_end(text: Seq<char>) -> Seq<char>
    decreases text.len(),
{
    if text.len() > 0 && white_space(text.last()) {
        trimmed_end(text.drop_last())
    } else {
        text
    }
}

/// `text` without the white space at its end, as `str::trim_end` gives it.
pub fn trim_end(text: &str) -> (trimmed: String)
    ensures
        trimmed@ == trimmed_end(text@),
{
    let chars = chars_of(text);
    let mut end: usize = chars.len();
    assert(chars@.take(end as int) =~= chars@);
    while end > 0 && is_white_space(chars[end - 1])
        invariant
            end <= chars.len(),
            trimmed_end(chars@.take(end as int)) == trimmed_end(chars@),
        decreases end,
    {
        assert(chars@.take(end as int).drop_last() =~= chars@.take(end - 1));
        end -= 1;
    }
    assert(chars@.take(end as int) =~= chars@.subrange(0, end as int));
    string_of(&chars, 0, end)
}

/// Whether `c` is one of the ten decimal digits.
pub open spec fn is_digit(c: char) -> bool {
    c == '0' || c == '1' || c == '2' || c == '3' || c == '4' || c == '5' || c == '6' || c == '7'
        || c == '8' || c == '9'
}

/// The number that the decimal digit `c` writes.
pub open spec fn digit_value(c: char) -> nat {
    if c == '1' {
        1
    } else if c == '2' {
        2
    } else if c == '3' {
        3
    } else if c == '4' {
        4
    } else if c == '5' {
        5
    } else if c == '6' {
        6
    } else if c == '7' {
        7
    } else if c == '8' {
        8
    } else if c == '9' {
        9
    } else {
        0
    }
}

/// The number that the decimal digits `digits` write, most significant
/// digit first.
pub open spec fn digits_value(digits: Seq<char>) -> nat
    decreases digits.len(),
{
    if digits.len() == 0 {
        0
    } else {
        digits_value(digits.drop_last()) * 10 + digit_value(digits.last())
    }
}

/// Whether `digits` is the decimal notation of a number that is not zero:
/// decimal digits only, at least one, and the first of them not a zero.
pub open spec fn is_positive_decimal(digits: Seq<char>) -> bool {
    &&& digits.len() > 0
    &&& digits[0] != '0'
    &&& forall|j: int| 0 <= j < digits.len() ==> is_digit(#[trigger] digits[j])
}

/// The decimal notation of a number that is not zero is a positive decimal
/// and writes that number.
pub proof fn lemma_decimal_of_positive(n: nat)
    requires
        n >= 1,
    ensures
        is_positive_decimal(decimal_digits(n)),
        digits_value(decimal_digits(n)) == n,
    decreases n,
{
    if n < 10 {
        let d = decimal_digits(n);
        assert(d.drop_last() =~= Seq::<char>::empty());
        assert(d.last() == digit_char(n));
        assert(digits_value(d.drop_last()) == 0);
    } else {
        lemma_decimal_of_positive(n / 10);
        let head = decimal_digits(n / 10);
        let d = head.push(digit_char(n % 10));
        assert(d.drop_last() =~= head);
        assert(d[0] == head[0]);
        assert forall|j: int| 0 <= j < d.len() implies is_digit(#[trigger] d[j]) by {
            if j < head.len() {
                assert(d[j] == head[j]);
            }
        }
    }
}

/// A positive decimal writes a number that is not zero, and is the decimal
/// notation of that number.
pub proof fn lemma_positive_decimal_value(digits: Seq<char>)
    requires
        is_positive_decimal(digits),
    ensures
        digits_value(digits) >= 1,
        decimal_digits(digits_value(digits)) == digits,
    decreases digits.len(),
{
    let head = digits.drop_last();
    let last = digits.last();
    assert(is_digit(last));
    assert(digit_char(digit_value(last)) == last);
    if head.len() == 0 {
        assert(digits[0] == last);
        assert(digits_value(head) == 0);
        assert(digits =~= seq![last]);
    } else {
        assert(head[0] == digits[0]);
        assert forall|j: int| 0 <= j < head.len() implies is_digit(#[trigger] head[j]) by {
            assert(head[j] == digits[j]);
        }
        lemma_positive_decimal_value(head);
        let v = digits_value(head);
        let k = digit_value(last);
        assert((v * 10 + k) / 10 == v && (v * 10 + k) % 10 == k);
        assert(head.push(last) =~= digits);
    }
}

fn digit_number(c: char) -> (d: Option<u8>)
    ensures
        d is Some == is_digit(c),
        d matches Some(v) ==> v == digit_value(c) && v < 10,
{
    if c == '0' {
        Some(0)
    } else if c == '1' {
        Some(1)
    } else if c == '2' {
        Some(2)
    } else if c == '3' {
        Some(3)
    } else if c == '4' {
        Some(4)
    } else if c == '5' {
        Some(5)
    } else if c == '6' {
        Some(6)
    } else if c == '7' {
        Some(7)
    } else if c == '8' {
        Some(8)
    } else if c == '9' {
        Some(9)
    } else {
        None
    }
}

/// Whether the characters `chars[from..to]` are the decimal notation of a
/// number greater than `bound`, however many digits it has.
pub(crate) fn decimal_exceeds(chars: &Vec<char>, from: usize, to: usize, bound: usize) -> (b: bool)
    requires
        from <= to <= chars.len(),
    ensures
        b == (is_positive_decimal(chars@.subrange(from as int, to as int)) && digits_value(
            chars@.subrange(from as int, to as int),
        ) > bound),
{
    let ghost digits = chars@.subrange(from as int, to as int);
    if from == to {
        return false;
    }
    if chars[from] == '0' {
        assert(digits[0] == '0');
        return false;
    }
    let mut value: u128 = 0;
    let mut large = false;
    let mut i: usize = from;
    assert(digits.take(0) =~= Seq::<char>::empty());
    while i < to
        invariant
            from <= i <= to <= chars.len(),
            from < to,
            digits == chars@.subrange(from as int, to as int),
            forall|j: int| 0 <= j < i - from ==> is_digit(#[trigger] digits[j]),
            large ==> digits_value(digits.take(i - from)) > u64::MAX,
            !large ==> value == digits_value(digits.take(i - from)) && value <= u64::MAX,
        decreases to - i,
    {
        let ghost prefix = digits.take(i - from);
        let ghost grown = digits.take(i - from + 1);
        proof {
            assert(grown.drop_last() =~= prefix);
            assert(grown.last() == chars@[i as int]);
            assert(digits[i - from] == chars@[i as int]);
        }
        match digit_number(chars[i]) {
            None => {
                assert(!is_digit(digits[i - from]));
                return false;
            },
            Some(d) => {
                if !large {
                    value = value * 10 + d as u128;
                    if value > u64::MAX as u128 {
                        large = true;
                    }
                } else {
                    assert(digits_value(grown) >= digits_value(prefix)) by (nonlinear_arith)
                        requires
                            digits_value(grown) == digits_value(prefix) * 10 + d,
                    ;
                }
            },
        }
        i += 1;
    }
    proof {
        assert(digits.take(to - from) =~= digits);
        assert(is_positive_decimal(digits));
    }
    large || value > bound as u128
}

} // verus!
