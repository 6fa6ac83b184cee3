//! Text as sequences of characters: trimming, splitting, and decimal
//! numbers in both directions.

use vstd::prelude::*;
use vstd::string::*;

verus! {

/// The character that stands for the digit `d`.
pub open spec fn digit_char(d: int) -> char
    recommends
        0 <= d <= 9,
{
    if d == 0 {
        '0'
    } else if d == 1 {
        '1'
    } else if d == 2 {
        '2'
    } else if d == 3 {
        '3'
    } else if d == 4 {
        '4'
    } else if d == 5 {
        '5'
    } else if d == 6 {
        '6'
    } else if d == 7 {
        '7'
    } else if d == 8 {
        '8'
    } else {
        '9'
    }
}

/// The decimal digits of `n`, most significant first, without leading zeros.
pub open spec fn decimal_digits(n: nat) -> Seq<char>
    decreases n,
{
    if n < 10 {
        seq![digit_char(n as int)]
    } else {
        decimal_digits(n / 10).push(digit_char((n % 10) as int))
    }
}

/// The decimal notation of `n`: a minus sign if it is negative, then its
/// digits.
pub open spec fn decimal_of(n: int) -> Seq<char> {
    if n < 0 {
        seq!['-'] + decimal_digits((-n) as nat)
    } else {
        decimal_digits(n as nat)
    }
}

/// The digit `d` as a string of one character.
fn digit_str(d: u64) -> (s: &'static str)
    requires
        d <= 9,
    ensures
        s@ == seq![digit_char(d as int)],
{
    proof {
        reveal_strlit("0");
        reveal_strlit("1");
        reveal_strlit("2");
        reveal_strlit("3");
        reveal_strlit("4");
        reveal_strlit("5");
        reveal_strlit("6");
        reveal_strlit("7");
        reveal_strlit("8");
        reveal_strlit("9");
    }
    let s = if d == 0 {
        "0"
    } else if d == 1 {
        "1"
    } else if d == 2 {
        "2"
    } else if d == 3 {
        "3"
    } else if d == 4 {
        "4"
    } else if d == 5 {
        "5"
    } else if d == 6 {
        "6"
    } else if d == 7 {
        "7"
    } else if d == 8 {
        "8"
    } else {
        "9"
    };
    assert(s@ =~= seq![digit_char(d as int)]);
    s
}

/// Appends the decimal notation of `n` to `out`.
pub fn append_unsigned(out: &mut String, n: u64)
    ensures
        final(out)@ == old(out)@ + decimal_digits(n as nat),
    decreases n,
{
    if n >= 10 {
        append_unsigned(out, n / 10);
    }
    out.append(digit_str(n % 10));
    assert(out@ =~= old(out)@ + decimal_digits(n as nat));
}

/// The decimal notation of `n`.
pub fn decimal_string(n: i64) -> (s: String)
    ensures
        s@ == decimal_of(n as int),
{
    let mut s = String::new();
    if n < 0 {
        proof {
            reveal_strlit("-");
        }
        s.append("-");
        // The magnitude of the smallest value is one above the largest, so it
        // is taken in the wider unsigned type.
        let magnitude: u64 = (-(n as i128)) as u64;
        append_unsigned(&mut s, magnitude);
        assert(s@ =~= decimal_of(n as int));
    } else {
        append_unsigned(&mut s, n as u64);
        assert(s@ =~= decimal_of(n as int));
    }
    s
}

/// Whether `c` is white space in the sense of Unicode, that is, whether
/// `char::is_whitespace` says so.
pub uninterp spec fn whitespace(c: char) -> bool;

/// The lower-case form of `s` as `str::to_lowercase` gives it.
pub uninterp spec fn lowercase_of(s: Seq<char>) -> Seq<char>;

/// Calls `char::is_whitespace` of the standard library, which says whether
/// Unicode counts the character as `White_Space`. The contract only gives
/// that answer its name.
#[verifier::external_body]
pub(crate) fn is_whitespace(c: char) -> (white: bool)
    ensures
        white == whitespace(c),
{
    c.is_whitespace()
}

/// Calls `str::to_lowercase` of the standard library, which gives the text
/// in lower case as Unicode defines it. The contract only gives the result
/// its name.
#[verifier::external_body]
pub(crate) fn to_lowercase(text: &str) -> (lower: String)
    ensures
        lower@ == lowercase_of(text@),
{
    text.to_lowercase()
}

/// `s` without the white space at its start.
pub open spec fn trim_start_of(s: Seq<char>) -> Seq<char>
    decreases s.len(),
{
    if s.len() > 0 && whitespace(s.first()) {
        trim_start_of(s.drop_first())
    } else {
        s
    }
}

/// `s` without the white space at its end.
pub open spec fn trim_end_of(s: Seq<char>) -> Seq<char>
    decreases s.len(),
{
    if s.len() > 0 && whitespace(s.last()) {
        trim_end_of(s.drop_last())
    } else {
        s
    }
}

/// `s` without the white space at its start and at its end.
pub open spec fn trimmed(s: Seq<char>) -> Seq<char> {
    trim_end_of(trim_start_of(s))
}

/// The pieces of `s` between the occurrences of `separator`: one more than
/// there are separators, some of them possibly empty.
pub open spec fn split_on(s: Seq<char>, separator: char) -> Seq<Seq<char>>
    decreases s.len(),
{
    if s.len() == 0 {
        seq![Seq::empty()]
    } else {
        let before = split_on(s.drop_last(), separator);
        if s.last() == separator {
            before.push(Seq::empty())
        } else {
            before.drop_last().push(before.last().push(s.last()))
        }
    }
}

/// Whether `c` is one of the ten decimal digits.
pub open spec fn is_digit(c: char) -> bool {
    '0' <= c <= '9'
}

/// The digit that `c` stands for.
pub open spec fn digit_of(c: char) -> int
    recommends
        is_digit(c),
{
    c as int - '0' as int
}

/// Whether `s` holds decimal digits only.
pub open spec fn all_digits(s: Seq<char>) -> bool {
    forall|i: int| 0 <= i < s.len() ==> is_digit(#[trigger] s[i])
}

/// The number that the digits of `s` spell; leading zeros do not count.
pub open spec fn digits_value(s: Seq<char>) -> int
    decreases s.len(),
{
    if s.len() == 0 {
        0
    } else {
        digits_value(s.drop_last()) * 10 + digit_of(s.last())
    }
}

/// The integer that `s` spells, if it spells one between `min` and `max`:
/// an optional sign and then at least one digit, nothing else. A plus sign
/// is accepted always, a minus sign only where `signed` is set.
pub open spec fn parse_integer(s: Seq<char>, signed: bool, min: int, max: int) -> Option<int> {
    let negative = signed && s.len() > 0 && s.first() == '-';
    let digits = if s.len() > 0 && (s.first() == '+' || negative) {
        s.drop_first()
    } else {
        s
    };
    let value = if negative {
        -digits_value(digits)
    } else {
        digits_value(digits)
    };
    if digits.len() > 0 && all_digits(digits) && min <= value <= max {
        Some(value)
    } else {
        None
    }
}

/// The characters of `text`.
pub fn chars_of(text: &str) -> (chars: Vec<char>)
    ensures
        chars@ == text@,
{
    let mut chars: Vec<char> = Vec::new();
    for c in it: text.chars()
        invariant
            chars@ == it.seq().take(it.index() as int),
            it.seq() == text@,
    {
        proof {
            assert(it.seq().take(it.index() + 1) =~= it.seq().take(it.index() as int).push(c));
        }
        chars.push(c);
    }
    proof {
        assert(text@.take(text@.len() as int) =~= text@);
    }
    chars
}

/// The bounds of `text[from..to]` without the white space at its ends.
pub fn trim_range(text: &Vec<char>, from: usize, to: usize) -> (range: (usize, usize))
    requires
        from <= to <= text.len(),
    ensures
        from <= range.0 <= range.1 <= to,
        text@.subrange(range.0 as int, range.1 as int) == trimmed(
            text@.subrange(from as int, to as int),
        ),
{
    let mut start = from;
    while start < to && is_whitespace(text[start])
        invariant
            from <= start <= to <= text.len(),
            trim_start_of(text@.subrange(from as int, to as int)) == trim_start_of(
                text@.subrange(start as int, to as int),
            ),
        decreases to - start,
    {
        proof {
            let rest = text@.subrange(start as int, to as int);
            assert(rest.first() == text@[start as int]);
            assert(rest.drop_first() =~= text@.subrange(start + 1, to as int));
        }
        start += 1;
    }
    proof {
        let rest = text@.subrange(start as int, to as int);
        if start < to {
            assert(rest.first() == text@[start as int]);
        }
        assert(trim_start_of(rest) == rest);
    }
    let mut end = to;
    while start < end && is_whitespace(text[end - 1])
        invariant
            start <= end <= to <= text.len(),
            trim_end_of(text@.subrange(start as int, to as int)) == trim_end_of(
                text@.subrange(start as int, end as int),
            ),
        decreases end - start,
    {
        proof {
            let rest = text@.subrange(start as int, end as int);
            assert(rest.last() == text@[end - 1]);
            assert(rest.drop_last() =~= text@.subrange(start as int, end - 1));
        }
        end -= 1;
    }
    proof {
        let rest = text@.subrange(start as int, end as int);
        if start < end {
            assert(rest.last() == text@[end - 1]);
        }
        assert(trim_end_of(rest) == rest);
    }
    (start, end)
}

/// The pieces that `ranges` cut out of `text`.
pub open spec fn pieces_of(text: Seq<char>, ranges: Seq<(usize, usize)>) -> Seq<Seq<char>> {
    ranges.map_values(|range: (usize, usize)| text.subrange(range.0 as int, range.1 as int))
}

/// The bounds of the pieces of `text` between the occurrences of
/// `separator`.
pub fn split_ranges(text: &Vec<char>, separator: char) -> (ranges: Vec<(usize, usize)>)
    ensures
        pieces_of(text@, ranges@) == split_on(text@, separator),
        forall|i: int|
            0 <= i < ranges.len() ==> (#[trigger] ranges[i]).0 <= ranges[i].1 <= text.len(),
{
    let mut ranges: Vec<(usize, usize)> = Vec::new();
    let mut start: usize = 0;
    let mut i: usize = 0;
    proof {
        assert(text@.take(0) =~= Seq::empty());
        assert(pieces_of(text@, ranges@.push((start, i))) =~= seq![Seq::empty()]);
    }
    while i < text.len()
        invariant
            start <= i <= text.len(),
            pieces_of(text@, ranges@.push((start, i))) == split_on(text@.take(i as int), separator),
            forall|k: int|
                0 <= k < ranges.len() ==> (#[trigger] ranges[k]).0 <= ranges[k].1 <= text.len(),
        decreases text.len() - i,
    {
        let ghost before = split_on(text@.take(i as int), separator);
        let ghost open = ranges@.push((start, i));
        proof {
            let next = text@.take(i + 1);
            assert(next.drop_last() =~= text@.take(i as int));
            assert(next.last() == text@[i as int]);
            assert(before.len() == open.len());
            assert(before.last() == pieces_of(text@, open).last());
            assert(before.last() == text@.subrange(start as int, i as int));
        }
        if text[i] == separator {
            ranges.push((start, i));
            start = i + 1;
            proof {
                let grown = ranges@.push((start, (i + 1) as usize));
                assert(ranges@ == open);
                assert(text@.subrange(start as int, i + 1) =~= Seq::empty());
                assert forall|k: int| 0 <= k < grown.len() implies pieces_of(text@, grown)[k]
                    == before.push(Seq::empty())[k] by {
                    if k < open.len() {
                        assert(pieces_of(text@, open)[k] == before[k]);
                    }
                }
                assert(pieces_of(text@, grown) =~= before.push(Seq::empty()));
            }
        } else {
            proof {
                let grown = ranges@.push((start, (i + 1) as usize));
                assert(text@.subrange(start as int, i + 1) =~= before.last().push(text@[i as int]));
                assert forall|k: int| 0 <= k < grown.len() implies pieces_of(text@, grown)[k]
                    == before.drop_last().push(before.last().push(text@[i as int]))[k] by {
                    if k < ranges.len() {
                        assert(pieces_of(text@, open)[k] == before[k]);
                    }
                }
                assert(pieces_of(text@, grown) =~= before.drop_last().push(
                    before.last().push(text@[i as int]),
                ));
            }
        }
        i += 1;
    }
    ranges.push((start, i));
    proof {
        assert(text@.take(text.len() as int) =~= text@);
    }
    ranges
}

/// The value of a longer run of digits is at least that of its start.
proof fn lemma_digits_value_grows(s: Seq<char>, k: int)
    requires
        all_digits(s),
        0 <= k <= s.len(),
    ensures
        0 <= digits_value(s.take(k)) <= digits_value(s),
    decreases s.len() - k,
{
    if k == s.len() {
        assert(s.take(k) =~= s);
        lemma_digits_value_positive(s);
    } else {
        lemma_digits_value_grows(s, k + 1);
        let longer = s.take(k + 1);
        assert(longer.drop_last() =~= s.take(k));
        assert(longer.last() == s[k]);
        lemma_digits_value_positive(s.take(k));
    }
}

/// A run of digits spells no negative number.
proof fn lemma_digits_value_positive(s: Seq<char>)
    requires
        all_digits(s),
    ensures
        0 <= digits_value(s),
    decreases s.len(),
{
    if s.len() > 0 {
        assert(is_digit(s[s.len() - 1]));
        lemma_digits_value_positive(s.drop_last());
    }
}

/// The number that `text[from..to]` spells, if it holds digits only, at
/// least one, and the number is at most `limit`.
fn parse_digits(text: &Vec<char>, from: usize, to: usize, limit: u64) -> (value: Option<u64>)
    requires
        from <= to <= text.len(),
    ensures
        value matches Some(v) ==> {
            &&& from < to
            &&& all_digits(text@.subrange(from as int, to as int))
            &&& v == digits_value(text@.subrange(from as int, to as int))
            &&& v <= limit
        },
        value is None ==> from == to || !all_digits(text@.subrange(from as int, to as int))
            || digits_value(text@.subrange(from as int, to as int)) > limit,
{
    let ghost whole = text@.subrange(from as int, to as int);
    if from == to {
        return None;
    }
    let mut value: u64 = 0;
    let mut i: usize = from;
    proof {
        assert(whole.take(0) =~= Seq::empty());
    }
    while i < to
        invariant
            from <= i <= to <= text.len(),
            whole == text@.subrange(from as int, to as int),
            all_digits(whole.take(i - from)),
            value == digits_value(whole.take(i - from)),
            value <= limit,
        decreases to - i,
    {
        let c = text[i];
        proof {
            let next = whole.take(i - from + 1);
            assert(next.drop_last() =~= whole.take(i - from));
            assert(next.last() == c);
            assert(whole[i - from] == c);
        }
        if !(c >= '0' && c <= '9') {
            return None;
        }
        let digit: u64 = (c as u64) - ('0' as u64);
        let wide: u128 = (value as u128) * 10 + (digit as u128);
        proof {
            let next = whole.take(i - from + 1);
            assert forall|k: int| 0 <= k < next.len() implies is_digit(#[trigger] next[k]) by {
                if k < i - from {
                    assert(next[k] == whole.take(i - from)[k]);
                }
            }
            assert(wide == digits_value(next));
        }
        if wide > limit as u128 {
            proof {
                if all_digits(whole) {
                    lemma_digits_value_grows(whole, i - from + 1);
                }
            }
            return None;
        }
        value = wide as u64;
        i += 1;
    }
    proof {
        assert(whole.take(to - from) =~= whole);
    }
    Some(value)
}

/// The signed 64-bit integer that `text[from..to]` spells, if it spells one.
pub fn parse_i64(text: &Vec<char>, from: usize, to: usize) -> (value: Option<i64>)
    requires
        from <= to <= text.len(),
    ensures
        match value {
            Some(v) => parse_integer(
                text@.subrange(from as int, to as int),
                true,
                i64::MIN as int,
                i64::MAX as int,
            ) == Some(v as int),
            None => parse_integer(
                text@.subrange(from as int, to as int),
                true,
                i64::MIN as int,
                i64::MAX as int,
            ) is None,
        },
{
    let ghost whole = text@.subrange(from as int, to as int);
    if from == to {
        return None;
    }
    let first = text[from];
    proof {
        assert(whole.first() == first);
        assert(whole.drop_first() =~= text@.subrange(from + 1, to as int));
    }
    if first == '-' {
        match parse_digits(text, from + 1, to, 0x8000_0000_0000_0000) {
            Some(magnitude) => Some((-(magnitude as i128)) as i64),
            None => None,
        }
    } else {
        let begin = if first == '+' {
            from + 1
        } else {
            from
        };
        match parse_digits(text, begin, to, 0x7fff_ffff_ffff_ffff) {
            Some(magnitude) => Some(magnitude as i64),
            None => None,
        }
    }
}

/// The unsigned integer of at most `max` that `text[from..to]` spells, if it
/// spells one.
pub fn parse_unsigned(text: &Vec<char>, from: usize, to: usize, max: u64) -> (value: Option<u64>)
    requires
        from <= to <= text.len(),
    ensures
        match value {
            Some(v) => parse_integer(text@.subrange(from as int, to as int), false, 0, max as int)
                == Some(v as int),
            None => parse_integer(text@.subrange(from as int, to as int), false, 0, max as int)
                is None,
        },
{
    let ghost whole = text@.subrange(from as int, to as int);
    if from == to {
        return None;
    }
    let first = text[from];
    proof {
        assert(whole.first() == first);
        assert(whole.drop_first() =~= text@.subrange(from + 1, to as int));
    }
    let begin = if first == '+' {
        from + 1
    } else {
        from
    };
    proof {
        let digits = text@.subrange(begin as int, to as int);
        if begin < to && all_digits(digits) {
            lemma_digits_value_positive(digits);
        }
    }
    parse_digits(text, begin, to, max)
}

/// The pieces put together again, with `between` between each two of them.
pub open spec fn joined(pieces: Seq<Seq<char>>, between: Seq<char>) -> Seq<char>
    decreases pieces.len(),
{
    if pieces.len() == 0 {
        Seq::empty()
    } else if pieces.len() == 1 {
        pieces[0]
    } else {
        joined(pieces.drop_last(), between) + between + pieces.last()
    }
}

/// The digits of a number spell that number.
pub proof fn lemma_digits_spell_the_number(n: nat)
    ensures
        decimal_digits(n).len() >= 1,
        all_digits(decimal_digits(n)),
        digits_value(decimal_digits(n)) == n,
    decreases n,
{
    if n < 10 {
        let digits = decimal_digits(n);
        assert(digits.drop_last() =~= Seq::empty());
        assert(digits_value(digits.drop_last()) == 0);
        assert(digits.last() == digit_char(n as int));
    } else {
        lemma_digits_spell_the_number(n / 10);
        let digits = decimal_digits(n);
        let before = decimal_digits(n / 10);
        assert(digits.drop_last() =~= before);
        assert(digits.last() == digit_char((n % 10) as int));
        assert forall|i: int| 0 <= i < digits.len() implies is_digit(#[trigger] digits[i]) by {
            if i < before.len() {
                assert(digits[i] == before[i]);
            }
        }
    }
}

/// Writing and reading agree: the decimal notation of a number within the
/// bounds is read as that number.
pub proof fn lemma_decimal_is_read_back(n: int, min: int, max: int)
    requires
        min <= n <= max,
    ensures
        parse_integer(decimal_of(n), true, min, max) == Some(n),
        n >= 0 ==> parse_integer(decimal_of(n), false, min, max) == Some(n),
{
    let text = decimal_of(n);
    if n < 0 {
        let digits = decimal_digits((-n) as nat);
        lemma_digits_spell_the_number((-n) as nat);
        assert(text.first() == '-');
        assert(text.drop_first() =~= digits);
    } else {
        lemma_digits_spell_the_number(n as nat);
        assert(is_digit(text[0]));
    }
}

/// A text falls into at least one piece, and no piece holds the separator.
pub proof fn lemma_split_pieces(s: Seq<char>, separator: char)
    ensures
        split_on(s, separator).len() >= 1,
        forall|i: int, j: int|
            0 <= i < split_on(s, separator).len() && 0 <= j < split_on(s, separator)[i].len()
                ==> #[trigger] split_on(s, separator)[i][j] != separator,
    decreases s.len(),
{
    if s.len() > 0 {
        lemma_split_pieces(s.drop_last(), separator);
    }
}

/// Splitting loses nothing: the pieces of a text, put together again with
/// the separator between them, are the text.
pub proof fn lemma_split_joins_back(s: Seq<char>, separator: char)
    ensures
        joined(split_on(s, separator), seq![separator]) == s,
    decreases s.len(),
{
    let between = seq![separator];
    if s.len() == 0 {
        assert(split_on(s, separator)[0] =~= s);
    } else {
        let before = split_on(s.drop_last(), separator);
        lemma_split_pieces(s.drop_last(), separator);
        lemma_split_joins_back(s.drop_last(), separator);
        if s.last() == separator {
            let pieces = before.push(Seq::empty());
            assert(pieces.drop_last() =~= before);
            assert(joined(pieces, between) =~= s.drop_last() + between);
            assert(s.drop_last() + between =~= s);
        } else {
            let grown = before.last().push(s.last());
            let pieces = before.drop_last().push(grown);
            assert(pieces.drop_last() =~= before.drop_last());
            assert(pieces.last() == grown);
            if before.len() == 1 {
                assert(before[0] == s.drop_last());
                assert(grown =~= s);
            } else {
                assert(joined(pieces, between) =~= joined(before, between).push(s.last()));
                assert(s.drop_last().push(s.last()) =~= s);
            }
        }
    }
}

/// `s` with `replacement` in the place of every occurrence of `c`.
pub open spec fn replaced(s: Seq<char>, c: char, replacement: Seq<char>) -> Seq<char> {
    joined(split_on(s, c), replacement)
}

/// `text` with `replacement` in the place of every occurrence of `c`.
pub fn replace_char(text: &str, c: char, replacement: &str) -> (out: String)
    ensures
        out@ == replaced(text@, c, replacement@),
{
    let chars = chars_of(text);
    let ranges = split_ranges(&chars, c);
    let ghost pieces = split_on(text@, c);
    let mut out = String::new();
    let mut i: usize = 0;
    proof {
        assert(pieces.take(0) =~= Seq::empty());
    }
    while i < ranges.len()
        invariant
            i <= ranges.len(),
            chars@ == text@,
            pieces == pieces_of(chars@, ranges@),
            forall|k: int|
                0 <= k < ranges.len() ==> (#[trigger] ranges[k]).0 <= ranges[k].1 <= chars.len(),
            out@ == joined(pieces.take(i as int), replacement@),
        decreases ranges.len() - i,
    {
        let range = ranges[i];
        proof {
            let next = pieces.take(i + 1);
            assert(next.drop_last() =~= pieces.take(i as int));
            assert(next.last() == pieces[i as int]);
            assert(pieces[i as int] == chars@.subrange(range.0 as int, range.1 as int));
            if i == 0 {
                assert(next[0] == pieces[0]);
            }
        }
        if i > 0 {
            out.append(replacement);
        }
        out.append(text.substring_char(range.0, range.1));
        proof {
            if i == 0 {
                assert(out@ =~= pieces[0]);
            }
        }
        i += 1;
    }
    proof {
        assert(pieces.take(ranges.len() as int) =~= pieces);
    }
    out
}

/// The characters of `text[from..to]`.
pub fn copy_range(text: &Vec<char>, from: usize, to: usize) -> (part: Vec<char>)
    requires
        from <= to <= text.len(),
    ensures
        part@ == text@.subrange(from as int, to as int),
{
    let mut part: Vec<char> = Vec::new();
    let mut i: usize = from;
    while i < to
        invariant
            from <= i <= to <= text.len(),
            part@ == text@.subrange(from as int, i as int),
        decreases to - i,
    {
        part.push(text[i]);
        assert(part@ =~= text@.subrange(from as int, i + 1));
        i += 1;
    }
    part
}

/// `s` without the characters `c` at its start.
pub open spec fn strip_start_of(s: Seq<char>, c: char) -> Seq<char>
    decreases s.len(),
{
    if s.len() > 0 && s.first() == c {
        strip_start_of(s.drop_first(), c)
    } else {
        s
    }
}

/// `s` without the characters `c` at its end.
pub open spec fn strip_end_of(s: Seq<char>, c: char) -> Seq<char>
    decreases s.len(),
{
    if s.len() > 0 && s.last() == c {
        strip_end_of(s.drop_last(), c)
    } else {
        s
    }
}

/// `s` without the characters `c` at its start and at its end.
pub open spec fn stripped(s: Seq<char>, c: char) -> Seq<char> {
    strip_end_of(strip_start_of(s, c), c)
}

/// The bounds of `text[from..to]` without the characters `c` at its ends.
pub fn strip_range(text: &Vec<char>, from: usize, to: usize, c: char) -> (range: (usize, usize))
    requires
        from <= to <= text.len(),
    ensures
        from <= range.0 <= range.1 <= to,
        text@.subrange(range.0 as int, range.1 as int) == stripped(
            text@.subrange(from as int, to as int),
            c,
        ),
{
    let mut start = from;
    while start < to && text[start] == c
        invariant
            from <= start <= to <= text.len(),
            strip_start_of(text@.subrange(from as int, to as int), c) == strip_start_of(
                text@.subrange(start as int, to as int),
                c,
            ),
        decreases to - start,
    {
        proof {
            let rest = text@.subrange(start as int, to as int);
            assert(rest.first() == text@[start as int]);
            assert(rest.drop_first() =~= text@.subrange(start + 1, to as int));
        }
        start += 1;
    }
    proof {
        let rest = text@.subrange(start as int, to as int);
        if start < to {
            assert(rest.first() == text@[start as int]);
        }
        assert(strip_start_of(rest, c) == rest);
    }
    let mut end = to;
    while start < end && text[end - 1] == c
        invariant
            start <= end <= to <= text.len(),
            strip_end_of(text@.subrange(start as int, to as int), c) == strip_end_of(
                text@.subrange(start as int, end as int),
                c,
            ),
        decreases end - start,
    {
        proof {
            let rest = text@.subrange(start as int, end as int);
            assert(rest.last() == text@[end - 1]);
            assert(rest.drop_last() =~= text@.subrange(start as int, end - 1));
        }
        end -= 1;
    }
    proof {
        let rest = text@.subrange(start as int, end as int);
        if start < end {
            assert(rest.last() == text@[end - 1]);
        }
        assert(strip_end_of(rest, c) == rest);
    }
    (start, end)
}

} // verus!
