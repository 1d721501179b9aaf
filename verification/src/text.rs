//! Character-level helpers shared by the path, filter and signature code:
//! searching, prefixes, decimal numerals and hex digits.

use vstd::prelude::*;
use vstd::string::StrSliceExecFns;
use vstd::string::StringExecFns;
use vstd::string::StringSliceAdditionalSpecFns;

verus! {

/// The characters of `s`, in order.
pub fn chars_of(s: &str) -> (out: Vec<char>)
    ensures
        out@ == s@,
{
    broadcast use vstd::string::group_string_axioms;

    let mut out: Vec<char> = Vec::new();
    for c in it: s.chars()
        invariant
            out@ == it.seq().take(it.index()),
            it.seq() == s@,
    {
        out.push(c);
    }
    assert(out@ == s@);
    out
}

/// Whether two strings hold the same characters.
pub fn str_equal(a: &str, b: &str) -> (r: bool)
    ensures
        r == (a@ == b@),
{
    broadcast use vstd::utf8::encode_utf8_decode_utf8;

    let x = a.as_bytes();
    let y = b.as_bytes();
    if x.len() != y.len() {
        return false;
    }
    let mut i: usize = 0;
    while i < x.len()
        invariant
            x@ == a.spec_bytes(),
            y@ == b.spec_bytes(),
            x.len() == y.len(),
            i <= x.len(),
            forall|j: int| 0 <= j < i ==> x@[j] == y@[j],
        decreases x.len() - i,
    {
        if x[i] != y[i] {
            return false;
        }
        i = i + 1;
    }
    assert(x@ =~= y@);
    assert(vstd::utf8::decode_utf8(vstd::utf8::encode_utf8(a@)) == a@);
    assert(vstd::utf8::decode_utf8(vstd::utf8::encode_utf8(b@)) == b@);
    true
}

/// The characters `from..to` of `s`, as a string of their own.
pub fn substring(s: &str, from: usize, to: usize) -> (r: String)
    requires
        from <= to <= s@.len(),
    ensures
        r@ == s@.subrange(from as int, to as int),
{
    String::from_str(s.substring_char(from, to))
}

/// Position of the first `c` in `s`, or `s.len()` when `s` holds none.
pub open spec fn first_index_of(s: Seq<char>, c: char) -> int
    decreases s.len(),
{
    if s.len() == 0 {
        0
    } else if s[0] == c {
        0
    } else {
        1 + first_index_of(s.skip(1), c)
    }
}

/// `first_index_of` is the one position that has no `c` before it and either
/// holds `c` or is the end.
pub proof fn lemma_first_index_of(s: Seq<char>, c: char, k: int)
    requires
        0 <= k <= s.len(),
        forall|j: int| 0 <= j < k ==> s[j] != c,
        k < s.len() ==> s[k] == c,
    ensures
        first_index_of(s, c) == k,
    decreases s.len(),
{
    if s.len() > 0 && s[0] != c {
        assert forall|j: int| 0 <= j < k - 1 implies s.skip(1)[j] != c by {
            assert(s.skip(1)[j] == s[j + 1]);
        }
        lemma_first_index_of(s.skip(1), c, k - 1);
    }
}

/// Position of the first `c` in `s[from..to]`, or `to` when it holds none.
pub fn find_char(s: &Vec<char>, from: usize, to: usize, c: char) -> (k: usize)
    requires
        from <= to <= s.len(),
    ensures
        from <= k <= to,
        k == from + first_index_of(s@.subrange(from as int, to as int), c),
{
    let mut k: usize = from;
    while k < to && s[k] != c
        invariant
            from <= k <= to <= s.len(),
            forall|j: int| from <= j < k ==> s@[j] != c,
        decreases to - k,
    {
        k = k + 1;
    }
    proof {
        lemma_first_index_of(s@.subrange(from as int, to as int), c, k - from);
    }
    k
}

/// `s` without its longest run of trailing `c`.
pub open spec fn trim_trailing(s: Seq<char>, c: char) -> Seq<char>
    decreases s.len(),
{
    if s.len() > 0 && s.last() == c {
        trim_trailing(s.drop_last(), c)
    } else {
        s
    }
}

/// The end of `s[from..to]` once trailing `c` are dropped.
pub fn trim_trailing_end(s: &Vec<char>, from: usize, to: usize, c: char) -> (end: usize)
    requires
        from <= to <= s.len(),
    ensures
        from <= end <= to,
        s@.subrange(from as int, end as int) == trim_trailing(
            s@.subrange(from as int, to as int),
            c,
        ),
{
    let mut end: usize = to;
    while end > from && s[end - 1] == c
        invariant
            from <= end <= to <= s.len(),
            trim_trailing(s@.subrange(from as int, end as int), c) == trim_trailing(
                s@.subrange(from as int, to as int),
                c,
            ),
        decreases end,
    {
        assert(s@.subrange(from as int, end as int).drop_last() == s@.subrange(
            from as int,
            end - 1,
        ));
        end = end - 1;
    }
    end
}

/// `s` without the prefix `p`, or `s` itself when it does not start with `p`.
pub open spec fn strip_prefix(s: Seq<char>, p: Seq<char>) -> Seq<char> {
    if p.is_prefix_of(s) {
        s.skip(p.len() as int)
    } else {
        s
    }
}

/// Whether `s[from..]` starts with `p`.
pub fn starts_with_at(s: &Vec<char>, from: usize, p: &Vec<char>) -> (r: bool)
    requires
        from <= s.len(),
    ensures
        r == p@.is_prefix_of(s@.skip(from as int)),
{
    if s.len() - from < p.len() {
        return false;
    }
    let mut i: usize = 0;
    while i < p.len()
        invariant
            from <= s.len(),
            p.len() <= s.len() - from,
            i <= p.len(),
            forall|j: int| 0 <= j < i ==> s@[from + j] == p@[j],
        decreases p.len() - i,
    {
        if s[from + i] != p[i] {
            assert(s@.skip(from as int)[i as int] != p@[i as int]);
            return false;
        }
        i = i + 1;
    }
    assert(p@ =~= s@.skip(from as int).subrange(0, p@.len() as int));
    true
}

/// Whether `needle` occurs in `hay` as a contiguous run.
pub open spec fn is_substring(hay: Seq<char>, needle: Seq<char>) -> bool {
    exists|i: int| occurs_at(hay, needle, i)
}

/// Whether `needle` occurs in `hay` starting at `i`.
pub open spec fn occurs_at(hay: Seq<char>, needle: Seq<char>, i: int) -> bool {
    0 <= i && i + needle.len() <= hay.len() && hay.subrange(i, i + needle.len()) == needle
}

/// Substring search.
pub fn contains_chars(hay: &Vec<char>, needle: &Vec<char>) -> (r: bool)
    ensures
        r == is_substring(hay@, needle@),
{
    if needle.len() > hay.len() {
        assert forall|i: int| !occurs_at(hay@, needle@, i) by {}
        return false;
    }
    let last: usize = hay.len() - needle.len();
    let mut start: usize = 0;
    while start <= last
        invariant
            needle.len() <= hay.len(),
            last == hay.len() - needle.len(),
            start <= last + 1,
            forall|i: int| 0 <= i < start ==> !occurs_at(hay@, needle@, i),
        decreases last + 1 - start,
    {
        let found = starts_with_at(hay, start, needle);
        if found {
            assert(occurs_at(hay@, needle@, start as int)) by {
                assert(hay@.skip(start as int).subrange(0, needle@.len() as int) =~= hay@.subrange(
                    start as int,
                    start + needle@.len(),
                ));
            }
            return true;
        }
        assert(!occurs_at(hay@, needle@, start as int)) by {
            if occurs_at(hay@, needle@, start as int) {
                assert(hay@.skip(start as int).subrange(0, needle@.len() as int) =~= hay@.subrange(
                    start as int,
                    start + needle@.len(),
                ));
            }
        }
        start = start + 1;
    }
    assert forall|i: int| !occurs_at(hay@, needle@, i) by {}
    false
}

/// Whether `c` is an ASCII decimal digit.
pub open spec fn is_digit(c: char) -> bool {
    '0' <= c && c <= '9'
}

/// The value of the digit `c`.
pub open spec fn digit_value(c: char) -> int {
    c as int - '0' as int
}

/// Whether every character of `s` is a digit.
pub open spec fn all_digits(s: Seq<char>) -> bool {
    forall|i: int| 0 <= i < s.len() ==> is_digit(#[trigger] s[i])
}

/// The number that the digit string `s` denotes in base ten.
pub open spec fn digits_value(s: Seq<char>) -> int
    decreases s.len(),
{
    if s.len() == 0 {
        0
    } else {
        digits_value(s.drop_last()) * 10 + digit_value(s.last())
    }
}

/// A prefix of a digit string denotes no more than the whole.
pub proof fn lemma_digits_value_prefix(s: Seq<char>, n: int)
    requires
        all_digits(s),
        0 <= n <= s.len(),
    ensures
        0 <= digits_value(s.take(n)) <= digits_value(s),
    decreases s.len() - n,
{
    if n == s.len() {
        assert(s.take(n) == s);
        lemma_digits_value_nonnegative(s);
    } else {
        lemma_digits_value_prefix(s, n + 1);
        let longer = s.take(n + 1);
        assert(longer.drop_last() == s.take(n));
        assert(is_digit(longer.last())) by {
            assert(longer.last() == s[n]);
        }
        lemma_digits_value_nonnegative(s.take(n));
    }
}

/// A digit string denotes a natural number.
pub proof fn lemma_digits_value_nonnegative(s: Seq<char>)
    requires
        all_digits(s),
    ensures
        0 <= digits_value(s),
    decreases s.len(),
{
    if s.len() > 0 {
        assert(is_digit(s.last())) by {
            assert(s.last() == s[s.len() - 1]);
        }
        lemma_digits_value_nonnegative(s.drop_last());
    }
}

/// The number that the digit string `s` denotes: `Some` when `s` is not
/// empty, holds only digits and denotes at most `max`.
pub open spec fn magnitude(s: Seq<char>, max: int) -> Option<int> {
    if s.len() > 0 && all_digits(s) && digits_value(s) <= max {
        Some(digits_value(s))
    } else {
        None
    }
}

/// Reads the digit string `s[from..to]` as a number of at most `max`.
pub fn parse_magnitude(s: &Vec<char>, from: usize, to: usize, max: u64) -> (r: Option<u64>)
    requires
        from <= to <= s.len(),
    ensures
        match r {
            Some(v) => magnitude(s@.subrange(from as int, to as int), max as int) == Some(v as int),
            None => magnitude(s@.subrange(from as int, to as int), max as int) is None,
        },
{
    let ghost digits = s@.subrange(from as int, to as int);
    if from == to {
        return None;
    }
    let mut acc: u64 = 0;
    let mut i: usize = from;
    while i < to
        invariant
            from <= i <= to <= s.len(),
            digits == s@.subrange(from as int, to as int),
            all_digits(digits.take(i - from)),
            acc as int == digits_value(digits.take(i - from)),
            acc <= max,
        decreases to - i,
    {
        let c = s[i];
        assert(c == digits[i - from]);
        if c < '0' || c > '9' {
            assert(!is_digit(digits[i - from]));
            return None;
        }
        let d: u64 = (c as u32 - '0' as u32) as u64;
        let ghost longer = digits.take(i - from + 1);
        proof {
            assert(longer.drop_last() == digits.take(i - from));
            assert(longer.last() == c);
            assert(digits_value(longer) == acc * 10 + d);
            assert forall|j: int| 0 <= j < longer.len() implies is_digit(#[trigger] longer[j]) by {
                if j < i - from {
                    assert(longer[j] == digits.take(i - from)[j]);
                }
            }
        }
        let next: u128 = acc as u128 * 10 + d as u128;
        if next > max as u128 {
            proof {
                if all_digits(digits) {
                    lemma_digits_value_prefix(digits, i - from + 1);
                }
            }
            return None;
        }
        acc = next as u64;
        i = i + 1;
    }
    assert(digits.take(i - from) == digits);
    Some(acc)
}

/// What a decimal numeral denotes: an optional `+` (or `-`, where
/// `signed`), then one or more digits. `None` for any other text and for a
/// number outside `min..=max`.
pub open spec fn parse_decimal(s: Seq<char>, signed: bool, min: int, max: int) -> Option<int> {
    if s.len() > 0 && s[0] == '-' && signed {
        match magnitude(s.skip(1), -min) {
            Some(m) => Some(-m),
            None => None,
        }
    } else if s.len() > 0 && s[0] == '+' {
        magnitude(s.skip(1), max)
    } else {
        magnitude(s, max)
    }
}

/// The signed 64-bit integer that the numeral `s` denotes.
pub open spec fn parse_i64(s: Seq<char>) -> Option<i64> {
    match parse_decimal(s, true, i64::MIN as int, i64::MAX as int) {
        Some(v) => Some(v as i64),
        None => None,
    }
}

/// The index that the numeral `s` denotes.
pub open spec fn parse_usize(s: Seq<char>) -> Option<usize> {
    match parse_decimal(s, false, 0, usize::MAX as int) {
        Some(v) => Some(v as usize),
        None => None,
    }
}

/// Reads a signed decimal numeral.
pub fn read_i64(s: &Vec<char>) -> (r: Option<i64>)
    ensures
        r == parse_i64(s@),
{
    let n = s.len();
    if n > 0 && s[0] == '-' {
        assert(s@.subrange(1, n as int) == s@.skip(1));
        match parse_magnitude(s, 1, n, 0x8000_0000_0000_0000u64) {
            Some(m) => {
                if m == 0x8000_0000_0000_0000u64 {
                    Some(i64::MIN)
                } else {
                    Some(-(m as i64))
                }
            },
            None => None,
        }
    } else {
        let from: usize = if n > 0 && s[0] == '+' {
            1
        } else {
            0
        };
        assert(s@.subrange(from as int, n as int) == s@.skip(from as int));
        assert(s@.skip(0) == s@);
        match parse_magnitude(s, from, n, 0x7fff_ffff_ffff_ffffu64) {
            Some(m) => Some(m as i64),
            None => None,
        }
    }
}

/// Reads an unsigned decimal numeral from `s[from..to]`.
pub fn read_usize(s: &Vec<char>, from: usize, to: usize) -> (r: Option<usize>)
    requires
        from <= to <= s.len(),
    ensures
        r == parse_usize(s@.subrange(from as int, to as int)),
{
    let ghost text = s@.subrange(from as int, to as int);
    let start: usize = if from < to && s[from] == '+' {
        from + 1
    } else {
        from
    };
    assert(s@.subrange(start as int, to as int) == text.skip(start - from));
    assert(text.skip(0) == text);
    match parse_magnitude(s, start, to, usize::MAX as u64) {
        Some(m) => Some(m as usize),
        None => None,
    }
}

/// The lowercase hex digit for `n` in `0..16`.
pub open spec fn hex_digit(n: int) -> char {
    if n < 10 {
        ('0' as int + n) as char
    } else {
        ('a' as int + n - 10) as char
    }
}

/// The character for the digit `d`.
pub open spec fn digit_char(d: int) -> char {
    ('0' as int + d) as char
}

/// The digits of `n` in base ten, most significant first, no leading zero.
pub open spec fn decimal_digits(n: nat) -> Seq<char>
    decreases n,
{
    if n < 10 {
        seq![digit_char(n as int)]
    } else {
        decimal_digits(n / 10).push(digit_char((n % 10) as int))
    }
}

/// The decimal text of `n`, with `-` in front of a negative number.
pub open spec fn decimal_text(n: int) -> Seq<char> {
    if n < 0 {
        seq!['-'] + decimal_digits((-n) as nat)
    } else {
        decimal_digits(n as nat)
    }
}

fn digit_text(d: u64) -> (r: &'static str)
    requires
        d < 10,
    ensures
        r@ == seq![digit_char(d as int)],
{
    proof {
        reveal_strlit("0");
        reveal_strlit("1");
        reveal_strlit("2");
        reveal_strlit("3");
        reveal_strlit("4");
        reveal_strlit("5");
        reveal_strlit("6");
        reveal_strlit("7");
        reveal_strlit("8");
        reveal_strlit("9");
    }
    let r = if d == 0 {
        "0"
    } else if d == 1 {
        "1"
    } else if d == 2 {
        "2"
    } else if d == 3 {
        "3"
    } else if d == 4 {
        "4"
    } else if d == 5 {
        "5"
    } else if d == 6 {
        "6"
    } else if d == 7 {
        "7"
    } else if d == 8 {
        "8"
    } else {
        "9"
    };
    assert(r@ =~= seq![digit_char(d as int)]);
    r
}

/// Appends the decimal digits of `n` to `out`.
pub fn push_decimal(n: u64, out: &mut String)
    ensures
        final(out)@ == old(out)@ + decimal_digits(n as nat),
    decreases n,
{
    if n >= 10 {
        push_decimal(n / 10, out);
    }
    out.append(digit_text(n % 10));
    assert(out@ =~= old(out)@ + decimal_digits(n as nat));
}

/// The decimal text of `n`.
pub fn u64_text(n: u64) -> (r: String)
    ensures
        r@ == decimal_text(n as int),
{
    let mut out = String::new();
    push_decimal(n, &mut out);
    assert(out@ =~= decimal_text(n as int));
    out
}

/// The decimal text of `n`.
pub fn i64_text(n: i64) -> (r: String)
    ensures
        r@ == decimal_text(n as int),
{
    let mut out = String::new();
    if n < 0 {
        proof {
            reveal_strlit("-");
        }
        out.append("-");
        let m: u64 = if n == i64::MIN {
            0x8000_0000_0000_0000u64
        } else {
            (-n) as u64
        };
        push_decimal(m, &mut out);
        assert(out@ =~= decimal_text(n as int));
    } else {
        push_decimal(n as u64, &mut out);
        assert(out@ =~= decimal_text(n as int));
    }
    out
}

} // verus!
