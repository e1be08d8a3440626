//! Character-level building blocks shared by the URL, log-line and HTML
//! scanners: character classes, substring search, decimal numbers, trimming
//! and replacement, each with the mathematical statement it implements.

use vstd::prelude::*;

verus! {

// ---------------------------------------------------------------------
//  Character classes
// ---------------------------------------------------------------------

/// Unicode `White_Space` (the class of `char::is_whitespace` and of `\s`).
pub open spec fn is_space(c: char) -> bool {
    let u = c as u32;
    (0x9 <= u && u <= 0xd) || u == 0x20 || u == 0x85 || u == 0xa0 || u == 0x1680
        || (0x2000 <= u && u <= 0x200a) || u == 0x2028 || u == 0x2029 || u == 0x202f
        || u == 0x205f || u == 0x3000
}

/// Unicode general category `Nd` (decimal digits of every script, the class `\d`).
pub open spec fn is_decimal(c: char) -> bool {
    let u = c as u32;
    (0x30 <= u && u <= 0x39)
    || (0x660 <= u && u <= 0x669)
    || (0x6f0 <= u && u <= 0x6f9)
    || (0x7c0 <= u && u <= 0x7c9)
    || (0x966 <= u && u <= 0x96f)
    || (0x9e6 <= u && u <= 0x9ef)
    || (0xa66 <= u && u <= 0xa6f)
    || (0xae6 <= u && u <= 0xaef)
    || (0xb66 <= u && u <= 0xb6f)
    || (0xbe6 <= u && u <= 0xbef)
    || (0xc66 <= u && u <= 0xc6f)
    || (0xce6 <= u && u <= 0xcef)
    || (0xd66 <= u && u <= 0xd6f)
    || (0xde6 <= u && u <= 0xdef)
    || (0xe50 <= u && u <= 0xe59)
    || (0xed0 <= u && u <= 0xed9)
    || (0xf20 <= u && u <= 0xf29)
    || (0x1040 <= u && u <= 0x1049)
    || (0x1090 <= u && u <= 0x1099)
    || (0x17e0 <= u && u <= 0x17e9)
    || (0x1810 <= u && u <= 0x1819)
    || (0x1946 <= u && u <= 0x194f)
    || (0x19d0 <= u && u <= 0x19d9)
    || (0x1a80 <= u && u <= 0x1a89)
    || (0x1a90 <= u && u <= 0x1a99)
    || (0x1b50 <= u && u <= 0x1b59)
    || (0x1bb0 <= u && u <= 0x1bb9)
    || (0x1c40 <= u && u <= 0x1c49)
    || (0x1c50 <= u && u <= 0x1c59)
    || (0xa620 <= u && u <= 0xa629)
    || (0xa8d0 <= u && u <= 0xa8d9)
    || (0xa900 <= u && u <= 0xa909)
    || (0xa9d0 <= u && u <= 0xa9d9)
    || (0xa9f0 <= u && u <= 0xa9f9)
    || (0xaa50 <= u && u <= 0xaa59)
    || (0xabf0 <= u && u <= 0xabf9)
    || (0xff10 <= u && u <= 0xff19)
    || (0x104a0 <= u && u <= 0x104a9)
    || (0x10d30 <= u && u <= 0x10d39)
    || (0x10d40 <= u && u <= 0x10d49)
    || (0x11066 <= u && u <= 0x1106f)
    || (0x110f0 <= u && u <= 0x110f9)
    || (0x11136 <= u && u <= 0x1113f)
    || (0x111d0 <= u && u <= 0x111d9)
    || (0x112f0 <= u && u <= 0x112f9)
    || (0x11450 <= u && u <= 0x11459)
    || (0x114d0 <= u && u <= 0x114d9)
    || (0x11650 <= u && u <= 0x11659)
    || (0x116c0 <= u && u <= 0x116c9)
    || (0x116d0 <= u && u <= 0x116e3)
    || (0x11730 <= u && u <= 0x11739)
    || (0x118e0 <= u && u <= 0x118e9)
    || (0x11950 <= u && u <= 0x11959)
    || (0x11bf0 <= u && u <= 0x11bf9)
    || (0x11c50 <= u && u <= 0x11c59)
    || (0x11d50 <= u && u <= 0x11d59)
    || (0x11da0 <= u && u <= 0x11da9)
    || (0x11f50 <= u && u <= 0x11f59)
    || (0x16130 <= u && u <= 0x16139)
    || (0x16a60 <= u && u <= 0x16a69)
    || (0x16ac0 <= u && u <= 0x16ac9)
    || (0x16b50 <= u && u <= 0x16b59)
    || (0x16d70 <= u && u <= 0x16d79)
    || (0x1ccf0 <= u && u <= 0x1ccf9)
    || (0x1d7ce <= u && u <= 0x1d7ff)
    || (0x1e140 <= u && u <= 0x1e149)
    || (0x1e2f0 <= u && u <= 0x1e2f9)
    || (0x1e4f0 <= u && u <= 0x1e4f9)
    || (0x1e5f1 <= u && u <= 0x1e5fa)
    || (0x1e950 <= u && u <= 0x1e959)
    || (0x1fbf0 <= u && u <= 0x1fbf9)
}

pub open spec fn is_ascii_digit(c: char) -> bool {
    '0' <= c && c <= '9'
}

pub fn space_char(c: char) -> (r: bool)
    ensures
        r == is_space(c),
{
    let u = c as u32;
    (0x9 <= u && u <= 0xd) || u == 0x20 || u == 0x85 || u == 0xa0 || u == 0x1680
        || (0x2000 <= u && u <= 0x200a) || u == 0x2028 || u == 0x2029 || u == 0x202f
        || u == 0x205f || u == 0x3000
}

pub fn decimal_char(c: char) -> (r: bool)
    ensures
        r == is_decimal(c),
{
    let u = c as u32;
    (0x30 <= u && u <= 0x39)
    || (0x660 <= u && u <= 0x669)
    || (0x6f0 <= u && u <= 0x6f9)
    || (0x7c0 <= u && u <= 0x7c9)
    || (0x966 <= u && u <= 0x96f)
    || (0x9e6 <= u && u <= 0x9ef)
    || (0xa66 <= u && u <= 0xa6f)
    || (0xae6 <= u && u <= 0xaef)
    || (0xb66 <= u && u <= 0xb6f)
    || (0xbe6 <= u && u <= 0xbef)
    || (0xc66 <= u && u <= 0xc6f)
    || (0xce6 <= u && u <= 0xcef)
    || (0xd66 <= u && u <= 0xd6f)
    || (0xde6 <= u && u <= 0xdef)
    || (0xe50 <= u && u <= 0xe59)
    || (0xed0 <= u && u <= 0xed9)
    || (0xf20 <= u && u <= 0xf29)
    || (0x1040 <= u && u <= 0x1049)
    || (0x1090 <= u && u <= 0x1099)
    || (0x17e0 <= u && u <= 0x17e9)
    || (0x1810 <= u && u <= 0x1819)
    || (0x1946 <= u && u <= 0x194f)
    || (0x19d0 <= u && u <= 0x19d9)
    || (0x1a80 <= u && u <= 0x1a89)
    || (0x1a90 <= u && u <= 0x1a99)
    || (0x1b50 <= u && u <= 0x1b59)
    || (0x1bb0 <= u && u <= 0x1bb9)
    || (0x1c40 <= u && u <= 0x1c49)
    || (0x1c50 <= u && u <= 0x1c59)
    || (0xa620 <= u && u <= 0xa629)
    || (0xa8d0 <= u && u <= 0xa8d9)
    || (0xa900 <= u && u <= 0xa909)
    || (0xa9d0 <= u && u <= 0xa9d9)
    || (0xa9f0 <= u && u <= 0xa9f9)
    || (0xaa50 <= u && u <= 0xaa59)
    || (0xabf0 <= u && u <= 0xabf9)
    || (0xff10 <= u && u <= 0xff19)
    || (0x104a0 <= u && u <= 0x104a9)
    || (0x10d30 <= u && u <= 0x10d39)
    || (0x10d40 <= u && u <= 0x10d49)
    || (0x11066 <= u && u <= 0x1106f)
    || (0x110f0 <= u && u <= 0x110f9)
    || (0x11136 <= u && u <= 0x1113f)
    || (0x111d0 <= u && u <= 0x111d9)
    || (0x112f0 <= u && u <= 0x112f9)
    || (0x11450 <= u && u <= 0x11459)
    || (0x114d0 <= u && u <= 0x114d9)
    || (0x11650 <= u && u <= 0x11659)
    || (0x116c0 <= u && u <= 0x116c9)
    || (0x116d0 <= u && u <= 0x116e3)
    || (0x11730 <= u && u <= 0x11739)
    || (0x118e0 <= u && u <= 0x118e9)
    || (0x11950 <= u && u <= 0x11959)
    || (0x11bf0 <= u && u <= 0x11bf9)
    || (0x11c50 <= u && u <= 0x11c59)
    || (0x11d50 <= u && u <= 0x11d59)
    || (0x11da0 <= u && u <= 0x11da9)
    || (0x11f50 <= u && u <= 0x11f59)
    || (0x16130 <= u && u <= 0x16139)
    || (0x16a60 <= u && u <= 0x16a69)
    || (0x16ac0 <= u && u <= 0x16ac9)
    || (0x16b50 <= u && u <= 0x16b59)
    || (0x16d70 <= u && u <= 0x16d79)
    || (0x1ccf0 <= u && u <= 0x1ccf9)
    || (0x1d7ce <= u && u <= 0x1d7ff)
    || (0x1e140 <= u && u <= 0x1e149)
    || (0x1e2f0 <= u && u <= 0x1e2f9)
    || (0x1e4f0 <= u && u <= 0x1e4f9)
    || (0x1e5f1 <= u && u <= 0x1e5fa)
    || (0x1e950 <= u && u <= 0x1e959)
    || (0x1fbf0 <= u && u <= 0x1fbf9)
}

// ---------------------------------------------------------------------
//  Conversions between strings and character vectors
// ---------------------------------------------------------------------

pub fn str_to_chars(s: &str) -> (v: Vec<char>)
    ensures
        v@ == s@,
{
    let mut v: Vec<char> = Vec::new();
    for c in it: s.chars()
        invariant
            v@ == it.seq().take(it.index() as int),
            it.seq() == s@,
    {
        v.push(c);
    }
    v
}

/// Collects characters into a `String` (`FromIterator<&char>` for `String`):
/// the string holds exactly these characters, in order.
#[verifier::external_body]
pub(crate) fn chars_to_string(v: &Vec<char>) -> (s: String)
    ensures
        s@ == v@,
{
    v.iter().collect()
}

pub fn copy_range(v: &Vec<char>, from: usize, to: usize) -> (r: Vec<char>)
    requires
        from <= to <= v.len(),
    ensures
        r@ == v@.subrange(from as int, to as int),
{
    let mut r: Vec<char> = Vec::new();
    let mut i = from;
    while i < to
        invariant
            from <= i <= to <= v.len(),
            r@ == v@.subrange(from as int, i as int),
        decreases to - i,
    {
        r.push(v[i]);
        i = i + 1;
    }
    r
}

pub fn append_chars(r: &mut Vec<char>, v: &Vec<char>)
    ensures
        final(r)@ == old(r)@ + v@,
{
    let mut i: usize = 0;
    while i < v.len()
        invariant
            i <= v.len(),
            r@ == old(r)@ + v@.subrange(0, i as int),
        decreases v.len() - i,
    {
        r.push(v[i]);
        i = i + 1;
    }
}

// ---------------------------------------------------------------------
//  Substring search
// ---------------------------------------------------------------------

/// `p` occurs in `s` at position `i`.
pub open spec fn occurs_at(s: Seq<char>, i: int, p: Seq<char>) -> bool {
    0 <= i && i + p.len() <= s.len() && s.subrange(i, i + p.len()) == p
}

pub open spec fn contains(s: Seq<char>, p: Seq<char>) -> bool {
    exists|i: int| occurs_at(s, i, p)
}

pub open spec fn ends_with(s: Seq<char>, p: Seq<char>) -> bool {
    occurs_at(s, s.len() - p.len(), p)
}

/// `i` is the first position at or after `from` where `p` occurs.
pub open spec fn first_occurrence_from(s: Seq<char>, p: Seq<char>, from: int, i: int) -> bool {
    from <= i && occurs_at(s, i, p) && forall|j: int| from <= j < i ==> !occurs_at(s, j, p)
}

pub fn occurs_at_exec(s: &Vec<char>, i: usize, p: &Vec<char>) -> (r: bool)
    ensures
        r == occurs_at(s@, i as int, p@),
        r ==> i + p.len() <= s.len(),
{
    if i > s.len() || p.len() > s.len() - i {
        return false;
    }
    let mut k: usize = 0;
    while k < p.len()
        invariant
            i + p.len() <= s.len(),
            k <= p.len(),
            forall|m: int| 0 <= m < k ==> s@[i + m] == p@[m],
        decreases p.len() - k,
    {
        if s[i + k] != p[k] {
            assert(s@.subrange(i as int, i + p.len())[k as int] != p@[k as int]);
            return false;
        }
        k = k + 1;
    }
    assert(s@.subrange(i as int, i + p.len()) =~= p@);
    true
}

/// First occurrence of `p` in `s` at or after `from`.
pub fn find_from(s: &Vec<char>, p: &Vec<char>, from: usize) -> (r: Option<usize>)
    ensures
        match r {
            Some(i) => first_occurrence_from(s@, p@, from as int, i as int),
            None => forall|j: int| from <= j ==> !occurs_at(s@, j, p@),
        },
{
    let mut i = from;
    loop
        invariant
            from <= i,
            forall|j: int| from <= j < i ==> !occurs_at(s@, j, p@),
        decreases s.len() + 1 - i,
    {
        if occurs_at_exec(s, i, p) {
            return Some(i);
        }
        if i >= s.len() {
            return None;
        }
        i = i + 1;
    }
}

pub fn contains_exec(s: &Vec<char>, p: &Vec<char>) -> (r: bool)
    ensures
        r == contains(s@, p@),
{
    match find_from(s, p, 0) {
        Some(i) => true,
        None => {
            assert forall|j: int| !occurs_at(s@, j, p@) by {
                if j < 0 {
                }
            }
            false
        },
    }
}

pub fn str_contains(s: &str, p: &str) -> (r: bool)
    ensures
        r == contains(s@, p@),
{
    let sv = str_to_chars(s);
    let pv = str_to_chars(p);
    contains_exec(&sv, &pv)
}

// ---------------------------------------------------------------------
//  Decimal numbers
// ---------------------------------------------------------------------

pub open spec fn digit_value(c: char) -> int {
    c as int - '0' as int
}

pub open spec fn all_ascii_digits(s: Seq<char>) -> bool {
    forall|i: int| 0 <= i < s.len() ==> is_ascii_digit(#[trigger] s[i])
}

/// The number written by a string of ASCII digits.
pub open spec fn digits_value(s: Seq<char>) -> int
    decreases s.len(),
{
    if s.len() == 0 {
        0
    } else {
        digits_value(s.drop_last()) * 10 + digit_value(s.last())
    }
}

/// What `str::parse` accepts for an unsigned integer type whose largest
/// value is `max`: an optional `+`, then one or more ASCII digits, with a
/// value that fits.
pub open spec fn parse_unsigned(s: Seq<char>, max: int) -> Option<int> {
    let body = if s.len() > 0 && s[0] == '+' { s.drop_first() } else { s };
    if body.len() > 0 && all_ascii_digits(body) && digits_value(body) <= max {
        Some(digits_value(body))
    } else {
        None
    }
}

/// What `str::parse` accepts for a signed integer type with range
/// `min..=max`: an optional sign, then one or more ASCII digits.
pub open spec fn parse_signed(s: Seq<char>, min: int, max: int) -> Option<int> {
    if s.len() > 0 && s[0] == '-' {
        let body = s.drop_first();
        if body.len() > 0 && all_ascii_digits(body) && -digits_value(body) >= min {
            Some(-digits_value(body))
        } else {
            None
        }
    } else {
        parse_unsigned(s, max)
    }
}

pub proof fn lemma_digits_value_nonneg(s: Seq<char>)
    requires
        all_ascii_digits(s),
    ensures
        digits_value(s) >= 0,
    decreases s.len(),
{
    if s.len() > 0 {
        lemma_digits_value_nonneg(s.drop_last());
    }
}

pub proof fn lemma_digits_value_prefix_monotone(s: Seq<char>, k: int, n: int)
    requires
        all_ascii_digits(s),
        0 <= k <= n <= s.len(),
    ensures
        digits_value(s.take(k)) <= digits_value(s.take(n)),
    decreases n - k,
{
    if k < n {
        lemma_digits_value_prefix_monotone(s, k, n - 1);
        assert(s.take(n).drop_last() =~= s.take(n - 1));
        lemma_digits_value_nonneg(s.take(n - 1));
        assert(is_ascii_digit(s[n - 1]));
    }
}

/// Parses `v[from..to]` as `str::parse` does for an unsigned type with
/// largest value `max`.
pub fn parse_unsigned_range(v: &Vec<char>, from: usize, to: usize, max: u64) -> (r: Option<u64>)
    requires
        from <= to <= v.len(),
    ensures
        match parse_unsigned(v@.subrange(from as int, to as int), max as int) {
            Some(n) => r == Some(n as u64) && 0 <= n <= max,
            None => r is None,
        },
        r matches Some(x) ==> x <= max,
{
    let ghost s = v@.subrange(from as int, to as int);
    let mut start = from;
    if from < to && v[from] == '+' {
        start = from + 1;
    }
    let ghost body = v@.subrange(start as int, to as int);
    assert(body =~= (if s.len() > 0 && s[0] == '+' { s.drop_first() } else { s }));
    if start == to {
        return None;
    }
    let mut acc: u128 = 0;
    let mut i = start;
    while i < to
        invariant
            start <= i <= to <= v.len(),
            body == v@.subrange(start as int, to as int),
            s == v@.subrange(from as int, to as int),
            body == (if s.len() > 0 && s[0] == '+' { s.drop_first() } else { s }),
            all_ascii_digits(body.take(i - start)),
            acc as int == digits_value(body.take(i - start)),
            acc <= max,
        decreases to - i,
    {
        let c = v[i];
        if !('0' <= c && c <= '9') {
            assert(body[i - start] == c);
            return None;
        }
        let d = (c as u32 - '0' as u32) as u128;
        assert(acc * 10 + d <= u64::MAX as int * 10 + 9) by (nonlinear_arith)
            requires
                acc <= u64::MAX,
                d <= 9,
        ;
        let next = acc * 10 + d;
        proof {
            assert(body.take(i + 1 - start).drop_last() =~= body.take(i - start));
            assert(body.take(i + 1 - start).last() == c);
            assert(all_ascii_digits(body.take(i + 1 - start)));
            assert(digits_value(body.take(i + 1 - start)) == next as int);
        }
        if next > max as u128 {
            proof {
                if all_ascii_digits(body) {
                    lemma_digits_value_prefix_monotone(body, i + 1 - start, body.len() as int);
                    assert(body.take(body.len() as int) =~= body);
                    assert(digits_value(body) > max);
                }
            }
            return None;
        }
        acc = next;
        i = i + 1;
    }
    assert(body.take(to - start) =~= body);
    Some(acc as u64)
}

pub open spec fn digit_char(d: int) -> char {
    if d == 0 { '0' }
    else if d == 1 { '1' }
    else if d == 2 { '2' }
    else if d == 3 { '3' }
    else if d == 4 { '4' }
    else if d == 5 { '5' }
    else if d == 6 { '6' }
    else if d == 7 { '7' }
    else if d == 8 { '8' }
    else { '9' }
}

/// The decimal representation of `n`, without sign or leading zeros.
pub open spec fn decimal(n: nat) -> Seq<char>
    decreases n,
{
    if n < 10 {
        seq![digit_char(n as int)]
    } else {
        decimal(n / 10).push(digit_char((n % 10) as int))
    }
}

fn digit_char_exec(d: u128) -> (c: char)
    requires
        d < 10,
    ensures
        c == digit_char(d as int),
{
    if d == 0 { '0' }
    else if d == 1 { '1' }
    else if d == 2 { '2' }
    else if d == 3 { '3' }
    else if d == 4 { '4' }
    else if d == 5 { '5' }
    else if d == 6 { '6' }
    else if d == 7 { '7' }
    else if d == 8 { '8' }
    else { '9' }
}

pub fn decimal_chars(n: u128) -> (r: Vec<char>)
    ensures
        r@ == decimal(n as nat),
    decreases n,
{
    if n < 10 {
        let mut r: Vec<char> = Vec::new();
        r.push(digit_char_exec(n));
        assert(r@ =~= seq![digit_char(n as int)]);
        r
    } else {
        let mut r = decimal_chars(n / 10);
        r.push(digit_char_exec(n % 10));
        r
    }
}

/// `n.to_string()` for an unsigned integer.
pub fn decimal_string(n: u128) -> (r: String)
    ensures
        r@ == decimal(n as nat),
{
    let v = decimal_chars(n);
    chars_to_string(&v)
}

// ---------------------------------------------------------------------
//  Last occurrence of a character
// ---------------------------------------------------------------------

/// Index of the last `c` in `s`, or -1 where `s` holds none.
pub open spec fn last_index_of(s: Seq<char>, c: char) -> int
    decreases s.len(),
{
    if s.len() == 0 {
        -1
    } else if s.last() == c {
        s.len() - 1
    } else {
        last_index_of(s.drop_last(), c)
    }
}

pub proof fn lemma_last_index_of(s: Seq<char>, c: char)
    ensures
        -1 <= last_index_of(s, c) < s.len(),
        last_index_of(s, c) >= 0 ==> s[last_index_of(s, c)] == c,
        forall|j: int| last_index_of(s, c) < j < s.len() ==> s[j] != c,
    decreases s.len(),
{
    if s.len() > 0 && s.last() != c {
        lemma_last_index_of(s.drop_last(), c);
        assert forall|j: int| last_index_of(s, c) < j < s.len() implies s[j] != c by {
            if j < s.len() - 1 {
                assert(s[j] == s.drop_last()[j]);
            }
        }
    }
}

pub fn last_index_of_exec(v: &Vec<char>, c: char) -> (r: Option<usize>)
    ensures
        match r {
            Some(i) => i as int == last_index_of(v@, c),
            None => last_index_of(v@, c) == -1,
        },
{
    let mut i = v.len();
    assert(v@.take(i as int) =~= v@);
    while i > 0
        invariant
            i <= v.len(),
            last_index_of(v@, c) == last_index_of(v@.take(i as int), c),
        decreases i,
    {
        assert(v@.take(i as int).drop_last() =~= v@.take(i - 1));
        if v[i - 1] == c {
            return Some(i - 1);
        }
        i = i - 1;
    }
    None
}

// ---------------------------------------------------------------------
//  First occurrence as a function, and optional strings
// ---------------------------------------------------------------------

/// Position of the first `p` in `s` at or after `from`.
pub open spec fn index_of_from(s: Seq<char>, p: Seq<char>, from: int) -> Option<int>
    decreases s.len() + 1 - from,
{
    if from < 0 || from > s.len() {
        None
    } else if occurs_at(s, from, p) {
        Some(from)
    } else {
        index_of_from(s, p, from + 1)
    }
}

pub proof fn lemma_index_of_from(s: Seq<char>, p: Seq<char>, from: int)
    requires
        0 <= from,
    ensures
        match index_of_from(s, p, from) {
            Some(i) => first_occurrence_from(s, p, from, i),
            None => forall|j: int| from <= j ==> !occurs_at(s, j, p),
        },
    decreases s.len() + 1 - from,
{
    if from <= s.len() && !occurs_at(s, from, p) {
        lemma_index_of_from(s, p, from + 1);
    }
}

/// The first occurrence of `p` at or after `from`, as `index_of_from` gives it.
pub fn index_of_from_exec(s: &Vec<char>, p: &Vec<char>, from: usize) -> (r: Option<usize>)
    ensures
        match index_of_from(s@, p@, from as int) {
            Some(i) => r matches Some(j) && j as int == i,
            None => r is None,
        },
        match r {
            Some(i) => i + p@.len() <= s.len() && from <= i,
            None => true,
        },
{
    proof { lemma_index_of_from(s@, p@, from as int); }
    let mut i = from;
    loop
        invariant
            from <= i,
            index_of_from(s@, p@, from as int) == index_of_from(s@, p@, i as int),
        decreases s.len() + 1 - i,
    {
        if occurs_at_exec(s, i, p) {
            return Some(i);
        }
        if i >= s.len() {
            assert(index_of_from(s@, p@, i + 1) is None);
            return None;
        }
        i = i + 1;
    }
}

pub open spec fn opt_view(o: Option<String>) -> Option<Seq<char>> {
    match o {
        Some(s) => Some(s@),
        None => None,
    }
}

pub open spec fn opt_str_view(o: Option<&str>) -> Option<Seq<char>> {
    match o {
        Some(s) => Some(s@),
        None => None,
    }
}

// ---------------------------------------------------------------------
//  Runs of a character class
// ---------------------------------------------------------------------

/// The character classes the log-line and page scanners read.
#[derive(Clone, Copy, PartialEq, Eq, Debug)]
pub enum Class {
    /// `\s`
    Space,
    /// `\S`
    NonSpace,
    /// `\d`
    Decimal,
    /// `[^\s"'<>\\]`: what a URL in page source may hold.
    UrlChar,
}

pub open spec fn in_class(k: Class, c: char) -> bool {
    match k {
        Class::Space => is_space(c),
        Class::NonSpace => !is_space(c),
        Class::Decimal => is_decimal(c),
        Class::UrlChar => !is_space(c) && c != '"' && c != '\'' && c != '<' && c != '>' && c != '\\',
    }
}

pub fn in_class_exec(k: Class, c: char) -> (r: bool)
    ensures
        r == in_class(k, c),
{
    match k {
        Class::Space => space_char(c),
        Class::NonSpace => !space_char(c),
        Class::Decimal => decimal_char(c),
        Class::UrlChar => !space_char(c) && c != '"' && c != '\'' && c != '<' && c != '>' && c != '\\',
    }
}

/// End of the run of `k`-characters that starts at `from`.
pub open spec fn class_end(s: Seq<char>, from: int, k: Class) -> int
    decreases s.len() - from,
{
    if from < 0 || from >= s.len() || !in_class(k, s[from]) {
        from
    } else {
        class_end(s, from + 1, k)
    }
}

pub proof fn lemma_class_end(s: Seq<char>, from: int, k: Class)
    requires
        0 <= from <= s.len(),
    ensures
        from <= class_end(s, from, k) <= s.len(),
        forall|j: int| from <= j < class_end(s, from, k) ==> in_class(k, #[trigger] s[j]),
        class_end(s, from, k) < s.len() ==> !in_class(k, s[class_end(s, from, k)]),
    decreases s.len() - from,
{
    if from < s.len() && in_class(k, s[from]) {
        lemma_class_end(s, from + 1, k);
    }
}

pub fn class_end_exec(v: &Vec<char>, from: usize, k: Class) -> (r: usize)
    requires
        from <= v.len(),
    ensures
        r as int == class_end(v@, from as int, k),
        from <= r <= v.len(),
{
    proof { lemma_class_end(v@, from as int, k); }
    let mut i = from;
    while i < v.len() && in_class_exec(k, v[i])
        invariant
            from <= i <= v.len(),
            class_end(v@, from as int, k) == class_end(v@, i as int, k),
        decreases v.len() - i,
    {
        i = i + 1;
    }
    i
}

// ---------------------------------------------------------------------
//  Trimming and replacing
// ---------------------------------------------------------------------

pub open spec fn is_trailing_punct(c: char) -> bool {
    c == '.' || c == ',' || c == ';'
}

/// `s` without its trailing `.`, `,` and `;` characters
/// (`trim_end_matches(['.', ',', ';'])`).
pub open spec fn trim_trailing_punct(s: Seq<char>) -> Seq<char>
    decreases s.len(),
{
    if s.len() > 0 && is_trailing_punct(s.last()) {
        trim_trailing_punct(s.drop_last())
    } else {
        s
    }
}

pub fn trim_trailing_punct_exec(v: &Vec<char>) -> (r: Vec<char>)
    ensures
        r@ == trim_trailing_punct(v@),
{
    let mut n = v.len();
    assert(v@.take(n as int) =~= v@);
    while n > 0 && (v[n - 1] == '.' || v[n - 1] == ',' || v[n - 1] == ';')
        invariant
            n <= v.len(),
            trim_trailing_punct(v@) == trim_trailing_punct(v@.take(n as int)),
        decreases n,
    {
        assert(v@.take(n as int).drop_last() =~= v@.take(n - 1));
        n = n - 1;
    }
    copy_range(v, 0, n)
}

/// `s` with `suffix` removed from its end as long as it ends with it
/// (`trim_end_matches` with a string pattern).
pub open spec fn trim_suffix_all(s: Seq<char>, suffix: Seq<char>) -> Seq<char>
    decreases s.len(),
{
    if suffix.len() > 0 && suffix.len() <= s.len() && ends_with(s, suffix) {
        trim_suffix_all(s.take(s.len() - suffix.len()), suffix)
    } else {
        s
    }
}

pub fn trim_suffix_all_exec(v: &Vec<char>, suffix: &Vec<char>) -> (r: Vec<char>)
    ensures
        r@ == trim_suffix_all(v@, suffix@),
{
    let mut n = v.len();
    assert(v@.take(n as int) =~= v@);
    while suffix.len() > 0 && suffix.len() <= n && occurs_at_exec(v, n - suffix.len(), suffix)
        invariant
            n <= v.len(),
            trim_suffix_all(v@, suffix@) == trim_suffix_all(v@.take(n as int), suffix@),
        decreases n,
    {
        let ghost t = v@.take(n as int);
        assert(t.subrange(t.len() - suffix@.len(), t.len() as int) =~= v@.subrange(n - suffix@.len(), n as int));
        assert(t.take(t.len() - suffix@.len()) =~= v@.take(n - suffix@.len()));
        n = n - suffix.len();
    }
    proof {
        let t = v@.take(n as int);
        if suffix@.len() > 0 && suffix@.len() <= n {
            assert(t.subrange(t.len() - suffix@.len(), t.len() as int) =~= v@.subrange(n - suffix@.len(), n as int));
        }
    }
    copy_range(v, 0, n)
}

/// `s` with every occurrence of `from`, scanning left to right without
/// overlap, replaced by `to` (`str::replace`).
pub open spec fn replace_all(s: Seq<char>, from: Seq<char>, to: Seq<char>) -> Seq<char>
    decreases s.len(),
{
    if from.len() == 0 {
        s
    } else {
        match index_of_from(s, from, 0) {
            None => s,
            Some(i) => if 0 <= i && i + from.len() <= s.len() {
                s.take(i) + to + replace_all(s.skip(i + from.len()), from, to)
            } else {
                s
            },
        }
    }
}

proof fn lemma_occurs_skip(v: Seq<char>, start: int, k: int, p: Seq<char>)
    requires
        0 <= start <= v.len(),
        0 <= k,
    ensures
        occurs_at(v.skip(start), k, p) == occurs_at(v, start + k, p),
{
    if k + p.len() <= v.len() - start {
        assert(v.skip(start).subrange(k, k + p.len()) =~= v.subrange(start + k, start + k + p.len()));
    }
}

proof fn lemma_index_of_skip(v: Seq<char>, p: Seq<char>, start: int, k: int)
    requires
        0 <= start <= v.len(),
        0 <= k,
    ensures
        index_of_from(v.skip(start), p, k) == (match index_of_from(v, p, start + k) {
            Some(i) => Some(i - start),
            None => None,
        }),
    decreases v.len() - start - k + 1,
{
    lemma_occurs_skip(v, start, k, p);
    if k <= v.len() - start && !occurs_at(v, start + k, p) {
        lemma_index_of_skip(v, p, start, k + 1);
    }
}

/// Replaces every occurrence of `from` (non-empty) in `v[start..]`.
fn replace_all_from(v: &Vec<char>, start: usize, from: &Vec<char>, to: &Vec<char>) -> (r: Vec<char>)
    requires
        start <= v.len(),
        from.len() > 0,
    ensures
        r@ == replace_all(v@.skip(start as int), from@, to@),
    decreases v.len() - start,
{
    let ghost s = v@.skip(start as int);
    proof {
        lemma_index_of_skip(v@, from@, start as int, 0);
    }
    match index_of_from_exec(v, from, start) {
        None => {
            assert(s =~= v@.subrange(start as int, v.len() as int));
            copy_range(v, start, v.len())
        },
        Some(j) => {
            proof {
                let i = j - start;
                assert(s.skip(i + from@.len()) =~= v@.skip(j + from@.len()));
                assert(s.take(i as int) =~= v@.subrange(start as int, j as int));
            }
            let mut out = copy_range(v, start, j);
            append_chars(&mut out, to);
            let rest = replace_all_from(v, j + from.len(), from, to);
            append_chars(&mut out, &rest);
            proof {
                let i = j - start;
                assert(index_of_from(s, from@, 0) == Some(i as int));
                assert(out@ =~= s.take(i as int) + to@ + replace_all(s.skip(i + from@.len()), from@, to@));
            }
            out
        },
    }
}

pub fn replace_all_exec(v: &Vec<char>, from: &Vec<char>, to: &Vec<char>) -> (r: Vec<char>)
    requires
        from.len() > 0,
    ensures
        r@ == replace_all(v@, from@, to@),
{
    assert(v@.skip(0) =~= v@);
    replace_all_from(v, 0, from, to)
}

} // verus!
