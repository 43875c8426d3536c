//! Character classes and small helpers on character sequences.
use vstd::prelude::*;
use vstd::string::*;

verus! {

/// An ASCII decimal digit.
pub open spec fn is_digit_char(c: char) -> bool {
    '0' <= c && c <= '9'
}

/// A character with the Unicode `White_Space` property.
pub open spec fn is_white_space(c: char) -> bool {
    let n = c as u32;
    (0x09 <= n && n <= 0x0d) || n == 0x20 || n == 0x85 || n == 0xa0 || n == 0x1680 || (0x2000
        <= n && n <= 0x200a) || n == 0x2028 || n == 0x2029 || n == 0x202f || n == 0x205f || n
        == 0x3000
}

/// The value of a string of decimal digits.
pub open spec fn digits_value(d: Seq<char>) -> nat
    decreases d.len(),
{
    if d.len() == 0 {
        0
    } else {
        digits_value(d.drop_last()) * 10 + (d.last() as nat - 48) as nat
    }
}

pub proof fn lemma_digits_value_grows(d: Seq<char>, j: int)
    requires
        0 <= j <= d.len(),
        forall|k: int| 0 <= k < d.len() ==> is_digit_char(#[trigger] d[k]),
    ensures
        digits_value(d.subrange(0, j)) <= digits_value(d),
    decreases d.len(),
{
    if j < d.len() {
        let p = d.drop_last();
        assert(p.subrange(0, j) =~= d.subrange(0, j));
        lemma_digits_value_grows(p, j);
    } else {
        assert(d.subrange(0, j) =~= d);
    }
}

/// The classes of characters over which a scanner takes maximal runs.
#[derive(Clone, Copy, PartialEq, Eq, Structural, Debug)]
pub enum CharClass {
    Digit,
    Space,
    NonSpace,
    Angle,
}

pub open spec fn in_class(c: char, k: CharClass) -> bool {
    match k {
        CharClass::Digit => is_digit_char(c),
        CharClass::Space => is_white_space(c),
        CharClass::NonSpace => !is_white_space(c),
        CharClass::Angle => c == '>',
    }
}

/// The index just past the maximal run of characters of class `k` that starts at `i`.
pub open spec fn run_end(s: Seq<char>, i: int, k: CharClass) -> int
    decreases s.len() - i,
{
    if 0 <= i < s.len() && in_class(s[i], k) {
        run_end(s, i + 1, k)
    } else {
        i
    }
}

pub proof fn lemma_run_end_bounds(s: Seq<char>, i: int, k: CharClass)
    requires
        0 <= i <= s.len(),
    ensures
        i <= run_end(s, i, k) <= s.len(),
        forall|j: int| i <= j < run_end(s, i, k) ==> in_class(#[trigger] s[j], k),
    decreases s.len() - i,
{
    if i < s.len() && in_class(s[i], k) {
        lemma_run_end_bounds(s, i + 1, k);
    }
}

pub proof fn lemma_run_end_whole(s: Seq<char>, i: int, k: CharClass)
    requires
        0 <= i <= s.len(),
        forall|j: int| i <= j < s.len() ==> in_class(#[trigger] s[j], k),
    ensures
        run_end(s, i, k) == s.len(),
    decreases s.len() - i,
{
    if i < s.len() {
        lemma_run_end_whole(s, i + 1, k);
    }
}

pub fn is_ascii_digit(c: char) -> (r: bool)
    ensures
        r == is_digit_char(c),
{
    '0' <= c && c <= '9'
}

pub fn is_white_space_char(c: char) -> (r: bool)
    ensures
        r == is_white_space(c),
{
    let n = c as u32;
    (0x09 <= n && n <= 0x0d) || n == 0x20 || n == 0x85 || n == 0xa0 || n == 0x1680 || (0x2000
        <= n && n <= 0x200a) || n == 0x2028 || n == 0x2029 || n == 0x202f || n == 0x205f || n
        == 0x3000
}

pub fn char_in_class(c: char, k: CharClass) -> (r: bool)
    ensures
        r == in_class(c, k),
{
    match k {
        CharClass::Digit => is_ascii_digit(c),
        CharClass::Space => is_white_space_char(c),
        CharClass::NonSpace => !is_white_space_char(c),
        CharClass::Angle => c == '>',
    }
}

/// Scans the maximal run of class `k` in `s` from `start`; `n` is the length of `s`.
pub fn scan_run(s: &str, n: usize, start: usize, k: CharClass) -> (r: usize)
    requires
        n == s@.len(),
        start <= n,
    ensures
        r == run_end(s@, start as int, k),
{
    let mut i = start;
    while i < n && char_in_class(s.get_char(i), k)
        invariant
            start <= i <= n,
            n == s@.len(),
            run_end(s@, i as int, k) == run_end(s@, start as int, k),
        decreases n - i,
    {
        i = i + 1;
    }
    i
}

/// The index where the maximal run of class `k` that ends just before `j` starts.
pub open spec fn run_start(s: Seq<char>, j: int, k: CharClass) -> int
    decreases j,
{
    if 0 < j <= s.len() && in_class(s[j - 1], k) {
        run_start(s, j - 1, k)
    } else {
        j
    }
}

/// `s` without its leading and trailing whitespace.
pub open spec fn trimmed(s: Seq<char>) -> Seq<char> {
    let b = run_end(s, 0, CharClass::Space);
    let e = run_start(s, s.len() as int, CharClass::Space);
    if e <= b {
        Seq::empty()
    } else {
        s.subrange(b, e)
    }
}

/// Scans backwards the maximal run of class `k` that ends just before `end`.
pub fn scan_run_back(s: &str, n: usize, end: usize, k: CharClass) -> (r: usize)
    requires
        n == s@.len(),
        end <= n,
    ensures
        r == run_start(s@, end as int, k),
        r <= end,
{
    let mut j = end;
    while j > 0 && char_in_class(s.get_char(j - 1), k)
        invariant
            j <= end <= n,
            n == s@.len(),
            run_start(s@, j as int, k) == run_start(s@, end as int, k),
        decreases j,
    {
        j = j - 1;
    }
    j
}

/// Copies `s` without its leading and trailing whitespace.
pub fn trim(s: &str) -> (r: String)
    ensures
        r@ == trimmed(s@),
{
    let n = s.unicode_len();
    let b = scan_run(s, n, 0, CharClass::Space);
    let e = scan_run_back(s, n, n, CharClass::Space);
    proof {
        lemma_run_end_bounds(s@, 0, CharClass::Space);
    }
    if e <= b {
        String::new()
    } else {
        String::from_str(s.substring_char(b, e))
    }
}

/// Relies on String::push: appends one character at the end.
#[verifier::external_body]
pub(crate) fn push_char(s: &mut String, c: char)
    ensures
        final(s)@ == old(s)@.push(c),
{
    s.push(c);
}

/// Whether two strings hold the same characters.
pub fn same_text(a: &str, b: &str) -> (r: bool)
    ensures
        r == (a@ == b@),
{
    let n = a.unicode_len();
    if n != b.unicode_len() {
        return false;
    }
    let mut i: usize = 0;
    while i < n
        invariant
            n == a@.len(),
            n == b@.len(),
            i <= n,
            forall|k: int| 0 <= k < i ==> a@[k] == b@[k],
        decreases n - i,
    {
        if a.get_char(i) != b.get_char(i) {
            return false;
        }
        i = i + 1;
    }
    assert(a@ =~= b@);
    true
}

/// A string of one or more ASCII digits.
pub open spec fn is_digit_string(d: Seq<char>) -> bool {
    d.len() > 0 && forall|k: int| 0 <= k < d.len() ==> is_digit_char(#[trigger] d[k])
}

/// The signed decimal integer written in `s`, with an optional leading `+` or `-`,
/// where it fits in an `i32`.
pub open spec fn i32_of(s: Seq<char>) -> Option<i32> {
    let signed = s.len() > 0 && (s[0] == '-' || s[0] == '+');
    let d = if signed {
        s.drop_first()
    } else {
        s
    };
    let v = if signed && s[0] == '-' {
        -digits_value(d)
    } else {
        digits_value(d) as int
    };
    if is_digit_string(d) && i32::MIN <= v <= i32::MAX {
        Some(v as i32)
    } else {
        None
    }
}

/// Reads a signed decimal `i32`; `None` where `s` is not one or does not fit.
pub fn parse_i32(s: &str) -> (r: Option<i32>)
    ensures
        r == i32_of(s@),
{
    let n = s.unicode_len();
    let signed = n > 0 && (s.get_char(0) == '-' || s.get_char(0) == '+');
    let negative = signed && s.get_char(0) == '-';
    let start: usize = if signed {
        1
    } else {
        0
    };
    let ghost d = if signed {
        s@.drop_first()
    } else {
        s@
    };
    assert(d =~= s@.subrange(start as int, n as int));
    if start == n {
        return None;
    }
    let limit: u64 = 2147483648;
    let mut v: u64 = 0;
    let mut i: usize = start;
    while i < n
        invariant
            n == s@.len(),
            start <= i <= n,
            d =~= s@.subrange(start as int, n as int),
            limit == 2147483648,
            signed == (n > 0 && (s@[0] == '-' || s@[0] == '+')),
            d == if signed {
                s@.drop_first()
            } else {
                s@
            },
            forall|k: int| start <= k < i ==> is_digit_char(#[trigger] s@[k]),
            v == digits_value(s@.subrange(start as int, i as int)),
            v <= limit,
        decreases n - i,
    {
        let c = s.get_char(i);
        if !is_ascii_digit(c) {
            assert(d[i - start] == s@[i as int]);
            return None;
        }
        assert(s@.subrange(start as int, i + 1).drop_last() =~= s@.subrange(
            start as int,
            i as int,
        ));
        let digit = (c as u32 - 48) as u64;
        let w = v * 10 + digit;
        i = i + 1;
        if w > limit {
            proof {
                if is_digit_string(d) {
                    assert(d.subrange(0, i - start) =~= s@.subrange(start as int, i as int));
                    lemma_digits_value_grows(d, i - start);
                }
            }
            return None;
        }
        v = w;
    }
    assert(s@.subrange(start as int, n as int) =~= d);
    if negative {
        Some((0 - v as i64) as i32)
    } else if v == limit {
        None
    } else {
        Some(v as i32)
    }
}

} // verus!
