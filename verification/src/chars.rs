//! Character-level views of strings and the small searches the register-map
//! logic runs on them: prefix tests, first and last occurrence of a
//! character, substring search, and parsing of unsigned integers with the
//! semantics of `u32::from_str_radix`.

use vstd::prelude::*;
use vstd::string::*;
use vstd::std_specs::iter::IteratorSpec;

verus! {

broadcast use vstd::string::group_string_axioms;

/// The characters of a string slice, in order.
pub fn chars_of(s: &str) -> (r: Vec<char>)
    ensures
        r@ == s@,
{
    let mut v: Vec<char> = Vec::new();
    for c in it: s.chars()
        invariant
            it.seq() == s@,
            v@ == s@.take(it.index() as int),
    {
        proof {
            assert(s@.take(it.index() + 1) == s@.take(it.index() as int).push(c));
        }
        v.push(c);
    }
    proof {
        assert(s@.take(s@.len() as int) == s@);
    }
    v
}

/// `p` is a prefix of `s`.
pub open spec fn has_prefix(s: Seq<char>, p: Seq<char>) -> bool {
    p.len() <= s.len() && s.take(p.len() as int) == p
}

/// Whether `s` starts with `p`.
pub fn starts_with(s: &Vec<char>, p: &Vec<char>) -> (r: bool)
    ensures
        r == has_prefix(s@, p@),
{
    if p.len() > s.len() {
        return false;
    }
    let mut i: usize = 0;
    while i < p.len()
        invariant
            i <= p@.len() <= s@.len(),
            forall|j: int| 0 <= j < i ==> s@[j] == p@[j],
        decreases p.len() - i,
    {
        if s[i] != p[i] {
            assert(s@.take(p@.len() as int)[i as int] != p@[i as int]);
            return false;
        }
        i = i + 1;
    }
    assert(s@.take(p@.len() as int) =~= p@);
    true
}

/// Whether two character sequences are equal.
pub fn chars_equal(a: &Vec<char>, b: &Vec<char>) -> (r: bool)
    ensures
        r == (a@ == b@),
{
    if a.len() != b.len() {
        return false;
    }
    let mut i: usize = 0;
    while i < a.len()
        invariant
            i <= a@.len(),
            a@.len() == b@.len(),
            forall|j: int| 0 <= j < i ==> a@[j] == b@[j],
        decreases a.len() - i,
    {
        if a[i] != b[i] {
            return false;
        }
        i = i + 1;
    }
    assert(a@ =~= b@);
    true
}

/// Whether a string slice holds exactly the characters `b`.
pub fn str_is(a: &str, b: &str) -> (r: bool)
    ensures
        r == (a@ == b@),
{
    let x = chars_of(a);
    let y = chars_of(b);
    chars_equal(&x, &y)
}

/// `i` is the first position of `c` in `s`.
pub open spec fn first_at(s: Seq<char>, c: char, i: int) -> bool {
    0 <= i < s.len() && s[i] == c && forall|j: int| 0 <= j < i ==> s[j] != c
}

/// The first position of `c` in `s`, if any (as `str::find`).
pub open spec fn find_char(s: Seq<char>, c: char) -> Option<int> {
    if exists|i: int| first_at(s, c, i) {
        Some(choose|i: int| first_at(s, c, i))
    } else {
        None
    }
}

/// There is at most one first position.
pub proof fn lemma_first_at_unique(s: Seq<char>, c: char, i: int, k: int)
    requires
        first_at(s, c, i),
        first_at(s, c, k),
    ensures
        i == k,
{
    if i < k {
        assert(s[i] != c);
    } else if k < i {
        assert(s[k] != c);
    }
}

/// The first position of `c` in `s[from..]`, searching from `from`.
pub fn find_from(s: &Vec<char>, from: usize, c: char) -> (r: Option<usize>)
    requires
        from <= s@.len(),
    ensures
        match r {
            Some(i) => i >= from && find_char(s@.skip(from as int), c) == Some(i - from),
            None => find_char(s@.skip(from as int), c) is None,
        },
{
    let ghost t = s@.skip(from as int);
    let mut i: usize = from;
    while i < s.len()
        invariant
            from <= i <= s@.len(),
            t == s@.skip(from as int),
            forall|j: int| 0 <= j < i - from ==> t[j] != c,
        decreases s.len() - i,
    {
        if s[i] == c {
            proof {
                assert(first_at(t, c, i - from));
                let k = choose|k: int| first_at(t, c, k);
                lemma_first_at_unique(t, c, i - from, k);
            }
            return Some(i);
        }
        i = i + 1;
    }
    assert(!exists|k: int| first_at(t, c, k));
    None
}

/// `i` is the last position of `c` in `s`.
pub open spec fn last_at(s: Seq<char>, c: char, i: int) -> bool {
    0 <= i < s.len() && s[i] == c && forall|j: int| i < j < s.len() ==> s[j] != c
}

/// The last position of `c` in `s`, if any.
pub open spec fn rfind_char(s: Seq<char>, c: char) -> Option<int> {
    if exists|i: int| last_at(s, c, i) {
        Some(choose|i: int| last_at(s, c, i))
    } else {
        None
    }
}

/// The last position of `c` in `s[lo..hi]`, if any (absolute).
pub fn rfind_between(s: &Vec<char>, lo: usize, hi: usize, c: char) -> (r: Option<usize>)
    requires
        lo <= hi <= s@.len(),
    ensures
        match r {
            Some(i) => i >= lo && rfind_char(s@.subrange(lo as int, hi as int), c) == Some(i - lo),
            None => rfind_char(s@.subrange(lo as int, hi as int), c) is None,
        },
{
    let ghost t = s@.subrange(lo as int, hi as int);
    let mut i: usize = hi;
    while i > lo
        invariant
            lo <= i <= hi <= s@.len(),
            t == s@.subrange(lo as int, hi as int),
            forall|j: int| i - lo <= j < hi - lo ==> t[j] != c,
        decreases i,
    {
        if s[i - 1] == c {
            proof {
                let w = i - 1 - lo;
                assert(last_at(t, c, w));
                let k = choose|k: int| last_at(t, c, k);
                if k < w {
                    assert(t[w] != c);
                } else if k > w {
                    assert(t[k] != c);
                }
            }
            return Some(i - 1);
        }
        i = i - 1;
    }
    assert(!exists|k: int| last_at(t, c, k));
    None
}

/// `k` occurs in `s` at position `i`.
pub open spec fn occurs_at(s: Seq<char>, k: Seq<char>, i: int) -> bool {
    0 <= i && i + k.len() <= s.len() && s.subrange(i, i + k.len()) == k
}

/// `k` occurs in `s` (as `str::contains`; the empty string occurs
/// everywhere).
pub open spec fn contains_sub(s: Seq<char>, k: Seq<char>) -> bool {
    exists|i: int| occurs_at(s, k, i)
}

/// Whether `k` occurs in `s` at position `i`.
fn matches_at(s: &Vec<char>, k: &Vec<char>, i: usize) -> (r: bool)
    requires
        i + k@.len() <= s@.len(),
    ensures
        r == occurs_at(s@, k@, i as int),
{
    let n: usize = s.len();
    let mut j: usize = 0;
    while j < k.len()
        invariant
            n == s@.len(),
            j <= k@.len(),
            i + k@.len() <= s@.len(),
            forall|m: int| 0 <= m < j ==> s@[i + m] == k@[m],
        decreases k.len() - j,
    {
        let pos: usize = i + j;
        if s[pos] != k[j] {
            assert(s@.subrange(i as int, i + k@.len())[j as int] != k@[j as int]);
            return false;
        }
        j = j + 1;
    }
    assert(s@.subrange(i as int, i + k@.len()) =~= k@);
    true
}

/// Whether `k` occurs in `s`.
pub fn contains(s: &Vec<char>, k: &Vec<char>) -> (r: bool)
    ensures
        r == contains_sub(s@, k@),
{
    if k.len() > s.len() {
        proof {
            true_implies_no_match(s@, k@, 0);
        }
        return false;
    }
    let last: usize = s.len() - k.len();
    let mut i: usize = 0;
    while i < last
        invariant
            k@.len() <= s@.len(),
            last == s@.len() - k@.len(),
            i <= last,
            forall|j: int| 0 <= j < i ==> !#[trigger] occurs_at(s@, k@, j),
        decreases last - i,
    {
        if matches_at(s, k, i) {
            return true;
        }
        i = i + 1;
    }
    if matches_at(s, k, last) {
        return true;
    }
    proof {
        true_implies_no_match(s@, k@, last + 1);
    }
    false
}

/// With no match before the last position a match can start at, there is
/// none.
proof fn true_implies_no_match(s: Seq<char>, k: Seq<char>, i: int)
    requires
        i + k.len() > s.len(),
        forall|j: int| 0 <= j < i ==> !#[trigger] occurs_at(s, k, j),
    ensures
        !contains_sub(s, k),
{
    assert forall|j: int| !occurs_at(s, k, j) by {
        if 0 <= j < i {
        }
    }
}

/// The characters `s[lo..hi]` as a string.
pub fn string_of(s: &Vec<char>, lo: usize, hi: usize) -> (r: String)
    requires
        lo <= hi <= s@.len(),
    ensures
        r@ == s@.subrange(lo as int, hi as int),
{
    let mut out = String::new();
    let mut i: usize = lo;
    while i < hi
        invariant
            lo <= i <= hi <= s@.len(),
            out@ == s@.subrange(lo as int, i as int),
        decreases hi - i,
    {
        let one = char_str(s[i]);
        out.append(one.as_str());
        assert(s@.subrange(lo as int, i + 1) == s@.subrange(lo as int, i as int).push(s@[i as int]));
        i = i + 1;
    }
    out
}

/// The characters `s[lo..hi]`.
pub fn sub_chars(s: &Vec<char>, lo: usize, hi: usize) -> (r: Vec<char>)
    requires
        lo <= hi <= s@.len(),
    ensures
        r@ == s@.subrange(lo as int, hi as int),
{
    let mut out: Vec<char> = Vec::new();
    let mut i: usize = lo;
    while i < hi
        invariant
            lo <= i <= hi <= s@.len(),
            out@ == s@.subrange(lo as int, i as int),
        decreases hi - i,
    {
        out.push(s[i]);
        assert(s@.subrange(lo as int, i + 1) == s@.subrange(lo as int, i as int).push(s@[i as int]));
        i = i + 1;
    }
    out
}

/// A one-character string.
#[verifier::external_body]
fn char_str(c: char) -> (r: String)
    ensures
        r@ == seq![c],
{
    c.to_string()
}

/// `c` is an ASCII decimal digit.
pub open spec fn is_digit(c: char) -> bool {
    '0' <= c <= '9'
}

/// Every character of `s` is an ASCII decimal digit.
pub open spec fn all_digits(s: Seq<char>) -> bool {
    forall|i: int| 0 <= i < s.len() ==> is_digit(#[trigger] s[i])
}

/// Whether every character of `s[lo..hi]` is an ASCII digit.
pub fn all_digits_in(s: &Vec<char>, lo: usize, hi: usize) -> (r: bool)
    requires
        lo <= hi <= s@.len(),
    ensures
        r == all_digits(s@.subrange(lo as int, hi as int)),
{
    let mut i: usize = lo;
    while i < hi
        invariant
            lo <= i <= hi <= s@.len(),
            forall|j: int| lo <= j < i ==> is_digit(s@[j]),
        decreases hi - i,
    {
        if !('0' <= s[i] && s[i] <= '9') {
            assert(!is_digit(s@.subrange(lo as int, hi as int)[i - lo]));
            return false;
        }
        i = i + 1;
    }
    assert forall|j: int| 0 <= j < hi - lo implies is_digit(#[trigger] s@.subrange(lo as int, hi as int)[j]) by {
        assert(is_digit(s@[lo + j]));
    }
    true
}

/// Why an unsigned integer could not be parsed, as `std::num::IntErrorKind`
/// reports it for an unsigned type.
#[derive(Debug, Clone, Copy, PartialEq, Eq, Structural)]
pub enum ParseFail {
    /// The string is empty.
    Empty,
    /// A character is not a digit of the radix (or the string is a lone
    /// sign).
    InvalidDigit,
    /// The value does not fit in a `u32`.
    PosOverflow,
}

/// Value of a digit character in radix 10 or 16 (either case for 16).
pub open spec fn digit_value(c: char, radix: nat) -> Option<nat> {
    if '0' <= c <= '9' {
        Some((c as nat - '0' as nat) as nat)
    } else if radix == 16 && 'a' <= c <= 'f' {
        Some((c as nat - 'a' as nat + 10) as nat)
    } else if radix == 16 && 'A' <= c <= 'F' {
        Some((c as nat - 'A' as nat + 10) as nat)
    } else {
        None
    }
}

/// Left-to-right digit scan: the first invalid digit or overflow decides.
pub open spec fn scan_digits(s: Seq<char>, radix: nat) -> Result<nat, ParseFail>
    decreases s.len(),
{
    if s.len() == 0 {
        Ok(0)
    } else {
        match scan_digits(s.drop_last(), radix) {
            Err(e) => Err(e),
            Ok(v) => match digit_value(s.last(), radix) {
                None => Err(ParseFail::InvalidDigit),
                Some(d) => if v * radix + d > u32::MAX {
                    Err(ParseFail::PosOverflow)
                } else {
                    Ok(v * radix + d)
                },
            },
        }
    }
}

/// `u32::from_str_radix(s, radix)`: an optional leading `+`, then at least
/// one digit.
pub open spec fn parse_u32_spec(s: Seq<char>, radix: nat) -> Result<nat, ParseFail> {
    if s.len() == 0 {
        Err(ParseFail::Empty)
    } else if s.len() == 1 && (s[0] == '+' || s[0] == '-') {
        Err(ParseFail::InvalidDigit)
    } else if s[0] == '+' {
        scan_digits(s.skip(1), radix)
    } else {
        scan_digits(s, radix)
    }
}

/// A successful scan stays below `u32::MAX + 1`.
proof fn lemma_scan_bound(s: Seq<char>, radix: nat)
    ensures
        scan_digits(s, radix) matches Ok(v) ==> v <= u32::MAX,
    decreases s.len(),
{
    if s.len() > 0 {
        lemma_scan_bound(s.drop_last(), radix);
    }
}

/// Parse `s[lo..hi]` as a `u32` in radix 10 or 16, with the semantics of
/// `u32::from_str_radix`.
pub fn parse_u32_in(s: &Vec<char>, lo: usize, hi: usize, radix: u32) -> (r: Result<u32, ParseFail>)
    requires
        lo <= hi <= s@.len(),
        radix == 10 || radix == 16,
    ensures
        match parse_u32_spec(s@.subrange(lo as int, hi as int), radix as nat) {
            Ok(v) => r == Ok::<u32, ParseFail>(v as u32),
            Err(e) => r == Err::<u32, ParseFail>(e),
        },
{
    let ghost t = s@.subrange(lo as int, hi as int);
    if lo == hi {
        return Err(ParseFail::Empty);
    }
    if hi - lo == 1 && (s[lo] == '+' || s[lo] == '-') {
        return Err(ParseFail::InvalidDigit);
    }
    let start: usize = if s[lo] == '+' { lo + 1 } else { lo };
    proof {
        if s@[lo as int] == '+' {
            assert(t.skip(1) =~= s@.subrange(start as int, hi as int));
        } else {
            assert(t =~= s@.subrange(start as int, hi as int));
        }
    }
    let mut v: u32 = 0;
    let mut i: usize = start;
    assert(s@.subrange(start as int, start as int) =~= Seq::<char>::empty());
    while i < hi
        invariant
            start <= i <= hi <= s@.len(),
            radix == 10 || radix == 16,
            parse_u32_spec(s@.subrange(lo as int, hi as int), radix as nat)
                == scan_digits(s@.subrange(start as int, hi as int), radix as nat),
            scan_digits(s@.subrange(start as int, i as int), radix as nat) == Ok::<nat, ParseFail>(v as nat),
        decreases hi - i,
    {
        let c = s[i];
        let ghost pre = s@.subrange(start as int, i as int);
        assert(s@.subrange(start as int, i + 1).drop_last() == pre);
        assert(s@.subrange(start as int, i + 1).last() == c);
        let d: u32 = if '0' <= c && c <= '9' {
            (c as u32) - ('0' as u32)
        } else if radix == 16 && 'a' <= c && c <= 'f' {
            (c as u32) - ('a' as u32) + 10
        } else if radix == 16 && 'A' <= c && c <= 'F' {
            (c as u32) - ('A' as u32) + 10
        } else {
            proof {
                assert(s@.subrange(start as int, hi as int).take(i - start + 1) == s@.subrange(start as int, i + 1));
                lemma_scan_rest_err(s@.subrange(start as int, hi as int), (i - start) as int, radix as nat, ParseFail::InvalidDigit);
            }
            return Err(ParseFail::InvalidDigit);
        };
        let lim: u32 = (u32::MAX - d) / radix;
        if v > lim {
            proof {
                assert(v * radix + d > u32::MAX) by (nonlinear_arith)
                    requires
                        v > lim,
                        lim == (0xffff_ffffint - d) / (radix as int),
                        radix > 0,
                        d <= 0xffff_ffffint,
                ;
                assert(s@.subrange(start as int, hi as int).take(i - start + 1) == s@.subrange(start as int, i + 1));
                lemma_scan_rest_err(s@.subrange(start as int, hi as int), (i - start) as int, radix as nat, ParseFail::PosOverflow);
            }
            return Err(ParseFail::PosOverflow);
        }
        proof {
            assert(v * radix + d <= u32::MAX) by (nonlinear_arith)
                requires
                    v <= lim,
                    lim == (0xffff_ffffint - d) / (radix as int),
                    radix > 0,
                    d <= 0xffff_ffffint,
            ;
        }
        v = v * radix + d;
        i = i + 1;
    }
    Ok(v)
}

/// Once the scan of a prefix fails, every extension fails the same way.
proof fn lemma_scan_rest_err(s: Seq<char>, k: int, radix: nat, e: ParseFail)
    requires
        0 <= k < s.len(),
        scan_digits(s.take(k + 1), radix) == Err::<nat, ParseFail>(e),
    ensures
        scan_digits(s, radix) == Err::<nat, ParseFail>(e),
    decreases s.len() - k,
{
    if k + 1 == s.len() {
        assert(s.take(k + 1) == s);
    } else {
        assert(s.take(k + 2).drop_last() == s.take(k + 1));
        lemma_scan_rest_err(s, k + 1, radix, e);
    }
}

} // verus!
