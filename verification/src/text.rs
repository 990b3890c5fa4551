//! Small verified text builders: decimal and hexadecimal rendering of
//! unsigned integers, and string concatenation.

use vstd::prelude::*;
use vstd::string::*;

verus! {

/// The character of a decimal digit.
pub open spec fn digit_char(d: nat) -> char {
    if d == 0 { '0' }
    else if d == 1 { '1' }
    else if d == 2 { '2' }
    else if d == 3 { '3' }
    else if d == 4 { '4' }
    else if d == 5 { '5' }
    else if d == 6 { '6' }
    else if d == 7 { '7' }
    else if d == 8 { '8' }
    else if d == 9 { '9' }
    else if d == 10 { 'A' }
    else if d == 11 { 'B' }
    else if d == 12 { 'C' }
    else if d == 13 { 'D' }
    else if d == 14 { 'E' }
    else { 'F' }
}

/// Decimal rendering of a natural number, without leading zeros
/// (`0` renders as `"0"`).
pub open spec fn decimal(n: nat) -> Seq<char>
    decreases n,
{
    if n < 10 {
        seq![digit_char(n)]
    } else {
        decimal(n / 10) + seq![digit_char(n % 10)]
    }
}

/// Upper-case hexadecimal rendering of a natural number, without leading
/// zeros (`0` renders as `"0"`).
pub open spec fn hex_upper(n: nat) -> Seq<char>
    decreases n,
{
    if n < 16 {
        seq![digit_char(n)]
    } else {
        hex_upper(n / 16) + seq![digit_char(n % 16)]
    }
}

/// `s` left-padded with `'0'` to at least `width` characters.
pub open spec fn zero_pad(s: Seq<char>, width: nat) -> Seq<char> {
    if s.len() >= width {
        s
    } else {
        Seq::new((width - s.len()) as nat, |i: int| '0') + s
    }
}

/// A one-character string for a digit value below 16.
fn digit_str(d: u64) -> (r: &'static str)
    requires
        d < 16,
    ensures
        r@ == seq![digit_char(d as nat)],
{
    proof {
        reveal_strlit("0");
        reveal_strlit("1");
        reveal_strlit("2");
        reveal_strlit("3");
        reveal_strlit("4");
        reveal_strlit("5");
        reveal_strlit("6");
        reveal_strlit("7");
        reveal_strlit("8");
        reveal_strlit("9");
        reveal_strlit("A");
        reveal_strlit("B");
        reveal_strlit("C");
        reveal_strlit("D");
        reveal_strlit("E");
        reveal_strlit("F");
    }
    if d == 0 { "0" }
    else if d == 1 { "1" }
    else if d == 2 { "2" }
    else if d == 3 { "3" }
    else if d == 4 { "4" }
    else if d == 5 { "5" }
    else if d == 6 { "6" }
    else if d == 7 { "7" }
    else if d == 8 { "8" }
    else if d == 9 { "9" }
    else if d == 10 { "A" }
    else if d == 11 { "B" }
    else if d == 12 { "C" }
    else if d == 13 { "D" }
    else if d == 14 { "E" }
    else { "F" }
}

/// Rendering of `n` in `base` (10 or 16).
pub open spec fn in_base(n: nat, base: nat) -> Seq<char> {
    if base == 16 { hex_upper(n) } else { decimal(n) }
}

/// Render `n` in base 10 or 16 (upper-case digits, no prefix).
fn render(n: u64, base: u64) -> (r: String)
    requires
        base == 10 || base == 16,
    ensures
        r@ == in_base(n as nat, base as nat),
    decreases n,
{
    if n < base {
        String::from_str(digit_str(n))
    } else {
        let mut s = render(n / base, base);
        s.append(digit_str(n % base));
        s
    }
}

/// Decimal rendering of an unsigned integer (as `format!("{}", n)`).
pub fn u64_to_decimal(n: u64) -> (r: String)
    ensures
        r@ == decimal(n as nat),
{
    render(n, 10)
}

/// Upper-case hexadecimal rendering (as `format!("{:X}", n)`).
pub fn u64_to_hex_upper(n: u64) -> (r: String)
    ensures
        r@ == hex_upper(n as nat),
{
    render(n, 16)
}

/// Upper-case hexadecimal, left-padded with zeros to `width` characters
/// (as `format!("{:0width$X}", n)`).
pub fn u64_to_hex_padded(n: u64, width: usize) -> (r: String)
    ensures
        r@ == zero_pad(hex_upper(n as nat), width as nat),
{
    let h = u64_to_hex_upper(n);
    let len = h.as_str().unicode_len();
    if len >= width {
        return h;
    }
    let mut out = String::new();
    let mut i: usize = 0;
    proof {
        reveal_strlit("0");
    }
    while i < width - len
        invariant
            i <= width - len,
            len == h@.len(),
            len < width,
            out@ == Seq::new(i as nat, |k: int| '0'),
        decreases width - len - i,
    {
        proof {
            reveal_strlit("0");
        }
        out.append("0");
        assert(out@ =~= Seq::new((i + 1) as nat, |k: int| '0'));
        i = i + 1;
    }
    out.append(h.as_str());
    out
}

} // verus!
