//! Integer literals: reading a 32-bit signed integer from its decimal text,
//! and writing one back out.
use vstd::prelude::*;

use crate::error::IntErrorKind;
use crate::error::NumberError;
use crate::text::TrimmedStr;

verus! {

/// Whether `c` is one of the ASCII digits `0` to `9`.
pub open spec fn is_digit(c: char) -> bool {
    48 <= (c as u32) <= 57
}

/// The value of the ASCII digit `c`.
pub open spec fn digit_value(c: char) -> int {
    (c as u32) - 48
}

/// The digit character for `d`, which is below ten.
pub open spec fn digit_char(d: nat) -> char {
    if d == 0 { '0' }
    else if d == 1 { '1' }
    else if d == 2 { '2' }
    else if d == 3 { '3' }
    else if d == 4 { '4' }
    else if d == 5 { '5' }
    else if d == 6 { '6' }
    else if d == 7 { '7' }
    else if d == 8 { '8' }
    else { '9' }
}

/// Reads the digits of `s` from index `i` on, left to right, after the
/// magnitude `acc` of what came before; `neg` tells the sign. The first
/// character that is no digit, or the first digit after which the magnitude
/// no longer fits, decides the error.
pub open spec fn scan_digits(s: Seq<char>, i: int, neg: bool, acc: int) -> Result<int, IntErrorKind>
    decreases s.len() - i,
{
    if i < 0 || i >= s.len() {
        Ok(if neg { -acc } else { acc })
    } else if !is_digit(s[i]) {
        Err(IntErrorKind::InvalidDigit)
    } else {
        let v = acc * 10 + digit_value(s[i]);
        if !neg && v > i32::MAX {
            Err(IntErrorKind::PosOverflow)
        } else if neg && v > 0x8000_0000 {
            Err(IntErrorKind::NegOverflow)
        } else {
            scan_digits(s, i + 1, neg, v)
        }
    }
}

/// The 32-bit signed integer that `s` writes in decimal: an optional `+` or
/// `-` and at least one ASCII digit, with nothing around them.
pub open spec fn number_of(s: Seq<char>) -> Result<i32, IntErrorKind> {
    if s.len() == 0 {
        Err(IntErrorKind::Empty)
    } else {
        let signed = s[0] == '+' || s[0] == '-';
        if signed && s.len() == 1 {
            Err(IntErrorKind::InvalidDigit)
        } else {
            match scan_digits(s, if signed { 1 } else { 0 }, s[0] == '-', 0) {
                Ok(v) => Ok(v as i32),
                Err(e) => Err(e),
            }
        }
    }
}

/// The decimal digits of `n`, most significant first, without leading zeros.
pub open spec fn nat_text(n: nat) -> Seq<char>
    decreases n,
{
    if n < 10 {
        seq![digit_char(n)]
    } else {
        nat_text(n / 10).push(digit_char(n % 10))
    }
}

/// The decimal text of `n`, with a leading `-` when it is negative.
pub open spec fn int_text(n: int) -> Seq<char> {
    if n < 0 {
        seq!['-'] + nat_text((-n) as nat)
    } else {
        nat_text(n as nat)
    }
}

/// A 32-bit signed integer.
#[derive(PartialEq, Eq, Debug, Clone, Copy)]
pub struct Number(i32);

impl View for Number {
    type V = i32;

    closed spec fn view(&self) -> i32 {
        self.0
    }
}

/// Relies on `String`'s `FromIterator<&char>`: the string holds the given
/// characters in order.
#[verifier::external_body]
fn string_from_chars(v: &Vec<char>) -> (r: String)
    ensures
        r@ == v@,
{
    v.iter().collect()
}

fn digit_to_char(d: u64) -> (r: char)
    requires
        d < 10,
    ensures
        r == digit_char(d as nat),
{
    if d == 0 { '0' }
    else if d == 1 { '1' }
    else if d == 2 { '2' }
    else if d == 3 { '3' }
    else if d == 4 { '4' }
    else if d == 5 { '5' }
    else if d == 6 { '6' }
    else if d == 7 { '7' }
    else if d == 8 { '8' }
    else { '9' }
}

fn nat_chars(n: u64) -> (r: Vec<char>)
    ensures
        r@ == nat_text(n as nat),
{
    let mut m = n;
    let mut out: Vec<char> = Vec::new();
    loop
        invariant
            nat_text(n as nat) == nat_text(m as nat) + out@,
        decreases m,
    {
        if m < 10 {
            let c = digit_to_char(m);
            out.insert(0, c);
            assert(out@ =~= seq![c] + (out@.drop_first()));
            assert(nat_text(n as nat) =~= out@);
            return out;
        }
        let c = digit_to_char(m % 10);
        let ghost old_out = out@;
        out.insert(0, c);
        assert(nat_text(m as nat) == nat_text((m / 10) as nat).push(c));
        assert(nat_text((m / 10) as nat) + out@ =~= nat_text((m / 10) as nat).push(c) + old_out);
        m = m / 10;
    }
}

/// The decimal text of `n`.
pub fn usize_text(n: usize) -> (r: String)
    ensures
        r@ == nat_text(n as nat),
{
    let v = nat_chars(n as u64);
    string_from_chars(&v)
}

impl Number {
    /// Reads `s` as a decimal 32-bit signed integer.
    pub fn new(s: &TrimmedStr) -> (r: Result<Self, NumberError>)
        ensures
            match r {
                Ok(n) => number_of(s@) == Ok::<i32, IntErrorKind>(n@),
                Err(NumberError::InvalidNumber(k)) => number_of(s@) == Err::<i32, IntErrorKind>(k),
            },
    {
        let t = s.as_str();
        let len = t.unicode_len();
        if len == 0 {
            return Err(NumberError::InvalidNumber(IntErrorKind::Empty));
        }
        let first = t.get_char(0);
        let signed = first == '+' || first == '-';
        if signed && len == 1 {
            return Err(NumberError::InvalidNumber(IntErrorKind::InvalidDigit));
        }
        let neg = first == '-';
        let mut i: usize = if signed { 1 } else { 0 };
        let mut acc: i64 = 0;
        while i < len
            invariant
                len == t@.len(),
                t@ == s@,
                0 < len,
                s@[0] == first,
                signed == (first == '+' || first == '-'),
                neg == (first == '-'),
                !(signed && len == 1),
                i <= len,
                0 <= acc <= 0x8000_0000,
                !neg ==> acc <= i32::MAX,
                scan_digits(s@, if signed { 1 } else { 0 }, neg, 0) == scan_digits(
                    s@,
                    i as int,
                    neg,
                    acc as int,
                ),
            decreases len - i,
        {
            let c = t.get_char(i);
            let u = c as u32;
            if !(48 <= u && u <= 57) {
                return Err(NumberError::InvalidNumber(IntErrorKind::InvalidDigit));
            }
            let v = acc * 10 + (u - 48) as i64;
            if !neg && v > 0x7fff_ffff {
                return Err(NumberError::InvalidNumber(IntErrorKind::PosOverflow));
            }
            if neg && v > 0x8000_0000 {
                return Err(NumberError::InvalidNumber(IntErrorKind::NegOverflow));
            }
            acc = v;
            i = i + 1;
        }
        let value: i64 = if neg { -acc } else { acc };
        Ok(Number(value as i32))
    }

    /// The integer.
    pub fn inner(self) -> (r: i32)
        ensures
            r == self@,
    {
        self.0
    }

    /// Wraps an integer.
    pub fn from_i32(value: i32) -> (r: Self)
        ensures
            r@ == value,
    {
        Number(value)
    }

    /// The decimal text of the integer.
    pub fn text(self) -> (r: String)
        ensures
            r@ == int_text(self@ as int),
    {
        if self.0 < 0 {
            let m = (-(self.0 as i64)) as u64;
            let digits = nat_chars(m);
            let mut v: Vec<char> = Vec::new();
            v.push('-');
            let mut d = digits;
            v.append(&mut d);
            assert(v@ =~= seq!['-'] + nat_text(m as nat));
            string_from_chars(&v)
        } else {
            let digits = nat_chars(self.0 as u64);
            string_from_chars(&digits)
        }
    }
}

} // verus!
