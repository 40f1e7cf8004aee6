//! Numbers written as text, and read from it.

use vstd::prelude::*;
use crate::text::{from_chars, piece, to_chars};

verus! {

/// The digit for a value below 16, in lower case.
pub open spec fn digit_char(d: nat) -> char {
    if d < 10 {
        (d + 48) as char
    } else {
        (d + 87) as char
    }
}

/// `n` written in the base `radix`, without leading zeros.
pub open spec fn in_radix(n: nat, radix: nat) -> Seq<char>
    decreases n,
{
    if n < radix || radix < 2 {
        seq![digit_char(n)]
    } else {
        proof {
            assert(n / radix < n) by (nonlinear_arith)
                requires
                    n >= radix,
                    radix >= 2,
            ;
        }
        in_radix(n / radix, radix).push(digit_char(n % radix))
    }
}

/// `n` in decimal.
pub open spec fn decimal(n: nat) -> Seq<char> {
    in_radix(n, 10)
}

/// A signed number in decimal.
pub open spec fn decimal_int(n: int) -> Seq<char> {
    if n < 0 {
        seq!['-'] + decimal((-n) as nat)
    } else {
        decimal(n as nat)
    }
}

fn push_radix(out: &mut Vec<char>, n: u128, radix: u128)
    requires
        2 <= radix <= 10,
    ensures
        final(out)@ == old(out)@ + in_radix(n as nat, radix as nat),
    decreases n,
{
    if n >= radix {
        assert(n / radix < n) by (nonlinear_arith)
            requires
                n >= radix,
                radix >= 2,
        ;
        push_radix(out, n / radix, radix);
    }
    let d: u8 = (n % radix) as u8;
    let ghost before = out@;
    out.push((d + 48) as char);
    assert(n >= radix ==> old(out)@ + in_radix((n / radix) as nat, radix as nat).push(
        digit_char(d as nat),
    ) =~= (old(out)@ + in_radix((n / radix) as nat, radix as nat)).push(digit_char(d as nat)));
    assert(n < radix ==> n % radix == n) by (nonlinear_arith)
        requires
            radix >= 2,
    ;
    assert(n < radix ==> old(out)@ + seq![digit_char(d as nat)] =~= out@);
}

/// `n` in decimal.
pub fn decimal_text(n: u64) -> (r: String)
    ensures
        r@ == decimal(n as nat),
{
    let mut out: Vec<char> = Vec::new();
    push_radix(&mut out, n as u128, 10);
    assert(Seq::<char>::empty() + decimal(n as nat) =~= decimal(n as nat));
    from_chars(out.as_slice())
}

/// `n` in decimal.
pub fn wide_text(n: u128) -> (r: String)
    ensures
        r@ == decimal(n as nat),
{
    let mut out: Vec<char> = Vec::new();
    push_radix(&mut out, n, 10);
    assert(Seq::<char>::empty() + decimal(n as nat) =~= decimal(n as nat));
    from_chars(out.as_slice())
}

/// `n` in decimal.
pub fn usize_text(n: usize) -> (r: String)
    ensures
        r@ == decimal(n as nat),
{
    decimal_text(n as u64)
}

/// `n` in octal.
pub fn octal_text(n: u32) -> (r: String)
    ensures
        r@ == in_radix(n as nat, 8),
{
    let mut out: Vec<char> = Vec::new();
    push_radix(&mut out, n as u128, 8);
    assert(Seq::<char>::empty() + in_radix(n as nat, 8) =~= in_radix(n as nat, 8));
    from_chars(out.as_slice())
}

/// A signed number in decimal.
pub fn signed_text(n: i64) -> (r: String)
    ensures
        r@ == decimal_int(n as int),
{
    if n < 0 {
        let mut out: Vec<char> = Vec::new();
        out.push('-');
        let m: u64 = (-(n + 1)) as u64 + 1;
        push_radix(&mut out, m as u128, 10);
        assert(Seq::<char>::empty().push('-') =~= seq!['-']);
        from_chars(out.as_slice())
    } else {
        decimal_text(n as u64)
    }
}

/// The value of a digit in the base `radix`; either case is read.
pub open spec fn digit_value(c: char, radix: nat) -> Option<nat> {
    let v: int = if '0' <= c <= '9' {
        c as int - 48
    } else if 'a' <= c <= 'z' {
        c as int - 87
    } else if 'A' <= c <= 'Z' {
        c as int - 55
    } else {
        radix as int
    };
    if v < radix {
        Some(v as nat)
    } else {
        None
    }
}

/// The value of a run of digits.
pub open spec fn digits_value(s: Seq<char>, radix: nat) -> Option<nat>
    decreases s.len(),
{
    if s.len() == 0 {
        Some(0)
    } else {
        match (digits_value(s.drop_last(), radix), digit_value(s.last(), radix)) {
            (Some(v), Some(d)) => Some(v * radix + d),
            _ => None,
        }
    }
}

/// The number that `s` gives: an optional `+` and at least one digit, with a value up to `max`.
pub open spec fn read_unsigned(s: Seq<char>, radix: nat, max: nat) -> Option<nat> {
    let body = if s.len() > 0 && s[0] == '+' {
        s.skip(1)
    } else {
        s
    };
    if body.len() == 0 {
        None
    } else {
        match digits_value(body, radix) {
            Some(v) => if v <= max {
                Some(v)
            } else {
                None
            },
            None => None,
        }
    }
}

proof fn digits_grow(s: Seq<char>, k: int, radix: nat)
    requires
        0 <= k <= s.len(),
        radix >= 1,
        digits_value(s, radix) is Some,
    ensures
        digits_value(s.take(k), radix) is Some,
        digits_value(s.take(k), radix)->0 <= digits_value(s, radix)->0,
    decreases s.len() - k,
{
    if k == s.len() {
        assert(s.take(k) =~= s);
    } else {
        digits_grow(s, k + 1, radix);
        assert(s.take(k + 1).drop_last() =~= s.take(k));
        let v = digits_value(s.take(k), radix)->0;
        assert(v <= v * radix) by (nonlinear_arith)
            requires
                radix >= 1,
                v >= 0,
        ;
    }
}

fn read_digit(c: char, radix: u64) -> (r: Option<u64>)
    requires
        2 <= radix <= 36,
    ensures
        match r {
            Some(d) => digit_value(c, radix as nat) == Some(d as nat),
            None => digit_value(c, radix as nat) is None,
        },
{
    let n: u64 = c as u64;
    let v: u64 = if '0' <= c && c <= '9' {
        n - 48
    } else if 'a' <= c && c <= 'z' {
        n - 87
    } else if 'A' <= c && c <= 'Z' {
        n - 55
    } else {
        radix
    };
    if v < radix {
        Some(v)
    } else {
        None
    }
}

/// The number that `s` gives in the base `radix`, if it gives one up to `max`.
pub fn parse_unsigned(s: &[char], radix: u64, max: u64) -> (r: Option<u64>)
    requires
        2 <= radix <= 36,
    ensures
        match r {
            Some(v) => read_unsigned(s@, radix as nat, max as nat) == Some(v as nat),
            None => read_unsigned(s@, radix as nat, max as nat) is None,
        },
{
    let start: usize = if s.len() > 0 && s[0] == '+' { 1 } else { 0 };
    if start == s.len() {
        return None;
    }
    let ghost body = s@.skip(start as int);
    assert(start == 0 ==> body =~= s@);
    let mut i: usize = start;
    let mut v: u64 = 0;
    assert(body.take(0) =~= Seq::<char>::empty());
    while i < s.len()
        invariant
            2 <= radix <= 36,
            start <= i <= s.len(),
            start <= s.len(),
            body == s@.skip(start as int),
            body == (if s@.len() > 0 && s@[0] == '+' { s@.skip(1) } else { s@ }),
            body.len() > 0,
            digits_value(body.take(i - start), radix as nat) == Some(v as nat),
            v <= max,
        decreases s.len() - i,
    {
        let ghost k = i - start;
        assert(body.take(k + 1).drop_last() =~= body.take(k));
        assert(body.take(k + 1).last() == s@[i as int]);
        proof {
            if digits_value(body, radix as nat) is Some {
                digits_grow(body, k + 1, radix as nat);
            }
        }
        match read_digit(s[i], radix) {
            None => {
                return None;
            },
            Some(d) => {
                assert(0 <= v * radix <= 0xffff_ffff_ffff_ffff * 36) by (nonlinear_arith)
                    requires
                        0 <= v <= 0xffff_ffff_ffff_ffff,
                        2 <= radix <= 36,
                ;
                let wide: u128 = v as u128 * radix as u128 + d as u128;
                if wide > max as u128 {
                    return None;
                }
                v = wide as u64;
            },
        }
        i += 1;
    }
    assert(body.take(body.len() as int) =~= body);
    Some(v)
}

/// The `usize` that `s` gives.
pub fn parse_usize(s: &[char]) -> (r: Option<usize>)
    ensures
        match r {
            Some(v) => read_unsigned(s@, 10, usize::MAX as nat) == Some(v as nat),
            None => read_unsigned(s@, 10, usize::MAX as nat) is None,
        },
{
    match parse_unsigned(s, 10, usize::MAX as u64) {
        Some(v) => Some(v as usize),
        None => None,
    }
}

proof fn decimal_digits(n: nat)
    ensures
        decimal(n).len() > 0,
        digits_value(decimal(n), 10) == Some(n),
        '0' <= decimal(n)[0] <= '9',
    decreases n,
{
    if n < 10 {
        let d = seq![digit_char(n)];
        assert(decimal(n) =~= d);
        assert(d.drop_last() =~= Seq::<char>::empty());
        assert(digits_value(d.drop_last(), 10) == Some(0nat));
    } else {
        decimal_digits(n / 10);
        let s = decimal(n);
        assert(s =~= decimal(n / 10).push(digit_char(n % 10)));
        assert(s.drop_last() =~= decimal(n / 10));
        assert(s.last() == digit_char(n % 10));
        assert(s[0] == decimal(n / 10)[0]);
    }
}

/// A number that is written in decimal is read back.
pub proof fn decimal_reads_back(n: nat, max: nat)
    requires
        n <= max,
    ensures
        read_unsigned(decimal(n), 10, max) == Some(n),
{
    decimal_digits(n);
}

/// The signed number that `s` gives: decimal digits, with an optional sign.
pub open spec fn read_signed(s: Seq<char>) -> Option<int> {
    if s.len() > 0 && s[0] == '-' {
        match read_unsigned(s.skip(1), 10, 0x8000_0000_0000_0000) {
            Some(v) => Some(-(v as int)),
            None => None,
        }
    } else {
        match read_unsigned(s, 10, 0x7fff_ffff_ffff_ffff) {
            Some(v) => Some(v as int),
            None => None,
        }
    }
}

/// A signed number that is written in decimal is read back.
pub proof fn signed_reads_back(n: i64)
    ensures
        read_signed(decimal_int(n as int)) == Some(n as int),
{
    if n < 0 {
        decimal_reads_back((-n) as nat, 0x8000_0000_0000_0000);
        assert(decimal_int(n as int).skip(1) =~= decimal((-n) as nat));
    } else {
        decimal_digits(n as nat);
        decimal_reads_back(n as nat, 0x7fff_ffff_ffff_ffff);
    }
}

/// The `i64` that a text gives.
pub fn parse_signed(text: &str) -> (r: Option<i64>)
    ensures
        match r {
            Some(v) => read_signed(text@) == Some(v as int),
            None => read_signed(text@) is None,
        },
{
    let s = to_chars(text);
    if s.len() > 0 && s[0] == '-' {
        let rest = piece(s.as_slice(), 1, s.len());
        assert(rest@ =~= text@.skip(1));
        match parse_unsigned(rest.as_slice(), 10, 0x8000_0000_0000_0000) {
            Some(v) => {
                if v == 0x8000_0000_0000_0000 {
                    Some(i64::MIN)
                } else {
                    Some(-(v as i64))
                }
            },
            None => None,
        }
    } else {
        match parse_unsigned(s.as_slice(), 10, 0x7fff_ffff_ffff_ffff) {
            Some(v) => Some(v as i64),
            None => None,
        }
    }
}

proof fn radix_digits(n: nat, radix: nat)
    requires
        2 <= radix <= 36,
    ensures
        in_radix(n, radix).len() > 0,
        digits_value(in_radix(n, radix), radix) == Some(n),
        in_radix(n, radix)[0] != '+',
    decreases n,
{
    if n < radix {
        let d = seq![digit_char(n)];
        assert(in_radix(n, radix) =~= d);
        assert(d.drop_last() =~= Seq::<char>::empty());
        assert(digits_value(d.drop_last(), radix) == Some(0nat));
        assert(0 * radix == 0) by (nonlinear_arith);
    } else {
        assert(n / radix < n && n % radix < radix && n == (n / radix) * radix + n % radix)
            by (nonlinear_arith)
            requires
                n >= radix,
                radix >= 2,
        ;
        radix_digits(n / radix, radix);
        let s = in_radix(n, radix);
        let t = in_radix(n / radix, radix);
        assert(s =~= t.push(digit_char(n % radix)));
        assert(s.drop_last() =~= t);
        assert(s[0] == t[0]);
    }
}

/// A number that is written in a base is read back in that base, and is refused above the bound.
pub proof fn numbers_are_read_back(n: nat, radix: nat, max: nat)
    requires
        2 <= radix <= 36,
    ensures
        n <= max ==> read_unsigned(in_radix(n, radix), radix, max) == Some(n),
        n > max ==> read_unsigned(in_radix(n, radix), radix, max) is None,
{
    radix_digits(n, radix);
}

/// The last digit of a number in decimal is its rest by ten, and the digits before it are those of
/// its tenth.
pub proof fn digits_are_in_order(n: nat)
    ensures
        n < 10 ==> decimal(n) == seq![(48 + n) as char],
        n >= 10 ==> decimal(n) == decimal(n / 10).push((48 + n % 10) as char),
{
}

/// Only digits are read, behind an optional plus sign, and a number above the bound is refused.
pub proof fn only_digits_are_read(s: Seq<char>, max: nat, i: int)
    requires
        read_unsigned(s, 10, max) is Some,
        0 <= i < s.len(),
    ensures
        '0' <= s[i] <= '9' || (i == 0 && s[i] == '+' && s.len() > 1),
        read_unsigned(s, 10, max)->0 <= max,
{
    let body = if s[0] == '+' {
        s.skip(1)
    } else {
        s
    };
    if s[0] == '+' {
        if i > 0 {
            all_digits(body, i - 1);
            assert(body[i - 1] == s[i]);
        }
    } else {
        all_digits(body, i);
    }
}

proof fn all_digits(s: Seq<char>, i: int)
    requires
        digits_value(s, 10) is Some,
        0 <= i < s.len(),
    ensures
        '0' <= s[i] <= '9',
    decreases s.len(),
{
    if i < s.len() - 1 {
        assert(s.drop_last()[i] == s[i]);
        all_digits(s.drop_last(), i);
    } else {
        assert(digit_value(s.last(), 10) is Some);
    }
}

} // verus!
