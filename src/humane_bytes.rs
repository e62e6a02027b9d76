//! A number of bytes, written for people: `139B`, `1.39kB`, `25.00MB`.
use vstd::prelude::*;

use crate::text::{decimal, digit, digit_char, push_char, push_decimal};

verus! {

/// A number of bytes.
#[derive(PartialEq, Eq, Structural, Debug, Clone, Copy)]
pub struct HumaneBytes(pub u64);

impl From<u64> for HumaneBytes {
    fn from(other: u64) -> (r: Self)
        ensures
            r.0 == other,
    {
        HumaneBytes(other)
    }
}

impl vstd::std_specs::convert::FromSpecImpl<u64> for HumaneBytes {
    open spec fn obeys_from_spec() -> bool {
        true
    }

    open spec fn from_spec(v: u64) -> HumaneBytes {
        HumaneBytes(v)
    }
}

impl From<HumaneBytes> for u64 {
    fn from(other: HumaneBytes) -> (r: Self)
        ensures
            r == other.0,
    {
        other.0
    }
}

impl vstd::std_specs::convert::FromSpecImpl<HumaneBytes> for u64 {
    open spec fn obeys_from_spec() -> bool {
        true
    }

    open spec fn from_spec(v: HumaneBytes) -> u64 {
        v.0
    }
}

impl From<usize> for HumaneBytes {
    fn from(other: usize) -> (r: Self)
        ensures
            r.0 == other as u64,
    {
        HumaneBytes(other as u64)
    }
}

impl vstd::std_specs::convert::FromSpecImpl<usize> for HumaneBytes {
    open spec fn obeys_from_spec() -> bool {
        true
    }

    open spec fn from_spec(v: usize) -> HumaneBytes {
        HumaneBytes(v as u64)
    }
}

impl From<HumaneBytes> for usize {
    /// On a target whose `usize` is narrower than 64 bits, the count is cut
    /// to its low bits, as `as` does.
    fn from(other: HumaneBytes) -> (r: Self)
        ensures
            r == other.0 as usize,
    {
        other.0 as usize
    }
}

impl vstd::std_specs::convert::FromSpecImpl<HumaneBytes> for usize {
    open spec fn obeys_from_spec() -> bool {
        true
    }

    open spec fn from_spec(v: HumaneBytes) -> usize {
        v.0 as usize
    }
}

/// The power of a thousand that `n` is written in: 1 for `k`, 2 for `M`,
/// 3 for `G`, 4 for `T` and above.
pub open spec fn unit_power(n: nat) -> nat {
    if n < 1_000_000 {
        1
    } else if n < 1_000_000_000 {
        2
    } else if n < 1_000_000_000_000 {
        3
    } else {
        4
    }
}

pub open spec fn unit_char(power: nat) -> char {
    if power == 1 {
        'k'
    } else if power == 2 {
        'M'
    } else if power == 3 {
        'G'
    } else {
        'T'
    }
}

pub open spec fn pow1000(power: nat) -> nat
    decreases power,
{
    if power == 0 {
        1
    } else {
        1000 * pow1000((power - 1) as nat)
    }
}

/// `n / d` in hundredths, rounded to the nearest, ties to even.
pub open spec fn hundredths(n: nat, d: nat) -> nat
    recommends
        d > 0,
{
    let t = n * 100 / d;
    let lo = n * 100 % d;
    if 2 * lo > d || (2 * lo == d && t % 2 == 1) {
        t + 1
    } else {
        t
    }
}

/// How `n` bytes are written: below a thousand as an integer, else with two
/// decimals in the largest of `k`, `M`, `G`, `T` that fits.
pub open spec fn humane_text(n: nat) -> Seq<char> {
    if n < 1000 {
        decimal(n).push('B')
    } else {
        let c = hundredths(n, pow1000(unit_power(n)));
        decimal(c / 100).push('.').push(digit_char((c % 100) / 10)).push(digit_char(c % 10)).push(
            unit_char(unit_power(n)),
        ).push('B')
    }
}

fn unit_divisor(n: u64) -> (r: (u64, char))
    requires
        n >= 1000,
    ensures
        r.0 == pow1000(unit_power(n as nat)),
        r.1 == unit_char(unit_power(n as nat)),
        1000 <= r.0 <= 1_000_000_000_000,
{
    reveal_with_fuel(pow1000, 5);
    if n < 1_000_000 {
        (1000, 'k')
    } else if n < 1_000_000_000 {
        (1_000_000, 'M')
    } else if n < 1_000_000_000_000 {
        (1_000_000_000, 'G')
    } else {
        (1_000_000_000_000, 'T')
    }
}

proof fn lemma_split_division(n: nat, d: nat, q: nat, r: nat)
    requires
        d > 0,
        q == n / d,
        r == n % d,
    ensures
        n * 100 / d == q * 100 + (r * 100) / d,
        n * 100 % d == (r * 100) % d,
{
    let a = (r * 100) / d;
    let b = (r * 100) % d;
    assert(n == d * q + r) by (nonlinear_arith)
        requires
            d > 0,
            q == n / d,
            r == n % d,
    ;
    assert(r * 100 == d * a + b) by (nonlinear_arith)
        requires
            d > 0,
            a == (r * 100) / d,
            b == (r * 100) % d,
    ;
    assert(n * 100 == d * (q * 100 + a) + b) by (nonlinear_arith)
        requires
            n == d * q + r,
            r * 100 == d * a + b,
    ;
    vstd::arithmetic::div_mod::lemma_div_multiples_vanish_fancy((q * 100 + a) as int, b as int, d as int);
    vstd::arithmetic::div_mod::lemma_mod_multiples_vanish((q * 100 + a) as int, b as int, d as int);
    vstd::arithmetic::div_mod::lemma_small_mod(b, d);
}

impl HumaneBytes {
    /// The number of bytes as people read it.
    pub fn to_string(&self) -> (r: String)
        ensures
            r@ == humane_text(self.0 as nat),
    {
        let n = self.0;
        let mut out = String::new();
        if n < 1000 {
            push_decimal(&mut out, n);
            push_char(&mut out, 'B');
            return out;
        }
        let (d, unit) = unit_divisor(n);
        let q = n / d;
        let r = n % d;
        assert(r < 1_000_000_000_000);
        let scaled = r * 100;
        let frac = scaled / d;
        let lo = scaled % d;
        proof {
            lemma_split_division(n as nat, d as nat, q as nat, r as nat);
        }
        assert(q <= 18_446_744_073_709_552) by (nonlinear_arith)
            requires
                q == n / d,
                d >= 1000,
                n <= 18_446_744_073_709_551_615u64,
        ;
        assert(frac < 100) by (nonlinear_arith)
            requires
                scaled == r * 100,
                r < d,
                frac == scaled / d,
                d > 0,
        ;
        let mut c = q * 100 + frac;
        if 2 * lo > d || (2 * lo == d && frac % 2 == 1) {
            c = c + 1;
        }
        assert(c == hundredths(n as nat, d as nat));
        push_decimal(&mut out, c / 100);
        push_char(&mut out, '.');
        push_char(&mut out, digit((c % 100) / 10));
        push_char(&mut out, digit(c % 10));
        push_char(&mut out, unit);
        push_char(&mut out, 'B');
        out
    }
}

} // verus!
