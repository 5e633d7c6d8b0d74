//! Decimal and human-readable number formatting, and the small character
//! utilities the rendering code builds display text with.

use vstd::prelude::*;
use vstd::string::StrSliceExecFns;

verus! {

/// The character for one decimal digit.
pub open spec fn spec_digit(d: nat) -> char {
    if d == 0 {
        '0'
    } else if d == 1 {
        '1'
    } else if d == 2 {
        '2'
    } else if d == 3 {
        '3'
    } else if d == 4 {
        '4'
    } else if d == 5 {
        '5'
    } else if d == 6 {
        '6'
    } else if d == 7 {
        '7'
    } else if d == 8 {
        '8'
    } else {
        '9'
    }
}

/// Decimal text of a natural number, most significant digit first.
pub open spec fn spec_dec(n: nat) -> Seq<char>
    decreases n,
{
    if n < 10 {
        seq![spec_digit(n)]
    } else {
        spec_dec(n / 10).push(spec_digit(n % 10))
    }
}

/// A count of hundredths shown with exactly two decimal places: 1234 is "12.34".
pub open spec fn spec_two_dec(c: nat) -> Seq<char> {
    spec_dec(c / 100) + seq!['.', spec_digit((c % 100) / 10), spec_digit(c % 10)]
}

/// A count of tenths shown with exactly one decimal place: 500 is "50.0".
pub open spec fn spec_one_dec(d: nat) -> Seq<char> {
    spec_dec(d / 10) + seq!['.', spec_digit(d % 10)]
}

/// Seconds shown as minutes and zero-padded seconds: 605 is "10:05".
pub open spec fn spec_min_sec(t: nat) -> Seq<char> {
    spec_dec(t / 60) + seq![':', spec_digit((t % 60) / 10), spec_digit(t % 10)]
}

fn digit_char(d: u128) -> (c: char)
    requires
        d < 10,
    ensures
        c == spec_digit(d as nat),
{
    if d == 0 {
        '0'
    } else if d == 1 {
        '1'
    } else if d == 2 {
        '2'
    } else if d == 3 {
        '3'
    } else if d == 4 {
        '4'
    } else if d == 5 {
        '5'
    } else if d == 6 {
        '6'
    } else if d == 7 {
        '7'
    } else if d == 8 {
        '8'
    } else {
        '9'
    }
}

pub fn u128_dec_chars(n: u128) -> (r: Vec<char>)
    ensures
        r@ == spec_dec(n as nat),
    decreases n,
{
    if n < 10 {
        let mut v: Vec<char> = Vec::new();
        v.push(digit_char(n));
        proof {
            assert(v@ =~= seq![spec_digit(n as nat)]);
        }
        v
    } else {
        let mut v = u128_dec_chars(n / 10);
        v.push(digit_char(n % 10));
        v
    }
}

pub fn u64_dec_chars(n: u64) -> (r: Vec<char>)
    ensures
        r@ == spec_dec(n as nat),
{
    u128_dec_chars(n as u128)
}

pub fn two_dec_chars(c: u64) -> (r: Vec<char>)
    ensures
        r@ == spec_two_dec(c as nat),
{
    let mut v = u128_dec_chars((c / 100) as u128);
    v.push('.');
    v.push(digit_char(((c % 100) / 10) as u128));
    v.push(digit_char((c % 10) as u128));
    proof {
        assert(v@ =~= spec_two_dec(c as nat));
    }
    v
}

pub fn one_dec_chars(d: u64) -> (r: Vec<char>)
    ensures
        r@ == spec_one_dec(d as nat),
{
    let mut v = u128_dec_chars((d / 10) as u128);
    v.push('.');
    v.push(digit_char((d % 10) as u128));
    proof {
        assert(v@ =~= spec_one_dec(d as nat));
    }
    v
}

pub fn min_sec_chars(t: u64) -> (r: Vec<char>)
    ensures
        r@ == spec_min_sec(t as nat),
{
    let mut v = u128_dec_chars((t / 60) as u128);
    v.push(':');
    v.push(digit_char(((t % 60) / 10) as u128));
    v.push(digit_char((t % 10) as u128));
    proof {
        assert((t % 60) % 10 == t % 10) by {
            assert(t % 60 == (t / 10 % 6) * 10 + t % 10) by (nonlinear_arith);
        }
        assert(v@ =~= spec_min_sec(t as nat));
    }
    v
}

/// 1000 raised to the power `e`.
pub open spec fn pow1000(e: nat) -> nat
    decreases e,
{
    if e == 0 {
        1
    } else {
        1000 * pow1000((e - 1) as nat)
    }
}

/// The scale a byte count is shown at: the largest `e` with `1000^e <= n`.
pub open spec fn bytes_exp(n: nat) -> nat
    decreases n,
{
    if n < 1000 {
        0
    } else {
        1 + bytes_exp(n / 1000)
    }
}

/// The unit suffix for each scale.
pub open spec fn bytes_unit(e: nat) -> Seq<char> {
    if e == 0 {
        seq!['B']
    } else if e == 1 {
        seq!['k', 'B']
    } else if e == 2 {
        seq!['M', 'B']
    } else if e == 3 {
        seq!['G', 'B']
    } else if e == 4 {
        seq!['T', 'B']
    } else if e == 5 {
        seq!['P', 'B']
    } else {
        seq!['E', 'B']
    }
}

/// A byte count scaled to its unit, in hundredths, rounded to nearest
/// (ties away from zero).
pub open spec fn spec_human_val(n: nat) -> nat {
    (200 * n + pow1000(bytes_exp(n))) / (2 * pow1000(bytes_exp(n)))
}

/// A count of hundredths shown with up to two decimal places, trailing
/// zeros dropped: 120 is "1.2", 100 is "1", 123 is "1.23".
pub open spec fn spec_trim_centi(v: nat) -> Seq<char> {
    if v % 100 == 0 {
        spec_dec(v / 100)
    } else if v % 10 == 0 {
        spec_dec(v / 100) + seq!['.', spec_digit((v % 100) / 10)]
    } else {
        spec_dec(v / 100) + seq!['.', spec_digit((v % 100) / 10), spec_digit(v % 10)]
    }
}

/// A byte count as human-readable text: scaled by powers of 1000, at most two
/// decimal places, trailing zeros dropped, then the unit suffix.
pub open spec fn spec_human_bytes(n: nat) -> Seq<char> {
    spec_trim_centi(spec_human_val(n)) + seq![' '] + bytes_unit(bytes_exp(n))
}

proof fn lemma_pow1000_above(e: nat)
    ensures
        pow1000(e) > e,
    decreases e,
{
    if e > 0 {
        lemma_pow1000_above((e - 1) as nat);
    }
}

proof fn lemma_pow1000_mono(a: nat, b: nat)
    requires
        a <= b,
    ensures
        pow1000(a) <= pow1000(b),
    decreases b,
{
    if a < b {
        lemma_pow1000_mono(a, (b - 1) as nat);
        lemma_pow1000_above((b - 1) as nat);
    }
}

proof fn lemma_pow1000_six()
    ensures
        pow1000(6) == 1000000000000000000,
{
    assert(pow1000(0) == 1);
    assert(pow1000(1) == 1000 * pow1000(0));
    assert(pow1000(2) == 1000 * pow1000(1));
    assert(pow1000(3) == 1000 * pow1000(2));
    assert(pow1000(4) == 1000 * pow1000(3));
    assert(pow1000(5) == 1000 * pow1000(4));
    assert(pow1000(6) == 1000 * pow1000(5));
}

proof fn lemma_bytes_exp_unique(n: nat, e: nat)
    requires
        n < pow1000(e + 1),
        e == 0 || pow1000(e) <= n,
    ensures
        bytes_exp(n) == e,
    decreases e,
{
    if e == 0 {
        assert(pow1000(0) == 1);
        assert(pow1000(1) == 1000 * pow1000(0));
    } else {
        lemma_pow1000_above((e - 1) as nat);
        assert(pow1000(e) == 1000 * pow1000((e - 1) as nat));
        assert(pow1000(e + 1) == 1000 * pow1000(e));
        assert(n >= 1000);
        assert(pow1000((e - 1) as nat) <= n / 1000 && n / 1000 < pow1000(e)) by (nonlinear_arith)
            requires
                pow1000(e) == 1000 * pow1000((e - 1) as nat),
                pow1000(e + 1) == 1000 * pow1000(e),
                pow1000(e) <= n,
                n < pow1000(e + 1),
        ;
        lemma_bytes_exp_unique(n / 1000, (e - 1) as nat);
    }
}

pub fn trim_centi_chars(v: u128) -> (r: Vec<char>)
    ensures
        r@ == spec_trim_centi(v as nat),
{
    let mut r = u128_dec_chars(v / 100);
    if v % 100 != 0 {
        r.push('.');
        r.push(digit_char((v % 100) / 10));
        if v % 10 != 0 {
            r.push(digit_char(v % 10));
        }
    }
    proof {
        assert(r@ =~= spec_trim_centi(v as nat));
    }
    r
}

pub fn human_bytes_chars(n: u64) -> (r: Vec<char>)
    ensures
        r@ == spec_human_bytes(n as nat),
{
    let n128: u128 = n as u128;
    let mut e: usize = 0;
    let mut p: u128 = 1;
    while n128 >= p * 1000
        invariant
            n128 == n as u128,
            p == pow1000(e as nat),
            e == 0 || pow1000(e as nat) <= n as nat,
            p >= 1,
            p == 1 || p <= n128,
        decreases n128 - p,
    {
        proof {
            if e >= 6 {
                lemma_pow1000_mono(6, e as nat);
                lemma_pow1000_six();
                assert(p * 1000 > n128);
                assert(false);
            }
        }
        e = e + 1;
        p = p * 1000;
    }
    proof {
        lemma_bytes_exp_unique(n as nat, e as nat);
    }
    let v: u128 = (200 * n128 + p) / (2 * p);
    let mut r = trim_centi_chars(v);
    r.push(' ');
    if e == 0 {
        r.push('B');
    } else {
        if e == 1 {
            r.push('k');
        } else if e == 2 {
            r.push('M');
        } else if e == 3 {
            r.push('G');
        } else if e == 4 {
            r.push('T');
        } else if e == 5 {
            r.push('P');
        } else {
            r.push('E');
        }
        r.push('B');
    }
    proof {
        assert(r@ =~= spec_human_bytes(n as nat));
    }
    r
}

/// Relies on String::push: it appends exactly the given character.
#[verifier::external_body]
pub fn push_char(s: &mut String, c: char)
    ensures
        final(s)@ == old(s)@.push(c),
{
    s.push(c);
}

pub fn chars_to_string(v: &Vec<char>) -> (r: String)
    ensures
        r@ == v@,
{
    let mut r = String::new();
    let mut i: usize = 0;
    while i < v.len()
        invariant
            i <= v.len(),
            r@ == v@.take(i as int),
        decreases v.len() - i,
    {
        push_char(&mut r, v[i]);
        proof {
            assert(v@.take(i as int).push(v@[i as int]) =~= v@.take(i as int + 1));
        }
        i = i + 1;
    }
    proof {
        assert(v@.take(v@.len() as int) =~= v@);
    }
    r
}

pub fn str_to_chars(s: &str) -> (r: Vec<char>)
    ensures
        r@ == s@,
{
    let n = s.unicode_len();
    let mut r: Vec<char> = Vec::new();
    let mut i: usize = 0;
    while i < n
        invariant
            i <= n,
            n == s@.len(),
            r@ == s@.take(i as int),
        decreases n - i,
    {
        r.push(s.get_char(i));
        proof {
            assert(s@.take(i as int).push(s@[i as int]) =~= s@.take(i as int + 1));
        }
        i = i + 1;
    }
    proof {
        assert(s@.take(s@.len() as int) =~= s@);
    }
    r
}

} // verus!
