//! Decimal numbers as X-Plane prints them (`6.00`, `-0.250000`), read and
//! compared exactly.
use vstd::prelude::*;

use crate::text::{
    after_first, all_digits, all_digits_of, before_first, decimal, decimal_of, digit_of,
};

verus! {

/// Numbers need at most this many significant digits and decimal places.
pub const MAX_DIGITS: usize = 15;

/// `sign * mant / 10^scale`; a minus sign is kept even on zero.
pub struct DecView {
    pub neg: bool,
    pub mant: nat,
    pub scale: nat,
}

/// An exactly read decimal number.
#[derive(Clone, Copy, Debug)]
pub struct Decimal {
    pub neg: bool,
    pub mant: u64,
    pub scale: u32,
}

impl View for Decimal {
    type V = DecView;

    open spec fn view(&self) -> DecView {
        DecView { neg: self.neg, mant: self.mant as nat, scale: self.scale as nat }
    }
}

pub open spec fn pow10(n: nat) -> nat
    decreases n,
{
    if n == 0 {
        1
    } else {
        10 * pow10((n - 1) as nat)
    }
}

/// The value of a string of decimal digits.
pub open spec fn digits_value(s: Seq<char>) -> nat
    decreases s.len(),
{
    if s.len() == 0 {
        0
    } else {
        digits_value(s.drop_last()) * 10 + ((s.last() as nat) - 48) as nat
    }
}

/// The signed numerator of a decimal, over `10^scale`.
pub open spec fn numer(d: DecView) -> int {
    if d.neg {
        -(d.mant as int)
    } else {
        d.mant as int
    }
}

/// A string of digits without its trailing zeros.
pub open spec fn trim_zeros(s: Seq<char>) -> Seq<char>
    decreases s.len(),
{
    if s.len() > 0 && s.last() == '0' {
        trim_zeros(s.drop_last())
    } else {
        s
    }
}

/// Where the first exponent mark (`e` or `E`) at or after `i` stands.
pub open spec fn exp_mark(s: Seq<char>, i: int) -> Option<int>
    decreases s.len() - i,
{
    if i < 0 || i >= s.len() {
        None
    } else if s[i] == 'e' || s[i] == 'E' {
        Some(i)
    } else {
        exp_mark(s, i + 1)
    }
}

/// An exponent: an optional sign, then at least one digit.
pub open spec fn exponent(x: Seq<char>) -> Option<int> {
    let signed = x.len() > 0 && (x[0] == '+' || x[0] == '-');
    let ds = if signed {
        x.skip(1)
    } else {
        x
    };
    if ds.len() > 0 && all_digits(ds) {
        Some(
            if x[0] == '-' {
                -(digits_value(ds) as int)
            } else {
                digits_value(ds) as int
            },
        )
    } else {
        None
    }
}

/// The number with integer digits `ip`, fraction digits `frac` and
/// exponent `e`, when fewer than sixteen significant digits and at most
/// fifteen decimal places hold it exactly; zero always.
pub open spec fn dec_of(neg: bool, ip: Seq<char>, frac: Seq<char>, e: int) -> Option<DecView> {
    let fr = trim_zeros(frac);
    let v = digits_value(ip + fr);
    let sc = fr.len() - e;
    if v == 0 {
        Some(DecView { neg, mant: 0, scale: 0 })
    } else if v >= pow10(MAX_DIGITS as nat) {
        None
    } else if sc >= 0 {
        if sc <= MAX_DIGITS {
            Some(DecView { neg, mant: v, scale: sc as nat })
        } else {
            None
        }
    } else if v * pow10((-sc) as nat) < pow10(MAX_DIGITS as nat) {
        Some(DecView { neg, mant: v * pow10((-sc) as nat), scale: 0 })
    } else {
        None
    }
}

/// A decimal number as `str::parse::<f64>` reads one: an optional sign,
/// digits with at most one point and at least one digit, and an optional
/// exponent (`e` or `E`, an optional sign, digits).
pub open spec fn parse_dec(t: Seq<char>) -> Option<DecView> {
    let signed = t.len() > 0 && (t[0] == '+' || t[0] == '-');
    let neg = t.len() > 0 && t[0] == '-';
    let body = if signed {
        t.skip(1)
    } else {
        t
    };
    let (m, e) = match exp_mark(body, 0) {
        None => (body, Some(0int)),
        Some(i) => (body.take(i), exponent(body.skip(i + 1))),
    };
    match e {
        None => None,
        Some(e) => {
            let ip = before_first(m, seq!['.']);
            match after_first(m, seq!['.']) {
                None => if ip.len() > 0 && all_digits(ip) {
                    dec_of(neg, ip, seq![], e)
                } else {
                    None
                },
                Some(frac) => if all_digits(ip) && all_digits(frac) && ip.len() + frac.len() > 0 {
                    dec_of(neg, ip, frac, e)
                } else {
                    None
                },
            }
        },
    }
}

pub proof fn lemma_pow10_pos(n: nat)
    ensures
        pow10(n) >= 1,
    decreases n,
{
    if n > 0 {
        lemma_pow10_pos((n - 1) as nat);
    }
}

pub proof fn lemma_pow10_mono(a: nat, b: nat)
    requires
        a <= b,
    ensures
        pow10(a) <= pow10(b),
    decreases b,
{
    if a < b {
        lemma_pow10_mono(a, (b - 1) as nat);
        lemma_pow10_pos((b - 1) as nat);
    }
}

pub proof fn lemma_digits_value_bound(s: Seq<char>)
    requires
        all_digits(s),
    ensures
        digits_value(s) < pow10(s.len()),
    decreases s.len(),
{
    if s.len() > 0 {
        assert(all_digits(s.drop_last()));
        lemma_digits_value_bound(s.drop_last());
        assert(crate::text::is_digit(s[s.len() - 1]));
    }
}

pub fn pow10_exec(n: u32) -> (r: u64)
    requires
        n <= 18,
    ensures
        r as nat == pow10(n as nat),
{
    let mut r: u64 = 1;
    let mut i: u32 = 0;
    while i < n
        invariant
            i <= n <= 18,
            r as nat == pow10(i as nat),
        decreases n - i,
    {
        proof {
            lemma_pow10_mono(i as nat, 17);
            assert(pow10(17) == 100000000000000000) by {
                reveal_with_fuel(pow10, 18);
            }
        }
        r = r * 10;
        i = i + 1;
    }
    r
}

proof fn lemma_digits_value_push(s: Seq<char>, c: char)
    ensures
        digits_value(s.push(c)) == digits_value(s) * 10 + ((c as nat) - 48) as nat,
{
    assert(s.push(c).drop_last() =~= s);
}

/// A longer string of digits is worth at least as much as its start.
proof fn lemma_digits_value_grows(s: Seq<char>, i: int)
    requires
        0 <= i <= s.len(),
        all_digits(s),
    ensures
        digits_value(s.take(i)) <= digits_value(s),
    decreases s.len() - i,
{
    if i < s.len() {
        lemma_digits_value_grows(s, i + 1);
        assert(s.take(i + 1).drop_last() =~= s.take(i));
        assert(crate::text::is_digit(s[i]));
    } else {
        assert(s.take(i) =~= s);
    }
}

/// The value of the digits of `a` then `b`, or `None` when it reaches
/// `10^15`.
fn digits_value_capped(a: &[char], b: &[char]) -> (r: Option<u64>)
    requires
        all_digits(a@ + b@),
    ensures
        match r {
            Some(v) => v as nat == digits_value(a@ + b@) && v < pow10(MAX_DIGITS as nat),
            None => digits_value(a@ + b@) >= pow10(MAX_DIGITS as nat),
        },
{
    let ghost s = a@ + b@;
    proof {
        assert(pow10(15) == 1000000000000000) by {
            reveal_with_fuel(pow10, 16);
        }
    }
    let mut v: u64 = 0;
    let mut i: usize = 0;
    while i < a.len()
        invariant
            s == a@ + b@,
            all_digits(s),
            i <= a.len(),
            v as nat == digits_value(s.take(i as int)),
            v < 1000000000000000,
            pow10(15) == 1000000000000000,
        decreases a.len() - i,
    {
        let c = a[i];
        assert(c == s[i as int]);
        assert(crate::text::is_digit(s[i as int]));
        proof {
            assert(s.take(i + 1) =~= s.take(i as int).push(c));
            lemma_digits_value_push(s.take(i as int), c);
        }
        let d = (c as u32 - 48) as u64;
        let w = v * 10 + d;
        if w >= 1000000000000000 {
            proof {
                lemma_digits_value_grows(s, i + 1);
            }
            return None;
        }
        v = w;
        i = i + 1;
    }
    let mut j: usize = 0;
    while j < b.len()
        invariant
            s == a@ + b@,
            all_digits(s),
            j <= b.len(),
            v as nat == digits_value(s.take(a.len() + j)),
            v < 1000000000000000,
            pow10(15) == 1000000000000000,
        decreases b.len() - j,
    {
        let c = b[j];
        assert(c == s[a.len() + j]);
        assert(crate::text::is_digit(s[a.len() + j]));
        proof {
            assert(s.take(a.len() + j + 1) =~= s.take(a.len() + j).push(c));
            lemma_digits_value_push(s.take(a.len() + j), c);
        }
        let d = (c as u32 - 48) as u64;
        let w = v * 10 + d;
        if w >= 1000000000000000 {
            proof {
                lemma_digits_value_grows(s, a.len() + j + 1);
            }
            return None;
        }
        v = w;
        j = j + 1;
    }
    assert(s.take(a.len() + b.len()) =~= s);
    Some(v)
}

/// Where the digits of `s` end once its trailing zeros are left out.
fn trim_zeros_len(s: &[char]) -> (r: usize)
    ensures
        r <= s.len(),
        trim_zeros(s@) == s@.take(r as int),
{
    let mut j = s.len();
    assert(s@.take(j as int) =~= s@);
    while j > 0 && s[j - 1] == '0'
        invariant
            j <= s.len(),
            trim_zeros(s@) == trim_zeros(s@.take(j as int)),
        decreases j,
    {
        assert(s@.take(j as int).drop_last() =~= s@.take(j - 1));
        j = j - 1;
    }
    j
}

/// Exponents beyond this size are read as this size, in their sign: no
/// number of fewer than sixteen significant digits is then in range.
pub const EXPONENT_CAP: i128 = 100000000000000000000;

/// Reads an exponent, its size capped just above `EXPONENT_CAP`.
fn exponent_capped(x: &[char]) -> (r: Option<i128>)
    ensures
        match r {
            None => exponent(x@) is None,
            Some(c) => exponent(x@) matches Some(e) && (-EXPONENT_CAP <= e <= EXPONENT_CAP ==> c == e)
                && (e > EXPONENT_CAP ==> c > EXPONENT_CAP && c <= EXPONENT_CAP + 1) && (e < -EXPONENT_CAP ==> c
                < -EXPONENT_CAP && c >= -EXPONENT_CAP - 1),
        },
{
    let signed = x.len() > 0 && (x[0] == '+' || x[0] == '-');
    let n = x.len();
    let ds = if signed {
        &x[1..n]
    } else {
        x
    };
    assert(signed ==> ds@ =~= x@.skip(1));
    if !(ds.len() > 0 && all_digits_of(ds)) {
        return None;
    }
    let mut v: i128 = 0;
    let mut i: usize = 0;
    while i < ds.len()
        invariant
            all_digits(ds@),
            i <= ds.len(),
            0 <= v <= EXPONENT_CAP + 1,
            v <= EXPONENT_CAP ==> v == digits_value(ds@.take(i as int)),
            v > EXPONENT_CAP ==> digits_value(ds@.take(i as int)) > EXPONENT_CAP,
        decreases ds.len() - i,
    {
        proof {
            assert(ds@.take(i + 1) =~= ds@.take(i as int).push(ds@[i as int]));
            lemma_digits_value_push(ds@.take(i as int), ds@[i as int]);
            assert(crate::text::is_digit(ds@[i as int]));
        }
        let d = (ds[i] as u32 - 48) as i128;
        if v > EXPONENT_CAP {
        } else {
            let w = v * 10 + d;
            if w > EXPONENT_CAP {
                v = EXPONENT_CAP + 1;
            } else {
                v = w;
            }
        }
        i = i + 1;
    }
    assert(ds@.take(ds.len() as int) =~= ds@);
    if x[0] == '-' {
        Some(-v)
    } else {
        Some(v)
    }
}

/// Reads a decimal number as `str::parse::<f64>` reads it, when fewer than
/// sixteen significant digits and at most fifteen decimal places hold it.
pub fn parse_decimal(t: &[char]) -> (r: Option<Decimal>)
    ensures
        match r {
            Some(d) => parse_dec(t@) == Some(d@),
            None => parse_dec(t@) is None,
        },
{
    let signed = t.len() > 0 && (t[0] == '+' || t[0] == '-');
    let neg = t.len() > 0 && t[0] == '-';
    let n = t.len();
    let body = if signed {
        &t[1..n]
    } else {
        t
    };
    assert(signed ==> body@ =~= t@.skip(1));
    let mut i: usize = 0;
    while i < body.len() && body[i] != 'e' && body[i] != 'E'
        invariant
            i <= body.len(),
            exp_mark(body@, 0) == exp_mark(body@, i as int),
        decreases body.len() - i,
    {
        i = i + 1;
    }
    let bl = body.len();
    let m: &[char] = &body[0..i];
    let e: i128 = if i < bl {
        assert(exp_mark(body@, 0) == Some(i as int));
        let x = &body[i + 1..bl];
        assert(x@ =~= body@.skip(i + 1));
        assert(m@ =~= body@.take(i as int));
        match exponent_capped(x) {
            None => return None,
            Some(c) => c,
        }
    } else {
        assert(exp_mark(body@, 0) is None);
        assert(m@ =~= body@);
        0
    };
    let ghost ee: int = match exp_mark(body@, 0) {
        None => 0,
        Some(k) => exponent(body@.skip(k + 1)).unwrap(),
    };
    let dot = ['.'];
    assert(dot@ =~= seq!['.']);
    let ip = crate::text::before_first_slice(m, &dot);
    let frac_opt = crate::text::after_first_slice(m, &dot);
    let empty: [char; 0] = [];
    let frac: &[char] = match frac_opt {
        None => {
            if !(ip.len() > 0 && all_digits_of(ip)) {
                return None;
            }
            &empty
        },
        Some(f) => {
            if !(all_digits_of(ip) && all_digits_of(f) && (ip.len() > 0 || f.len() > 0)) {
                return None;
            }
            f
        },
    };
    assert(frac_opt is None ==> frac@ =~= seq![]);
    dec_from_parts(neg, ip, frac, e, Ghost(ee))
}

/// The number of the given digits and exponent (`dec_of`), from the
/// exponent as `exponent_capped` reads it.
#[verifier::spinoff_prover]
fn dec_from_parts(neg: bool, ip: &[char], frac: &[char], e: i128, Ghost(ee): Ghost<int>) -> (r: Option<Decimal>)
    requires
        all_digits(ip@),
        all_digits(frac@),
        -EXPONENT_CAP <= ee <= EXPONENT_CAP ==> e == ee,
        ee > EXPONENT_CAP ==> e > EXPONENT_CAP,
        ee < -EXPONENT_CAP ==> e < -EXPONENT_CAP,
    ensures
        match r {
            Some(d) => dec_of(neg, ip@, frac@, ee) == Some(d@),
            None => dec_of(neg, ip@, frac@, ee) is None,
        },
{
    let fl = trim_zeros_len(frac);
    let fr = &frac[0..fl];
    assert(fr@ =~= frac@.take(fl as int));
    assert(all_digits(ip@ + fr@)) by {
        assert forall|k: int| 0 <= k < (ip@ + fr@).len() implies crate::text::is_digit(#[trigger] (ip@ + fr@)[k]) by {
            if k < ip@.len() {
                assert((ip@ + fr@)[k] == ip@[k]);
            } else {
                assert((ip@ + fr@)[k] == fr@[k - ip@.len()]);
                assert(fr@[k - ip@.len()] == frac@[k - ip@.len()]);
            }
        }
    }
    proof {
        assert(pow10(15) == 1000000000000000) by {
            reveal_with_fuel(pow10, 16);
        }
    }
    let v = match digits_value_capped(ip, fr) {
        None => return None,
        Some(v) => v,
    };
    if v == 0 {
        return Some(Decimal { neg, mant: 0, scale: 0 });
    }
    if e > EXPONENT_CAP {
        proof {
            assert(ee > EXPONENT_CAP);
            assert(fl <= usize::MAX);
            let k = (ee - fl) as nat;
            lemma_pow10_mono(15, k);
            assert(v * pow10(k) >= pow10(k)) by (nonlinear_arith)
                requires
                    v >= 1,
            ;
        }
        return None;
    }
    if e < -EXPONENT_CAP {
        proof {
            assert(ee < -EXPONENT_CAP);
        }
        return None;
    }
    assert(e == ee);
    let sc: i128 = fl as i128 - e;
    if sc >= 0 {
        if sc <= 15 {
            return Some(Decimal { neg, mant: v, scale: sc as u32 });
        }
        return None;
    }
    let k = -sc;
    if k >= 15 {
        proof {
            lemma_pow10_mono(15, k as nat);
            assert(v * pow10(k as nat) >= pow10(k as nat)) by (nonlinear_arith)
                requires
                    v >= 1,
            ;
        }
        return None;
    }
    let p = pow10_exec(k as u32);
    proof {
        lemma_pow10_mono(k as nat, 14);
        assert(pow10(14) == 100000000000000) by {
            reveal_with_fuel(pow10, 15);
        }
        assert((v as int) * (p as int) < 1000000000000000 * 100000000000000) by (nonlinear_arith)
            requires
                v < 1000000000000000,
                p <= 100000000000000,
        ;
    }
    let w: u128 = (v as u128) * (p as u128);
    if w < 1000000000000000 {
        Some(Decimal { neg, mant: w as u64, scale: 0 })
    } else {
        None
    }
}

/// The number rounded to hundredths, ties to even.
pub open spec fn hundredths(d: DecView) -> nat {
    if d.scale <= 2 {
        d.mant * pow10((2 - d.scale) as nat)
    } else {
        let p = pow10((d.scale - 2) as nat);
        let q = d.mant / p;
        let r = d.mant % p;
        if 2 * r > p || (2 * r == p && q % 2 == 1) {
            q + 1
        } else {
            q
        }
    }
}

/// Two decimal places (`{:.2}`).
pub open spec fn fmt2(d: DecView) -> Seq<char> {
    let h = hundredths(d);
    (if d.neg {
        seq!['-']
    } else {
        seq![]
    }) + decimal(h / 100) + seq!['.', digit_of((h % 100) / 10), digit_of(h % 10)]
}

/// Writes a number with two decimal places.
pub fn format2(d: Decimal) -> (r: Vec<char>)
    requires
        d.mant < pow10(MAX_DIGITS as nat),
        d.scale <= MAX_DIGITS,
    ensures
        r@ == fmt2(d@),
{
    proof {
        reveal_with_fuel(pow10, 16);
        assert(pow10(15) == 1000000000000000);
        assert(pow10(2) == 100);
        assert(pow10(1) == 10);
        assert(pow10(0) == 1);
    }
    let h: u64 = if d.scale <= 2 {
        let m = pow10_exec(2 - d.scale);
        assert(m <= 100);
        assert(d.mant * m <= 100000000000000000) by (nonlinear_arith)
            requires
                d.mant < 1000000000000000,
                m <= 100,
        ;
        d.mant * m
    } else {
        let p = pow10_exec(d.scale - 2);
        let q = d.mant / p;
        let r = d.mant % p;
        if r > p - r || (r == p - r && q % 2 == 1) {
            proof {
                lemma_pow10_pos((d.scale - 2) as nat);
                assert(q <= d.mant) by (nonlinear_arith)
                    requires
                        q == d.mant / p,
                        p >= 1,
                ;
            }
            q + 1
        } else {
            proof {
                lemma_pow10_pos((d.scale - 2) as nat);
                assert(q <= d.mant) by (nonlinear_arith)
                    requires
                        q == d.mant / p,
                        p >= 1,
                ;
            }
            q
        }
    };
    let mut r: Vec<char> = Vec::new();
    if d.neg {
        r.push('-');
    }
    assert(h as int <= 100000000000000000);
    let ip = decimal_of(h / 100);
    r.extend_from_slice(&ip);
    r.push('.');
    let t: u8 = ((h % 100) / 10) as u8 + 48;
    let o: u8 = (h % 10) as u8 + 48;
    r.push(t as char);
    r.push(o as char);
    proof {
        assert((t as char) == digit_of(((h as nat % 100) / 10) as nat));
        assert((o as char) == digit_of((h as nat % 10) as nat));
    }
    assert(r@ =~= fmt2(d@));
    r
}

} // verus!

verus! {

/// What `parse_decimal` reads fits its bounds.
pub proof fn lemma_parse_dec_bound(t: Seq<char>)
    ensures
        parse_dec(t) matches Some(d) ==> d.mant < pow10(MAX_DIGITS as nat) && d.scale
            <= MAX_DIGITS,
{
    lemma_pow10_pos(MAX_DIGITS as nat);
}

} // verus!
