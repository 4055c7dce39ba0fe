//! Simulator time stamps (`H:MM:SS.mmm`) at the start of log lines.
use vstd::prelude::*;

use crate::decimal::{
    lemma_parse_dec_bound, lemma_pow10_mono, lemma_pow10_pos, numer, parse_dec, parse_decimal,
    pow10, pow10_exec, DecView, Decimal, MAX_DIGITS,
};
use crate::text::{find, find_exec, lemma_find_from, matches_at, trim, trim_slice};

verus! {

/// `10^18`: sim times are counted in units of `10^-18` seconds.
pub const SIM_UNIT: i128 = 1_000_000_000_000_000_000;

/// A decimal in units of `10^-15`.
pub open spec fn v15(d: DecView) -> int {
    numer(d) * pow10((15 - d.scale) as nat)
}

/// The time stamp `H:M:S.f` of a line, in units of `10^-18` seconds, read as
/// `H * 3600 + M * 60 + S + f / 1000` (the digits after the point count
/// thousandths, however many there are).
pub open spec fn sim_time(line: Seq<char>) -> Option<int> {
    let l = trim(line);
    match find(l, seq![':']) {
        None => None,
        Some(c1) => match parse_dec(l.take(c1)) {
            None => None,
            Some(h) => {
                let r1 = l.skip(c1 + 1);
                match find(r1, seq![':']) {
                    None => None,
                    Some(c2) => match parse_dec(r1.take(c2)) {
                        None => None,
                        Some(m) => {
                            let r2 = r1.skip(c2 + 1);
                            match find(r2, seq!['.']) {
                                None => None,
                                Some(d) => match parse_dec(r2.take(d)) {
                                    None => None,
                                    Some(s) => {
                                        let r3 = r2.skip(d + 1);
                                        let me = match find(r3, seq![' ']) {
                                            Some(e) => e,
                                            None => r3.len() as int,
                                        };
                                        match parse_dec(r3.take(me)) {
                                            None => None,
                                            Some(ms) => Some(
                                                1000 * (3600 * v15(h) + 60 * v15(m) + v15(s))
                                                    + v15(ms),
                                            ),
                                        }
                                    },
                                },
                            }
                        },
                    },
                }
            },
        },
    }
}

pub fn v15_exec(d: Decimal) -> (r: i128)
    requires
        d.mant < pow10(MAX_DIGITS as nat),
        d.scale <= MAX_DIGITS,
    ensures
        r == v15(d@),
        -1_000_000_000_000_000_000_000_000_000_000 < r < 1_000_000_000_000_000_000_000_000_000_000,
{
    let p = pow10_exec(15 - d.scale);
    proof {
        reveal_with_fuel(pow10, 16);
        lemma_pow10_mono((15 - d.scale) as nat, 15);
        lemma_pow10_pos((15 - d.scale) as nat);
        assert(d.mant * p <= 1_000_000_000_000_000 * 1_000_000_000_000_000) by (nonlinear_arith)
            requires
                d.mant < 1_000_000_000_000_000,
                p <= 1_000_000_000_000_000,
        ;
    }
    let n: i128 = if d.neg {
        -(d.mant as i128)
    } else {
        d.mant as i128
    };
    assert(-1_000_000_000_000_000_000_000_000_000_000 < n * p
        < 1_000_000_000_000_000_000_000_000_000_000) by (nonlinear_arith)
        requires
            -1_000_000_000_000_000 < n < 1_000_000_000_000_000,
            1 <= p <= 1_000_000_000_000_000,
    ;
    n * (p as i128)
}

pub fn parse_field(s: &[char]) -> (r: Option<i128>)
    ensures
        match r {
            Some(v) => parse_dec(s@) matches Some(d) && v == v15(d) && -1_000_000_000_000_000_000_000_000_000_000
                < v < 1_000_000_000_000_000_000_000_000_000_000,
            None => parse_dec(s@) is None,
        },
{
    proof {
        lemma_parse_dec_bound(s@);
    }
    match parse_decimal(s) {
        None => None,
        Some(d) => Some(v15_exec(d)),
    }
}

/// The time stamp at the start of a line (`parse_sim_seconds`), in units of
/// `10^-18` seconds.
pub fn parse_sim_time(line: &[char]) -> (r: Option<i128>)
    ensures
        match r {
            Some(v) => sim_time(line@) == Some(v as int),
            None => sim_time(line@) is None,
        },
{
    let l = trim_slice(line);
    let colon = [':'];
    let dot = ['.'];
    let space = [' '];
    assert(colon@ =~= seq![':']);
    assert(dot@ =~= seq!['.']);
    assert(space@ =~= seq![' ']);
    proof {
        lemma_find_from(l@, seq![':'], 0);
    }
    let c1 = match find_exec(l, &colon) {
        None => return None,
        Some(c) => c,
    };
    assert(matches_at(l@, seq![':'], c1 as int));
    let hs = &l[0..c1];
    assert(hs@ =~= l@.take(c1 as int));
    let h = match parse_field(hs) {
        None => return None,
        Some(v) => v,
    };
    let nl = l.len();
    let r1 = &l[c1 + 1..nl];
    assert(r1@ =~= l@.skip(c1 + 1));
    proof {
        lemma_find_from(r1@, seq![':'], 0);
    }
    let c2 = match find_exec(r1, &colon) {
        None => return None,
        Some(c) => c,
    };
    assert(matches_at(r1@, seq![':'], c2 as int));
    let ms_ = &r1[0..c2];
    assert(ms_@ =~= r1@.take(c2 as int));
    let m = match parse_field(ms_) {
        None => return None,
        Some(v) => v,
    };
    let n1 = r1.len();
    let r2 = &r1[c2 + 1..n1];
    assert(r2@ =~= r1@.skip(c2 + 1));
    proof {
        lemma_find_from(r2@, seq!['.'], 0);
    }
    let d = match find_exec(r2, &dot) {
        None => return None,
        Some(d) => d,
    };
    assert(matches_at(r2@, seq!['.'], d as int));
    let ss = &r2[0..d];
    assert(ss@ =~= r2@.take(d as int));
    let s = match parse_field(ss) {
        None => return None,
        Some(v) => v,
    };
    let n2 = r2.len();
    let r3 = &r2[d + 1..n2];
    assert(r3@ =~= r2@.skip(d + 1));
    proof {
        lemma_find_from(r3@, seq![' '], 0);
    }
    let me = match find_exec(r3, &space) {
        Some(e) => {
            assert(matches_at(r3@, seq![' '], e as int));
            e
        },
        None => r3.len(),
    };
    let fs = &r3[0..me];
    assert(fs@ =~= r3@.take(me as int));
    let f = match parse_field(fs) {
        None => return None,
        Some(v) => v,
    };
    Some(1000 * (3600 * h + 60 * m + s) + f)
}

} // verus!
