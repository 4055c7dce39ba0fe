//! Texture memory pressure, from X-Plane's `I/TEX: Target scale moved to ...` lines.
use vstd::prelude::*;

use crate::decimal::{
    fmt2, format2, lemma_parse_dec_bound, lemma_pow10_pos, numer, parse_dec, parse_decimal,
    pow10, pow10_exec, DecView, Decimal, MAX_DIGITS,
};
use crate::i18n::{pick, tr, Locale};
use crate::model::{new_finding, Confidence, Finding, FindingView, Severity};
use crate::rules::evidence::{evidence_line, evidence_text};
use crate::rules::keywords::opt_view;
use crate::text::{
    chars_of, contains, contains_str, decimal, decimal_of, first_word, first_word_slice, lower,
    lower_of, push_chars, push_str, second_word, second_word_slice, split_second,
    split_second_str, starts_with, starts_with_str, string_from, trim, trim_slice,
};

verus! {

/// A reading such as `6.00 gb`: the number and the lower-cased unit.
pub open spec fn measure(hay: Seq<char>) -> Option<(DecView, Seq<char>)> {
    let t = trim(hay);
    match first_word(t) {
        None => None,
        Some(w) => match parse_dec(w) {
            None => None,
            Some(v) => match second_word(t) {
                None => None,
                Some(u) => Some((v, lower(u))),
            },
        },
    }
}

/// The reading that follows `key` (up to the next `key`).
pub open spec fn measure_after(line: Seq<char>, key: Seq<char>) -> Option<(DecView, Seq<char>)> {
    match split_second(line, key) {
        None => None,
        Some(after) => measure(after),
    }
}

/// A reading in megabytes, as a numerator over `10^scale`.
pub open spec fn mb_numer(m: (DecView, Seq<char>)) -> int {
    if starts_with(m.1, "gb"@) {
        numer(m.0) * 1024
    } else {
        numer(m.0)
    }
}

/// A reading as printed in titles: two decimals and the unit.
pub open spec fn measure_text(m: (DecView, Seq<char>)) -> Seq<char> {
    fmt2(m.0) + m.1
}

/// `a` exceeds `b` times `k / 10`, in megabytes.
pub open spec fn exceeds_times(a: (DecView, Seq<char>), b: (DecView, Seq<char>), k: int) -> bool {
    10 * mb_numer(a) * pow10(b.0.scale) > k * mb_numer(b) * pow10(a.0.scale)
}

/// A reading is below `limit` megabytes.
pub open spec fn below_mb(m: (DecView, Seq<char>), limit: int) -> bool {
    mb_numer(m) < limit * pow10(m.0.scale)
}

pub open spec fn trim_end_dots(s: Seq<char>) -> Seq<char>
    decreases s.len(),
{
    if s.len() > 0 && s.last() == '.' {
        trim_end_dots(s.drop_last())
    } else {
        s
    }
}

/// The scale on a `Target scale moved to <s>.` line.
pub open spec fn target_scale(line: Seq<char>) -> Option<DecView> {
    match split_second(line, "Target scale moved to "@) {
        None => None,
        Some(rest) => match first_word(trim(rest)) {
            None => None,
            Some(w) => parse_dec(trim_end_dots(w)),
        },
    }
}

pub open spec fn abs(x: int) -> int {
    if x < 0 {
        -x
    } else {
        x
    }
}

/// How far usage is over budget, in whole percent, saturated to `u32`.
pub open spec fn over_percent(u: (DecView, Seq<char>), a: (DecView, Seq<char>)) -> nat {
    let n = mb_numer(u) * pow10(a.0.scale) - mb_numer(a) * pow10(u.0.scale);
    let d = mb_numer(a) * pow10(u.0.scale);
    if d == 0 {
        if a.0.neg {
            0
        } else {
            u32::MAX as nat
        }
    } else if (n > 0 && d > 0) || (n < 0 && d < 0) {
        let q = (100 * abs(n)) / abs(d);
        if q > u32::MAX {
            u32::MAX as nat
        } else {
            q as nat
        }
    } else {
        0
    }
}

pub open spec fn vram_title(
    u: (DecView, Seq<char>),
    a: (DecView, Seq<char>),
    h: (DecView, Seq<char>),
    line: Seq<char>,
    loc: Locale,
) -> (Severity, Seq<char>) {
    let us = measure_text(u);
    let avs = measure_text(a);
    let hs = measure_text(h);
    let sig = exceeds_times(u, a, 11);
    let mild = exceeds_times(u, a, 10) && !sig;
    let (sev, title) = if sig {
        let pct = decimal(over_percent(u, a));
        (
            Severity::High,
            pick(
                loc,
                "显存严重超限——纹理使用"@ + us + "，超出预算"@ + avs + "约"@ + pct + "%"@,
                "VRAM severely over-committed -- texture usage "@ + us + ", exceeds budget "@ + avs
                    + " by ~"@ + pct + "%"@,
            ),
        )
    } else if mild || below_mb(h, 100) {
        (
            Severity::Medium,
            pick(
                loc,
                "显存压力——纹理使用"@ + us + "，可用"@ + avs + "，余量"@ + hs,
                "VRAM pressure -- texture usage "@ + us + ", available "@ + avs + ", headroom "@
                    + hs,
            ),
        )
    } else {
        (Severity::Low, pick(loc, "显存余量偏低——"@ + hs, "VRAM headroom low -- "@ + hs))
    };
    match target_scale(line) {
        Some(s) => if 10 * numer(s) <= 3 * pow10(s.scale) && sev == Severity::Medium {
            let ss = fmt2(s);
            (
                Severity::High,
                pick(
                    loc,
                    "显存严重不足，纹理大幅降级至 "@ + ss + "x——"@ + us + "使用中，可用"@ + avs,
                    "VRAM critically low, extreme texture downscale to "@ + ss + "x -- usage "@ + us
                        + ", available "@ + avs,
                ),
            )
        } else {
            (sev, title)
        },
        None => (sev, title),
    }
}

/// The `texture_vram_pressure` rule on one line.
pub open spec fn spec_texture_vram_pressure(
    idx: nat,
    line: Seq<char>,
    lower: Seq<char>,
    loc: Locale,
) -> Option<FindingView> {
    if !contains(lower, "target scale moved to"@) || !contains(lower, "texture usage"@) {
        None
    } else {
        match (
            measure_after(line, "Texture usage is "@),
            measure_after(line, " out of "@),
            measure_after(line, "Memory headroom is "@),
        ) {
            (Some(u), Some(a), Some(h)) => if !exceeds_times(u, a, 10) && !below_mb(h, 1000) {
                None
            } else {
                let (sev, title) = vram_title(u, a, h, line, loc);
                Some(
                    new_finding(
                        sev,
                        Confidence::High,
                        "texture_vram_pressure"@,
                        title,
                        evidence_text(idx, line),
                        pick(
                            loc,
                            "X-Plane 的纹理系统检测到严重显存压力。当纹理使用量超过可用显存时，X-Plane 会频繁降低纹理分辨率，最严重时 GPU 驱动可能直接终止进程（TDR），导致日志无崩溃标记就突然截断。"@,
                            "X-Plane's texture system detected significant VRAM pressure. When usage exceeds capacity, textures are downscaled repeatedly, and in worst cases the GPU driver may terminate the process (TDR), causing the log to truncate without a crash marker."@,
                        ),
                        pick(
                            loc,
                            "降低纹理质量、抗锯齿；减少高分辨率 scenery 和 ortho；关闭不必要插件后复测同一路线。"@,
                            "Lower texture quality and anti-aliasing; reduce high-resolution scenery and ortho; disable unnecessary plugins and retest the same route."@,
                        ),
                    ),
                )
            },
            _ => None,
        }
    }
}

/// An exec reading: the number, the lower-cased unit, and whether it is in gigabytes.
pub struct Measure {
    pub value: Decimal,
    pub unit: Vec<char>,
    pub gb: bool,
}

pub open spec fn measure_view(m: Measure) -> (DecView, Seq<char>) {
    (m.value@, m.unit@)
}

pub open spec fn measure_ok(m: Measure) -> bool {
    &&& m.value.mant < pow10(MAX_DIGITS as nat)
    &&& m.value.scale <= MAX_DIGITS
    &&& m.gb == starts_with(m.unit@, "gb"@)
}

fn parse_measure(hay: &[char]) -> (r: Option<Measure>)
    ensures
        match r {
            Some(m) => measure(hay@) == Some(measure_view(m)) && measure_ok(m),
            None => measure(hay@) is None,
        },
{
    let t = trim_slice(hay);
    let w = match first_word_slice(t) {
        None => return None,
        Some(w) => w,
    };
    let v = match parse_decimal(w) {
        None => return None,
        Some(v) => v,
    };
    proof {
        lemma_parse_dec_bound(w@);
    }
    let u = match second_word_slice(t) {
        None => return None,
        Some(u) => u,
    };
    let unit = lower_of(u);
    let gb = starts_with_str(&unit, "gb");
    Some(Measure { value: v, unit, gb })
}

fn parse_measure_after(line: &[char], key: &str) -> (r: Option<Measure>)
    ensures
        match r {
            Some(m) => measure_after(line@, key@) == Some(measure_view(m)) && measure_ok(m),
            None => measure_after(line@, key@) is None,
        },
{
    match split_second_str(line, key) {
        None => None,
        Some(after) => parse_measure(after),
    }
}

proof fn lemma_mb_bound(m: Measure)
    requires
        measure_ok(m),
    ensures
        -1024 * pow10(15) < mb_numer(measure_view(m)) < 1024 * pow10(15),
{
}

/// The numerator in megabytes.
fn mb_numer_exec(m: &Measure) -> (r: i128)
    requires
        measure_ok(*m),
    ensures
        r == mb_numer(measure_view(*m)),
        -1024 * pow10(15) < r < 1024 * pow10(15),
{
    proof {
        reveal_with_fuel(pow10, 16);
        lemma_mb_bound(*m);
    }
    let n: i128 = if m.value.neg {
        -(m.value.mant as i128)
    } else {
        m.value.mant as i128
    };
    if m.gb {
        n * 1024
    } else {
        n
    }
}

proof fn lemma_product_bounds(x: int, p: int)
    requires
        -1024 * 1000000000000000 < x < 1024 * 1000000000000000,
        1 <= p <= 1000000000000000,
    ensures
        -1024 * 1000000000000000 * 1000000000000000 < x * p < 1024 * 1000000000000000
            * 1000000000000000,
{
    assert(-1024 * 1000000000000000 * 1000000000000000 < x * p < 1024 * 1000000000000000
        * 1000000000000000) by (nonlinear_arith)
        requires
            -1024 * 1000000000000000 < x < 1024 * 1000000000000000,
            1 <= p <= 1000000000000000,
    ;
}

fn scaled(m: &Measure, other_scale: u32) -> (r: i128)
    requires
        measure_ok(*m),
        other_scale <= MAX_DIGITS,
    ensures
        r == mb_numer(measure_view(*m)) * pow10(other_scale as nat),
        -1024 * 1000000000000000 * 1000000000000000 < r < 1024 * 1000000000000000
            * 1000000000000000,
{
    let x = mb_numer_exec(m);
    let p = pow10_exec(other_scale);
    proof {
        reveal_with_fuel(pow10, 16);
        lemma_pow10_pos(other_scale as nat);
        crate::decimal::lemma_pow10_mono(other_scale as nat, 15);
        lemma_product_bounds(x as int, p as int);
    }
    x * (p as i128)
}

fn over_percent_exec(u: &Measure, a: &Measure) -> (r: u32)
    requires
        measure_ok(*u),
        measure_ok(*a),
    ensures
        r as nat == over_percent(measure_view(*u), measure_view(*a)),
{
    let un = scaled(u, a.value.scale);
    let d = scaled(a, u.value.scale);
    let n = un - d;
    if d == 0 {
        if a.value.neg {
            0
        } else {
            u32::MAX
        }
    } else if (n > 0 && d > 0) || (n < 0 && d < 0) {
        let na: i128 = if n < 0 {
            -n
        } else {
            n
        };
        let da: i128 = if d < 0 {
            -d
        } else {
            d
        };
        let q = (100 * na) / da;
        if q > u32::MAX as i128 {
            u32::MAX
        } else {
            q as u32
        }
    } else {
        0
    }
}

fn exceeds_times_exec(a: &Measure, b: &Measure, k: i128) -> (r: bool)
    requires
        measure_ok(*a),
        measure_ok(*b),
        k == 10 || k == 11,
    ensures
        r == exceeds_times(measure_view(*a), measure_view(*b), k as int),
{
    let x = scaled(a, b.value.scale);
    let y = scaled(b, a.value.scale);
    assert(10 * mb_numer(measure_view(*a)) * pow10(b.value.scale as nat) == 10 * x) by (
    nonlinear_arith)
        requires
            x == mb_numer(measure_view(*a)) * pow10(b.value.scale as nat),
    ;
    assert(k * mb_numer(measure_view(*b)) * pow10(a.value.scale as nat) == k * y) by (
    nonlinear_arith)
        requires
            y == mb_numer(measure_view(*b)) * pow10(a.value.scale as nat),
    ;
    10 * x > k * y
}

fn below_mb_exec(m: &Measure, limit: i128) -> (r: bool)
    requires
        measure_ok(*m),
        limit == 100 || limit == 1000,
    ensures
        r == below_mb(measure_view(*m), limit as int),
{
    let x = mb_numer_exec(m);
    let p = pow10_exec(m.value.scale);
    proof {
        reveal_with_fuel(pow10, 16);
        crate::decimal::lemma_pow10_mono(m.value.scale as nat, 15);
    }
    x < limit * (p as i128)
}

fn trim_end_dots_slice(s: &[char]) -> (r: &[char])
    ensures
        r@ == trim_end_dots(s@),
{
    let mut j = s.len();
    assert(s@.take(j as int) =~= s@);
    while j > 0 && s[j - 1] == '.'
        invariant
            j <= s.len(),
            trim_end_dots(s@) == trim_end_dots(s@.take(j as int)),
        decreases j,
    {
        assert(s@.take(j as int).drop_last() =~= s@.take(j - 1));
        j = j - 1;
    }
    let r = &s[0..j];
    assert(r@ =~= s@.take(j as int));
    r
}

fn parse_target_scale(line: &[char]) -> (r: Option<Decimal>)
    ensures
        match r {
            Some(d) => target_scale(line@) == Some(d@) && d.mant < pow10(MAX_DIGITS as nat)
                && d.scale <= MAX_DIGITS,
            None => target_scale(line@) is None,
        },
{
    let rest = match split_second_str(line, "Target scale moved to ") {
        None => return None,
        Some(r) => r,
    };
    let w = match first_word_slice(trim_slice(rest)) {
        None => return None,
        Some(w) => w,
    };
    let t = trim_end_dots_slice(w);
    proof {
        lemma_parse_dec_bound(t@);
    }
    parse_decimal(t)
}

fn measure_text_exec(m: &Measure) -> (r: Vec<char>)
    requires
        measure_ok(*m),
    ensures
        r@ == measure_text(measure_view(*m)),
{
    let mut r = format2(m.value);
    r.extend_from_slice(&m.unit);
    r
}

fn vram_title_exec(u: &Measure, a: &Measure, h: &Measure, line: &[char], loc: Locale) -> (r: (
    Severity,
    String,
))
    requires
        measure_ok(*u),
        measure_ok(*a),
        measure_ok(*h),
    ensures
        (r.0, r.1@) == vram_title(measure_view(*u), measure_view(*a), measure_view(*h), line@, loc),
{
    let us = measure_text_exec(u);
    let avs = measure_text_exec(a);
    let hs = measure_text_exec(h);
    let sig = exceeds_times_exec(u, a, 11);
    let mild = exceeds_times_exec(u, a, 10) && !sig;
    let zh = crate::i18n::is_zh(loc);
    let mut title = String::new();
    let mut sev = Severity::Low;
    if sig {
        let pct = decimal_of(over_percent_exec(u, a) as u64);
        sev = Severity::High;
        if zh {
            push_str(&mut title, "显存严重超限——纹理使用");
            push_chars(&mut title, &us);
            push_str(&mut title, "，超出预算");
            push_chars(&mut title, &avs);
            push_str(&mut title, "约");
            push_chars(&mut title, &pct);
            push_str(&mut title, "%");
        } else {
            push_str(&mut title, "VRAM severely over-committed -- texture usage ");
            push_chars(&mut title, &us);
            push_str(&mut title, ", exceeds budget ");
            push_chars(&mut title, &avs);
            push_str(&mut title, " by ~");
            push_chars(&mut title, &pct);
            push_str(&mut title, "%");
        }
    } else if mild || below_mb_exec(h, 100) {
        sev = Severity::Medium;
        if zh {
            push_str(&mut title, "显存压力——纹理使用");
            push_chars(&mut title, &us);
            push_str(&mut title, "，可用");
            push_chars(&mut title, &avs);
            push_str(&mut title, "，余量");
            push_chars(&mut title, &hs);
        } else {
            push_str(&mut title, "VRAM pressure -- texture usage ");
            push_chars(&mut title, &us);
            push_str(&mut title, ", available ");
            push_chars(&mut title, &avs);
            push_str(&mut title, ", headroom ");
            push_chars(&mut title, &hs);
        }
    } else {
        if zh {
            push_str(&mut title, "显存余量偏低——");
            push_chars(&mut title, &hs);
        } else {
            push_str(&mut title, "VRAM headroom low -- ");
            push_chars(&mut title, &hs);
        }
    }
    let ghost mid = (sev, title@);
    assert(title@.len() >= 0);
    match parse_target_scale(line) {
        Some(s) => {
            let p = pow10_exec(s.scale);
            let sn: i128 = if s.neg {
                -(s.mant as i128)
            } else {
                s.mant as i128
            };
            proof {
                reveal_with_fuel(pow10, 16);
                crate::decimal::lemma_pow10_mono(s.scale as nat, 15);
            }
            if 10 * sn <= 3 * (p as i128) && sev == Severity::Medium {
                let ss = format2(s);
                let mut t2 = String::new();
                if zh {
                    push_str(&mut t2, "显存严重不足，纹理大幅降级至 ");
                    push_chars(&mut t2, &ss);
                    push_str(&mut t2, "x——");
                    push_chars(&mut t2, &us);
                    push_str(&mut t2, "使用中，可用");
                    push_chars(&mut t2, &avs);
                } else {
                    push_str(&mut t2, "VRAM critically low, extreme texture downscale to ");
                    push_chars(&mut t2, &ss);
                    push_str(&mut t2, "x -- usage ");
                    push_chars(&mut t2, &us);
                    push_str(&mut t2, ", available ");
                    push_chars(&mut t2, &avs);
                }
                return (Severity::High, t2);
            }
            (sev, title)
        },
        None => (sev, title),
    }
}

pub fn check_texture_vram_pressure(idx: usize, line: &[char], lower: &[char], loc: Locale) -> (r:
    Option<Finding>)
    requires
        idx < usize::MAX,
    ensures
        opt_view(r) == spec_texture_vram_pressure(idx as nat, line@, lower@, loc),
{
    if !contains_str(lower, "target scale moved to") || !contains_str(lower, "texture usage") {
        return None;
    }
    let u = parse_measure_after(line, "Texture usage is ");
    let a = parse_measure_after(line, " out of ");
    let h = parse_measure_after(line, "Memory headroom is ");
    let (u, a, h) = match (u, a, h) {
        (Some(u), Some(a), Some(h)) => (u, a, h),
        _ => return None,
    };
    if !exceeds_times_exec(&u, &a, 10) && !below_mb_exec(&h, 1000) {
        return None;
    }
    let (sev, title) = vram_title_exec(&u, &a, &h, line, loc);
    Some(
        Finding::new(
            sev,
            Confidence::High,
            string_from("texture_vram_pressure"),
            title,
            evidence_line(idx, line),
            string_from(
                tr(
                    loc,
                    "X-Plane 的纹理系统检测到严重显存压力。当纹理使用量超过可用显存时，X-Plane 会频繁降低纹理分辨率，最严重时 GPU 驱动可能直接终止进程（TDR），导致日志无崩溃标记就突然截断。",
                    "X-Plane's texture system detected significant VRAM pressure. When usage exceeds capacity, textures are downscaled repeatedly, and in worst cases the GPU driver may terminate the process (TDR), causing the log to truncate without a crash marker.",
                ),
            ),
            string_from(
                tr(
                    loc,
                    "降低纹理质量、抗锯齿；减少高分辨率 scenery 和 ortho；关闭不必要插件后复测同一路线。",
                    "Lower texture quality and anti-aliasing; reduce high-resolution scenery and ortho; disable unnecessary plugins and retest the same route.",
                ),
            ),
        ),
    )
}

/// The `texture_vram_pressure` finding is counted once.
pub proof fn lemma_texture_vram_pressure_once(idx: nat,
    line: Seq<char>,
    lower: Seq<char>,
    loc: Locale)
    ensures
        spec_texture_vram_pressure(idx, line, lower, loc) matches Some(f) ==> f.occurrences == 1 && f.extra_evidence.len() <= 4 && f.kind == "texture_vram_pressure"@ && crate::rules::evidence::log_evidence(f.evidence) && f.extra_evidence.len() == 0 && f.evidence == crate::rules::evidence::evidence_text(idx, line),
{
    broadcast use crate::rules::evidence::lemma_evidence_text_in_log;
}

} // verus!
