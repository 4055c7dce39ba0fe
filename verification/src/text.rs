//! Character-sequence primitives: the string operations that the log rules
//! are written with, stated over `Seq<char>` and implemented on `[char]`.
use vstd::prelude::*;

verus! {

broadcast use vstd::string::group_string_axioms;

// ---------------------------------------------------------------------------
// Character classes
// ---------------------------------------------------------------------------

pub open spec fn ascii_lower_char(c: char) -> char {
    if 'A' <= c && c <= 'Z' {
        ((c as u32) + 32) as char
    } else {
        c
    }
}

pub open spec fn is_digit(c: char) -> bool {
    '0' <= c && c <= '9'
}

pub open spec fn is_hex_digit(c: char) -> bool {
    is_digit(c) || ('a' <= c && c <= 'f') || ('A' <= c && c <= 'F')
}

pub open spec fn is_alnum(c: char) -> bool {
    is_digit(c) || ('a' <= c && c <= 'z') || ('A' <= c && c <= 'Z')
}

/// Unicode `White_Space`, the class that `char::is_whitespace` tests.
pub open spec fn is_ws(c: char) -> bool {
    let u = c as u32;
    (0x09 <= u && u <= 0x0d) || u == 0x20 || u == 0x85 || u == 0xa0 || u == 0x1680 || (0x2000
        <= u && u <= 0x200a) || u == 0x2028 || u == 0x2029 || u == 0x202f || u == 0x205f || u
        == 0x3000
}

pub fn lower_char(c: char) -> (r: char)
    ensures
        r == ascii_lower_char(c),
{
    if 'A' <= c && c <= 'Z' {
        let u: u8 = (c as u8) + 32;
        u as char
    } else {
        c
    }
}

pub fn digit_char(c: char) -> (r: bool)
    ensures
        r == is_digit(c),
{
    '0' <= c && c <= '9'
}

pub fn hex_digit_char(c: char) -> (r: bool)
    ensures
        r == is_hex_digit(c),
{
    ('0' <= c && c <= '9') || ('a' <= c && c <= 'f') || ('A' <= c && c <= 'F')
}

pub fn alnum_char(c: char) -> (r: bool)
    ensures
        r == is_alnum(c),
{
    ('0' <= c && c <= '9') || ('a' <= c && c <= 'z') || ('A' <= c && c <= 'Z')
}

pub fn ws_char(c: char) -> (r: bool)
    ensures
        r == is_ws(c),
{
    let u = c as u32;
    (0x09 <= u && u <= 0x0d) || u == 0x20 || u == 0x85 || u == 0xa0 || u == 0x1680 || (0x2000
        <= u && u <= 0x200a) || u == 0x2028 || u == 0x2029 || u == 0x202f || u == 0x205f || u
        == 0x3000
}

// ---------------------------------------------------------------------------
// Whole-sequence specifications
// ---------------------------------------------------------------------------

/// ASCII lower-casing, as `str::to_ascii_lowercase` does it.
pub open spec fn lower(s: Seq<char>) -> Seq<char> {
    s.map_values(|c: char| ascii_lower_char(c))
}

pub open spec fn all_digits(s: Seq<char>) -> bool {
    forall|i: int| 0 <= i < s.len() ==> is_digit(#[trigger] s[i])
}

pub open spec fn matches_at(s: Seq<char>, p: Seq<char>, i: int) -> bool {
    0 <= i && i + p.len() <= s.len() && s.subrange(i, i + p.len()) == p
}

/// The first position at or after `i` where `p` occurs in `s`.
pub open spec fn find_from(s: Seq<char>, p: Seq<char>, i: int) -> Option<int>
    decreases s.len() + 1 - i,
{
    if i < 0 || i + p.len() > s.len() {
        None
    } else if s.subrange(i, i + p.len()) == p {
        Some(i)
    } else {
        find_from(s, p, i + 1)
    }
}

/// The first position where `p` occurs in `s` (`str::find`).
pub open spec fn find(s: Seq<char>, p: Seq<char>) -> Option<int> {
    find_from(s, p, 0)
}

pub open spec fn contains(s: Seq<char>, p: Seq<char>) -> bool {
    find(s, p) is Some
}

pub open spec fn starts_with(s: Seq<char>, p: Seq<char>) -> bool {
    p.len() <= s.len() && s.take(p.len() as int) == p
}

pub open spec fn ends_with(s: Seq<char>, p: Seq<char>) -> bool {
    p.len() <= s.len() && s.skip(s.len() - p.len()) == p
}

pub open spec fn trim_start(s: Seq<char>) -> Seq<char>
    decreases s.len(),
{
    if s.len() > 0 && is_ws(s[0]) {
        trim_start(s.drop_first())
    } else {
        s
    }
}

pub open spec fn trim_end(s: Seq<char>) -> Seq<char>
    decreases s.len(),
{
    if s.len() > 0 && is_ws(s.last()) {
        trim_end(s.drop_last())
    } else {
        s
    }
}

/// `str::trim`.
pub open spec fn trim(s: Seq<char>) -> Seq<char> {
    trim_end(trim_start(s))
}

/// The part of `s` before the first `p`, or all of `s` (`s.split(p).next()`).
pub open spec fn before_first(s: Seq<char>, p: Seq<char>) -> Seq<char> {
    match find(s, p) {
        Some(i) => s.take(i),
        None => s,
    }
}

/// The part of `s` after the first `p`, if `p` occurs.
pub open spec fn after_first(s: Seq<char>, p: Seq<char>) -> Option<Seq<char>> {
    match find(s, p) {
        Some(i) => Some(s.skip(i + p.len())),
        None => None,
    }
}

/// The second field of `s.split(p)`: between the first and the second `p`.
pub open spec fn split_second(s: Seq<char>, p: Seq<char>) -> Option<Seq<char>> {
    match after_first(s, p) {
        Some(rest) => Some(before_first(rest, p)),
        None => None,
    }
}

/// `strip_prefix`.
pub open spec fn strip_prefix(s: Seq<char>, p: Seq<char>) -> Option<Seq<char>> {
    if starts_with(s, p) {
        Some(s.skip(p.len() as int))
    } else {
        None
    }
}

/// Index of the first whitespace character, or the length.
pub open spec fn ws_end(s: Seq<char>) -> int {
    match find_ws(s, 0) {
        Some(i) => i,
        None => s.len() as int,
    }
}

pub open spec fn find_ws(s: Seq<char>, i: int) -> Option<int>
    decreases s.len() - i,
{
    if i < 0 || i >= s.len() {
        None
    } else if is_ws(s[i]) {
        Some(i)
    } else {
        find_ws(s, i + 1)
    }
}

/// The first field of `s.split_whitespace()`.
pub open spec fn first_word(s: Seq<char>) -> Option<Seq<char>> {
    let t = trim_start(s);
    if t.len() == 0 {
        None
    } else {
        Some(t.take(ws_end(t)))
    }
}

/// What follows the first field of `s.split_whitespace()`.
pub open spec fn after_first_word(s: Seq<char>) -> Seq<char> {
    let t = trim_start(s);
    t.skip(ws_end(t))
}

/// The second field of `s.split_whitespace()`.
pub open spec fn second_word(s: Seq<char>) -> Option<Seq<char>> {
    if first_word(s) is Some {
        first_word(after_first_word(s))
    } else {
        None
    }
}

pub open spec fn strip_cr(l: Seq<char>) -> Seq<char> {
    if l.len() > 0 && l.last() == '\r' {
        l.drop_last()
    } else {
        l
    }
}

/// `str::lines`: split at `'\n'`, drop one `'\r'` before each `'\n'`, and no
/// empty field after a final `'\n'`.
pub open spec fn lines(t: Seq<char>) -> Seq<Seq<char>>
    decreases t.len(),
{
    if t.len() == 0 {
        seq![]
    } else {
        match find(t, seq!['\n']) {
            None => seq![t],
            Some(k) => if 0 <= k < t.len() {
                seq![strip_cr(t.take(k))] + lines(t.skip(k + 1))
            } else {
                seq![]
            },
        }
    }
}

/// The contents of each vector.
pub open spec fn seqs_of(v: Seq<Vec<char>>) -> Seq<Seq<char>> {
    v.map_values(|x: Vec<char>| x@)
}

pub open spec fn digit_of(d: nat) -> char {
    ((d % 10) + 48) as char
}

/// Decimal notation of a natural number.
pub open spec fn decimal(n: nat) -> Seq<char>
    decreases n,
{
    if n < 10 {
        seq![digit_of(n)]
    } else {
        decimal(n / 10).push(digit_of(n % 10))
    }
}

// ---------------------------------------------------------------------------
// Lemmas about the search specifications
// ---------------------------------------------------------------------------

pub proof fn lemma_find_from(s: Seq<char>, p: Seq<char>, i: int)
    requires
        0 <= i,
    ensures
        match find_from(s, p, i) {
            Some(k) => i <= k && matches_at(s, p, k) && forall|j: int|
                i <= j < k ==> !matches_at(s, p, j),
            None => forall|j: int| i <= j ==> !matches_at(s, p, j),
        },
    decreases s.len() + 1 - i,
{
    if i + p.len() > s.len() {
    } else if s.subrange(i, i + p.len()) == p {
    } else {
        lemma_find_from(s, p, i + 1);
    }
}

pub proof fn lemma_find_from_skip(s: Seq<char>, p: Seq<char>, i: int, j: int)
    requires
        0 <= i <= j,
        forall|m: int| i <= m < j ==> !matches_at(s, p, m),
    ensures
        find_from(s, p, i) == find_from(s, p, j),
    decreases j - i,
{
    if i < j {
        assert(!matches_at(s, p, i));
        if i + p.len() > s.len() {
            lemma_find_from_none_beyond(s, p, j);
        } else {
            lemma_find_from_skip(s, p, i + 1, j);
        }
    }
}

pub proof fn lemma_find_from_none_beyond(s: Seq<char>, p: Seq<char>, j: int)
    requires
        j + p.len() > s.len(),
    ensures
        find_from(s, p, j) is None,
{
}

pub proof fn lemma_find_ws(s: Seq<char>, i: int)
    requires
        0 <= i,
    ensures
        match find_ws(s, i) {
            Some(k) => i <= k < s.len() && is_ws(s[k]) && forall|j: int|
                i <= j < k ==> !is_ws(s[j]),
            None => forall|j: int| i <= j < s.len() ==> !is_ws(s[j]),
        },
    decreases s.len() - i,
{
    if i < s.len() && !is_ws(s[i]) {
        lemma_find_ws(s, i + 1);
    }
}

// ---------------------------------------------------------------------------
// Executable operations
// ---------------------------------------------------------------------------

/// The characters of a string slice, in order.
pub fn chars_of(s: &str) -> (v: Vec<char>)
    ensures
        v@ == s@,
{
    let mut v: Vec<char> = Vec::new();
    for c in iter: s.chars()
        invariant
            v@ == iter.seq().take(iter.index() as int),
    {
        v.push(c);
    }
    v
}

/// Appends a character with `String::push` (std, which vstd does not
/// specify). Trusted: the string's characters afterwards are those before
/// followed by `c`, as the documentation of `String::push` says.
#[verifier::external_body]
fn push_char(s: &mut String, c: char)
    ensures
        final(s)@ == old(s)@.push(c),
{
    s.push(c);
}

/// A `String` holding the given characters.
pub fn string_of(v: &[char]) -> (s: String)
    ensures
        s@ == v@,
{
    let mut s = String::new();
    let mut i: usize = 0;
    while i < v.len()
        invariant
            i <= v.len(),
            s@ == v@.take(i as int),
        decreases v.len() - i,
    {
        push_char(&mut s, v[i]);
        assert(v@.take(i + 1) == v@.take(i as int).push(v@[i as int]));
        i = i + 1;
    }
    assert(v@.take(v.len() as int) == v@);
    s
}

/// Appends characters to a `String`.
pub fn push_chars(s: &mut String, v: &[char])
    ensures
        final(s)@ == old(s)@ + v@,
{
    let mut i: usize = 0;
    while i < v.len()
        invariant
            i <= v.len(),
            s@ == old(s)@ + v@.take(i as int),
        decreases v.len() - i,
    {
        push_char(s, v[i]);
        assert(v@.take(i + 1) == v@.take(i as int).push(v@[i as int]));
        i = i + 1;
    }
    assert(v@.take(v.len() as int) == v@);
}

pub fn lower_of(s: &[char]) -> (r: Vec<char>)
    ensures
        r@ == lower(s@),
{
    let mut r: Vec<char> = Vec::new();
    let mut i: usize = 0;
    while i < s.len()
        invariant
            i <= s.len(),
            r@ == lower(s@.take(i as int)),
        decreases s.len() - i,
    {
        r.push(lower_char(s[i]));
        assert(lower(s@.take(i + 1)) == lower(s@.take(i as int)).push(ascii_lower_char(s@[i as int])));
        i = i + 1;
    }
    assert(s@.take(s.len() as int) == s@);
    r
}

pub fn all_digits_of(s: &[char]) -> (r: bool)
    ensures
        r == all_digits(s@),
{
    let mut i: usize = 0;
    while i < s.len()
        invariant
            i <= s.len(),
            forall|j: int| 0 <= j < i ==> is_digit(s@[j]),
        decreases s.len() - i,
    {
        if !digit_char(s[i]) {
            return false;
        }
        i = i + 1;
    }
    true
}

pub fn matches_at_exec(s: &[char], p: &[char], i: usize) -> (r: bool)
    ensures
        r == matches_at(s@, p@, i as int),
{
    if i > s.len() || p.len() > s.len() - i {
        return false;
    }
    let mut k: usize = 0;
    while k < p.len()
        invariant
            i + p.len() <= s.len(),
            k <= p.len(),
            forall|m: int| 0 <= m < k ==> s@[i + m] == p@[m],
        decreases p.len() - k,
    {
        if s[i + k] != p[k] {
            assert(s@.subrange(i as int, i + p.len())[k as int] != p@[k as int]);
            return false;
        }
        k = k + 1;
    }
    assert(s@.subrange(i as int, i + p.len()) =~= p@);
    true
}

/// The first position at or after `start` where `p` occurs.
pub fn find_from_exec(s: &[char], p: &[char], start: usize) -> (r: Option<usize>)
    ensures
        match r {
            Some(k) => find_from(s@, p@, start as int) == Some(k as int),
            None => find_from(s@, p@, start as int) is None,
        },
{
    if start > s.len() {
        return None;
    }
    if p.len() == 0 {
        assert(s@.subrange(start as int, start as int) =~= p@);
        return Some(start);
    }
    let mut i = start;
    while i < s.len() && p.len() <= s.len() - i
        invariant
            start <= i <= s.len(),
            p.len() > 0,
            find_from(s@, p@, start as int) == find_from(s@, p@, i as int),
        decreases s.len() + 1 - i,
    {
        if matches_at_exec(s, p, i) {
            return Some(i);
        }
        i = i + 1;
    }
    None
}

/// The first position where `p` occurs (`str::find`).
pub fn find_exec(s: &[char], p: &[char]) -> (r: Option<usize>)
    ensures
        match r {
            Some(k) => find(s@, p@) == Some(k as int),
            None => find(s@, p@) is None,
        },
{
    find_from_exec(s, p, 0)
}

pub fn find_str(s: &[char], p: &str) -> (r: Option<usize>)
    ensures
        match r {
            Some(k) => find(s@, p@) == Some(k as int),
            None => find(s@, p@) is None,
        },
{
    let pv = chars_of(p);
    find_exec(s, &pv)
}

pub fn contains_str(s: &[char], p: &str) -> (r: bool)
    ensures
        r == contains(s@, p@),
{
    let pv = chars_of(p);
    find_exec(s, &pv).is_some()
}

pub fn starts_with_exec(s: &[char], p: &[char]) -> (r: bool)
    ensures
        r == starts_with(s@, p@),
{
    let r = matches_at_exec(s, p, 0);
    assert(r ==> s@.take(p@.len() as int) =~= s@.subrange(0, p@.len() as int));
    assert(starts_with(s@, p@) ==> s@.take(p@.len() as int) =~= s@.subrange(0, p@.len() as int));
    r
}

pub fn starts_with_str(s: &[char], p: &str) -> (r: bool)
    ensures
        r == starts_with(s@, p@),
{
    let pv = chars_of(p);
    starts_with_exec(s, &pv)
}

pub fn ends_with_str(s: &[char], p: &str) -> (r: bool)
    ensures
        r == ends_with(s@, p@),
{
    let pv = chars_of(p);
    if pv.len() > s.len() {
        return false;
    }
    let r = matches_at_exec(s, &pv, s.len() - pv.len());
    assert(s@.skip(s@.len() - pv@.len()) =~= s@.subrange(s@.len() - pv@.len(), s@.len() as int));
    r
}

/// Index where `trim_start` begins.
pub fn trim_start_index(s: &[char]) -> (i: usize)
    ensures
        i <= s.len(),
        trim_start(s@) == s@.skip(i as int),
{
    let mut i: usize = 0;
    assert(s@.skip(0) =~= s@);
    while i < s.len() && ws_char(s[i])
        invariant
            i <= s.len(),
            trim_start(s@) == trim_start(s@.skip(i as int)),
        decreases s.len() - i,
    {
        assert(s@.skip(i as int).drop_first() =~= s@.skip(i + 1));
        i = i + 1;
    }
    i
}

/// Index where `trim_end` stops.
pub fn trim_end_index(s: &[char]) -> (j: usize)
    ensures
        j <= s.len(),
        trim_end(s@) == s@.take(j as int),
{
    let mut j: usize = s.len();
    assert(s@.take(j as int) =~= s@);
    while j > 0 && ws_char(s[j - 1])
        invariant
            j <= s.len(),
            trim_end(s@) == trim_end(s@.take(j as int)),
        decreases j,
    {
        assert(s@.take(j as int).drop_last() =~= s@.take(j - 1));
        j = j - 1;
    }
    j
}

/// `str::trim`, as a sub-slice.
pub fn trim_slice(s: &[char]) -> (r: &[char])
    ensures
        r@ == trim(s@),
{
    let i = trim_start_index(s);
    let t = &s[i..s.len()];
    assert(t@ =~= s@.skip(i as int));
    let j = trim_end_index(t);
    let r = &t[0..j];
    assert(r@ =~= t@.take(j as int));
    r
}

/// `str::trim_start`, as a sub-slice.
pub fn trim_start_slice(s: &[char]) -> (r: &[char])
    ensures
        r@ == trim_start(s@),
{
    let i = trim_start_index(s);
    let t = &s[i..s.len()];
    assert(t@ =~= s@.skip(i as int));
    t
}

pub fn find_ws_exec(s: &[char], start: usize) -> (r: Option<usize>)
    ensures
        match r {
            Some(k) => find_ws(s@, start as int) == Some(k as int),
            None => find_ws(s@, start as int) is None,
        },
{
    let mut i = start;
    while i < s.len()
        invariant
            start <= i,
            find_ws(s@, start as int) == find_ws(s@, i as int),
        decreases s.len() - i,
    {
        if ws_char(s[i]) {
            return Some(i);
        }
        i = i + 1;
    }
    None
}

pub fn ws_end_exec(s: &[char]) -> (r: usize)
    ensures
        r as int == ws_end(s@),
        r <= s.len(),
{
    proof {
        lemma_find_ws(s@, 0);
    }
    match find_ws_exec(s, 0) {
        Some(k) => k,
        None => s.len(),
    }
}

/// The first field of `split_whitespace`.
pub fn first_word_slice(s: &[char]) -> (r: Option<&[char]>)
    ensures
        match r {
            Some(w) => first_word(s@) == Some(w@),
            None => first_word(s@) is None,
        },
{
    let t = trim_start_slice(s);
    if t.len() == 0 {
        return None;
    }
    let e = ws_end_exec(t);
    let w = &t[0..e];
    assert(w@ =~= t@.take(e as int));
    Some(w)
}

/// What follows the first field of `split_whitespace`.
pub fn after_first_word_slice(s: &[char]) -> (r: &[char])
    ensures
        r@ == after_first_word(s@),
{
    let t = trim_start_slice(s);
    let e = ws_end_exec(t);
    let r = &t[e..t.len()];
    assert(r@ =~= t@.skip(e as int));
    r
}

/// The second field of `split_whitespace`.
pub fn second_word_slice(s: &[char]) -> (r: Option<&[char]>)
    ensures
        match r {
            Some(w) => second_word(s@) == Some(w@),
            None => second_word(s@) is None,
        },
{
    if first_word_slice(s).is_none() {
        return None;
    }
    let rest = after_first_word_slice(s);
    first_word_slice(rest)
}

/// `s.split(p).next()`.
pub fn before_first_slice<'a>(s: &'a [char], p: &[char]) -> (r: &'a [char])
    ensures
        r@ == before_first(s@, p@),
{
    proof {
        lemma_find_from(s@, p@, 0);
    }
    match find_exec(s, p) {
        Some(i) => {
            let r = &s[0..i];
            assert(r@ =~= s@.take(i as int));
            r
        },
        None => s,
    }
}

/// The part after the first `p`.
pub fn after_first_slice<'a>(s: &'a [char], p: &[char]) -> (r: Option<&'a [char]>)
    ensures
        match r {
            Some(t) => after_first(s@, p@) == Some(t@),
            None => after_first(s@, p@) is None,
        },
{
    proof {
        lemma_find_from(s@, p@, 0);
    }
    match find_exec(s, p) {
        Some(i) => {
            assert(matches_at(s@, p@, i as int));
            assert(i + p@.len() <= s@.len());
            assert(i + p.len() <= s.len());
            let t = &s[i + p.len()..s.len()];
            assert(t@ =~= s@.skip(i + p@.len()));
            Some(t)
        },
        None => None,
    }
}

/// `s.split(p).nth(1)`.
pub fn split_second_slice<'a>(s: &'a [char], p: &[char]) -> (r: Option<&'a [char]>)
    ensures
        match r {
            Some(t) => split_second(s@, p@) == Some(t@),
            None => split_second(s@, p@) is None,
        },
{
    match after_first_slice(s, p) {
        Some(rest) => Some(before_first_slice(rest, p)),
        None => None,
    }
}

/// `str::lines`.
pub fn lines_of(t: &[char]) -> (r: Vec<Vec<char>>)
    ensures
        seqs_of(r@) == lines(t@),
{
    let mut out: Vec<Vec<char>> = Vec::new();
    let mut pos: usize = 0;
    let nl: [char; 1] = ['\n'];
    let ghost nls = seq!['\n'];
    assert(nl@ == nls);
    assert(t@.skip(0) =~= t@);
    while pos < t.len()
        invariant
            pos <= t.len(),
            nl@ == nls,
            nls == seq!['\n'],
            seqs_of(out@) + lines(t@.skip(pos as int)) == lines(t@),
        decreases t.len() - pos,
    {
        let rest = &t[pos..t.len()];
        assert(rest@ =~= t@.skip(pos as int));
        proof {
            lemma_find_from(rest@, nls, 0);
        }
        match find_exec(rest, &nl) {
            None => {
                let mut line: Vec<char> = Vec::new();
                line.extend_from_slice(rest);
                assert(line@ =~= rest@);
                let ghost before = seqs_of(out@);
                out.push(line);
                assert(seqs_of(out@) =~= before.push(rest@));
                assert(lines(rest@) == seq![rest@]);
                assert(t@.skip(t.len() as int) =~= Seq::<char>::empty());
                pos = t.len();
            },
            Some(k) => {
                let mut end = k;
                if end > 0 && rest[end - 1] == '\r' {
                    end = end - 1;
                }
                let mut line: Vec<char> = Vec::new();
                line.extend_from_slice(&rest[0..end]);
                assert(line@ =~= strip_cr(rest@.take(k as int)));
                let ghost before = seqs_of(out@);
                out.push(line);
                assert(seqs_of(out@) =~= before.push(line@));
                assert(rest@.skip(k + 1) =~= t@.skip(pos + k + 1));
                assert(lines(rest@) == seq![strip_cr(rest@.take(k as int))] + lines(rest@.skip(k + 1)));
                assert(before.push(line@) + lines(t@.skip(pos + k + 1)) =~= before + (seq![line@] + lines(t@.skip(pos + k + 1))));
                pos = pos + k + 1;
            },
        }
    }
    assert(t@.skip(pos as int) =~= Seq::<char>::empty());
    assert(seqs_of(out@) + seq![] =~= seqs_of(out@));
    out
}

/// Decimal notation of a number.
pub fn decimal_of(n: u64) -> (r: Vec<char>)
    ensures
        r@ == decimal(n as nat),
    decreases n,
{
    let d: u8 = (n % 10) as u8 + 48;
    let c = d as char;
    assert(c == digit_of(n as nat));
    if n < 10 {
        let mut r: Vec<char> = Vec::new();
        r.push(c);
        assert(r@ =~= seq![digit_of(n as nat)]);
        r
    } else {
        let mut r = decimal_of(n / 10);
        r.push(c);
        assert(digit_of((n as nat) % 10) == digit_of(n as nat));
        r
    }
}

} // verus!

verus! {

/// A `String` holding a copy of `s`.
pub fn string_from(s: &str) -> (r: String)
    ensures
        r@ == s@,
{
    String::from_str(s)
}

/// Appends a string slice.
pub fn push_str(s: &mut String, t: &str)
    ensures
        final(s)@ == old(s)@ + t@,
{
    s.append(t);
}

} // verus!

verus! {

/// Whether the characters are exactly those of `lit`.
pub fn equals_str(s: &[char], lit: &str) -> (r: bool)
    ensures
        r == (s@ == lit@),
{
    let l = chars_of(lit);
    if l.len() != s.len() {
        return false;
    }
    let mut i: usize = 0;
    while i < s.len()
        invariant
            l@ == lit@,
            l.len() == s.len(),
            i <= s.len(),
            forall|j: int| 0 <= j < i ==> s@[j] == l@[j],
        decreases s.len() - i,
    {
        if s[i] != l[i] {
            return false;
        }
        i = i + 1;
    }
    assert(s@ =~= l@);
    true
}

/// `s.split(p).next()` for a literal `p`.
pub fn before_first_str<'a>(s: &'a [char], p: &str) -> (r: &'a [char])
    ensures
        r@ == before_first(s@, p@),
{
    let pv = chars_of(p);
    before_first_slice(s, &pv)
}

/// `s.split(p).nth(1)` for a literal `p`.
pub fn split_second_str<'a>(s: &'a [char], p: &str) -> (r: Option<&'a [char]>)
    ensures
        match r {
            Some(t) => split_second(s@, p@) == Some(t@),
            None => split_second(s@, p@) is None,
        },
{
    let pv = chars_of(p);
    split_second_slice(s, &pv)
}

/// The part after the first `p`, for a literal `p`.
pub fn after_first_str<'a>(s: &'a [char], p: &str) -> (r: Option<&'a [char]>)
    ensures
        match r {
            Some(t) => after_first(s@, p@) == Some(t@),
            None => after_first(s@, p@) is None,
        },
{
    let pv = chars_of(p);
    after_first_slice(s, &pv)
}

/// `strip_prefix` for a literal prefix.
pub fn strip_prefix_str<'a>(s: &'a [char], p: &str) -> (r: Option<&'a [char]>)
    ensures
        match r {
            Some(t) => strip_prefix(s@, p@) == Some(t@),
            None => strip_prefix(s@, p@) is None,
        },
{
    let pv = chars_of(p);
    if starts_with_exec(s, &pv) {
        let t = &s[pv.len()..s.len()];
        assert(t@ =~= s@.skip(pv@.len() as int));
        Some(t)
    } else {
        None
    }
}

} // verus!

verus! {

/// A text has no more lines than characters.
pub proof fn lemma_lines_len(t: Seq<char>)
    ensures
        lines(t).len() <= t.len(),
    decreases t.len(),
{
    if t.len() > 0 {
        lemma_find_from(t, seq!['\n'], 0);
        match find(t, seq!['\n']) {
            Some(k) => if 0 <= k < t.len() {
                lemma_lines_len(t.skip(k + 1));
            },
            None => {},
        }
    }
}

} // verus!

verus! {

/// The items with `sep` between each two of them.
pub open spec fn join(items: Seq<Seq<char>>, sep: Seq<char>) -> Seq<char>
    decreases items.len(),
{
    if items.len() == 0 {
        seq![]
    } else if items.len() == 1 {
        items[0]
    } else {
        join(items.drop_last(), sep) + sep + items.last()
    }
}

/// `true` or `false`, as Rust prints a `bool`.
pub open spec fn bool_text(b: bool) -> Seq<char> {
    if b {
        "true"@
    } else {
        "false"@
    }
}

/// The contents of each string.
pub open spec fn string_views(v: Seq<String>) -> Seq<Seq<char>> {
    v.map_values(|s: String| s@)
}

/// Whether a string is exactly `lit`.
pub fn string_is(s: &String, lit: &str) -> (r: bool)
    ensures
        r == (s@ == lit@),
{
    let v = chars_of(s.as_str());
    equals_str(&v, lit)
}

/// Appends `true` or `false`.
pub fn push_bool(s: &mut String, b: bool)
    ensures
        final(s)@ == old(s)@ + bool_text(b),
{
    if b {
        push_str(s, "true");
    } else {
        push_str(s, "false");
    }
}

/// Appends a number in decimal notation.
pub fn push_decimal(s: &mut String, n: u64)
    ensures
        final(s)@ == old(s)@ + decimal(n as nat),
{
    let d = decimal_of(n);
    push_chars(s, &d);
}

/// The strings joined with `sep` between each two of them.
pub fn join_strings(items: &Vec<String>, sep: &str) -> (r: String)
    ensures
        r@ == join(string_views(items@), sep@),
{
    let ghost all = string_views(items@);
    let mut r = String::new();
    let mut i: usize = 0;
    while i < items.len()
        invariant
            i <= items.len(),
            all == string_views(items@),
            r@ == join(all.take(i as int), sep@),
        decreases items.len() - i,
    {
        if i > 0 {
            push_str(&mut r, sep);
        }
        push_chars(&mut r, &chars_of(items[i].as_str()));
        assert(all.take(i + 1).drop_last() =~= all.take(i as int));
        i = i + 1;
    }
    assert(all.take(items.len() as int) =~= all);
    r
}

} // verus!

verus! {

/// `str::replace` for a non-empty pattern, from position `i` on: every
/// occurrence of `p`, left to right and not overlapping, becomes `r`.
pub open spec fn replace_from(s: Seq<char>, p: Seq<char>, r: Seq<char>, i: int) -> Seq<char>
    decreases s.len() - i,
{
    if p.len() == 0 || i < 0 || i > s.len() {
        s.skip(i)
    } else {
        match find_from(s, p, i) {
            Some(k) => if i <= k && k + p.len() <= s.len() {
                s.subrange(i, k) + r + replace_from(s, p, r, k + p.len())
            } else {
                s.skip(i)
            },
            None => s.skip(i),
        }
    }
}

/// `r` before, between and after the characters of `s`: what `str::replace`
/// makes of an empty pattern.
pub open spec fn interleave(s: Seq<char>, r: Seq<char>) -> Seq<char>
    decreases s.len(),
{
    if s.len() == 0 {
        r
    } else {
        interleave(s.drop_last(), r) + seq![s.last()] + r
    }
}

/// `str::replace`.
pub open spec fn replace(s: Seq<char>, p: Seq<char>, r: Seq<char>) -> Seq<char> {
    if p.len() == 0 {
        interleave(s, r)
    } else {
        replace_from(s, p, r, 0)
    }
}

/// `str::replacen(p, r, 1)`: the first occurrence of `p` becomes `r`.
pub open spec fn replace_first(s: Seq<char>, p: Seq<char>, r: Seq<char>) -> Seq<char> {
    match find(s, p) {
        Some(k) => s.take(k) + r + s.skip(k + p.len()),
        None => s,
    }
}

/// Every `a` becomes `b`.
pub open spec fn replace_char(s: Seq<char>, a: char, b: char) -> Seq<char> {
    s.map_values(|c: char| if c == a { b } else { c })
}

/// `str::replace` for a non-empty pattern.
fn replace_nonempty(s: &[char], p: &[char], r: &[char]) -> (out: Vec<char>)
    requires
        p.len() > 0,
    ensures
        out@ == replace(s@, p@, r@),
{
    let mut out: Vec<char> = Vec::new();
    let mut i: usize = 0;
    loop
        invariant_except_break
            out@ + replace_from(s@, p@, r@, i as int) == replace(s@, p@, r@),
        invariant
            p.len() > 0,
            i <= s.len(),
        ensures
            out@ == replace(s@, p@, r@),
        decreases s.len() - i,
    {
        match find_from_exec(s, p, i) {
            None => {
                let rest = &s[i..s.len()];
                assert(rest@ =~= s@.skip(i as int));
                let mut j: usize = 0;
                let ghost before = out@;
                while j < rest.len()
                    invariant
                        j <= rest.len(),
                        out@ == before + rest@.take(j as int),
                    decreases rest.len() - j,
                {
                    out.push(rest[j]);
                    assert(rest@.take(j + 1) =~= rest@.take(j as int).push(rest@[j as int]));
                    j = j + 1;
                }
                assert(rest@.take(rest.len() as int) =~= rest@);
                assert(replace_from(s@, p@, r@, i as int) == s@.skip(i as int));
                break;
            },
            Some(k) => {
                proof {
                    lemma_find_from(s@, p@, i as int);
                }
                let ghost before = out@;
                let mut j: usize = i;
                while j < k
                    invariant
                        i <= j <= k,
                        k <= s.len(),
                        out@ == before + s@.subrange(i as int, j as int),
                    decreases k - j,
                {
                    out.push(s[j]);
                    assert(s@.subrange(i as int, j + 1) =~= s@.subrange(i as int, j as int).push(
                        s@[j as int],
                    ));
                    j = j + 1;
                }
                let mut q: usize = 0;
                let ghost mid = out@;
                while q < r.len()
                    invariant
                        q <= r.len(),
                        out@ == mid + r@.take(q as int),
                    decreases r.len() - q,
                {
                    out.push(r[q]);
                    assert(r@.take(q + 1) =~= r@.take(q as int).push(r@[q as int]));
                    q = q + 1;
                }
                assert(r@.take(r.len() as int) =~= r@);
                assert(out@ + replace_from(s@, p@, r@, k + p.len()) =~= before + replace_from(
                    s@,
                    p@,
                    r@,
                    i as int,
                ));
                i = k + p.len();
            },
        }
    }
    out
}

/// Every `a` becomes `b`.
pub fn replace_char_exec(s: &[char], a: char, b: char) -> (out: Vec<char>)
    ensures
        out@ == replace_char(s@, a, b),
{
    let mut out: Vec<char> = Vec::new();
    let mut i: usize = 0;
    while i < s.len()
        invariant
            i <= s.len(),
            out@ == replace_char(s@.take(i as int), a, b),
        decreases s.len() - i,
    {
        out.push(if s[i] == a { b } else { s[i] });
        assert(replace_char(s@.take(i + 1), a, b) =~= replace_char(s@.take(i as int), a, b).push(
            if s@[i as int] == a { b } else { s@[i as int] },
        ));
        i = i + 1;
    }
    assert(s@.take(s.len() as int) =~= s@);
    out
}

fn push_all(out: &mut Vec<char>, v: &[char])
    ensures
        final(out)@ == old(out)@ + v@,
{
    let mut j: usize = 0;
    while j < v.len()
        invariant
            j <= v.len(),
            out@ == old(out)@ + v@.take(j as int),
        decreases v.len() - j,
    {
        out.push(v[j]);
        assert(v@.take(j + 1) =~= v@.take(j as int).push(v@[j as int]));
        j = j + 1;
    }
    assert(v@.take(v.len() as int) =~= v@);
}

/// `str::replace`: every occurrence of `p`, left to right and not
/// overlapping, becomes `r`; an empty `p` puts `r` around every character.
pub fn replace_exec(s: &[char], p: &[char], r: &[char]) -> (out: Vec<char>)
    ensures
        out@ == replace(s@, p@, r@),
{
    if p.len() > 0 {
        return replace_nonempty(s, p, r);
    }
    let mut out: Vec<char> = Vec::new();
    push_all(&mut out, r);
    let mut i: usize = 0;
    while i < s.len()
        invariant
            i <= s.len(),
            out@ == interleave(s@.take(i as int), r@),
        decreases s.len() - i,
    {
        out.push(s[i]);
        push_all(&mut out, r);
        assert(s@.take(i + 1).drop_last() =~= s@.take(i as int));
        i = i + 1;
    }
    assert(s@.take(s.len() as int) =~= s@);
    out
}

/// `str::replacen(p, r, 1)`.
pub fn replace_first_exec(s: &[char], p: &[char], r: &[char]) -> (out: Vec<char>)
    ensures
        out@ == replace_first(s@, p@, r@),
{
    match find_exec(s, p) {
        Some(k) => {
            proof {
                lemma_find_from(s@, p@, 0);
                assert(find(s@, p@) == find_from(s@, p@, 0));
                assert(matches_at(s@, p@, k as int));
            }
            let plen = p.len();
            assert(k + plen <= s.len());
            let end = k + plen;
            let mut out: Vec<char> = Vec::new();
            push_all(&mut out, &s[0..k]);
            push_all(&mut out, r);
            push_all(&mut out, &s[end..s.len()]);
            assert(out@ =~= s@.take(k as int) + r@ + s@.skip(k + p.len()));
            out
        },
        None => {
            let mut out: Vec<char> = Vec::new();
            push_all(&mut out, s);
            assert(out@ =~= s@);
            out
        },
    }
}

} // verus!
