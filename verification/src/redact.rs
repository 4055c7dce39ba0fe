//! Taking user names and home folders out of text before it is shared.
use vstd::prelude::*;

use crate::text::{
    ascii_lower_char, lower_char, matches_at_exec,
    chars_of, find, find_exec, find_from, find_from_exec, lemma_find_from, lower, lower_of,
    replace, replace_char, replace_char_exec, replace_exec, replace_first, replace_first_exec,
    string_of, string_views,
};

verus! {

/// The user name in the first `/Users/<name>/` of the text (slashes of
/// either kind, `Users` in any ASCII case).
pub open spec fn user_name_in(input: Seq<char>) -> Option<Seq<char>> {
    let n = replace_char(input, '\\', '/');
    match find(lower(n), "/users/"@) {
        None => None,
        Some(m) => match find_from(n, seq!['/'], m + 7) {
            None => None,
            Some(e) => Some(n.subrange(m + 7, e)),
        },
    }
}

/// A path separator of either kind.
pub open spec fn is_sep(c: char) -> bool {
    c == '\\' || c == '/'
}

/// What a user name is written as once it is taken out.
pub open spec fn user_mark() -> Seq<char> {
    seq!['<', 'u', 's', 'e', 'r', '>']
}

/// Whether a user folder segment `<sep>users<sep><u><sep>` starts at `i`:
/// one kind of slash throughout and `users` in any ASCII case.
pub open spec fn user_segment_at(s: Seq<char>, u: Seq<char>, i: int) -> bool {
    let n = u.len() as int;
    &&& 0 <= i
    &&& i + 8 + n <= s.len()
    &&& is_sep(s[i])
    &&& ascii_lower_char(s[i + 1]) == 'u'
    &&& ascii_lower_char(s[i + 2]) == 's'
    &&& ascii_lower_char(s[i + 3]) == 'e'
    &&& ascii_lower_char(s[i + 4]) == 'r'
    &&& ascii_lower_char(s[i + 5]) == 's'
    &&& s[i + 6] == s[i]
    &&& s.subrange(i + 7, i + 7 + n) == u
    &&& s[i + 7 + n] == s[i]
}

/// The text read from left to right with the user name of each user folder
/// segment written as `<user>`; the closing slash of a segment may open the
/// next one.
pub open spec fn redact_segments(s: Seq<char>, u: Seq<char>) -> Seq<char>
    decreases s.len(),
{
    if s.len() == 0 {
        s
    } else if user_segment_at(s, u, 0) {
        s.take(7) + user_mark() + redact_segments(s.skip(7 + u.len() as int), u)
    } else {
        seq![s[0]] + redact_segments(s.skip(1), u)
    }
}

/// The text with the user name found in it written as `<user>` in every
/// user folder segment (`\Users\<name>\` or `/Users/<name>/`, `Users` in any
/// ASCII case).
pub open spec fn without_user_name(input: Seq<char>) -> Seq<char> {
    match user_name_in(input) {
        None => input,
        Some(u) => redact_segments(input, u),
    }
}

pub proof fn lemma_segment_shift(s: Seq<char>, u: Seq<char>, d: int, p: int)
    requires
        0 <= d <= s.len(),
        0 <= p,
    ensures
        user_segment_at(s.skip(d), u, p) == user_segment_at(s, u, p + d),
{
    let t = s.skip(d);
    let n = u.len() as int;
    if p + 8 + n <= t.len() {
        assert(t.subrange(p + 7, p + 7 + n) =~= s.subrange(p + d + 7, p + d + 7 + n));
    }
}

proof fn lemma_first_char(s: Seq<char>, u: Seq<char>)
    requires
        s.len() > 0,
    ensures
        redact_segments(s, u).len() > 0,
        redact_segments(s, u)[0] == s[0],
{
}

/// Without a segment before `q`, the text up to `q` is kept as it is.
pub proof fn lemma_keep_prefix(s: Seq<char>, u: Seq<char>, q: int)
    requires
        0 <= q <= s.len(),
        forall|p: int| 0 <= p < q ==> !user_segment_at(s, u, p),
    ensures
        redact_segments(s, u) == s.take(q) + redact_segments(s.skip(q), u),
    decreases q,
{
    if q == 0 {
        assert(s.take(0) + redact_segments(s, u) =~= redact_segments(s, u));
        assert(s.skip(0) =~= s);
    } else {
        let s1 = s.skip(1);
        assert forall|p: int| 0 <= p < q - 1 implies !user_segment_at(s1, u, p) by {
            lemma_segment_shift(s, u, 1, p);
        }
        lemma_keep_prefix(s1, u, q - 1);
        assert(s1.skip(q - 1) =~= s.skip(q));
        assert(seq![s[0]] + s1.take(q - 1) =~= s.take(q));
        assert(redact_segments(s, u) == seq![s[0]] + redact_segments(s1, u));
        assert(seq![s[0]] + (s1.take(q - 1) + redact_segments(s.skip(q), u)) =~= s.take(q)
            + redact_segments(s.skip(q), u));
    }
}

/// The first segment before `b`, if there is one.
pub proof fn first_segment(s: Seq<char>, u: Seq<char>, b: int) -> (r: Option<int>)
    requires
        0 <= b,
    ensures
        r is None ==> forall|p: int| 0 <= p < b ==> !user_segment_at(s, u, p),
        r matches Some(p) ==> 0 <= p < b && user_segment_at(s, u, p) && forall|q: int|
            0 <= q < p ==> !user_segment_at(s, u, q),
    decreases b,
{
    if b == 0 {
        None
    } else {
        match first_segment(s, u, b - 1) {
            Some(p) => Some(p),
            None => if user_segment_at(s, u, b - 1) {
                Some(b - 1)
            } else {
                None
            },
        }
    }
}

proof fn lemma_sep_not_letter(c: char)
    requires
        is_sep(c),
    ensures
        ascii_lower_char(c) == c,
        c != '<' && c != 'u' && c != 's' && c != 'e' && c != 'r' && c != '>',
{
}

/// Once the names are written as `<user>`, no user folder segment with the
/// name is left, when the name holds no slash and is not `<user>` itself.
pub proof fn lemma_no_segment_left(s: Seq<char>, u: Seq<char>)
    requires
        forall|k: int| 0 <= k < u.len() ==> !is_sep(#[trigger] u[k]),
        u != user_mark(),
    ensures
        forall|i: int| !user_segment_at(redact_segments(s, u), u, i),
    decreases s.len(),
{
    let r = redact_segments(s, u);
    let n = u.len() as int;
    let m = user_mark();
    if s.len() == 0 {
    } else if user_segment_at(s, u, 0) {
        let t = s.skip(7 + n);
        lemma_no_segment_left(t, u);
        let rt = redact_segments(t, u);
        lemma_first_char(t, u);
        assert(t[0] == s[0]);
        assert(r == s.take(7) + m + rt);
        lemma_sep_not_letter(s[0]);
        assert forall|i: int| !user_segment_at(r, u, i) by {
            if user_segment_at(r, u, i) {
                if i == 0 {
                    assert(r[13] == s[0]);
                    if n < 6 {
                        assert(r[7 + n] == m[n]);
                    } else if n == 6 {
                        assert(r.subrange(7, 13) =~= m);
                    } else {
                        assert(r.subrange(7, 7 + n)[6] == r[13]);
                        assert(u[6] == r[13]);
                    }
                } else if 1 <= i <= 5 {
                    assert(r[i] == s[i]);
                    assert(ascii_lower_char(s[i]) != s[i] || s[i] == 'u' || s[i] == 's' || s[i]
                        == 'e' || s[i] == 'r');
                } else if i == 6 {
                    assert(r[7] == '<');
                } else if 7 <= i <= 12 {
                    assert(r[i] == m[i - 7]);
                } else {
                    assert(r.skip(13) =~= rt);
                    lemma_segment_shift(r, u, 13, i - 13);
                }
            }
        }
    } else {
        let s1 = s.skip(1);
        lemma_no_segment_left(s1, u);
        let r1 = redact_segments(s1, u);
        assert(r == seq![s[0]] + r1);
        assert forall|i: int| !user_segment_at(r, u, i) by {
            if user_segment_at(r, u, i) {
                if i >= 1 {
                    assert(r.skip(1) =~= r1);
                    lemma_segment_shift(r, u, 1, i - 1);
                } else {
                    lemma_prefix_segment(s, u);
                }
            }
        }
    }
}

/// A segment at the start of the written text, behind a first character
/// that is kept, stands at the start of the text itself.
proof fn lemma_prefix_segment(s: Seq<char>, u: Seq<char>)
    requires
        forall|k: int| 0 <= k < u.len() ==> !is_sep(#[trigger] u[k]),
        s.len() > 0,
        user_segment_at(seq![s[0]] + redact_segments(s.skip(1), u), u, 0),
    ensures
        user_segment_at(s, u, 0),
{
    let s1 = s.skip(1);
    let r1 = redact_segments(s1, u);
    let r = seq![s[0]] + r1;
    let n = u.len() as int;
    let b = 7 + n;
    let c = s[0];
    // r1[0..5] spell `users`, r1[5] is the slash, r1[6..6+n] is the name and
    // r1[6+n] the slash again.
    assert forall|j: int| 0 <= j < 5 implies !is_sep(#[trigger] r1[j]) by {
        assert(r[j + 1] == r1[j]);
        if is_sep(r1[j]) {
            lemma_sep_not_letter(r1[j]);
        }
    }
    assert forall|j: int| 6 <= j < 6 + n implies !is_sep(#[trigger] r1[j]) by {
        assert(r.subrange(7, 7 + n)[j - 6] == r[j + 1]);
        assert(u[j - 6] == r1[j]);
    }
    // r1 agrees with s1 on its first b characters.
    let agree = forall|j: int| 0 <= j < b ==> #[trigger] r1[j] == s1[j];
    if s1.len() < b {
        lemma_keep_prefix(s1, u, s1.len() as int);
        assert(s1.take(s1.len() as int) =~= s1);
        assert(redact_segments(s1.skip(s1.len() as int), u) =~= Seq::<char>::empty());
        assert(r1 =~= s1);
    } else {
        match first_segment(s1, u, b) {
            None => {
                lemma_keep_prefix(s1, u, b);
                assert(agree);
            },
            Some(p) => {
                lemma_keep_prefix(s1, u, p);
                let tail = s1.skip(p);
                lemma_segment_shift(s1, u, p, 0);
                assert(tail.skip(0) =~= tail);
                assert(redact_segments(tail, u) == tail.take(7) + user_mark() + redact_segments(
                    tail.skip(7 + n),
                    u,
                ));
                assert forall|j: int| 0 <= j < p + 7 implies #[trigger] r1[j] == s1[j] by {
                    if j < p {
                        assert(r1[j] == s1.take(p)[j]);
                    } else {
                        assert(r1[j] == redact_segments(tail, u)[j - p]);
                        assert(tail[j - p] == s1[j]);
                    }
                }
                assert(r1[p] == s1[p]);
                assert(is_sep(s1[p]));
                lemma_sep_not_letter(s1[p]);
                if p < 5 {
                    assert(!is_sep(r1[p]));
                } else if p == 5 {
                    assert(r1[12] == redact_segments(tail, u)[7]);
                    assert(r1[12] == '<');
                    assert(r1[11] == s1[11]);
                    if n < 5 {
                        assert(r1[6 + n] == s1[6 + n]);
                        assert(r.subrange(7, 7 + n).len() == n);
                        assert(r[7 + n] == c);
                        assert(r1[6 + n] == c);
                        lemma_sep_not_letter(c);
                    } else if n > 5 {
                        assert(!is_sep(r1[11]));
                    }
                    assert(agree);
                } else if p < 6 + n {
                    assert(!is_sep(r1[p]));
                } else {
                    assert(agree);
                }
            },
        }
    }
    assert(agree);
    assert(s.subrange(7, 7 + n) =~= r.subrange(7, 7 + n)) by {
        assert forall|j: int| 7 <= j < 7 + n implies s[j] == r[j] by {
            assert(s[j] == s1[j - 1]);
            assert(r[j] == r1[j - 1]);
        }
    }
    assert(s[1] == r[1] && s[2] == r[2] && s[3] == r[3] && s[4] == r[4] && s[5] == r[5]);
    assert(s[6] == r[6] && s[7 + n] == r[7 + n]);
}

/// Whether a user folder segment with the name `u` starts at `i`.
fn user_segment_at_exec(s: &[char], u: &[char], i: usize) -> (r: bool)
    ensures
        r == user_segment_at(s@, u@, i as int),
{
    if i > s.len() || s.len() - i < 8 || s.len() - i - 8 < u.len() {
        return false;
    }
    let c = s[i];
    if !(c == '\\' || c == '/') {
        return false;
    }
    if lower_char(s[i + 1]) != 'u' || lower_char(s[i + 2]) != 's' || lower_char(s[i + 3]) != 'e'
        || lower_char(s[i + 4]) != 'r' || lower_char(s[i + 5]) != 's' {
        return false;
    }
    if s[i + 6] != c || s[i + 7 + u.len()] != c {
        return false;
    }
    matches_at_exec(s, u, i + 7)
}

/// Writes `<user>` for the user name of a Windows or macOS user folder
/// named in the text, in every user folder segment with that name.
pub fn redact_windows_user_paths(input: &str) -> (r: String)
    ensures
        r@ == without_user_name(input@),
        match user_name_in(input@) {
            None => r@ == input@,
            Some(u) => u != user_mark() ==> forall|i: int| !user_segment_at(r@, u, i),
        },
{
    let s = chars_of(input);
    let n = replace_char_exec(&s, '\\', '/');
    let ln = lower_of(&n);
    let marker = chars_of("/users/");
    proof {
        reveal_strlit("/users/");
    }
    let m = match find_exec(&ln, &marker) {
        None => return string_of(&s),
        Some(m) => m,
    };
    proof {
        lemma_find_from(lower(n@), marker@, 0);
        assert(crate::text::matches_at(lower(n@), marker@, m as int));
        assert(marker@.len() == 7);
        assert(lower(n@).len() == n@.len());
        assert(ln@ == lower(n@));
    }
    let slash: Vec<char> = vec!['/'];
    assert(slash@ =~= seq!['/']);
    assert(m + 7 <= n.len());
    let name_start: usize = m + 7;
    let e = match find_from_exec(&n, &slash, name_start) {
        None => return string_of(&s),
        Some(e) => e,
    };
    proof {
        lemma_find_from(n@, slash@, name_start as int);
    }
    let user = &n[name_start..e];
    proof {
        assert forall|k: int| 0 <= k < user@.len() implies !is_sep(#[trigger] user@[k]) by {
            let j = name_start + k;
            assert(user@[k] == n@[j]);
            assert(n@[j] == (if s@[j] == '\\' { '/' } else { s@[j] }));
            if user@[k] == '/' {
                assert(n@.subrange(j, j + 1) =~= slash@);
                assert(crate::text::matches_at(n@, slash@, j));
            }
        }
    }
    let mut out: Vec<char> = Vec::new();
    let mut i: usize = 0;
    assert(out@ + s@.skip(0) =~= s@);
    while i < s.len()
        invariant
            i <= s.len(),
            out@ + redact_segments(s@.skip(i as int), user@) == redact_segments(s@, user@),
        decreases s.len() - i,
    {
        let ghost rest = s@.skip(i as int);
        let ghost before = out@;
        proof {
            lemma_segment_shift(s@, user@, i as int, 0);
            assert(rest.skip(0) =~= rest);
        }
        if user_segment_at_exec(&s, user, i) {
            let mut k: usize = 0;
            while k < 7
                invariant
                    k <= 7,
                    i + 8 + user.len() <= s.len(),
                    out@ == before + s@.subrange(i as int, i + k),
                decreases 7 - k,
            {
                out.push(s[i + k]);
                assert(s@.subrange(i as int, i + k + 1) =~= s@.subrange(i as int, i + k).push(
                    s@[i + k],
                ));
                k = k + 1;
            }
            out.push('<');
            out.push('u');
            out.push('s');
            out.push('e');
            out.push('r');
            out.push('>');
            proof {
                assert(out@ =~= before + rest.take(7) + user_mark());
                assert(rest.skip(7 + user@.len() as int) =~= s@.skip(i + 7 + user@.len()));
                assert(redact_segments(rest, user@) == rest.take(7) + user_mark()
                    + redact_segments(rest.skip(7 + user@.len() as int), user@));
                assert(before + (rest.take(7) + user_mark() + redact_segments(
                    rest.skip(7 + user@.len() as int),
                    user@,
                )) =~= out@ + redact_segments(s@.skip(i + 7 + user@.len()), user@));
            }
            i = i + 7 + user.len();
        } else {
            out.push(s[i]);
            proof {
                assert(rest.skip(1) =~= s@.skip(i + 1));
                assert(before + (seq![rest[0]] + redact_segments(rest.skip(1), user@)) =~= out@
                    + redact_segments(s@.skip(i + 1), user@));
            }
            i = i + 1;
        }
    }
    proof {
        assert(out@ + redact_segments(s@.skip(i as int), user@) =~= out@);
        if user@ != user_mark() {
            lemma_no_segment_left(s@, user@);
        }
    }
    string_of(&out)
}

/// The text with each home folder (and its form with forward slashes)
/// written as `~`, in the order given; empty ones are skipped.
pub open spec fn without_homes(input: Seq<char>, homes: Seq<Seq<char>>) -> Seq<char>
    decreases homes.len(),
{
    if homes.len() == 0 {
        input
    } else {
        let out = without_homes(input, homes.drop_last());
        let v = homes.last();
        if v.len() == 0 {
            out
        } else {
            replace(replace(out, v, "~"@), replace_char(v, '\\', '/'), "~"@)
        }
    }
}

/// The text with home folders written as `~` and user names as `<user>`.
pub open spec fn redacted(input: Seq<char>, homes: Seq<Seq<char>>) -> Seq<char> {
    without_user_name(without_homes(input, homes))
}

/// Takes the given home folders (the values of `USERPROFILE` and `HOME`
/// where they are set) and the user name of a user folder out of the text.
pub fn redact_sensitive_text(input: &str, homes: &Vec<String>) -> (r: String)
    ensures
        r@ == redacted(input@, string_views(homes@)),
{
    let ghost hv = string_views(homes@);
    let mut out = chars_of(input);
    let tilde = chars_of("~");
    let mut i: usize = 0;
    while i < homes.len()
        invariant
            i <= homes.len(),
            hv == string_views(homes@),
            tilde@ == "~"@,
            out@ == without_homes(input@, hv.take(i as int)),
        decreases homes.len() - i,
    {
        let v = chars_of(homes[i].as_str());
        assert(hv.take(i + 1).drop_last() =~= hv.take(i as int));
        if v.len() > 0 {
            let a = replace_exec(&out, &v, &tilde);
            let slashed = replace_char_exec(&v, '\\', '/');
            out = replace_exec(&a, &slashed, &tilde);
        }
        i = i + 1;
    }
    assert(hv.take(homes.len() as int) =~= hv);
    let s = string_of(&out);
    redact_windows_user_paths(s.as_str())
}

/// The text with the installation folder, as written with backslashes,
/// with forward slashes, and with the drive's slash only reversed, written
/// as `<xplane>`.
pub open spec fn without_root(input: Seq<char>, root: Seq<char>) -> Seq<char> {
    let slash = replace_char(root, '\\', '/');
    let mixed = replace_first(slash, ":/"@, ":\\"@);
    replace(replace(replace(input, root, "<xplane>"@), slash, "<xplane>"@), mixed, "<xplane>"@)
}

/// Takes the installation folder, the home folders and the user name out of
/// the text.
pub fn redact_sensitive_text_for_root(input: &str, root: &str, homes: &Vec<String>) -> (r: String)
    ensures
        r@ == redacted(without_root(input@, root@), string_views(homes@)),
{
    let s = chars_of(input);
    let rb = chars_of(root);
    let rs = replace_char_exec(&rb, '\\', '/');
    let rm = replace_first_exec(&rs, &chars_of(":/"), &chars_of(":\\"));
    let x = chars_of("<xplane>");
    let a = replace_exec(&s, &rb, &x);
    let b = replace_exec(&a, &rs, &x);
    let c = replace_exec(&b, &rm, &x);
    let t = string_of(&c);
    redact_sensitive_text(t.as_str(), homes)
}

} // verus!
