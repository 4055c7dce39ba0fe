//! The two report languages and the choice between paired texts.
use vstd::prelude::*;

verus! {

/// A report language.
#[derive(Clone, Copy, Debug, PartialEq, Eq, Structural)]
pub enum Locale {
    Zh,
    En,
}

/// The text of a `(Chinese, English)` pair that a locale reads.
pub open spec fn pick(loc: Locale, zh: Seq<char>, en: Seq<char>) -> Seq<char> {
    match loc {
        Locale::Zh => zh,
        Locale::En => en,
    }
}

/// Chooses the text of a `(Chinese, English)` pair for a locale.
pub fn tr(loc: Locale, zh: &'static str, en: &'static str) -> (r: &'static str)
    ensures
        r@ == pick(loc, zh@, en@),
{
    match loc {
        Locale::Zh => zh,
        Locale::En => en,
    }
}

/// Whether a locale is Chinese.
pub fn is_zh(loc: Locale) -> (r: bool)
    ensures
        r == (loc == Locale::Zh),
{
    match loc {
        Locale::Zh => true,
        Locale::En => false,
    }
}

} // verus!

verus! {

/// A `(Chinese, English)` pair of templates with one gap each, filled with `arg`.
pub open spec fn filled(
    loc: Locale,
    zh_pre: Seq<char>,
    zh_post: Seq<char>,
    en_pre: Seq<char>,
    en_post: Seq<char>,
    arg: Seq<char>,
) -> Seq<char> {
    pick(loc, zh_pre + arg + zh_post, en_pre + arg + en_post)
}

/// Fills the locale's template of a pair with `arg`.
pub fn fill(
    loc: Locale,
    zh_pre: &'static str,
    zh_post: &'static str,
    en_pre: &'static str,
    en_post: &'static str,
    arg: &[char],
) -> (r: String)
    ensures
        r@ == filled(loc, zh_pre@, zh_post@, en_pre@, en_post@, arg@),
{
    let mut r = crate::text::string_from(tr(loc, zh_pre, en_pre));
    crate::text::push_chars(&mut r, arg);
    crate::text::push_str(&mut r, tr(loc, zh_post, en_post));
    r
}

} // verus!
