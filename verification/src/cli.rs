//! The command line: the common options and which command to run.
use vstd::prelude::*;

use crate::i18n::{pick, tr, Locale};
use crate::text::{chars_of, equals_str, lower, lower_of, push_chars, push_str, string_from, string_of, string_views};

verus! {

/// The arguments without the common options, the report folder asked for,
/// and the language in force.
pub struct CommonArgs {
    pub args: Vec<String>,
    pub output_dir: Option<String>,
    pub locale: Locale,
}

/// A refused argument list: the message, and the language in force when
/// it was refused.
pub struct ArgsError {
    pub message: String,
    pub locale: Locale,
}

/// The contents of a parse in progress.
pub struct ArgsView {
    pub args: Seq<Seq<char>>,
    pub output_dir: Option<Seq<char>>,
    pub locale: Locale,
}

/// The language a `--lang` value names, if it names one.
pub open spec fn lang_of(v: Seq<char>) -> Option<Locale> {
    let l = lower(v);
    if l == "zh"@ || l == "zh-cn"@ || l == "zh-tw"@ {
        Some(Locale::Zh)
    } else if l == "en"@ || l == "en-us"@ || l == "en-gb"@ {
        Some(Locale::En)
    } else {
        None
    }
}

/// Reads the common options from argument `i` on: `--output`/`-o` and a
/// folder, `--lang` and a language; anything else is kept.
pub open spec fn parse_from(a: Seq<Seq<char>>, i: int, acc: ArgsView) -> Result<ArgsView, (Seq<char>, Locale)>
    decreases a.len() - i,
{
    if i < 1 || i >= a.len() {
        Ok(acc)
    } else {
        let arg = a[i];
        if arg == "--output"@ || arg == "-o"@ {
            if i + 1 >= a.len() {
                Err((pick(acc.locale, "--output 后面需要跟一个报告目录"@, "--output requires a report directory"@), acc.locale))
            } else {
                parse_from(a, i + 2, ArgsView { output_dir: Some(a[i + 1]), ..acc })
            }
        } else if arg == "--lang"@ {
            if i + 1 >= a.len() {
                Err((pick(acc.locale, "--lang 需要 zh 或 en"@, "--lang requires zh or en"@), acc.locale))
            } else {
                match lang_of(a[i + 1]) {
                    Some(l) => parse_from(a, i + 2, ArgsView { locale: l, ..acc }),
                    None => Err(("unknown language: "@ + lower(a[i + 1]) + ", expected zh or en"@, acc.locale)),
                }
            }
        } else {
            parse_from(a, i + 1, ArgsView { args: acc.args.push(arg), ..acc })
        }
    }
}

/// The common options of an argument list, the first argument (the
/// program) always kept.
pub open spec fn common_args(a: Seq<Seq<char>>, loc: Locale) -> Result<ArgsView, (Seq<char>, Locale)> {
    parse_from(
        a,
        1,
        ArgsView {
            args: if a.len() > 0 {
                seq![a[0]]
            } else {
                seq![]
            },
            output_dir: None,
            locale: loc,
        },
    )
}

fn copy_string(s: &String) -> (r: String)
    ensures
        r@ == s@,
{
    string_of(&chars_of(s.as_str()))
}

fn lang_of_exec(v: &String) -> (r: Option<Locale>)
    ensures
        r == lang_of(v@),
{
    let l = lower_of(&chars_of(v.as_str()));
    if equals_str(&l, "zh") || equals_str(&l, "zh-cn") || equals_str(&l, "zh-tw") {
        Some(Locale::Zh)
    } else if equals_str(&l, "en") || equals_str(&l, "en-us") || equals_str(&l, "en-gb") {
        Some(Locale::En)
    } else {
        None
    }
}

/// Reads the common options `--output <folder>` (or `-o`) and `--lang
/// <zh|en>` out of the arguments; `loc` is the language in force before.
pub fn parse_common_args(args: Vec<String>, loc: Locale) -> (r: Result<CommonArgs, ArgsError>)
    ensures
        match (r, common_args(string_views(args@), loc)) {
            (Ok(c), Ok(v)) => string_views(c.args@) == v.args && crate::collect::opt_str(c.output_dir)
                == v.output_dir && c.locale == v.locale,
            (Err(e), Err((m, l))) => e.message@ == m && e.locale == l,
            _ => false,
        },
{
    let ghost a = string_views(args@);
    let mut filtered: Vec<String> = Vec::new();
    if args.len() > 0 {
        filtered.push(copy_string(&args[0]));
    }
    let mut output_dir: Option<String> = None;
    let mut locale = loc;
    let mut i: usize = 1;
    assert(string_views(filtered@) =~= (if a.len() > 0 { seq![a[0]] } else { seq![] }));
    while i < args.len()
        invariant
            a == string_views(args@),
            1 <= i,
            common_args(a, loc) == parse_from(
                a,
                i as int,
                ArgsView {
                    args: string_views(filtered@),
                    output_dir: crate::collect::opt_str(output_dir),
                    locale,
                },
            ),
        decreases args.len() - i,
    {
        let arg = &args[i];
        let is_output = crate::text::string_is(arg, "--output") || crate::text::string_is(arg, "-o");
        if is_output {
            if i + 1 >= args.len() {
                let e = ArgsError {
                    message: string_from(tr(locale, "--output 后面需要跟一个报告目录", "--output requires a report directory")),
                    locale,
                };
                return Err(e);
            }
            output_dir = Some(copy_string(&args[i + 1]));
            i = i + 2;
        } else if crate::text::string_is(arg, "--lang") {
            if i + 1 >= args.len() {
                let e = ArgsError {
                    message: string_from(tr(locale, "--lang 需要 zh 或 en", "--lang requires zh or en")),
                    locale,
                };
                return Err(e);
            }
            match lang_of_exec(&args[i + 1]) {
                Some(l) => {
                    locale = l;
                    i = i + 2;
                },
                None => {
                    let mut message = string_from("unknown language: ");
                    push_chars(&mut message, &lower_of(&chars_of(args[i + 1].as_str())));
                    push_str(&mut message, ", expected zh or en");
                    return Err(ArgsError { message, locale });
                },
            }
        } else {
            let ghost before = string_views(filtered@);
            filtered.push(copy_string(arg));
            assert(string_views(filtered@) =~= before.push(a[i as int]));
            i = i + 1;
        }
    }
    Ok(CommonArgs { args: filtered, output_dir, locale })
}

/// What the program was asked to do.
pub enum Command {
    Detect,
    AnalyzeLog(String),
    AnalyzeBundle(String),
    Collect(Option<String>),
    Scan(Option<String>),
    Usage,
}

/// Which command an argument list (without the common options) asks for:
/// 0 `detect`, 1 `analyze-log`, 2 `analyze-bundle`, 3 `collect`, 4 the
/// usage text, 5 `scan`; the first that applies, in this order of tests.
pub open spec fn command_code(a: Seq<Seq<char>>) -> int {
    if a.len() >= 2 && a[1] == "detect"@ {
        0
    } else if a.len() >= 3 && a[1] == "analyze-log"@ {
        1
    } else if a.len() >= 3 && a[1] == "analyze-bundle"@ {
        2
    } else if a.len() >= 2 && a[1] == "collect"@ {
        3
    } else if a.len() < 2 || a[1] != "scan"@ {
        4
    } else {
        5
    }
}

/// The code of a command, as [`command_code`] numbers them.
pub open spec fn code_of(c: Command) -> int {
    match c {
        Command::Detect => 0,
        Command::AnalyzeLog(_) => 1,
        Command::AnalyzeBundle(_) => 2,
        Command::Collect(_) => 3,
        Command::Usage => 4,
        Command::Scan(_) => 5,
    }
}

/// The path argument of a command, where it has one.
pub open spec fn command_path(c: Command) -> Option<Seq<char>> {
    match c {
        Command::AnalyzeLog(p) => Some(p@),
        Command::AnalyzeBundle(p) => Some(p@),
        Command::Collect(Some(p)) => Some(p@),
        Command::Scan(Some(p)) => Some(p@),
        _ => None,
    }
}

/// The command the arguments ask for: `detect`, `analyze-log <log>`,
/// `analyze-bundle <folder>`, `collect [folder]`, `scan [folder]`; anything
/// else asks for the usage text.
pub fn choose_command(args: &Vec<String>) -> (r: Command)
    ensures
        code_of(r) == command_code(string_views(args@)),
        command_path(r) == (if args.len() >= 3 && code_of(r) != 0 && code_of(r) != 4 {
            Some(string_views(args@)[2])
        } else {
            None
        }),
        scans(string_views(args@)) ==> (r matches Command::Scan(p) && match p {
            Some(s) => args.len() >= 3 && s@ == string_views(args@)[2],
            None => args.len() < 3,
        }),
        r is Usage <==> !names_command(string_views(args@)),
{
    proof {
        law_scan_and_usage(string_views(args@));
    }
    let n = args.len();
    if n >= 2 && crate::text::string_is(&args[1], "detect") {
        Command::Detect
    } else if n >= 3 && crate::text::string_is(&args[1], "analyze-log") {
        Command::AnalyzeLog(copy_string(&args[2]))
    } else if n >= 3 && crate::text::string_is(&args[1], "analyze-bundle") {
        Command::AnalyzeBundle(copy_string(&args[2]))
    } else if n >= 2 && crate::text::string_is(&args[1], "collect") {
        Command::Collect(if n >= 3 { Some(copy_string(&args[2])) } else { None })
    } else if n < 2 || !crate::text::string_is(&args[1], "scan") {
        Command::Usage
    } else {
        Command::Scan(if n >= 3 { Some(copy_string(&args[2])) } else { None })
    }
}

/// The second word is `scan`.
pub open spec fn scans(a: Seq<Seq<char>>) -> bool {
    a.len() >= 2 && a[1] == "scan"@
}

/// The second word names a command that can act: `detect`, `collect` or
/// `scan`, or `analyze-log` or `analyze-bundle` with a third word.
pub open spec fn names_command(a: Seq<Seq<char>>) -> bool {
    a.len() >= 2 && (a[1] == "detect"@ || a[1] == "collect"@ || a[1] == "scan"@ || (a.len() >= 3
        && (a[1] == "analyze-log"@ || a[1] == "analyze-bundle"@)))
}

/// `scan` always scans, whether or not a folder follows it; each command
/// word chooses its command; the usage text is chosen exactly when the words
/// name no command that can act.
pub proof fn law_scan_and_usage(a: Seq<Seq<char>>)
    ensures
        scans(a) ==> command_code(a) == 5,
        command_code(a) == 4 <==> !names_command(a),
        a.len() >= 2 && a[1] == "detect"@ ==> command_code(a) == 0,
        a.len() >= 3 && a[1] == "analyze-log"@ ==> command_code(a) == 1,
        a.len() >= 3 && a[1] == "analyze-bundle"@ ==> command_code(a) == 2,
        a.len() >= 2 && a[1] == "collect"@ ==> command_code(a) == 3,
{
    reveal_strlit("scan");
    reveal_strlit("detect");
    reveal_strlit("collect");
    reveal_strlit("analyze-log");
    reveal_strlit("analyze-bundle");
    assert("scan"@ != "detect"@) by {
        assert("scan"@.len() != "detect"@.len());
    }
    assert("scan"@ != "collect"@) by {
        assert("scan"@.len() != "collect"@.len());
    }
    assert("scan"@ != "analyze-log"@) by {
        assert("scan"@.len() != "analyze-log"@.len());
    }
    assert("scan"@ != "analyze-bundle"@) by {
        assert("scan"@.len() != "analyze-bundle"@.len());
    }
    assert("detect"@ != "analyze-log"@ && "detect"@ != "analyze-bundle"@ && "detect"@ != "collect"@)
        by {
        assert("detect"@.len() != "analyze-log"@.len());
        assert("detect"@.len() != "analyze-bundle"@.len());
        assert("detect"@.len() != "collect"@.len());
    }
    assert("analyze-log"@ != "analyze-bundle"@ && "analyze-log"@ != "collect"@) by {
        assert("analyze-log"@.len() != "analyze-bundle"@.len());
        assert("analyze-log"@.len() != "collect"@.len());
    }
    assert("analyze-bundle"@ != "collect"@) by {
        assert("analyze-bundle"@.len() != "collect"@.len());
    }
}

} // verus!
