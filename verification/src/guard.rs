//! A guard before the compiler: builds that only look at the code or test it have to
//! come through the runner.
use vstd::prelude::*;
use vstd::string::*;
use crate::text::{chars_of, contains_text, occurs_at, occurs_in, same_text, stands_at};

verus! {

/// The variable by which the runner lets builds through.
pub const XRUNNER_TOKEN_ENV: &'static str = "VELOQ_XRUNNER_GUARD";

/// The variable by which the launcher lets the guard run.
pub const GUARD_LAUNCHER_TOKEN_ENV: &'static str = "VELOQ_GUARD_FROM_LAUNCHER";

/// What the guard decides.
#[derive(Debug, Clone, Copy, PartialEq, Eq, Structural)]
pub enum Verdict {
    /// There is nothing to run.
    MissingArgument,
    /// The guard was only asked whether it is there.
    Warmup,
    /// It was not called by the launcher.
    NotFromLauncher,
    /// The build did not come through the runner.
    NotFromRunner,
    /// Run the compiler.
    Run,
}

/// What is said of a refusal.
pub fn refusal(verdict: Verdict) -> (s: Option<&'static str>)
    ensures
        match verdict {
            Verdict::MissingArgument => s matches Some(t) && t@ == "[rustc-guard] 缺少参数"@,
            Verdict::NotFromLauncher => s matches Some(t) && t@
                == "[rustc-guard] 禁止直接执行 rustc-guard 可执行文件。请通过 cargo xcheck-*/xclippy-*/xtest-* 触发。"@,
            Verdict::NotFromRunner => s matches Some(t) && t@
                == "[rustc-guard] 检测到直接调用 cargo check/clippy/test，被策略拒绝。请使用 cargo xcheck-*/xclippy-*/xtest-*。"@,
            _ => s is None,
        },
{
    match verdict {
        Verdict::MissingArgument => Some("[rustc-guard] 缺少参数"),
        Verdict::NotFromLauncher => Some(
            "[rustc-guard] 禁止直接执行 rustc-guard 可执行文件。请通过 cargo xcheck-*/xclippy-*/xtest-* 触发。",
        ),
        Verdict::NotFromRunner => Some(
            "[rustc-guard] 检测到直接调用 cargo check/clippy/test，被策略拒绝。请使用 cargo xcheck-*/xclippy-*/xtest-*。",
        ),
        _ => None,
    }
}

/// A token lets its bearer through: it is set, to `1`.
pub open spec fn token_set(token: Option<&str>) -> bool {
    token matches Some(t) && t@ == "1"@
}

/// Whether the build came through the runner.
pub fn from_xtest_runner(token: Option<&str>) -> (b: bool)
    ensures
        b == token_set(token),
{
    match token {
        Some(t) => same_text(t, "1"),
        None => false,
    }
}

/// Whether the launcher called the guard.
pub fn from_guard_launcher(token: Option<&str>) -> (b: bool)
    ensures
        b == token_set(token),
{
    match token {
        Some(t) => same_text(t, "1"),
        None => false,
    }
}

/// An ASCII letter in lower case; any other character as it is.
pub open spec fn lower_char(c: char) -> char {
    if 'A' <= c && c <= 'Z' {
        (c as int + 32) as char
    } else {
        c
    }
}

/// A text with its ASCII letters in lower case.
pub open spec fn lower(s: Seq<char>) -> Seq<char> {
    s.map_values(|c: char| lower_char(c))
}

fn lower_of(c: char) -> (r: char)
    ensures
        r == lower_char(c),
{
    if 'A' <= c && c <= 'Z' {
        let n: u32 = c as u32;
        let m: u8 = (n + 32) as u8;
        m as char
    } else {
        c
    }
}

/// Whether a program is the driver of clippy, by the name of its file.
pub fn is_clippy_driver(file_name: Option<&str>) -> (b: bool)
    ensures
        b == (file_name matches Some(name) && occurs_in(lower(name@), "clippy-driver"@)),
{
    let name = match file_name {
        Some(name) => chars_of(name),
        None => {
            return false;
        },
    };
    let mut low: Vec<char> = Vec::new();
    let mut i: usize = 0;
    while i < name.len()
        invariant
            i <= name@.len(),
            low@ == lower(name@.take(i as int)),
        decreases name@.len() - i,
    {
        low.push(lower_of(name[i]));
        assert(low@ =~= lower(name@.take(i + 1)));
        i = i + 1;
    }
    assert(name@.take(i as int) =~= name@);
    contains_text(&low, &chars_of("clippy-driver"))
}

/// Whether a flag is among the arguments.
pub fn has_flag(args: &Vec<String>, flag: &str) -> (b: bool)
    ensures
        b == (exists|i: int| 0 <= i < args@.len() && (#[trigger] args@[i])@ == flag@),
{
    let mut i: usize = 0;
    while i < args.len()
        invariant
            i <= args@.len(),
            forall|j: int| 0 <= j < i ==> (#[trigger] args@[j])@ != flag@,
        decreases args@.len() - i,
    {
        if same_text(args[i].as_str(), flag) {
            assert(args@[i as int]@ == flag@);
            return true;
        }
        i = i + 1;
    }
    false
}

/// A text without a prefix, however often it stands at the start.
pub open spec fn without_prefix(s: Seq<char>, prefix: Seq<char>) -> Seq<char>
    decreases s.len(),
{
    if prefix.len() > 0 && occurs_at(s, 0, prefix) {
        without_prefix(s.skip(prefix.len() as int), prefix)
    } else {
        s
    }
}

/// `item` is one of the pieces of `s` between commas.
pub open spec fn is_piece(s: Seq<char>, start: int, item: Seq<char>) -> bool {
    &&& occurs_at(s, start, item)
    &&& start == 0 || s[start - 1] == ','
    &&& start + item.len() == s.len() || s[start + item.len()] == ','
}

/// An argument says what to emit, and linking is not among it.
pub open spec fn emits_no_link(arg: Seq<char>) -> bool {
    &&& occurs_at(arg, 0, "--emit="@)
    &&& !(exists|start: int| #[trigger]
        is_piece(without_prefix(arg, "--emit="@), start, "link"@))
}

fn piece_at(s: &Vec<char>, start: usize, item: &Vec<char>) -> (b: bool)
    ensures
        b == is_piece(s@, start as int, item@),
{
    if !stands_at(s, start, item) {
        return false;
    }
    assert(start + item.len() <= s.len());
    let end: usize = start + item.len();
    (start == 0 || s[start - 1] == ',') && (end == s.len() || s[end] == ',')
}

fn says_no_link(arg: &str) -> (b: bool)
    ensures
        b == emits_no_link(arg@),
{
    let text = chars_of(arg);
    let prefix = chars_of("--emit=");
    let link = chars_of("link");
    proof {
        reveal_strlit("--emit=");
        reveal_strlit("link");
    }
    if !stands_at(&text, 0, &prefix) {
        return false;
    }
    let mut k: usize = 0;
    assert(text@.skip(0) =~= text@);
    while stands_at(&text, k, &prefix)
        invariant
            k <= text.len(),
            prefix@ == "--emit="@,
            prefix@.len() == 7,
            without_prefix(text@, prefix@) == without_prefix(text@.skip(k as int), prefix@),
        decreases text.len() - k,
    {
        proof {
            let rest = text@.skip(k as int);
            assert(rest.subrange(0, 7) =~= text@.subrange(k as int, k + 7));
            assert(occurs_at(rest, 0, prefix@));
            assert(rest.skip(7) =~= text@.skip(k + 7));
        }
        k = k + prefix.len();
    }
    let ghost rest = text@.skip(k as int);
    proof {
        if occurs_at(rest, 0, prefix@) {
            assert(text@.subrange(k as int, k + 7) =~= rest.subrange(0, 7));
        }
        assert(without_prefix(text@, prefix@) == rest);
    }
    let mut emits: Vec<char> = Vec::new();
    let mut i: usize = k;
    while i < text.len()
        invariant
            k <= i <= text@.len(),
            emits@ == text@.subrange(k as int, i as int),
        decreases text@.len() - i,
    {
        emits.push(text[i]);
        assert(emits@ =~= text@.subrange(k as int, i + 1));
        i = i + 1;
    }
    assert(emits@ =~= rest);
    let mut start: usize = 0;
    while start < emits.len()
        invariant
            start <= emits@.len(),
            forall|j: int| 0 <= j < start ==> !#[trigger] is_piece(emits@, j, link@),
            emits@ == without_prefix(arg@, "--emit="@),
            link@ == "link"@,
        decreases emits@.len() - start,
    {
        if piece_at(&emits, start, &link) {
            assert(is_piece(without_prefix(arg@, "--emit="@), start as int, "link"@));
            return false;
        }
        start = start + 1;
    }
    assert(link@.len() == 4);
    true
}

/// Whether some argument says what to emit, without linking.
pub fn emit_without_link(args: &Vec<String>) -> (b: bool)
    ensures
        b == (exists|i: int| 0 <= i < args@.len() && emits_no_link((#[trigger] args@[i])@)),
{
    let mut i: usize = 0;
    while i < args.len()
        invariant
            i <= args@.len(),
            forall|j: int| 0 <= j < i ==> !emits_no_link((#[trigger] args@[j])@),
        decreases args@.len() - i,
    {
        if says_no_link(args[i].as_str()) {
            assert(emits_no_link(args@[i as int]@));
            return true;
        }
        i = i + 1;
    }
    false
}

/// A call of the compiler looks at the code only, or tests it.
pub open spec fn is_forbidden(file_name: Option<&str>, args: Seq<String>) -> bool {
    ||| file_name matches Some(name) && occurs_in(lower(name@), "clippy-driver"@)
    ||| exists|i: int| 0 <= i < args.len() && (#[trigger] args[i])@ == "--test"@
    ||| exists|i: int| 0 <= i < args.len() && emits_no_link((#[trigger] args[i])@)
}

/// Whether a call of the compiler looks at the code only, or tests it.
pub fn is_forbidden_direct_invocation(file_name: Option<&str>, args: &Vec<String>) -> (b: bool)
    ensures
        b == is_forbidden(file_name, args@),
{
    if is_clippy_driver(file_name) {
        return true;
    }
    if has_flag(args, "--test") {
        return true;
    }
    emit_without_link(args)
}

/// What the guard decides on its command line: `first_arg` is the compiler to run,
/// `file_name` the name of its file, and `args` are its arguments.
pub fn judge(
    first_arg: Option<&str>,
    file_name: Option<&str>,
    args: &Vec<String>,
    launcher_token: Option<&str>,
    runner_token: Option<&str>,
) -> (v: Verdict)
    ensures
        v == (match first_arg {
            None => Verdict::MissingArgument,
            Some(first) => if first@ == "--warmup"@ {
                Verdict::Warmup
            } else if !token_set(launcher_token) {
                Verdict::NotFromLauncher
            } else if is_forbidden(file_name, args@) && !token_set(runner_token) {
                Verdict::NotFromRunner
            } else {
                Verdict::Run
            },
        }),
{
    let first = match first_arg {
        Some(first) => first,
        None => {
            return Verdict::MissingArgument;
        },
    };
    if same_text(first, "--warmup") {
        return Verdict::Warmup;
    }
    if !from_guard_launcher(launcher_token) {
        return Verdict::NotFromLauncher;
    }
    if is_forbidden_direct_invocation(file_name, args) && !from_xtest_runner(runner_token) {
        return Verdict::NotFromRunner;
    }
    Verdict::Run
}

/// The guard refuses no call for more than what it looks for: more arguments never make a
/// forbidden call allowed, and a call whose arguments say nothing of testing or of what to emit
/// is allowed unless clippy makes it.
pub proof fn more_arguments_never_help(
    file_name: Option<&str>,
    args: Seq<String>,
    more: Seq<String>,
)
    ensures
        is_forbidden(file_name, args) ==> is_forbidden(file_name, args + more),
        is_forbidden(file_name, more) ==> is_forbidden(file_name, args + more),
        is_forbidden(file_name, args + more) ==> is_forbidden(file_name, args) || is_forbidden(
            file_name,
            more,
        ),
{
    let all = args + more;
    if exists|i: int| 0 <= i < args.len() && (#[trigger] args[i])@ == "--test"@ {
        let i = choose|i: int| 0 <= i < args.len() && (#[trigger] args[i])@ == "--test"@;
        assert(all[i]@ == "--test"@);
    }
    if exists|i: int| 0 <= i < args.len() && emits_no_link((#[trigger] args[i])@) {
        let i = choose|i: int| 0 <= i < args.len() && emits_no_link((#[trigger] args[i])@);
        assert(emits_no_link(all[i]@));
    }
    if exists|i: int| 0 <= i < more.len() && (#[trigger] more[i])@ == "--test"@ {
        let i = choose|i: int| 0 <= i < more.len() && (#[trigger] more[i])@ == "--test"@;
        assert(all[args.len() + i]@ == "--test"@);
    }
    if exists|i: int| 0 <= i < more.len() && emits_no_link((#[trigger] more[i])@) {
        let i = choose|i: int| 0 <= i < more.len() && emits_no_link((#[trigger] more[i])@);
        assert(emits_no_link(all[args.len() + i]@));
    }
    if is_forbidden(file_name, all) && !is_forbidden(file_name, args) {
        if exists|i: int| 0 <= i < all.len() && (#[trigger] all[i])@ == "--test"@ {
            let i = choose|i: int| 0 <= i < all.len() && (#[trigger] all[i])@ == "--test"@;
            if i < args.len() {
                assert(args[i]@ == "--test"@);
            } else {
                assert(more[i - args.len()]@ == "--test"@);
            }
        } else if exists|i: int| 0 <= i < all.len() && emits_no_link((#[trigger] all[i])@) {
            let i = choose|i: int| 0 <= i < all.len() && emits_no_link((#[trigger] all[i])@);
            if i < args.len() {
                assert(emits_no_link(args[i]@));
            } else {
                assert(emits_no_link(more[i - args.len()]@));
            }
        }
    }
}

/// Tests are forbidden: a call with the flag `--test` among its arguments, wherever it stands.
pub proof fn tests_are_forbidden(file_name: Option<&str>, args: Seq<String>, i: int)
    requires
        0 <= i < args.len(),
        args[i]@ == "--test"@,
    ensures
        is_forbidden(file_name, args),
{
}

/// Clippy is known by the name of its file, whatever the case of its letters and whatever
/// stands around it.
pub proof fn clippy_is_known_in_any_case(name: &str, other: &str, args: Seq<String>)
    requires
        name@.len() == other@.len(),
        forall|i: int|
            0 <= i < name@.len() ==> lower_char(#[trigger] name@[i]) == lower_char(other@[i]),
    ensures
        is_forbidden(Some(name), args) == is_forbidden(Some(other), args),
        occurs_in(name@, "clippy-driver"@) ==> is_forbidden(Some(name), args),
{
    assert(lower(name@) =~= lower(other@));
    if occurs_in(name@, "clippy-driver"@) {
        reveal_strlit("clippy-driver");
        let pattern = "clippy-driver"@;
        let k = choose|k: int| #[trigger] occurs_at(name@, k, pattern);
        assert(pattern =~= lower(pattern));
        assert(lower(name@).subrange(k, k + pattern.len()) =~= lower(
            name@.subrange(k, k + pattern.len()),
        ));
        assert(occurs_at(lower(name@), k, pattern));
    }
}

/// The letters from A to Z have the letters from a to z for their lower case, in order, and no
/// other character changes.
pub proof fn only_capitals_are_lowered(c: char)
    ensures
        65 <= c as int <= 90 ==> lower_char(c) as int == c as int + 32,
        (c as int) < 65 || (c as int) > 90 ==> lower_char(c) == c,
{
}

/// A call that says what to emit is allowed exactly if one of the kinds it lists, with commas
/// between them, is `link`.
pub proof fn emitting_without_linking_is_forbidden(
    arg: Seq<char>,
    kinds: Seq<char>,
    before: Seq<char>,
    after: Seq<char>,
)
    requires
        arg == "--emit="@ + kinds,
        !occurs_at(kinds, 0, "--emit="@),
    ensures
        emits_no_link(arg) ==> !(kinds == before + "link"@ + after && (before.len() == 0
            || before.last() == ',') && (after.len() == 0 || after[0] == ',')),
        !emits_no_link(arg) ==> exists|b: Seq<char>, a: Seq<char>|
            kinds == #[trigger] (b + "link"@ + a) && (b.len() == 0 || b.last() == ',') && (a.len()
                == 0 || a[0] == ','),
{
    reveal_strlit("--emit=");
    reveal_strlit("link");
    let prefix = "--emit="@;
    let link = "link"@;
    assert(arg.subrange(0, 7) =~= prefix);
    assert(arg.skip(7) =~= kinds);
    assert(without_prefix(arg, prefix) == without_prefix(kinds, prefix));
    assert(without_prefix(kinds, prefix) == kinds);
    if kinds == before + link + after && (before.len() == 0 || before.last() == ',') && (after.len()
        == 0 || after[0] == ',') {
        let at = before.len() as int;
        assert(kinds.subrange(at, at + 4) =~= link);
        if at > 0 {
            assert(kinds[at - 1] == before.last());
        }
        if after.len() > 0 {
            assert(kinds[at + 4] == after[0]);
        }
        assert(is_piece(kinds, at, link));
    }
    if !emits_no_link(arg) {
        let at = choose|start: int| #[trigger] is_piece(without_prefix(arg, prefix), start, link);
        let b = kinds.take(at);
        let a = kinds.skip(at + 4);
        assert(kinds =~= b + kinds.subrange(at, at + 4) + a);
        assert(kinds == b + link + a);
    }
}

/// A token that lets its bearer through.
pub open spec fn lets_through(token: Option<&str>) -> bool {
    match token {
        Some(t) => t@ == "1"@,
        None => false,
    }
}

/// The compiler runs only when the launcher called the guard, and then always if the build
/// came through the runner. A build that did not is stopped where it is forbidden, and only
/// there. Whoever only asks whether the guard is there gets an answer without any token.
pub proof fn the_compiler_runs_for_those_let_through(
    first: Option<&str>,
    file_name: Option<&str>,
    args: &Vec<String>,
    launcher: Option<&str>,
    runner: Option<&str>,
    v: Verdict,
)
    requires
        call_ensures(judge, (first, file_name, args, launcher, runner), v),
    ensures
        v is Run ==> first is Some && lets_through(launcher) && (is_forbidden(file_name, args@)
            ==> lets_through(runner)),
        v is Warmup <==> (first matches Some(f) && f@ == "--warmup"@),
        v is MissingArgument <==> first is None,
        first matches Some(f) ==> (f@ != "--warmup"@ && lets_through(launcher) && lets_through(
            runner,
        ) ==> v is Run),
        first matches Some(f) ==> (f@ != "--warmup"@ && lets_through(launcher) && !is_forbidden(
            file_name,
            args@,
        ) ==> v is Run),
        first matches Some(f) ==> (f@ != "--warmup"@ && !lets_through(launcher)
            ==> v is NotFromLauncher),
        v is NotFromRunner ==> is_forbidden(file_name, args@) && !lets_through(runner),
{
}

} // verus!
