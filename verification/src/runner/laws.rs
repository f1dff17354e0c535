//! What holds of the commands of a run and of what they are made from.
use vstd::prelude::*;
use crate::text::{digit_char, digits, joined, occurs_in, texts};
use super::command::{CommandSpec, DockerComposeVariant};
use super::config::{
    is_count, is_digit, number_of, parse_count, unsigned_part, Config, Target, Task,
};
use super::error::RunnerError;
use super::plan::{
    container_words, determine_mode, linux_args, proxied_words, slice_of, warmup_words,
    windows_args, workspace_root, Host, RoundStep, RunMode, Runner, Step,
};
use super::targets::{
    best_target, has_rust_target, line_len, lines, named_targets, trimmed, trimmed_end, trimmed_start,
    whitespace,
};

verus! {

/// The words `a` and `b` stand next to each other among `words`.
pub open spec fn next_to(words: Seq<Seq<char>>, a: Seq<char>, b: Seq<char>) -> bool {
    exists|k: int| 0 <= k < words.len() - 1 && #[trigger] words[k] == a && words[k + 1] == b
}

/// Each task asks cargo for what it is named after, with the features of the run right behind
/// their flag: tests through nextest, all of them, one at a time; lints with every warning an
/// error.
pub proof fn tasks_ask_for_what_they_are_named_after(
    task: Task,
    features: Option<&str>,
    target: Option<&str>,
    args: Seq<Seq<char>>,
)
    requires
        args == linux_args(task, features) || args == windows_args(task, features, target),
    ensures
        args.len() > 0,
        task == Task::Test ==> args[0] == "nextest"@ && args[1] == "run"@ && next_to(
            args,
            "--test-threads"@,
            "1"@,
        ) && next_to(args, "--run-ignored"@, "all"@) && args.contains("--workspace"@),
        task == Task::Clippy ==> args[0] == "clippy"@ && args.contains("--all-targets"@)
            && args.len() >= 3 && args[args.len() - 3] == "--"@ && args[args.len() - 2] == "-D"@
            && args.last() == "warnings"@,
        task == Task::Check ==> args[0] == "check"@,
        features matches Some(f) ==> next_to(args, "--features"@, f@),
{
    let at: int = if task == Task::Test {
        2
    } else {
        1
    };
    if let Some(f) = features {
        assert(args[at] == "--features"@ && args[at + 1] == f@);
    }
    let rest: int = if features is Some {
        at + 2
    } else {
        at
    };
    if task == Task::Test {
        assert(args[rest] == "--workspace"@);
        assert(args[rest + 3] == "--test-threads"@ && args[rest + 4] == "1"@);
        assert(args[rest + 5] == "--run-ignored"@ && args[rest + 6] == "all"@);
    }
    if task == Task::Clippy {
        assert(args[rest] == "--all-targets"@);
    }
}

/// Tests leave out the driver of the other platform and no other: on Linux the one for
/// Windows, on Windows the one for Linux. That is the only difference.
pub proof fn tests_leave_out_the_other_driver(
    features: Option<&str>,
    target: Option<&str>,
    k: int,
)
    ensures
        next_to(linux_args(Task::Test, features), "--exclude"@, "veloq-driver-iocp"@),
        next_to(windows_args(Task::Test, features, target), "--exclude"@, "veloq-driver-uring"@),
        linux_args(Task::Test, features).len() == windows_args(Task::Test, features, target).len(),
        0 <= k < linux_args(Task::Test, features).len() && linux_args(Task::Test, features)[k]
            != "veloq-driver-iocp"@ ==> windows_args(Task::Test, features, target)[k] == linux_args(
            Task::Test,
            features,
        )[k],
{
    let at: int = if features is Some {
        5
    } else {
        3
    };
    let l = linux_args(Task::Test, features);
    let w = windows_args(Task::Test, features, target);
    assert(l[at] == "--exclude"@ && l[at + 1] == "veloq-driver-iocp"@);
    assert(w[at] == "--exclude"@ && w[at + 1] == "veloq-driver-uring"@);
}

/// Lints and checks for Windows are those for Linux, and name the target right behind its
/// flag when there is one.
pub proof fn other_targets_are_named(task: Task, features: Option<&str>, target: Option<&str>)
    requires
        task != Task::Test,
    ensures
        target is None ==> windows_args(task, features, target) == linux_args(task, features),
        target matches Some(t) ==> next_to(windows_args(task, features, target), "--target"@, t@)
            && windows_args(task, features, target).len() == linux_args(task, features).len() + 2,
{
    let w = windows_args(task, features, target);
    if target is None {
        assert(w =~= linux_args(task, features));
    } else {
        let at: int = (if features is Some {
            3int
        } else {
            1int
        }) + (if task == Task::Clippy {
            1int
        } else {
            0int
        });
        assert(w[at] == "--target"@ && w[at + 1] == target->Some_0@);
    }
}

/// What is built before the first round is what the rounds run: the same command, told not to
/// run anything.
pub proof fn what_is_built_first_is_what_runs(
    runner: Runner,
    build: CommandSpec,
    run: CommandSpec,
)
    requires
        runner.calls_cargo(&build, Task::Test, seq!["--no-run"@]),
        runner.calls_cargo(&run, Task::Test, Seq::empty()),
    ensures
        build.program@ == run.program@,
        build.program@ == "cargo"@,
        texts(build.args@) == texts(run.args@).push("--no-run"@),
        build.envs@.len() == 0 && run.envs@.len() == 0,
{
    let (f, t) = choose|f: Option<&str>, t: Option<&str>| #[trigger]
        runner.names(f, t) && build.calls(
            "cargo"@,
            match runner.config.target {
                Target::Linux => linux_args(Task::Test, f),
                Target::Windows => windows_args(Task::Test, f, t),
            } + seq!["--no-run"@],
        );
    let (g, u) = choose|f: Option<&str>, t: Option<&str>| #[trigger]
        runner.names(f, t) && run.calls(
            "cargo"@,
            match runner.config.target {
                Target::Linux => linux_args(Task::Test, f),
                Target::Windows => windows_args(Task::Test, f, t),
            } + Seq::empty(),
        );
    assert(linux_args(Task::Test, f) =~= linux_args(Task::Test, g));
    assert(windows_args(Task::Test, f, t) =~= windows_args(Task::Test, g, u));
    assert(texts(build.args@) =~= texts(run.args@).push("--no-run"@));
}

/// A run that is handed over calls the runner there: the package of the runner, with what
/// follows a double dash going to it. It is built for the target named, or for GNU's without
/// one.
pub proof fn runs_are_handed_to_the_runner(
    target: Option<Seq<char>>,
    variant: DockerComposeVariant,
    own: Seq<Seq<char>>,
)
    ensures
        next_to(proxied_words(target), "-p"@, "xtest-runner"@),
        next_to(container_words(variant), "-p"@, "xtest-runner"@),
        proxied_words(target).last() == "--"@,
        container_words(variant).last() == "--"@,
        target matches Some(t) ==> next_to(proxied_words(target), "--target"@, t),
        target is None ==> next_to(proxied_words(target), "--target"@, "x86_64-pc-windows-gnu"@),
        proxied_words(target)[0] == "run"@,
        container_words(variant)[0] == (if variant is Plugin {
            "compose"@
        } else {
            "run"@
        }),
        container_words(DockerComposeVariant::Plugin) == seq!["compose"@] + container_words(
            DockerComposeVariant::Standalone,
        ),
        next_to(container_words(variant), "cargo"@, "run"@),
        (proxied_words(target) + own).skip(6) == own,
{
    let p = proxied_words(target);
    assert(p[3] == "-p"@ && p[4] == "xtest-runner"@);
    assert(p[1] == "--target"@);
    let c = container_words(variant);
    let at: int = if variant is Plugin {
        1
    } else {
        0
    };
    assert(c[at + 6] == "-p"@ && c[at + 7] == "xtest-runner"@);
    assert(c[at + 3] == "cargo"@ && c[at + 4] == "run"@);
    assert(container_words(DockerComposeVariant::Plugin) =~= seq!["compose"@] + container_words(
        DockerComposeVariant::Standalone,
    ));
    assert((p + own).skip(6) =~= own);
}

/// The compile tests are warmed up by running that test of the runtime, and no other.
pub proof fn warming_up_runs_the_compile_tests()
    ensures
        warmup_words()[0] == "test"@,
        next_to(warmup_words(), "-p"@, "veloq-runtime"@),
        next_to(warmup_words(), "--test"@, "compile_tests"@),
        warmup_words().last() == "--exact"@,
{
    let w = warmup_words();
    assert(w[1] == "-p"@ && w[2] == "veloq-runtime"@);
    assert(w[3] == "--test"@ && w[4] == "compile_tests"@);
}

/// How often to run can be written in decimal: the digits of a number are read as that number,
/// with or without a plus sign before them.
pub proof fn counts_are_read_as_written(n: usize)
    ensures
        is_count(digits(n as nat)),
        number_of(unsigned_part(digits(n as nat))) == n,
        is_count(seq!['+'] + digits(n as nat)),
        number_of(unsigned_part(seq!['+'] + digits(n as nat))) == n,
{
    let d = digits(n as nat);
    digits_are_read(n as nat);
    assert(is_digit(d[0]));
    assert(unsigned_part(d) == d);
    assert(unsigned_part(seq!['+'] + d) =~= d);
}

/// The digits of a number are digits, and spell it out.
proof fn digits_are_read(n: nat)
    ensures
        digits(n).len() > 0,
        forall|i: int| 0 <= i < digits(n).len() ==> is_digit(#[trigger] digits(n)[i]),
        number_of(digits(n)) == n,
    decreases n,
{
    let d = digits(n);
    if n < 10 {
        assert(d.drop_last() =~= Seq::<char>::empty());
        assert(d.last() == digit_char(n as int));
        assert(number_of(d.drop_last()) == 0);
    } else {
        digits_are_read(n / 10);
        assert(d.drop_last() =~= digits(n / 10));
        assert(d.last() == digit_char((n % 10) as int));
    }
}

/// A text is trimmed of all whitespace around it, and of nothing else.
pub proof fn trimming_takes_whitespace_alone(s: Seq<char>)
    ensures
        trimmed(s).len() > 0 ==> !whitespace(trimmed(s)[0]) && !whitespace(trimmed(s).last()),
        exists|a: int, b: int|
            0 <= a <= b <= s.len() && trimmed(s) == #[trigger] s.subrange(a, b) && (forall|k: int|
                0 <= k < a || b <= k < s.len() ==> whitespace(#[trigger] s[k])),
{
    let m = trimmed_start(s);
    start_is_trimmed(s);
    end_is_trimmed(m);
    let a = choose|a: int|
        0 <= a <= s.len() && m == #[trigger] s.skip(a) && (forall|k: int|
            0 <= k < a ==> whitespace(#[trigger] s[k]));
    let n = choose|n: int|
        0 <= n <= m.len() && trimmed_end(m) == #[trigger] m.take(n) && (forall|k: int|
            n <= k < m.len() ==> whitespace(#[trigger] m[k]));
    assert(m.take(n) =~= s.subrange(a, a + n));
    assert forall|k: int| 0 <= k < a || a + n <= k < s.len() implies whitespace(#[trigger] s[k]) by {
        if k >= a {
            assert(m[k - a] == s[k]);
        }
    }
    if n > 0 {
        assert(trimmed(s)[0] == m[0]);
    }
}

proof fn start_is_trimmed(s: Seq<char>)
    ensures
        trimmed_start(s).len() > 0 ==> !whitespace(trimmed_start(s)[0]),
        exists|a: int|
            0 <= a <= s.len() && trimmed_start(s) == #[trigger] s.skip(a) && (forall|k: int|
                0 <= k < a ==> whitespace(#[trigger] s[k])),
    decreases s.len(),
{
    if s.len() > 0 && whitespace(s[0]) {
        let r = s.skip(1);
        start_is_trimmed(r);
        let a = choose|a: int|
            0 <= a <= r.len() && trimmed_start(r) == #[trigger] r.skip(a) && (forall|k: int|
                0 <= k < a ==> whitespace(#[trigger] r[k]));
        assert(r.skip(a) =~= s.skip(a + 1));
        assert forall|k: int| 0 <= k < a + 1 implies whitespace(#[trigger] s[k]) by {
            if k > 0 {
                assert(r[k - 1] == s[k]);
            }
        }
    } else {
        assert(s.skip(0) =~= s);
    }
}

proof fn end_is_trimmed(s: Seq<char>)
    ensures
        trimmed_end(s).len() > 0 ==> !whitespace(trimmed_end(s).last()),
        exists|n: int|
            0 <= n <= s.len() && trimmed_end(s) == #[trigger] s.take(n) && (forall|k: int|
                n <= k < s.len() ==> whitespace(#[trigger] s[k])),
    decreases s.len(),
{
    if s.len() > 0 && whitespace(s.last()) {
        let r = s.drop_last();
        end_is_trimmed(r);
        let n = choose|n: int|
            0 <= n <= r.len() && trimmed_end(r) == #[trigger] r.take(n) && (forall|k: int|
                n <= k < r.len() ==> whitespace(#[trigger] r[k]));
        assert(r.take(n) =~= s.take(n));
        assert forall|k: int| n <= k < s.len() implies whitespace(#[trigger] s[k]) by {
            if k < r.len() {
                assert(r[k] == s[k]);
            }
        }
    } else {
        assert(s.take(s.len() as int) =~= s);
    }
}

/// A list names one target on each line: what stands before the first line break is the first
/// one, and the rest of the list names the others.
pub proof fn each_line_names_a_target(line: Seq<char>, rest: Seq<char>)
    requires
        forall|i: int| 0 <= i < line.len() ==> #[trigger] line[i] != '\n',
    ensures
        named_targets(line + seq!['\n'] + rest) == seq![trimmed(line)] + named_targets(rest),
        line.len() > 0 ==> named_targets(line) == seq![trimmed(line)],
        named_targets(Seq::<char>::empty()).len() == 0,
{
    let s = line + seq!['\n'] + rest;
    line_ends_at_break(line, rest);
    assert(s.take(line.len() as int) =~= line);
    assert(s.skip(line.len() as int + 1) =~= rest);
    assert(lines(s) =~= seq![line] + lines(rest));
    assert(named_targets(s) =~= seq![trimmed(line)] + named_targets(rest));
    if line.len() > 0 {
        line_without_break(line);
        assert(lines(line) =~= seq![line]);
        assert(named_targets(line) =~= seq![trimmed(line)]);
    }
}

proof fn line_ends_at_break(line: Seq<char>, rest: Seq<char>)
    requires
        forall|i: int| 0 <= i < line.len() ==> #[trigger] line[i] != '\n',
    ensures
        line_len(line + seq!['\n'] + rest) == line.len(),
    decreases line.len(),
{
    let s = line + seq!['\n'] + rest;
    if line.len() > 0 {
        assert(s[0] == line[0]);
        let tail = line.skip(1);
        assert(s.skip(1) =~= tail + seq!['\n'] + rest);
        line_ends_at_break(tail, rest);
    } else {
        assert(s[0] == '\n');
    }
}

proof fn line_without_break(line: Seq<char>)
    requires
        forall|i: int| 0 <= i < line.len() ==> #[trigger] line[i] != '\n',
    ensures
        line_len(line) == line.len(),
    decreases line.len(),
{
    if line.len() > 0 {
        assert(line[0] != '\n');
        line_without_break(line.skip(1));
    }
}

/// The target for Windows is one of the list whenever the list names one for Windows, and
/// GNU's otherwise. Microsoft's comes before all others, and GNU's before all but that.
pub proof fn the_best_target_of_the_list_is_used(list: Seq<Seq<char>>, name: Seq<char>, i: int)
    requires
        best_target(list, name),
        0 <= i < list.len(),
    ensures
        list[i] == "x86_64-pc-windows-msvc"@ ==> name == "x86_64-pc-windows-msvc"@,
        list[i] == "x86_64-pc-windows-gnu"@ && name != "x86_64-pc-windows-gnu"@ ==> name
            == "x86_64-pc-windows-msvc"@ && list.contains("x86_64-pc-windows-msvc"@),
        occurs_in(list[i], "-windows-"@) ==> list.contains(name),
        !list.contains(name) ==> name == "x86_64-pc-windows-gnu"@,
{
    assert(list.contains(list[i]));
}

/// A command that is shown holds its program and every argument, in order, with one space
/// between them.
pub proof fn commands_are_shown_word_by_word(c: CommandSpec)
    requires
        c.envs@.len() == 0,
    ensures
        c.shown() == joined(seq![c.program@] + texts(c.args@), " "@),
{
    let words = seq![c.program@] + texts(c.args@);
    joined_starts_with_first(c.program@, texts(c.args@));
    assert(texts(c.args@).len() == c.args@.len());
}

proof fn joined_starts_with_first(first: Seq<char>, rest: Seq<Seq<char>>)
    ensures
        joined(seq![first] + rest, " "@) == (if rest.len() == 0 {
            first
        } else {
            first + " "@ + joined(rest, " "@)
        }),
    decreases rest.len(),
{
    let all = seq![first] + rest;
    if rest.len() > 0 {
        let front = rest.drop_last();
        joined_starts_with_first(first, front);
        assert(all.drop_last() =~= seq![first] + front);
        assert(all.last() == rest.last());
        if front.len() > 0 {
            assert(joined(all, " "@) =~= first + " "@ + joined(rest, " "@));
        } else {
            assert(joined(rest, " "@) == rest[0]);
        }
    }
}

/// Words that are joined follow each other with the separator between them.
pub proof fn joined_words_are_separated(
    list: Seq<Seq<char>>,
    word: Seq<char>,
    between: Seq<char>,
)
    ensures
        list.len() > 0 ==> joined(list.push(word), between) == joined(list, between) + between
            + word,
        list.len() == 0 ==> joined(list.push(word), between) == word,
{
    assert(list.push(word).drop_last() =~= list);
}

/// A count that is read is what its digits say, and never 0; what is no number is refused, and
/// so is 0.
pub proof fn counts_are_at_least_one(input: &str, r: Result<usize, RunnerError>, n: usize, k: int)
    requires
        call_ensures(parse_count, (input,), r),
    ensures
        input@ == digits(n as nat) && n > 0 ==> (r matches Ok(m) && m == n),
        input@ == digits(0) ==> r is Err,
        r matches Ok(m) ==> m > 0,
        0 <= k < input@.len() && !is_digit(input@[k]) && (k > 0 || input@[k] != '+') ==> r is Err,
        input@.len() == 0 ==> r is Err,
{
    counts_are_read_as_written(n);
    counts_are_read_as_written(0);
    if 0 <= k < input@.len() && !is_digit(input@[k]) && (k > 0 || input@[k] != '+') {
        let d = unsigned_part(input@);
        if input@[0] == '+' {
            assert(d[k - 1] == input@[k]);
        } else {
            assert(d[k] == input@[k]);
        }
    }
}

/// A run goes round by round, each number once, up to the count of the configuration, and ends
/// there; the first failure ends it. A run for another target happens once.
pub proof fn runs_go_round_by_round(
    runner: &Runner,
    done: usize,
    last: Result<(), RunnerError>,
    s: RoundStep,
)
    requires
        call_ensures(Runner::next_round, (runner, done, last), s),
    ensures
        s matches RoundStep::Round(n) ==> last is Ok && runner.mode is Native && n == done + 1 && n
            <= runner.config.count,
        s is Done ==> last is Ok && done >= 1 || (runner.mode is Native && runner.config.count == 0),
        s is Done && runner.mode is Native ==> done >= runner.config.count,
        s is Once ==> last is Ok && !(runner.mode is Native) && done == 0,
        last matches Err(e) ==> s == RoundStep::Failed(e),
        s is Failed ==> last is Err,
        last is Ok && runner.mode is Native && done < runner.config.count ==> s is Round,
        last is Ok && !(runner.mode is Native) && done == 0 ==> s is Once,
{
}

/// A run for another target is handed over with all the arguments of this one, at the end and
/// in order: to compose on Windows, and to cross on Linux. A run for the target of the host is
/// what cargo is asked for directly.
pub proof fn handed_over_runs_keep_their_arguments(
    runner: &Runner,
    own: &Vec<String>,
    c: CommandSpec,
)
    requires
        call_ensures(Runner::round_command, (runner, own), c),
    ensures
        runner.mode is WindowsOnLinux && runner.config.target == Target::Windows ==> c.program@
            == "cross"@ && texts(own@).is_suffix_of(texts(c.args@)),
        runner.mode is LinuxOnWindows && runner.config.target == Target::Linux ==> texts(
            own@,
        ).is_suffix_of(texts(c.args@)) && c.program@ == (if runner.mode->LinuxOnWindows_0 is Plugin {
            "docker"@
        } else {
            "docker-compose"@
        }),
        runner.mode is Native ==> c.program@ == "cargo"@ && c.envs@.len() == 0,
{
    if runner.mode is WindowsOnLinux && runner.config.target == Target::Windows {
        let words = proxied_words(slice_of(runner.windows_target));
        assert((words + texts(own@)).skip(words.len() as int) =~= texts(own@));
    }
    if runner.mode is LinuxOnWindows && runner.config.target == Target::Linux {
        let words = container_words(runner.mode->LinuxOnWindows_0);
        assert((words + texts(own@)).skip(words.len() as int) =~= texts(own@));
    }
}

/// A target is known to be installed exactly if a line of the list says so, whatever
/// whitespace stands around it. A list that could not be read tells nothing.
pub proof fn installed_targets_are_listed(
    target: &str,
    success: bool,
    list: &str,
    line: Seq<char>,
    rest: Seq<char>,
    r: Result<bool, RunnerError>,
)
    requires
        call_ensures(has_rust_target, (target, success, list), r),
        forall|i: int| 0 <= i < line.len() ==> #[trigger] line[i] != '\n',
        list@ == line + seq!['\n'] + rest,
    ensures
        !success ==> r is Err,
        success ==> r is Ok,
        r matches Ok(b) ==> (trimmed(line) == target@ ==> b) && (trimmed(line) != target@ ==> b
            == named_targets(rest).contains(target@)),
{
    each_line_names_a_target(line, rest);
    let all = named_targets(list@);
    let others = named_targets(rest);
    if trimmed(line) == target@ {
        assert(all[0] == target@);
    }
    if others.contains(target@) {
        let k = others.index_of(target@);
        assert(all[k + 1] == target@);
    }
    if all.contains(target@) && trimmed(line) != target@ {
        let k = all.index_of(target@);
        assert(others[k - 1] == target@);
    }
}

/// A run is for the target that was named, by a flag or by its place. It is refused when none
/// was named, and when two different ones were. What else was asked for is passed on; how often
/// is 20 times for tests and once for anything else, unless it was said.
pub proof fn configurations_are_what_was_asked_for(
    flag: Option<Target>,
    place: Option<Target>,
    task: Task,
    count: Option<usize>,
    quiet: bool,
    features: Option<String>,
    r: Result<Config, RunnerError>,
)
    requires
        call_ensures(Config::from_cli, (flag, place, task, count, quiet, features), r),
    ensures
        r is Err <==> (flag is None && place is None) || (flag is Some && place is Some && flag
            != place),
        r matches Ok(c) ==> {
            &&& flag is Some ==> Some(c.target) == flag
            &&& place is Some ==> Some(c.target) == place
            &&& c.task == task && c.quiet == quiet && c.features == features
            &&& count is Some ==> Some(c.count) == count
            &&& count is None && task == Task::Test ==> c.count == 20
            &&& count is None && task != Task::Test ==> c.count == 1
        },
{
}

/// A target is reached directly on its own system. Linux is reached from Windows through
/// compose, as it can be called, and not at all without it; Windows is reached from Linux by
/// building for it.
pub proof fn targets_are_reached_from_their_host(
    host: Host,
    target: Target,
    compose: Option<DockerComposeVariant>,
    r: Result<RunMode, RunnerError>,
)
    requires
        call_ensures(determine_mode, (host, target, compose), r),
    ensures
        host == Host::Linux && target == Target::Linux ==> (r matches Ok(m) && m is Native),
        host == Host::Windows && target == Target::Windows ==> (r matches Ok(m) && m is Native),
        host == Host::Windows && target == Target::Linux ==> (r is Err <==> compose is None) && (
        r matches Ok(m) ==> m is LinuxOnWindows && compose == Some(m->LinuxOnWindows_0)),
        host == Host::Linux && target == Target::Windows ==> (r matches Ok(m)
            && m is WindowsOnLinux),
{
}

/// The root of the workspace is the directory two levels up: with the last two parts of the
/// package's directory behind it, it is that directory again.
pub proof fn the_root_is_two_levels_up(dir: &Vec<String>, r: Result<Vec<String>, RunnerError>)
    requires
        call_ensures(workspace_root, (dir,), r),
    ensures
        r is Err <==> dir@.len() < 2,
        r matches Ok(root) ==> root@.len() + 2 == dir@.len() && texts(root@) + texts(dir@).skip(
            dir@.len() - 2,
        ) == texts(dir@),
{
    if let Ok(root) = r {
        assert(texts(root@).len() == root@.len());
        assert(texts(dir@).len() == dir@.len());
        assert(texts(root@) + texts(dir@).skip(dir@.len() - 2) =~= texts(dir@));
    }
}

/// Nothing is installed that is there: a step installs cross only where it does not work, and
/// another adds the target only where it is not installed. Only a run for Windows on Linux
/// needs either.
pub proof fn only_what_is_missing_is_installed(
    runner: &Runner,
    cross_works: bool,
    installed: bool,
    steps: Vec<Step>,
)
    requires
        call_ensures(Runner::prepare_environment, (runner, cross_works, installed), steps),
    ensures
        cross_works && installed ==> steps@.len() == 0,
        !(runner.mode is WindowsOnLinux) ==> steps@.len() == 0,
        runner.mode is WindowsOnLinux && !cross_works ==> steps@.len() > 0
            && steps@[0].command.program@ == "cargo"@ && texts(steps@[0].command.args@).contains(
            "cross"@,
        ),
        runner.mode is WindowsOnLinux && !installed ==> (runner.windows_target matches Some(t)
            ==> steps@.len() > 0 && steps@.last().command.program@ == "rustup"@ && texts(
            steps@.last().command.args@,
        ).last() == t@),
{
    if runner.mode is WindowsOnLinux && !cross_works {
        assert(texts(steps@[0].command.args@)[1] == "cross"@);
    }
}

/// Tests are built before the first round, and then the compile tests are warmed up; nothing
/// is built beforehand for any other task.
pub proof fn only_tests_are_built_beforehand(runner: &Runner, steps: Vec<Step>)
    requires
        call_ensures(Runner::prebuild_tests, (runner,), steps),
    ensures
        runner.config.task != Task::Test <==> steps@.len() == 0,
        runner.config.task == Task::Test ==> {
            &&& steps@.len() == 2
            &&& runner.calls_cargo(&steps@[0].command, Task::Test, seq!["--no-run"@])
            &&& steps@[1].command.program@ == "cargo"@
            &&& next_to(texts(steps@[1].command.args@), "--test"@, "compile_tests"@)
        },
{
    warming_up_runs_the_compile_tests();
}

} // verus!
