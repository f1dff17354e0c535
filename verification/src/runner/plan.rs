//! The commands of a run.
use vstd::prelude::*;
use vstd::string::*;
use crate::text::{digits, push_digits, push_text, texts};
use super::command::{CommandSpec, DockerComposeVariant};
use super::config::{Config, Target, Task};
use super::error::{code_text, RunnerError};

verus! {

/// The system that the runner runs on.
#[derive(Debug, Clone, Copy, PartialEq, Eq, Structural)]
pub enum Host {
    Linux,
    Windows,
    Other,
}

/// How the target is reached from the host.
#[derive(Debug, Clone, Copy, PartialEq, Eq, Structural)]
pub enum RunMode {
    Native,
    WindowsOnLinux,
    LinuxOnWindows(DockerComposeVariant),
}

/// How a target is reached. Linux on Windows takes compose.
pub fn determine_mode(host: Host, target: Target, compose: Option<DockerComposeVariant>) -> (r:
    Result<RunMode, RunnerError>)
    ensures
        match (host, target) {
            (Host::Windows, Target::Linux) => match compose {
                Some(v) => r matches Ok(m) && m == RunMode::LinuxOnWindows(v),
                None => r matches Err(RunnerError::DockerComposeNotFound),
            },
            (Host::Linux, Target::Windows) => r matches Ok(m) && m == RunMode::WindowsOnLinux,
            _ => r matches Ok(m) && m == RunMode::Native,
        },
{
    match (host, target) {
        (Host::Windows, Target::Linux) => match compose {
            Some(v) => Ok(RunMode::LinuxOnWindows(v)),
            None => Err(RunnerError::DockerComposeNotFound),
        },
        (Host::Linux, Target::Windows) => Ok(RunMode::WindowsOnLinux),
        _ => Ok(RunMode::Native),
    }
}

/// The root of the workspace: two levels above the package, whose directory is given
/// part by part.
pub fn workspace_root(manifest_dir: &Vec<String>) -> (r: Result<Vec<String>, RunnerError>)
    ensures
        manifest_dir@.len() < 2 ==> r matches Err(RunnerError::WorkspaceRootResolutionFailed),
        manifest_dir@.len() >= 2 ==> (r matches Ok(root) && texts(root@) == texts(
            manifest_dir@,
        ).take(manifest_dir@.len() - 2)),
{
    if manifest_dir.len() < 2 {
        return Err(RunnerError::WorkspaceRootResolutionFailed);
    }
    let n: usize = manifest_dir.len() - 2;
    let mut root: Vec<String> = Vec::new();
    let mut i: usize = 0;
    while i < n
        invariant
            i <= n,
            n + 2 == manifest_dir@.len(),
            texts(root@) == texts(manifest_dir@).take(i as int),
        decreases n - i,
    {
        push_text(&mut root, manifest_dir[i].as_str());
        assert(texts(root@) =~= texts(manifest_dir@).take(i + 1));
        i = i + 1;
    }
    Ok(root)
}

/// What cargo is told to do.
pub open spec fn task_words(task: Task) -> Seq<Seq<char>> {
    match task {
        Task::Test => seq!["nextest"@, "run"@],
        Task::Clippy => seq!["clippy"@],
        Task::Check => seq!["check"@],
    }
}

/// A flag with its value, if there is one.
pub open spec fn flag_words(flag: Seq<char>, value: Option<&str>) -> Seq<Seq<char>> {
    match value {
        Some(v) => seq![flag, v@],
        None => Seq::empty(),
    }
}

/// How tests are run: all of them, one at a time, without the driver of the other
/// platform.
pub open spec fn test_words(exclude: Seq<char>) -> Seq<Seq<char>> {
    seq![
        "--workspace"@,
        "--exclude"@,
        exclude,
        "--test-threads"@,
        "1"@,
        "--run-ignored"@,
        "all"@,
    ]
}

/// Warnings are errors.
pub open spec fn strict_words() -> Seq<Seq<char>> {
    seq!["--"@, "-D"@, "warnings"@]
}

/// The arguments of cargo on Linux.
pub open spec fn linux_args(task: Task, features: Option<&str>) -> Seq<Seq<char>> {
    task_words(task) + flag_words("--features"@, features) + match task {
        Task::Test => test_words("veloq-driver-iocp"@),
        Task::Clippy => seq!["--all-targets"@] + strict_words(),
        Task::Check => Seq::empty(),
    }
}

/// The arguments of cargo for Windows.
pub open spec fn windows_args(task: Task, features: Option<&str>, target: Option<&str>) -> Seq<
    Seq<char>,
> {
    task_words(task) + flag_words("--features"@, features) + match task {
        Task::Test => test_words("veloq-driver-uring"@),
        Task::Clippy => seq!["--all-targets"@] + flag_words("--target"@, target) + strict_words(),
        Task::Check => flag_words("--target"@, target),
    }
}

fn start_args(task: Task, features: Option<&str>) -> (args: Vec<String>)
    ensures
        texts(args@) == task_words(task) + flag_words("--features"@, features),
{
    let mut args: Vec<String> = Vec::new();
    assert(texts(args@) =~= Seq::empty());
    match task {
        Task::Test => {
            push_text(&mut args, "nextest");
            push_text(&mut args, "run");
        },
        Task::Clippy => push_text(&mut args, "clippy"),
        Task::Check => push_text(&mut args, "check"),
    }
    assert(texts(args@) =~= task_words(task));
    push_flag(&mut args, "--features", features);
    args
}

fn push_flag(args: &mut Vec<String>, flag: &str, value: Option<&str>)
    ensures
        texts(final(args)@) == texts(old(args)@) + flag_words(flag@, value),
{
    if let Some(v) = value {
        push_text(args, flag);
        push_text(args, v);
    }
    assert(texts(args@) =~= texts(old(args)@) + flag_words(flag@, value));
}

fn push_test_words(args: &mut Vec<String>, exclude: &str)
    ensures
        texts(final(args)@) == texts(old(args)@) + test_words(exclude@),
{
    push_text(args, "--workspace");
    push_text(args, "--exclude");
    push_text(args, exclude);
    push_text(args, "--test-threads");
    push_text(args, "1");
    push_text(args, "--run-ignored");
    push_text(args, "all");
    assert(texts(args@) =~= texts(old(args)@) + test_words(exclude@));
}

fn push_strict_words(args: &mut Vec<String>)
    ensures
        texts(final(args)@) == texts(old(args)@) + strict_words(),
{
    push_text(args, "--");
    push_text(args, "-D");
    push_text(args, "warnings");
    assert(texts(args@) =~= texts(old(args)@) + strict_words());
}

/// The command on Linux.
pub fn linux_native_command(task: Task, features: Option<&str>) -> (c: CommandSpec)
    ensures
        c.calls("cargo"@, linux_args(task, features)),
{
    let mut args = start_args(task, features);
    match task {
        Task::Test => push_test_words(&mut args, "veloq-driver-iocp"),
        Task::Clippy => {
            push_text(&mut args, "--all-targets");
            push_strict_words(&mut args);
        },
        Task::Check => {},
    }
    assert(texts(args@) =~= linux_args(task, features));
    CommandSpec::new("cargo", args)
}

/// The command for Windows.
pub fn windows_native_command(task: Task, features: Option<&str>, target: Option<&str>) -> (c:
    CommandSpec)
    ensures
        c.calls("cargo"@, windows_args(task, features, target)),
{
    let mut args = start_args(task, features);
    match task {
        Task::Test => push_test_words(&mut args, "veloq-driver-uring"),
        Task::Clippy => {
            push_text(&mut args, "--all-targets");
            push_flag(&mut args, "--target", target);
            push_strict_words(&mut args);
        },
        Task::Check => push_flag(&mut args, "--target", target),
    }
    assert(texts(args@) =~= windows_args(task, features, target));
    CommandSpec::new("cargo", args)
}

/// The arguments of cargo for the compile tests.
pub open spec fn warmup_words() -> Seq<Seq<char>> {
    seq![
        "test"@,
        "-p"@,
        "veloq-runtime"@,
        "--test"@,
        "compile_tests"@,
        "compile_tests"@,
        "--"@,
        "--exact"@,
    ]
}

/// The command that warms up the compile tests.
pub fn trybuild_warmup_command() -> (c: CommandSpec)
    ensures
        c.calls("cargo"@, warmup_words()),
{
    let mut args: Vec<String> = Vec::new();
    assert(texts(args@) =~= Seq::empty());
    push_text(&mut args, "test");
    push_text(&mut args, "-p");
    push_text(&mut args, "veloq-runtime");
    push_text(&mut args, "--test");
    push_text(&mut args, "compile_tests");
    push_text(&mut args, "compile_tests");
    push_text(&mut args, "--");
    push_text(&mut args, "--exact");
    assert(texts(args@) =~= warmup_words());
    CommandSpec::new("cargo", args)
}

/// A step with its name.
#[derive(Debug)]
pub struct Step {
    pub name: String,
    pub command: CommandSpec,
}

/// A run.
#[derive(Debug)]
pub struct Runner {
    pub config: Config,
    pub mode: RunMode,
    pub windows_target: Option<String>,
}

/// What a run does next.
#[derive(Debug)]
pub enum RoundStep {
    /// It runs this round; the first one is 1.
    Round(usize),
    /// It runs its command once: the runner on the target does the rounds.
    Once,
    /// It has succeeded.
    Done,
    /// It has failed.
    Failed(RunnerError),
}

/// A text that may be there, as a slice.
pub open spec fn slice_of(s: Option<String>) -> Option<Seq<char>> {
    match s {
        Some(s) => Some(s@),
        None => None,
    }
}

fn as_slice_text<'a>(s: &'a Option<String>) -> (r: Option<&'a str>)
    ensures
        r is Some <==> s is Some,
        r matches Some(t) ==> t@ == s->Some_0@,
{
    match s {
        Some(s) => Some(s.as_str()),
        None => None,
    }
}

/// The command that a run has carried out by itself on the target.
pub open spec fn proxied_words(target: Option<Seq<char>>) -> Seq<Seq<char>> {
    seq![
        "run"@,
        "--target"@,
        match target {
            Some(t) => t,
            None => "x86_64-pc-windows-gnu"@,
        },
        "-p"@,
        "xtest-runner"@,
        "--"@,
    ]
}

/// How the container runs the runner.
pub open spec fn container_words(variant: DockerComposeVariant) -> Seq<Seq<char>> {
    (if variant is Plugin {
        seq!["compose"@]
    } else {
        Seq::empty()
    }) + seq![
        "run"@,
        "--rm"@,
        "dev"@,
        "cargo"@,
        "run"@,
        "-q"@,
        "-p"@,
        "xtest-runner"@,
        "--"@,
    ]
}

impl Runner {
    /// The target's command, without detours.
    pub open spec fn calls_cargo(&self, c: &CommandSpec, task: Task, last: Seq<Seq<char>>) -> bool {
        exists|features: Option<&str>, target: Option<&str>| #[trigger]
            self.names(features, target) && c.calls(
                "cargo"@,
                match self.config.target {
                    Target::Linux => linux_args(task, features),
                    Target::Windows => windows_args(task, features, target),
                } + last,
            )
    }

    /// `features` and `target` are the texts of the run.
    pub open spec fn names(&self, features: Option<&str>, target: Option<&str>) -> bool {
        &&& features is Some <==> self.config.features is Some
        &&& features matches Some(f) ==> f@ == self.config.features->Some_0@
        &&& target is Some <==> self.windows_target is Some
        &&& target matches Some(t) ==> t@ == self.windows_target->Some_0@
    }

    fn cargo_command(&self, task: Task) -> (c: CommandSpec)
        ensures
            self.calls_cargo(&c, task, Seq::empty()),
    {
        let features = as_slice_text(&self.config.features);
        let target = as_slice_text(&self.windows_target);
        assert(self.names(features, target));
        match self.config.target {
            Target::Linux => {
                let c = linux_native_command(task, features);
                assert(linux_args(task, features) + Seq::<Seq<char>>::empty() =~= linux_args(
                    task,
                    features,
                ));
                c
            },
            Target::Windows => {
                let c = windows_native_command(task, features, target);
                assert(windows_args(task, features, target) + Seq::<Seq<char>>::empty()
                    =~= windows_args(task, features, target));
                c
            },
        }
    }

    /// What the run does next: `done` rounds are over, and `last` tells how the last one
    /// ended. A failure ends the run; otherwise there are as many rounds as the
    /// configuration says. A target that is not the host's has no rounds here.
    pub fn next_round(&self, done: usize, last: Result<(), RunnerError>) -> (s: RoundStep)
        ensures
            last matches Err(e) ==> s == RoundStep::Failed(e),
            last is Ok && self.mode is Native && done < self.config.count ==> s == RoundStep::Round(
                (done + 1) as usize,
            ),
            last is Ok && self.mode is Native && done >= self.config.count ==> s is Done,
            last is Ok && !(self.mode is Native) && done == 0 ==> s is Once,
            last is Ok && !(self.mode is Native) && done > 0 ==> s is Done,
    {
        match last {
            Err(e) => RoundStep::Failed(e),
            Ok(_) => match self.mode {
                RunMode::Native => if done < self.config.count {
                    RoundStep::Round(done + 1)
                } else {
                    RoundStep::Done
                },
                _ => if done == 0 {
                    RoundStep::Once
                } else {
                    RoundStep::Done
                },
            },
        }
    }

    /// The command of one round. A target that is not the host's runs the runner itself,
    /// with the arguments that this one got.
    pub fn round_command(&self, own_args: &Vec<String>) -> (c: CommandSpec)
        ensures
            match (self.mode, self.config.target) {
                (RunMode::LinuxOnWindows(variant), Target::Linux) => c.calls(
                    if variant is Plugin {
                        "docker"@
                    } else {
                        "docker-compose"@
                    },
                    container_words(variant) + texts(own_args@),
                ),
                (RunMode::WindowsOnLinux, Target::Windows) => {
                    &&& c.program@ == "cross"@
                    &&& texts(c.args@) == proxied_words(slice_of(self.windows_target)) + texts(
                        own_args@,
                    )
                    &&& c.envs@.len() == 1
                    &&& c.envs@[0].0@ == "CROSS_SKIP_AUTO_UPDATE"@
                    &&& c.envs@[0].1@ == "1"@
                },
                _ => self.calls_cargo(&c, self.config.task, Seq::empty()),
            },
    {
        match (self.mode, self.config.target) {
            (RunMode::LinuxOnWindows(variant), Target::Linux) => {
                let mut args: Vec<String> = Vec::new();
                assert(texts(args@) =~= Seq::empty());
                let program = match variant {
                    DockerComposeVariant::Standalone => "docker-compose",
                    DockerComposeVariant::Plugin => {
                        push_text(&mut args, "compose");
                        "docker"
                    },
                };
                push_text(&mut args, "run");
                push_text(&mut args, "--rm");
                push_text(&mut args, "dev");
                push_text(&mut args, "cargo");
                push_text(&mut args, "run");
                push_text(&mut args, "-q");
                push_text(&mut args, "-p");
                push_text(&mut args, "xtest-runner");
                push_text(&mut args, "--");
                assert(texts(args@) =~= container_words(variant));
                push_all(&mut args, own_args);
                CommandSpec::new(program, args)
            },
            (RunMode::WindowsOnLinux, Target::Windows) => {
                let mut args: Vec<String> = Vec::new();
                assert(texts(args@) =~= Seq::empty());
                push_text(&mut args, "run");
                push_text(&mut args, "--target");
                match &self.windows_target {
                    Some(t) => push_text(&mut args, t.as_str()),
                    None => push_text(&mut args, "x86_64-pc-windows-gnu"),
                }
                push_text(&mut args, "-p");
                push_text(&mut args, "xtest-runner");
                push_text(&mut args, "--");
                assert(texts(args@) =~= proxied_words(slice_of(self.windows_target)));
                push_all(&mut args, own_args);
                CommandSpec::new("cross", args).with_env("CROSS_SKIP_AUTO_UPDATE", "1")
            },
            _ => self.cargo_command(self.config.task),
        }
    }

    /// The command that builds the tests without running them.
    pub fn nextest_prebuild_command(&self) -> (c: CommandSpec)
        ensures
            self.calls_cargo(&c, Task::Test, seq!["--no-run"@]),
    {
        let mut c = self.cargo_command(Task::Test);
        let ghost before = texts(c.args@);
        let ghost (f, t) = choose|f: Option<&str>, t: Option<&str>| #[trigger]
            self.names(f, t) && c.calls(
                "cargo"@,
                match self.config.target {
                    Target::Linux => linux_args(Task::Test, f),
                    Target::Windows => windows_args(Task::Test, f, t),
                } + Seq::empty(),
            );
        push_text(&mut c.args, "--no-run");
        proof {
            let words = match self.config.target {
                Target::Linux => linux_args(Task::Test, f),
                Target::Windows => windows_args(Task::Test, f, t),
            };
            assert(words + Seq::<Seq<char>>::empty() =~= words);
            assert(texts(c.args@) =~= words + seq!["--no-run"@]);
            assert(self.names(f, t));
        }
        c
    }

    /// What is built before the first round: the tests, if there are any to run.
    pub fn prebuild_tests(&self) -> (steps: Vec<Step>)
        ensures
            self.config.task != Task::Test ==> steps@.len() == 0,
            self.config.task == Task::Test ==> {
                &&& steps@.len() == 2
                &&& steps@[0].name@ == "预构建 nextest 测试二进制"@
                &&& self.calls_cargo(&steps@[0].command, Task::Test, seq!["--no-run"@])
                &&& steps@[1].name@ == "预热 trybuild 编译测试"@
                &&& steps@[1].command.calls("cargo"@, warmup_words())
            },
    {
        let mut steps: Vec<Step> = Vec::new();
        if self.config.task != Task::Test {
            return steps;
        }
        steps.push(
            Step {
                name: String::from_str("预构建 nextest 测试二进制"),
                command: self.nextest_prebuild_command(),
            },
        );
        steps.push(
            Step {
                name: String::from_str("预热 trybuild 编译测试"),
                command: trybuild_warmup_command(),
            },
        );
        steps
    }

    /// What has to be installed before a run: `cross_works` says whether cross is there,
    /// `target_installed` whether the target is.
    pub fn prepare_environment(&self, cross_works: bool, target_installed: bool) -> (steps: Vec<
        Step,
    >)
        ensures
            !(self.mode is WindowsOnLinux) ==> steps@.len() == 0,
            self.mode is WindowsOnLinux ==> {
                let add = self.windows_target is Some && !target_installed;
                let first = if cross_works {
                    0int
                } else {
                    1int
                };
                &&& steps@.len() == first + (if add {
                    1int
                } else {
                    0int
                })
                &&& !cross_works ==> steps@[0].name@ == "安装 cross"@ && steps@[0].command.calls(
                    "cargo"@,
                    seq!["install"@, "cross"@],
                )
                &&& add ==> steps@[first].name@ == "安装 "@ + self.windows_target->Some_0@
                    + " 工具链"@ && steps@[first].command.calls(
                    "rustup"@,
                    seq!["target"@, "add"@, self.windows_target->Some_0@],
                )
            },
    {
        let mut steps: Vec<Step> = Vec::new();
        match self.mode {
            RunMode::WindowsOnLinux => {},
            _ => {
                return steps;
            },
        }
        if !cross_works {
            let mut args: Vec<String> = Vec::new();
            assert(texts(args@) =~= Seq::empty());
            push_text(&mut args, "install");
            push_text(&mut args, "cross");
            assert(texts(args@) =~= seq!["install"@, "cross"@]);
            steps.push(
                Step {
                    name: String::from_str("安装 cross"),
                    command: CommandSpec::new("cargo", args),
                },
            );
        }
        if let Some(t) = &self.windows_target {
            if !target_installed {
                let mut args: Vec<String> = Vec::new();
                assert(texts(args@) =~= Seq::empty());
                push_text(&mut args, "target");
                push_text(&mut args, "add");
                push_text(&mut args, t.as_str());
                assert(texts(args@) =~= seq!["target"@, "add"@, t@]);
                let mut name = String::from_str("安装 ");
                name.append(t.as_str());
                name.append(" 工具链");
                steps.push(Step { name, command: CommandSpec::new("rustup", args) });
            }
        }
        steps
    }

    /// What a step of the build before the first round comes to.
    pub fn run_prebuild_step(step: &str, success: bool, code: Option<i32>) -> (r: Result<
        (),
        RunnerError,
    >)
        ensures
            success ==> r is Ok,
            !success ==> (r matches Err(RunnerError::PrebuildFailed { step: s, code: c }) && s@
                == step@ && c == code),
    {
        if success {
            return Ok(());
        }
        Err(RunnerError::PrebuildFailed { step: String::from_str(step), code })
    }

    /// What a step of the setup comes to.
    pub fn run_setup(step: &str, success: bool, code: Option<i32>) -> (r: Result<(), RunnerError>)
        ensures
            success ==> r is Ok,
            !success ==> (r matches Err(RunnerError::SetupFailed { step: s, code: c }) && s@ == step@
                && c == code),
    {
        if success {
            return Ok(());
        }
        Err(RunnerError::SetupFailed { step: String::from_str(step), code })
    }

    /// The failure of a round.
    pub fn round_failure(&self, round: usize, code: Option<i32>) -> (e: RunnerError)
        ensures
            e.text() == self.config.task.name_spec() + "-"@ + self.config.target.name_spec()
                + " 第 "@ + digits(round as nat) + "/"@ + digits(self.config.count as nat)
                + " 次执行失败（退出码: "@ + code_text(code) + "）"@,
            e is RoundFailed,
    {
        RunnerError::RoundFailed {
            task: self.config.task.name(),
            target: self.config.target.name(),
            round,
            total: self.config.count,
            code,
        }
    }

    /// What a round comes to. A quiet run says what failed by itself.
    pub fn run_round(&self, round: usize, success: bool, code: Option<i32>) -> (r: Result<
        (),
        RunnerError,
    >)
        ensures
            success ==> r is Ok,
            !success && self.config.quiet ==> r matches Err(RunnerError::CommandFailed),
            !success && !self.config.quiet ==> (r matches Err(e) && e is RoundFailed && e.text()
                == self.config.task.name_spec() + "-"@ + self.config.target.name_spec() + " 第 "@
                + digits(round as nat) + "/"@ + digits(self.config.count as nat)
                + " 次执行失败（退出码: "@ + code_text(code) + "）"@),
    {
        if success {
            return Ok(());
        }
        if self.config.quiet {
            return Err(RunnerError::CommandFailed);
        }
        Err(self.round_failure(round, code))
    }

    /// The exit code of a run that was handed to the runner on the target, if it
    /// failed.
    pub fn proxy_exit(success: bool, code: Option<i32>) -> (r: Option<i32>)
        ensures
            r == (if success {
                None
            } else {
                match code {
                    Some(c) => Some(c),
                    None => Some(1i32),
                }
            }),
    {
        if success {
            return None;
        }
        match code {
            Some(c) => Some(c),
            None => Some(1),
        }
    }

    /// What is said after the last round.
    pub fn success_line(&self) -> (s: String)
        ensures
            s@ == self.config.task.name_spec() + "-"@ + self.config.target.name_spec()
                + " 连续执行 "@ + digits(self.config.count as nat) + " 次全部成功"@,
    {
        let mut s = String::from_str(self.config.task.name());
        s.append("-");
        s.append(self.config.target.name());
        s.append(" 连续执行 ");
        push_digits(&mut s, self.config.count as u64);
        s.append(" 次全部成功");
        s
    }
}

fn push_all(args: &mut Vec<String>, more: &Vec<String>)
    ensures
        texts(final(args)@) == texts(old(args)@) + texts(more@),
{
    let mut i: usize = 0;
    assert(texts(args@) =~= texts(old(args)@) + texts(more@).take(0));
    while i < more.len()
        invariant
            i <= more@.len(),
            texts(args@) == texts(old(args)@) + texts(more@).take(i as int),
        decreases more@.len() - i,
    {
        push_text(args, more[i].as_str());
        assert(texts(args@) =~= texts(old(args)@) + texts(more@).take(i + 1));
        i = i + 1;
    }
    assert(texts(more@).take(i as int) =~= texts(more@));
}

} // verus!
