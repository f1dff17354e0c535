//! The test runner's plan and the compiler guard.
use veloq_driver::guard::{
    emit_without_link, from_guard_launcher, from_xtest_runner, has_flag, is_clippy_driver,
    is_forbidden_direct_invocation, judge, refusal, Verdict, GUARD_LAUNCHER_TOKEN_ENV,
    XRUNNER_TOKEN_ENV,
};
use veloq_driver::runner::command::{docker_compose_variant, CommandSpec, DockerComposeVariant};
use veloq_driver::runner::config::{parse_count, Config, Target, Task};
use veloq_driver::runner::error::RunnerError;
use veloq_driver::runner::plan::{
    determine_mode, linux_native_command, trybuild_warmup_command, windows_native_command,
    workspace_root, Host, RoundStep, RunMode, Runner,
};
use veloq_driver::runner::targets::{
    has_rust_target, installed_targets, pick_windows_target, windows_target,
};

fn words(list: &[&str]) -> Vec<String> {
    list.iter().map(|s| s.to_string()).collect()
}

fn runner(target: Target, task: Task, mode: RunMode, windows_target: Option<&str>) -> Runner {
    Runner {
        config: Config {
            target,
            task,
            count: 3,
            quiet: false,
            features: None,
        },
        mode,
        windows_target: windows_target.map(|s| s.to_string()),
    }
}

#[test]
fn counts_are_positive_numbers() {
    assert_eq!(parse_count("12").unwrap(), 12);
    assert_eq!(parse_count("+7").unwrap(), 7);
    assert_eq!(parse_count("007").unwrap(), 7);
    assert_eq!(parse_count("18446744073709551615").unwrap(), usize::MAX);
    for text in ["", "+", "-1", "x", "1 ", "18446744073709551616", "++1"] {
        let e = parse_count(text).unwrap_err();
        assert_eq!(e.message(), format!("无效的次数: {text}"));
    }
    assert_eq!(parse_count("0").unwrap_err().message(), "--count 必须大于 0");
}

#[test]
fn the_command_line_becomes_a_configuration() {
    let c = Config::from_cli(Some(Target::Linux), None, Task::Test, None, true, None).unwrap();
    assert_eq!((c.target, c.task, c.count, c.quiet), (Target::Linux, Task::Test, 20, true));
    let c = Config::from_cli(
        None,
        Some(Target::Windows),
        Task::Clippy,
        None,
        false,
        Some("a,b".to_string()),
    )
    .unwrap();
    assert_eq!((c.target, c.count), (Target::Windows, 1));
    assert_eq!(c.features.as_deref(), Some("a,b"));
    let c = Config::from_cli(
        Some(Target::Linux),
        Some(Target::Linux),
        Task::Check,
        Some(4),
        false,
        None,
    )
    .unwrap();
    assert_eq!(c.count, 4);
    let e = Config::from_cli(None, None, Task::Test, None, false, None).unwrap_err();
    assert_eq!(e.message(), "缺少目标平台，请使用 --target <linux|windows>");
    let e = Config::from_cli(
        Some(Target::Linux),
        Some(Target::Windows),
        Task::Test,
        None,
        false,
        None,
    )
    .unwrap_err();
    assert_eq!(e.message(), "--target 与位置参数冲突，请仅保留一种写法");
}

#[test]
fn commands_as_they_are_shown() {
    let c = CommandSpec::new("cargo", words(&["check", "-q"]));
    assert_eq!(c.display(), "cargo check -q");
    let c = c.with_env("A", "1").with_env("B", "2");
    assert_eq!(c.display(), "A=1 B=2 cargo check -q");
    assert_eq!(CommandSpec::new("cross", Vec::new()).display(), "cross");
}

#[test]
fn commands_on_the_host() {
    assert_eq!(
        linux_native_command(Task::Test, None).display(),
        "cargo nextest run --workspace --exclude veloq-driver-iocp --test-threads 1 --run-ignored all"
    );
    assert_eq!(
        linux_native_command(Task::Clippy, Some("x")).display(),
        "cargo clippy --features x --all-targets -- -D warnings"
    );
    assert_eq!(linux_native_command(Task::Check, None).display(), "cargo check");
    assert_eq!(
        windows_native_command(Task::Test, Some("x"), Some("t")).display(),
        "cargo nextest run --features x --workspace --exclude veloq-driver-uring --test-threads 1 --run-ignored all"
    );
    assert_eq!(
        windows_native_command(Task::Clippy, None, Some("t")).display(),
        "cargo clippy --all-targets --target t -- -D warnings"
    );
    assert_eq!(
        windows_native_command(Task::Check, None, Some("t")).display(),
        "cargo check --target t"
    );
    assert_eq!(
        trybuild_warmup_command().display(),
        "cargo test -p veloq-runtime --test compile_tests compile_tests -- --exact"
    );
}

#[test]
fn the_mode_depends_on_host_and_target() {
    let plugin = Some(DockerComposeVariant::Plugin);
    assert_eq!(determine_mode(Host::Linux, Target::Linux, None).unwrap(), RunMode::Native);
    assert_eq!(
        determine_mode(Host::Linux, Target::Windows, None).unwrap(),
        RunMode::WindowsOnLinux
    );
    assert_eq!(
        determine_mode(Host::Windows, Target::Linux, plugin).unwrap(),
        RunMode::LinuxOnWindows(DockerComposeVariant::Plugin)
    );
    assert!(matches!(
        determine_mode(Host::Windows, Target::Linux, None),
        Err(RunnerError::DockerComposeNotFound)
    ));
    assert_eq!(docker_compose_variant(true, true), Some(DockerComposeVariant::Standalone));
    assert_eq!(docker_compose_variant(false, true), plugin);
    assert_eq!(docker_compose_variant(false, false), None);
}

#[test]
fn rounds_run_where_they_have_to() {
    let own = words(&["--target", "linux"]);
    let r = runner(
        Target::Linux,
        Task::Check,
        RunMode::LinuxOnWindows(DockerComposeVariant::Plugin),
        None,
    );
    assert_eq!(
        r.round_command(&own).display(),
        "docker compose run --rm dev cargo run -q -p xtest-runner -- --target linux"
    );
    let r = runner(
        Target::Linux,
        Task::Check,
        RunMode::LinuxOnWindows(DockerComposeVariant::Standalone),
        None,
    );
    assert_eq!(
        r.round_command(&own).display(),
        "docker-compose run --rm dev cargo run -q -p xtest-runner -- --target linux"
    );
    let r = runner(Target::Windows, Task::Test, RunMode::WindowsOnLinux, Some("t"));
    assert_eq!(
        r.round_command(&words(&["a"])).display(),
        "CROSS_SKIP_AUTO_UPDATE=1 cross run --target t -p xtest-runner -- a"
    );
    let r = runner(Target::Linux, Task::Check, RunMode::Native, None);
    assert_eq!(r.round_command(&own).display(), "cargo check");
}

#[test]
fn preparations() {
    let r = runner(Target::Windows, Task::Test, RunMode::WindowsOnLinux, Some("t"));
    let steps = r.prepare_environment(false, false);
    assert_eq!(steps.len(), 2);
    assert_eq!(steps[0].name, "安装 cross");
    assert_eq!(steps[0].command.display(), "cargo install cross");
    assert_eq!(steps[1].name, "安装 t 工具链");
    assert_eq!(steps[1].command.display(), "rustup target add t");
    assert_eq!(r.prepare_environment(true, true).len(), 0);
    let r = runner(Target::Linux, Task::Test, RunMode::Native, None);
    assert_eq!(r.prepare_environment(false, false).len(), 0);
    let steps = r.prebuild_tests();
    assert_eq!(steps.len(), 2);
    assert_eq!(
        steps[0].command.display(),
        "cargo nextest run --workspace --exclude veloq-driver-iocp --test-threads 1 --run-ignored all --no-run"
    );
    assert_eq!(steps[1].name, "预热 trybuild 编译测试");
    let r = runner(Target::Linux, Task::Check, RunMode::Native, None);
    assert_eq!(r.prebuild_tests().len(), 0);
}

#[test]
fn failures_in_words() {
    let r = runner(Target::Linux, Task::Test, RunMode::Native, None);
    assert!(r.run_round(1, true, None).is_ok());
    assert_eq!(
        r.run_round(2, false, Some(101)).unwrap_err().message(),
        "xtest-linux 第 2/3 次执行失败（退出码: Some(101)）"
    );
    assert_eq!(
        Runner::run_setup("安装 cross", false, None).unwrap_err().message(),
        "安装 cross 失败（退出码: None）"
    );
    assert!(Runner::run_setup("安装 cross", true, None).is_ok());
    assert_eq!(
        Runner::run_prebuild_step("x", false, Some(-1)).unwrap_err().message(),
        "x 失败（退出码: Some(-1)）"
    );
    assert!(Runner::run_prebuild_step("x", true, None).is_ok());
    assert_eq!(RunnerError::CommandFailed.message(), "命令执行失败");
    assert_eq!(
        RunnerError::FailedToReadTargetList.message(),
        "无法读取已安装 target 列表"
    );
    assert_eq!(
        RunnerError::DockerComposeNotFound.message(),
        "未检测到 docker-compose（或 docker compose），无法在 Windows 上执行 Linux 相关命令"
    );
}

#[test]
fn the_last_line_and_the_exit_code() {
    let r = runner(Target::Windows, Task::Clippy, RunMode::Native, None);
    assert_eq!(r.success_line(), "xclippy-windows 连续执行 3 次全部成功");
    assert_eq!(Runner::proxy_exit(true, Some(0)), None);
    assert_eq!(Runner::proxy_exit(false, Some(7)), Some(7));
    assert_eq!(Runner::proxy_exit(false, None), Some(1));
}

#[test]
fn the_workspace_is_two_levels_up() {
    let dir = words(&["home", "user", "veloq", "tools", "xtest-runner"]);
    assert_eq!(workspace_root(&dir).unwrap(), words(&["home", "user", "veloq"]));
    let e = workspace_root(&words(&["one"])).unwrap_err();
    assert_eq!(e.message(), "无法解析 workspace 根目录");
}

#[test]
fn installed_targets_are_read_line_by_line() {
    let list = "x86_64-unknown-linux-gnu\r\n  aarch64-pc-windows-msvc\t\n\nwasm32";
    assert_eq!(
        installed_targets(list),
        words(&["x86_64-unknown-linux-gnu", "aarch64-pc-windows-msvc", "", "wasm32"])
    );
    assert!(has_rust_target("aarch64-pc-windows-msvc", true, list).unwrap());
    assert!(!has_rust_target("x86_64-pc-windows-gnu", true, list).unwrap());
    let e = has_rust_target("wasm32", false, list).unwrap_err();
    assert_eq!(e.message(), "检查 rustup target 失败");
    // The no-break space at the end is white space too.
    assert!(has_rust_target("wasm32", true, "wasm32\u{a0}").unwrap());
    for c in '\0'..=char::MAX {
        let list = format!("{c}a{c}");
        let trimmed = has_rust_target("a", true, &list).unwrap();
        assert_eq!(trimmed, c.is_whitespace(), "{c:?}");
    }
}

#[test]
fn a_target_for_windows_is_picked() {
    assert_eq!(
        pick_windows_target(&words(&["x86_64-pc-windows-gnu", "x86_64-pc-windows-msvc"])),
        "x86_64-pc-windows-msvc"
    );
    assert_eq!(
        pick_windows_target(&words(&["i686-pc-windows-gnu", "x86_64-pc-windows-gnu"])),
        "x86_64-pc-windows-gnu"
    );
    assert_eq!(
        pick_windows_target(&words(&["wasm32", "i686-pc-windows-gnu", "a-windows-b"])),
        "i686-pc-windows-gnu"
    );
    assert_eq!(pick_windows_target(&words(&["wasm32"])), "x86_64-pc-windows-gnu");
    assert_eq!(windows_target(true, Target::Windows, None), None);
    assert_eq!(windows_target(false, Target::Linux, None), None);
    assert_eq!(
        windows_target(false, Target::Windows, None).as_deref(),
        Some("x86_64-pc-windows-gnu")
    );
    assert_eq!(
        windows_target(false, Target::Windows, Some("i686-pc-windows-msvc\n")).as_deref(),
        Some("i686-pc-windows-msvc")
    );
}

#[test]
fn the_guard_knows_its_callers() {
    assert_eq!(XRUNNER_TOKEN_ENV, "VELOQ_XRUNNER_GUARD");
    assert_eq!(GUARD_LAUNCHER_TOKEN_ENV, "VELOQ_GUARD_FROM_LAUNCHER");
    assert!(from_xtest_runner(Some("1")));
    assert!(!from_xtest_runner(Some("2")));
    assert!(!from_xtest_runner(None));
    assert!(from_guard_launcher(Some("1")));
    assert!(!from_guard_launcher(Some("")));
}

#[test]
fn what_the_guard_forbids() {
    assert!(is_clippy_driver(Some("Clippy-Driver.exe")));
    assert!(!is_clippy_driver(Some("rustc")));
    assert!(!is_clippy_driver(None));
    assert!(has_flag(&words(&["a", "--test"]), "--test"));
    assert!(!has_flag(&words(&["a", "--tests"]), "--test"));
    assert!(emit_without_link(&words(&["--emit=dep-info,metadata"])));
    assert!(!emit_without_link(&words(&["--emit=dep-info,link"])));
    assert!(emit_without_link(&words(&["--emit=linker"])));
    assert!(!emit_without_link(&words(&["--emit=--emit=link"])));
    assert!(!emit_without_link(&words(&["-o", "emit"])));
    assert!(is_forbidden_direct_invocation(Some("rustc"), &words(&["--test"])));
    assert!(is_forbidden_direct_invocation(Some("clippy-driver"), &words(&[])));
    assert!(!is_forbidden_direct_invocation(Some("rustc"), &words(&["--emit=link"])));
}

#[test]
fn what_the_guard_decides() {
    let check = words(&["--emit=metadata"]);
    let build = words(&["--emit=link"]);
    let one = Some("1");
    let rustc = Some("rustc");
    assert_eq!(judge(None, None, &check, one, one), Verdict::MissingArgument);
    assert_eq!(judge(Some("--warmup"), None, &check, None, None), Verdict::Warmup);
    assert_eq!(judge(rustc, rustc, &build, None, one), Verdict::NotFromLauncher);
    assert_eq!(judge(rustc, rustc, &check, one, None), Verdict::NotFromRunner);
    assert_eq!(judge(rustc, rustc, &check, one, one), Verdict::Run);
    assert_eq!(judge(rustc, rustc, &build, one, None), Verdict::Run);
    assert_eq!(refusal(Verdict::MissingArgument), Some("[rustc-guard] 缺少参数"));
    assert!(refusal(Verdict::NotFromLauncher).is_some());
    assert!(refusal(Verdict::NotFromRunner).is_some());
    assert_eq!(refusal(Verdict::Run), None);
    assert_eq!(refusal(Verdict::Warmup), None);
}

#[test]
fn rounds_follow_one_another() {
    let r = runner(Target::Linux, Task::Check, RunMode::Native, None);
    for done in 0..3 {
        assert!(matches!(r.next_round(done, Ok(())), RoundStep::Round(n) if n == done + 1));
    }
    assert!(matches!(r.next_round(3, Ok(())), RoundStep::Done));
    match r.next_round(2, r.run_round(2, false, Some(101))) {
        RoundStep::Failed(e) => {
            assert_eq!(e.message(), "xcheck-linux 第 2/3 次执行失败（退出码: Some(101)）");
        }
        _ => panic!("the round failed"),
    }
    let r = runner(Target::Windows, Task::Test, RunMode::WindowsOnLinux, Some("t"));
    assert!(matches!(r.next_round(0, Ok(())), RoundStep::Once));
    assert!(matches!(r.next_round(1, Ok(())), RoundStep::Done));
}
