//! Why a run fails.
use vstd::prelude::*;
use vstd::string::*;
use crate::text::{decimal, decimal_string, digits, push_digits};

verus! {

/// Why a run fails.
#[derive(Debug)]
#[allow(inconsistent_fields)]
pub enum RunnerError {
    /// The command line makes no sense.
    Cli(String),
    DockerComposeNotFound,
    WorkspaceRootResolutionFailed,
    FailedToReadTargetList,
    FailedToCheckRustupTarget,
    SetupFailed { step: String, code: Option<i32> },
    PrebuildFailed { step: String, code: Option<i32> },
    RoundFailed {
        task: &'static str,
        target: &'static str,
        round: usize,
        total: usize,
        code: Option<i32>,
    },
    CommandFailed,
}

/// An exit code as it is shown, in specifications.
pub open spec fn code_text(code: Option<i32>) -> Seq<char> {
    match code {
        Some(c) => "Some("@ + decimal(c as int) + ")"@,
        None => "None"@,
    }
}

/// An exit code as it is shown.
pub fn show_code(code: Option<i32>) -> (s: String)
    ensures
        s@ == code_text(code),
{
    match code {
        Some(c) => {
            let mut s = String::from_str("Some(");
            s.append(decimal_string(c).as_str());
            s.append(")");
            s
        },
        None => String::from_str("None"),
    }
}

impl RunnerError {
    /// The error in words, in specifications.
    pub open spec fn text(self) -> Seq<char> {
        match self {
            RunnerError::Cli(s) => s@,
            RunnerError::DockerComposeNotFound =>
                "未检测到 docker-compose（或 docker compose），无法在 Windows 上执行 Linux 相关命令"@,
            RunnerError::WorkspaceRootResolutionFailed => "无法解析 workspace 根目录"@,
            RunnerError::FailedToReadTargetList => "无法读取已安装 target 列表"@,
            RunnerError::FailedToCheckRustupTarget => "检查 rustup target 失败"@,
            RunnerError::SetupFailed { step, code } => step@ + " 失败（退出码: "@ + code_text(code)
                + "）"@,
            RunnerError::PrebuildFailed { step, code } => step@ + " 失败（退出码: "@ + code_text(
                code,
            ) + "）"@,
            RunnerError::RoundFailed { task, target, round, total, code } => task@ + "-"@ + target@
                + " 第 "@ + digits(round as nat) + "/"@ + digits(total as nat)
                + " 次执行失败（退出码: "@ + code_text(code) + "）"@,
            RunnerError::CommandFailed => "命令执行失败"@,
        }
    }

    /// The error in words.
    pub fn message(&self) -> (s: String)
        ensures
            s@ == self.text(),
    {
        match self {
            RunnerError::Cli(s) => s.clone(),
            RunnerError::DockerComposeNotFound => String::from_str(
                "未检测到 docker-compose（或 docker compose），无法在 Windows 上执行 Linux 相关命令",
            ),
            RunnerError::WorkspaceRootResolutionFailed => String::from_str(
                "无法解析 workspace 根目录",
            ),
            RunnerError::FailedToReadTargetList => String::from_str("无法读取已安装 target 列表"),
            RunnerError::FailedToCheckRustupTarget => String::from_str("检查 rustup target 失败"),
            RunnerError::SetupFailed { step, code } => step_failed(step.as_str(), *code),
            RunnerError::PrebuildFailed { step, code } => step_failed(step.as_str(), *code),
            RunnerError::RoundFailed { task, target, round, total, code } => {
                let mut s = String::from_str(task);
                s.append("-");
                s.append(target);
                s.append(" 第 ");
                push_digits(&mut s, *round as u64);
                s.append("/");
                push_digits(&mut s, *total as u64);
                s.append(" 次执行失败（退出码: ");
                s.append(show_code(*code).as_str());
                s.append("）");
                s
            },
            RunnerError::CommandFailed => String::from_str("命令执行失败"),
        }
    }
}

/// What is said of a step that failed.
pub fn step_failed(step: &str, code: Option<i32>) -> (s: String)
    ensures
        s@ == step@ + " 失败（退出码: "@ + code_text(code) + "）"@,
{
    let mut s = String::from_str(step);
    s.append(" 失败（退出码: ");
    s.append(show_code(code).as_str());
    s.append("）");
    s
}

} // verus!
