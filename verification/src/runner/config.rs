//! What is to be run.
use vstd::prelude::*;
use vstd::string::*;
use crate::text::chars_of;
use super::error::RunnerError;

verus! {

/// The platform that is tested.
#[derive(Debug, Clone, Copy, PartialEq, Eq, Structural)]
pub enum Target {
    Linux,
    Windows,
}

impl Target {
    /// The target's name, in specifications.
    pub open spec fn name_spec(self) -> Seq<char> {
        match self {
            Target::Linux => "linux"@,
            Target::Windows => "windows"@,
        }
    }

    /// The target's name.
    pub fn name(self) -> (s: &'static str)
        ensures
            s@ == self.name_spec(),
    {
        match self {
            Target::Linux => "linux",
            Target::Windows => "windows",
        }
    }
}

/// What is done with the code.
#[derive(Debug, Clone, Copy, PartialEq, Eq, Structural)]
pub enum Task {
    Test,
    Clippy,
    Check,
}

impl Task {
    /// The task's name, in specifications.
    pub open spec fn name_spec(self) -> Seq<char> {
        match self {
            Task::Test => "xtest"@,
            Task::Clippy => "xclippy"@,
            Task::Check => "xcheck"@,
        }
    }

    /// The task's name.
    pub fn name(self) -> (s: &'static str)
        ensures
            s@ == self.name_spec(),
    {
        match self {
            Task::Test => "xtest",
            Task::Clippy => "xclippy",
            Task::Check => "xcheck",
        }
    }

    /// How often the task is done when nothing is said.
    pub open spec fn usual_count(self) -> usize {
        match self {
            Task::Test => 20,
            _ => 1,
        }
    }

    /// How often the task is done when nothing is said.
    pub fn default_count(self) -> (n: usize)
        ensures
            n == self.usual_count(),
            n > 0,
    {
        match self {
            Task::Test => 20,
            _ => 1,
        }
    }
}

/// What is to be run.
#[derive(Debug)]
pub struct Config {
    pub target: Target,
    pub task: Task,
    pub count: usize,
    pub quiet: bool,
    pub features: Option<String>,
}

impl Config {
    /// Reads a command line. The target is named by a flag or by its place, or by both
    /// if they agree.
    pub fn from_cli(
        target: Option<Target>,
        target_positional: Option<Target>,
        task: Task,
        count: Option<usize>,
        quiet: bool,
        features: Option<String>,
    ) -> (r: Result<Config, RunnerError>)
        ensures
            match (target, target_positional) {
                (None, None) => r matches Err(RunnerError::Cli(s)) && s@
                    == "缺少目标平台，请使用 --target <linux|windows>"@,
                (Some(a), Some(b)) if a != b => r matches Err(RunnerError::Cli(s)) && s@
                    == "--target 与位置参数冲突，请仅保留一种写法"@,
                _ => r matches Ok(c) && c == (Config {
                    target: match target {
                        Some(t) => t,
                        None => target_positional->Some_0,
                    },
                    task,
                    count: match count {
                        Some(n) => n,
                        None => task.usual_count(),
                    },
                    quiet,
                    features,
                }),
            },
    {
        let target = match (target, target_positional) {
            (Some(flag), Some(positional)) => {
                if flag != positional {
                    return Err(
                        RunnerError::Cli(
                            String::from_str("--target 与位置参数冲突，请仅保留一种写法"),
                        ),
                    );
                }
                flag
            },
            (Some(target), None) => target,
            (None, Some(target)) => target,
            (None, None) => {
                return Err(
                    RunnerError::Cli(
                        String::from_str("缺少目标平台，请使用 --target <linux|windows>"),
                    ),
                );
            },
        };
        let count: usize = match count {
            Some(n) => n,
            None => task.default_count(),
        };
        Ok(Config { target, task, count, quiet, features })
    }
}

/// The character is a decimal digit.
pub open spec fn is_digit(c: char) -> bool {
    '0' <= c && c <= '9'
}

/// The number that decimal digits spell out.
pub open spec fn number_of(s: Seq<char>) -> nat
    decreases s.len(),
{
    if s.len() == 0 {
        0
    } else {
        number_of(s.drop_last()) * 10 + (s.last() as int - '0' as int) as nat
    }
}

/// A text without a plus sign at its start.
pub open spec fn unsigned_part(s: Seq<char>) -> Seq<char> {
    if s.len() > 0 && s[0] == '+' {
        s.skip(1)
    } else {
        s
    }
}

/// The text spells out a number that fits: digits, after a plus sign at most.
pub open spec fn is_count(s: Seq<char>) -> bool {
    let d = unsigned_part(s);
    &&& d.len() > 0
    &&& forall|i: int| 0 <= i < d.len() ==> is_digit(#[trigger] d[i])
    &&& number_of(d) <= usize::MAX
}

/// More digits make no smaller number.
proof fn number_grows(s: Seq<char>, n: int)
    requires
        0 <= n <= s.len(),
        forall|i: int| 0 <= i < s.len() ==> is_digit(#[trigger] s[i]),
    ensures
        number_of(s.take(n)) <= number_of(s),
    decreases s.len(),
{
    if n == s.len() {
        assert(s.take(n) =~= s);
    } else {
        let front = s.drop_last();
        number_grows(front, n);
        assert(front.take(n) =~= s.take(n));
        assert(is_digit(s[s.len() - 1]));
    }
}

/// The number that a text spells out, if it does and it fits.
fn parse_number(input: &str) -> (r: Option<usize>)
    ensures
        match r {
            Some(n) => is_count(input@) && n == number_of(unsigned_part(input@)),
            None => !is_count(input@),
        },
{
    let text = chars_of(input);
    let start: usize = if text.len() > 0 && text[0] == '+' {
        1
    } else {
        0
    };
    let ghost d = unsigned_part(text@);
    if start == text.len() {
        return None;
    }
    assert(d =~= text@.skip(start as int));
    let mut n: usize = 0;
    let mut i: usize = start;
    while i < text.len()
        invariant
            start <= i <= text@.len(),
            start < text@.len(),
            input@ == text@,
            d == unsigned_part(text@),
            d == text@.skip(start as int),
            forall|j: int| 0 <= j < i - start ==> is_digit(#[trigger] d[j]),
            n == number_of(d.take(i - start)),
        decreases text@.len() - i,
    {
        let c: char = text[i];
        let ghost k = i - start;
        assert(d[k] == c);
        if !('0' <= c && c <= '9') {
            assert(!is_digit(d[k]));
            return None;
        }
        let digit: usize = (c as u32 - 48) as usize;
        proof {
            let more = d.take(k + 1);
            assert(more.drop_last() =~= d.take(k));
            assert(more.last() == c);
            assert(number_of(more) == number_of(d.take(k)) * 10 + digit);
            if number_of(more) > usize::MAX && is_count(input@) {
                number_grows(d, k + 1);
            }
        }
        if n > (usize::MAX - digit) / 10 {
            assert(n * 10 + digit > usize::MAX);
            return None;
        }
        n = n * 10 + digit;
        i = i + 1;
    }
    assert(d.take(i - start) =~= d);
    Some(n)
}

/// Reads how often to run. It must be a number, and not 0.
pub fn parse_count(input: &str) -> (r: Result<usize, RunnerError>)
    ensures
        if !is_count(input@) {
            r matches Err(RunnerError::Cli(s)) && s@ == "无效的次数: "@ + input@
        } else if number_of(unsigned_part(input@)) == 0 {
            r matches Err(RunnerError::Cli(s)) && s@ == "--count 必须大于 0"@
        } else {
            r matches Ok(n) && n == number_of(unsigned_part(input@))
        },
{
    match parse_number(input) {
        None => {
            let mut s = String::from_str("无效的次数: ");
            s.append(input);
            Err(RunnerError::Cli(s))
        },
        Some(n) => {
            if n == 0 {
                return Err(RunnerError::Cli(String::from_str("--count 必须大于 0")));
            }
            Ok(n)
        },
    }
}

} // verus!
