//! Commands as they are run and shown.
use vstd::prelude::*;
use vstd::string::*;
use crate::text::{append_joined, joined, texts};

verus! {

/// How compose is called.
#[derive(Debug, Clone, Copy, PartialEq, Eq, Structural)]
pub enum DockerComposeVariant {
    /// `docker-compose`.
    Standalone,
    /// `docker compose`.
    Plugin,
}

/// How compose can be called: `standalone` and `plugin` say which calls work.
pub fn docker_compose_variant(standalone: bool, plugin: bool) -> (r: Option<DockerComposeVariant>)
    ensures
        r == (if standalone {
            Some(DockerComposeVariant::Standalone)
        } else if plugin {
            Some(DockerComposeVariant::Plugin)
        } else {
            None
        }),
{
    if standalone {
        return Some(DockerComposeVariant::Standalone);
    }
    if plugin {
        return Some(DockerComposeVariant::Plugin);
    }
    None
}

/// A command: a program, its arguments, and variables to set for it.
#[derive(Debug)]
pub struct CommandSpec {
    pub program: String,
    pub args: Vec<String>,
    pub envs: Vec<(String, String)>,
}

/// The settings `key=value`.
pub open spec fn settings(envs: Seq<(String, String)>) -> Seq<Seq<char>> {
    envs.map_values(|e: (String, String)| e.0@ + "="@ + e.1@)
}

impl CommandSpec {
    /// The command calls `program` with `args`, with no variables set.
    pub open spec fn calls(&self, program: Seq<char>, args: Seq<Seq<char>>) -> bool {
        &&& self.program@ == program
        &&& texts(self.args@) == args
        &&& self.envs@.len() == 0
    }

    /// A command without variables.
    pub fn new(program: &str, args: Vec<String>) -> (c: Self)
        ensures
            c.calls(program@, texts(args@)),
            c.args == args,
    {
        CommandSpec { program: String::from_str(program), args, envs: Vec::new() }
    }

    /// The same command with one more variable.
    pub fn with_env(self, key: &str, value: &str) -> (c: Self)
        ensures
            c.program == self.program,
            c.args == self.args,
            c.envs@.len() == self.envs@.len() + 1,
            c.envs@.drop_last() == self.envs@,
            c.envs@.last().0@ == key@,
            c.envs@.last().1@ == value@,
    {
        let mut envs = self.envs;
        envs.push((String::from_str(key), String::from_str(value)));
        assert(envs@.drop_last() =~= self.envs@);
        CommandSpec { program: self.program, args: self.args, envs }
    }

    /// The command as it is shown: variables, program and arguments, with spaces
    /// between them.
    pub open spec fn shown(&self) -> Seq<char> {
        let command = if self.args@.len() == 0 {
            self.program@
        } else {
            self.program@ + " "@ + joined(texts(self.args@), " "@)
        };
        if self.envs@.len() == 0 {
            command
        } else {
            joined(settings(self.envs@), " "@) + " "@ + command
        }
    }

    /// The command as it is shown.
    pub fn display(&self) -> (s: String)
        ensures
            s@ == self.shown(),
    {
        let mut set: Vec<String> = Vec::new();
        let mut i: usize = 0;
        while i < self.envs.len()
            invariant
                i <= self.envs@.len(),
                texts(set@) == settings(self.envs@.take(i as int)),
            decreases self.envs@.len() - i,
        {
            let mut one = self.envs[i].0.clone();
            one.append("=");
            one.append(self.envs[i].1.as_str());
            let ghost before = set@;
            set.push(one);
            proof {
                let more = self.envs@.take(i + 1);
                assert(one@ == settings(more)[i as int]);
                assert(texts(before).len() == settings(self.envs@.take(i as int)).len());
                assert forall|k: int| 0 <= k < i implies texts(set@)[k] == settings(more)[k] by {
                    assert(texts(before)[k] == settings(self.envs@.take(i as int))[k]);
                }
                assert(texts(set@) =~= settings(more));
            }
            i = i + 1;
        }
        assert(self.envs@.take(i as int) =~= self.envs@);
        let mut s = String::new();
        if set.len() > 0 {
            append_joined(&mut s, &set);
            s.append(" ");
        }
        s.append(self.program.as_str());
        if self.args.len() > 0 {
            s.append(" ");
            append_joined(&mut s, &self.args);
        }
        proof {
            assert(set@.len() == texts(set@).len());
            assert(s@ =~= self.shown());
        }
        s
    }
}

} // verus!
