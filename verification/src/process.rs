//! The workload process: reading its command line, naming the namespace it is
//! to run in, and the exit codes by which a short-lived helper process reports
//! how its work inside a namespace went.

use crate::text::{chars_of, remove_char, split_words, texts, without_char, words};
use vstd::prelude::*;

verus! {

/// Exit code of a helper that did its work.
pub const EXIT_DONE: i32 = 0;

/// Exit code of a helper that could not enter the namespace or do its work
/// there, and left things as they were.
pub const EXIT_SETUP_FAILED: i32 = 1;

/// Exit code of a helper that entered the namespace and did not find there
/// the link that it was to work on.
pub const EXIT_LINK_NOT_FOUND: i32 = 2;

/// Why a workload could not be started.
#[derive(Debug, Clone, Copy, PartialEq, Eq, Structural)]
pub enum LaunchError {
    /// The command line holds no word, so there is no program to run.
    EmptyCommand,
    /// The program named by the command line was not found.
    CommandNotFound,
    /// The child could not enter the namespace. It ended there, and the
    /// program was never run.
    NamespaceSwitchFailed,
    /// The child could not be forked, or the program could not be loaded.
    SpawnFailed,
}

/// How the work of a helper inside a namespace ended.
#[derive(Debug, Clone, Copy, PartialEq, Eq, Structural)]
pub enum ChildOutcome {
    /// The helper did its work.
    Done,
    /// The helper entered the namespace and did not find the link there.
    LinkNotFound,
    /// The helper could not enter the namespace or do its work there.
    SetupFailed,
    /// The helper ended in a way it never chooses: another exit code, or no
    /// exit code at all because a signal ended it.
    Crashed,
}

/// A program and its arguments, read from a command line.
#[derive(Debug)]
pub struct ProcessExecutor {
    pub program: String,
    pub args: Vec<String>,
}

/// What is needed to start a workload inside a namespace: the program, its
/// arguments, and the path of the file that stands for the namespace.
#[derive(Debug)]
pub struct LaunchPlan {
    pub program: String,
    pub args: Vec<String>,
    pub ns_path: String,
}

/// The directory under which each named namespace has its file.
pub open spec fn netns_dir() -> Seq<char> {
    "/run/netns/"@
}

/// The words of a command line: single quotes are taken out wherever they
/// stand, then the line is cut at whitespace. There is no quoting: an argument
/// cannot hold whitespace.
pub open spec fn command_words(cmd: Seq<char>) -> Seq<Seq<char>> {
    words(without_char(cmd, '\''))
}

/// What a helper's exit status says of its work.
pub open spec fn outcome_of(status: Option<i32>) -> ChildOutcome {
    match status {
        Some(code) => if code == EXIT_DONE {
            ChildOutcome::Done
        } else if code == EXIT_SETUP_FAILED {
            ChildOutcome::SetupFailed
        } else if code == EXIT_LINK_NOT_FOUND {
            ChildOutcome::LinkNotFound
        } else {
            ChildOutcome::Crashed
        },
        None => ChildOutcome::Crashed,
    }
}

/// Why a start that failed did fail. The child's failure to enter the
/// namespace comes first: whatever else is reported, the program was never
/// run for that reason.
pub open spec fn launch_error_of(switch_failed: bool, not_found: bool) -> LaunchError {
    if switch_failed {
        LaunchError::NamespaceSwitchFailed
    } else if not_found {
        LaunchError::CommandNotFound
    } else {
        LaunchError::SpawnFailed
    }
}

/// The constant `rtnetlink::NETNS_PATH`: the directory of the namespace files,
/// with its closing slash.
#[verifier::external_body]
fn netns_path() -> (dir: String)
    ensures
        dir@ == netns_dir(),
{
    rtnetlink::NETNS_PATH.to_string()
}

/// Path of the file that stands for the namespace `name`.
pub fn namespace_path(name: &str) -> (path: String)
    ensures
        path@ == netns_dir() + name@,
{
    let mut path = netns_path();
    let chars = chars_of(name);
    let mut i: usize = 0;
    assert(chars@.take(0) =~= Seq::empty());
    assert(netns_dir() + Seq::<char>::empty() =~= netns_dir());
    while i < chars.len()
        invariant
            i <= chars.len(),
            path@ == netns_dir() + chars@.take(i as int),
        decreases chars.len() - i,
    {
        path.push(chars[i]);
        assert(chars@.take(i + 1) =~= chars@.take(i as int).push(chars@[i as int]));
        assert(path@ =~= netns_dir() + chars@.take(i + 1));
        i = i + 1;
    }
    assert(chars@.take(i as int) =~= chars@);
    path
}

/// Says why a start that failed did fail: `switch_failed` tells that the child
/// reported that it could not enter the namespace, `not_found` that the
/// program was not found.
pub fn launch_failure(switch_failed: bool, not_found: bool) -> (e: LaunchError)
    ensures
        e == launch_error_of(switch_failed, not_found),
{
    if switch_failed {
        LaunchError::NamespaceSwitchFailed
    } else if not_found {
        LaunchError::CommandNotFound
    } else {
        LaunchError::SpawnFailed
    }
}

/// Reads a helper's exit status: its exit code, or `None` where a signal
/// ended it.
pub fn child_outcome(status: Option<i32>) -> (outcome: ChildOutcome)
    ensures
        outcome == outcome_of(status),
{
    match status {
        Some(code) => {
            if code == EXIT_DONE {
                ChildOutcome::Done
            } else if code == EXIT_SETUP_FAILED {
                ChildOutcome::SetupFailed
            } else if code == EXIT_LINK_NOT_FOUND {
                ChildOutcome::LinkNotFound
            } else {
                ChildOutcome::Crashed
            }
        },
        None => ChildOutcome::Crashed,
    }
}

impl ProcessExecutor {
    /// Reads a command line: its first word is the program, the others are the
    /// arguments.
    pub fn new(cmd: &str) -> (made: Result<ProcessExecutor, LaunchError>)
        ensures
            match made {
                Ok(executor) => {
                    &&& command_words(cmd@).len() > 0
                    &&& executor.program@ == command_words(cmd@)[0]
                    &&& texts(executor.args@) == command_words(cmd@).drop_first()
                },
                Err(e) => e == LaunchError::EmptyCommand && command_words(cmd@).len() == 0,
            },
    {
        let replaced_string = remove_char(cmd, '\'');
        let mut tokens = split_words(replaced_string.as_str());
        let ghost all = texts(tokens@);
        if tokens.len() == 0 {
            return Err(LaunchError::EmptyCommand);
        }
        let program = tokens.remove(0);
        assert(program@ == all[0]);
        assert(texts(tokens@) =~= all.drop_first());
        Ok(ProcessExecutor { program, args: tokens })
    }

    /// What is needed to start this program inside the namespace `netns_name`.
    /// The caller starts it, and makes the child enter the namespace after the
    /// fork and before the program is loaded; a child that cannot enter ends
    /// there and never runs the program.
    pub fn run(&self, netns_name: &str) -> (plan: LaunchPlan)
        ensures
            plan.program@ == self.program@,
            texts(plan.args@) == texts(self.args@),
            plan.ns_path@ == netns_dir() + netns_name@,
    {
        let mut args: Vec<String> = Vec::new();
        let mut i: usize = 0;
        while i < self.args.len()
            invariant
                i <= self.args.len(),
                texts(args@) == texts(self.args@).take(i as int),
            decreases self.args.len() - i,
        {
            let ghost before = texts(args@);
            args.push(self.args[i].clone());
            assert(texts(args@) =~= before.push(self.args@[i as int]@));
            assert(texts(self.args@).take(i + 1) =~= texts(self.args@).take(i as int).push(
                self.args@[i as int]@,
            ));
            i = i + 1;
        }
        assert(texts(self.args@).take(i as int) =~= texts(self.args@));
        LaunchPlan { program: self.program.clone(), args, ns_path: namespace_path(netns_name) }
    }
}

} // verus!
