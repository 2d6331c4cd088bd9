//! The command-line agent's decisions: its commands and flags, and the tasks it submits.
use vstd::prelude::*;

use crate::discord_bot::{title_from, title_with_default};
use crate::error::AgentError;
use crate::local_input::LoadedInput;
use crate::models::{TaskRecord, TaskStatus, TaskType};
use crate::text::{str_equal, string_views};

verus! {

/// The first position at or after `pos` that holds `flag`.
pub open spec fn first_flag(args: Seq<Seq<char>>, pos: int, flag: Seq<char>) -> Option<int>
    decreases args.len() - pos,
{
    if pos < 0 || pos >= args.len() {
        None
    } else if args[pos] == flag {
        Some(pos)
    } else {
        first_flag(args, pos + 1, flag)
    }
}

/// What the command line means, or what is wrong with it.
pub enum CliModel {
    Usage,
    Unknown(Seq<char>),
    MissingFlag(Seq<char>),
    MissingValue(Seq<char>),
    Submit(Seq<char>, Seq<char>),
    Status(Seq<char>),
    Result(Seq<char>),
    Worker(Seq<char>),
}

/// Reading `flag` from position `pos` on: the argument after the first `flag`, and the
/// position after it; the flag is missing where no argument is `flag`, its value where
/// `flag` is the last argument.
pub open spec fn flag_reading(args: Seq<Seq<char>>, pos: int, flag: Seq<char>) -> Result<
    (Seq<char>, int),
    CliModel,
> {
    match first_flag(args, pos, flag) {
        None => Err(CliModel::MissingFlag(flag)),
        Some(k) => if k + 1 < args.len() {
            Ok((args[k + 1], k + 2))
        } else {
            Err(CliModel::MissingValue(flag))
        },
    }
}

/// The meaning of the arguments (the program name left out): `submit --prompt P --path D`
/// (the `--path` flag after the prompt's value), and `status`, `result` or `worker` with
/// `--task-id T`.
pub open spec fn cli_meaning(args: Seq<Seq<char>>) -> CliModel {
    if args.len() == 0 {
        CliModel::Usage
    } else if args[0] == "submit"@ {
        match flag_reading(args, 1, "--prompt"@) {
            Err(e) => e,
            Ok((prompt, next)) => match flag_reading(args, next, "--path"@) {
                Err(e) => e,
                Ok((path, _)) => CliModel::Submit(prompt, path),
            },
        }
    } else if args[0] == "status"@ || args[0] == "result"@ || args[0] == "worker"@ {
        match flag_reading(args, 1, "--task-id"@) {
            Err(e) => e,
            Ok((id, _)) => if args[0] == "status"@ {
                CliModel::Status(id)
            } else if args[0] == "result"@ {
                CliModel::Result(id)
            } else {
                CliModel::Worker(id)
            },
        }
    } else {
        CliModel::Unknown(args[0])
    }
}

/// Each command word gives its own command: `submit` only `Submit`, `status` only `Status`,
/// `result` only `Result` and `worker` only `Worker`. With `--task-id T` right after the
/// word, `status`, `result` and `worker` give their command on `T`; `submit --prompt P
/// --path D` gives `Submit` with `P` and `D`.
pub proof fn commands_follow_their_words(args: Seq<Seq<char>>)
    ensures
        cli_meaning(args) is Submit ==> args[0] == seq!['s', 'u', 'b', 'm', 'i', 't'],
        cli_meaning(args) is Status ==> args[0] == seq!['s', 't', 'a', 't', 'u', 's'],
        cli_meaning(args) is Result ==> args[0] == seq!['r', 'e', 's', 'u', 'l', 't'],
        cli_meaning(args) is Worker ==> args[0] == seq!['w', 'o', 'r', 'k', 'e', 'r'],
        args.len() >= 3 && args[1] == "--task-id"@ ==> {
            &&& args[0] == seq!['s', 't', 'a', 't', 'u', 's'] ==> cli_meaning(args)
                == CliModel::Status(args[2])
            &&& args[0] == seq!['r', 'e', 's', 'u', 'l', 't'] ==> cli_meaning(args)
                == CliModel::Result(args[2])
            &&& args[0] == seq!['w', 'o', 'r', 'k', 'e', 'r'] ==> cli_meaning(args)
                == CliModel::Worker(args[2])
        },
        args.len() >= 5 && args[0] == seq!['s', 'u', 'b', 'm', 'i', 't'] && args[1]
            == "--prompt"@ && args[3] == "--path"@ ==> cli_meaning(args) == CliModel::Submit(
            args[2],
            args[4],
        ),
{
    reveal_strlit("submit");
    reveal_strlit("status");
    reveal_strlit("result");
    reveal_strlit("worker");
    reveal_strlit("--prompt");
    reveal_strlit("--path");
    assert("submit"@ =~= seq!['s', 'u', 'b', 'm', 'i', 't']);
    assert("status"@ =~= seq!['s', 't', 'a', 't', 'u', 's']);
    assert("result"@ =~= seq!['r', 'e', 's', 'u', 'l', 't']);
    assert("worker"@ =~= seq!['w', 'o', 'r', 'k', 'e', 'r']);
    assert("--prompt"@ != "--path"@) by {
        assert("--prompt"@.len() != "--path"@.len());
    }
}

pub open spec fn error_meaning(e: AgentError) -> CliModel {
    match e {
        AgentError::CliUsage => CliModel::Usage,
        AgentError::UnknownCommand(c) => CliModel::Unknown(c@),
        AgentError::MissingFlag(f) => CliModel::MissingFlag(f@),
        AgentError::MissingFlagValue(f) => CliModel::MissingValue(f@),
        _ => CliModel::Usage,
    }
}

pub open spec fn reading_view(r: Result<(String, usize), AgentError>) -> Result<
    (Seq<char>, int),
    CliModel,
> {
    match r {
        Ok((v, n)) => Ok((v@, n as int)),
        Err(e) => Err(error_meaning(e)),
    }
}

pub open spec fn command_view(r: Result<CliCommand, AgentError>) -> CliModel {
    match r {
        Ok(CliCommand::Submit { prompt, path }) => CliModel::Submit(prompt@, path@),
        Ok(CliCommand::Status { task_id }) => CliModel::Status(task_id@),
        Ok(CliCommand::Result { task_id }) => CliModel::Result(task_id@),
        Ok(CliCommand::Worker { task_id }) => CliModel::Worker(task_id@),
        Err(e) => error_meaning(e),
    }
}

/// Reads the value of `flag`, looking from position `pos` on.
pub fn read_flag(args: &Vec<String>, pos: usize, flag: &str) -> (r: Result<
    (String, usize),
    AgentError,
>)
    ensures
        reading_view(r) == flag_reading(string_views(args@), pos as int, flag@),
        r matches Err(e) ==> (e is MissingFlag || e is MissingFlagValue),
{
    let ghost av = string_views(args@);
    let mut i = pos;
    while i < args.len()
        invariant
            pos <= i,
            av == string_views(args@),
            first_flag(av, pos as int, flag@) == first_flag(av, i as int, flag@),
        decreases args.len() - i,
    {
        if str_equal(args[i].as_str(), flag) {
            if i + 1 < args.len() {
                let value = args[i + 1].clone();
                return Ok((value, i + 2));
            } else {
                return Err(AgentError::MissingFlagValue(String::from_str(flag)));
            }
        }
        i = i + 1;
    }
    Err(AgentError::MissingFlag(String::from_str(flag)))
}

/// A command of the command-line agent.
#[derive(Debug)]
pub enum CliCommand {
    Submit { prompt: String, path: String },
    Status { task_id: String },
    Result { task_id: String },
    Worker { task_id: String },
}

/// Reads the command and its flags from the arguments (the program name left out).
pub fn parse_cli(args: &Vec<String>) -> (r: Result<CliCommand, AgentError>)
    ensures
        command_view(r) == cli_meaning(string_views(args@)),
        r matches Err(e) ==> (e is CliUsage || e is UnknownCommand || e is MissingFlag
            || e is MissingFlagValue),
        args@.len() == 0 ==> r matches Err(AgentError::CliUsage),
{
    let ghost av = string_views(args@);
    if args.len() == 0 {
        return Err(AgentError::CliUsage);
    }
    assert(av[0] == args@[0]@);
    let command = args[0].as_str();
    if str_equal(command, "submit") {
        let (prompt, next) = match read_flag(args, 1, "--prompt") {
            Ok(found) => found,
            Err(e) => {
                return Err(e);
            },
        };
        let (path, _) = match read_flag(args, next, "--path") {
            Ok(found) => found,
            Err(e) => {
                return Err(e);
            },
        };
        Ok(CliCommand::Submit { prompt, path })
    } else if str_equal(command, "status") || str_equal(command, "result") || str_equal(
        command,
        "worker",
    ) {
        let (task_id, _) = match read_flag(args, 1, "--task-id") {
            Ok(found) => found,
            Err(e) => {
                return Err(e);
            },
        };
        if str_equal(command, "status") {
            Ok(CliCommand::Status { task_id })
        } else if str_equal(command, "result") {
            Ok(CliCommand::Result { task_id })
        } else {
            Ok(CliCommand::Worker { task_id })
        }
    } else {
        Err(AgentError::UnknownCommand(args[0].clone()))
    }
}

/// The title of a task submitted from the command line.
pub fn build_title(prompt: &str) -> (s: String)
    ensures
        s@ == title_from(prompt@, "Local analysis task"@),
{
    title_with_default(prompt, "Local analysis task")
}

/// A research task submitted from the command line, with its local input.
pub fn new_local_task(prompt: String, input: LoadedInput) -> (t: TaskRecord)
    ensures
        t.title@ == title_from(prompt@, "Local analysis task"@),
        t.prompt == prompt,
        t.thread_id == 0 && t.channel_id == 0 && t.discord_message_id == 0,
        t.task_type == TaskType::Research,
        t.status == TaskStatus::Accepted,
        t.input_source_path == Some(input.source_path),
        t.input_payload == Some(input.payload),
        !t.publish,
{
    let title = build_title(prompt.as_str());
    let mut task = TaskRecord::new(0, 0, 0, title, prompt, TaskType::Research);
    task.input_source_path = Some(input.source_path);
    task.input_payload = Some(input.payload);
    task
}

} // verus!
