//! Reading the program's command line: which command to run and which
//! configuration file to use.
use vstd::prelude::*;

use crate::ipc::spec_daemon_args;
use crate::text::{chars_of, chars_start_with, starts_with, str_eq, string_from_chars, string_views};

verus! {

/// Why the command line was refused.
#[derive(Clone, Copy, Debug, PartialEq, Eq, Structural)]
pub enum ArgsError {
    /// `--config` is not followed by a path.
    ConfigRequiresPath,
}

/// What the program is asked to do.
#[derive(Clone, Debug, PartialEq, Eq)]
pub enum Command {
    /// Check the configuration, the sound and the URL rules, then report.
    SelfCheck,
    /// Queue the event read from standard input.
    EmitStdin,
    /// Queue the event given on the command line.
    EmitJson(String),
    /// Run the notification daemon.
    Daemon,
    /// Do nothing.
    Nothing,
}

/// The configuration file that the command line names: the argument after the
/// first `--config`, which must be there and must not start with `--`; without
/// `--config`, the one that the environment names, if any.
pub open spec fn spec_config_path_from_args(args: Seq<Seq<char>>, env_config: Option<Seq<char>>) -> Result<
    Option<Seq<char>>,
    ArgsError,
> {
    match args.index_of_first("--config"@) {
        Some(i) => if i + 1 < args.len() && !starts_with(args[i + 1], "--"@) {
            Ok(Some(args[i + 1]))
        } else {
            Err(ArgsError::ConfigRequiresPath)
        },
        None => Ok(env_config),
    }
}

/// The command that the arguments ask for (the first argument is the program):
/// `--self-check` anywhere; `emit` with `--stdin` anywhere; `emit --json` with the
/// event as the next argument (empty when there is none); `daemon`; else nothing.
pub open spec fn spec_command(args: Seq<Seq<char>>) -> CommandModel {
    if args.contains("--self-check"@) {
        CommandModel::SelfCheck
    } else if args.len() > 1 && args[1] == "emit"@ && args.contains("--stdin"@) {
        CommandModel::EmitStdin
    } else if args.len() > 2 && args[1] == "emit"@ && args[2] == "--json"@ {
        CommandModel::EmitJson(
            if args.len() > 3 {
                args[3]
            } else {
                seq![]
            },
        )
    } else if args.len() > 1 && args[1] == "daemon"@ {
        CommandModel::Daemon
    } else {
        CommandModel::Nothing
    }
}

/// The mathematical value of a [`Command`].
pub enum CommandModel {
    SelfCheck,
    EmitStdin,
    EmitJson(Seq<char>),
    Daemon,
    Nothing,
}

impl View for Command {
    type V = CommandModel;

    open spec fn view(&self) -> CommandModel {
        match self {
            Command::SelfCheck => CommandModel::SelfCheck,
            Command::EmitStdin => CommandModel::EmitStdin,
            Command::EmitJson(s) => CommandModel::EmitJson(s@),
            Command::Daemon => CommandModel::Daemon,
            Command::Nothing => CommandModel::Nothing,
        }
    }
}

fn position_of(args: &Vec<String>, word: &str) -> (r: Option<usize>)
    ensures
        match r {
            Some(k) => string_views(args@).index_of_first(word@) == Some(k as int),
            None => string_views(args@).index_of_first(word@) is None,
        },
{
    let ghost v = string_views(args@);
    let mut i: usize = 0;
    while i < args.len()
        invariant
            v == string_views(args@),
            i <= args.len(),
            forall|j: int| 0 <= j < i ==> v[j] != word@,
        decreases args.len() - i,
    {
        assert(v[i as int] == args@[i as int]@);
        if str_eq(args[i].as_str(), word) {
            proof {
                v.index_of_first_ensures(word@);
                assert(v.contains(word@));
                let k = v.index_of_first(word@).unwrap();
                if k < i {
                    assert(v[k] != word@);
                }
                if k > i {
                    assert(v[i as int] != word@);
                }
            }
            return Some(i);
        }
        i += 1;
    }
    proof {
        v.index_of_first_ensures(word@);
        if v.contains(word@) {
            let k = choose|k: int| 0 <= k < v.len() && v[k] == word@;
            assert(v[k] != word@);
        }
    }
    None
}

fn contains_word(args: &Vec<String>, word: &str) -> (r: bool)
    ensures
        r == string_views(args@).contains(word@),
{
    let p = position_of(args, word);
    proof {
        string_views(args@).index_of_first_ensures(word@);
    }
    p.is_some()
}

fn arg_is(args: &Vec<String>, i: usize, word: &str) -> (r: bool)
    ensures
        r == (i < args@.len() && string_views(args@)[i as int] == word@),
{
    if i < args.len() {
        str_eq(args[i].as_str(), word)
    } else {
        false
    }
}

/// The configuration file that the command line names, else the one that the
/// environment names.
pub fn config_path_from_args(args: &Vec<String>, env_config: Option<String>) -> (r: Result<
    Option<String>,
    ArgsError,
>)
    ensures
        match spec_config_path_from_args(
            string_views(args@),
            match env_config {
                Some(s) => Some(s@),
                None => None,
            },
        ) {
            Ok(Some(p)) => r matches Ok(Some(q)) && q@ == p,
            Ok(None) => r == Ok::<Option<String>, ArgsError>(None),
            Err(e) => r == Err::<Option<String>, ArgsError>(e),
        },
{
    let found = position_of(args, "--config");
    proof {
        string_views(args@).index_of_first_ensures("--config"@);
    }
    match found {
        Some(index) => {
            proof {
                let i = string_views(args@).index_of_first("--config"@).unwrap();
                assert(string_views(args@).len() == args@.len());
                assert(0 <= i < args@.len());
                assert(index == i);
            }
            assert(index < args.len());
            if index + 1 < args.len() {
                assert(string_views(args@)[index + 1] == args@[index + 1]@);
                let value = chars_of(args[index + 1].as_str());
                let dashes = chars_of("--");
                if !chars_start_with(&value, &dashes) {
                    return Ok(Some(string_from_chars(&value)));
                }
            }
            Err(ArgsError::ConfigRequiresPath)
        },
        None => Ok(env_config),
    }
}

/// The command that the arguments ask for.
pub fn command_from_args(args: &Vec<String>) -> (c: Command)
    ensures
        c@ == spec_command(string_views(args@)),
{
    if contains_word(args, "--self-check") {
        Command::SelfCheck
    } else if arg_is(args, 1, "emit") && contains_word(args, "--stdin") {
        Command::EmitStdin
    } else if arg_is(args, 1, "emit") && arg_is(args, 2, "--json") {
        if args.len() > 3 {
            Command::EmitJson(args[3].as_str().to_owned())
        } else {
            Command::EmitJson(String::new())
        }
    } else if arg_is(args, 1, "daemon") {
        Command::Daemon
    } else {
        Command::Nothing
    }
}

/// A daemon started with the arguments that `daemon_args` gives reads back the
/// configuration file it was given, and runs as the daemon.
pub proof fn lemma_daemon_args_round_trip(
    program: Seq<char>,
    config_path: Option<Seq<char>>,
    env_config: Option<Seq<char>>,
)
    requires
        program != "--config"@,
        program != "--self-check"@,
        config_path matches Some(p) ==> !starts_with(p, "--"@),
    ensures
        spec_config_path_from_args(seq![program] + spec_daemon_args(config_path), env_config)
            == match config_path {
            Some(p) => Ok::<Option<Seq<char>>, ArgsError>(Some(p)),
            None => Ok::<Option<Seq<char>>, ArgsError>(env_config),
        },
        spec_command(seq![program] + spec_daemon_args(config_path)) == CommandModel::Daemon,
{
    reveal_strlit("--config");
    reveal_strlit("daemon");
    reveal_strlit("--self-check");
    reveal_strlit("emit");
    let args = seq![program] + spec_daemon_args(config_path);
    assert(args[0] == program);
    assert(args[1] == "daemon"@);
    assert(("daemon"@)[0] != ("--config"@)[0]);
    assert("daemon"@ != "--config"@);
    assert("daemon"@ != "--self-check"@);
    assert("daemon"@ != "emit"@);
    args.index_of_first_ensures("--config"@);
    match config_path {
        Some(p) => {
            assert(args =~= seq![program, "daemon"@, "--config"@, p]);
            assert(args[2] == "--config"@);
            if args.index_of_first("--config"@) != Some(2int) {
                let k = args.index_of_first("--config"@).unwrap();
                assert(k < 2);
            }
            assert(!args.contains("--self-check"@)) by {
                if args.contains("--self-check"@) {
                    let k = choose|k: int| 0 <= k < args.len() && args[k] == "--self-check"@;
                    assert(k == 0 || k == 1 || k == 2 || k == 3);
                    assert(("--config"@).len() != ("--self-check"@).len());
                    if k == 3 {
                        assert(p.take(2) =~= ("--self-check"@).take(2));
                        assert(("--self-check"@).take(2) =~= "--"@) by {
                            reveal_strlit("--");
                        }
                    }
                }
            }
        },
        None => {
            assert(args =~= seq![program, "daemon"@]);
            assert(!args.contains("--config"@)) by {
                if args.contains("--config"@) {
                    let k = choose|k: int| 0 <= k < args.len() && args[k] == "--config"@;
                    assert(k == 0 || k == 1);
                }
            }
            assert(!args.contains("--self-check"@)) by {
                if args.contains("--self-check"@) {
                    let k = choose|k: int| 0 <= k < args.len() && args[k] == "--self-check"@;
                    assert(k == 0 || k == 1);
                }
            }
        },
    }
}

} // verus!
