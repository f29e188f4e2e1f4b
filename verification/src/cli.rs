//! The command surface: what an operator can ask for.

use crate::env::EnvVars;
use crate::text::{chars_of, find_char, first_of, holds_char, string_of, strings_view};
use vstd::prelude::*;

verus! {

/// How answers are printed.
#[derive(Debug, Clone, Copy, PartialEq, Eq, Structural)]
pub enum OutputFormat {
    /// Plain text.
    Text,
    /// JSON.
    Json,
}

impl Default for OutputFormat {
    fn default() -> (format: Self)
        ensures
            format == OutputFormat::Text,
    {
        OutputFormat::Text
    }
}

/// What can be asked about the tokens of the remote frontend.
#[derive(Debug, Clone, PartialEq, Eq)]
pub enum AuthCommands {
    /// Make a new token called `name`, valid for `expires_in` days, or for
    /// ever.
    Generate { name: String, expires_in: Option<u32> },
    /// List the tokens.
    List,
    /// Revoke `token`.
    Revoke { token: String },
}

/// What an operator can ask for.
#[allow(inconsistent_fields)]
#[derive(Debug, Clone, PartialEq, Eq)]
pub enum Commands {
    /// Start `command` with `args` under `name`; `env` holds variables as
    /// `key=value`.
    Start {
        name: String,
        env: Vec<String>,
        workdir: Option<String>,
        log_dir: Option<String>,
        command: String,
        args: Vec<String>,
    },
    /// Stop a process.
    Stop { name: String },
    /// Restart a process.
    Restart { name: String },
    /// Delete a process.
    Delete { name: String },
    /// Clear the processes at rest, or all of them.
    Clear { all: bool },
    /// List the processes.
    List,
    /// Show the status of a process.
    Status { name: String },
    /// Show the log of a process, or its rotated logs, or rotate its log.
    Logs { name: String, lines: Option<usize>, rotated: bool, rotate: bool },
    /// Serve the remote frontend on `port`.
    Serve { port: u16 },
    /// Manage the tokens of the remote frontend.
    Auth { command: AuthCommands },
}

/// One invocation.
#[derive(Debug, Clone, PartialEq, Eq)]
pub struct Cli {
    pub format: OutputFormat,
    pub command: Commands,
}

/// Name and value that the text `entry` sets: what stands before its first
/// `=` and what stands after it. A text without `=` sets nothing.
pub open spec fn parsed_entry(entry: Seq<char>) -> Option<(Seq<char>, Seq<char>)> {
    if holds_char(entry, '=') {
        Some((entry.take(first_of(entry, '=')), entry.skip(first_of(entry, '=') + 1)))
    } else {
        None
    }
}

/// The variables that the texts of `entries` set, a later one replacing an
/// earlier one of the same name.
pub open spec fn parsed_env(entries: Seq<Seq<char>>) -> Map<Seq<char>, Seq<char>>
    decreases entries.len(),
{
    if entries.len() == 0 {
        Map::empty()
    } else {
        let before = parsed_env(entries.drop_last());
        match parsed_entry(entries.last()) {
            Some((name, value)) => before.insert(name, value),
            None => before,
        }
    }
}

/// Name and value that the text `entry` sets, if it holds a `=`.
pub fn parse_entry(entry: &str) -> (r: Option<(String, String)>)
    ensures
        match r {
            Some((name, value)) => parsed_entry(entry@) == Some((name@, value@)),
            None => parsed_entry(entry@) is None,
        },
{
    let chars = chars_of(entry);
    match find_char(&chars, '=') {
        Some(i) => {
            let name = string_of(&chars, 0, i);
            let value = string_of(&chars, i + 1, chars.len());
            proof {
                assert(chars@.take(i as int) =~= chars@.subrange(0, i as int));
                assert(chars@.skip(i + 1) =~= chars@.subrange(i + 1, chars@.len() as int));
            }
            Some((name, value))
        },
        None => None,
    }
}

impl Commands {
    /// The variables that the texts `key=value` of `env_strings` set. A
    /// text without `=` is passed over; of two texts with the same key the
    /// later one counts.
    pub fn parse_env_vars(env_strings: Vec<String>) -> (env_vars: EnvVars)
        ensures
            env_vars@ == parsed_env(strings_view(env_strings@)),
    {
        let mut env_vars = EnvVars::new();
        let ghost all = strings_view(env_strings@);
        let mut i: usize = 0;
        assert(all.take(0) =~= Seq::<Seq<char>>::empty());
        while i < env_strings.len()
            invariant
                i <= env_strings.len(),
                all == strings_view(env_strings@),
                env_vars@ == parsed_env(all.take(i as int)),
            decreases env_strings.len() - i,
        {
            proof {
                let grown = all.take(i + 1);
                assert(grown.drop_last() =~= all.take(i as int));
                assert(grown.last() == env_strings@[i as int]@);
            }
            match parse_entry(env_strings[i].as_str()) {
                Some((name, value)) => {
                    env_vars.insert(name, value);
                },
                None => {},
            }
            i += 1;
        }
        assert(all.take(env_strings.len() as int) =~= all);
        env_vars
    }
}

} // verus!
