//! The arguments of a job, and which of them each command needs.

use vstd::prelude::*;
use vstd::string::StringExecFns;

verus! {

/// What the program is asked to do.
#[derive(Clone, Copy, Debug, PartialEq, Eq, Structural)]
pub enum Command {
    /// Make a pair of keys.
    GenKeys,
    /// Decrypt the files of a directory.
    Decrypt,
    /// Encrypt the files of a directory.
    Encrypt,
}

/// The arguments as they were given. `P` is the type of a path.
pub struct Args<P> {
    /// The command.
    pub command: Command,
    /// The file of the key.
    pub key: Option<P>,
    /// The source file or directory.
    pub source: Option<P>,
    /// The target directory.
    pub target: Option<P>,
}

/// The command that `name` stands for.
pub open spec fn command_named(name: Seq<char>) -> Option<Command> {
    if name == "enc"@ {
        Some(Command::Encrypt)
    } else if name == "dec"@ {
        Some(Command::Decrypt)
    } else if name == "keys"@ {
        Some(Command::GenKeys)
    } else {
        None
    }
}

/// What is said of a name that stands for no command.
pub open spec fn invalid_command_text(name: Seq<char>) -> Seq<char> {
    "Invalid command `"@ + name
        + "`. Must be either: `keys` to generate keys, `enc` for encryption, `dec` for decryption"@
}

/// What is wrong with the arguments of a transform, if anything: the first
/// of key, source and target that is missing.
pub open spec fn transform_complaint<P>(args: Args<P>) -> Option<Seq<char>> {
    if args.key is None {
        Some("Error: `key` argument not given"@)
    } else if args.source is None {
        Some("Error: `source` argument not given"@)
    } else if args.target is None {
        Some("Error: `target` argument not given"@)
    } else {
        None
    }
}

/// What is wrong with the arguments of making keys, if anything: the first
/// of key, source and target that is there.
pub open spec fn get_keys_complaint<P>(args: Args<P>) -> Option<Seq<char>> {
    if args.key is Some {
        Some("Error: `key` argument given when generating keys"@)
    } else if args.source is Some {
        Some("Error: `source` argument given when generating keys"@)
    } else if args.target is Some {
        Some("Error: `target` argument given when generating keys"@)
    } else {
        None
    }
}

/// What is wrong with the arguments, if anything.
pub open spec fn complaint<P>(args: Args<P>) -> Option<Seq<char>> {
    match args.command {
        Command::GenKeys => get_keys_complaint(args),
        Command::Decrypt | Command::Encrypt => transform_complaint(args),
    }
}

/// `outcome` refuses with the text `complaint`, or accepts where there is
/// none.
pub open spec fn says(outcome: Result<(), String>, complaint: Option<Seq<char>>) -> bool {
    match complaint {
        Some(text) => outcome matches Err(said) && said@ == text,
        None => outcome is Ok,
    }
}

impl Command {
    /// Reads a command: `enc`, `dec` or `keys`. Any other name is refused,
    /// with a text that names it.
    pub fn parse(s: &str) -> (outcome: Result<Command, String>)
        ensures
            match command_named(s@) {
                Some(command) => outcome == Ok::<Command, String>(command),
                None => outcome matches Err(text) && text@ == invalid_command_text(s@),
            },
    {
        let name = s.to_owned();
        if name == "enc".to_owned() {
            Ok(Command::Encrypt)
        } else if name == "dec".to_owned() {
            Ok(Command::Decrypt)
        } else if name == "keys".to_owned() {
            Ok(Command::GenKeys)
        } else {
            let mut text = "Invalid command `".to_owned();
            text.append(s);
            text.append(
                "`. Must be either: `keys` to generate keys, `enc` for encryption, `dec` for decryption",
            );
            Err(text)
        }
    }
}

impl std::str::FromStr for Command {
    type Err = String;

    fn from_str(s: &str) -> (outcome: Result<Self, String>)
        ensures
            match command_named(s@) {
                Some(command) => outcome == Ok::<Command, String>(command),
                None => outcome matches Err(text) && text@ == invalid_command_text(s@),
            },
    {
        Command::parse(s)
    }
}

/// Checks that the arguments suit the command.
pub fn validate_args<P>(args: &Args<P>) -> (outcome: Result<(), String>)
    ensures
        says(outcome, complaint(*args)),
{
    match args.command {
        Command::GenKeys => validate_get_keys(args),
        Command::Decrypt | Command::Encrypt => validate_transform(args),
    }
}

/// Checks the arguments of a transform: key, source and target are needed.
pub fn validate_transform<P>(args: &Args<P>) -> (outcome: Result<(), String>)
    ensures
        says(outcome, transform_complaint(*args)),
{
    if args.key.is_none() {
        Err("Error: `key` argument not given".to_owned())
    } else if args.source.is_none() {
        Err("Error: `source` argument not given".to_owned())
    } else if args.target.is_none() {
        Err("Error: `target` argument not given".to_owned())
    } else {
        Ok(())
    }
}

/// Checks the arguments of making keys: key, source and target must not be
/// given.
pub fn validate_get_keys<P>(args: &Args<P>) -> (outcome: Result<(), String>)
    ensures
        says(outcome, get_keys_complaint(*args)),
{
    if args.key.is_some() {
        Err("Error: `key` argument given when generating keys".to_owned())
    } else if args.source.is_some() {
        Err("Error: `source` argument given when generating keys".to_owned())
    } else if args.target.is_some() {
        Err("Error: `target` argument given when generating keys".to_owned())
    } else {
        Ok(())
    }
}

} // verus!
