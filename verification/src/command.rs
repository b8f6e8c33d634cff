use vstd::prelude::*;
use crate::text::{eq_ignore_case, str_eq_ignore_case};
use std::str::FromStr;

verus! {

/// The three operations a run can perform.
#[derive(Clone, Copy, Debug, PartialEq, Eq, Structural)]
pub enum Command {
    /// Write files from the current directory into the database.
    Upload,
    /// Read stored content from the database into local files.
    Download,
    /// Show the stored files with their timestamps.
    List,
}

/// The command a given word names, compared without regard to ASCII case;
/// `None` for every other word.
pub open spec fn parse_command(s: Seq<char>) -> Option<Command> {
    if eq_ignore_case(s, "Upload"@) {
        Some(Command::Upload)
    } else if eq_ignore_case(s, "Download"@) {
        Some(Command::Download)
    } else if eq_ignore_case(s, "List"@) {
        Some(Command::List)
    } else {
        None
    }
}

impl Command {
    /// Parses a command word, accepting any ASCII casing of the three
    /// command names.
    pub fn from_str_case_insensitive(input: &str) -> (r: Result<Command, ()>)
        ensures
            r matches Ok(c) ==> parse_command(input@) == Some(c),
            r is Err ==> parse_command(input@) is None,
    {
        if str_eq_ignore_case(input, "Upload") {
            Ok(Command::Upload)
        } else if str_eq_ignore_case(input, "Download") {
            Ok(Command::Download)
        } else if str_eq_ignore_case(input, "List") {
            Ok(Command::List)
        } else {
            Err(())
        }
    }
}

impl FromStr for Command {
    type Err = ();

    fn from_str(input: &str) -> Result<Command, Self::Err> {
        Command::from_str_case_insensitive(input)
    }
}

} // verus!
