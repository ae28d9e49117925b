//! Command-line parsing of the developer tasks.
use vstd::prelude::*;
use crate::text::str_eq;

verus! {

/// The one usage line of the task runner.
pub const USAGE: &'static str = "usage: cargo xtask fixtures [--check]";

/// The refusal of an argument that is not valid Unicode.
pub const NOT_UNICODE: &'static str = "xtask arguments must be valid Unicode";

/// A developer task.
#[derive(Clone, Copy, Debug, PartialEq, Eq, Structural)]
pub enum Command {
    /// Prepare the codec fixtures, or with `check` only verify the cached ones.
    Fixtures { check: bool },
}

/// The outcome of parsing the arguments (each given as text, or `None` when
/// it was not valid Unicode): `fixtures` alone or followed by `--check`.
pub open spec fn parsed_command(args: Seq<Option<Seq<char>>>) -> Result<Command, Seq<char>> {
    if exists|i: int| 0 <= i < args.len() && args[i] is None {
        Err(NOT_UNICODE@)
    } else if args.len() == 1 && args[0] == Some("fixtures"@) {
        Ok(Command::Fixtures { check: false })
    } else if args.len() == 2 && args[0] == Some("fixtures"@) && args[1] == Some("--check"@) {
        Ok(Command::Fixtures { check: true })
    } else {
        Err(USAGE@)
    }
}

/// The models of the arguments.
pub open spec fn argument_texts(args: Seq<Option<String>>) -> Seq<Option<Seq<char>>> {
    args.map_values(|a: Option<String>| match a {
        Some(s) => Some(s@),
        None => None,
    })
}

/// Parses the task runner's arguments (the program name left out).
pub fn parse_args(args: Vec<Option<String>>) -> (parsed: Result<Command, String>)
    ensures
        match parsed {
            Ok(c) => parsed_command(argument_texts(args@)) == Ok::<Command, Seq<char>>(c),
            Err(m) => parsed_command(argument_texts(args@)) == Err::<Command, Seq<char>>(m@),
        },
{
    let ghost texts = argument_texts(args@);
    let n = args.len();
    let mut i: usize = 0;
    while i < n
        invariant
            n == args@.len(),
            texts == argument_texts(args@),
            i <= n,
            forall|j: int| 0 <= j < i ==> texts[j] is Some,
        decreases n - i,
    {
        if args[i].is_none() {
            assert(texts[i as int] is None);
            return Err(String::from_str(NOT_UNICODE));
        }
        i += 1;
    }
    assert(forall|j: int| 0 <= j < n ==> texts[j] is Some);
    if n == 1 {
        if let Some(command) = &args[0] {
            assert(texts[0] == Some(command@));
            if str_eq(command.as_str(), "fixtures") {
                return Ok(Command::Fixtures { check: false });
            }
        }
    } else if n == 2 {
        if let (Some(command), Some(flag)) = (&args[0], &args[1]) {
            assert(texts[0] == Some(command@) && texts[1] == Some(flag@));
            if str_eq(command.as_str(), "fixtures") && str_eq(flag.as_str(), "--check") {
                return Ok(Command::Fixtures { check: true });
            }
        }
    }
    Err(String::from_str(USAGE))
}

} // verus!
