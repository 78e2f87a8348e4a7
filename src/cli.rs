//! The command line: which subcommand to run, and on what.
use vstd::prelude::*;
use vstd::string::StringExecFns;
use crate::error::UcreError;

verus! {

/// The message for a missing subcommand.
pub const NO_SUBCOMMAND: &'static str = "ucre: Failed to get a subcommand";

/// The message for `ucc` without a file name.
pub const NO_FILENAME: &'static str = "ucre: Failed to get a filename, ucc requires one";

/// Reads the arguments `<program> ucc <filename>` and gives the file name to
/// compile. Fails when the subcommand or the file name is missing, or when
/// the subcommand is not `ucc`.
pub fn execution(args: &Vec<String>) -> (r: Result<String, UcreError>)
    ensures
        args@.len() < 2 ==> r == Err::<String, UcreError>(UcreError::Str(NO_SUBCOMMAND)),
        args@.len() >= 2 && args@[1]@ == "ucc"@ && args@.len() < 3 ==> r == Err::<
            String,
            UcreError,
        >(UcreError::Str(NO_FILENAME)),
        args@.len() >= 3 && args@[1]@ == "ucc"@ ==> (r matches Ok(f) && f@ == args@[2]@),
        args@.len() >= 2 && args@[1]@ != "ucc"@ ==> (r matches Err(UcreError::String(m))
            && m@ == args@[1]@ + " is not a valid subcommand"@),
{
    if args.len() < 2 {
        return Err(UcreError::from_str(NO_SUBCOMMAND));
    }
    let ucc = String::from_str("ucc");
    if args[1] == ucc {
        if args.len() < 3 {
            return Err(UcreError::from_str(NO_FILENAME));
        }
        Ok(args[2].clone())
    } else {
        Err(UcreError::new(args[1].clone().concat(" is not a valid subcommand")))
    }
}

} // verus!
