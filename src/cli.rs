//! The command line: exactly one argument, the path of the input.
use vstd::prelude::*;

verus! {

/// The command line did not hold exactly one argument.
#[derive(Clone, Copy, Debug, PartialEq, Eq)]
pub struct UsageError;

/// The input path named on the command line (`args[0]` is the program),
/// or a usage error where there is not exactly one argument.
pub fn process_command_line(args: Vec<String>) -> (r: Result<String, UsageError>)
    ensures
        args@.len() == 2 <==> r is Ok,
        r matches Ok(path) ==> path@ == args@[1]@,
{
    if args.len() == 2 {
        let path = args[1].clone();
        Ok(path)
    } else {
        Err(UsageError)
    }
}

} // verus!
