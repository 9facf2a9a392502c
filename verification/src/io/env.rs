//! Command-line arguments.

use vstd::prelude::*;

verus! {

/// The arguments that follow the program's name: all but the first.
pub fn without_program(full_args: Vec<String>) -> (args: Vec<String>)
    ensures
        full_args@.len() == 0 ==> args@ == full_args@,
        full_args@.len() > 0 ==> args@ == full_args@.skip(1),
{
    let mut args = full_args;
    if args.len() > 0 {
        args.remove(0);
        assert(args@ =~= full_args@.skip(1));
    }
    args
}

} // verus!
