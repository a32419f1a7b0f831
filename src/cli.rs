use vstd::prelude::*;

verus! {

/// Whether one of the command-line arguments asks for help.
pub fn has_help_flag(args: &Vec<String>) -> (r: bool)
    ensures
        r == exists|i: int|
            0 <= i < args@.len() && ((#[trigger] args@[i])@ == "--help"@ || args@[i]@ == "-h"@),
{
    let long = String::from_str("--help");
    let short = String::from_str("-h");
    let mut i: usize = 0;
    while i < args.len()
        invariant
            i <= args@.len(),
            long@ == "--help"@,
            short@ == "-h"@,
            forall|k: int|
                0 <= k < i ==> !((#[trigger] args@[k])@ == "--help"@ || args@[k]@ == "-h"@),
        decreases args@.len() - i,
    {
        if args[i] == long || args[i] == short {
            return true;
        }
        i = i + 1;
    }
    false
}

} // verus!
