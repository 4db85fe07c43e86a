//! The program's arguments.
use vstd::prelude::*;
use crate::error::Error;

verus! {

/// What the program was called with.
pub struct Args {
    /// The configuration file.
    pub config_path: String,
}

/// Reads the arguments (the program's name first): exactly one, the
/// configuration file, else a usage error.
pub fn args_from(args: Vec<String>) -> (r: Result<Args, Error>)
    ensures
        args@.len() == 2 ==> (r matches Ok(a) && a.config_path@ == args@[1]@),
        args@.len() != 2 ==> r == Err::<Args, Error>(Error::Usage),
{
    let mut args = args;
    if args.len() == 2 {
        let path = args.remove(1);
        Ok(Args { config_path: path })
    } else {
        Err(Error::Usage)
    }
}

} // verus!
