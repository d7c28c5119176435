//! The arguments of the program: the path of the source file.

use crate::errors::ApplicationError;
use vstd::prelude::*;
use vstd::string::*;

verus! {

/// What the program was asked to run.
#[derive(Debug)]
pub struct Args {
    pub file_path: String,
}

impl Args {
    /// Takes the arguments as the program was given them: its own name, then
    /// the path of the source file. Whatever follows is left aside.
    pub fn build(args: Vec<String>) -> (result: Result<Args, ApplicationError>)
        ensures
            args.len() >= 2 ==> (result matches Ok(built) && built.file_path@ == args[1]@),
            args.len() < 2 ==> (result matches Err(ApplicationError::Args(message)) && message@
                == "no file provided"@),
    {
        if args.len() < 2 {
            return Err(ApplicationError::Args(String::from_str("no file provided")));
        }
        Ok(Args { file_path: args[1].clone() })
    }
}

} // verus!
