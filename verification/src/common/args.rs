//! What the command line asks for.

use vstd::prelude::*;
use vstd::string::*;
use crate::common::text::{trim, trimmed};

verus! {

/// What the program is to do.
#[derive(Debug, Clone, PartialEq)]
pub enum Exec {
    /// List the code of a file's main function and of every function in it.
    PrintBytecodeRecursive(String),
    /// List the code of a file's main function.
    PrintBytecode(String),
    /// Run a file.
    DoFile(String),
    /// Nothing: no argument was given.
    Exit,
}

/// The message for an option that no file name follows.
pub open spec fn expected_file_name() -> Seq<char> {
    "expected file name"@
}

/// Gives a name if there is one, and the given error if there is none.
pub fn get_name(name: Option<&String>, err: &str) -> (r: Result<String, String>)
    ensures
        match name {
            Some(n) => r matches Ok(s) && s@ == n@,
            None => r matches Err(e) && e@ == err@,
        },
{
    match name {
        Some(name) => Ok(name.clone()),
        None => Err(String::from_str(err)),
    }
}

/// Decides what to do from the first argument as it was given, the same
/// argument trimmed, and the trimmed second argument if there is one: `-l`
/// and `-ll` ask for a listing of the file that the second argument names,
/// and fail without one; any other first argument is the file to run.
pub fn decide(given: &String, flag: &str, file: Option<&String>) -> (r: Result<Exec, String>)
    ensures
        flag@ == "-l"@ ==> match file {
            Some(f) => r matches Ok(Exec::PrintBytecode(s)) && s@ == f@,
            None => r matches Err(e) && e@ == expected_file_name(),
        },
        flag@ == "-ll"@ ==> match file {
            Some(f) => r matches Ok(Exec::PrintBytecodeRecursive(s)) && s@ == f@,
            None => r matches Err(e) && e@ == expected_file_name(),
        },
        flag@ != "-l"@ && flag@ != "-ll"@ ==> (r matches Ok(Exec::DoFile(s)) && s@ == given@),
{
    proof {
        reveal_strlit("-l");
        reveal_strlit("-ll");
        assert("-l"@.len() == 2 && "-ll"@.len() == 3);
    }
    let flag: String = String::from_str(flag);
    if flag == String::from_str("-l") {
        let name: String = get_name(file, "expected file name")?;
        Ok(Exec::PrintBytecode(name))
    } else if flag == String::from_str("-ll") {
        let name: String = get_name(file, "expected file name")?;
        Ok(Exec::PrintBytecodeRecursive(name))
    } else {
        Ok(Exec::DoFile(given.clone()))
    }
}

/// Reads the command line, whose first entry is the program's own name.
/// Without an argument there is nothing to do. The first argument is read
/// without the white space around it, and so is the file name behind `-l`
/// and `-ll`; a file to run is taken as it was given.
pub fn parse_args(args: Vec<String>) -> (r: Result<Exec, String>)
    ensures
        args.len() < 2 ==> r == Ok::<Exec, String>(Exec::Exit),
        args.len() >= 2 ==> {
            let flag = trimmed(args@[1]@);
            &&& flag == "-l"@ ==> (if args.len() >= 3 {
                r matches Ok(Exec::PrintBytecode(s)) && s@ == trimmed(args@[2]@)
            } else {
                r matches Err(e) && e@ == expected_file_name()
            })
            &&& flag == "-ll"@ ==> (if args.len() >= 3 {
                r matches Ok(Exec::PrintBytecodeRecursive(s)) && s@ == trimmed(args@[2]@)
            } else {
                r matches Err(e) && e@ == expected_file_name()
            })
            &&& flag != "-l"@ && flag != "-ll"@ ==> (r matches Ok(Exec::DoFile(s)) && s@ == args@[1]@)
        },
{
    if args.len() < 2 {
        return Ok(Exec::Exit);
    }
    let flag: &str = trim(args[1].as_str());
    if args.len() >= 3 {
        let file: String = String::from_str(trim(args[2].as_str()));
        decide(&args[1], flag, Some(&file))
    } else {
        decide(&args[1], flag, None)
    }
}

} // verus!
