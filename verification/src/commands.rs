//! What the commands that start a program answer, for what the program did.

use crate::text::{append_str, join_text, text_result, unit_result};
use vstd::prelude::*;

verus! {

/// How a program ended: whether it reported success, and what it wrote to
/// its standard error.
#[derive(Clone, Debug, PartialEq, Eq)]
pub struct Finished {
    pub success: bool,
    pub stderr: String,
}

/// What opening a file answers, for what starting the opener gave.
pub open spec fn open_file_result(started: Result<(), String>) -> Result<(), Seq<char>> {
    match started {
        Ok(()) => Ok(()),
        Err(cause) => Err("Cannot open file: "@ + cause@),
    }
}

/// What launching the application `name` answers, for what starting it gave.
pub open spec fn launch_result(name: Seq<char>, started: Result<(), String>) -> Result<
    (),
    Seq<char>,
> {
    match started {
        Ok(()) => Ok(()),
        Err(cause) => Err("Cannot launch "@ + name + ": "@ + cause@),
    }
}

/// What purging the memory answers, for how the purge ran.
pub open spec fn purge_result(ran: Result<Finished, String>) -> Result<Seq<char>, Seq<char>> {
    match ran {
        Ok(end) => if end.success {
            Ok("Memory purged successfully"@)
        } else {
            Err("Purge failed: "@ + end.stderr@)
        },
        Err(cause) => Err("Failed to execute: "@ + cause@),
    }
}

/// Answers a request to open a file from what starting the opener gave.
pub fn open_file_outcome(started: Result<(), String>) -> (r: Result<(), String>)
    ensures
        unit_result(r) == open_file_result(started),
{
    match started {
        Ok(()) => Ok(()),
        Err(cause) => Err(join_text("Cannot open file: ", cause.as_str())),
    }
}

/// Answers a request to launch an application from what starting it gave.
pub fn launch_app_outcome(name: &str, started: Result<(), String>) -> (r: Result<(), String>)
    ensures
        unit_result(r) == launch_result(name@, started),
{
    match started {
        Ok(()) => Ok(()),
        Err(cause) => {
            let mut message = join_text("Cannot launch ", name);
            append_str(&mut message, ": ");
            append_str(&mut message, cause.as_str());
            Err(message)
        },
    }
}

/// Answers a request to purge the memory from how the purge ran.
pub fn purge_outcome(ran: Result<Finished, String>) -> (r: Result<String, String>)
    ensures
        text_result(r) == purge_result(ran),
{
    match ran {
        Ok(end) => if end.success {
            Ok("Memory purged successfully".to_owned())
        } else {
            Err(join_text("Purge failed: ", end.stderr.as_str()))
        },
        Err(cause) => Err(join_text("Failed to execute: ", cause.as_str())),
    }
}

} // verus!
