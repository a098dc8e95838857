//! The publisher invocation: its argument list and the judgement of its
//! outcome. The driver runs the publisher subprocess inside the assembled
//! bundle directory.

use vstd::prelude::*;
use crate::error::Error;
use crate::strutil::strs_view;
use vstd::string::StringExecFns;

verus! {

/// The argument list handed to the publisher: a publish, optionally dry-run.
pub fn publish_args(dry_run: bool) -> (r: Vec<String>)
    ensures
        strs_view(r@) == if dry_run {
            seq!["publish"@, "--dry-run"@]
        } else {
            seq!["publish"@]
        },
{
    let mut v: Vec<String> = Vec::new();
    v.push(String::from_str("publish"));
    if dry_run {
        v.push(String::from_str("--dry-run"));
    }
    proof {
        if dry_run {
            assert(strs_view(v@) =~~= seq!["publish"@, "--dry-run"@]);
        } else {
            assert(strs_view(v@) =~~= seq!["publish"@]);
        }
    }
    v
}

/// Judges one finished publisher run. `exit_code` is the subprocess's exit
/// code, or nothing when it was terminated by a signal.
pub fn interpret_publish_outcome(exit_code: Option<i64>) -> (r: Result<(), Error>)
    ensures
        match r {
            Result::Ok(_) => exit_code == Option::Some(0i64),
            Result::Err(e) => match e {
                Error::PublisherFailed { exit_code: c } => exit_code != Option::Some(0i64) && c
                    == exit_code,
                _ => false,
            },
        },
{
    match exit_code {
        Option::Some(code) => {
            if code == 0 {
                Result::Ok(())
            } else {
                Result::Err(Error::PublisherFailed { exit_code: Option::Some(code) })
            }
        },
        Option::None => Result::Err(Error::PublisherFailed { exit_code: Option::None }),
    }
}

} // verus!
