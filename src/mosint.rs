//! The decisions around a run of the `mosint` email enumeration tool: the
//! command line it is given and what a failed run means. Running it, and
//! the files it writes, are the caller's.
use vstd::prelude::*;
use crate::text::{contains_text, occurs_in};

verus! {

/// Why a run of `mosint` failed.
#[derive(Clone, Copy, Debug, PartialEq, Eq, Structural)]
pub enum MosintFailure {
    /// The tool rejected the email address.
    InvalidSyntax,
    /// Any other failure.
    ExecutionFailed,
}

/// What a failed run means, from what it printed: the tool says
/// "Email syntax is not valid" on either stream for a malformed address.
pub fn mosint_failure(stdout: &str, stderr: &str) -> (r: MosintFailure)
    ensures
        r == (if occurs_in("Email syntax is not valid"@, stdout@) || occurs_in(
            "Email syntax is not valid"@,
            stderr@,
        ) {
            MosintFailure::InvalidSyntax
        } else {
            MosintFailure::ExecutionFailed
        }),
{
    if contains_text(stdout, "Email syntax is not valid") || contains_text(
        stderr,
        "Email syntax is not valid",
    ) {
        MosintFailure::InvalidSyntax
    } else {
        MosintFailure::ExecutionFailed
    }
}

/// The shell command that runs `binary` with configuration `config`,
/// writing its JSON report to `output`, on `email`.
pub fn mosint_command(binary: &str, config: &str, output: &str, email: &str) -> (r: String)
    ensures
        r@ == binary@ + " -c "@ + config@ + " -o "@ + output@ + " "@ + email@,
{
    let s = String::from_str(binary);
    let s = s.concat(" -c ");
    let s = s.concat(config);
    let s = s.concat(" -o ");
    let s = s.concat(output);
    let s = s.concat(" ");
    s.concat(email)
}

} // verus!
