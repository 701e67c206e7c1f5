//! Reading the outcome of `rclone obscure`, the one thing only rclone can do
//! correctly: turning a plaintext password into rclone's reversibly obscured
//! form. The plaintext travels on stdin, never on the command line.
use crate::error::Error;
use crate::text::{push_str, trim, trimmed};
use vstd::prelude::*;

verus! {

/// The message of a failed `rclone obscure`.
pub open spec fn obscure_failure(stderr: Seq<char>) -> Seq<char> {
    "`rclone obscure` failed: "@ + trim(stderr)
}

/// The result of a finished `rclone obscure`: the trimmed output when it
/// succeeded, otherwise an error quoting its trimmed error output.
pub fn obscure_outcome(succeeded: bool, stdout: &str, stderr: &str) -> (r: Result<String, Error>)
    ensures
        succeeded ==> (r matches Ok(s) && s@ == trim(stdout@)),
        !succeeded ==> (r matches Err(Error::Systemd(m)) && m@ == obscure_failure(stderr@)),
{
    if !succeeded {
        let mut m = String::new();
        push_str(&mut m, "`rclone obscure` failed: ");
        let t = trimmed(stderr);
        push_str(&mut m, t.as_str());
        return Err(Error::Systemd(m));
    }
    Ok(trimmed(stdout))
}

} // verus!
