//! Encrypting and decrypting credentials with `systemd-creds`: the scope a
//! credential is keyed to, the command line for one call, and how its
//! outcome is read. Running the command is the caller's part.
use crate::error::Error;
use crate::text::{owned, push_str};
use vstd::prelude::*;

verus! {

#[derive(Debug, Clone, Copy, PartialEq, Eq, Structural)]
pub enum Scope {
    /// User-scope credential (`systemd-creds --user`): the key derives from
    /// the user's session key under `$XDG_RUNTIME_DIR`.
    User,
    /// System-scope credential (`systemd-creds`): the key derives from TPM2
    /// or `/var/lib/systemd/credential.secret`.
    System,
}

/// Which way a `systemd-creds` call goes.
#[derive(Debug, Clone, Copy, PartialEq, Eq, Structural)]
pub enum CredsOp {
    Encrypt,
    Decrypt,
}

/// The `systemd-creds` verb of an operation.
pub open spec fn op_word(op: CredsOp) -> Seq<char> {
    match op {
        CredsOp::Encrypt => "encrypt"@,
        CredsOp::Decrypt => "decrypt"@,
    }
}

/// The arguments of one `systemd-creds` call: `--user` in user scope, the
/// credential name that is woven into the blob, the verb, and `- -` so the
/// input comes on stdin and the output goes to stdout.
pub open spec fn creds_argv(scope: Scope, op: CredsOp, name: Seq<char>) -> Seq<Seq<char>> {
    (if scope == Scope::User {
        seq!["--user"@]
    } else {
        Seq::empty()
    }) + seq!["--name="@ + name, op_word(op), "-"@, "-"@]
}

/// The scope decides only the `--user` flag, whatever the operation: the
/// arguments for user scope are `--user` followed by the system-scope
/// arguments, and the system-scope arguments never carry `--user` (they
/// start with the credential's name).
pub proof fn law_scope_only_adds_user_flag(op: CredsOp, name: Seq<char>)
    ensures
        creds_argv(Scope::User, op, name) == seq!["--user"@] + creds_argv(Scope::System, op, name),
        creds_argv(Scope::User, op, name)[0] == "--user"@,
        creds_argv(Scope::System, op, name)[0] == "--name="@ + name,
        creds_argv(Scope::System, op, name)[0] != "--user"@,
        !creds_argv(Scope::System, op, name).contains("--user"@),
{
    reveal_strlit("--user");
    reveal_strlit("--name=");
    reveal_strlit("-");
    reveal_strlit("encrypt");
    reveal_strlit("decrypt");
    let sys = creds_argv(Scope::System, op, name);
    assert(sys =~= seq!["--name="@ + name, op_word(op), "-"@, "-"@]);
    assert(creds_argv(Scope::User, op, name) =~= seq!["--user"@] + sys);
    assert(sys[0][2] == 'n');
    assert("--user"@[2] == 'u');
    if sys.contains("--user"@) {
        let i = choose|i: int| 0 <= i < sys.len() && sys[i] == "--user"@;
        if i == 1 {
            assert(sys[1].len() == 7);
        } else if i >= 2 {
            assert(sys[i].len() == 1);
        }
    }
}

/// The arguments to run `systemd-creds` with for `op` on credential `name`.
pub fn systemd_creds_args(scope: Scope, op: CredsOp, name: &str) -> (r: Vec<String>)
    ensures
        r@.map_values(|a: String| a@) == creds_argv(scope, op, name@),
{
    let mut v: Vec<String> = Vec::new();
    if scope == Scope::User {
        v.push(owned("--user"));
    }
    let mut n = String::new();
    push_str(&mut n, "--name=");
    push_str(&mut n, name);
    v.push(n);
    match op {
        CredsOp::Encrypt => v.push(owned("encrypt")),
        CredsOp::Decrypt => v.push(owned("decrypt")),
    }
    v.push(owned("-"));
    v.push(owned("-"));
    assert(v@.map_values(|a: String| a@) =~= creds_argv(scope, op, name@));
    v
}

/// The message of a failed `systemd-creds` call.
pub open spec fn creds_failure(op: CredsOp, status: Seq<char>, stderr: Seq<char>) -> Seq<char> {
    "systemd-creds "@ + op_word(op) + " failed ("@ + status + "): "@ + stderr
}

/// The result of a finished `systemd-creds` call: its output when it
/// succeeded, otherwise a credentials error quoting its exit status and
/// error output.
pub fn systemd_creds_outcome(op: CredsOp, succeeded: bool, status: &str, stdout: Vec<u8>, stderr: &str) -> (r: Result<
    Vec<u8>,
    Error,
>)
    ensures
        succeeded ==> (r matches Ok(out) && out@ == stdout@),
        !succeeded ==> (r matches Err(Error::Credentials(m)) && m@ == creds_failure(op, status@, stderr@)),
{
    if succeeded {
        return Ok(stdout);
    }
    let mut m = String::new();
    push_str(&mut m, "systemd-creds ");
    match op {
        CredsOp::Encrypt => push_str(&mut m, "encrypt"),
        CredsOp::Decrypt => push_str(&mut m, "decrypt"),
    }
    push_str(&mut m, " failed (");
    push_str(&mut m, status);
    push_str(&mut m, "): ");
    push_str(&mut m, stderr);
    Err(Error::Credentials(m))
}

} // verus!
