//! Generates the text of a systemd .service unit for a given mount
//! (`Type=notify` rclone mount, `LoadCredentialEncrypted=` referencing the
//! source's credential blob, `EnvironmentFile=${CREDENTIALS_DIRECTORY}/<source>`), and
//! validates the names used for units, sources and credential files.
use crate::error::Error;
use crate::mount::{CacheMode, Mount, MountOptions, MountV};
use crate::text::{chars_of, decimal, octal, push_str, u32_to_octal, u64_to_decimal};
use vstd::prelude::*;

verus! {

/// A character allowed anywhere in a name.
pub open spec fn is_name_char(c: char) -> bool {
    ('0' <= c && c <= '9') || ('a' <= c && c <= 'z') || c == '-'
}

/// The helper-enforced name pattern `^[a-z0-9][a-z0-9-]{0,62}$`.
pub open spec fn valid_name(s: Seq<char>) -> bool {
    &&& 0 < s.len() <= 63
    &&& s[0] != '-'
    &&& forall|i: int| 0 <= i < s.len() ==> is_name_char(#[trigger] s[i])
}

/// What the unit text needs besides the mount: where systemd loads the
/// source's encrypted credential from (a path or a systemd specifier such
/// as `%h/...`).
#[derive(Debug, Clone)]
pub struct Context {
    pub credential_path: String,
}

/// rclone's word for a cache mode.
pub open spec fn cache_mode_word(c: CacheMode) -> Seq<char> {
    match c {
        CacheMode::Off => "off"@,
        CacheMode::Minimal => "minimal"@,
        CacheMode::Writes => "writes"@,
        CacheMode::Full => "full"@,
    }
}

/// ` <flag><n><unit>` when the option is set, nothing otherwise.
pub open spec fn number_flag(flag: Seq<char>, v: Option<u64>, unit: Seq<char>) -> Seq<char> {
    match v {
        Some(n) => flag + decimal(n as nat) + unit,
        None => Seq::empty(),
    }
}

/// `flag` when `on`, nothing otherwise.
pub open spec fn switch_flag(flag: Seq<char>, on: bool) -> Seq<char> {
    if on {
        flag
    } else {
        Seq::empty()
    }
}

/// ` --umask 0<octal>` when a umask is set.
pub open spec fn umask_flag(u: Option<u32>) -> Seq<char> {
    match u {
        Some(n) => " --umask 0"@ + octal(n as nat),
        None => Seq::empty(),
    }
}

/// The `rclone mount` flags of a mount's options, each led by a space.
pub open spec fn mount_flags(o: MountOptions) -> Seq<char> {
    " --vfs-cache-mode "@ + cache_mode_word(o.cache_mode) + number_flag(
        " --vfs-cache-max-size "@,
        o.cache_max_size_mb,
        "M"@,
    ) + number_flag(" --dir-cache-time "@, o.dir_cache_time_secs, "s"@) + umask_flag(o.umask) + switch_flag(
        " --read-only"@,
        o.read_only,
    ) + switch_flag(" --vfs-refresh"@, o.vfs_refresh) + number_flag(" --poll-interval "@, o.poll_interval_secs, "s"@)
}

/// The text of the `.service` unit for mount `m`: a `Type=notify` `rclone
/// mount` of `<source>:<subpath>` at the mountpoint, with the source's
/// encrypted credential loaded from `cred` as `rclone-conf` and used as the
/// rclone configuration, and `EnvironmentFile=` reading the decrypted
/// credential named after the source.
pub open spec fn unit_text(m: MountV, cred: Seq<char>) -> Seq<char> {
    "[Unit]\nDescription=rclone mount: "@ + m.display_name
        + "\nAfter=network-online.target\nWants=network-online.target\n\n[Service]\nType=notify\nLoadCredentialEncrypted=rclone-conf:"@
        + cred + "\nEnvironmentFile=${CREDENTIALS_DIRECTORY}/"@ + m.source
        + "\nExecStart=/usr/bin/rclone mount --config=${CREDENTIALS_DIRECTORY}/rclone-conf \""@ + m.source + ":"@
        + m.subpath + "\" \""@ + m.mountpoint + "\""@ + mount_flags(m.options)
        + "\nExecStop=/bin/fusermount3 -uz \""@ + m.mountpoint
        + "\"\nRestart=on-failure\n\n[Install]\nWantedBy=default.target\n"@
}

fn push_number_flag(out: &mut String, flag: &str, v: Option<u64>, unit: &str)
    ensures
        final(out)@ == old(out)@ + number_flag(flag@, v, unit@),
{
    match v {
        Some(n) => {
            let ghost before = out@;
            push_str(out, flag);
            let d = u64_to_decimal(n);
            push_str(out, d.as_str());
            push_str(out, unit);
            assert(out@ =~= before + (flag@ + decimal(n as nat) + unit@));
        },
        None => {
            assert(out@ =~= old(out)@ + Seq::<char>::empty());
        },
    }
}

/// Appends the `rclone mount` flags of `o`.
#[verifier::rlimit(40)]
fn push_mount_flags(out: &mut String, o: &MountOptions)
    ensures
        final(out)@ == old(out)@ + mount_flags(*o),
{
    let ghost before = out@;
    push_str(out, " --vfs-cache-mode ");
    let word = match o.cache_mode {
        CacheMode::Off => "off",
        CacheMode::Minimal => "minimal",
        CacheMode::Writes => "writes",
        CacheMode::Full => "full",
    };
    push_str(out, word);
    let ghost p1 = " --vfs-cache-mode "@ + cache_mode_word(o.cache_mode);
    assert(out@ =~= before + p1);
    push_number_flag(out, " --vfs-cache-max-size ", o.cache_max_size_mb, "M");
    let ghost p2 = p1 + number_flag(" --vfs-cache-max-size "@, o.cache_max_size_mb, "M"@);
    assert(out@ =~= before + p2);
    push_number_flag(out, " --dir-cache-time ", o.dir_cache_time_secs, "s");
    let ghost p3 = p2 + number_flag(" --dir-cache-time "@, o.dir_cache_time_secs, "s"@);
    assert(out@ =~= before + p3);
    let ghost at_umask = out@;
    match o.umask {
        Some(u) => {
            push_str(out, " --umask 0");
            let t = u32_to_octal(u);
            push_str(out, t.as_str());
        },
        None => {},
    }
    assert(out@ =~= at_umask + umask_flag(o.umask));
    let ghost p4 = p3 + umask_flag(o.umask);
    assert(out@ =~= before + p4);
    let ghost at_ro = out@;
    if o.read_only {
        push_str(out, " --read-only");
    }
    assert(out@ =~= at_ro + switch_flag(" --read-only"@, o.read_only));
    let ghost p5 = p4 + switch_flag(" --read-only"@, o.read_only);
    assert(out@ =~= before + p5);
    let ghost at_refresh = out@;
    if o.vfs_refresh {
        push_str(out, " --vfs-refresh");
    }
    assert(out@ =~= at_refresh + switch_flag(" --vfs-refresh"@, o.vfs_refresh));
    let ghost p6 = p5 + switch_flag(" --vfs-refresh"@, o.vfs_refresh);
    assert(out@ =~= before + p6);
    push_number_flag(out, " --poll-interval ", o.poll_interval_secs, "s");
    let ghost p7 = p6 + number_flag(" --poll-interval "@, o.poll_interval_secs, "s"@);
    assert(out@ =~= before + p7);
    assert(p7 == mount_flags(*o));
}

/// The text of the systemd `.service` unit for `mount` (see [`unit_text`]).
pub fn render(mount: &Mount, ctx: &Context) -> (r: String)
    ensures
        r@ == unit_text(mount@, ctx.credential_path@),
{
    let mut out = String::new();
    assert(out@ =~= Seq::<char>::empty());
    push_str(&mut out, "[Unit]\nDescription=rclone mount: ");
    push_str(&mut out, mount.display_name.as_str());
    push_str(
        &mut out,
        "\nAfter=network-online.target\nWants=network-online.target\n\n[Service]\nType=notify\nLoadCredentialEncrypted=rclone-conf:",
    );
    push_str(&mut out, ctx.credential_path.as_str());
    push_str(&mut out, "\nEnvironmentFile=${CREDENTIALS_DIRECTORY}/");
    push_str(&mut out, mount.source.as_str());
    push_str(&mut out, "\nExecStart=/usr/bin/rclone mount --config=${CREDENTIALS_DIRECTORY}/rclone-conf \"");
    push_str(&mut out, mount.source.as_str());
    push_str(&mut out, ":");
    push_str(&mut out, mount.subpath.as_str());
    push_str(&mut out, "\" \"");
    push_str(&mut out, mount.mountpoint.as_str());
    push_str(&mut out, "\"");
    push_mount_flags(&mut out, &mount.options);
    push_str(&mut out, "\nExecStop=/bin/fusermount3 -uz \"");
    push_str(&mut out, mount.mountpoint.as_str());
    push_str(&mut out, "\"\nRestart=on-failure\n\n[Install]\nWantedBy=default.target\n");
    assert(out@ =~= unit_text(mount@, ctx.credential_path@));
    out
}

/// Validates a name against the helper-enforced pattern:
/// `^[a-z0-9][a-z0-9-]{0,62}$`. Used by both user-side and helper-side write
/// paths so the invariant is checked twice.
pub fn validate_name(name: &str) -> (r: Result<(), Error>)
    ensures
        r is Ok <==> valid_name(name@),
        r matches Err(e) ==> (e matches Error::InvalidName(n) && n@ == name@),
{
    let v = chars_of(name);
    let mut ok = v.len() > 0 && v.len() <= 63 && v[0] != '-';
    let mut i: usize = 0;
    while i < v.len()
        invariant
            v@ == name@,
            i <= v@.len(),
            ok == (0 < v@.len() <= 63 && v@[0] != '-' && forall|j: int| 0 <= j < i ==> is_name_char(
                #[trigger] v@[j],
            )),
        decreases v@.len() - i,
    {
        let c = v[i];
        if !(('0' <= c && c <= '9') || ('a' <= c && c <= 'z') || c == '-') {
            ok = false;
        }
        i = i + 1;
    }
    if ok {
        Ok(())
    } else {
        let mut n = String::new();
        push_str(&mut n, name);
        Err(Error::InvalidName(n))
    }
}

} // verus!
