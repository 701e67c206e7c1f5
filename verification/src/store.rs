//! Where units, credentials and the two state files live. File I/O is the
//! store's implementor's part ([`UnitStore`]); this module fixes the path
//! layout every implementor shares and how a unit directory listing reads.
//!
//! Path layout:
//! - `config_dir/sources.conf`: rclone.conf-shaped source definitions
//! - `config_dir/mounts.toml`: the mount-state file
//! - `credential_dir/<name>`: encrypted credential blob, one file per source
//! - `unit_dir/rclone-mount-<name>.service`: generated mount units
use crate::backend::{mount_unit_name, override_name, unit_name_of};
use crate::source::{kind_tag, SourceKind};
use crate::error::Error;
use crate::str_map::{lemma_seq_lt_irrefl, lemma_seq_lt_trans, seq_lt, str_lt};
use crate::text::{chars_of, owned, push_str, string_from};
use crate::unit_writer::{valid_name, validate_name};
use vstd::prelude::*;

verus! {

/// The prefix of the reserved admin-override credential names.
pub open spec fn override_prefix() -> Seq<char> {
    "__provider_override_"@
}

/// A credential name the store accepts: a valid source name, or the prefix
/// of the reserved admin-override credentials followed by a valid name. A
/// reserved name can never be a source's, since a valid name starts with a
/// letter or digit.
pub open spec fn credential_name_ok(n: Seq<char>) -> bool {
    ||| valid_name(n)
    ||| (n.len() > override_prefix().len() && n.take(override_prefix().len() as int) == override_prefix()
        && valid_name(n.skip(override_prefix().len() as int)))
}

/// The admin override of every kind is stored under a name the store
/// accepts, so it can be written and read back.
pub proof fn law_override_name_is_storable(k: SourceKind)
    ensures
        credential_name_ok(override_name(k)),
{
    reveal_strlit("__provider_override_");
    reveal_strlit("smb");
    reveal_strlit("drive");
    reveal_strlit("webdav");
    reveal_strlit("sftp");
    reveal_strlit("ftp");
    reveal_strlit("iclouddrive");
    let n = override_name(k);
    let p = override_prefix();
    let t = kind_tag(k);
    assert(n.take(p.len() as int) =~= p);
    assert(n.skip(p.len() as int) =~= t);
    assert forall|i: int| 0 <= i < t.len() implies crate::unit_writer::is_name_char(#[trigger] t[i]) by {
        assert('a' <= t[i] && t[i] <= 'z');
    }
}

/// File-I/O boundary. One implementor writes directly; another proxies to
/// the privileged helper. All path construction happens inside the
/// implementor: callers pass validated *names*, never paths.
pub trait UnitStore: Send + Sync {
    fn write_unit(&self, name: &str, contents: &str) -> Result<(), Error>;

    fn delete_unit(&self, name: &str) -> Result<(), Error>;

    fn read_unit(&self, name: &str) -> Result<String, Error>;

    fn list_units(&self) -> Result<Vec<String>, Error>;

    fn write_credential(&self, name: &str, blob: &[u8]) -> Result<(), Error>;

    fn delete_credential(&self, name: &str) -> Result<(), Error>;

    /// The encrypted credential blob for `name`, or `None` if there isn't one.
    fn read_credential(&self, name: &str) -> Result<Option<Vec<u8>>, Error>;

    fn read_sources_conf(&self) -> Result<String, Error>;

    fn write_sources_conf(&self, contents: &str) -> Result<(), Error>;

    /// The mount-state file, or an empty string before it first exists.
    fn read_mounts_state(&self) -> Result<String, Error>;

    fn write_mounts_state(&self, contents: &str) -> Result<(), Error>;
}

/// `dir` joined with the relative path `name`, as `Path::join` does on
/// Unix: a `/` goes between them unless `dir` is empty or already ends in
/// one.
pub open spec fn join_path(dir: Seq<char>, name: Seq<char>) -> Seq<char> {
    if dir.len() == 0 {
        name
    } else if dir.last() == '/' {
        dir + name
    } else {
        dir + "/"@ + name
    }
}

/// `dir` joined with the relative path `name`.
pub fn join(dir: &str, name: &str) -> (r: String)
    ensures
        r@ == join_path(dir@, name@),
{
    let cs = chars_of(dir);
    let mut out = String::new();
    push_str(&mut out, dir);
    if cs.len() > 0 && cs[cs.len() - 1] != '/' {
        push_str(&mut out, "/");
    }
    push_str(&mut out, name);
    out
}

/// The filesystem layout of a store.
#[derive(Debug, Clone)]
pub struct LocalUnitStore {
    pub config_dir: String,
    pub credential_dir: String,
    pub unit_dir: String,
    /// File mode for newly created files: `0o600` in both scopes.
    pub file_mode: u32,
}

impl LocalUnitStore {
    /// The system-scope layout, under `/etc`.
    pub fn new_system_default() -> (r: LocalUnitStore)
        ensures
            r.config_dir@ == "/etc/rclone-mounts"@,
            r.credential_dir@ == "/etc/credstore.encrypted/rclone-mounts"@,
            r.unit_dir@ == "/etc/systemd/system"@,
            r.file_mode == 0o600,
    {
        LocalUnitStore {
            config_dir: owned("/etc/rclone-mounts"),
            credential_dir: owned("/etc/credstore.encrypted/rclone-mounts"),
            unit_dir: owned("/etc/systemd/system"),
            file_mode: 0o600,
        }
    }

    /// The user-scope layout under the home directory `home`.
    pub fn under_home(home: &str) -> (r: LocalUnitStore)
        ensures
            r.config_dir@ == join_path(home@, ".config/rclone-mounts"@),
            r.credential_dir@ == join_path(join_path(home@, ".config/rclone-mounts"@), "credentials"@),
            r.unit_dir@ == join_path(home@, ".config/systemd/user"@),
            r.file_mode == 0o600,
    {
        let cfg = join(home, ".config/rclone-mounts");
        let credential_dir = join(cfg.as_str(), "credentials");
        LocalUnitStore {
            config_dir: cfg,
            credential_dir,
            unit_dir: join(home, ".config/systemd/user"),
            file_mode: 0o600,
        }
    }

    /// The unit file of mount `name`; refused unless `name` is valid.
    pub fn unit_path(&self, name: &str) -> (r: Result<String, Error>)
        ensures
            valid_name(name@) ==> (r matches Ok(p) && p@ == join_path(self.unit_dir@, unit_name_of(name@))),
            !valid_name(name@) ==> (r matches Err(Error::InvalidName(n)) && n@ == name@),
    {
        match validate_name(name) {
            Ok(()) => {
                let unit = mount_unit_name(name);
                Ok(join(self.unit_dir.as_str(), unit.as_str()))
            },
            Err(e) => Err(e),
        }
    }

    /// The credential file of source `name`, or of a reserved admin-override
    /// credential (`__provider_override_<kind>`); refused for any other name.
    pub fn credential_path(&self, name: &str) -> (r: Result<String, Error>)
        ensures
            credential_name_ok(name@) ==> (r matches Ok(p) && p@ == join_path(self.credential_dir@, name@)),
            !credential_name_ok(name@) ==> (r matches Err(Error::InvalidName(n)) && n@ == name@),
    {
        let v = chars_of(name);
        let pre = chars_of("__provider_override_");
        proof {
            reveal_strlit("__provider_override_");
        }
        let mut reserved = v.len() > pre.len();
        let mut i: usize = 0;
        while reserved && i < pre.len()
            invariant
                v@ == name@,
                pre@ == override_prefix(),
                i <= pre@.len(),
                reserved ==> v@.len() > pre@.len() && forall|j: int| 0 <= j < i ==> v@[j] == pre@[j],
                !reserved ==> !(v@.len() > pre@.len() && v@.take(pre@.len() as int) == pre@),
            decreases pre@.len() - i,
        {
            if v[i] != pre[i] {
                reserved = false;
                proof {
                    if v@.len() > pre@.len() && v@.take(pre@.len() as int) == pre@ {
                        assert(v@.take(pre@.len() as int)[i as int] == v@[i as int]);
                    }
                }
            }
            i = i + 1;
        }
        if reserved {
            assert(v@.take(pre@.len() as int) =~= pre@);
            let rest = string_from(&v, pre.len(), v.len());
            assert(rest@ =~= name@.skip(override_prefix().len() as int));
            match validate_name(rest.as_str()) {
                Ok(()) => {
                    return Ok(join(self.credential_dir.as_str(), name));
                },
                Err(_) => {},
            }
        }
        match validate_name(name) {
            Ok(()) => Ok(join(self.credential_dir.as_str(), name)),
            Err(e) => Err(e),
        }
    }

    /// `config_dir/sources.conf`.
    pub fn sources_path(&self) -> (r: String)
        ensures
            r@ == join_path(self.config_dir@, "sources.conf"@),
    {
        join(self.config_dir.as_str(), "sources.conf")
    }

    /// `config_dir/mounts.toml`.
    pub fn mounts_state_path(&self) -> (r: String)
        ensures
            r@ == join_path(self.config_dir@, "mounts.toml"@),
    {
        join(self.config_dir.as_str(), "mounts.toml")
    }
}

/// The mount name a unit file name carries: `rclone-mount-<name>.service`
/// gives `<name>`; any other file name gives nothing.
pub open spec fn unit_stem(file: Seq<char>) -> Option<Seq<char>> {
    if file.len() >= 21 && file.take(13) == "rclone-mount-"@ && file.skip(file.len() - 8) == ".service"@ {
        Some(file.subrange(13, file.len() - 8))
    } else {
        None
    }
}

/// The stems of `files`, in order.
pub open spec fn unit_stems(files: Seq<Seq<char>>) -> Seq<Seq<char>>
    decreases files.len(),
{
    if files.len() == 0 {
        Seq::empty()
    } else {
        match unit_stem(files.last()) {
            Some(n) => unit_stems(files.drop_last()).push(n),
            None => unit_stems(files.drop_last()),
        }
    }
}

/// Ascending (ties allowed) in character order, which for UTF-8 text is
/// byte order.
pub open spec fn ascending(s: Seq<Seq<char>>) -> bool {
    forall|i: int, j: int| 0 <= i < j < s.len() ==> !seq_lt(#[trigger] s[j], #[trigger] s[i])
}

/// The stem of one file name.
fn stem_of(file: &str) -> (r: Option<String>)
    ensures
        match r {
            Some(s) => unit_stem(file@) == Some(s@),
            None => unit_stem(file@) is None,
        },
{
    proof {
        reveal_strlit("rclone-mount-");
        reveal_strlit(".service");
    }
    let cs = chars_of(file);
    let n = cs.len();
    if n < 21 {
        return None;
    }
    let pre = chars_of("rclone-mount-");
    let suf = chars_of(".service");
    let mut i: usize = 0;
    while i < 13
        invariant
            cs@ == file@,
            pre@ == "rclone-mount-"@,
            pre@.len() == 13,
            n == cs@.len(),
            n >= 21,
            i <= 13,
            forall|j: int| 0 <= j < i ==> cs@[j] == pre@[j],
        decreases 13 - i,
    {
        if cs[i] != pre[i] {
            assert(cs@.take(13)[i as int] != "rclone-mount-"@[i as int]);
            return None;
        }
        i = i + 1;
    }
    let mut k: usize = 0;
    while k < 8
        invariant
            cs@ == file@,
            suf@ == ".service"@,
            suf@.len() == 8,
            n == cs@.len(),
            n >= 21,
            k <= 8,
            forall|j: int| 0 <= j < k ==> cs@[n - 8 + j] == suf@[j],
        decreases 8 - k,
    {
        if cs[n - 8 + k] != suf[k] {
            assert(cs@.skip(n - 8)[k as int] != ".service"@[k as int]);
            return None;
        }
        k = k + 1;
    }
    assert(cs@.take(13) =~= "rclone-mount-"@);
    assert(cs@.skip(n - 8) =~= ".service"@);
    Some(string_from(&cs, 13, n - 8))
}

/// Where `s` goes in the ascending `out`: after every entry not above it.
fn insert_sorted(out: &mut Vec<String>, s: String)
    requires
        ascending(old(out)@.map_values(|x: String| x@)),
    ensures
        ascending(final(out)@.map_values(|x: String| x@)),
        final(out)@.map_values(|x: String| x@).to_multiset() == old(out)@.map_values(
            |x: String| x@,
        ).to_multiset().insert(s@),
{
    let ghost v = out@.map_values(|x: String| x@);
    let ghost sv = s@;
    let mut p: usize = 0;
    while p < out.len() && !str_lt(s.as_str(), out[p].as_str())
        invariant
            v == out@.map_values(|x: String| x@),
            sv == s@,
            p <= v.len(),
            forall|j: int| 0 <= j < p ==> !seq_lt(sv, #[trigger] v[j]),
        decreases v.len() - p,
    {
        p = p + 1;
    }
    out.insert(p, s);
    proof {
        let w = out@.map_values(|x: String| x@);
        assert(w =~= v.insert(p as int, sv));
        vstd::seq_lib::to_multiset_insert(v, p as int, sv);
        if p < v.len() {
            assert(seq_lt(sv, v[p as int]));
        }
        assert forall|i: int, j: int| 0 <= i < j < w.len() implies !seq_lt(#[trigger] w[j], #[trigger] w[i]) by {
            if j < p {
                assert(!seq_lt(v[j], v[i]));
            } else if j == p {
                assert(!seq_lt(sv, v[i]));
            } else if i < p {
                assert(!seq_lt(v[j - 1], v[i]));
            } else if i == p {
                if seq_lt(v[j - 1], sv) {
                    lemma_seq_lt_trans(v[j - 1], sv, v[p as int]);
                    if j - 1 == p {
                        lemma_seq_lt_irrefl(v[p as int]);
                    } else {
                        assert(!seq_lt(v[j - 1], v[p as int]));
                    }
                }
            } else {
                assert(!seq_lt(v[j - 1], v[i - 1]));
            }
        }
    }
}

/// The mount names a unit directory listing holds: the stems of the
/// `rclone-mount-<name>.service` files, unrelated files ignored, sorted.
pub fn unit_names(files: &Vec<String>) -> (r: Vec<String>)
    ensures
        ascending(r@.map_values(|x: String| x@)),
        r@.map_values(|x: String| x@).to_multiset() == unit_stems(files@.map_values(|x: String| x@)).to_multiset(),
{
    let ghost fs = files@.map_values(|x: String| x@);
    let mut out: Vec<String> = Vec::new();
    let mut i: usize = 0;
    proof {
        assert(out@.map_values(|x: String| x@) =~= Seq::<Seq<char>>::empty());
        assert(fs.take(0) =~= Seq::<Seq<char>>::empty());
    }
    while i < files.len()
        invariant
            fs == files@.map_values(|x: String| x@),
            i <= fs.len(),
            ascending(out@.map_values(|x: String| x@)),
            out@.map_values(|x: String| x@).to_multiset() == unit_stems(fs.take(i as int)).to_multiset(),
        decreases fs.len() - i,
    {
        proof {
            assert(fs.take(i + 1).drop_last() =~= fs.take(i as int));
            assert(fs.take(i + 1).last() == files@[i as int]@);
        }
        match stem_of(files[i].as_str()) {
            Some(s) => {
                proof {
                    vstd::seq_lib::to_multiset_build(unit_stems(fs.take(i as int)), s@);
                }
                insert_sorted(&mut out, s);
            },
            None => {},
        }
        i = i + 1;
    }
    assert(fs.take(fs.len() as int) =~= fs);
    out
}

} // verus!
