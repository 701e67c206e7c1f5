//! Static table of rclone backend capabilities relevant to FUSE mounting.
//!
//! Hand-derived from rclone's Go source (current as of rclone v1.74.1), not
//! probed live: probing would mean dialling the real server with the user's
//! decrypted secret just to render a form. `PutStream`/`DuplicateFiles` are
//! fixed per backend type for every backend below except WebDAV, whose
//! `PutStream` depends on its `vendor` option (see [`webdav_put_stream`]).
//! Wrapper/meta backends (alias, crypt, union, ...) and the local/in-memory
//! backends are not listed.
use crate::text::str_eq;
use vstd::prelude::*;

verus! {

#[derive(Debug, Clone, Copy, PartialEq, Eq, Structural)]
pub struct BackendFeatures {
    /// Can upload a file without knowing its size/content up front (i.e.
    /// without buffering it to disk first).
    pub put_stream: bool,
    /// Whether the backend allows two files with the same name in the same
    /// directory.
    pub duplicate_files: bool,
}

fn f(put_stream: bool, duplicate_files: bool) -> (r: BackendFeatures)
    ensures
        r == (BackendFeatures { put_stream, duplicate_files }),
{
    BackendFeatures { put_stream, duplicate_files }
}

/// (backend type string, features), matching rclone.conf's `type =` value.
pub open spec fn features_table() -> Seq<(Seq<char>, BackendFeatures)> {
    seq![
        ("azureblob"@, BackendFeatures { put_stream: true, duplicate_files: false }),
        ("azurefiles"@, BackendFeatures { put_stream: true, duplicate_files: false }),
        ("b2"@, BackendFeatures { put_stream: true, duplicate_files: false }),
        ("box"@, BackendFeatures { put_stream: true, duplicate_files: false }),
        ("cloudinary"@, BackendFeatures { put_stream: false, duplicate_files: false }),
        ("doi"@, BackendFeatures { put_stream: true, duplicate_files: false }),
        ("drime"@, BackendFeatures { put_stream: true, duplicate_files: false }),
        ("drive"@, BackendFeatures { put_stream: true, duplicate_files: true }),
        ("dropbox"@, BackendFeatures { put_stream: true, duplicate_files: false }),
        ("fichier"@, BackendFeatures { put_stream: false, duplicate_files: true }),
        ("filefabric"@, BackendFeatures { put_stream: false, duplicate_files: false }),
        ("filelu"@, BackendFeatures { put_stream: false, duplicate_files: false }),
        ("filen"@, BackendFeatures { put_stream: true, duplicate_files: false }),
        ("filescom"@, BackendFeatures { put_stream: true, duplicate_files: false }),
        ("ftp"@, BackendFeatures { put_stream: true, duplicate_files: false }),
        ("gofile"@, BackendFeatures { put_stream: true, duplicate_files: true }),
        ("google cloud storage"@, BackendFeatures { put_stream: true, duplicate_files: false }),
        ("google photos"@, BackendFeatures { put_stream: false, duplicate_files: false }),
        ("hdfs"@, BackendFeatures { put_stream: true, duplicate_files: false }),
        ("hidrive"@, BackendFeatures { put_stream: true, duplicate_files: false }),
        ("http"@, BackendFeatures { put_stream: true, duplicate_files: false }),
        ("huaweidrive"@, BackendFeatures { put_stream: false, duplicate_files: false }),
        ("iclouddrive"@, BackendFeatures { put_stream: false, duplicate_files: false }),
        ("imagekit"@, BackendFeatures { put_stream: false, duplicate_files: false }),
        ("internetarchive"@, BackendFeatures { put_stream: false, duplicate_files: false }),
        ("internxt"@, BackendFeatures { put_stream: false, duplicate_files: false }),
        ("jottacloud"@, BackendFeatures { put_stream: false, duplicate_files: false }),
        ("koofr"@, BackendFeatures { put_stream: true, duplicate_files: false }),
        ("linkbox"@, BackendFeatures { put_stream: false, duplicate_files: false }),
        ("mailru"@, BackendFeatures { put_stream: false, duplicate_files: false }),
        ("mega"@, BackendFeatures { put_stream: false, duplicate_files: true }),
        ("netstorage"@, BackendFeatures { put_stream: true, duplicate_files: false }),
        ("onedrive"@, BackendFeatures { put_stream: false, duplicate_files: false }),
        ("opendrive"@, BackendFeatures { put_stream: false, duplicate_files: false }),
        ("oracleobjectstorage"@, BackendFeatures { put_stream: true, duplicate_files: false }),
        ("pcloud"@, BackendFeatures { put_stream: false, duplicate_files: false }),
        ("pikpak"@, BackendFeatures { put_stream: false, duplicate_files: false }),
        ("pixeldrain"@, BackendFeatures { put_stream: true, duplicate_files: false }),
        ("premiumizeme"@, BackendFeatures { put_stream: false, duplicate_files: false }),
        ("protondrive"@, BackendFeatures { put_stream: false, duplicate_files: false }),
        ("putio"@, BackendFeatures { put_stream: false, duplicate_files: true }),
        ("qingstor"@, BackendFeatures { put_stream: false, duplicate_files: false }),
        ("quatrix"@, BackendFeatures { put_stream: false, duplicate_files: false }),
        ("s3"@, BackendFeatures { put_stream: true, duplicate_files: false }),
        ("seafile"@, BackendFeatures { put_stream: true, duplicate_files: false }),
        ("sftp"@, BackendFeatures { put_stream: true, duplicate_files: false }),
        ("shade"@, BackendFeatures { put_stream: false, duplicate_files: false }),
        ("sharefile"@, BackendFeatures { put_stream: false, duplicate_files: false }),
        ("sia"@, BackendFeatures { put_stream: true, duplicate_files: false }),
        ("smb"@, BackendFeatures { put_stream: true, duplicate_files: false }),
        ("storj"@, BackendFeatures { put_stream: true, duplicate_files: false }),
        ("sugarsync"@, BackendFeatures { put_stream: true, duplicate_files: false }),
        ("swift"@, BackendFeatures { put_stream: true, duplicate_files: false }),
        ("ulozto"@, BackendFeatures { put_stream: false, duplicate_files: true }),
        ("yandex"@, BackendFeatures { put_stream: true, duplicate_files: false }),
        ("zoho"@, BackendFeatures { put_stream: false, duplicate_files: false })
    ]
}

/// The table, in order.
pub fn backend_features_table() -> (t: Vec<(&'static str, BackendFeatures)>)
    ensures
        t@.map_values(|e: (&'static str, BackendFeatures)| (e.0@, e.1)) == features_table(),
{
    let mut t: Vec<(&'static str, BackendFeatures)> = Vec::new();
    t.push(("azureblob", f(true, false)));
    t.push(("azurefiles", f(true, false)));
    t.push(("b2", f(true, false)));
    t.push(("box", f(true, false)));
    t.push(("cloudinary", f(false, false)));
    t.push(("doi", f(true, false)));
    t.push(("drime", f(true, false)));
    t.push(("drive", f(true, true)));
    t.push(("dropbox", f(true, false)));
    t.push(("fichier", f(false, true)));
    t.push(("filefabric", f(false, false)));
    t.push(("filelu", f(false, false)));
    t.push(("filen", f(true, false)));
    t.push(("filescom", f(true, false)));
    t.push(("ftp", f(true, false)));
    t.push(("gofile", f(true, true)));
    t.push(("google cloud storage", f(true, false)));
    t.push(("google photos", f(false, false)));
    t.push(("hdfs", f(true, false)));
    t.push(("hidrive", f(true, false)));
    t.push(("http", f(true, false)));
    t.push(("huaweidrive", f(false, false)));
    t.push(("iclouddrive", f(false, false)));
    t.push(("imagekit", f(false, false)));
    t.push(("internetarchive", f(false, false)));
    t.push(("internxt", f(false, false)));
    t.push(("jottacloud", f(false, false)));
    t.push(("koofr", f(true, false)));
    t.push(("linkbox", f(false, false)));
    t.push(("mailru", f(false, false)));
    t.push(("mega", f(false, true)));
    t.push(("netstorage", f(true, false)));
    t.push(("onedrive", f(false, false)));
    t.push(("opendrive", f(false, false)));
    t.push(("oracleobjectstorage", f(true, false)));
    t.push(("pcloud", f(false, false)));
    t.push(("pikpak", f(false, false)));
    t.push(("pixeldrain", f(true, false)));
    t.push(("premiumizeme", f(false, false)));
    t.push(("protondrive", f(false, false)));
    t.push(("putio", f(false, true)));
    t.push(("qingstor", f(false, false)));
    t.push(("quatrix", f(false, false)));
    t.push(("s3", f(true, false)));
    t.push(("seafile", f(true, false)));
    t.push(("sftp", f(true, false)));
    t.push(("shade", f(false, false)));
    t.push(("sharefile", f(false, false)));
    t.push(("sia", f(true, false)));
    t.push(("smb", f(true, false)));
    t.push(("storj", f(true, false)));
    t.push(("sugarsync", f(true, false)));
    t.push(("swift", f(true, false)));
    t.push(("ulozto", f(false, true)));
    t.push(("yandex", f(true, false)));
    t.push(("zoho", f(false, false)));
    assert(t@.map_values(|e: (&'static str, BackendFeatures)| (e.0@, e.1)) =~= features_table());
    t
}

pub open spec fn first_match_at(tbl: Seq<(Seq<char>, BackendFeatures)>, kind: Seq<char>, i: int) -> bool {
    &&& 0 <= i < tbl.len()
    &&& tbl[i].0 == kind
    &&& forall|j: int| 0 <= j < i ==> #[trigger] tbl[j].0 != kind
}

/// The features of the first table entry tagged `kind`.
pub open spec fn spec_lookup(kind: Seq<char>) -> Option<BackendFeatures> {
    if exists|i: int| first_match_at(features_table(), kind, i) {
        Some(features_table()[choose|i: int| first_match_at(features_table(), kind, i)].1)
    } else {
        None
    }
}

/// Look up a non-WebDAV backend's static features by its rclone.conf `type`
/// string. `None` for WebDAV (use [`webdav_put_stream`] instead) or any
/// backend not in the table.
pub fn lookup(kind: &str) -> (r: Option<BackendFeatures>)
    ensures
        r == spec_lookup(kind@),
{
    let t = backend_features_table();
    let ghost tbl = features_table();
    let mut i: usize = 0;
    while i < t.len()
        invariant
            t@.map_values(|e: (&'static str, BackendFeatures)| (e.0@, e.1)) == tbl,
            tbl == features_table(),
            i <= t@.len(),
            forall|j: int| 0 <= j < i ==> #[trigger] tbl[j].0 != kind@,
        decreases t@.len() - i,
    {
        assert(tbl[i as int] == (t@[i as int].0@, t@[i as int].1));
        if str_eq(t[i].0, kind) {
            proof {
                assert(first_match_at(tbl, kind@, i as int));
                let c = choose|c: int| first_match_at(tbl, kind@, c);
                if c < i {
                    assert(tbl[c].0 != kind@);
                }
                if c > i {
                    assert(tbl[i as int].0 != kind@);
                }
            }
            return Some(t[i].1);
        }
        i = i + 1;
    }
    proof {
        if exists|c: int| first_match_at(tbl, kind@, c) {
            let c = choose|c: int| first_match_at(tbl, kind@, c);
            assert(tbl[c].0 != kind@);
        }
    }
    None
}

/// WebDAV only sets `PutStream` when talking to another rclone instance
/// (`vendor = rclone`); every other vendor gets it disabled.
/// `DuplicateFiles` is unset for every vendor.
pub fn webdav_put_stream(vendor: &str) -> (r: bool)
    ensures
        r == (vendor@ == "rclone"@),
{
    str_eq(vendor, "rclone")
}

} // verus!
