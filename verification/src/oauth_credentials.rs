//! Which OAuth client id/secret Google Drive's `rclone config create` gets,
//! in precedence order: a per-source user override, then the admin
//! override, then a default compiled in at build time; with none of them,
//! rclone falls back to its own shared client. Looking up the admin
//! override is the caller's part; this module decides which values make a
//! usable pair.
use crate::text::owned;
use vstd::prelude::*;

verus! {

/// A client id and secret make a usable pair only when both are given and
/// neither is empty.
pub open spec fn usable_pair(id: Option<Seq<char>>, secret: Option<Seq<char>>) -> bool {
    &&& id is Some
    &&& secret is Some
    &&& id->0.len() > 0
    &&& secret->0.len() > 0
}

/// A partial or empty override is no override: without both an id and a
/// secret, or with either one empty, there is no usable pair; with both
/// given and non-empty, there is.
pub proof fn law_partial_pair_is_none(id: Option<Seq<char>>, secret: Option<Seq<char>>)
    ensures
        id is None ==> !usable_pair(id, secret),
        secret is None ==> !usable_pair(id, secret),
        id == Some(Seq::<char>::empty()) ==> !usable_pair(id, secret),
        secret == Some(Seq::<char>::empty()) ==> !usable_pair(id, secret),
        (id matches Some(a) && secret matches Some(b) && a.len() > 0 && b.len() > 0) ==> usable_pair(id, secret),
{
}

/// The pair `(id, secret)` when it is usable (both given, neither empty);
/// a partial or empty override is no override. The rule for the per-source
/// user override and for the build-time default alike.
pub fn client_pair(id: Option<&str>, secret: Option<&str>) -> (r: Option<(String, String)>)
    ensures
        r is Some <==> usable_pair(
            match id {
                Some(s) => Some(s@),
                None => None,
            },
            match secret {
                Some(s) => Some(s@),
                None => None,
            },
        ),
        r matches Some((a, b)) ==> a@ == id->0@ && b@ == secret->0@,
{
    match (id, secret) {
        (Some(i), Some(s)) => {
            if !i.is_empty() && !s.is_empty() {
                Some((owned(i), owned(s)))
            } else {
                None
            }
        },
        _ => None,
    }
}

} // verus!
