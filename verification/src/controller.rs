//! The settings module's model of pending edits: staging and unstaging
//! edits on top of what was last applied, fresh ids, the rows the UI shows,
//! and the decisions of the sign-in wizard. The UI toolkit, the worker
//! threads and the backend calls are the caller's part.
use crate::backend::{
    delete_mounts_all, delete_sources_all, first_mount_at, first_source_at, has_source_named, key_requested, mount_index, source_index, upsert_mount, upsert_source, secret_keys, secret_keys_for, mounts_without, spec_fold, upsert_mounts_all,
    upsert_sources_all, without_mount, without_source, Changeset, ChangesetV, SourceMetaV, SourceMetadata, State,
    StateV,
};
use crate::naming::{
    always_free, answered, derive_id, id_base, id_candidate, lemma_some_candidate_free, suffix_limit,
};
use crate::error::Error;
use crate::mount::{Mount, MountOptions, MountV};
use crate::rclone_config::{parse_error_message, parse_message_splits_char, spec_parse, spec_section_entries, Document, LineV};
use crate::rclone_config_driver::{looks_like_2fa_spec, DriverPrompt, DriverStep};
use crate::source::{kind_of_tag, kind_tag, SecretValue, SourceDef, SourceDefV, SourceKind};
use crate::source_schema::{
    credential_capable_kinds, credential_capable_spec, msg_unknown_kind, schema_for, schema_lookup, spec_validate,
    validate_options_against_schema,
};
use crate::settings_json::{decode_string_map, json_string_map};
use crate::str_map::{lemma_lower_bound_exists, lookup, lower_bound, spec_insert, spec_remove, StrMap};
use crate::text::{chars_of, decimal, owned, push_str, str_eq, string_from, u64_to_decimal};
use vstd::prelude::*;

verus! {

/// A changeset with nothing in it.
pub open spec fn changeset_empty(cs: ChangesetV) -> bool {
    &&& cs.upsert_sources.len() == 0
    &&& cs.delete_sources.len() == 0
    &&& cs.upsert_mounts.len() == 0
    &&& cs.delete_mounts.len() == 0
}

/// Whether there is nothing pending (the module is not dirty).
pub fn changeset_is_empty(cs: &Changeset) -> (r: bool)
    ensures
        r == changeset_empty(cs@),
{
    cs.upsert_sources.len() == 0 && cs.delete_sources.len() == 0 && cs.upsert_mounts.len() == 0
        && cs.delete_mounts.len() == 0
}

/// With nothing pending, the preview is what was last applied: folding an
/// empty changeset leaves every source and mount as it was.
pub proof fn law_empty_changeset_changes_nothing(applied: StateV, pending: ChangesetV)
    requires
        changeset_empty(pending),
    ensures
        spec_fold(applied, pending) == applied,
{
    assert(spec_fold(applied, pending) =~= applied);
}

/// `ns` without the entries equal to `n`.
pub open spec fn names_without(ns: Seq<Seq<char>>, n: Seq<char>) -> Seq<Seq<char>>
    decreases ns.len(),
{
    if ns.len() == 0 {
        ns
    } else if ns.last() == n {
        names_without(ns.drop_last(), n)
    } else {
        names_without(ns.drop_last(), n).push(ns.last())
    }
}

/// `ds` without the definitions named `n`.
pub open spec fn defs_without(ds: Seq<SourceDefV>, n: Seq<char>) -> Seq<SourceDefV>
    decreases ds.len(),
{
    if ds.len() == 0 {
        ds
    } else if ds.last().name == n {
        defs_without(ds.drop_last(), n)
    } else {
        defs_without(ds.drop_last(), n).push(ds.last())
    }
}

/// `v` without the entries equal to `n`.
fn strings_without(v: &Vec<String>, n: &str) -> (r: Vec<String>)
    ensures
        r@.map_values(|s: String| s@) == names_without(v@.map_values(|s: String| s@), n@),
{
    let ghost w = v@.map_values(|s: String| s@);
    let mut out: Vec<String> = Vec::new();
    let mut i: usize = 0;
    proof {
        assert(w.take(0) =~= Seq::<Seq<char>>::empty());
        assert(out@.map_values(|s: String| s@) =~= Seq::<Seq<char>>::empty());
    }
    while i < v.len()
        invariant
            w == v@.map_values(|s: String| s@),
            i <= w.len(),
            out@.map_values(|s: String| s@) == names_without(w.take(i as int), n@),
        decreases w.len() - i,
    {
        let ghost before = out@.map_values(|s: String| s@);
        proof {
            assert(w.take(i + 1).drop_last() =~= w.take(i as int));
            assert(w.take(i + 1).last() == v@[i as int]@);
        }
        if !str_eq(v[i].as_str(), n) {
            let c = v[i].clone();
            out.push(c);
            assert(out@.map_values(|s: String| s@) =~= before.push(v@[i as int]@));
        }
        i = i + 1;
    }
    assert(w.take(w.len() as int) =~= w);
    out
}

/// `v` without the definitions named `n`, keeping the others in order.
fn defs_without_named(v: Vec<SourceDef>, n: &str) -> (r: Vec<SourceDef>)
    ensures
        r@.map_values(|d: SourceDef| d@) == defs_without(v@.map_values(|d: SourceDef| d@), n@),
{
    let ghost w = v@.map_values(|d: SourceDef| d@);
    let mut rest = v;
    let n0 = rest.len();
    let mut out: Vec<SourceDef> = Vec::new();
    let mut k: usize = 0;
    proof {
        assert(w.take(0) =~= Seq::<SourceDefV>::empty());
        assert(out@.map_values(|d: SourceDef| d@) =~= Seq::<SourceDefV>::empty());
        assert(rest@.map_values(|d: SourceDef| d@) =~= w.skip(0));
    }
    while rest.len() > 0
        invariant
            w.len() == n0,
            k <= w.len(),
            rest@.map_values(|d: SourceDef| d@) == w.skip(k as int),
            out@.map_values(|d: SourceDef| d@) == defs_without(w.take(k as int), n@),
        decreases w.len() - k,
    {
        let ghost before = out@.map_values(|d: SourceDef| d@);
        let ghost rv = rest@.map_values(|d: SourceDef| d@);
        assert(rv.len() == rest@.len());
        assert(k < w.len());
        let d = rest.remove(0);
        proof {
            assert(rv[0] == d@);
            assert(w.skip(k as int)[0] == w[k as int]);
            assert(w.take(k + 1).drop_last() =~= w.take(k as int));
            assert(w.take(k + 1).last() == w[k as int]);
            assert(rest@.map_values(|d: SourceDef| d@) =~= rv.skip(1));
            assert(rv.skip(1) =~= w.skip(k + 1));
        }
        if !str_eq(d.name.as_str(), n) {
            out.push(d);
            assert(out@.map_values(|d: SourceDef| d@) =~= before.push(w[k as int]));
        }
        k = k + 1;
    }
    proof {
        assert(w.skip(k as int).len() == 0);
        assert(w.take(k as int) =~= w);
    }
    out
}

/// Stages `m` as a create or edit: any earlier pending edit or delete of the
/// same mount is replaced by it.
pub fn stage_mount(pending: &mut Changeset, m: Mount)
    ensures
        final(pending)@.upsert_mounts == without_mount(old(pending)@.upsert_mounts, m@.name).push(m@),
        final(pending)@.delete_mounts == names_without(old(pending)@.delete_mounts, m@.name),
        final(pending)@.upsert_sources == old(pending)@.upsert_sources,
        final(pending)@.delete_sources == old(pending)@.delete_sources,
{
    let mut ups = mounts_without(&pending.upsert_mounts, m.name.as_str());
    let dels = strings_without(&pending.delete_mounts, m.name.as_str());
    let ghost mv = m@;
    ups.push(m);
    assert(ups@.map_values(|x: Mount| x@) =~= without_mount(old(pending)@.upsert_mounts, mv.name).push(mv));
    pending.upsert_mounts = ups;
    pending.delete_mounts = dels;
}

/// Stages `def` as a create or edit: any earlier pending edit or delete of
/// the same source is replaced by it.
pub fn stage_source(pending: &mut Changeset, def: SourceDef)
    ensures
        final(pending)@.upsert_sources == defs_without(old(pending)@.upsert_sources, def@.name).push(def@),
        final(pending)@.delete_sources == names_without(old(pending)@.delete_sources, def@.name),
        final(pending)@.upsert_mounts == old(pending)@.upsert_mounts,
        final(pending)@.delete_mounts == old(pending)@.delete_mounts,
{
    let mut taken: Vec<SourceDef> = Vec::new();
    std::mem::swap(&mut taken, &mut pending.upsert_sources);
    let mut ups = defs_without_named(taken, def.name.as_str());
    let dels = strings_without(&pending.delete_sources, def.name.as_str());
    let ghost dv = def@;
    ups.push(def);
    assert(ups@.map_values(|x: SourceDef| x@) =~= defs_without(old(pending)@.upsert_sources, dv.name).push(dv));
    pending.upsert_sources = ups;
    pending.delete_sources = dels;
}

pub open spec fn has_mount_named(ms: Seq<MountV>, n: Seq<char>) -> bool {
    exists|i: int| 0 <= i < ms.len() && #[trigger] ms[i].name == n
}

fn mount_named(ms: &Vec<Mount>, n: &str) -> (r: bool)
    ensures
        r == has_mount_named(ms@.map_values(|m: Mount| m@), n@),
{
    let ghost v = ms@.map_values(|m: Mount| m@);
    let mut i: usize = 0;
    while i < ms.len()
        invariant
            v == ms@.map_values(|m: Mount| m@),
            i <= v.len(),
            forall|j: int| 0 <= j < i ==> #[trigger] v[j].name != n@,
        decreases v.len() - i,
    {
        assert(v[i as int] == ms@[i as int]@);
        if str_eq(ms[i].name.as_str(), n) {
            assert(v[i as int].name == n@);
            return true;
        }
        i = i + 1;
    }
    false
}

fn source_meta_named(state: &State, n: &str) -> (r: bool)
    ensures
        r == has_source_named(state@.sources, n@),
{
    let ghost v = state@.sources;
    let mut i: usize = 0;
    while i < state.sources.len()
        invariant
            v == state@.sources,
            i <= v.len(),
            forall|j: int| 0 <= j < i ==> #[trigger] v[j].name != n@,
        decreases v.len() - i,
    {
        assert(v[i as int] == state.sources@[i as int]@);
        if str_eq(state.sources[i].name.as_str(), n) {
            assert(v[i as int].name == n@);
            return true;
        }
        i = i + 1;
    }
    false
}

fn strings_contain(v: &Vec<String>, n: &str) -> (r: bool)
    ensures
        r == v@.map_values(|s: String| s@).contains(n@),
{
    let ghost w = v@.map_values(|s: String| s@);
    let mut i: usize = 0;
    while i < v.len()
        invariant
            w == v@.map_values(|s: String| s@),
            i <= w.len(),
            forall|j: int| 0 <= j < i ==> w[j] != n@,
        decreases w.len() - i,
    {
        if str_eq(v[i].as_str(), n) {
            assert(w[i as int] == n@);
            return true;
        }
        i = i + 1;
    }
    false
}

/// `ns` with `n` appended when `n` was applied and isn't already queued
/// for deletion.
pub open spec fn queue_delete(ns: Seq<Seq<char>>, n: Seq<char>, applied: bool) -> Seq<Seq<char>> {
    if applied && !ns.contains(n) {
        ns.push(n)
    } else {
        ns
    }
}

/// Drops mount `name`: a pending create or edit is forgotten, and a delete
/// is queued only when the mount exists in the applied state.
pub fn unstage_mount(applied: &State, pending: &mut Changeset, name: &str)
    ensures
        final(pending)@.upsert_mounts == without_mount(old(pending)@.upsert_mounts, name@),
        final(pending)@.delete_mounts == queue_delete(
            old(pending)@.delete_mounts,
            name@,
            has_mount_named(applied@.mounts, name@),
        ),
        final(pending)@.upsert_sources == old(pending)@.upsert_sources,
        final(pending)@.delete_sources == old(pending)@.delete_sources,
{
    let in_applied = mount_named(&applied.mounts, name);
    let ups = mounts_without(&pending.upsert_mounts, name);
    pending.upsert_mounts = ups;
    if in_applied && !strings_contain(&pending.delete_mounts, name) {
        let ghost before = pending.delete_mounts@.map_values(|s: String| s@);
        let mut n = String::new();
        crate::text::push_str(&mut n, name);
        pending.delete_mounts.push(n);
        assert(pending.delete_mounts@.map_values(|s: String| s@) =~= before.push(name@));
    }
}

/// Drops source `name`: a pending create or edit is forgotten, and a delete
/// is queued only when the source exists in the applied state.
pub fn unstage_source(applied: &State, pending: &mut Changeset, name: &str)
    ensures
        final(pending)@.upsert_sources == defs_without(old(pending)@.upsert_sources, name@),
        final(pending)@.delete_sources == queue_delete(
            old(pending)@.delete_sources,
            name@,
            has_source_named(applied@.sources, name@),
        ),
        final(pending)@.upsert_mounts == old(pending)@.upsert_mounts,
        final(pending)@.delete_mounts == old(pending)@.delete_mounts,
{
    let in_applied = source_meta_named(applied, name);
    let mut taken: Vec<SourceDef> = Vec::new();
    std::mem::swap(&mut taken, &mut pending.upsert_sources);
    let ups = defs_without_named(taken, name);
    pending.upsert_sources = ups;
    if in_applied && !strings_contain(&pending.delete_sources, name) {
        let ghost before = pending.delete_sources@.map_values(|s: String| s@);
        let mut n = String::new();
        crate::text::push_str(&mut n, name);
        pending.delete_sources.push(n);
        assert(pending.delete_sources@.map_values(|s: String| s@) =~= before.push(name@));
    }
}

/// Whether switching the settings module to the requested scope means
/// (re)loading: not when it is already on that scope with a live backend.
pub fn scope_reload_needed(current_system: bool, requested_system: bool, has_backend: bool) -> (r: bool)
    ensures
        r == !(current_system == requested_system && has_backend),
{
    !(current_system == requested_system && has_backend)
}

// ---------------------------------------------------------------------------
// Fresh ids.
// ---------------------------------------------------------------------------

proof fn lemma_without_source_len(ss: Seq<SourceMetaV>, n: Seq<char>)
    ensures
        without_source(ss, n).len() <= ss.len(),
    decreases ss.len(),
{
    if ss.len() > 0 {
        lemma_without_source_len(ss.drop_last(), n);
    }
}

proof fn lemma_without_mount_len(ms: Seq<MountV>, n: Seq<char>)
    ensures
        without_mount(ms, n).len() <= ms.len(),
    decreases ms.len(),
{
    if ms.len() > 0 {
        lemma_without_mount_len(ms.drop_last(), n);
    }
}

proof fn lemma_fold_sizes(st: StateV, cs: ChangesetV)
    ensures
        spec_fold(st, cs).sources.len() <= st.sources.len() + cs.upsert_sources.len(),
        spec_fold(st, cs).mounts.len() <= st.mounts.len() + cs.upsert_mounts.len(),
{
    lemma_delete_sources_len(st.sources, cs.delete_sources);
    lemma_upsert_sources_len(delete_sources_all(st.sources, cs.delete_sources), cs.upsert_sources);
    lemma_delete_mounts_len(st.mounts, cs.delete_mounts);
    lemma_upsert_mounts_len(delete_mounts_all(st.mounts, cs.delete_mounts), cs.upsert_mounts);
}

proof fn lemma_delete_sources_len(ss: Seq<SourceMetaV>, names: Seq<Seq<char>>)
    ensures
        delete_sources_all(ss, names).len() <= ss.len(),
    decreases names.len(),
{
    if names.len() > 0 {
        lemma_delete_sources_len(ss, names.drop_last());
        lemma_without_source_len(delete_sources_all(ss, names.drop_last()), names.last());
    }
}

proof fn lemma_delete_mounts_len(ms: Seq<MountV>, names: Seq<Seq<char>>)
    ensures
        delete_mounts_all(ms, names).len() <= ms.len(),
    decreases names.len(),
{
    if names.len() > 0 {
        lemma_delete_mounts_len(ms, names.drop_last());
        lemma_without_mount_len(delete_mounts_all(ms, names.drop_last()), names.last());
    }
}

proof fn lemma_upsert_sources_len(ss: Seq<SourceMetaV>, ds: Seq<SourceDefV>)
    ensures
        upsert_sources_all(ss, ds).len() <= ss.len() + ds.len(),
    decreases ds.len(),
{
    if ds.len() > 0 {
        lemma_upsert_sources_len(ss, ds.drop_last());
    }
}

proof fn lemma_upsert_mounts_len(ms: Seq<MountV>, us: Seq<MountV>)
    ensures
        upsert_mounts_all(ms, us).len() <= ms.len() + us.len(),
    decreases us.len(),
{
    if us.len() > 0 {
        lemma_upsert_mounts_len(ms, us.drop_last());
    }
}

/// The id prefix used when a display name slugifies to nothing.
pub open spec fn fallback_prefix(is_source: bool) -> Seq<char> {
    if is_source {
        "source"@
    } else {
        "mount"@
    }
}

/// The ids of the sources (or mounts) the UI shows: the applied state with
/// the pending edits folded on.
pub open spec fn displayed_names(applied: StateV, pending: ChangesetV, is_source: bool) -> Seq<Seq<char>> {
    let d = spec_fold(applied, pending);
    if is_source {
        d.sources.map_values(|s: SourceMetaV| s.name)
    } else {
        d.mounts.map_values(|m: MountV| m.name)
    }
}

/// `r` is the id derived from `base` against the taken ids `ns`: `base`
/// itself when free, else the first free `base-n` (`n >= 2`).
pub open spec fn fresh_id(ns: Seq<Seq<char>>, base: Seq<char>, r: Seq<char>) -> bool {
    ||| !ns.contains(base) && r == base
    ||| ns.contains(base) && exists|n: nat|
        2 <= n < suffix_limit() && r == id_candidate(base, n) && !ns.contains(r) && forall|m: nat|
            2 <= m < n ==> ns.contains(#[trigger] id_candidate(base, m))
}

fn source_names(ss: &Vec<SourceMetadata>) -> (r: Vec<String>)
    ensures
        r@.map_values(|s: String| s@) == ss@.map_values(|s: SourceMetadata| s@).map_values(
            |s: SourceMetaV| s.name,
        ),
{
    let mut out: Vec<String> = Vec::new();
    let mut i: usize = 0;
    while i < ss.len()
        invariant
            i <= ss@.len(),
            out@.map_values(|s: String| s@) == ss@.take(i as int).map_values(|s: SourceMetadata| s@).map_values(
                |s: SourceMetaV| s.name,
            ),
        decreases ss@.len() - i,
    {
        let ghost before = out@.map_values(|s: String| s@);
        let n = ss[i].name.clone();
        out.push(n);
        proof {
            assert(out@.map_values(|s: String| s@) =~= before.push(ss@[i as int].name@));
            assert(ss@.take(i + 1).map_values(|s: SourceMetadata| s@).map_values(|s: SourceMetaV| s.name)
                =~= ss@.take(i as int).map_values(|s: SourceMetadata| s@).map_values(|s: SourceMetaV| s.name).push(
                ss@[i as int].name@,
            ));
        }
        i = i + 1;
    }
    assert(ss@.take(ss@.len() as int) =~= ss@);
    out
}

fn mount_names(ms: &Vec<Mount>) -> (r: Vec<String>)
    ensures
        r@.map_values(|s: String| s@) == ms@.map_values(|m: Mount| m@).map_values(|m: MountV| m.name),
{
    let mut out: Vec<String> = Vec::new();
    let mut i: usize = 0;
    while i < ms.len()
        invariant
            i <= ms@.len(),
            out@.map_values(|s: String| s@) == ms@.take(i as int).map_values(|m: Mount| m@).map_values(
                |m: MountV| m.name,
            ),
        decreases ms@.len() - i,
    {
        let ghost before = out@.map_values(|s: String| s@);
        let n = ms[i].name.clone();
        out.push(n);
        proof {
            assert(out@.map_values(|s: String| s@) =~= before.push(ms@[i as int].name@));
            assert(ms@.take(i + 1).map_values(|m: Mount| m@).map_values(|m: MountV| m.name)
                =~= ms@.take(i as int).map_values(|m: Mount| m@).map_values(|m: MountV| m.name).push(
                ms@[i as int].name@,
            ));
        }
        i = i + 1;
    }
    assert(ms@.take(ms@.len() as int) =~= ms@);
    out
}

/// The id for an upsert: an explicit id is kept (editing an existing row);
/// otherwise a fresh id is derived from the display name, unique against
/// the sources (or mounts) the UI currently shows.
pub fn resolve_id(applied: &State, pending: &Changeset, id: &str, display: &str, is_source: bool) -> (r: String)
    requires
        applied@.sources.len() + pending@.upsert_sources.len() + 3 <= suffix_limit(),
        applied@.mounts.len() + pending@.upsert_mounts.len() + 3 <= suffix_limit(),
    ensures
        id@.len() > 0 ==> r@ == id@,
        id@.len() == 0 ==> fresh_id(
            displayed_names(applied@, pending@, is_source),
            id_base(display@, fallback_prefix(is_source)),
            r@,
        ),
{
    if !id.is_empty() {
        return owned(id);
    }
    let displayed = applied.preview(pending);
    let names = if is_source {
        source_names(&displayed.sources)
    } else {
        mount_names(&displayed.mounts)
    };
    let ghost ns = names@.map_values(|s: String| s@);
    let fallback = if is_source {
        "source"
    } else {
        "mount"
    };
    let ghost base = id_base(display@, fallback@);
    proof {
        assert(ns == displayed_names(applied@, pending@, is_source));
        lemma_fold_sizes(applied@, pending@);
        ns.lemma_cardinality_of_set();
        lemma_some_candidate_free(ns.to_set(), base);
    }
    let in_use = |c: &str| -> (b: bool)
        ensures
            b == names@.map_values(|s: String| s@).contains(c@),
        { strings_contain(&names, c) };
    proof {
        let n = choose|n: nat| 2 <= n < suffix_limit() && !ns.to_set().contains(#[trigger] id_candidate(base, n));
        assert(!ns.contains(id_candidate(base, n)));
        assert(always_free(in_use, id_candidate(base, n)));
    }
    let r = derive_id(display, fallback, in_use);
    proof {
        if r@ == base && answered(in_use, base, false) {
            let s0 = choose|s: &str| #[trigger] call_ensures(in_use, (s,), false) && s@ == base;
            assert(!ns.contains(base));
        } else {
            let s0 = choose|s: &str| #[trigger] call_ensures(in_use, (s,), true) && s@ == base;
            assert(ns.contains(base));
            let n = choose|n: nat|
                2 <= n < suffix_limit() && r@ == id_candidate(base, n) && answered(in_use, id_candidate(base, n), false)
                    && forall|m: nat| 2 <= m < n ==> #[trigger] answered(in_use, id_candidate(base, m), true);
            let s1 = choose|s: &str| #[trigger] call_ensures(in_use, (s,), false) && s@ == id_candidate(base, n);
            assert(!ns.contains(r@));
            assert forall|m: nat| 2 <= m < n implies ns.contains(#[trigger] id_candidate(base, m)) by {
                assert(answered(in_use, id_candidate(base, m), true));
                let s2 = choose|s: &str| #[trigger] call_ensures(in_use, (s,), true) && s@ == id_candidate(base, m);
            }
        }
    }
    r
}

// ---------------------------------------------------------------------------
// What the UI shows.
// ---------------------------------------------------------------------------

/// One mount as the UI lists it. `active` is the unit's systemd
/// `ActiveState`, `"unknown"` when it couldn't be read, or `"unsaved"` for a
/// pending create that has no unit yet; `applied` gates Start/Stop.
#[derive(Debug)]
pub struct MountRow {
    pub mount: Mount,
    pub active: String,
    pub applied: bool,
}

/// The status shown for a mount.
pub open spec fn row_status(applied: bool, statuses: Seq<(Seq<char>, Seq<char>)>, name: Seq<char>) -> Seq<char> {
    if !applied {
        "unsaved"@
    } else {
        match lookup(statuses, name) {
            Some(s) => s,
            None => "unknown"@,
        }
    }
}

/// The mounts the UI lists: the applied state with pending edits folded
/// on, each with its status.
pub fn mount_rows(applied: &State, pending: &Changeset, statuses: &StrMap<String>) -> (r: Vec<MountRow>)
    ensures
        r@.len() == spec_fold(applied@, pending@).mounts.len(),
        forall|i: int|
            0 <= i < r@.len() ==> {
                let m = spec_fold(applied@, pending@).mounts[i];
                let on_disk = has_mount_named(applied@.mounts, m.name);
                &&& (#[trigger] r@[i]).mount@ == m
                &&& r@[i].applied == on_disk
                &&& r@[i].active@ == row_status(on_disk, statuses@, m.name)
            },
{
    let displayed = applied.preview(pending);
    let ghost ms = displayed@.mounts;
    let mut rows: Vec<MountRow> = Vec::new();
    let mut i: usize = 0;
    while i < displayed.mounts.len()
        invariant
            ms == displayed@.mounts,
            ms == spec_fold(applied@, pending@).mounts,
            i <= ms.len(),
            rows@.len() == i,
            forall|j: int|
                0 <= j < i ==> {
                    let m = ms[j];
                    let on_disk = has_mount_named(applied@.mounts, m.name);
                    &&& (#[trigger] rows@[j]).mount@ == m
                    &&& rows@[j].applied == on_disk
                    &&& rows@[j].active@ == row_status(on_disk, statuses@, m.name)
                },
        decreases ms.len() - i,
    {
        let m = crate::mount::copy_mount(&displayed.mounts[i]);
        assert(ms[i as int] == m@);
        let on_disk = mount_named(&applied.mounts, m.name.as_str());
        let active = if !on_disk {
            owned("unsaved")
        } else {
            match statuses.get(m.name.as_str()) {
                Some(s) => s.clone(),
                None => owned("unknown"),
            }
        };
        rows.push(MountRow { mount: m, active, applied: on_disk });
        i = i + 1;
    }
    rows
}

/// `s` without leading and trailing `/` (`str::trim_matches('/')`).
pub open spec fn trim_slashes_spec(s: Seq<char>) -> Seq<char>
    decreases s.len(),
{
    if s.len() > 0 && s[0] == '/' {
        trim_slashes_spec(s.skip(1))
    } else if s.len() > 0 && s.last() == '/' {
        trim_slashes_spec(s.drop_last())
    } else {
        s
    }
}

/// A mount's path within its source, without leading or trailing `/`.
pub fn trim_slashes(s: &str) -> (r: String)
    ensures
        r@ == trim_slashes_spec(s@),
{
    let cs = chars_of(s);
    let mut a: usize = 0;
    let mut b: usize = cs.len();
    proof {
        assert(cs@.subrange(0, cs@.len() as int) =~= cs@);
    }
    while a < b && (cs[a] == '/' || cs[b - 1] == '/')
        invariant
            a <= b <= cs@.len(),
            trim_slashes_spec(cs@.subrange(a as int, b as int)) == trim_slashes_spec(s@),
            cs@ == s@,
        decreases b - a,
    {
        let ghost t = cs@.subrange(a as int, b as int);
        if cs[a] == '/' {
            assert(t[0] == cs@[a as int]);
            assert(t.skip(1) =~= cs@.subrange(a + 1, b as int));
            a = a + 1;
        } else {
            assert(t[0] == cs@[a as int]);
            assert(t.last() == cs@[b - 1]);
            assert(t.drop_last() =~= cs@.subrange(a as int, b - 1));
            b = b - 1;
        }
    }
    proof {
        let t = cs@.subrange(a as int, b as int);
        if t.len() > 0 {
            assert(t[0] == cs@[a as int]);
            assert(t.last() == cs@[b - 1]);
        }
    }
    string_from(&cs, a, b)
}

/// `pending` with `d` staged: it replaces any earlier edit or delete of the
/// same source.
pub open spec fn staged_source(pending: ChangesetV, d: SourceDefV) -> ChangesetV {
    ChangesetV {
        upsert_sources: defs_without(pending.upsert_sources, d.name).push(d),
        delete_sources: names_without(pending.delete_sources, d.name),
        ..pending
    }
}

/// `pending` with `m` staged: it replaces any earlier edit or delete of the
/// same mount.
pub open spec fn staged_mount(pending: ChangesetV, m: MountV) -> ChangesetV {
    ChangesetV {
        upsert_mounts: without_mount(pending.upsert_mounts, m.name).push(m),
        delete_mounts: names_without(pending.delete_mounts, m.name),
        ..pending
    }
}

/// The id an edit ends up with: `id` itself when given, else a fresh one.
pub open spec fn edit_id(applied: StateV, pending: ChangesetV, id: Seq<char>, display: Seq<char>, is_source: bool, r: Seq<char>) -> bool {
    &&& id.len() > 0 ==> r == id
    &&& id.len() == 0 ==> fresh_id(
        displayed_names(applied, pending, is_source),
        id_base(display, fallback_prefix(is_source)),
        r,
    )
}

/// The secrets a settings-form edit sets: a non-empty `secret` becomes the
/// password (`pass`), obscured before it is stored; an empty one leaves the
/// stored password as it is.
pub open spec fn form_secrets(secret: Seq<char>) -> Seq<(Seq<char>, (Seq<char>, bool))> {
    if secret.len() == 0 {
        Seq::empty()
    } else {
        seq![("pass"@, (secret, true))]
    }
}

/// Stages a mount edit from the settings form and returns the mount's id:
/// `id` when editing, a fresh id derived from `display` when creating. The
/// subpath loses its surrounding `/`.
pub fn upsert_mount_edit(
    applied: &State,
    pending: &mut Changeset,
    id: &str,
    display: &str,
    source: &str,
    subpath: &str,
    mountpoint: &str,
    options: MountOptions,
    enabled: bool,
) -> (r: String)
    requires
        applied@.sources.len() + old(pending)@.upsert_sources.len() + 3 <= suffix_limit(),
        applied@.mounts.len() + old(pending)@.upsert_mounts.len() + 3 <= suffix_limit(),
    ensures
        edit_id(applied@, old(pending)@, id@, display@, false, r@),
        final(pending)@ == staged_mount(
            old(pending)@,
            MountV {
                name: r@,
                display_name: display@,
                source: source@,
                subpath: trim_slashes_spec(subpath@),
                mountpoint: mountpoint@,
                options,
                enabled,
            },
        ),
{
    let name = resolve_id(applied, pending, id, display, false);
    let mount = Mount {
        name: name.clone(),
        display_name: owned(display),
        source: owned(source),
        subpath: trim_slashes(subpath),
        mountpoint: owned(mountpoint),
        options,
        enabled,
    };
    let ghost before = pending@;
    stage_mount(pending, mount);
    assert(pending@ =~= staged_mount(before, mount@));
    name
}

/// Stages a source edit from the settings form and returns the source's id:
/// `id` when editing, a fresh id derived from `display` when creating. A
/// non-empty `secret` sets the password. Refused, with the message the form
/// shows and nothing staged, for a kind this version lacks or options the
/// kind's schema rejects.
pub fn upsert_source_edit(
    applied: &State,
    pending: &mut Changeset,
    id: &str,
    display: &str,
    kind_tag: &str,
    options: StrMap<String>,
    secret: &str,
) -> (r: Result<String, String>)
    requires
        applied@.sources.len() + old(pending)@.upsert_sources.len() + 3 <= suffix_limit(),
        applied@.mounts.len() + old(pending)@.upsert_mounts.len() + 3 <= suffix_limit(),
    ensures
        match kind_of_tag(kind_tag@) {
            None => r matches Err(m) && m@ == msg_unknown_kind(kind_tag@) && final(pending)@ == old(pending)@,
            Some(k) => match spec_validate(kind_tag@, options@) {
                Err(e) => r matches Err(m) && m@ == e && final(pending)@ == old(pending)@,
                Ok(_) => r matches Ok(n) && edit_id(applied@, old(pending)@, id@, display@, true, n@)
                    && final(pending)@ == staged_source(
                    old(pending)@,
                    SourceDefV {
                        name: n@,
                        display_name: display@,
                        kind: k,
                        options: options@,
                        new_secrets: form_secrets(secret@),
                    },
                ),
            },
        },
{
    let kind = match SourceKind::from_tag(kind_tag) {
        Some(k) => k,
        None => {
            let mut m = String::new();
            push_str(&mut m, "\u{201c}");
            push_str(&mut m, kind_tag);
            push_str(&mut m, "\u{201d} isn\u{2019}t a source type this version supports.");
            proof {
                reveal_strlit("\u{201c}");
                reveal_strlit("\u{201d} isn\u{2019}t a source type this version supports.");
            }
            assert(m@ =~= msg_unknown_kind(kind_tag@));
            return Err(m);
        },
    };
    match validate_options_against_schema(kind_tag, &options) {
        Err(e) => {
            return Err(e);
        },
        Ok(()) => {},
    }
    let name = resolve_id(applied, pending, id, display, true);
    let mut new_secrets: StrMap<SecretValue> = StrMap::new();
    if !secret.is_empty() {
        new_secrets.insert(owned("pass"), SecretValue { value: owned(secret), obscure: true });
        proof {
            lemma_lower_bound_exists(Seq::<(Seq<char>, (Seq<char>, bool))>::empty(), "pass"@);
            let i = lower_bound(Seq::<(Seq<char>, (Seq<char>, bool))>::empty(), "pass"@);
            assert(i == 0);
        }
        assert(new_secrets@ =~= form_secrets(secret@));
    } else {
        assert(new_secrets@ =~= form_secrets(secret@));
    }
    let def = SourceDef { name: name.clone(), display_name: owned(display), kind, options, new_secrets };
    let ghost before = pending@;
    stage_source(pending, def);
    assert(pending@ =~= staged_source(before, def@));
    Ok(name)
}

/// The value of `key` in `seed` when it is set and non-empty.
pub fn nonempty_value(seed: &StrMap<String>, key: &str) -> (r: Option<String>)
    ensures
        match lookup(seed@, key@) {
            Some(v) => if v.len() > 0 {
                r matches Some(x) && x@ == v
            } else {
                r is None
            },
            None => r is None,
        },
{
    match seed.get(key) {
        Some(v) => {
            if v.as_str().is_empty() {
                None
            } else {
                Some(v.clone())
            }
        },
        None => None,
    }
}

/// The initial values for a Drive sign-in: the form's values, with the
/// resolved client pair (or, with none, no client id or secret at all) and
/// `scope = drive`.
pub open spec fn drive_seed_spec(seed: Seq<(Seq<char>, Seq<char>)>, creds: Option<(Seq<char>, Seq<char>)>) -> Seq<
    (Seq<char>, Seq<char>),
> {
    let with_creds = match creds {
        Some((id, secret)) => spec_insert(spec_insert(seed, "client_id"@, id), "client_secret"@, secret),
        None => spec_remove(spec_remove(seed, "client_id"@), "client_secret"@),
    };
    spec_insert(with_creds, "scope"@, "drive"@)
}

/// The message for settings whose JSON couldn't be read.
pub open spec fn unreadable_message(lead: Seq<char>, e: Seq<char>) -> Seq<char> {
    lead + e
}

/// The unknown-kind message, built.
fn unknown_kind_error(kind_tag: &str) -> (m: String)
    ensures
        m@ == msg_unknown_kind(kind_tag@),
{
    let mut m = String::new();
    push_str(&mut m, "\u{201c}");
    push_str(&mut m, kind_tag);
    push_str(&mut m, "\u{201d} isn\u{2019}t a source type this version supports.");
    m
}

/// Stages a source edit whose options arrive as the settings form's JSON
/// object of strings, and returns the source's id. Refused, with the
/// message the form shows and nothing staged, for a kind this version
/// lacks, for options JSON that can't be read, and where
/// [`upsert_source_edit`] refuses.
pub fn upsert_source_json(
    applied: &State,
    pending: &mut Changeset,
    id: &str,
    display: &str,
    kind_tag: &str,
    options_json: &str,
    secret: &str,
) -> (r: Result<String, String>)
    requires
        applied@.sources.len() + old(pending)@.upsert_sources.len() + 3 <= suffix_limit(),
        applied@.mounts.len() + old(pending)@.upsert_mounts.len() + 3 <= suffix_limit(),
    ensures
        match kind_of_tag(kind_tag@) {
            None => r matches Err(m) && m@ == msg_unknown_kind(kind_tag@) && final(pending)@ == old(pending)@,
            Some(k) => match json_string_map(options_json@) {
                Err(e) => r matches Err(m) && m@ == unreadable_message(
                    "Those source settings couldn\u{2019}t be read. "@,
                    e,
                ) && final(pending)@ == old(pending)@,
                Ok(opts) => match spec_validate(kind_tag@, opts) {
                    Err(e) => r matches Err(m) && m@ == e && final(pending)@ == old(pending)@,
                    Ok(_) => r matches Ok(n) && edit_id(applied@, old(pending)@, id@, display@, true, n@)
                        && final(pending)@ == staged_source(
                        old(pending)@,
                        SourceDefV {
                            name: n@,
                            display_name: display@,
                            kind: k,
                            options: opts,
                            new_secrets: form_secrets(secret@),
                        },
                    ),
                },
            },
        },
{
    if SourceKind::from_tag(kind_tag).is_none() {
        return Err(unknown_kind_error(kind_tag));
    }
    let options = match decode_string_map(options_json) {
        Ok(m) => m,
        Err(e) => {
            let mut m = String::new();
            push_str(&mut m, "Those source settings couldn\u{2019}t be read. ");
            push_str(&mut m, e.as_str());
            return Err(m);
        },
    };
    upsert_source_edit(applied, pending, id, display, kind_tag, options, secret)
}

/// The kind and first-step values of a sign-in wizard, from the kind's tag
/// and the seed the wizard's first page sends as a JSON object of strings.
pub fn wizard_seed_from_json(kind_tag: &str, seed_json: &str) -> (r: Result<(SourceKind, StrMap<String>), String>)
    ensures
        match kind_of_tag(kind_tag@) {
            None => r matches Err(m) && m@ == msg_unknown_kind(kind_tag@),
            Some(k) => match json_string_map(seed_json@) {
                Err(e) => r matches Err(m) && m@ == unreadable_message("Those settings couldn\u{2019}t be read. "@, e),
                Ok(seed) => r matches Ok((k2, m)) && k2 == k && m@ == seed,
            },
        },
{
    let kind = match SourceKind::from_tag(kind_tag) {
        Some(k) => k,
        None => {
            return Err(unknown_kind_error(kind_tag));
        },
    };
    match decode_string_map(seed_json) {
        Ok(m) => Ok((kind, m)),
        Err(e) => {
            let mut m = String::new();
            push_str(&mut m, "Those settings couldn\u{2019}t be read. ");
            push_str(&mut m, e.as_str());
            Err(m)
        },
    }
}

/// Where the search for a Drive sign-in's OAuth client stands.
#[derive(Debug, PartialEq, Eq)]
pub enum DriveCredStep {
    /// Sign in with this client id and secret.
    Use(String, String),
    /// Ask the backend for the admin override next.
    AskAdminOverride,
    /// Ask for the credential an admin shares with every local user next.
    AskShared,
    /// Nothing found: use the build-time default (or rclone's own client).
    BuildTime,
}

/// The next step of the Drive client precedence: a usable per-source user
/// pair beats the admin override, which beats a shared credential, which
/// beats the build-time default. `admin` and `shared` are `None` until
/// asked, then `Some` of what the answer held.
pub fn drive_credentials_next(
    user: Option<(String, String)>,
    admin: Option<Option<(String, String)>>,
    shared: Option<Option<(String, String)>>,
) -> (r: DriveCredStep)
    ensures
        match user {
            Some((a, b)) if a@.len() > 0 && b@.len() > 0 => r == DriveCredStep::Use(a, b),
            _ => match admin {
                None => r == DriveCredStep::AskAdminOverride,
                Some(Some((a, b))) => r == DriveCredStep::Use(a, b),
                Some(None) => match shared {
                    None => r == DriveCredStep::AskShared,
                    Some(Some((a, b))) => r == DriveCredStep::Use(a, b),
                    Some(None) => r == DriveCredStep::BuildTime,
                },
            },
        },
{
    match user {
        Some((a, b)) => {
            if !a.as_str().is_empty() && !b.as_str().is_empty() {
                return DriveCredStep::Use(a, b);
            }
        },
        None => {},
    }
    match admin {
        None => DriveCredStep::AskAdminOverride,
        Some(Some((a, b))) => DriveCredStep::Use(a, b),
        Some(None) => match shared {
            None => DriveCredStep::AskShared,
            Some(Some((a, b))) => DriveCredStep::Use(a, b),
            Some(None) => DriveCredStep::BuildTime,
        },
    }
}

/// The initial values for a Drive sign-in.
pub fn drive_seed(seed: &StrMap<String>, creds: Option<(String, String)>) -> (r: StrMap<String>)
    ensures
        r@ == drive_seed_spec(
            seed@,
            match creds {
                Some((a, b)) => Some((a@, b@)),
                None => None,
            },
        ),
{
    let mut kv = seed.duplicate();
    match creds {
        Some((id, secret)) => {
            kv.insert(owned("client_id"), id);
            kv.insert(owned("client_secret"), secret);
        },
        None => {
            kv.remove("client_id");
            kv.remove("client_secret");
        },
    }
    kv.insert(owned("scope"), owned("drive"));
    kv
}

/// One kind the Credentials page offers an admin override for, labelled
/// from its schema.
#[derive(Debug)]
pub struct CredentialKindInfo {
    pub tag: String,
    pub label: String,
    pub icon: String,
}

/// The kinds the Credentials page lists, in order, each with its schema's
/// tag, label and icon (a tag without a schema is skipped).
pub open spec fn credential_kinds_spec(tags: Seq<Seq<char>>) -> Seq<(Seq<char>, Seq<char>, Seq<char>)>
    decreases tags.len(),
{
    if tags.len() == 0 {
        Seq::empty()
    } else {
        match schema_lookup(tags.last()) {
            Some(k) => credential_kinds_spec(tags.drop_last()).push((k.tag, k.label, k.icon)),
            None => credential_kinds_spec(tags.drop_last()),
        }
    }
}

/// The kinds with a shared/admin credential override.
pub fn credential_kinds() -> (r: Vec<CredentialKindInfo>)
    ensures
        r@.map_values(|c: CredentialKindInfo| (c.tag@, c.label@, c.icon@)) == credential_kinds_spec(
            credential_capable_spec(),
        ),
{
    let tags = credential_capable_kinds();
    let ghost ts = tags@.map_values(|t: &'static str| t@);
    let mut out: Vec<CredentialKindInfo> = Vec::new();
    let mut i: usize = 0;
    while i < tags.len()
        invariant
            ts == tags@.map_values(|t: &'static str| t@),
            ts == credential_capable_spec(),
            i <= ts.len(),
            out@.map_values(|c: CredentialKindInfo| (c.tag@, c.label@, c.icon@)) == credential_kinds_spec(
                ts.take(i as int),
            ),
        decreases ts.len() - i,
    {
        let ghost before = out@.map_values(|c: CredentialKindInfo| (c.tag@, c.label@, c.icon@));
        proof {
            assert(ts.take(i + 1).drop_last() =~= ts.take(i as int));
            assert(ts.take(i + 1).last() == tags@[i as int]@);
        }
        match schema_for(tags[i]) {
            Some(k) => {
                out.push(CredentialKindInfo { tag: owned(k.tag), label: owned(k.label), icon: owned(k.icon) });
                assert(out@.map_values(|c: CredentialKindInfo| (c.tag@, c.label@, c.icon@)) =~= before.push(
                    (k.tag@, k.label@, k.icon@),
                ));
            },
            None => {},
        }
        i = i + 1;
    }
    assert(ts.take(ts.len() as int) =~= ts);
    out
}

// ---------------------------------------------------------------------------
// The sign-in wizard.
// ---------------------------------------------------------------------------

/// A finished remote's entries split into options and secrets: `type` is
/// dropped, keys of `keys` become secrets already in final on-disk form
/// (never re-obscured), the rest become options.
pub open spec fn split_remote_entries(es: Seq<(Seq<char>, Seq<char>)>, keys: Seq<Seq<char>>) -> (
    Seq<(Seq<char>, Seq<char>)>,
    Seq<(Seq<char>, (Seq<char>, bool))>,
)
    decreases es.len(),
{
    if es.len() == 0 {
        (Seq::empty(), Seq::empty())
    } else {
        let prev = split_remote_entries(es.drop_last(), keys);
        let k = es.last().0;
        let v = es.last().1;
        if k == "type"@ {
            prev
        } else if keys.contains(k) {
            (prev.0, spec_insert(prev.1, k, (v, false)))
        } else {
            (spec_insert(prev.0, k, v), prev.1)
        }
    }
}

/// The option iCloud Drive sources carry with the time their trust token
/// was stamped (Unix seconds), so the UI can warn as it nears expiry.
pub open spec fn stamped_options(opts: Seq<(Seq<char>, Seq<char>)>, kind: SourceKind, now_secs: nat) -> Seq<
    (Seq<char>, Seq<char>),
> {
    if kind == SourceKind::IcloudDrive {
        spec_insert(opts, "_trust_token_stamped_at"@, decimal(now_secs))
    } else {
        opts
    }
}

/// The source definition a finished sign-in describes.
pub open spec fn remote_source_def(
    ls: Seq<LineV>,
    kind: SourceKind,
    remote_name: Seq<char>,
    display_name: Seq<char>,
    now_secs: nat,
) -> SourceDefV {
    let parts = split_remote_entries(spec_section_entries(ls, remote_name), secret_keys(kind));
    SourceDefV {
        name: remote_name,
        display_name,
        kind,
        options: stamped_options(parts.0, kind, now_secs),
        new_secrets: parts.1,
    }
}

/// Splits a finished remote's rclone.conf section into non-secret options
/// (for `sources.conf`) and secret values (for the encrypted credential),
/// per the kind's secret keys. `now_secs` is the current Unix time, stamped
/// on iCloud Drive sources.
pub fn source_def_from_remote_conf(
    remote_conf: &str,
    kind: SourceKind,
    remote_name: &str,
    display_name: &str,
    now_secs: u64,
) -> (r: Result<SourceDef, Error>)
    requires
        !parse_message_splits_char(remote_conf@),
    ensures
        match spec_parse(remote_conf@) {
            Err(p) => r matches Err(Error::ConfigParse(m)) && m@ == parse_error_message(remote_conf@, p),
            Ok(ls) => r matches Ok(d) && d@ == remote_source_def(
                ls,
                kind,
                remote_name@,
                display_name@,
                now_secs as nat,
            ),
        },
{
    let doc = match Document::parse(remote_conf) {
        Ok(d) => d,
        Err(e) => {
            return Err(e);
        },
    };
    let keys = secret_keys_for(kind);
    let entries = doc.section_entries(remote_name);
    let ghost es = entries@.map_values(|p: (&str, &str)| (p.0@, p.1@));
    let ghost ks = keys@.map_values(|k: &str| k@);
    let mut options: StrMap<String> = StrMap::new();
    let mut secrets: StrMap<SecretValue> = StrMap::new();
    let mut i: usize = 0;
    while i < entries.len()
        invariant
            es == entries@.map_values(|p: (&str, &str)| (p.0@, p.1@)),
            ks == keys@.map_values(|k: &str| k@),
            ks == secret_keys(kind),
            i <= es.len(),
            (options@, secrets@) == split_remote_entries(es.take(i as int), ks),
        decreases es.len() - i,
    {
        let (k, v) = entries[i];
        proof {
            assert(es.take(i + 1).drop_last() =~= es.take(i as int));
            assert(es[i as int] == (k@, v@));
        }
        if !str_eq(k, "type") {
            if key_requested(keys.as_slice(), k) {
                secrets.insert(owned(k), SecretValue { value: owned(v), obscure: false });
            } else {
                options.insert(owned(k), owned(v));
            }
        }
        i = i + 1;
    }
    assert(es.take(es.len() as int) =~= es);
    if kind == SourceKind::IcloudDrive {
        options.insert(owned("_trust_token_stamped_at"), u64_to_decimal(now_secs));
    }
    Ok(SourceDef { name: owned(remote_name), display_name: owned(display_name), kind, options, new_secrets: secrets })
}

/// The state to answer `true` to when `step` asks whether to use a local
/// browser for OAuth: this app always uses the local-browser flow, so that
/// question is never put to the user.
pub fn auto_answer(step: &DriverStep) -> (r: Option<String>)
    ensures
        match step {
            DriverStep::NeedInput { state, prompt } => if prompt.name@ == "config_is_local"@ {
                r matches Some(s) && s@ == state@
            } else {
                r is None
            },
            _ => r is None,
        },
{
    match step {
        DriverStep::NeedInput { state, prompt } => {
            if prompt.looks_like_local_browser_choice() {
                Some(state.clone())
            } else {
                None
            }
        },
        _ => None,
    }
}

/// Where the wizard stands after a step.
#[derive(Debug)]
pub enum WizardOutcome {
    /// Signed in: the new source is staged.
    Done(SourceDef),
    /// One more answer is needed. iCloud's 2FA step accepts `sms` for a text
    /// message instead of a push code; `sms_available` lets the UI offer that.
    NeedInput { state: String, prompt: DriverPrompt, sms_available: bool },
    Failed(String),
}

/// The prefix of the message for a finished sign-in whose result couldn't
/// be read.
pub open spec fn unreadable_result_prefix() -> Seq<char> {
    "Sign-in finished but the result couldn\u{2019}t be read. "@
}

/// What a completed, paused or failed driver step means for the wizard.
pub fn finish_step(
    step: DriverStep,
    kind: SourceKind,
    remote_name: &str,
    display_name: &str,
    now_secs: u64,
) -> (r: WizardOutcome)
    requires
        step matches DriverStep::Done { remote_conf } ==> !parse_message_splits_char(remote_conf@),
    ensures
        match step {
            DriverStep::Done { remote_conf } => match spec_parse(remote_conf@) {
                Ok(ls) => r matches WizardOutcome::Done(d) && d@ == remote_source_def(
                    ls,
                    kind,
                    remote_name@,
                    display_name@,
                    now_secs as nat,
                ),
                Err(p) => r matches WizardOutcome::Failed(m) && m@ == unreadable_result_prefix()
                    + "The rclone configuration couldn't be read. "@ + parse_error_message(remote_conf@, p),
            },
            DriverStep::NeedInput { state, prompt } => r matches WizardOutcome::NeedInput {
                state: s,
                prompt: p,
                sms_available,
            } && s == state && p == prompt && sms_available == looks_like_2fa_spec(prompt.name@, prompt.help@),
            DriverStep::Error(e) => r matches WizardOutcome::Failed(m) && m == e,
        },
{
    match step {
        DriverStep::Done { remote_conf } => {
            match source_def_from_remote_conf(remote_conf.as_str(), kind, remote_name, display_name, now_secs) {
                Ok(d) => WizardOutcome::Done(d),
                Err(e) => {
                    let mut m = String::new();
                    push_str(&mut m, "Sign-in finished but the result couldn\u{2019}t be read. ");
                    let t = e.message();
                    push_str(&mut m, t.as_str());
                    WizardOutcome::Failed(m)
                },
            }
        },
        DriverStep::NeedInput { state, prompt } => {
            let sms_available = prompt.looks_like_2fa();
            WizardOutcome::NeedInput { state, prompt, sms_available }
        },
        DriverStep::Error(e) => WizardOutcome::Failed(e),
    }
}

// ---------------------------------------------------------------------------
// Laws of staging: what the preview shows after an edit.
// ---------------------------------------------------------------------------

proof fn lemma_upsert_source_found(ss: Seq<SourceMetaV>, d: SourceDefV)
    ensures
        source_index(upsert_source(ss, d), d.name) matches Some(i) && ({
            let s = upsert_source(ss, d)[i];
            &&& s.name == d.name
            &&& s.display_name == d.display_name
            &&& s.kind == kind_tag(d.kind)
            &&& s.options == d.options
        }),
{
    let out = upsert_source(ss, d);
    match source_index(ss, d.name) {
        Some(i) => {
            assert(first_source_at(ss, d.name, i));
            assert forall|j: int| 0 <= j < i implies #[trigger] out[j].name != d.name by {
                assert(out[j] == ss[j]);
            }
            assert(first_source_at(out, d.name, i));
            let c = choose|c: int| first_source_at(out, d.name, c);
            if c < i {
                assert(out[c].name != d.name);
            }
            if c > i {
                assert(out[i].name != d.name);
            }
        },
        None => {
            let n = ss.len() as int;
            assert forall|j: int| 0 <= j < n implies #[trigger] out[j].name != d.name by {
                assert(out[j] == ss[j]);
                if ss[j].name == d.name {
                    lemma_first_source(ss, d.name, j);
                }
            }
            assert(first_source_at(out, d.name, n));
            let c = choose|c: int| first_source_at(out, d.name, c);
            if c < n {
                assert(out[c].name != d.name);
            }
        },
    }
}

proof fn lemma_first_source(ss: Seq<SourceMetaV>, n: Seq<char>, j: int)
    requires
        0 <= j < ss.len(),
        ss[j].name == n,
    ensures
        source_index(ss, n) is Some,
    decreases j,
{
    if forall|k: int| 0 <= k < j ==> #[trigger] ss[k].name != n {
        assert(first_source_at(ss, n, j));
    } else {
        let k = choose|k: int| 0 <= k < j && #[trigger] ss[k].name == n;
        lemma_first_source(ss, n, k);
    }
}

/// A source edit that was just staged is what the preview shows for that
/// source: its display name, kind and options.
pub proof fn law_staged_source_is_previewed(applied: StateV, pending: ChangesetV, d: SourceDefV)
    ensures
        ({
            let staged = ChangesetV {
                upsert_sources: defs_without(pending.upsert_sources, d.name).push(d),
                delete_sources: names_without(pending.delete_sources, d.name),
                ..pending
            };
            let shown = spec_fold(applied, staged).sources;
            source_index(shown, d.name) matches Some(i) && shown[i].display_name == d.display_name && shown[i].kind
                == kind_tag(d.kind) && shown[i].options == d.options
        }),
{
    let staged = ChangesetV {
        upsert_sources: defs_without(pending.upsert_sources, d.name).push(d),
        delete_sources: names_without(pending.delete_sources, d.name),
        ..pending
    };
    let ups = staged.upsert_sources;
    assert(ups.drop_last() =~= defs_without(pending.upsert_sources, d.name));
    let before = upsert_sources_all(delete_sources_all(applied.sources, staged.delete_sources), ups.drop_last());
    assert(spec_fold(applied, staged).sources == upsert_source(before, d));
    lemma_upsert_source_found(before, d);
}

proof fn lemma_upsert_mount_found(ms: Seq<MountV>, m: MountV)
    ensures
        mount_index(upsert_mount(ms, m), m.name) matches Some(i) && upsert_mount(ms, m)[i] == m,
{
    let out = upsert_mount(ms, m);
    match mount_index(ms, m.name) {
        Some(i) => {
            assert(first_mount_at(ms, m.name, i));
            assert forall|j: int| 0 <= j < i implies #[trigger] out[j].name != m.name by {
                assert(out[j] == ms[j]);
            }
            assert(first_mount_at(out, m.name, i));
            let c = choose|c: int| first_mount_at(out, m.name, c);
            if c < i {
                assert(out[c].name != m.name);
            }
            if c > i {
                assert(out[i].name != m.name);
            }
        },
        None => {
            let n = ms.len() as int;
            assert forall|j: int| 0 <= j < n implies #[trigger] out[j].name != m.name by {
                assert(out[j] == ms[j]);
                if ms[j].name == m.name {
                    lemma_first_mount(ms, m.name, j);
                }
            }
            assert(first_mount_at(out, m.name, n));
            let c = choose|c: int| first_mount_at(out, m.name, c);
            if c < n {
                assert(out[c].name != m.name);
            }
        },
    }
}

proof fn lemma_first_mount(ms: Seq<MountV>, n: Seq<char>, j: int)
    requires
        0 <= j < ms.len(),
        ms[j].name == n,
    ensures
        mount_index(ms, n) is Some,
    decreases j,
{
    if forall|k: int| 0 <= k < j ==> #[trigger] ms[k].name != n {
        assert(first_mount_at(ms, n, j));
    } else {
        let k = choose|k: int| 0 <= k < j && #[trigger] ms[k].name == n;
        lemma_first_mount(ms, n, k);
    }
}

/// A mount edit that was just staged is exactly what the preview shows for
/// that mount.
pub proof fn law_staged_mount_is_previewed(applied: StateV, pending: ChangesetV, m: MountV)
    ensures
        ({
            let staged = ChangesetV {
                upsert_mounts: without_mount(pending.upsert_mounts, m.name).push(m),
                delete_mounts: names_without(pending.delete_mounts, m.name),
                ..pending
            };
            let shown = spec_fold(applied, staged).mounts;
            mount_index(shown, m.name) matches Some(i) && shown[i] == m
        }),
{
    let staged = ChangesetV {
        upsert_mounts: without_mount(pending.upsert_mounts, m.name).push(m),
        delete_mounts: names_without(pending.delete_mounts, m.name),
        ..pending
    };
    let ups = staged.upsert_mounts;
    assert(ups.drop_last() =~= without_mount(pending.upsert_mounts, m.name));
    let before = upsert_mounts_all(delete_mounts_all(applied.mounts, staged.delete_mounts), ups.drop_last());
    assert(spec_fold(applied, staged).mounts == upsert_mount(before, m));
    lemma_upsert_mount_found(before, m);
}

proof fn lemma_without_source_drops(ss: Seq<SourceMetaV>, n: Seq<char>, m: Seq<char>)
    ensures
        has_source_named(without_source(ss, n), m) ==> m != n && has_source_named(ss, m),
        !has_source_named(ss, m) ==> !has_source_named(without_source(ss, n), m),
    decreases ss.len(),
{
    if ss.len() > 0 {
        lemma_without_source_drops(ss.drop_last(), n, m);
        let w = without_source(ss.drop_last(), n);
        if has_source_named(without_source(ss, n), m) {
            let i = choose|i: int| 0 <= i < without_source(ss, n).len() && #[trigger] without_source(ss, n)[i].name == m;
            if ss.last().name != n && i == w.len() {
                assert(ss[ss.len() - 1].name == m);
            } else {
                assert(w[i].name == m);
                let j = choose|j: int| 0 <= j < ss.drop_last().len() && #[trigger] ss.drop_last()[j].name == m;
                assert(ss[j].name == m);
            }
        }
        if !has_source_named(ss, m) {
            assert forall|j: int| 0 <= j < ss.drop_last().len() implies #[trigger] ss.drop_last()[j].name != m by {
                assert(ss[j].name != m);
            }
        }
    }
}

proof fn lemma_deletes_drop(ss: Seq<SourceMetaV>, names: Seq<Seq<char>>, n: Seq<char>)
    ensures
        names.contains(n) ==> !has_source_named(delete_sources_all(ss, names), n),
        !has_source_named(ss, n) ==> !has_source_named(delete_sources_all(ss, names), n),
    decreases names.len(),
{
    if names.len() > 0 {
        lemma_deletes_drop(ss, names.drop_last(), n);
        let prev = delete_sources_all(ss, names.drop_last());
        lemma_without_source_drops(prev, names.last(), n);
        if names.contains(n) && names.last() != n {
            let i = choose|i: int| 0 <= i < names.len() && names[i] == n;
            assert(names.drop_last()[i] == n);
        }
    }
}

proof fn lemma_upserts_keep_out(ss: Seq<SourceMetaV>, ds: Seq<SourceDefV>, n: Seq<char>)
    requires
        !has_source_named(ss, n),
        forall|i: int| 0 <= i < ds.len() ==> #[trigger] ds[i].name != n,
    ensures
        !has_source_named(upsert_sources_all(ss, ds), n),
    decreases ds.len(),
{
    if ds.len() > 0 {
        assert forall|i: int| 0 <= i < ds.drop_last().len() implies #[trigger] ds.drop_last()[i].name != n by {
            assert(ds[i].name != n);
        }
        lemma_upserts_keep_out(ss, ds.drop_last(), n);
        let prev = upsert_sources_all(ss, ds.drop_last());
        let d = ds.last();
        assert(d.name != n);
        let out = upsert_source(prev, d);
        assert forall|j: int| 0 <= j < out.len() implies #[trigger] out[j].name != n by {
            if j < prev.len() {
                match source_index(prev, d.name) {
                    Some(i) => {
                        if j != i {
                            assert(out[j] == prev[j]);
                        }
                    },
                    None => {
                        assert(out[j] == prev[j]);
                    },
                }
            }
        }
    }
}

proof fn lemma_defs_without_drops(ds: Seq<SourceDefV>, n: Seq<char>)
    ensures
        forall|i: int| 0 <= i < defs_without(ds, n).len() ==> #[trigger] defs_without(ds, n)[i].name != n,
    decreases ds.len(),
{
    if ds.len() > 0 {
        lemma_defs_without_drops(ds.drop_last(), n);
    }
}

/// Removing a source in the UI hides it from the preview: it is no longer
/// among the sources shown, whether it was applied or only pending.
pub proof fn law_unstaged_source_is_hidden(applied: StateV, pending: ChangesetV, name: Seq<char>)
    ensures
        ({
            let staged = ChangesetV {
                upsert_sources: defs_without(pending.upsert_sources, name),
                delete_sources: queue_delete(pending.delete_sources, name, has_source_named(applied.sources, name)),
                ..pending
            };
            !has_source_named(spec_fold(applied, staged).sources, name)
        }),
{
    let dels = queue_delete(pending.delete_sources, name, has_source_named(applied.sources, name));
    lemma_deletes_drop(applied.sources, dels, name);
    if has_source_named(applied.sources, name) {
        if !pending.delete_sources.contains(name) {
            assert(dels[dels.len() - 1] == name);
        }
    }
    lemma_defs_without_drops(pending.upsert_sources, name);
    lemma_upserts_keep_out(delete_sources_all(applied.sources, dels), defs_without(pending.upsert_sources, name), name);
}

} // verus!
