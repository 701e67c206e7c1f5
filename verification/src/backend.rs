//! The pure side of loading and applying source/mount state: folding a
//! changeset onto a snapshot, cross-checking references, the unit-name and
//! credential conventions, and building/reading the credential blobs and the
//! `sources.conf` edits that an apply performs.
use crate::error::Error;
use crate::mount::{copy_mount, Mount, MountV};
use crate::source::{kind_of_tag, kind_tag, SecretValue, SourceDef, SourceDefV, SourceKind};
use crate::str_map::{keys_sorted, law_lookup_after_insert, lemma_lookup_absent, lemma_lookup_at, lookup, spec_insert, StrMap};
use crate::credentials::Scope;
use crate::rclone_config::{
    control_message, has_control, is_control, parse_error_message, parse_message_splits_char, spec_parse, spec_get,
    spec_remove_section, spec_section_entries, spec_set, Document, LineV,
};
use crate::unit_writer::{valid_name, validate_name};
use crate::text::{chars_of, owned, push_str, str_eq, string_from, trim, trim_bounds};
use vstd::prelude::*;

verus! {

/// The systemd unit name backing a mount: `rclone-mount-<name>.service`.
pub open spec fn unit_name_of(name: Seq<char>) -> Seq<char> {
    "rclone-mount-"@ + name + ".service"@
}

/// The systemd unit name backing a mount. Single source of truth for the
/// `rclone-mount-<name>.service` convention shared by the writer and control.
pub fn mount_unit_name(name: &str) -> (r: String)
    ensures
        r@ == unit_name_of(name@),
{
    let mut out = String::new();
    push_str(&mut out, "rclone-mount-");
    push_str(&mut out, name);
    push_str(&mut out, ".service");
    out
}

/// What is stored about a source.
#[derive(Debug)]
pub struct SourceMetadata {
    /// Internal id: rclone remote / file key. Slug, validated, immutable.
    pub name: String,
    /// Freeform name shown in the UI.
    pub display_name: String,
    pub kind: String,
    pub options: StrMap<String>,
    pub has_secret: bool,
}

pub struct SourceMetaV {
    pub name: Seq<char>,
    pub display_name: Seq<char>,
    pub kind: Seq<char>,
    pub options: Seq<(Seq<char>, Seq<char>)>,
    pub has_secret: bool,
}

impl View for SourceMetadata {
    type V = SourceMetaV;

    open spec fn view(&self) -> SourceMetaV {
        SourceMetaV {
            name: self.name@,
            display_name: self.display_name@,
            kind: self.kind@,
            options: self.options@,
            has_secret: self.has_secret,
        }
    }
}

/// Snapshot of what's currently on disk for one scope.
#[derive(Debug, Default)]
pub struct State {
    pub sources: Vec<SourceMetadata>,
    pub mounts: Vec<Mount>,
}

pub struct StateV {
    pub sources: Seq<SourceMetaV>,
    pub mounts: Seq<MountV>,
}

impl View for State {
    type V = StateV;

    open spec fn view(&self) -> StateV {
        StateV {
            sources: self.sources@.map_values(|s: SourceMetadata| s@),
            mounts: self.mounts@.map_values(|m: Mount| m@),
        }
    }
}

/// A batch of edits to apply atomically.
#[derive(Debug, Default)]
pub struct Changeset {
    pub upsert_sources: Vec<SourceDef>,
    pub delete_sources: Vec<String>,
    pub upsert_mounts: Vec<Mount>,
    pub delete_mounts: Vec<String>,
}

pub struct ChangesetV {
    pub upsert_sources: Seq<SourceDefV>,
    pub delete_sources: Seq<Seq<char>>,
    pub upsert_mounts: Seq<MountV>,
    pub delete_mounts: Seq<Seq<char>>,
}

impl View for Changeset {
    type V = ChangesetV;

    open spec fn view(&self) -> ChangesetV {
        ChangesetV {
            upsert_sources: self.upsert_sources@.map_values(|d: SourceDef| d@),
            delete_sources: self.delete_sources@.map_values(|n: String| n@),
            upsert_mounts: self.upsert_mounts@.map_values(|m: Mount| m@),
            delete_mounts: self.delete_mounts@.map_values(|n: String| n@),
        }
    }
}

// ---------------------------------------------------------------------------
// Folding a changeset onto a state.
// ---------------------------------------------------------------------------

/// `ss` without the sources named `n`.
pub open spec fn without_source(ss: Seq<SourceMetaV>, n: Seq<char>) -> Seq<SourceMetaV>
    decreases ss.len(),
{
    if ss.len() == 0 {
        ss
    } else if ss.last().name == n {
        without_source(ss.drop_last(), n)
    } else {
        without_source(ss.drop_last(), n).push(ss.last())
    }
}

/// `ms` without the mounts named `n`.
pub open spec fn without_mount(ms: Seq<MountV>, n: Seq<char>) -> Seq<MountV>
    decreases ms.len(),
{
    if ms.len() == 0 {
        ms
    } else if ms.last().name == n {
        without_mount(ms.drop_last(), n)
    } else {
        without_mount(ms.drop_last(), n).push(ms.last())
    }
}

pub open spec fn delete_sources_all(ss: Seq<SourceMetaV>, names: Seq<Seq<char>>) -> Seq<SourceMetaV>
    decreases names.len(),
{
    if names.len() == 0 {
        ss
    } else {
        without_source(delete_sources_all(ss, names.drop_last()), names.last())
    }
}

pub open spec fn delete_mounts_all(ms: Seq<MountV>, names: Seq<Seq<char>>) -> Seq<MountV>
    decreases names.len(),
{
    if names.len() == 0 {
        ms
    } else {
        without_mount(delete_mounts_all(ms, names.drop_last()), names.last())
    }
}

/// The metadata a source definition describes.
pub open spec fn meta_of(d: SourceDefV) -> SourceMetaV {
    SourceMetaV {
        name: d.name,
        display_name: d.display_name,
        kind: kind_tag(d.kind),
        options: d.options,
        has_secret: d.new_secrets.len() > 0,
    }
}

pub open spec fn first_source_at(ss: Seq<SourceMetaV>, n: Seq<char>, i: int) -> bool {
    &&& 0 <= i < ss.len()
    &&& ss[i].name == n
    &&& forall|j: int| 0 <= j < i ==> #[trigger] ss[j].name != n
}

pub open spec fn source_index(ss: Seq<SourceMetaV>, n: Seq<char>) -> Option<int> {
    if exists|i: int| first_source_at(ss, n, i) {
        Some(choose|i: int| first_source_at(ss, n, i))
    } else {
        None
    }
}

pub open spec fn first_mount_at(ms: Seq<MountV>, n: Seq<char>, i: int) -> bool {
    &&& 0 <= i < ms.len()
    &&& ms[i].name == n
    &&& forall|j: int| 0 <= j < i ==> #[trigger] ms[j].name != n
}

pub open spec fn mount_index(ms: Seq<MountV>, n: Seq<char>) -> Option<int> {
    if exists|i: int| first_mount_at(ms, n, i) {
        Some(choose|i: int| first_mount_at(ms, n, i))
    } else {
        None
    }
}

/// Replace the first source named like `d` (keeping its secret flag when `d`
/// sets no secret), or append it.
pub open spec fn upsert_source(ss: Seq<SourceMetaV>, d: SourceDefV) -> Seq<SourceMetaV> {
    match source_index(ss, d.name) {
        Some(i) => ss.update(
            i,
            SourceMetaV {
                has_secret: if d.new_secrets.len() == 0 {
                    ss[i].has_secret
                } else {
                    true
                },
                ..meta_of(d)
            },
        ),
        None => ss.push(meta_of(d)),
    }
}

/// Replace the first mount named like `m`, or append it.
pub open spec fn upsert_mount(ms: Seq<MountV>, m: MountV) -> Seq<MountV> {
    match mount_index(ms, m.name) {
        Some(i) => ms.update(i, m),
        None => ms.push(m),
    }
}

pub open spec fn upsert_sources_all(ss: Seq<SourceMetaV>, ds: Seq<SourceDefV>) -> Seq<SourceMetaV>
    decreases ds.len(),
{
    if ds.len() == 0 {
        ss
    } else {
        upsert_source(upsert_sources_all(ss, ds.drop_last()), ds.last())
    }
}

pub open spec fn upsert_mounts_all(ms: Seq<MountV>, us: Seq<MountV>) -> Seq<MountV>
    decreases us.len(),
{
    if us.len() == 0 {
        ms
    } else {
        upsert_mount(upsert_mounts_all(ms, us.drop_last()), us.last())
    }
}

/// The state a changeset leads to: source deletions, then source upserts,
/// then mount deletions, then mount upserts, each in list order.
pub open spec fn spec_fold(st: StateV, cs: ChangesetV) -> StateV {
    StateV {
        sources: upsert_sources_all(delete_sources_all(st.sources, cs.delete_sources), cs.upsert_sources),
        mounts: upsert_mounts_all(delete_mounts_all(st.mounts, cs.delete_mounts), cs.upsert_mounts),
    }
}

proof fn lemma_source_index_is(ss: Seq<SourceMetaV>, n: Seq<char>, i: int)
    requires
        first_source_at(ss, n, i),
    ensures
        source_index(ss, n) == Some(i),
{
    let c = choose|c: int| first_source_at(ss, n, c);
    if c < i {
        assert(ss[c].name != n);
    }
    if c > i {
        assert(ss[i].name != n);
    }
}

proof fn lemma_source_index_none(ss: Seq<SourceMetaV>, n: Seq<char>, j: int)
    requires
        source_index(ss, n) is None,
        0 <= j < ss.len(),
    ensures
        ss[j].name != n,
    decreases j,
{
    if ss[j].name == n {
        if forall|k: int| 0 <= k < j ==> #[trigger] ss[k].name != n {
            assert(first_source_at(ss, n, j));
        } else {
            let k = choose|k: int| 0 <= k < j && #[trigger] ss[k].name == n;
            lemma_source_index_none(ss, n, k);
        }
    }
}

/// Upserting a source shows it with what the edit says: its display name,
/// kind and options, and a secret flag that is set whenever the edit sets
/// a secret. An edit that sets no secret keeps the flag the source had
/// before it (none for a new source).
pub proof fn law_upsert_secret_flag(st: StateV, cs: ChangesetV, d: SourceDefV)
    ensures
        ({
            let before = spec_fold(st, cs).sources;
            let after = spec_fold(st, ChangesetV { upsert_sources: cs.upsert_sources.push(d), ..cs }).sources;
            source_index(after, d.name) matches Some(i) && after[i].name == d.name && after[i].display_name
                == d.display_name && after[i].kind == kind_tag(d.kind) && after[i].options == d.options
                && after[i].has_secret == (if d.new_secrets.len() > 0 {
                true
            } else {
                match source_index(before, d.name) {
                    Some(j) => before[j].has_secret,
                    None => false,
                }
            })
        }),
{
    let base = delete_sources_all(st.sources, cs.delete_sources);
    let ups = cs.upsert_sources;
    assert(ups.push(d).drop_last() =~= ups);
    let before = upsert_sources_all(base, ups);
    assert(spec_fold(st, cs).sources == before);
    let after = spec_fold(st, ChangesetV { upsert_sources: ups.push(d), ..cs }).sources;
    assert(after == upsert_source(before, d));
    match source_index(before, d.name) {
        Some(i) => {
            let c = choose|c: int| first_source_at(before, d.name, c);
            assert(first_source_at(before, d.name, i));
            assert forall|k: int| 0 <= k < i implies #[trigger] after[k].name != d.name by {
                assert(after[k] == before[k]);
            }
            assert(first_source_at(after, d.name, i));
            lemma_source_index_is(after, d.name, i);
        },
        None => {
            assert forall|k: int| 0 <= k < before.len() implies #[trigger] after[k].name != d.name by {
                assert(after[k] == before[k]);
                lemma_source_index_none(before, d.name, k);
            }
            assert(first_source_at(after, d.name, before.len() as int));
            lemma_source_index_is(after, d.name, before.len() as int);
        },
    }
}

/// An independent copy of a source's metadata.
pub fn copy_meta(s: &SourceMetadata) -> (r: SourceMetadata)
    ensures
        r@ == s@,
{
    SourceMetadata {
        name: s.name.clone(),
        display_name: s.display_name.clone(),
        kind: s.kind.clone(),
        options: s.options.duplicate(),
        has_secret: s.has_secret,
    }
}

/// Copies of the sources not named `n`.
fn sources_without(ss: &Vec<SourceMetadata>, n: &str) -> (r: Vec<SourceMetadata>)
    ensures
        r@.map_values(|s: SourceMetadata| s@) == without_source(ss@.map_values(|s: SourceMetadata| s@), n@),
{
    let ghost v = ss@.map_values(|s: SourceMetadata| s@);
    let mut out: Vec<SourceMetadata> = Vec::new();
    let mut i: usize = 0;
    proof {
        assert(v.take(0) =~= Seq::<SourceMetaV>::empty());
        assert(out@.map_values(|s: SourceMetadata| s@) =~= Seq::<SourceMetaV>::empty());
    }
    while i < ss.len()
        invariant
            v == ss@.map_values(|s: SourceMetadata| s@),
            i <= v.len(),
            out@.map_values(|s: SourceMetadata| s@) == without_source(v.take(i as int), n@),
        decreases v.len() - i,
    {
        let ghost before = out@.map_values(|s: SourceMetadata| s@);
        proof {
            assert(v.take(i + 1).drop_last() =~= v.take(i as int));
            assert(v.take(i + 1).last() == ss@[i as int]@);
        }
        if !str_eq(ss[i].name.as_str(), n) {
            let c = copy_meta(&ss[i]);
            out.push(c);
            assert(out@.map_values(|s: SourceMetadata| s@) =~= before.push(ss@[i as int]@));
        }
        i = i + 1;
    }
    proof {
        assert(v.take(v.len() as int) =~= v);
    }
    out
}

/// Copies of the mounts not named `n`.
pub(crate) fn mounts_without(ms: &Vec<Mount>, n: &str) -> (r: Vec<Mount>)
    ensures
        r@.map_values(|m: Mount| m@) == without_mount(ms@.map_values(|m: Mount| m@), n@),
{
    let ghost v = ms@.map_values(|m: Mount| m@);
    let mut out: Vec<Mount> = Vec::new();
    let mut i: usize = 0;
    proof {
        assert(v.take(0) =~= Seq::<MountV>::empty());
        assert(out@.map_values(|m: Mount| m@) =~= Seq::<MountV>::empty());
    }
    while i < ms.len()
        invariant
            v == ms@.map_values(|m: Mount| m@),
            i <= v.len(),
            out@.map_values(|m: Mount| m@) == without_mount(v.take(i as int), n@),
        decreases v.len() - i,
    {
        let ghost before = out@.map_values(|m: Mount| m@);
        proof {
            assert(v.take(i + 1).drop_last() =~= v.take(i as int));
            assert(v.take(i + 1).last() == ms@[i as int]@);
        }
        if !str_eq(ms[i].name.as_str(), n) {
            let c = copy_mount(&ms[i]);
            out.push(c);
            assert(out@.map_values(|m: Mount| m@) =~= before.push(ms@[i as int]@));
        }
        i = i + 1;
    }
    proof {
        assert(v.take(v.len() as int) =~= v);
    }
    out
}

/// Index of the first source named `n`.
fn find_source(ss: &Vec<SourceMetadata>, n: &str) -> (r: Option<usize>)
    ensures
        match r {
            Some(i) => source_index(ss@.map_values(|s: SourceMetadata| s@), n@) == Some(i as int) && i
                < ss@.len(),
            None => source_index(ss@.map_values(|s: SourceMetadata| s@), n@) is None,
        },
{
    let ghost v = ss@.map_values(|s: SourceMetadata| s@);
    let mut i: usize = 0;
    while i < ss.len()
        invariant
            v == ss@.map_values(|s: SourceMetadata| s@),
            i <= v.len(),
            forall|j: int| 0 <= j < i ==> #[trigger] v[j].name != n@,
        decreases v.len() - i,
    {
        assert(v[i as int] == ss@[i as int]@);
        if str_eq(ss[i].name.as_str(), n) {
            proof {
                assert(first_source_at(v, n@, i as int));
                let c = choose|c: int| first_source_at(v, n@, c);
                if c < i {
                    assert(v[c].name != n@);
                }
                if c > i {
                    assert(v[i as int].name != n@);
                }
            }
            return Some(i);
        }
        i = i + 1;
    }
    proof {
        if exists|c: int| first_source_at(v, n@, c) {
            let c = choose|c: int| first_source_at(v, n@, c);
            assert(v[c].name != n@);
        }
    }
    None
}

/// Index of the first mount named `n`.
fn find_mount(ms: &Vec<Mount>, n: &str) -> (r: Option<usize>)
    ensures
        match r {
            Some(i) => mount_index(ms@.map_values(|m: Mount| m@), n@) == Some(i as int) && i < ms@.len(),
            None => mount_index(ms@.map_values(|m: Mount| m@), n@) is None,
        },
{
    let ghost v = ms@.map_values(|m: Mount| m@);
    let mut i: usize = 0;
    while i < ms.len()
        invariant
            v == ms@.map_values(|m: Mount| m@),
            i <= v.len(),
            forall|j: int| 0 <= j < i ==> #[trigger] v[j].name != n@,
        decreases v.len() - i,
    {
        assert(v[i as int] == ms@[i as int]@);
        if str_eq(ms[i].name.as_str(), n) {
            proof {
                assert(first_mount_at(v, n@, i as int));
                let c = choose|c: int| first_mount_at(v, n@, c);
                if c < i {
                    assert(v[c].name != n@);
                }
                if c > i {
                    assert(v[i as int].name != n@);
                }
            }
            return Some(i);
        }
        i = i + 1;
    }
    proof {
        if exists|c: int| first_mount_at(v, n@, c) {
            let c = choose|c: int| first_mount_at(v, n@, c);
            assert(v[c].name != n@);
        }
    }
    None
}

/// The metadata entry a source definition stands for.
fn meta_from_def(d: &SourceDef) -> (r: SourceMetadata)
    ensures
        r@ == meta_of(d@),
{
    let mut kind = String::new();
    push_str(&mut kind, source_kind_str(d.kind));
    SourceMetadata {
        name: d.name.clone(),
        display_name: d.display_name.clone(),
        kind,
        options: d.options.duplicate(),
        has_secret: !d.new_secrets.is_empty(),
    }
}

/// Apply a changeset to a state in memory. Pure structural fold: it does
/// *not* check that every mount still references a live source; that's
/// [`validate_references`], called only on the apply path.
pub fn fold(state: State, cs: &Changeset) -> (r: State)
    ensures
        r@ == spec_fold(state@, cs@),
{
    let mut sources = state.sources;
    let mut i: usize = 0;
    let ghost v0 = state@.sources;
    let ghost dels = cs@.delete_sources;
    proof {
        assert(dels.take(0) =~= Seq::<Seq<char>>::empty());
    }
    while i < cs.delete_sources.len()
        invariant
            dels == cs@.delete_sources,
            i <= dels.len(),
            sources@.map_values(|s: SourceMetadata| s@) == delete_sources_all(v0, dels.take(i as int)),
        decreases dels.len() - i,
    {
        sources = sources_without(&sources, cs.delete_sources[i].as_str());
        proof {
            assert(dels.take(i + 1).drop_last() =~= dels.take(i as int));
            assert(dels[i as int] == cs.delete_sources@[i as int]@);
        }
        i = i + 1;
    }
    proof {
        assert(dels.take(dels.len() as int) =~= dels);
    }
    let ghost v1 = sources@.map_values(|s: SourceMetadata| s@);
    let ghost ups = cs@.upsert_sources;
    let mut j: usize = 0;
    proof {
        assert(ups.take(0) =~= Seq::<SourceDefV>::empty());
    }
    while j < cs.upsert_sources.len()
        invariant
            ups == cs@.upsert_sources,
            j <= ups.len(),
            sources@.map_values(|s: SourceMetadata| s@) == upsert_sources_all(v1, ups.take(j as int)),
        decreases ups.len() - j,
    {
        let d = &cs.upsert_sources[j];
        let ghost before = sources@.map_values(|s: SourceMetadata| s@);
        proof {
            assert(ups.take(j + 1).drop_last() =~= ups.take(j as int));
            assert(ups[j as int] == d@);
        }
        let mut entry = meta_from_def(d);
        match find_source(&sources, d.name.as_str()) {
            Some(k) => {
                let preserved = sources[k].has_secret;
                if d.new_secrets.is_empty() {
                    entry.has_secret = preserved;
                }
                assert(before[k as int] == sources@[k as int]@);
                sources.set(k, entry);
                assert(sources@.map_values(|s: SourceMetadata| s@) =~= upsert_source(before, d@));
            },
            None => {
                sources.push(entry);
                assert(sources@.map_values(|s: SourceMetadata| s@) =~= upsert_source(before, d@));
            },
        }
        j = j + 1;
    }
    proof {
        assert(ups.take(ups.len() as int) =~= ups);
    }
    let mut mounts = state.mounts;
    let ghost m0 = state@.mounts;
    let ghost mdels = cs@.delete_mounts;
    let mut a: usize = 0;
    proof {
        assert(mdels.take(0) =~= Seq::<Seq<char>>::empty());
    }
    while a < cs.delete_mounts.len()
        invariant
            mdels == cs@.delete_mounts,
            a <= mdels.len(),
            mounts@.map_values(|m: Mount| m@) == delete_mounts_all(m0, mdels.take(a as int)),
        decreases mdels.len() - a,
    {
        mounts = mounts_without(&mounts, cs.delete_mounts[a].as_str());
        proof {
            assert(mdels.take(a + 1).drop_last() =~= mdels.take(a as int));
            assert(mdels[a as int] == cs.delete_mounts@[a as int]@);
        }
        a = a + 1;
    }
    proof {
        assert(mdels.take(mdels.len() as int) =~= mdels);
    }
    let ghost m1 = mounts@.map_values(|m: Mount| m@);
    let ghost mups = cs@.upsert_mounts;
    let mut b: usize = 0;
    proof {
        assert(mups.take(0) =~= Seq::<MountV>::empty());
    }
    while b < cs.upsert_mounts.len()
        invariant
            mups == cs@.upsert_mounts,
            b <= mups.len(),
            mounts@.map_values(|m: Mount| m@) == upsert_mounts_all(m1, mups.take(b as int)),
        decreases mups.len() - b,
    {
        let m = &cs.upsert_mounts[b];
        let ghost before = mounts@.map_values(|m: Mount| m@);
        proof {
            assert(mups.take(b + 1).drop_last() =~= mups.take(b as int));
            assert(mups[b as int] == m@);
        }
        let c = copy_mount(m);
        match find_mount(&mounts, m.name.as_str()) {
            Some(k) => {
                mounts.set(k, c);
                assert(mounts@.map_values(|m: Mount| m@) =~= upsert_mount(before, m@));
            },
            None => {
                mounts.push(c);
                assert(mounts@.map_values(|m: Mount| m@) =~= upsert_mount(before, m@));
            },
        }
        b = b + 1;
    }
    proof {
        assert(mups.take(mups.len() as int) =~= mups);
    }
    State { sources, mounts }
}

impl State {
    /// An independent copy of the state.
    pub fn copy(&self) -> (r: State)
        ensures
            r@ == self@,
    {
        let mut sources: Vec<SourceMetadata> = Vec::new();
        let mut i: usize = 0;
        while i < self.sources.len()
            invariant
                i <= self.sources@.len(),
                sources@.map_values(|s: SourceMetadata| s@) == self@.sources.take(i as int),
            decreases self.sources@.len() - i,
        {
            let ghost before = sources@.map_values(|s: SourceMetadata| s@);
            sources.push(copy_meta(&self.sources[i]));
            assert(sources@.map_values(|s: SourceMetadata| s@) =~= before.push(self.sources@[i as int]@));
            assert(self@.sources.take(i + 1) =~= self@.sources.take(i as int).push(self.sources@[i as int]@));
            i = i + 1;
        }
        let mut mounts: Vec<Mount> = Vec::new();
        let mut j: usize = 0;
        while j < self.mounts.len()
            invariant
                j <= self.mounts@.len(),
                mounts@.map_values(|m: Mount| m@) == self@.mounts.take(j as int),
            decreases self.mounts@.len() - j,
        {
            let ghost before = mounts@.map_values(|m: Mount| m@);
            mounts.push(copy_mount(&self.mounts[j]));
            assert(mounts@.map_values(|m: Mount| m@) =~= before.push(self.mounts@[j as int]@));
            assert(self@.mounts.take(j + 1) =~= self@.mounts.take(j as int).push(self.mounts@[j as int]@));
            j = j + 1;
        }
        proof {
            assert(self@.sources.take(self@.sources.len() as int) =~= self@.sources);
            assert(self@.mounts.take(self@.mounts.len() as int) =~= self@.mounts);
        }
        State { sources, mounts }
    }

    /// Fold a changeset onto this state without persisting or validating,
    /// returning what the on-disk state *would* look like. Reference
    /// validation is skipped so a mid-edit dangling reference stays visible.
    pub fn preview(&self, cs: &Changeset) -> (r: State)
        ensures
            r@ == spec_fold(self@, cs@),
    {
        fold(self.copy(), cs)
    }
}

/// The rclone `type` tag of a kind.
pub fn source_kind_str(kind: SourceKind) -> (r: &'static str)
    ensures
        r@ == kind_tag(kind),
{
    kind.as_tag()
}

// ---------------------------------------------------------------------------
// Reference validation.
// ---------------------------------------------------------------------------

pub open spec fn has_source_named(ss: Seq<SourceMetaV>, n: Seq<char>) -> bool {
    exists|i: int| 0 <= i < ss.len() && #[trigger] ss[i].name == n
}

pub open spec fn dangling_at(st: StateV, i: int) -> bool {
    &&& 0 <= i < st.mounts.len()
    &&& !has_source_named(st.sources, st.mounts[i].source)
    &&& forall|j: int| 0 <= j < i ==> has_source_named(st.sources, #[trigger] st.mounts[j].source)
}

pub open spec fn dangling_message(m: MountV) -> Seq<char> {
    "The mount \u{201c}"@ + m.name + "\u{201d} uses the source \u{201c}"@ + m.source
        + "\u{201d}, which no longer exists. Pick a different source or remove the mount."@
}

/// Every mount must reference a source that exists; otherwise the first
/// mount (in order) that doesn't is reported.
pub open spec fn spec_validate_references(st: StateV) -> Result<(), Seq<char>> {
    if exists|i: int| dangling_at(st, i) {
        Err(dangling_message(st.mounts[choose|i: int| dangling_at(st, i)]))
    } else {
        Ok(())
    }
}

fn source_named(ss: &Vec<SourceMetadata>, n: &str) -> (r: bool)
    ensures
        r == has_source_named(ss@.map_values(|s: SourceMetadata| s@), n@),
{
    let ghost v = ss@.map_values(|s: SourceMetadata| s@);
    match find_source(ss, n) {
        Some(i) => {
            assert(v[i as int].name == n@);
            true
        },
        None => {
            proof {
                if has_source_named(v, n@) {
                    let j = choose|j: int| 0 <= j < v.len() && #[trigger] v[j].name == n@;
                    if forall|k: int| 0 <= k < j ==> #[trigger] v[k].name != n@ {
                        assert(first_source_at(v, n@, j));
                    } else {
                        let k = choose|k: int| 0 <= k < j && #[trigger] v[k].name == n@;
                        lemma_first_source_exists(v, n@, k);
                    }
                }
            }
            false
        },
    }
}

proof fn lemma_first_source_exists(v: Seq<SourceMetaV>, n: Seq<char>, j: int)
    requires
        0 <= j < v.len(),
        v[j].name == n,
    ensures
        exists|i: int| first_source_at(v, n, i),
    decreases j,
{
    if forall|k: int| 0 <= k < j ==> #[trigger] v[k].name != n {
        assert(first_source_at(v, n, j));
    } else {
        let k = choose|k: int| 0 <= k < j && #[trigger] v[k].name == n;
        lemma_first_source_exists(v, n, k);
    }
}

/// Every mount must reference a source that exists in `state`. Enforced on
/// the apply path so no unit is written pointing at a missing remote.
pub fn validate_references(state: &State) -> (r: Result<(), Error>)
    ensures
        match r {
            Ok(()) => spec_validate_references(state@) is Ok,
            Err(e) => e matches Error::NotFound(m) && spec_validate_references(state@) == Err::<(), Seq<char>>(m@),
        },
{
    let ghost st = state@;
    let mut i: usize = 0;
    while i < state.mounts.len()
        invariant
            st == state@,
            i <= st.mounts.len(),
            forall|j: int| 0 <= j < i ==> has_source_named(st.sources, #[trigger] st.mounts[j].source),
        decreases st.mounts.len() - i,
    {
        let m = &state.mounts[i];
        assert(st.mounts[i as int] == m@);
        if !source_named(&state.sources, m.source.as_str()) {
            proof {
                assert(dangling_at(st, i as int));
                let c = choose|c: int| dangling_at(st, c);
                if c < i {
                    assert(has_source_named(st.sources, st.mounts[c].source));
                }
                if c > i {
                    assert(has_source_named(st.sources, st.mounts[i as int].source));
                }
            }
            let mut msg = String::new();
            push_str(&mut msg, "The mount \u{201c}");
            push_str(&mut msg, m.name.as_str());
            push_str(&mut msg, "\u{201d} uses the source \u{201c}");
            push_str(&mut msg, m.source.as_str());
            push_str(
                &mut msg,
                "\u{201d}, which no longer exists. Pick a different source or remove the mount.",
            );
            return Err(Error::NotFound(msg));
        }
        i = i + 1;
    }
    proof {
        if exists|c: int| dangling_at(st, c) {
            let c = choose|c: int| dangling_at(st, c);
            assert(has_source_named(st.sources, st.mounts[c].source));
        }
    }
    Ok(())
}


// ---------------------------------------------------------------------------
// Credential blobs.
// ---------------------------------------------------------------------------

/// The rclone config keys that hold sensitive material for each kind.
pub open spec fn secret_keys(kind: SourceKind) -> Seq<Seq<char>> {
    match kind {
        SourceKind::Smb | SourceKind::WebDav | SourceKind::Sftp | SourceKind::Ftp => seq!["pass"@],
        SourceKind::Drive => seq!["token"@, "client_secret"@],
        SourceKind::IcloudDrive => seq!["password"@, "trust_token"@],
    }
}

/// The rclone config keys that hold sensitive material for each kind, kept
/// out of `sources.conf` (plaintext) and stored only in the encrypted
/// credential blob. An explicit, auditable table rather than "whatever's
/// left over": misclassifying a field here is a security bug.
pub fn secret_keys_for(kind: SourceKind) -> (r: Vec<&'static str>)
    ensures
        r@.map_values(|k: &str| k@) == secret_keys(kind),
{
    let mut v: Vec<&'static str> = Vec::new();
    match kind {
        SourceKind::Smb | SourceKind::WebDav | SourceKind::Sftp | SourceKind::Ftp => {
            v.push("pass");
        },
        SourceKind::Drive => {
            v.push("token");
            v.push("client_secret");
        },
        SourceKind::IcloudDrive => {
            v.push("password");
            v.push("trust_token");
        },
    }
    assert(v@.map_values(|k: &str| k@) =~= secret_keys(kind));
    v
}

/// The credential id woven into every encrypted blob: every unit loads its
/// blob as `LoadCredentialEncrypted=rclone-conf:...`.
pub fn cred_id() -> (r: String)
    ensures
        r@ == "rclone-conf"@,
{
    let mut s = String::new();
    push_str(&mut s, "rclone-conf");
    s
}

/// The reserved pseudo-source name under which a kind's admin override is
/// stored. It starts with `_`, which no valid source or mount name does.
pub open spec fn override_name(kind: SourceKind) -> Seq<char> {
    "__provider_override_"@ + kind_tag(kind)
}

/// Reserved pseudo-source name for a kind's admin-override credential.
pub fn provider_override_name(kind: SourceKind) -> (r: String)
    ensures
        r@ == override_name(kind),
{
    let mut s = String::new();
    push_str(&mut s, "__provider_override_");
    push_str(&mut s, kind.as_tag());
    s
}

/// One `key = value` line.
pub open spec fn kv_text(k: Seq<char>, v: Seq<char>) -> Seq<char> {
    k + " = "@ + v + "\n"@
}

/// One line per entry, in order.
pub open spec fn options_text(es: Seq<(Seq<char>, Seq<char>)>) -> Seq<char>
    decreases es.len(),
{
    if es.len() == 0 {
        Seq::empty()
    } else {
        options_text(es.drop_last()) + kv_text(es.last().0, es.last().1)
    }
}

/// One line per key of `keys` that `secrets` holds, in the order of `keys`.
pub open spec fn secrets_text(keys: Seq<Seq<char>>, secrets: Seq<(Seq<char>, Seq<char>)>) -> Seq<char>
    decreases keys.len(),
{
    if keys.len() == 0 {
        Seq::empty()
    } else {
        secrets_text(keys.drop_last(), secrets) + match lookup(secrets, keys.last()) {
            Some(v) => kv_text(keys.last(), v),
            None => Seq::empty(),
        }
    }
}

/// The complete rclone remote section of a source: header, `type`, every
/// option, then every secret this kind carries that `secrets` holds.
pub open spec fn credential_blob(d: SourceDefV, secrets: Seq<(Seq<char>, Seq<char>)>) -> Seq<char> {
    "["@ + d.name + "]\ntype = "@ + kind_tag(d.kind) + "\n"@ + options_text(d.options)
        + secrets_text(secret_keys(d.kind), secrets)
}

/// Appends `key = value\n`.
fn push_kv(out: &mut String, key: &str, value: &str)
    ensures
        final(out)@ == old(out)@ + kv_text(key@, value@),
{
    push_str(out, key);
    push_str(out, " = ");
    push_str(out, value);
    push_str(out, "\n");
    assert(final(out)@ =~= old(out)@ + kv_text(key@, value@));
}

/// The complete rclone remote section that becomes the credential payload:
/// `type`, every connection option, and every secret value for this kind.
/// `secrets` values are already in their final on-disk form.
pub fn encode_credential_blob(src: &SourceDef, secrets: &StrMap<String>) -> (r: String)
    ensures
        r@ == credential_blob(src@, secrets@),
{
    let mut out = String::new();
    push_str(&mut out, "[");
    push_str(&mut out, src.name.as_str());
    push_str(&mut out, "]\ntype = ");
    push_str(&mut out, source_kind_str(src.kind));
    push_str(&mut out, "\n");
    let ghost head = out@;
    let ghost opts = src.options@;
    let mut i: usize = 0;
    while i < src.options.len()
        invariant
            opts == src.options@,
            i <= opts.len(),
            out@ == head + options_text(opts.take(i as int)),
        decreases opts.len() - i,
    {
        push_kv(&mut out, src.options.key_at(i), src.options.value_at(i));
        proof {
            assert(opts.take(i + 1).drop_last() =~= opts.take(i as int));
        }
        i = i + 1;
    }
    proof {
        assert(opts.take(opts.len() as int) =~= opts);
    }
    let ghost mid = out@;
    let keys = secret_keys_for(src.kind);
    let ghost ks = keys@.map_values(|k: &str| k@);
    let mut j: usize = 0;
    while j < keys.len()
        invariant
            ks == keys@.map_values(|k: &str| k@),
            j <= ks.len(),
            out@ == mid + secrets_text(ks.take(j as int), secrets@),
        decreases ks.len() - j,
    {
        let key = keys[j];
        proof {
            assert(ks.take(j + 1).drop_last() =~= ks.take(j as int));
            assert(ks[j as int] == key@);
        }
        match secrets.get(key) {
            Some(v) => {
                push_kv(&mut out, key, v.as_str());
            },
            None => {
                assert(out@ =~= mid + secrets_text(ks.take(j + 1), secrets@));
            },
        }
        j = j + 1;
    }
    proof {
        assert(ks.take(ks.len() as int) =~= ks);
        assert(out@ =~= credential_blob(src@, secrets@));
    }
    out
}

/// The pieces of `s` between `'\n'` characters, in order; the last piece is
/// empty when `s` ends with a newline.
pub open spec fn split_lines(s: Seq<char>) -> Seq<Seq<char>>
    decreases s.len(),
{
    if s.len() == 0 {
        seq![Seq::<char>::empty()]
    } else {
        let prev = split_lines(s.drop_last());
        if s.last() == '\n' {
            prev.push(Seq::<char>::empty())
        } else {
            prev.update(prev.len() - 1, prev.last().push(s.last()))
        }
    }
}

pub proof fn lemma_split_lines_nonempty(s: Seq<char>)
    ensures
        split_lines(s).len() >= 1,
    decreases s.len(),
{
    if s.len() > 0 {
        lemma_split_lines_nonempty(s.drop_last());
    }
}

/// `e` is the position of the first `=` of `line`.
pub open spec fn first_eq_at(line: Seq<char>, e: int) -> bool {
    &&& 0 <= e < line.len()
    &&& line[e] == '='
    &&& forall|j: int| 0 <= j < e ==> #[trigger] line[j] != '='
}

/// The trimmed key and value around the first `=` of `line`, if it has one.
pub open spec fn line_entry(line: Seq<char>) -> Option<(Seq<char>, Seq<char>)> {
    if exists|e: int| first_eq_at(line, e) {
        let e = choose|e: int| first_eq_at(line, e);
        Some((trim(line.take(e)), trim(line.skip(e + 1))))
    } else {
        None
    }
}

/// `acc` after reading one line: a requested key's value is stored,
/// replacing what an earlier line gave for it.
pub open spec fn take_secret_line(
    acc: Seq<(Seq<char>, Seq<char>)>,
    line: Seq<char>,
    keys: Seq<Seq<char>>,
) -> Seq<(Seq<char>, Seq<char>)> {
    match line_entry(line) {
        Some((k, v)) => if keys.contains(k) {
            spec_insert(acc, k, v)
        } else {
            acc
        },
        None => acc,
    }
}

pub open spec fn secrets_from_lines(lines: Seq<Seq<char>>, keys: Seq<Seq<char>>) -> Seq<(Seq<char>, Seq<char>)>
    decreases lines.len(),
{
    if lines.len() == 0 {
        Seq::empty()
    } else {
        take_secret_line(secrets_from_lines(lines.drop_last(), keys), lines.last(), keys)
    }
}

/// The secrets a decrypted blob carries for `keys`: for each line with an
/// `=`, the trimmed text before the first `=` is the key and the trimmed
/// rest is the value; a later line wins over an earlier one.
pub open spec fn spec_extract_secrets(blob: Seq<char>, keys: Seq<Seq<char>>) -> Seq<(Seq<char>, Seq<char>)> {
    secrets_from_lines(split_lines(blob), keys)
}

proof fn lemma_first_eq_unique(line: Seq<char>, e: int, f: int)
    requires
        first_eq_at(line, e),
        first_eq_at(line, f),
    ensures
        e == f,
{
    if e < f {
        assert(line[e] != '=');
    }
    if f < e {
        assert(line[f] != '=');
    }
}

/// Whether `key` is one of `keys`.
pub(crate) fn key_requested(keys: &[&str], key: &str) -> (r: bool)
    ensures
        r == keys@.map_values(|k: &str| k@).contains(key@),
{
    let ghost ks = keys@.map_values(|k: &str| k@);
    let mut j: usize = 0;
    while j < keys.len()
        invariant
            ks == keys@.map_values(|k: &str| k@),
            j <= ks.len(),
            forall|x: int| 0 <= x < j ==> ks[x] != key@,
        decreases ks.len() - j,
    {
        if str_eq(keys[j], key) {
            assert(ks[j as int] == key@);
            return true;
        }
        j = j + 1;
    }
    false
}

/// Reads the line `cs[lo..hi]` into `out`.
fn take_secret_from(out: &mut StrMap<String>, cs: &Vec<char>, lo: usize, hi: usize, keys: &[&str])
    requires
        lo <= hi <= cs@.len(),
    ensures
        final(out)@ == take_secret_line(
            old(out)@,
            cs@.subrange(lo as int, hi as int),
            keys@.map_values(|k: &str| k@),
        ),
{
    let ghost line = cs@.subrange(lo as int, hi as int);
    let mut e = lo;
    while e < hi && cs[e] != '='
        invariant
            lo <= e <= hi <= cs@.len(),
            forall|j: int| lo <= j < e ==> cs@[j] != '=',
        decreases hi - e,
    {
        e = e + 1;
    }
    if e == hi {
        proof {
            if exists|f: int| first_eq_at(line, f) {
                let f = choose|f: int| first_eq_at(line, f);
                assert(line[f] == cs@[lo + f]);
            }
        }
        return;
    }
    proof {
        let f = e - lo;
        assert forall|j: int| 0 <= j < f implies #[trigger] line[j] != '=' by {
            assert(line[j] == cs@[lo + j]);
        }
        assert(first_eq_at(line, f));
        let c = choose|c: int| first_eq_at(line, c);
        lemma_first_eq_unique(line, f, c);
        assert(line.take(f) =~= cs@.subrange(lo as int, e as int));
        assert(line.skip(f + 1) =~= cs@.subrange(e + 1, hi as int));
    }
    let (a, b) = trim_bounds(cs, lo, e);
    let key = string_from(cs, a, b);
    if key_requested(keys, key.as_str()) {
        let (c, d) = trim_bounds(cs, e + 1, hi);
        let value = string_from(cs, c, d);
        out.insert(key, value);
    }
}

/// Pull exactly `keys` out of a decrypted rclone-conf blob, matching each
/// key exactly (not prefixes of it), tolerating spaces around `=`.
pub fn extract_secrets(blob: &str, keys: &[&str]) -> (r: StrMap<String>)
    ensures
        r@ == spec_extract_secrets(blob@, keys@.map_values(|k: &str| k@)),
{
    let ghost ks = keys@.map_values(|k: &str| k@);
    let cs = chars_of(blob);
    let mut out: StrMap<String> = StrMap::new();
    let mut start: usize = 0;
    let mut i: usize = 0;
    proof {
        assert(cs@.take(0) =~= Seq::<char>::empty());
        assert(split_lines(cs@.take(0)).drop_last() =~= Seq::<Seq<char>>::empty());
    }
    while i < cs.len()
        invariant
            cs@ == blob@,
            ks == keys@.map_values(|k: &str| k@),
            start <= i <= cs@.len(),
            split_lines(cs@.take(i as int)).len() >= 1,
            split_lines(cs@.take(i as int)).last() == cs@.subrange(start as int, i as int),
            out@ == secrets_from_lines(split_lines(cs@.take(i as int)).drop_last(), ks),
        decreases cs@.len() - i,
    {
        let ghost pre = split_lines(cs@.take(i as int));
        proof {
            assert(cs@.take(i + 1).drop_last() =~= cs@.take(i as int));
            assert(cs@.take(i + 1).last() == cs@[i as int]);
        }
        if cs[i] == '\n' {
            take_secret_from(&mut out, &cs, start, i, keys);
            proof {
                let post = split_lines(cs@.take(i + 1));
                assert(post == pre.push(Seq::<char>::empty()));
                assert(post.drop_last() =~= pre);
                assert(pre =~= pre.drop_last().push(pre.last()));
                assert(cs@.subrange(i + 1, i + 1) =~= Seq::<char>::empty());
            }
            start = i + 1;
        } else {
            proof {
                let post = split_lines(cs@.take(i + 1));
                assert(post == pre.update(pre.len() - 1, pre.last().push(cs@[i as int])));
                assert(post.drop_last() =~= pre.drop_last());
                assert(cs@.subrange(start as int, i + 1) =~= cs@.subrange(start as int, i as int).push(
                    cs@[i as int],
                ));
            }
        }
        i = i + 1;
    }
    take_secret_from(&mut out, &cs, start, cs.len(), keys);
    proof {
        let all = split_lines(cs@.take(cs@.len() as int));
        assert(cs@.take(cs@.len() as int) =~= cs@);
        assert(all =~= all.drop_last().push(all.last()));
    }
    out
}

// ---------------------------------------------------------------------------
// Loading: from `sources.conf` sections to source metadata.
// ---------------------------------------------------------------------------

/// The options of a section's entries, minus the two keys the library owns
/// (`type` and `display_name`); a later duplicate key wins.
pub open spec fn options_from_entries(es: Seq<(Seq<char>, Seq<char>)>) -> Seq<(Seq<char>, Seq<char>)>
    decreases es.len(),
{
    if es.len() == 0 {
        Seq::empty()
    } else {
        let prev = options_from_entries(es.drop_last());
        let k = es.last().0;
        if k == "type"@ || k == "display_name"@ {
            prev
        } else {
            spec_insert(prev, k, es.last().1)
        }
    }
}

/// Every connection option in a source's section. All keys are read rather
/// than a fixed allowlist so hand-edited options round-trip; `type` and
/// `display_name` are filtered out so they never leak into the options.
pub fn collect_section_options(doc: &Document, section: &str) -> (r: StrMap<String>)
    ensures
        r@ == options_from_entries(spec_section_entries(doc@, section@)),
{
    let entries = doc.section_entries(section);
    let ghost es = entries@.map_values(|p: (&str, &str)| (p.0@, p.1@));
    let mut out: StrMap<String> = StrMap::new();
    let mut i: usize = 0;
    while i < entries.len()
        invariant
            es == entries@.map_values(|p: (&str, &str)| (p.0@, p.1@)),
            es == spec_section_entries(doc@, section@),
            i <= es.len(),
            out@ == options_from_entries(es.take(i as int)),
        decreases es.len() - i,
    {
        let (k, v) = entries[i];
        proof {
            assert(es.take(i + 1).drop_last() =~= es.take(i as int));
            assert(es[i as int] == (k@, v@));
        }
        if !(str_eq(k, "type") || str_eq(k, "display_name")) {
            out.insert(owned(k), owned(v));
        }
        i = i + 1;
    }
    proof {
        assert(es.take(es.len() as int) =~= es);
    }
    out
}

/// The metadata `load` reports for section `name` of `sources.conf`.
pub open spec fn section_metadata(ls: Seq<LineV>, name: Seq<char>, has_secret: bool) -> SourceMetaV {
    SourceMetaV {
        name,
        display_name: match spec_get(ls, name, "display_name"@) {
            Some(d) => d,
            None => name,
        },
        kind: match spec_get(ls, name, "type"@) {
            Some(t) => t,
            None => Seq::empty(),
        },
        options: options_from_entries(spec_section_entries(ls, name)),
        has_secret,
    }
}

impl SourceMetadata {
    /// The metadata of section `name` of a parsed `sources.conf`. Data
    /// written before display names existed has no `display_name` key and
    /// shows the id instead; `has_secret` says whether the source's
    /// credential carries any of its kind's secret keys.
    pub fn from_section(doc: &Document, name: &str, has_secret: bool) -> (r: SourceMetadata)
        ensures
            r@ == section_metadata(doc@, name@, has_secret),
    {
        let display_name = match doc.get(name, "display_name") {
            Some(d) => owned(d),
            None => owned(name),
        };
        let kind = match doc.get(name, "type") {
            Some(t) => owned(t),
            None => String::new(),
        };
        SourceMetadata {
            name: owned(name),
            display_name,
            kind,
            options: collect_section_options(doc, name),
            has_secret,
        }
    }
}

/// The kind whose secret keys are looked for in a source's credential: the
/// kind its `type` names, or SMB when the tag is unknown.
pub open spec fn secrets_kind_of(tag: Seq<char>) -> SourceKind {
    match kind_of_tag(tag) {
        Some(k) => k,
        None => SourceKind::Smb,
    }
}

/// The kind whose secret keys are looked for in a source's credential.
pub fn secrets_kind(tag: &str) -> (r: SourceKind)
    ensures
        r == secrets_kind_of(tag@),
{
    match SourceKind::from_tag(tag) {
        Some(k) => k,
        None => SourceKind::Smb,
    }
}

/// Whether a decrypted credential carries any of `kind`'s secret keys. The
/// blob exists for every source (it holds type and options too), so its
/// existence alone doesn't say a password is set.
pub fn has_known_secret(blob: &str, kind: SourceKind) -> (r: bool)
    ensures
        r == (spec_extract_secrets(blob@, secret_keys(kind)).len() > 0),
{
    let keys = secret_keys_for(kind);
    let found = extract_secrets(blob, keys.as_slice());
    !found.is_empty()
}

/// A mount as loaded: data written before display names existed shows its
/// id as its display name.
pub open spec fn with_display_name(m: MountV) -> MountV {
    if m.display_name.len() == 0 {
        MountV { display_name: m.name, ..m }
    } else {
        m
    }
}

/// Gives every mount without a display name its id as display name.
pub fn fill_display_names(mounts: &mut Vec<Mount>)
    ensures
        final(mounts)@.map_values(|m: Mount| m@) == old(mounts)@.map_values(|m: Mount| m@).map_values(
            |m: MountV| with_display_name(m),
        ),
{
    let ghost before = mounts@.map_values(|m: Mount| m@);
    let mut i: usize = 0;
    while i < mounts.len()
        invariant
            before == old(mounts)@.map_values(|m: Mount| m@),
            mounts@.len() == before.len(),
            i <= before.len(),
            forall|j: int| 0 <= j < i ==> #[trigger] mounts@[j]@ == with_display_name(before[j]),
            forall|j: int| i <= j < before.len() ==> #[trigger] mounts@[j]@ == before[j],
        decreases before.len() - i,
    {
        if mounts[i].display_name.as_str().is_empty() {
            let mut m = copy_mount(&mounts[i]);
            m.display_name = m.name.clone();
            mounts.set(i, m);
        }
        i = i + 1;
    }
    assert(mounts@.map_values(|m: Mount| m@) =~= before.map_values(|m: MountV| with_display_name(m)));
}

// ---------------------------------------------------------------------------
// Applying: name checks and `sources.conf` edits.
// ---------------------------------------------------------------------------

/// The `name` and `source` of each mount, in order.
pub open spec fn mount_name_pairs(ms: Seq<MountV>) -> Seq<Seq<char>>
    decreases ms.len(),
{
    if ms.len() == 0 {
        Seq::empty()
    } else {
        mount_name_pairs(ms.drop_last()) + seq![ms.last().name, ms.last().source]
    }
}

/// Every name a changeset asks to write or delete, in the order `apply`
/// checks them: upserted sources, deleted sources, each upserted mount's
/// name then source, deleted mounts.
pub open spec fn changeset_names(cs: ChangesetV) -> Seq<Seq<char>> {
    cs.upsert_sources.map_values(|d: SourceDefV| d.name) + cs.delete_sources + mount_name_pairs(
        cs.upsert_mounts,
    ) + cs.delete_mounts
}

pub open spec fn first_invalid_at(names: Seq<Seq<char>>, i: int) -> bool {
    &&& 0 <= i < names.len()
    &&& !valid_name(names[i])
    &&& forall|j: int| 0 <= j < i ==> valid_name(#[trigger] names[j])
}

/// The first name of `names` that isn't a valid name, if any.
pub open spec fn first_invalid(names: Seq<Seq<char>>) -> Option<Seq<char>> {
    if exists|i: int| first_invalid_at(names, i) {
        Some(names[choose|i: int| first_invalid_at(names, i)])
    } else {
        None
    }
}

/// The names of a changeset, in checking order.
fn changeset_name_list(cs: &Changeset) -> (r: Vec<&str>)
    ensures
        r@.map_values(|x: &str| x@) == changeset_names(cs@),
{
    let mut out: Vec<&str> = Vec::new();
    let mut i: usize = 0;
    while i < cs.upsert_sources.len()
        invariant
            i <= cs.upsert_sources@.len(),
            out@.map_values(|x: &str| x@) == cs@.upsert_sources.take(i as int).map_values(
                |d: SourceDefV| d.name,
            ),
        decreases cs.upsert_sources@.len() - i,
    {
        let ghost before = out@.map_values(|x: &str| x@);
        let n = cs.upsert_sources[i].name.as_str();
        out.push(n);
        proof {
            assert(out@.map_values(|x: &str| x@) =~= before.push(n@));
            assert(cs@.upsert_sources[i as int].name == n@);
            assert(cs@.upsert_sources.take(i + 1).map_values(|d: SourceDefV| d.name) =~= cs@.upsert_sources.take(
                i as int,
            ).map_values(|d: SourceDefV| d.name).push(n@));
        }
        i = i + 1;
    }
    assert(cs@.upsert_sources.take(i as int) =~= cs@.upsert_sources);
    let ghost a = out@.map_values(|x: &str| x@);
    let mut j: usize = 0;
    while j < cs.delete_sources.len()
        invariant
            j <= cs.delete_sources@.len(),
            out@.map_values(|x: &str| x@) == a + cs@.delete_sources.take(j as int),
        decreases cs.delete_sources@.len() - j,
    {
        let ghost before = out@.map_values(|x: &str| x@);
        let n = cs.delete_sources[j].as_str();
        out.push(n);
        proof {
            assert(out@.map_values(|x: &str| x@) =~= before.push(n@));
            assert(cs@.delete_sources[j as int] == n@);
            assert(cs@.delete_sources.take(j + 1) =~= cs@.delete_sources.take(j as int).push(n@));
            assert(out@.map_values(|x: &str| x@) =~= a + cs@.delete_sources.take(j + 1));
        }
        j = j + 1;
    }
    assert(cs@.delete_sources.take(j as int) =~= cs@.delete_sources);
    let ghost b = out@.map_values(|x: &str| x@);
    let mut k: usize = 0;
    while k < cs.upsert_mounts.len()
        invariant
            k <= cs.upsert_mounts@.len(),
            out@.map_values(|x: &str| x@) == b + mount_name_pairs(cs@.upsert_mounts.take(k as int)),
        decreases cs.upsert_mounts@.len() - k,
    {
        let ghost before = out@.map_values(|x: &str| x@);
        let mn = cs.upsert_mounts[k].name.as_str();
        let ms = cs.upsert_mounts[k].source.as_str();
        out.push(mn);
        out.push(ms);
        proof {
            assert(out@.map_values(|x: &str| x@) =~= before + seq![mn@, ms@]);
            let t = cs@.upsert_mounts.take(k + 1);
            assert(t.drop_last() =~= cs@.upsert_mounts.take(k as int));
            assert(t.last() == cs.upsert_mounts@[k as int]@);
            assert(out@.map_values(|x: &str| x@) =~= b + mount_name_pairs(t));
        }
        k = k + 1;
    }
    assert(cs@.upsert_mounts.take(k as int) =~= cs@.upsert_mounts);
    let ghost c = out@.map_values(|x: &str| x@);
    let mut l: usize = 0;
    while l < cs.delete_mounts.len()
        invariant
            l <= cs.delete_mounts@.len(),
            out@.map_values(|x: &str| x@) == c + cs@.delete_mounts.take(l as int),
        decreases cs.delete_mounts@.len() - l,
    {
        let ghost before = out@.map_values(|x: &str| x@);
        let n = cs.delete_mounts[l].as_str();
        out.push(n);
        proof {
            assert(out@.map_values(|x: &str| x@) =~= before.push(n@));
            assert(cs@.delete_mounts[l as int] == n@);
            assert(cs@.delete_mounts.take(l + 1) =~= cs@.delete_mounts.take(l as int).push(n@));
            assert(out@.map_values(|x: &str| x@) =~= c + cs@.delete_mounts.take(l + 1));
        }
        l = l + 1;
    }
    assert(cs@.delete_mounts.take(l as int) =~= cs@.delete_mounts);
    assert(out@.map_values(|x: &str| x@) =~= changeset_names(cs@));
    out
}

/// Checks every name a changeset would write or delete before anything is
/// touched; the first invalid name (in [`changeset_names`] order) is the
/// error.
pub fn validate_changeset_names(cs: &Changeset) -> (r: Result<(), Error>)
    ensures
        match r {
            Ok(()) => first_invalid(changeset_names(cs@)) is None,
            Err(e) => e matches Error::InvalidName(n) && first_invalid(changeset_names(cs@)) == Some(
                n@,
            ),
        },
        r is Ok <==> forall|i: int|
            0 <= i < changeset_names(cs@).len() ==> valid_name(#[trigger] changeset_names(cs@)[i]),
{
    let names = changeset_name_list(cs);
    let ghost ns = names@.map_values(|x: &str| x@);
    let mut i: usize = 0;
    while i < names.len()
        invariant
            ns == names@.map_values(|x: &str| x@),
            ns == changeset_names(cs@),
            i <= ns.len(),
            forall|j: int| 0 <= j < i ==> valid_name(#[trigger] ns[j]),
        decreases ns.len() - i,
    {
        match validate_name(names[i]) {
            Ok(()) => {},
            Err(e) => {
                proof {
                    assert(first_invalid_at(ns, i as int));
                    let c = choose|c: int| first_invalid_at(ns, c);
                    if c < i {
                        assert(valid_name(ns[c]));
                    }
                    if c > i {
                        assert(valid_name(ns[i as int]));
                    }
                }
                return Err(e);
            },
        }
        i = i + 1;
    }
    proof {
        if exists|c: int| first_invalid_at(ns, c) {
            let c = choose|c: int| first_invalid_at(ns, c);
            assert(valid_name(ns[c]));
        }
    }
    Ok(())
}

/// `ls` after removing the section of each name in turn.
pub open spec fn remove_sections_all(ls: Seq<LineV>, names: Seq<Seq<char>>) -> Seq<LineV>
    decreases names.len(),
{
    if names.len() == 0 {
        ls
    } else {
        spec_remove_section(remove_sections_all(ls, names.drop_last()), names.last())
    }
}

/// `ls` after setting each entry of `es` in section `sec`, in order.
pub open spec fn set_all(ls: Seq<LineV>, sec: Seq<char>, es: Seq<(Seq<char>, Seq<char>)>) -> Seq<LineV>
    decreases es.len(),
{
    if es.len() == 0 {
        ls
    } else {
        spec_set(set_all(ls, sec, es.drop_last()), sec, es.last().0, es.last().1)
    }
}

/// `ls` with the section of `d` replaced wholesale: removed, then `type`,
/// `display_name` and every option set again.
pub open spec fn write_source_section(ls: Seq<LineV>, d: SourceDefV) -> Seq<LineV> {
    set_all(
        spec_set(
            spec_set(spec_remove_section(ls, d.name), d.name, "type"@, kind_tag(d.kind)),
            d.name,
            "display_name"@,
            d.display_name,
        ),
        d.name,
        d.options,
    )
}

pub open spec fn write_sources_all(ls: Seq<LineV>, ds: Seq<SourceDefV>) -> Seq<LineV>
    decreases ds.len(),
{
    if ds.len() == 0 {
        ls
    } else {
        write_source_section(write_sources_all(ls, ds.drop_last()), ds.last())
    }
}

/// The `sources.conf` edits of a changeset: deleted sections go, then each
/// upserted source's section is rewritten.
pub open spec fn spec_source_edits(ls: Seq<LineV>, cs: ChangesetV) -> Seq<LineV> {
    write_sources_all(remove_sections_all(ls, cs.delete_sources), cs.upsert_sources)
}

/// A source whose section can be written: no control character in its id,
/// its display name or its options.
pub open spec fn source_clean(d: SourceDefV) -> bool {
    &&& !has_control(d.name)
    &&& !has_control(d.display_name)
    &&& forall|i: int| 0 <= i < d.options.len() ==> #[trigger] entry_clean(d.options[i])
}

/// An option whose key and value hold no control character.
pub open spec fn entry_clean(e: (Seq<char>, Seq<char>)) -> bool {
    !has_control(e.0) && !has_control(e.1)
}

/// Text of plain ASCII letters and underscores holds no control character.
proof fn lemma_letters_clean(t: Seq<char>)
    requires
        forall|i: int| 0 <= i < t.len() ==> ('a' <= #[trigger] t[i] && t[i] <= 'z') || t[i] == '_',
    ensures
        !has_control(t),
{
    assert forall|i: int| 0 <= i < t.len() implies !is_control(#[trigger] t[i]) by {
        let c = t[i];
        assert(('a' <= c && c <= 'z') || c == '_');
        assert(c as u32 >= 0x5f && c as u32 <= 0x7a) by {
            assert('a' as u32 == 0x61);
            assert('z' as u32 == 0x7a);
            assert('_' as u32 == 0x5f);
        }
    }
}

proof fn lemma_tags_clean(k: SourceKind)
    ensures
        !has_control(kind_tag(k)),
        !has_control("type"@),
        !has_control("display_name"@),
{
    reveal_strlit("smb");
    reveal_strlit("drive");
    reveal_strlit("webdav");
    reveal_strlit("sftp");
    reveal_strlit("ftp");
    reveal_strlit("iclouddrive");
    reveal_strlit("type");
    reveal_strlit("display_name");
    lemma_letters_clean(kind_tag(k));
    lemma_letters_clean("type"@);
    lemma_letters_clean("display_name"@);
}

/// Whether `d`'s section can be written.
fn source_is_clean(d: &SourceDef) -> (r: bool)
    ensures
        r == source_clean(d@),
{
    if text_has_control(d.name.as_str()) || text_has_control(d.display_name.as_str()) {
        return false;
    }
    let ghost opts = d.options@;
    let mut i: usize = 0;
    while i < d.options.len()
        invariant
            opts == d.options@,
            i <= opts.len(),
            forall|j: int| 0 <= j < i ==> #[trigger] entry_clean(opts[j]),
        decreases opts.len() - i,
    {
        let k = d.options.key_at(i);
        let v = d.options.value_at(i);
        assert(opts[i as int].0 == k@ && opts[i as int].1 == v@);
        if text_has_control(k) || text_has_control(v.as_str()) {
            assert(!entry_clean(d@.options[i as int]));
            return false;
        }
        assert(entry_clean(opts[i as int]));
        i = i + 1;
    }
    true
}

/// Whether `s` holds a control character.
fn text_has_control(s: &str) -> (r: bool)
    ensures
        r == has_control(s@),
{
    let v = chars_of(s);
    let mut i: usize = 0;
    while i < v.len()
        invariant
            v@ == s@,
            i <= v@.len(),
            forall|j: int| 0 <= j < i ==> !is_control(#[trigger] v@[j]),
        decreases v@.len() - i,
    {
        let n = v[i] as u32;
        if n < 0x20 || (0x7f <= n && n <= 0x9f) {
            assert(is_control(v@[i as int]));
            return true;
        }
        i = i + 1;
    }
    false
}

/// The value stored for a new secret: its obscured form (from `obscured`)
/// when it asks to be obscured, else the value as given.
pub open spec fn stored_secret(e: (Seq<char>, (Seq<char>, bool)), obscured: Seq<(Seq<char>, Seq<char>)>) -> Seq<char> {
    if e.1.1 {
        lookup(obscured, e.0)->Some_0
    } else {
        e.1.0
    }
}

/// The stored secrets after setting each of `news`, in order.
pub open spec fn merged_secrets(
    existing: Seq<(Seq<char>, Seq<char>)>,
    news: Seq<(Seq<char>, (Seq<char>, bool))>,
    obscured: Seq<(Seq<char>, Seq<char>)>,
) -> Seq<(Seq<char>, Seq<char>)>
    decreases news.len(),
{
    if news.len() == 0 {
        existing
    } else {
        spec_insert(merged_secrets(existing, news.drop_last(), obscured), news.last().0, stored_secret(news.last(), obscured))
    }
}

/// Every new secret that asks to be obscured has its obscured form.
pub open spec fn obscured_cover(news: Seq<(Seq<char>, (Seq<char>, bool))>, obscured: Seq<(Seq<char>, Seq<char>)>) -> bool {
    forall|i: int| 0 <= i < news.len() && (#[trigger] news[i]).1.1 ==> lookup(obscured, news[i].0) is Some
}

/// The secrets a source's credential holds after an upsert: each key of
/// `new_secrets` gets its new value (obscured where it asks to be, taken
/// from `obscured`), and every stored secret not being set keeps its value.
pub fn merge_secrets(
    existing: StrMap<String>,
    new_secrets: &StrMap<SecretValue>,
    obscured: &StrMap<String>,
) -> (r: StrMap<String>)
    requires
        obscured_cover(new_secrets@, obscured@),
    ensures
        r@ == merged_secrets(existing@, new_secrets@, obscured@),
{
    let mut out = existing;
    let ghost start = out@;
    let ghost news = new_secrets@;
    let mut i: usize = 0;
    proof {
        assert(news.take(0) =~= Seq::<(Seq<char>, (Seq<char>, bool))>::empty());
    }
    while i < new_secrets.len()
        invariant
            news == new_secrets@,
            i <= news.len(),
            obscured_cover(news, obscured@),
            out@ == merged_secrets(start, news.take(i as int), obscured@),
        decreases news.len() - i,
    {
        let k = new_secrets.key_at(i);
        let sv = new_secrets.value_at(i);
        let value = if sv.obscure {
            assert(news[i as int].1.1);
            match obscured.get(k) {
                Some(o) => o.clone(),
                None => {
                    assert(false);
                    String::new()
                },
            }
        } else {
            sv.value.clone()
        };
        assert(value@ == stored_secret(news[i as int], obscured@));
        out.insert(owned(k), value);
        proof {
            assert(news.take(i + 1).drop_last() =~= news.take(i as int));
            assert(news.take(i + 1).last() == news[i as int]);
        }
        i = i + 1;
    }
    assert(news.take(news.len() as int) =~= news);
    out
}

/// Merging new secrets into stored ones keeps every secret not being set:
/// a key of `news` reads as its new (possibly obscured) value, any other
/// key as it was stored.
pub proof fn law_merge_keeps_unrotated(
    existing: Seq<(Seq<char>, Seq<char>)>,
    news: Seq<(Seq<char>, (Seq<char>, bool))>,
    obscured: Seq<(Seq<char>, Seq<char>)>,
    k: Seq<char>,
)
    requires
        keys_sorted(existing),
        keys_sorted(news),
    ensures
        keys_sorted(merged_secrets(existing, news, obscured)),
        lookup(merged_secrets(existing, news, obscured), k) == match lookup(news, k) {
            Some(sv) => Some(stored_secret((k, sv), obscured)),
            None => lookup(existing, k),
        },
    decreases news.len(),
{
    if news.len() > 0 {
        let p = news.drop_last();
        let l = news.last();
        assert(keys_sorted(p));
        law_merge_keeps_unrotated(existing, p, obscured, k);
        law_lookup_after_insert(merged_secrets(existing, p, obscured), l.0, stored_secret(l, obscured), k);
        if k == l.0 {
            lemma_lookup_at(news, k, news.len() - 1);
        } else if exists|j: int| 0 <= j < p.len() && #[trigger] p[j].0 == k {
            let j = choose|j: int| 0 <= j < p.len() && #[trigger] p[j].0 == k;
            lemma_lookup_at(news, k, j);
            lemma_lookup_at(p, k, j);
        } else {
            assert forall|j: int| 0 <= j < news.len() implies #[trigger] news[j].0 != k by {
                if j < p.len() {
                    assert(p[j].0 != k);
                }
            }
            lemma_lookup_absent(news, k);
            lemma_lookup_absent(p, k);
        }
    }
}

/// Rewrites one source's section.
fn write_source(doc: &mut Document, d: &SourceDef)
    requires
        source_clean(d@),
    ensures
        final(doc)@ == write_source_section(old(doc)@, d@),
{
    proof {
        lemma_tags_clean(d.kind);
    }
    let name = d.name.as_str();
    doc.remove_section(name);
    let a = doc.set(name, "type", source_kind_str(d.kind));
    let b = doc.set(name, "display_name", d.display_name.as_str());
    let ghost base = doc@;
    let ghost opts = d.options@;
    let mut i: usize = 0;
    while i < d.options.len()
        invariant
            opts == d.options@,
            name@ == d.name@,
            i <= opts.len(),
            doc@ == set_all(base, d.name@, opts.take(i as int)),
            source_clean(d@),
        decreases opts.len() - i,
    {
        let k = d.options.key_at(i);
        let v = d.options.value_at(i);
        assert(opts[i as int].0 == k@ && opts[i as int].1 == v@);
        assert(entry_clean(d@.options[i as int]));
        let c = doc.set(name, k, v.as_str());
        proof {
            assert(opts.take(i + 1).drop_last() =~= opts.take(i as int));
            assert(opts.take(i + 1).last() == opts[i as int]);
        }
        i = i + 1;
    }
    assert(opts.take(opts.len() as int) =~= opts);
}

/// Applies a changeset's source edits to a parsed `sources.conf`. Sections
/// are replaced wholesale (comments inside a rewritten section are lost,
/// stale keys never linger); comments elsewhere are kept. A changeset that
/// would write a control character is refused before anything changes.
pub fn apply_source_edits(doc: &mut Document, cs: &Changeset) -> (r: Result<(), Error>)
    ensures
        r is Ok <==> forall|j: int| 0 <= j < cs@.upsert_sources.len() ==> source_clean(#[trigger] cs@.upsert_sources[j]),
        r is Ok ==> final(doc)@ == spec_source_edits(old(doc)@, cs@),
        r matches Err(e) ==> final(doc)@ == old(doc)@ && (e matches Error::ConfigParse(m) && m@ == control_message()),
{
    let mut c: usize = 0;
    while c < cs.upsert_sources.len()
        invariant
            c <= cs@.upsert_sources.len(),
            forall|j: int| 0 <= j < c ==> source_clean(#[trigger] cs@.upsert_sources[j]),
        decreases cs@.upsert_sources.len() - c,
    {
        assert(cs@.upsert_sources[c as int] == cs.upsert_sources@[c as int]@);
        if !source_is_clean(&cs.upsert_sources[c]) {
            assert(!source_clean(cs@.upsert_sources[c as int]));
            let mut m = String::new();
            push_str(&mut m, "a section name, key or value holds a control character");
            proof {
                reveal_strlit("a section name, key or value holds a control character");
            }
            return Err(Error::ConfigParse(m));
        }
        c = c + 1;
    }
    let ghost start = doc@;
    let ghost dels = cs@.delete_sources;
    let mut i: usize = 0;
    while i < cs.delete_sources.len()
        invariant
            dels == cs@.delete_sources,
            i <= dels.len(),
            doc@ == remove_sections_all(start, dels.take(i as int)),
        decreases dels.len() - i,
    {
        doc.remove_section(cs.delete_sources[i].as_str());
        assert(dels.take(i + 1).drop_last() =~= dels.take(i as int));
        i = i + 1;
    }
    assert(dels.take(dels.len() as int) =~= dels);
    let ghost mid = doc@;
    let ghost ups = cs@.upsert_sources;
    let mut j: usize = 0;
    while j < cs.upsert_sources.len()
        invariant
            ups == cs@.upsert_sources,
            j <= ups.len(),
            doc@ == write_sources_all(mid, ups.take(j as int)),
            forall|q: int| 0 <= q < ups.len() ==> source_clean(#[trigger] ups[q]),
        decreases ups.len() - j,
    {
        assert(source_clean(ups[j as int]));
        write_source(doc, &cs.upsert_sources[j]);
        assert(ups.take(j + 1).drop_last() =~= ups.take(j as int));
        j = j + 1;
    }
    assert(ups.take(ups.len() as int) =~= ups);
    Ok(())
}

// ---------------------------------------------------------------------------
// The in-process backend's settings and its provider-override rules.
// ---------------------------------------------------------------------------

/// The in-process backend: which `systemd-creds` scope its credentials are
/// encrypted under and where systemd finds them. The store and the systemd
/// connection it drives live with the caller.
#[derive(Debug)]
pub struct LocalBackend {
    pub scope: Scope,
    /// Path or specifier where credential blobs live, expressed as systemd
    /// understands it for `LoadCredentialEncrypted=`.
    pub credential_dir_spec: String,
}

/// What storing an admin override does to the credential store.
#[derive(Debug)]
pub enum OverrideWrite {
    /// Both values were empty: the stored override is deleted.
    Clear { name: String },
    /// `blob` is encrypted and stored under `name`.
    Store { name: String, blob: String },
}

/// The blob an admin override is stored as.
pub open spec fn override_blob(kind: SourceKind, id: Seq<char>, secret: Seq<char>) -> Seq<char> {
    "["@ + override_name(kind) + "]\nclient_id = "@ + id + "\nclient_secret = "@ + secret + "\n"@
}

/// The message for setting an override outside system scope.
pub open spec fn system_scope_only_message() -> Seq<char> {
    "Provider credential overrides are system-scope only."@
}

impl LocalBackend {
    /// The user-scope backend's settings: user-scope credentials, loaded from
    /// under the user's home.
    pub fn user() -> (r: LocalBackend)
        ensures
            r.scope == Scope::User,
            r.credential_dir_spec@ == "%h/.config/rclone-mounts/credentials"@,
    {
        LocalBackend { scope: Scope::User, credential_dir_spec: owned("%h/.config/rclone-mounts/credentials") }
    }

    /// Where systemd loads `source`'s credential from.
    pub fn credential_path(&self, source: &str) -> (r: String)
        ensures
            r@ == self.credential_dir_spec@ + "/"@ + source@,
    {
        let mut s = String::new();
        push_str(&mut s, self.credential_dir_spec.as_str());
        push_str(&mut s, "/");
        push_str(&mut s, source);
        s
    }

    /// What storing (or, with both values empty, clearing) the admin
    /// override for `kind` writes. Only system scope may set one.
    pub fn provider_override_write(&self, kind: SourceKind, client_id: &str, client_secret: &str) -> (r: Result<
        OverrideWrite,
        Error,
    >)
        ensures
            self.scope != Scope::System ==> (r matches Err(Error::Systemd(m)) && m@ == system_scope_only_message()),
            self.scope == Scope::System && client_id@.len() == 0 && client_secret@.len() == 0 ==> (r matches Ok(
                OverrideWrite::Clear { name },
            ) && name@ == override_name(kind)),
            self.scope == Scope::System && (client_id@.len() > 0 || client_secret@.len() > 0) ==> (r matches Ok(
                OverrideWrite::Store { name, blob },
            ) && name@ == override_name(kind) && blob@ == override_blob(kind, client_id@, client_secret@)),
    {
        if self.scope != Scope::System {
            return Err(Error::Systemd(owned("Provider credential overrides are system-scope only.")));
        }
        let name = provider_override_name(kind);
        if client_id.is_empty() && client_secret.is_empty() {
            return Ok(OverrideWrite::Clear { name });
        }
        let mut blob = String::new();
        push_str(&mut blob, "[");
        push_str(&mut blob, name.as_str());
        push_str(&mut blob, "]\nclient_id = ");
        push_str(&mut blob, client_id);
        push_str(&mut blob, "\nclient_secret = ");
        push_str(&mut blob, client_secret);
        push_str(&mut blob, "\n");
        Ok(OverrideWrite::Store { name, blob })
    }

    /// The credential that holds `kind`'s admin override, if this backend
    /// can read one: only system scope has an admin override.
    pub fn provider_override_credential(&self, kind: SourceKind) -> (r: Option<String>)
        ensures
            self.scope == Scope::System ==> (r matches Some(n) && n@ == override_name(kind)),
            self.scope != Scope::System ==> r is None,
    {
        if self.scope == Scope::System {
            Some(provider_override_name(kind))
        } else {
            None
        }
    }
}

/// The value of `key` in `sec`, or empty.
pub open spec fn get_or_empty(ls: Seq<LineV>, sec: Seq<char>, key: Seq<char>) -> Seq<char> {
    match spec_get(ls, sec, key) {
        Some(v) => v,
        None => Seq::empty(),
    }
}

/// The admin override a decrypted override blob holds: both `client_id`
/// and `client_secret` must be non-empty.
pub fn provider_override_from_blob(blob: &str, kind: SourceKind) -> (r: Result<Option<(String, String)>, Error>)
    requires
        !parse_message_splits_char(blob@),
    ensures
        match spec_parse(blob@) {
            Err(p) => r matches Err(Error::ConfigParse(m)) && m@ == parse_error_message(blob@, p),
            Ok(ls) => {
                let id = get_or_empty(ls, override_name(kind), "client_id"@);
                let secret = get_or_empty(ls, override_name(kind), "client_secret"@);
                if id.len() == 0 || secret.len() == 0 {
                    r matches Ok(None)
                } else {
                    r matches Ok(Some((a, b))) && a@ == id && b@ == secret
                }
            },
        },
{
    let doc = match Document::parse(blob) {
        Ok(d) => d,
        Err(e) => {
            return Err(e);
        },
    };
    let name = provider_override_name(kind);
    let id = match doc.get(name.as_str(), "client_id") {
        Some(v) => owned(v),
        None => String::new(),
    };
    let secret = match doc.get(name.as_str(), "client_secret") {
        Some(v) => owned(v),
        None => String::new(),
    };
    if id.as_str().is_empty() || secret.as_str().is_empty() {
        return Ok(None);
    }
    Ok(Some((id, secret)))
}

} // verus!
