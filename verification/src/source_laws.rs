//! Reading a source back from `sources.conf` right after its section was
//! rewritten gives what was written.
use crate::backend::{options_from_entries, section_metadata, set_all, write_source_section, SourceMetaV};
use crate::config_laws::{at_most_one_section, lemma_removed_has_no_header};
use crate::rclone_config::{
    canonical_header, canonical_kv, first_header_at, first_key_at, header_index, insert_pos, is_header, is_key,
    key_index, kv_pairs, last_non_blank_at, lemma_header_index_is, lemma_key_index_is, lemma_no_header,
    lemma_section_end_len, render_lines, section_end, spec_get, spec_parse, spec_remove_section, spec_section_entries,
    spec_set, with_separator, LineV,
};
use crate::source::{kind_tag, SourceDefV};
use crate::text::is_ws;
use crate::text_laws::{
    key_text_ok, law_render_parse_round_trip, lemma_blank_reparses, lemma_header_reparses, lemma_kv_reparses,
    lemma_parsed_text_reparses, name_text_ok, reparses, value_text_ok,
};
use crate::str_map::{keys_sorted, lemma_lower_bound_unique, lower_bound_at, seq_lt, spec_insert};
use vstd::prelude::*;

verus! {

/// The canonical lines of a list of entries.
pub open spec fn kv_lines(es: Seq<(Seq<char>, Seq<char>)>) -> Seq<LineV> {
    es.map_values(|e: (Seq<char>, Seq<char>)| canonical_kv(e.0, e.1))
}

proof fn lemma_kv_pairs_concat(a: Seq<LineV>, b: Seq<LineV>)
    ensures
        kv_pairs(a + b) == kv_pairs(a) + kv_pairs(b),
    decreases b.len(),
{
    if b.len() == 0 {
        assert(a + b =~= a);
        assert(kv_pairs(a) + kv_pairs(b) =~= kv_pairs(a));
    } else {
        lemma_kv_pairs_concat(a, b.drop_last());
        assert((a + b).drop_last() =~= a + b.drop_last());
        assert((a + b).last() == b.last());
        match b.last() {
            LineV::KeyValue { key, value, .. } => {
                assert((kv_pairs(a) + kv_pairs(b.drop_last())).push((key, value)) =~= kv_pairs(a) + kv_pairs(
                    b.drop_last(),
                ).push((key, value)));
            },
            _ => {},
        }
    }
}

proof fn lemma_kv_pairs_one(k: Seq<char>, v: Seq<char>)
    ensures
        kv_pairs(seq![canonical_kv(k, v)]) == seq![(k, v)],
{
    let one = seq![canonical_kv(k, v)];
    assert(one.drop_last() =~= Seq::<LineV>::empty());
    assert(one.last() == canonical_kv(k, v));
    assert(kv_pairs(one) == kv_pairs(one.drop_last()).push((k, v)));
    assert(kv_pairs(one) =~= seq![(k, v)]);
}

proof fn lemma_kv_pairs_lines(es: Seq<(Seq<char>, Seq<char>)>)
    ensures
        kv_pairs(kv_lines(es)) == es,
    decreases es.len(),
{
    if es.len() == 0 {
        assert(kv_lines(es) =~= Seq::<LineV>::empty());
        assert(kv_pairs(kv_lines(es)) =~= es);
    } else {
        let rest = es.drop_last();
        let (k, v) = es.last();
        lemma_kv_pairs_concat(kv_lines(rest), seq![canonical_kv(k, v)]);
        assert(kv_lines(es) =~= kv_lines(rest) + seq![canonical_kv(k, v)]);
        lemma_kv_pairs_lines(rest);
        lemma_kv_pairs_one(k, v);
        assert(rest + seq![(k, v)] =~= es);
    }
}

/// A section at the very end of a document: `base` holds no `[sec]`
/// header, and after the header come only `key = value` lines.
pub open spec fn trailing_section(base: Seq<LineV>, sec: Seq<char>, kvs: Seq<LineV>) -> bool {
    &&& header_index(base, sec) is None
    &&& forall|i: int| 0 <= i < kvs.len() ==> #[trigger] kvs[i] is KeyValue
}

/// Setting a key new to a trailing section appends its line.
proof fn lemma_set_appends(base: Seq<LineV>, sec: Seq<char>, kvs: Seq<LineV>, key: Seq<char>, value: Seq<char>)
    requires
        trailing_section(base, sec, kvs),
        forall|i: int| 0 <= i < kvs.len() ==> !is_key(#[trigger] kvs[i], key),
    ensures
        spec_set(base.push(canonical_header(sec)) + kvs, sec, key, value) == base.push(canonical_header(sec)) + kvs.push(
            canonical_kv(key, value),
        ),
{
    let doc = base.push(canonical_header(sec)) + kvs;
    let m = base.len() as int;
    assert(doc[m] == canonical_header(sec));
    assert forall|j: int| 0 <= j < m implies !is_header(#[trigger] doc[j], sec) by {
        assert(doc[j] == base[j]);
        lemma_no_header(base, sec, j);
    }
    assert(first_header_at(doc, sec, m));
    lemma_header_index_is(doc, sec, m);
    assert forall|j: int| m + 1 <= j < doc.len() implies !(#[trigger] doc[j] is Section) by {
        assert(doc[j] == kvs[j - m - 1]);
    }
    lemma_section_end_len(doc, m + 1);
    let lo = m + 1;
    let hi = doc.len() as int;
    if exists|c: int| #[trigger] first_key_at(doc, lo, hi, key, c) {
        let c = choose|c: int| #[trigger] first_key_at(doc, lo, hi, key, c);
        assert(doc[c] == kvs[c - m - 1]);
    }
    assert(key_index(doc, lo, hi, key) is None);
    if kvs.len() > 0 {
        assert(doc[hi - 1] == kvs[kvs.len() - 1]);
        assert(last_non_blank_at(doc, lo, hi, hi - 1));
        let c = choose|c: int| last_non_blank_at(doc, lo, hi, c);
        if c < hi - 1 {
            assert(doc[hi - 1] is Blank);
        }
        assert(insert_pos(doc, lo, hi) == hi);
    } else {
        assert(insert_pos(doc, lo, hi) == hi);
    }
    assert(doc.insert(hi, canonical_kv(key, value)) =~= base.push(canonical_header(sec)) + kvs.push(
        canonical_kv(key, value),
    ));
}

/// Setting a sorted run of new keys one after the other appends their
/// lines in order.
proof fn lemma_set_all_appends(
    base: Seq<LineV>,
    sec: Seq<char>,
    kvs: Seq<LineV>,
    es: Seq<(Seq<char>, Seq<char>)>,
)
    requires
        trailing_section(base, sec, kvs),
        keys_sorted(es),
        forall|i: int, j: int| 0 <= i < kvs.len() && 0 <= j < es.len() ==> !is_key(#[trigger] kvs[i], #[trigger] es[j].0),
    ensures
        set_all(base.push(canonical_header(sec)) + kvs, sec, es) == base.push(canonical_header(sec)) + kvs + kv_lines(
            es,
        ),
    decreases es.len(),
{
    let h = base.push(canonical_header(sec));
    if es.len() == 0 {
        assert(h + kvs + kv_lines(es) =~= h + kvs);
    } else {
        let rest = es.drop_last();
        assert forall|a: int, b: int| 0 <= a < b < rest.len() implies seq_lt(#[trigger] rest[a].0, #[trigger] rest[b].0) by {
            assert(seq_lt(es[a].0, es[b].0));
        }
        assert forall|i: int, j: int| 0 <= i < kvs.len() && 0 <= j < rest.len() implies !is_key(
            #[trigger] kvs[i],
            #[trigger] rest[j].0,
        ) by {
            assert(rest[j] == es[j]);
        }
        lemma_set_all_appends(base, sec, kvs, rest);
        let kvs2 = kvs + kv_lines(rest);
        let (k, v) = es.last();
        assert forall|i: int| 0 <= i < kvs2.len() implies #[trigger] kvs2[i] is KeyValue by {
            if i >= kvs.len() {
                assert(kvs2[i] == canonical_kv(rest[i - kvs.len()].0, rest[i - kvs.len()].1));
            }
        }
        assert forall|i: int| 0 <= i < kvs2.len() implies !is_key(#[trigger] kvs2[i], k) by {
            if i < kvs.len() {
                assert(kvs2[i] == kvs[i]);
                assert(!is_key(kvs[i], es[es.len() - 1].0));
            } else {
                let j = i - kvs.len();
                assert(kvs2[i] == canonical_kv(rest[j].0, rest[j].1));
                assert(seq_lt(es[j].0, es[es.len() - 1].0));
                crate::str_map::lemma_seq_lt_irrefl(k);
            }
        }
        assert(h + kvs2 =~= h + kvs + kv_lines(rest));
        lemma_set_appends(base, sec, kvs2, k, v);
        assert(kvs2.push(canonical_kv(k, v)) =~= kvs + kv_lines(es));
    }
}

/// Inserting a run of sorted keys into an empty map, in order, rebuilds it.
proof fn lemma_options_rebuilt(t: Seq<char>, d: Seq<char>, es: Seq<(Seq<char>, Seq<char>)>)
    requires
        keys_sorted(es),
        forall|i: int| 0 <= i < es.len() ==> #[trigger] es[i].0 != "type"@ && es[i].0 != "display_name"@,
    ensures
        options_from_entries(seq![("type"@, t), ("display_name"@, d)] + es) == es,
    decreases es.len(),
{
    let pre = seq![("type"@, t), ("display_name"@, d)];
    if es.len() == 0 {
        let empty = Seq::<(Seq<char>, Seq<char>)>::empty();
        assert(es =~= empty);
        assert(pre + es =~= pre);
        assert(pre.drop_last() =~= seq![("type"@, t)]);
        assert(pre.last() == ("display_name"@, d));
        assert(options_from_entries(pre) == options_from_entries(seq![("type"@, t)]));
        assert(seq![("type"@, t)].drop_last() =~= empty);
        assert(options_from_entries(seq![("type"@, t)]) == options_from_entries(empty));
    } else {
        let rest = es.drop_last();
        assert forall|a: int, b: int| 0 <= a < b < rest.len() implies seq_lt(#[trigger] rest[a].0, #[trigger] rest[b].0) by {
            assert(seq_lt(es[a].0, es[b].0));
        }
        assert forall|i: int| 0 <= i < rest.len() implies #[trigger] rest[i].0 != "type"@ && rest[i].0
            != "display_name"@ by {
            assert(rest[i] == es[i]);
        }
        lemma_options_rebuilt(t, d, rest);
        assert((pre + es).drop_last() =~= pre + rest);
        assert((pre + es).last() == es.last());
        let (k, v) = es.last();
        assert(es[es.len() - 1].0 != "type"@);
        assert(options_from_entries(pre + es) == spec_insert(options_from_entries(pre + rest), k, v));
        assert(lower_bound_at(rest, k, rest.len() as int)) by {
            assert forall|j: int| 0 <= j < rest.len() implies seq_lt(#[trigger] rest[j].0, k) by {
                assert(seq_lt(es[j].0, es[es.len() - 1].0));
            }
        }
        lemma_lower_bound_unique(rest, k, rest.len() as int);
        assert(spec_insert(rest, k, v) =~= es);
    }
}

/// After a source's section is rewritten, reading it gives back exactly
/// what was written: its display name, its kind's tag and its options
/// (none of which may be `type` or `display_name`), provided the document
/// held at most one section of that name.
pub proof fn law_rewritten_source_reads_back(ls: Seq<LineV>, d: SourceDefV, has_secret: bool)
    requires
        at_most_one_section(ls, d.name),
        keys_sorted(d.options),
        forall|i: int|
            0 <= i < d.options.len() ==> #[trigger] d.options[i].0 != "type"@ && d.options[i].0 != "display_name"@,
    ensures
        section_metadata(write_source_section(ls, d), d.name, has_secret) == (SourceMetaV {
            name: d.name,
            display_name: d.display_name,
            kind: kind_tag(d.kind),
            options: d.options,
            has_secret,
        }),
{
    reveal_strlit("type");
    reveal_strlit("display_name");
    let name = d.name;
    let p = spec_remove_section(ls, name);
    lemma_removed_has_no_header(ls, name);
    let base = with_separator(p);
    assert(header_index(base, name) is None) by {
        assert forall|j: int| 0 <= j < base.len() implies !is_header(#[trigger] base[j], name) by {
            if j < p.len() {
                assert(base[j] == p[j]);
                lemma_no_header(p, name, j);
            }
        }
    }
    let hd = canonical_header(name);
    let kt = canonical_kv("type"@, kind_tag(d.kind));
    let kd = canonical_kv("display_name"@, d.display_name);
    let l1 = spec_set(p, name, "type"@, kind_tag(d.kind));
    assert(l1 == base.push(hd).push(kt));
    assert(l1 =~= base.push(hd) + seq![kt]);
    assert("display_name"@ != "type"@) by {
        assert("display_name"@.len() != "type"@.len());
    }
    lemma_set_appends(base, name, seq![kt], "display_name"@, d.display_name);
    let kvs = seq![kt, kd];
    assert(seq![kt].push(kd) =~= kvs);
    assert forall|i: int, j: int| 0 <= i < kvs.len() && 0 <= j < d.options.len() implies !is_key(
        #[trigger] kvs[i],
        #[trigger] d.options[j].0,
    ) by {}
    lemma_set_all_appends(base, name, kvs, d.options);
    let out = write_source_section(ls, d);
    assert(out == base.push(hd) + kvs + kv_lines(d.options));
    let m = base.len() as int;
    assert(out[m] == hd);
    assert forall|j: int| 0 <= j < m implies !is_header(#[trigger] out[j], name) by {
        assert(out[j] == base[j]);
        lemma_no_header(base, name, j);
    }
    assert(first_header_at(out, name, m));
    lemma_header_index_is(out, name, m);
    assert forall|j: int| m + 1 <= j < out.len() implies !(#[trigger] out[j] is Section) by {
        if j >= m + 3 {
            let q = j - m - 3;
            assert(out[j] == canonical_kv(d.options[q].0, d.options[q].1));
        }
    }
    lemma_section_end_len(out, m + 1);
    let lo = m + 1;
    let hi = out.len() as int;
    assert(out[lo] == kt);
    assert(out[lo + 1] == kd);
    assert(first_key_at(out, lo, hi, "type"@, lo));
    lemma_key_index_is(out, lo, hi, "type"@, lo);
    assert(first_key_at(out, lo, hi, "display_name"@, lo + 1));
    lemma_key_index_is(out, lo, hi, "display_name"@, lo + 1);
    assert(spec_get(out, name, "type"@) == Some(kind_tag(d.kind)));
    assert(spec_get(out, name, "display_name"@) == Some(d.display_name));
    assert(out.subrange(lo, hi) =~= kvs + kv_lines(d.options));
    lemma_kv_pairs_concat(kvs, kv_lines(d.options));
    lemma_kv_pairs_lines(d.options);
    assert(kv_pairs(kvs) =~= seq![("type"@, kind_tag(d.kind)), ("display_name"@, d.display_name)]) by {
        assert(kvs =~= seq![kt] + seq![kd]);
        lemma_kv_pairs_concat(seq![kt], seq![kd]);
        lemma_kv_pairs_one("type"@, kind_tag(d.kind));
        lemma_kv_pairs_one("display_name"@, d.display_name);
    }
    assert(spec_section_entries(out, name) == seq![("type"@, kind_tag(d.kind)), ("display_name"@, d.display_name)]
        + d.options);
    lemma_options_rebuilt(kind_tag(d.kind), d.display_name, d.options);
}

// ---------------------------------------------------------------------------
// Through the text: the rewritten `sources.conf` parses back.
// ---------------------------------------------------------------------------

/// Every line reparses on its own.
pub open spec fn all_reparse(ls: Seq<LineV>) -> bool {
    forall|i: int| 0 <= i < ls.len() ==> reparses(#[trigger] ls[i])
}

proof fn lemma_set_reparses(ls: Seq<LineV>, sec: Seq<char>, key: Seq<char>, value: Seq<char>)
    requires
        all_reparse(ls),
        key_text_ok(key),
        value_text_ok(value),
        name_text_ok(sec),
    ensures
        all_reparse(spec_set(ls, sec, key, value)),
{
    lemma_kv_reparses(key, value);
    lemma_header_reparses(sec);
    lemma_blank_reparses();
    let kv = canonical_kv(key, value);
    match header_index(ls, sec) {
        Some(h) => {
            let lo = h + 1;
            crate::rclone_config::lemma_section_end_props(ls, lo);
            let hi = section_end(ls, lo);
            match key_index(ls, lo, hi, key) {
                Some(k) => {
                    let out = ls.update(k, kv);
                    assert forall|i: int| 0 <= i < out.len() implies reparses(#[trigger] out[i]) by {
                        if i != k {
                            assert(out[i] == ls[i]);
                        }
                    }
                },
                None => {
                    crate::rclone_config::lemma_insert_pos_props(ls, lo, hi);
                    let at = insert_pos(ls, lo, hi);
                    let out = ls.insert(at, kv);
                    assert forall|i: int| 0 <= i < out.len() implies reparses(#[trigger] out[i]) by {
                        if i < at {
                            assert(out[i] == ls[i]);
                        } else if i > at {
                            assert(out[i] == ls[i - 1]);
                        }
                    }
                },
            }
        },
        None => {
            let b = with_separator(ls);
            let out = b.push(canonical_header(sec)).push(kv);
            assert forall|i: int| 0 <= i < out.len() implies reparses(#[trigger] out[i]) by {
                if i < ls.len() {
                    assert(out[i] == ls[i]);
                }
            }
        },
    }
}

proof fn lemma_remove_reparses(ls: Seq<LineV>, sec: Seq<char>)
    requires
        all_reparse(ls),
    ensures
        all_reparse(spec_remove_section(ls, sec)),
{
    match header_index(ls, sec) {
        Some(h) => {
            crate::rclone_config::lemma_section_end_props(ls, h + 1);
            let hi = section_end(ls, h + 1);
            let js = ls.subrange(0, h) + ls.subrange(hi, ls.len() as int);
            crate::config_laws::lemma_collapse_is_prefix(js);
            let out = crate::rclone_config::collapse_blanks(js);
            assert forall|i: int| 0 <= i < out.len() implies reparses(#[trigger] out[i]) by {
                assert(out[i] == js[i]);
                if i < h {
                    assert(js[i] == ls[i]);
                } else {
                    assert(js[i] == ls[i - h + hi]);
                }
            }
        },
        None => {},
    }
}

proof fn lemma_set_all_reparses(ls: Seq<LineV>, sec: Seq<char>, es: Seq<(Seq<char>, Seq<char>)>)
    requires
        all_reparse(ls),
        name_text_ok(sec),
        forall|i: int| 0 <= i < es.len() ==> key_text_ok(#[trigger] es[i].0) && value_text_ok(es[i].1),
    ensures
        all_reparse(set_all(ls, sec, es)),
    decreases es.len(),
{
    if es.len() > 0 {
        assert forall|i: int| 0 <= i < es.drop_last().len() implies key_text_ok(#[trigger] es.drop_last()[i].0)
            && value_text_ok(es.drop_last()[i].1) by {
            assert(es.drop_last()[i] == es[i]);
        }
        lemma_set_all_reparses(ls, sec, es.drop_last());
        assert(es.last() == es[es.len() - 1]);
        lemma_set_reparses(set_all(ls, sec, es.drop_last()), sec, es.last().0, es.last().1);
    }
}

/// What a source needs for its section to read back through the text:
/// a section name, display name, option keys and option values that each
/// read back as themselves.
pub open spec fn text_safe(d: SourceDefV) -> bool {
    &&& name_text_ok(d.name)
    &&& value_text_ok(d.display_name)
    &&& forall|i: int| 0 <= i < d.options.len() ==> key_text_ok(#[trigger] d.options[i].0) && value_text_ok(d.options[i].1)
}

/// What `apply` writes to `sources.conf` for a source is what the next
/// `load` reads: rewrite the source's section in the parsed file, render
/// the text, parse it again, and the source's display name, kind and
/// options come back as written. This holds for a file that parses, ends
/// with a newline and has at most one section of that name, and for a
/// source whose text reads back as itself (see [`text_safe`]) and whose
/// options use neither `type` nor `display_name`.
pub proof fn law_written_source_loads_back(s: Seq<char>, d: SourceDefV, has_secret: bool)
    requires
        spec_parse(s) is Ok,
        s.len() == 0 || s.last() == '\n',
        at_most_one_section(spec_parse(s)->Ok_0, d.name),
        keys_sorted(d.options),
        forall|i: int|
            0 <= i < d.options.len() ==> #[trigger] d.options[i].0 != "type"@ && d.options[i].0 != "display_name"@,
        text_safe(d),
    ensures
        ({
            let written = write_source_section(spec_parse(s)->Ok_0, d);
            &&& spec_parse(render_lines(written)) == Ok::<Seq<LineV>, int>(written)
            &&& section_metadata(written, d.name, has_secret) == (SourceMetaV {
                name: d.name,
                display_name: d.display_name,
                kind: kind_tag(d.kind),
                options: d.options,
                has_secret,
            })
        }),
{
    let ls = spec_parse(s)->Ok_0;
    lemma_parsed_text_reparses(s);
    lemma_remove_reparses(ls, d.name);
    let p = spec_remove_section(ls, d.name);
    assert(key_text_ok("type"@)) by {
        reveal_strlit("type");
    }
    assert(key_text_ok("display_name"@)) by {
        reveal_strlit("display_name");
    }
    assert(value_text_ok(kind_tag(d.kind))) by {
        reveal_strlit("smb");
        reveal_strlit("drive");
        reveal_strlit("webdav");
        reveal_strlit("sftp");
        reveal_strlit("ftp");
        reveal_strlit("iclouddrive");
        let t = kind_tag(d.kind);
        assert(!t.contains('\n')) by {
            if t.contains('\n') {
                let i = choose|i: int| 0 <= i < t.len() && t[i] == '\n';
            }
        }
        assert(!t.contains('\r')) by {
            if t.contains('\r') {
                let i = choose|i: int| 0 <= i < t.len() && t[i] == '\r';
            }
        }
        assert(!is_ws(t[0]));
        assert(!is_ws(t[t.len() - 1]));
        crate::text::lemma_trim_is(t, 0, t.len() as int);
        assert(t.subrange(0, t.len() as int) =~= t);
    }
    lemma_set_reparses(p, d.name, "type"@, kind_tag(d.kind));
    let p1 = spec_set(p, d.name, "type"@, kind_tag(d.kind));
    lemma_set_reparses(p1, d.name, "display_name"@, d.display_name);
    let p2 = spec_set(p1, d.name, "display_name"@, d.display_name);
    lemma_set_all_reparses(p2, d.name, d.options);
    let written = write_source_section(ls, d);
    assert(written == set_all(p2, d.name, d.options));
    law_render_parse_round_trip(written);
    law_rewritten_source_reads_back(ls, d, has_secret);
}

/// A source written by apply loads back as written: its section in
/// `sources.conf` reads back its display name, kind and options, and its
/// secret flag, read from the credential blob written beside it, is set
/// exactly when the source has a stored secret of one of its kind's keys.
pub proof fn law_applied_source_loads_back(
    s: Seq<char>,
    d: SourceDefV,
    secrets: Seq<(Seq<char>, Seq<char>)>,
)
    requires
        spec_parse(s) is Ok,
        s.len() == 0 || s.last() == '\n',
        at_most_one_section(spec_parse(s)->Ok_0, d.name),
        keys_sorted(d.options),
        forall|i: int|
            0 <= i < d.options.len() ==> #[trigger] d.options[i].0 != "type"@ && d.options[i].0 != "display_name"@,
        text_safe(d),
        keys_sorted(secrets),
        crate::blob_laws::blob_encodable(d, secrets),
    ensures
        ({
            let written = write_source_section(spec_parse(s)->Ok_0, d);
            let flag = crate::backend::spec_extract_secrets(
                crate::backend::credential_blob(d, secrets),
                crate::backend::secret_keys(d.kind),
            ).len() > 0;
            &&& spec_parse(render_lines(written)) == Ok::<Seq<LineV>, int>(written)
            &&& section_metadata(written, d.name, flag) == (SourceMetaV {
                name: d.name,
                display_name: d.display_name,
                kind: kind_tag(d.kind),
                options: d.options,
                has_secret: flag,
            })
            &&& flag <==> exists|k: Seq<char>|
                crate::backend::secret_keys(d.kind).contains(k) && #[trigger] crate::str_map::lookup(secrets, k) is Some
        }),
{
    let flag = crate::backend::spec_extract_secrets(
        crate::backend::credential_blob(d, secrets),
        crate::backend::secret_keys(d.kind),
    ).len() > 0;
    law_written_source_loads_back(s, d, flag);
    crate::blob_laws::law_blob_has_secret(d, secrets);
}

} // verus!
