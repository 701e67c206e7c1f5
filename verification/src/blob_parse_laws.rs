//! A credential blob is a complete rclone remote section: it parses, and
//! its `type` and every option read back as written.
use crate::backend::{credential_blob, kv_text, options_text, secret_keys, secrets_text};
use crate::rclone_config::{
    canonical_header, canonical_kv, ends_nl, first_header_at, first_key_at, gap, is_key_char, kv_value,
    lemma_header_index_is, lemma_key_index_is, lemma_section_end_len, line_text, render_lines, spec_get,
    spec_parse, LineV,
};
use crate::source::{kind_tag, SourceDefV, SourceKind};
use crate::str_map::{keys_sorted, lemma_seq_lt_irrefl, lookup};
use crate::text::{is_ws, lemma_trim_is};
use crate::text_laws::{
    key_text_ok, law_render_parse_round_trip, lemma_header_reparses, lemma_kv_reparses, name_text_ok, reparses,
    value_text_ok,
};
use vstd::prelude::*;

verus! {

/// The option lines of a blob.
pub open spec fn opt_lines(es: Seq<(Seq<char>, Seq<char>)>) -> Seq<LineV>
    decreases es.len(),
{
    if es.len() == 0 {
        Seq::empty()
    } else {
        opt_lines(es.drop_last()).push(canonical_kv(es.last().0, es.last().1))
    }
}

/// The secret lines of a blob.
pub open spec fn sec_lines(keys: Seq<Seq<char>>, secrets: Seq<(Seq<char>, Seq<char>)>) -> Seq<LineV>
    decreases keys.len(),
{
    if keys.len() == 0 {
        Seq::empty()
    } else {
        match lookup(secrets, keys.last()) {
            Some(v) => sec_lines(keys.drop_last(), secrets).push(canonical_kv(keys.last(), v)),
            None => sec_lines(keys.drop_last(), secrets),
        }
    }
}

/// The lines a credential blob is made of.
pub open spec fn blob_lines(d: SourceDefV, secrets: Seq<(Seq<char>, Seq<char>)>) -> Seq<LineV> {
    seq![canonical_header(d.name), canonical_kv("type"@, kind_tag(d.kind))] + opt_lines(d.options) + sec_lines(
        secret_keys(d.kind),
        secrets,
    )
}

/// Every line ends with a newline.
pub open spec fn all_nl(ls: Seq<LineV>) -> bool {
    forall|i: int| 0 <= i < ls.len() ==> ends_nl(#[trigger] line_text(ls[i]))
}

proof fn lemma_kv_text(k: Seq<char>, v: Seq<char>)
    ensures
        line_text(canonical_kv(k, v)) == kv_text(k, v),
        ends_nl(line_text(canonical_kv(k, v))),
{
    reveal_strlit(" = ");
    reveal_strlit("\n");
    assert(line_text(canonical_kv(k, v)) =~= kv_text(k, v));
}

proof fn lemma_render_push(a: Seq<LineV>, l: LineV)
    requires
        all_nl(a),
    ensures
        render_lines(a.push(l)) == render_lines(a) + line_text(l),
{
    assert(a.push(l).drop_last() =~= a);
    if a.len() > 0 {
        assert(ends_nl(line_text(a[a.len() - 1])));
    }
    assert(gap(a) =~= Seq::<char>::empty());
    assert(render_lines(a) + Seq::<char>::empty() =~= render_lines(a));
}

/// Rendering two pieces, the first ending each line with a newline.
proof fn lemma_render_concat(a: Seq<LineV>, b: Seq<LineV>)
    requires
        all_nl(a),
        all_nl(b),
    ensures
        render_lines(a + b) == render_lines(a) + render_lines(b),
        all_nl(a + b),
    decreases b.len(),
{
    assert forall|i: int| 0 <= i < (a + b).len() implies ends_nl(#[trigger] line_text((a + b)[i])) by {
        if i < a.len() {
            assert((a + b)[i] == a[i]);
        } else {
            assert((a + b)[i] == b[i - a.len()]);
        }
    }
    if b.len() == 0 {
        assert(a + b =~= a);
        assert(render_lines(a) + Seq::<char>::empty() =~= render_lines(a));
    } else {
        let p = b.drop_last();
        assert(all_nl(p)) by {
            assert forall|i: int| 0 <= i < p.len() implies ends_nl(#[trigger] line_text(p[i])) by {
                assert(p[i] == b[i]);
            }
        }
        lemma_render_concat(a, p);
        assert(a + b =~= (a + p).push(b.last()));
        lemma_render_push(a + p, b.last());
        assert(b =~= p.push(b.last()));
        lemma_render_push(p, b.last());
        assert(render_lines(a) + render_lines(p) + line_text(b.last()) =~= render_lines(a) + (render_lines(p)
            + line_text(b.last())));
    }
}

proof fn lemma_opt_lines(es: Seq<(Seq<char>, Seq<char>)>)
    ensures
        all_nl(opt_lines(es)),
        render_lines(opt_lines(es)) == options_text(es),
        opt_lines(es).len() == es.len(),
        forall|i: int| 0 <= i < es.len() ==> #[trigger] opt_lines(es)[i] == canonical_kv(es[i].0, es[i].1),
    decreases es.len(),
{
    if es.len() > 0 {
        let p = es.drop_last();
        lemma_opt_lines(p);
        lemma_kv_text(es.last().0, es.last().1);
        lemma_render_push(opt_lines(p), canonical_kv(es.last().0, es.last().1));
        let o = opt_lines(es);
        assert forall|i: int| 0 <= i < o.len() implies ends_nl(#[trigger] line_text(o[i])) by {
            if i < p.len() {
                assert(o[i] == opt_lines(p)[i]);
            }
        }
        assert forall|i: int| 0 <= i < es.len() implies #[trigger] opt_lines(es)[i] == canonical_kv(es[i].0, es[i].1) by {
            if i < p.len() {
                assert(o[i] == opt_lines(p)[i]);
                assert(p[i] == es[i]);
            }
        }
    } else {
        assert(render_lines(Seq::<LineV>::empty()) == Seq::<char>::empty());
    }
}

proof fn lemma_sec_lines(keys: Seq<Seq<char>>, secrets: Seq<(Seq<char>, Seq<char>)>)
    ensures
        all_nl(sec_lines(keys, secrets)),
        render_lines(sec_lines(keys, secrets)) == secrets_text(keys, secrets),
        forall|i: int| 0 <= i < sec_lines(keys, secrets).len() ==> #[trigger] sec_lines(keys, secrets)[i] is KeyValue
            && exists|j: int, q: int|
            0 <= j < keys.len() && 0 <= q < secrets.len() && sec_lines(keys, secrets)[i] == canonical_kv(
                keys[j],
                secrets[q].1,
            ),
    decreases keys.len(),
{
    if keys.len() > 0 {
        let p = keys.drop_last();
        lemma_sec_lines(p, secrets);
        let s0 = sec_lines(p, secrets);
        match lookup(secrets, keys.last()) {
            Some(v) => {
                let l = canonical_kv(keys.last(), v);
                lemma_kv_text(keys.last(), v);
                lemma_render_push(s0, l);
                let q = crate::str_map::lower_bound(secrets, keys.last());
                assert(v == secrets[q].1);
                let o = sec_lines(keys, secrets);
                assert forall|i: int| 0 <= i < o.len() implies ends_nl(#[trigger] line_text(o[i])) by {
                    if i < s0.len() {
                        assert(o[i] == s0[i]);
                    }
                }
                assert forall|i: int| 0 <= i < o.len() implies #[trigger] o[i] is KeyValue && exists|j: int, q2: int|
                    0 <= j < keys.len() && 0 <= q2 < secrets.len() && o[i] == canonical_kv(keys[j], secrets[q2].1) by {
                    if i < s0.len() {
                        assert(o[i] == s0[i]);
                        let (j, q2) = choose|j: int, q2: int|
                            0 <= j < p.len() && 0 <= q2 < secrets.len() && s0[i] == canonical_kv(p[j], secrets[q2].1);
                        assert(keys[j] == p[j]);
                    } else {
                        assert(o[i] == l);
                        assert(keys[keys.len() - 1] == keys.last());
                    }
                }
            },
            None => {
                assert(secrets_text(keys, secrets) =~= secrets_text(p, secrets));
                let o = sec_lines(keys, secrets);
                assert forall|i: int| 0 <= i < o.len() implies #[trigger] o[i] is KeyValue && exists|j: int, q2: int|
                    0 <= j < keys.len() && 0 <= q2 < secrets.len() && o[i] == canonical_kv(keys[j], secrets[q2].1) by {
                    let (j, q2) = choose|j: int, q2: int|
                        0 <= j < p.len() && 0 <= q2 < secrets.len() && s0[i] == canonical_kv(p[j], secrets[q2].1);
                    assert(keys[j] == p[j]);
                }
            },
        }
    } else {
        assert(render_lines(Seq::<LineV>::empty()) == Seq::<char>::empty());
    }
}

/// What a blob needs to parse back as written: a section name, option keys
/// and values, and secret values that each read back as themselves, option
/// keys other than `type`, and strictly ascending option keys.
pub open spec fn blob_readable(d: SourceDefV, secrets: Seq<(Seq<char>, Seq<char>)>) -> bool {
    &&& name_text_ok(d.name)
    &&& keys_sorted(d.options)
    &&& forall|i: int| 0 <= i < d.options.len() ==> key_text_ok(#[trigger] d.options[i].0) && value_text_ok(
        d.options[i].1,
    ) && d.options[i].0 != "type"@
    &&& forall|q: int| 0 <= q < secrets.len() ==> value_text_ok(#[trigger] secrets[q].1)
}

proof fn lemma_word_key(t: Seq<char>)
    requires
        t.len() > 0,
        forall|i: int| 0 <= i < t.len() ==> ('a' <= #[trigger] t[i] && t[i] <= 'z') || t[i] == '_',
    ensures
        key_text_ok(t),
{
    assert forall|i: int| 0 <= i < t.len() implies is_key_char(#[trigger] t[i]) by {
        assert(('a' <= t[i] && t[i] <= 'z') || t[i] == '_');
    }
}

proof fn lemma_words(kind: SourceKind)
    ensures
        forall|j: int| 0 <= j < secret_keys(kind).len() ==> key_text_ok(#[trigger] secret_keys(kind)[j]),
        key_text_ok("type"@),
        value_text_ok(kind_tag(kind)),
{
    reveal_strlit("pass");
    reveal_strlit("token");
    reveal_strlit("client_secret");
    reveal_strlit("password");
    reveal_strlit("trust_token");
    reveal_strlit("type");
    reveal_strlit("smb");
    reveal_strlit("drive");
    reveal_strlit("webdav");
    reveal_strlit("sftp");
    reveal_strlit("ftp");
    reveal_strlit("iclouddrive");
    let ks = secret_keys(kind);
    assert forall|j: int| 0 <= j < ks.len() implies key_text_ok(#[trigger] ks[j]) by {
        lemma_word_key(ks[j]);
    }
    lemma_word_key("type"@);
    let t = kind_tag(kind);
    assert(!is_ws(t[0]) && !is_ws(t[t.len() - 1]));
    lemma_trim_is(t, 0, t.len() as int);
    assert(t.subrange(0, t.len() as int) =~= t);
    if t.contains('\n') {
        let i = choose|i: int| 0 <= i < t.len() && t[i] == '\n';
    }
    if t.contains('\r') {
        let i = choose|i: int| 0 <= i < t.len() && t[i] == '\r';
    }
}

proof fn lemma_head_text(name: Seq<char>, tag: Seq<char>)
    ensures
        line_text(canonical_header(name)) + line_text(canonical_kv("type"@, tag)) == "["@ + name + "]\ntype = "@ + tag
            + "\n"@,
{
    reveal_strlit("[");
    reveal_strlit("]\ntype = ");
    reveal_strlit("\n");
    reveal_strlit("type");
    reveal_strlit(" = ");
    assert(line_text(canonical_header(name)) + line_text(canonical_kv("type"@, tag)) =~= "["@ + name + "]\ntype = "@
        + tag + "\n"@);
}

proof fn lemma_blob_render(d: SourceDefV, secrets: Seq<(Seq<char>, Seq<char>)>)
    ensures
        render_lines(blob_lines(d, secrets)) == credential_blob(d, secrets),
{
    let h = canonical_header(d.name);
    let t = canonical_kv("type"@, kind_tag(d.kind));
    let head = seq![h, t];
    let ol = opt_lines(d.options);
    let sl = sec_lines(secret_keys(d.kind), secrets);
    lemma_opt_lines(d.options);
    lemma_sec_lines(secret_keys(d.kind), secrets);
    lemma_kv_text("type"@, kind_tag(d.kind));
    assert(ends_nl(line_text(h))) by {
        assert(line_text(h) =~= seq!['['] + d.name + seq![']', '\n']);
    }
    assert(all_nl(head)) by {
        assert forall|q: int| 0 <= q < head.len() implies ends_nl(#[trigger] line_text(head[q])) by {
            if q == 0 {
                assert(head[q] == h);
            } else {
                assert(head[q] == t);
            }
        }
    }
    assert(render_lines(head) == line_text(h) + line_text(t)) by {
        assert(all_nl(seq![h])) by {
            assert(seq![h][0] == h);
        }
        assert(seq![h].push(t) =~= head);
        lemma_render_push(seq![h], t);
        assert(seq![h].drop_last() =~= Seq::<LineV>::empty());
        lemma_render_single_here(h);
    }
    lemma_render_concat(head, ol);
    lemma_render_concat(head + ol, sl);
    lemma_head_text(d.name, kind_tag(d.kind));
    assert(blob_lines(d, secrets) == head + ol + sl);
    assert(render_lines(blob_lines(d, secrets)) == line_text(h) + line_text(t) + options_text(d.options) + secrets_text(
        secret_keys(d.kind),
        secrets,
    ));
}

proof fn lemma_render_single_here(l: LineV)
    ensures
        render_lines(seq![l]) == line_text(l),
{
    crate::rclone_config::lemma_render_single(l);
}

proof fn lemma_blob_reparses(d: SourceDefV, secrets: Seq<(Seq<char>, Seq<char>)>)
    requires
        blob_readable(d, secrets),
    ensures
        forall|q: int| 0 <= q < blob_lines(d, secrets).len() ==> reparses(#[trigger] blob_lines(d, secrets)[q]),
{
    lemma_words(d.kind);
    let h = canonical_header(d.name);
    let t = canonical_kv("type"@, kind_tag(d.kind));
    let ol = opt_lines(d.options);
    let sl = sec_lines(secret_keys(d.kind), secrets);
    lemma_opt_lines(d.options);
    lemma_sec_lines(secret_keys(d.kind), secrets);
    lemma_header_reparses(d.name);
    lemma_kv_reparses("type"@, kind_tag(d.kind));
    let ls = blob_lines(d, secrets);
    assert forall|q: int| 0 <= q < ls.len() implies reparses(#[trigger] ls[q]) by {
        if q == 0 {
            assert(ls[q] == h);
        } else if q == 1 {
            assert(ls[q] == t);
        } else if q < 2 + ol.len() {
            assert(ls[q] == ol[q - 2]);
            let o = q - 2;
            assert(ol[o] == canonical_kv(d.options[o].0, d.options[o].1));
            lemma_kv_reparses(d.options[o].0, d.options[o].1);
        } else {
            let r = q - 2 - ol.len();
            assert(ls[q] == sl[r]);
            let (j, qq) = choose|j: int, qq: int|
                0 <= j < secret_keys(d.kind).len() && 0 <= qq < secrets.len() && sl[r] == canonical_kv(
                    secret_keys(d.kind)[j],
                    secrets[qq].1,
                );
            lemma_kv_reparses(secret_keys(d.kind)[j], secrets[qq].1);
        }
    }
}

proof fn lemma_blob_reads(d: SourceDefV, secrets: Seq<(Seq<char>, Seq<char>)>, i: int)
    requires
        blob_readable(d, secrets),
        0 <= i < d.options.len(),
    ensures
        spec_get(blob_lines(d, secrets), d.name, "type"@) == Some(kind_tag(d.kind)),
        spec_get(blob_lines(d, secrets), d.name, d.options[i].0) == Some(d.options[i].1),
{
    reveal_strlit("type");
    let h = canonical_header(d.name);
    let t = canonical_kv("type"@, kind_tag(d.kind));
    let ol = opt_lines(d.options);
    let sl = sec_lines(secret_keys(d.kind), secrets);
    lemma_opt_lines(d.options);
    lemma_sec_lines(secret_keys(d.kind), secrets);
    let ls = blob_lines(d, secrets);
    assert(ls[0] == h);
    assert(first_header_at(ls, d.name, 0));
    lemma_header_index_is(ls, d.name, 0);
    assert forall|q: int| 1 <= q < ls.len() implies !(#[trigger] ls[q] is Section) by {
        if q == 1 {
            assert(ls[q] == t);
        } else if q < 2 + ol.len() {
            assert(ls[q] == ol[q - 2]);
        } else {
            assert(ls[q] == sl[q - 2 - ol.len()]);
        }
    }
    lemma_section_end_len(ls, 1);
    assert(ls[1] == t);
    assert(first_key_at(ls, 1, ls.len() as int, "type"@, 1));
    lemma_key_index_is(ls, 1, ls.len() as int, "type"@, 1);
    let k = d.options[i].0;
    assert(ls[2 + i] == ol[i]);
    assert(ls[2 + i] == canonical_kv(k, d.options[i].1));
    assert forall|j: int| 1 <= j < 2 + i implies !crate::rclone_config::is_key(#[trigger] ls[j], k) by {
        if j == 1 {
            assert(ls[j] == t);
        } else {
            assert(ls[j] == ol[j - 2]);
            assert(crate::str_map::seq_lt(d.options[j - 2].0, d.options[i].0));
            if d.options[j - 2].0 == k {
                lemma_seq_lt_irrefl(k);
            }
        }
    }
    assert(first_key_at(ls, 1, ls.len() as int, k, 2 + i));
    lemma_key_index_is(ls, 1, ls.len() as int, k, 2 + i);
}

/// A freshly written credential blob parses, and its `type` and every
/// option read back as written.
pub proof fn law_blob_options_read_back(d: SourceDefV, secrets: Seq<(Seq<char>, Seq<char>)>, i: int)
    requires
        blob_readable(d, secrets),
        0 <= i < d.options.len(),
    ensures
        spec_parse(credential_blob(d, secrets)) == Ok::<Seq<LineV>, int>(blob_lines(d, secrets)),
        spec_get(blob_lines(d, secrets), d.name, "type"@) == Some(kind_tag(d.kind)),
        spec_get(blob_lines(d, secrets), d.name, d.options[i].0) == Some(d.options[i].1),
{
    lemma_blob_render(d, secrets);
    lemma_blob_reparses(d, secrets);
    law_render_parse_round_trip(blob_lines(d, secrets));
    lemma_blob_reads(d, secrets, i);
}

} // verus!
