//! An admin override written by the library reads back as the pair that
//! was stored.
use crate::backend::{get_or_empty, override_blob, override_name};
use crate::rclone_config::{
    canonical_header, canonical_kv, first_header_at, first_key_at, is_key_char, lemma_header_index_is,
    lemma_key_index_is, lemma_render_single, line_text, next_section_at, render_lines, spec_get, spec_parse, LineV,
};
use crate::source::{kind_tag, SourceKind};
use crate::text::{is_ws, lemma_trim_is, trim};
use crate::text_laws::{key_text_ok, lemma_header_reparses, lemma_kv_reparses, law_render_parse_round_trip, name_text_ok, value_text_ok};
use vstd::prelude::*;

verus! {

/// Lowercase ASCII letters and `_`.
spec fn plain_word(t: Seq<char>) -> bool {
    forall|i: int| 0 <= i < t.len() ==> ('a' <= #[trigger] t[i] && t[i] <= 'z') || t[i] == '_'
}

proof fn lemma_plain_word_key(t: Seq<char>)
    requires
        t.len() > 0,
        plain_word(t),
    ensures
        key_text_ok(t),
{
    assert forall|i: int| 0 <= i < t.len() implies is_key_char(#[trigger] t[i]) by {
        assert(('a' <= t[i] && t[i] <= 'z') || t[i] == '_');
    }
}

proof fn lemma_plain_word_name(t: Seq<char>)
    requires
        t.len() > 0,
        plain_word(t),
    ensures
        name_text_ok(t),
{
    assert(!is_ws(t[0]) && !is_ws(t[t.len() - 1])) by {
        assert(('a' <= t[0] && t[0] <= 'z') || t[0] == '_');
        assert(('a' <= t[t.len() - 1] && t[t.len() - 1] <= 'z') || t[t.len() - 1] == '_');
    }
    lemma_trim_is(t, 0, t.len() as int);
    assert(t.subrange(0, t.len() as int) =~= t);
    if t.contains(']') {
        let i = choose|i: int| 0 <= i < t.len() && t[i] == ']';
    }
    if t.contains('\n') {
        let i = choose|i: int| 0 <= i < t.len() && t[i] == '\n';
    }
}

proof fn lemma_override_name_plain(k: SourceKind)
    ensures
        override_name(k).len() > 0,
        plain_word(override_name(k)),
{
    reveal_strlit("__provider_override_");
    reveal_strlit("smb");
    reveal_strlit("drive");
    reveal_strlit("webdav");
    reveal_strlit("sftp");
    reveal_strlit("ftp");
    reveal_strlit("iclouddrive");
    let n = override_name(k);
    let p = "__provider_override_"@;
    let t = kind_tag(k);
    assert forall|i: int| 0 <= i < n.len() implies ('a' <= #[trigger] n[i] && n[i] <= 'z') || n[i] == '_' by {
        if i < p.len() {
            assert(n[i] == p[i]);
        } else {
            assert(n[i] == t[i - p.len()]);
        }
    }
}

proof fn lemma_render_three(h: LineV, l1: LineV, l2: LineV)
    requires
        crate::rclone_config::ends_nl(line_text(h)),
        crate::rclone_config::ends_nl(line_text(l1)),
    ensures
        render_lines(seq![h, l1, l2]) == line_text(h) + line_text(l1) + line_text(l2),
{
    let ls = seq![h, l1, l2];
    let two = seq![h, l1];
    assert(ls.drop_last() =~= two);
    assert(two.drop_last() =~= seq![h]);
    lemma_render_single(h);
    assert(two.drop_last().last() == h);
    assert(render_lines(two) == render_lines(seq![h]) + crate::rclone_config::gap(seq![h]) + line_text(l1));
    assert(render_lines(two) =~= line_text(h) + line_text(l1));
    assert(ls.drop_last().last() == l1);
    assert(render_lines(ls) =~= line_text(h) + line_text(l1) + line_text(l2));
}

proof fn lemma_read_two(name: Seq<char>, cid: Seq<char>, id: Seq<char>, csec: Seq<char>, secret: Seq<char>)
    requires
        cid != csec,
    ensures
        spec_get(seq![canonical_header(name), canonical_kv(cid, id), canonical_kv(csec, secret)], name, cid) == Some(id),
        spec_get(seq![canonical_header(name), canonical_kv(cid, id), canonical_kv(csec, secret)], name, csec) == Some(
            secret,
        ),
{
    let ls = seq![canonical_header(name), canonical_kv(cid, id), canonical_kv(csec, secret)];
    assert(first_header_at(ls, name, 0));
    lemma_header_index_is(ls, name, 0);
    crate::rclone_config::lemma_section_end_len(ls, 1);
    assert(first_key_at(ls, 1, 3, cid, 1));
    lemma_key_index_is(ls, 1, 3, cid, 1);
    assert(first_key_at(ls, 1, 3, csec, 2));
    lemma_key_index_is(ls, 1, 3, csec, 2);
}

proof fn lemma_blob_is_three_lines(k: SourceKind, id: Seq<char>, secret: Seq<char>)
    ensures
        override_blob(k, id, secret) == line_text(canonical_header(override_name(k))) + line_text(
            canonical_kv("client_id"@, id),
        ) + line_text(canonical_kv("client_secret"@, secret)),
{
    reveal_strlit("[");
    reveal_strlit("]\nclient_id = ");
    reveal_strlit("\nclient_secret = ");
    reveal_strlit("\n");
    reveal_strlit("client_id");
    reveal_strlit("client_secret");
    assert(override_blob(k, id, secret) =~= line_text(canonical_header(override_name(k))) + line_text(
        canonical_kv("client_id"@, id),
    ) + line_text(canonical_kv("client_secret"@, secret)));
}

/// A stored admin override reads back as the pair stored: the blob parses,
/// and its `client_id` and `client_secret` are the values written, for a
/// client id and secret that are single lines with nothing to trim.
pub proof fn law_override_round_trip(k: SourceKind, id: Seq<char>, secret: Seq<char>)
    requires
        value_text_ok(id),
        value_text_ok(secret),
    ensures
        spec_parse(override_blob(k, id, secret)) matches Ok(ls) && get_or_empty(ls, override_name(k), "client_id"@)
            == id && get_or_empty(ls, override_name(k), "client_secret"@) == secret,
{
    reveal_strlit("client_id");
    reveal_strlit("client_secret");
    let name = override_name(k);
    lemma_override_name_plain(k);
    lemma_plain_word_name(name);
    let cid = "client_id"@;
    let csec = "client_secret"@;
    assert(plain_word(cid) && plain_word(csec));
    lemma_plain_word_key(cid);
    lemma_plain_word_key(csec);
    let h = canonical_header(name);
    let l1 = canonical_kv(cid, id);
    let l2 = canonical_kv(csec, secret);
    lemma_header_reparses(name);
    lemma_kv_reparses(cid, id);
    lemma_kv_reparses(csec, secret);
    let ls = seq![h, l1, l2];
    assert forall|i: int| 0 <= i < ls.len() implies crate::text_laws::reparses(#[trigger] ls[i]) by {
        if i == 0 {
            assert(ls[i] == h);
        } else if i == 1 {
            assert(ls[i] == l1);
        } else {
            assert(ls[i] == l2);
        }
    }
    law_render_parse_round_trip(ls);
    lemma_render_three(h, l1, l2);
    lemma_blob_is_three_lines(k, id, secret);
    assert(cid.len() != csec.len());
    lemma_read_two(name, cid, id, csec, secret);
}

} // verus!
