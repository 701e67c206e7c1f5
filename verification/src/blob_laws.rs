//! The credential blob round trip: the secrets written into a source's
//! blob are exactly what reading the blob back finds.
use crate::backend::{
    law_merge_keeps_unrotated, merged_secrets, stored_secret,
    credential_blob, first_eq_at, kv_text, line_entry, options_text, secret_keys, secrets_from_lines,
    secrets_text, spec_extract_secrets, split_lines, take_secret_line,
};
use crate::source::{kind_tag, SourceDefV, SourceKind};
use crate::str_map::{keys_sorted, law_lookup_after_insert, lookup};
use crate::text::{is_ws, lemma_trim_is, lemma_trim_prepend_ws, lemma_trim_push_ws, lemma_trim_window, trim};
use vstd::prelude::*;

verus! {

proof fn lemma_split_no_newline(t: Seq<char>)
    requires
        !t.contains('\n'),
    ensures
        split_lines(t) == seq![t],
    decreases t.len(),
{
    if t.len() == 0 {
        assert(t =~= Seq::<char>::empty());
    } else {
        assert(!t.drop_last().contains('\n')) by {
            if t.drop_last().contains('\n') {
                let i = choose|i: int| 0 <= i < t.drop_last().len() && t.drop_last()[i] == '\n';
                assert(t[i] == '\n');
            }
        }
        lemma_split_no_newline(t.drop_last());
        assert(t.last() != '\n');
        assert(t.drop_last().push(t.last()) =~= t);
        assert(seq![t.drop_last()].update(0, t.drop_last().push(t.last())) =~= seq![t]);
    }
}

proof fn lemma_split_lines_last_empty(s: Seq<char>)
    requires
        s.len() > 0,
        s.last() == '\n',
    ensures
        split_lines(s) == split_lines(s).drop_last().push(Seq::<char>::empty()),
{
    assert(split_lines(s) == split_lines(s.drop_last()).push(Seq::<char>::empty()));
    assert(split_lines(s).drop_last() =~= split_lines(s.drop_last()));
}

proof fn lemma_split_concat(a: Seq<char>, b: Seq<char>)
    requires
        a.len() > 0,
        a.last() == '\n',
    ensures
        split_lines(a + b) == split_lines(a).drop_last() + split_lines(b),
    decreases b.len(),
{
    if b.len() == 0 {
        assert(a + b =~= a);
        lemma_split_lines_last_empty(a);
        assert(split_lines(a).drop_last() + split_lines(b) =~= split_lines(a));
    } else {
        let b1 = b.drop_last();
        lemma_split_concat(a, b1);
        assert((a + b).drop_last() =~= a + b1);
        assert((a + b).last() == b.last());
        crate::backend::lemma_split_lines_nonempty(b1);
        let x = split_lines(a).drop_last();
        let y = split_lines(b1);
        if b.last() == '\n' {
            assert((x + y).push(Seq::<char>::empty()) =~= x + y.push(Seq::<char>::empty()));
        } else {
            assert((x + y).update((x + y).len() - 1, (x + y).last().push(b.last())) =~= x + y.update(
                y.len() - 1,
                y.last().push(b.last()),
            ));
        }
    }
}

proof fn lemma_take_empty_line(acc: Seq<(Seq<char>, Seq<char>)>, keys: Seq<Seq<char>>)
    ensures
        take_secret_line(acc, Seq::<char>::empty(), keys) == acc,
{
}

/// Reading one more `\n`-terminated line `t` after a text that ends a line.
proof fn lemma_extract_line(s: Seq<char>, t: Seq<char>, keys: Seq<Seq<char>>)
    requires
        s.len() == 0 || s.last() == '\n',
        !t.contains('\n'),
    ensures
        spec_extract_secrets(s + t.push('\n'), keys) == take_secret_line(spec_extract_secrets(s, keys), t, keys),
{
    let u = t.push('\n');
    lemma_split_no_newline(t);
    assert(u.drop_last() =~= t);
    let e = Seq::<char>::empty();
    assert(split_lines(u) == seq![t].push(e));
    assert(split_lines(u) =~= seq![t, e]);
    if s.len() == 0 {
        assert(s + u =~= u);
        let none = Seq::<Seq<char>>::empty();
        let empty_map = Seq::<(Seq<char>, Seq<char>)>::empty();
        assert(seq![t, e].drop_last() =~= seq![t]);
        assert(seq![t].drop_last() =~= none);
        assert(secrets_from_lines(seq![t], keys) == take_secret_line(secrets_from_lines(none, keys), t, keys));
        assert(secrets_from_lines(seq![t, e], keys) == take_secret_line(secrets_from_lines(seq![t], keys), e, keys));
        lemma_take_empty_line(secrets_from_lines(seq![t], keys), keys);
        assert(split_lines(s) == seq![e]);
        assert(seq![e].drop_last() =~= none);
        assert(secrets_from_lines(seq![e], keys) == take_secret_line(secrets_from_lines(none, keys), e, keys));
        lemma_take_empty_line(empty_map, keys);
        assert(spec_extract_secrets(s, keys) == empty_map);
        assert(spec_extract_secrets(s + u, keys) == secrets_from_lines(seq![t, e], keys));
    } else {
        lemma_split_concat(s, u);
        let x = split_lines(s).drop_last();
        lemma_split_lines_last_empty(s);
        let all = x + seq![t, e];
        assert(all.drop_last() =~= x.push(t));
        assert(all.last() == e);
        assert(x.push(t).drop_last() =~= x);
        assert(secrets_from_lines(all, keys) == take_secret_line(secrets_from_lines(x.push(t), keys), e, keys));
        assert(secrets_from_lines(x.push(t), keys) == take_secret_line(secrets_from_lines(x, keys), t, keys));
        lemma_take_empty_line(secrets_from_lines(x.push(t), keys), keys);
        assert(split_lines(s) =~= x.push(e));
        assert(x.push(e).drop_last() =~= x);
        assert(secrets_from_lines(x.push(e), keys) == take_secret_line(secrets_from_lines(x, keys), e, keys));
        lemma_take_empty_line(secrets_from_lines(x, keys), keys);
        assert(spec_extract_secrets(s + u, keys) == secrets_from_lines(all, keys));
    }
}

/// A key with nothing around it to trim, no `=`, no newline, and not
/// starting with `[`.
pub open spec fn plain_key(k: Seq<char>) -> bool {
    &&& k.len() > 0
    &&& !k.contains('=')
    &&& !k.contains('\n')
    &&& !is_ws(k[0])
    &&& !is_ws(k.last())
    &&& k[0] != '['
}

proof fn lemma_secret_keys_plain(kind: SourceKind)
    ensures
        forall|i: int|
            0 <= i < secret_keys(kind).len() ==> plain_key(#[trigger] secret_keys(kind)[i]) && secret_keys(kind)[i]
                != "type"@,
{
    reveal_strlit("pass");
    reveal_strlit("token");
    reveal_strlit("client_secret");
    reveal_strlit("password");
    reveal_strlit("trust_token");
    reveal_strlit("type");
    let ks = secret_keys(kind);
    assert forall|i: int| 0 <= i < ks.len() implies plain_key(#[trigger] ks[i]) && ks[i] != "type"@ by {
        let k = ks[i];
        assert(!k.contains('=')) by {
            if k.contains('=') {
                let j = choose|j: int| 0 <= j < k.len() && k[j] == '=';
            }
        }
        assert(!k.contains('\n')) by {
            if k.contains('\n') {
                let j = choose|j: int| 0 <= j < k.len() && k[j] == '\n';
            }
        }
        assert(k.len() != 4 || k[0] != 't' || k[1] != 'y');
    }
}

/// The `=` of `k = v` is the one after `k`, when `k` has none.
proof fn lemma_first_eq_of_kv(k: Seq<char>, v: Seq<char>)
    requires
        !k.contains('='),
    ensures
        first_eq_at(k + " = "@ + v, k.len() + 1int),
        line_entry(k + " = "@ + v) == Some((trim(k.push(' ')), trim(seq![' '] + v))),
{
    reveal_strlit(" = ");
    let t = k + " = "@ + v;
    let e: int = k.len() as int + 1;
    assert(t[e] == '=');
    assert forall|j: int| 0 <= j < e implies #[trigger] t[j] != '=' by {
        if j < k.len() {
            assert(t[j] == k[j]);
        } else {
            assert(t[j] == ' ');
        }
    }
    assert(first_eq_at(t, e));
    let c = choose|c: int| first_eq_at(t, c);
    if c < e {
        assert(t[c] != '=');
    }
    if c > e {
        assert(t[e] != '=');
    }
    assert(t.take(e) =~= k.push(' '));
    assert(t.skip(e + 1) =~= seq![' '] + v);
}

proof fn lemma_no_newline_concat(a: Seq<char>, b: Seq<char>)
    requires
        !a.contains('\n'),
        !b.contains('\n'),
    ensures
        !(a + b).contains('\n'),
{
    if (a + b).contains('\n') {
        let i = choose|i: int| 0 <= i < (a + b).len() && (a + b)[i] == '\n';
        if i < a.len() {
            assert(a[i] == '\n');
        } else {
            assert(b[i - a.len()] == '\n');
        }
    }
}

/// Reading the line `k = v` of an option: nothing is taken when `k` trims
/// to no requested key.
proof fn lemma_option_line_ignored(acc: Seq<(Seq<char>, Seq<char>)>, k: Seq<char>, v: Seq<char>, keys: Seq<Seq<char>>)
    requires
        !k.contains('='),
        !keys.contains(trim(k)),
    ensures
        take_secret_line(acc, k + " = "@ + v, keys) == acc,
{
    lemma_first_eq_of_kv(k, v);
    lemma_trim_push_ws(k, ' ');
}

/// Reading the line `k = v` of a secret stores `v` under `k`.
proof fn lemma_secret_line_taken(acc: Seq<(Seq<char>, Seq<char>)>, k: Seq<char>, v: Seq<char>, keys: Seq<Seq<char>>)
    requires
        plain_key(k),
        keys.contains(k),
        trim(v) == v,
    ensures
        take_secret_line(acc, k + " = "@ + v, keys) == crate::str_map::spec_insert(acc, k, v),
{
    lemma_first_eq_of_kv(k, v);
    let kk = k.push(' ');
    assert forall|i: int| k.len() <= i < kk.len() implies is_ws(#[trigger] kk[i]) by {}
    assert(kk[0] == k[0]);
    assert(kk[k.len() - 1] == k.last());
    lemma_trim_is(kk, 0, k.len() as int);
    assert(kk.subrange(0, k.len() as int) =~= k);
    lemma_trim_prepend_ws(' ', v);
}

/// Any key read from a line that starts with `[` starts with `[` too.
proof fn lemma_bracket_line_ignored(acc: Seq<(Seq<char>, Seq<char>)>, t: Seq<char>, keys: Seq<Seq<char>>)
    requires
        t.len() > 0,
        t[0] == '[',
        forall|i: int| 0 <= i < keys.len() ==> plain_key(#[trigger] keys[i]),
    ensures
        take_secret_line(acc, t, keys) == acc,
{
    if exists|e: int| first_eq_at(t, e) {
        let e = choose|e: int| first_eq_at(t, e);
        let x = t.take(e);
        assert(e > 0);
        assert(x[0] == '[');
        assert(!is_ws(x[0]));
        let (a, b) = lemma_trim_window(x);
        assert(a == 0);
        assert(b > 0);
        assert(trim(x)[0] == '[');
        if keys.contains(trim(x)) {
            let i = choose|i: int| 0 <= i < keys.len() && keys[i] == trim(x);
            assert(plain_key(keys[i]));
        }
    }
}

/// No option line of `opts` yields one of `keys`.
pub open spec fn options_clear_of(opts: Seq<(Seq<char>, Seq<char>)>, keys: Seq<Seq<char>>) -> bool {
    forall|i: int|
        0 <= i < opts.len() ==> {
            let (k, v) = #[trigger] opts[i];
            &&& !k.contains('=')
            &&& !k.contains('\n')
            &&& !v.contains('\n')
            &&& !keys.contains(trim(k))
        }
}

proof fn lemma_options_ignored(pre: Seq<char>, opts: Seq<(Seq<char>, Seq<char>)>, keys: Seq<Seq<char>>)
    requires
        pre.len() > 0,
        pre.last() == '\n',
        options_clear_of(opts, keys),
    ensures
        spec_extract_secrets(pre + options_text(opts), keys) == spec_extract_secrets(pre, keys),
        (pre + options_text(opts)).last() == '\n',
    decreases opts.len(),
{
    reveal_strlit(" = ");
    reveal_strlit("\n");
    if opts.len() == 0 {
        assert(pre + options_text(opts) =~= pre);
    } else {
        let rest = opts.drop_last();
        assert forall|i: int| 0 <= i < rest.len() implies #[trigger] rest[i] == opts[i] by {}
        lemma_options_ignored(pre, rest, keys);
        let (k, v) = opts.last();
        assert(opts.last() == opts[opts.len() - 1]);
        let s = pre + options_text(rest);
        let t = k + " = "@ + v;
        assert(!" = "@.contains('\n')) by {
            if " = "@.contains('\n') {
                let j = choose|j: int| 0 <= j < " = "@.len() && " = "@[j] == '\n';
            }
        }
        lemma_no_newline_concat(k, " = "@);
        lemma_no_newline_concat(k + " = "@, v);
        lemma_extract_line(s, t, keys);
        assert(pre + options_text(opts) =~= s + t.push('\n'));
        lemma_option_line_ignored(spec_extract_secrets(s, keys), k, v, keys);
    }
}

/// Every stored secret value is one line with nothing around it to trim.
pub open spec fn secrets_plain(secrets: Seq<(Seq<char>, Seq<char>)>) -> bool {
    forall|i: int|
        0 <= i < secrets.len() ==> !(#[trigger] secrets[i]).1.contains('\n') && trim(secrets[i].1) == secrets[i].1
}

proof fn lemma_lookup_plain(secrets: Seq<(Seq<char>, Seq<char>)>, k: Seq<char>)
    requires
        keys_sorted(secrets),
        secrets_plain(secrets),
        lookup(secrets, k) is Some,
    ensures
        !lookup(secrets, k)->0.contains('\n'),
        trim(lookup(secrets, k)->0) == lookup(secrets, k)->0,
{
    crate::str_map::lemma_lower_bound_exists(secrets, k);
    let i = crate::str_map::lower_bound(secrets, k);
    assert(secrets[i] == secrets[i]);
}

proof fn lemma_secrets_taken(
    pre: Seq<char>,
    ks: Seq<Seq<char>>,
    keys: Seq<Seq<char>>,
    secrets: Seq<(Seq<char>, Seq<char>)>,
)
    requires
        pre.len() > 0,
        pre.last() == '\n',
        spec_extract_secrets(pre, keys) == Seq::<(Seq<char>, Seq<char>)>::empty(),
        forall|i: int| 0 <= i < ks.len() ==> keys.contains(#[trigger] ks[i]),
        forall|i: int| 0 <= i < keys.len() ==> plain_key(#[trigger] keys[i]),
        keys_sorted(secrets),
        secrets_plain(secrets),
    ensures
        keys_sorted(spec_extract_secrets(pre + secrets_text(ks, secrets), keys)),
        (pre + secrets_text(ks, secrets)).last() == '\n',
        forall|k: Seq<char>|
            #[trigger] lookup(spec_extract_secrets(pre + secrets_text(ks, secrets), keys), k) == if ks.contains(k) {
                lookup(secrets, k)
            } else {
                None
            },
    decreases ks.len(),
{
    reveal_strlit(" = ");
    reveal_strlit("\n");
    if ks.len() == 0 {
        assert(pre + secrets_text(ks, secrets) =~= pre);
    } else {
        let rest = ks.drop_last();
        assert forall|i: int| 0 <= i < rest.len() implies keys.contains(#[trigger] rest[i]) by {
            assert(rest[i] == ks[i]);
        }
        lemma_secrets_taken(pre, rest, keys, secrets);
        let s = pre + secrets_text(rest, secrets);
        let acc = spec_extract_secrets(s, keys);
        let k = ks.last();
        assert(keys.contains(ks[ks.len() - 1]));
        assert(plain_key(k)) by {
            let i = choose|i: int| 0 <= i < keys.len() && keys[i] == k;
        }
        match lookup(secrets, k) {
            Some(v) => {
                lemma_lookup_plain(secrets, k);
                let t = k + " = "@ + v;
                assert(!" = "@.contains('\n')) by {
                    if " = "@.contains('\n') {
                        let j = choose|j: int| 0 <= j < " = "@.len() && " = "@[j] == '\n';
                    }
                }
                lemma_no_newline_concat(k, " = "@);
                lemma_no_newline_concat(k + " = "@, v);
                lemma_extract_line(s, t, keys);
                assert(pre + secrets_text(ks, secrets) =~= s + t.push('\n'));
                lemma_secret_line_taken(acc, k, v, keys);
                assert forall|k2: Seq<char>| #[trigger]
                    lookup(spec_extract_secrets(pre + secrets_text(ks, secrets), keys), k2) == if ks.contains(k2) {
                        lookup(secrets, k2)
                    } else {
                        None
                    } by {
                    law_lookup_after_insert(acc, k, v, k2);
                    assert(lookup(acc, k2) == if rest.contains(k2) {
                        lookup(secrets, k2)
                    } else {
                        None
                    });
                    if k2 == k {
                        assert(ks.contains(k2)) by {
                            assert(ks[ks.len() - 1] == k2);
                        }
                    } else {
                        if ks.contains(k2) {
                            let i = choose|i: int| 0 <= i < ks.len() && ks[i] == k2;
                            assert(i < ks.len() - 1);
                            assert(rest[i] == k2);
                        }
                        if rest.contains(k2) {
                            let i = choose|i: int| 0 <= i < rest.len() && rest[i] == k2;
                            assert(ks[i] == k2);
                        }
                    }
                }
                law_lookup_after_insert(acc, k, v, k);
            },
            None => {
                assert(pre + secrets_text(ks, secrets) =~= s);
                assert forall|k2: Seq<char>| #[trigger]
                    lookup(spec_extract_secrets(pre + secrets_text(ks, secrets), keys), k2) == if ks.contains(k2) {
                        lookup(secrets, k2)
                    } else {
                        None
                    } by {
                    if k2 != k {
                        if ks.contains(k2) {
                            let i = choose|i: int| 0 <= i < ks.len() && ks[i] == k2;
                            assert(rest[i] == k2);
                        }
                        if rest.contains(k2) {
                            let i = choose|i: int| 0 <= i < rest.len() && rest[i] == k2;
                            assert(ks[i] == k2);
                        }
                    } else {
                        assert(ks[ks.len() - 1] == k2);
                        if rest.contains(k2) {
                            let i = choose|i: int| 0 <= i < rest.len() && rest[i] == k2;
                            assert(ks[i] == k2);
                        }
                    }
                }
            },
        }
    }
}

/// What a source's blob can carry faithfully: its name and option lines
/// are single lines, no option key has an `=` or trims to a secret key, and
/// every secret value is a single line with nothing to trim around it.
pub open spec fn blob_encodable(d: SourceDefV, secrets: Seq<(Seq<char>, Seq<char>)>) -> bool {
    &&& !d.name.contains('\n')
    &&& options_clear_of(d.options, secret_keys(d.kind))
    &&& secrets_plain(secrets)
}

/// Reading back the secrets of a freshly written credential blob finds
/// exactly the stored secrets of the source's kind: each secret key reads
/// as the value stored for it, and nothing else is found.
pub proof fn law_secrets_survive_blob(d: SourceDefV, secrets: Seq<(Seq<char>, Seq<char>)>, k: Seq<char>)
    requires
        keys_sorted(secrets),
        blob_encodable(d, secrets),
    ensures
        keys_sorted(spec_extract_secrets(credential_blob(d, secrets), secret_keys(d.kind))),
        lookup(spec_extract_secrets(credential_blob(d, secrets), secret_keys(d.kind)), k) == if secret_keys(
            d.kind,
        ).contains(k) {
            lookup(secrets, k)
        } else {
            None
        },
{
    reveal_strlit("[");
    reveal_strlit("]\ntype = ");
    reveal_strlit("\n");
    reveal_strlit("type = ");
    let keys = secret_keys(d.kind);
    lemma_secret_keys_plain(d.kind);
    let e = Seq::<char>::empty();
    let hdr = seq!['['] + d.name + seq![']'];
    assert(!hdr.contains('\n')) by {
        if hdr.contains('\n') {
            let i = choose|i: int| 0 <= i < hdr.len() && hdr[i] == '\n';
            if 0 < i < hdr.len() - 1 {
                assert(d.name[i - 1] == '\n');
            }
        }
    }
    let b1 = e + hdr.push('\n');
    lemma_extract_line(e, hdr, keys);
    assert(spec_extract_secrets(e, keys) == Seq::<(Seq<char>, Seq<char>)>::empty()) by {
        let none = Seq::<Seq<char>>::empty();
        assert(split_lines(e) == seq![e]);
        assert(seq![e].drop_last() =~= none);
        assert(secrets_from_lines(seq![e], keys) == take_secret_line(secrets_from_lines(none, keys), e, keys));
        lemma_take_empty_line(Seq::<(Seq<char>, Seq<char>)>::empty(), keys);
    }
    lemma_bracket_line_ignored(Seq::<(Seq<char>, Seq<char>)>::empty(), hdr, keys);
    let tag = kind_tag(d.kind);
    let tl = "type = "@ + tag;
    assert(!tag.contains('\n')) by {
        reveal_strlit("smb");
        reveal_strlit("drive");
        reveal_strlit("webdav");
        reveal_strlit("sftp");
        reveal_strlit("ftp");
        reveal_strlit("iclouddrive");
        if tag.contains('\n') {
            let i = choose|i: int| 0 <= i < tag.len() && tag[i] == '\n';
        }
    }
    assert(!tl.contains('\n')) by {
        if tl.contains('\n') {
            let i = choose|i: int| 0 <= i < tl.len() && tl[i] == '\n';
            if i >= 7 {
                assert(tag[i - 7] == '\n');
            }
        }
    }
    lemma_extract_line(b1, tl, keys);
    let b2 = b1 + tl.push('\n');
    assert(tl =~= seq!['t', 'y', 'p', 'e'] + " = "@ + tag) by {
        reveal_strlit(" = ");
    }
    assert(!keys.contains(trim(seq!['t', 'y', 'p', 'e']))) by {
        let ty = seq!['t', 'y', 'p', 'e'];
        lemma_trim_is(ty, 0, 4);
        assert(ty.subrange(0, 4) =~= ty);
        reveal_strlit("type");
        assert(ty =~= "type"@);
        if keys.contains(ty) {
            let i = choose|i: int| 0 <= i < keys.len() && keys[i] == ty;
        }
    }
    assert(!seq!['t', 'y', 'p', 'e'].contains('=')) by {
        let ty = seq!['t', 'y', 'p', 'e'];
        if ty.contains('=') {
            let i = choose|i: int| 0 <= i < ty.len() && ty[i] == '=';
        }
    }
    lemma_option_line_ignored(Seq::<(Seq<char>, Seq<char>)>::empty(), seq!['t', 'y', 'p', 'e'], tag, keys);
    assert(spec_extract_secrets(b2, keys) == Seq::<(Seq<char>, Seq<char>)>::empty());
    lemma_options_ignored(b2, d.options, keys);
    let b3 = b2 + options_text(d.options);
    assert forall|i: int| 0 <= i < keys.len() implies keys.contains(#[trigger] keys[i]) by {}
    lemma_secrets_taken(b3, keys, keys, secrets);
    assert(credential_blob(d, secrets) =~= b3 + secrets_text(keys, secrets));
    assert(lookup(spec_extract_secrets(b3 + secrets_text(keys, secrets), keys), k) == if keys.contains(k) {
        lookup(secrets, k)
    } else {
        None
    });
}

/// A freshly written credential blob shows a stored secret exactly when the
/// source has a secret of one of its kind's keys: the flag a loaded source
/// carries is having stored secrets.
pub proof fn law_blob_has_secret(d: SourceDefV, secrets: Seq<(Seq<char>, Seq<char>)>)
    requires
        keys_sorted(secrets),
        blob_encodable(d, secrets),
    ensures
        spec_extract_secrets(credential_blob(d, secrets), secret_keys(d.kind)).len() > 0 <==> exists|k: Seq<char>|
            secret_keys(d.kind).contains(k) && #[trigger] lookup(secrets, k) is Some,
{
    let ext = spec_extract_secrets(credential_blob(d, secrets), secret_keys(d.kind));
    if ext.len() > 0 {
        let k0 = ext[0].0;
        law_secrets_survive_blob(d, secrets, k0);
        crate::str_map::lemma_lookup_at(ext, k0, 0);
        assert(secret_keys(d.kind).contains(k0) && lookup(secrets, k0) is Some);
    }
    if exists|k: Seq<char>| secret_keys(d.kind).contains(k) && #[trigger] lookup(secrets, k) is Some {
        let k = choose|k: Seq<char>| secret_keys(d.kind).contains(k) && #[trigger] lookup(secrets, k) is Some;
        law_secrets_survive_blob(d, secrets, k);
        assert(lookup(ext, k) is Some);
    }
}

/// Secrets carry forward through an upsert: after merging a source's new
/// secrets into the stored ones and writing the blob, reading the blob
/// back finds, for each of the kind's secret keys, the new (possibly
/// obscured) value where one was set and the stored value otherwise.
pub proof fn law_secrets_carry_forward(
    d: SourceDefV,
    existing: Seq<(Seq<char>, Seq<char>)>,
    obscured: Seq<(Seq<char>, Seq<char>)>,
    k: Seq<char>,
)
    requires
        keys_sorted(existing),
        keys_sorted(d.new_secrets),
        blob_encodable(d, merged_secrets(existing, d.new_secrets, obscured)),
    ensures
        lookup(
            spec_extract_secrets(credential_blob(d, merged_secrets(existing, d.new_secrets, obscured)), secret_keys(d.kind)),
            k,
        ) == if secret_keys(d.kind).contains(k) {
            match lookup(d.new_secrets, k) {
                Some(sv) => Some(stored_secret((k, sv), obscured)),
                None => lookup(existing, k),
            }
        } else {
            None
        },
{
    law_merge_keeps_unrotated(existing, d.new_secrets, obscured, k);
    law_secrets_survive_blob(d, merged_secrets(existing, d.new_secrets, obscured), k);
}

} // verus!
