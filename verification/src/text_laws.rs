//! What is written is what is read: rendering a document whose lines each
//! end with their own newline and parsing the text gives the same lines
//! back.
use crate::rclone_config::{
    eol_end, is_key_char, is_sp, key_pred, lemma_render_prepend, lemma_scan, line_at, line_text, not_close_pred,
    not_eol_pred, parse_from, render_lines, scan, sp_pred, spec_parse, LineV,
};
use crate::text::{is_ws, trim};
use vstd::prelude::*;

verus! {

/// Text that ends with its own newline.
pub open spec fn self_delimited(t: Seq<char>) -> bool {
    t.len() > 0 && t.last() == '\n'
}

/// A line whose text, standing alone, parses back to the same line.
pub open spec fn reparses(l: LineV) -> bool {
    let t = line_text(l);
    self_delimited(t) && line_at(t, 0) == Some((l, t.len() as int))
}

/// Scanning inside a newline-terminated piece of a larger text stops where
/// it stops in the piece alone, for a predicate that fails on `\n`.
proof fn lemma_scan_local(a: Seq<char>, t: Seq<char>, b: Seq<char>, x: int, p: spec_fn(char) -> bool)
    requires
        self_delimited(t),
        0 <= x < t.len(),
        !p('\n'),
    ensures
        scan(a + t + b, a.len() + x, p) == a.len() + scan(t, x, p),
        x <= scan(t, x, p) < t.len(),
    decreases t.len() - x,
{
    let s = a + t + b;
    assert(s[a.len() + x] == t[x]);
    if p(t[x]) {
        assert(x != t.len() - 1);
        lemma_scan_local(a, t, b, x + 1, p);
    }
}

/// Parsing a newline-terminated line inside a larger text reads the same
/// line as parsing it alone.
pub proof fn lemma_line_at_local(a: Seq<char>, t: Seq<char>, b: Seq<char>)
    requires
        self_delimited(t),
    ensures
        line_at(a + t + b, a.len() as int) == match line_at(t, 0) {
            Some((l, e)) => Some((l, a.len() + e)),
            None => None::<(LineV, int)>,
        },
        line_at(t, 0) matches Some((l, e)) ==> 0 < e <= t.len(),
{
    let s = a + t + b;
    let n = a.len() as int;
    let len = t.len() as int;
    assert(is_ws('\n'));
    assert(!sp_pred()('\n'));
    assert(!not_eol_pred()('\n'));
    assert(!not_close_pred()('\n'));
    assert(!key_pred()('\n'));
    assert forall|x: int| 0 <= x < len implies #[trigger] s[n + x] == t[x] by {}
    lemma_scan_local(a, t, b, 0, sp_pred());
    let j = scan(t, 0, sp_pred());
    assert(s[n + j] == t[j]);
    if t[j] == '\n' {
        assert(s.subrange(n, n + j + 1) =~= t.subrange(0, j + 1));
    } else if t[j] == '\r' && j + 1 < len && t[j + 1] == '\n' {
        assert(s[n + j + 1] == t[j + 1]);
        assert(s.subrange(n, n + j + 2) =~= t.subrange(0, j + 2));
    } else if t[j] == '\r' {
        assert(j + 1 < len);
        assert(s[n + j + 1] == t[j + 1]);
    } else if t[j] == ';' || t[j] == '#' {
        assert(j + 1 < len);
        lemma_scan_local(a, t, b, j + 1, not_eol_pred());
        let k = scan(t, j + 1, not_eol_pred());
        lemma_scan(t, j + 1, not_eol_pred());
        assert(s[n + k] == t[k]);
        if t[k] == '\r' {
            assert(k + 1 < len);
            assert(s[n + k + 1] == t[k + 1]);
        }
        match eol_end(t, k) {
            Some(e) => {
                assert(s.subrange(n, n + e) =~= t.subrange(0, e));
            },
            None => {},
        }
    } else if t[j] == '[' {
        assert(j + 1 < len);
        lemma_scan_local(a, t, b, j + 1, not_close_pred());
        let c = scan(t, j + 1, not_close_pred());
        lemma_scan(t, j + 1, not_close_pred());
        assert(s[n + c] == t[c]);
        if t[c] == ']' {
            assert(c + 1 < len);
            lemma_scan_local(a, t, b, c + 1, not_eol_pred());
            let k = scan(t, c + 1, not_eol_pred());
            lemma_scan(t, c + 1, not_eol_pred());
            assert(s[n + k] == t[k]);
            if t[k] == '\r' {
                assert(k + 1 < len);
                assert(s[n + k + 1] == t[k + 1]);
            }
            match eol_end(t, k) {
                Some(e) => {
                    assert(s.subrange(n, n + e) =~= t.subrange(0, e));
                    assert(s.subrange(n + j + 1, n + c) =~= t.subrange(j + 1, c));
                },
                None => {},
            }
        }
    } else {
        lemma_scan_local(a, t, b, j, key_pred());
        let k1 = scan(t, j, key_pred());
        lemma_scan_local(a, t, b, k1, sp_pred());
        let k2 = scan(t, k1, sp_pred());
        assert(s[n + k2] == t[k2]);
        if !(k1 == j || t[k2] != '=') {
            assert(k2 + 1 < len);
            lemma_scan_local(a, t, b, k2 + 1, not_eol_pred());
            let k = scan(t, k2 + 1, not_eol_pred());
            lemma_scan(t, k2 + 1, not_eol_pred());
            assert(s[n + k] == t[k]);
            if t[k] == '\r' {
                assert(k + 1 < len);
                assert(s[n + k + 1] == t[k + 1]);
            }
            match eol_end(t, k) {
                Some(e) => {
                    assert(s.subrange(n, n + e) =~= t.subrange(0, e));
                    assert(s.subrange(n + j, n + k1) =~= t.subrange(j, k1));
                    assert(s.subrange(n + k2 + 1, n + k) =~= t.subrange(k2 + 1, k));
                },
                None => {},
            }
        }
    }
}

proof fn lemma_parse_rendered(p: Seq<char>, ls: Seq<LineV>)
    requires
        forall|i: int| 0 <= i < ls.len() ==> reparses(#[trigger] ls[i]),
    ensures
        parse_from(p + render_lines(ls), p.len() as int) == Ok::<Seq<LineV>, int>(ls),
    decreases ls.len(),
{
    if ls.len() == 0 {
        assert(render_lines(ls) == Seq::<char>::empty());
        assert(p + render_lines(ls) =~= p);
        assert(ls =~= Seq::<LineV>::empty());
    } else {
        let l = ls[0];
        let rest = ls.skip(1);
        assert(ls =~= seq![l] + rest);
        lemma_render_prepend(l, rest);
        let t = line_text(l);
        assert(reparses(l));
        let s = p + render_lines(ls);
        assert(s =~= p + t + render_lines(rest));
        lemma_line_at_local(p, t, render_lines(rest));
        assert(forall|i: int| 0 <= i < rest.len() ==> #[trigger] rest[i] == ls[i + 1]);
        lemma_parse_rendered(p + t, rest);
        assert((p + t) + render_lines(rest) =~= s);
        assert(line_at(s, p.len() as int) == Some((l, p.len() + t.len() as int)));
    }
}

/// Parsing the rendering of lines that each reparse on their own gives the
/// same lines back.
pub proof fn law_render_parse_round_trip(ls: Seq<LineV>)
    requires
        forall|i: int| 0 <= i < ls.len() ==> reparses(#[trigger] ls[i]),
    ensures
        spec_parse(render_lines(ls)) == Ok::<Seq<LineV>, int>(ls),
{
    lemma_parse_rendered(Seq::<char>::empty(), ls);
    assert(Seq::<char>::empty() + render_lines(ls) =~= render_lines(ls));
}

proof fn lemma_scan_stops(s: Seq<char>, i: int, p: spec_fn(char) -> bool, e: int)
    requires
        0 <= i <= e <= s.len(),
        forall|k: int| i <= k < e ==> p(#[trigger] s[k]),
        e < s.len() ==> !p(s[e]),
    ensures
        scan(s, i, p) == e,
    decreases e - i,
{
    if i < e {
        lemma_scan_stops(s, i + 1, p, e);
    }
}

/// A key that reads back as itself: non-empty, of key characters only.
pub open spec fn key_text_ok(k: Seq<char>) -> bool {
    k.len() > 0 && forall|i: int| 0 <= i < k.len() ==> is_key_char(#[trigger] k[i])
}

/// A value that reads back as itself: one line, nothing to trim around it.
pub open spec fn value_text_ok(v: Seq<char>) -> bool {
    !v.contains('\n') && !v.contains('\r') && trim(v) == v
}

/// A section name that reads back as itself.
pub open spec fn name_text_ok(n: Seq<char>) -> bool {
    !n.contains(']') && !n.contains('\n') && trim(n) == n
}

pub proof fn lemma_blank_reparses()
    ensures
        reparses(crate::rclone_config::blank_sep()),
{
    let t = seq!['\n'];
    assert(line_text(crate::rclone_config::blank_sep()) == t);
    lemma_scan_stops(t, 0, sp_pred(), 0);
    assert(t.subrange(0, 1) =~= t);
}

pub proof fn lemma_kv_reparses(k: Seq<char>, v: Seq<char>)
    requires
        key_text_ok(k),
        value_text_ok(v),
    ensures
        reparses(crate::rclone_config::canonical_kv(k, v)),
{
    let l = crate::rclone_config::canonical_kv(k, v);
    let t = line_text(l);
    let n = k.len() as int;
    assert(t == k + seq![' ', '=', ' '] + v + seq!['\n']);
    let len = t.len() as int;
    assert(len == n + 4 + v.len());
    assert forall|i: int| 0 <= i < n implies #[trigger] t[i] == k[i] by {}
    assert(t[n] == ' ');
    assert(t[n + 1] == '=');
    assert(t[n + 2] == ' ');
    assert forall|i: int| 0 <= i < v.len() implies #[trigger] t[n + 3 + i] == v[i] by {}
    assert(t[len - 1] == '\n');
    assert(is_key_char(k[0]));
    assert(!is_sp(t[0]));
    lemma_scan_stops(t, 0, sp_pred(), 0);
    assert(is_ws(' '));
    lemma_scan_stops(t, 0, key_pred(), n);
    lemma_scan_stops(t, n, sp_pred(), n + 1);
    assert forall|i: int| n + 2 <= i < len - 1 implies #[trigger] not_eol_pred()(t[i]) by {
        if i > n + 2 {
            let q = i - n - 3;
            assert(t[i] == v[q]);
            if v[q] == '\n' {
                assert(v.contains('\n'));
            }
            if v[q] == '\r' {
                assert(v.contains('\r'));
            }
        }
    }
    lemma_scan_stops(t, n + 2, not_eol_pred(), len - 1);
    assert(t.subrange(0, len) =~= t);
    assert(t.subrange(0, n) =~= k);
    assert(t.subrange(n + 2, len - 1) =~= seq![' '] + v);
    crate::text::lemma_trim_prepend_ws(' ', v);
}

pub proof fn lemma_header_reparses(name: Seq<char>)
    requires
        name_text_ok(name),
    ensures
        reparses(crate::rclone_config::canonical_header(name)),
{
    let l = crate::rclone_config::canonical_header(name);
    let t = line_text(l);
    let n = name.len() as int;
    assert(t == seq!['['] + name + seq![']', '\n']);
    let len = t.len() as int;
    assert(t[0] == '[');
    assert forall|i: int| 0 <= i < n implies #[trigger] t[1 + i] == name[i] by {}
    assert(t[n + 1] == ']');
    assert(t[n + 2] == '\n');
    lemma_scan_stops(t, 0, sp_pred(), 0);
    assert forall|i: int| 1 <= i < n + 1 implies #[trigger] not_close_pred()(t[i]) by {
        let q = i - 1;
        assert(t[i] == name[q]);
        if name[q] == ']' {
            assert(name.contains(']'));
        }
        if name[q] == '\n' {
            assert(name.contains('\n'));
        }
    }
    lemma_scan_stops(t, 1, not_close_pred(), n + 1);
    lemma_scan_stops(t, n + 2, not_eol_pred(), n + 2);
    assert(t.subrange(0, len) =~= t);
    assert(t.subrange(1, n + 1) =~= name);
}

/// In a text that ends with a newline, every line ends with its own
/// newline.
proof fn lemma_line_ends_with_newline(s: Seq<char>, i: int)
    requires
        0 <= i < s.len(),
        s.last() == '\n',
        line_at(s, i) is Some,
    ensures
        line_at(s, i) matches Some((l, e)) && i < e <= s.len() && s[e - 1] == '\n',
{
    crate::rclone_config::lemma_line_at_span(s, i);
    lemma_scan(s, i, sp_pred());
    let j = scan(s, i, sp_pred());
    if s[j] == ';' || s[j] == '#' {
        lemma_scan(s, j + 1, not_eol_pred());
    } else if s[j] == '[' {
        lemma_scan(s, j + 1, not_close_pred());
        let c = scan(s, j + 1, not_close_pred());
        lemma_scan(s, c + 1, not_eol_pred());
    } else {
        lemma_scan(s, j, key_pred());
        let k1 = scan(s, j, key_pred());
        lemma_scan(s, k1, sp_pred());
        let k2 = scan(s, k1, sp_pred());
        lemma_scan(s, k2 + 1, not_eol_pred());
    }
}

proof fn lemma_parsed_lines_reparse(s: Seq<char>, i: int)
    requires
        0 <= i <= s.len(),
        s.len() == 0 || s.last() == '\n',
        parse_from(s, i) is Ok,
    ensures
        forall|q: int| 0 <= q < (parse_from(s, i)->Ok_0).len() ==> reparses(#[trigger] (parse_from(s, i)->Ok_0)[q]),
    decreases s.len() - i,
{
    if i < s.len() {
        let (l, e) = line_at(s, i)->Some_0;
        lemma_parsed_lines_reparse(s, e);
        let rest = parse_from(s, e)->Ok_0;
        assert(parse_from(s, i)->Ok_0 == seq![l] + rest);
        {
            lemma_line_ends_with_newline(s, i);
            crate::rclone_config::lemma_line_at_span(s, i);
            let t = s.subrange(i, e);
            assert(t.last() == s[e - 1]);
            let a = s.subrange(0, i);
            let b = s.subrange(e, s.len() as int);
            assert(s =~= a + t + b);
            lemma_line_at_local(a, t, b);
            assert(line_text(l) == t);
        }
        assert forall|q: int| 0 <= q < (parse_from(s, i)->Ok_0).len() implies reparses(
            #[trigger] (parse_from(s, i)->Ok_0)[q],
        ) by {
            if q > 0 {
                assert((seq![l] + rest)[q] == rest[q - 1]);
            }
        }
    }
}

/// Every line of a parsed newline-terminated text reparses on its own.
pub proof fn lemma_parsed_text_reparses(s: Seq<char>)
    requires
        s.len() == 0 || s.last() == '\n',
        spec_parse(s) is Ok,
    ensures
        forall|q: int| 0 <= q < (spec_parse(s)->Ok_0).len() ==> reparses(#[trigger] (spec_parse(s)->Ok_0)[q]),
{
    lemma_parsed_lines_reparse(s, 0);
}

} // verus!
