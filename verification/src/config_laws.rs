//! Laws of the rclone.conf document model: what an edit leaves alone.
use crate::rclone_config::{
    canonical_header, canonical_kv, first_header_at, first_key_at, header_index, insert_pos, is_header, is_key,
    key_index, kv_value, lemma_header_index_is, lemma_insert_pos_props, lemma_key_index_is, lemma_no_header,
    lemma_no_key, lemma_section_end_is, lemma_section_end_len, lemma_section_end_props, next_section_at,
    section_end, section_range, spec_get, spec_remove_section, spec_set, with_separator, collapse_blanks, blank_sep, LineV,
    kv_pairs, spec_section_entries,
};
use vstd::prelude::*;

verus! {

/// Where index `i` of a line sequence lands after a line is inserted at `p`.
pub open spec fn shifted(i: int, p: int) -> int {
    if i < p {
        i
    } else {
        i + 1
    }
}

/// Inserting a non-header line moves first headers along with the lines.
proof fn lemma_insert_header_index(ls: Seq<LineV>, p: int, l: LineV, s: Seq<char>)
    requires
        0 <= p <= ls.len(),
        !(l is Section),
    ensures
        header_index(ls.insert(p, l), s) == match header_index(ls, s) {
            Some(h) => Some(shifted(h, p)),
            None => None::<int>,
        },
{
    let ls2 = ls.insert(p, l);
    match header_index(ls, s) {
        Some(h) => {
            let h2 = shifted(h, p);
            assert(ls2[h2] == ls[h]);
            assert forall|j: int| 0 <= j < h2 implies !is_header(#[trigger] ls2[j], s) by {
                if j < p {
                    assert(ls2[j] == ls[j]);
                } else if j > p {
                    assert(ls2[j] == ls[j - 1]);
                }
            }
            assert(first_header_at(ls2, s, h2));
            lemma_header_index_is(ls2, s, h2);
        },
        None => {
            assert forall|j: int| 0 <= j < ls2.len() implies !is_header(#[trigger] ls2[j], s) by {
                if j < p {
                    assert(ls2[j] == ls[j]);
                    lemma_no_header(ls, s, j);
                } else if j > p {
                    assert(ls2[j] == ls[j - 1]);
                    lemma_no_header(ls, s, j - 1);
                }
            }
        },
    }
}

/// Inserting a non-header line moves the end of a section along with the
/// lines.
proof fn lemma_insert_section_end(ls: Seq<LineV>, p: int, l: LineV, start: int)
    requires
        0 <= p <= ls.len(),
        0 <= start <= ls.len(),
        !(l is Section),
    ensures
        start <= p ==> section_end(ls.insert(p, l), start) == shifted(section_end(ls, start), p),
        start > p ==> section_end(ls.insert(p, l), start + 1) == section_end(ls, start) + 1,
{
    let ls2 = ls.insert(p, l);
    lemma_section_end_props(ls, start);
    let e = section_end(ls, start);
    let st2 = if start <= p {
        start
    } else {
        start + 1
    };
    let e2 = shifted(e, p);
    assert forall|j: int| st2 <= j < e2 implies !(#[trigger] ls2[j] is Section) by {
        if j < p {
            assert(ls2[j] == ls[j]);
        } else if j > p {
            assert(ls2[j] == ls[j - 1]);
        }
    }
    if e < ls.len() {
        assert(ls2[e2] == ls[e]);
        assert(next_section_at(ls2, st2, e2));
        lemma_section_end_is(ls2, st2, e2);
    } else {
        lemma_section_end_len(ls2, st2);
    }
}

/// Inserting a line moves the first `key` line of a range along with the
/// lines, as long as the inserted line isn't itself a `key` line inside the
/// range.
proof fn lemma_insert_key_index(ls: Seq<LineV>, p: int, l: LineV, lo: int, hi: int, key: Seq<char>)
    requires
        0 <= p <= ls.len(),
        0 <= lo <= hi <= ls.len(),
        p < lo || p > hi || !is_key(l, key),
    ensures
        ({
            let lo2 = if p < lo {
                lo + 1
            } else {
                lo
            };
            let hi2 = if p <= hi {
                hi + 1
            } else {
                hi
            };
            key_index(ls.insert(p, l), lo2, hi2, key) == match key_index(ls, lo, hi, key) {
                Some(k) => Some(shifted(k, p)),
                None => None::<int>,
            }
        }),
{
    let ls2 = ls.insert(p, l);
    let lo2 = if p < lo {
        lo + 1
    } else {
        lo
    };
    let hi2 = if p <= hi {
        hi + 1
    } else {
        hi
    };
    match key_index(ls, lo, hi, key) {
        Some(k) => {
            let k2 = shifted(k, p);
            assert(ls2[k2] == ls[k]);
            assert forall|j: int| lo2 <= j < k2 implies !is_key(#[trigger] ls2[j], key) by {
                if j < p {
                    assert(ls2[j] == ls[j]);
                } else if j > p {
                    assert(ls2[j] == ls[j - 1]);
                }
            }
            assert(first_key_at(ls2, lo2, hi2, key, k2));
            lemma_key_index_is(ls2, lo2, hi2, key, k2);
        },
        None => {
            if exists|c: int| first_key_at(ls2, lo2, hi2, key, c) {
                let c = choose|c: int| first_key_at(ls2, lo2, hi2, key, c);
                if c < p {
                    assert(ls2[c] == ls[c]);
                    lemma_no_key(ls, lo, hi, key, c);
                } else if c > p {
                    assert(ls2[c] == ls[c - 1]);
                    lemma_no_key(ls, lo, hi, key, c - 1);
                }
            }
        },
    }
}

/// Inserting a non-header line leaves every lookup alone, as long as it
/// isn't a `key2` line landing inside `[sec2]`.
proof fn lemma_get_insert(ls: Seq<LineV>, p: int, l: LineV, sec2: Seq<char>, key2: Seq<char>)
    requires
        0 <= p <= ls.len(),
        !(l is Section),
        !is_key(l, key2) || match section_range(ls, sec2) {
            Some((lo, hi)) => p < lo || p > hi,
            None => true,
        },
    ensures
        spec_get(ls.insert(p, l), sec2, key2) == spec_get(ls, sec2, key2),
{
    let ls2 = ls.insert(p, l);
    lemma_insert_header_index(ls, p, l, sec2);
    match header_index(ls, sec2) {
        Some(h) => {
            let lo = h + 1;
            lemma_section_end_props(ls, lo);
            let hi = section_end(ls, lo);
            lemma_insert_section_end(ls, p, l, lo);
            lemma_insert_key_index(ls, p, l, lo, hi, key2);
            match key_index(ls, lo, hi, key2) {
                Some(k) => {
                    assert(ls2[shifted(k, p)] == ls[k]);
                },
                None => {},
            }
        },
        None => {},
    }
}

/// The ranges of two differently named first sections don't overlap, and
/// neither holds the other's header.
proof fn lemma_ranges_apart(ls: Seq<LineV>, sec: Seq<char>, sec2: Seq<char>)
    requires
        sec != sec2,
        section_range(ls, sec) is Some,
        section_range(ls, sec2) is Some,
    ensures
        ({
            let (lo, hi) = section_range(ls, sec)->Some_0;
            let (lo2, hi2) = section_range(ls, sec2)->Some_0;
            hi < lo2 || hi2 < lo
        }),
{
    let h = header_index(ls, sec)->Some_0;
    let h2 = header_index(ls, sec2)->Some_0;
    lemma_section_end_props(ls, h + 1);
    lemma_section_end_props(ls, h2 + 1);
    assert(h != h2);
    if h < h2 {
        assert(ls[h2] is Section);
        if section_end(ls, h + 1) > h2 {
            assert(!(ls[h2] is Section));
        }
    } else {
        assert(ls[h] is Section);
        if section_end(ls, h2 + 1) > h {
            assert(!(ls[h] is Section));
        }
    }
}

/// Replacing a non-header line by another non-header line leaves every
/// lookup alone, unless one of them is a `key2` line inside `[sec2]`.
proof fn lemma_get_update(ls: Seq<LineV>, k: int, l: LineV, sec2: Seq<char>, key2: Seq<char>)
    requires
        0 <= k < ls.len(),
        !(l is Section),
        !(ls[k] is Section),
        (!is_key(l, key2) && !is_key(ls[k], key2)) || match section_range(ls, sec2) {
            Some((lo, hi)) => k < lo || k >= hi,
            None => true,
        },
    ensures
        spec_get(ls.update(k, l), sec2, key2) == spec_get(ls, sec2, key2),
{
    let ls2 = ls.update(k, l);
    match header_index(ls, sec2) {
        Some(h) => {
            assert(ls2[h] == ls[h]);
            assert forall|j: int| 0 <= j < h implies !is_header(#[trigger] ls2[j], sec2) by {
                if j != k {
                    assert(ls2[j] == ls[j]);
                }
            }
            assert(first_header_at(ls2, sec2, h));
            lemma_header_index_is(ls2, sec2, h);
            let lo = h + 1;
            lemma_section_end_props(ls, lo);
            let hi = section_end(ls, lo);
            assert forall|j: int| lo <= j < hi implies !(#[trigger] ls2[j] is Section) by {
                if j != k {
                    assert(ls2[j] == ls[j]);
                }
            }
            if hi < ls.len() {
                assert(ls2[hi] == ls[hi]);
                assert(next_section_at(ls2, lo, hi));
                lemma_section_end_is(ls2, lo, hi);
            } else {
                lemma_section_end_len(ls2, lo);
            }
            match key_index(ls, lo, hi, key2) {
                Some(c) => {
                    assert(ls2[c] == ls[c]);
                    assert forall|j: int| lo <= j < c implies !is_key(#[trigger] ls2[j], key2) by {
                        if j != k {
                            assert(ls2[j] == ls[j]);
                        }
                    }
                    assert(first_key_at(ls2, lo, hi, key2, c));
                    lemma_key_index_is(ls2, lo, hi, key2, c);
                },
                None => {
                    if exists|c: int| first_key_at(ls2, lo, hi, key2, c) {
                        let c = choose|c: int| first_key_at(ls2, lo, hi, key2, c);
                        if c != k {
                            assert(ls2[c] == ls[c]);
                        }
                        lemma_no_key(ls, lo, hi, key2, c);
                    }
                },
            }
        },
        None => {
            assert forall|j: int| 0 <= j < ls2.len() implies !is_header(#[trigger] ls2[j], sec2) by {
                if j != k {
                    assert(ls2[j] == ls[j]);
                }
                lemma_no_header(ls, sec2, j);
            }
        },
    }
}

/// Lookups in `[sec2]` are unchanged by appending lines that start with a
/// header of another section.
proof fn lemma_get_append_section(base: Seq<LineV>, tail: Seq<LineV>, sec2: Seq<char>, key2: Seq<char>)
    requires
        tail.len() > 0,
        tail[0] is Section,
        !is_header(tail[0], sec2),
        header_index(base, sec2) is Some,
    ensures
        spec_get(base + tail, sec2, key2) == spec_get(base, sec2, key2),
{
    let ls = base + tail;
    let h = header_index(base, sec2)->Some_0;
    assert(ls[h] == base[h]);
    assert forall|j: int| 0 <= j < h implies !is_header(#[trigger] ls[j], sec2) by {
        assert(ls[j] == base[j]);
    }
    assert(first_header_at(ls, sec2, h));
    lemma_header_index_is(ls, sec2, h);
    let lo = h + 1;
    lemma_section_end_props(base, lo);
    let hi = section_end(base, lo);
    assert forall|j: int| lo <= j < hi implies !(#[trigger] ls[j] is Section) by {
        assert(ls[j] == base[j]);
    }
    if hi < base.len() {
        assert(ls[hi] == base[hi]);
    } else {
        assert(ls[hi] == tail[0]);
    }
    assert(next_section_at(ls, lo, hi));
    lemma_section_end_is(ls, lo, hi);
    match key_index(base, lo, hi, key2) {
        Some(k) => {
            assert(ls[k] == base[k]);
            assert forall|j: int| lo <= j < k implies !is_key(#[trigger] ls[j], key2) by {
                assert(ls[j] == base[j]);
            }
            assert(first_key_at(ls, lo, hi, key2, k));
            lemma_key_index_is(ls, lo, hi, key2, k);
        },
        None => {
            if exists|c: int| first_key_at(ls, lo, hi, key2, c) {
                let c = choose|c: int| first_key_at(ls, lo, hi, key2, c);
                assert(ls[c] == base[c]);
                lemma_no_key(base, lo, hi, key2, c);
            }
        },
    }
}

/// Setting a key leaves the value of every other key alone, in its own
/// section and in every other one: edits don't clobber unrelated settings.
pub proof fn law_set_keeps_other_keys(
    ls: Seq<LineV>,
    sec: Seq<char>,
    key: Seq<char>,
    value: Seq<char>,
    sec2: Seq<char>,
    key2: Seq<char>,
)
    requires
        sec2 != sec || key2 != key,
    ensures
        spec_get(spec_set(ls, sec, key, value), sec2, key2) == spec_get(ls, sec2, key2),
{
    let kv = canonical_kv(key, value);
    match header_index(ls, sec) {
        Some(h) => {
            let lo = h + 1;
            lemma_section_end_props(ls, lo);
            let hi = section_end(ls, lo);
            match key_index(ls, lo, hi, key) {
                Some(k) => {
                    if sec2 != sec && section_range(ls, sec2) is Some {
                        lemma_ranges_apart(ls, sec, sec2);
                    }
                    lemma_get_update(ls, k, kv, sec2, key2);
                },
                None => {
                    lemma_insert_pos_props(ls, lo, hi);
                    let at = insert_pos(ls, lo, hi);
                    if sec2 != sec && section_range(ls, sec2) is Some {
                        lemma_ranges_apart(ls, sec, sec2);
                    }
                    lemma_get_insert(ls, at, kv, sec2, key2);
                },
            }
        },
        None => {
            let base = with_separator(ls);
            if ls.len() > 0 && !(ls.last() is Blank) {
                assert(base =~= ls.insert(ls.len() as int, blank_sep()));
                lemma_get_insert(ls, ls.len() as int, blank_sep(), sec2, key2);
                lemma_insert_header_index(ls, ls.len() as int, blank_sep(), sec);
            }
            assert(spec_get(base, sec2, key2) == spec_get(ls, sec2, key2));
            assert(header_index(base, sec) is None);
            let tail = seq![canonical_header(sec), kv];
            let ls2 = base + tail;
            assert(ls2 =~= spec_set(ls, sec, key, value));
            if sec2 != sec {
                if header_index(base, sec2) is Some {
                    lemma_get_append_section(base, tail, sec2, key2);
                } else {
                    assert forall|j: int| 0 <= j < ls2.len() implies !is_header(#[trigger] ls2[j], sec2) by {
                        if j < base.len() {
                            assert(ls2[j] == base[j]);
                            lemma_no_header(base, sec2, j);
                        }
                    }
                }
            } else {
                let m = base.len() as int;
                assert forall|j: int| 0 <= j < m implies !is_header(#[trigger] ls2[j], sec) by {
                    assert(ls2[j] == base[j]);
                    lemma_no_header(base, sec, j);
                }
                assert(first_header_at(ls2, sec, m));
                lemma_header_index_is(ls2, sec, m);
                lemma_section_end_len(ls2, m + 1);
                let lo = m + 1;
                let hi = m + 2;
                if exists|c: int| #[trigger] first_key_at(ls2, lo, hi, key2, c) {
                    let c = choose|c: int| #[trigger] first_key_at(ls2, lo, hi, key2, c);
                    assert(ls2[c] == kv);
                }
            }
        },
    }
}

/// Replacing a non-header line outside `[sec2]` leaves its entries alone.
proof fn lemma_entries_update(ls: Seq<LineV>, k: int, l: LineV, sec2: Seq<char>)
    requires
        0 <= k < ls.len(),
        !(l is Section),
        !(ls[k] is Section),
        match section_range(ls, sec2) {
            Some((lo, hi)) => k < lo || k >= hi,
            None => true,
        },
    ensures
        spec_section_entries(ls.update(k, l), sec2) == spec_section_entries(ls, sec2),
{
    let ls2 = ls.update(k, l);
    match header_index(ls, sec2) {
        Some(h) => {
            assert(ls2[h] == ls[h]);
            assert forall|j: int| 0 <= j < h implies !is_header(#[trigger] ls2[j], sec2) by {
                if j != k {
                    assert(ls2[j] == ls[j]);
                }
            }
            assert(first_header_at(ls2, sec2, h));
            lemma_header_index_is(ls2, sec2, h);
            let lo = h + 1;
            lemma_section_end_props(ls, lo);
            let hi = section_end(ls, lo);
            assert forall|j: int| lo <= j < hi implies !(#[trigger] ls2[j] is Section) by {
                if j != k {
                    assert(ls2[j] == ls[j]);
                }
            }
            if hi < ls.len() {
                assert(ls2[hi] == ls[hi]);
                assert(next_section_at(ls2, lo, hi));
                lemma_section_end_is(ls2, lo, hi);
            } else {
                lemma_section_end_len(ls2, lo);
            }
            assert(ls2.subrange(lo, hi) =~= ls.subrange(lo, hi));
        },
        None => {
            assert forall|j: int| 0 <= j < ls2.len() implies !is_header(#[trigger] ls2[j], sec2) by {
                if j != k {
                    assert(ls2[j] == ls[j]);
                }
                lemma_no_header(ls, sec2, j);
            }
        },
    }
}

/// Inserting a non-header line outside `[sec2]` (not at its end) leaves its
/// entries alone.
proof fn lemma_entries_insert(ls: Seq<LineV>, p: int, l: LineV, sec2: Seq<char>)
    requires
        0 <= p <= ls.len(),
        !(l is Section),
        match section_range(ls, sec2) {
            Some((lo, hi)) => p < lo || p > hi,
            None => true,
        },
    ensures
        spec_section_entries(ls.insert(p, l), sec2) == spec_section_entries(ls, sec2),
{
    let ls2 = ls.insert(p, l);
    lemma_insert_header_index(ls, p, l, sec2);
    match header_index(ls, sec2) {
        Some(h) => {
            let lo = h + 1;
            lemma_section_end_props(ls, lo);
            let hi = section_end(ls, lo);
            lemma_insert_section_end(ls, p, l, lo);
            if p < lo {
                assert(ls2.subrange(lo + 1, hi + 1) =~= ls.subrange(lo, hi));
            } else {
                assert(ls2.subrange(lo, hi) =~= ls.subrange(lo, hi));
            }
        },
        None => {},
    }
}

proof fn lemma_kv_pairs_push_blank(x: Seq<LineV>)
    ensures
        kv_pairs(x.push(blank_sep())) == kv_pairs(x),
{
    assert(x.push(blank_sep()).drop_last() =~= x);
}

proof fn lemma_kv_pairs_push_any_blank(x: Seq<LineV>, l: LineV)
    requires
        l is Blank,
    ensures
        kv_pairs(x.push(l)) == kv_pairs(x),
{
    assert(x.push(l).drop_last() =~= x);
}

/// Dropping a trailing blank line leaves every section's entries alone.
proof fn lemma_entries_drop_blank(ls: Seq<LineV>, sec2: Seq<char>)
    requires
        ls.len() > 0,
        ls.last() is Blank,
    ensures
        spec_section_entries(ls.drop_last(), sec2) == spec_section_entries(ls, sec2),
{
    let p = ls.drop_last();
    let l = ls.last();
    assert(ls =~= p.insert(p.len() as int, l));
    lemma_insert_header_index(p, p.len() as int, l, sec2);
    match header_index(p, sec2) {
        Some(h) => {
            let lo = h + 1;
            lemma_section_end_props(p, lo);
            let hi = section_end(p, lo);
            lemma_insert_section_end(p, p.len() as int, l, lo);
            if hi < p.len() {
                assert(ls.subrange(lo, hi) =~= p.subrange(lo, hi));
            } else {
                assert(ls.subrange(lo, hi + 1) =~= p.subrange(lo, hi).push(l));
                lemma_kv_pairs_push_any_blank(p.subrange(lo, hi), l);
            }
        },
        None => {},
    }
}

proof fn lemma_entries_collapse(ls: Seq<LineV>, sec2: Seq<char>)
    ensures
        spec_section_entries(collapse_blanks(ls), sec2) == spec_section_entries(ls, sec2),
    decreases ls.len(),
{
    if ls.len() >= 2 && ls.last() is Blank && ls[ls.len() - 2] is Blank {
        lemma_entries_drop_blank(ls, sec2);
        lemma_entries_collapse(ls.drop_last(), sec2);
    }
}

/// Cutting a whole section leaves the entries of every other section alone.
proof fn lemma_entries_cut_section(ls: Seq<LineV>, sec: Seq<char>, sec2: Seq<char>)
    requires
        sec != sec2,
        header_index(ls, sec) is Some,
    ensures
        ({
            let h = header_index(ls, sec)->Some_0;
            let hi = section_end(ls, h + 1);
            spec_section_entries(ls.subrange(0, h) + ls.subrange(hi, ls.len() as int), sec2)
                == spec_section_entries(ls, sec2)
        }),
{
    let h = header_index(ls, sec)->Some_0;
    lemma_section_end_props(ls, h + 1);
    let hi = section_end(ls, h + 1);
    let d = hi - h;
    let js = ls.subrange(0, h) + ls.subrange(hi, ls.len() as int);
    assert(js.len() == ls.len() - d);
    assert forall|j: int| 0 <= j < js.len() implies #[trigger] js[j] == (if j < h {
        ls[j]
    } else {
        ls[j + d]
    }) by {}
    match header_index(ls, sec2) {
        Some(h2) => {
            assert(h2 != h);
            let lo2 = h2 + 1;
            lemma_section_end_props(ls, lo2);
            let e = section_end(ls, lo2);
            if h2 < h {
                if e > h {
                    assert(!(ls[h] is Section));
                }
                assert forall|j: int| 0 <= j < h2 implies !is_header(#[trigger] js[j], sec2) by {
                    assert(js[j] == ls[j]);
                }
                assert(js[h2] == ls[h2]);
                assert(first_header_at(js, sec2, h2));
                lemma_header_index_is(js, sec2, h2);
                assert forall|j: int| lo2 <= j < e implies !(#[trigger] js[j] is Section) by {
                    assert(js[j] == ls[j]);
                }
                if e < h {
                    assert(js[e] == ls[e]);
                    assert(next_section_at(js, lo2, e));
                    lemma_section_end_is(js, lo2, e);
                } else if hi < ls.len() {
                    assert(js[h] == ls[hi]);
                    assert(next_section_at(js, lo2, e));
                    lemma_section_end_is(js, lo2, e);
                } else {
                    lemma_section_end_len(js, lo2);
                }
                assert(js.subrange(lo2, e) =~= ls.subrange(lo2, e));
            } else {
                if h2 < hi {
                    assert(!(ls[h2] is Section));
                }
                let g = h2 - d;
                assert(js[g] == ls[h2]);
                assert forall|j: int| 0 <= j < g implies !is_header(#[trigger] js[j], sec2) by {
                    if j < h {
                        assert(js[j] == ls[j]);
                    } else {
                        assert(js[j] == ls[j + d]);
                    }
                }
                assert(first_header_at(js, sec2, g));
                lemma_header_index_is(js, sec2, g);
                assert forall|j: int| g + 1 <= j < e - d implies !(#[trigger] js[j] is Section) by {
                    assert(js[j] == ls[j + d]);
                }
                if e < ls.len() {
                    assert(js[e - d] == ls[e]);
                    assert(next_section_at(js, g + 1, e - d));
                    lemma_section_end_is(js, g + 1, e - d);
                } else {
                    lemma_section_end_len(js, g + 1);
                }
                assert(js.subrange(g + 1, e - d) =~= ls.subrange(lo2, e));
            }
        },
        None => {
            assert forall|j: int| 0 <= j < js.len() implies !is_header(#[trigger] js[j], sec2) by {
                if j < h {
                    lemma_no_header(ls, sec2, j);
                } else {
                    lemma_no_header(ls, sec2, j + d);
                }
            }
        },
    }
}

/// Removing a section leaves every other section's entries alone: same
/// keys, same values, same order.
pub proof fn law_remove_section_keeps_other_sections(ls: Seq<LineV>, sec: Seq<char>, sec2: Seq<char>)
    requires
        sec2 != sec,
    ensures
        spec_section_entries(spec_remove_section(ls, sec), sec2) == spec_section_entries(ls, sec2),
{
    match header_index(ls, sec) {
        Some(h) => {
            lemma_entries_cut_section(ls, sec, sec2);
            let hi = section_end(ls, h + 1);
            lemma_entries_collapse(ls.subrange(0, h) + ls.subrange(hi, ls.len() as int), sec2);
        },
        None => {},
    }
}

/// Appending a blank line leaves every section's entries alone.
proof fn lemma_entries_push_blank(ls: Seq<LineV>, sec2: Seq<char>)
    ensures
        spec_section_entries(ls.push(blank_sep()), sec2) == spec_section_entries(ls, sec2),
{
    let ls2 = ls.push(blank_sep());
    assert(ls2 =~= ls.insert(ls.len() as int, blank_sep()));
    lemma_insert_header_index(ls, ls.len() as int, blank_sep(), sec2);
    match header_index(ls, sec2) {
        Some(h) => {
            let lo = h + 1;
            lemma_section_end_props(ls, lo);
            let hi = section_end(ls, lo);
            lemma_insert_section_end(ls, ls.len() as int, blank_sep(), lo);
            if hi < ls.len() {
                assert(ls2.subrange(lo, hi) =~= ls.subrange(lo, hi));
            } else {
                assert(ls2.subrange(lo, hi + 1) =~= ls.subrange(lo, hi).push(blank_sep()));
                lemma_kv_pairs_push_blank(ls.subrange(lo, hi));
            }
        },
        None => {},
    }
}

/// Appending lines that start with another section's header leaves the
/// entries of `[sec2]` alone.
proof fn lemma_entries_append_section(base: Seq<LineV>, tail: Seq<LineV>, sec2: Seq<char>)
    requires
        tail.len() > 0,
        tail[0] is Section,
        !is_header(tail[0], sec2),
        header_index(base, sec2) is Some,
    ensures
        spec_section_entries(base + tail, sec2) == spec_section_entries(base, sec2),
{
    let ls = base + tail;
    let h = header_index(base, sec2)->Some_0;
    assert(ls[h] == base[h]);
    assert forall|j: int| 0 <= j < h implies !is_header(#[trigger] ls[j], sec2) by {
        assert(ls[j] == base[j]);
    }
    assert(first_header_at(ls, sec2, h));
    lemma_header_index_is(ls, sec2, h);
    let lo = h + 1;
    lemma_section_end_props(base, lo);
    let hi = section_end(base, lo);
    assert forall|j: int| lo <= j < hi implies !(#[trigger] ls[j] is Section) by {
        assert(ls[j] == base[j]);
    }
    if hi < base.len() {
        assert(ls[hi] == base[hi]);
    } else {
        assert(ls[hi] == tail[0]);
    }
    assert(next_section_at(ls, lo, hi));
    lemma_section_end_is(ls, lo, hi);
    assert(ls.subrange(lo, hi) =~= base.subrange(lo, hi));
}

/// Setting a key leaves every other section's entries alone: same keys,
/// same values, same order.
pub proof fn law_set_keeps_other_sections(
    ls: Seq<LineV>,
    sec: Seq<char>,
    key: Seq<char>,
    value: Seq<char>,
    sec2: Seq<char>,
)
    requires
        sec2 != sec,
    ensures
        spec_section_entries(spec_set(ls, sec, key, value), sec2) == spec_section_entries(ls, sec2),
{
    let kv = canonical_kv(key, value);
    match header_index(ls, sec) {
        Some(h) => {
            let lo = h + 1;
            lemma_section_end_props(ls, lo);
            let hi = section_end(ls, lo);
            if section_range(ls, sec2) is Some {
                lemma_ranges_apart(ls, sec, sec2);
            }
            match key_index(ls, lo, hi, key) {
                Some(k) => {
                    let c = choose|c: int| first_key_at(ls, lo, hi, key, c);
                    lemma_entries_update(ls, k, kv, sec2);
                },
                None => {
                    lemma_insert_pos_props(ls, lo, hi);
                    lemma_entries_insert(ls, insert_pos(ls, lo, hi), kv, sec2);
                },
            }
        },
        None => {
            let base = with_separator(ls);
            if ls.len() > 0 && !(ls.last() is Blank) {
                lemma_entries_push_blank(ls, sec2);
            }
            let tail = seq![canonical_header(sec), kv];
            assert(spec_set(ls, sec, key, value) =~= base + tail);
            if header_index(base, sec2) is Some {
                lemma_entries_append_section(base, tail, sec2);
            } else {
                let ls2 = base + tail;
                assert forall|j: int| 0 <= j < ls2.len() implies !is_header(#[trigger] ls2[j], sec2) by {
                    if j < base.len() {
                        assert(ls2[j] == base[j]);
                        lemma_no_header(base, sec2, j);
                    }
                }
            }
        },
    }
}

/// Dropping a trailing blank line leaves every lookup alone.
proof fn lemma_get_drop_blank(ls: Seq<LineV>, sec2: Seq<char>, key2: Seq<char>)
    requires
        ls.len() > 0,
        ls.last() is Blank,
    ensures
        spec_get(ls.drop_last(), sec2, key2) == spec_get(ls, sec2, key2),
{
    let n = ls.len() - 1;
    assert(ls =~= ls.drop_last().insert(n, ls.last()));
    lemma_get_insert(ls.drop_last(), n, ls.last(), sec2, key2);
}

proof fn lemma_get_collapse(ls: Seq<LineV>, sec2: Seq<char>, key2: Seq<char>)
    ensures
        spec_get(collapse_blanks(ls), sec2, key2) == spec_get(ls, sec2, key2),
    decreases ls.len(),
{
    if ls.len() >= 2 && ls.last() is Blank && ls[ls.len() - 2] is Blank {
        lemma_get_drop_blank(ls, sec2, key2);
        lemma_get_collapse(ls.drop_last(), sec2, key2);
    }
}

/// Cutting a whole section (its header `h` up to the next header or the end)
/// leaves the lookups of every other section alone.
proof fn lemma_get_cut_section(ls: Seq<LineV>, sec: Seq<char>, sec2: Seq<char>, key2: Seq<char>)
    requires
        sec != sec2,
        header_index(ls, sec) is Some,
    ensures
        ({
            let h = header_index(ls, sec)->Some_0;
            let hi = section_end(ls, h + 1);
            spec_get(ls.subrange(0, h) + ls.subrange(hi, ls.len() as int), sec2, key2) == spec_get(ls, sec2, key2)
        }),
{
    let h = header_index(ls, sec)->Some_0;
    lemma_section_end_props(ls, h + 1);
    let hi = section_end(ls, h + 1);
    let d = hi - h;
    let js = ls.subrange(0, h) + ls.subrange(hi, ls.len() as int);
    assert(js.len() == ls.len() - d);
    assert forall|j: int| 0 <= j < js.len() implies #[trigger] js[j] == (if j < h {
        ls[j]
    } else {
        ls[j + d]
    }) by {}
    match header_index(ls, sec2) {
        Some(h2) => {
            assert(h2 != h);
            let lo2 = h2 + 1;
            lemma_section_end_props(ls, lo2);
            let e = section_end(ls, lo2);
            if h2 < h {
                if e > h {
                    assert(!(ls[h] is Section));
                }
                assert forall|j: int| 0 <= j < h2 implies !is_header(#[trigger] js[j], sec2) by {
                    assert(js[j] == ls[j]);
                }
                assert(js[h2] == ls[h2]);
                assert(first_header_at(js, sec2, h2));
                lemma_header_index_is(js, sec2, h2);
                assert forall|j: int| lo2 <= j < e implies !(#[trigger] js[j] is Section) by {
                    assert(js[j] == ls[j]);
                }
                if e < h {
                    assert(js[e] == ls[e]);
                    assert(next_section_at(js, lo2, e));
                    lemma_section_end_is(js, lo2, e);
                } else if hi < ls.len() {
                    assert(js[h] == ls[hi]);
                    assert(next_section_at(js, lo2, e));
                    lemma_section_end_is(js, lo2, e);
                } else {
                    lemma_section_end_len(js, lo2);
                }
                match key_index(ls, lo2, e, key2) {
                    Some(k) => {
                        assert(js[k] == ls[k]);
                        assert forall|j: int| lo2 <= j < k implies !is_key(#[trigger] js[j], key2) by {
                            assert(js[j] == ls[j]);
                        }
                        assert(first_key_at(js, lo2, e, key2, k));
                        lemma_key_index_is(js, lo2, e, key2, k);
                    },
                    None => {
                        if exists|c: int| #[trigger] first_key_at(js, lo2, e, key2, c) {
                            let c = choose|c: int| #[trigger] first_key_at(js, lo2, e, key2, c);
                            assert(js[c] == ls[c]);
                            lemma_no_key(ls, lo2, e, key2, c);
                        }
                    },
                }
            } else {
                if h2 < hi {
                    assert(!(ls[h2] is Section));
                }
                let g = h2 - d;
                assert(js[g] == ls[h2]);
                assert forall|j: int| 0 <= j < g implies !is_header(#[trigger] js[j], sec2) by {
                    if j < h {
                        assert(js[j] == ls[j]);
                    } else {
                        assert(js[j] == ls[j + d]);
                    }
                }
                assert(first_header_at(js, sec2, g));
                lemma_header_index_is(js, sec2, g);
                assert forall|j: int| g + 1 <= j < e - d implies !(#[trigger] js[j] is Section) by {
                    assert(js[j] == ls[j + d]);
                }
                if e < ls.len() {
                    assert(js[e - d] == ls[e]);
                    assert(next_section_at(js, g + 1, e - d));
                    lemma_section_end_is(js, g + 1, e - d);
                } else {
                    lemma_section_end_len(js, g + 1);
                }
                match key_index(ls, lo2, e, key2) {
                    Some(k) => {
                        assert(js[k - d] == ls[k]);
                        assert forall|j: int| g + 1 <= j < k - d implies !is_key(#[trigger] js[j], key2) by {
                            assert(js[j] == ls[j + d]);
                        }
                        assert(first_key_at(js, g + 1, e - d, key2, k - d));
                        lemma_key_index_is(js, g + 1, e - d, key2, k - d);
                    },
                    None => {
                        let a = g + 1;
                        let b = e - d;
                        if exists|c: int| #[trigger] first_key_at(js, a, b, key2, c) {
                            let c = choose|c: int| #[trigger] first_key_at(js, a, b, key2, c);
                            assert(js[c] == ls[c + d]);
                            lemma_no_key(ls, lo2, e, key2, c + d);
                        }
                    },
                }
            }
        },
        None => {
            assert forall|j: int| 0 <= j < js.len() implies !is_header(#[trigger] js[j], sec2) by {
                if j < h {
                    lemma_no_header(ls, sec2, j);
                } else {
                    lemma_no_header(ls, sec2, j + d);
                }
            }
        },
    }
}

/// Removing a section leaves every other section's values alone.
pub proof fn law_remove_section_keeps_others(ls: Seq<LineV>, sec: Seq<char>, sec2: Seq<char>, key2: Seq<char>)
    requires
        sec2 != sec,
    ensures
        spec_get(spec_remove_section(ls, sec), sec2, key2) == spec_get(ls, sec2, key2),
{
    match header_index(ls, sec) {
        Some(h) => {
            lemma_get_cut_section(ls, sec, sec2, key2);
            let hi = section_end(ls, h + 1);
            lemma_get_collapse(ls.subrange(0, h) + ls.subrange(hi, ls.len() as int), sec2, key2);
        },
        None => {},
    }
}

/// At most one `[sec]` section.
pub open spec fn at_most_one_section(ls: Seq<LineV>, sec: Seq<char>) -> bool {
    forall|i: int, j: int|
        0 <= i < ls.len() && 0 <= j < ls.len() && is_header(#[trigger] ls[i], sec) && is_header(#[trigger] ls[j], sec)
            ==> i == j
}

pub(crate) proof fn lemma_collapse_is_prefix(ls: Seq<LineV>)
    ensures
        collapse_blanks(ls).len() <= ls.len(),
        forall|j: int| 0 <= j < collapse_blanks(ls).len() ==> #[trigger] collapse_blanks(ls)[j] == ls[j],
    decreases ls.len(),
{
    if ls.len() >= 2 && ls.last() is Blank && ls[ls.len() - 2] is Blank {
        lemma_collapse_is_prefix(ls.drop_last());
    }
}

/// Once the only `[sec]` section is removed, no `[sec]` header is left.
pub proof fn lemma_removed_has_no_header(ls: Seq<LineV>, sec: Seq<char>)
    requires
        at_most_one_section(ls, sec),
    ensures
        header_index(spec_remove_section(ls, sec), sec) is None,
{
    match header_index(ls, sec) {
        Some(h) => {
            lemma_section_end_props(ls, h + 1);
            let hi = section_end(ls, h + 1);
            let d = hi - h;
            let js = ls.subrange(0, h) + ls.subrange(hi, ls.len() as int);
            let out = collapse_blanks(js);
            lemma_collapse_is_prefix(js);
            assert forall|j: int| 0 <= j < out.len() implies !is_header(#[trigger] out[j], sec) by {
                assert(out[j] == js[j]);
                if j < h {
                    assert(js[j] == ls[j]);
                } else {
                    assert(js[j] == ls[j + d]);
                    if is_header(ls[j + d], sec) {
                        assert(is_header(ls[h], sec));
                    }
                }
            }
        },
        None => {},
    }
}

/// Once the only `[sec]` section is removed, none of its keys can be read.
pub proof fn law_removed_section_reads_nothing(ls: Seq<LineV>, sec: Seq<char>, key: Seq<char>)
    requires
        at_most_one_section(ls, sec),
    ensures
        spec_get(spec_remove_section(ls, sec), sec, key) is None,
{
    lemma_removed_has_no_header(ls, sec);
}

} // verus!
