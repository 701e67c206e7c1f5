//! Laws of the rclone.conf document model about its list of sections: what
//! `set` and `remove_section` do to it, and which lines a removal keeps.
use crate::config_laws::{
    at_most_one_section, law_remove_section_keeps_other_sections, law_removed_section_reads_nothing,
    lemma_collapse_is_prefix,
};
use crate::rclone_config::{
    canonical_header, canonical_kv, collapse_blanks, first_header_at, header_index, insert_pos, is_header,
    key_index, lemma_header_index_is, lemma_insert_pos_props, lemma_no_header, lemma_section_end_props,
    section_end, section_names, spec_get, spec_remove_section, spec_section_entries, spec_set, with_separator, LineV,
};
use vstd::prelude::*;

verus! {

proof fn lemma_names_push(ls: Seq<LineV>, l: LineV)
    ensures
        section_names(ls.push(l)) == match l {
            LineV::Section { name, .. } => section_names(ls).push(name),
            _ => section_names(ls),
        },
{
    assert(ls.push(l).drop_last() =~= ls);
}

/// The sections of two pieces are those of each, in order.
proof fn lemma_names_concat(a: Seq<LineV>, b: Seq<LineV>)
    ensures
        section_names(a + b) == section_names(a) + section_names(b),
    decreases b.len(),
{
    if b.len() == 0 {
        assert(a + b =~= a);
        assert(section_names(a) + Seq::<Seq<char>>::empty() =~= section_names(a));
    } else {
        lemma_names_concat(a, b.drop_last());
        assert((a + b).drop_last() =~= a + b.drop_last());
        assert((a + b).last() == b.last());
        match b.last() {
            LineV::Section { name, .. } => {
                assert(section_names(a) + section_names(b.drop_last()).push(name) =~= (section_names(a)
                    + section_names(b.drop_last())).push(name));
            },
            _ => {},
        }
    }
}

/// Lines that hold no header add no section.
proof fn lemma_names_none(ls: Seq<LineV>)
    requires
        forall|j: int| 0 <= j < ls.len() ==> !(#[trigger] ls[j] is Section),
    ensures
        section_names(ls) == Seq::<Seq<char>>::empty(),
    decreases ls.len(),
{
    if ls.len() > 0 {
        assert(!(ls[ls.len() - 1] is Section));
        lemma_names_none(ls.drop_last());
    }
}

/// Inserting a line that is no header leaves the sections alone.
proof fn lemma_names_insert(ls: Seq<LineV>, p: int, l: LineV)
    requires
        0 <= p <= ls.len(),
        !(l is Section),
    ensures
        section_names(ls.insert(p, l)) == section_names(ls),
{
    assert(ls.insert(p, l) =~= ls.subrange(0, p) + seq![l] + ls.subrange(p, ls.len() as int));
    assert(ls =~= ls.subrange(0, p) + ls.subrange(p, ls.len() as int));
    lemma_names_concat(ls.subrange(0, p) + seq![l], ls.subrange(p, ls.len() as int));
    lemma_names_concat(ls.subrange(0, p), seq![l]);
    lemma_names_concat(ls.subrange(0, p), ls.subrange(p, ls.len() as int));
    lemma_names_none(seq![l]);
    assert(section_names(ls.subrange(0, p)) + Seq::<Seq<char>>::empty() =~= section_names(ls.subrange(0, p)));
}

/// Replacing a line that is no header by another leaves the sections alone.
proof fn lemma_names_update(ls: Seq<LineV>, k: int, l: LineV)
    requires
        0 <= k < ls.len(),
        !(l is Section),
        !(ls[k] is Section),
    ensures
        section_names(ls.update(k, l)) == section_names(ls),
{
    let a = ls.subrange(0, k);
    let b = ls.subrange(k + 1, ls.len() as int);
    assert(ls.update(k, l) =~= a + seq![l] + b);
    assert(ls =~= a + seq![ls[k]] + b);
    lemma_names_concat(a + seq![l], b);
    lemma_names_concat(a, seq![l]);
    lemma_names_concat(a + seq![ls[k]], b);
    lemma_names_concat(a, seq![ls[k]]);
    lemma_names_none(seq![l]);
    lemma_names_none(seq![ls[k]]);
}

/// A section is listed exactly when some line is its header.
proof fn lemma_names_contains(ls: Seq<LineV>, sec: Seq<char>)
    ensures
        section_names(ls).contains(sec) <==> exists|j: int| 0 <= j < ls.len() && is_header(#[trigger] ls[j], sec),
    decreases ls.len(),
{
    if ls.len() > 0 {
        let p = ls.drop_last();
        lemma_names_contains(p, sec);
        lemma_names_push(p, ls.last());
        assert(p.push(ls.last()) =~= ls);
        if exists|j: int| 0 <= j < p.len() && is_header(#[trigger] p[j], sec) {
            let j = choose|j: int| 0 <= j < p.len() && is_header(#[trigger] p[j], sec);
            assert(ls[j] == p[j]);
        }
        if exists|j: int| 0 <= j < ls.len() && is_header(#[trigger] ls[j], sec) {
            let j = choose|j: int| 0 <= j < ls.len() && is_header(#[trigger] ls[j], sec);
            if j < p.len() {
                assert(p[j] == ls[j]);
            }
        }
        match ls.last() {
            LineV::Section { name, .. } => {
                let ns = section_names(p).push(name);
                if section_names(p).contains(sec) {
                    let i = choose|i: int| 0 <= i < section_names(p).len() && section_names(p)[i] == sec;
                    assert(ns[i] == sec);
                }
                if ns.contains(sec) {
                    let i = choose|i: int| 0 <= i < ns.len() && ns[i] == sec;
                    if i < section_names(p).len() {
                        assert(section_names(p)[i] == sec);
                    } else {
                        assert(is_header(ls[ls.len() - 1], sec));
                    }
                }
                if is_header(ls.last(), sec) {
                    assert(ns[ns.len() - 1] == sec);
                }
            },
            _ => {},
        }
    }
}

/// Setting a key leaves the list of sections as it was when the section
/// exists, and appends the section when it does not.
pub proof fn law_set_sections(ls: Seq<LineV>, sec: Seq<char>, key: Seq<char>, value: Seq<char>)
    ensures
        section_names(spec_set(ls, sec, key, value)) == if section_names(ls).contains(sec) {
            section_names(ls)
        } else {
            section_names(ls).push(sec)
        },
{
    lemma_names_contains(ls, sec);
    let kv = canonical_kv(key, value);
    match header_index(ls, sec) {
        Some(h) => {
            let ch = choose|c: int| first_header_at(ls, sec, c);
            assert(is_header(ls[h], sec));
            let lo = h + 1;
            lemma_section_end_props(ls, lo);
            let hi = section_end(ls, lo);
            match key_index(ls, lo, hi, key) {
                Some(k) => {
                    let c = choose|c: int| crate::rclone_config::first_key_at(ls, lo, hi, key, c);
                    lemma_names_update(ls, k, kv);
                },
                None => {
                    lemma_insert_pos_props(ls, lo, hi);
                    lemma_names_insert(ls, insert_pos(ls, lo, hi), kv);
                },
            }
        },
        None => {
            assert forall|j: int| 0 <= j < ls.len() implies !is_header(#[trigger] ls[j], sec) by {
                lemma_no_header(ls, sec, j);
            }
            let base = with_separator(ls);
            if ls.len() > 0 && !(ls.last() is Blank) {
                lemma_names_push(ls, crate::rclone_config::blank_sep());
            }
            lemma_names_push(base, canonical_header(sec));
            lemma_names_push(base.push(canonical_header(sec)), kv);
        },
    }
}

/// Dropping trailing blank lines keeps every other line where it was.
proof fn lemma_collapse_keeps_non_blank(ls: Seq<LineV>, j: int)
    requires
        0 <= j < ls.len(),
        !(ls[j] is Blank),
    ensures
        j < collapse_blanks(ls).len(),
    decreases ls.len(),
{
    if ls.len() >= 2 && ls.last() is Blank && ls[ls.len() - 2] is Blank {
        assert(ls.drop_last()[j] == ls[j]);
        lemma_collapse_keeps_non_blank(ls.drop_last(), j);
    }
}

proof fn lemma_names_collapse(ls: Seq<LineV>)
    ensures
        section_names(collapse_blanks(ls)) == section_names(ls),
    decreases ls.len(),
{
    if ls.len() >= 2 && ls.last() is Blank && ls[ls.len() - 2] is Blank {
        lemma_names_collapse(ls.drop_last());
        lemma_names_push(ls.drop_last(), ls.last());
        assert(ls.drop_last().push(ls.last()) =~= ls);
    }
}

/// Removing a section takes its name out of the list of sections and keeps
/// the order of the others: the sections before its header, then those
/// after its last line. Every line before its header that is not blank
/// (comments among them) stays where it was.
pub proof fn law_remove_section_sections(ls: Seq<LineV>, sec: Seq<char>)
    ensures
        header_index(ls, sec) is None ==> spec_remove_section(ls, sec) == ls,
        header_index(ls, sec) matches Some(h) ==> ({
            let hi = section_end(ls, h + 1);
            &&& section_names(ls) == section_names(ls.subrange(0, h)) + seq![sec] + section_names(
                ls.subrange(hi, ls.len() as int),
            )
            &&& section_names(spec_remove_section(ls, sec)) == section_names(ls.subrange(0, h))
                + section_names(ls.subrange(hi, ls.len() as int))
            &&& forall|j: int| 0 <= j < h && !(#[trigger] ls[j] is Blank) ==> spec_remove_section(ls, sec)[j] == ls[j]
        }),
{
    match header_index(ls, sec) {
        Some(h) => {
            let ch = choose|c: int| first_header_at(ls, sec, c);
            assert(is_header(ls[h], sec));
            lemma_section_end_props(ls, h + 1);
            let hi = section_end(ls, h + 1);
            let a = ls.subrange(0, h);
            let mid = ls.subrange(h + 1, hi);
            let b = ls.subrange(hi, ls.len() as int);
            assert(ls =~= a + seq![ls[h]] + mid + b);
            lemma_names_concat(a + seq![ls[h]] + mid, b);
            lemma_names_concat(a + seq![ls[h]], mid);
            lemma_names_concat(a, seq![ls[h]]);
            assert forall|j: int| 0 <= j < mid.len() implies !(#[trigger] mid[j] is Section) by {
                assert(mid[j] == ls[h + 1 + j]);
            }
            lemma_names_none(mid);
            lemma_names_push(Seq::<LineV>::empty(), ls[h]);
            assert(Seq::<LineV>::empty().push(ls[h]) =~= seq![ls[h]]);
            assert(section_names(Seq::<LineV>::empty()) =~= Seq::<Seq<char>>::empty());
            assert(section_names(seq![ls[h]]) =~= seq![sec]);
            assert(section_names(a) + seq![sec] + Seq::<Seq<char>>::empty() =~= section_names(a) + seq![sec]);
            let js = a + b;
            lemma_names_concat(a, b);
            lemma_names_collapse(js);
            lemma_collapse_is_prefix(js);
            assert forall|j: int| 0 <= j < h && !(#[trigger] ls[j] is Blank) implies spec_remove_section(ls, sec)[j]
                == ls[j] by {
                assert(js[j] == ls[j]);
                lemma_collapse_keeps_non_blank(js, j);
            }
        },
        None => {},
    }
}

/// Removing the only `[sec]` section: nothing changes when there is none;
/// otherwise its name leaves the list of sections (the others keep their
/// order), none of its keys can be read, every other section keeps its
/// entries, and every line before its header that is not blank (comments
/// among them) stays where it was.
pub proof fn law_remove_section(ls: Seq<LineV>, sec: Seq<char>, key: Seq<char>, sec2: Seq<char>)
    requires
        at_most_one_section(ls, sec),
        sec2 != sec,
    ensures
        header_index(ls, sec) is None ==> spec_remove_section(ls, sec) == ls,
        header_index(ls, sec) matches Some(h) ==> ({
            let hi = section_end(ls, h + 1);
            &&& section_names(ls) == section_names(ls.subrange(0, h)) + seq![sec] + section_names(
                ls.subrange(hi, ls.len() as int),
            )
            &&& section_names(spec_remove_section(ls, sec)) == section_names(ls.subrange(0, h))
                + section_names(ls.subrange(hi, ls.len() as int))
            &&& forall|j: int| 0 <= j < h && !(#[trigger] ls[j] is Blank) ==> spec_remove_section(ls, sec)[j] == ls[j]
        }),
        spec_get(spec_remove_section(ls, sec), sec, key) is None,
        spec_section_entries(spec_remove_section(ls, sec), sec2) == spec_section_entries(ls, sec2),
{
    law_remove_section_sections(ls, sec);
    law_removed_section_reads_nothing(ls, sec, key);
    law_remove_section_keeps_other_sections(ls, sec, sec2);
}

} // verus!
