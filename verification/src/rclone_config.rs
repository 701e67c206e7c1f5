//! rclone.conf format I/O.
//!
//! rclone.conf is INI-shaped: `[section]` headers and `key = value` lines, with
//! `#` or `;` line comments and blank lines for grouping. Parsing is
//! line-oriented; every line keeps its raw text as read and rendering writes
//! it back verbatim, so parse followed by render gives back the input text.
//! Mutations replace only the lines they touch with canonical forms, refuse
//! control characters, and never run a new line into an unterminated last
//! one: rendering ends such a line before the next.
use crate::error::Error;
use crate::text::{is_ws, trim, trim_bounds, chars_of, string_from, push_char, push_str, str_eq, is_whitespace};
use vstd::prelude::*;

verus! {

// ---------------------------------------------------------------------------
// The line grammar, as spec functions over the input's characters.
// ---------------------------------------------------------------------------

/// One parsed line, as seen by the specification.
pub enum LineV {
    Section { name: Seq<char>, raw: Seq<char> },
    KeyValue { key: Seq<char>, value: Seq<char>, raw: Seq<char> },
    Comment { raw: Seq<char> },
    Blank { raw: Seq<char> },
}

/// First index `>= i` whose character fails `p` (or `s.len()`).
pub open spec fn scan(s: Seq<char>, i: int, p: spec_fn(char) -> bool) -> int
    decreases s.len() - i,
{
    if 0 <= i < s.len() && p(s[i]) {
        scan(s, i + 1, p)
    } else {
        i
    }
}

pub proof fn lemma_scan(s: Seq<char>, i: int, p: spec_fn(char) -> bool)
    requires
        0 <= i <= s.len(),
    ensures
        i <= scan(s, i, p) <= s.len(),
        forall|k: int| i <= k < scan(s, i, p) ==> p(#[trigger] s[k]),
        scan(s, i, p) < s.len() ==> !p(s[scan(s, i, p)]),
    decreases s.len() - i,
{
    if i < s.len() && p(s[i]) {
        lemma_scan(s, i + 1, p);
    }
}

/// Spaces and tabs.
pub open spec fn is_sp(c: char) -> bool {
    c == ' ' || c == '\t'
}

pub open spec fn sp_pred() -> spec_fn(char) -> bool {
    |c: char| is_sp(c)
}

/// Characters that do not end a line.
pub open spec fn not_eol_pred() -> spec_fn(char) -> bool {
    |c: char| c != '\r' && c != '\n'
}

/// Characters that do not close a section name.
pub open spec fn not_close_pred() -> spec_fn(char) -> bool {
    |c: char| c != ']' && c != '\n'
}

/// Characters allowed in a key.
pub open spec fn is_key_char(c: char) -> bool {
    !is_ws(c) && c != '=' && c != '[' && c != ']' && c != ';' && c != '#'
}

pub open spec fn key_pred() -> spec_fn(char) -> bool {
    |c: char| is_key_char(c)
}

/// Where a line ends, given the index `k` where its content stops: past a
/// `\n` or `\r\n`, or at the end of input. A lone `\r` is not a line end.
pub open spec fn eol_end(s: Seq<char>, k: int) -> Option<int> {
    if k >= s.len() {
        Some(s.len() as int)
    } else if s[k] == '\n' {
        Some(k + 1)
    } else if s[k] == '\r' && k + 1 < s.len() && s[k + 1] == '\n' {
        Some(k + 2)
    } else {
        None
    }
}

/// The line starting at `i` and the index just past it, or `None` when the
/// text there is neither blank, a comment, a section header nor a
/// `key = value` pair.
pub open spec fn line_at(s: Seq<char>, i: int) -> Option<(LineV, int)> {
    let j = scan(s, i, sp_pred());
    if j >= s.len() {
        Some((LineV::Blank { raw: s.subrange(i, s.len() as int) }, s.len() as int))
    } else if s[j] == '\n' {
        Some((LineV::Blank { raw: s.subrange(i, j + 1) }, j + 1))
    } else if s[j] == '\r' && j + 1 < s.len() && s[j + 1] == '\n' {
        Some((LineV::Blank { raw: s.subrange(i, j + 2) }, j + 2))
    } else if s[j] == ';' || s[j] == '#' {
        match eol_end(s, scan(s, j + 1, not_eol_pred())) {
            Some(e) => Some((LineV::Comment { raw: s.subrange(i, e) }, e)),
            None => None,
        }
    } else if s[j] == '[' {
        let t = scan(s, j + 1, not_close_pred());
        if t < s.len() && s[t] == ']' {
            match eol_end(s, scan(s, t + 1, not_eol_pred())) {
                Some(e) => Some(
                    (LineV::Section { name: trim(s.subrange(j + 1, t)), raw: s.subrange(i, e) }, e),
                ),
                None => None,
            }
        } else {
            None
        }
    } else {
        let k1 = scan(s, j, key_pred());
        let k2 = scan(s, k1, sp_pred());
        if k1 == j || k2 >= s.len() || s[k2] != '=' {
            None
        } else {
            let k = scan(s, k2 + 1, not_eol_pred());
            match eol_end(s, k) {
                Some(e) => Some(
                    (
                        LineV::KeyValue {
                            key: s.subrange(j, k1),
                            value: trim(s.subrange(k2 + 1, k)),
                            raw: s.subrange(i, e),
                        },
                        e,
                    ),
                ),
                None => None,
            }
        }
    }
}

/// The lines of `s` from index `i` on, or the index of the first line that
/// could not be parsed.
pub open spec fn parse_from(s: Seq<char>, i: int) -> Result<Seq<LineV>, int>
    decreases s.len() - i,
{
    if i < 0 || i >= s.len() {
        Ok(Seq::empty())
    } else {
        match line_at(s, i) {
            Some((l, e)) => if i < e <= s.len() {
                match parse_from(s, e) {
                    Ok(rest) => Ok(seq![l] + rest),
                    Err(p) => Err(p),
                }
            } else {
                Err(i)
            },
            None => Err(i),
        }
    }
}

/// The whole-document parse.
pub open spec fn spec_parse(s: Seq<char>) -> Result<Seq<LineV>, int> {
    parse_from(s, 0)
}

/// The text a line renders to.
pub open spec fn line_text(l: LineV) -> Seq<char> {
    match l {
        LineV::Section { raw, .. } => raw,
        LineV::KeyValue { raw, .. } => raw,
        LineV::Comment { raw } => raw,
        LineV::Blank { raw } => raw,
    }
}

/// Text that ends with a newline.
pub open spec fn ends_nl(t: Seq<char>) -> bool {
    t.len() > 0 && t.last() == '\n'
}

/// What goes between the lines `p` and the next one: a newline when the last
/// of `p` does not end with one, so that two lines never run together.
pub open spec fn gap(p: Seq<LineV>) -> Seq<char> {
    if p.len() > 0 && !ends_nl(line_text(p.last())) {
        seq!['\n']
    } else {
        Seq::empty()
    }
}

/// The text a sequence of lines renders to.
pub open spec fn render_lines(ls: Seq<LineV>) -> Seq<char>
    decreases ls.len(),
{
    if ls.len() == 0 {
        Seq::empty()
    } else {
        render_lines(ls.drop_last()) + gap(ls.drop_last()) + line_text(ls.last())
    }
}

// ---------------------------------------------------------------------------
// The document model: sections, lookups and edits on a line sequence.
// ---------------------------------------------------------------------------

pub open spec fn is_header(l: LineV, sec: Seq<char>) -> bool {
    l matches LineV::Section { name, .. } && name == sec
}

pub open spec fn is_key(l: LineV, key: Seq<char>) -> bool {
    l matches LineV::KeyValue { key: k, .. } && k == key
}

pub open spec fn first_header_at(ls: Seq<LineV>, sec: Seq<char>, h: int) -> bool {
    &&& 0 <= h < ls.len()
    &&& is_header(ls[h], sec)
    &&& forall|j: int| 0 <= j < h ==> !is_header(#[trigger] ls[j], sec)
}

/// Index of the first `[sec]` header.
pub open spec fn header_index(ls: Seq<LineV>, sec: Seq<char>) -> Option<int> {
    if exists|h: int| first_header_at(ls, sec, h) {
        Some(choose|h: int| first_header_at(ls, sec, h))
    } else {
        None
    }
}

pub open spec fn next_section_at(ls: Seq<LineV>, start: int, k: int) -> bool {
    &&& start <= k < ls.len()
    &&& ls[k] is Section
    &&& forall|j: int| start <= j < k ==> !(#[trigger] ls[j] is Section)
}

/// Index of the first section header at or after `start`, or the length.
pub open spec fn section_end(ls: Seq<LineV>, start: int) -> int {
    if exists|k: int| next_section_at(ls, start, k) {
        choose|k: int| next_section_at(ls, start, k)
    } else {
        ls.len() as int
    }
}

/// The half-open range of line indices inside the first `[sec]` section
/// (header excluded).
pub open spec fn section_range(ls: Seq<LineV>, sec: Seq<char>) -> Option<(int, int)> {
    match header_index(ls, sec) {
        Some(h) => Some((h + 1, section_end(ls, h + 1))),
        None => None,
    }
}

pub open spec fn first_key_at(ls: Seq<LineV>, lo: int, hi: int, key: Seq<char>, k: int) -> bool {
    &&& lo <= k < hi
    &&& is_key(ls[k], key)
    &&& forall|j: int| lo <= j < k ==> !is_key(#[trigger] ls[j], key)
}

/// Index of the first `key = ...` line in `ls[lo..hi]`.
pub open spec fn key_index(ls: Seq<LineV>, lo: int, hi: int, key: Seq<char>) -> Option<int> {
    if exists|k: int| first_key_at(ls, lo, hi, key, k) {
        Some(choose|k: int| first_key_at(ls, lo, hi, key, k))
    } else {
        None
    }
}

pub open spec fn kv_value(l: LineV) -> Seq<char> {
    match l {
        LineV::KeyValue { value, .. } => value,
        _ => Seq::empty(),
    }
}

/// The value of `key` in the first `[sec]` section.
pub open spec fn spec_get(ls: Seq<LineV>, sec: Seq<char>, key: Seq<char>) -> Option<Seq<char>> {
    match section_range(ls, sec) {
        Some((lo, hi)) => match key_index(ls, lo, hi, key) {
            Some(k) => Some(kv_value(ls[k])),
            None => None,
        },
        None => None,
    }
}

/// Every `(key, value)` pair of `ls`, in order.
pub open spec fn kv_pairs(ls: Seq<LineV>) -> Seq<(Seq<char>, Seq<char>)>
    decreases ls.len(),
{
    if ls.len() == 0 {
        Seq::empty()
    } else {
        match ls.last() {
            LineV::KeyValue { key, value, .. } => kv_pairs(ls.drop_last()).push((key, value)),
            _ => kv_pairs(ls.drop_last()),
        }
    }
}

/// The entries of the first `[sec]` section, in file order.
pub open spec fn spec_section_entries(ls: Seq<LineV>, sec: Seq<char>) -> Seq<(Seq<char>, Seq<char>)> {
    match section_range(ls, sec) {
        Some((lo, hi)) => kv_pairs(ls.subrange(lo, hi)),
        None => Seq::empty(),
    }
}

/// Every section name, in order.
pub open spec fn section_names(ls: Seq<LineV>) -> Seq<Seq<char>>
    decreases ls.len(),
{
    if ls.len() == 0 {
        Seq::empty()
    } else {
        match ls.last() {
            LineV::Section { name, .. } => section_names(ls.drop_last()).push(name),
            _ => section_names(ls.drop_last()),
        }
    }
}

/// The canonical `key = value` line.
pub open spec fn canonical_kv(key: Seq<char>, value: Seq<char>) -> LineV {
    LineV::KeyValue { key, value, raw: key + seq![' ', '=', ' '] + value + seq!['\n'] }
}

/// The canonical `[sec]` header line.
pub open spec fn canonical_header(sec: Seq<char>) -> LineV {
    LineV::Section { name: sec, raw: seq!['['] + sec + seq![']', '\n'] }
}

pub open spec fn last_non_blank_at(ls: Seq<LineV>, lo: int, hi: int, i: int) -> bool {
    &&& lo <= i < hi
    &&& !(ls[i] is Blank)
    &&& forall|j: int| i < j < hi ==> #[trigger] ls[j] is Blank
}

/// Where a new key goes in `ls[lo..hi]`: after its last non-blank line, or
/// at `hi` when every line there is blank.
pub open spec fn insert_pos(ls: Seq<LineV>, lo: int, hi: int) -> int {
    if exists|i: int| last_non_blank_at(ls, lo, hi, i) {
        (choose|i: int| last_non_blank_at(ls, lo, hi, i)) + 1
    } else {
        hi
    }
}

/// The blank line `set` adds before a new section.
pub open spec fn blank_sep() -> LineV {
    LineV::Blank { raw: seq!['\n'] }
}

/// `ls` with a blank line appended unless it is empty or already ends blank.
pub open spec fn with_separator(ls: Seq<LineV>) -> Seq<LineV> {
    if ls.len() > 0 && !(ls.last() is Blank) {
        ls.push(blank_sep())
    } else {
        ls
    }
}

/// Unicode's control characters (`char::is_control`: the C0 and C1 ranges
/// and DEL).
pub open spec fn is_control(c: char) -> bool {
    (c as u32) < 0x20 || (0x7f <= (c as u32) && (c as u32) <= 0x9f)
}

/// Text holding a control character.
pub open spec fn has_control(s: Seq<char>) -> bool {
    exists|i: int| 0 <= i < s.len() && is_control(#[trigger] s[i])
}

/// What `Document::set` accepts: no control character in the section name,
/// the key or the value (a newline there would inject lines of its own).
pub open spec fn set_clean(sec: Seq<char>, key: Seq<char>, value: Seq<char>) -> bool {
    !has_control(sec) && !has_control(key) && !has_control(value)
}

/// The message of a refused `set`.
pub open spec fn control_message() -> Seq<char> {
    "a section name, key or value holds a control character"@
}

/// The effect of `Document::set`.
pub open spec fn spec_set(ls: Seq<LineV>, sec: Seq<char>, key: Seq<char>, value: Seq<char>) -> Seq<LineV> {
    match section_range(ls, sec) {
        Some((lo, hi)) => match key_index(ls, lo, hi, key) {
            Some(k) => ls.update(k, canonical_kv(key, value)),
            None => ls.insert(insert_pos(ls, lo, hi), canonical_kv(key, value)),
        },
        None => with_separator(ls).push(canonical_header(sec)).push(canonical_kv(key, value)),
    }
}

/// Drops trailing blank lines until at most one remains at the end.
pub open spec fn collapse_blanks(ls: Seq<LineV>) -> Seq<LineV>
    decreases ls.len(),
{
    if ls.len() >= 2 && ls.last() is Blank && ls[ls.len() - 2] is Blank {
        collapse_blanks(ls.drop_last())
    } else {
        ls
    }
}

/// The effect of `Document::remove_section`.
pub open spec fn spec_remove_section(ls: Seq<LineV>, sec: Seq<char>) -> Seq<LineV> {
    match section_range(ls, sec) {
        Some((lo, hi)) => collapse_blanks(ls.subrange(0, lo - 1) + ls.subrange(hi, ls.len() as int)),
        None => ls,
    }
}


// ---------------------------------------------------------------------------
// Executable line scanner.
// ---------------------------------------------------------------------------

/// One line of an rclone.conf document, with its text as read.
#[derive(Debug, Clone, PartialEq, Eq)]
pub enum Line {
    Section { name: String, raw: String },
    KeyValue { key: String, value: String, raw: String },
    Comment(String),
    Blank(String),
}

impl View for Line {
    type V = LineV;

    open spec fn view(&self) -> LineV {
        match self {
            Line::Section { name, raw } => LineV::Section { name: name@, raw: raw@ },
            Line::KeyValue { key, value, raw } => LineV::KeyValue { key: key@, value: value@, raw: raw@ },
            Line::Comment(raw) => LineV::Comment { raw: raw@ },
            Line::Blank(raw) => LineV::Blank { raw: raw@ },
        }
    }
}

pub open spec fn lines_view(v: Seq<Line>) -> Seq<LineV> {
    v.map_values(|l: Line| l@)
}

fn scan_sp(v: &Vec<char>, i: usize) -> (j: usize)
    requires
        i <= v@.len(),
    ensures
        j == scan(v@, i as int, sp_pred()),
{
    let mut j = i;
    while j < v.len() && (v[j] == ' ' || v[j] == '\t')
        invariant
            i <= j <= v@.len(),
            scan(v@, i as int, sp_pred()) == scan(v@, j as int, sp_pred()),
        decreases v@.len() - j,
    {
        j = j + 1;
    }
    j
}

fn scan_not_eol(v: &Vec<char>, i: usize) -> (j: usize)
    requires
        i <= v@.len(),
    ensures
        j == scan(v@, i as int, not_eol_pred()),
{
    let mut j = i;
    while j < v.len() && v[j] != '\r' && v[j] != '\n'
        invariant
            i <= j <= v@.len(),
            scan(v@, i as int, not_eol_pred()) == scan(v@, j as int, not_eol_pred()),
        decreases v@.len() - j,
    {
        j = j + 1;
    }
    j
}

fn scan_not_close(v: &Vec<char>, i: usize) -> (j: usize)
    requires
        i <= v@.len(),
    ensures
        j == scan(v@, i as int, not_close_pred()),
{
    let mut j = i;
    while j < v.len() && v[j] != ']' && v[j] != '\n'
        invariant
            i <= j <= v@.len(),
            scan(v@, i as int, not_close_pred()) == scan(v@, j as int, not_close_pred()),
        decreases v@.len() - j,
    {
        j = j + 1;
    }
    j
}

fn key_char(c: char) -> (r: bool)
    ensures
        r == is_key_char(c),
{
    !is_whitespace(c) && c != '=' && c != '[' && c != ']' && c != ';' && c != '#'
}

fn scan_key(v: &Vec<char>, i: usize) -> (j: usize)
    requires
        i <= v@.len(),
    ensures
        j == scan(v@, i as int, key_pred()),
{
    let mut j = i;
    while j < v.len() && key_char(v[j])
        invariant
            i <= j <= v@.len(),
            scan(v@, i as int, key_pred()) == scan(v@, j as int, key_pred()),
        decreases v@.len() - j,
    {
        j = j + 1;
    }
    j
}

fn eol_end_exec(v: &Vec<char>, k: usize) -> (r: Option<usize>)
    requires
        k <= v@.len(),
    ensures
        match r {
            Some(e) => eol_end(v@, k as int) == Some(e as int) && k <= e <= v@.len(),
            None => eol_end(v@, k as int) is None,
        },
{
    if k >= v.len() {
        Some(v.len())
    } else if v[k] == '\n' {
        Some(k + 1)
    } else if v[k] == '\r' && k + 1 < v.len() && v[k + 1] == '\n' {
        Some(k + 2)
    } else {
        None
    }
}

/// Parses the line starting at `i`.
fn parse_line(v: &Vec<char>, i: usize) -> (r: Option<(Line, usize)>)
    requires
        i < v@.len(),
    ensures
        match r {
            Some((l, e)) => line_at(v@, i as int) == Some((l@, e as int)) && i < e <= v@.len(),
            None => line_at(v@, i as int) is None,
        },
{
    let s = Ghost(v@);
    proof {
        lemma_scan(v@, i as int, sp_pred());
    }
    let j = scan_sp(v, i);
    if j >= v.len() {
        return Some((Line::Blank(string_from(v, i, v.len())), v.len()));
    }
    if v[j] == '\n' {
        return Some((Line::Blank(string_from(v, i, j + 1)), j + 1));
    }
    if v[j] == '\r' && j + 1 < v.len() && v[j + 1] == '\n' {
        return Some((Line::Blank(string_from(v, i, j + 2)), j + 2));
    }
    if v[j] == ';' || v[j] == '#' {
        proof {
            lemma_scan(v@, j + 1, not_eol_pred());
        }
        let k = scan_not_eol(v, j + 1);
        match eol_end_exec(v, k) {
            Some(e) => {
                return Some((Line::Comment(string_from(v, i, e)), e));
            },
            None => {
                return None;
            },
        }
    }
    if v[j] == '[' {
        proof {
            lemma_scan(v@, j + 1, not_close_pred());
        }
        let t = scan_not_close(v, j + 1);
        if t < v.len() && v[t] == ']' {
            proof {
                lemma_scan(v@, t + 1, not_eol_pred());
            }
            let k = scan_not_eol(v, t + 1);
            match eol_end_exec(v, k) {
                Some(e) => {
                    let (a, b) = trim_bounds(v, j + 1, t);
                    let name = string_from(v, a, b);
                    let raw = string_from(v, i, e);
                    return Some((Line::Section { name, raw }, e));
                },
                None => {
                    return None;
                },
            }
        } else {
            return None;
        }
    }
    proof {
        lemma_scan(v@, j as int, key_pred());
    }
    let k1 = scan_key(v, j);
    proof {
        lemma_scan(v@, k1 as int, sp_pred());
    }
    let k2 = scan_sp(v, k1);
    if k1 == j || k2 >= v.len() || v[k2] != '=' {
        return None;
    }
    proof {
        lemma_scan(v@, k2 + 1, not_eol_pred());
    }
    let k = scan_not_eol(v, k2 + 1);
    match eol_end_exec(v, k) {
        Some(e) => {
            let key = string_from(v, j, k1);
            let (a, b) = trim_bounds(v, k2 + 1, k);
            let value = string_from(v, a, b);
            let raw = string_from(v, i, e);
            Some((Line::KeyValue { key, value, raw }, e))
        },
        None => None,
    }
}

/// `pre` followed by the lines of `r`, keeping an error as it is.
pub open spec fn prepend(pre: Seq<LineV>, r: Result<Seq<LineV>, int>) -> Result<Seq<LineV>, int> {
    match r {
        Ok(rest) => Ok(pre + rest),
        Err(p) => Err(p),
    }
}

/// Parses `v` into lines, or reports the index of the first bad line.
fn parse_chars(v: &Vec<char>) -> (r: Result<Vec<Line>, usize>)
    ensures
        match r {
            Ok(ls) => spec_parse(v@) == Ok::<Seq<LineV>, int>(lines_view(ls@)),
            Err(p) => spec_parse(v@) == Err::<Seq<LineV>, int>(p as int) && p < v@.len(),
        },
{
    let mut lines: Vec<Line> = Vec::new();
    let mut pos: usize = 0;
    proof {
        assert(lines_view(lines@) =~= Seq::<LineV>::empty());
        assert(prepend(Seq::empty(), parse_from(v@, 0)) =~= parse_from(v@, 0)) by {
            match parse_from(v@, 0) {
                Ok(rest) => {
                    assert(Seq::<LineV>::empty() + rest =~= rest);
                },
                Err(_) => {},
            }
        }
    }
    while pos < v.len()
        invariant
            pos <= v@.len(),
            spec_parse(v@) == prepend(lines_view(lines@), parse_from(v@, pos as int)),
        decreases v@.len() - pos,
    {
        match parse_line(v, pos) {
            Some((l, e)) => {
                let ghost before = lines_view(lines@);
                let ghost lv = l@;
                lines.push(l);
                proof {
                    assert(lines_view(lines@) =~= before.push(lv));
                    match parse_from(v@, e as int) {
                        Ok(rest) => {
                            assert(before + (seq![lv] + rest) =~= before.push(lv) + rest);
                        },
                        Err(_) => {},
                    }
                }
                pos = e;
            },
            None => {
                return Err(pos);
            },
        }
    }
    proof {
        assert(lines_view(lines@) + Seq::<LineV>::empty() =~= lines_view(lines@));
    }
    Ok(lines)
}


// ---------------------------------------------------------------------------
// Where a parse error is reported.
// ---------------------------------------------------------------------------

/// Bytes of a character in UTF-8.
pub open spec fn utf8_len(c: char) -> nat {
    let u = c as u32;
    if u < 0x80 {
        1
    } else if u < 0x800 {
        2
    } else if u < 0x10000 {
        3
    } else {
        4
    }
}

/// Bytes of a character sequence in UTF-8.
pub open spec fn byte_len(s: Seq<char>) -> nat
    decreases s.len(),
{
    if s.len() == 0 {
        0
    } else {
        byte_len(s.drop_last()) + utf8_len(s.last())
    }
}

/// Whether the first 40 bytes of `t` end on a character boundary (or `t` is
/// shorter than that): the parse error message quotes exactly those bytes.
pub open spec fn snippet_cut_ok(t: Seq<char>) -> bool {
    byte_len(t) <= 40 || exists|k: int| 0 <= k <= t.len() && #[trigger] byte_len(t.take(k)) == 40
}

/// The text quoted by the parse error message for the rest of input `t`.
pub open spec fn error_snippet(t: Seq<char>) -> Seq<char> {
    if byte_len(t) <= 40 {
        t
    } else {
        t.take(choose|k: int| 0 <= k <= t.len() && #[trigger] byte_len(t.take(k)) == 40)
    }
}

/// True for the inputs on which `Document::parse` cannot build its error
/// message: the parse fails and the 40-byte cut of the rest of the input
/// falls inside a character.
pub open spec fn parse_message_splits_char(s: Seq<char>) -> bool {
    match spec_parse(s) {
        Err(p) => !snippet_cut_ok(s.skip(p)),
        Ok(_) => false,
    }
}

/// A hexadecimal digit.
pub open spec fn hex_digit(d: int) -> char {
    if d < 10 {
        ('0' as int + d) as char
    } else {
        ('a' as int + d - 10) as char
    }
}

/// How `{:?}` writes one character of a string: quotes, backslashes and
/// control characters are escaped, everything else is written as it is.
pub open spec fn escape_char(c: char) -> Seq<char> {
    if c == '\t' {
        seq!['\\', 't']
    } else if c == '\r' {
        seq!['\\', 'r']
    } else if c == '\n' {
        seq!['\\', 'n']
    } else if c == '\\' {
        seq!['\\', '\\']
    } else if c == '"' {
        seq!['\\', '"']
    } else if c == '\0' {
        seq!['\\', '0']
    } else if is_control(c) {
        if (c as u32) < 16 {
            seq!['\\', 'u', '{', hex_digit((c as u32) as int), '}']
        } else {
            seq!['\\', 'u', '{', hex_digit(((c as u32) / 16) as int), hex_digit(((c as u32) % 16) as int), '}']
        }
    } else {
        seq![c]
    }
}

/// `s` with each character escaped as `{:?}` does.
pub open spec fn debug_escape(s: Seq<char>) -> Seq<char>
    decreases s.len(),
{
    if s.len() == 0 {
        Seq::empty()
    } else {
        debug_escape(s.drop_last()) + escape_char(s.last())
    }
}

/// The error message for a parse that failed at character `p` of `s`: the
/// quoted, escaped text where it failed, then what was expected.
pub open spec fn parse_error_message(s: Seq<char>, p: int) -> Seq<char> {
    "near \""@ + debug_escape(error_snippet(s.skip(p)))
        + "\": this line is not a [section] header, a key = value pair, a comment or a blank line"@
}

pub proof fn lemma_byte_len_take_step(t: Seq<char>, k: int)
    requires
        0 <= k < t.len(),
    ensures
        byte_len(t.take(k + 1)) == byte_len(t.take(k)) + utf8_len(t[k]),
{
    assert(t.take(k + 1).drop_last() =~= t.take(k));
}

pub proof fn lemma_byte_len_take_mono(t: Seq<char>, a: int, b: int)
    requires
        0 <= a <= b <= t.len(),
    ensures
        byte_len(t.take(a)) + (b - a) <= byte_len(t.take(b)),
    decreases b - a,
{
    if a < b {
        lemma_byte_len_take_step(t, b - 1);
        lemma_byte_len_take_mono(t, a, b - 1);
    }
}

/// Length in characters of the quoted part, or `None` when the 40-byte cut
/// splits a character.
fn snippet_len(t: &Vec<char>, from: usize) -> (r: Option<usize>)
    requires
        from <= t@.len(),
    ensures
        match r {
            Some(k) => snippet_cut_ok(t@.skip(from as int)) && from + k <= t@.len()
                && error_snippet(t@.skip(from as int)) == t@.skip(from as int).take(k as int),
            None => !snippet_cut_ok(t@.skip(from as int)),
        },
{
    let ghost u = t@.skip(from as int);
    let mut k: usize = 0;
    let mut acc: u64 = 0;
    let tl = t.len();
    while acc < 40 && from + k < tl
        invariant
            tl == t@.len(),
            from + k <= t@.len(),
            u == t@.skip(from as int),
            acc == byte_len(u.take(k as int)),
            acc <= 43,
            k > 0 ==> byte_len(u.take(k - 1)) < 40,
        decreases t@.len() - from - k,
    {
        let c = t[from + k];
        let u32c = c as u32;
        let n: u64 = if u32c < 0x80 {
            1
        } else if u32c < 0x800 {
            2
        } else if u32c < 0x10000 {
            3
        } else {
            4
        };
        proof {
            assert(u[k as int] == c);
            lemma_byte_len_take_step(u, k as int);
        }
        acc = acc + n;
        k = k + 1;
    }
    if acc <= 40 {
        proof {
            if from + k == t.len() {
                assert(u.take(k as int) =~= u);
            }
            if byte_len(u) > 40 {
                assert(acc == 40);
                let k2 = choose|k2: int| 0 <= k2 <= u.len() && #[trigger] byte_len(u.take(k2)) == 40;
                if k2 < k {
                    lemma_byte_len_take_mono(u, k2, k as int);
                    lemma_byte_len_take_step(u, k2);
                    assert(false) by {
                        lemma_byte_len_take_mono(u, k2 + 1, k as int);
                    }
                } else if k2 > k {
                    lemma_byte_len_take_mono(u, k as int, k2);
                }
                assert(k2 == k);
            } else {
                assert(from + k == t.len()) by {
                    if from + k < t.len() {
                        lemma_byte_len_take_mono(u, k as int, u.len() as int);
                        assert(u.take(u.len() as int) =~= u);
                    }
                }
                assert(u.take(k as int) =~= u);
            }
        }
        Some(k)
    } else {
        proof {
            assert(acc > 40);
            assert(byte_len(u) > 40) by {
                lemma_byte_len_take_mono(u, k as int, u.len() as int);
                assert(u.take(u.len() as int) =~= u);
            }
            assert forall|k2: int| 0 <= k2 <= u.len() implies #[trigger] byte_len(u.take(k2)) != 40 by {
                if k2 >= k {
                    lemma_byte_len_take_mono(u, k as int, k2);
                } else {
                    lemma_byte_len_take_step(u, k - 1);
                    lemma_byte_len_take_mono(u, k2, k - 1);
                }
            }
        }
        None
    }
}

// ---------------------------------------------------------------------------
// The document.
// ---------------------------------------------------------------------------

/// A parsed rclone.conf document. Round-trip preserving.
#[derive(Debug, Clone, PartialEq, Eq)]
pub struct Document {
    lines: Vec<Line>,
}

impl View for Document {
    type V = Seq<LineV>;

    closed spec fn view(&self) -> Seq<LineV> {
        lines_view(self.lines@)
    }
}

impl Default for Document {
    fn default() -> (d: Self)
        ensures
            d@ == Seq::<LineV>::empty(),
    {
        let d = Document { lines: Vec::new() };
        assert(d@ =~= Seq::<LineV>::empty());
        d
    }
}

impl Document {
    /// True when `parse` cannot report its error for `input` (the quoted
    /// 40-byte prefix would cut a character in two); `parse` is only defined
    /// for inputs where this is false.
    pub fn parse_message_splits_char(input: &str) -> (r: bool)
        ensures
            r == parse_message_splits_char(input@),
    {
        let v = chars_of(input);
        match parse_chars(&v) {
            Ok(_) => false,
            Err(p) => snippet_len(&v, p).is_none(),
        }
    }

    /// Parses rclone.conf text.
    pub fn parse(input: &str) -> (r: Result<Self, Error>)
        requires
            !parse_message_splits_char(input@),
        ensures
            match r {
                Ok(d) => spec_parse(input@) == Ok::<Seq<LineV>, int>(d@),
                Err(e) => spec_parse(input@) is Err && (e matches Error::ConfigParse(m)
                    && m@ == parse_error_message(input@, spec_parse(input@)->Err_0)),
            },
    {
        let v = chars_of(input);
        match parse_chars(&v) {
            Ok(lines) => Ok(Document { lines }),
            Err(p) => {
                match snippet_len(&v, p) {
                    Some(k) => {
                        let mut msg = String::new();
                        push_str(&mut msg, "near \"");
                        let ghost at_msg = msg@;
                        push_escaped(&mut msg, &v, p, p + k);
                        push_str(
                            &mut msg,
                            "\": this line is not a [section] header, a key = value pair, a comment or a blank line",
                        );
                        proof {
                            assert(v@.skip(p as int).take(k as int) =~= v@.subrange(p as int, p + k));
                            reveal_strlit("near \"");
                            reveal_strlit(
                                "\": this line is not a [section] header, a key = value pair, a comment or a blank line",
                            );
                        }
                        Err(Error::ConfigParse(msg))
                    },
                    None => {
                        proof {
                            assert(false);
                        }
                        Err(Error::ConfigParse(String::new()))
                    },
                }
            },
        }
    }

    /// Index of the first `[section]` header.
    fn header_pos(&self, section: &str) -> (r: Option<usize>)
        ensures
            match r {
                Some(h) => header_index(self@, section@) == Some(h as int) && h < self@.len(),
                None => header_index(self@, section@) is None,
            },
    {
        let ghost ls = self@;
        let mut i: usize = 0;
        while i < self.lines.len()
            invariant
                ls == self@,
                ls.len() == self.lines@.len(),
                i <= ls.len(),
                forall|j: int| 0 <= j < i ==> !is_header(#[trigger] ls[j], section@),
            decreases ls.len() - i,
        {
            let hit = match &self.lines[i] {
                Line::Section { name, .. } => str_eq(name.as_str(), section),
                _ => false,
            };
            if hit {
                proof {
                    assert(first_header_at(ls, section@, i as int));
                    let h = choose|h: int| first_header_at(ls, section@, h);
                    if h < i {
                        assert(!is_header(ls[h], section@));
                    }
                    if h > i {
                        assert(!is_header(ls[i as int], section@));
                    }
                }
                return Some(i);
            }
            i = i + 1;
        }
        None
    }

    /// Index of the first section header at or after `start`, or the length.
    fn next_section(&self, start: usize) -> (r: usize)
        requires
            start <= self@.len(),
        ensures
            r as int == section_end(self@, start as int),
            start <= r <= self@.len(),
    {
        let ghost ls = self@;
        let mut i: usize = start;
        while i < self.lines.len()
            invariant
                ls == self@,
                ls.len() == self.lines@.len(),
                start <= i <= ls.len(),
                forall|j: int| start <= j < i ==> !(#[trigger] ls[j] is Section),
            decreases ls.len() - i,
        {
            let hit = match &self.lines[i] {
                Line::Section { .. } => true,
                _ => false,
            };
            if hit {
                proof {
                    assert(next_section_at(ls, start as int, i as int));
                    let k = choose|k: int| next_section_at(ls, start as int, k);
                    if k < i {
                        assert(!(ls[k] is Section));
                    }
                    if k > i {
                        assert(!(ls[i as int] is Section));
                    }
                }
                return i;
            }
            i = i + 1;
        }
        proof {
            if exists|k: int| next_section_at(ls, start as int, k) {
                let k = choose|k: int| next_section_at(ls, start as int, k);
                assert(!(ls[k] is Section));
            }
        }
        i
    }

    /// The half-open range of line indices inside the named section (header
    /// excluded).
    fn section_range(&self, section: &str) -> (r: Option<(usize, usize)>)
        ensures
            match r {
                Some((lo, hi)) => section_range(self@, section@) == Some((lo as int, hi as int))
                    && 1 <= lo <= hi <= self@.len(),
                None => section_range(self@, section@) is None,
            },
    {
        let n = self.lines.len();
        match self.header_pos(section) {
            Some(h) => {
                assert(h < n);
                let end = self.next_section(h + 1);
                Some((h + 1, end))
            },
            None => None,
        }
    }

    /// The document's text.
    pub fn render(&self) -> (r: String)
        ensures
            r@ == render_lines(self@),
    {
        let ghost ls = self@;
        let mut out = String::new();
        let mut i: usize = 0;
        proof {
            assert(ls.take(0) =~= Seq::<LineV>::empty());
        }
        let mut ended = true;
        while i < self.lines.len()
            invariant
                ls == self@,
                ls.len() == self.lines@.len(),
                i <= ls.len(),
                out@ == render_lines(ls.take(i as int)),
                ended == (i == 0 || ends_nl(line_text(ls[i - 1]))),
            decreases ls.len() - i,
        {
            let ghost before = out@;
            if !ended {
                push_str(&mut out, "\n");
            }
            proof {
                reveal_strlit("\n");
                assert(ls.take(i + 1).drop_last() =~= ls.take(i as int));
                if i > 0 {
                    assert(ls.take(i as int).last() == ls[i - 1]);
                }
                assert(out@ == before + gap(ls.take(i as int)));
            }
            let raw = match &self.lines[i] {
                Line::Section { raw, .. } => raw,
                Line::KeyValue { raw, .. } => raw,
                Line::Comment(raw) => raw,
                Line::Blank(raw) => raw,
            };
            push_str(&mut out, raw.as_str());
            ended = ends_with_newline(raw.as_str());
            proof {
                assert(ls[i as int] == self.lines@[i as int]@);
                assert(raw@ == line_text(ls[i as int]));
                assert(ls.take(i + 1).last() == ls[i as int]);
            }
            i = i + 1;
        }
        proof {
            assert(ls.take(ls.len() as int) =~= ls);
        }
        out
    }

    /// Every section name, in file order.
    pub fn sections(&self) -> (r: Vec<&str>)
        ensures
            r@.map_values(|x: &str| x@) == section_names(self@),
    {
        let ghost ls = self@;
        let mut out: Vec<&str> = Vec::new();
        let mut i: usize = 0;
        while i < self.lines.len()
            invariant
                ls == self@,
                ls.len() == self.lines@.len(),
                i <= ls.len(),
                out@.map_values(|x: &str| x@) == section_names(ls.take(i as int)),
            decreases ls.len() - i,
        {
            let ghost before = out@.map_values(|x: &str| x@);
            match &self.lines[i] {
                Line::Section { name, .. } => {
                    out.push(name.as_str());
                    assert(out@.map_values(|x: &str| x@) =~= before.push(name@));
                },
                _ => {},
            }
            proof {
                assert(ls.take(i + 1).drop_last() =~= ls.take(i as int));
            }
            i = i + 1;
        }
        proof {
            assert(ls.take(ls.len() as int) =~= ls);
        }
        out
    }

    /// Every `key = value` pair in the named section, in file order. Empty if
    /// the section doesn't exist.
    pub fn section_entries(&self, section: &str) -> (r: Vec<(&str, &str)>)
        ensures
            r@.map_values(|p: (&str, &str)| (p.0@, p.1@)) == spec_section_entries(self@, section@),
    {
        let ghost ls = self@;
        let mut out: Vec<(&str, &str)> = Vec::new();
        match self.section_range(section) {
            None => {
                assert(out@.map_values(|p: (&str, &str)| (p.0@, p.1@)) =~= Seq::<(Seq<char>, Seq<char>)>::empty());
                out
            },
            Some((lo, hi)) => {
                let mut i: usize = lo;
                proof {
                    assert(ls.subrange(lo as int, lo as int) =~= Seq::<LineV>::empty());
                    assert(out@.map_values(|p: (&str, &str)| (p.0@, p.1@)) =~= Seq::<(Seq<char>, Seq<char>)>::empty());
                }
                while i < hi
                    invariant
                        ls == self@,
                        ls.len() == self.lines@.len(),
                        lo <= i <= hi <= ls.len(),
                        out@.map_values(|p: (&str, &str)| (p.0@, p.1@)) == kv_pairs(ls.subrange(lo as int, i as int)),
                    decreases hi - i,
                {
                    let ghost before = out@.map_values(|p: (&str, &str)| (p.0@, p.1@));
                    match &self.lines[i] {
                        Line::KeyValue { key, value, .. } => {
                            out.push((key.as_str(), value.as_str()));
                            assert(out@.map_values(|p: (&str, &str)| (p.0@, p.1@)) =~= before.push((key@, value@)));
                        },
                        _ => {},
                    }
                    proof {
                        assert(ls.subrange(lo as int, i + 1).drop_last() =~= ls.subrange(lo as int, i as int));
                    }
                    i = i + 1;
                }
                out
            },
        }
    }

    /// Index of the first `key` line in `lines[lo..hi]`.
    fn key_pos(&self, lo: usize, hi: usize, key: &str) -> (r: Option<usize>)
        requires
            lo <= hi <= self@.len(),
        ensures
            match r {
                Some(i) => key_index(self@, lo as int, hi as int, key@) == Some(i as int) && lo <= i < hi,
                None => key_index(self@, lo as int, hi as int, key@) is None,
            },
    {
        let ghost ls = self@;
        let mut i: usize = lo;
        while i < hi
            invariant
                ls == self@,
                ls.len() == self.lines@.len(),
                lo <= i <= hi <= ls.len(),
                forall|j: int| lo <= j < i ==> !is_key(#[trigger] ls[j], key@),
            decreases hi - i,
        {
            let hit = match &self.lines[i] {
                Line::KeyValue { key: k, .. } => str_eq(k.as_str(), key),
                _ => false,
            };
            if hit {
                proof {
                    assert(ls[i as int] == self.lines@[i as int]@);
                    assert(first_key_at(ls, lo as int, hi as int, key@, i as int));
                    let c = choose|c: int| first_key_at(ls, lo as int, hi as int, key@, c);
                    if c < i {
                        assert(!is_key(ls[c], key@));
                    }
                    if c > i {
                        assert(!is_key(ls[i as int], key@));
                    }
                    assert(c == i);
                }
                return Some(i);
            }
            i = i + 1;
        }
        proof {
            if exists|c: int| first_key_at(ls, lo as int, hi as int, key@, c) {
                let c = choose|c: int| first_key_at(ls, lo as int, hi as int, key@, c);
                assert(!is_key(ls[c], key@));
            }
        }
        None
    }

    /// The value of `key` in the named section.
    pub fn get(&self, section: &str, key: &str) -> (r: Option<&str>)
        ensures
            match r {
                Some(v) => spec_get(self@, section@, key@) == Some(v@),
                None => spec_get(self@, section@, key@) is None,
            },
    {
        let (lo, hi) = match self.section_range(section) {
            Some(r) => r,
            None => {
                return None;
            },
        };
        match self.key_pos(lo, hi, key) {
            Some(i) => match &self.lines[i] {
                Line::KeyValue { value, .. } => {
                    assert(self@[i as int] == self.lines@[i as int]@);
                    Some(value.as_str())
                },
                _ => {
                    assert(self@[i as int] == self.lines@[i as int]@);
                    None
                },
            },
            None => None,
        }
    }

    /// Where a new key goes in `lines[lo..hi]`: after the last non-blank line.
    fn insert_at(&self, lo: usize, hi: usize) -> (r: usize)
        requires
            lo <= hi <= self@.len(),
        ensures
            r as int == insert_pos(self@, lo as int, hi as int),
            lo <= r <= hi,
    {
        let ghost ls = self@;
        let mut i: usize = hi;
        while i > lo && matches!(self.lines[i - 1], Line::Blank(_))
            invariant
                ls == self@,
                ls.len() == self.lines@.len(),
                lo <= i <= hi <= ls.len(),
                forall|j: int| i <= j < hi ==> #[trigger] ls[j] is Blank,
            decreases i - lo,
        {
            proof {
                assert(ls[i - 1] == self.lines@[i - 1]@);
            }
            i = i - 1;
        }
        if i > lo {
            proof {
                assert(ls[i - 1] == self.lines@[i - 1]@);
                assert(last_non_blank_at(ls, lo as int, hi as int, i - 1));
                let c = choose|c: int| last_non_blank_at(ls, lo as int, hi as int, c);
                if c < i - 1 {
                    assert(ls[i - 1] is Blank);
                }
                if c > i - 1 {
                    assert(ls[c] is Blank);
                }
            }
            i
        } else {
            proof {
                if exists|c: int| last_non_blank_at(ls, lo as int, hi as int, c) {
                    let c = choose|c: int| last_non_blank_at(ls, lo as int, hi as int, c);
                    assert(ls[c] is Blank);
                }
            }
            hi
        }
    }

    /// Insert or update a key in the named section. Creates the section at the
    /// end of the document if it doesn't exist. A section name, key or value
    /// holding a control character is refused and the document left as it is.
    pub fn set(&mut self, section: &str, key: &str, value: &str) -> (r: Result<(), Error>)
        ensures
            r is Ok <==> set_clean(section@, key@, value@),
            r is Ok ==> final(self)@ == spec_set(old(self)@, section@, key@, value@),
            r matches Err(e) ==> final(self)@ == old(self)@ && (e matches Error::ConfigParse(m)
                && m@ == control_message()),
    {
        if holds_control(section) || holds_control(key) || holds_control(value) {
            let mut m = String::new();
            push_str(&mut m, "a section name, key or value holds a control character");
            proof {
                reveal_strlit("a section name, key or value holds a control character");
            }
            return Err(Error::ConfigParse(m));
        }
        let line = make_kv(key, value);
        match self.section_range(section) {
            Some((lo, hi)) => {
                match self.key_pos(lo, hi, key) {
                    Some(i) => {
                        let ghost before = self@;
                        self.lines.set(i, line);
                        assert(self@ =~= before.update(i as int, canonical_kv(key@, value@)));
                    },
                    None => {
                        let at = self.insert_at(lo, hi);
                        let ghost before = self@;
                        self.lines.insert(at, line);
                        assert(self@ =~= before.insert(at as int, canonical_kv(key@, value@)));
                    },
                }
            },
            None => {
                let ghost before = self@;
                let n = self.lines.len();
                let need_blank = n > 0 && !matches!(self.lines[n - 1], Line::Blank(_));
                if need_blank {
                    assert(before.last() == self.lines@[n - 1]@);
                    let mut nl = String::new();
                    push_str(&mut nl, "\n");
                    proof {
                        reveal_strlit("\n");
                        assert(nl@ =~= seq!['\n']);
                    }
                    self.lines.push(Line::Blank(nl));
                    assert(self@ =~= before.push(blank_sep()));
                } else {
                    assert(n > 0 ==> before.last() == self.lines@[n - 1]@);
                }
                assert(self@ == with_separator(before));
                let ghost mid = self@;
                let header = make_header(section);
                self.lines.push(header);
                self.lines.push(line);
                assert(self@ =~= mid.push(canonical_header(section@)).push(canonical_kv(key@, value@)));
            },
        }
        Ok(())
    }

    /// Remove a section and all its keys (but leave preceding comments alone).
    pub fn remove_section(&mut self, section: &str)
        ensures
            final(self)@ == spec_remove_section(old(self)@, section@),
    {
        match self.section_range(section) {
            Some((lo, hi)) => {
                let ghost before = self@;
                let mut tail = self.lines.split_off(hi);
                self.lines.truncate(lo - 1);
                self.lines.append(&mut tail);
                let ghost joined = before.subrange(0, lo - 1) + before.subrange(hi as int, before.len() as int);
                assert(self@ =~= joined);
                while self.lines.len() >= 2 && matches!(self.lines[self.lines.len() - 1], Line::Blank(_))
                    && matches!(self.lines[self.lines.len() - 2], Line::Blank(_))
                    invariant
                        collapse_blanks(self@) == collapse_blanks(joined),
                    decreases self.lines@.len(),
                {
                    let ghost cur = self@;
                    let n = self.lines.len();
                    assert(cur[n - 1] == self.lines@[n - 1]@);
                    assert(cur[n - 2] == self.lines@[n - 2]@);
                    self.lines.pop();
                    assert(self@ =~= cur.drop_last());
                }
                proof {
                    let cur = self@;
                    let n = self.lines@.len();
                    if n >= 2 {
                        assert(cur[n - 1] == self.lines@[n - 1]@);
                        assert(cur[n - 2] == self.lines@[n - 2]@);
                    }
                }
            },
            None => {},
        }
    }
}

/// One hexadecimal digit.
fn hex_char(d: u32) -> (c: char)
    requires
        d < 16,
    ensures
        c == hex_digit(d as int),
{
    let digits: [char; 16] = ['0', '1', '2', '3', '4', '5', '6', '7', '8', '9', 'a', 'b', 'c', 'd', 'e', 'f'];
    let c = digits[d as usize];
    assert(c == hex_digit(d as int)) by {
        assert(digits@[d as int] == c);
    }
    c
}

/// Appends `v[lo..hi]` escaped as `{:?}` writes it.
fn push_escaped(out: &mut String, v: &Vec<char>, lo: usize, hi: usize)
    requires
        lo <= hi <= v@.len(),
    ensures
        final(out)@ == old(out)@ + debug_escape(v@.subrange(lo as int, hi as int)),
{
    let mut i = lo;
    proof {
        assert(v@.subrange(lo as int, lo as int) =~= Seq::<char>::empty());
        assert(old(out)@ + Seq::<char>::empty() =~= old(out)@);
    }
    while i < hi
        invariant
            lo <= i <= hi <= v@.len(),
            out@ == old(out)@ + debug_escape(v@.subrange(lo as int, i as int)),
        decreases hi - i,
    {
        let c = v[i];
        let ghost before = out@;
        if c == '\t' {
            push_char(out, '\\');
            push_char(out, 't');
        } else if c == '\r' {
            push_char(out, '\\');
            push_char(out, 'r');
        } else if c == '\n' {
            push_char(out, '\\');
            push_char(out, 'n');
        } else if c == '\\' {
            push_char(out, '\\');
            push_char(out, '\\');
        } else if c == '"' {
            push_char(out, '\\');
            push_char(out, '"');
        } else if c == '\0' {
            push_char(out, '\\');
            push_char(out, '0');
        } else if (c as u32) < 0x20 || (0x7f <= (c as u32) && (c as u32) <= 0x9f) {
            let n = c as u32;
            push_char(out, '\\');
            push_char(out, 'u');
            push_char(out, '{');
            if n < 16 {
                push_char(out, hex_char(n));
            } else {
                push_char(out, hex_char(n / 16));
                push_char(out, hex_char(n % 16));
            }
            push_char(out, '}');
        } else {
            push_char(out, c);
        }
        proof {
            assert(out@ =~= before + escape_char(c));
            let sub = v@.subrange(lo as int, i + 1);
            assert(sub.drop_last() =~= v@.subrange(lo as int, i as int));
            assert(sub.last() == c);
            assert(old(out)@ + debug_escape(sub.drop_last()) + escape_char(c) =~= old(out)@ + (debug_escape(
                sub.drop_last(),
            ) + escape_char(c)));
        }
        i = i + 1;
    }
}

/// Whether `s` holds a control character.
fn holds_control(s: &str) -> (r: bool)
    ensures
        r == has_control(s@),
{
    let v = chars_of(s);
    let mut i: usize = 0;
    while i < v.len()
        invariant
            v@ == s@,
            i <= v@.len(),
            forall|j: int| 0 <= j < i ==> !is_control(#[trigger] v@[j]),
        decreases v@.len() - i,
    {
        let c = v[i];
        if (c as u32) < 0x20 || (0x7f <= (c as u32) && (c as u32) <= 0x9f) {
            assert(is_control(v@[i as int]));
            return true;
        }
        i = i + 1;
    }
    false
}

/// Whether `s` ends with a newline.
fn ends_with_newline(s: &str) -> (r: bool)
    ensures
        r == ends_nl(s@),
{
    let v = chars_of(s);
    v.len() > 0 && v[v.len() - 1] == '\n'
}

/// The canonical line `key = value`.
fn make_kv(key: &str, value: &str) -> (l: Line)
    ensures
        l@ == canonical_kv(key@, value@),
{
    let mut raw = String::new();
    push_str(&mut raw, key);
    push_str(&mut raw, " = ");
    push_str(&mut raw, value);
    push_str(&mut raw, "\n");
    let mut k = String::new();
    push_str(&mut k, key);
    let mut v = String::new();
    push_str(&mut v, value);
    proof {
        reveal_strlit(" = ");
        reveal_strlit("\n");
        assert(k@ =~= key@);
        assert(v@ =~= value@);
        assert(raw@ =~= key@ + seq![' ', '=', ' '] + value@ + seq!['\n']);
    }
    Line::KeyValue { key: k, value: v, raw }
}

/// The canonical header line `[section]`.
fn make_header(section: &str) -> (l: Line)
    ensures
        l@ == canonical_header(section@),
{
    let mut raw = String::new();
    push_str(&mut raw, "[");
    push_str(&mut raw, section);
    push_str(&mut raw, "]\n");
    let mut n = String::new();
    push_str(&mut n, section);
    proof {
        reveal_strlit("[");
        reveal_strlit("]\n");
        assert(n@ =~= section@);
        assert(raw@ =~= seq!['['] + section@ + seq![']', '\n']);
    }
    Line::Section { name: n, raw }
}

// ---------------------------------------------------------------------------
// Laws.
// ---------------------------------------------------------------------------

pub proof fn lemma_render_prepend(l: LineV, rest: Seq<LineV>)
    requires
        ends_nl(line_text(l)),
    ensures
        render_lines(seq![l] + rest) == line_text(l) + render_lines(rest),
    decreases rest.len(),
{
    if rest.len() == 0 {
        assert(seq![l] + rest =~= seq![l]);
        assert(seq![l].drop_last() =~= Seq::<LineV>::empty());
        assert(line_text(l) + Seq::<char>::empty() =~= line_text(l));
        assert(Seq::<char>::empty() + Seq::<char>::empty() + line_text(l) =~= line_text(l));
        assert(render_lines(seq![l]) == render_lines(Seq::<LineV>::empty()) + gap(Seq::<LineV>::empty())
            + line_text(l));
    } else {
        let whole = seq![l] + rest;
        assert(whole.last() == rest.last());
        assert(whole.drop_last() =~= seq![l] + rest.drop_last());
        lemma_render_prepend(l, rest.drop_last());
        assert(gap(whole.drop_last()) == gap(rest.drop_last())) by {
            if rest.len() > 1 {
                assert(whole.drop_last().last() == rest.drop_last().last());
            } else {
                assert(whole.drop_last() =~= seq![l]);
                assert(rest.drop_last().len() == 0);
            }
        }
        assert(line_text(l) + render_lines(rest.drop_last()) + gap(rest.drop_last()) + line_text(rest.last())
            =~= line_text(l) + (render_lines(rest.drop_last()) + gap(rest.drop_last()) + line_text(rest.last())));
    }
}

/// The rendering of one line alone is its text.
pub proof fn lemma_render_single(l: LineV)
    ensures
        render_lines(seq![l]) == line_text(l),
{
    let one = seq![l];
    assert(one.drop_last() =~= Seq::<LineV>::empty());
    assert(one.last() == l);
    assert(render_lines(one.drop_last()) == Seq::<char>::empty());
    assert(gap(one.drop_last()) == Seq::<char>::empty());
    assert(render_lines(one) == render_lines(one.drop_last()) + gap(one.drop_last()) + line_text(l));
    assert(Seq::<char>::empty() + Seq::<char>::empty() + line_text(l) =~= line_text(l));
}

/// Each parsed line spans `s[i..e]`, with `i < e`.
pub proof fn lemma_line_at_span(s: Seq<char>, i: int)
    requires
        0 <= i < s.len(),
        line_at(s, i) is Some,
    ensures
        match line_at(s, i) {
            Some((l, e)) => i < e <= s.len() && line_text(l) == s.subrange(i, e) && (e < s.len() ==> ends_nl(
                line_text(l),
            )),
            None => true,
        },
{
    lemma_scan(s, i, sp_pred());
    let j = scan(s, i, sp_pred());
    if j < s.len() {
        lemma_scan(s, j + 1, not_eol_pred());
        lemma_scan(s, j + 1, not_close_pred());
        lemma_scan(s, j, key_pred());
        let t = scan(s, j + 1, not_close_pred());
        if t < s.len() {
            lemma_scan(s, t + 1, not_eol_pred());
        }
        let k1 = scan(s, j, key_pred());
        lemma_scan(s, k1, sp_pred());
        let k2 = scan(s, k1, sp_pred());
        if k2 < s.len() {
            lemma_scan(s, k2 + 1, not_eol_pred());
        }
        let (l, e) = line_at(s, i)->Some_0;
        if e < s.len() {
            let txt = s.subrange(i, e);
            assert(txt.last() == s[e - 1]);
            if s[j] == ';' || s[j] == '#' {
                let k = scan(s, j + 1, not_eol_pred());
                assert(s[e - 1] == '\n');
            } else if s[j] == '[' {
                let k = scan(s, t + 1, not_eol_pred());
                assert(s[e - 1] == '\n');
            } else if s[j] == '\n' {
                assert(s[e - 1] == '\n');
            } else if s[j] == '\r' && j + 1 < s.len() && s[j + 1] == '\n' {
                assert(s[e - 1] == '\n');
            } else {
                let k = scan(s, k2 + 1, not_eol_pred());
                assert(s[e - 1] == '\n');
            }
            assert(ends_nl(txt));
        }
    }
}

proof fn lemma_round_trip_from(s: Seq<char>, i: int)
    requires
        0 <= i <= s.len(),
        parse_from(s, i) is Ok,
    ensures
        render_lines(parse_from(s, i)->Ok_0) == s.subrange(i, s.len() as int),
    decreases s.len() - i,
{
    if i == s.len() {
        assert(s.subrange(i, i) =~= Seq::<char>::empty());
    } else {
        lemma_line_at_span(s, i);
        let (l, e) = line_at(s, i)->Some_0;
        lemma_round_trip_from(s, e);
        let rest = parse_from(s, e)->Ok_0;
        if e < s.len() {
            lemma_render_prepend(l, rest);
        } else {
            assert(rest =~= Seq::<LineV>::empty());
            assert(seq![l] + rest =~= seq![l]);
            lemma_render_single(l);
            assert(s.subrange(e, s.len() as int) =~= Seq::<char>::empty());
        }
        assert(s.subrange(i, e) + s.subrange(e, s.len() as int) =~= s.subrange(i, s.len() as int));
    }
}

/// Round trip: rendering a parsed document gives back the input text,
/// byte for byte.
pub proof fn law_parse_render_round_trip(s: Seq<char>)
    requires
        spec_parse(s) is Ok,
    ensures
        render_lines(spec_parse(s)->Ok_0) == s,
{
    lemma_round_trip_from(s, 0);
    assert(s.subrange(0, s.len() as int) =~= s);
}

pub(crate) proof fn lemma_header_index_is(ls: Seq<LineV>, sec: Seq<char>, h: int)
    requires
        first_header_at(ls, sec, h),
    ensures
        header_index(ls, sec) == Some(h),
{
    let c = choose|c: int| first_header_at(ls, sec, c);
    if c < h {
        assert(!is_header(ls[c], sec));
    }
    if c > h {
        assert(!is_header(ls[h], sec));
    }
}

/// With no first header there is no header at all.
pub(crate) proof fn lemma_no_header(ls: Seq<LineV>, sec: Seq<char>, j: int)
    requires
        header_index(ls, sec) is None,
        0 <= j < ls.len(),
    ensures
        !is_header(ls[j], sec),
    decreases j,
{
    if is_header(ls[j], sec) {
        if forall|i: int| 0 <= i < j ==> !is_header(#[trigger] ls[i], sec) {
            assert(first_header_at(ls, sec, j));
        } else {
            let i = choose|i: int| 0 <= i < j && is_header(#[trigger] ls[i], sec);
            lemma_no_header(ls, sec, i);
        }
    }
}

pub(crate) proof fn lemma_section_end_is(ls: Seq<LineV>, start: int, k: int)
    requires
        next_section_at(ls, start, k),
    ensures
        section_end(ls, start) == k,
{
    let c = choose|c: int| next_section_at(ls, start, c);
    if c < k {
        assert(!(ls[c] is Section));
    }
    if c > k {
        assert(!(ls[k] is Section));
    }
}

pub(crate) proof fn lemma_section_end_len(ls: Seq<LineV>, start: int)
    requires
        forall|j: int| start <= j < ls.len() ==> !(#[trigger] ls[j] is Section),
    ensures
        section_end(ls, start) == ls.len(),
{
}

/// `section_end` is the first header at or after `start` (or the length).
pub(crate) proof fn lemma_section_end_props(ls: Seq<LineV>, start: int)
    requires
        0 <= start <= ls.len(),
    ensures
        start <= section_end(ls, start) <= ls.len(),
        forall|j: int| start <= j < section_end(ls, start) ==> !(#[trigger] ls[j] is Section),
        section_end(ls, start) < ls.len() ==> ls[section_end(ls, start)] is Section,
    decreases ls.len() - start,
{
    if exists|k: int| next_section_at(ls, start, k) {
    } else {
        if start < ls.len() {
            lemma_section_end_props(ls, start + 1);
            if ls[start] is Section {
                assert(next_section_at(ls, start, start));
            } else {
                if exists|k: int| #[trigger] next_section_at(ls, start + 1, k) {
                    let k = choose|k: int| #[trigger] next_section_at(ls, start + 1, k);
                    assert(next_section_at(ls, start, k));
                }
            }
        }
    }
}

pub(crate) proof fn lemma_key_index_is(ls: Seq<LineV>, lo: int, hi: int, key: Seq<char>, k: int)
    requires
        first_key_at(ls, lo, hi, key, k),
    ensures
        key_index(ls, lo, hi, key) == Some(k),
{
    let c = choose|c: int| first_key_at(ls, lo, hi, key, c);
    if c < k {
        assert(!is_key(ls[c], key));
    }
    if c > k {
        assert(!is_key(ls[k], key));
    }
}

/// With no first key line there is no key line at all.
pub(crate) proof fn lemma_no_key(ls: Seq<LineV>, lo: int, hi: int, key: Seq<char>, j: int)
    requires
        key_index(ls, lo, hi, key) is None,
        lo <= j < hi,
    ensures
        !is_key(ls[j], key),
    decreases j - lo,
{
    if is_key(ls[j], key) {
        if forall|i: int| lo <= i < j ==> !is_key(#[trigger] ls[i], key) {
            assert(first_key_at(ls, lo, hi, key, j));
        } else {
            let i = choose|i: int| lo <= i < j && is_key(#[trigger] ls[i], key);
            lemma_no_key(ls, lo, hi, key, i);
        }
    }
}

pub(crate) proof fn lemma_insert_pos_props(ls: Seq<LineV>, lo: int, hi: int)
    requires
        0 <= lo <= hi <= ls.len(),
    ensures
        lo <= insert_pos(ls, lo, hi) <= hi,
{
}

/// Reading back a key right after setting it gives the value set.
pub proof fn law_get_after_set(ls: Seq<LineV>, sec: Seq<char>, key: Seq<char>, value: Seq<char>)
    ensures
        spec_get(spec_set(ls, sec, key, value), sec, key) == Some(value),
{
    let kv = canonical_kv(key, value);
    match header_index(ls, sec) {
        Some(h) => {
            let lo = h + 1;
            lemma_section_end_props(ls, lo);
            let hi = section_end(ls, lo);
            match key_index(ls, lo, hi, key) {
                Some(k) => {
                    let ls2 = ls.update(k, kv);
                    assert(first_header_at(ls2, sec, h));
                    lemma_header_index_is(ls2, sec, h);
                    if hi < ls.len() {
                        assert(next_section_at(ls2, lo, hi));
                        lemma_section_end_is(ls2, lo, hi);
                    } else {
                        lemma_section_end_len(ls2, lo);
                    }
                    assert(first_key_at(ls2, lo, hi, key, k));
                    lemma_key_index_is(ls2, lo, hi, key, k);
                },
                None => {
                    lemma_insert_pos_props(ls, lo, hi);
                    let at = insert_pos(ls, lo, hi);
                    let ls2 = ls.insert(at, kv);
                    assert(first_header_at(ls2, sec, h));
                    lemma_header_index_is(ls2, sec, h);
                    assert forall|j: int| lo <= j < hi + 1 implies !(#[trigger] ls2[j] is Section) by {
                        if j < at {
                            assert(ls2[j] == ls[j]);
                        } else if j > at {
                            assert(ls2[j] == ls[j - 1]);
                        }
                    }
                    if hi < ls.len() {
                        assert(ls2[hi + 1] == ls[hi]);
                        assert(next_section_at(ls2, lo, hi + 1));
                        lemma_section_end_is(ls2, lo, hi + 1);
                    } else {
                        lemma_section_end_len(ls2, lo);
                    }
                    assert forall|j: int| lo <= j < at implies !is_key(#[trigger] ls2[j], key) by {
                        assert(ls2[j] == ls[j]);
                        lemma_no_key(ls, lo, hi, key, j);
                    }
                    assert(first_key_at(ls2, lo, hi + 1, key, at));
                    lemma_key_index_is(ls2, lo, hi + 1, key, at);
                },
            }
        },
        None => {
            let base = with_separator(ls);
            let m = base.len() as int;
            let ls2 = base.push(canonical_header(sec)).push(kv);
            assert forall|j: int| 0 <= j < m implies !is_header(#[trigger] ls2[j], sec) by {
                assert(ls2[j] == base[j]);
                if j < ls.len() {
                    assert(base[j] == ls[j]);
                    lemma_no_header(ls, sec, j);
                }
            }
            assert(first_header_at(ls2, sec, m));
            lemma_header_index_is(ls2, sec, m);
            lemma_section_end_len(ls2, m + 1);
            assert(first_key_at(ls2, m + 1, m + 2, key, m + 1));
            lemma_key_index_is(ls2, m + 1, m + 2, key, m + 1);
        },
    }
}

} // verus!
