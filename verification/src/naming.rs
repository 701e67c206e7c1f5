//! Deriving a stable, system-safe id from a freeform display name.
//!
//! Sources and mounts carry a `display_name` the user types (any unicode)
//! and an internal `name` (the id) that keys the rclone remote, the systemd
//! unit and the on-disk files. The id must match
//! [`crate::unit_writer::validate_name`], so the display name is slugified
//! down to that alphabet and collisions get a numeric suffix.
use crate::text::{
    ascii_lower, chars_of, decimal, digit_char, is_ascii_alnum, lemma_decimal_len, push_char, push_str,
    string_from, to_ascii_lower, u64_to_decimal,
};
use crate::unit_writer::{is_name_char, valid_name};
use vstd::prelude::*;

verus! {

/// One step of the slug scan: the output so far, whether it ends in a dash
/// that the scan emitted, and the next input character.
pub open spec fn slug_step(acc: (Seq<char>, bool), ch: char) -> (Seq<char>, bool) {
    let c = ascii_lower(ch);
    if is_ascii_alnum(c) {
        (acc.0.push(c), false)
    } else if acc.0.len() > 0 && !acc.1 {
        (acc.0.push('-'), true)
    } else {
        acc
    }
}

/// The slug scan over all of `s`.
pub open spec fn slug_scan(s: Seq<char>) -> (Seq<char>, bool)
    decreases s.len(),
{
    if s.len() == 0 {
        (Seq::empty(), false)
    } else {
        slug_step(slug_scan(s.drop_last()), s.last())
    }
}

/// `s` without its trailing dashes.
pub open spec fn strip_dashes(s: Seq<char>) -> Seq<char>
    decreases s.len(),
{
    if s.len() > 0 && s.last() == '-' {
        strip_dashes(s.drop_last())
    } else {
        s
    }
}

/// The first 50 characters of `s`.
pub open spec fn cap50(s: Seq<char>) -> Seq<char> {
    if s.len() > 50 {
        s.take(50)
    } else {
        s
    }
}

/// Lowercase ASCII alphanumerics kept, every other run collapsed to a single
/// `-`, no leading or trailing `-`, at most 50 characters.
pub open spec fn spec_slugify(s: Seq<char>) -> Seq<char> {
    strip_dashes(cap50(slug_scan(s).0))
}

/// A slug's shape: at most 50 characters, each one of `[a-z0-9-]`, neither
/// starting nor ending with `-`.
pub open spec fn slug_shaped(s: Seq<char>) -> bool {
    &&& s.len() <= 50
    &&& forall|i: int| 0 <= i < s.len() ==> is_name_char(#[trigger] s[i])
    &&& s.len() > 0 ==> s[0] != '-' && s.last() != '-'
}

proof fn lemma_slug_scan_shape(s: Seq<char>)
    ensures
        forall|i: int| 0 <= i < slug_scan(s).0.len() ==> is_name_char(#[trigger] slug_scan(s).0[i]),
        slug_scan(s).0.len() > 0 ==> slug_scan(s).0[0] != '-',
        slug_scan(s).1 ==> slug_scan(s).0.len() > 0,
    decreases s.len(),
{
    if s.len() > 0 {
        lemma_slug_scan_shape(s.drop_last());
    }
}

proof fn lemma_strip_dashes(s: Seq<char>)
    ensures
        strip_dashes(s).len() <= s.len(),
        strip_dashes(s) == s.take(strip_dashes(s).len() as int),
        strip_dashes(s).len() > 0 ==> strip_dashes(s).last() != '-',
    decreases s.len(),
{
    if s.len() > 0 && s.last() == '-' {
        lemma_strip_dashes(s.drop_last());
        assert(s.drop_last().take(strip_dashes(s).len() as int) =~= s.take(strip_dashes(s).len() as int));
    } else {
        assert(s.take(s.len() as int) =~= s);
    }
}

/// Every slug has the shape of a name prefix.
pub proof fn law_slug_shaped(s: Seq<char>)
    ensures
        slug_shaped(spec_slugify(s)),
{
    lemma_slug_scan_shape(s);
    let t = cap50(slug_scan(s).0);
    lemma_strip_dashes(t);
    let r = strip_dashes(t);
    assert forall|i: int| 0 <= i < r.len() implies is_name_char(#[trigger] r[i]) by {
        assert(r[i] == t[i]);
        assert(t[i] == slug_scan(s).0[i]);
    }
    if r.len() > 0 {
        assert(r[0] == t[0]);
        assert(t[0] == slug_scan(s).0[0]);
    }
}

/// No two dashes in a row.
pub open spec fn no_double_dash(s: Seq<char>) -> bool {
    forall|i: int| #![trigger s[i]] 0 <= i && i + 1 < s.len() ==> !(s[i] == '-' && s[i + 1] == '-')
}

/// Text holding an ASCII letter or digit.
pub open spec fn has_ascii_alnum(s: Seq<char>) -> bool {
    exists|i: int| 0 <= i < s.len() && is_ascii_alnum(#[trigger] s[i])
}

proof fn lemma_lower_alnum(c: char)
    ensures
        is_ascii_alnum(ascii_lower(c)) == is_ascii_alnum(c),
        is_ascii_alnum(c) ==> ascii_lower(c) != '-',
        ('0' <= c && c <= '9') || ('a' <= c && c <= 'z') ==> ascii_lower(c) == c,
{
}

proof fn lemma_slug_scan_more(s: Seq<char>)
    ensures
        slug_scan(s).1 <==> (slug_scan(s).0.len() > 0 && slug_scan(s).0.last() == '-'),
        no_double_dash(slug_scan(s).0),
        slug_scan(s).0.len() == 0 <==> !has_ascii_alnum(s),
    decreases s.len(),
{
    if s.len() > 0 {
        let p = s.drop_last();
        lemma_slug_scan_more(p);
        lemma_lower_alnum(s.last());
        let acc = slug_scan(p);
        let o = slug_scan(s).0;
        assert forall|i: int| #![trigger o[i]] 0 <= i && i + 1 < o.len() implies !(o[i] == '-' && o[i + 1] == '-') by {
            if i + 1 < acc.0.len() {
                assert(o[i] == acc.0[i] && o[i + 1] == acc.0[i + 1]);
            } else if i + 1 == acc.0.len() {
                assert(o[i] == acc.0.last());
            }
        }
        if has_ascii_alnum(p) {
            let w = choose|i: int| 0 <= i < p.len() && is_ascii_alnum(#[trigger] p[i]);
            assert(s[w] == p[w]);
        }
        if has_ascii_alnum(s) && !has_ascii_alnum(p) {
            let w = choose|i: int| 0 <= i < s.len() && is_ascii_alnum(#[trigger] s[i]);
            if w < p.len() {
                assert(p[w] == s[w]);
            }
        }
        if !has_ascii_alnum(s) {
            if is_ascii_alnum(s.last()) {
                assert(is_ascii_alnum(s[s.len() - 1]));
            }
            assert forall|i: int| 0 <= i < p.len() implies !is_ascii_alnum(#[trigger] p[i]) by {
                assert(p[i] == s[i]);
            }
        }
    }
}

proof fn lemma_strip_keeps_first(t: Seq<char>)
    requires
        t.len() > 0,
        t[0] != '-',
    ensures
        strip_dashes(t).len() > 0,
    decreases t.len(),
{
    if t.last() == '-' {
        assert(t.len() > 1);
        assert(t.drop_last()[0] == t[0]);
        lemma_strip_keeps_first(t.drop_last());
    }
}

/// A slug rescans as itself.
proof fn lemma_slug_rescan(r: Seq<char>, n: int)
    requires
        slug_shaped(r),
        no_double_dash(r),
        0 <= n <= r.len(),
    ensures
        slug_scan(r.take(n)) == (r.take(n), n > 0 && r[n - 1] == '-'),
    decreases n,
{
    if n == 0 {
        assert(r.take(0) =~= Seq::<char>::empty());
    } else {
        lemma_slug_rescan(r, n - 1);
        assert(r.take(n).drop_last() =~= r.take(n - 1));
        assert(r.take(n).last() == r[n - 1]);
        let c = r[n - 1];
        assert(is_name_char(c));
        lemma_lower_alnum(c);
        if c == '-' {
            assert(n - 1 > 0);
            assert(!(r[n - 2] == '-' && r[n - 1] == '-'));
        }
        assert(r.take(n - 1).push(c) =~= r.take(n));
    }
}

/// What a slug is, beyond its shape: it holds no two dashes in a row, it
/// is empty exactly when the input holds no ASCII letter or digit, a
/// non-empty slug is a valid name, and slugifying a slug gives it back.
pub proof fn law_slug_props(s: Seq<char>)
    ensures
        no_double_dash(spec_slugify(s)),
        spec_slugify(s).len() == 0 <==> !has_ascii_alnum(s),
        spec_slugify(s).len() > 0 ==> valid_name(spec_slugify(s)),
        spec_slugify(spec_slugify(s)) == spec_slugify(s),
{
    law_slug_shaped(s);
    lemma_slug_scan_shape(s);
    lemma_slug_scan_more(s);
    let o = slug_scan(s).0;
    let t = cap50(o);
    lemma_strip_dashes(t);
    let r = strip_dashes(t);
    assert forall|i: int| #![trigger r[i]] 0 <= i && i + 1 < r.len() implies !(r[i] == '-' && r[i + 1] == '-') by {
        assert(r[i] == t[i] && r[i + 1] == t[i + 1]);
        assert(t[i] == o[i] && t[i + 1] == o[i + 1]);
    }
    if o.len() > 0 {
        assert(t[0] == o[0]);
        lemma_strip_keeps_first(t);
    }
    lemma_slug_rescan(r, r.len() as int);
    assert(r.take(r.len() as int) =~= r);
    if r.len() > 0 {
        assert(strip_dashes(r) == r);
    }
}

/// Reduce an arbitrary string to a `[a-z0-9-]` slug: lowercase ASCII
/// alphanumerics kept, every other run collapsed to a single `-`, no leading
/// or trailing `-`, capped at 50 chars. May return `""` (e.g. an all-emoji
/// name).
pub fn slugify(input: &str) -> (r: String)
    ensures
        r@ == spec_slugify(input@),
{
    let v = chars_of(input);
    let mut out: Vec<char> = Vec::new();
    let mut prev_dash = false;
    let mut i: usize = 0;
    proof {
        assert(v@.take(0) =~= Seq::<char>::empty());
    }
    while i < v.len()
        invariant
            v@ == input@,
            i <= v@.len(),
            (out@, prev_dash) == slug_scan(v@.take(i as int)),
        decreases v@.len() - i,
    {
        let c = to_ascii_lower(v[i]);
        if ('0' <= c && c <= '9') || ('a' <= c && c <= 'z') || ('A' <= c && c <= 'Z') {
            out.push(c);
            prev_dash = false;
        } else if out.len() > 0 && !prev_dash {
            out.push('-');
            prev_dash = true;
        }
        proof {
            assert(v@.take(i + 1).drop_last() =~= v@.take(i as int));
        }
        i = i + 1;
    }
    proof {
        assert(v@.take(v@.len() as int) =~= v@);
    }
    let mut n = out.len();
    if n > 50 {
        n = 50;
    }
    let ghost capped = cap50(out@);
    proof {
        assert(out@.take(n as int) =~= capped);
        assert(capped.take(n as int) =~= capped);
    }
    while n > 0 && out[n - 1] == '-'
        invariant
            n <= out@.len(),
            n <= capped.len(),
            strip_dashes(capped) == strip_dashes(capped.take(n as int)),
            capped == cap50(out@),
            forall|j: int| 0 <= j < n ==> capped[j] == out@[j],
        decreases n,
    {
        proof {
            assert(capped.take(n as int).drop_last() =~= capped.take(n - 1));
            assert(capped.take(n as int).last() == out@[n - 1]);
        }
        n = n - 1;
    }
    proof {
        if n > 0 {
            assert(capped.take(n as int).last() == out@[n - 1]);
        }
        assert(capped.take(n as int) =~= out@.subrange(0, n as int));
    }
    string_from(&out, 0, n)
}

/// The id a display name starts from: its slug, or the fallback's slug when
/// the display name slugifies to nothing.
pub open spec fn id_base(display: Seq<char>, fallback: Seq<char>) -> Seq<char> {
    if spec_slugify(display).len() == 0 {
        spec_slugify(fallback)
    } else {
        spec_slugify(display)
    }
}

/// The `n`th suffixed candidate `base-n`.
pub open spec fn id_candidate(base: Seq<char>, n: nat) -> Seq<char> {
    base + seq!['-'] + decimal(n)
}

/// One past the largest suffix tried (suffixes are `i32`s).
pub open spec fn suffix_limit() -> nat {
    0x7fff_ffff
}

/// Whether every answer `in_use` can give for a string spelling `id` is
/// "not taken".
pub open spec fn always_free<F: Fn(&str) -> bool>(in_use: F, id: Seq<char>) -> bool {
    forall|s: &str, b: bool| #[trigger] call_ensures(in_use, (s,), b) && s@ == id ==> !b
}

/// Whether some call of `in_use` on a string spelling `id` answered `b`.
pub open spec fn answered<F: Fn(&str) -> bool>(in_use: F, id: Seq<char>, b: bool) -> bool {
    exists|s: &str| #[trigger] call_ensures(in_use, (s,), b) && s@ == id
}

proof fn lemma_candidate_valid(base: Seq<char>, n: nat)
    requires
        base.len() > 0,
        slug_shaped(base),
        n < suffix_limit(),
    ensures
        valid_name(id_candidate(base, n)),
{
    lemma_decimal_len(n);
    let d = decimal(n);
    assert(d.len() <= 10) by {
        reveal_with_fuel(pow10, 11);
        assert(pow10(10) == 10_000_000_000);
        lemma_decimal_len_digits(n, 10);
    }
    let c = id_candidate(base, n);
    assert forall|i: int| 0 <= i < c.len() implies is_name_char(#[trigger] c[i]) by {
        if i < base.len() {
            assert(c[i] == base[i]);
        } else if i == base.len() {
            assert(c[i] == '-');
        } else {
            assert(c[i] == d[i - base.len() - 1]);
        }
    }
    assert(c[0] == base[0]);
}

/// `n < 10^k` has at most `k` digits (for `k >= 1`).
proof fn lemma_decimal_len_digits(n: nat, k: nat)
    requires
        k >= 1,
        n < pow10(k),
    ensures
        decimal(n).len() <= k,
    decreases n,
{
    if n >= 10 {
        assert(k >= 2) by {
            if k == 1 {
                assert(pow10(1) == 10) by {
                    assert(pow10(0) == 1);
                }
            }
        }
        assert(n / 10 < pow10((k - 1) as nat)) by {
            assert(pow10(k) == 10 * pow10((k - 1) as nat));
        }
        lemma_decimal_len_digits(n / 10, (k - 1) as nat);
    }
}

pub open spec fn pow10(k: nat) -> nat
    decreases k,
{
    if k == 0 {
        1
    } else {
        10 * pow10((k - 1) as nat)
    }
}

proof fn lemma_digit_char_injective(a: nat, b: nat)
    requires
        a < 10,
        b < 10,
        digit_char(a) == digit_char(b),
    ensures
        a == b,
{
    assert(digit_char(a) as u32 == a + 48);
    assert(digit_char(b) as u32 == b + 48);
}

/// Different numbers have different decimal spellings.
proof fn lemma_decimal_injective(n: nat, m: nat)
    requires
        decimal(n) == decimal(m),
    ensures
        n == m,
    decreases n,
{
    if n < 10 && m < 10 {
        assert(decimal(n)[0] == digit_char(n));
        assert(decimal(m)[0] == digit_char(m));
        lemma_digit_char_injective(n, m);
    } else if n >= 10 && m >= 10 {
        lemma_decimal_len(n / 10);
        lemma_decimal_len(m / 10);
        assert(decimal(n).last() == digit_char(n % 10));
        assert(decimal(m).last() == digit_char(m % 10));
        lemma_digit_char_injective(n % 10, m % 10);
        assert(decimal(n).drop_last() =~= decimal(n / 10));
        assert(decimal(m).drop_last() =~= decimal(m / 10));
        lemma_decimal_injective(n / 10, m / 10);
    } else if n < 10 {
        lemma_decimal_len(m / 10);
        assert(decimal(m).len() >= 2);
    } else {
        lemma_decimal_len(n / 10);
        assert(decimal(n).len() >= 2);
    }
}

proof fn lemma_candidate_injective(base: Seq<char>, n: nat, m: nat)
    requires
        id_candidate(base, n) == id_candidate(base, m),
    ensures
        n == m,
{
    assert(id_candidate(base, n).skip(base.len() + 1int) =~= decimal(n));
    assert(id_candidate(base, m).skip(base.len() + 1int) =~= decimal(m));
    lemma_decimal_injective(n, m);
}

/// With fewer names taken than there are suffixes, some suffixed candidate
/// of any base is free: `base-2` … `base-(k+2)` are `k + 1` different ids.
pub proof fn lemma_some_candidate_free(taken: Set<Seq<char>>, base: Seq<char>)
    requires
        taken.finite(),
        taken.len() + 3 <= suffix_limit(),
    ensures
        exists|n: nat| 2 <= n < suffix_limit() && !taken.contains(#[trigger] id_candidate(base, n)),
{
    let hi: int = taken.len() as int + 3;
    let x = vstd::set_lib::set_int_range(2, hi);
    vstd::set_lib::lemma_int_range(2, hi);
    let f = |i: int| id_candidate(base, i as nat);
    let y = x.map(f);
    assert(vstd::relations::injective_on(f, x)) by {
        assert forall|a: int, b: int| x.contains(a) && x.contains(b) && #[trigger] f(a) == #[trigger] f(b) implies a
            == b by {
            lemma_candidate_injective(base, a as nat, b as nat);
        }
    }
    vstd::set_lib::lemma_map_size(x, y, f);
    if forall|n: nat| 2 <= n < suffix_limit() ==> taken.contains(#[trigger] id_candidate(base, n)) {
        assert(y.subset_of(taken)) by {
            assert forall|c: Seq<char>| y.contains(c) implies taken.contains(c) by {
                let i = choose|i: int| x.contains(i) && f(i) == c;
                assert(taken.contains(id_candidate(base, i as nat)));
            }
        }
        vstd::set_lib::lemma_len_subset(y, taken);
        assert(false);
    }
}

/// Derive a unique id from `display`, falling back to `fallback_prefix` when
/// the name slugifies to nothing. `in_use` reports whether a candidate id is
/// already taken; collisions get a `-2`, `-3`, … suffix.
pub fn derive_id(display: &str, fallback_prefix: &str, in_use: impl Fn(&str) -> bool) -> (r: String)
    requires
        forall|s: &str| #[trigger] call_requires(in_use, (s,)),
        always_free(in_use, id_base(display@, fallback_prefix@)) || exists|n: nat|
            2 <= n < suffix_limit() && #[trigger] always_free(
                in_use,
                id_candidate(id_base(display@, fallback_prefix@), n),
            ),
    ensures
        ({
            let base = id_base(display@, fallback_prefix@);
            ||| r@ == base && answered(in_use, base, false)
            ||| answered(in_use, base, true) && exists|n: nat|
                2 <= n < suffix_limit() && r@ == id_candidate(base, n) && answered(
                    in_use,
                    id_candidate(base, n),
                    false,
                ) && forall|m: nat| 2 <= m < n ==> #[trigger] answered(in_use, id_candidate(base, m), true)
        }),
        id_base(display@, fallback_prefix@).len() > 0 ==> valid_name(r@),
{
    let s = slugify(display);
    let base = if s.as_str().is_empty() {
        slugify(fallback_prefix)
    } else {
        s
    };
    let ghost b = id_base(display@, fallback_prefix@);
    proof {
        assert(base@.len() == 0 ==> base@ == spec_slugify(fallback_prefix@)) by {
            if s@.len() == 0 {}
        }
        assert(base@ == b);
        law_slug_shaped(display@);
        law_slug_shaped(fallback_prefix@);
        assert(slug_shaped(b));
    }
    let bs = base.as_str();
    let hit_base = in_use(bs);
    proof {
        assert(call_ensures(in_use, (bs,), hit_base) && bs@ == b);
        assert(answered(in_use, b, hit_base));
    }
    if !hit_base {
        proof {
            if b.len() > 0 {
                assert(valid_name(b));
            }
        }
        return base;
    }
    let mut n: u64 = 2;
    while n < 0x7fff_ffff
        invariant
            2 <= n <= suffix_limit(),
            base@ == b,
            b == id_base(display@, fallback_prefix@),
            slug_shaped(b),
            forall|s: &str| #[trigger] call_requires(in_use, (s,)),
            answered(in_use, b, true),
            forall|m: nat| 2 <= m < n ==> #[trigger] answered(in_use, id_candidate(b, m), true),
        decreases suffix_limit() - n,
    {
        let mut candidate = String::new();
        push_str(&mut candidate, base.as_str());
        push_char(&mut candidate, '-');
        let digits = u64_to_decimal(n);
        push_str(&mut candidate, digits.as_str());
        let cs = candidate.as_str();
        let hit = in_use(cs);
        proof {
            assert(candidate@ =~= id_candidate(b, n as nat));
            assert(call_ensures(in_use, (cs,), hit) && cs@ == id_candidate(b, n as nat));
            assert(answered(in_use, id_candidate(b, n as nat), hit));
        }
        if !hit {
            proof {
                if b.len() > 0 {
                    lemma_candidate_valid(b, n as nat);
                }
                let nn = n as nat;
                assert(2 <= nn < suffix_limit() && candidate@ == id_candidate(b, nn) && answered(
                    in_use,
                    id_candidate(b, nn),
                    false,
                ) && forall|m: nat| 2 <= m < nn ==> #[trigger] answered(in_use, id_candidate(b, m), true));
                assert(b.len() > 0 ==> valid_name(candidate@));
                assert(b == id_base(display@, fallback_prefix@));
            }
            return candidate;
        }
        proof {
            assert(candidate@ =~= id_candidate(b, n as nat));
            assert(answered(in_use, id_candidate(b, n as nat), true));
        }
        n = n + 1;
    }
    proof {
        if always_free(in_use, b) {
            let s0 = choose|s: &str| #[trigger] call_ensures(in_use, (s,), true) && s@ == b;
            assert(call_ensures(in_use, (s0,), true) && s0@ == b);
        } else {
            let k = choose|k: nat| 2 <= k < suffix_limit() && #[trigger] always_free(in_use, id_candidate(b, k));
            assert(answered(in_use, id_candidate(b, k), true));
            let s0 = choose|s: &str| #[trigger] call_ensures(in_use, (s,), true) && s@ == id_candidate(b, k);
            assert(call_ensures(in_use, (s0,), true));
        }
        assert(false);
    }
    base
}

} // verus!
