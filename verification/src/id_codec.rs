//! Level-id codec: the canonical storage form of a level identifier and its
//! human display form.
//!
//! The canonical form of an id is lowercase with every hyphen removed and
//! surrounding whitespace trimmed; a valid canonical id is exactly 9
//! alphanumeric characters. The display form is uppercase, grouped in runs of
//! three characters joined by hyphens.
use vstd::prelude::*;
use vstd::string::StrSliceExecFns;

use crate::text::push_char;

verus! {

/// The whitespace characters trimmed from the ends of a raw id.
pub open spec fn is_space(c: char) -> bool {
    c == ' ' || c == '\t' || c == '\n' || c == '\r' || c == '\u{c}'
}

/// Lowercase mapping for a single character (ASCII letters only).
pub open spec fn lower_char(c: char) -> char {
    if 'A' <= c && c <= 'Z' {
        ((c as u8) + 32) as char
    } else {
        c
    }
}

/// Uppercase mapping for a single character (ASCII letters only).
pub open spec fn upper_char(c: char) -> char {
    if 'a' <= c && c <= 'z' {
        ((c as u8) - 32) as char
    } else {
        c
    }
}

/// Drops leading whitespace.
pub open spec fn trim_front(s: Seq<char>) -> Seq<char>
    decreases s.len(),
{
    if s.len() > 0 && is_space(s[0]) {
        trim_front(s.skip(1))
    } else {
        s
    }
}

/// Drops trailing whitespace.
pub open spec fn trim_back(s: Seq<char>) -> Seq<char>
    decreases s.len(),
{
    if s.len() > 0 && is_space(s[s.len() - 1]) {
        trim_back(s.drop_last())
    } else {
        s
    }
}

/// Whitespace trimmed from both ends.
pub open spec fn spec_trim(s: Seq<char>) -> Seq<char> {
    trim_back(trim_front(s))
}

/// The canonical form of a raw id: trimmed, hyphens removed, lowercased.
pub open spec fn spec_canonicalize(s: Seq<char>) -> Seq<char> {
    spec_trim(s).filter(|c: char| c != '-').map_values(|c: char| lower_char(c))
}

fn lower_char_exec(c: char) -> (r: char)
    ensures
        r == lower_char(c),
{
    if 'A' <= c && c <= 'Z' {
        ((c as u8) + 32) as char
    } else {
        c
    }
}

proof fn lemma_trim_front_is_skip(s: Seq<char>, a: int)
    requires
        0 <= a <= s.len(),
        forall|j: int| 0 <= j < a ==> is_space(s[j]),
        a == s.len() || !is_space(s[a]),
    ensures
        trim_front(s) == s.skip(a),
    decreases a,
{
    if a == 0 {
        assert(s.skip(0) =~= s);
    } else {
        assert(is_space(s[0]));
        lemma_trim_front_is_skip(s.skip(1), a - 1);
        assert(s.skip(1).skip(a - 1) =~= s.skip(a));
    }
}

proof fn lemma_trim_back_is_take(s: Seq<char>, b: int)
    requires
        0 <= b <= s.len(),
        forall|j: int| b <= j < s.len() ==> is_space(s[j]),
        b == 0 || !is_space(s[b - 1]),
    ensures
        trim_back(s) == s.take(b),
    decreases s.len() - b,
{
    if b == s.len() {
        assert(s.take(b) =~= s);
    } else {
        assert(is_space(s[s.len() - 1]));
        lemma_trim_back_is_take(s.drop_last(), b);
        assert(s.drop_last().take(b) =~= s.take(b));
    }
}

/// Trimming is exactly the subrange between the first and last non-whitespace
/// characters.
pub(crate) proof fn lemma_trim_is_subrange(s: Seq<char>, start: int, end: int)
    requires
        0 <= start <= end <= s.len(),
        forall|j: int| 0 <= j < start ==> is_space(s[j]),
        start == s.len() || !is_space(s[start]),
        forall|j: int| end <= j < s.len() ==> is_space(s[j]),
        end == start || !is_space(s[end - 1]),
    ensures
        spec_trim(s) == s.subrange(start, end),
{
    lemma_trim_front_is_skip(s, start);
    lemma_trim_back_is_take(s.skip(start), end - start);
    assert(s.skip(start).take(end - start) =~= s.subrange(start, end));
}

pub(crate) fn is_space_exec(c: char) -> (r: bool)
    ensures
        r == is_space(c),
{
    c == ' ' || c == '\t' || c == '\n' || c == '\r' || c == '\u{c}'
}

/// The canonical storage form of a raw level id: whitespace trimmed from both
/// ends, every hyphen removed, ASCII letters folded to lowercase. Total: any
/// input is accepted; callers that need a valid id check the length afterward.
#[verifier::loop_isolation(false)]
pub fn canonicalize(raw: &str) -> (r: String)
    ensures
        r@ == spec_canonicalize(raw@),
{
    let n = raw.unicode_len();
    let mut start: usize = 0;
    while start < n && is_space_exec(raw.get_char(start))
        invariant
            start <= n,
            n == raw@.len(),
            forall|j: int| 0 <= j < start ==> is_space(raw@[j]),
        decreases n - start,
    {
        start += 1;
    }
    let mut end: usize = n;
    while end > start && is_space_exec(raw.get_char(end - 1))
        invariant
            start <= end <= n,
            n == raw@.len(),
            forall|j: int| 0 <= j < start ==> is_space(raw@[j]),
            start == n || !is_space(raw@[start as int]),
            forall|j: int| end <= j < n ==> is_space(raw@[j]),
        decreases end,
    {
        end -= 1;
    }
    let ghost t = spec_trim(raw@);
    proof {
        lemma_trim_front_is_skip(raw@, start as int);
        lemma_trim_back_is_take(raw@.skip(start as int), end - start);
        assert(t =~= raw@.subrange(start as int, end as int));
    }
    let ghost keep: spec_fn(char) -> bool = |c: char| c != '-';
    let ghost lo: spec_fn(char) -> char = |c: char| lower_char(c);
    let mut out = String::new();
    let mut i: usize = start;
    while i < end
        invariant
            start <= i <= end <= n,
            n == raw@.len(),
            t == raw@.subrange(start as int, end as int),
            out@ == t.take(i - start).filter(keep).map_values(lo),
        decreases end - i,
    {
        let c = raw.get_char(i);
        let ghost pre = t.take(i - start);
        proof {
            reveal(Seq::filter);
            assert(t.take(i + 1 - start) =~= pre.push(t[i - start]));
            assert(pre.push(t[i - start]).drop_last() =~= pre);
            assert(t[i - start] == raw@[i as int]);
            if keep(c) {
                assert(pre.push(c).filter(keep) == pre.filter(keep).push(c));
                pre.filter(keep).lemma_push_map_commute(lo, c);
            } else {
                assert(pre.push(c).filter(keep) == pre.filter(keep));
            }
        }
        if c != '-' {
            push_char(&mut out, lower_char_exec(c));
        }
        i += 1;
    }
    proof {
        assert(t.take(end - start) =~= t);
    }
    out
}

/// The display form of an id: uppercased, split into runs of three characters
/// joined by hyphens (the last run may be shorter).
pub open spec fn spec_format(s: Seq<char>) -> Seq<char>
    decreases s.len(),
{
    if s.len() <= 3 {
        s.map_values(|c: char| upper_char(c))
    } else {
        s.take(3).map_values(|c: char| upper_char(c)) + seq!['-'] + spec_format(s.skip(3))
    }
}

proof fn lemma_format_split(s: Seq<char>, k: int)
    requires
        0 < k < s.len(),
        k % 3 == 0,
    ensures
        spec_format(s) == spec_format(s.take(k)) + seq!['-'] + spec_format(s.skip(k)),
    decreases k,
{
    let up: spec_fn(char) -> char = |c: char| upper_char(c);
    if k == 3 {
        assert(s.take(3).take(3) =~= s.take(3));
        assert(spec_format(s.take(3)) == s.take(3).map_values(up));
    } else {
        lemma_format_split(s.skip(3), k - 3);
        assert(s.take(k).take(3) =~= s.take(3));
        assert(s.take(k).skip(3) =~= s.skip(3).take(k - 3));
        assert(s.skip(3).skip(k - 3) =~= s.skip(k));
        assert(spec_format(s.take(k)) == s.take(3).map_values(up) + seq!['-'] + spec_format(
            s.skip(3).take(k - 3),
        ));
        assert(spec_format(s) == s.take(3).map_values(up) + seq!['-'] + (spec_format(
            s.skip(3).take(k - 3),
        ) + seq!['-'] + spec_format(s.skip(k))));
        assert(spec_format(s.take(k)) + seq!['-'] + spec_format(s.skip(k)) =~= spec_format(s));
    }
}

fn upper_char_exec(c: char) -> (r: char)
    ensures
        r == upper_char(c),
{
    if 'a' <= c && c <= 'z' {
        ((c as u8) - 32) as char
    } else {
        c
    }
}

/// Formats a raw id for display: uppercase, grouped in threes with hyphens.
#[verifier::loop_isolation(false)]
pub fn format_level_id(raw_id: &str) -> (r: String)
    ensures
        r@ == spec_format(raw_id@),
{
    let ghost up: spec_fn(char) -> char = |c: char| upper_char(c);
    let n = raw_id.unicode_len();
    let mut out = String::new();
    let mut i: usize = 0;
    while i < n
        invariant
            i <= n,
            i % 3 == 0 || i == n,
            out@ == spec_format(raw_id@.take(i as int)),
        decreases n - i,
    {
        let ghost prev = i as int;
        if i > 0 {
            push_char(&mut out, '-');
        }
        let mut j: usize = 0;
        while j < 3 && i < n
            invariant
                0 <= j <= 3,
                prev <= i <= n,
                i == prev + j,
                prev % 3 == 0,
                out@ == if prev == 0 {
                    raw_id@.subrange(prev, i as int).map_values(up)
                } else {
                    spec_format(raw_id@.take(prev)) + seq!['-'] + raw_id@.subrange(
                        prev,
                        i as int,
                    ).map_values(up)
                },
            decreases 3 - j,
        {
            proof {
                raw_id@.subrange(prev, i as int).lemma_push_map_commute(up, raw_id@[i as int]);
                assert(raw_id@.subrange(prev, i + 1) =~= raw_id@.subrange(prev, i as int).push(
                    raw_id@[i as int],
                ));
            }
            push_char(&mut out, upper_char_exec(raw_id.get_char(i)));
            i += 1;
            j += 1;
        }
        proof {
            let g = raw_id@.subrange(prev, i as int);
            assert(g =~= raw_id@.take(i as int).skip(prev));
            assert(g.len() <= 3);
            assert(spec_format(g) == g.map_values(up));
            if prev > 0 {
                lemma_format_split(raw_id@.take(i as int), prev);
                assert(raw_id@.take(i as int).take(prev) =~= raw_id@.take(prev));
            }
        }
    }
    proof {
        assert(raw_id@.take(n as int) =~= raw_id@);
    }
    out
}

/// A valid canonical id: exactly 9 characters, each a lowercase ASCII letter
/// or a digit.
pub open spec fn is_canonical_id(s: Seq<char>) -> bool {
    s.len() == 9 && forall|i: int|
        0 <= i < s.len() ==> ('a' <= #[trigger] s[i] <= 'z' || '0' <= s[i] <= '9')
}

proof fn lemma_lower_char_props(c: char)
    ensures
        lower_char(lower_char(c)) == lower_char(c),
        (lower_char(c) == '-') == (c == '-'),
{
    if 'A' <= c && c <= 'Z' {
        assert('a' <= lower_char(c) <= 'z');
    }
}

proof fn lemma_filter_all<A>(s: Seq<A>, p: spec_fn(A) -> bool)
    requires
        forall|i: int| 0 <= i < s.len() ==> p(#[trigger] s[i]),
    ensures
        s.filter(p) == s,
    decreases s.len(),
{
    reveal(Seq::filter);
    if s.len() > 0 {
        lemma_filter_all(s.drop_last(), p);
        assert(s.drop_last().push(s.last()) =~= s);
    }
}

/// Canonicalization is idempotent: running an already-canonical id through
/// `canonicalize` again changes nothing. The one family of inputs left out:
/// ids where removing a hyphen exposes new whitespace at an end (there the
/// first pass leaves that whitespace, the second trims it).
pub proof fn lemma_canonicalize_idempotent(s: Seq<char>)
    requires
        spec_trim(spec_canonicalize(s)) == spec_canonicalize(s),
    ensures
        spec_canonicalize(spec_canonicalize(s)) == spec_canonicalize(s),
{
    let keep: spec_fn(char) -> bool = |c: char| c != '-';
    let lo: spec_fn(char) -> char = |c: char| lower_char(c);
    let y = spec_trim(s).filter(keep);
    let c = spec_canonicalize(s);
    assert(c == y.map_values(lo));
    assert forall|i: int| 0 <= i < c.len() implies keep(#[trigger] c[i]) by {
        spec_trim(s).lemma_filter_pred(keep, i);
        lemma_lower_char_props(y[i]);
    }
    lemma_filter_all(c, keep);
    assert(c.map_values(lo) =~= c) by {
        assert forall|i: int| 0 <= i < c.len() implies lo(#[trigger] c[i]) == c[i] by {
            lemma_lower_char_props(y[i]);
        }
    }
}

/// Round trip: formatting a valid 9-character canonical id for display and
/// canonicalizing the result gives the id back.
pub proof fn lemma_format_round_trip(id: Seq<char>)
    requires
        is_canonical_id(id),
    ensures
        spec_canonicalize(spec_format(id)) == id,
{
    let keep: spec_fn(char) -> bool = |c: char| c != '-';
    let lo: spec_fn(char) -> char = |c: char| lower_char(c);
    let up: spec_fn(char) -> char = |c: char| upper_char(c);
    let f = spec_format(id);
    let g1 = id.take(3).map_values(up);
    let g2 = id.skip(3).take(3).map_values(up);
    let g3 = id.skip(3).skip(3).map_values(up);
    let dash = seq!['-'];
    assert(id.skip(3).len() == 6);
    assert(id.skip(3).skip(3).len() == 3);
    assert(spec_format(id.skip(3).skip(3)) == g3);
    assert(spec_format(id.skip(3)) == g2 + dash + spec_format(id.skip(3).skip(3)));
    assert(f == g1 + dash + (g2 + dash + g3));
    assert(f.len() == 11);
    assert forall|i: int| 0 <= i < 9 implies !is_space(#[trigger] up(id[i])) && up(id[i]) != '-'
        && lo(up(id[i])) == id[i] by {
        assert('a' <= id[i] <= 'z' || '0' <= id[i] <= '9');
    }
    assert(f[0] == up(id[0]));
    assert(f[10] == up(id.skip(3).skip(3)[2]));
    assert(id.skip(3).skip(3)[2] == id[8]);
    assert(!is_space(f[0]));
    assert(!is_space(f[10]));
    assert(spec_trim(f) == f) by {
        lemma_trim_front_is_skip(f, 0);
        assert(trim_front(f) =~= f);
        lemma_trim_back_is_take(f, 11);
        assert(trim_back(f) =~= f);
    }
    let parts = g1 + dash + (g2 + dash + g3);
    assert(parts.filter(keep) == g1.filter(keep) + dash.filter(keep) + (g2.filter(keep)
        + dash.filter(keep) + g3.filter(keep))) by {
        broadcast use Seq::filter_distributes_over_add;

    }
    assert(dash.filter(keep) =~= Seq::<char>::empty()) by {
        reveal_with_fuel(Seq::filter, 2);
        assert(dash.drop_last() =~= Seq::<char>::empty());
    }
    assert forall|i: int| 0 <= i < g1.len() implies keep(#[trigger] g1[i]) by {
        assert(g1[i] == up(id[i]));
    }
    assert forall|i: int| 0 <= i < g2.len() implies keep(#[trigger] g2[i]) by {
        assert(g2[i] == up(id[i + 3]));
    }
    assert forall|i: int| 0 <= i < g3.len() implies keep(#[trigger] g3[i]) by {
        assert(g3[i] == up(id[i + 6]));
    }
    lemma_filter_all(g1, keep);
    lemma_filter_all(g2, keep);
    lemma_filter_all(g3, keep);
    let stripped = f.filter(keep);
    assert(stripped =~= g1 + g2 + g3);
    assert(stripped =~= id.map_values(up));
    assert(stripped.map_values(lo) =~= id);
}

} // verus!
