//! Small executable helpers for building and comparing strings.
use vstd::prelude::*;
use vstd::string::{StrSliceExecFns, StringExecFns};

verus! {

/// Relies on String::push: appends exactly the given character.
#[verifier::external_body]
pub fn push_char(s: &mut String, c: char)
    ensures
        final(s)@ == old(s)@.push(c),
{
    s.push(c);
}

/// Character-for-character equality of two string slices.
pub fn eq_str(a: &str, b: &str) -> (r: bool)
    ensures
        r == (a@ == b@),
{
    let n = a.unicode_len();
    if n != b.unicode_len() {
        return false;
    }
    let mut i: usize = 0;
    while i < n
        invariant
            i <= n,
            n == a@.len(),
            n == b@.len(),
            forall|j: int| 0 <= j < i ==> a@[j] == b@[j],
        decreases n - i,
    {
        if a.get_char(i) != b.get_char(i) {
            return false;
        }
        i += 1;
    }
    proof {
        assert(a@ =~= b@);
    }
    true
}

/// Replacement of every non-overlapping occurrence of `pat`, scanned left to
/// right. A pattern longer than the rest of the string (or an empty one)
/// leaves the string as it is.
pub open spec fn spec_replace(s: Seq<char>, pat: Seq<char>, rep: Seq<char>) -> Seq<char>
    decreases s.len(),
{
    if pat.len() == 0 || s.len() < pat.len() {
        s
    } else if s.take(pat.len() as int) == pat {
        rep + spec_replace(s.skip(pat.len() as int), pat, rep)
    } else {
        seq![s[0]] + spec_replace(s.skip(1), pat, rep)
    }
}

pub(crate) fn matches_at(s: &str, i: usize, pat: &str, m: usize) -> (b: bool)
    requires
        m == pat@.len(),
        i + m <= s@.len(),
        s@.len() <= usize::MAX,
    ensures
        b == (s@.subrange(i as int, i + m) == pat@),
{
    let mut j: usize = 0;
    while j < m
        invariant
            0 <= j <= m,
            m == pat@.len(),
            i + m <= s@.len(),
            s@.len() <= usize::MAX,
            forall|k: int| 0 <= k < j ==> s@[i + k] == pat@[k],
        decreases m - j,
    {
        if s.get_char(i + j) != pat.get_char(j) {
            proof {
                assert(s@.subrange(i as int, i + m)[j as int] == s@[i + j]);
            }
            return false;
        }
        j += 1;
    }
    proof {
        assert(s@.subrange(i as int, i + m) =~= pat@);
    }
    true
}

/// Replaces every non-overlapping occurrence of `pat` in `s` with `rep`,
/// scanning left to right.
#[verifier::loop_isolation(false)]
pub fn replace(s: &str, pat: &str, rep: &str) -> (r: String)
    requires
        pat@.len() > 0,
    ensures
        r@ == spec_replace(s@, pat@, rep@),
{
    let n = s.unicode_len();
    let m = pat.unicode_len();
    let mut out = String::new();
    let mut i: usize = 0;
    proof {
        assert(s@.skip(0) =~= s@);
        assert(Seq::<char>::empty() + spec_replace(s@, pat@, rep@) =~= spec_replace(
            s@,
            pat@,
            rep@,
        ));
    }
    while i < n
        invariant
            0 <= i <= n,
            n == s@.len(),
            m == pat@.len(),
            out@ + spec_replace(s@.skip(i as int), pat@, rep@) == spec_replace(s@, pat@, rep@),
        decreases n - i,
    {
        let ghost rest = s@.skip(i as int);
        if m <= n - i && matches_at(s, i, pat, m) {
            proof {
                assert(rest.take(m as int) =~= s@.subrange(i as int, i + m));
                assert(rest.skip(m as int) =~= s@.skip(i + m));
                assert((out@ + rep@) + spec_replace(s@.skip(i + m), pat@, rep@) =~= out@ + (rep@
                    + spec_replace(rest.skip(m as int), pat@, rep@)));
            }
            out.append(rep);
            i += m;
        } else {
            proof {
                assert(rest.skip(1) =~= s@.skip(i + 1));
                if i + m <= n {
                    assert(rest.take(m as int) =~= s@.subrange(i as int, i + m));
                } else {
                    assert(rest.len() < m);
                    assert(spec_replace(rest.skip(1), pat@, rep@) == rest.skip(1));
                    assert(rest =~= seq![rest[0]] + rest.skip(1));
                }
                assert(spec_replace(rest, pat@, rep@) == seq![rest[0]] + spec_replace(
                    s@.skip(i + 1),
                    pat@,
                    rep@,
                ));
                assert((out@ + seq![s@[i as int]]) + spec_replace(s@.skip(i + 1), pat@, rep@)
                    =~= out@ + (seq![rest[0]] + spec_replace(s@.skip(i + 1), pat@, rep@)));
                assert(out@.push(s@[i as int]) =~= out@ + seq![s@[i as int]]);
            }
            push_char(&mut out, s.get_char(i));
            i += 1;
        }
    }
    proof {
        assert(s@.skip(n as int) =~= Seq::<char>::empty());
        assert(out@ + Seq::<char>::empty() =~= out@);
    }
    out
}

/// Builds a fresh `String` holding the given slice.
pub fn to_string(s: &str) -> (r: String)
    ensures
        r@ == s@,
{
    String::from_str(s)
}

/// Copies a string with the whitespace trimmed from both ends.
#[verifier::loop_isolation(false)]
pub fn trim(s: &str) -> (r: String)
    ensures
        r@ == crate::id_codec::spec_trim(s@),
{
    let n = s.unicode_len();
    let mut start: usize = 0;
    while start < n && crate::id_codec::is_space_exec(s.get_char(start))
        invariant
            start <= n,
            n == s@.len(),
            forall|j: int| 0 <= j < start ==> crate::id_codec::is_space(s@[j]),
        decreases n - start,
    {
        start += 1;
    }
    let mut end: usize = n;
    while end > start && crate::id_codec::is_space_exec(s.get_char(end - 1))
        invariant
            start <= end <= n,
            n == s@.len(),
            forall|j: int| 0 <= j < start ==> crate::id_codec::is_space(s@[j]),
            start == n || !crate::id_codec::is_space(s@[start as int]),
            forall|j: int| end <= j < n ==> crate::id_codec::is_space(s@[j]),
        decreases end,
    {
        end -= 1;
    }
    let ghost t = crate::id_codec::spec_trim(s@);
    proof {
        crate::id_codec::lemma_trim_is_subrange(s@, start as int, end as int);
        assert(t =~= s@.subrange(start as int, end as int));
    }
    let mut out = String::new();
    let mut i: usize = start;
    while i < end
        invariant
            start <= i <= end <= n,
            n == s@.len(),
            t == s@.subrange(start as int, end as int),
            out@ == t.take(i - start),
        decreases end - i,
    {
        proof {
            assert(t.take(i + 1 - start) =~= t.take(i - start).push(s@[i as int]));
        }
        push_char(&mut out, s.get_char(i));
        i += 1;
    }
    proof {
        assert(t.take(end - start) =~= t);
    }
    out
}

} // verus!
