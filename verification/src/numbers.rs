//! Decimal rendering and parsing of integers, including the
//! thousands-separated form some upstream feeds use for metrics.
use vstd::prelude::*;
use vstd::string::StrSliceExecFns;

use crate::id_codec::{is_space, is_space_exec, lemma_trim_is_subrange, spec_trim};
use crate::text::push_char;

verus! {

pub open spec fn is_digit(c: char) -> bool {
    '0' <= c <= '9'
}

pub open spec fn digit_char(d: int) -> char {
    ((('0' as u8) + d) as u8) as char
}

/// The decimal digit string of a nonnegative integer, most significant first.
pub open spec fn spec_nat_digits(n: int) -> Seq<char>
    decreases n,
{
    if n < 10 {
        seq![digit_char(if n < 0 { 0 } else { n })]
    } else {
        spec_nat_digits(n / 10).push(digit_char(n % 10))
    }
}

/// The decimal string of an integer, with a leading minus sign if negative.
pub open spec fn spec_int_string(m: int) -> Seq<char> {
    if m < 0 {
        seq!['-'] + spec_nat_digits(-m)
    } else {
        spec_nat_digits(m)
    }
}

fn push_nat_digits(n: u64, out: &mut String)
    ensures
        final(out)@ == old(out)@ + spec_nat_digits(n as int),
    decreases n,
{
    if n < 10 {
        push_char(out, (('0' as u8) + (n as u8)) as char);
        proof {
            assert(old(out)@ + spec_nat_digits(n as int) =~= old(out)@.push(
                digit_char(n as int),
            ));
        }
    } else {
        push_nat_digits(n / 10, out);
        push_char(out, (('0' as u8) + ((n % 10) as u8)) as char);
    }
}

/// Renders a nonnegative integer in decimal.
pub fn u64_to_string(n: u64) -> (r: String)
    ensures
        r@ == spec_nat_digits(n as int),
{
    let mut out = String::new();
    push_nat_digits(n, &mut out);
    proof {
        assert(Seq::<char>::empty() + spec_nat_digits(n as int) =~= spec_nat_digits(n as int));
    }
    out
}

/// Renders an integer in decimal, with a leading minus sign if negative.
pub fn i64_to_string(m: i64) -> (r: String)
    ensures
        r@ == spec_int_string(m as int),
{
    if m >= 0 {
        u64_to_string(m as u64)
    } else {
        let mag: u64 = ((-(m + 1)) as u64) + 1;
        let mut out = String::new();
        push_char(&mut out, '-');
        push_nat_digits(mag, &mut out);
        proof {
            assert(mag == -(m as int));
            assert(Seq::<char>::empty().push('-') + spec_nat_digits(mag as int) =~= seq!['-']
                + spec_nat_digits(-(m as int)));
        }
        out
    }
}

/// The value of a digit string, most significant first.
pub open spec fn digits_val(s: Seq<char>) -> int
    decreases s.len(),
{
    if s.len() == 0 {
        0
    } else {
        digits_val(s.drop_last()) * 10 + (s.last() as int - '0' as int)
    }
}

pub open spec fn all_digits(s: Seq<char>) -> bool {
    forall|i: int| 0 <= i < s.len() ==> is_digit(#[trigger] s[i])
}

/// How a decimal integer literal with an optional sign parses: `None` when
/// the digit part is empty, holds a non-digit, or the value is out of the
/// `i64` range.
pub open spec fn spec_parse_i64(s: Seq<char>) -> Option<i64> {
    let neg = s.len() > 0 && s[0] == '-';
    let ds = if s.len() > 0 && (s[0] == '-' || s[0] == '+') {
        s.skip(1)
    } else {
        s
    };
    if ds.len() == 0 || !all_digits(ds) {
        None
    } else {
        let v = if neg {
            -digits_val(ds)
        } else {
            digits_val(ds)
        };
        if i64::MIN <= v <= i64::MAX {
            Some(v as i64)
        } else {
            None
        }
    }
}

proof fn lemma_digits_val_bounds(s: Seq<char>)
    requires
        all_digits(s),
    ensures
        0 <= digits_val(s),
        s.len() > 0 ==> digits_val(s) >= digits_val(s.take(s.len() - 1)),
    decreases s.len(),
{
    if s.len() > 0 {
        assert(s.take(s.len() - 1) =~= s.drop_last());
        lemma_digits_val_bounds(s.drop_last());
        assert(is_digit(s[s.len() - 1]));
    }
}

/// `digits_val` only grows as more digits are appended.
proof fn lemma_digits_val_monotone(s: Seq<char>, i: int)
    requires
        all_digits(s),
        0 <= i <= s.len(),
    ensures
        digits_val(s.take(i)) <= digits_val(s),
    decreases s.len() - i,
{
    if i < s.len() {
        lemma_digits_val_monotone(s, i + 1);
        assert(s.take(i + 1).drop_last() =~= s.take(i));
        assert(forall|j: int| 0 <= j < i + 1 ==> is_digit(#[trigger] s.take(i + 1)[j]));
        lemma_digits_val_bounds(s.take(i + 1));
        assert(digits_val(s.take(i)) <= digits_val(s.take(i + 1)));
    } else {
        assert(s.take(i) =~= s);
    }
}

/// Parses a decimal integer with an optional leading sign, as the canonical
/// string form of an `i64`: fails on an empty digit part, any non-digit
/// character, or overflow.
#[verifier::loop_isolation(false)]
pub fn parse_i64(s: &str) -> (r: Option<i64>)
    ensures
        r == spec_parse_i64(s@),
{
    let n = s.unicode_len();
    let mut i: usize = 0;
    let mut neg = false;
    if n > 0 {
        let c0 = s.get_char(0);
        if c0 == '-' {
            neg = true;
            i = 1;
        } else if c0 == '+' {
            i = 1;
        }
    }
    let ghost ds = if i == 1 { s@.skip(1) } else { s@ };
    if i >= n {
        return None;  // empty digit part
    }
    let mut acc: i128 = 0;
    while i < n
        invariant
            n - ds.len() <= i <= n,
            n == s@.len(),
            ds == if s@.len() > 0 && (s@[0] == '-' || s@[0] == '+') { s@.skip(1) } else { s@ },
            neg == (s@.len() > 0 && s@[0] == '-'),
            all_digits(ds.take(i - (n - ds.len()))),
            acc == digits_val(ds.take(i - (n - ds.len()))),
            0 <= acc <= i64::MAX as int + 1,
        decreases n - i,
    {
        let c = s.get_char(i);
        if c < '0' || c > '9' {
            proof {
                let off = n - ds.len();
                assert(ds[i - off] == s@[i as int]);
                assert(!is_digit(ds[i - off]));
            }
            return None;
        }
        let d: i128 = ((c as u8) - ('0' as u8)) as i128;
        proof {
            let off = n - ds.len();
            let tnew = ds.take(i + 1 - off);
            assert(tnew =~= ds.take(i - off).push(s@[i as int]));
            assert(tnew.drop_last() =~= ds.take(i - off));
            assert(tnew.last() == s@[i as int]);
            assert forall|j: int| 0 <= j < tnew.len() implies is_digit(#[trigger] tnew[j]) by {
                if j < i - off {
                    assert(tnew[j] == ds.take(i - off)[j]);
                }
            }
        }
        acc = acc * 10 + d;
        if acc > (i64::MAX as i128) + 1 {
            proof {
                let off = n - ds.len();
                if all_digits(ds) {
                    lemma_digits_val_monotone(ds, i + 1 - off);
                    assert(digits_val(ds) >= acc);
                }
            }
            return None;  // overflow whichever sign the literal has
        }
        i += 1;
    }
    proof {
        assert(ds.take(ds.len() as int) =~= ds);
    }
    if neg {
        if acc == (i64::MAX as i128) + 1 {
            Some(i64::MIN)
        } else {
            Some(-(acc as i64))
        }
    } else {
        if acc > i64::MAX as i128 {
            None
        } else {
            Some(acc as i64)
        }
    }
}

/// How a metric given as a thousands-separated decimal string parses:
/// surrounding whitespace is trimmed and every comma removed before the
/// ordinary integer parse.
pub open spec fn spec_parse_thousands_i64(s: Seq<char>) -> Option<i64> {
    spec_parse_i64(spec_trim(s).filter(|c: char| c != ','))
}

/// Parses a thousands-separated integer ("1,234,567"): strips surrounding
/// whitespace and commas, then parses the rest as a decimal integer.
pub fn parse_thousands_i64(s: &str) -> (r: Option<i64>)
    ensures
        r == spec_parse_thousands_i64(s@),
{
    let cleaned = strip_commas_trim(s);
    parse_i64(cleaned.as_str())
}

/// Whitespace-trims a string and removes every comma.
#[verifier::loop_isolation(false)]
fn strip_commas_trim(s: &str) -> (r: String)
    ensures
        r@ == spec_trim(s@).filter(|c: char| c != ','),
{
    let ghost keep: spec_fn(char) -> bool = |c: char| c != ',';
    let n = s.unicode_len();
    let mut start: usize = 0;
    while start < n && is_space_exec(s.get_char(start))
        invariant
            start <= n,
            n == s@.len(),
            forall|j: int| 0 <= j < start ==> is_space(s@[j]),
        decreases n - start,
    {
        start += 1;
    }
    let mut end: usize = n;
    while end > start && is_space_exec(s.get_char(end - 1))
        invariant
            start <= end <= n,
            n == s@.len(),
            forall|j: int| 0 <= j < start ==> is_space(s@[j]),
            start == n || !is_space(s@[start as int]),
            forall|j: int| end <= j < n ==> is_space(s@[j]),
        decreases end,
    {
        end -= 1;
    }
    let ghost t = spec_trim(s@);
    proof {
        lemma_trim_is_subrange(s@, start as int, end as int);
        assert(t =~= s@.subrange(start as int, end as int));
    }
    let mut out = String::new();
    let mut i: usize = start;
    while i < end
        invariant
            start <= i <= end <= n,
            n == s@.len(),
            t == s@.subrange(start as int, end as int),
            out@ == t.take(i - start).filter(keep),
        decreases end - i,
    {
        let c = s.get_char(i);
        let ghost pre = t.take(i - start);
        proof {
            reveal(Seq::filter);
            assert(t.take(i + 1 - start) =~= pre.push(t[i - start]));
            assert(pre.push(t[i - start]).drop_last() =~= pre);
            assert(t[i - start] == s@[i as int]);
        }
        if c != ',' {
            push_char(&mut out, c);
        }
        i += 1;
    }
    proof {
        assert(t.take(end - start) =~= t);
    }
    out
}

pub(crate) fn is_digit_exec(c: char) -> (r: bool)
    ensures
        r == is_digit(c),
{
    '0' <= c && c <= '9'
}

/// The value of the `len` digits of `s` starting at `start`.
#[verifier::loop_isolation(false)]
pub(crate) fn digits_value_at(s: &str, start: usize, len: usize) -> (r: u64)
    requires
        start + len <= s@.len(),
        s@.len() <= usize::MAX,
        len <= 4,
        all_digits(s@.subrange(start as int, start + len)),
    ensures
        r == digits_val(s@.subrange(start as int, start + len)),
{
    let ghost sub = s@.subrange(start as int, start + len);
    let mut acc: u64 = 0;
    let mut k: usize = 0;
    while k < len
        invariant
            0 <= k <= len,
            acc == digits_val(sub.take(k as int)),
            acc <= 9999,
        decreases len - k,
    {
        let c = s.get_char(start + k);
        proof {
            assert(sub.take(k + 1).drop_last() =~= sub.take(k as int));
            assert(sub.take(k + 1).last() == sub[k as int]);
            assert(sub[k as int] == s@[start + k]);
            assert(is_digit(sub[k as int]));
            assert(forall|j: int| 0 <= j < k + 1 ==> is_digit(#[trigger] sub.take(k + 1)[j]));
            lemma_digits_val_bound(sub.take(k + 1));
            lemma_pow10_4();
        }
        acc = acc * 10 + (((c as u8) - ('0' as u8)) as u64);
        k += 1;
    }
    proof {
        assert(sub.take(len as int) =~= sub);
    }
    acc
}

pub open spec fn pow10(n: nat) -> int
    decreases n,
{
    if n == 0 {
        1
    } else {
        10 * pow10((n - 1) as nat)
    }
}

proof fn lemma_pow10_4()
    ensures
        pow10(0) == 1,
        pow10(1) == 10,
        pow10(2) == 100,
        pow10(3) == 1000,
        pow10(4) == 10000,
{
    assert(pow10(0) == 1);
    assert(pow10(1) == 10);
    assert(pow10(2) == 100);
    assert(pow10(3) == 1000);
    assert(pow10(4) == 10000);
}

/// The value of a digit string is nonnegative.
pub(crate) proof fn lemma_digits_val_nonneg(s: Seq<char>)
    requires
        all_digits(s),
    ensures
        0 <= digits_val(s),
{
    lemma_digits_val_bound(s);
}

/// The value of a digit string of at most four digits is below 10000; of at
/// most two, below 100.
pub(crate) proof fn lemma_digits_val_below(s: Seq<char>)
    requires
        all_digits(s),
        s.len() <= 4,
    ensures
        0 <= digits_val(s) <= 9999,
        s.len() <= 2 ==> digits_val(s) <= 99,
{
    lemma_digits_val_bound(s);
    lemma_pow10_4();
    if s.len() == 0 {
    } else if s.len() == 1 {
    } else if s.len() == 2 {
    } else if s.len() == 3 {
    }
}

/// The value of an n-digit string is below 10^n.
proof fn lemma_digits_val_bound(s: Seq<char>)
    requires
        all_digits(s),
    ensures
        0 <= digits_val(s) < pow10(s.len()),
    decreases s.len(),
{
    if s.len() > 0 {
        assert(forall|i: int| 0 <= i < s.len() - 1 ==> is_digit(#[trigger] s.drop_last()[i]));
        lemma_digits_val_bound(s.drop_last());
        assert(is_digit(s.last()));
        assert(pow10(s.len()) == 10 * pow10((s.len() - 1) as nat));
    }
}

} // verus!
