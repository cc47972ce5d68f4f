//! The row normalizer: one mapping per upstream shape from a raw row to the
//! canonical level record. Owns the field-level rules — thousands-separated
//! numbers, fixed date formats, tag-list cleanup, clear-condition codes — and
//! the per-row failure policy: a row that fails a rule is dropped, never
//! stored half-filled or clamped.
use vstd::prelude::*;
use vstd::string::StrSliceExecFns;

use crate::dates::{parse_gsheets_date, spec_parse_gsheets_date, DateTime};
use crate::id_codec::{
    canonicalize, is_canonical_id, is_space, is_space_exec, lemma_trim_is_subrange, lower_char,
    spec_canonicalize, spec_trim,
};
use crate::numbers::{parse_i64, parse_thousands_i64, spec_parse_i64, spec_parse_thousands_i64};
use crate::smm1_level::Smm1Level;
use crate::smm2_level::Smm2Level;
use crate::text::{eq_str, push_char};

verus! {

/// Why a raw row was dropped.
#[derive(Clone, Copy, Debug, PartialEq, Eq, Structural)]
pub enum RowParseError {
    MissingField,
    BadNumber,
    NegativeMetric,
    BadTimestamp,
    BadId,
}

impl RowParseError {
    /// A short description for the importer's log line.
    pub fn message(&self) -> (r: &'static str) {
        match self {
            RowParseError::MissingField => "required field is missing",
            RowParseError::BadNumber => "numeric field does not parse",
            RowParseError::NegativeMetric => "metric is negative",
            RowParseError::BadTimestamp => "timestamp does not parse",
            RowParseError::BadId => "level id is not well-formed",
        }
    }
}

/// Lexicographic order on strings by character, as the raw tag slots are
/// sorted.
pub open spec fn spec_str_le(a: Seq<char>, b: Seq<char>) -> bool
    decreases a.len(),
{
    if a.len() == 0 {
        true
    } else if b.len() == 0 {
        false
    } else if a[0] != b[0] {
        a[0] < b[0]
    } else {
        spec_str_le(a.skip(1), b.skip(1))
    }
}

/// Decides the lexicographic order of two strings.
#[verifier::loop_isolation(false)]
pub fn str_le(a: &str, b: &str) -> (r: bool)
    ensures
        r == spec_str_le(a@, b@),
{
    let an = a.unicode_len();
    let bn = b.unicode_len();
    let mut i: usize = 0;
    proof {
        assert(a@.skip(0) =~= a@);
        assert(b@.skip(0) =~= b@);
    }
    while i < an && i < bn
        invariant
            0 <= i <= an,
            0 <= i <= bn,
            spec_str_le(a@, b@) == spec_str_le(a@.skip(i as int), b@.skip(i as int)),
        decreases an - i,
    {
        let ca = a.get_char(i);
        let cb = b.get_char(i);
        proof {
            assert(a@.skip(i as int).skip(1) =~= a@.skip(i + 1));
            assert(b@.skip(i as int).skip(1) =~= b@.skip(i + 1));
        }
        if ca != cb {
            return ca < cb;
        }
        i += 1;
    }
    proof {
        if i >= an {
            assert(a@.skip(i as int).len() == 0);
        } else {
            assert(b@.skip(i as int).len() == 0);
            assert(a@.skip(i as int).len() > 0);
        }
    }
    i >= an
}

/// How a raw tag name is normalized: whitespace trimmed, spaces replaced
/// with underscores, letters folded to lowercase.
pub open spec fn spec_normalize_tag_name(s: Seq<char>) -> Seq<char> {
    spec_trim(s).map_values(
        |c: char|
            lower_char(
                if c == ' ' {
                    '_'
                } else {
                    c
                },
            ),
    )
}

/// Normalizes one raw tag name.
#[verifier::loop_isolation(false)]
pub fn normalize_tag_name(name: &str) -> (r: String)
    ensures
        r@ == spec_normalize_tag_name(name@),
{
    let ghost f: spec_fn(char) -> char = |c: char|
        lower_char(
            if c == ' ' {
                '_'
            } else {
                c
            },
        );
    let n = name.unicode_len();
    let mut start: usize = 0;
    while start < n && is_space_exec(name.get_char(start))
        invariant
            start <= n,
            n == name@.len(),
            forall|j: int| 0 <= j < start ==> is_space(name@[j]),
        decreases n - start,
    {
        start += 1;
    }
    let mut end: usize = n;
    while end > start && is_space_exec(name.get_char(end - 1))
        invariant
            start <= end <= n,
            n == name@.len(),
            forall|j: int| 0 <= j < start ==> is_space(name@[j]),
            start == n || !is_space(name@[start as int]),
            forall|j: int| end <= j < n ==> is_space(name@[j]),
        decreases end,
    {
        end -= 1;
    }
    let ghost t = spec_trim(name@);
    proof {
        lemma_trim_is_subrange(name@, start as int, end as int);
        assert(t =~= name@.subrange(start as int, end as int));
    }
    let mut out = String::new();
    let mut i: usize = start;
    while i < end
        invariant
            start <= i <= end <= n,
            n == name@.len(),
            t == name@.subrange(start as int, end as int),
            out@ == t.take(i - start).map_values(f),
        decreases end - i,
    {
        let c = name.get_char(i);
        proof {
            assert(t.take(i + 1 - start) =~= t.take(i - start).push(t[i - start]));
            assert(t[i - start] == name@[i as int]);
            t.take(i - start).lemma_push_map_commute(f, c);
        }
        let u = if c == ' ' {
            '_'
        } else {
            c
        };
        let l = if 'A' <= u && u <= 'Z' {
            ((u as u8) + 32) as char
        } else {
            u
        };
        push_char(&mut out, l);
        i += 1;
    }
    proof {
        assert(t.take(end - start) =~= t);
    }
    out
}

/// What one raw tag slot contributes: the placeholder `None` and names
/// that are empty once normalized are dropped; anything else is its
/// normalized name.
pub open spec fn spec_tag_keep(t: Seq<char>) -> Seq<Seq<char>> {
    if t == "None"@ || spec_normalize_tag_name(t).len() == 0 {
        Seq::empty()
    } else {
        seq![spec_normalize_tag_name(t)]
    }
}

/// What an optional raw tag slot contributes; an absent slot contributes
/// nothing.
pub open spec fn spec_slot_keep(t: Option<Seq<char>>) -> Seq<Seq<char>> {
    match t {
        None => Seq::empty(),
        Some(t) => spec_tag_keep(t),
    }
}

/// The view of an optional borrowed string.
pub open spec fn spec_opt_str_view(t: Option<&str>) -> Option<Seq<char>> {
    match t {
        Some(s) => Some(s@),
        None => None,
    }
}

/// How the two raw tag slots become the stored tag list: placeholder and
/// empty values dropped, the remaining names normalized, and the normalized
/// names sorted and deduplicated. Order carries no meaning, only presence.
pub open spec fn spec_normalized_tags(t1: Option<Seq<char>>, t2: Option<Seq<char>>) -> Seq<
    Seq<char>,
> {
    let s1 = spec_slot_keep(t1);
    let s2 = spec_slot_keep(t2);
    if s1.len() == 0 {
        s2
    } else if s2.len() == 0 {
        s1
    } else if s1[0] == s2[0] {
        s1
    } else if spec_str_le(s1[0], s2[0]) {
        s1 + s2
    } else {
        s2 + s1
    }
}

/// The normalized name one raw slot contributes, if any.
fn slot_keep(t: Option<&str>) -> (r: Option<String>)
    ensures
        match r {
            Some(n) => spec_slot_keep(spec_opt_str_view(t)) == seq![n@],
            None => spec_slot_keep(spec_opt_str_view(t)).len() == 0,
        },
{
    proof {
        reveal_strlit("None");
    }
    let t = match t {
        None => {
            return None;
        },
        Some(t) => t,
    };
    if eq_str(t, "None") {
        return None;
    }
    let n = normalize_tag_name(t);
    if n.as_str().unicode_len() == 0 {
        None
    } else {
        Some(n)
    }
}

/// Collects the two raw tag slots: drops placeholders and empty values,
/// normalizes the rest, sorts and deduplicates the normalized names.
pub fn normalized_tags(tag1: Option<&str>, tag2: Option<&str>) -> (r: Vec<String>)
    ensures
        r.deep_view() == spec_normalized_tags(spec_opt_str_view(tag1), spec_opt_str_view(tag2)),
        r.deep_view().len() <= 2,
{
    let ghost s1 = spec_slot_keep(spec_opt_str_view(tag1));
    let ghost s2 = spec_slot_keep(spec_opt_str_view(tag2));
    let n1 = slot_keep(tag1);
    let n2 = slot_keep(tag2);
    let mut out: Vec<String> = Vec::new();
    match (n1, n2) {
        (None, None) => {
            proof {
                assert(out.deep_view() =~= s2);
            }
        },
        (Some(x), None) => {
            out.push(x);
            proof {
                assert(out.deep_view() =~= s1);
            }
        },
        (None, Some(y)) => {
            out.push(y);
            proof {
                assert(out.deep_view() =~= s2);
            }
        },
        (Some(x), Some(y)) => {
            if eq_str(x.as_str(), y.as_str()) {
                out.push(x);
                proof {
                    assert(out.deep_view() =~= s1);
                }
            } else if str_le(x.as_str(), y.as_str()) {
                let ghost xv = x@;
                let ghost yv = y@;
                out.push(x);
                out.push(y);
                proof {
                    assert(out.deep_view() =~= seq![xv, yv]);
                    assert(s1 + s2 =~= seq![xv, yv]);
                }
            } else {
                let ghost xv = x@;
                let ghost yv = y@;
                out.push(y);
                out.push(x);
                proof {
                    assert(out.deep_view() =~= seq![yv, xv]);
                    assert(s2 + s1 =~= seq![yv, xv]);
                }
            }
        },
    }
    out
}

/// The canonical storage form of a raw id (the importer's name for it).
pub fn normalized_id(id: &str) -> (r: String)
    ensures
        r@ == spec_canonicalize(id@),
{
    canonicalize(id)
}

/// How an optional free-text field is normalized: surrounding whitespace
/// trimmed, then an empty string and the literal placeholder `None` both
/// mean "no value".
pub open spec fn spec_optional_text(s: Seq<char>) -> Option<Seq<char>> {
    let t = spec_trim(s);
    if t.len() == 0 || t == "None"@ {
        None
    } else {
        Some(t)
    }
}

/// Normalizes one optional free-text field.
pub fn normalize_optional_text(s: &str) -> (r: Option<String>)
    ensures
        match r {
            Some(t) => spec_optional_text(s@) == Some(t@),
            None => spec_optional_text(s@) is None,
        },
{
    proof {
        reveal_strlit("None");
    }
    let t = crate::text::trim(s);
    if t.as_str().unicode_len() == 0 || eq_str(t.as_str(), "None") {
        None
    } else {
        Some(t)
    }
}

/// One raw row of the streamed tabular source, as plain values: every field
/// as the remote result set delivers it, nullable throughout. Transient —
/// it exists only inside one normalization call.
#[derive(Clone, Debug)]
pub struct Smm2RawRow {
    pub id: Option<String>,
    pub uploaded_at: Option<DateTime>,
    pub title: Option<String>,
    pub description: Option<String>,
    pub clearcheck_ms: Option<i32>,
    pub attempts: Option<i32>,
    pub footprints: Option<i32>,
    pub likes: Option<String>,
    pub boos: Option<String>,
    pub comments: Option<String>,
    pub clear_condition: Option<i32>,
    pub clear_condition_magnitude: Option<i32>,
    pub style: Option<String>,
    pub theme: Option<String>,
    pub tag1: Option<String>,
    pub tag2: Option<String>,
}

/// A zero or absent clear-condition code means "no condition".
pub open spec fn spec_cc_code(cc: Option<i32>) -> Option<i64> {
    match cc {
        None => None,
        Some(c) => if c == 0 {
            None
        } else {
            Some(c as i64)
        },
    }
}

/// A zero magnitude means "no magnitude", even beside a present condition.
pub open spec fn spec_cc_magnitude(m: i32) -> Option<i64> {
    if m == 0 {
        None
    } else {
        Some(m as i64)
    }
}

/// The first rule a raw streamed row breaks, if any: a missing required
/// field, an id that does not canonicalize to nine lowercase alphanumerics,
/// a timestamp that is no real calendar moment, a counter string that does
/// not parse as an integer, or a negative metric.
pub open spec fn spec_smm2_row_error(r: Smm2RawRow) -> Option<RowParseError> {
    if r.id is None || r.uploaded_at is None || r.title is None || r.clearcheck_ms is None
        || r.attempts is None || r.footprints is None || r.likes is None || r.boos is None
        || r.comments is None || r.clear_condition_magnitude is None || r.style is None
        || r.theme is None {
        Some(RowParseError::MissingField)
    } else if !is_canonical_id(spec_canonicalize(r.id->Some_0@)) {
        Some(RowParseError::BadId)
    } else if !r.uploaded_at->Some_0.wf() {
        Some(RowParseError::BadTimestamp)
    } else if spec_parse_i64(r.likes->Some_0@) is None || spec_parse_i64(r.boos->Some_0@) is None
        || spec_parse_i64(r.comments->Some_0@) is None {
        Some(RowParseError::BadNumber)
    } else if r.clearcheck_ms->Some_0 < 0 || r.attempts->Some_0 < 0 || r.footprints->Some_0 < 0
        || spec_parse_i64(r.likes->Some_0@)->Some_0 < 0 || spec_parse_i64(
        r.boos->Some_0@,
    )->Some_0 < 0 || spec_parse_i64(r.comments->Some_0@)->Some_0 < 0 {
        Some(RowParseError::NegativeMetric)
    } else {
        None
    }
}

/// Normalizes one raw streamed row into a canonical level record, applying
/// every field-level rule; a row that breaks a rule is rejected whole.
pub fn normalize_smm2_row(raw: Smm2RawRow) -> (res: Result<Smm2Level, RowParseError>)
    ensures
        res is Ok <==> spec_smm2_row_error(raw) is None,
        res matches Err(e) ==> Some(e) == spec_smm2_row_error(raw),
        res matches Ok(l) ==> {
            &&& l.wf()
            &&& l.id@ == spec_canonicalize(raw.id->Some_0@)
            &&& l.uploaded_at == raw.uploaded_at->Some_0
            &&& l.year == raw.uploaded_at->Some_0.date.year
            &&& l.title@ == raw.title->Some_0@
            &&& (raw.description is None ==> l.description is None)
            &&& (raw.description matches Some(d) ==> match l.description {
                Some(t) => spec_optional_text(d@) == Some(t@),
                None => spec_optional_text(d@) is None,
            })
            &&& l.clearcheck_ms == raw.clearcheck_ms->Some_0 as i64
            &&& l.attempts == raw.attempts->Some_0 as i64
            &&& l.footprints == raw.footprints->Some_0 as i64
            &&& Some(l.likes) == spec_parse_i64(raw.likes->Some_0@)
            &&& Some(l.boos) == spec_parse_i64(raw.boos->Some_0@)
            &&& Some(l.comments) == spec_parse_i64(raw.comments->Some_0@)
            &&& l.clear_condition == spec_cc_code(raw.clear_condition)
            &&& l.clear_condition_magnitude == spec_cc_magnitude(
                raw.clear_condition_magnitude->Some_0,
            )
            &&& l.style@ == raw.style->Some_0@
            &&& l.theme@ == spec_normalize_tag_name(raw.theme->Some_0@)
            &&& l.tags.deep_view() == spec_normalized_tags(
                match raw.tag1 {
                    Some(t) => Some(t@),
                    None => None,
                },
                match raw.tag2 {
                    Some(t) => Some(t@),
                    None => None,
                },
            )
        },
{
    let Smm2RawRow {
        id,
        uploaded_at,
        title,
        description,
        clearcheck_ms,
        attempts,
        footprints,
        likes,
        boos,
        comments,
        clear_condition,
        clear_condition_magnitude,
        style,
        theme,
        tag1,
        tag2,
    } = raw;
    let (
        Some(id),
        Some(uploaded_at),
        Some(title),
        Some(clearcheck_ms),
        Some(attempts),
        Some(footprints),
        Some(likes),
        Some(boos),
        Some(comments),
        Some(magnitude),
        Some(style),
        Some(theme),
    ) = (
        id,
        uploaded_at,
        title,
        clearcheck_ms,
        attempts,
        footprints,
        likes,
        boos,
        comments,
        clear_condition_magnitude,
        style,
        theme,
    ) else {
        return Err(RowParseError::MissingField);
    };
    let canonical = canonicalize(id.as_str());
    if !check_canonical_id(canonical.as_str()) {
        return Err(RowParseError::BadId);
    }
    let description = match description {
        None => None,
        Some(d) => normalize_optional_text(d.as_str()),
    };
    if !crate::dates::datetime_wf(&uploaded_at) {
        return Err(RowParseError::BadTimestamp);
    }
    let (Some(likes), Some(boos), Some(comments)) = (
        parse_i64(likes.as_str()),
        parse_i64(boos.as_str()),
        parse_i64(comments.as_str()),
    ) else {
        return Err(RowParseError::BadNumber);
    };
    if clearcheck_ms < 0 || attempts < 0 || footprints < 0 || likes < 0 || boos < 0 || comments
        < 0 {
        return Err(RowParseError::NegativeMetric);
    }
    let cc = match clear_condition {
        None => None,
        Some(c) => if c == 0 {
            None
        } else {
            Some(c as i64)
        },
    };
    let mag = if magnitude == 0 {
        None
    } else {
        Some(magnitude as i64)
    };
    let tags = normalized_tags(
        match &tag1 {
            Some(t) => Some(t.as_str()),
            None => None,
        },
        match &tag2 {
            Some(t) => Some(t.as_str()),
            None => None,
        },
    );
    Ok(
        Smm2Level {
            id: canonical,
            year: uploaded_at.date.year,
            title,
            description,
            uploaded_at,
            clearcheck_ms: clearcheck_ms as i64,
            attempts: attempts as i64,
            footprints: footprints as i64,
            likes,
            boos,
            comments,
            clear_condition: cc,
            clear_condition_magnitude: mag,
            style,
            theme: normalize_tag_name(theme.as_str()),
            tags,
        },
    )
}

/// One raw row of the delimited text export, as the six named columns of
/// that export, still as text. Transient — it exists only inside one
/// normalization call.
#[derive(Clone, Debug)]
pub struct CsvRow {
    pub title: String,
    pub upload_date: String,
    pub stars: String,
    pub players: String,
    pub attempts: String,
    pub level_id: String,
}

impl CsvRow {
    /// The canonical storage form of this row's raw id.
    pub fn normalized_id(&self) -> (r: String)
        ensures
            r@ == spec_canonicalize(self.level_id@),
    {
        canonicalize(self.level_id.as_str())
    }
}

/// A nonempty all-lowercase-alphanumeric id, the shape the batch variant
/// stores.
pub open spec fn spec_loose_id_ok(s: Seq<char>) -> bool {
    s.len() > 0 && forall|i: int|
        0 <= i < s.len() ==> crate::smm1_level::is_lower_alnum(#[trigger] s[i])
}

fn check_loose_id(s: &str) -> (r: bool)
    ensures
        r == spec_loose_id_ok(s@),
{
    let n = s.unicode_len();
    if n == 0 {
        return false;
    }
    let mut i: usize = 0;
    while i < n
        invariant
            0 <= i <= n,
            n == s@.len(),
            forall|j: int|
                0 <= j < i ==> crate::smm1_level::is_lower_alnum(#[trigger] s@[j]),
        decreases n - i,
    {
        let c = s.get_char(i);
        if !(('a' <= c && c <= 'z') || ('0' <= c && c <= '9')) {
            return false;
        }
        i += 1;
    }
    true
}

/// The first rule a raw batch-export row breaks, if any: an upload date
/// that does not parse against the fixed format, a thousands-separated
/// counter that does not parse, a negative metric, or an id that does not
/// canonicalize to lowercase alphanumerics.
pub open spec fn spec_smm1_row_error(r: CsvRow) -> Option<RowParseError> {
    if spec_parse_gsheets_date(r.upload_date@) is None {
        Some(RowParseError::BadTimestamp)
    } else if spec_parse_thousands_i64(r.stars@) is None || spec_parse_thousands_i64(
        r.players@,
    ) is None || spec_parse_thousands_i64(r.attempts@) is None {
        Some(RowParseError::BadNumber)
    } else if spec_parse_thousands_i64(r.stars@)->Some_0 < 0 || spec_parse_thousands_i64(
        r.players@,
    )->Some_0 < 0 || spec_parse_thousands_i64(r.attempts@)->Some_0 < 0 {
        Some(RowParseError::NegativeMetric)
    } else if !spec_loose_id_ok(spec_canonicalize(r.level_id@)) {
        Some(RowParseError::BadId)
    } else {
        None
    }
}

/// Normalizes one raw batch-export row into a canonical level record of the
/// batch variant.
pub fn normalize_smm1_row(raw: CsvRow) -> (res: Result<Smm1Level, RowParseError>)
    ensures
        res is Ok <==> spec_smm1_row_error(raw) is None,
        res matches Err(e) ==> Some(e) == spec_smm1_row_error(raw),
        res matches Ok(l) ==> {
            &&& l.wf()
            &&& l.id@ == spec_canonicalize(raw.level_id@)
            &&& Some(l.uploaded_at) == spec_parse_gsheets_date(raw.upload_date@)
            &&& l.year == l.uploaded_at.year
            &&& l.title@ == raw.title@
            &&& Some(l.likes) == spec_parse_thousands_i64(raw.stars@)
            &&& Some(l.footprints) == spec_parse_thousands_i64(raw.players@)
            &&& Some(l.attempts) == spec_parse_thousands_i64(raw.attempts@)
        },
{
    let Some(date) = parse_gsheets_date(raw.upload_date.as_str()) else {
        return Err(RowParseError::BadTimestamp);
    };
    let (Some(stars), Some(players), Some(attempts)) = (
        parse_thousands_i64(raw.stars.as_str()),
        parse_thousands_i64(raw.players.as_str()),
        parse_thousands_i64(raw.attempts.as_str()),
    ) else {
        return Err(RowParseError::BadNumber);
    };
    if stars < 0 || players < 0 || attempts < 0 {
        return Err(RowParseError::NegativeMetric);
    }
    let id = canonicalize(raw.level_id.as_str());
    if !check_loose_id(id.as_str()) {
        return Err(RowParseError::BadId);
    }
    Ok(
        Smm1Level {
            id,
            year: date.year,
            title: raw.title,
            uploaded_at: date,
            attempts,
            footprints: players,
            likes: stars,
        },
    )
}

/// Checks that a string is a valid canonical id: exactly nine characters,
/// each a lowercase letter or a digit.
pub fn check_canonical_id(s: &str) -> (r: bool)
    ensures
        r == is_canonical_id(s@),
{
    let n = s.unicode_len();
    if n != 9 {
        return false;
    }
    let mut i: usize = 0;
    while i < n
        invariant
            0 <= i <= n,
            n == s@.len(),
            forall|j: int| 0 <= j < i ==> ('a' <= #[trigger] s@[j] <= 'z' || '0' <= s@[j] <= '9'),
        decreases n - i,
    {
        let c = s.get_char(i);
        if !(('a' <= c && c <= 'z') || ('0' <= c && c <= '9')) {
            return false;
        }
        i += 1;
    }
    true
}

} // verus!
