//! The template helpers the rendering layer registers: display formatting of
//! ids, clear-condition texts, durations and tag lists.
use vstd::prelude::*;
use vstd::string::StringExecFns;

use crate::id_codec::spec_format;
use crate::numbers::spec_nat_digits;
use crate::smm2_level::Smm2Level;
use crate::taxonomy::spec_condition_text;
use crate::text::{replace, spec_replace};

verus! {

/// The display text of a clear condition, as the templates call it.
pub fn clear_condition_text(id: i64, magnitude: Option<i64>) -> (r: String)
    ensures
        r@ == spec_condition_text(id as int, magnitude),
{
    Smm2Level::clear_condition_text(id, magnitude)
}

/// The display form of a level id, as the templates call it.
pub fn formatted_level_id(raw_id: &str) -> (r: String)
    ensures
        r@ == spec_format(raw_id@),
{
    Smm2Level::formatted_level_id(raw_id)
}

/// A duration in milliseconds rendered as whole seconds (rounded up), split
/// into minutes once it exceeds a minute: `90500` becomes `1m 31s`.
pub open spec fn spec_ms_to_minsecs(ms: int) -> Seq<char> {
    let secs = (ms + 999) / 1000;
    if secs > 60 {
        spec_nat_digits(secs / 60) + "m "@ + spec_nat_digits(secs % 60) + "s"@
    } else {
        spec_nat_digits(secs) + "s"@
    }
}

/// Renders a millisecond duration for display.
pub fn ms_to_minsecs(ms: i64) -> (r: String)
    requires
        0 <= ms,
    ensures
        r@ == spec_ms_to_minsecs(ms as int),
{
    let secs = ms / 1000 + if ms % 1000 != 0 {
        1
    } else {
        0
    };
    proof {
        assert(secs == (ms + 999) / 1000);
    }
    if secs > 60 {
        let mut out = crate::numbers::u64_to_string((secs / 60) as u64);
        out.append("m ");
        let rem = crate::numbers::u64_to_string((secs % 60) as u64);
        out.append(rem.as_str());
        out.append("s");
        out
    } else {
        let mut out = crate::numbers::u64_to_string(secs as u64);
        out.append("s");
        out
    }
}

/// What the rendering library's title filter returns for a string: the
/// result depends on the characters alone.
pub uninterp spec fn title_of(s: Seq<char>) -> Seq<char>;

/// Relies on minijinja::filters::title: title-cases a borrowed string, a
/// pure function of its characters.
#[verifier::external_body]
fn title_case(s: &str) -> (r: String)
    ensures
        r@ == title_of(s@),
{
    minijinja::filters::title(s.into())
}

/// The display name of one stored tag: underscores back to spaces, then
/// title-cased.
pub open spec fn spec_tag_name(s: Seq<char>) -> Seq<char> {
    title_of(spec_replace(s, "_"@, " "@))
}

/// Renders one stored tag for display.
pub fn tag_name(raw_name: &str) -> (r: String)
    ensures
        r@ == spec_tag_name(raw_name@),
{
    proof {
        reveal_strlit("_");
        reveal_strlit(" ");
    }
    let spaced = replace(raw_name, "_", " ");
    title_case(spaced.as_str())
}

/// A tag list rendered for display, comma-separated.
pub open spec fn spec_tag_list(tags: Seq<Seq<char>>) -> Seq<char>
    decreases tags.len(),
{
    if tags.len() == 0 {
        Seq::empty()
    } else if tags.len() == 1 {
        spec_tag_name(tags[0])
    } else {
        spec_tag_list(tags.drop_last()) + ", "@ + spec_tag_name(tags.last())
    }
}

/// Renders a stored tag list for display.
#[verifier::loop_isolation(false)]
pub fn tag_list(tags: Vec<String>) -> (r: String)
    ensures
        r@ == spec_tag_list(tags.deep_view()),
{
    let ghost tv = tags.deep_view();
    let mut out = String::new();
    let mut i: usize = 0;
    proof {
        assert(out@ =~= spec_tag_list(tv.take(0)));
    }
    while i < tags.len()
        invariant
            0 <= i <= tv.len(),
            tv.len() == tags@.len(),
            tv == tags.deep_view(),
            out@ == spec_tag_list(tv.take(i as int)),
        decreases tv.len() - i,
    {
        proof {
            assert(tv.take(i + 1).drop_last() =~= tv.take(i as int));
            assert(tv.take(i + 1).last() == tv[i as int]);
        }
        if i > 0 {
            out.append(", ");
        }
        let name = tag_name(tags[i].as_str());
        out.append(name.as_str());
        proof {
            if i == 0 {
                assert(out@ =~= spec_tag_list(tv.take(1)));
            }
        }
        i += 1;
    }
    proof {
        assert(tv.take(tv.len() as int) =~= tv);
    }
    out
}

} // verus!
