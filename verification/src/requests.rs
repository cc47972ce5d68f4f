//! Parsing of a selection request's raw query fields into the
//! filter-parameter set. Every field is optional; an empty value means
//! absent, and a malformed present value rejects the request — never
//! silently ignored.
use vstd::prelude::*;
use vstd::string::StrSliceExecFns;

use crate::numbers::{parse_i64, spec_parse_i64};
use crate::smm2_level::{
    group_from_param, spec_parse_group, spec_parse_style, spec_parse_tag, spec_parse_theme,
    FilterParams, Style, Tag, Theme,
};
use crate::taxonomy::ClearConditionGroup;

verus! {

/// Why a filter-parameter set was rejected.
#[derive(Clone, Copy, Debug, PartialEq, Eq, Structural)]
pub enum FilterParamError {
    BadNumber,
    BadChoice,
}

/// How an optional numeric field parses: empty means absent, anything else
/// must be a decimal integer.
pub open spec fn spec_opt_i64(s: Seq<char>) -> Result<Option<i64>, FilterParamError> {
    if s.len() == 0 {
        Ok(None)
    } else {
        match spec_parse_i64(s) {
            Some(v) => Ok(Some(v)),
            None => Err(FilterParamError::BadNumber),
        }
    }
}

/// Parses one optional numeric query field.
pub fn parse_opt_i64(s: &str) -> (r: Result<Option<i64>, FilterParamError>)
    ensures
        r == spec_opt_i64(s@),
{
    if s.unicode_len() == 0 {
        Ok(None)
    } else {
        match parse_i64(s) {
            Some(v) => Ok(Some(v)),
            None => Err(FilterParamError::BadNumber),
        }
    }
}

/// How an optional style field parses.
pub open spec fn spec_opt_style(s: Seq<char>) -> Result<Option<Style>, FilterParamError> {
    if s.len() == 0 {
        Ok(None)
    } else {
        match spec_parse_style(s) {
            Some(v) => Ok(Some(v)),
            None => Err(FilterParamError::BadChoice),
        }
    }
}

/// Parses one optional style query field.
pub fn parse_opt_style(s: &str) -> (r: Result<Option<Style>, FilterParamError>)
    ensures
        r == spec_opt_style(s@),
{
    if s.unicode_len() == 0 {
        Ok(None)
    } else {
        match Style::from_param(s) {
            Some(v) => Ok(Some(v)),
            None => Err(FilterParamError::BadChoice),
        }
    }
}

/// How an optional theme field parses.
pub open spec fn spec_opt_theme(s: Seq<char>) -> Result<Option<Theme>, FilterParamError> {
    if s.len() == 0 {
        Ok(None)
    } else {
        match spec_parse_theme(s) {
            Some(v) => Ok(Some(v)),
            None => Err(FilterParamError::BadChoice),
        }
    }
}

/// Parses one optional theme query field.
pub fn parse_opt_theme(s: &str) -> (r: Result<Option<Theme>, FilterParamError>)
    ensures
        r == spec_opt_theme(s@),
{
    if s.unicode_len() == 0 {
        Ok(None)
    } else {
        match Theme::from_param(s) {
            Some(v) => Ok(Some(v)),
            None => Err(FilterParamError::BadChoice),
        }
    }
}

/// How an optional tag field parses.
pub open spec fn spec_opt_tag(s: Seq<char>) -> Result<Option<Tag>, FilterParamError> {
    if s.len() == 0 {
        Ok(None)
    } else {
        match spec_parse_tag(s) {
            Some(v) => Ok(Some(v)),
            None => Err(FilterParamError::BadChoice),
        }
    }
}

/// Parses one optional tag query field.
pub fn parse_opt_tag(s: &str) -> (r: Result<Option<Tag>, FilterParamError>)
    ensures
        r == spec_opt_tag(s@),
{
    if s.unicode_len() == 0 {
        Ok(None)
    } else {
        match Tag::from_param(s) {
            Some(v) => Ok(Some(v)),
            None => Err(FilterParamError::BadChoice),
        }
    }
}

/// How an optional clear-condition-group field parses.
pub open spec fn spec_opt_group(s: Seq<char>) -> Result<
    Option<ClearConditionGroup>,
    FilterParamError,
> {
    if s.len() == 0 {
        Ok(None)
    } else {
        match spec_parse_group(s) {
            Some(v) => Ok(Some(v)),
            None => Err(FilterParamError::BadChoice),
        }
    }
}

/// Parses one optional clear-condition-group query field.
pub fn parse_opt_group(s: &str) -> (r: Result<Option<ClearConditionGroup>, FilterParamError>)
    ensures
        r == spec_opt_group(s@),
{
    if s.unicode_len() == 0 {
        Ok(None)
    } else {
        match group_from_param(s) {
            Some(v) => Ok(Some(v)),
            None => Err(FilterParamError::BadChoice),
        }
    }
}

/// Parses the eleven raw query fields of a selection request into the
/// filter-parameter set; an absent query field is handed in as an empty
/// string. The first malformed field rejects the whole request, numeric
/// fields checked first in declaration order, then the choice fields.
pub fn parse_filter_params(
    year: &str,
    min_attempts: &str,
    max_attempts: &str,
    min_footprints: &str,
    max_footprints: &str,
    min_clearcheck_ms: &str,
    max_clearcheck_ms: &str,
    clear_condition_group: &str,
    style: &str,
    theme: &str,
    tag: &str,
) -> (r: Result<FilterParams, FilterParamError>)
    ensures
        r is Ok <==> {
            &&& spec_opt_i64(year@) is Ok
            &&& spec_opt_i64(min_attempts@) is Ok
            &&& spec_opt_i64(max_attempts@) is Ok
            &&& spec_opt_i64(min_footprints@) is Ok
            &&& spec_opt_i64(max_footprints@) is Ok
            &&& spec_opt_i64(min_clearcheck_ms@) is Ok
            &&& spec_opt_i64(max_clearcheck_ms@) is Ok
            &&& spec_opt_group(clear_condition_group@) is Ok
            &&& spec_opt_style(style@) is Ok
            &&& spec_opt_theme(theme@) is Ok
            &&& spec_opt_tag(tag@) is Ok
        },
        r matches Ok(p) ==> {
            &&& p.year == spec_opt_i64(year@)->Ok_0
            &&& p.min_attempts == spec_opt_i64(min_attempts@)->Ok_0
            &&& p.max_attempts == spec_opt_i64(max_attempts@)->Ok_0
            &&& p.min_footprints == spec_opt_i64(min_footprints@)->Ok_0
            &&& p.max_footprints == spec_opt_i64(max_footprints@)->Ok_0
            &&& p.min_clearcheck_ms == spec_opt_i64(min_clearcheck_ms@)->Ok_0
            &&& p.max_clearcheck_ms == spec_opt_i64(max_clearcheck_ms@)->Ok_0
            &&& p.clear_condition_group == spec_opt_group(clear_condition_group@)->Ok_0
            &&& p.style == spec_opt_style(style@)->Ok_0
            &&& p.theme == spec_opt_theme(theme@)->Ok_0
            &&& p.tag == spec_opt_tag(tag@)->Ok_0
        },
{
    let year = parse_opt_i64(year)?;
    let min_attempts = parse_opt_i64(min_attempts)?;
    let max_attempts = parse_opt_i64(max_attempts)?;
    let min_footprints = parse_opt_i64(min_footprints)?;
    let max_footprints = parse_opt_i64(max_footprints)?;
    let min_clearcheck_ms = parse_opt_i64(min_clearcheck_ms)?;
    let max_clearcheck_ms = parse_opt_i64(max_clearcheck_ms)?;
    let clear_condition_group = parse_opt_group(clear_condition_group)?;
    let style = parse_opt_style(style)?;
    let theme = parse_opt_theme(theme)?;
    let tag = parse_opt_tag(tag)?;
    Ok(
        FilterParams {
            year,
            min_attempts,
            max_attempts,
            min_footprints,
            max_footprints,
            min_clearcheck_ms,
            max_clearcheck_ms,
            clear_condition_group,
            style,
            theme,
            tag,
        },
    )
}

} // verus!
