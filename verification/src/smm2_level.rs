//! The canonical level record of the streamed game variant, its closed
//! enumerations, the filter-parameter set of the random selection interface,
//! and the predicate a selected row must satisfy.
use vstd::prelude::*;

use crate::dates::DateTime;
use crate::id_codec::{
    canonicalize, format_level_id, is_canonical_id, spec_canonicalize, spec_format,
};
use crate::taxonomy::{
    condition_text, group_of_code, in_id_list, lemma_id_list_membership, spec_condition_text,
    ClearConditionGroup,
};
use crate::text::eq_str;

verus! {

/// One canonical catalog row of the streamed variant. Either fully present
/// and well-formed or never persisted: see [`Smm2Level::wf`].
#[derive(Clone, Debug)]
pub struct Smm2Level {
    pub id: String,
    pub year: i64,
    pub title: String,
    pub description: Option<String>,
    pub uploaded_at: DateTime,
    pub clearcheck_ms: i64,
    pub attempts: i64,
    pub footprints: i64,
    pub likes: i64,
    pub boos: i64,
    pub comments: i64,
    pub clear_condition: Option<i64>,
    pub clear_condition_magnitude: Option<i64>,
    pub style: String,
    pub theme: String,
    pub tags: Vec<String>,
}

impl Smm2Level {
    /// A fully-present row: a 9-character canonical id, the year derived
    /// from the upload timestamp, nonnegative metrics, no zero encoded as a
    /// present condition or magnitude, and at most two tags.
    pub open spec fn wf(self) -> bool {
        &&& is_canonical_id(self.id@)
        &&& self.uploaded_at.wf()
        &&& self.year == self.uploaded_at.date.year
        &&& self.clearcheck_ms >= 0
        &&& self.attempts >= 0
        &&& self.footprints >= 0
        &&& self.likes >= 0
        &&& self.boos >= 0
        &&& self.comments >= 0
        &&& self.clear_condition != Some(0i64)
        &&& self.clear_condition_magnitude != Some(0i64)
        &&& self.tags@.len() <= 2
    }

    /// The canonical storage form of a raw id: trimmed, hyphen-free,
    /// lowercase.
    pub fn normalized_internal_level_id(raw_id: &str) -> (r: String)
        ensures
            r@ == spec_canonicalize(raw_id@),
    {
        canonicalize(raw_id)
    }

    /// The display form of an id: uppercase, grouped in threes with hyphens.
    pub fn formatted_level_id(raw_id: &str) -> (r: String)
        ensures
            r@ == spec_format(raw_id@),
    {
        format_level_id(raw_id)
    }

    /// The display text of this variant's clear condition.
    pub fn clear_condition_text(id: i64, magnitude: Option<i64>) -> (r: String)
        ensures
            r@ == spec_condition_text(id as int, magnitude),
    {
        condition_text(id, magnitude)
    }
}

/// The five game styles.
#[derive(Clone, Copy, Debug, PartialEq, Eq, Structural)]
pub enum Style {
    SMB1,
    SMB3,
    SMW,
    NSMBU,
    SM3DW,
}

/// The nine level themes.
#[derive(Clone, Copy, Debug, PartialEq, Eq, Structural)]
pub enum Theme {
    Airship,
    Castle,
    Desert,
    Forest,
    GhostHouse,
    Overworld,
    Sky,
    Snow,
    Underground,
}

/// The closed set of level tags.
#[derive(Clone, Copy, Debug, PartialEq, Eq, Structural)]
pub enum Tag {
    Art,
    AutoMario,
    Autoscroll,
    BossBattle,
    Link,
    MultiplayerVersus,
    Music,
    PuzzleSolving,
    Shooter,
    ShortAndSweet,
    SinglePlayer,
    Speedrun,
    Standard,
    Technical,
    Themed,
}

/// How a style is written in a request's query parameter.
pub open spec fn spec_parse_style(s: Seq<char>) -> Option<Style> {
    if s == "smb1"@ {
        Some(Style::SMB1)
    } else if s == "smb3"@ {
        Some(Style::SMB3)
    } else if s == "smw"@ {
        Some(Style::SMW)
    } else if s == "nsmbu"@ {
        Some(Style::NSMBU)
    } else if s == "sm3dw"@ {
        Some(Style::SM3DW)
    } else {
        None
    }
}

/// How a style is stored in the catalog's text column.
pub open spec fn spec_style_sql(s: Style) -> Seq<char> {
    match s {
        Style::SMB1 => "SMB1"@,
        Style::SMB3 => "SMB3"@,
        Style::SMW => "SMW"@,
        Style::NSMBU => "NSMBU"@,
        Style::SM3DW => "SM3DW"@,
    }
}

/// How a theme is written in a request's query parameter.
pub open spec fn spec_parse_theme(s: Seq<char>) -> Option<Theme> {
    if s == "airship"@ {
        Some(Theme::Airship)
    } else if s == "castle"@ {
        Some(Theme::Castle)
    } else if s == "desert"@ {
        Some(Theme::Desert)
    } else if s == "forest"@ {
        Some(Theme::Forest)
    } else if s == "ghost_house"@ {
        Some(Theme::GhostHouse)
    } else if s == "overworld"@ {
        Some(Theme::Overworld)
    } else if s == "sky"@ {
        Some(Theme::Sky)
    } else if s == "snow"@ {
        Some(Theme::Snow)
    } else if s == "underground"@ {
        Some(Theme::Underground)
    } else {
        None
    }
}

/// How a theme is stored in the catalog's text column.
pub open spec fn spec_theme_sql(t: Theme) -> Seq<char> {
    match t {
        Theme::Airship => "airship"@,
        Theme::Castle => "castle"@,
        Theme::Desert => "desert"@,
        Theme::Forest => "forest"@,
        Theme::GhostHouse => "ghost_house"@,
        Theme::Overworld => "overworld"@,
        Theme::Sky => "sky"@,
        Theme::Snow => "snow"@,
        Theme::Underground => "underground"@,
    }
}

/// How a tag is written in a request's query parameter.
pub open spec fn spec_parse_tag(s: Seq<char>) -> Option<Tag> {
    if s == "art"@ {
        Some(Tag::Art)
    } else if s == "auto_mario"@ {
        Some(Tag::AutoMario)
    } else if s == "autoscroll"@ {
        Some(Tag::Autoscroll)
    } else if s == "boss_battle"@ {
        Some(Tag::BossBattle)
    } else if s == "link"@ {
        Some(Tag::Link)
    } else if s == "multiplayer_versus"@ {
        Some(Tag::MultiplayerVersus)
    } else if s == "music"@ {
        Some(Tag::Music)
    } else if s == "puzzle_solving"@ {
        Some(Tag::PuzzleSolving)
    } else if s == "shooter"@ {
        Some(Tag::Shooter)
    } else if s == "short_and_sweet"@ {
        Some(Tag::ShortAndSweet)
    } else if s == "single_player"@ {
        Some(Tag::SinglePlayer)
    } else if s == "speedrun"@ {
        Some(Tag::Speedrun)
    } else if s == "standard"@ {
        Some(Tag::Standard)
    } else if s == "technical"@ {
        Some(Tag::Technical)
    } else if s == "themed"@ {
        Some(Tag::Themed)
    } else {
        None
    }
}

/// How a tag is stored in the catalog's tag array.
pub open spec fn spec_tag_sql(t: Tag) -> Seq<char> {
    match t {
        Tag::Art => "art"@,
        Tag::AutoMario => "auto_mario"@,
        Tag::Autoscroll => "autoscroll"@,
        Tag::BossBattle => "boss_battle"@,
        Tag::Link => "link"@,
        Tag::MultiplayerVersus => "multiplayer_versus"@,
        Tag::Music => "music"@,
        Tag::PuzzleSolving => "puzzle_solving"@,
        Tag::Shooter => "shooter"@,
        Tag::ShortAndSweet => "short_and_sweet"@,
        Tag::SinglePlayer => "single_player"@,
        Tag::Speedrun => "speedrun"@,
        Tag::Standard => "standard"@,
        Tag::Technical => "technical"@,
        Tag::Themed => "themed"@,
    }
}

/// How a clear-condition group is written in a request's query parameter.
pub open spec fn spec_parse_group(s: Seq<char>) -> Option<ClearConditionGroup> {
    if s == "none"@ {
        Some(ClearConditionGroup::NoCondition)
    } else if s == "no_jumping"@ {
        Some(ClearConditionGroup::NoJumping)
    } else if s == "no_damage"@ {
        Some(ClearConditionGroup::NoDamage)
    } else if s == "defeating_enemies"@ {
        Some(ClearConditionGroup::DefeatingEnemies)
    } else if s == "powerup_finish"@ {
        Some(ClearConditionGroup::PowerupFinish)
    } else if s == "holding_activating"@ {
        Some(ClearConditionGroup::HoldingActivating)
    } else if s == "collecting"@ {
        Some(ClearConditionGroup::Collecting)
    } else {
        None
    }
}

impl Style {
    /// Parses the query-parameter form of a style.
    pub fn from_param(s: &str) -> (r: Option<Style>)
        ensures
            r == spec_parse_style(s@),
    {
        if eq_str(s, "smb1") {
            Some(Style::SMB1)
        } else if eq_str(s, "smb3") {
            Some(Style::SMB3)
        } else if eq_str(s, "smw") {
            Some(Style::SMW)
        } else if eq_str(s, "nsmbu") {
            Some(Style::NSMBU)
        } else if eq_str(s, "sm3dw") {
            Some(Style::SM3DW)
        } else {
            None
        }
    }

    /// The text stored and filtered on in the catalog.
    pub fn as_sql(&self) -> (r: &'static str)
        ensures
            r@ == spec_style_sql(*self),
    {
        match self {
            Style::SMB1 => "SMB1",
            Style::SMB3 => "SMB3",
            Style::SMW => "SMW",
            Style::NSMBU => "NSMBU",
            Style::SM3DW => "SM3DW",
        }
    }
}

impl Theme {
    /// Parses the query-parameter form of a theme.
    pub fn from_param(s: &str) -> (r: Option<Theme>)
        ensures
            r == spec_parse_theme(s@),
    {
        if eq_str(s, "airship") {
            Some(Theme::Airship)
        } else if eq_str(s, "castle") {
            Some(Theme::Castle)
        } else if eq_str(s, "desert") {
            Some(Theme::Desert)
        } else if eq_str(s, "forest") {
            Some(Theme::Forest)
        } else if eq_str(s, "ghost_house") {
            Some(Theme::GhostHouse)
        } else if eq_str(s, "overworld") {
            Some(Theme::Overworld)
        } else if eq_str(s, "sky") {
            Some(Theme::Sky)
        } else if eq_str(s, "snow") {
            Some(Theme::Snow)
        } else if eq_str(s, "underground") {
            Some(Theme::Underground)
        } else {
            None
        }
    }

    /// The text stored and filtered on in the catalog.
    pub fn as_sql(&self) -> (r: &'static str)
        ensures
            r@ == spec_theme_sql(*self),
    {
        match self {
            Theme::Airship => "airship",
            Theme::Castle => "castle",
            Theme::Desert => "desert",
            Theme::Forest => "forest",
            Theme::GhostHouse => "ghost_house",
            Theme::Overworld => "overworld",
            Theme::Sky => "sky",
            Theme::Snow => "snow",
            Theme::Underground => "underground",
        }
    }
}

impl Tag {
    /// Parses the query-parameter form of a tag.
    pub fn from_param(s: &str) -> (r: Option<Tag>)
        ensures
            r == spec_parse_tag(s@),
    {
        if eq_str(s, "art") {
            Some(Tag::Art)
        } else if eq_str(s, "auto_mario") {
            Some(Tag::AutoMario)
        } else if eq_str(s, "autoscroll") {
            Some(Tag::Autoscroll)
        } else if eq_str(s, "boss_battle") {
            Some(Tag::BossBattle)
        } else if eq_str(s, "link") {
            Some(Tag::Link)
        } else if eq_str(s, "multiplayer_versus") {
            Some(Tag::MultiplayerVersus)
        } else if eq_str(s, "music") {
            Some(Tag::Music)
        } else if eq_str(s, "puzzle_solving") {
            Some(Tag::PuzzleSolving)
        } else if eq_str(s, "shooter") {
            Some(Tag::Shooter)
        } else if eq_str(s, "short_and_sweet") {
            Some(Tag::ShortAndSweet)
        } else if eq_str(s, "single_player") {
            Some(Tag::SinglePlayer)
        } else if eq_str(s, "speedrun") {
            Some(Tag::Speedrun)
        } else if eq_str(s, "standard") {
            Some(Tag::Standard)
        } else if eq_str(s, "technical") {
            Some(Tag::Technical)
        } else if eq_str(s, "themed") {
            Some(Tag::Themed)
        } else {
            None
        }
    }

    /// The text stored in the catalog's tag array.
    pub fn as_sql(&self) -> (r: &'static str)
        ensures
            r@ == spec_tag_sql(*self),
    {
        match self {
            Tag::Art => "art",
            Tag::AutoMario => "auto_mario",
            Tag::Autoscroll => "autoscroll",
            Tag::BossBattle => "boss_battle",
            Tag::Link => "link",
            Tag::MultiplayerVersus => "multiplayer_versus",
            Tag::Music => "music",
            Tag::PuzzleSolving => "puzzle_solving",
            Tag::Shooter => "shooter",
            Tag::ShortAndSweet => "short_and_sweet",
            Tag::SinglePlayer => "single_player",
            Tag::Speedrun => "speedrun",
            Tag::Standard => "standard",
            Tag::Technical => "technical",
            Tag::Themed => "themed",
        }
    }
}

/// Parses the query-parameter form of a clear-condition group.
pub fn group_from_param(s: &str) -> (r: Option<ClearConditionGroup>)
    ensures
        r == spec_parse_group(s@),
{
    if eq_str(s, "none") {
        Some(ClearConditionGroup::NoCondition)
    } else if eq_str(s, "no_jumping") {
        Some(ClearConditionGroup::NoJumping)
    } else if eq_str(s, "no_damage") {
        Some(ClearConditionGroup::NoDamage)
    } else if eq_str(s, "defeating_enemies") {
        Some(ClearConditionGroup::DefeatingEnemies)
    } else if eq_str(s, "powerup_finish") {
        Some(ClearConditionGroup::PowerupFinish)
    } else if eq_str(s, "holding_activating") {
        Some(ClearConditionGroup::HoldingActivating)
    } else if eq_str(s, "collecting") {
        Some(ClearConditionGroup::Collecting)
    } else {
        None
    }
}

/// The sparse filter-parameter set of a random-selection request: every
/// field optional, absent fields constrain nothing.
#[derive(Clone, Copy, Debug)]
pub struct FilterParams {
    pub year: Option<i64>,
    pub min_attempts: Option<i64>,
    pub max_attempts: Option<i64>,
    pub min_footprints: Option<i64>,
    pub max_footprints: Option<i64>,
    pub min_clearcheck_ms: Option<i64>,
    pub max_clearcheck_ms: Option<i64>,
    pub clear_condition_group: Option<ClearConditionGroup>,
    pub style: Option<Style>,
    pub theme: Option<Theme>,
    pub tag: Option<Tag>,
}

/// How a clear-condition group constrains a row: the no-condition bucket
/// matches an absent code, every other bucket matches the codes of its
/// static id list.
pub open spec fn spec_group_matches(g: ClearConditionGroup, cc: Option<i64>) -> bool {
    if g is NoCondition {
        cc is None
    } else {
        cc matches Some(c) && in_id_list(g, c)
    }
}

/// Every present predicate of the filter set, AND-composed: what a row
/// returned by selection must satisfy.
pub open spec fn spec_level_matches(p: FilterParams, l: Smm2Level) -> bool {
    &&& (p.year matches Some(y) ==> l.year == y)
    &&& (p.min_attempts matches Some(v) ==> l.attempts >= v)
    &&& (p.max_attempts matches Some(v) ==> l.attempts <= v)
    &&& (p.min_footprints matches Some(v) ==> l.footprints >= v)
    &&& (p.max_footprints matches Some(v) ==> l.footprints <= v)
    &&& (p.min_clearcheck_ms matches Some(v) ==> l.clearcheck_ms >= v)
    &&& (p.max_clearcheck_ms matches Some(v) ==> l.clearcheck_ms <= v)
    &&& (p.style matches Some(st) ==> l.style@ == spec_style_sql(st))
    &&& (p.theme matches Some(t) ==> l.theme@ == spec_theme_sql(t))
    &&& (p.tag matches Some(t) ==> exists|i: int|
        0 <= i < l.tags@.len() && l.tags@[i]@ == spec_tag_sql(t))
    &&& (p.clear_condition_group matches Some(g) ==> spec_group_matches(g, l.clear_condition))
}

/// Decides whether a row satisfies every present predicate of the filter
/// set.
pub fn matches_filters(p: &FilterParams, l: &Smm2Level) -> (b: bool)
    ensures
        b == spec_level_matches(*p, *l),
{
    if let Some(y) = p.year {
        if l.year != y {
            return false;
        }
    }
    if let Some(v) = p.min_attempts {
        if l.attempts < v {
            return false;
        }
    }
    if let Some(v) = p.max_attempts {
        if l.attempts > v {
            return false;
        }
    }
    if let Some(v) = p.min_footprints {
        if l.footprints < v {
            return false;
        }
    }
    if let Some(v) = p.max_footprints {
        if l.footprints > v {
            return false;
        }
    }
    if let Some(v) = p.min_clearcheck_ms {
        if l.clearcheck_ms < v {
            return false;
        }
    }
    if let Some(v) = p.max_clearcheck_ms {
        if l.clearcheck_ms > v {
            return false;
        }
    }
    if let Some(st) = p.style {
        if !eq_str(l.style.as_str(), st.as_sql()) {
            return false;
        }
    }
    if let Some(t) = p.theme {
        if !eq_str(l.theme.as_str(), t.as_sql()) {
            return false;
        }
    }
    if let Some(t) = p.tag {
        let mut found = false;
        let mut i: usize = 0;
        let want = t.as_sql();
        while i < l.tags.len()
            invariant
                0 <= i <= l.tags@.len(),
                want@ == spec_tag_sql(t),
                found == exists|j: int| 0 <= j < i && l.tags@[j]@ == spec_tag_sql(t),
            decreases l.tags@.len() - i,
        {
            if eq_str(l.tags[i].as_str(), want) {
                found = true;
            }
            i += 1;
        }
        if !found {
            return false;
        }
    }
    if let Some(g) = p.clear_condition_group {
        match g {
            ClearConditionGroup::NoCondition => {
                if !(l.clear_condition.is_none()) {
                    return false;
                }
            },
            _ => {
                match l.clear_condition {
                    None => {
                        return false;
                    },
                    Some(c) => {
                        proof {
                            lemma_id_list_membership(g, c);
                        }
                        match group_of_code(c) {
                            Some(g2) => {
                                if !(g2 == g) {
                                    return false;
                                }
                            },
                            None => {
                                return false;
                            },
                        }
                    },
                }
            },
        }
    }
    true
}

/// The year defaulting of the random-level page: an absent year falls back
/// to the current focus year, the explicit "any year" marker `-1` lifts the
/// constraint, and any other year stands.
pub open spec fn spec_effective_year(year: Option<i64>) -> Option<i64> {
    match year {
        None => Some(2023i64),
        Some(y) => if y == -1 {
            None
        } else {
            Some(y)
        },
    }
}

/// Applies the year defaulting to a filter set, leaving every other field
/// unchanged.
pub fn effective_filters(p: &FilterParams) -> (r: FilterParams)
    ensures
        r.year == spec_effective_year(p.year),
        r.min_attempts == p.min_attempts,
        r.max_attempts == p.max_attempts,
        r.min_footprints == p.min_footprints,
        r.max_footprints == p.max_footprints,
        r.min_clearcheck_ms == p.min_clearcheck_ms,
        r.max_clearcheck_ms == p.max_clearcheck_ms,
        r.clear_condition_group == p.clear_condition_group,
        r.style == p.style,
        r.theme == p.theme,
        r.tag == p.tag,
{
    let year = match p.year {
        None => Some(2023i64),
        Some(y) => if y == -1 {
            None
        } else {
            Some(y)
        },
    };
    FilterParams { year, ..*p }
}

} // verus!
