//! The dynamic query of the random selection engine: folding the sparse
//! filter-parameter set left-to-right into one parameterized statement. Every
//! present optional field appends one AND-ed predicate with a numbered
//! placeholder and one bound value; user input is never interpolated into
//! the text. The one textual expansion is the clear-condition group, whose
//! static, already-validated id list is rendered inline.
use vstd::prelude::*;
use vstd::string::StringExecFns;

use crate::numbers::{i64_to_string, spec_int_string, spec_nat_digits, u64_to_string};
use crate::smm1_level;
use crate::smm2_level::{spec_style_sql, spec_tag_sql, spec_theme_sql, FilterParams};
use crate::taxonomy::{spec_id_list, ClearConditionGroup};
use crate::text::to_string;

verus! {

/// One value bound to a numbered placeholder.
#[derive(Clone, Debug)]
pub enum BindValue {
    Int(i64),
    Text(String),
}

/// The mathematical shadow of a bound value.
pub enum BindView {
    Int(i64),
    Text(Seq<char>),
}

pub open spec fn spec_bind_view(b: BindValue) -> BindView {
    match b {
        BindValue::Int(v) => BindView::Int(v),
        BindValue::Text(t) => BindView::Text(t@),
    }
}

pub open spec fn binds_view(s: Seq<BindValue>) -> Seq<BindView> {
    s.map_values(|b: BindValue| spec_bind_view(b))
}

/// The comma-joined decimal rendering of a static id list.
pub open spec fn spec_join_ids(s: Seq<i64>) -> Seq<char>
    decreases s.len(),
{
    if s.len() == 0 {
        Seq::empty()
    } else if s.len() == 1 {
        spec_int_string(s[0] as int)
    } else {
        spec_join_ids(s.drop_last()) + ","@ + spec_int_string(s.last() as int)
    }
}

/// The clear-condition fragment a group expands to: a null test for the
/// no-condition bucket, an IN over the bucket's static id list otherwise.
pub open spec fn spec_group_clause(g: ClearConditionGroup) -> Seq<char> {
    if g is NoCondition {
        " AND clear_condition IS NULL"@
    } else {
        " AND clear_condition IN("@ + spec_join_ids(spec_id_list(g)->Some_0) + ")"@
    }
}

/// The numbered-predicate head of the streamed-variant statement: the
/// fixed column list and one AND-ed predicate per present numeric bound.
pub open spec fn spec_smm2_head_query(p: FilterParams) -> Seq<char> {
    let q0 = "SELECT id, year, title, description, uploaded_at, clearcheck_ms, attempts, footprints, likes, boos, comments, clear_condition, clear_condition_magnitude, style, theme, tags FROM levels_smm2 WHERE 1 = 1"@;
    let n1 = spec_count(p.year is Some, 0);
    let q1 = if p.year is Some {
        q0 + " AND year = $"@ + spec_nat_digits(n1)
    } else {
        q0
    };
    let n2 = spec_count(p.min_attempts is Some, n1);
    let q2 = if p.min_attempts is Some {
        q1 + " AND attempts >= $"@ + spec_nat_digits(n2)
    } else {
        q1
    };
    let n3 = spec_count(p.max_attempts is Some, n2);
    let q3 = if p.max_attempts is Some {
        q2 + " AND attempts <= $"@ + spec_nat_digits(n3)
    } else {
        q2
    };
    let n4 = spec_count(p.min_footprints is Some, n3);
    let q4 = if p.min_footprints is Some {
        q3 + " AND footprints >= $"@ + spec_nat_digits(n4)
    } else {
        q3
    };
    let n5 = spec_count(p.max_footprints is Some, n4);
    let q5 = if p.max_footprints is Some {
        q4 + " AND footprints <= $"@ + spec_nat_digits(n5)
    } else {
        q4
    };
    let n6 = spec_count(p.min_clearcheck_ms is Some, n5);
    let q6 = if p.min_clearcheck_ms is Some {
        q5 + " AND clearcheck_ms >= $"@ + spec_nat_digits(n6)
    } else {
        q5
    };
    let n7 = spec_count(p.max_clearcheck_ms is Some, n6);
    if p.max_clearcheck_ms is Some {
        q6 + " AND clearcheck_ms <= $"@ + spec_nat_digits(n7)
    } else {
        q6
    }
}

/// How many numeric bounds the head binds.
pub open spec fn spec_smm2_head_count(p: FilterParams) -> int {
    spec_count(
        p.max_clearcheck_ms is Some,
        spec_count(
            p.min_clearcheck_ms is Some,
            spec_count(
                p.max_footprints is Some,
                spec_count(
                    p.min_footprints is Some,
                    spec_count(
                        p.max_attempts is Some,
                        spec_count(p.min_attempts is Some, spec_count(p.year is Some, 0)),
                    ),
                ),
            ),
        ),
    )
}

/// The bound values of the head, in placeholder order.
pub open spec fn spec_smm2_head_binds(p: FilterParams) -> Seq<BindView> {
    let b0 = Seq::<BindView>::empty();
    let b1 = match p.year {
        Some(v) => b0.push(BindView::Int(v)),
        None => b0,
    };
    let b2 = match p.min_attempts {
        Some(v) => b1.push(BindView::Int(v)),
        None => b1,
    };
    let b3 = match p.max_attempts {
        Some(v) => b2.push(BindView::Int(v)),
        None => b2,
    };
    let b4 = match p.min_footprints {
        Some(v) => b3.push(BindView::Int(v)),
        None => b3,
    };
    let b5 = match p.max_footprints {
        Some(v) => b4.push(BindView::Int(v)),
        None => b4,
    };
    let b6 = match p.min_clearcheck_ms {
        Some(v) => b5.push(BindView::Int(v)),
        None => b5,
    };
    match p.max_clearcheck_ms {
        Some(v) => b6.push(BindView::Int(v)),
        None => b6,
    }
}

/// The full statement of one streamed-variant selection request: the head,
/// the enum and tag predicates, the group expansion, and the random
/// single-row tail.
pub open spec fn spec_smm2_query(p: FilterParams) -> Seq<char> {
    let q7 = spec_smm2_head_query(p);
    let n7 = spec_smm2_head_count(p);
    let n8 = spec_count(p.style is Some, n7);
    let q8 = if p.style is Some {
        q7 + " AND style = $"@ + spec_nat_digits(n8)
    } else {
        q7
    };
    let n9 = spec_count(p.theme is Some, n8);
    let q9 = if p.theme is Some {
        q8 + " AND theme = $"@ + spec_nat_digits(n9)
    } else {
        q8
    };
    let n10 = spec_count(p.tag is Some, n9);
    let q10 = if p.tag is Some {
        q9 + " AND $"@ + spec_nat_digits(n10) + " = ANY(tags)"@
    } else {
        q9
    };
    let q11 = match p.clear_condition_group {
        Some(g) => q10 + spec_group_clause(g),
        None => q10,
    };
    q11 + " ORDER BY random() LIMIT 1"@
}

/// The next placeholder number when a field is present.
pub open spec fn spec_count(present: bool, prev: int) -> int {
    if present {
        prev + 1
    } else {
        prev
    }
}

/// The bound values of one streamed-variant selection request, in
/// placeholder order.
pub open spec fn spec_smm2_binds(p: FilterParams) -> Seq<BindView> {
    let b7 = spec_smm2_head_binds(p);
    let b8 = match p.style {
        Some(st) => b7.push(BindView::Text(spec_style_sql(st))),
        None => b7,
    };
    let b9 = match p.theme {
        Some(t) => b8.push(BindView::Text(spec_theme_sql(t))),
        None => b8,
    };
    match p.tag {
        Some(t) => b9.push(BindView::Text(spec_tag_sql(t))),
        None => b9,
    }
}

fn push_placeholder(q: &mut String, prefix: &str, k: u64)
    ensures
        final(q)@ == old(q)@ + prefix@ + spec_nat_digits(k as int),
{
    q.append(prefix);
    let digits = u64_to_string(k);
    q.append(digits.as_str());
}

/// Builds the head of the streamed-variant statement: the numeric bounds.
#[verifier::rlimit(100)]
fn build_smm2_head(p: &FilterParams) -> (r: (String, Vec<BindValue>, u64))
    ensures
        r.0@ == spec_smm2_head_query(*p),
        binds_view(r.1@) == spec_smm2_head_binds(*p),
        r.2 as int == spec_smm2_head_count(*p),
{
    let mut q = to_string(
        "SELECT id, year, title, description, uploaded_at, clearcheck_ms, attempts, footprints, likes, boos, comments, clear_condition, clear_condition_magnitude, style, theme, tags FROM levels_smm2 WHERE 1 = 1",
    );
    let mut binds: Vec<BindValue> = Vec::new();
    let mut k: u64 = 0;
    let ghost q0v = q@;
    let ghost b0v = binds_view(binds@);
    proof {
        assert(b0v =~= Seq::<BindView>::empty());
    }
    if let Some(v) = p.year {
        k = k + 1;
        push_placeholder(&mut q, " AND year = $", k);
        binds.push(BindValue::Int(v));
    }
    let ghost n1v = spec_count(p.year is Some, 0);
    let ghost q1v = q@;
    let ghost b1v = binds_view(binds@);
    proof {
        assert(k as int == n1v);
        assert(q1v == if p.year is Some { q0v + " AND year = $"@ + spec_nat_digits(n1v) } else { q0v });
        assert(b1v =~= match p.year {
            Some(v) => b0v.push(BindView::Int(v)),
            None => b0v,
        });
    }
    if let Some(v) = p.min_attempts {
        k = k + 1;
        push_placeholder(&mut q, " AND attempts >= $", k);
        binds.push(BindValue::Int(v));
    }
    let ghost n2v = spec_count(p.min_attempts is Some, n1v);
    let ghost q2v = q@;
    let ghost b2v = binds_view(binds@);
    proof {
        assert(k as int == n2v);
        assert(q2v == if p.min_attempts is Some { q1v + " AND attempts >= $"@ + spec_nat_digits(n2v) } else { q1v });
        assert(b2v =~= match p.min_attempts {
            Some(v) => b1v.push(BindView::Int(v)),
            None => b1v,
        });
    }
    if let Some(v) = p.max_attempts {
        k = k + 1;
        push_placeholder(&mut q, " AND attempts <= $", k);
        binds.push(BindValue::Int(v));
    }
    let ghost n3v = spec_count(p.max_attempts is Some, n2v);
    let ghost q3v = q@;
    let ghost b3v = binds_view(binds@);
    proof {
        assert(k as int == n3v);
        assert(q3v == if p.max_attempts is Some { q2v + " AND attempts <= $"@ + spec_nat_digits(n3v) } else { q2v });
        assert(b3v =~= match p.max_attempts {
            Some(v) => b2v.push(BindView::Int(v)),
            None => b2v,
        });
    }
    if let Some(v) = p.min_footprints {
        k = k + 1;
        push_placeholder(&mut q, " AND footprints >= $", k);
        binds.push(BindValue::Int(v));
    }
    let ghost n4v = spec_count(p.min_footprints is Some, n3v);
    let ghost q4v = q@;
    let ghost b4v = binds_view(binds@);
    proof {
        assert(k as int == n4v);
        assert(q4v == if p.min_footprints is Some { q3v + " AND footprints >= $"@ + spec_nat_digits(n4v) } else { q3v });
        assert(b4v =~= match p.min_footprints {
            Some(v) => b3v.push(BindView::Int(v)),
            None => b3v,
        });
    }
    if let Some(v) = p.max_footprints {
        k = k + 1;
        push_placeholder(&mut q, " AND footprints <= $", k);
        binds.push(BindValue::Int(v));
    }
    let ghost n5v = spec_count(p.max_footprints is Some, n4v);
    let ghost q5v = q@;
    let ghost b5v = binds_view(binds@);
    proof {
        assert(k as int == n5v);
        assert(q5v == if p.max_footprints is Some { q4v + " AND footprints <= $"@ + spec_nat_digits(n5v) } else { q4v });
        assert(b5v =~= match p.max_footprints {
            Some(v) => b4v.push(BindView::Int(v)),
            None => b4v,
        });
    }
    if let Some(v) = p.min_clearcheck_ms {
        k = k + 1;
        push_placeholder(&mut q, " AND clearcheck_ms >= $", k);
        binds.push(BindValue::Int(v));
    }
    let ghost n6v = spec_count(p.min_clearcheck_ms is Some, n5v);
    let ghost q6v = q@;
    let ghost b6v = binds_view(binds@);
    proof {
        assert(k as int == n6v);
        assert(q6v == if p.min_clearcheck_ms is Some { q5v + " AND clearcheck_ms >= $"@ + spec_nat_digits(n6v) } else { q5v });
        assert(b6v =~= match p.min_clearcheck_ms {
            Some(v) => b5v.push(BindView::Int(v)),
            None => b5v,
        });
    }
    if let Some(v) = p.max_clearcheck_ms {
        k = k + 1;
        push_placeholder(&mut q, " AND clearcheck_ms <= $", k);
        binds.push(BindValue::Int(v));
    }
    let ghost n7v = spec_count(p.max_clearcheck_ms is Some, n6v);
    let ghost q7v = q@;
    let ghost b7v = binds_view(binds@);
    proof {
        assert(k as int == n7v);
        assert(q7v == if p.max_clearcheck_ms is Some { q6v + " AND clearcheck_ms <= $"@ + spec_nat_digits(n7v) } else { q6v });
        assert(b7v =~= match p.max_clearcheck_ms {
            Some(v) => b6v.push(BindView::Int(v)),
            None => b6v,
        });
    }
    (q, binds, k)
}

/// Builds the selection statement and its bound values for one
/// streamed-variant request.
#[verifier::rlimit(100)]
pub fn build_smm2_random_query(p: &FilterParams) -> (r: (String, Vec<BindValue>))
    ensures
        r.0@ == spec_smm2_query(*p),
        binds_view(r.1@) == spec_smm2_binds(*p),
{
    let (head_q, head_b, head_k) = build_smm2_head(p);
    let mut q = head_q;
    let mut binds = head_b;
    let mut k = head_k;
    let ghost q7v = q@;
    let ghost b7v = binds_view(binds@);
    if let Some(st) = p.style {
        k = k + 1;
        push_placeholder(&mut q, " AND style = $", k);
        binds.push(BindValue::Text(to_string(st.as_sql())));
    }
    let ghost n8v = spec_count(p.style is Some, spec_smm2_head_count(*p));
    let ghost q8v = q@;
    let ghost b8v = binds_view(binds@);
    proof {
        assert(k as int == n8v);
        assert(q8v == if p.style is Some { q7v + " AND style = $"@ + spec_nat_digits(n8v) } else { q7v });
        assert(b8v =~= match p.style {
            Some(st) => b7v.push(BindView::Text(spec_style_sql(st))),
            None => b7v,
        });
    }
    if let Some(t) = p.theme {
        k = k + 1;
        push_placeholder(&mut q, " AND theme = $", k);
        binds.push(BindValue::Text(to_string(t.as_sql())));
    }
    let ghost n9v = spec_count(p.theme is Some, n8v);
    let ghost q9v = q@;
    let ghost b9v = binds_view(binds@);
    proof {
        assert(k as int == n9v);
        assert(q9v == if p.theme is Some { q8v + " AND theme = $"@ + spec_nat_digits(n9v) } else { q8v });
        assert(b9v =~= match p.theme {
            Some(t) => b8v.push(BindView::Text(spec_theme_sql(t))),
            None => b8v,
        });
    }
    if let Some(t) = p.tag {
        k = k + 1;
        push_placeholder(&mut q, " AND $", k);
        q.append(" = ANY(tags)");
        binds.push(BindValue::Text(to_string(t.as_sql())));
    }
    let ghost n10v = spec_count(p.tag is Some, n9v);
    let ghost q10v = q@;
    let ghost b10v = binds_view(binds@);
    proof {
        assert(k as int == n10v);
        assert(q10v == if p.tag is Some { q9v + " AND $"@ + spec_nat_digits(n10v) + " = ANY(tags)"@ } else { q9v });
        assert(b10v =~= match p.tag {
            Some(t) => b9v.push(BindView::Text(spec_tag_sql(t))),
            None => b9v,
        });
        assert(b10v == spec_smm2_binds(*p));
    }
    if let Some(g) = p.clear_condition_group {
        append_group_clause(&mut q, g);
    }
    let ghost q11v = q@;
    proof {
        assert(q11v == match p.clear_condition_group {
            Some(g) => q10v + spec_group_clause(g),
            None => q10v,
        });
    }
    q.append(" ORDER BY random() LIMIT 1");
    proof {
        assert(q@ == spec_smm2_query(*p));
    }
    (q, binds)
}

/// Appends the clear-condition fragment of a group.
fn append_group_clause(q: &mut String, g: ClearConditionGroup)
    ensures
        final(q)@ == old(q)@ + spec_group_clause(g),
{
    match g.id_list() {
        None => {
            q.append(" AND clear_condition IS NULL");
        },
        Some(ids) => {
            q.append(" AND clear_condition IN(");
            append_joined_ids(q, &ids);
            q.append(")");
        },
    }
}

/// Appends the comma-joined decimal ids.
#[verifier::loop_isolation(false)]
fn append_joined_ids(q: &mut String, ids: &Vec<i64>)
    ensures
        final(q)@ == old(q)@ + spec_join_ids(ids@),
{
    let mut i: usize = 0;
    proof {
        assert(old(q)@ + spec_join_ids(ids@.take(0)) =~= old(q)@);
    }
    while i < ids.len()
        invariant
            0 <= i <= ids@.len(),
            q@ == old(q)@ + spec_join_ids(ids@.take(i as int)),
        decreases ids@.len() - i,
    {
        proof {
            assert(ids@.take(i + 1).drop_last() =~= ids@.take(i as int));
            assert(ids@.take(i + 1).last() == ids@[i as int]);
        }
        if i > 0 {
            q.append(",");
        }
        let digits = i64_to_string(ids[i]);
        q.append(digits.as_str());
        proof {
            if i == 0 {
                assert(q@ =~= old(q)@ + spec_join_ids(ids@.take(1)));
            }
        }
        i += 1;
    }
    proof {
        assert(ids@.take(ids@.len() as int) =~= ids@);
    }
}

/// The full statement of one batch-variant selection request: the fixed
/// head, the two standing exclusion sub-queries of this variant (already
/// cleared, currently reserved), the required year, the optional attempt
/// bounds, and the random single-row tail.
pub open spec fn spec_smm1_query(p: smm1_level::FilterParams) -> Seq<char> {
    let q0 =
        "SELECT id, year, title, uploaded_at, attempts, footprints, likes FROM levels_smm1 WHERE 1 = 1"@
        + " AND NOT EXISTS (SELECT NULL FROM known_cleared WHERE game = 'smm1' AND id = levels_smm1.id)"@
        + " AND NOT EXISTS (SELECT NULL FROM level_reservations WHERE game = 'smm1' AND level_id = levels_smm1.id)"@
        + " AND year = $"@ + spec_nat_digits(1);
    let n2 = spec_count(p.min_attempts is Some, 1);
    let q2 = if p.min_attempts is Some {
        q0 + " AND attempts >= $"@ + spec_nat_digits(n2)
    } else {
        q0
    };
    let n3 = spec_count(p.max_attempts is Some, n2);
    let q3 = if p.max_attempts is Some {
        q2 + " AND attempts <= $"@ + spec_nat_digits(n3)
    } else {
        q2
    };
    q3 + " ORDER BY random() LIMIT 1"@
}

/// The bound values of one batch-variant selection request, in placeholder
/// order: the year always first.
pub open spec fn spec_smm1_binds(p: smm1_level::FilterParams) -> Seq<BindView> {
    let b1 = Seq::<BindView>::empty().push(BindView::Int(p.year));
    let b2 = match p.min_attempts {
        Some(v) => b1.push(BindView::Int(v)),
        None => b1,
    };
    match p.max_attempts {
        Some(v) => b2.push(BindView::Int(v)),
        None => b2,
    }
}

/// Builds the selection statement and its bound values for one
/// batch-variant request.
pub fn build_smm1_random_query(p: &smm1_level::FilterParams) -> (r: (String, Vec<BindValue>))
    ensures
        r.0@ == spec_smm1_query(*p),
        binds_view(r.1@) == spec_smm1_binds(*p),
{
    let mut q = to_string(
        "SELECT id, year, title, uploaded_at, attempts, footprints, likes FROM levels_smm1 WHERE 1 = 1",
    );
    q.append(
        " AND NOT EXISTS (SELECT NULL FROM known_cleared WHERE game = 'smm1' AND id = levels_smm1.id)",
    );
    q.append(
        " AND NOT EXISTS (SELECT NULL FROM level_reservations WHERE game = 'smm1' AND level_id = levels_smm1.id)",
    );
    let mut binds: Vec<BindValue> = Vec::new();
    let mut k: u64 = 1;
    push_placeholder(&mut q, " AND year = $", 1);
    binds.push(BindValue::Int(p.year));
    proof {
        assert(binds_view(binds@) =~= Seq::<BindView>::empty().push(BindView::Int(p.year)));
    }
    if let Some(v) = p.min_attempts {
        k = k + 1;
        push_placeholder(&mut q, " AND attempts >= $", k);
        binds.push(BindValue::Int(v));
    }
    if let Some(v) = p.max_attempts {
        k = k + 1;
        push_placeholder(&mut q, " AND attempts <= $", k);
        binds.push(BindValue::Int(v));
    }
    q.append(" ORDER BY random() LIMIT 1");
    proof {
        assert(binds_view(binds@) =~= spec_smm1_binds(*p));
    }
    (q, binds)
}

} // verus!
