//! Random selection against the catalog model: the AND-composed filter
//! predicates narrow the partition to its matching rows, and a random key
//! picks exactly one of them — or none, which is not an error.
use vstd::prelude::*;

use crate::smm1_level;
use crate::smm1_level::{spec_smm1_matches, Smm1Level};
use crate::smm2_level::{matches_filters, spec_level_matches, FilterParams, Smm2Level};
use crate::store::{spec_has_id, Smm1Catalog, Smm2Catalog};
use crate::text::eq_str;

verus! {

/// The matching rows of a streamed-variant partition under a filter set.
pub open spec fn spec_matching(s: Seq<Smm2Level>, p: FilterParams) -> Seq<Smm2Level> {
    s.filter(|l: Smm2Level| spec_level_matches(p, l))
}

impl Smm2Level {
    /// Selects one uniformly-random matching row: the random key picks among
    /// the rows that satisfy every present predicate. With no match the
    /// result is absent — not an error; with exactly one match that row is
    /// returned whatever the key.
    #[verifier::loop_isolation(false)]
    pub fn get_random_level<'a>(
        store: &'a Smm2Catalog,
        params: &FilterParams,
        random_key: usize,
    ) -> (r: Option<&'a Smm2Level>)
        ensures
            ({
                let matching = spec_matching(store@, *params);
                match r {
                    Some(l) => {
                        &&& matching.len() > 0
                        &&& *l == matching[random_key as int % matching.len() as int]
                        &&& spec_level_matches(*params, *l)
                        &&& matching.contains(*l)
                    },
                    None => matching.len() == 0,
                }
            }),
    {
        let ghost pred = |l: Smm2Level| spec_level_matches(*params, l);
        let rows = store.rows();
        let n = rows.len();
        let mut hits: Vec<usize> = Vec::new();
        let mut i: usize = 0;
        proof {
            assert(store@.take(0).filter(pred) =~= Seq::<Smm2Level>::empty());
        }
        while i < n
            invariant
                0 <= i <= n,
                n == store@.len(),
                rows@ == store@,
                hits@.len() == store@.take(i as int).filter(pred).len(),
                forall|k: int|
                    0 <= k < hits@.len() ==> #[trigger] hits@[k] < i && store@[hits@[k] as int]
                        == store@.take(i as int).filter(pred)[k],
            decreases n - i,
        {
            let ghost pre = store@.take(i as int);
            proof {
                reveal(Seq::filter);
                assert(store@.take(i + 1) =~= pre.push(store@[i as int]));
                assert(pre.push(store@[i as int]).drop_last() =~= pre);
            }
            if matches_filters(params, &rows[i]) {
                hits.push(i);
            }
            i += 1;
        }
        proof {
            assert(store@.take(n as int) =~= store@);
        }
        if hits.len() == 0 {
            None
        } else {
            let idx = hits[random_key % hits.len()];
            let picked = &rows[idx];
            proof {
                let matching = spec_matching(store@, *params);
                let j = random_key as int % matching.len() as int;
                assert(store@[hits@[j] as int] == matching[j]);
                store@.lemma_filter_pred(pred, j);
                matching.lemma_index_contains(j);
            }
            Some(picked)
        }
    }

    /// Whether a level with the given canonical id is in the partition.
    pub fn id_exists(store: &Smm2Catalog, level_id: &str) -> (r: bool)
        ensures
            r == spec_has_id(store@, level_id@),
    {
        let rows = store.rows();
        let mut i: usize = 0;
        while i < rows.len()
            invariant
                0 <= i <= store@.len(),
                rows@ == store@,
                forall|j: int| 0 <= j < i ==> (#[trigger] store@[j]).id@ != level_id@,
            decreases store@.len() - i,
        {
            if eq_str(rows[i].id.as_str(), level_id) {
                proof {
                    assert(store@[i as int].id@ == level_id@);
                }
                return true;
            }
            i += 1;
        }
        proof {
            assert(!spec_has_id(store@, level_id@));
        }
        false
    }
}

/// With exactly one matching row, selection is determined: every random key
/// picks index zero of the match set, so that row is returned whatever the
/// key; with no matching row the result is absent.
pub proof fn lemma_single_match_selected(s: Seq<Smm2Level>, p: FilterParams, key: int)
    requires
        0 <= key,
        spec_matching(s, p).len() == 1,
    ensures
        spec_matching(s, p)[key % spec_matching(s, p).len() as int] == spec_matching(s, p)[0],
{
}

/// The matching rows of a batch-variant partition under a filter set, the
/// standing exclusions applied first: rows already cleared or currently
/// reserved never come back.
pub open spec fn spec_smm1_selectable(
    s: Seq<Smm1Level>,
    p: smm1_level::FilterParams,
    cleared: Seq<Seq<char>>,
    reserved: Seq<Seq<char>>,
) -> Seq<Smm1Level> {
    s.filter(
        |l: Smm1Level|
            spec_smm1_matches(p, l) && !cleared.contains(l.id@) && !reserved.contains(l.id@),
    )
}

impl Smm1Level {
    /// Selects one uniformly-random matching row of the batch variant,
    /// excluding levels already cleared or currently reserved (this
    /// variant's standing exclusion joins).
    #[verifier::loop_isolation(false)]
    pub fn get_random_level<'a>(
        store: &'a Smm1Catalog,
        params: &smm1_level::FilterParams,
        cleared: &Vec<String>,
        reserved: &Vec<String>,
        random_key: usize,
    ) -> (r: Option<&'a Smm1Level>)
        ensures
            ({
                let matching = spec_smm1_selectable(
                    store@,
                    *params,
                    cleared.deep_view(),
                    reserved.deep_view(),
                );
                match r {
                    Some(l) => {
                        &&& matching.len() > 0
                        &&& *l == matching[random_key as int % matching.len() as int]
                        &&& spec_smm1_matches(*params, *l)
                        &&& !cleared.deep_view().contains(l.id@)
                        &&& !reserved.deep_view().contains(l.id@)
                        &&& matching.contains(*l)
                    },
                    None => matching.len() == 0,
                }
            }),
    {
        let ghost pred = |l: Smm1Level|
            spec_smm1_matches(*params, l) && !cleared.deep_view().contains(l.id@)
                && !reserved.deep_view().contains(l.id@);
        let rows = store.rows();
        let n = rows.len();
        let mut hits: Vec<usize> = Vec::new();
        let mut i: usize = 0;
        proof {
            assert(store@.take(0).filter(pred) =~= Seq::<Smm1Level>::empty());
        }
        while i < n
            invariant
                0 <= i <= n,
                n == store@.len(),
                rows@ == store@,
                hits@.len() == store@.take(i as int).filter(pred).len(),
                forall|k: int|
                    0 <= k < hits@.len() ==> #[trigger] hits@[k] < i && store@[hits@[k] as int]
                        == store@.take(i as int).filter(pred)[k],
            decreases n - i,
        {
            let ghost pre = store@.take(i as int);
            proof {
                reveal(Seq::filter);
                assert(store@.take(i + 1) =~= pre.push(store@[i as int]));
                assert(pre.push(store@[i as int]).drop_last() =~= pre);
            }
            let l = &rows[i];
            if crate::smm1_level::smm1_matches(params, l) && !crate::store::id_list_contains(
                cleared,
                l.id.as_str(),
            ) && !crate::store::id_list_contains(reserved, l.id.as_str()) {
                hits.push(i);
            }
            i += 1;
        }
        proof {
            assert(store@.take(n as int) =~= store@);
        }
        if hits.len() == 0 {
            None
        } else {
            let idx = hits[random_key % hits.len()];
            let picked = &rows[idx];
            proof {
                let matching = spec_smm1_selectable(
                    store@,
                    *params,
                    cleared.deep_view(),
                    reserved.deep_view(),
                );
                let j = random_key as int % matching.len() as int;
                assert(store@[hits@[j] as int] == matching[j]);
                store@.lemma_filter_pred(pred, j);
                matching.lemma_index_contains(j);
            }
            Some(picked)
        }
    }
}

} // verus!
