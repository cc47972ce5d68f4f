//! The batch text adapter's parsing stage: the fetched export body is split
//! into records by the delimited-text reader, and the named columns of the
//! level export are extracted into raw rows for the normalizer. A record
//! that fails to parse is dropped alone; an export without the expected
//! header yields no rows.
use vstd::prelude::*;
use vstd::string::StrSliceExecFns;

use crate::normalize::CsvRow;
use crate::text::eq_str;

verus! {

/// What the delimited-text reader yields for given bytes: one entry per
/// record, in order, each either its fields or a parse failure. Parsing an
/// in-memory buffer depends on the bytes alone.
pub uninterp spec fn csv_rows_of(data: Seq<u8>) -> Seq<Option<Seq<Seq<char>>>>;

/// Relies on csv::ReaderBuilder and StringRecords: reading records from an
/// in-memory byte slice, with no header handling and a fixed field count,
/// where each record either parses to its string fields or fails alone.
#[verifier::external_body]
fn csv_records(data: &[u8]) -> (r: Vec<Option<Vec<String>>>)
    ensures
        r.deep_view() == csv_rows_of(data@),
{
    csv::ReaderBuilder::new()
        .has_headers(false)
        .from_reader(data)
        .records()
        .map(|rec| rec.ok().map(|rec| rec.iter().map(|f| f.to_string()).collect()))
        .collect()
}

/// The first column carrying the given name.
pub open spec fn spec_find_col(h: Seq<Seq<char>>, name: Seq<char>) -> Option<int>
    decreases h.len(),
{
    if h.len() == 0 {
        None
    } else if h[0] == name {
        Some(0int)
    } else {
        match spec_find_col(h.skip(1), name) {
            Some(i) => Some(i + 1),
            None => None,
        }
    }
}

fn find_col(h: &Vec<String>, name: &str) -> (r: Option<usize>)
    ensures
        match r {
            Some(i) => 0 <= i < h.deep_view().len() && spec_find_col(h.deep_view(), name@)
                == Some(i as int),
            None => spec_find_col(h.deep_view(), name@) is None,
        },
{
    let ghost hv = h.deep_view();
    let mut i: usize = 0;
    proof {
        assert(hv.skip(0) =~= hv);
    }
    while i < h.len()
        invariant
            0 <= i <= hv.len(),
            hv.len() == h@.len(),
            hv == h.deep_view(),
            forall|j: int| 0 <= j < i ==> hv[j] != name@,
            spec_find_col(hv, name@) == match spec_find_col(hv.skip(i as int), name@) {
                Some(k) => Some(k + i),
                None => None::<int>,
            },
        decreases hv.len() - i,
    {
        proof {
            assert(hv.skip(i as int)[0] == hv[i as int]);
            assert(hv.skip(i as int).skip(1) =~= hv.skip(i + 1));
        }
        if eq_str(h[i].as_str(), name) {
            proof {
                assert(hv[i as int] == name@);
            }
            return Some(i);
        }
        i += 1;
    }
    proof {
        assert(hv.skip(hv.len() as int).len() == 0);
    }
    None
}

/// The column positions of the six level-export fields in the header row.
pub open spec fn spec_header_cols(h: Seq<Seq<char>>) -> Option<(int, int, int, int, int, int)> {
    let title = spec_find_col(h, "Title"@);
    let date = spec_find_col(h, "Upload Date"@);
    let stars = spec_find_col(h, "Stars"@);
    let players = spec_find_col(h, "Players"@);
    let attempts = spec_find_col(h, "Attempts"@);
    let id = spec_find_col(h, "Level ID"@);
    if title is Some && date is Some && stars is Some && players is Some && attempts is Some
        && id is Some {
        Some(
            (
                title->Some_0,
                date->Some_0,
                stars->Some_0,
                players->Some_0,
                attempts->Some_0,
                id->Some_0,
            ),
        )
    } else {
        None
    }
}

/// The data records usable under the given column positions: records that
/// parsed and are wide enough for every needed column.
pub open spec fn spec_usable_rows(
    rows: Seq<Option<Seq<Seq<char>>>>,
    cols: (int, int, int, int, int, int),
) -> Seq<Seq<Seq<char>>> {
    rows.skip(1).filter_map(
        |o: Option<Seq<Seq<char>>>|
            match o {
                Some(rec) => if cols.0 < rec.len() && cols.1 < rec.len() && cols.2 < rec.len()
                    && cols.3 < rec.len() && cols.4 < rec.len() && cols.5 < rec.len() {
                    Some(rec)
                } else {
                    None
                },
                None => None,
            },
    )
}

/// Reads the level export: the header row names the columns, every
/// following record that parsed and carries all six columns becomes one raw
/// row, and the rest are dropped alone. An export whose header lacks one of
/// the six names yields no rows.
#[verifier::loop_isolation(false)]
#[verifier::rlimit(100)]
pub fn read_levels_csv(data: &[u8]) -> (r: Vec<CsvRow>)
    ensures
        ({
            let rows = csv_rows_of(data@);
            if rows.len() == 0 || rows[0] is None || spec_header_cols(rows[0]->Some_0) is None {
                r@.len() == 0
            } else {
                let cols = spec_header_cols(rows[0]->Some_0)->Some_0;
                let usable = spec_usable_rows(rows, cols);
                &&& r@.len() == usable.len()
                &&& forall|k: int|
                    0 <= k < usable.len() ==> {
                        let rec = #[trigger] usable[k];
                        &&& r@[k].title@ == rec[cols.0]
                        &&& r@[k].upload_date@ == rec[cols.1]
                        &&& r@[k].stars@ == rec[cols.2]
                        &&& r@[k].players@ == rec[cols.3]
                        &&& r@[k].attempts@ == rec[cols.4]
                        &&& r@[k].level_id@ == rec[cols.5]
                    }
            }
        }),
{
    broadcast use Seq::lemma_filter_map_take_succ;

    let ghost rows = csv_rows_of(data@);
    let records = csv_records(data);
    let mut out: Vec<CsvRow> = Vec::new();
    if records.len() == 0 {
        return out;
    }
    let hdr = match &records[0] {
        None => {
            return out;
        },
        Some(h) => h,
    };
    let ghost hv = rows[0]->Some_0;
    proof {
        assert(hdr.deep_view() == hv);
    }
    proof {
        reveal_strlit("Title");
        reveal_strlit("Upload Date");
        reveal_strlit("Stars");
        reveal_strlit("Players");
        reveal_strlit("Attempts");
        reveal_strlit("Level ID");
    }
    let Some(c_title) = find_col(hdr, "Title") else {
        return out;
    };
    let Some(c_date) = find_col(hdr, "Upload Date") else {
        return out;
    };
    let Some(c_stars) = find_col(hdr, "Stars") else {
        return out;
    };
    let Some(c_players) = find_col(hdr, "Players") else {
        return out;
    };
    let Some(c_attempts) = find_col(hdr, "Attempts") else {
        return out;
    };
    let Some(c_id) = find_col(hdr, "Level ID") else {
        return out;
    };
    let ghost cols = spec_header_cols(hv)->Some_0;
    proof {
        assert(cols == (
            c_title as int,
            c_date as int,
            c_stars as int,
            c_players as int,
            c_attempts as int,
            c_id as int,
        ));
    }
    let ghost keep = |o: Option<Seq<Seq<char>>>|
        match o {
            Some(rec) => if cols.0 < rec.len() && cols.1 < rec.len() && cols.2 < rec.len()
                && cols.3 < rec.len() && cols.4 < rec.len() && cols.5 < rec.len() {
                Some(rec)
            } else {
                None
            },
            None => None,
        };
    let ghost body = rows.skip(1);
    let mut i: usize = 1;
    let n = records.len();
    proof {
        assert(body.take(0).filter_map(keep) =~= Seq::<Seq<Seq<char>>>::empty());
    }
    while i < n
        invariant
            1 <= i <= n,
            n == records@.len(),
            records.deep_view() == rows,
            body == rows.skip(1),
            cols == (
                c_title as int,
                c_date as int,
                c_stars as int,
                c_players as int,
                c_attempts as int,
                c_id as int,
            ),
            out@.len() == body.take(i - 1).filter_map(keep).len(),
            forall|k: int|
                0 <= k < out@.len() ==> {
                    let rec = #[trigger] body.take(i - 1).filter_map(keep)[k];
                    &&& out@[k].title@ == rec[cols.0]
                    &&& out@[k].upload_date@ == rec[cols.1]
                    &&& out@[k].stars@ == rec[cols.2]
                    &&& out@[k].players@ == rec[cols.3]
                    &&& out@[k].attempts@ == rec[cols.4]
                    &&& out@[k].level_id@ == rec[cols.5]
                },
        decreases n - i,
    {
        proof {
            assert(body.take(i as int).drop_last() =~= body.take(i - 1));
            assert(body.take(i as int).last() == body[i - 1]);
            assert(body[i - 1] == rows[i as int]);
            assert(rows[i as int] == records.deep_view()[i as int]);
        }
        match &records[i] {
            None => {},
            Some(rec) => {
                let w = rec.len();
                if c_title < w && c_date < w && c_stars < w && c_players < w && c_attempts < w
                    && c_id < w {
                    let row = CsvRow {
                        title: crate::text::to_string(rec[c_title].as_str()),
                        upload_date: crate::text::to_string(rec[c_date].as_str()),
                        stars: crate::text::to_string(rec[c_stars].as_str()),
                        players: crate::text::to_string(rec[c_players].as_str()),
                        attempts: crate::text::to_string(rec[c_attempts].as_str()),
                        level_id: crate::text::to_string(rec[c_id].as_str()),
                    };
                    out.push(row);
                }
            },
        }
        i += 1;
    }
    proof {
        assert(body.take(n - 1) =~= body);
    }
    out
}

} // verus!
