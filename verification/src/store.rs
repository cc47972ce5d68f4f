//! The catalog store: a whole partition replaced per import run, inside one
//! transaction that commits only when at least one row survived. Readers see
//! either the full prior partition or the full new one, never a mix and
//! never a transiently empty catalog.
//!
//! The store here is the model the import pipeline is verified against; the
//! surrounding program holds the same rows in a relational store whose
//! transaction gives the commit its atomicity.
use vstd::prelude::*;

use crate::id_codec::spec_canonicalize;
use crate::normalize::{
    normalize_smm1_row, normalize_smm2_row, spec_smm1_row_error, spec_smm2_row_error, CsvRow,
    Smm2RawRow,
};
use crate::smm1_level::Smm1Level;
use crate::smm2_level::Smm2Level;
use crate::text::eq_str;

verus! {

/// The outcome the pipeline reports upward: how many rows the run replaced
/// the partition with, or that the run was abandoned for want of data and
/// the prior partition kept.
#[derive(Clone, Copy, Debug, PartialEq, Eq, Structural)]
pub enum ImportOutcome {
    Imported(usize),
    NoData,
}

/// The canonical ids of a row sequence, in order.
pub open spec fn ids_of(s: Seq<Smm2Level>) -> Seq<Seq<char>> {
    s.map_values(|l: Smm2Level| l.id@)
}

/// A well-formed partition: every row fully present, no id twice.
pub open spec fn catalog_wf(s: Seq<Smm2Level>) -> bool {
    &&& forall|i: int| 0 <= i < s.len() ==> (#[trigger] s[i]).wf()
    &&& forall|i: int, j: int| 0 <= i < j < s.len() ==> s[i].id@ != s[j].id@
}

/// Whether some row of the sequence carries the given canonical id.
pub open spec fn spec_has_id(s: Seq<Smm2Level>, id: Seq<char>) -> bool {
    exists|i: int| 0 <= i < s.len() && s[i].id@ == id
}

/// Looks an id up in a list of canonical ids.
pub fn id_list_contains(ids: &Vec<String>, id: &str) -> (r: bool)
    ensures
        r == ids.deep_view().contains(id@),
{
    let mut i: usize = 0;
    while i < ids.len()
        invariant
            0 <= i <= ids@.len(),
            forall|j: int| 0 <= j < i ==> ids.deep_view()[j] != id@,
        decreases ids@.len() - i,
    {
        if eq_str(ids[i].as_str(), id) {
            proof {
                assert(ids.deep_view()[i as int] == id@);
            }
            return true;
        }
        i += 1;
    }
    proof {
        assert(forall|j: int| 0 <= j < ids.deep_view().len() ==> ids.deep_view()[j] != id@);
    }
    false
}

/// One partition of the served catalog.
pub struct Smm2Catalog {
    levels: Vec<Smm2Level>,
}

impl View for Smm2Catalog {
    type V = Seq<Smm2Level>;

    closed spec fn view(&self) -> Seq<Smm2Level> {
        self.levels@
    }
}

impl Smm2Catalog {
    /// A store that has never been imported into.
    pub fn new() -> (r: Smm2Catalog)
        ensures
            r@ =~= Seq::<Smm2Level>::empty(),
    {
        Smm2Catalog { levels: Vec::new() }
    }

    /// What a reader sees: the committed partition, whole.
    pub fn rows(&self) -> (r: &Vec<Smm2Level>)
        ensures
            r@ == self@,
    {
        &self.levels
    }

    /// Opens an import run: the staged replacement starts empty. Nothing of
    /// the served partition changes until the run commits.
    pub fn begin(&self) -> (txn: Smm2ImportTransaction)
        ensures
            txn@ =~= Seq::<Smm2Level>::empty(),
    {
        Smm2ImportTransaction { staged: Vec::new() }
    }

    /// Closes an import run: a run that staged at least one row replaces the
    /// partition wholesale and reports the count; a run that staged none is
    /// rolled back and the prior partition kept, reported as a distinct
    /// no-data outcome. A reader before or after sees one of the two full
    /// partitions, never a mix.
    pub fn commit_or_rollback(&mut self, txn: Smm2ImportTransaction) -> (outcome: ImportOutcome)
        ensures
            match outcome {
                ImportOutcome::Imported(n) => n == txn@.len() && n > 0 && final(self)@ == txn@,
                ImportOutcome::NoData => txn@.len() == 0 && final(self)@ == old(self)@,
            },
            final(self)@ == old(self)@ || final(self)@ == txn@,
    {
        let n = txn.staged.len();
        if n > 0 {
            self.levels = txn.staged;
            ImportOutcome::Imported(n)
        } else {
            ImportOutcome::NoData
        }
    }
}

/// The staged replacement of one partition during an import run.
pub struct Smm2ImportTransaction {
    staged: Vec<Smm2Level>,
}

impl View for Smm2ImportTransaction {
    type V = Seq<Smm2Level>;

    closed spec fn view(&self) -> Seq<Smm2Level> {
        self.staged@
    }
}

impl Smm2ImportTransaction {
    /// Stages one normalized row, unless its id is blocklisted (a content
    /// gate, dropped silently) or already staged (insert-or-ignore: upstream
    /// feeds may list a level twice). Keeps the staged batch well-formed and
    /// free of blocklisted ids.
    #[verifier::loop_isolation(false)]
    pub fn stage_level(&mut self, blocklist: &Vec<String>, l: Smm2Level) -> (added: bool)
        requires
            l.wf(),
            catalog_wf(old(self)@),
        ensures
            catalog_wf(final(self)@),
            ({
                let blocked = blocklist.deep_view().contains(l.id@);
                let dup = spec_has_id(old(self)@, l.id@);
                if blocked || dup {
                    final(self)@ == old(self)@ && !added
                } else {
                    final(self)@ == old(self)@.push(l) && added
                }
            }),
    {
        if id_list_contains(blocklist, l.id.as_str()) {
            return false;
        }
        let ghost pre = self.staged@;
        let mut i: usize = 0;
        while i < self.staged.len()
            invariant
                0 <= i <= self.staged@.len(),
                self.staged@ == pre,
                forall|j: int| 0 <= j < i ==> (#[trigger] self.staged@[j]).id@ != l.id@,
            decreases self.staged@.len() - i,
        {
            if eq_str(self.staged[i].id.as_str(), l.id.as_str()) {
                proof {
                    assert(pre[i as int].id@ == l.id@);
                    assert(spec_has_id(pre, l.id@));
                }
                return false;
            }
            i += 1;
        }
        proof {
            assert(!spec_has_id(pre, l.id@));
        }
        self.staged.push(l);
        proof {
            assert forall|k: int| 0 <= k < self.staged@.len() implies (
            #[trigger] self.staged@[k]).wf() by {
                if k < pre.len() {
                    assert(self.staged@[k] == pre[k]);
                }
            }
            assert forall|a: int, b: int|
                0 <= a < b < self.staged@.len() implies self.staged@[a].id@
                != self.staged@[b].id@ by {
                if b < pre.len() {
                    assert(self.staged@[a] == pre[a]);
                    assert(self.staged@[b] == pre[b]);
                } else {
                    assert(self.staged@[a] == pre[a]);
                    assert(self.staged@[b] == l);
                }
            }
        }
        true
    }
}

/// The ids that survive a run over the given raw rows: rows that fail a
/// field rule are dropped, blocklisted ids are dropped, and an id already
/// staged is not staged twice.
pub open spec fn spec_surviving_ids(
    rows: Seq<Smm2RawRow>,
    bl: Seq<Seq<char>>,
    acc: Seq<Seq<char>>,
) -> Seq<Seq<char>>
    decreases rows.len(),
{
    if rows.len() == 0 {
        acc
    } else {
        let r = rows[0];
        let rest = rows.skip(1);
        if spec_smm2_row_error(r) is None {
            let id = spec_canonicalize(r.id->Some_0@);
            if bl.contains(id) || acc.contains(id) {
                spec_surviving_ids(rest, bl, acc)
            } else {
                spec_surviving_ids(rest, bl, acc.push(id))
            }
        } else {
            spec_surviving_ids(rest, bl, acc)
        }
    }
}

/// One full import run of the streamed variant over an already-fetched
/// sequence of raw rows: normalize each row, drop rows that fail a rule,
/// drop blocklisted ids, ignore duplicate ids, and replace the partition
/// only if at least one row survived. No row whose id is blocklisted is in
/// the partition a later reader queries; a run with no surviving rows
/// leaves the partition exactly as it was.
#[verifier::loop_isolation(false)]
pub fn run_smm2_import(
    store: &mut Smm2Catalog,
    blocklist: &Vec<String>,
    rows: Vec<Smm2RawRow>,
) -> (outcome: ImportOutcome)
    requires
        catalog_wf(old(store)@),
    ensures
        catalog_wf(final(store)@),
        final(store)@ == old(store)@ || ids_of(final(store)@) == spec_surviving_ids(
            rows@,
            blocklist.deep_view(),
            Seq::empty(),
        ),
        match outcome {
            ImportOutcome::Imported(n) => {
                &&& n > 0
                &&& n == spec_surviving_ids(rows@, blocklist.deep_view(), Seq::empty()).len()
                &&& final(store)@.len() == n
                &&& ids_of(final(store)@) == spec_surviving_ids(
                    rows@,
                    blocklist.deep_view(),
                    Seq::empty(),
                )
                &&& forall|i: int|
                    0 <= i < final(store)@.len() ==> !blocklist.deep_view().contains(
                        (#[trigger] final(store)@[i]).id@,
                    )
            },
            ImportOutcome::NoData => {
                &&& spec_surviving_ids(rows@, blocklist.deep_view(), Seq::empty()).len() == 0
                &&& final(store)@ == old(store)@
            },
        },
{
    let ghost bl = blocklist.deep_view();
    let ghost all = rows@;
    let mut txn = store.begin();
    let mut i: usize = 0;
    let n = rows.len();
    let mut rows = rows;
    proof {
        assert(ids_of(txn@) =~= Seq::<Seq<char>>::empty());
        assert(all.skip(0) =~= all);
    }
    while i < n
        invariant
            0 <= i <= n,
            n == all.len(),
            rows@ == all.skip(i as int),
            catalog_wf(txn@),
            forall|k: int| 0 <= k < txn@.len() ==> !bl.contains((#[trigger] txn@[k]).id@),
            spec_surviving_ids(all, bl, Seq::empty()) == spec_surviving_ids(
                all.skip(i as int),
                bl,
                ids_of(txn@),
            ),
        decreases n - i,
    {
        let ghost pre = txn@;
        let ghost pre_ids = ids_of(txn@);
        let ghost rest = all.skip(i as int);
        proof {
            assert(rest[0] == all[i as int]);
            assert(rest.skip(1) =~= all.skip(i + 1));
        }
        let raw = rows.remove(0);
        proof {
            assert(raw == all[i as int]);
            assert(rows@ =~= all.skip(i + 1));
        }
        match normalize_smm2_row(raw) {
            Ok(l) => {
                let added = txn.stage_level(blocklist, l);
                proof {
                    lemma_ids_of_contains(pre, l.id@);
                    if added {
                        assert(ids_of(txn@) =~= pre_ids.push(l.id@));
                        assert forall|k: int| 0 <= k < txn@.len() implies !bl.contains(
                            (#[trigger] txn@[k]).id@,
                        ) by {
                            if k < pre.len() {
                                assert(txn@[k] == pre[k]);
                            }
                        }
                    }
                }
            },
            Err(_) => {},
        }
        i += 1;
    }
    proof {
        assert(all.skip(n as int) =~= Seq::<Smm2RawRow>::empty());
    }
    store.commit_or_rollback(txn)
}

/// What a reader can observe around an import run, in the model: because
/// only a commit changes the served partition, and a commit installs the
/// staged replacement whole or nothing, the partition a reader sees is the
/// full prior one or the full new one — its row count is one of the two
/// totals, never strictly between. The surrounding store's transaction
/// isolation carries the same guarantee to concurrent readers.
pub proof fn lemma_reader_sees_whole_partitions(
    prior: Seq<Smm2Level>,
    staged: Seq<Smm2Level>,
    observed: Seq<Smm2Level>,
)
    requires
        observed == prior || observed == staged,
    ensures
        observed.len() == prior.len() || observed.len() == staged.len(),
        observed == prior || observed == staged,
{
}

/// The canonical ids of a batch-variant row sequence, in order.
pub open spec fn smm1_ids_of(s: Seq<Smm1Level>) -> Seq<Seq<char>> {
    s.map_values(|l: Smm1Level| l.id@)
}

/// A well-formed batch-variant partition: every row fully present, no id
/// twice.
pub open spec fn smm1_catalog_wf(s: Seq<Smm1Level>) -> bool {
    &&& forall|i: int| 0 <= i < s.len() ==> (#[trigger] s[i]).wf()
    &&& forall|i: int, j: int| 0 <= i < j < s.len() ==> s[i].id@ != s[j].id@
}

/// Whether some batch-variant row carries the given canonical id.
pub open spec fn smm1_has_id(s: Seq<Smm1Level>, id: Seq<char>) -> bool {
    exists|i: int| 0 <= i < s.len() && s[i].id@ == id
}

/// One partition of the served catalog, batch-export variant.
pub struct Smm1Catalog {
    levels: Vec<Smm1Level>,
}

impl View for Smm1Catalog {
    type V = Seq<Smm1Level>;

    closed spec fn view(&self) -> Seq<Smm1Level> {
        self.levels@
    }
}

impl Smm1Catalog {
    /// A store that has never been imported into.
    pub fn new() -> (r: Smm1Catalog)
        ensures
            r@ =~= Seq::<Smm1Level>::empty(),
    {
        Smm1Catalog { levels: Vec::new() }
    }

    /// What a reader sees: the committed partition, whole.
    pub fn rows(&self) -> (r: &Vec<Smm1Level>)
        ensures
            r@ == self@,
    {
        &self.levels
    }

    /// Opens an import run with an empty staged replacement.
    pub fn begin(&self) -> (txn: Smm1ImportTransaction)
        ensures
            txn@ =~= Seq::<Smm1Level>::empty(),
    {
        Smm1ImportTransaction { staged: Vec::new() }
    }

    /// Closes an import run as [`Smm2Catalog::commit_or_rollback`] does:
    /// replace wholesale when anything was staged, keep the prior partition
    /// otherwise.
    pub fn commit_or_rollback(&mut self, txn: Smm1ImportTransaction) -> (outcome: ImportOutcome)
        ensures
            match outcome {
                ImportOutcome::Imported(n) => n == txn@.len() && n > 0 && final(self)@ == txn@,
                ImportOutcome::NoData => txn@.len() == 0 && final(self)@ == old(self)@,
            },
            final(self)@ == old(self)@ || final(self)@ == txn@,
    {
        let n = txn.staged.len();
        if n > 0 {
            self.levels = txn.staged;
            ImportOutcome::Imported(n)
        } else {
            ImportOutcome::NoData
        }
    }
}

/// The staged replacement of the batch-variant partition.
pub struct Smm1ImportTransaction {
    staged: Vec<Smm1Level>,
}

impl View for Smm1ImportTransaction {
    type V = Seq<Smm1Level>;

    closed spec fn view(&self) -> Seq<Smm1Level> {
        self.staged@
    }
}

impl Smm1ImportTransaction {
    /// Stages one normalized batch-variant row, unless its id is
    /// blocklisted or already staged.
    #[verifier::loop_isolation(false)]
    pub fn stage_level(&mut self, blocklist: &Vec<String>, l: Smm1Level) -> (added: bool)
        requires
            l.wf(),
            smm1_catalog_wf(old(self)@),
        ensures
            smm1_catalog_wf(final(self)@),
            ({
                let blocked = blocklist.deep_view().contains(l.id@);
                let dup = smm1_has_id(old(self)@, l.id@);
                if blocked || dup {
                    final(self)@ == old(self)@ && !added
                } else {
                    final(self)@ == old(self)@.push(l) && added
                }
            }),
    {
        if id_list_contains(blocklist, l.id.as_str()) {
            return false;
        }
        let ghost pre = self.staged@;
        let mut i: usize = 0;
        while i < self.staged.len()
            invariant
                0 <= i <= self.staged@.len(),
                self.staged@ == pre,
                forall|j: int| 0 <= j < i ==> (#[trigger] self.staged@[j]).id@ != l.id@,
            decreases self.staged@.len() - i,
        {
            if eq_str(self.staged[i].id.as_str(), l.id.as_str()) {
                proof {
                    assert(pre[i as int].id@ == l.id@);
                    assert(smm1_has_id(pre, l.id@));
                }
                return false;
            }
            i += 1;
        }
        proof {
            assert(!smm1_has_id(pre, l.id@));
        }
        self.staged.push(l);
        proof {
            assert forall|k: int| 0 <= k < self.staged@.len() implies (
            #[trigger] self.staged@[k]).wf() by {
                if k < pre.len() {
                    assert(self.staged@[k] == pre[k]);
                }
            }
            assert forall|a: int, b: int|
                0 <= a < b < self.staged@.len() implies self.staged@[a].id@
                != self.staged@[b].id@ by {
                if b < pre.len() {
                    assert(self.staged@[a] == pre[a]);
                    assert(self.staged@[b] == pre[b]);
                } else {
                    assert(self.staged@[a] == pre[a]);
                    assert(self.staged@[b] == l);
                }
            }
        }
        true
    }
}

/// The ids that survive a batch-variant run over the given raw rows.
pub open spec fn spec_smm1_surviving_ids(
    rows: Seq<CsvRow>,
    bl: Seq<Seq<char>>,
    acc: Seq<Seq<char>>,
) -> Seq<Seq<char>>
    decreases rows.len(),
{
    if rows.len() == 0 {
        acc
    } else {
        let r = rows[0];
        let rest = rows.skip(1);
        if spec_smm1_row_error(r) is None {
            let id = spec_canonicalize(r.level_id@);
            if bl.contains(id) || acc.contains(id) {
                spec_smm1_surviving_ids(rest, bl, acc)
            } else {
                spec_smm1_surviving_ids(rest, bl, acc.push(id))
            }
        } else {
            spec_smm1_surviving_ids(rest, bl, acc)
        }
    }
}

/// One full import run of the batch variant over already-fetched raw rows,
/// with the same guarantees as [`run_smm2_import`]: dropped rows never reach
/// the partition, blocklisted ids never appear in it, and a run with no
/// surviving rows leaves it untouched.
#[verifier::loop_isolation(false)]
pub fn run_smm1_import(
    store: &mut Smm1Catalog,
    blocklist: &Vec<String>,
    rows: Vec<CsvRow>,
) -> (outcome: ImportOutcome)
    requires
        smm1_catalog_wf(old(store)@),
    ensures
        smm1_catalog_wf(final(store)@),
        final(store)@ == old(store)@ || smm1_ids_of(final(store)@) == spec_smm1_surviving_ids(
            rows@,
            blocklist.deep_view(),
            Seq::empty(),
        ),
        match outcome {
            ImportOutcome::Imported(n) => {
                &&& n > 0
                &&& n == spec_smm1_surviving_ids(rows@, blocklist.deep_view(), Seq::empty()).len()
                &&& final(store)@.len() == n
                &&& smm1_ids_of(final(store)@) == spec_smm1_surviving_ids(
                    rows@,
                    blocklist.deep_view(),
                    Seq::empty(),
                )
                &&& forall|i: int|
                    0 <= i < final(store)@.len() ==> !blocklist.deep_view().contains(
                        (#[trigger] final(store)@[i]).id@,
                    )
            },
            ImportOutcome::NoData => {
                &&& spec_smm1_surviving_ids(rows@, blocklist.deep_view(), Seq::empty()).len() == 0
                &&& final(store)@ == old(store)@
            },
        },
{
    let ghost bl = blocklist.deep_view();
    let ghost all = rows@;
    let mut txn = store.begin();
    let mut i: usize = 0;
    let n = rows.len();
    let mut rows = rows;
    proof {
        assert(smm1_ids_of(txn@) =~= Seq::<Seq<char>>::empty());
        assert(all.skip(0) =~= all);
    }
    while i < n
        invariant
            0 <= i <= n,
            n == all.len(),
            rows@ == all.skip(i as int),
            smm1_catalog_wf(txn@),
            forall|k: int| 0 <= k < txn@.len() ==> !bl.contains((#[trigger] txn@[k]).id@),
            spec_smm1_surviving_ids(all, bl, Seq::empty()) == spec_smm1_surviving_ids(
                all.skip(i as int),
                bl,
                smm1_ids_of(txn@),
            ),
        decreases n - i,
    {
        let ghost pre = txn@;
        let ghost pre_ids = smm1_ids_of(txn@);
        let ghost rest = all.skip(i as int);
        proof {
            assert(rest[0] == all[i as int]);
            assert(rest.skip(1) =~= all.skip(i + 1));
        }
        let raw = rows.remove(0);
        proof {
            assert(raw == all[i as int]);
            assert(rows@ =~= all.skip(i + 1));
        }
        match normalize_smm1_row(raw) {
            Ok(l) => {
                let added = txn.stage_level(blocklist, l);
                proof {
                    lemma_smm1_ids_of_contains(pre, l.id@);
                    if added {
                        assert(smm1_ids_of(txn@) =~= pre_ids.push(l.id@));
                        assert forall|k: int| 0 <= k < txn@.len() implies !bl.contains(
                            (#[trigger] txn@[k]).id@,
                        ) by {
                            if k < pre.len() {
                                assert(txn@[k] == pre[k]);
                            }
                        }
                    }
                }
            },
            Err(_) => {},
        }
        i += 1;
    }
    proof {
        assert(all.skip(n as int) =~= Seq::<CsvRow>::empty());
    }
    store.commit_or_rollback(txn)
}

/// The id list of a batch-variant row sequence holds an id exactly when
/// some row carries it.
proof fn lemma_smm1_ids_of_contains(s: Seq<Smm1Level>, id: Seq<char>)
    ensures
        smm1_ids_of(s).contains(id) <==> smm1_has_id(s, id),
{
    if smm1_ids_of(s).contains(id) {
        let i = choose|i: int| 0 <= i < smm1_ids_of(s).len() && smm1_ids_of(s)[i] == id;
        assert(s[i].id@ == id);
    }
    if smm1_has_id(s, id) {
        let i = choose|i: int| 0 <= i < s.len() && s[i].id@ == id;
        assert(smm1_ids_of(s)[i] == id);
    }
}

/// The id list of a row sequence holds an id exactly when some row carries
/// it.
proof fn lemma_ids_of_contains(s: Seq<Smm2Level>, id: Seq<char>)
    ensures
        ids_of(s).contains(id) <==> spec_has_id(s, id),
{
    if ids_of(s).contains(id) {
        let i = choose|i: int| 0 <= i < ids_of(s).len() && ids_of(s)[i] == id;
        assert(s[i].id@ == id);
    }
    if spec_has_id(s, id) {
        let i = choose|i: int| 0 <= i < s.len() && s[i].id@ == id;
        assert(ids_of(s)[i] == id);
    }
}

} // verus!
