//! Plates, grids of imaging wells, and their validator.
//!
//! A plate names its rows and columns, lists its wells by grid position, and
//! may carry the acquisitions that imaged it. Validation checks the index
//! tables, the acquisition ids and time ranges, and that every well's storage
//! path agrees with its grid position.

use std::collections::HashSet;
use vstd::prelude::*;
use vstd::string::StringExecFns;

use crate::util::{all_alphanumeric, spec_all_alphanum, str_eq, ZPath};

verus! {

broadcast use vstd::std_specs::hash::group_hash_axioms;

/// Identifier of an acquisition, unique within a plate.
pub type AcquisitionId = u64;

/// A timestamp in epoch milliseconds.
pub type Timestamp = u64;

/// One timed imaging run.
#[derive(Debug, Clone)]
pub struct Acquisition {
    pub id: AcquisitionId,
    pub name: Option<String>,
    pub maximum_field_count: Option<usize>,
    pub description: Option<String>,
    pub start_time: Option<Timestamp>,
    pub end_time: Option<Timestamp>,
}

/// A named row or column slot of the plate grid.
#[derive(Debug, Clone)]
pub struct Index {
    pub name: String,
}

/// One grid cell of a plate: a storage path plus its row and column indices.
#[derive(Debug, Clone)]
pub struct PlateWell {
    pub path: ZPath,
    pub row_index: usize,
    pub column_index: usize,
}

/// A plate: row and column index tables, wells, and optional acquisitions.
#[derive(Debug, Clone)]
pub struct Plate {
    pub acquisitions: Option<Vec<Acquisition>>,
    pub columns: Vec<Index>,
    pub field_count: Option<usize>,
    pub name: Option<String>,
    pub rows: Vec<Index>,
    pub version: Option<String>,
    pub wells: Vec<PlateWell>,
}

/// A violation of the plate rules; the validator reports the first one found.
#[derive(Debug, Clone, PartialEq, Eq, Structural)]
pub enum InvalidPlate {
    /// A well's storage path disagrees with its grid position.
    InconsistentWells,
    /// A well names a row or column index outside the table; carries the index.
    NonexistentWell(usize),
    /// A row or column name repeats an earlier one.
    NonUniqueIndex,
    /// A row or column name is not alphanumeric.
    InvalidIndex,
    /// An acquisition id repeats an earlier one.
    NonUniqueAcquisitionId,
    /// An acquisition ends before it starts.
    AcquisitionTime,
}

/// Whether index `i` repeats the name of an earlier index.
pub open spec fn index_dup_at(s: Seq<Index>, i: int) -> bool {
    exists|j: int| 0 <= j < i && s[j].name@ == s[i].name@
}

/// One step of the scan over an index table, from entry `i` on.
pub open spec fn spec_scan_index(s: Seq<Index>, i: int) -> Result<(), InvalidPlate>
    decreases s.len() - i,
{
    if i >= s.len() {
        Ok(())
    } else if index_dup_at(s, i) {
        Err(InvalidPlate::NonUniqueIndex)
    } else if !spec_all_alphanum(s[i].name@) {
        Err(InvalidPlate::InvalidIndex)
    } else {
        spec_scan_index(s, i + 1)
    }
}

/// The declarative characterization of a legal index table: names pairwise
/// distinct and alphanumeric.
pub open spec fn index_wellformed(s: Seq<Index>) -> bool {
    &&& forall|a: int, b: int| 0 <= a < b < s.len() ==> s[a].name@ != s[b].name@
    &&& forall|a: int| 0 <= a < s.len() ==> spec_all_alphanum(#[trigger] s[a].name@)
}

/// From a clean prefix, the index scan succeeds exactly on well-formed tables.
proof fn lemma_scan_index_ok_iff(s: Seq<Index>, i: int)
    requires
        0 <= i <= s.len(),
        forall|a: int, b: int| 0 <= a < b < i ==> s[a].name@ != s[b].name@,
        forall|a: int| 0 <= a < i ==> spec_all_alphanum(#[trigger] s[a].name@),
    ensures
        (spec_scan_index(s, i) is Ok) <==> index_wellformed(s),
    decreases s.len() - i,
{
    if i < s.len() {
        if index_dup_at(s, i) {
            let j = choose|j: int| 0 <= j < i && s[j].name@ == s[i].name@;
            assert(!index_wellformed(s));
        } else if !spec_all_alphanum(s[i].name@) {
            assert(!index_wellformed(s));
        } else {
            lemma_scan_index_ok_iff(s, i + 1);
        }
    }
}

/// An index table validates successfully exactly when it is well-formed.
pub proof fn lemma_index_ok_iff(s: Seq<Index>)
    ensures
        (spec_scan_index(s, 0) is Ok) <==> index_wellformed(s),
{
    lemma_scan_index_ok_iff(s, 0);
}

/// Validate one row or column table: names must be unique and alphanumeric.
#[verifier::loop_isolation(false)]
pub fn validate_index(idxs: &[Index]) -> (r: Result<(), InvalidPlate>)
    ensures
        r == spec_scan_index(idxs@, 0),
        r is Ok <==> index_wellformed(idxs@),
{
    proof {
        lemma_index_ok_iff(idxs@);
    }
    let ghost s = idxs@;
    let mut i: usize = 0;
    while i < idxs.len()
        invariant
            i <= idxs.len(),
            spec_scan_index(s, i as int) == spec_scan_index(s, 0),
        decreases idxs.len() - i,
    {
        let mut j: usize = 0;
        let mut dup = false;
        while j < i && !dup
            invariant
                j <= i < idxs.len(),
                dup ==> index_dup_at(s, i as int),
                !dup ==> forall|k: int| 0 <= k < j ==> s[k].name@ != s[i as int].name@,
            decreases i - j,
        {
            let same = str_eq(idxs[j].name.as_str(), idxs[i].name.as_str());
            if same {
                dup = true;
                proof {
                    assert(0 <= j < i && s[j as int].name@ == s[i as int].name@);
                }
            }
            j = j + 1;
        }
        if dup {
            return Err(InvalidPlate::NonUniqueIndex);
        }
        assert(!index_dup_at(s, i as int));
        if !all_alphanumeric(idxs[i].name.as_str()) {
            return Err(InvalidPlate::InvalidIndex);
        }
        i = i + 1;
    }
    Ok(())
}

/// Whether acquisition `i` repeats the id of an earlier acquisition.
pub open spec fn acq_dup_at(s: Seq<Acquisition>, i: int) -> bool {
    exists|j: int| 0 <= j < i && s[j].id == s[i].id
}

/// Whether an acquisition carries both timestamps with the end before the start.
pub open spec fn acq_time_bad(a: Acquisition) -> bool {
    &&& a.start_time is Some
    &&& a.end_time is Some
    &&& a.end_time->0 < a.start_time->0
}

/// One step of the scan over an acquisitions list, from entry `i` on.
pub open spec fn spec_scan_acquisitions(s: Seq<Acquisition>, i: int) -> Result<(), InvalidPlate>
    decreases s.len() - i,
{
    if i >= s.len() {
        Ok(())
    } else if acq_dup_at(s, i) {
        Err(InvalidPlate::NonUniqueAcquisitionId)
    } else if acq_time_bad(s[i]) {
        Err(InvalidPlate::AcquisitionTime)
    } else {
        spec_scan_acquisitions(s, i + 1)
    }
}

/// The declarative characterization of a legal acquisitions list: ids
/// pairwise distinct, and no acquisition ends before it starts.
pub open spec fn acquisitions_wellformed(s: Seq<Acquisition>) -> bool {
    &&& forall|a: int, b: int| 0 <= a < b < s.len() ==> s[a].id != s[b].id
    &&& forall|a: int| 0 <= a < s.len() ==> !acq_time_bad(#[trigger] s[a])
}

/// From a clean prefix, the acquisition scan succeeds exactly on well-formed
/// lists.
proof fn lemma_scan_acquisitions_ok_iff(s: Seq<Acquisition>, i: int)
    requires
        0 <= i <= s.len(),
        forall|a: int, b: int| 0 <= a < b < i ==> s[a].id != s[b].id,
        forall|a: int| 0 <= a < i ==> !acq_time_bad(#[trigger] s[a]),
    ensures
        (spec_scan_acquisitions(s, i) is Ok) <==> acquisitions_wellformed(s),
    decreases s.len() - i,
{
    if i < s.len() {
        if acq_dup_at(s, i) {
            let j = choose|j: int| 0 <= j < i && s[j].id == s[i].id;
            assert(!acquisitions_wellformed(s));
        } else if acq_time_bad(s[i]) {
            assert(!acquisitions_wellformed(s));
        } else {
            lemma_scan_acquisitions_ok_iff(s, i + 1);
        }
    }
}

/// An acquisitions list validates successfully exactly when it is well-formed.
pub proof fn lemma_acquisitions_ok_iff(s: Seq<Acquisition>)
    ensures
        (spec_scan_acquisitions(s, 0) is Ok) <==> acquisitions_wellformed(s),
{
    lemma_scan_acquisitions_ok_iff(s, 0);
}

/// Validate an acquisitions list: ids must be unique, and an acquisition
/// carrying both timestamps must not end before it starts.
#[verifier::loop_isolation(false)]
pub fn validate_acquisitions(acquisitions: &[Acquisition]) -> (r: Result<(), InvalidPlate>)
    ensures
        r == spec_scan_acquisitions(acquisitions@, 0),
        r is Ok <==> acquisitions_wellformed(acquisitions@),
{
    proof {
        lemma_acquisitions_ok_iff(acquisitions@);
    }
    let ghost s = acquisitions@;
    let mut ids: HashSet<AcquisitionId> = HashSet::with_capacity(acquisitions.len());
    let mut i: usize = 0;
    while i < acquisitions.len()
        invariant
            i <= acquisitions.len(),
            ids@ == Set::new(|x: AcquisitionId| exists|j: int| 0 <= j < i && s[j].id == x),
            spec_scan_acquisitions(s, i as int) == spec_scan_acquisitions(s, 0),
        decreases acquisitions.len() - i,
    {
        let acq = &acquisitions[i];
        let fresh = ids.insert(acq.id);
        if !fresh {
            proof {
                assert(acq_dup_at(s, i as int));
            }
            return Err(InvalidPlate::NonUniqueAcquisitionId);
        }
        proof {
            assert(!acq_dup_at(s, i as int));
        }
        if let Some(start) = acq.start_time {
            if let Some(end) = acq.end_time {
                if end < start {
                    return Err(InvalidPlate::AcquisitionTime);
                }
            }
        }
        proof {
            assert(ids@ =~= Set::new(
                |x: AcquisitionId| exists|j: int| 0 <= j < i + 1 && s[j].id == x,
            ));
        }
        i = i + 1;
    }
    Ok(())
}

/// Whether a well's storage path equals `"{row_name}/{column_name}"` for its
/// grid position.
pub open spec fn well_path_ok(rows: Seq<Index>, cols: Seq<Index>, w: PlateWell) -> bool {
    w.path@ == rows[w.row_index as int].name@ + "/"@ + cols[w.column_index as int].name@
}

/// One step of the scan over a plate's wells, from well `i` on.
pub open spec fn spec_scan_wells(
    rows: Seq<Index>,
    cols: Seq<Index>,
    wells: Seq<PlateWell>,
    i: int,
) -> Result<(), InvalidPlate>
    decreases wells.len() - i,
{
    if i >= wells.len() {
        Ok(())
    } else {
        let w = wells[i];
        if w.row_index >= rows.len() {
            Err(InvalidPlate::NonexistentWell(w.row_index))
        } else if w.column_index >= cols.len() {
            Err(InvalidPlate::NonexistentWell(w.column_index))
        } else if !well_path_ok(rows, cols, w) {
            Err(InvalidPlate::InconsistentWells)
        } else {
            spec_scan_wells(rows, cols, wells, i + 1)
        }
    }
}

/// The declarative characterization of legal wells: every well's indices
/// resolve inside the tables and its path matches its grid position.
pub open spec fn wells_wellformed(
    rows: Seq<Index>,
    cols: Seq<Index>,
    wells: Seq<PlateWell>,
) -> bool {
    forall|a: int|
        0 <= a < wells.len() ==> {
            let w = #[trigger] wells[a];
            &&& w.row_index < rows.len()
            &&& w.column_index < cols.len()
            &&& well_path_ok(rows, cols, w)
        }
}

/// From a clean prefix, the well scan succeeds exactly on well-formed wells.
proof fn lemma_scan_wells_ok_iff(rows: Seq<Index>, cols: Seq<Index>, wells: Seq<PlateWell>, i: int)
    requires
        0 <= i <= wells.len(),
        forall|a: int|
            0 <= a < i ==> {
                let w = #[trigger] wells[a];
                &&& w.row_index < rows.len()
                &&& w.column_index < cols.len()
                &&& well_path_ok(rows, cols, w)
            },
    ensures
        (spec_scan_wells(rows, cols, wells, i) is Ok) <==> wells_wellformed(rows, cols, wells),
    decreases wells.len() - i,
{
    if i < wells.len() {
        let w = wells[i];
        if w.row_index < rows.len() && w.column_index < cols.len() && well_path_ok(
            rows,
            cols,
            w,
        ) {
            lemma_scan_wells_ok_iff(rows, cols, wells, i + 1);
        } else {
            assert(!wells_wellformed(rows, cols, wells));
        }
    }
}

/// A wells list validates successfully exactly when it is well-formed.
pub proof fn lemma_wells_ok_iff(rows: Seq<Index>, cols: Seq<Index>, wells: Seq<PlateWell>)
    ensures
        (spec_scan_wells(rows, cols, wells, 0) is Ok) <==> wells_wellformed(rows, cols, wells),
{
    lemma_scan_wells_ok_iff(rows, cols, wells, 0);
}

impl Plate {
    /// The result of validating a plate: its index tables, then its
    /// acquisitions, then every well, each reporting the first violation.
    pub open spec fn spec_validate(&self) -> Result<(), InvalidPlate> {
        match spec_scan_index(self.rows@, 0) {
            Err(e) => Err(e),
            Ok(_) => match spec_scan_index(self.columns@, 0) {
                Err(e) => Err(e),
                Ok(_) => {
                    let acq_r = match self.acquisitions {
                        Some(acs) => spec_scan_acquisitions(acs@, 0),
                        None => Ok(()),
                    };
                    match acq_r {
                        Err(e) => Err(e),
                        Ok(_) => spec_scan_wells(self.rows@, self.columns@, self.wells@, 0),
                    }
                },
            },
        }
    }

    /// The declarative characterization of a legal plate: legal index
    /// tables, legal acquisitions if present, and consistent wells.
    pub open spec fn wellformed(&self) -> bool {
        &&& index_wellformed(self.rows@)
        &&& index_wellformed(self.columns@)
        &&& (self.acquisitions matches Some(acs) ==> acquisitions_wellformed(acs@))
        &&& wells_wellformed(self.rows@, self.columns@, self.wells@)
    }

    /// A plate validates successfully exactly when it is well-formed.
    pub proof fn lemma_validate_ok_iff(&self)
        ensures
            (self.spec_validate() is Ok) <==> self.wellformed(),
    {
        lemma_index_ok_iff(self.rows@);
        lemma_index_ok_iff(self.columns@);
        if self.acquisitions is Some {
            lemma_acquisitions_ok_iff(self.acquisitions->0@);
        }
        lemma_wells_ok_iff(self.rows@, self.columns@, self.wells@);
    }

    /// Validate the plate, reporting the first violated rule.
    #[verifier::loop_isolation(false)]
    pub fn validate(&self) -> (r: Result<(), InvalidPlate>)
        ensures
            r == self.spec_validate(),
            r is Ok <==> self.wellformed(),
    {
        proof {
            self.lemma_validate_ok_iff();
        }
        if let Err(e) = validate_index(self.rows.as_slice()) {
            return Err(e);
        }
        if let Err(e) = validate_index(self.columns.as_slice()) {
            return Err(e);
        }
        if let Some(acqs) = &self.acquisitions {
            if let Err(e) = validate_acquisitions(acqs.as_slice()) {
                return Err(e);
            }
        }
        let ghost rows = self.rows@;
        let ghost cols = self.columns@;
        let ghost wells = self.wells@;
        let mut i: usize = 0;
        while i < self.wells.len()
            invariant
                i <= wells.len(),
                spec_scan_wells(rows, cols, wells, i as int) == spec_scan_wells(
                    rows,
                    cols,
                    wells,
                    0,
                ),
            decreases self.wells.len() - i,
        {
            let w = &self.wells[i];
            if w.row_index >= self.rows.len() {
                return Err(InvalidPlate::NonexistentWell(w.row_index));
            }
            if w.column_index >= self.columns.len() {
                return Err(InvalidPlate::NonexistentWell(w.column_index));
            }
            let expected = self.rows[w.row_index].name.clone().concat("/").concat(
                self.columns[w.column_index].name.as_str(),
            );
            let same = str_eq(w.path.as_str(), expected.as_str());
            if !same {
                proof {
                    assert(!well_path_ok(rows, cols, wells[i as int]));
                }
                return Err(InvalidPlate::InconsistentWells);
            }
            i = i + 1;
        }
        Ok(())
    }

    /// The set of acquisition ids the plate declares, as the specification
    /// sees it: empty when no acquisitions list is present.
    pub open spec fn spec_acquisition_ids(&self) -> Set<AcquisitionId> {
        match self.acquisitions {
            Some(acs) => Set::new(
                |x: AcquisitionId| exists|j: int| 0 <= j < acs@.len() && acs@[j].id == x,
            ),
            None => Set::empty(),
        }
    }

    /// Collect the set of acquisition ids the plate declares.
    #[verifier::loop_isolation(false)]
    pub fn acquisition_ids(&self) -> (r: HashSet<AcquisitionId>)
        ensures
            r@ == self.spec_acquisition_ids(),
    {
        match &self.acquisitions {
            None => HashSet::with_capacity(0),
            Some(acs) => {
                let ghost s = acs@;
                let mut ids: HashSet<AcquisitionId> = HashSet::with_capacity(acs.len());
                let mut i: usize = 0;
                while i < acs.len()
                    invariant
                        i <= acs.len(),
                        ids@ == Set::new(
                            |x: AcquisitionId| exists|j: int| 0 <= j < i && s[j].id == x,
                        ),
                    decreases acs.len() - i,
                {
                    ids.insert(acs[i].id);
                    proof {
                        assert(ids@ =~= Set::new(
                            |x: AcquisitionId| exists|j: int| 0 <= j < i + 1 && s[j].id == x,
                        ));
                    }
                    i = i + 1;
                }
                proof {
                    assert(ids@ =~= self.spec_acquisition_ids());
                }
                ids
            },
        }
    }
}

} // verus!
