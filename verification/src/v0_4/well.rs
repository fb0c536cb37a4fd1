//! Wells, lists of imaged fields of view, and their validator.
//!
//! A well is validated against an optional set of known acquisition ids,
//! obtained by the caller from the owning plate: when the set is supplied,
//! every field of view must name a member of it.

use std::collections::HashSet;
use vstd::prelude::*;

use crate::util::{all_alphanumeric, spec_all_alphanum, str_eq, ZPath};

use super::plate::AcquisitionId;

verus! {

broadcast use vstd::std_specs::hash::group_hash_axioms;

/// One imaged position inside a well.
#[derive(Debug, PartialEq, Eq, Clone)]
pub struct FieldOfView {
    pub path: ZPath,
    pub acquisition: Option<AcquisitionId>,
}

/// An ordered list of fields of view.
#[derive(Debug, PartialEq, Eq, Clone)]
pub struct Well {
    pub version: Option<String>,
    pub images: Vec<FieldOfView>,
}

/// A violation of the well rules; the validator reports the first one found.
#[derive(Debug, PartialEq, Eq, Copy, Clone, Structural)]
pub enum InvalidWell {
    /// A field-of-view path repeats an earlier one.
    NonUniquePaths,
    /// A field of view names an acquisition outside the known set; carries the id.
    UnknownAcquisition(AcquisitionId),
    /// An acquisition id is required but the field of view carries none.
    NoAcquisition,
    /// A field-of-view path is not alphanumeric.
    InvalidPath,
}

/// Whether field of view `i` repeats the path of an earlier one.
pub open spec fn path_dup_at(s: Seq<FieldOfView>, i: int) -> bool {
    exists|j: int| 0 <= j < i && s[j].path@ == s[i].path@
}

/// One step of the scan over a well's fields of view, from entry `i` on,
/// against an optionally supplied set of known acquisition ids.
pub open spec fn spec_scan_well(
    s: Seq<FieldOfView>,
    acqs: Option<Set<AcquisitionId>>,
    i: int,
) -> Result<(), InvalidWell>
    decreases s.len() - i,
{
    if i >= s.len() {
        Ok(())
    } else if !spec_all_alphanum(s[i].path@) {
        Err(InvalidWell::InvalidPath)
    } else if path_dup_at(s, i) {
        Err(InvalidWell::NonUniquePaths)
    } else {
        match acqs {
            None => spec_scan_well(s, acqs, i + 1),
            Some(known) => match s[i].acquisition {
                None => Err(InvalidWell::NoAcquisition),
                Some(id) => if !known.contains(id) {
                    Err(InvalidWell::UnknownAcquisition(id))
                } else {
                    spec_scan_well(s, acqs, i + 1)
                },
            },
        }
    }
}

/// The declarative characterization of legal fields of view: paths
/// alphanumeric and pairwise distinct, and, when a set of known acquisition
/// ids is supplied, every field of view names a member of it.
pub open spec fn images_wellformed(s: Seq<FieldOfView>, acqs: Option<Set<AcquisitionId>>) -> bool {
    &&& forall|a: int| 0 <= a < s.len() ==> spec_all_alphanum(#[trigger] s[a].path@)
    &&& forall|a: int, b: int| 0 <= a < b < s.len() ==> s[a].path@ != s[b].path@
    &&& (acqs matches Some(known) ==> forall|a: int|
        0 <= a < s.len() ==> ((#[trigger] s[a].acquisition) matches Some(id) && known.contains(
            id,
        )))
}

/// From a clean prefix, the scan succeeds exactly on well-formed fields of
/// view.
proof fn lemma_scan_well_ok_iff(s: Seq<FieldOfView>, acqs: Option<Set<AcquisitionId>>, i: int)
    requires
        0 <= i <= s.len(),
        forall|a: int| 0 <= a < i ==> spec_all_alphanum(#[trigger] s[a].path@),
        forall|a: int, b: int| 0 <= a < b < i ==> s[a].path@ != s[b].path@,
        acqs matches Some(known) ==> forall|a: int|
            0 <= a < i ==> ((#[trigger] s[a].acquisition) matches Some(id) && known.contains(id)),
    ensures
        (spec_scan_well(s, acqs, i) is Ok) <==> images_wellformed(s, acqs),
    decreases s.len() - i,
{
    if i < s.len() {
        if !spec_all_alphanum(s[i].path@) {
            assert(!images_wellformed(s, acqs));
        } else if path_dup_at(s, i) {
            let j = choose|j: int| 0 <= j < i && s[j].path@ == s[i].path@;
            assert(!images_wellformed(s, acqs));
        } else {
            match acqs {
                None => lemma_scan_well_ok_iff(s, acqs, i + 1),
                Some(known) => match s[i].acquisition {
                    None => {
                        assert(!images_wellformed(s, acqs));
                    },
                    Some(id) => {
                        if known.contains(id) {
                            lemma_scan_well_ok_iff(s, acqs, i + 1);
                        } else {
                            assert(!images_wellformed(s, acqs));
                        }
                    },
                },
            }
        }
    }
}

/// A well validates successfully exactly when its fields of view are
/// well-formed against the supplied acquisition ids.
pub proof fn lemma_well_ok_iff(s: Seq<FieldOfView>, acqs: Option<Set<AcquisitionId>>)
    ensures
        (spec_scan_well(s, acqs, 0) is Ok) <==> images_wellformed(s, acqs),
{
    lemma_scan_well_ok_iff(s, acqs, 0);
}

/// The view of an optionally supplied set of acquisition ids.
pub open spec fn spec_acq_set(acquisitions: Option<HashSet<AcquisitionId>>) -> Option<
    Set<AcquisitionId>,
> {
    match acquisitions {
        None => None,
        Some(h) => Some(h@),
    }
}

impl Well {
    /// Validate the well's fields of view: paths must be alphanumeric and
    /// unique, and when a set of known acquisition ids is supplied, every
    /// field of view must name a member of it.
    #[verifier::loop_isolation(false)]
    pub fn validate(&self, acquisitions: Option<HashSet<AcquisitionId>>) -> (r: Result<
        (),
        InvalidWell,
    >)
        ensures
            r == spec_scan_well(self.images@, spec_acq_set(acquisitions), 0),
            r is Ok <==> images_wellformed(self.images@, spec_acq_set(acquisitions)),
    {
        proof {
            lemma_well_ok_iff(self.images@, spec_acq_set(acquisitions));
        }
        let ghost s = self.images@;
        let ghost known = spec_acq_set(acquisitions);
        let mut i: usize = 0;
        while i < self.images.len()
            invariant
                i <= s.len(),
                spec_scan_well(s, known, i as int) == spec_scan_well(s, known, 0),
            decreases self.images.len() - i,
        {
            let im = &self.images[i];
            if !all_alphanumeric(im.path.as_str()) {
                return Err(InvalidWell::InvalidPath);
            }
            let mut j: usize = 0;
            let mut dup = false;
            while j < i && !dup
                invariant
                    j <= i < s.len(),
                    dup ==> path_dup_at(s, i as int),
                    !dup ==> forall|k: int| 0 <= k < j ==> s[k].path@ != s[i as int].path@,
                decreases i - j,
            {
                let same = str_eq(self.images[j].path.as_str(), im.path.as_str());
                if same {
                    dup = true;
                    proof {
                        assert(0 <= j < i && s[j as int].path@ == s[i as int].path@);
                    }
                }
                j = j + 1;
            }
            if dup {
                return Err(InvalidWell::NonUniquePaths);
            }
            assert(!path_dup_at(s, i as int));
            if let Some(acqs) = acquisitions.as_ref() {
                if let Some(acq) = im.acquisition.as_ref() {
                    if !acqs.contains(acq) {
                        return Err(InvalidWell::UnknownAcquisition(*acq));
                    }
                } else {
                    return Err(InvalidWell::NoAcquisition);
                }
            }
            i = i + 1;
        }
        Ok(())
    }
}

} // verus!
