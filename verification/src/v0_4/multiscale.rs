//! Multiscale pyramids and their validator.
//!
//! A pyramid carries one axes list and a dataset per resolution level, each
//! with its own transform list, plus an optional group-wide transform list
//! applied after all per-level transforms. Validation checks the axes once,
//! then holds every transform list to the axis count.

use std::collections::HashMap;
use vstd::prelude::*;

use serde_json::Value;

use crate::util::{InconsistentDimensionality, MaybeNdim, Ndim, ZPath};

use super::axes::{axes_wellformed, lemma_axes_ok_iff, spec_validate_axes, Axis, InvalidAxes};
use super::coordinate_transformations::{
    lemma_transforms_ok_iff, spec_validate_transforms, transforms_wellformed,
    CoordinateTransformation, InvalidCoordinateTransforms,
};

verus! {

/// One resolution level of a pyramid: a storage path plus the ordered
/// transform list mapping the level into physical space.
#[derive(Debug, Clone)]
pub struct MultiscaleDataset<T> {
    pub path: ZPath,
    pub coordinate_transformations: Vec<CoordinateTransformation<T>>,
}

impl<T> MultiscaleDataset<T> {
    /// Validate this level's transform list, with a scale transform
    /// mandatory, against an incoming dimensionality.
    pub fn validate(&self, ndim: Option<usize>) -> (r: Result<
        Option<usize>,
        InvalidCoordinateTransforms,
    >)
        ensures
            r == spec_validate_transforms(self.coordinate_transformations@, true, ndim),
    {
        InvalidCoordinateTransforms::validate(
            self.coordinate_transformations.as_slice(),
            true,
            ndim,
        )
    }
}

/// A violation of the multiscale rules, wrapping the failing component's error.
#[derive(Debug, Clone, PartialEq, Eq, Structural)]
pub enum InvalidMultiscale {
    Axes(InvalidAxes),
    Transforms(InvalidCoordinateTransforms),
    Dimensions(InconsistentDimensionality),
}

impl From<InvalidAxes> for InvalidMultiscale {
    fn from(e: InvalidAxes) -> (r: InvalidMultiscale) {
        InvalidMultiscale::Axes(e)
    }
}

impl vstd::std_specs::convert::FromSpecImpl<InvalidAxes> for InvalidMultiscale {
    open spec fn obeys_from_spec() -> bool {
        true
    }

    open spec fn from_spec(e: InvalidAxes) -> InvalidMultiscale {
        InvalidMultiscale::Axes(e)
    }
}

impl From<InvalidCoordinateTransforms> for InvalidMultiscale {
    fn from(e: InvalidCoordinateTransforms) -> (r: InvalidMultiscale) {
        InvalidMultiscale::Transforms(e)
    }
}

impl vstd::std_specs::convert::FromSpecImpl<InvalidCoordinateTransforms> for InvalidMultiscale {
    open spec fn obeys_from_spec() -> bool {
        true
    }

    open spec fn from_spec(e: InvalidCoordinateTransforms) -> InvalidMultiscale {
        InvalidMultiscale::Transforms(e)
    }
}

impl From<InconsistentDimensionality> for InvalidMultiscale {
    fn from(e: InconsistentDimensionality) -> (r: InvalidMultiscale) {
        InvalidMultiscale::Dimensions(e)
    }
}

impl vstd::std_specs::convert::FromSpecImpl<InconsistentDimensionality> for InvalidMultiscale {
    open spec fn obeys_from_spec() -> bool {
        true
    }

    open spec fn from_spec(e: InconsistentDimensionality) -> InvalidMultiscale {
        InvalidMultiscale::Dimensions(e)
    }
}

/// One pyramid group: axes, per-level datasets, an optional group-wide
/// transform list, and opaque fields not subject to validation.
#[derive(Debug, Clone)]
pub struct Multiscale<T> {
    pub axes: Vec<Axis>,
    pub datasets: Vec<MultiscaleDataset<T>>,
    pub coordinate_transformations: Option<Vec<CoordinateTransformation<T>>>,
    pub name: Option<Value>,
    pub version: Option<Value>,
    pub multiscale_type: Option<Value>,
    pub metadata: Option<HashMap<String, Value>>,
}

impl<T> Ndim for Multiscale<T> {
    open spec fn spec_ndim(&self) -> usize {
        self.axes@.len() as usize
    }

    fn ndim(&self) -> (r: usize) {
        self.axes.len()
    }
}

impl<T> MaybeNdim for Multiscale<T> {
    open spec fn spec_maybe_ndim(&self) -> Option<usize> {
        Some(self.spec_ndim())
    }

    fn maybe_ndim(&self) -> (r: Option<usize>) {
        Some(self.ndim())
    }
}

/// One step of the scan over a pyramid's datasets, from level `i` on, each
/// validated with a scale mandatory and the axis count as dimensionality.
pub open spec fn spec_scan_datasets<T>(
    ds: Seq<MultiscaleDataset<T>>,
    n: usize,
    i: int,
) -> Result<(), InvalidMultiscale>
    decreases ds.len() - i,
{
    if i >= ds.len() {
        Ok(())
    } else {
        match spec_validate_transforms(ds[i].coordinate_transformations@, true, Some(n)) {
            Err(e) => Err(InvalidMultiscale::Transforms(e)),
            Ok(_) => spec_scan_datasets(ds, n, i + 1),
        }
    }
}

/// From a clean prefix, the dataset scan succeeds exactly when every
/// dataset's transform list is well-formed against the axis count.
proof fn lemma_scan_datasets_ok_iff<T>(ds: Seq<MultiscaleDataset<T>>, n: usize, i: int)
    requires
        0 <= i <= ds.len(),
        forall|a: int|
            0 <= a < i ==> transforms_wellformed(
                (#[trigger] ds[a]).coordinate_transformations@,
                true,
                Some(n),
            ),
    ensures
        (spec_scan_datasets(ds, n, i) is Ok) <==> forall|a: int|
            0 <= a < ds.len() ==> transforms_wellformed(
                (#[trigger] ds[a]).coordinate_transformations@,
                true,
                Some(n),
            ),
    decreases ds.len() - i,
{
    if i < ds.len() {
        lemma_transforms_ok_iff(ds[i].coordinate_transformations@, true, Some(n));
        if spec_validate_transforms(ds[i].coordinate_transformations@, true, Some(n)) is Ok {
            lemma_scan_datasets_ok_iff(ds, n, i + 1);
        } else {
            assert(!transforms_wellformed(ds[i].coordinate_transformations@, true, Some(n)));
        }
    }
}

impl<T> Multiscale<T> {
    /// The result of validating a pyramid: its axes, then every dataset's
    /// transform list, then the optional group-wide transform list, each
    /// against the axis count.
    pub open spec fn spec_validate(&self) -> Result<(), InvalidMultiscale> {
        match spec_validate_axes(self.axes@) {
            Err(e) => Err(InvalidMultiscale::Axes(e)),
            Ok(_) => match spec_scan_datasets(self.datasets@, self.spec_ndim(), 0) {
                Err(e) => Err(e),
                Ok(_) => match self.coordinate_transformations {
                    None => Ok(()),
                    Some(cs) => match spec_validate_transforms(
                        cs@,
                        false,
                        Some(self.spec_ndim()),
                    ) {
                        Err(e) => Err(InvalidMultiscale::Transforms(e)),
                        Ok(_) => Ok(()),
                    },
                },
            },
        }
    }

    /// The declarative characterization of a legal pyramid: legal axes, and
    /// every transform list legal against the axis count, with a scale
    /// mandatory per level and optional group-wide.
    pub open spec fn wellformed(&self) -> bool {
        &&& axes_wellformed(self.axes@)
        &&& forall|a: int|
            0 <= a < self.datasets@.len() ==> transforms_wellformed(
                (#[trigger] self.datasets@[a]).coordinate_transformations@,
                true,
                Some(self.spec_ndim()),
            )
        &&& (self.coordinate_transformations matches Some(cs) ==> transforms_wellformed(
            cs@,
            false,
            Some(self.spec_ndim()),
        ))
    }

    /// A pyramid validates successfully exactly when it is well-formed.
    pub proof fn lemma_validate_ok_iff(&self)
        ensures
            (self.spec_validate() is Ok) <==> self.wellformed(),
    {
        lemma_axes_ok_iff(self.axes@);
        lemma_scan_datasets_ok_iff(self.datasets@, self.spec_ndim(), 0);
        if self.coordinate_transformations is Some {
            lemma_transforms_ok_iff(
                self.coordinate_transformations->0@,
                false,
                Some(self.spec_ndim()),
            );
        }
    }

    /// Validate the pyramid, reporting the first violated rule.
    #[verifier::loop_isolation(false)]
    pub fn validate(&self) -> (r: Result<(), InvalidMultiscale>)
        ensures
            r == self.spec_validate(),
            r is Ok <==> self.wellformed(),
    {
        proof {
            self.lemma_validate_ok_iff();
        }
        if let Err(e) = InvalidAxes::validate(self.axes.as_slice()) {
            return Err(InvalidMultiscale::Axes(e));
        }
        let ndim = self.ndim();
        let ghost ds = self.datasets@;
        let mut i: usize = 0;
        while i < self.datasets.len()
            invariant
                i <= ds.len(),
                spec_scan_datasets(ds, ndim, i as int) == spec_scan_datasets(ds, ndim, 0),
            decreases self.datasets.len() - i,
        {
            if let Err(e) = self.datasets[i].validate(Some(ndim)) {
                return Err(InvalidMultiscale::Transforms(e));
            }
            i = i + 1;
        }
        if let Some(cs) = &self.coordinate_transformations {
            if let Err(e) = InvalidCoordinateTransforms::validate(cs.as_slice(), false, Some(ndim))
                {
                return Err(InvalidMultiscale::Transforms(e));
            }
        }
        Ok(())
    }
}

} // verus!
