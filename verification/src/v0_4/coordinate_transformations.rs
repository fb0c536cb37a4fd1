//! Coordinate transformations of a dataset and the validator for a legal
//! transform list.
//!
//! A transformation carries its parameters either inline, as a vector with
//! one entry per axis, or as a path to an externally stored array. The
//! validator never reads the parameter values themselves, only their arity,
//! so the scalar type is a type parameter: numeric application of a
//! transformation is the caller's concern.

use vstd::prelude::*;

use crate::util::{spec_union_dim, InconsistentDimensionality, MaybeNdim, ZPath};

verus! {

/// A translation vector, inline or stored under an external path.
#[derive(Debug, Clone, PartialEq)]
pub enum TranslationOrPath<T> {
    Path(ZPath),
    Translation(Vec<T>),
}

/// A scale vector, inline or stored under an external path.
#[derive(Debug, Clone, PartialEq)]
pub enum ScaleOrPath<T> {
    Path(ZPath),
    Scale(Vec<T>),
}

/// One elementary coordinate transformation.
#[derive(Debug, Clone, PartialEq)]
pub enum CoordinateTransformation<T> {
    Identity,
    Translation(TranslationOrPath<T>),
    Scale(ScaleOrPath<T>),
}

impl<T> MaybeNdim for TranslationOrPath<T> {
    open spec fn spec_maybe_ndim(&self) -> Option<usize> {
        match self {
            TranslationOrPath::Translation(v) => Some(v@.len() as usize),
            TranslationOrPath::Path(_) => None,
        }
    }

    fn maybe_ndim(&self) -> (r: Option<usize>) {
        match self {
            TranslationOrPath::Translation(v) => Some(v.len()),
            TranslationOrPath::Path(_) => None,
        }
    }
}

impl<T> MaybeNdim for ScaleOrPath<T> {
    open spec fn spec_maybe_ndim(&self) -> Option<usize> {
        match self {
            ScaleOrPath::Scale(v) => Some(v@.len() as usize),
            ScaleOrPath::Path(_) => None,
        }
    }

    fn maybe_ndim(&self) -> (r: Option<usize>) {
        match self {
            ScaleOrPath::Scale(v) => Some(v.len()),
            ScaleOrPath::Path(_) => None,
        }
    }
}

impl<T> MaybeNdim for CoordinateTransformation<T> {
    open spec fn spec_maybe_ndim(&self) -> Option<usize> {
        match self {
            CoordinateTransformation::Translation(t) => t.spec_maybe_ndim(),
            CoordinateTransformation::Scale(t) => t.spec_maybe_ndim(),
            CoordinateTransformation::Identity => None,
        }
    }

    fn maybe_ndim(&self) -> (r: Option<usize>) {
        match self {
            CoordinateTransformation::Translation(t) => t.maybe_ndim(),
            CoordinateTransformation::Scale(t) => t.maybe_ndim(),
            CoordinateTransformation::Identity => None,
        }
    }
}

impl<T> Default for CoordinateTransformation<T> {
    /// The placeholder transformation is the identity.
    fn default() -> (r: Self)
        ensures
            r == CoordinateTransformation::<T>::Identity,
    {
        CoordinateTransformation::Identity
    }
}

/// The kind of an elementary transformation, used to report which kind a
/// violation concerns.
#[derive(Debug, Copy, Clone, PartialEq, Eq, Structural)]
pub enum TransformKind {
    Identity,
    Translation,
    Scale,
}

/// A violation of the transform-list rules; the validator reports the first
/// one found.
#[derive(Debug, Copy, Clone, PartialEq, Eq, Structural)]
pub enum InvalidCoordinateTransforms {
    /// A scale transform is mandatory but the list is empty.
    MissingScale,
    /// A translation appears before any scale.
    Order,
    /// A transformation kind that may not stand in a validated list.
    Unsupported(TransformKind),
    /// A second transformation of the carried kind.
    Count(TransformKind),
    /// Two dimensionalities in the list disagree.
    Dimensions(InconsistentDimensionality),
}

impl From<InconsistentDimensionality> for InvalidCoordinateTransforms {
    fn from(e: InconsistentDimensionality) -> (r: InvalidCoordinateTransforms) {
        InvalidCoordinateTransforms::Dimensions(e)
    }
}

impl vstd::std_specs::convert::FromSpecImpl<InconsistentDimensionality> for InvalidCoordinateTransforms {
    open spec fn obeys_from_spec() -> bool {
        true
    }

    open spec fn from_spec(e: InconsistentDimensionality) -> InvalidCoordinateTransforms {
        InvalidCoordinateTransforms::Dimensions(e)
    }
}

/// One step of the single-pass scan over a transform list, from element `i`
/// on, given the running dimensionality and whether a scale or a translation
/// were seen before `i`.
pub open spec fn spec_scan_transforms<T>(
    cs: Seq<CoordinateTransformation<T>>,
    i: int,
    ndim: Option<usize>,
    has_scale: bool,
    has_transl: bool,
) -> Result<Option<usize>, InvalidCoordinateTransforms>
    decreases cs.len() - i,
{
    if i >= cs.len() {
        Ok(ndim)
    } else {
        match spec_union_dim(ndim, cs[i].spec_maybe_ndim()) {
            Err(e) => Err(InvalidCoordinateTransforms::Dimensions(e)),
            Ok(nd) => match cs[i] {
                CoordinateTransformation::Identity => Err(
                    InvalidCoordinateTransforms::Unsupported(TransformKind::Identity),
                ),
                CoordinateTransformation::Translation(_) => if !has_scale {
                    Err(InvalidCoordinateTransforms::Order)
                } else if has_transl {
                    Err(InvalidCoordinateTransforms::Count(TransformKind::Translation))
                } else {
                    spec_scan_transforms(cs, i + 1, nd, has_scale, true)
                },
                CoordinateTransformation::Scale(_) => if has_scale {
                    Err(InvalidCoordinateTransforms::Count(TransformKind::Scale))
                } else {
                    spec_scan_transforms(cs, i + 1, nd, true, has_transl)
                },
            },
        }
    }
}

/// The kind of a transformation, for counting.
pub open spec fn kind_of<T>(c: CoordinateTransformation<T>) -> TransformKind {
    match c {
        CoordinateTransformation::Identity => TransformKind::Identity,
        CoordinateTransformation::Translation(_) => TransformKind::Translation,
        CoordinateTransformation::Scale(_) => TransformKind::Scale,
    }
}

/// How many of the first `n` transformations are of kind `k`.
pub open spec fn count_kind<T>(
    cs: Seq<CoordinateTransformation<T>>,
    k: TransformKind,
    n: int,
) -> int
    decreases n,
{
    if n <= 0 {
        0
    } else {
        count_kind(cs, k, n - 1) + if kind_of(cs[n - 1]) == k {
            1int
        } else {
            0int
        }
    }
}

/// Whether every dimensionality in the list agrees with the incoming one and
/// with every other: no two known counts differ.
pub open spec fn dims_consistent<T>(
    cs: Seq<CoordinateTransformation<T>>,
    ndim: Option<usize>,
) -> bool {
    &&& forall|a: int|
        0 <= a < cs.len() ==> spec_union_dim(ndim, #[trigger] cs[a].spec_maybe_ndim()) is Ok
    &&& forall|a: int, b: int|
        0 <= a < cs.len() && 0 <= b < cs.len() ==> spec_union_dim(
            #[trigger] cs[a].spec_maybe_ndim(),
            #[trigger] cs[b].spec_maybe_ndim(),
        ) is Ok
}

/// The declarative characterization of a legal transform list: non-empty if
/// a scale is mandatory, no identity, at most one scale and one translation,
/// a translation only after a scale, and all dimensionalities in agreement.
pub open spec fn transforms_wellformed<T>(
    cs: Seq<CoordinateTransformation<T>>,
    require_scale: bool,
    ndim: Option<usize>,
) -> bool {
    &&& require_scale ==> cs.len() > 0
    &&& forall|a: int| 0 <= a < cs.len() ==> !(#[trigger] cs[a] is Identity)
    &&& count_kind(cs, TransformKind::Scale, cs.len() as int) <= 1
    &&& count_kind(cs, TransformKind::Translation, cs.len() as int) <= 1
    &&& forall|a: int|
        0 <= a < cs.len() && (#[trigger] cs[a]) is Translation ==> exists|j: int|
            0 <= j < a && cs[j] is Scale
    &&& dims_consistent(cs, ndim)
}

/// The result of validating a transform list: the first violation in scan
/// order, after the mandatory-scale presence check, or the final reconciled
/// dimensionality.
pub open spec fn spec_validate_transforms<T>(
    cs: Seq<CoordinateTransformation<T>>,
    require_scale: bool,
    ndim: Option<usize>,
) -> Result<Option<usize>, InvalidCoordinateTransforms> {
    if require_scale && cs.len() == 0 {
        Err(InvalidCoordinateTransforms::MissingScale)
    } else {
        spec_scan_transforms(cs, 0, ndim, false, false)
    }
}

impl InvalidCoordinateTransforms {
    /// Validate a dataset's transform list against an incoming, possibly
    /// unknown dimensionality, threading the reconciled dimensionality
    /// through every element and returning it.
    #[verifier::loop_isolation(false)]
    pub fn validate<T>(
        cs: &[CoordinateTransformation<T>],
        require_scale: bool,
        ndim: Option<usize>,
    ) -> (r: Result<Option<usize>, InvalidCoordinateTransforms>)
        ensures
            r == spec_validate_transforms(cs@, require_scale, ndim),
            r is Ok <==> transforms_wellformed(cs@, require_scale, ndim),
    {
        proof {
            lemma_transforms_ok_iff(cs@, require_scale, ndim);
        }
        if require_scale && cs.len() == 0 {
            return Err(InvalidCoordinateTransforms::MissingScale);
        }
        let ghost s = cs@;
        let mut cur = ndim;
        let mut has_scale = false;
        let mut has_transl = false;
        let mut idx: usize = 0;
        while idx < cs.len()
            invariant
                idx <= cs.len(),
                spec_scan_transforms(s, idx as int, cur, has_scale, has_transl)
                    == spec_scan_transforms(s, 0, ndim, false, false),
            decreases cs.len() - idx,
        {
            let c = &cs[idx];
            cur = match InconsistentDimensionality::check_dim_opts(cur, c.maybe_ndim()) {
                Ok(nd) => nd,
                Err(e) => {
                    return Err(InvalidCoordinateTransforms::Dimensions(e));
                },
            };
            match c {
                CoordinateTransformation::Identity => {
                    return Err(InvalidCoordinateTransforms::Unsupported(TransformKind::Identity));
                },
                CoordinateTransformation::Translation(_) => {
                    if !has_scale {
                        return Err(InvalidCoordinateTransforms::Order);
                    }
                    if has_transl {
                        return Err(InvalidCoordinateTransforms::Count(TransformKind::Translation));
                    }
                    has_transl = true;
                },
                CoordinateTransformation::Scale(_) => {
                    if has_scale {
                        return Err(InvalidCoordinateTransforms::Count(TransformKind::Scale));
                    }
                    has_scale = true;
                },
            }
            idx = idx + 1;
        }
        Ok(cur)
    }
}

/// Counting over a longer prefix never counts less.
proof fn lemma_count_kind_le<T>(cs: Seq<CoordinateTransformation<T>>, k: TransformKind, n: int, m: int)
    requires
        0 <= n <= m,
    ensures
        count_kind(cs, k, n) <= count_kind(cs, k, m),
    decreases m,
{
    if m > n {
        lemma_count_kind_le(cs, k, n, m - 1);
    }
}

/// If no transformation of kind `k` stands in the prefix, the count is zero.
proof fn lemma_count_kind_zero_rev<T>(cs: Seq<CoordinateTransformation<T>>, k: TransformKind, n: int)
    requires
        forall|a: int| 0 <= a < n ==> kind_of(#[trigger] cs[a]) != k,
    ensures
        count_kind(cs, k, n) == 0,
    decreases n,
{
    if n > 0 {
        lemma_count_kind_zero_rev(cs, k, n - 1);
    }
}

/// From a clean prefix whose running dimensionality stands for the merge so
/// far, the scan succeeds exactly on lists that obey the kind and
/// dimensionality rules.
proof fn lemma_scan_transforms_ok_iff<T>(
    cs: Seq<CoordinateTransformation<T>>,
    ndim0: Option<usize>,
    i: int,
    cur: Option<usize>,
    has_scale: bool,
    has_transl: bool,
)
    requires
        0 <= i <= cs.len(),
        has_scale == (count_kind(cs, TransformKind::Scale, i) > 0),
        has_transl == (count_kind(cs, TransformKind::Translation, i) > 0),
        count_kind(cs, TransformKind::Scale, i) <= 1,
        count_kind(cs, TransformKind::Translation, i) <= 1,
        forall|a: int| 0 <= a < i ==> !(#[trigger] cs[a] is Identity),
        forall|a: int|
            0 <= a < i && (#[trigger] cs[a]) is Translation ==> exists|j: int|
                0 <= j < a && cs[j] is Scale,
        match cur {
            None => ndim0 is None && forall|a: int|
                0 <= a < i ==> (#[trigger] cs[a].spec_maybe_ndim()) is None,
            Some(m) => {
                &&& (ndim0 is Some ==> ndim0 == Some(m))
                &&& forall|a: int|
                    0 <= a < i && (#[trigger] cs[a].spec_maybe_ndim()) is Some ==> cs[
                        a
                    ].spec_maybe_ndim() == Some(m)
                &&& (ndim0 == Some(m) || exists|a: int|
                    0 <= a < i && cs[a].spec_maybe_ndim() == Some(m))
            },
        },
    ensures
        (spec_scan_transforms(cs, i, cur, has_scale, has_transl) is Ok) <==> {
            &&& forall|a: int| 0 <= a < cs.len() ==> !(#[trigger] cs[a] is Identity)
            &&& count_kind(cs, TransformKind::Scale, cs.len() as int) <= 1
            &&& count_kind(cs, TransformKind::Translation, cs.len() as int) <= 1
            &&& forall|a: int|
                0 <= a < cs.len() && (#[trigger] cs[a]) is Translation ==> exists|j: int|
                    0 <= j < a && cs[j] is Scale
            &&& dims_consistent(cs, ndim0)
        },
    decreases cs.len() - i,
{
    let len = cs.len() as int;
    lemma_count_kind_le(cs, TransformKind::Scale, 0, i);
    lemma_count_kind_le(cs, TransformKind::Translation, 0, i);
    if i >= len {
        assert(dims_consistent(cs, ndim0)) by {
            if cur is Some {
                assert(forall|a: int|
                    0 <= a < len ==> spec_union_dim(ndim0, #[trigger] cs[a].spec_maybe_ndim())
                        is Ok);
            }
        }
    } else {
        let mn = cs[i].spec_maybe_ndim();
        match spec_union_dim(cur, mn) {
            Err(_) => {
                // Both the running and the element's dimensionality are known
                // and differ, so some pair of the whole list conflicts.
                let m = cur->0;
                if ndim0 == Some(m) {
                    assert(spec_union_dim(ndim0, cs[i].spec_maybe_ndim()) is Err);
                } else {
                    let a = choose|a: int| 0 <= a < i && cs[a].spec_maybe_ndim() == Some(m);
                    assert(spec_union_dim(
                        cs[a].spec_maybe_ndim(),
                        cs[i].spec_maybe_ndim(),
                    ) is Err);
                }
            },
            Ok(nd) => {
                match cs[i] {
                    CoordinateTransformation::Identity => {
                        assert(cs[i] is Identity);
                    },
                    CoordinateTransformation::Translation(_) => {
                        assert(kind_of(cs[i]) == TransformKind::Translation);
                        if !has_scale {
                            assert forall|a: int| 0 <= a < i implies !(
                            (#[trigger] cs[a]) is Scale) by {
                                if cs[a] is Scale {
                                    lemma_count_kind_pos(cs, TransformKind::Scale, i, a);
                                }
                            }
                            assert(!(exists|j: int| 0 <= j < i && cs[j] is Scale));
                        } else if has_transl {
                            lemma_count_kind_le(cs, TransformKind::Translation, i + 1, len);
                        } else {
                            assert(exists|j: int| 0 <= j < i && cs[j] is Scale) by {
                                if forall|a: int|
                                    0 <= a < i ==> !((#[trigger] cs[a]) is Scale) {
                                    lemma_count_kind_zero_rev(cs, TransformKind::Scale, i);
                                }
                            }
                            lemma_scan_transforms_ok_iff(cs, ndim0, i + 1, nd, has_scale, true);
                        }
                    },
                    CoordinateTransformation::Scale(_) => {
                        assert(kind_of(cs[i]) == TransformKind::Scale);
                        if has_scale {
                            lemma_count_kind_le(cs, TransformKind::Scale, i + 1, len);
                        } else {
                            lemma_scan_transforms_ok_iff(cs, ndim0, i + 1, nd, true, has_transl);
                        }
                    },
                }
            },
        }
    }
}

/// A transformation of kind `k` inside the prefix makes the count positive.
proof fn lemma_count_kind_pos<T>(
    cs: Seq<CoordinateTransformation<T>>,
    k: TransformKind,
    n: int,
    a: int,
)
    requires
        0 <= a < n,
        kind_of(cs[a]) == k,
    ensures
        count_kind(cs, k, n) > 0,
    decreases n,
{
    if a == n - 1 {
        lemma_count_kind_le(cs, k, 0, n - 1);
    } else {
        lemma_count_kind_pos(cs, k, n - 1, a);
    }
}

/// A transform list validates successfully exactly when it is well-formed.
pub proof fn lemma_transforms_ok_iff<T>(
    cs: Seq<CoordinateTransformation<T>>,
    require_scale: bool,
    ndim: Option<usize>,
)
    ensures
        (spec_validate_transforms(cs, require_scale, ndim) is Ok) <==> transforms_wellformed(
            cs,
            require_scale,
            ndim,
        ),
{
    if !(require_scale && cs.len() == 0) {
        match ndim {
            None => lemma_scan_transforms_ok_iff(cs, ndim, 0, None, false, false),
            Some(m) => lemma_scan_transforms_ok_iff(cs, ndim, 0, Some(m), false, false),
        }
    }
}

} // verus!
