//! Shared primitives: reconciliation of "optionally known" dimensionalities,
//! and the character-level checks the validators run on names and paths.
//!
//! Every nested structure of a document carries a dimensionality that may be
//! unknown (a transform stored by reference has no inline vector to measure).
//! Validators thread such values through [`InconsistentDimensionality::check_dim_opts`]
//! so that a conflict is caught at the first point where two known counts disagree.

use vstd::prelude::*;
use vstd::string::StrSliceExecFns;

verus! {

/// Path of a node inside a hierarchical image store.
pub type ZPath = String;

/// Two known dimensionality counts that disagree; carries both counts.
#[derive(Debug, Copy, Clone, PartialEq, Eq, Structural)]
pub struct InconsistentDimensionality(pub usize, pub usize);

/// The merge of two optionally known dimensionalities: an absent side merges
/// to the other unconditionally; two present sides must be equal, otherwise
/// the merge fails carrying both counts.
pub open spec fn spec_union_dim(
    dim1: Option<usize>,
    dim2: Option<usize>,
) -> Result<Option<usize>, InconsistentDimensionality> {
    match dim1 {
        None => Ok(dim2),
        Some(n1) => match dim2 {
            None => Ok(Some(n1)),
            Some(n2) => if n1 == n2 {
                Ok(Some(n1))
            } else {
                Err(InconsistentDimensionality(n1, n2))
            },
        },
    }
}

impl InconsistentDimensionality {
    /// Two known counts merge exactly when they are equal; a conflict reports both.
    pub fn check_dims(dim1: usize, dim2: usize) -> (r: Result<usize, Self>)
        ensures
            r == if dim1 == dim2 {
                Ok::<usize, InconsistentDimensionality>(dim1)
            } else {
                Err::<usize, InconsistentDimensionality>(InconsistentDimensionality(dim1, dim2))
            },
    {
        if dim1 == dim2 {
            Ok(dim1)
        } else {
            Err(Self(dim1, dim2))
        }
    }

    /// Merge of two optionally known counts, as [`spec_union_dim`] states.
    pub fn check_dim_opts(dim1: Option<usize>, dim2: Option<usize>) -> (r: Result<
        Option<usize>,
        Self,
    >)
        ensures
            r == spec_union_dim(dim1, dim2),
    {
        let Some(n1) = dim1 else {
            return Ok(dim2);
        };
        let Some(n2) = dim2 else {
            return Ok(dim1);
        };
        match Self::check_dims(n1, n2) {
            Ok(n) => Ok(Some(n)),
            Err(e) => Err(e),
        }
    }
}

/// A value whose dimensionality is always known.
pub trait Ndim {
    /// The dimensionality, as the specification sees it.
    spec fn spec_ndim(&self) -> usize;

    /// The dimensionality of this value.
    fn ndim(&self) -> (r: usize)
        ensures
            r == self.spec_ndim(),
    ;
}

/// The common dimensionality of two values, or a conflict carrying both.
pub fn same_ndim<A: Ndim, B: Ndim>(a: &A, b: &B) -> (r: Result<
    usize,
    InconsistentDimensionality,
>)
    ensures
        r == if a.spec_ndim() == b.spec_ndim() {
            Ok::<usize, InconsistentDimensionality>(a.spec_ndim())
        } else {
            Err::<usize, InconsistentDimensionality>(
                InconsistentDimensionality(a.spec_ndim(), b.spec_ndim()),
            )
        },
{
    InconsistentDimensionality::check_dims(a.ndim(), b.ndim())
}

/// A value whose dimensionality may be unknown.
pub trait MaybeNdim {
    /// The optionally known dimensionality, as the specification sees it.
    spec fn spec_maybe_ndim(&self) -> Option<usize>;

    /// The optionally known dimensionality of this value.
    fn maybe_ndim(&self) -> (r: Option<usize>)
        ensures
            r == self.spec_maybe_ndim(),
    ;

    /// Hook for self-contained dimensionality checks; holds vacuously here.
    fn validate_ndim(&self) -> (r: Result<(), InconsistentDimensionality>)
        ensures
            r == Ok::<(), InconsistentDimensionality>(()),
    {
        Ok(())
    }
}

/// Whether a character counts as alphanumeric, exactly as the standard
/// library classifies it. The classification depends on the character alone.
pub uninterp spec fn is_alphanum(c: char) -> bool;

/// Relies on char::is_alphanumeric: a pure classification of the character.
pub assume_specification[ char::is_alphanumeric ](c: char) -> (r: bool)
    ensures
        r == is_alphanum(c),
;

/// Whether every character of the string is alphanumeric.
pub open spec fn spec_all_alphanum(s: Seq<char>) -> bool {
    forall|i: int| 0 <= i < s.len() ==> is_alphanum(s[i])
}

/// Check that every character of the string is alphanumeric.
pub fn all_alphanumeric(s: &str) -> (r: bool)
    ensures
        r == spec_all_alphanum(s@),
{
    let n = s.unicode_len();
    let mut i: usize = 0;
    while i < n
        invariant
            i <= n,
            n == s@.len(),
            forall|k: int| 0 <= k < i ==> is_alphanum(s@[k]),
        decreases n - i,
    {
        if !s.get_char(i).is_alphanumeric() {
            assert(!is_alphanum(s@[i as int]));
            return false;
        }
        i = i + 1;
    }
    true
}

/// Character-wise equality of two string slices.
pub fn str_eq(a: &str, b: &str) -> (r: bool)
    ensures
        r == (a@ == b@),
{
    let alen = a.unicode_len();
    let blen = b.unicode_len();
    if alen != blen {
        return false;
    }
    let mut i: usize = 0;
    while i < alen
        invariant
            i <= alen,
            alen == a@.len(),
            alen == b@.len(),
            forall|k: int| 0 <= k < i ==> a@[k] == b@[k],
        decreases alen - i,
    {
        if a.get_char(i) != b.get_char(i) {
            return false;
        }
        i = i + 1;
    }
    proof {
        assert(a@ =~= b@);
    }
    true
}

/// The merged dimensionality of two values, as [`spec_union_dim`] states.
pub fn union_ndim<A: MaybeNdim, B: MaybeNdim>(a: &A, b: &B) -> (r: Result<
    Option<usize>,
    InconsistentDimensionality,
>)
    ensures
        r == spec_union_dim(a.spec_maybe_ndim(), b.spec_maybe_ndim()),
{
    InconsistentDimensionality::check_dim_opts(a.maybe_ndim(), b.maybe_ndim())
}

} // verus!
