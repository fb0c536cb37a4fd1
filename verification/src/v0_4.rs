//! The metadata dialect of one storage-layout version.

pub mod axes;
pub mod coordinate_transformations;
pub mod image_label;
pub mod multiscale;
pub mod plate;
pub mod well;

use vstd::prelude::*;

pub use axes::{Axis, CoreAxis, InvalidAxes, SpaceUnit, TimeUnit};
pub use coordinate_transformations::{
    CoordinateTransformation, InvalidCoordinateTransforms, ScaleOrPath, TransformKind,
    TranslationOrPath,
};
pub use image_label::{Color, ImageLabel, InvalidImageLabel, Properties, Source};
pub use multiscale::{InvalidMultiscale, Multiscale, MultiscaleDataset};
pub use plate::{Acquisition, AcquisitionId, Index, InvalidPlate, Plate, PlateWell, Timestamp};
pub use well::{FieldOfView, InvalidWell, Well};

verus! {

/// Declares serde_json's JSON value type, so that a document can carry its
/// opaque free-form fields through validation untouched.
#[verifier::external_type_specification]
#[verifier::external_body]
pub struct ExValue(serde_json::Value);

/// The root metadata document of one node of the store: whichever of the
/// validated structures its file declares.
#[derive(Debug, Clone)]
pub struct NgffMetadata<T> {
    pub multiscales: Option<Vec<Multiscale<T>>>,
    pub labels: Option<Vec<String>>,
    pub image_label: Option<ImageLabel>,
    pub plate: Option<Plate>,
    pub well: Option<Well>,
}

/// Validation never changes a document and never changes its outcome: every
/// validator borrows its document immutably, and its result is a function of
/// the document's representation alone. Re-validating an already valid
/// document, which is the same representation, therefore succeeds again.
pub proof fn lemma_revalidation_stable<T>(
    m1: Multiscale<T>,
    m2: Multiscale<T>,
    p1: Plate,
    p2: Plate,
    w1: Well,
    w2: Well,
    acqs: Option<Set<AcquisitionId>>,
    il1: ImageLabel,
    il2: ImageLabel,
)
    requires
        m1 == m2,
        p1 == p2,
        w1 == w2,
        il1 == il2,
    ensures
        m1.spec_validate() == m2.spec_validate(),
        p1.spec_validate() == p2.spec_validate(),
        well::spec_scan_well(w1.images@, acqs, 0) == well::spec_scan_well(w2.images@, acqs, 0),
        il1.spec_validate() == il2.spec_validate(),
{
}

} // verus!
