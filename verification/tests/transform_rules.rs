use ome_ngff::util::InconsistentDimensionality;
use ome_ngff::v0_4::{
    CoordinateTransformation, InvalidCoordinateTransforms, ScaleOrPath, TransformKind,
    TranslationOrPath,
};

fn scale(v: Vec<f64>) -> CoordinateTransformation<f64> {
    CoordinateTransformation::Scale(ScaleOrPath::Scale(v))
}

fn translation(v: Vec<f64>) -> CoordinateTransformation<f64> {
    CoordinateTransformation::Translation(TranslationOrPath::Translation(v))
}

fn scale_path(p: &str) -> CoordinateTransformation<f64> {
    CoordinateTransformation::Scale(ScaleOrPath::Path(p.to_string()))
}

#[test]
fn dataset_scale_validates_and_yields_dimensionality() {
    let cs = [scale(vec![1.0, 1.0, 0.5, 0.5, 0.5])];
    assert_eq!(
        InvalidCoordinateTransforms::validate(&cs, true, Some(5)),
        Ok(Some(5))
    );
}

#[test]
fn scale_then_translation_validates() {
    let cs = [scale(vec![2.0, 2.0]), translation(vec![1.0, -1.0])];
    assert_eq!(
        InvalidCoordinateTransforms::validate(&cs, true, None),
        Ok(Some(2))
    );
}

#[test]
fn missing_scale_on_empty_mandatory_list() {
    let cs: [CoordinateTransformation<f64>; 0] = [];
    assert_eq!(
        InvalidCoordinateTransforms::validate(&cs, true, Some(3)),
        Err(InvalidCoordinateTransforms::MissingScale)
    );
    assert_eq!(
        InvalidCoordinateTransforms::validate(&cs, false, Some(3)),
        Ok(Some(3))
    );
}

#[test]
fn identity_is_unsupported_inside_a_list() {
    let cs = [CoordinateTransformation::<f64>::Identity];
    assert_eq!(
        InvalidCoordinateTransforms::validate(&cs, true, None),
        Err(InvalidCoordinateTransforms::Unsupported(TransformKind::Identity))
    );
}

#[test]
fn translation_before_scale_is_out_of_order() {
    let cs = [translation(vec![1.0, 2.0]), scale(vec![2.0, 2.0])];
    assert_eq!(
        InvalidCoordinateTransforms::validate(&cs, true, None),
        Err(InvalidCoordinateTransforms::Order)
    );
}

#[test]
fn lone_translation_is_out_of_order_even_when_scale_is_optional() {
    let cs = [translation(vec![1.0, 2.0])];
    assert_eq!(
        InvalidCoordinateTransforms::validate(&cs, false, None),
        Err(InvalidCoordinateTransforms::Order)
    );
}

#[test]
fn duplicate_scale_and_translation_are_counted() {
    let two_scales = [scale(vec![1.0, 1.0]), scale(vec![2.0, 2.0])];
    assert_eq!(
        InvalidCoordinateTransforms::validate(&two_scales, true, None),
        Err(InvalidCoordinateTransforms::Count(TransformKind::Scale))
    );
    let two_translations = [
        scale(vec![1.0, 1.0]),
        translation(vec![1.0, 2.0]),
        translation(vec![3.0, 4.0]),
    ];
    assert_eq!(
        InvalidCoordinateTransforms::validate(&two_translations, true, None),
        Err(InvalidCoordinateTransforms::Count(TransformKind::Translation))
    );
}

#[test]
fn dimensionality_conflict_is_wrapped_with_both_counts() {
    let cs = [scale(vec![1.0, 1.0, 1.0]), translation(vec![1.0, 2.0])];
    assert_eq!(
        InvalidCoordinateTransforms::validate(&cs, true, None),
        Err(InvalidCoordinateTransforms::Dimensions(InconsistentDimensionality(3, 2)))
    );
    let against_incoming = [scale(vec![1.0, 1.0, 1.0])];
    assert_eq!(
        InvalidCoordinateTransforms::validate(&against_incoming, true, Some(5)),
        Err(InvalidCoordinateTransforms::Dimensions(InconsistentDimensionality(5, 3)))
    );
}

#[test]
fn path_valued_transform_leaves_dimensionality_unknown() {
    let cs = [scale_path("path/to/array")];
    assert_eq!(
        InvalidCoordinateTransforms::validate(&cs, true, None),
        Ok(None)
    );
    // A later inline transform still pins the dimensionality down.
    let mixed = [scale_path("path/to/array"), translation(vec![1.0, 2.0])];
    assert_eq!(
        InvalidCoordinateTransforms::validate(&mixed, true, None),
        Ok(Some(2))
    );
}

#[test]
fn default_transform_is_identity() {
    let d: CoordinateTransformation<f64> = Default::default();
    assert_eq!(d, CoordinateTransformation::Identity);
}
