use ome_ngff::util::{
    all_alphanumeric, same_ndim, str_eq, union_ndim, InconsistentDimensionality, MaybeNdim, Ndim,
};
use ome_ngff::v0_4::{CoordinateTransformation, Multiscale, ScaleOrPath, TranslationOrPath};

#[test]
fn check_dims_merges_equal_counts() {
    assert_eq!(InconsistentDimensionality::check_dims(3, 3), Ok(3));
    assert_eq!(
        InconsistentDimensionality::check_dims(3, 5),
        Err(InconsistentDimensionality(3, 5))
    );
}

#[test]
fn check_dim_opts_treats_absent_as_wild() {
    assert_eq!(InconsistentDimensionality::check_dim_opts(None, None), Ok(None));
    assert_eq!(InconsistentDimensionality::check_dim_opts(Some(2), None), Ok(Some(2)));
    assert_eq!(InconsistentDimensionality::check_dim_opts(None, Some(4)), Ok(Some(4)));
    assert_eq!(InconsistentDimensionality::check_dim_opts(Some(4), Some(4)), Ok(Some(4)));
    assert_eq!(
        InconsistentDimensionality::check_dim_opts(Some(4), Some(2)),
        Err(InconsistentDimensionality(4, 2))
    );
}

#[test]
fn transform_dimensionalities() {
    let inline: CoordinateTransformation<f64> =
        CoordinateTransformation::Scale(ScaleOrPath::Scale(vec![1.0, 2.0, 3.0]));
    assert_eq!(inline.maybe_ndim(), Some(3));
    let by_path: CoordinateTransformation<f64> =
        CoordinateTransformation::Translation(TranslationOrPath::Path("p".to_string()));
    assert_eq!(by_path.maybe_ndim(), None);
    let identity = CoordinateTransformation::<f64>::Identity;
    assert_eq!(identity.maybe_ndim(), None);
}

#[test]
fn union_ndim_of_two_transforms() {
    let a: CoordinateTransformation<f64> =
        CoordinateTransformation::Scale(ScaleOrPath::Scale(vec![1.0, 2.0]));
    let b: CoordinateTransformation<f64> =
        CoordinateTransformation::Translation(TranslationOrPath::Translation(vec![1.0, 2.0]));
    let p: CoordinateTransformation<f64> =
        CoordinateTransformation::Scale(ScaleOrPath::Path("q".to_string()));
    assert_eq!(union_ndim(&a, &b), Ok(Some(2)));
    assert_eq!(union_ndim(&a, &p), Ok(Some(2)));
    let c: CoordinateTransformation<f64> =
        CoordinateTransformation::Scale(ScaleOrPath::Scale(vec![1.0, 2.0, 3.0]));
    assert_eq!(union_ndim(&a, &c), Err(InconsistentDimensionality(2, 3)));
    assert_eq!(a.validate_ndim(), Ok(()));
}

#[test]
fn multiscale_ndim_is_axis_count() {
    let ms = Multiscale::<f64> {
        axes: vec![],
        datasets: vec![],
        coordinate_transformations: None,
        name: None,
        version: None,
        multiscale_type: None,
        metadata: None,
    };
    assert_eq!(ms.ndim(), 0);
    assert_eq!(ms.maybe_ndim(), Some(0));
    assert_eq!(same_ndim(&ms, &ms), Ok(0));
}

#[test]
fn string_helpers() {
    assert!(str_eq("abc", "abc"));
    assert!(!str_eq("abc", "abd"));
    assert!(!str_eq("abc", "ab"));
    assert!(all_alphanumeric("A1b2"));
    assert!(all_alphanumeric(""));
    assert!(!all_alphanumeric("a-b"));
    assert!(!all_alphanumeric("a b"));
}
