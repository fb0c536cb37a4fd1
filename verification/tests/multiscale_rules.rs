use std::collections::HashMap;

use serde_json::Value;

use ome_ngff::util::InconsistentDimensionality;
use ome_ngff::v0_4::{
    Axis, CoordinateTransformation, CoreAxis, InvalidAxes, InvalidCoordinateTransforms,
    InvalidMultiscale, Multiscale, MultiscaleDataset, NgffMetadata, ScaleOrPath, SpaceUnit,
    TimeUnit,
};

fn tczyx_axes() -> Vec<Axis> {
    vec![
        Axis::Core(CoreAxis::Time { name: "t".to_string(), unit: Some(TimeUnit::Millisecond) }),
        Axis::Core(CoreAxis::Channel { name: "c".to_string(), unit: None }),
        Axis::Core(CoreAxis::Space { name: "z".to_string(), unit: Some(SpaceUnit::Micrometer) }),
        Axis::Core(CoreAxis::Space { name: "y".to_string(), unit: Some(SpaceUnit::Micrometer) }),
        Axis::Core(CoreAxis::Space { name: "x".to_string(), unit: Some(SpaceUnit::Micrometer) }),
    ]
}

fn scale_dataset(path: &str, factors: Vec<f64>) -> MultiscaleDataset<f64> {
    MultiscaleDataset {
        path: path.to_string(),
        coordinate_transformations: vec![CoordinateTransformation::Scale(ScaleOrPath::Scale(
            factors,
        ))],
    }
}

#[test]
fn multiscale_example() {
    let mut metadata: HashMap<String, Value> = HashMap::new();
    metadata.insert(
        "method".to_string(),
        Value::String("skimage.transform.pyramid_gaussian".to_string()),
    );
    metadata.insert("version".to_string(), Value::String("0.16.1".to_string()));
    let ms = Multiscale {
        axes: tczyx_axes(),
        datasets: vec![
            scale_dataset("0", vec![1.0, 1.0, 0.5, 0.5, 0.5]),
            scale_dataset("1", vec![1.0, 1.0, 1.0, 1.0, 1.0]),
            scale_dataset("2", vec![1.0, 1.0, 2.0, 2.0, 2.0]),
        ],
        coordinate_transformations: Some(vec![CoordinateTransformation::Scale(
            ScaleOrPath::Scale(vec![0.1, 1.0, 1.0, 1.0, 1.0]),
        )]),
        name: Some(Value::String("example".to_string())),
        version: Some(Value::String("0.4".to_string())),
        multiscale_type: Some(Value::String("gaussian".to_string())),
        metadata: Some(metadata),
    };
    assert_eq!(ms.validate(), Ok(()));
    // Re-validating succeeds again (nothing was mutated).
    assert_eq!(ms.validate(), Ok(()));
}

#[test]
fn multiscale_rejects_bad_axes() {
    let ms = Multiscale::<f64> {
        axes: vec![
            Axis::Core(CoreAxis::Space { name: "x".to_string(), unit: None }),
        ],
        datasets: vec![],
        coordinate_transformations: None,
        name: None,
        version: None,
        multiscale_type: None,
        metadata: None,
    };
    assert_eq!(
        ms.validate(),
        Err(InvalidMultiscale::Axes(InvalidAxes::Count(1)))
    );
}

#[test]
fn multiscale_rejects_dataset_of_wrong_dimensionality() {
    let ms = Multiscale {
        axes: tczyx_axes(),
        datasets: vec![scale_dataset("0", vec![1.0, 1.0, 1.0])],
        coordinate_transformations: None,
        name: None,
        version: None,
        multiscale_type: None,
        metadata: None,
    };
    assert_eq!(
        ms.validate(),
        Err(InvalidMultiscale::Transforms(InvalidCoordinateTransforms::Dimensions(
            InconsistentDimensionality(5, 3)
        )))
    );
}

#[test]
fn multiscale_rejects_dataset_without_scale() {
    let ms = Multiscale::<f64> {
        axes: tczyx_axes(),
        datasets: vec![MultiscaleDataset {
            path: "0".to_string(),
            coordinate_transformations: vec![],
        }],
        coordinate_transformations: None,
        name: None,
        version: None,
        multiscale_type: None,
        metadata: None,
    };
    assert_eq!(
        ms.validate(),
        Err(InvalidMultiscale::Transforms(InvalidCoordinateTransforms::MissingScale))
    );
}

#[test]
fn multiscale_group_transforms_checked_against_axes() {
    let ms = Multiscale {
        axes: tczyx_axes(),
        datasets: vec![scale_dataset("0", vec![1.0, 1.0, 1.0, 1.0, 1.0])],
        coordinate_transformations: Some(vec![CoordinateTransformation::Scale(
            ScaleOrPath::Scale(vec![1.0, 1.0]),
        )]),
        name: None,
        version: None,
        multiscale_type: None,
        metadata: None,
    };
    assert_eq!(
        ms.validate(),
        Err(InvalidMultiscale::Transforms(InvalidCoordinateTransforms::Dimensions(
            InconsistentDimensionality(5, 2)
        )))
    );
}

#[test]
fn whole_document_validates_part_by_part() {
    let doc = NgffMetadata::<f64> {
        multiscales: Some(vec![Multiscale {
            axes: tczyx_axes(),
            datasets: vec![scale_dataset("0", vec![1.0, 1.0, 1.0, 1.0, 1.0])],
            coordinate_transformations: None,
            name: None,
            version: None,
            multiscale_type: None,
            metadata: None,
        }]),
        labels: Some(vec!["0".to_string()]),
        image_label: None,
        plate: None,
        well: None,
    };
    for ms in doc.multiscales.as_ref().unwrap() {
        assert_eq!(ms.validate(), Ok(()));
    }
}

#[test]
fn dataset_validate_threads_dimensionality() {
    let ds = scale_dataset("0", vec![1.0, 1.0, 0.5, 0.5, 0.5]);
    assert_eq!(ds.validate(Some(5)), Ok(Some(5)));
    assert_eq!(
        ds.validate(Some(4)),
        Err(InvalidCoordinateTransforms::Dimensions(InconsistentDimensionality(4, 5)))
    );
    assert_eq!(ds.validate(None), Ok(Some(5)));
}
