use std::collections::HashSet;

use ome_ngff::v0_4::{FieldOfView, InvalidWell, Well};

fn fov(path: &str, acquisition: Option<u64>) -> FieldOfView {
    FieldOfView { path: path.to_string(), acquisition }
}

fn well_of(images: Vec<FieldOfView>) -> Well {
    Well { version: Some("0.4".to_string()), images }
}

fn id_set(ids: &[u64]) -> HashSet<u64> {
    ids.iter().copied().collect()
}

#[test]
fn unknown_acquisition_id_is_reported() {
    let w = well_of(vec![fov("0", Some(1)), fov("1", Some(3))]);
    assert_eq!(
        w.validate(Some(id_set(&[1, 2]))),
        Err(InvalidWell::UnknownAcquisition(3))
    );
    // Without a supplied id set, acquisition ids are not checked at all.
    assert_eq!(w.validate(None), Ok(()));
}

#[test]
fn acquisition_id_required_when_set_supplied() {
    let w = well_of(vec![fov("0", None)]);
    assert_eq!(w.validate(Some(id_set(&[1]))), Err(InvalidWell::NoAcquisition));
    assert_eq!(w.validate(None), Ok(()));
}

#[test]
fn fov_paths_must_be_alphanumeric() {
    let w = well_of(vec![fov("img/0", Some(1))]);
    assert_eq!(w.validate(None), Err(InvalidWell::InvalidPath));
}

#[test]
fn fov_paths_must_be_unique() {
    let w = well_of(vec![fov("0", Some(1)), fov("0", Some(2))]);
    assert_eq!(w.validate(None), Err(InvalidWell::NonUniquePaths));
}

#[test]
fn well_examples() {
    let w1 = well_of(vec![
        fov("0", Some(1)),
        fov("1", Some(1)),
        fov("2", Some(2)),
        fov("3", Some(2)),
    ]);
    assert_eq!(w1.validate(None), Ok(()));

    let w2 = well_of(vec![fov("0", Some(0)), fov("1", Some(3))]);
    assert_eq!(w2.validate(None), Ok(()));
}

#[test]
fn revalidating_a_valid_well_changes_nothing() {
    let w = well_of(vec![fov("0", Some(1)), fov("1", Some(2))]);
    let copy = w.clone();
    assert_eq!(w.validate(Some(id_set(&[1, 2]))), Ok(()));
    assert_eq!(w, copy);
    assert_eq!(w.validate(Some(id_set(&[1, 2]))), Ok(()));
    assert_eq!(w, copy);
}
