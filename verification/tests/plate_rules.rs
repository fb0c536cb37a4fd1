use std::collections::HashSet;

use ome_ngff::v0_4::plate::{validate_acquisitions, validate_index};
use ome_ngff::v0_4::{Acquisition, Index, InvalidPlate, Plate, PlateWell};

fn index(name: &str) -> Index {
    Index { name: name.to_string() }
}

fn acquisition(id: u64, start: Option<u64>, end: Option<u64>) -> Acquisition {
    Acquisition {
        id,
        name: None,
        maximum_field_count: None,
        description: None,
        start_time: start,
        end_time: end,
    }
}

fn well(path: &str, row: usize, col: usize) -> PlateWell {
    PlateWell { path: path.to_string(), row_index: row, column_index: col }
}

fn plate(rows: Vec<Index>, columns: Vec<Index>, wells: Vec<PlateWell>) -> Plate {
    Plate {
        acquisitions: None,
        columns,
        field_count: None,
        name: None,
        rows,
        version: None,
        wells,
    }
}

#[test]
fn well_path_consistency() {
    let rows = vec![index("A"), index("B")];
    let columns = vec![index("1"), index("2"), index("3")];
    let good = plate(rows.clone(), columns.clone(), vec![well("A/2", 0, 1)]);
    assert_eq!(good.validate(), Ok(()));
    let bad = plate(rows, columns, vec![well("A/3", 0, 0)]);
    assert_eq!(bad.validate(), Err(InvalidPlate::InconsistentWells));
}

#[test]
fn well_indices_must_exist() {
    let rows = vec![index("A")];
    let columns = vec![index("1")];
    let bad_row = plate(rows.clone(), columns.clone(), vec![well("A/1", 3, 0)]);
    assert_eq!(bad_row.validate(), Err(InvalidPlate::NonexistentWell(3)));
    let bad_col = plate(rows, columns, vec![well("A/1", 0, 2)]);
    assert_eq!(bad_col.validate(), Err(InvalidPlate::NonexistentWell(2)));
}

#[test]
fn index_names_must_be_unique() {
    let p = plate(vec![index("A"), index("A")], vec![index("1")], vec![]);
    assert_eq!(p.validate(), Err(InvalidPlate::NonUniqueIndex));
    let p2 = plate(vec![index("A")], vec![index("1"), index("1")], vec![]);
    assert_eq!(p2.validate(), Err(InvalidPlate::NonUniqueIndex));
}

#[test]
fn index_names_must_be_alphanumeric() {
    let p = plate(vec![index("A-2")], vec![index("1")], vec![]);
    assert_eq!(p.validate(), Err(InvalidPlate::InvalidIndex));
    let fine = plate(vec![index("A2"), index("B7")], vec![index("10")], vec![]);
    assert_eq!(fine.validate(), Ok(()));
}

#[test]
fn acquisition_time_ranges() {
    let backwards = plate(vec![index("A")], vec![index("1")], vec![]);
    let backwards = Plate {
        acquisitions: Some(vec![acquisition(1, Some(1000), Some(500))]),
        ..backwards
    };
    assert_eq!(backwards.validate(), Err(InvalidPlate::AcquisitionTime));

    let open_ended = Plate {
        acquisitions: Some(vec![acquisition(1, Some(1000), None)]),
        ..plate(vec![index("A")], vec![index("1")], vec![])
    };
    assert_eq!(open_ended.validate(), Ok(()));

    let instantaneous = Plate {
        acquisitions: Some(vec![acquisition(1, Some(1000), Some(1000))]),
        ..plate(vec![index("A")], vec![index("1")], vec![])
    };
    assert_eq!(instantaneous.validate(), Ok(()));
}

#[test]
fn acquisition_ids_must_be_unique() {
    let p = Plate {
        acquisitions: Some(vec![
            acquisition(1, None, None),
            acquisition(2, None, None),
            acquisition(1, None, None),
        ]),
        ..plate(vec![index("A")], vec![index("1")], vec![])
    };
    assert_eq!(p.validate(), Err(InvalidPlate::NonUniqueAcquisitionId));
}

#[test]
fn acquisition_id_set_accessor() {
    let p = Plate {
        acquisitions: Some(vec![
            acquisition(1, None, None),
            acquisition(7, None, None),
        ]),
        ..plate(vec![index("A")], vec![index("1")], vec![])
    };
    let ids = p.acquisition_ids();
    let expected: HashSet<u64> = [1, 7].into_iter().collect();
    assert_eq!(ids, expected);

    let none = plate(vec![index("A")], vec![index("1")], vec![]);
    assert!(none.acquisition_ids().is_empty());
}

#[test]
fn index_table_checked_directly() {
    assert_eq!(validate_index(&[index("A"), index("B8")]), Ok(()));
    assert_eq!(validate_index(&[index("A"), index("A")]), Err(InvalidPlate::NonUniqueIndex));
    assert_eq!(validate_index(&[index("A_1")]), Err(InvalidPlate::InvalidIndex));
    // A duplicate is reported before the later name's characters are judged.
    assert_eq!(
        validate_index(&[index("A"), index("A"), index("-")]),
        Err(InvalidPlate::NonUniqueIndex)
    );
    assert_eq!(
        validate_acquisitions(&[acquisition(1, None, None), acquisition(2, Some(5), Some(5))]),
        Ok(())
    );
    assert_eq!(
        validate_acquisitions(&[acquisition(1, Some(9), Some(3))]),
        Err(InvalidPlate::AcquisitionTime)
    );
}

#[test]
fn plate_examples() {
    let p1 = Plate {
        acquisitions: Some(vec![
            Acquisition {
                id: 1,
                maximum_field_count: Some(2),
                name: Some("Meas_01(2012-07-31_10-41-12)".to_string()),
                description: None,
                start_time: Some(1343731272000),
                end_time: None,
            },
            Acquisition {
                id: 2,
                maximum_field_count: Some(2),
                name: Some("Meas_02(201207-31_11-56-41)".to_string()),
                description: None,
                start_time: Some(1343735801000),
                end_time: None,
            },
        ]),
        columns: vec![index("1"), index("2"), index("3")],
        field_count: Some(4),
        name: Some("test".to_string()),
        rows: vec![index("A"), index("B")],
        version: Some("0.4".to_string()),
        wells: vec![
            well("A/1", 0, 0),
            well("A/2", 0, 1),
            well("A/3", 0, 2),
            well("B/1", 1, 0),
            well("B/2", 1, 1),
            well("B/3", 1, 2),
        ],
    };
    assert_eq!(p1.validate(), Ok(()));

    let p2 = Plate {
        acquisitions: Some(vec![Acquisition {
            id: 1,
            maximum_field_count: Some(1),
            name: Some("single acquisition".to_string()),
            description: None,
            start_time: Some(1343731272000),
            end_time: None,
        }]),
        columns: (1..=12).map(|i| index(&i.to_string())).collect(),
        field_count: Some(1),
        name: Some("sparse test".to_string()),
        rows: ["A", "B", "C", "D", "E", "F", "G", "H"].iter().map(|n| index(n)).collect(),
        version: Some("0.4".to_string()),
        wells: vec![well("C/5", 2, 4), well("D/7", 3, 6)],
    };
    assert_eq!(p2.validate(), Ok(()));
}

#[test]
fn revalidating_a_valid_plate_changes_nothing() {
    let p = plate(
        vec![index("A"), index("B")],
        vec![index("1"), index("2")],
        vec![well("B/1", 1, 0)],
    );
    let before = format!("{:?}", p);
    assert_eq!(p.validate(), Ok(()));
    assert_eq!(format!("{:?}", p), before);
    assert_eq!(p.validate(), Ok(()));
    assert_eq!(format!("{:?}", p), before);
}
