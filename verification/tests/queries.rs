use tfs::{DataValue, DataVector, DataView, Indexer, TfsDataFrame, TfsError};

fn lines(text: &[&str]) -> Vec<String> {
    text.iter().map(|l| l.to_string()).collect()
}

fn table() -> TfsDataFrame<f64> {
    TfsDataFrame::open(&lines(&[
        "@ TITLE %s sample",
        "* NAME KIND BETX",
        "$ %s %s %le",
        "BPM1 H 10.0",
        "BPM2 V 20.0",
        "BPM3 H 30.0",
        "BPM2 H 40.0",
    ]))
    .unwrap()
}

#[test]
fn key_lookup_needs_an_index() {
    let df = table();
    assert_eq!(df.loc(Indexer::Key("BPM1"), "BETX").err(), Some(TfsError::IndexNotSet));
    assert_eq!(df.locd(Indexer::from("BPM1"), "BETX").err(), Some(TfsError::IndexNotSet));
    assert_eq!(df.row(&Indexer::Key("BPM1")).err(), Some(TfsError::IndexNotSet));
}

#[test]
fn unknown_key_and_unknown_column() {
    let mut df = table();
    assert_eq!(df.set_index("NAME"), Ok(()));
    assert_eq!(df.loc(Indexer::Key("BPM9"), "BETX").err(), Some(TfsError::UnknownKey));
    assert_eq!(df.loc(Indexer::Key("BPM1"), "NOPE").err(), Some(TfsError::UnknownColumn));
    assert_eq!(df.loc(Indexer::Key("BPM9"), "NOPE").err(), Some(TfsError::UnknownKey));
    assert_eq!(df.loc(Indexer::Index(0), "NOPE").err(), Some(TfsError::UnknownColumn));
}

#[test]
fn set_index_refuses_numbers_and_unknown_names() {
    let mut df = table();
    assert_eq!(df.set_index("BETX"), Err(TfsError::TypeMismatch));
    assert_eq!(df.set_index("NOPE"), Err(TfsError::UnknownColumn));
    assert_eq!(df.loc(Indexer::Key("BPM1"), "BETX").err(), Some(TfsError::IndexNotSet));
    df.set_index("NAME").unwrap();
    assert_eq!(df.set_index("BETX"), Err(TfsError::TypeMismatch));
    assert_eq!(*df.locd(Indexer::Key("BPM3"), "BETX").unwrap(), 30.0);
}

#[test]
fn last_of_two_equal_keys_wins() {
    let mut df = table();
    df.set_index("NAME").unwrap();
    assert_eq!(df.row(&Indexer::Key("BPM2")), Ok(3));
    assert_eq!(*df.locd(Indexer::Key("BPM2"), "BETX").unwrap(), 40.0);
    assert_eq!(df.locs(Indexer::Key("BPM2"), "NAME").unwrap(), "BPM2");
}

#[test]
fn a_new_index_replaces_the_old_one() {
    let mut df = table();
    df.set_index("NAME").unwrap();
    df.set_index("KIND").unwrap();
    assert_eq!(df.loc(Indexer::Key("BPM1"), "BETX").err(), Some(TfsError::UnknownKey));
    assert_eq!(*df.locd(Indexer::Key("V"), "BETX").unwrap(), 20.0);
    assert_eq!(*df.locd(Indexer::Key("H"), "BETX").unwrap(), 40.0);
}

#[test]
fn index_round_trip_without_repeated_keys() {
    let mut df = TfsDataFrame::<f64>::open(&lines(&[
        "* NAME BETX",
        "$ %s %le",
        "A 1.0",
        "B 2.0",
        "C 3.0",
    ]))
    .unwrap();
    df.set_index("NAME").unwrap();
    let names = df.column("NAME").unwrap().as_text().unwrap().clone();
    for (i, name) in names.iter().enumerate() {
        for column in ["NAME", "BETX"] {
            let by_key = df.loc(Indexer::from(name), column).unwrap();
            let by_position = df.loc(Indexer::from(i), column).unwrap();
            match (by_key, by_position) {
                (DataView::Text(a), DataView::Text(b)) => assert_eq!(a, b),
                (DataView::Real(a), DataView::Real(b)) => assert_eq!(a, b),
                _ => panic!("the two lookups differ in kind"),
            }
        }
    }
}

#[test]
fn set_index_twice_is_set_index_once() {
    let mut once = table();
    once.set_index("NAME").unwrap();
    let mut twice = table();
    assert_eq!(twice.set_index("NAME"), Ok(()));
    assert_eq!(twice.set_index("NAME"), Ok(()));
    for key in ["BPM1", "BPM2", "BPM3", "BPM4"] {
        assert_eq!(once.row(&Indexer::Key(key)), twice.row(&Indexer::Key(key)));
        assert_eq!(
            once.locd(Indexer::Key(key), "BETX").ok(),
            twice.locd(Indexer::Key(key), "BETX").ok()
        );
    }
}

#[test]
fn row_count_is_the_boundary() {
    let df = table();
    assert_eq!(df.len(), 4);
    for column in ["NAME", "KIND", "BETX"] {
        assert_eq!(df.loc(Indexer::Index(4), column).err(), Some(TfsError::IndexOutOfRange));
        assert!(df.loc(Indexer::Index(3), column).is_ok());
    }
    assert_eq!(df.column("BETX").unwrap().get(4).err(), Some(TfsError::IndexOutOfRange));
    assert!(df.column("BETX").unwrap().get(3).is_ok());
}

#[test]
fn cells_narrow_by_the_type_of_their_column() {
    let df = table();
    for i in 0..df.len() {
        let number = df.loc(Indexer::Index(i), "BETX").unwrap();
        assert!(number.as_real().is_ok());
        assert_eq!(number.as_text().err(), Some(TfsError::WrongVariant));
        let text = df.loc(Indexer::Index(i), "KIND").unwrap();
        assert!(text.as_text().is_ok());
        assert_eq!(text.as_real().err(), Some(TfsError::WrongVariant));
        assert_eq!(df.locs(Indexer::Index(i), "BETX").err(), Some(TfsError::WrongVariant));
        assert_eq!(df.locd(Indexer::Index(i), "KIND").err(), Some(TfsError::WrongVariant));
    }
}

#[test]
fn indexer_from_integers_and_strings() {
    let owned = String::from("KEY");
    assert!(matches!(Indexer::from(7usize), Indexer::Index(7)));
    assert!(matches!(Indexer::from(7u32), Indexer::Index(7)));
    assert!(matches!(Indexer::from(7i32), Indexer::Index(7)));
    assert!(matches!(Indexer::from("KEY"), Indexer::Key("KEY")));
    assert!(matches!(Indexer::from(&owned), Indexer::Key("KEY")));
}

#[test]
fn values_narrow_to_what_they_hold() {
    let text: DataValue<f64> = DataValue::Text("abc".to_string());
    let number: DataValue<f64> = DataValue::Real(2.5);
    assert_eq!(text.as_text().unwrap(), "abc");
    assert_eq!(text.as_real().err(), Some(TfsError::WrongVariant));
    assert_eq!(*number.as_real().unwrap(), 2.5);
    assert_eq!(number.as_text().err(), Some(TfsError::WrongVariant));
    assert!(matches!(number.view_of(), DataView::Real(x) if *x == 2.5));
    assert_eq!(text.into_text(), Ok("abc".to_string()));
    assert_eq!(number.into_real(), Ok(2.5));
    let other: DataValue<f64> = DataValue::Text("abc".to_string());
    assert_eq!(other.into_real(), Err(TfsError::WrongVariant));
}

#[test]
fn columns_add_and_subtract_cell_by_cell() {
    let a = DataVector::RealVector(vec![5, 7, 9]);
    let b = DataVector::RealVector(vec![1, 2, 3]);
    let short = DataVector::RealVector(vec![1]);
    let text: DataVector<i32> = DataVector::TextVector(vec!["x".to_string()]);
    assert_eq!(a.add(&b).unwrap().as_real().unwrap(), &vec![6, 9, 12]);
    assert_eq!(a.sub(&b).unwrap().as_real().unwrap(), &vec![4, 5, 6]);
    assert_eq!(a.add(&short).err(), Some(TfsError::LengthMismatch));
    assert_eq!(a.sub(&short).err(), Some(TfsError::LengthMismatch));
    assert_eq!(a.add(&text).err(), Some(TfsError::TypeMismatch));
    assert_eq!(text.add(&a).err(), Some(TfsError::TypeMismatch));
    assert_eq!(a.sub(&text).err(), Some(TfsError::TypeMismatch));
    assert_eq!(text.sub(&text).err(), Some(TfsError::TypeMismatch));
}
