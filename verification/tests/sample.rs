use tfs::dataframe::{DataVector, Indexer};
use tfs::error::TfsError;
use tfs::tfsdataframe::TfsDataFrame;

fn sample() -> Vec<String> {
    vec![
        "@ TITLE %s sample".to_string(),
        "* NAME BETX".to_string(),
        "$ %s   %le".to_string(),
        "BPM1   10.0".to_string(),
        "BPM2   20.0".to_string(),
    ]
}

#[test]
fn sample_rows_columns_and_property() {
    let df = TfsDataFrame::<f64>::open(&sample()).unwrap();
    assert_eq!(df.len(), 2);
    assert_eq!(df.column_count(), 2);
    assert_eq!(df.column("BETX").unwrap().as_real().unwrap(), &vec![10.0, 20.0]);
    assert_eq!(df.props("TITLE").unwrap(), "sample");
}

#[test]
fn sample_key_and_position_agree() {
    let mut df = TfsDataFrame::<f64>::open(&sample()).unwrap();
    df.set_index("NAME").unwrap();
    assert_eq!(*df.locd(Indexer::Key("BPM2"), "BETX").unwrap(), 20.0);
    assert_eq!(
        df.locd(Indexer::Key("BPM2"), "BETX").unwrap(),
        df.locd(Indexer::Index(1), "BETX").unwrap()
    );
}

#[test]
fn sample_wrong_variant_and_unknown_column() {
    let df = TfsDataFrame::<f64>::open(&sample()).unwrap();
    assert_eq!(df.column("BETX").unwrap().as_text().err(), Some(TfsError::WrongVariant));
    assert_eq!(df.column("NOPE").err(), Some(TfsError::UnknownColumn));
}

#[test]
fn text_without_names_or_types_is_refused() {
    let lines = vec!["@ TITLE %s sample".to_string(), "* NAME BETX".to_string()];
    assert_eq!(TfsDataFrame::<f64>::open(&lines).err(), Some(TfsError::MalformedHeader));
    let none: Vec<String> = Vec::new();
    assert_eq!(TfsDataFrame::<f64>::open(&none).err(), Some(TfsError::MalformedHeader));
}

#[test]
fn real_columns_add_and_unequal_lengths_are_refused() {
    let a = DataVector::RealVector(vec![1.0, 2.0, 3.0]);
    let b = DataVector::RealVector(vec![10.0, 10.0, 10.0]);
    let c = a.add(&b).unwrap();
    assert_eq!(c.as_real().unwrap(), &vec![11.0, 12.0, 13.0]);
    let short = DataVector::RealVector(vec![1.0, 2.0]);
    assert_eq!(a.sub(&short).err(), Some(TfsError::LengthMismatch));
}
