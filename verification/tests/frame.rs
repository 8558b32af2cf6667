use tfs::tfsdataframe::TfsDataFrame;

fn lines(text: &[&str]) -> Vec<String> {
    text.iter().map(|l| l.to_string()).collect()
}

#[test]
fn frame_has_the_rows_and_columns_of_the_table() {
    let df = TfsDataFrame::<f64>::open(&lines(&[
        "* NAME S BETX",
        "$ %s %le %le",
        "A 0.0 1.5",
        "B 1.0 2.5",
        "C 2.0 3.5",
    ]))
    .unwrap();
    let frame = df.df().unwrap();
    assert_eq!(frame.height(), 3);
    assert_eq!(frame.width(), 3);
    assert_eq!(frame.height(), df.len());
    assert_eq!(frame.width(), df.column_count());
    let names: Vec<String> =
        frame.get_column_names().iter().map(|n| n.to_string()).collect();
    assert_eq!(names, vec!["NAME", "S", "BETX"]);
    let betx = frame.column("BETX").unwrap();
    assert_eq!(betx.len(), 3);
    assert_eq!(betx.f64().unwrap().get(1), Some(2.5));
    let name = frame.column("NAME").unwrap();
    assert_eq!(name.str().unwrap().get(2), Some("C"));
}

#[test]
fn frame_of_a_table_without_rows() {
    let df = TfsDataFrame::<f64>::open(&lines(&["* A B", "$ %le %s"])).unwrap();
    let frame = df.df().unwrap();
    assert_eq!(frame.height(), 0);
    assert_eq!(frame.width(), 2);
}

#[test]
fn frame_of_whole_numbers() {
    let df = TfsDataFrame::<i64>::open(&lines(&["* N", "$ %le", "7", "", "-9"])).unwrap();
    let frame = df.df().unwrap();
    assert_eq!(frame.height(), 2);
    assert_eq!(frame.column("N").unwrap().i64().unwrap().get(1), Some(-9));
}

#[test]
fn series_is_the_column_of_the_frame() {
    let df = TfsDataFrame::<f64>::open(&lines(&[
        "* NAME S BETX",
        "$ %s %le %le",
        "A 0.0 1.5",
        "B 1.0 2.5",
        "C 2.0 3.5",
    ]))
    .unwrap();
    let betx = df.series("BETX").unwrap();
    assert_eq!(betx.name().as_str(), "BETX");
    assert_eq!(betx.len(), df.len());
    assert_eq!(betx.f64().unwrap().get(2), Some(3.5));
    let name = df.series("NAME").unwrap();
    assert_eq!(name.name().as_str(), "NAME");
    assert_eq!(name.str().unwrap().get(0), Some("A"));
    assert_eq!(df.series("NOPE").err(), Some(tfs::TfsError::UnknownColumn));
}
