use tfs::{TfsDataFrame, TfsError};

fn lines(text: &[&str]) -> Vec<String> {
    text.iter().map(|l| l.to_string()).collect()
}

fn five_rows() -> Vec<String> {
    lines(&[
        "@ NAME             %05s \"TWISS\"",
        "@ ENERGY           %le 6500.0",
        "* NAME     S        BETX",
        "$ %s       %le      %le",
        " \"IP1\"    0.0      0.55",
        " \"BPM.1\"  21.5     120.25",
        " \"BPM.2\"  45.0     88.5",
        " \"MQ.1\"   60.25    17.125",
        " \"IP5\"    13329.0  0.55",
    ])
}

#[test]
fn loading() {
    assert!(TfsDataFrame::<f32>::open(&lines(&[])).is_err());

    assert!(TfsDataFrame::<f32>::open(&five_rows()).is_ok());
}

#[test]
fn load_all_data() {
    assert_eq!(TfsDataFrame::<f32>::open(&five_rows()).unwrap().len(), 5);
}

#[test]
fn quotes_around_text_cells_are_taken_off() {
    let df = TfsDataFrame::<f64>::open(&five_rows()).unwrap();
    let names = df.column("NAME").unwrap().as_text().unwrap();
    assert_eq!(names, &vec!["IP1", "BPM.1", "BPM.2", "MQ.1", "IP5"]);
    assert_eq!(df.column("S").unwrap().as_real().unwrap(), &vec![0.0, 21.5, 45.0, 60.25, 13329.0]);
}

#[test]
fn properties_keep_their_kind() {
    let df = TfsDataFrame::<f64>::open(&five_rows()).unwrap();
    assert_eq!(df.property_count(), 2);
    assert_eq!(*df.propd("ENERGY").unwrap(), 6500.0);
    assert_eq!(df.props("NAME").unwrap(), "\"TWISS\"");
    assert_eq!(df.propd("NAME").err(), Some(TfsError::WrongVariant));
    assert_eq!(df.props("ENERGY").err(), Some(TfsError::WrongVariant));
    assert_eq!(df.propd("NOPE").err(), Some(TfsError::UnknownProperty));
    assert_eq!(df.props("NOPE").err(), Some(TfsError::UnknownProperty));
    assert_eq!(df.keys(), &vec!["NAME", "ENERGY"]);
}

#[test]
fn text_property_joins_its_tokens() {
    let df = TfsDataFrame::<f64>::open(&lines(&[
        "@ TITLE %s some long title",
        "@ TITLE %s the last one",
        "* A",
        "$ %le",
    ]))
    .unwrap();
    assert_eq!(df.props("TITLE").unwrap(), "thelastone");
    assert_eq!(df.keys(), &vec!["TITLE"]);
    assert_eq!(df.len(), 0);
}

#[test]
fn header_ends_with_the_first_names_and_types() {
    let df = TfsDataFrame::<f64>::open(&lines(&[
        "# a comment",
        "",
        "$ %s %le",
        "* NAME X",
        "@ 1.5 %s LATE",
    ]))
    .unwrap();
    assert_eq!(df.len(), 1);
    assert_eq!(df.property_count(), 0);
    assert_eq!(df.column("NAME").unwrap().as_text().unwrap(), &vec!["@"]);
    assert_eq!(df.column("X").unwrap().as_real().unwrap(), &vec![1.5]);
}

#[test]
fn names_without_a_type_are_no_columns() {
    let df =
        TfsDataFrame::<f64>::open(&lines(&["* A B C", "$ %le %s", "1 x skipped", "2 y"])).unwrap();
    assert_eq!(df.column_count(), 2);
    assert_eq!(df.names(), &vec!["A", "B"]);
    assert_eq!(df.column("C").err(), Some(TfsError::UnknownColumn));
    assert_eq!(df.column("A").unwrap().as_real().unwrap(), &vec![1.0, 2.0]);
    assert_eq!(df.column("B").unwrap().as_text().unwrap(), &vec!["x", "y"]);
}

#[test]
fn names_gather_until_a_type_is_seen() {
    let df = TfsDataFrame::<f64>::open(&lines(&["* A", "*", "* B", "$ %le %le", "1 2"])).unwrap();
    assert_eq!(df.names(), &vec!["A", "B"]);
    assert_eq!(df.len(), 1);
}

#[test]
fn short_rows_are_refused() {
    assert_eq!(
        TfsDataFrame::<f64>::open(&lines(&["* A B", "$ %le %le", "1 2", "3", "4", "5 6"])).err(),
        Some(TfsError::ShortRow { line: 3 })
    );
    assert_eq!(
        TfsDataFrame::<f64>::open(&lines(&["* A B", "$ %s %s", "x y", "z"])).err(),
        Some(TfsError::ShortRow { line: 3 })
    );
    assert_eq!(
        TfsDataFrame::<f64>::open(&lines(&["* A B C", "$ %le %le %le", "x 1"])).err(),
        Some(TfsError::ShortRow { line: 2 })
    );
    assert_eq!(
        TfsDataFrame::<f64>::open(&lines(&["* A B", "$ %le %le", "x 1", "2"])).err(),
        Some(TfsError::ParseError { line: 2, column: 0 })
    );
}

#[test]
fn blank_rows_add_nothing_and_long_rows_are_cut() {
    let df =
        TfsDataFrame::<f64>::open(&lines(&["* A B", "$ %le %le", "1 2", "", "  ", "4 5 6"])).unwrap();
    assert_eq!(df.len(), 2);
    assert_eq!(df.column("A").unwrap().as_real().unwrap(), &vec![1.0, 4.0]);
    assert_eq!(df.column("B").unwrap().as_real().unwrap(), &vec![2.0, 5.0]);
}

#[test]
fn row_count_is_the_number_of_data_lines() {
    let text = lines(&["@ X %le 1", "* A B", "$ %le %s", "1 a", "2 b", "3 c", "4 d"]);
    let df = TfsDataFrame::<f64>::open(&text).unwrap();
    assert_eq!(df.len(), text.len() - 3);
    for column in df.all_columns() {
        assert_eq!(column.len(), df.len());
    }
}

#[test]
fn two_columns_of_one_name_are_refused() {
    assert_eq!(
        TfsDataFrame::<f64>::open(&lines(&["* A B A", "$ %le %le %le", "1 2 3"])).err(),
        Some(TfsError::DuplicateColumn)
    );
    assert_eq!(
        TfsDataFrame::<f64>::open(&lines(&["* A A", "$ %le %le", "1"])).err(),
        Some(TfsError::DuplicateColumn)
    );
    assert!(TfsDataFrame::<f64>::open(&lines(&["* A B A", "$ %le %le", "1 2"])).is_ok());
}

#[test]
fn every_name_finds_its_own_column() {
    let df = TfsDataFrame::<f64>::open(&lines(&["* A B C", "$ %le %le %le", "1 2 3"])).unwrap();
    for (j, name) in df.names().iter().enumerate() {
        let found = df.column(name).unwrap();
        assert!(found == &df.all_columns()[j]);
        assert_eq!(found.as_real().unwrap(), &vec![(j + 1) as f64]);
    }
}

#[test]
fn malformed_header() {
    assert_eq!(
        TfsDataFrame::<f64>::open(&lines(&["@ A %le 1", "$ %le"])).err(),
        Some(TfsError::MalformedHeader)
    );
    assert_eq!(
        TfsDataFrame::<f64>::open(&lines(&["*", "$ %le"])).err(),
        Some(TfsError::MalformedHeader)
    );
}

#[test]
fn parse_error_names_line_and_column() {
    assert_eq!(
        TfsDataFrame::<f64>::open(&lines(&["* A B", "$ %s %le", "x 1.0", "y oops"])).err(),
        Some(TfsError::ParseError { line: 3, column: 1 })
    );
    assert_eq!(
        TfsDataFrame::<f64>::open(&lines(&["@ E %le much", "* A", "$ %le"])).err(),
        Some(TfsError::ParseError { line: 0, column: 0 })
    );
    assert_eq!(
        TfsDataFrame::<f64>::open(&lines(&["", "@ E %le", "* A", "$ %le"])).err(),
        Some(TfsError::ParseError { line: 1, column: 0 })
    );
    assert_eq!(
        TfsDataFrame::<f64>::open(&lines(&["@ E", "* A", "$ %le"])).err(),
        Some(TfsError::ParseError { line: 0, column: 0 })
    );
    assert_eq!(
        TfsDataFrame::<f64>::open(&lines(&["* A", "$ %le", "@ LATE %le 1.0"])).err(),
        Some(TfsError::ParseError { line: 2, column: 0 })
    );
}

#[test]
fn numbers_are_read_as_their_type_reads_them() {
    let df = TfsDataFrame::<i32>::open(&lines(&["@ N %le -7", "* A", "$ %le", "12", "-3"])).unwrap();
    assert_eq!(*df.propd("N").unwrap(), -7);
    assert_eq!(df.column("A").unwrap().as_real().unwrap(), &vec![12, -3]);
    assert_eq!(
        TfsDataFrame::<i32>::open(&lines(&["* A", "$ %le", "1.5"])).err(),
        Some(TfsError::ParseError { line: 2, column: 0 })
    );
}

fn millimetres(token: &str) -> Option<i64> {
    token.strip_suffix("mm").and_then(|number| number.parse().ok())
}

#[test]
fn open_with_a_parser_of_ones_own() {
    let text = lines(&["@ GAP %le 3mm", "* NAME X", "$ %s %le", "a 12mm", "b -7mm"]);
    let df = TfsDataFrame::open_with(&text, &millimetres).unwrap();
    assert_eq!(*df.propd("GAP").unwrap(), 3);
    assert_eq!(df.column("X").unwrap().as_real().unwrap(), &vec![12, -7]);
    assert_eq!(
        TfsDataFrame::open_with(&lines(&["* X", "$ %le", "1mm", "2"]), &millimetres).err(),
        Some(TfsError::ParseError { line: 3, column: 0 })
    );
    assert_eq!(
        TfsDataFrame::open_with(&lines(&["@ GAP %le 3", "* X", "$ %le"]), &millimetres).err(),
        Some(TfsError::ParseError { line: 0, column: 0 })
    );
}

#[test]
fn each_number_is_read_from_its_own_token() {
    let length = |token: &str| Some(token.len());
    let text =
        lines(&["@ NAME %le four", "* A B C", "$ %le %s %le", "a \"bbb\" cc", "dddd e ffffff"]);
    let df = TfsDataFrame::open_with(&text, &length).unwrap();
    assert_eq!(*df.propd("NAME").unwrap(), 4);
    assert_eq!(df.column("A").unwrap().as_real().unwrap(), &vec![1, 4]);
    assert_eq!(df.column("B").unwrap().as_text().unwrap(), &vec!["bbb", "e"]);
    assert_eq!(df.column("C").unwrap().as_real().unwrap(), &vec![2, 6]);
}

#[test]
fn open_reads_numbers_as_open_with_the_parser_of_the_type() {
    let text = lines(&["@ Q1 %le 0.25", "$ %s %le", "* NAME BETX", "BPM1 10.0", "BPM2 20.0"]);
    let by_type = TfsDataFrame::<f64>::open(&text).unwrap();
    let by_hand = TfsDataFrame::open_with(&text, &|token: &str| token.parse::<f64>().ok()).unwrap();
    assert_eq!(*by_type.propd("Q1").unwrap(), 0.25);
    assert_eq!(by_type.column("BETX").unwrap().as_real().unwrap(), &vec![10.0, 20.0]);
    assert!(by_type.column("BETX").unwrap() == by_hand.column("BETX").unwrap());
    assert_eq!(by_type.propd("Q1").ok(), by_hand.propd("Q1").ok());
}
