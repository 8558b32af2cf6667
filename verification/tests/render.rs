use tfs::render::{entry, list, preview_of, quote, summary_of};
use tfs::{DataValue, DataVector, DataView, Indexer, TfsDataFrame};

#[test]
fn cells_as_text() {
    let text: DataValue<f64> = DataValue::Text("abc".to_string());
    let number: DataValue<f64> = DataValue::Real(2.5);
    assert_eq!(text.to_string(), "'abc'");
    assert_eq!(number.to_string(), "2.5");
    assert_eq!(text.view_of().to_string(), "'abc'");
    assert_eq!(number.view_of().to_string(), "2.5");
    let held = String::new();
    let empty: DataView<f64> = DataView::Text(&held);
    assert_eq!(empty.to_string(), "''");
    assert_eq!(quote("a'b"), "'a'b'");
}

#[test]
fn column_preview_shows_at_most_five_cells() {
    let short = DataVector::RealVector(vec![1.0, 2.5]);
    assert_eq!(short.debug_string(), "RealVector[2] { 1.0, 2.5, }");
    let long = DataVector::RealVector(vec![1, 2, 3, 4, 5, 6, 7]);
    assert_eq!(long.debug_string(), "RealVector[7] { 1, 2, 3, 4, 5, }");
    let five = DataVector::RealVector(vec![1, 2, 3, 4, 5]);
    assert_eq!(five.debug_string(), "RealVector[5] { 1, 2, 3, 4, 5, }");
    let none: DataVector<f64> = DataVector::RealVector(vec![]);
    assert_eq!(none.debug_string(), "RealVector[0] { }");
    let text: DataVector<f64> = DataVector::TextVector(vec!["a".to_string(), "b c".to_string()]);
    assert_eq!(text.debug_string(), "TextVector[2] { '\"a\"', '\"b c\"', }");
}

#[test]
fn previews_and_lists_from_their_parts() {
    let items = vec!["x".to_string(), "y".to_string()];
    assert_eq!(list(&items, "<", ">"), "<x><y>");
    assert_eq!(list(&Vec::new(), "<", ">"), "");
    assert_eq!(preview_of(true, "12", &items), "RealVector[12] { x, y, }");
    assert_eq!(preview_of(false, "2", &items), "TextVector[2] { 'x', 'y', }");
    assert_eq!(entry("NAME", "value"), "NAME: value");
    assert_eq!(
        summary_of("3", "1", &items, &items),
        "TfsDataFrame [3 rows] {\nHeader [1]: \n  x\n  y\nx\ny\n}"
    );
}

#[test]
fn table_summary() {
    let lines: Vec<String> = [
        "@ TITLE %s sample",
        "@ ENERGY %le 6.5",
        "* NAME BETX",
        "$ %s %le",
        "BPM1 10.0",
        "BPM2 20.0",
    ]
    .iter()
    .map(|l| l.to_string())
    .collect();
    let df = TfsDataFrame::<f64>::open(&lines).unwrap();
    assert_eq!(
        df.to_string(),
        "TfsDataFrame [2 rows] {\nHeader [2]: \n  TITLE: 'sample'\n  ENERGY: 6.5\n\
         NAME: TextVector[2] { '\"BPM1\"', '\"BPM2\"', }\nBETX: RealVector[2] { 10.0, 20.0, }\n}"
    );
    assert_eq!(df.loc(Indexer::Index(1), "BETX").unwrap().to_string(), "20");
}

#[test]
fn table_summary_is_bounded() {
    let mut lines: Vec<String> = Vec::new();
    for k in 0..8 {
        lines.push(format!("@ P{} %le {}", k, k));
    }
    lines.push("* A B C D E F G".to_string());
    lines.push("$ %le %le %le %le %le %le %le".to_string());
    for r in 0..9 {
        lines.push(format!("{} 1 2 3 4 5 6", r));
    }
    let text = TfsDataFrame::<i64>::open(&lines).unwrap().to_string();
    let shown: Vec<&str> = text.lines().collect();
    assert_eq!(shown.len(), 2 + 5 + 5 + 1);
    assert_eq!(shown[0], "TfsDataFrame [9 rows] {");
    assert_eq!(shown[1], "Header [8]: ");
    assert_eq!(shown[6], "  P4: 4");
    assert_eq!(shown[7], "A: RealVector[9] { 0, 1, 2, 3, 4, }");
    assert_eq!(shown[11], "E: RealVector[9] { 4, 4, 4, 4, 4, }");
    assert_eq!(shown[12], "}");
}

#[test]
fn preview_with_a_renderer_of_ones_own() {
    let numbers = DataVector::RealVector(vec![1, 2, 3, 4, 5, 6]);
    assert_eq!(
        numbers.preview_with(|x| format!("<{}>", x)),
        "RealVector[6] { <1>, <2>, <3>, <4>, <5>, }"
    );
    let texts: DataVector<i32> = DataVector::TextVector(vec!["a\"b".to_string(), "c\td".to_string()]);
    assert_eq!(
        texts.preview_with(|x| format!("<{}>", x)),
        "TextVector[2] { '\"a\\\"b\"', '\"c\\td\"', }"
    );
    assert_eq!(texts.debug_string(), format!("TextVector[2] {{ '{:?}', '{:?}', }}", "a\"b", "c\td"));
}
