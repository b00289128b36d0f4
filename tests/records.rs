use pr_sheet::codec::{decode, encode, Cell};
use pr_sheet::locate::{locate, range_address};
use pr_sheet::record::Record;
use pr_sheet::sheet_model::SheetModel;
use std::collections::HashMap;

fn text(s: &str) -> Cell {
    Cell::Text(s.to_string())
}

fn row(cells: &[&str]) -> Vec<Cell> {
    cells.iter().map(|c| text(c)).collect()
}

fn strings(v: &[&str]) -> Vec<String> {
    v.iter().map(|s| s.to_string()).collect()
}

fn as_map(r: &Record) -> HashMap<String, String> {
    let mut m = HashMap::new();
    for f in &r.fields {
        m.insert(f.label.clone(), f.value.clone());
    }
    m
}

#[test]
fn decode_nothing_fetched_is_empty() {
    assert!(decode(&None).is_empty());
}

#[test]
fn decode_empty_table_is_empty() {
    assert!(decode(&Some(vec![])).is_empty());
}

#[test]
fn decode_header_only_is_empty() {
    let table = Some(vec![row(&["Number", "Title"])]);
    assert!(decode(&table).is_empty());
}

#[test]
fn decode_drops_blank_label_column() {
    let table = Some(vec![row(&["h1", "h2", "", "h3"]), row(&["a", "b", "c", "d"])]);
    let recs = decode(&table);
    assert_eq!(recs.len(), 1);
    let mut expected = HashMap::new();
    expected.insert("h1".to_string(), "a".to_string());
    expected.insert("h2".to_string(), "b".to_string());
    expected.insert("h3".to_string(), "d".to_string());
    assert_eq!(as_map(&recs[0]), expected);
    assert_eq!(recs[0].get("h3"), "d");
}

#[test]
fn decode_short_row_and_other_cells_give_empty_text() {
    let table = Some(vec![
        vec![text("A"), Cell::Other, text("B"), text("C")],
        vec![Cell::Other, text("x"), text("y")],
    ]);
    let recs = decode(&table);
    assert_eq!(recs.len(), 1);
    assert_eq!(recs[0].fields.len(), 3);
    assert_eq!(recs[0].get("A"), "");
    assert_eq!(recs[0].get("B"), "y");
    assert_eq!(recs[0].get("C"), "");
}

#[test]
fn decode_keeps_row_order() {
    let table = Some(vec![row(&["Title"]), row(&["one"]), row(&["two"]), row(&["three"])]);
    let recs = decode(&table);
    let titles: Vec<String> = recs.iter().map(|r| r.get("Title")).collect();
    assert_eq!(titles, strings(&["one", "two", "three"]));
}

#[test]
fn record_later_label_wins() {
    let mut r = Record::new();
    r.insert("k".to_string(), "first".to_string());
    r.insert("k".to_string(), "second".to_string());
    assert_eq!(r.get("k"), "second");
    assert_eq!(r.get("missing"), "");
}

#[test]
fn encode_follows_order_and_fills_missing() {
    let mut r = Record::new();
    r.insert("b".to_string(), "2".to_string());
    r.insert("a".to_string(), "1".to_string());
    assert_eq!(encode(&r, &strings(&["a", "b", "c"])), strings(&["1", "2", ""]));
}

#[test]
fn range_address_formula() {
    assert_eq!(range_address(0), "A2:Z2");
    assert_eq!(range_address(7), "A9:Z9");
    assert_eq!(range_address(8), "A10:Z10");
    assert_eq!(range_address(123), "A125:Z125");
}

#[test]
fn locate_gives_each_match_its_row_address() {
    let table = Some(vec![
        row(&["Title"]),
        row(&["PR-1"]),
        row(&["Other"]),
        row(&["PR-3"]),
    ]);
    let recs = decode(&table);
    let found = locate(&recs, &strings(&["PR-3 fix", "PR-1"]));
    assert_eq!(found.len(), 2);
    assert_eq!(found[0].get("Title"), "PR-1");
    assert_eq!(found[0].get("range"), "A2:Z2");
    assert_eq!(found[1].get("Title"), "PR-3");
    assert_eq!(found[1].get("range"), "A4:Z4");
}

#[test]
fn locate_matches_requested_title_extending_stored_one() {
    let table = Some(vec![row(&["Title"]), row(&["PR-1 long title"])]);
    let recs = decode(&table);
    assert!(locate(&recs, &strings(&["PR-1"])).is_empty());
    assert_eq!(locate(&recs, &strings(&["PR-1 long title and more"])).len(), 1);
}

#[test]
fn locate_same_title_twice_is_same_as_once() {
    let table = Some(vec![row(&["Title"]), row(&["A"]), row(&["B"]), row(&["A"])]);
    let recs = decode(&table);
    let once = locate(&recs, &strings(&["A"]));
    let twice = locate(&recs, &strings(&["A", "A"]));
    assert_eq!(once.len(), 2);
    let once_maps: Vec<_> = once.iter().map(as_map).collect();
    let twice_maps: Vec<_> = twice.iter().map(as_map).collect();
    assert_eq!(once_maps, twice_maps);
}

#[test]
fn locate_ignores_empty_titles() {
    let table = Some(vec![row(&["Title"]), row(&[""]), row(&["A"])]);
    let recs = decode(&table);
    assert!(locate(&recs, &strings(&[""])).is_empty());
}

#[test]
fn serialized_values_decode_to_the_same_records() {
    let table = Some(vec![
        row(&["Number", "Title", "", "Note"]),
        row(&["1", "Say \"hi\"", "skip", "back\\slash"]),
        row(&["2", "line\nbreak"]),
    ]);
    let model = SheetModel::from_fetch(Some("Sheet1!A1:Z3".to_string()), &table);
    let json = model.to_json();
    let parsed: serde_json::Value = serde_json::from_str(&json).expect("valid json");
    assert_eq!(parsed["range"], serde_json::Value::String("Sheet1!A1:Z3".to_string()));
    let values = parsed["values"].as_array().expect("array");
    let decoded: Vec<HashMap<String, String>> = decode(&table).iter().map(as_map).collect();
    assert_eq!(values.len(), decoded.len());
    for (v, d) in values.iter().zip(decoded.iter()) {
        let obj = v.as_object().expect("object");
        let m: HashMap<String, String> = obj
            .iter()
            .map(|(k, x)| (k.clone(), x.as_str().expect("text").to_string()))
            .collect();
        assert_eq!(&m, d);
    }
}

#[test]
fn serialized_form_has_exact_shape() {
    let table = Some(vec![row(&["a"]), row(&["x\"y"])]);
    let model = SheetModel::from_fetch(None, &table);
    assert_eq!(model.to_json(), "{\"range\":\"\",\"values\":[{\"a\":\"x\\\"y\"}]}");
    let empty = SheetModel::from_fetch(Some("R".to_string()), &None);
    assert_eq!(empty.to_json(), "{\"range\":\"R\",\"values\":[]}");
}

#[test]
fn serialized_record_keeps_last_value_of_repeated_label() {
    let table = Some(vec![row(&["a", "b", "a"]), row(&["1", "2", "3"])]);
    let model = SheetModel::from_fetch(Some("S".to_string()), &table);
    assert_eq!(model.to_json(), "{\"range\":\"S\",\"values\":[{\"b\":\"2\",\"a\":\"3\"}]}");
}

#[test]
fn serialized_text_escapes_control_characters() {
    let table = Some(vec![row(&["k"]), row(&["t\tn\n\u{1}\\"])]);
    let model = SheetModel::from_fetch(None, &table);
    assert_eq!(
        model.to_json(),
        "{\"range\":\"\",\"values\":[{\"k\":\"t\\tn\\n\\u0001\\\\\"}]}"
    );
}
