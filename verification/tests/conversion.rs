use feedsheet::convert::feed_to_table;
use feedsheet::decode::decode;
use feedsheet::error::FeedError;
use feedsheet::events::{Attr, FeedEvent};
use feedsheet::extract::extract;
use feedsheet::project::{project, Column};

fn open(name: &str) -> FeedEvent {
    FeedEvent::Open { name: name.to_string(), attrs: vec![] }
}

fn open_param(field: &str) -> FeedEvent {
    FeedEvent::Open {
        name: "param".to_string(),
        attrs: vec![Attr { name: "name".to_string(), value: field.to_string() }],
    }
}

fn close(name: &str) -> FeedEvent {
    FeedEvent::Close { name: name.to_string() }
}

fn text(data: &str) -> FeedEvent {
    FeedEvent::Text { data: data.to_string() }
}

fn column(name: &str, keys: &[&str]) -> Column {
    Column { name: name.to_string(), keys: keys.iter().map(|k| k.to_string()).collect() }
}

fn one_offer(fields: &[(&str, &str)]) -> Vec<FeedEvent> {
    let mut evs = vec![open("offers"), open("offer")];
    for (name, value) in fields {
        evs.push(open(name));
        evs.push(text(value));
        evs.push(close(name));
    }
    evs.push(close("offer"));
    evs.push(close("offers"));
    evs
}

#[test]
fn record_count_matches_closed_offers() {
    let mut evs = vec![open("offers")];
    for _ in 0..2 {
        evs.push(open("offer"));
        evs.push(open("id"));
        evs.push(text("7"));
        evs.push(close("id"));
        evs.push(close("offer"));
    }
    // A trailing unclosed offer is dropped.
    evs.push(open("offer"));
    evs.push(open("id"));
    evs.push(text("8"));
    let records = extract(&evs).unwrap();
    assert_eq!(records.len(), 2);
}

#[test]
fn empty_stream_yields_no_records() {
    let records = extract(&vec![]).unwrap();
    assert_eq!(records.len(), 0);
}

#[test]
fn extraction_is_repeatable() {
    let evs = one_offer(&[("id", "100"), ("name", "Widget")]);
    let first = extract(&evs).unwrap();
    let second = extract(&evs).unwrap();
    assert_eq!(first, second);
}

#[test]
fn picture_merge_two_values() {
    let evs = one_offer(&[("picture", "a"), ("picture", "b")]);
    let records = extract(&evs).unwrap();
    assert_eq!(records[0].get(&"picture".to_string()), Some(&"a;;;b".to_string()));
}

#[test]
fn picture_merge_three_values() {
    let evs = one_offer(&[("picture", "a"), ("picture", "b"), ("picture", "c")]);
    let records = extract(&evs).unwrap();
    assert_eq!(records[0].get(&"picture".to_string()), Some(&"a;;;b;;;c".to_string()));
}

#[test]
fn field_names_fold_to_lowercase() {
    let evs = one_offer(&[("Name", "Widget")]);
    let records = extract(&evs).unwrap();
    assert_eq!(records[0].get(&"name".to_string()), Some(&"Widget".to_string()));
    assert_eq!(records[0].get(&"Name".to_string()), None);
}

#[test]
fn column_keys_match_case_insensitively() {
    let evs = one_offer(&[("NAME", "Widget")]);
    let records = extract(&evs).unwrap();
    let cols = vec![column("Title", &["Name"])];
    let table = project(&records, &cols);
    assert_eq!(table[2], vec!["Widget".to_string()]);
}

#[test]
fn first_column_key_wins() {
    let evs = one_offer(&[("sku", "X1"), ("id", "Y2")]);
    let records = extract(&evs).unwrap();
    let cols = vec![column("Code", &["sku", "id"])];
    let table = project(&records, &cols);
    assert_eq!(table[2], vec!["X1".to_string()]);
}

#[test]
fn absent_keys_default_to_empty_cell() {
    let evs = one_offer(&[("id", "100")]);
    let records = extract(&evs).unwrap();
    let cols = vec![column("ID", &["id"]), column("Vendor", &["vendor", "maker"])];
    let table = project(&records, &cols);
    assert_eq!(table[2].len(), cols.len());
    assert_eq!(table[2], vec!["100".to_string(), "".to_string()]);
}

#[test]
fn param_fields_use_the_name_attribute() {
    let mut evs = vec![open("offers"), open("offer"), open_param("Color")];
    evs.push(text("red"));
    evs.push(close("param"));
    evs.push(close("offer"));
    evs.push(close("offers"));
    let records = extract(&evs).unwrap();
    assert_eq!(records[0].get(&"color".to_string()), Some(&"red".to_string()));
}

#[test]
fn param_without_name_attribute_is_fatal() {
    let evs = vec![open("offers"), open("offer"), open("param"), text("red"), close("offer")];
    assert_eq!(extract(&evs), Err(FeedError::MissingNameAttribute));
}

#[test]
fn broken_markup_keeps_completed_records() {
    let mut evs = vec![open("offers")];
    for i in 0..2 {
        evs.push(open("offer"));
        evs.push(open("id"));
        evs.push(text(&format!("{}", i)));
        evs.push(close("id"));
        evs.push(close("offer"));
    }
    evs.push(open("offer"));
    evs.push(FeedEvent::Broken);
    evs.push(open("id"));
    evs.push(text("lost"));
    let records = extract(&evs).unwrap();
    assert_eq!(records.len(), 2);
    assert_eq!(records[0].get(&"id".to_string()), Some(&"0".to_string()));
    assert_eq!(records[1].get(&"id".to_string()), Some(&"1".to_string()));
}

#[test]
fn trailing_text_lands_on_the_stale_field() {
    // Text between a child's close and the next open is attributed to the
    // field that was last open.
    let evs = vec![
        open("offers"),
        open("offer"),
        open("id"),
        text("1"),
        close("id"),
        text("trailing"),
        close("offer"),
        close("offers"),
    ];
    let records = extract(&evs).unwrap();
    assert_eq!(records[0].get(&"id".to_string()), Some(&"trailing".to_string()));
}

#[test]
fn end_to_end_table() {
    let doc = "<offers><offer><id>100</id><name>Widget</name>\
               <picture>http://a/1.jpg</picture><picture>http://a/2.jpg</picture>\
               </offer></offers>";
    let cols = vec![
        column("ID", &["id"]),
        column("Title", &["name", "title"]),
        column("Images", &["picture"]),
    ];
    let table = feed_to_table(doc.as_bytes(), &cols).unwrap();
    assert_eq!(table.len(), 3);
    assert_eq!(table[0], vec!["ID".to_string(), "Title".to_string(), "Images".to_string()]);
    assert_eq!(table[1], Vec::<String>::new());
    assert_eq!(
        table[2],
        vec![
            "100".to_string(),
            "Widget".to_string(),
            "http://a/1.jpg;;;http://a/2.jpg".to_string()
        ]
    );
}

#[test]
fn bom_is_transparent() {
    let doc = "<offers><offer><id>100</id></offer></offers>";
    let mut with_bom = vec![0xEFu8, 0xBBu8, 0xBFu8];
    with_bom.extend_from_slice(doc.as_bytes());
    let cols = vec![column("ID", &["id"])];
    let plain = feed_to_table(doc.as_bytes(), &cols).unwrap();
    let bom = feed_to_table(&with_bom, &cols).unwrap();
    assert_eq!(plain, bom);
}

#[test]
fn bom_decode_matches_plain_decode() {
    assert_eq!(decode(b"\xEF\xBB\xBFhello"), decode(b"hello"));
    assert_eq!(decode(b"\xEF\xBB\xBFhello"), Ok("hello".to_string()));
}

#[test]
fn invalid_utf8_falls_back_to_windows_1251() {
    // 0xC0 is not valid UTF-8 on its own; windows-1251 reads it as
    // U+0410, Cyrillic capital A.
    assert_eq!(decode(&[0xC0]), Ok("\u{410}".to_string()));
}

#[test]
fn broken_markup_end_to_end_keeps_partial_table() {
    let doc = "<offers><offer><id>1</id></offer><offer><id>2</id></offer><offer><id";
    let cols = vec![column("ID", &["id"])];
    let table = feed_to_table(doc.as_bytes(), &cols).unwrap();
    assert_eq!(table.len(), 4);
    assert_eq!(table[2], vec!["1".to_string()]);
    assert_eq!(table[3], vec!["2".to_string()]);
}
