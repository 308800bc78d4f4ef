use shared::export::{
    csv_data_lines, csv_from_escaped, import_from_csv_records, try_import_from_csv_records,
    CsvRecord, DataTransferError, EscapedFields,
};
use shared::text::{parse_u64, push_decimal, str_chars};
use shared::{ItemCollection, Priority};

fn raw_escapes(collection: &ItemCollection) -> Vec<EscapedFields> {
    collection
        .items
        .iter()
        .map(|i| EscapedFields { title: i.title.clone(), description: i.description.clone() })
        .collect()
}

fn record(line_index: usize, fields: &[&str]) -> CsvRecord {
    CsvRecord { line_index, fields: fields.iter().map(|f| f.to_string()).collect() }
}

#[test]
fn csv_export_layout_of_samples() {
    let collection = ItemCollection::default();
    let csv = csv_from_escaped(&collection, &raw_escapes(&collection));
    assert!(csv.starts_with("id,title,description,priority,completed"));
    let expected = "id,title,description,priority,completed\n\
1,Explore Cross-Platform State Persistence,State is automatically saved across browser sessions and desktop restarts.,High,false\n\
2,Test Theme Toggle,Switch between dark and warm light modes with high contrast readability.,Medium,false\n\
3,Verify Offline PWA Capabilities,Service workers cache static assets for offline usage on mobile and web.,Low,false\n";
    assert_eq!(csv, expected);
}

#[test]
fn csv_export_uses_the_escaped_columns_and_completion() {
    let mut collection = ItemCollection::default();
    collection.reset();
    collection.add("a,b", "say \"hi\"", Priority::High);
    collection.toggle(1);
    let escaped = vec![EscapedFields {
        title: "\"a,b\"".to_string(),
        description: "\"say \"\"hi\"\"\"".to_string(),
    }];
    let csv = csv_from_escaped(&collection, &escaped);
    assert_eq!(
        csv,
        "id,title,description,priority,completed\n1,\"a,b\",\"say \"\"hi\"\"\",High,true\n"
    );
}

#[test]
fn csv_export_of_empty_collection_is_the_header() {
    let mut collection = ItemCollection::default();
    collection.reset();
    let csv = csv_from_escaped(&collection, &Vec::new());
    assert_eq!(csv, "id,title,description,priority,completed\n");
}

#[test]
fn csv_data_lines_skip_header_and_blank_lines() {
    let lines = csv_data_lines("ID,Title\n   \n 5,a,b \r\nlast");
    assert_eq!(lines.len(), 2);
    assert_eq!(lines[0].line_index, 2);
    assert_eq!(lines[0].text, "5,a,b");
    assert_eq!(lines[1].line_index, 3);
    assert_eq!(lines[1].text, "last");
}

#[test]
fn csv_header_is_only_recognised_on_the_first_line() {
    let lines = csv_data_lines("1,x\nid,y\n");
    assert_eq!(lines.len(), 2);
    assert_eq!(lines[1].line_index, 1);
    assert_eq!(lines[1].text, "id,y");
}

#[test]
fn csv_data_lines_of_an_export_are_its_records() {
    let collection = ItemCollection::default();
    let csv = csv_from_escaped(&collection, &raw_escapes(&collection));
    let lines = csv_data_lines(&csv);
    assert_eq!(lines.len(), 3);
    assert_eq!(lines[0].line_index, 1);
    assert!(lines[0].text.starts_with("1,Explore"));
    assert!(lines[2].text.ends_with(",Low,false"));
}

#[test]
fn csv_records_import_items_and_next_id() {
    let records = vec![
        record(2, &["7", "Title", "Desc", "HIGH", "TRUE"]),
        record(3, &["x", "Second", "", "low", "1"]),
        record(4, &["+3", "Third", "d", "Medium", "no"]),
    ];
    let imported = import_from_csv_records(&records).expect("import");
    assert_eq!(imported.items.len(), 3);
    assert_eq!(imported.items[0].id, 7);
    assert_eq!(imported.items[0].priority, Priority::High);
    assert!(imported.items[0].completed);
    assert_eq!(imported.items[1].id, 8);
    assert_eq!(imported.items[1].title, "Second");
    assert!(imported.items[1].completed);
    assert_eq!(imported.items[2].id, 3);
    assert!(!imported.items[2].completed);
    assert_eq!(imported.next_id, 9);
}

#[test]
fn csv_records_read_back_an_export() {
    let collection = ItemCollection::default();
    let records = vec![
        record(1, &["1", "Explore Cross-Platform State Persistence", "State is automatically saved across browser sessions and desktop restarts.", "High", "false"]),
        record(2, &["2", "Test Theme Toggle", "Switch between dark and warm light modes with high contrast readability.", "Medium", "false"]),
        record(3, &["3", "Verify Offline PWA Capabilities", "Service workers cache static assets for offline usage on mobile and web.", "Low", "false"]),
    ];
    let imported = import_from_csv_records(&records).expect("Failed to import CSV");
    assert_eq!(imported.items.len(), collection.items.len());
    assert_eq!(imported.items[0].title, collection.items[0].title);
    assert_eq!(imported.items[0].priority, collection.items[0].priority);
    assert_eq!(imported, collection);
}

#[test]
fn csv_too_few_columns_names_the_line() {
    let records = vec![record(0, &["1", "a", "b", "low", "true"]), record(4, &["1", "a"])];
    match import_from_csv_records(&records) {
        Err(DataTransferError::CsvParse(m)) => assert_eq!(
            m,
            "Line 5: Expected 5 columns (id,title,description,priority,completed), found 2"
        ),
        other => panic!("unexpected: {:?}", other),
    }
}

#[test]
fn csv_invalid_priority_is_reported_lower_cased() {
    let records = vec![record(1, &["1", "a", "b", "URGENT", "true"])];
    match import_from_csv_records(&records) {
        Err(DataTransferError::InvalidPriority(p)) => assert_eq!(p, "urgent"),
        other => panic!("unexpected: {:?}", other),
    }
}

#[test]
fn csv_empty_import_is_an_empty_collection() {
    let imported = import_from_csv_records(&Vec::new()).expect("import");
    assert_eq!(imported.items.len(), 0);
    assert_eq!(imported.next_id, 1);
}

#[test]
fn csv_id_overflow_is_detected() {
    let at_max = vec![record(0, &["18446744073709551615", "a", "b", "low", "no"])];
    assert!(try_import_from_csv_records(&at_max).is_none());
    let then_missing = vec![
        record(0, &["18446744073709551615", "a", "b", "low", "no"]),
        record(1, &["bad", "a", "b", "low", "no"]),
    ];
    assert!(try_import_from_csv_records(&then_missing).is_none());
    let below = vec![record(0, &["18446744073709551614", "a", "b", "low", "no"])];
    let imported = try_import_from_csv_records(&below).expect("no overflow").expect("import");
    assert_eq!(imported.next_id, u64::MAX);
}

#[test]
fn csv_error_stops_before_overflow_is_reached() {
    let records = vec![
        record(0, &["1", "a", "b", "nope", "no"]),
        record(1, &["18446744073709551615", "a", "b", "low", "no"]),
    ];
    match try_import_from_csv_records(&records) {
        Some(Err(DataTransferError::InvalidPriority(p))) => assert_eq!(p, "nope"),
        other => panic!("unexpected: {:?}", other),
    }
}

#[test]
fn parse_u64_follows_std() {
    for s in ["0", "42", "+7", "18446744073709551615", "", "+", "-1", "1a", "18446744073709551616", " 1"] {
        assert_eq!(parse_u64(&str_chars(s)), s.parse::<u64>().ok(), "input {:?}", s);
    }
}

#[test]
fn decimal_printing() {
    let mut s = String::from("n=");
    push_decimal(&mut s, 0);
    push_decimal(&mut s, 1234567890);
    assert_eq!(s, "n=01234567890");
}

#[test]
fn csv_data_lines_agree_with_std_lines_and_trim() {
    let inputs = [
        "",
        "\n",
        "id,a\n1,b\n",
        "Id,Title\r\n2,c\r\n\r\n3,d",
        "  \u{a0}x,y\u{2003}\nlast\r",
        "no header\n\n  \t\nmore\n",
        "iD,\nid,\n",
    ];
    for input in inputs {
        let expected: Vec<(usize, String)> = input
            .lines()
            .enumerate()
            .filter_map(|(i, line)| {
                let t = line.trim();
                if t.is_empty() || (i == 0 && t.to_lowercase().starts_with("id,")) {
                    None
                } else {
                    Some((i, t.to_string()))
                }
            })
            .collect();
        let got: Vec<(usize, String)> =
            csv_data_lines(input).into_iter().map(|l| (l.line_index, l.text)).collect();
        assert_eq!(got, expected, "input {:?}", input);
    }
}

/// The sample texts hold no comma, quote or line break, so the CSV field codec leaves them
/// unescaped and splits their lines at the commas.
#[test]
fn test_csv_roundtrip() {
    let collection = ItemCollection::default();
    let csv = csv_from_escaped(&collection, &raw_escapes(&collection));
    assert!(csv.starts_with("id,title,description,priority,completed"));

    let records: Vec<CsvRecord> = csv_data_lines(&csv)
        .into_iter()
        .map(|l| CsvRecord {
            line_index: l.line_index,
            fields: l.text.split(',').map(|f| f.to_string()).collect(),
        })
        .collect();
    let imported = import_from_csv_records(&records).expect("Failed to import CSV");
    assert_eq!(imported.items.len(), collection.items.len());
    assert_eq!(imported.items[0].title, collection.items[0].title);
    assert_eq!(imported.items[0].priority, collection.items[0].priority);
}

#[test]
fn lowercasing_facts_hold() {
    assert!(shared::export::confirm_ascii_lowercasing());
}
