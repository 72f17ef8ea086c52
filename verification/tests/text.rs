use sheet_match::cell::{cell_to_text, Cell, Number, Sheet};
use sheet_match::document::{field_to_text, strip_quotes, Field, FieldValue, Record};
use sheet_match::text::{
    bool_to_text, format_id_string, keep_last, signed_to_text, unsigned_to_text,
};

#[test]
fn normalize_keeps_last_eight_of_longer_text() {
    assert_eq!(format_id_string("  john12345 "), "OHN12345");
}

#[test]
fn normalize_of_short_text_is_trim_and_upper() {
    assert_eq!(format_id_string(" ab-12 "), "AB-12");
    assert_eq!(format_id_string("abcdefgh"), "ABCDEFGH");
    assert_eq!(format_id_string(""), "");
    assert_eq!(format_id_string("   "), "");
}

#[test]
fn normalize_of_normalized_short_text_changes_nothing() {
    for text in ["OHN12345", "AB-12", "X", "", "00012345"] {
        assert_eq!(format_id_string(text), text);
        assert_eq!(format_id_string(&format_id_string(text)), format_id_string(text));
    }
}

#[test]
fn normalize_counts_characters() {
    assert_eq!(format_id_string("ñandúñandú"), "NDÚÑANDÚ");
    assert_eq!(format_id_string("ééééa"), "ÉÉÉÉA");
}

#[test]
fn normalize_of_the_scenario_ids() {
    assert_eq!(format_id_string("AB-00012345"), "00012345");
    assert_eq!(format_id_string("99999999XYZ"), "99999XYZ");
}

#[test]
fn keep_last_cuts_from_the_front() {
    assert_eq!(keep_last("abcdef", 3), "def");
    assert_eq!(keep_last("abc", 3), "abc");
    assert_eq!(keep_last("ab", 3), "ab");
    assert_eq!(keep_last("abc", 0), "");
    assert_eq!(keep_last("", 8), "");
}

#[test]
fn integers_are_written_in_decimal() {
    assert_eq!(unsigned_to_text(0), "0");
    assert_eq!(unsigned_to_text(7), "7");
    assert_eq!(unsigned_to_text(10), "10");
    assert_eq!(unsigned_to_text(12345), "12345");
    assert_eq!(unsigned_to_text(u64::MAX), u64::MAX.to_string());
    assert_eq!(signed_to_text(0), "0");
    assert_eq!(signed_to_text(-1), "-1");
    assert_eq!(signed_to_text(-9050), "-9050");
    assert_eq!(signed_to_text(i64::MAX), i64::MAX.to_string());
    assert_eq!(signed_to_text(i64::MIN), i64::MIN.to_string());
}

#[test]
fn truth_values_are_written_in_words() {
    assert_eq!(bool_to_text(true), "true");
    assert_eq!(bool_to_text(false), "false");
}

#[test]
fn cells_read_as_text() {
    assert_eq!(cell_to_text(&Cell::Empty), "");
    assert_eq!(cell_to_text(&Cell::Int(-42)), "-42");
    assert_eq!(cell_to_text(&Cell::Text(" x ".to_string())), " x ");
    assert_eq!(cell_to_text(&Cell::Bool(true)), "true");
    assert_eq!(cell_to_text(&Cell::Timestamp("45000.5".to_string())), "45000.5");
    assert_eq!(cell_to_text(&Cell::Duration("PT1H".to_string())), "PT1H");
}

#[test]
fn whole_numbers_read_as_integers() {
    let whole = Cell::Float(Number { whole: Some(12345), text: "12345".to_string() });
    assert_eq!(cell_to_text(&whole), "12345");
    let large = Cell::Float(Number { whole: Some(10000000000000000), text: "1e16".to_string() });
    assert_eq!(cell_to_text(&large), "10000000000000000");
    let fraction = Cell::Float(Number { whole: None, text: "1.5".to_string() });
    assert_eq!(cell_to_text(&fraction), "1.5");
}

#[test]
fn sheet_reaches_as_far_as_its_rows() {
    let sheet = Sheet {
        rows: vec![vec![Cell::Int(1), Cell::Int(2)], vec![], vec![Cell::Text("x".to_string())]],
    };
    assert_eq!(sheet.row_count(), 3);
    assert_eq!(sheet.cell_at(0, 1), Some(&Cell::Int(2)));
    assert_eq!(sheet.cell_at(0, 2), None);
    assert_eq!(sheet.cell_at(1, 0), None);
    assert_eq!(sheet.cell_at(2, 0), Some(&Cell::Text("x".to_string())));
    assert_eq!(sheet.cell_at(3, 0), None);
}

#[test]
fn field_values_read_as_text() {
    assert_eq!(field_to_text(&FieldValue::Text("a \"b\"".to_string())), "a \"b\"");
    assert_eq!(field_to_text(&FieldValue::Int32(-7)), "-7");
    assert_eq!(field_to_text(&FieldValue::Int32(i32::MIN)), i32::MIN.to_string());
    assert_eq!(field_to_text(&FieldValue::Int64(1 << 40)), "1099511627776");
    assert_eq!(field_to_text(&FieldValue::Double("2.5".to_string())), "2.5");
    assert_eq!(
        field_to_text(&FieldValue::Identity("507f1f77bcf86cd799439011".to_string())),
        "507f1f77bcf86cd799439011"
    );
}

#[test]
fn structural_text_loses_its_quotes() {
    assert_eq!(field_to_text(&FieldValue::Other("[\"a\", \"b\"]".to_string())), "[a, b]");
    assert_eq!(
        field_to_text(&FieldValue::Timestamp("DateTime(\"2024-01-01\")".to_string())),
        "DateTime(2024-01-01)"
    );
    assert_eq!(strip_quotes("\"\"\""), "");
    assert_eq!(strip_quotes("no quotes"), "no quotes");
    assert_eq!(strip_quotes("é\"ü"), "éü");
}

#[test]
fn record_gives_the_first_field_of_a_name() {
    let record = Record {
        fields: vec![
            Field { name: "a".to_string(), value: FieldValue::Int32(1) },
            Field { name: "b".to_string(), value: FieldValue::Int32(2) },
            Field { name: "a".to_string(), value: FieldValue::Int32(3) },
        ],
    };
    assert_eq!(record.get(&"a".to_string()), Some(&FieldValue::Int32(1)));
    assert_eq!(record.get(&"b".to_string()), Some(&FieldValue::Int32(2)));
    assert_eq!(record.get(&"c".to_string()), None);
    assert_eq!(FieldValue::Int64(5).duplicate(), FieldValue::Int64(5));
    assert_eq!(
        FieldValue::Other("x".to_string()).duplicate(),
        FieldValue::Other("x".to_string())
    );
}
