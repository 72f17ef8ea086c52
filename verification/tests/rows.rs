use sheet_match::cell::{Cell, Number, Sheet};
use sheet_match::filter::{Condition, Filter};
use sheet_match::query::{build_row_filter, match_value};
use sheet_match::rules::{
    build_static_filter, compile_match_rules, header_boundary, FilterOperator, MatchRule,
    Matcher, StaticFilter,
};

fn cell(s: &str) -> Cell {
    Cell::Text(s.to_string())
}

fn match_on(col: &str, row: u32, field: &str, normalize: bool) -> MatchRule {
    MatchRule {
        col_letter: col.to_string(),
        row_num: row,
        mongo_field: field.to_string(),
        use_last_8: normalize,
    }
}

fn contains(pattern: &str) -> Condition {
    Condition { pattern: pattern.to_string(), negated: false }
}

#[test]
fn match_value_is_trimmed_or_normalized() {
    assert_eq!(match_value(false, "  john12345 "), Some("john12345".to_string()));
    assert_eq!(match_value(true, "  john12345 "), Some("OHN12345".to_string()));
    assert_eq!(match_value(false, "x"), Some("x".to_string()));
}

#[test]
fn blank_text_gives_no_match_value() {
    assert_eq!(match_value(false, ""), None);
    assert_eq!(match_value(true, ""), None);
    assert_eq!(match_value(false, "  \t "), None);
    assert_eq!(match_value(true, " \n"), None);
}

#[test]
fn header_boundary_is_the_largest_row_less_one() {
    assert_eq!(header_boundary(&vec![]), 0);
    assert_eq!(header_boundary(&vec![match_on("A", 0, "x", false)]), 0);
    assert_eq!(header_boundary(&vec![match_on("A", 1, "x", false)]), 0);
    assert_eq!(header_boundary(&vec![match_on("A", 2, "x", false)]), 1);
    assert_eq!(
        header_boundary(&vec![match_on("A", 2, "x", false), match_on("B", 5, "y", false), match_on("C", 3, "z", false)]),
        4
    );
    assert_eq!(
        header_boundary(&vec![match_on("A", 0, "x", false), match_on("B", 0, "y", false)]),
        0
    );
    assert_eq!(header_boundary(&vec![match_on("A", u32::MAX, "x", false)]), (u32::MAX - 1) as usize);
}

#[test]
fn scenario_with_three_data_rows() {
    let sheet = Sheet {
        rows: vec![
            vec![cell("id"), cell("name")],
            vec![cell("AB-00012345"), cell("")],
            vec![cell(""), cell("")],
            vec![cell("99999999XYZ"), cell("")],
        ],
    };
    let rules = vec![match_on("A", 1, "idCard", true)];
    assert_eq!(header_boundary(&rules), 0);
    let matchers = compile_match_rules(&rules).unwrap();
    assert_eq!(matchers.len(), 1);
    assert_eq!(matchers[0].column, 0);
    assert_eq!(matchers[0].field, "idCard");
    assert!(matchers[0].normalize);
    let base = Filter::new();

    let second = build_row_filter(&sheet, 1, &matchers, &base).unwrap();
    assert_eq!(second.len(), 1);
    assert_eq!(second.get(&"idCard".to_string()), Some(&contains("00012345")));

    assert_eq!(build_row_filter(&sheet, 2, &matchers, &base), None);

    let fourth = build_row_filter(&sheet, 3, &matchers, &base).unwrap();
    assert_eq!(fourth.len(), 1);
    assert_eq!(fourth.get(&"idCard".to_string()), Some(&contains("99999XYZ")));
}

#[test]
fn row_without_a_usable_cell_has_no_filter() {
    let sheet = Sheet {
        rows: vec![
            vec![cell("  "), Cell::Empty, cell("\t")],
            vec![cell("x")],
            vec![],
        ],
    };
    let matchers = vec![
        Matcher { column: 0, field: "a".to_string(), normalize: false },
        Matcher { column: 1, field: "b".to_string(), normalize: true },
        Matcher { column: 2, field: "c".to_string(), normalize: false },
        Matcher { column: 7, field: "d".to_string(), normalize: false },
    ];
    let base = build_static_filter(&vec![StaticFilter {
        field: "status".to_string(),
        operator: FilterOperator::Equals,
        value: "Active".to_string(),
    }]);
    assert_eq!(build_row_filter(&sheet, 0, &matchers, &base), None);
    assert_eq!(build_row_filter(&sheet, 2, &matchers, &base), None);
    assert_eq!(build_row_filter(&sheet, 9, &matchers, &base), None);
    assert_eq!(build_row_filter(&sheet, 0, &vec![], &base), None);
    let only = build_row_filter(&sheet, 1, &matchers, &base).unwrap();
    assert_eq!(only.len(), 2);
    assert_eq!(only.get(&"a".to_string()), Some(&contains("x")));
}

#[test]
fn row_filter_adds_to_the_conditions_of_the_run() {
    let sheet = Sheet {
        rows: vec![vec![
            cell(" a.b "),
            Cell::Int(42),
            Cell::Float(Number { whole: Some(12345678901), text: "12345678901".to_string() }),
            Cell::Bool(true),
        ]],
    };
    let matchers = vec![
        Matcher { column: 0, field: "name".to_string(), normalize: false },
        Matcher { column: 1, field: "age".to_string(), normalize: false },
        Matcher { column: 2, field: "card".to_string(), normalize: true },
        Matcher { column: 3, field: "flag".to_string(), normalize: true },
    ];
    let base = build_static_filter(&vec![StaticFilter {
        field: "status".to_string(),
        operator: FilterOperator::NotEquals,
        value: "Closed".to_string(),
    }]);
    let filter = build_row_filter(&sheet, 0, &matchers, &base).unwrap();
    assert_eq!(filter.len(), 5);
    assert_eq!(
        filter.get(&"status".to_string()),
        Some(&Condition { pattern: "^Closed$".to_string(), negated: true })
    );
    assert_eq!(filter.get(&"name".to_string()), Some(&contains("a\\.b")));
    assert_eq!(filter.get(&"age".to_string()), Some(&contains("42")));
    assert_eq!(filter.get(&"card".to_string()), Some(&contains("45678901")));
    assert_eq!(filter.get(&"flag".to_string()), Some(&contains("TRUE")));
    assert_eq!(base.len(), 1);
}

#[test]
fn match_rule_replaces_the_condition_of_the_run_on_its_field() {
    let sheet = Sheet { rows: vec![vec![cell("x"), cell("y")]] };
    let matchers = vec![
        Matcher { column: 0, field: "status".to_string(), normalize: false },
        Matcher { column: 1, field: "status".to_string(), normalize: false },
    ];
    let base = build_static_filter(&vec![StaticFilter {
        field: "status".to_string(),
        operator: FilterOperator::Equals,
        value: "Active".to_string(),
    }]);
    let filter = build_row_filter(&sheet, 0, &matchers, &base).unwrap();
    assert_eq!(filter.len(), 1);
    assert_eq!(filter.get(&"status".to_string()), Some(&contains("y")));
}
