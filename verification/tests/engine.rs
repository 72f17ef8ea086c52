use sheet_match::cell::{Cell, Sheet};
use sheet_match::document::{Field, FieldValue, Record};
use sheet_match::engine::Engine;
use sheet_match::machine::{Action, Event};
use sheet_match::fill::{
    field_missing_marker, reference_missing_marker, render_value, resolve_reference,
};
use sheet_match::filter::Filter;
use sheet_match::plan::{compile, Plan, RunParams};
use sheet_match::progress::Pace;
use sheet_match::rules::{FillRule, FilterOperator, MatchRule, StaticFilter};

fn text(s: &str) -> Cell {
    Cell::Text(s.to_string())
}

fn record(fields: Vec<(&str, FieldValue)>) -> Record {
    Record {
        fields: fields
            .into_iter()
            .map(|(name, value)| Field { name: name.to_string(), value })
            .collect(),
    }
}

fn fill(field: &str, col: &str, format: bool, lookup: Option<(&str, &str)>) -> FillRule {
    FillRule {
        mongo_field: field.to_string(),
        col_letter: col.to_string(),
        row_num: 1,
        apply_format: format,
        is_lookup: lookup.is_some(),
        lookup_coll: lookup.map(|l| l.0.to_string()).unwrap_or_default(),
        lookup_target: lookup.map(|l| l.1.to_string()).unwrap_or_default(),
    }
}

fn plan_for(header_row: u32, fills: Vec<FillRule>) -> Plan {
    let mut params = RunParams::default();
    params.db_name = "db".to_string();
    params.collection_name = "cards".to_string();
    params.match_rules = vec![MatchRule {
        col_letter: "A".to_string(),
        row_num: header_row,
        mongo_field: "idCard".to_string(),
        use_last_8: true,
    }];
    params.fill_rules = fills;
    compile(&params).unwrap()
}

struct Trace {
    queries: Vec<(usize, Filter)>,
    lookups: Vec<(String, String, FieldValue)>,
    writes: Vec<(usize, usize, String)>,
    reports: Vec<String>,
    matches: usize,
    steps: usize,
}

fn drive(
    mut engine: Engine,
    mut find: impl FnMut(&Filter) -> Option<Record>,
    mut lookup: impl FnMut(&str, &FieldValue) -> Option<Record>,
) -> Trace {
    let mut trace = Trace {
        queries: vec![],
        lookups: vec![],
        writes: vec![],
        reports: vec![],
        matches: 0,
        steps: 0,
    };
    let mut event = Event::Resume;
    loop {
        let row = engine.row();
        let (next, action) = engine.step(event);
        engine = next;
        trace.steps += 1;
        assert!(trace.steps < 100_000);
        event = match action {
            Action::Find(filter) => {
                let found = find(&filter);
                trace.queries.push((row, filter));
                match found {
                    Some(document) => Event::Document(document),
                    None => Event::Nothing,
                }
            }
            Action::Lookup { collection, field, key } => {
                let found = lookup(&collection, &key);
                trace.lookups.push((collection, field, key));
                match found {
                    Some(document) => Event::Document(document),
                    None => Event::Nothing,
                }
            }
            Action::Write { row, column, text } => {
                trace.writes.push((row, column, text));
                Event::Resume
            }
            Action::Report(line) => {
                trace.reports.push(line);
                Event::Resume
            }
            Action::Advance => Event::Resume,
            Action::Finish { matches } => {
                assert!(engine.is_finished());
                assert_eq!(engine.matches(), matches);
                trace.matches = matches;
                return trace;
            }
        };
    }
}

fn pattern_of(filter: &Filter, field: &str) -> String {
    filter.get(&field.to_string()).unwrap().pattern.clone()
}

#[test]
fn scenario_runs_from_the_first_data_row_to_the_last() {
    let sheet = Sheet {
        rows: vec![
            vec![text("id"), text("owner")],
            vec![text("AB-00012345"), text("keep")],
            vec![text(""), text("keep")],
            vec![text("99999999XYZ"), text("keep")],
        ],
    };
    let plan = plan_for(1, vec![fill("owner", "B", false, None)]);
    let engine = Engine::new(plan, sheet, Pace::Steady);
    assert_eq!(engine.row(), 1);
    assert_eq!(engine.total_rows(), 4);
    assert_eq!(engine.matches(), 0);
    assert!(!engine.is_finished());
    let trace = drive(
        engine,
        |filter| {
            if pattern_of(filter, "idCard") == "00012345" {
                Some(record(vec![("owner", FieldValue::Text("Ann".to_string()))]))
            } else {
                None
            }
        },
        |_, _| None,
    );
    let asked: Vec<(usize, String)> =
        trace.queries.iter().map(|(row, f)| (*row, pattern_of(f, "idCard"))).collect();
    assert_eq!(asked, vec![(1, "00012345".to_string()), (3, "99999XYZ".to_string())]);
    assert!(trace.queries.iter().all(|(_, f)| f.len() == 1));
    assert_eq!(trace.writes, vec![(1, 1, "Ann".to_string())]);
    assert_eq!(trace.matches, 1);
    assert!(trace.lookups.is_empty());
    assert_eq!(
        trace.reports,
        vec![
            "Iniciando con 0 filtros globales...".to_string(),
            "Progreso: 3/4 | Match: 1".to_string(),
        ]
    );
}

#[test]
fn blank_rows_ask_nothing_and_write_nothing() {
    let sheet = Sheet {
        rows: vec![
            vec![text("id")],
            vec![text("   ")],
            vec![],
            vec![Cell::Empty],
            vec![text("\t\n")],
        ],
    };
    let plan = plan_for(1, vec![fill("owner", "B", false, None)]);
    let mut calls = 0;
    let trace = drive(
        Engine::new(plan, sheet, Pace::Brisk),
        |_| {
            calls += 1;
            Some(record(vec![("owner", FieldValue::Int32(1))]))
        },
        |_, _| None,
    );
    assert_eq!(calls, 0);
    assert!(trace.queries.is_empty());
    assert!(trace.writes.is_empty());
    assert!(trace.lookups.is_empty());
    assert_eq!(trace.matches, 0);
}

#[test]
fn rows_at_and_above_the_boundary_are_never_scanned() {
    let rows: Vec<Vec<Cell>> = (0..10).map(|i| vec![text(&format!("id{}", i))]).collect();
    let plan = plan_for(4, vec![fill("owner", "C", false, None)]);
    assert_eq!(plan.boundary, 3);
    let trace = drive(
        Engine::new(plan, Sheet { rows }, Pace::Brisk),
        |_| Some(record(vec![("owner", FieldValue::Int64(9))])),
        |_, _| None,
    );
    let asked: Vec<usize> = trace.queries.iter().map(|(row, _)| *row).collect();
    assert_eq!(asked, vec![4, 5, 6, 7, 8, 9]);
    let written: Vec<usize> = trace.writes.iter().map(|w| w.0).collect();
    assert_eq!(written, vec![4, 5, 6, 7, 8, 9]);
    assert!(trace.writes.iter().all(|w| w.1 == 2 && w.2 == "9"));
    assert_eq!(trace.matches, 6);
}

#[test]
fn boundary_beyond_the_sheet_leaves_nothing_to_scan() {
    let plan = plan_for(9, vec![]);
    let sheet = Sheet { rows: vec![vec![text("a")], vec![text("b")]] };
    let engine = Engine::new(plan, sheet, Pace::Brisk);
    assert_eq!(engine.row(), 2);
    let trace = drive(engine, |_| panic!("no query is due"), |_, _| None);
    assert!(trace.queries.is_empty());
    assert_eq!(trace.matches, 0);
    assert_eq!(trace.reports, vec!["Iniciando con 0 filtros globales...".to_string()]);
    let empty = drive(
        Engine::new(plan_for(0, vec![]), Sheet { rows: vec![] }, Pace::Brisk),
        |_| panic!("no query is due"),
        |_, _| None,
    );
    assert_eq!(empty.matches, 0);
}

#[test]
fn failed_query_counts_as_no_match_and_the_run_goes_on() {
    let rows: Vec<Vec<Cell>> = (0..6).map(|i| vec![text(&format!("k{}", i))]).collect();
    let plan = plan_for(1, vec![fill("v", "B", false, None)]);
    let mut n = 0;
    let trace = drive(
        Engine::new(plan, Sheet { rows }, Pace::Brisk),
        |_| {
            n += 1;
            if n % 2 == 0 {
                Some(record(vec![("v", FieldValue::Int32(n))]))
            } else {
                None
            }
        },
        |_, _| None,
    );
    assert_eq!(trace.queries.len(), 5);
    assert_eq!(trace.matches, 2);
    assert_eq!(trace.writes, vec![(2, 1, "2".to_string()), (4, 1, "4".to_string())]);
}

#[test]
fn fill_rules_are_applied_in_order() {
    let sheet = Sheet { rows: vec![vec![text("h")], vec![text("abc")]] };
    let plan = plan_for(
        1,
        vec![
            fill("name", "B", false, None),
            fill("absent", "C", false, None),
            fill("card", "D", true, None),
            fill("count", "AA", false, None),
            fill("tags", "E", false, None),
        ],
    );
    let trace = drive(
        Engine::new(plan, sheet, Pace::Brisk),
        |_| {
            Some(record(vec![
                ("count", FieldValue::Int64(-3)),
                ("card", FieldValue::Text(" v-1234567890 ".to_string())),
                ("name", FieldValue::Text("Ann".to_string())),
                ("tags", FieldValue::Other("[\"a\", \"b\"]".to_string())),
            ]))
        },
        |_, _| None,
    );
    assert_eq!(
        trace.writes,
        vec![
            (1, 1, "Ann".to_string()),
            (1, 3, "34567890".to_string()),
            (1, 26, "-3".to_string()),
            (1, 4, "[a, b]".to_string()),
        ]
    );
    assert_eq!(trace.matches, 1);
}

#[test]
fn lookup_writes_the_target_field_of_the_referenced_document() {
    let sheet = Sheet { rows: vec![vec![text("h")], vec![text("abc")]] };
    let plan = plan_for(
        1,
        vec![
            fill("owner", "B", false, Some(("people", "name"))),
            fill("owner", "C", true, Some(("people", "code"))),
        ],
    );
    let key = FieldValue::Identity("507f1f77bcf86cd799439011".to_string());
    let stored = key.clone();
    let trace = drive(
        Engine::new(plan, sheet, Pace::Brisk),
        move |_| Some(record(vec![("owner", stored.clone())])),
        |collection, key| {
            assert_eq!(collection, "people");
            assert_eq!(key, &FieldValue::Identity("507f1f77bcf86cd799439011".to_string()));
            Some(record(vec![
                ("name", FieldValue::Text("Ann".to_string())),
                ("code", FieldValue::Text("x-123456789".to_string())),
            ]))
        },
    );
    assert_eq!(
        trace.lookups,
        vec![
            ("people".to_string(), "owner".to_string(), key.clone()),
            ("people".to_string(), "owner".to_string(), key.clone()),
        ]
    );
    assert_eq!(
        trace.writes,
        vec![(1, 1, "Ann".to_string()), (1, 2, "23456789".to_string())]
    );
}

#[test]
fn lookup_tells_a_missing_reference_from_a_missing_field() {
    let sheet = Sheet {
        rows: vec![vec![text("h")], vec![text("gone")], vec![text("bare")], vec![text("none")]],
    };
    let plan = plan_for(1, vec![fill("owner", "B", true, Some(("people", "name")))]);
    let trace = drive(
        Engine::new(plan, sheet, Pace::Brisk),
        |filter| match pattern_of(filter, "idCard").as_str() {
            "GONE" => Some(record(vec![("owner", FieldValue::Int32(1))])),
            "BARE" => Some(record(vec![("owner", FieldValue::Int32(2))])),
            _ => Some(record(vec![("other", FieldValue::Int32(3))])),
        },
        |_, key| match key {
            FieldValue::Int32(2) => Some(record(vec![("age", FieldValue::Int32(30))])),
            _ => None,
        },
    );
    assert_eq!(trace.lookups.len(), 2);
    assert_eq!(
        trace.writes,
        vec![(1, 1, "NO ID".to_string()), (2, 1, "NO FIELD".to_string())]
    );
    assert_eq!(trace.matches, 3);
    let not_found = &trace.writes[0].2;
    let no_field = &trace.writes[1].2;
    assert_ne!(not_found, no_field);
    assert!(!not_found.is_empty());
    assert!(!no_field.is_empty());
}

#[test]
fn markers_and_values_are_resolved() {
    assert_eq!(reference_missing_marker(), "NO ID");
    assert_eq!(field_missing_marker(), "NO FIELD");
    let target = "name".to_string();
    assert_eq!(resolve_reference(true, &target, &None), "NO ID");
    assert_eq!(resolve_reference(false, &target, &None), "NO ID");
    let bare = Some(record(vec![("age", FieldValue::Int32(3))]));
    assert_eq!(resolve_reference(true, &target, &bare), "NO FIELD");
    let full = Some(record(vec![("name", FieldValue::Text(" ann-marie smith ".to_string()))]));
    assert_eq!(resolve_reference(false, &target, &full), " ann-marie smith ");
    assert_eq!(resolve_reference(true, &target, &full), "IE SMITH");
    assert_eq!(render_value(false, &FieldValue::Int64(12)), "12");
    assert_eq!(render_value(true, &FieldValue::Text("abcdefghij".to_string())), "CDEFGHIJ");
}

#[test]
fn progress_is_reported_at_the_pace_and_after_the_last_row() {
    let rows: Vec<Vec<Cell>> = (0..45).map(|i| vec![text(&format!("k{}", i))]).collect();
    let mut params = RunParams::default();
    params.db_name = "db".to_string();
    params.collection_name = "cards".to_string();
    params.match_rules = vec![MatchRule {
        col_letter: "A".to_string(),
        row_num: 1,
        mongo_field: "k".to_string(),
        use_last_8: false,
    }];
    params.static_filters = vec![
        StaticFilter {
            field: "a".to_string(),
            operator: FilterOperator::Equals,
            value: "1".to_string(),
        },
        StaticFilter {
            field: "b".to_string(),
            operator: FilterOperator::Contains,
            value: "2".to_string(),
        },
    ];
    let brisk = drive(
        Engine::new(compile(&params).unwrap(), Sheet { rows: rows.clone() }, Pace::Brisk),
        |_| Some(record(vec![])),
        |_, _| None,
    );
    assert_eq!(
        brisk.reports,
        vec![
            "Iniciando con 2 filtros globales...".to_string(),
            "Progreso: 20/45 | Match: 20".to_string(),
            "Progreso: 40/45 | Match: 40".to_string(),
            "Progreso: 44/45 | Match: 44".to_string(),
        ]
    );
    assert!(brisk.queries.iter().all(|(_, f)| f.len() == 3));
    let steady = drive(
        Engine::new(compile(&params).unwrap(), Sheet { rows }, Pace::Steady),
        |_| None,
        |_, _| None,
    );
    assert_eq!(
        steady.reports,
        vec![
            "Iniciando con 2 filtros globales...".to_string(),
            "Progreso: 44/45 | Match: 0".to_string(),
        ]
    );
}

#[test]
fn finished_machine_stays_finished() {
    let engine = Engine::new(plan_for(1, vec![]), Sheet { rows: vec![] }, Pace::Brisk);
    let (engine, first) = engine.step(Event::Resume);
    assert!(matches!(first, Action::Report(_)));
    let (engine, second) = engine.step(Event::Resume);
    assert!(matches!(second, Action::Finish { matches: 0 }));
    assert!(engine.is_finished());
    let (engine, third) = engine.step(Event::Nothing);
    assert!(matches!(third, Action::Finish { matches: 0 }));
    assert!(engine.is_finished());
    assert_eq!(engine.row(), 0);
    assert_eq!(engine.total_rows(), 0);
}

#[test]
fn run_ends_within_its_bound_of_steps() {
    let rows: Vec<Vec<Cell>> = (0..30).map(|i| vec![text(&format!("k{}", i))]).collect();
    let fills = vec![
        fill("owner", "B", false, Some(("people", "name"))),
        fill("name", "C", true, None),
        fill("absent", "D", false, None),
    ];
    let plan = plan_for(3, fills);
    let engine = Engine::new(plan, Sheet { rows }, Pace::Brisk);
    let bound = (engine.total_rows() - engine.row()) * (2 * 3 + 5) + 2;
    let trace = drive(
        engine,
        |_| {
            Some(record(vec![
                ("owner", FieldValue::Int32(1)),
                ("name", FieldValue::Text("n".to_string())),
            ]))
        },
        |_, _| Some(record(vec![("name", FieldValue::Text("Ann".to_string()))])),
    );
    assert_eq!(trace.matches, 27);
    assert_eq!(trace.writes.len(), 54);
    assert_eq!(trace.lookups.len(), 27);
    assert!(trace.steps <= bound + 1);
}

#[test]
fn run_asks_once_for_each_eligible_row() {
    let texts = ["head", "a", "", "b", "  ", "c", "\t", "d", "e", ""];
    let rows: Vec<Vec<Cell>> = texts.iter().map(|t| vec![text(t)]).collect();
    let eligible = texts.iter().skip(1).filter(|t| !t.trim().is_empty()).count();
    assert_eq!(eligible, 5);
    for answer in [false, true] {
        let plan = plan_for(1, vec![fill("v", "B", false, None)]);
        let mut calls = 0;
        let trace = drive(
            Engine::new(plan, Sheet { rows: rows.clone() }, Pace::Brisk),
            |_| {
                calls += 1;
                if answer {
                    Some(record(vec![("v", FieldValue::Int32(1))]))
                } else {
                    None
                }
            },
            |_, _| None,
        );
        assert_eq!(calls, eligible);
        let asked: Vec<usize> = trace.queries.iter().map(|(row, _)| *row).collect();
        assert_eq!(asked, vec![1, 3, 5, 7, 8]);
        assert_eq!(trace.matches, if answer { eligible } else { 0 });
    }
}
