use lockdown_sim::environment::Location;
use lockdown_sim::fields::{parse_i32, parse_millis, parse_usize, split_chars};
use lockdown_sim::narrative::{NarrativeCriterion, NarrativeEvent};
use lockdown_sim::pickup::Pickup;
use lockdown_sim::script::{
    csv_header, load_csv, non_empty, parse_script, str2location, str2spawnitem, RowFault, ScriptError,
};

const HEADER: [&str; 11] = [
    "Elapsed Time",
    "Cleared All Pickups?",
    "Location change?",
    "Sender",
    "Body (Polished)",
    "Body (Rough)",
    "Change Sanity?",
    "Spawn Item?",
    "Spawn NPC",
    "Unlock area?",
    "Lock area?",
];

fn row(cells: [&str; 11]) -> Vec<String> {
    cells.iter().map(|c| String::from(*c)).collect()
}

fn table(rows: Vec<[&str; 11]>) -> Vec<Vec<String>> {
    let mut t = vec![row(HEADER)];
    for r in rows {
        t.push(row(r));
    }
    t
}

fn parse(rows: Vec<[&str; 11]>) -> Result<Vec<NarrativeEvent>, ScriptError> {
    parse_script(&table(rows))
}

fn bad_row(rows: Vec<[&str; 11]>) -> RowFault {
    match parse(rows) {
        Err(ScriptError::BadRow { fault, .. }) => fault,
        Err(ScriptError::Unreadable) => panic!("unexpected unreadable"),
        Ok(_) => panic!("expected a bad row"),
    }
}

#[test]
fn area_and_time_row_splits_into_two_events() {
    let events = parse(vec![[
        "2.5", "", "Park", "Mum", "Polished", "Rough", "4", "", "", "", "",
    ]])
    .unwrap();
    assert_eq!(events.len(), 2);
    assert!(!events[0].starts_act);
    assert_eq!(events[0].criterion, NarrativeCriterion::InEnvironment(Location::Park));
    assert!(events[0].action.send_texts.is_empty());
    assert!(events[0].action.change_sanity.is_none());
    assert!(events[1].starts_act);
    assert_eq!(events[1].criterion, NarrativeCriterion::ElapsedRel(2500));
    assert_eq!(events[1].action.send_texts.len(), 1);
    assert_eq!(events[1].action.send_texts[0].sender, "Mum");
    assert_eq!(events[1].action.send_texts[0].body, "Polished");
    assert_eq!(events[1].action.change_sanity, Some(4));
}

#[test]
fn care_package_row_spawns_catalog_item() {
    let events = parse(vec![["1", "", "", "", "", "", "", "Care Package", "", "", ""]]).unwrap();
    assert_eq!(events.len(), 1);
    assert_eq!(events[0].criterion, NarrativeCriterion::ElapsedRel(1000));
    let items = &events[0].action.spawn_item;
    assert_eq!(items.len(), 1);
    assert_eq!(items[0].prototype, Pickup::CarePackage);
    assert_eq!(items[0].location, (5, 5));
    assert_eq!(items[0].narrative_actions.change_sanity, Some(20));
}

#[test]
fn exponent_times_load_like_decimals() {
    let events = parse(vec![["2.5e0", "", "Park", "", "", "", "", "Care Package", "", "", ""]]).unwrap();
    assert_eq!(events.len(), 2);
    assert_eq!(events[0].criterion, NarrativeCriterion::InEnvironment(Location::Park));
    assert_eq!(events[1].criterion, NarrativeCriterion::ElapsedRel(2500));
    assert_eq!(events[1].action.spawn_item[0].narrative_actions.change_sanity, Some(20));
    let events = parse(vec![["1e3", "", "", "", "", "", "", "", "", "", ""]]).unwrap();
    assert_eq!(events.len(), 1);
    assert!(events[0].starts_act);
    assert_eq!(events[0].criterion, NarrativeCriterion::ElapsedRel(1_000_000));
}

#[test]
fn unknown_area_fails_even_with_cleared_mark() {
    assert_eq!(bad_row(vec![["", "x", "Mars", "", "", "", "", "", "", "", ""]]), RowFault::UnknownArea);
    let events = parse(vec![["", "x", "Shops", "", "", "", "", "", "", "", ""]]).unwrap();
    assert_eq!(events[0].criterion, NarrativeCriterion::ClearedAll);
}

#[test]
fn rows_without_criterion_are_skipped() {
    let events = parse(vec![
        ["", "", "", "[note]", "", "some text", "", "", "", "", ""],
        ["0.25", "", "", "", "", "", "", "", "", "", ""],
    ])
    .unwrap();
    assert_eq!(events.len(), 1);
    assert_eq!(events[0].criterion, NarrativeCriterion::ElapsedRel(250));
}

#[test]
fn criterion_without_time_carries_the_bundle() {
    let events = parse(vec![["", "yes", "Home", "Friend", "", "Come over", "-2", "", "", "", ""]]).unwrap();
    assert_eq!(events.len(), 1);
    assert!(events[0].starts_act);
    assert_eq!(events[0].criterion, NarrativeCriterion::ClearedAll);
    assert_eq!(events[0].action.send_texts[0].body, "Come over");
    assert_eq!(events[0].action.change_sanity, Some(-2));
}

#[test]
fn annotation_sender_and_missing_body_send_nothing() {
    let events = parse(vec![
        ["1", "", "", "[stage direction]", "Text", "", "", "", "", "", ""],
        ["1", "", "", "Mum", "", "", "", "", "", "", ""],
    ])
    .unwrap();
    assert_eq!(events.len(), 2);
    assert!(events[0].action.send_texts.is_empty());
    assert!(events[1].action.send_texts.is_empty());
}

#[test]
fn characters_and_area_lists_are_read() {
    let events = parse(vec![["3", "", "", "", "", "", "", "", "NPC;10;12", "Park;Shops", "Home"]]).unwrap();
    let a = &events[0].action;
    assert_eq!(a.spawn_character, vec![(10, 12)]);
    assert_eq!(a.area_access_change.len(), 3);
    assert_eq!(a.area_access_change[0].area, Location::Park);
    assert!(!a.area_access_change[0].newly_locked);
    assert_eq!(a.area_access_change[1].area, Location::Shops);
    assert!(!a.area_access_change[1].newly_locked);
    assert_eq!(a.area_access_change[2].area, Location::Home);
    assert!(a.area_access_change[2].newly_locked);
}

#[test]
fn each_row_fault_is_reported() {
    assert_eq!(bad_row(vec![["1.5s", "", "", "", "", "", "", "", "", "", ""]]), RowFault::BadTime);
    assert_eq!(bad_row(vec![["1.2.3", "", "", "", "", "", "", "", "", "", ""]]), RowFault::BadTime);
    assert_eq!(bad_row(vec![["-1", "", "", "", "", "", "", "", "", "", ""]]), RowFault::BadTime);
    assert_eq!(bad_row(vec![[".", "", "", "", "", "", "", "", "", "", ""]]), RowFault::BadTime);
    assert_eq!(bad_row(vec![["1", "", "", "", "", "", "lots", "", "", "", ""]]), RowFault::BadSanity);
    assert_eq!(bad_row(vec![["1", "", "", "", "", "", "", "", "NPC;1", "", ""]]), RowFault::BadCoordinates);
    assert_eq!(bad_row(vec![["1", "", "", "", "", "", "", "", "NPC;1;y", "", ""]]), RowFault::BadCoordinates);
    assert_eq!(bad_row(vec![["1", "", "Moon", "", "", "", "", "", "", "", ""]]), RowFault::UnknownArea);
    assert_eq!(bad_row(vec![["1", "", "", "", "", "", "", "", "", "Home;Mars", ""]]), RowFault::UnknownArea);
    assert_eq!(bad_row(vec![["1", "", "", "", "", "", "", "Car", "", "", ""]]), RowFault::UnknownItem);
    assert_eq!(bad_row(vec![["1", "", "", "", "", "", "", "", "Dog;1;2", "", ""]]), RowFault::UnknownCharacter);
}

#[test]
fn first_bad_row_is_named() {
    let r = parse(vec![
        ["1", "", "", "", "", "", "", "", "", "", ""],
        ["1", "", "", "", "", "", "", "", "", "", "Nowhere"],
        ["x", "", "", "", "", "", "", "", "", "", ""],
    ]);
    match r {
        Err(ScriptError::BadRow { row, fault }) => {
            assert_eq!(row, 1);
            assert_eq!(fault, RowFault::UnknownArea);
        },
        _ => panic!("expected a bad row"),
    }
}

#[test]
fn missing_columns_read_as_empty() {
    let t = vec![
        vec![String::from("Sender"), String::from("Elapsed Time"), String::from("Body (Rough)")],
        vec![String::from("Mum"), String::from("2"), String::from("Hello")],
    ];
    let events = parse_script(&t).unwrap();
    assert_eq!(events.len(), 1);
    assert_eq!(events[0].criterion, NarrativeCriterion::ElapsedRel(2000));
    assert_eq!(events[0].action.send_texts[0].body, "Hello");
    let h = csv_header(&t[0]);
    assert_eq!(h.sender, Some(0));
    assert_eq!(h.elapsed_time, Some(1));
    assert_eq!(h.spawn_item, None);
}

#[test]
fn empty_table_has_no_events() {
    assert!(parse_script(&Vec::new()).unwrap().is_empty());
    assert!(parse(Vec::new()).unwrap().is_empty());
}

#[test]
fn load_from_csv_bytes() {
    let source = b"Elapsed Time,Sender,Body (Rough),Change Sanity?\n1.5,Mum,\"Hi, love\",+3\n,,,\n";
    let events = load_csv(source).unwrap();
    assert_eq!(events.len(), 1);
    assert_eq!(events[0].criterion, NarrativeCriterion::ElapsedRel(1500));
    assert_eq!(events[0].action.send_texts[0].body, "Hi, love");
    assert_eq!(events[0].action.change_sanity, Some(3));
}

#[test]
fn ragged_csv_is_unreadable() {
    let source = b"Elapsed Time,Sender\n1,Mum,extra\n";
    assert!(matches!(load_csv(source), Err(ScriptError::Unreadable)));
}

#[test]
fn tokens_and_numbers() {
    assert_eq!(str2location("Shops"), Some(Location::Shops));
    assert_eq!(str2location("shops"), None);
    assert!(str2spawnitem("Video Game").is_some());
    assert!(str2spawnitem("Potplant").is_none());
    assert!(non_empty(" "));
    assert!(!non_empty(""));
    let chars = |s: &str| s.chars().collect::<Vec<char>>();
    assert_eq!(parse_millis(&chars("35")), Some(35000));
    assert_eq!(parse_millis(&chars("0.05")), Some(50));
    assert_eq!(parse_millis(&chars(".5")), Some(500));
    assert_eq!(parse_millis(&chars("1.")), Some(1000));
    assert_eq!(parse_millis(&chars("+1.5")), Some(1500));
    assert_eq!(parse_millis(&chars("1.23456")), Some(1234));
    assert_eq!(parse_millis(&chars("1e3")), Some(1_000_000));
    assert_eq!(parse_millis(&chars("1.5E-2")), Some(15));
    assert_eq!(parse_millis(&chars("25e-4")), Some(2));
    assert_eq!(parse_millis(&chars("1e-400")), Some(0));
    assert_eq!(parse_millis(&chars("0e999999999999999999999999999999999")), Some(0));
    assert_eq!(parse_millis(&chars("1e999999999999999999999999999999999")), None);
    assert_eq!(parse_millis(&chars("1e17")), None);
    assert_eq!(parse_millis(&chars("1.8e16")), Some(18_000_000_000_000_000_000));
    assert_eq!(parse_millis(&chars("1e")), None);
    assert_eq!(parse_millis(&chars("e3")), None);
    assert_eq!(parse_millis(&chars("1e3e4")), None);
    assert_eq!(parse_millis(&chars("inf")), None);
    assert_eq!(parse_millis(&chars("NaN")), None);
    assert_eq!(parse_millis(&chars("")), None);
    assert_eq!(parse_millis(&chars("18446744073709551.615")), Some(u64::MAX));
    assert_eq!(parse_millis(&chars("18446744073709552")), None);
    assert_eq!(parse_i32(&chars("-2147483648")), Some(i32::MIN));
    assert_eq!(parse_i32(&chars("2147483648")), None);
    assert_eq!(parse_i32(&chars("+7")), Some(7));
    assert_eq!(parse_i32(&chars("-")), None);
    assert_eq!(parse_usize(&chars("012")), Some(12));
    assert_eq!(split_chars(&chars("a;;b"), ';'), vec![chars("a"), vec![], chars("b")]);
}
