use lockdown_sim::calendar::{english_ordinal, march_2020_dow};
use lockdown_sim::environment::{get_environment_collider_and_teleporters, AreaAccess, EnvironmentCollider, Location};
use lockdown_sim::labels::{date_label, decimal_string, sanity_label};
use lockdown_sim::layout::lay_out_text;
use lockdown_sim::narrative::NarrativeCriterion;
use lockdown_sim::story::{hardcoded_covid_narrative, hardcoded_main_narrative};

#[test]
fn weekdays_of_march_2020() {
    assert_eq!(march_2020_dow(1), "Sunday");
    assert_eq!(march_2020_dow(2), "Monday");
    assert_eq!(march_2020_dow(7), "Saturday");
    assert_eq!(march_2020_dow(31), "Tuesday");
}

#[test]
fn ordinal_suffixes() {
    assert_eq!(english_ordinal(1), "st");
    assert_eq!(english_ordinal(2), "nd");
    assert_eq!(english_ordinal(3), "rd");
    assert_eq!(english_ordinal(4), "th");
    assert_eq!(english_ordinal(11), "th");
    assert_eq!(english_ordinal(12), "th");
    assert_eq!(english_ordinal(13), "th");
    assert_eq!(english_ordinal(21), "st");
    assert_eq!(english_ordinal(112), "th");
}

#[test]
fn layout_breaks_at_markers_and_width() {
    assert_eq!(lay_out_text(40, "Hello dearie|Just sent"), vec!["Hello dearie", "Just sent"]);
    assert_eq!(lay_out_text(10, "the quick brown fox"), vec!["the quick ", "brown fox"]);
    assert_eq!(lay_out_text(10, "a|"), vec!["a"]);
    assert!(lay_out_text(10, "").is_empty());
}

#[test]
fn area_access_starts_open() {
    let mut a = AreaAccess::new();
    assert!(a.is_open(Location::Home) && a.is_open(Location::Park) && a.is_open(Location::Shops));
    a.set_locked(Location::Park, true);
    assert!(!a.is_open(Location::Park));
    assert!(a.is_open(Location::Shops));
}

#[test]
fn room_layouts() {
    let (walls, exits) = get_environment_collider_and_teleporters(Location::Park);
    assert_eq!(walls.len(), 8);
    assert_eq!(walls[0], EnvironmentCollider::new(0, 0, 2, 20));
    assert_eq!(exits.len(), 2);
    assert_eq!(exits[1].1.destination, Location::Shops);
    assert_eq!((exits[1].1.arrival_x, exits[1].1.arrival_y), (2, 2));
    let (walls, exits) = get_environment_collider_and_teleporters(Location::Home);
    assert_eq!(walls.len(), 9);
    assert_eq!(exits[0].1.destination, Location::Park);
    assert_eq!(Location::Shops.index(), 2);
}

#[test]
fn built_in_stories() {
    let main = hardcoded_main_narrative();
    assert_eq!(main.len(), 6);
    assert_eq!(main[0].criterion, NarrativeCriterion::ElapsedRel(1500));
    assert_eq!(main[0].action.send_texts[0].sender, "Dictator DAN");
    assert_eq!(main[2].action.change_sanity, Some(9));
    assert_eq!(main[4].criterion, NarrativeCriterion::ClearedAll);
    assert_eq!(main[5].criterion, NarrativeCriterion::InEnvironment(Location::Park));
    let covid = hardcoded_covid_narrative();
    assert_eq!(covid.len(), 2);
    assert_eq!(covid[1].criterion, NarrativeCriterion::ElapsedRel(35000));
}

#[test]
fn sanity_indicator_labels() {
    assert_eq!(sanity_label(3), "+3");
    assert_eq!(sanity_label(-7), "-7");
    assert_eq!(sanity_label(0), "0");
    assert_eq!(sanity_label(120), "+120");
    assert_eq!(sanity_label(i32::MIN), "-2147483648");
}

#[test]
fn date_line() {
    assert_eq!(date_label(2), "It’s Monday, 2nd March 2020");
    assert_eq!(date_label(11), "It’s Wednesday, 11th March 2020");
    assert_eq!(decimal_string(0), "0");
    assert_eq!(decimal_string(u64::MAX), "18446744073709551615");
}
