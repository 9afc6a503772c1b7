use lockdown_sim::environment::Location;
use lockdown_sim::game::{Effect, GameState, MAX_SANITY, STARTING_SANITY};
use lockdown_sim::narrative::{action, NarrativeActions, NarrativeTextMessage};
use lockdown_sim::pickup::Pickup;

#[test]
fn zero_sanity_change_is_still_reported() {
    let mut g = GameState::setup(Vec::new(), Vec::new());
    let effects = g.do_narrative_actions(&NarrativeActions::new_with_sanity(Some(0)));
    assert_eq!(effects.len(), 1);
    assert!(matches!(effects[0], Effect::SanityChanged(0)));
    assert_eq!(g.sanity(), STARTING_SANITY);
}

#[test]
fn absent_sanity_change_is_not_reported() {
    let mut g = GameState::setup(Vec::new(), Vec::new());
    let effects = g.do_narrative_actions(&NarrativeActions::new_with_sanity(None));
    assert!(effects.is_empty());
    let effects = g.do_narrative_actions(&action().send_text("Mum", "Hi"));
    assert_eq!(effects.len(), 1);
    assert!(!matches!(effects[0], Effect::SanityChanged(_)));
}

#[test]
fn effects_come_in_bundle_order() {
    let mut g = GameState::setup(Vec::new(), Vec::new());
    let a = action()
        .send_text("A", "one")
        .send_text("B", "two")
        .change_sanity(-5)
        .spawn_pickup(Pickup::Towel, (3, 4), action().change_sanity(1))
        .spawn_character((7, 8))
        .change_access(Location::Park, true);
    let effects = g.do_narrative_actions(&a);
    assert_eq!(effects.len(), 5);
    assert!(matches!(effects[0], Effect::SanityChanged(-5)));
    match (&effects[1], &effects[2]) {
        (Effect::ShowMessage(x), Effect::ShowMessage(y)) => {
            assert_eq!((x.sender.as_str(), x.body.as_str()), ("A", "one"));
            assert_eq!((y.sender.as_str(), y.body.as_str()), ("B", "two"));
        },
        _ => panic!("expected two messages"),
    }
    match &effects[3] {
        Effect::SpawnItem(p) => {
            assert_eq!(p.prototype, Pickup::Towel);
            assert_eq!(p.location, (3, 4));
            assert_eq!(p.narrative_actions.change_sanity, Some(1));
        },
        _ => panic!("expected an item"),
    }
    assert!(matches!(effects[4], Effect::SpawnCharacter((7, 8))));
    assert_eq!(g.sanity(), STARTING_SANITY - 5);
    assert!(!g.areas().is_open(Location::Park));
    assert!(g.areas().is_open(Location::Home));
}

#[test]
fn sanity_is_clamped_and_applied_change_reported() {
    let mut g = GameState::setup(Vec::new(), Vec::new());
    assert_eq!(g.adjust_sanity(40), MAX_SANITY - STARTING_SANITY);
    assert_eq!(g.sanity(), MAX_SANITY);
    assert_eq!(g.adjust_sanity(-250), -MAX_SANITY);
    assert_eq!(g.sanity(), 0);
    assert!(g.is_game_over());
    assert_eq!(g.adjust_sanity(i32::MIN), 0);
    assert_eq!(g.adjust_sanity(i32::MAX), MAX_SANITY);
}

#[test]
fn sanity_drains_with_time() {
    let mut g = GameState::setup(Vec::new(), Vec::new());
    assert_eq!(g.update_sanity(5000), 0);
    assert_eq!(g.update_sanity(5001), -1);
    assert_eq!(g.sanity(), STARTING_SANITY - 1);
    assert_eq!(g.update_sanity(10000), 0);
    assert_eq!(g.update_sanity(10001), -1);
    assert_eq!(g.sanity(), STARTING_SANITY - 2);
    assert!(!g.is_game_over());
}

#[test]
fn calendar_day_advances_every_five_seconds() {
    let mut g = GameState::setup(Vec::new(), Vec::new());
    assert_eq!(g.date(), 1);
    assert!(!g.update_date(4999));
    assert!(g.update_date(5000));
    assert_eq!(g.date(), 2);
    assert!(!g.update_date(5001));
    assert!(g.update_date(23000));
    assert_eq!(g.date(), 5);
}

#[test]
fn area_changes_apply_in_order() {
    let mut g = GameState::setup(Vec::new(), Vec::new());
    let a = action()
        .change_access(Location::Shops, true)
        .change_access(Location::Home, true)
        .change_access(Location::Shops, false);
    g.do_narrative_actions(&a);
    assert!(g.areas().is_open(Location::Shops));
    assert!(!g.areas().is_open(Location::Home));
    assert!(g.areas().is_open(Location::Park));
}

#[test]
fn covid_switch_starts_side_track() {
    let mut g = GameState::setup(Vec::new(), lockdown_sim::story::hardcoded_covid_narrative());
    g.covid_narrative_switch(2500);
    assert!(g.narrative().interrupt_active());
    assert_eq!(g.narrative().last_event_time(), 2500);
    let facts = lockdown_sim::sequencer::WorldFacts { collectible_count: 0, current_area: Location::Home };
    assert!(g.run_narrative(&facts, 3500).is_empty());
    let effects = g.run_narrative(&facts, 3501);
    match &effects[0] {
        Effect::ShowMessage(m) => assert_eq!(m.sender, "Department of Health"),
        _ => panic!("expected the exposure notice"),
    }
}

#[test]
fn builders_fill_one_part_each() {
    let msg = NarrativeTextMessage { sender: String::from("Bowl of Petunias"), body: String::from("Oh no, not again") };
    let a = NarrativeActions::new_with_texts(vec![msg]);
    assert_eq!(a.send_texts.len(), 1);
    assert_eq!(a.send_texts[0].body, "Oh no, not again");
    assert!(a.change_sanity.is_none() && a.spawn_item.is_empty());
    let b = NarrativeActions::new_with_sanity(Some(-2));
    assert_eq!(b.change_sanity, Some(-2));
    assert!(b.send_texts.is_empty());
    let item = lockdown_sim::script::catalog_pickup(Pickup::Soap);
    let c = NarrativeActions::new_with_pickup(vec![item]);
    assert_eq!(c.spawn_item.len(), 1);
    assert_eq!(c.spawn_item[0].prototype, Pickup::Soap);
    let d = c.duplicate();
    assert_eq!(d.spawn_item[0].narrative_actions.change_sanity, Some(10));
}

#[test]
fn tick_runs_calendar_sanity_then_narrative() {
    let main = vec![lockdown_sim::narrative::NarrativeEvent {
        starts_act: true,
        criterion: lockdown_sim::narrative::NarrativeCriterion::ElapsedRel(6000),
        action: action().change_sanity(4),
    }];
    let mut g = GameState::setup(main, Vec::new());
    let facts = lockdown_sim::sequencer::WorldFacts { collectible_count: 0, current_area: Location::Home };
    let effects = g.tick(&facts, 6001);
    assert_eq!(effects.len(), 2);
    assert!(matches!(effects[0], Effect::SanityChanged(-1)));
    assert!(matches!(effects[1], Effect::SanityChanged(4)));
    assert_eq!(g.sanity(), STARTING_SANITY + 3);
    assert_eq!(g.date(), 2);
    assert_eq!(g.narrative().main_cursor(), 1);
}

#[test]
fn tick_after_game_over_changes_nothing() {
    let mut g = GameState::setup(lockdown_sim::story::hardcoded_main_narrative(), Vec::new());
    g.adjust_sanity(-STARTING_SANITY);
    let facts = lockdown_sim::sequencer::WorldFacts { collectible_count: 0, current_area: Location::Home };
    assert!(g.tick(&facts, 100_000).is_empty());
    assert_eq!(g.date(), 1);
    assert_eq!(g.narrative().main_cursor(), 0);
    assert_eq!(g.sanity(), 0);
}
