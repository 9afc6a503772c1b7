use lockdown_sim::environment::Location;
use lockdown_sim::game::{Effect, GameState};
use lockdown_sim::narrative::{action, NarrativeCriterion, NarrativeEvent};
use lockdown_sim::sequencer::{Sequencer, Track, WorldFacts};

fn facts(collectibles: usize, area: Location) -> WorldFacts {
    WorldFacts { collectible_count: collectibles, current_area: area }
}

fn event(starts_act: bool, criterion: NarrativeCriterion) -> NarrativeEvent {
    NarrativeEvent { starts_act, criterion, action: action() }
}

fn cleared_track(n: usize, act_start: usize) -> Vec<NarrativeEvent> {
    (0..n).map(|i| event(i == act_start, NarrativeCriterion::ClearedAll)).collect()
}

#[test]
fn elapsed_boundary_is_exclusive() {
    let s = Sequencer::new(Vec::new(), Vec::new());
    let f = facts(3, Location::Home);
    let c = NarrativeCriterion::ElapsedRel(1500);
    assert!(!s.criterion_met(&c, &f, 1500));
    assert!(s.criterion_met(&c, &f, 1501));
    assert!(!s.criterion_met(&c, &f, 0));
}

#[test]
fn other_criteria_read_the_world() {
    let s = Sequencer::new(Vec::new(), Vec::new());
    assert!(s.criterion_met(&NarrativeCriterion::ClearedAll, &facts(0, Location::Home), 0));
    assert!(!s.criterion_met(&NarrativeCriterion::ClearedAll, &facts(1, Location::Home), 0));
    assert!(s.criterion_met(&NarrativeCriterion::InEnvironment(Location::Park), &facts(1, Location::Park), 0));
    assert!(!s.criterion_met(&NarrativeCriterion::InEnvironment(Location::Park), &facts(1, Location::Shops), 0));
}

#[test]
fn firing_sets_last_event_time_on_both_tracks() {
    let mut s = Sequencer::new(cleared_track(2, 0), cleared_track(1, 0));
    let f = facts(0, Location::Home);
    let fired = s.advance(&f, 700).unwrap();
    assert_eq!(fired.track, Track::Main);
    assert_eq!(s.last_event_time(), 700);
    s.enter_interrupt(900);
    assert_eq!(s.last_event_time(), 900);
    let fired = s.advance(&f, 1234).unwrap();
    assert_eq!(fired.track, Track::Interrupt);
    assert_eq!(s.last_event_time(), 1234);
}

#[test]
fn interrupt_preempts_main_in_the_same_tick() {
    let main = cleared_track(3, 0);
    let side = vec![event(true, NarrativeCriterion::ElapsedRel(1000))];
    let mut s = Sequencer::new(main, side);
    let f = facts(0, Location::Home);
    assert!(s.advance(&f, 10).is_some());
    s.enter_interrupt(100);
    // The main track's next event would fire, but the side track's first is evaluated instead.
    assert!(s.advance(&f, 200).is_none());
    assert_eq!(s.main_cursor(), 0);
    assert_eq!(s.interrupt_cursor(), 0);
    let fired = s.advance(&f, 1101).unwrap();
    assert_eq!((fired.track, fired.index), (Track::Interrupt, 0));
    assert_eq!(s.main_cursor(), 0);
}

#[test]
fn exhausted_interrupt_resumes_main_at_checkpoint_in_same_tick() {
    let mut s = Sequencer::new(cleared_track(3, 1), cleared_track(1, 0));
    let f = facts(0, Location::Home);
    s.advance(&f, 1);
    s.advance(&f, 2);
    assert_eq!(s.act_checkpoint(), 1);
    s.enter_interrupt(3);
    s.advance(&f, 4);
    assert_eq!(s.interrupt_cursor(), 1);
    assert!(s.interrupt_active());
    let fired = s.advance(&f, 5).unwrap();
    assert_eq!((fired.track, fired.index), (Track::Main, 1));
    assert!(!s.interrupt_active());
    assert_eq!(s.interrupt_cursor(), 0);
    assert_eq!(s.main_cursor(), 2);
}

#[test]
fn resume_without_firing_leaves_main_at_checkpoint() {
    let mut s = Sequencer::new(cleared_track(3, 1), Vec::new());
    let f = facts(0, Location::Home);
    s.advance(&f, 1);
    s.advance(&f, 2);
    s.enter_interrupt(3);
    assert!(s.advance(&facts(2, Location::Home), 4).is_none());
    assert!(!s.interrupt_active());
    assert_eq!(s.main_cursor(), 1);
}

#[test]
fn scenario_timed_message_then_sanity() {
    let main = vec![
        NarrativeEvent {
            starts_act: true,
            criterion: NarrativeCriterion::ElapsedRel(1500),
            action: action().send_text("Dictator DAN", "msg"),
        },
        NarrativeEvent { starts_act: true, criterion: NarrativeCriterion::ElapsedRel(1500), action: action().change_sanity(3) },
    ];
    let mut g = GameState::setup(main, Vec::new());
    let f = facts(0, Location::Home);
    assert!(g.run_narrative(&f, 0).is_empty());
    assert_eq!(g.narrative().main_cursor(), 0);
    let effects = g.run_narrative(&f, 1600);
    assert_eq!(effects.len(), 1);
    match &effects[0] {
        Effect::ShowMessage(m) => {
            assert_eq!(m.sender, "Dictator DAN");
            assert_eq!(m.body, "msg");
        },
        _ => panic!("expected a message"),
    }
    assert_eq!(g.narrative().main_cursor(), 1);
    assert_eq!(g.narrative().last_event_time(), 1600);
    let effects = g.run_narrative(&f, 3200);
    assert!(matches!(effects[0], Effect::SanityChanged(3)));
    assert_eq!(g.sanity(), 78);
    assert_eq!(g.narrative().main_cursor(), 2);
    assert!(g.narrative().main_exhausted());
    assert!(g.run_narrative(&f, 9000).is_empty());
}

#[test]
fn scenario_cleared_all_fires_once() {
    let main = vec![event(true, NarrativeCriterion::ClearedAll)];
    let mut s = Sequencer::new(main, Vec::new());
    assert!(s.advance(&facts(1, Location::Home), 10).is_none());
    assert_eq!(s.main_cursor(), 0);
    assert!(s.advance(&facts(0, Location::Home), 20).is_some());
    assert_eq!(s.main_cursor(), 1);
    assert!(s.advance(&facts(0, Location::Home), 30).is_none());
    assert_eq!(s.main_cursor(), 1);
}

#[test]
fn scenario_interrupt_rewinds_to_act_start() {
    let mut s = Sequencer::new(cleared_track(6, 2), cleared_track(2, 0));
    let f = facts(0, Location::Home);
    for t in 1..=4 {
        s.advance(&f, t);
    }
    assert_eq!(s.main_cursor(), 4);
    assert_eq!(s.act_checkpoint(), 2);
    s.enter_interrupt(5);
    s.advance(&f, 6);
    s.advance(&f, 7);
    assert_eq!(s.interrupt_cursor(), 2);
    assert_eq!(s.main_cursor(), 2);
    let fired = s.advance(&f, 8).unwrap();
    assert_eq!((fired.track, fired.index), (Track::Main, 2));
}

#[test]
fn enter_interrupt_twice_restarts_side_track() {
    let mut s = Sequencer::new(cleared_track(1, 0), cleared_track(2, 0));
    let f = facts(0, Location::Home);
    s.enter_interrupt(1);
    s.advance(&f, 2);
    assert_eq!(s.interrupt_cursor(), 1);
    s.enter_interrupt(3);
    assert_eq!(s.interrupt_cursor(), 0);
    assert!(s.interrupt_active());
}

#[test]
fn empty_main_track_is_a_steady_no_op() {
    let mut s = Sequencer::new(Vec::new(), Vec::new());
    assert!(s.main_exhausted());
    assert!(s.advance(&facts(0, Location::Home), 100).is_none());
    assert_eq!(s.main_cursor(), 0);
    assert_eq!(s.last_event_time(), 0);
}

#[test]
fn cleared_all_never_refires_over_many_ticks() {
    let main = vec![event(true, NarrativeCriterion::ClearedAll), event(false, NarrativeCriterion::InEnvironment(Location::Shops))];
    let mut s = Sequencer::new(main, Vec::new());
    assert!(s.advance(&facts(1, Location::Home), 1).is_none());
    assert_eq!(s.advance(&facts(0, Location::Home), 2).unwrap().index, 0);
    for t in 3..50 {
        assert!(s.advance(&facts(0, Location::Park), t).is_none());
    }
    assert_eq!(s.main_cursor(), 1);
}
