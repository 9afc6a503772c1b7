//! The narrative state machine: a main track and an interrupting side track,
//! each with its own cursor, stepped once per game tick.
use vstd::prelude::*;
use crate::environment::Location;
use crate::narrative::{actions_model, NarrativeActions, NarrativeCriterion, NarrativeEvent};

verus! {

/// What the host reports of the world at a tick.
#[derive(Clone, Copy, Debug, PartialEq, Eq, Structural)]
pub struct WorldFacts {
    /// Collectibles still present in the world.
    pub collectible_count: usize,
    /// The area the player is in.
    pub current_area: Location,
}

/// One of the two tracks.
#[derive(Clone, Copy, Debug, PartialEq, Eq, Structural)]
pub enum Track {
    Main,
    Interrupt,
}

/// Whether criterion `c` holds at time `now` (milliseconds), given the world
/// and the time at which the last event fired. Elapsed time must exceed the
/// criterion's duration strictly.
pub open spec fn criterion_holds(c: NarrativeCriterion, facts: WorldFacts, last_event_time: u64, now: u64) -> bool {
    match c {
        NarrativeCriterion::ElapsedRel(v) => now - last_event_time > v,
        NarrativeCriterion::ClearedAll => facts.collectible_count == 0,
        NarrativeCriterion::InEnvironment(a) => facts.current_area == a,
    }
}

/// The sequencer's state, as values.
pub struct SequencerModel {
    pub main: Seq<NarrativeEvent>,
    pub interrupt: Seq<NarrativeEvent>,
    pub main_cursor: nat,
    pub act_checkpoint: nat,
    pub interrupt_cursor: nat,
    pub interrupt_active: bool,
    pub last_event_time: u64,
}

impl SequencerModel {
    /// Cursors stay within their tracks, the checkpoint never lies ahead of
    /// the main cursor, and while the side track runs the main cursor waits at
    /// the checkpoint.
    pub open spec fn wf(self) -> bool {
        &&& self.main_cursor <= self.main.len()
        &&& self.act_checkpoint <= self.main_cursor
        &&& self.interrupt_cursor <= self.interrupt.len()
        &&& self.interrupt_active ==> self.main_cursor == self.act_checkpoint
    }
}

/// The state before the first tick: both tracks at their start, on the main
/// track, with the clock's zero as the time of the last event.
pub open spec fn initial_spec(main: Seq<NarrativeEvent>, interrupt: Seq<NarrativeEvent>) -> SequencerModel {
    SequencerModel {
        main,
        interrupt,
        main_cursor: 0,
        act_checkpoint: 0,
        interrupt_cursor: 0,
        interrupt_active: false,
        last_event_time: 0,
    }
}

/// The state after the side track begins at time `now`: the main cursor goes
/// back to the start of the current act and the side track restarts.
pub open spec fn enter_interrupt_spec(s: SequencerModel, now: u64) -> SequencerModel {
    SequencerModel {
        interrupt_active: true,
        main_cursor: s.act_checkpoint,
        last_event_time: now,
        interrupt_cursor: 0,
        ..s
    }
}

/// First part of a tick: an exhausted side track hands control back to the
/// main track.
pub open spec fn resume_spec(s: SequencerModel) -> SequencerModel {
    if s.interrupt_active && s.interrupt_cursor >= s.interrupt.len() {
        SequencerModel { interrupt_active: false, interrupt_cursor: 0, ..s }
    } else {
        s
    }
}

/// One tick at time `now`: the state after it and the event that fired, if
/// any, as its track and index.
pub open spec fn step_spec(s: SequencerModel, facts: WorldFacts, now: u64) -> (SequencerModel, Option<(Track, nat)>) {
    let r = resume_spec(s);
    if r.interrupt_active {
        let e = r.interrupt[r.interrupt_cursor as int];
        if criterion_holds(e.criterion, facts, r.last_event_time, now) {
            (
                SequencerModel { interrupt_cursor: r.interrupt_cursor + 1, last_event_time: now, ..r },
                Some((Track::Interrupt, r.interrupt_cursor)),
            )
        } else {
            (r, None)
        }
    } else if r.main_cursor >= r.main.len() {
        (r, None)
    } else {
        let e = r.main[r.main_cursor as int];
        if criterion_holds(e.criterion, facts, r.last_event_time, now) {
            (
                SequencerModel {
                    main_cursor: r.main_cursor + 1,
                    act_checkpoint: if e.starts_act { r.main_cursor } else { r.act_checkpoint },
                    last_event_time: now,
                    ..r
                },
                Some((Track::Main, r.main_cursor)),
            )
        } else {
            (r, None)
        }
    }
}

/// An elapsed-time criterion of `v` milliseconds does not hold exactly `v`
/// milliseconds after the last event, and holds at every later time.
pub proof fn law_elapsed_boundary_exclusive(v: u64, facts: WorldFacts, last: u64, eps: u64)
    requires
        v > 0,
        eps > 0,
        last + v + eps <= u64::MAX,
    ensures
        !criterion_holds(NarrativeCriterion::ElapsedRel(v), facts, last, (last + v) as u64),
        criterion_holds(NarrativeCriterion::ElapsedRel(v), facts, last, (last + v + eps) as u64),
{
}

/// Whenever a tick fires an event, on either track, the time of the last
/// event becomes the tick's time.
pub proof fn law_firing_sets_last_event_time(s: SequencerModel, facts: WorldFacts, now: u64)
    requires
        s.wf(),
    ensures
        step_spec(s, facts, now).1 is Some ==> step_spec(s, facts, now).0.last_event_time == now,
{
}

/// The tick right after the side track begins evaluates the side track's
/// first event and never an event of the main track: it fires that event or
/// nothing, and the main cursor stays at the start of the act.
pub proof fn law_interrupt_preempts_main(s: SequencerModel, t: u64, facts: WorldFacts, now: u64)
    requires
        s.wf(),
        s.interrupt.len() > 0,
    ensures
        ({
            let (s2, fired) = step_spec(enter_interrupt_spec(s, t), facts, now);
            &&& fired is None || fired == Some((Track::Interrupt, 0nat))
            &&& (fired is None <==> !criterion_holds(s.interrupt[0].criterion, facts, t, now))
            &&& s2.interrupt_active
            &&& s2.main_cursor == s.act_checkpoint
        }),
{
}

/// While the side track has events left, a tick leaves the main cursor and
/// the act checkpoint where they are.
pub proof fn law_interrupt_holds_main_cursor(s: SequencerModel, facts: WorldFacts, now: u64)
    requires
        s.wf(),
        s.interrupt_active,
        s.interrupt_cursor < s.interrupt.len(),
    ensures
        step_spec(s, facts, now).0.main_cursor == s.main_cursor,
        step_spec(s, facts, now).0.act_checkpoint == s.act_checkpoint,
        step_spec(s, facts, now).0.interrupt_active,
{
}

/// Once the side track is exhausted, the next tick returns to the main track
/// and, in that same tick, evaluates the event at the act checkpoint.
pub proof fn law_resume_evaluates_checkpoint(s: SequencerModel, facts: WorldFacts, now: u64)
    requires
        s.wf(),
        s.interrupt_active,
        s.interrupt_cursor == s.interrupt.len(),
        s.act_checkpoint < s.main.len(),
    ensures
        ({
            let (s2, fired) = step_spec(s, facts, now);
            let holds = criterion_holds(s.main[s.act_checkpoint as int].criterion, facts, s.last_event_time, now);
            &&& !s2.interrupt_active
            &&& s2.interrupt_cursor == 0
            &&& (holds ==> fired == Some((Track::Main, s.act_checkpoint)) && s2.main_cursor == s.act_checkpoint + 1)
            &&& (!holds ==> fired is None && s2.main_cursor == s.act_checkpoint)
        }),
{
}

/// The state after the ticks `inputs` (each the world's facts and the time),
/// in order, with no entry into the side track between them.
pub open spec fn run_spec(s: SequencerModel, inputs: Seq<(WorldFacts, u64)>) -> SequencerModel
    decreases inputs.len(),
{
    if inputs.len() == 0 {
        s
    } else {
        step_spec(run_spec(s, inputs.drop_last()), inputs.last().0, inputs.last().1).0
    }
}

proof fn lemma_run_keeps_main_cursor(s: SequencerModel, inputs: Seq<(WorldFacts, u64)>)
    requires
        s.wf(),
    ensures
        run_spec(s, inputs).wf(),
        run_spec(s, inputs).main_cursor >= s.main_cursor,
    decreases inputs.len(),
{
    if inputs.len() > 0 {
        lemma_run_keeps_main_cursor(s, inputs.drop_last());
    }
}

/// Once the main cursor has passed an event, no later tick fires it again,
/// however the world changes, as long as the side track is not entered.
pub proof fn law_fired_event_never_refires(s: SequencerModel, inputs: Seq<(WorldFacts, u64)>, i: nat)
    requires
        s.wf(),
        i < s.main_cursor,
    ensures
        forall|k: int| 0 <= k < inputs.len() ==> step_spec(
            #[trigger] run_spec(s, inputs.subrange(0, k)),
            inputs[k].0,
            inputs[k].1,
        ).1 != Some((Track::Main, i)),
{
    assert forall|k: int| 0 <= k < inputs.len() implies step_spec(
        #[trigger] run_spec(s, inputs.subrange(0, k)),
        inputs[k].0,
        inputs[k].1,
    ).1 != Some((Track::Main, i)) by {
        lemma_run_keeps_main_cursor(s, inputs.subrange(0, k));
    }
}

/// The event that fired in a tick.
pub struct FiredEvent {
    pub track: Track,
    /// Position of the event in its track.
    pub index: usize,
    /// A copy of the event's effects, for the host to carry out.
    pub action: NarrativeActions,
}

/// Two tracks of events and where each stands.
pub struct Sequencer {
    main_track: Vec<NarrativeEvent>,
    interrupt_track: Vec<NarrativeEvent>,
    main_cursor: usize,
    act_checkpoint: usize,
    interrupt_cursor: usize,
    interrupt_active: bool,
    last_event_time: u64,
}

impl View for Sequencer {
    type V = SequencerModel;

    closed spec fn view(&self) -> SequencerModel {
        SequencerModel {
            main: self.main_track@,
            interrupt: self.interrupt_track@,
            main_cursor: self.main_cursor as nat,
            act_checkpoint: self.act_checkpoint as nat,
            interrupt_cursor: self.interrupt_cursor as nat,
            interrupt_active: self.interrupt_active,
            last_event_time: self.last_event_time,
        }
    }
}

impl Sequencer {
    /// A sequencer at the start of both tracks, on the main track, with the
    /// clock's zero as the time of the last event.
    pub fn new(main_track: Vec<NarrativeEvent>, interrupt_track: Vec<NarrativeEvent>) -> (r: Sequencer)
        ensures
            r@ == initial_spec(main_track@, interrupt_track@),
            r@.wf(),
    {
        Sequencer {
            main_track,
            interrupt_track,
            main_cursor: 0,
            act_checkpoint: 0,
            interrupt_cursor: 0,
            interrupt_active: false,
            last_event_time: 0,
        }
    }

    pub fn main_cursor(&self) -> (r: usize)
        ensures
            r == self@.main_cursor,
    {
        self.main_cursor
    }

    pub fn act_checkpoint(&self) -> (r: usize)
        ensures
            r == self@.act_checkpoint,
    {
        self.act_checkpoint
    }

    pub fn interrupt_cursor(&self) -> (r: usize)
        ensures
            r == self@.interrupt_cursor,
    {
        self.interrupt_cursor
    }

    pub fn interrupt_active(&self) -> (r: bool)
        ensures
            r == self@.interrupt_active,
    {
        self.interrupt_active
    }

    pub fn last_event_time(&self) -> (r: u64)
        ensures
            r == self@.last_event_time,
    {
        self.last_event_time
    }

    /// Whether the main track has no event left (the story is over until the
    /// side track rewinds it).
    pub fn main_exhausted(&self) -> (r: bool)
        ensures
            r == (self@.main_cursor >= self@.main.len()),
    {
        self.main_cursor >= self.main_track.len()
    }

    /// Whether criterion `c` holds at time `now`, measured from the last event.
    pub fn criterion_met(&self, c: &NarrativeCriterion, facts: &WorldFacts, now: u64) -> (r: bool)
        ensures
            r == criterion_holds(*c, *facts, self@.last_event_time, now),
    {
        match c {
            NarrativeCriterion::ElapsedRel(v) => now >= self.last_event_time && now - self.last_event_time > *v,
            NarrativeCriterion::ClearedAll => facts.collectible_count == 0,
            NarrativeCriterion::InEnvironment(l) => facts.current_area == *l,
        }
    }

    /// Starts (or restarts) the side track at time `now`; the main track will
    /// resume at the start of its current act.
    pub fn enter_interrupt(&mut self, now: u64)
        requires
            old(self)@.wf(),
        ensures
            final(self)@ == enter_interrupt_spec(old(self)@, now),
            final(self)@.wf(),
    {
        self.interrupt_active = true;
        self.main_cursor = self.act_checkpoint;
        self.last_event_time = now;
        self.interrupt_cursor = 0;
    }

    /// One tick at time `now`: hands control back to the main track if the
    /// side track is exhausted, then evaluates the event at the active cursor
    /// and, if its criterion holds, fires it.
    pub fn advance(&mut self, facts: &WorldFacts, now: u64) -> (r: Option<FiredEvent>)
        requires
            old(self)@.wf(),
        ensures
            final(self)@ == step_spec(old(self)@, *facts, now).0,
            final(self)@.wf(),
            match step_spec(old(self)@, *facts, now).1 {
                None => r is None,
                Some((track, index)) => r matches Some(f) && f.track == track && f.index == index
                    && actions_model(f.action) == actions_model(
                        if track == Track::Main { old(self)@.main[index as int].action }
                        else { old(self)@.interrupt[index as int].action }),
            },
    {
        if self.interrupt_active && self.interrupt_cursor >= self.interrupt_track.len() {
            self.interrupt_active = false;
            self.interrupt_cursor = 0;
        }
        if self.interrupt_active {
            let i = self.interrupt_cursor;
            if self.criterion_met(&self.interrupt_track[i].criterion, facts, now) {
                let action = self.interrupt_track[i].action.duplicate();
                self.last_event_time = now;
                self.interrupt_cursor = i + 1;
                Some(FiredEvent { track: Track::Interrupt, index: i, action })
            } else {
                None
            }
        } else if self.main_cursor >= self.main_track.len() {
            None
        } else {
            let i = self.main_cursor;
            if self.criterion_met(&self.main_track[i].criterion, facts, now) {
                let action = self.main_track[i].action.duplicate();
                if self.main_track[i].starts_act {
                    self.act_checkpoint = i;
                }
                self.last_event_time = now;
                self.main_cursor = i + 1;
                Some(FiredEvent { track: Track::Main, index: i, action })
            } else {
                None
            }
        }
    }
}

} // verus!
