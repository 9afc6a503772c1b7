//! The game's rule state: the sanity meter, the calendar day, area access and
//! the narrative, advanced once per tick. Effects that need the world (showing
//! a message, placing an item) are handed back to the host as a list.
use vstd::prelude::*;
use crate::environment::{after_changes, AreaAccess};
use crate::narrative::{
    actions_model, lemma_pickups_model_index, lemma_pickups_model_len, pickup_model, text_model, ActionsModel, NarrativeActions, NarrativeEvent,
    NarrativeTextMessage, PickupModel, SpawnablePickup,
};
use crate::sequencer::{enter_interrupt_spec, initial_spec, step_spec, Sequencer, SequencerModel, Track, WorldFacts};

verus! {

/// Sanity at the start of a game.
pub const STARTING_SANITY: i32 = 75;
/// The sanity meter's upper bound; its lower bound is 0.
pub const MAX_SANITY: i32 = 100;
/// Milliseconds between two losses of sanity from the passage of time.
pub const SANITY_TICK_MS: u64 = 5000;
/// Sanity lost at each such tick.
pub const SANITY_LOSS_PER_TICK: i32 = 1;
/// Milliseconds in one in-game day.
pub const DAY_LENGTH_MS: u64 = 5000;

/// `v` brought into the meter's range.
pub open spec fn clamp_sanity(v: int) -> int {
    if v < 0 { 0 } else if v > MAX_SANITY { MAX_SANITY as int } else { v }
}

/// An effect for the host to carry out.
pub enum Effect {
    /// The sanity meter changed by this much (0 included): show the indicator.
    SanityChanged(i32),
    ShowMessage(NarrativeTextMessage),
    SpawnItem(SpawnablePickup),
    /// Place a wandering character at this tile.
    SpawnCharacter((usize, usize)),
}

/// What an effect holds.
pub enum EffectModel {
    SanityChanged(i32),
    ShowMessage((Seq<char>, Seq<char>)),
    SpawnItem(PickupModel),
    SpawnCharacter((usize, usize)),
}

pub open spec fn effect_model(e: Effect) -> EffectModel {
    match e {
        Effect::SanityChanged(d) => EffectModel::SanityChanged(d),
        Effect::ShowMessage(m) => EffectModel::ShowMessage(text_model(m)),
        Effect::SpawnItem(p) => EffectModel::SpawnItem(pickup_model(p)),
        Effect::SpawnCharacter(t) => EffectModel::SpawnCharacter(t),
    }
}

pub open spec fn effects_model(s: Seq<Effect>) -> Seq<EffectModel> {
    s.map_values(|e: Effect| effect_model(e))
}

/// The effects of bundle `a` when the meter moved by `applied`: the sanity
/// indicator (only when the bundle changes sanity, even by 0), then the
/// messages, the items and the characters, each in order.
pub open spec fn effects_spec(a: ActionsModel, applied: i32) -> Seq<EffectModel> {
    (if a.change_sanity is Some { seq![EffectModel::SanityChanged(applied)] } else { Seq::empty() })
        + a.texts.map_values(|t: (Seq<char>, Seq<char>)| EffectModel::ShowMessage(t))
        + a.items.map_values(|p: PickupModel| EffectModel::SpawnItem(p))
        + a.characters.map_values(|c: (usize, usize)| EffectModel::SpawnCharacter(c))
}

/// A bundle that changes sanity by 0 still shows the indicator (with 0); a
/// bundle without a sanity change never shows it.
pub proof fn law_zero_sanity_change_is_reported(a: ActionsModel, applied: i32)
    ensures
        a.change_sanity == Some(0i32) && applied == 0 ==> effects_spec(a, applied)[0] == EffectModel::SanityChanged(0),
        a.change_sanity is None ==> forall|i: int| 0 <= i < effects_spec(a, applied).len()
            ==> !(#[trigger] effects_spec(a, applied)[i] is SanityChanged),
{
}

proof fn lemma_effects_push(s: Seq<Effect>, e: Effect)
    ensures
        effects_model(s.push(e)) == effects_model(s).push(effect_model(e)),
{
    assert(effects_model(s.push(e)) =~= effects_model(s).push(effect_model(e)));
}

proof fn lemma_map_subrange_push<A, B>(s: Seq<A>, i: int, f: spec_fn(A) -> B)
    requires
        0 <= i < s.len(),
    ensures
        s.subrange(0, i + 1).map_values(f) == s.subrange(0, i).map_values(f).push(f(s[i])),
{
    assert(s.subrange(0, i + 1).map_values(f) =~= s.subrange(0, i).map_values(f).push(f(s[i])));
}

/// The day after moving the calendar to time `now`.
pub open spec fn date_spec(date: u64, now: u64) -> int {
    if date < 1 + now / DAY_LENGTH_MS { 1 + now / DAY_LENGTH_MS } else { date as int }
}

/// Sanity and the time of the last loss after the passage of time up to `now`.
pub open spec fn sanity_tick_spec(sanity: int, last: u64, now: u64) -> (int, int) {
    if now - last > SANITY_TICK_MS {
        (clamp_sanity(sanity - SANITY_LOSS_PER_TICK), last + SANITY_TICK_MS)
    } else {
        (sanity, last as int)
    }
}

pub open spec fn sanity_delta(a: ActionsModel) -> int {
    match a.change_sanity {
        Some(d) => d as int,
        None => 0,
    }
}

/// The rule state of one game.
pub struct GameState {
    sanity: i32,
    last_sanity_tick_update: u64,
    date: u64,
    areas: AreaAccess,
    narrative: Sequencer,
}

impl GameState {
    pub closed spec fn spec_sanity(&self) -> int {
        self.sanity as int
    }

    pub closed spec fn spec_last_sanity_tick(&self) -> u64 {
        self.last_sanity_tick_update
    }

    pub closed spec fn spec_date(&self) -> u64 {
        self.date
    }

    pub closed spec fn spec_areas(&self) -> AreaAccess {
        self.areas
    }

    pub closed spec fn spec_narrative(&self) -> SequencerModel {
        self.narrative@
    }

    /// The meter lies in its range and the narrative is well formed.
    pub open spec fn wf(&self) -> bool {
        &&& 0 <= self.spec_sanity() <= MAX_SANITY
        &&& self.spec_narrative().wf()
    }

    /// A new game over the two tracks: full starting sanity, day 1, every
    /// area open, both tracks at their start.
    pub fn setup(main: Vec<NarrativeEvent>, covid: Vec<NarrativeEvent>) -> (r: GameState)
        ensures
            r.wf(),
            r.spec_sanity() == STARTING_SANITY,
            r.spec_last_sanity_tick() == 0,
            r.spec_date() == 1,
            forall|a| !r.spec_areas().is_locked(a),
            r.spec_narrative() == initial_spec(main@, covid@),
    {
        GameState {
            sanity: STARTING_SANITY,
            last_sanity_tick_update: 0,
            date: 1,
            areas: AreaAccess::new(),
            narrative: Sequencer::new(main, covid),
        }
    }

    pub fn sanity(&self) -> (r: i32)
        ensures
            r == self.spec_sanity(),
    {
        self.sanity
    }

    pub fn date(&self) -> (r: u64)
        ensures
            r == self.spec_date(),
    {
        self.date
    }

    pub fn areas(&self) -> (r: &AreaAccess)
        ensures
            *r == self.spec_areas(),
    {
        &self.areas
    }

    pub fn narrative(&self) -> (r: &Sequencer)
        ensures
            r@ == self.spec_narrative(),
    {
        &self.narrative
    }

    /// The game is lost once sanity reaches 0.
    pub fn is_game_over(&self) -> (r: bool)
        ensures
            r == (self.spec_sanity() <= 0),
    {
        self.sanity <= 0
    }

    /// Changes sanity by `delta`, kept within 0 and [`MAX_SANITY`], and
    /// returns the change actually made.
    pub fn adjust_sanity(&mut self, delta: i32) -> (applied: i32)
        requires
            old(self).wf(),
        ensures
            final(self).wf(),
            final(self).spec_sanity() == clamp_sanity(old(self).spec_sanity() + delta),
            applied == final(self).spec_sanity() - old(self).spec_sanity(),
            final(self).spec_last_sanity_tick() == old(self).spec_last_sanity_tick(),
            final(self).spec_date() == old(self).spec_date(),
            final(self).spec_areas() == old(self).spec_areas(),
            final(self).spec_narrative() == old(self).spec_narrative(),
    {
        let before = self.sanity;
        let target: i64 = before as i64 + delta as i64;
        let after: i32 = if target < 0 {
            0
        } else if target > MAX_SANITY as i64 {
            MAX_SANITY
        } else {
            target as i32
        };
        self.sanity = after;
        after - before
    }

    /// Sanity lost to the passage of time: once more than
    /// [`SANITY_TICK_MS`] have passed since the last such loss, the meter
    /// drops by [`SANITY_LOSS_PER_TICK`] and the loss time moves on by one
    /// period. Returns the change made (0 when none is due).
    pub fn update_sanity(&mut self, now: u64) -> (r: i32)
        requires
            old(self).wf(),
        ensures
            final(self).wf(),
            now - old(self).spec_last_sanity_tick() > SANITY_TICK_MS ==> {
                &&& final(self).spec_last_sanity_tick() == old(self).spec_last_sanity_tick() + SANITY_TICK_MS
                &&& final(self).spec_sanity() == clamp_sanity(old(self).spec_sanity() - SANITY_LOSS_PER_TICK)
            },
            !(now - old(self).spec_last_sanity_tick() > SANITY_TICK_MS) ==> {
                &&& final(self).spec_last_sanity_tick() == old(self).spec_last_sanity_tick()
                &&& final(self).spec_sanity() == old(self).spec_sanity()
            },
            r == final(self).spec_sanity() - old(self).spec_sanity(),
            final(self).spec_date() == old(self).spec_date(),
            final(self).spec_areas() == old(self).spec_areas(),
            final(self).spec_narrative() == old(self).spec_narrative(),
    {
        if now >= self.last_sanity_tick_update && now - self.last_sanity_tick_update > SANITY_TICK_MS {
            self.last_sanity_tick_update = self.last_sanity_tick_update + SANITY_TICK_MS;
            self.adjust_sanity(0 - SANITY_LOSS_PER_TICK)
        } else {
            0
        }
    }

    /// Moves the calendar to the day that `now` falls in (day 1 starts at 0);
    /// returns whether a new day began.
    pub fn update_date(&mut self, now: u64) -> (r: bool)
        requires
            old(self).wf(),
        ensures
            final(self).wf(),
            r == (old(self).spec_date() < 1 + now / DAY_LENGTH_MS),
            final(self).spec_date() == (if r { 1 + now / DAY_LENGTH_MS } else { old(self).spec_date() as int }),
            final(self).spec_sanity() == old(self).spec_sanity(),
            final(self).spec_last_sanity_tick() == old(self).spec_last_sanity_tick(),
            final(self).spec_areas() == old(self).spec_areas(),
            final(self).spec_narrative() == old(self).spec_narrative(),
    {
        let day = 1 + now / DAY_LENGTH_MS;
        if self.date < day {
            self.date = day;
            true
        } else {
            false
        }
    }

    /// Carries out bundle `a`: applies its sanity change and its access
    /// changes here, and returns the effects that the host must carry out.
    pub fn do_narrative_actions(&mut self, a: &NarrativeActions) -> (r: Vec<Effect>)
        requires
            old(self).wf(),
        ensures
            final(self).wf(),
            final(self).spec_sanity() == clamp_sanity(old(self).spec_sanity() + match a.change_sanity {
                Some(d) => d as int,
                None => 0,
            }),
            final(self).spec_areas() == after_changes(old(self).spec_areas(), actions_model(*a).access),
            effects_model(r@) == effects_spec(actions_model(*a), (final(self).spec_sanity() - old(self).spec_sanity()) as i32),
            final(self).spec_last_sanity_tick() == old(self).spec_last_sanity_tick(),
            final(self).spec_date() == old(self).spec_date(),
            final(self).spec_narrative() == old(self).spec_narrative(),
    {
        let ghost m = actions_model(*a);
        let ghost start = self.spec_sanity();
        let mut r: Vec<Effect> = Vec::new();
        let mut applied: i32 = 0;
        if let Some(ds) = a.change_sanity {
            applied = self.adjust_sanity(ds);
            r.push(Effect::SanityChanged(applied));
        }
        let ghost head = effects_model(r@);
        assert(head =~= (if m.change_sanity is Some { seq![EffectModel::SanityChanged(applied)] } else { Seq::<EffectModel>::empty() }));
        let mut i: usize = 0;
        while i < a.send_texts.len()
            invariant
                i <= a.send_texts@.len(),
                m == actions_model(*a),
                effects_model(r@) == head + m.texts.subrange(0, i as int).map_values(|t: (Seq<char>, Seq<char>)| EffectModel::ShowMessage(t)),
            decreases a.send_texts@.len() - i,
        {
            let msg = a.send_texts[i].duplicate();
            let ghost before = r@;
            let ghost e = Effect::ShowMessage(msg);
            r.push(Effect::ShowMessage(msg));
            proof {
                lemma_effects_push(before, e);
                assert(m.texts[i as int] == text_model(a.send_texts@[i as int]));
                lemma_map_subrange_push(m.texts, i as int, |t: (Seq<char>, Seq<char>)| EffectModel::ShowMessage(t));
                assert(effects_model(r@) =~= head + m.texts.subrange(0, i + 1).map_values(|t: (Seq<char>, Seq<char>)| EffectModel::ShowMessage(t)));
            }
            i = i + 1;
        }
        assert(m.texts.subrange(0, m.texts.len() as int) == m.texts);
        let ghost head2 = effects_model(r@);
        proof {
            lemma_pickups_model_len(a.spawn_item@);
        }
        let mut j: usize = 0;
        while j < a.spawn_item.len()
            invariant
                j <= a.spawn_item@.len(),
                m.items.len() == a.spawn_item@.len(),
                m == actions_model(*a),
                effects_model(r@) == head2 + m.items.subrange(0, j as int).map_values(|p: PickupModel| EffectModel::SpawnItem(p)),
            decreases a.spawn_item@.len() - j,
        {
            proof {
                lemma_pickups_model_index(a.spawn_item@, j as int);
            }
            let item = a.spawn_item[j].duplicate();
            let ghost before = r@;
            let ghost e = Effect::SpawnItem(item);
            r.push(Effect::SpawnItem(item));
            proof {
                lemma_effects_push(before, e);
                lemma_map_subrange_push(m.items, j as int, |p: PickupModel| EffectModel::SpawnItem(p));
                assert(effects_model(r@) =~= head2 + m.items.subrange(0, j + 1).map_values(|p: PickupModel| EffectModel::SpawnItem(p)));
            }
            j = j + 1;
        }
        proof {
            lemma_pickups_model_len(a.spawn_item@);
        }
        assert(m.items.subrange(0, m.items.len() as int) == m.items);
        let ghost head3 = effects_model(r@);
        let mut k: usize = 0;
        while k < a.spawn_character.len()
            invariant
                k <= a.spawn_character@.len(),
                m == actions_model(*a),
                effects_model(r@) == head3 + m.characters.subrange(0, k as int).map_values(|c: (usize, usize)| EffectModel::SpawnCharacter(c)),
            decreases a.spawn_character@.len() - k,
        {
            let ghost before = r@;
            let ghost e = Effect::SpawnCharacter(a.spawn_character@[k as int]);
            r.push(Effect::SpawnCharacter(a.spawn_character[k]));
            proof {
                lemma_effects_push(before, e);
                lemma_map_subrange_push(m.characters, k as int, |c: (usize, usize)| EffectModel::SpawnCharacter(c));
                assert(effects_model(r@) =~= head3 + m.characters.subrange(0, k + 1).map_values(|c: (usize, usize)| EffectModel::SpawnCharacter(c)));
            }
            k = k + 1;
        }
        assert(m.characters.subrange(0, m.characters.len() as int) == m.characters);
        self.areas.apply(&a.area_access_change);
        assert(effects_model(r@) =~= effects_spec(m, applied));
        r
    }

    /// One tick of the narrative at time `now`: if an event fires, its bundle
    /// is carried out as by [`GameState::do_narrative_actions`] and its
    /// effects returned; otherwise nothing changes but the tick's hand-over
    /// from an exhausted side track.
    pub fn run_narrative(&mut self, facts: &WorldFacts, now: u64) -> (r: Vec<Effect>)
        requires
            old(self).wf(),
        ensures
            final(self).wf(),
            final(self).spec_narrative() == step_spec(old(self).spec_narrative(), *facts, now).0,
            step_spec(old(self).spec_narrative(), *facts, now).1 is None ==> {
                &&& r@.len() == 0
                &&& final(self).spec_sanity() == old(self).spec_sanity()
                &&& final(self).spec_areas() == old(self).spec_areas()
            },
            step_spec(old(self).spec_narrative(), *facts, now).1 matches Some((track, index)) ==> {
                let a = actions_model(if track == Track::Main {
                    old(self).spec_narrative().main[index as int].action
                } else {
                    old(self).spec_narrative().interrupt[index as int].action
                });
                &&& final(self).spec_sanity() == clamp_sanity(old(self).spec_sanity() + match a.change_sanity {
                    Some(d) => d as int,
                    None => 0,
                })
                &&& final(self).spec_areas() == after_changes(old(self).spec_areas(), a.access)
                &&& effects_model(r@) == effects_spec(a, (final(self).spec_sanity() - old(self).spec_sanity()) as i32)
            },
            final(self).spec_last_sanity_tick() == old(self).spec_last_sanity_tick(),
            final(self).spec_date() == old(self).spec_date(),
    {
        match self.narrative.advance(facts, now) {
            Some(fired) => self.do_narrative_actions(&fired.action),
            None => Vec::new(),
        }
    }

    /// One game tick at time `now`. Once the game is lost nothing changes.
    /// Otherwise the calendar moves on, sanity drains with time (its change
    /// reported first when there is one), then the narrative ticks as by
    /// [`GameState::run_narrative`], whose effects follow.
    pub fn tick(&mut self, facts: &WorldFacts, now: u64) -> (r: Vec<Effect>)
        requires
            old(self).wf(),
        ensures
            final(self).wf(),
            old(self).spec_sanity() <= 0 ==> {
                &&& r@.len() == 0
                &&& final(self).spec_sanity() == old(self).spec_sanity()
                &&& final(self).spec_last_sanity_tick() == old(self).spec_last_sanity_tick()
                &&& final(self).spec_date() == old(self).spec_date()
                &&& final(self).spec_areas() == old(self).spec_areas()
                &&& final(self).spec_narrative() == old(self).spec_narrative()
            },
            old(self).spec_sanity() > 0 ==> {
                let (s1, last1) = sanity_tick_spec(old(self).spec_sanity(), old(self).spec_last_sanity_tick(), now);
                let head = if s1 != old(self).spec_sanity() {
                    seq![EffectModel::SanityChanged((s1 - old(self).spec_sanity()) as i32)]
                } else {
                    Seq::<EffectModel>::empty()
                };
                let (n2, fired) = step_spec(old(self).spec_narrative(), *facts, now);
                &&& final(self).spec_date() == date_spec(old(self).spec_date(), now)
                &&& final(self).spec_last_sanity_tick() == last1
                &&& final(self).spec_narrative() == n2
                &&& fired is None ==> {
                    &&& final(self).spec_sanity() == s1
                    &&& final(self).spec_areas() == old(self).spec_areas()
                    &&& effects_model(r@) == head
                }
                &&& fired matches Some((track, index)) ==> {
                    let a = actions_model(if track == Track::Main {
                        old(self).spec_narrative().main[index as int].action
                    } else {
                        old(self).spec_narrative().interrupt[index as int].action
                    });
                    &&& final(self).spec_sanity() == clamp_sanity(s1 + sanity_delta(a))
                    &&& final(self).spec_areas() == after_changes(old(self).spec_areas(), a.access)
                    &&& effects_model(r@) == head + effects_spec(a, (final(self).spec_sanity() - s1) as i32)
                }
            },
    {
        if self.is_game_over() {
            return Vec::new();
        }
        self.update_date(now);
        let mut r: Vec<Effect> = Vec::new();
        let change = self.update_sanity(now);
        if change != 0 {
            r.push(Effect::SanityChanged(change));
        }
        let ghost head = effects_model(r@);
        let mut more = self.run_narrative(facts, now);
        let ghost added = more@;
        r.append(&mut more);
        assert(effects_model(r@) =~= head + effects_model(added));
        r
    }

    /// The player was exposed: the side track starts now and the main track
    /// will resume at the start of its current act.
    pub fn covid_narrative_switch(&mut self, now: u64)
        requires
            old(self).wf(),
        ensures
            final(self).wf(),
            final(self).spec_narrative() == enter_interrupt_spec(old(self).spec_narrative(), now),
            final(self).spec_sanity() == old(self).spec_sanity(),
            final(self).spec_last_sanity_tick() == old(self).spec_last_sanity_tick(),
            final(self).spec_date() == old(self).spec_date(),
            final(self).spec_areas() == old(self).spec_areas(),
    {
        self.narrative.enter_interrupt(now);
    }
}

} // verus!
