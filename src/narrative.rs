//! Narrative events: the condition that holds back each one and the bundle of
//! effects it carries.
use vstd::prelude::*;
use crate::environment::{AreaAccessChange, Location};
use crate::pickup::Pickup;

verus! {

broadcast use vstd::std_specs::vec::axiom_vec_decreases_to_view;

/// A text message shown to the player. `body` may hold `|` to force line
/// breaks.
#[derive(Clone, Debug)]
pub struct NarrativeTextMessage {
    pub sender: String,
    pub body: String,
}

/// A collectible to place at a tile, with the effects that collecting it has.
#[derive(Debug)]
pub struct SpawnablePickup {
    pub prototype: Pickup,
    pub location: (usize, usize),
    pub narrative_actions: NarrativeActions,
}

/// The effects of one narrative event. Every part is optional; they are
/// independent of one another.
#[derive(Debug)]
pub struct NarrativeActions {
    pub send_texts: Vec<NarrativeTextMessage>,
    /// Change of the sanity meter. `Some(0)` still shows a "0" indicator,
    /// `None` shows nothing.
    pub change_sanity: Option<i32>,
    pub spawn_item: Vec<SpawnablePickup>,
    /// Tiles at which a wandering character appears.
    pub spawn_character: Vec<(usize, usize)>,
    pub area_access_change: Vec<AreaAccessChange>,
}

/// The condition under which a narrative event fires.
#[derive(Clone, Copy, Debug, PartialEq, Eq, Structural)]
pub enum NarrativeCriterion {
    /// More than this many milliseconds have passed since the last event
    /// fired (or since the side track began).
    ElapsedRel(u64),
    /// No collectible is left in the world.
    ClearedAll,
    /// The player is in this area.
    InEnvironment(Location),
}

/// One scripted beat.
#[derive(Debug)]
pub struct NarrativeEvent {
    /// The main track rewinds to the latest such event when it resumes after
    /// the side track.
    pub starts_act: bool,
    pub criterion: NarrativeCriterion,
    pub action: NarrativeActions,
}

/// What an action bundle holds, with strings as character sequences.
pub struct ActionsModel {
    pub texts: Seq<(Seq<char>, Seq<char>)>,
    pub change_sanity: Option<i32>,
    pub items: Seq<PickupModel>,
    pub characters: Seq<(usize, usize)>,
    pub access: Seq<AreaAccessChange>,
}

/// What a collectible placement holds.
pub struct PickupModel {
    pub prototype: Pickup,
    pub location: (usize, usize),
    pub on_collect: ActionsModel,
}

/// What a narrative event holds.
pub struct EventModel {
    pub starts_act: bool,
    pub criterion: NarrativeCriterion,
    pub action: ActionsModel,
}

pub open spec fn text_model(m: NarrativeTextMessage) -> (Seq<char>, Seq<char>) {
    (m.sender@, m.body@)
}

pub open spec fn actions_model(a: NarrativeActions) -> ActionsModel
    decreases a,
{
    ActionsModel {
        texts: a.send_texts@.map_values(|m: NarrativeTextMessage| text_model(m)),
        change_sanity: a.change_sanity,
        items: pickups_model(a.spawn_item@),
        characters: a.spawn_character@,
        access: a.area_access_change@,
    }
}

pub open spec fn pickups_model(s: Seq<SpawnablePickup>) -> Seq<PickupModel>
    decreases s,
{
    if s.len() == 0 {
        Seq::empty()
    } else {
        pickups_model(s.drop_last()).push(pickup_model(s.last()))
    }
}

pub open spec fn pickup_model(p: SpawnablePickup) -> PickupModel
    decreases p,
{
    PickupModel {
        prototype: p.prototype,
        location: p.location,
        on_collect: actions_model(p.narrative_actions),
    }
}

pub open spec fn event_model(e: NarrativeEvent) -> EventModel {
    EventModel { starts_act: e.starts_act, criterion: e.criterion, action: actions_model(e.action) }
}

pub open spec fn events_model(s: Seq<NarrativeEvent>) -> Seq<EventModel> {
    s.map_values(|e: NarrativeEvent| event_model(e))
}

/// An element-by-element copy of a vector of plain values.
pub fn copy_all<T: Copy>(v: &Vec<T>) -> (r: Vec<T>)
    ensures
        r@ == v@,
{
    let mut r: Vec<T> = Vec::new();
    let mut i: usize = 0;
    while i < v.len()
        invariant
            i <= v@.len(),
            r@ == v@.subrange(0, i as int),
        decreases v@.len() - i,
    {
        r.push(v[i]);
        i = i + 1;
    }
    proof {
        assert(v@.subrange(0, v@.len() as int) == v@);
    }
    r
}

impl NarrativeTextMessage {
    pub fn duplicate(&self) -> (r: NarrativeTextMessage)
        ensures
            text_model(r) == text_model(*self),
    {
        NarrativeTextMessage { sender: self.sender.clone(), body: self.body.clone() }
    }
}

impl SpawnablePickup {
    pub fn duplicate(&self) -> (r: SpawnablePickup)
        ensures
            pickup_model(r) == pickup_model(*self),
        decreases *self,
    {
        SpawnablePickup {
            prototype: self.prototype,
            location: self.location,
            narrative_actions: self.narrative_actions.duplicate(),
        }
    }
}

impl Clone for SpawnablePickup {
    fn clone(&self) -> Self {
        self.duplicate()
    }
}

impl NarrativeActions {
    /// A deep copy of the bundle.
    pub fn duplicate(&self) -> (r: NarrativeActions)
        ensures
            actions_model(r) == actions_model(*self),
        decreases *self,
    {
        let mut texts: Vec<NarrativeTextMessage> = Vec::new();
        let mut i: usize = 0;
        while i < self.send_texts.len()
            invariant
                i <= self.send_texts@.len(),
                texts@.len() == i,
                forall|k: int| 0 <= k < i ==> text_model(#[trigger] texts@[k]) == text_model(self.send_texts@[k]),
            decreases self.send_texts@.len() - i,
        {
            texts.push(self.send_texts[i].duplicate());
            i = i + 1;
        }
        proof {
            assert(texts@.map_values(|m: NarrativeTextMessage| text_model(m))
                =~= self.send_texts@.map_values(|m: NarrativeTextMessage| text_model(m)));
        }
        let mut items: Vec<SpawnablePickup> = Vec::new();
        let mut j: usize = 0;
        while j < self.spawn_item.len()
            invariant
                j <= self.spawn_item@.len(),
                pickups_model(items@) == pickups_model(self.spawn_item@.subrange(0, j as int)),
            decreases self.spawn_item@.len() - j,
        {
            proof {
                assert(decreases_to!(*self => self.spawn_item@[j as int]));
            }
            let p = self.spawn_item[j].duplicate();
            let ghost before = items@;
            items.push(p);
            proof {
                assert(items@.drop_last() == before);
                assert(self.spawn_item@.subrange(0, j + 1).drop_last() == self.spawn_item@.subrange(0, j as int));
            }
            j = j + 1;
        }
        proof {
            assert(self.spawn_item@.subrange(0, self.spawn_item@.len() as int) == self.spawn_item@);
        }
        NarrativeActions {
            send_texts: texts,
            change_sanity: self.change_sanity,
            spawn_item: items,
            spawn_character: copy_all(&self.spawn_character),
            area_access_change: copy_all(&self.area_access_change),
        }
    }
}

impl Clone for NarrativeActions {
    fn clone(&self) -> Self {
        self.duplicate()
    }
}

/// The bundle with no effect at all.
pub open spec fn empty_actions() -> ActionsModel {
    ActionsModel {
        texts: Seq::empty(),
        change_sanity: None,
        items: Seq::empty(),
        characters: Seq::empty(),
        access: Seq::empty(),
    }
}

/// The text messages of `v`, as character sequences.
pub open spec fn texts_model(v: Seq<NarrativeTextMessage>) -> Seq<(Seq<char>, Seq<char>)> {
    v.map_values(|m: NarrativeTextMessage| text_model(m))
}

/// A bundle with no effect.
pub fn action() -> (r: NarrativeActions)
    ensures
        actions_model(r) == empty_actions(),
{
    let r = NarrativeActions {
        send_texts: Vec::new(),
        change_sanity: None,
        spawn_item: Vec::new(),
        spawn_character: Vec::new(),
        area_access_change: Vec::new(),
    };
    proof {
        assert(actions_model(r).texts =~= Seq::<(Seq<char>, Seq<char>)>::empty());
    }
    r
}

pub proof fn lemma_pickups_model_index(s: Seq<SpawnablePickup>, i: int)
    requires
        0 <= i < s.len(),
    ensures
        pickups_model(s).len() == s.len(),
        pickups_model(s)[i] == pickup_model(s[i]),
    decreases s.len(),
{
    lemma_pickups_model_len(s);
    if i < s.len() - 1 {
        lemma_pickups_model_index(s.drop_last(), i);
    }
}

pub proof fn lemma_pickups_model_len(s: Seq<SpawnablePickup>)
    ensures
        pickups_model(s).len() == s.len(),
    decreases s.len(),
{
    if s.len() > 0 {
        lemma_pickups_model_len(s.drop_last());
    }
}

proof fn lemma_pickups_model_push(s: Seq<SpawnablePickup>, p: SpawnablePickup)
    ensures
        pickups_model(s.push(p)) == pickups_model(s).push(pickup_model(p)),
{
    assert(s.push(p).drop_last() == s);
}

impl NarrativeActions {
    /// A bundle that only sends these messages.
    pub fn new_with_texts(send_texts: Vec<NarrativeTextMessage>) -> (r: NarrativeActions)
        ensures
            actions_model(r) == (ActionsModel { texts: texts_model(send_texts@), ..empty_actions() }),
    {
        let mut r = action();
        r.send_texts = send_texts;
        r
    }

    /// A bundle that only changes the sanity meter (or shows a "0" for `Some(0)`).
    pub fn new_with_sanity(change_sanity: Option<i32>) -> (r: NarrativeActions)
        ensures
            actions_model(r) == (ActionsModel { change_sanity, ..empty_actions() }),
    {
        let mut r = action();
        r.change_sanity = change_sanity;
        r
    }

    /// A bundle that only places these collectibles.
    pub fn new_with_pickup(spawn_item: Vec<SpawnablePickup>) -> (r: NarrativeActions)
        ensures
            actions_model(r) == (ActionsModel { items: pickups_model(spawn_item@), ..empty_actions() }),
    {
        let mut r = action();
        r.spawn_item = spawn_item;
        r
    }

    /// This bundle with one more message, sent after the others.
    pub fn send_text(self, sender: &str, body: &str) -> (r: NarrativeActions)
        ensures
            actions_model(r) == (ActionsModel {
                texts: actions_model(self).texts.push((sender@, body@)),
                ..actions_model(self)
            }),
    {
        let mut r = self;
        let m = NarrativeTextMessage { sender: sender.to_owned(), body: body.to_owned() };
        r.send_texts.push(m);
        proof {
            assert(texts_model(r.send_texts@) =~= texts_model(self.send_texts@).push((sender@, body@)));
        }
        r
    }

    /// This bundle with its sanity change set to `by`.
    pub fn change_sanity(self, by: i32) -> (r: NarrativeActions)
        ensures
            actions_model(r) == (ActionsModel { change_sanity: Some(by), ..actions_model(self) }),
    {
        let mut r = self;
        r.change_sanity = Some(by);
        r
    }

    /// This bundle with one more collectible placed at tile `at`, collecting
    /// which applies `narrative_actions`.
    pub fn spawn_pickup(self, what: Pickup, at: (usize, usize), narrative_actions: NarrativeActions) -> (r: NarrativeActions)
        ensures
            actions_model(r) == (ActionsModel {
                items: actions_model(self).items.push(PickupModel {
                    prototype: what,
                    location: at,
                    on_collect: actions_model(narrative_actions),
                }),
                ..actions_model(self)
            }),
    {
        let mut r = self;
        let p = SpawnablePickup { prototype: what, location: at, narrative_actions };
        proof {
            lemma_pickups_model_push(self.spawn_item@, p);
        }
        r.spawn_item.push(p);
        r
    }

    /// This bundle with one more wandering character placed at tile `at`.
    pub fn spawn_character(self, at: (usize, usize)) -> (r: NarrativeActions)
        ensures
            actions_model(r) == (ActionsModel {
                characters: actions_model(self).characters.push(at),
                ..actions_model(self)
            }),
    {
        let mut r = self;
        r.spawn_character.push(at);
        r
    }

    /// This bundle with one more change of access: `area` becomes locked when
    /// `locked`, open otherwise.
    pub fn change_access(self, area: Location, locked: bool) -> (r: NarrativeActions)
        ensures
            actions_model(r) == (ActionsModel {
                access: actions_model(self).access.push(AreaAccessChange { area, newly_locked: locked }),
                ..actions_model(self)
            }),
    {
        let mut r = self;
        r.area_access_change.push(AreaAccessChange { area, newly_locked: locked });
        r
    }
}

} // verus!
