//! The tabular script format: a header row naming the columns, then one row
//! per narrative beat. Rows become narrative events.
use vstd::prelude::*;
use crate::environment::{AreaAccessChange, Location};
use crate::fields::{
    all_digits, chars_of, digits_value, matches_literal, millis_spec, parse_i32, parse_millis,
    parse_usize, pieces_view, signed_spec, split_chars, split_spec,
};
use crate::narrative::{
    action, actions_model, empty_actions, events_model, pickup_model, pickups_model, texts_model,
    ActionsModel, EventModel, NarrativeActions, NarrativeCriterion, NarrativeEvent,
    NarrativeTextMessage, PickupModel, SpawnablePickup,
};
use crate::pickup::Pickup;

verus! {

/// Why a script row cannot be read.
#[derive(Clone, Copy, Debug, PartialEq, Eq, Structural)]
pub enum RowFault {
    /// The elapsed time is not a non-negative number of seconds in decimal or
    /// exponent notation (see `millis_spec`), or its milliseconds exceed
    /// `u64`.
    BadTime,
    /// The sanity change is not a base-10 `i32`.
    BadSanity,
    /// A character's position is not two base-10 tile coordinates.
    BadCoordinates,
    /// An area name is not one of `Home`, `Park`, `Shops`.
    UnknownArea,
    /// An item name is not in the catalog.
    UnknownItem,
    /// A character name is not known.
    UnknownCharacter,
}

/// Why a script cannot be loaded.
#[derive(Clone, Copy, Debug, PartialEq, Eq, Structural)]
pub enum ScriptError {
    /// The source is not a well-formed table.
    Unreadable,
    /// The data row at position `row` (counting from 0 after the header) is
    /// malformed.
    BadRow { row: usize, fault: RowFault },
}

/// The area that a name denotes.
pub open spec fn location_spec(s: Seq<char>) -> Option<Location> {
    if s == "Home"@ {
        Some(Location::Home)
    } else if s == "Park"@ {
        Some(Location::Park)
    } else if s == "Shops"@ {
        Some(Location::Shops)
    } else {
        None
    }
}

fn location_of_chars(s: &Vec<char>) -> (r: Option<Location>)
    ensures
        r == location_spec(s@),
{
    if matches_literal(s, "Home") {
        Some(Location::Home)
    } else if matches_literal(s, "Park") {
        Some(Location::Park)
    } else if matches_literal(s, "Shops") {
        Some(Location::Shops)
    } else {
        None
    }
}

/// The area named `s`, if it is one.
pub fn str2location(s: &str) -> (r: Option<Location>)
    ensures
        r == location_spec(s@),
{
    location_of_chars(&chars_of(s))
}

/// The catalog kind of an item name.
pub open spec fn item_kind_spec(s: Seq<char>) -> Option<Pickup> {
    if s == "Care Package"@ {
        Some(Pickup::CarePackage)
    } else if s == "TV"@ {
        Some(Pickup::Tv)
    } else if s == "Fridge"@ {
        Some(Pickup::Fridge)
    } else if s == "Pillow"@ {
        Some(Pickup::Pillow)
    } else if s == "Soap"@ {
        Some(Pickup::Soap)
    } else if s == "Towel"@ {
        Some(Pickup::Towel)
    } else if s == "Video Game"@ {
        Some(Pickup::VideoGame)
    } else {
        None
    }
}

/// Tile at which catalog items appear.
pub const ITEM_TILE_X: usize = 5;
pub const ITEM_TILE_Y: usize = 5;

/// Sanity gained by collecting a care package.
pub const CARE_PACKAGE_REWARD: i32 = 20;
/// Sanity gained by collecting any other catalog item.
pub const ITEM_REWARD: i32 = 10;

pub open spec fn reward_spec(kind: Pickup) -> i32 {
    if kind == Pickup::CarePackage { CARE_PACKAGE_REWARD } else { ITEM_REWARD }
}

/// The placement that the catalog fixes for an item kind: its tile, and a
/// sanity reward on collection.
pub open spec fn catalog_spec(kind: Pickup) -> PickupModel {
    PickupModel {
        prototype: kind,
        location: (ITEM_TILE_X, ITEM_TILE_Y),
        on_collect: ActionsModel { change_sanity: Some(reward_spec(kind)), ..empty_actions() },
    }
}

/// The placement for the item named `s`, if the catalog has it.
pub open spec fn spawn_item_spec(s: Seq<char>) -> Option<PickupModel> {
    match item_kind_spec(s) {
        Some(kind) => Some(catalog_spec(kind)),
        None => None,
    }
}

fn item_kind_of(s: &Vec<char>) -> (r: Option<Pickup>)
    ensures
        r == item_kind_spec(s@),
{
    if matches_literal(s, "Care Package") {
        Some(Pickup::CarePackage)
    } else if matches_literal(s, "TV") {
        Some(Pickup::Tv)
    } else if matches_literal(s, "Fridge") {
        Some(Pickup::Fridge)
    } else if matches_literal(s, "Pillow") {
        Some(Pickup::Pillow)
    } else if matches_literal(s, "Soap") {
        Some(Pickup::Soap)
    } else if matches_literal(s, "Towel") {
        Some(Pickup::Towel)
    } else if matches_literal(s, "Video Game") {
        Some(Pickup::VideoGame)
    } else {
        None
    }
}

/// The catalog placement of an item kind.
pub fn catalog_pickup(kind: Pickup) -> (r: SpawnablePickup)
    ensures
        pickup_model(r) == catalog_spec(kind),
{
    let reward = if kind == Pickup::CarePackage { CARE_PACKAGE_REWARD } else { ITEM_REWARD };
    SpawnablePickup {
        prototype: kind,
        location: (ITEM_TILE_X, ITEM_TILE_Y),
        narrative_actions: action().change_sanity(reward),
    }
}

/// The placement for the item named `s`, if the catalog has it.
pub fn str2spawnitem(s: &str) -> (r: Option<SpawnablePickup>)
    ensures
        r is Some <==> spawn_item_spec(s@) is Some,
        r is Some ==> pickup_model(r->0) == spawn_item_spec(s@)->0,
{
    match item_kind_of(&chars_of(s)) {
        Some(kind) => Some(catalog_pickup(kind)),
        None => None,
    }
}

/// Whether a cell holds anything.
pub fn non_empty(s: &str) -> (r: bool)
    ensures
        r == (s@.len() > 0),
{
    s.unicode_len() > 0
}

/// A column that the loader reads.
#[derive(Clone, Copy, Debug, PartialEq, Eq, Structural)]
pub enum Column {
    ElapsedTime,
    ClearedAll,
    LocationChange,
    Sender,
    BodyPolished,
    BodyRough,
    ChangeSanity,
    SpawnItem,
    SpawnNpc,
    UnlockArea,
    LockArea,
}

/// The header text of a column.
pub open spec fn column_name_spec(c: Column) -> Seq<char> {
    match c {
        Column::ElapsedTime => "Elapsed Time"@,
        Column::ClearedAll => "Cleared All Pickups?"@,
        Column::LocationChange => "Location change?"@,
        Column::Sender => "Sender"@,
        Column::BodyPolished => "Body (Polished)"@,
        Column::BodyRough => "Body (Rough)"@,
        Column::ChangeSanity => "Change Sanity?"@,
        Column::SpawnItem => "Spawn Item?"@,
        Column::SpawnNpc => "Spawn NPC"@,
        Column::UnlockArea => "Unlock area?"@,
        Column::LockArea => "Lock area?"@,
    }
}

impl Column {
    pub fn name(self) -> (r: &'static str)
        ensures
            r@ == column_name_spec(self),
    {
        match self {
            Column::ElapsedTime => "Elapsed Time",
            Column::ClearedAll => "Cleared All Pickups?",
            Column::LocationChange => "Location change?",
            Column::Sender => "Sender",
            Column::BodyPolished => "Body (Polished)",
            Column::BodyRough => "Body (Rough)",
            Column::ChangeSanity => "Change Sanity?",
            Column::SpawnItem => "Spawn Item?",
            Column::SpawnNpc => "Spawn NPC",
            Column::UnlockArea => "Unlock area?",
            Column::LockArea => "Lock area?",
        }
    }
}

/// The cells of a row, as character sequences.
pub open spec fn cells_view(row: Seq<String>) -> Seq<Seq<char>> {
    row.map_values(|s: String| s@)
}

/// The position of the last header cell equal to `name`.
pub open spec fn last_index_spec(header: Seq<Seq<char>>, name: Seq<char>) -> Option<nat>
    decreases header.len(),
{
    if header.len() == 0 {
        None
    } else if header.last() == name {
        Some((header.len() - 1) as nat)
    } else {
        last_index_spec(header.drop_last(), name)
    }
}

proof fn lemma_last_index_bound(header: Seq<Seq<char>>, name: Seq<char>)
    ensures
        last_index_spec(header, name) matches Some(i) ==> i < header.len(),
    decreases header.len(),
{
    if header.len() > 0 {
        lemma_last_index_bound(header.drop_last(), name);
    }
}

/// The cell of `row` under column `c`; empty when the header lacks the column
/// or the row is shorter.
pub open spec fn field_spec(header: Seq<Seq<char>>, row: Seq<Seq<char>>, c: Column) -> Seq<char> {
    match last_index_spec(header, column_name_spec(c)) {
        Some(i) => if i < row.len() { row[i as int] } else { Seq::empty() },
        None => Seq::empty(),
    }
}

/// Where each column that the loader reads stands in the header.
pub struct ScriptHeader {
    pub elapsed_time: Option<usize>,
    pub cleared_all: Option<usize>,
    pub location_change: Option<usize>,
    pub sender: Option<usize>,
    pub body_polished: Option<usize>,
    pub body_rough: Option<usize>,
    pub change_sanity: Option<usize>,
    pub spawn_item: Option<usize>,
    pub spawn_npc: Option<usize>,
    pub unlock_area: Option<usize>,
    pub lock_area: Option<usize>,
}

impl ScriptHeader {
    pub open spec fn position(self, c: Column) -> Option<usize> {
        match c {
            Column::ElapsedTime => self.elapsed_time,
            Column::ClearedAll => self.cleared_all,
            Column::LocationChange => self.location_change,
            Column::Sender => self.sender,
            Column::BodyPolished => self.body_polished,
            Column::BodyRough => self.body_rough,
            Column::ChangeSanity => self.change_sanity,
            Column::SpawnItem => self.spawn_item,
            Column::SpawnNpc => self.spawn_npc,
            Column::UnlockArea => self.unlock_area,
            Column::LockArea => self.lock_area,
        }
    }

    /// The header is that of the row `header`.
    pub open spec fn describes(self, header: Seq<Seq<char>>) -> bool {
        &&& header.len() <= usize::MAX
        &&& forall|c: Column| #[trigger] self.position(c) == (match last_index_spec(header, column_name_spec(c)) {
            Some(i) => Some(i as usize),
            None => None::<usize>,
        })
    }
}

/// The position of the last cell of `header` that reads `name`.
fn find_column(header: &Vec<String>, name: &str) -> (r: Option<usize>)
    ensures
        r == (match last_index_spec(cells_view(header@), name@) {
            Some(i) => Some(i as usize),
            None => None::<usize>,
        }),
{
    let ghost h = cells_view(header@);
    let mut found: Option<usize> = None;
    let mut i: usize = 0;
    while i < header.len()
        invariant
            i <= header@.len(),
            h == cells_view(header@),
            found == (match last_index_spec(h.subrange(0, i as int), name@) {
                Some(k) => Some(k as usize),
                None => None::<usize>,
            }),
            found matches Some(k) ==> k < i,
        decreases header@.len() - i,
    {
        let cell = chars_of(header[i].as_str());
        proof {
            assert(h.subrange(0, i + 1).drop_last() == h.subrange(0, i as int));
            assert(h.subrange(0, i + 1).last() == header@[i as int]@);
        }
        if matches_literal(&cell, name) {
            found = Some(i);
        }
        i = i + 1;
    }
    proof {
        assert(h.subrange(0, header@.len() as int) == h);
    }
    found
}

/// Locates the loader's columns in a header row.
pub fn csv_header(rec: &Vec<String>) -> (r: ScriptHeader)
    ensures
        r.describes(cells_view(rec@)),
{
    let r = ScriptHeader {
        elapsed_time: find_column(rec, Column::ElapsedTime.name()),
        cleared_all: find_column(rec, Column::ClearedAll.name()),
        location_change: find_column(rec, Column::LocationChange.name()),
        sender: find_column(rec, Column::Sender.name()),
        body_polished: find_column(rec, Column::BodyPolished.name()),
        body_rough: find_column(rec, Column::BodyRough.name()),
        change_sanity: find_column(rec, Column::ChangeSanity.name()),
        spawn_item: find_column(rec, Column::SpawnItem.name()),
        spawn_npc: find_column(rec, Column::SpawnNpc.name()),
        unlock_area: find_column(rec, Column::UnlockArea.name()),
        lock_area: find_column(rec, Column::LockArea.name()),
    };
    let n = rec.len();
    assert(cells_view(rec@).len() == n);
    assert forall|c: Column| #[trigger] r.position(c) == (match last_index_spec(cells_view(rec@), column_name_spec(c)) {
        Some(i) => Some(i as usize),
        None => None::<usize>,
    }) by {
        match c {
            Column::ElapsedTime => {},
            Column::ClearedAll => {},
            Column::LocationChange => {},
            Column::Sender => {},
            Column::BodyPolished => {},
            Column::BodyRough => {},
            Column::ChangeSanity => {},
            Column::SpawnItem => {},
            Column::SpawnNpc => {},
            Column::UnlockArea => {},
            Column::LockArea => {},
        }
    }
    r
}

/// The cell of row `r` under column `v` (empty when absent).
pub(crate) fn get<'a>(h: &ScriptHeader, r: &'a Vec<String>, v: Column, header: Ghost<Seq<Seq<char>>>) -> (s: &'a str)
    requires
        h.describes(header@),
    ensures
        s@ == field_spec(header@, cells_view(r@), v),
{
    proof {
        reveal_strlit("");
        lemma_last_index_bound(header@, column_name_spec(v));
    }
    let pos = match v {
        Column::ElapsedTime => h.elapsed_time,
        Column::ClearedAll => h.cleared_all,
        Column::LocationChange => h.location_change,
        Column::Sender => h.sender,
        Column::BodyPolished => h.body_polished,
        Column::BodyRough => h.body_rough,
        Column::ChangeSanity => h.change_sanity,
        Column::SpawnItem => h.spawn_item,
        Column::SpawnNpc => h.spawn_npc,
        Column::UnlockArea => h.unlock_area,
        Column::LockArea => h.lock_area,
    };
    assert(pos == h.position(v));
    let empty = "";
    assert(empty@ =~= Seq::<char>::empty());
    match pos {
        Some(i) => if i < r.len() {
            assert(cells_view(r@)[i as int] == r@[i as int]@);
            r[i].as_str()
        } else {
            empty
        },
        None => empty,
    }
}

/// The elapsed-time cell: absent, or a time in milliseconds.
pub open spec fn time_spec(s: Seq<char>) -> Result<Option<u64>, RowFault> {
    if s.len() == 0 {
        Ok(None)
    } else {
        match millis_spec(s) {
            Some(v) => if v <= u64::MAX { Ok(Some(v as u64)) } else { Err(RowFault::BadTime) },
            None => Err(RowFault::BadTime),
        }
    }
}

/// The criterion other than time. A non-empty area cell must name an area,
/// whatever else the row holds; any mark in the cleared-all cell then wins
/// over the area.
pub open spec fn condition_spec(cleared: Seq<char>, area: Seq<char>) -> Result<Option<NarrativeCriterion>, RowFault> {
    if area.len() > 0 && location_spec(area) is None {
        Err(RowFault::UnknownArea)
    } else if cleared.len() > 0 {
        Ok(Some(NarrativeCriterion::ClearedAll))
    } else if area.len() > 0 {
        Ok(Some(NarrativeCriterion::InEnvironment(location_spec(area)->0)))
    } else {
        Ok(None)
    }
}

/// The message of a row: sent when there is a sender that does not start
/// with `[` and a body, the polished body preferred over the rough one.
pub open spec fn texts_spec(sender: Seq<char>, polished: Seq<char>, rough: Seq<char>) -> Seq<(Seq<char>, Seq<char>)> {
    let body = if polished.len() > 0 { polished } else { rough };
    if sender.len() > 0 && sender[0] != '[' && body.len() > 0 {
        seq![(sender, body)]
    } else {
        Seq::empty()
    }
}

pub open spec fn sanity_spec(s: Seq<char>) -> Result<Option<i32>, RowFault> {
    if s.len() == 0 {
        Ok(None)
    } else {
        match signed_spec(s) {
            Some(v) => if i32::MIN <= v <= i32::MAX { Ok(Some(v as i32)) } else { Err(RowFault::BadSanity) },
            None => Err(RowFault::BadSanity),
        }
    }
}

pub open spec fn items_spec(s: Seq<char>) -> Result<Seq<PickupModel>, RowFault> {
    if s.len() == 0 {
        Ok(Seq::empty())
    } else {
        match spawn_item_spec(s) {
            Some(p) => Ok(seq![p]),
            None => Err(RowFault::UnknownItem),
        }
    }
}

pub open spec fn coordinate_spec(s: Seq<char>) -> Option<usize> {
    if s.len() > 0 && all_digits(s) && digits_value(s) <= usize::MAX {
        Some(digits_value(s) as usize)
    } else {
        None
    }
}

/// A character cell: `NPC;x;y`.
pub open spec fn characters_spec(s: Seq<char>) -> Result<Seq<(usize, usize)>, RowFault> {
    if s.len() == 0 {
        Ok(Seq::empty())
    } else {
        let p = split_spec(s, ';');
        if p.len() != 3 {
            Err(RowFault::BadCoordinates)
        } else if p[0] != "NPC"@ {
            Err(RowFault::UnknownCharacter)
        } else {
            match (coordinate_spec(p[1]), coordinate_spec(p[2])) {
                (Some(x), Some(y)) => Ok(seq![(x, y)]),
                _ => Err(RowFault::BadCoordinates),
            }
        }
    }
}

/// The areas named by every piece, if each names one.
pub open spec fn locations_spec(p: Seq<Seq<char>>) -> Option<Seq<Location>>
    decreases p.len(),
{
    if p.len() == 0 {
        Some(Seq::empty())
    } else {
        match (locations_spec(p.drop_last()), location_spec(p.last())) {
            (Some(ls), Some(l)) => Some(ls.push(l)),
            _ => None,
        }
    }
}

pub open spec fn access_of(ls: Seq<Location>, locked: bool) -> Seq<AreaAccessChange> {
    ls.map_values(|l: Location| AreaAccessChange { area: l, newly_locked: locked })
}

/// An area-list cell (names separated by `;`), each area becoming locked when
/// `locked` and open otherwise.
pub open spec fn access_spec(s: Seq<char>, locked: bool) -> Result<Seq<AreaAccessChange>, RowFault> {
    if s.len() == 0 {
        Ok(Seq::empty())
    } else {
        match locations_spec(split_spec(s, ';')) {
            Some(ls) => Ok(access_of(ls, locked)),
            None => Err(RowFault::UnknownArea),
        }
    }
}

/// The action bundle of a row, the cells checked in the order sanity, item,
/// character, unlocks, locks; unlocks come before locks.
pub open spec fn row_action_spec(h: Seq<Seq<char>>, row: Seq<Seq<char>>) -> Result<ActionsModel, RowFault> {
    match sanity_spec(field_spec(h, row, Column::ChangeSanity)) {
        Err(e) => Err(e),
        Ok(sanity) => match items_spec(field_spec(h, row, Column::SpawnItem)) {
            Err(e) => Err(e),
            Ok(items) => match characters_spec(field_spec(h, row, Column::SpawnNpc)) {
                Err(e) => Err(e),
                Ok(characters) => match access_spec(field_spec(h, row, Column::UnlockArea), false) {
                    Err(e) => Err(e),
                    Ok(unlocks) => match access_spec(field_spec(h, row, Column::LockArea), true) {
                        Err(e) => Err(e),
                        Ok(locks) => Ok(ActionsModel {
                            texts: texts_spec(
                                field_spec(h, row, Column::Sender),
                                field_spec(h, row, Column::BodyPolished),
                                field_spec(h, row, Column::BodyRough),
                            ),
                            change_sanity: sanity,
                            items,
                            characters,
                            access: unlocks + locks,
                        }),
                    },
                },
            },
        },
    }
}

/// The events of one row. No criterion: none. A time and another criterion:
/// an event with that criterion and no effect, then the timed event with the
/// row's effects. One criterion: one event with the row's effects. Only the
/// events carrying the row's effects start an act.
pub open spec fn row_events_spec(h: Seq<Seq<char>>, row: Seq<Seq<char>>) -> Result<Seq<EventModel>, RowFault> {
    match time_spec(field_spec(h, row, Column::ElapsedTime)) {
        Err(e) => Err(e),
        Ok(time) => match condition_spec(field_spec(h, row, Column::ClearedAll), field_spec(h, row, Column::LocationChange)) {
            Err(e) => Err(e),
            Ok(cond) => match row_action_spec(h, row) {
                Err(e) => Err(e),
                Ok(a) => Ok(match (cond, time) {
                    (None, None) => Seq::empty(),
                    (Some(g), Some(t)) => seq![
                        EventModel { starts_act: false, criterion: g, action: empty_actions() },
                        EventModel { starts_act: true, criterion: NarrativeCriterion::ElapsedRel(t), action: a },
                    ],
                    (Some(g), None) => seq![EventModel { starts_act: true, criterion: g, action: a }],
                    (None, Some(t)) => seq![
                        EventModel { starts_act: true, criterion: NarrativeCriterion::ElapsedRel(t), action: a },
                    ],
                }),
            },
        },
    }
}

fn read_time(s: &str) -> (r: Result<Option<u64>, RowFault>)
    ensures
        r == time_spec(s@),
{
    if !non_empty(s) {
        return Ok(None);
    }
    match parse_millis(&chars_of(s)) {
        Some(v) => Ok(Some(v)),
        None => Err(RowFault::BadTime),
    }
}

fn read_condition(cleared: &str, area: &str) -> (r: Result<Option<NarrativeCriterion>, RowFault>)
    ensures
        r == condition_spec(cleared@, area@),
{
    let named = if non_empty(area) {
        match str2location(area) {
            Some(l) => Some(l),
            None => return Err(RowFault::UnknownArea),
        }
    } else {
        None
    };
    if non_empty(cleared) {
        Ok(Some(NarrativeCriterion::ClearedAll))
    } else {
        match named {
            Some(l) => Ok(Some(NarrativeCriterion::InEnvironment(l))),
            None => Ok(None),
        }
    }
}

fn read_texts(sender: &str, polished: &str, rough: &str) -> (r: Vec<NarrativeTextMessage>)
    ensures
        texts_model(r@) == texts_spec(sender@, polished@, rough@),
{
    let body = if non_empty(polished) { polished } else { rough };
    let mut r: Vec<NarrativeTextMessage> = Vec::new();
    if non_empty(sender) && sender.get_char(0) != '[' && non_empty(body) {
        r.push(NarrativeTextMessage { sender: sender.to_owned(), body: body.to_owned() });
        assert(texts_model(r@) =~= seq![(sender@, body@)]);
    } else {
        assert(texts_model(r@) =~= Seq::<(Seq<char>, Seq<char>)>::empty());
    }
    r
}

fn read_sanity(s: &str) -> (r: Result<Option<i32>, RowFault>)
    ensures
        r == sanity_spec(s@),
{
    if !non_empty(s) {
        return Ok(None);
    }
    match parse_i32(&chars_of(s)) {
        Some(v) => Ok(Some(v)),
        None => Err(RowFault::BadSanity),
    }
}

fn read_items(s: &str) -> (r: Result<Vec<SpawnablePickup>, RowFault>)
    ensures
        match (r, items_spec(s@)) {
            (Ok(v), Ok(m)) => pickups_model(v@) == m,
            (Err(e), Err(f)) => e == f,
            _ => false,
        },
{
    let mut v: Vec<SpawnablePickup> = Vec::new();
    assert(pickups_model(v@) =~= Seq::<PickupModel>::empty());
    if !non_empty(s) {
        return Ok(v);
    }
    match str2spawnitem(s) {
        Some(p) => {
            let ghost before = v@;
            v.push(p);
            assert(v@.drop_last() == before);
            assert(pickups_model(v@) =~= seq![pickup_model(p)]);
            Ok(v)
        },
        None => Err(RowFault::UnknownItem),
    }
}

fn read_characters(s: &str) -> (r: Result<Vec<(usize, usize)>, RowFault>)
    ensures
        match (r, characters_spec(s@)) {
            (Ok(v), Ok(m)) => v@ == m,
            (Err(e), Err(f)) => e == f,
            _ => false,
        },
{
    let mut v: Vec<(usize, usize)> = Vec::new();
    if !non_empty(s) {
        assert(v@ =~= Seq::<(usize, usize)>::empty());
        return Ok(v);
    }
    let p = split_chars(&chars_of(s), ';');
    let ghost ps = split_spec(s@, ';');
    assert(p@.len() == ps.len());
    if p.len() != 3 {
        return Err(RowFault::BadCoordinates);
    }
    assert(p@[0]@ == ps[0]);
    assert(p@[1]@ == ps[1]);
    assert(p@[2]@ == ps[2]);
    if !matches_literal(&p[0], "NPC") {
        return Err(RowFault::UnknownCharacter);
    }
    match (parse_usize(&p[1]), parse_usize(&p[2])) {
        (Some(x), Some(y)) => {
            v.push((x, y));
            assert(v@ =~= seq![(x, y)]);
            Ok(v)
        },
        _ => Err(RowFault::BadCoordinates),
    }
}

fn read_access(s: &str, locked: bool) -> (r: Result<Vec<AreaAccessChange>, RowFault>)
    ensures
        match (r, access_spec(s@, locked)) {
            (Ok(v), Ok(m)) => v@ == m,
            (Err(e), Err(f)) => e == f,
            _ => false,
        },
{
    let mut v: Vec<AreaAccessChange> = Vec::new();
    if !non_empty(s) {
        assert(v@ =~= Seq::<AreaAccessChange>::empty());
        return Ok(v);
    }
    let p = split_chars(&chars_of(s), ';');
    let ghost ps = split_spec(s@, ';');
    let mut i: usize = 0;
    while i < p.len()
        invariant
            i <= p@.len(),
            pieces_view(p@) == ps,
            ps == split_spec(s@, ';'),
            s@.len() > 0,
            locations_spec(ps.subrange(0, i as int)) matches Some(ls) && v@ == access_of(ls, locked),
        decreases p@.len() - i,
    {
        let ghost sub = ps.subrange(0, i + 1);
        assert(sub.drop_last() == ps.subrange(0, i as int));
        assert(sub.last() == p@[i as int]@);
        match location_of_chars(&p[i]) {
            Some(l) => {
                let ghost ls = locations_spec(ps.subrange(0, i as int))->0;
                v.push(AreaAccessChange { area: l, newly_locked: locked });
                assert(v@ =~= access_of(ls.push(l), locked));
            },
            None => {
                proof {
                    assert(location_spec(sub.last()) is None);
                    assert(locations_spec(sub) is None);
                    lemma_locations_prefix(ps, i + 1);
                }
                return Err(RowFault::UnknownArea);
            },
        }
        i = i + 1;
    }
    assert(ps.subrange(0, p@.len() as int) == ps);
    Ok(v)
}

fn read_action(h: &ScriptHeader, row: &Vec<String>, header: Ghost<Seq<Seq<char>>>) -> (r: Result<NarrativeActions, RowFault>)
    requires
        h.describes(header@),
    ensures
        match (r, row_action_spec(header@, cells_view(row@))) {
            (Ok(a), Ok(m)) => actions_model(a) == m,
            (Err(e), Err(f)) => e == f,
            _ => false,
        },
{
    let sanity = match read_sanity(get(h, row, Column::ChangeSanity, header)) {
        Ok(v) => v,
        Err(e) => return Err(e),
    };
    let items = match read_items(get(h, row, Column::SpawnItem, header)) {
        Ok(v) => v,
        Err(e) => return Err(e),
    };
    let characters = match read_characters(get(h, row, Column::SpawnNpc, header)) {
        Ok(v) => v,
        Err(e) => return Err(e),
    };
    let mut access = match read_access(get(h, row, Column::UnlockArea, header), false) {
        Ok(v) => v,
        Err(e) => return Err(e),
    };
    let mut locks = match read_access(get(h, row, Column::LockArea, header), true) {
        Ok(v) => v,
        Err(e) => return Err(e),
    };
    access.append(&mut locks);
    let texts = read_texts(
        get(h, row, Column::Sender, header),
        get(h, row, Column::BodyPolished, header),
        get(h, row, Column::BodyRough, header),
    );
    Ok(NarrativeActions {
        send_texts: texts,
        change_sanity: sanity,
        spawn_item: items,
        spawn_character: characters,
        area_access_change: access,
    })
}

/// The events of one data row, or what is wrong with it.
pub(crate) fn decode_row(h: &ScriptHeader, row: &Vec<String>, header: Ghost<Seq<Seq<char>>>) -> (r: Result<Vec<NarrativeEvent>, RowFault>)
    requires
        h.describes(header@),
    ensures
        match (r, row_events_spec(header@, cells_view(row@))) {
            (Ok(v), Ok(m)) => events_model(v@) == m,
            (Err(e), Err(f)) => e == f,
            _ => false,
        },
{
    let time = match read_time(get(h, row, Column::ElapsedTime, header)) {
        Ok(v) => v,
        Err(e) => return Err(e),
    };
    let cond = match read_condition(get(h, row, Column::ClearedAll, header), get(h, row, Column::LocationChange, header)) {
        Ok(v) => v,
        Err(e) => return Err(e),
    };
    let a = match read_action(h, row, header) {
        Ok(v) => v,
        Err(e) => return Err(e),
    };
    let mut events: Vec<NarrativeEvent> = Vec::new();
    match (cond, time) {
        (None, None) => {},
        (Some(g), Some(t)) => {
            events.push(NarrativeEvent { starts_act: false, criterion: g, action: action() });
            events.push(NarrativeEvent { starts_act: true, criterion: NarrativeCriterion::ElapsedRel(t), action: a });
        },
        (Some(g), None) => {
            events.push(NarrativeEvent { starts_act: true, criterion: g, action: a });
        },
        (None, Some(t)) => {
            events.push(NarrativeEvent { starts_act: true, criterion: NarrativeCriterion::ElapsedRel(t), action: a });
        },
    }
    let ghost m = row_events_spec(header@, cells_view(row@))->Ok_0;
    assert(events_model(events@) =~= m);
    Ok(events)
}

/// The rows of a table, as character sequences.
pub open spec fn records_view(rows: Seq<Vec<String>>) -> Seq<Seq<Seq<char>>> {
    rows.map_values(|r: Vec<String>| cells_view(r@))
}

/// The events of the data rows under header `h`, in order, or the first
/// malformed row.
pub open spec fn rows_spec(h: Seq<Seq<char>>, rows: Seq<Seq<Seq<char>>>) -> Result<Seq<EventModel>, ScriptError>
    decreases rows.len(),
{
    if rows.len() == 0 {
        Ok(Seq::empty())
    } else {
        match rows_spec(h, rows.drop_last()) {
            Err(e) => Err(e),
            Ok(events) => match row_events_spec(h, rows.last()) {
                Err(f) => Err(ScriptError::BadRow { row: (rows.len() - 1) as usize, fault: f }),
                Ok(more) => Ok(events + more),
            },
        }
    }
}

/// The events of a whole table: its first row is the header, the rest are
/// data rows. An empty table holds no event.
pub open spec fn script_spec(records: Seq<Seq<Seq<char>>>) -> Result<Seq<EventModel>, ScriptError> {
    if records.len() == 0 {
        Ok(Seq::empty())
    } else {
        rows_spec(records[0], records.drop_first())
    }
}

proof fn lemma_rows_error_prefix(h: Seq<Seq<char>>, rows: Seq<Seq<Seq<char>>>, k: int)
    requires
        0 <= k <= rows.len(),
        rows_spec(h, rows.subrange(0, k)) is Err,
    ensures
        rows_spec(h, rows) == rows_spec(h, rows.subrange(0, k)),
    decreases rows.len() - k,
{
    if k < rows.len() {
        assert(rows.subrange(0, k + 1).drop_last() == rows.subrange(0, k));
        lemma_rows_error_prefix(h, rows, k + 1);
    } else {
        assert(rows.subrange(0, k) == rows);
    }
}

/// Turns a table (header row first) into narrative events, failing on the
/// first malformed data row.
pub fn parse_script(records: &Vec<Vec<String>>) -> (r: Result<Vec<NarrativeEvent>, ScriptError>)
    ensures
        match (r, script_spec(records_view(records@))) {
            (Ok(v), Ok(m)) => events_model(v@) == m,
            (Err(e), Err(f)) => e == f,
            _ => false,
        },
{
    let mut events: Vec<NarrativeEvent> = Vec::new();
    if records.len() == 0 {
        assert(events_model(events@) =~= Seq::<EventModel>::empty());
        return Ok(events);
    }
    let ghost all = records_view(records@);
    let ghost hv = all[0];
    let ghost rows = all.drop_first();
    assert(hv == cells_view(records@[0]@));
    let h = csv_header(&records[0]);
    assert(events_model(events@) =~= Seq::<EventModel>::empty());
    let mut i: usize = 1;
    while i < records.len()
        invariant
            1 <= i <= records@.len(),
            all == records_view(records@),
            hv == all[0],
            rows == all.drop_first(),
            h.describes(hv),
            rows_spec(hv, rows.subrange(0, i - 1)) == Ok::<Seq<EventModel>, ScriptError>(events_model(events@)),
        decreases records@.len() - i,
    {
        let ghost sub = rows.subrange(0, i as int);
        assert(sub.drop_last() == rows.subrange(0, i - 1));
        assert(sub.last() == cells_view(records@[i as int]@));
        match decode_row(&h, &records[i], Ghost(hv)) {
            Ok(mut more) => {
                let ghost before = events@;
                let ghost added = more@;
                events.append(&mut more);
                assert(events_model(events@) =~= events_model(before) + events_model(added));
            },
            Err(f) => {
                let e = ScriptError::BadRow { row: i - 1, fault: f };
                proof {
                    lemma_rows_error_prefix(hv, rows, i as int);
                }
                return Err(e);
            },
        }
        i = i + 1;
    }
    assert(rows.subrange(0, rows.len() as int) == rows);
    Ok(events)
}

/// The `csv` crate's error, carried opaque: its only use here is to say that
/// reading failed.
#[verifier::external_type_specification]
#[verifier::external_body]
pub struct ExCsvError(csv::Error);

/// The records that the `csv` crate reads from `source`, each as its fields;
/// `None` when it cannot read them.
pub uninterp spec fn csv_records(source: Seq<u8>) -> Option<Seq<Seq<Seq<char>>>>;

/// Relies on `csv::ReaderBuilder` (no header handling, records of equal
/// length) and `csv::Reader::records`: when reading succeeds, every record of
/// `source` in order, each as its fields; whether reading succeeds and what is
/// read depend on the bytes alone.
#[verifier::external_body]
fn read_records(source: &[u8]) -> (r: Result<Vec<Vec<String>>, csv::Error>)
    ensures
        r is Ok <==> csv_records(source@) is Some,
        r matches Ok(rows) ==> csv_records(source@) == Some(records_view(rows@)),
{
    let mut rdr = csv::ReaderBuilder::new().has_headers(false).from_reader(source);
    let mut rows = Vec::new();
    for record in rdr.records() {
        rows.push(record?.iter().map(String::from).collect());
    }
    Ok(rows)
}

/// Loads a script from the bytes of a comma-separated table. Fails with
/// `Unreadable` when the bytes are not a well-formed table, and otherwise
/// gives exactly what [`parse_script`] gives for its records.
pub fn load_csv(source: &[u8]) -> (r: Result<Vec<NarrativeEvent>, ScriptError>)
    ensures
        csv_records(source@) is None ==> r matches Err(ScriptError::Unreadable),
        csv_records(source@) matches Some(recs) ==> match (r, script_spec(recs)) {
            (Ok(v), Ok(m)) => events_model(v@) == m,
            (Err(e), Err(f)) => e == f,
            _ => false,
        },
{
    match read_records(source) {
        Ok(records) => parse_script(&records),
        Err(_) => Err(ScriptError::Unreadable),
    }
}

/// A row that names an area and gives a time (and has no cleared-all mark)
/// becomes exactly two events: first the area criterion with no effect, then
/// the time criterion carrying the row's whole bundle.
pub proof fn law_area_and_time_row_splits(h: Seq<Seq<char>>, row: Seq<Seq<char>>)
    requires
        field_spec(h, row, Column::ClearedAll).len() == 0,
        location_spec(field_spec(h, row, Column::LocationChange)) is Some,
        time_spec(field_spec(h, row, Column::ElapsedTime)) matches Ok(Some(_)),
        row_action_spec(h, row) is Ok,
    ensures
        ({
            let l = location_spec(field_spec(h, row, Column::LocationChange))->0;
            let t = time_spec(field_spec(h, row, Column::ElapsedTime))->Ok_0->0;
            let a = row_action_spec(h, row)->Ok_0;
            row_events_spec(h, row) == Ok::<Seq<EventModel>, RowFault>(seq![
                EventModel { starts_act: false, criterion: NarrativeCriterion::InEnvironment(l), action: empty_actions() },
                EventModel { starts_act: true, criterion: NarrativeCriterion::ElapsedRel(t), action: a },
            ])
        }),
{
    reveal_strlit("Home");
    reveal_strlit("Park");
    reveal_strlit("Shops");
}

/// A piece that names no area spoils the whole list.
proof fn lemma_locations_prefix(p: Seq<Seq<char>>, k: int)
    requires
        0 <= k <= p.len(),
        locations_spec(p.subrange(0, k)) is None,
    ensures
        locations_spec(p) is None,
    decreases p.len() - k,
{
    if k < p.len() {
        let q = p.subrange(0, k + 1);
        assert(q.drop_last() == p.subrange(0, k));
        lemma_locations_prefix(p, k + 1);
    } else {
        assert(p.subrange(0, k) == p);
    }
}

} // verus!
