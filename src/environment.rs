//! Areas of the game world, which of them may be entered, and their layouts.
use vstd::prelude::*;

verus! {

/// An area of the game world.
#[derive(Clone, Copy, Debug, PartialEq, Eq, Structural)]
pub enum Location {
    Home,
    Park,
    Shops,
}

impl Location {
    /// Position of the area in the fixed order Home, Park, Shops: the index of
    /// its background sprite and of its music track.
    pub open spec fn spec_index(self) -> nat {
        match self {
            Location::Home => 0,
            Location::Park => 1,
            Location::Shops => 2,
        }
    }

    pub fn index(self) -> (r: usize)
        ensures
            r == self.spec_index(),
    {
        match self {
            Location::Home => 0,
            Location::Park => 1,
            Location::Shops => 2,
        }
    }
}

/// One change of access written in a script: `area` becomes locked when
/// `newly_locked`, unlocked otherwise.
#[derive(Clone, Copy, Debug, PartialEq, Eq, Structural)]
pub struct AreaAccessChange {
    pub area: Location,
    pub newly_locked: bool,
}

/// Which areas are currently locked. Starts with every area open and changes
/// only through [`AreaAccess::apply`].
#[derive(Clone, Copy, Debug, PartialEq, Eq, Structural)]
pub struct AreaAccess {
    pub home_locked: bool,
    pub park_locked: bool,
    pub shops_locked: bool,
}

/// The access record after applying `changes` in order to `a`.
pub open spec fn after_changes(a: AreaAccess, changes: Seq<AreaAccessChange>) -> AreaAccess
    decreases changes.len(),
{
    if changes.len() == 0 {
        a
    } else {
        let last = changes.last();
        after_changes(a, changes.drop_last()).with_lock(last.area, last.newly_locked)
    }
}

impl AreaAccess {
    pub open spec fn is_locked(self, area: Location) -> bool {
        match area {
            Location::Home => self.home_locked,
            Location::Park => self.park_locked,
            Location::Shops => self.shops_locked,
        }
    }

    /// This record with the lock of `area` set to `locked` and the others kept.
    pub open spec fn with_lock(self, area: Location, locked: bool) -> AreaAccess {
        match area {
            Location::Home => AreaAccess { home_locked: locked, ..self },
            Location::Park => AreaAccess { park_locked: locked, ..self },
            Location::Shops => AreaAccess { shops_locked: locked, ..self },
        }
    }

    /// Every area open.
    pub fn new() -> (r: AreaAccess)
        ensures
            forall|a: Location| !r.is_locked(a),
    {
        AreaAccess { home_locked: false, park_locked: false, shops_locked: false }
    }

    /// Whether the player may enter `area`.
    pub fn is_open(&self, area: Location) -> (r: bool)
        ensures
            r == !self.is_locked(area),
    {
        match area {
            Location::Home => !self.home_locked,
            Location::Park => !self.park_locked,
            Location::Shops => !self.shops_locked,
        }
    }

    /// Sets the lock of one area, leaving the others as they were.
    pub fn set_locked(&mut self, area: Location, locked: bool)
        ensures
            *final(self) == old(self).with_lock(area, locked),
    {
        match area {
            Location::Home => self.home_locked = locked,
            Location::Park => self.park_locked = locked,
            Location::Shops => self.shops_locked = locked,
        }
    }

    /// Applies the changes of a script in order; a later change of an area
    /// overrides an earlier one.
    pub fn apply(&mut self, changes: &Vec<AreaAccessChange>)
        ensures
            *final(self) == after_changes(*old(self), changes@),
    {
        let mut i: usize = 0;
        while i < changes.len()
            invariant
                i <= changes@.len(),
                *self == after_changes(*old(self), changes@.subrange(0, i as int)),
            decreases changes@.len() - i,
        {
            let c = changes[i];
            self.set_locked(c.area, c.newly_locked);
            proof {
                assert(changes@.subrange(0, i + 1).drop_last() == changes@.subrange(0, i as int));
            }
            i = i + 1;
        }
        proof {
            assert(changes@.subrange(0, changes@.len() as int) == changes@);
        }
    }
}

/// A solid rectangle of tiles: `width` by `height` tiles from its top-left
/// tile.
#[derive(Clone, Copy, Debug, PartialEq, Eq, Structural)]
pub struct EnvironmentCollider {
    pub x_coordinates: usize,
    pub y_coordinates: usize,
    pub width: usize,
    pub height: usize,
}

impl EnvironmentCollider {
    pub open spec fn rect(x: usize, y: usize, w: usize, h: usize) -> EnvironmentCollider {
        EnvironmentCollider { x_coordinates: x, y_coordinates: y, width: w, height: h }
    }

    pub fn new(x_coordinates: usize, y_coordinates: usize, width: usize, height: usize) -> (r: Self)
        ensures
            r == Self::rect(x_coordinates, y_coordinates, width, height),
    {
        Self { x_coordinates, y_coordinates, width, height }
    }
}

/// A passage to another area, and the tile at which the player arrives there.
#[derive(Clone, Copy, Debug, PartialEq, Eq, Structural)]
pub struct Teleporter {
    pub destination: Location,
    pub arrival_x: usize,
    pub arrival_y: usize,
}

impl Teleporter {
    pub open spec fn to(destination: Location, x: usize, y: usize) -> Teleporter {
        Teleporter { destination, arrival_x: x, arrival_y: y }
    }

    pub fn new(destination: Location, player: [usize; 2]) -> (r: Self)
        ensures
            r == Self::to(destination, player@[0], player@[1]),
    {
        Teleporter { destination, arrival_x: player[0], arrival_y: player[1] }
    }
}

/// The walls of each area.
pub open spec fn colliders_spec(location: Location) -> Seq<EnvironmentCollider> {
    match location {
        Location::Home => seq![
            EnvironmentCollider::rect(0, 0, 11, 4),
            EnvironmentCollider::rect(10, 0, 9, 1),
            EnvironmentCollider::rect(15, 1, 4, 4),
            EnvironmentCollider::rect(19, 1, 1, 19),
            EnvironmentCollider::rect(0, 4, 3, 5),
            EnvironmentCollider::rect(3, 4, 3, 1),
            EnvironmentCollider::rect(6, 4, 1, 5),
            EnvironmentCollider::rect(0, 8, 1, 11),
            EnvironmentCollider::rect(4, 16, 16, 4),
        ],
        Location::Park => seq![
            EnvironmentCollider::rect(0, 0, 2, 20),
            EnvironmentCollider::rect(2, 18, 18, 2),
            EnvironmentCollider::rect(4, 0, 16, 2),
            EnvironmentCollider::rect(18, 2, 2, 12),
            EnvironmentCollider::rect(5, 2, 2, 2),
            EnvironmentCollider::rect(2, 14, 3, 4),
            EnvironmentCollider::rect(14, 2, 4, 3),
            EnvironmentCollider::rect(16, 12, 2, 2),
        ],
        Location::Shops => seq![
            EnvironmentCollider::rect(0, 0, 1, 20),
            EnvironmentCollider::rect(1, 0, 19, 2),
            EnvironmentCollider::rect(1, 19, 19, 1),
            EnvironmentCollider::rect(18, 1, 20, 18),
            EnvironmentCollider::rect(6, 6, 10, 4),
            EnvironmentCollider::rect(4, 14, 10, 2),
            EnvironmentCollider::rect(1, 7, 1, 3),
            EnvironmentCollider::rect(2, 8, 2, 2),
            EnvironmentCollider::rect(1, 13, 3, 3),
        ],
    }
}

/// The passages out of each area: Home leads to the Park, the Park to Home
/// and to the Shops, and both exits of the Shops to the Park.
pub open spec fn teleporters_spec(location: Location) -> Seq<(EnvironmentCollider, Teleporter)> {
    match location {
        Location::Home => seq![
            (EnvironmentCollider::rect(1, 19, 3, 1), Teleporter::to(Location::Park, 2, 3)),
        ],
        Location::Park => seq![
            (EnvironmentCollider::rect(1, 1, 2, 1), Teleporter::to(Location::Home, 2, 15)),
            (EnvironmentCollider::rect(18, 14, 2, 4), Teleporter::to(Location::Shops, 2, 2)),
        ],
        Location::Shops => seq![
            (EnvironmentCollider::rect(0, 10, 1, 3), Teleporter::to(Location::Park, 16, 14)),
            (EnvironmentCollider::rect(0, 16, 1, 3), Teleporter::to(Location::Park, 16, 14)),
        ],
    }
}

/// The walls and passages of an area.
pub fn get_environment_collider_and_teleporters(location: Location)
    -> (r: (Vec<EnvironmentCollider>, Vec<(EnvironmentCollider, Teleporter)>))
    ensures
        r.0@ == colliders_spec(location),
        r.1@ == teleporters_spec(location),
{
    let mut colliders: Vec<EnvironmentCollider> = Vec::new();
    let mut teleporters: Vec<(EnvironmentCollider, Teleporter)> = Vec::new();
    match location {
        Location::Home => {
            colliders.push(EnvironmentCollider::new(0, 0, 11, 4));
            colliders.push(EnvironmentCollider::new(10, 0, 9, 1));
            colliders.push(EnvironmentCollider::new(15, 1, 4, 4));
            colliders.push(EnvironmentCollider::new(19, 1, 1, 19));
            colliders.push(EnvironmentCollider::new(0, 4, 3, 5));
            colliders.push(EnvironmentCollider::new(3, 4, 3, 1));
            colliders.push(EnvironmentCollider::new(6, 4, 1, 5));
            // bottom left half of wall
            colliders.push(EnvironmentCollider::new(0, 8, 1, 11));
            // bottom area
            colliders.push(EnvironmentCollider::new(4, 16, 16, 4));
            teleporters.push((EnvironmentCollider::new(1, 19, 3, 1), Teleporter::new(Location::Park, [2, 3])));
        },
        Location::Park => {
            colliders.push(EnvironmentCollider::new(0, 0, 2, 20));
            colliders.push(EnvironmentCollider::new(2, 18, 18, 2));
            colliders.push(EnvironmentCollider::new(4, 0, 16, 2));
            colliders.push(EnvironmentCollider::new(18, 2, 2, 12));
            // home sign
            colliders.push(EnvironmentCollider::new(5, 2, 2, 2));
            // tree
            colliders.push(EnvironmentCollider::new(2, 14, 3, 4));
            // swings
            colliders.push(EnvironmentCollider::new(14, 2, 4, 3));
            // shop sign
            colliders.push(EnvironmentCollider::new(16, 12, 2, 2));
            teleporters.push((EnvironmentCollider::new(1, 1, 2, 1), Teleporter::new(Location::Home, [2, 15])));
            teleporters.push((EnvironmentCollider::new(18, 14, 2, 4), Teleporter::new(Location::Shops, [2, 2])));
        },
        Location::Shops => {
            // far left wall
            colliders.push(EnvironmentCollider::new(0, 0, 1, 20));
            // top wall
            colliders.push(EnvironmentCollider::new(1, 0, 19, 2));
            // bottom wall
            colliders.push(EnvironmentCollider::new(1, 19, 19, 1));
            // far right wall
            colliders.push(EnvironmentCollider::new(18, 1, 20, 18));
            // top aisle
            colliders.push(EnvironmentCollider::new(6, 6, 10, 4));
            // bottom aisle
            colliders.push(EnvironmentCollider::new(4, 14, 10, 2));
            // left of staffed checkout
            colliders.push(EnvironmentCollider::new(1, 7, 1, 3));
            // right of staffed checkout
            colliders.push(EnvironmentCollider::new(2, 8, 2, 2));
            // self-service checkouts
            colliders.push(EnvironmentCollider::new(1, 13, 3, 3));
            teleporters.push((EnvironmentCollider::new(0, 10, 1, 3), Teleporter::new(Location::Park, [16, 14])));
            teleporters.push((EnvironmentCollider::new(0, 16, 1, 3), Teleporter::new(Location::Park, [16, 14])));
        },
    }
    assert(colliders@ =~= colliders_spec(location));
    assert(teleporters@ =~= teleporters_spec(location));
    (colliders, teleporters)
}

} // verus!
