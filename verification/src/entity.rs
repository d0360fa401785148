//! Entities and the roster that owns them.

use crate::color::Color;
use vstd::prelude::*;

verus! {

/// A creature or an item on the map. `position` is a `(row, col)` grid
/// coordinate. Nothing here keeps `hp` between zero and `max_hp`.
#[derive(Clone, Copy, Debug, PartialEq, Eq)]
pub struct Entity {
    pub position: (usize, usize),
    pub glyph: char,
    pub color: Color,
    pub hp: i32,
    pub max_hp: i32,
}

/// The entities that populate a fresh scene, the player excluded: two goblins
/// and two potions.
pub open spec fn starting_entities() -> Seq<Entity> {
    seq![
        Entity { position: (9, 6), glyph: 'g', color: Color::red(), hp: 1, max_hp: 1 },
        Entity { position: (2, 4), glyph: 'g', color: Color::red(), hp: 1, max_hp: 1 },
        Entity { position: (7, 5), glyph: '%', color: Color::purple(), hp: 0, max_hp: 0 },
        Entity { position: (4, 8), glyph: '%', color: Color::purple(), hp: 0, max_hp: 0 },
    ]
}

/// The player as a fresh scene places them.
pub open spec fn starting_player() -> Entity {
    Entity { position: (5, 3), glyph: '@', color: Color::blue(), hp: 3, max_hp: 5 }
}

/// Builds the entities of a fresh scene, the player excluded.
pub fn generate_entities() -> (entities: Vec<Entity>)
    ensures
        entities@ == starting_entities(),
{
    let mut entities: Vec<Entity> = Vec::new();
    entities.push(Entity { position: (9, 6), glyph: 'g', color: Color::red(), hp: 1, max_hp: 1 });
    entities.push(Entity { position: (2, 4), glyph: 'g', color: Color::red(), hp: 1, max_hp: 1 });
    entities.push(
        Entity { position: (7, 5), glyph: '%', color: Color::purple(), hp: 0, max_hp: 0 },
    );
    entities.push(
        Entity { position: (4, 8), glyph: '%', color: Color::purple(), hp: 0, max_hp: 0 },
    );
    entities
}

/// Builds the player of a fresh scene.
pub fn generate_player() -> (player: Entity)
    ensures
        player == starting_player(),
{
    Entity { position: (5, 3), glyph: '@', color: Color::blue(), hp: 3, max_hp: 5 }
}

/// The entities of a scene, in the order in which they are drawn, one of them
/// the player.
///
/// The player is found by the index it was given when the roster was made.
/// Nothing here removes or reorders entities, so that index stays good for as
/// long as the roster lives; it would not survive a roster that could.
pub struct EntityRoster {
    entities: Vec<Entity>,
    player_index: usize,
}

impl View for EntityRoster {
    type V = Seq<Entity>;

    closed spec fn view(&self) -> Seq<Entity> {
        self.entities@
    }
}

impl EntityRoster {
    #[verifier::type_invariant]
    spec fn well_formed(self) -> bool {
        self.player_index < self.entities@.len()
    }

    /// The index of the player in the roster.
    pub closed spec fn spec_player_index(self) -> int {
        self.player_index as int
    }

    /// A roster of `others`, in their order, and then `player`.
    pub fn new(others: Vec<Entity>, player: Entity) -> (roster: EntityRoster)
        ensures
            roster@ == others@.push(player),
            roster.spec_player_index() == others@.len(),
    {
        let mut entities = others;
        let player_index = entities.len();
        entities.push(player);
        EntityRoster { entities, player_index }
    }

    /// The entities, in roster order.
    pub fn entities(&self) -> (entities: &Vec<Entity>)
        ensures
            entities@ == self@,
    {
        &self.entities
    }

    /// How many entities there are. There is always the player.
    pub fn len(&self) -> (count: usize)
        ensures
            count == self@.len(),
            count >= 1,
    {
        proof {
            use_type_invariant(self);
        }
        self.entities.len()
    }

    /// The index of the player.
    pub fn player_index(&self) -> (index: usize)
        ensures
            index == self.spec_player_index(),
            index < self@.len(),
    {
        proof {
            use_type_invariant(self);
        }
        self.player_index
    }

    /// The player.
    pub fn player(&self) -> (player: &Entity)
        ensures
            0 <= self.spec_player_index() < self@.len(),
            *player == self@[self.spec_player_index()],
    {
        proof {
            use_type_invariant(self);
        }
        &self.entities[self.player_index]
    }
}

} // verus!
