//! The things a player can walk into: blocks, exits, lamps, switches and
//! water.

use vstd::prelude::*;
use crate::color::Color;
use crate::direction::Direction;
use crate::model::GameAction;
use crate::scene::HeadlessScene;

verus! {

/// A coloured block. It can be pushed, unless light of its colour makes it
/// intangible.
#[derive(Clone, Copy, Debug, PartialEq, Eq, Structural)]
pub struct Block {
    pub x: i32,
    pub y: i32,
    pub color: Color,
}

/// The way out of the level.
#[derive(Clone, Copy, Debug, PartialEq, Eq, Structural)]
pub struct Exit {
    pub x: i32,
    pub y: i32,
}

/// A lamp of a primary colour. `on` says whether it is powered.
#[derive(Clone, Copy, Debug, PartialEq, Eq, Structural)]
pub struct Lightbulb {
    pub x: i32,
    pub y: i32,
    pub color: Color,
    pub on: bool,
}

/// A switch that broadcasts its colour and displaces every other, like a
/// radio button.
#[derive(Clone, Copy, Debug, PartialEq, Eq, Structural)]
pub struct LightRadio {
    pub x: i32,
    pub y: i32,
    pub color: Color,
}

/// A switch that flips its colour's channels in the broadcast colour.
#[derive(Clone, Copy, Debug, PartialEq, Eq, Structural)]
pub struct LightToggle {
    pub x: i32,
    pub y: i32,
    pub color: Color,
}

/// A water tile. Blocks sink in it; blue light evaporates it.
#[derive(Clone, Copy, Debug, PartialEq, Eq, Structural)]
pub struct Water {
    pub x: i32,
    pub y: i32,
}

/// Any one thing on the grid.
#[derive(Clone, Copy, Debug, PartialEq, Eq, Structural)]
pub enum Entity {
    Block(Block),
    Exit(Exit),
    Lightbulb(Lightbulb),
    LightRadio(LightRadio),
    LightToggle(LightToggle),
    Water(Water),
}

impl Block {
    /// The block one cell further in `direction`.
    pub open spec fn pushed(self, direction: Direction) -> Block {
        let (nx, ny) = direction.spec_from(self.x as int, self.y as int);
        Block { x: nx as i32, y: ny as i32, ..self }
    }

    pub fn new(x: i32, y: i32, color: Color) -> (block: Block)
        ensures
            block == (Block { x, y, color }),
    {
        Block { x, y, color }
    }

    pub fn push(&mut self, direction: Direction)
        requires
            direction.in_range(old(self).x as int, old(self).y as int),
        ensures
            *final(self) == old(self).pushed(direction),
    {
        let (nx, ny) = direction.from(self.x, self.y);
        self.x = nx;
        self.y = ny;
    }

    /// What the block asks for when the player walks into it in `direction`.
    /// `entity_id` is the block's index in the scene.
    pub fn on_approach(&self, entity_id: usize, direction: Direction, scene: &HeadlessScene) -> (action:
        GameAction)
        requires
            direction.in_range(self.x as int, self.y as int),
        ensures
            action == scene@.approach_block(*self, entity_id, direction),
    {
        if scene.tile_in_light(self.x, self.y, self.color) {
            return GameAction::Walk;
        }
        let (nx, ny) = direction.from(self.x, self.y);
        if !scene.tile_is_passable(nx, ny) {
            return GameAction::Stop;
        }
        match scene.entity_at(nx, ny) {
            Some(Entity::Water(_)) => {
                let water_id = scene.entity_id_at(nx, ny).unwrap();
                GameAction::Sink(entity_id, water_id, self.color)
            },
            Some(_) => GameAction::Stop,
            None => GameAction::Push(entity_id),
        }
    }
}

impl Exit {
    pub fn new(x: i32, y: i32) -> (exit: Exit)
        ensures
            exit == (Exit { x, y }),
    {
        Exit { x, y }
    }

    /// Walking into the exit wins the level.
    pub fn on_approach(&self, _entity_id: usize, _direction: Direction, _scene: &HeadlessScene) -> (action:
        GameAction)
        ensures
            action == GameAction::Win,
    {
        GameAction::Win
    }
}

impl Lightbulb {
    /// The lamp after the broadcast colour was hard-set from `old_color` to
    /// `new_color`: a lamp of the old colour goes off, else one of the new
    /// colour comes on.
    pub open spec fn retuned(self, old_color: Color, new_color: Color) -> Lightbulb {
        if self.color == old_color {
            Lightbulb { on: false, ..self }
        } else if self.color == new_color {
            Lightbulb { on: true, ..self }
        } else {
            self
        }
    }

    /// The lamp after `color` was toggled: a lamp of exactly that colour flips.
    pub open spec fn flipped(self, color: Color) -> Lightbulb {
        if self.color == color {
            Lightbulb { on: !self.on, ..self }
        } else {
            self
        }
    }

    /// A lamp that is off.
    pub fn new(x: i32, y: i32, color: Color) -> (bulb: Lightbulb)
        ensures
            bulb == (Lightbulb { x, y, color, on: false }),
    {
        Lightbulb { x, y, color, on: false }
    }

    pub fn turn_on(&mut self)
        ensures
            *final(self) == (Lightbulb { on: true, ..*old(self) }),
    {
        self.on = true;
    }

    pub fn turn_off(&mut self)
        ensures
            *final(self) == (Lightbulb { on: false, ..*old(self) }),
    {
        self.on = false;
    }

    pub fn toggle(&mut self)
        ensures
            *final(self) == (Lightbulb { on: !old(self).on, ..*old(self) }),
    {
        if self.on {
            self.turn_off();
        } else {
            self.turn_on();
        }
    }

    /// A lamp is in the way.
    pub fn on_approach(&self, _entity_id: usize, _direction: Direction, _scene: &HeadlessScene) -> (action:
        GameAction)
        ensures
            action == GameAction::Stop,
    {
        GameAction::Stop
    }
}

impl LightRadio {
    pub fn new(x: i32, y: i32, color: Color) -> (switch: LightRadio)
        ensures
            switch == (LightRadio { x, y, color }),
    {
        LightRadio { x, y, color }
    }

    /// A switch that stands in light of its own colour lets the player
    /// through; else it asks for its colour to be broadcast alone.
    pub fn on_approach(&self, _entity_id: usize, _direction: Direction, scene: &HeadlessScene) -> (action:
        GameAction)
        ensures
            action == scene@.approach(Entity::LightRadio(*self), _entity_id, _direction),
    {
        if scene.tile_in_light(self.x, self.y, self.color) {
            return GameAction::Walk;
        }
        GameAction::ColorRadio(self.color)
    }
}

impl LightToggle {
    pub fn new(x: i32, y: i32, color: Color) -> (switch: LightToggle)
        ensures
            switch == (LightToggle { x, y, color }),
    {
        LightToggle { x, y, color }
    }

    /// A switch that stands in light of its own colour lets the player
    /// through; else it asks for its colour to be toggled.
    pub fn on_approach(&self, _entity_id: usize, _direction: Direction, scene: &HeadlessScene) -> (action:
        GameAction)
        ensures
            action == scene@.approach(Entity::LightToggle(*self), _entity_id, _direction),
    {
        if scene.tile_in_light(self.x, self.y, self.color) {
            return GameAction::Walk;
        }
        GameAction::ColorToggle(self.color)
    }
}

impl Water {
    pub fn new(x: i32, y: i32) -> (water: Water)
        ensures
            water == (Water { x, y }),
    {
        Water { x, y }
    }

    /// Water in blue light has evaporated and lets the player through; else
    /// it is in the way.
    pub fn on_approach(&self, _entity_id: usize, _direction: Direction, scene: &HeadlessScene) -> (action:
        GameAction)
        ensures
            action == scene@.approach(Entity::Water(*self), _entity_id, _direction),
    {
        if scene.tile_in_light(self.x, self.y, Color::Blue) {
            return GameAction::Walk;
        }
        GameAction::Stop
    }
}

impl Entity {
    pub open spec fn spec_x(&self) -> i32 {
        match *self {
            Entity::Block(e) => e.x,
            Entity::Exit(e) => e.x,
            Entity::Lightbulb(e) => e.x,
            Entity::LightRadio(e) => e.x,
            Entity::LightToggle(e) => e.x,
            Entity::Water(e) => e.x,
        }
    }

    pub open spec fn spec_y(&self) -> i32 {
        match *self {
            Entity::Block(e) => e.y,
            Entity::Exit(e) => e.y,
            Entity::Lightbulb(e) => e.y,
            Entity::LightRadio(e) => e.y,
            Entity::LightToggle(e) => e.y,
            Entity::Water(e) => e.y,
        }
    }

    /// Whether the entity stands on cell `(x, y)`.
    pub open spec fn at(self, x: int, y: int) -> bool {
        self.spec_x() == x && self.spec_y() == y
    }

    /// The entity with its lamp, if it is one, switched off: what the entity
    /// is and where, without the state of its power.
    pub open spec fn unpowered(self) -> Entity {
        match self {
            Entity::Lightbulb(bulb) => Entity::Lightbulb(Lightbulb { on: false, ..bulb }),
            _ => self,
        }
    }

    /// The entity after the broadcast colour was hard-set.
    pub open spec fn retuned(self, old_color: Color, new_color: Color) -> Entity {
        match self {
            Entity::Lightbulb(bulb) => Entity::Lightbulb(bulb.retuned(old_color, new_color)),
            _ => self,
        }
    }

    /// The entity after `color` was toggled.
    pub open spec fn flipped(self, color: Color) -> Entity {
        match self {
            Entity::Lightbulb(bulb) => Entity::Lightbulb(bulb.flipped(color)),
            _ => self,
        }
    }

    #[verifier::when_used_as_spec(spec_x)]
    pub fn x(&self) -> (x: i32)
        ensures
            x == self.spec_x(),
    {
        match self {
            Entity::Block(e) => e.x,
            Entity::Exit(e) => e.x,
            Entity::Lightbulb(e) => e.x,
            Entity::LightRadio(e) => e.x,
            Entity::LightToggle(e) => e.x,
            Entity::Water(e) => e.x,
        }
    }

    #[verifier::when_used_as_spec(spec_y)]
    pub fn y(&self) -> (y: i32)
        ensures
            y == self.spec_y(),
    {
        match self {
            Entity::Block(e) => e.y,
            Entity::Exit(e) => e.y,
            Entity::Lightbulb(e) => e.y,
            Entity::LightRadio(e) => e.y,
            Entity::LightToggle(e) => e.y,
            Entity::Water(e) => e.y,
        }
    }
}

impl Entity {
    /// What the entity asks for when the player walks into it in
    /// `direction`. `entity_id` is the entity's index in the scene.
    pub fn on_approach(&self, entity_id: usize, direction: Direction, scene: &HeadlessScene) -> (action:
        GameAction)
        requires
            *self is Block ==> direction.in_range(self.spec_x() as int, self.spec_y() as int),
        ensures
            action == scene@.approach(*self, entity_id, direction),
    {
        match self {
            Entity::Block(e) => e.on_approach(entity_id, direction, scene),
            Entity::Exit(e) => e.on_approach(entity_id, direction, scene),
            Entity::Lightbulb(e) => e.on_approach(entity_id, direction, scene),
            Entity::LightRadio(e) => e.on_approach(entity_id, direction, scene),
            Entity::LightToggle(e) => e.on_approach(entity_id, direction, scene),
            Entity::Water(e) => e.on_approach(entity_id, direction, scene),
        }
    }
}

/// The lamps among `entities`, in the order of the list.
pub open spec fn lamps_of(entities: Seq<Entity>) -> Seq<Lightbulb>
    decreases entities.len(),
{
    if entities.len() == 0 {
        Seq::empty()
    } else {
        let before = lamps_of(entities.drop_last());
        match entities.last() {
            Entity::Lightbulb(bulb) => before.push(bulb),
            _ => before,
        }
    }
}

/// Whether some entity of `entities` stands on `(x, y)`.
pub open spec fn occupied(entities: Seq<Entity>, x: int, y: int) -> bool {
    exists|i: int| 0 <= i < entities.len() && (#[trigger] entities[i]).at(x, y)
}

/// Whether `i` is the first place in `entities` of an entity on `(x, y)`.
pub open spec fn is_first_at(entities: Seq<Entity>, x: int, y: int, i: int) -> bool {
    &&& 0 <= i < entities.len()
    &&& entities[i].at(x, y)
    &&& forall|j: int| 0 <= j < i ==> !(#[trigger] entities[j]).at(x, y)
}

/// The first place in `entities` of an entity on `(x, y)`, where there is one.
pub open spec fn first_at(entities: Seq<Entity>, x: int, y: int) -> int {
    choose|i: int| is_first_at(entities, x, y, i)
}

/// No two entities stand on the same cell.
pub open spec fn distinct_cells(entities: Seq<Entity>) -> bool {
    forall|i: int, j: int|
        0 <= i < j < entities.len() ==> !(#[trigger] entities[i]).at(
            (#[trigger] entities[j]).spec_x() as int,
            entities[j].spec_y() as int,
        )
}

/// Checks that no two entities stand on the same cell.
pub fn cells_are_distinct(entities: &Vec<Entity>) -> (b: bool)
    ensures
        b == distinct_cells(entities@),
{
    let mut j: usize = 0;
    while j < entities.len()
        invariant
            0 <= j <= entities@.len(),
            forall|p: int, q: int|
                0 <= p < q < j ==> !(#[trigger] entities@[p]).at(
                    (#[trigger] entities@[q]).spec_x() as int,
                    entities@[q].spec_y() as int,
                ),
        decreases entities@.len() - j,
    {
        let x = entities[j].x();
        let y = entities[j].y();
        let mut i: usize = 0;
        while i < j
            invariant
                0 <= i <= j < entities@.len(),
                x == entities@[j as int].spec_x(),
                y == entities@[j as int].spec_y(),
                forall|p: int| 0 <= p < i ==> !(#[trigger] entities@[p]).at(x as int, y as int),
            decreases j - i,
        {
            if entities[i].x() == x && entities[i].y() == y {
                assert(entities@[i as int].at(entities@[j as int].spec_x() as int, entities@[j as int].spec_y() as int));
                return false;
            }
            i = i + 1;
        }
        j = j + 1;
    }
    true
}

/// Where an entity stands on `(x, y)`, one entity is the first on that cell.
proof fn lemma_first_exists(entities: Seq<Entity>, x: int, y: int, witness: int)
    requires
        0 <= witness < entities.len(),
        entities[witness].at(x, y),
    ensures
        exists|i: int| is_first_at(entities, x, y, i),
    decreases witness,
{
    if exists|j: int| 0 <= j < witness && (#[trigger] entities[j]).at(x, y) {
        let j = choose|j: int| 0 <= j < witness && (#[trigger] entities[j]).at(x, y);
        lemma_first_exists(entities, x, y, j);
    } else {
        assert(is_first_at(entities, x, y, witness));
    }
}

/// An occupied cell has exactly one first occupant: `first_at` names it.
pub proof fn lemma_first_at(entities: Seq<Entity>, x: int, y: int)
    requires
        occupied(entities, x, y),
    ensures
        is_first_at(entities, x, y, first_at(entities, x, y)),
        forall|i: int| is_first_at(entities, x, y, i) ==> i == first_at(entities, x, y),
{
    let w = choose|i: int| 0 <= i < entities.len() && (#[trigger] entities[i]).at(x, y);
    lemma_first_exists(entities, x, y, w);
    let f = first_at(entities, x, y);
    assert forall|i: int| is_first_at(entities, x, y, i) implies i == f by {
        if i < f {
            assert(!entities[i].at(x, y));
        }
        if f < i {
            assert(!entities[f].at(x, y));
        }
    }
}

/// Where no two entities share a cell, any entity on `(x, y)` is the first.
pub proof fn lemma_only_occupant(entities: Seq<Entity>, x: int, y: int, i: int)
    requires
        distinct_cells(entities),
        0 <= i < entities.len(),
        entities[i].at(x, y),
    ensures
        occupied(entities, x, y),
        first_at(entities, x, y) == i,
{
    lemma_first_at(entities, x, y);
    let f = first_at(entities, x, y);
    if f < i {
        assert(!entities[f].at(entities[i].spec_x() as int, entities[i].spec_y() as int));
    }
    if i < f {
        assert(!entities[i].at(entities[f].spec_x() as int, entities[f].spec_y() as int));
    }
}

} // verus!
