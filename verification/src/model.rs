//! The mathematical model of a scene: what a scene holds, and what a move
//! and its undo do to it.

use vstd::prelude::*;
use crate::color::Color;
use crate::direction::Direction;
use crate::entity::{first_at, occupied, distinct_cells, Block, Entity, Water};
use crate::player::Player;
use crate::room::Room;

verus! {

/// What an entity asks for when the player walks into it.
#[derive(Clone, Copy, Debug, PartialEq, Eq, Structural)]
pub enum GameAction {
    /// The move is refused.
    Stop,
    /// The player walks on; nothing else happens.
    Walk,
    /// The player walks on and pushes the block at this index one cell.
    Push(usize),
    /// The player walks on; the broadcast colour is hard-set.
    ColorRadio(Color),
    /// The player walks on; the colour's channels are flipped.
    ColorToggle(Color),
    /// The player walks on and the level is complete.
    Win,
    /// The player walks on; the block at the first index sinks in the water
    /// at the second, and both vanish. The colour is the block's.
    Sink(usize, usize, Color),
}

/// What has to be known of a committed move to take it back.
#[derive(Clone, Copy, Debug, PartialEq, Eq, Structural)]
pub enum HistoryEventType {
    Walk,
    Push,
    /// The colour of the block that sank.
    Sink(Color),
    /// The colour that was broadcast before the switch was hit.
    ColorRadio(Color),
    /// The colour that was toggled.
    ColorToggle(Color),
    Win,
}

/// The record of one committed move. `direction` is the reverse of the
/// direction walked: the way back.
#[derive(Clone, Copy, Debug, PartialEq, Eq, Structural)]
pub struct HistoryEvent {
    pub direction: Direction,
    pub event_type: HistoryEventType,
}

/// The state of a scene as mathematics sees it.
#[verifier::ext_equal]
pub struct SceneView {
    pub room: Room,
    pub player: Player,
    pub entities: Seq<Entity>,
    pub light_color: Color,
    /// The committed moves that were not undone, oldest first.
    pub history: Seq<HistoryEvent>,
}

impl SceneView {
    pub open spec fn tile_is_passable(self, x: int, y: int) -> bool {
        self.room.passable(x, y)
    }

    pub open spec fn tile_in_light(self, x: int, y: int, color: Color) -> bool {
        self.room.spec_tile_in_light(x, y, color, self.light_color)
    }

    /// The index of the first entity on `(x, y)`.
    pub open spec fn entity_id_at(self, x: int, y: int) -> Option<usize> {
        if occupied(self.entities, x, y) {
            Some(first_at(self.entities, x, y) as usize)
        } else {
            None
        }
    }

    /// The first entity on `(x, y)`.
    pub open spec fn entity_at(self, x: int, y: int) -> Option<Entity> {
        if occupied(self.entities, x, y) {
            Some(self.entities[first_at(self.entities, x, y)])
        } else {
            None
        }
    }

    /// What a block asks for when it is approached in `direction`.
    ///
    /// A lit block lets the player through. Any other block moves on to the
    /// next cell if that is free floor, sinks if water is there, and else
    /// refuses the move.
    pub open spec fn approach_block(self, block: Block, entity_id: usize, direction: Direction) -> GameAction {
        if self.tile_in_light(block.x as int, block.y as int, block.color) {
            GameAction::Walk
        } else {
            let (nx, ny) = direction.spec_from(block.x as int, block.y as int);
            if !self.tile_is_passable(nx, ny) {
                GameAction::Stop
            } else {
                match self.entity_at(nx, ny) {
                    Some(Entity::Water(_)) => GameAction::Sink(
                        entity_id,
                        first_at(self.entities, nx, ny) as usize,
                        block.color,
                    ),
                    Some(_) => GameAction::Stop,
                    None => GameAction::Push(entity_id),
                }
            }
        }
    }

    /// What `entity`, known under the index `entity_id`, asks for when it is
    /// approached in `direction`.
    pub open spec fn approach(self, entity: Entity, entity_id: usize, direction: Direction) -> GameAction {
        match entity {
            Entity::Block(block) => self.approach_block(block, entity_id, direction),
            Entity::Exit(_) => GameAction::Win,
            Entity::Lightbulb(_) => GameAction::Stop,
            Entity::LightRadio(switch) => if self.tile_in_light(switch.x as int, switch.y as int, switch.color) {
                GameAction::Walk
            } else {
                GameAction::ColorRadio(switch.color)
            },
            Entity::LightToggle(switch) => if self.tile_in_light(switch.x as int, switch.y as int, switch.color) {
                GameAction::Walk
            } else {
                GameAction::ColorToggle(switch.color)
            },
            Entity::Water(water) => if self.tile_in_light(water.x as int, water.y as int, Color::Blue) {
                GameAction::Walk
            } else {
                GameAction::Stop
            },
        }
    }

    /// The scene after the broadcast colour was hard-set to `color`.
    pub open spec fn with_radio(self, color: Color) -> SceneView {
        if self.light_color == color {
            self
        } else {
            SceneView {
                light_color: color,
                entities: self.entities.map_values(|e: Entity| e.retuned(self.light_color, color)),
                ..self
            }
        }
    }

    /// The scene after the channels of `color` were flipped.
    pub open spec fn with_toggle(self, color: Color) -> SceneView {
        SceneView {
            light_color: self.light_color.symmetric_difference(color),
            entities: self.entities.map_values(|e: Entity| e.flipped(color)),
            ..self
        }
    }

    /// The action that a move of the player in `direction` resolves to:
    /// `Stop` while the player is walking and where the target is no floor,
    /// what the first entity on the target asks for, and `Walk` on free floor.
    pub open spec fn choice(self, direction: Direction) -> GameAction {
        let (nx, ny) = direction.spec_from(self.player.x as int, self.player.y as int);
        if !self.player.can_walk() || !self.tile_is_passable(nx, ny) {
            GameAction::Stop
        } else if occupied(self.entities, nx, ny) {
            let id = first_at(self.entities, nx, ny);
            self.approach(self.entities[id], id as usize, direction)
        } else {
            GameAction::Walk
        }
    }

    /// Whether `action` can be committed for a move in `direction`: the
    /// player is idle and has a cell to step to, and the indices of the
    /// action name what the action needs.
    pub open spec fn admits(self, direction: Direction, action: GameAction) -> bool {
        action is Stop || {
            &&& self.player.can_walk()
            &&& direction.in_range(self.player.x as int, self.player.y as int)
            &&& match action {
                GameAction::Push(id) => {
                    &&& id < self.entities.len()
                    &&& self.entities[id as int] is Block
                    &&& direction.in_range(
                        self.entities[id as int].spec_x() as int,
                        self.entities[id as int].spec_y() as int,
                    )
                },
                GameAction::Sink(pusher, water, _) => {
                    &&& pusher < self.entities.len()
                    &&& water < self.entities.len()
                    &&& pusher != water
                },
                _ => true,
            }
        }
    }

    /// The record of `action`, committed for a move in `direction`.
    pub open spec fn event_for(self, direction: Direction, action: GameAction) -> HistoryEvent {
        HistoryEvent {
            direction: direction.reverse(),
            event_type: match action {
                GameAction::ColorRadio(_) => HistoryEventType::ColorRadio(self.light_color),
                GameAction::ColorToggle(color) => HistoryEventType::ColorToggle(color),
                GameAction::Win => HistoryEventType::Win,
                GameAction::Sink(_, _, color) => HistoryEventType::Sink(color),
                GameAction::Push(_) => HistoryEventType::Push,
                _ => HistoryEventType::Walk,
            },
        }
    }

    /// The record that committing `action` leaves: none for `Stop`.
    pub open spec fn committed_event(self, direction: Direction, action: GameAction) -> Option<HistoryEvent> {
        if action is Stop {
            None
        } else {
            Some(self.event_for(direction, action))
        }
    }

    /// The entities after `action` took effect.
    pub open spec fn entities_after(self, direction: Direction, action: GameAction) -> Seq<Entity> {
        match action {
            GameAction::ColorRadio(color) => self.with_radio(color).entities,
            GameAction::ColorToggle(color) => self.with_toggle(color).entities,
            GameAction::Sink(pusher, water, _) => if pusher < water {
                self.entities.remove(water as int).remove(pusher as int)
            } else {
                self.entities.remove(pusher as int).remove(water as int)
            },
            GameAction::Push(id) => match self.entities[id as int] {
                Entity::Block(block) => self.entities.update(id as int, Entity::Block(block.pushed(direction))),
                _ => self.entities,
            },
            _ => self.entities,
        }
    }

    /// The broadcast colour after `action` took effect.
    pub open spec fn light_after(self, action: GameAction) -> Color {
        match action {
            GameAction::ColorRadio(color) => color,
            GameAction::ColorToggle(color) => self.light_color.symmetric_difference(color),
            _ => self.light_color,
        }
    }

    /// The scene after `action` was committed for a move in `direction`:
    /// unchanged for `Stop`; else the player has stepped, the action has
    /// taken effect, and its record is the newest of the history.
    pub open spec fn committed(self, direction: Direction, action: GameAction) -> SceneView {
        if action is Stop {
            self
        } else {
            SceneView {
                room: self.room,
                player: self.player.walked(direction),
                entities: self.entities_after(direction, action),
                light_color: self.light_after(action),
                history: self.history.push(self.event_for(direction, action)),
            }
        }
    }

    /// The scene with the player turned towards `direction`: the player
    /// faces `direction`, and nothing else has changed.
    pub open spec fn facing(self, direction: Direction) -> SceneView {
        SceneView { player: self.player.faced(direction), ..self }
    }

    /// The scene after the player was told to move in `direction`.
    pub open spec fn step(self, direction: Direction) -> SceneView {
        self.facing(direction).committed(direction, self.choice(direction))
    }

    /// The record of the move in `direction`, or `None` where it is refused.
    pub open spec fn step_event(self, direction: Direction) -> Option<HistoryEvent> {
        self.committed_event(direction, self.choice(direction))
    }

    /// The cell that the move recorded by `event` affected beyond the
    /// player: one step from the player, in the direction that was walked.
    pub open spec fn beyond(self, event: HistoryEvent) -> (int, int) {
        event.direction.reverse().spec_from(self.player.x as int, self.player.y as int)
    }

    /// Whether `event` can be taken back in this scene: the player has a
    /// cell to step back to; for a push, the cell beyond holds a block and
    /// the player's own cell is free for it; for a sink, the player's cell
    /// and the cell beyond are free for the block and the water.
    pub open spec fn applicable(self, event: HistoryEvent) -> bool {
        let px = self.player.x as int;
        let py = self.player.y as int;
        let (bx, by) = self.beyond(event);
        &&& event.direction.in_range(px, py)
        &&& match event.event_type {
            HistoryEventType::Push => {
                &&& event.direction.reverse().in_range(px, py)
                &&& occupied(self.entities, bx, by)
                &&& self.entities[first_at(self.entities, bx, by)] is Block
                &&& !occupied(self.entities, px, py)
            },
            HistoryEventType::Sink(_) => {
                &&& event.direction.reverse().in_range(px, py)
                &&& !occupied(self.entities, px, py)
                &&& !occupied(self.entities, bx, by)
            },
            _ => true,
        }
    }

    /// The entities after `event` was taken back.
    pub open spec fn entities_before(self, event: HistoryEvent) -> Seq<Entity> {
        let (bx, by) = self.beyond(event);
        match event.event_type {
            HistoryEventType::Push => if occupied(self.entities, bx, by) {
                let id = first_at(self.entities, bx, by);
                match self.entities[id] {
                    Entity::Block(block) => self.entities.update(
                        id,
                        Entity::Block(Block { x: self.player.x, y: self.player.y, ..block }),
                    ),
                    _ => self.entities,
                }
            } else {
                self.entities
            },
            HistoryEventType::Sink(color) => self.entities.push(
                Entity::Block(Block { x: self.player.x, y: self.player.y, color }),
            ).push(Entity::Water(Water { x: bx as i32, y: by as i32 })),
            HistoryEventType::ColorRadio(color) => self.with_radio(color).entities,
            HistoryEventType::ColorToggle(color) => self.with_toggle(color).entities,
            _ => self.entities,
        }
    }

    /// The broadcast colour after `event` was taken back.
    pub open spec fn light_before(self, event: HistoryEvent) -> Color {
        match event.event_type {
            HistoryEventType::ColorRadio(color) => color,
            HistoryEventType::ColorToggle(color) => self.light_color.symmetric_difference(color),
            _ => self.light_color,
        }
    }

    /// The scene after its newest record, `event`, was taken back.
    pub open spec fn unstep(self, event: HistoryEvent) -> SceneView {
        SceneView {
            room: self.room,
            player: self.player.undone(event.direction),
            entities: self.entities_before(event),
            light_color: self.light_before(event),
            history: self.history.drop_last(),
        }
    }

    /// The scene after an undo of `event` was asked for: `event` is taken
    /// back if it is the newest record, and else nothing happens.
    pub open spec fn undo(self, event: HistoryEvent) -> SceneView {
        if self.history.len() > 0 && self.history.last() == event {
            self.unstep(event)
        } else {
            self
        }
    }

    /// Every record of the history can be taken back in its turn, newest
    /// first.
    pub open spec fn replayable(self) -> bool
        decreases self.history.len(),
    {
        self.history.len() == 0 || (self.applicable(self.history.last()) && self.unstep(
            self.history.last(),
        ).replayable())
    }

    /// The invariant of a scene: a valid room, no two entities on one cell,
    /// and a history that can be taken back.
    pub open spec fn wf(self) -> bool {
        &&& self.room.wf()
        &&& distinct_cells(self.entities)
        &&& self.replayable()
    }
}

} // verus!
