//! The scene: the room, the player, the entities and the broadcast colour,
//! with the moves that change them and the history that takes moves back.

use vstd::pervasive::unreached;
use vstd::prelude::*;
use crate::color::Color;
use crate::direction::Direction;
use crate::entity::{
    cells_are_distinct, distinct_cells, is_first_at, lamps_of, lemma_first_at, occupied, Block, Entity,
    Lightbulb, Water,
};
use crate::laws::{
    law_undo_restores, lemma_akin_keeps_wf, lemma_choice_is_admitted, lemma_step_keeps_wf, lemma_switch_repowers,
    lemma_unstep_keeps_wf,
};
use crate::model::SceneView;
use crate::player::Player;
use crate::room::{listed, mask_under, Room};

pub use crate::model::{GameAction, HistoryEvent, HistoryEventType};

verus! {

/// What a level teaches, if anything.
#[derive(Clone, Copy, Debug, PartialEq, Eq, Structural)]
pub enum SceneTag {
    TeachMove,
    TeachUndo,
}

/// A scene without anything to draw it: the state of the puzzle and the
/// rules that change it.
pub struct HeadlessScene {
    player: Player,
    room: Room,
    entities: Vec<Entity>,
    light_color: Color,
    history: Vec<HistoryEvent>,
}

impl View for HeadlessScene {
    type V = SceneView;

    closed spec fn view(&self) -> SceneView {
        SceneView {
            room: self.room,
            player: self.player,
            entities: self.entities@,
            light_color: self.light_color,
            history: self.history@,
        }
    }
}

impl HeadlessScene {
    /// The scene's invariant: see [`SceneView::wf`].
    pub open spec fn wf(&self) -> bool {
        self@.wf()
    }

    /// A scene with an empty history, in which `starting_color` has just
    /// been broadcast: the lamps of that colour are on.
    pub fn new(player: Player, room: Room, entities: Vec<Entity>, starting_color: Color) -> (scene: Self)
        requires
            room.wf(),
            distinct_cells(entities@),
        ensures
            scene.wf(),
            scene@ == (SceneView {
                room,
                player,
                entities: entities@,
                light_color: Color::Gray,
                history: Seq::empty(),
            }).with_radio(starting_color),
    {
        let mut this = HeadlessScene { player, room, entities, light_color: Color::Gray, history: Vec::new() };
        assert(this@.wf());
        this.radio_set_light_color(starting_color);
        this
    }

    /// A scene as [`HeadlessScene::new`] makes it, if the room is valid and
    /// no two entities stand on one cell; else `None`.
    pub fn try_new(player: Player, room: Room, entities: Vec<Entity>, starting_color: Color) -> (scene: Option<
        Self,
    >)
        ensures
            match scene {
                Some(scene) => {
                    &&& room.wf()
                    &&& distinct_cells(entities@)
                    &&& scene.wf()
                    &&& scene@ == (SceneView {
                        room,
                        player,
                        entities: entities@,
                        light_color: Color::Gray,
                        history: Seq::empty(),
                    }).with_radio(starting_color)
                },
                None => !room.wf() || !distinct_cells(entities@),
            },
    {
        if room.is_wf() && cells_are_distinct(&entities) {
            Some(HeadlessScene::new(player, room, entities, starting_color))
        } else {
            None
        }
    }

    pub fn player(&self) -> (player: &Player)
        ensures
            *player == self@.player,
    {
        &self.player
    }

    pub fn room(&self) -> (room: &Room)
        ensures
            *room == self@.room,
    {
        &self.room
    }

    pub fn entities(&self) -> (entities: &Vec<Entity>)
        ensures
            entities@ == self@.entities,
    {
        &self.entities
    }

    pub fn light_color(&self) -> (color: Color)
        ensures
            color == self@.light_color,
    {
        self.light_color
    }

    /// The committed moves that were not undone, oldest first.
    pub fn history(&self) -> (history: &Vec<HistoryEvent>)
        ensures
            history@ == self@.history,
    {
        &self.history
    }

    /// The newest record of the history: the one that `undo` would take back.
    pub fn last_event(&self) -> (event: Option<HistoryEvent>)
        ensures
            event == (if self@.history.len() > 0 {
                Some(self@.history.last())
            } else {
                None
            }),
    {
        let n = self.history.len();
        if n > 0 {
            Some(self.history[n - 1])
        } else {
            None
        }
    }

    /// Ends the move in progress, so that the next command is accepted.
    pub fn resolve(&mut self)
        requires
            old(self).wf(),
        ensures
            final(self).wf(),
            final(self)@ == (SceneView { player: old(self)@.player.resolved(), ..old(self)@ }),
    {
        self.player.resolve();
        proof {
            lemma_akin_keeps_wf(old(self)@, self@);
        }
    }

    /// Records that a lamp of colour `color` sees every cell listed in
    /// `cells`, which are indices into the room's row-major arrays: the
    /// colour is added to the mask of each, and nothing else changes.
    pub fn illuminate(&mut self, color: Color, cells: &Vec<usize>)
        requires
            old(self).wf(),
            forall|k: int| 0 <= k < cells@.len() ==> cells@[k] < old(self)@.room.sees_color@.len(),
        ensures
            final(self).wf(),
            final(self)@ == (SceneView { room: final(self)@.room, ..old(self)@ }),
            final(self)@.room.width == old(self)@.room.width,
            final(self)@.room.height == old(self)@.room.height,
            final(self)@.room.tiles == old(self)@.room.tiles,
            final(self)@.room.sees_color@.len() == old(self)@.room.sees_color@.len(),
            forall|i: int|
                0 <= i < old(self)@.room.sees_color@.len() ==> #[trigger] final(self)@.room.sees_color@[i] == (
                if listed(cells@, cells@.len() as int, i) {
                    old(self)@.room.sees_color@[i].union(color)
                } else {
                    old(self)@.room.sees_color@[i]
                }),
    {
        self.room.illuminate(color, cells);
        proof {
            lemma_akin_keeps_wf(old(self)@, self@);
        }
    }

    /// The lamps of the scene, in the order of its entities.
    pub fn lamps(&self) -> (lamps: Vec<Lightbulb>)
        ensures
            lamps@ == lamps_of(self@.entities),
    {
        let mut lamps: Vec<Lightbulb> = Vec::new();
        let mut i: usize = 0;
        while i < self.entities.len()
            invariant
                0 <= i <= self.entities@.len(),
                lamps@ == lamps_of(self.entities@.subrange(0, i as int)),
            decreases self.entities@.len() - i,
        {
            proof {
                let next = self.entities@.subrange(0, i as int + 1);
                assert(next.drop_last() =~= self.entities@.subrange(0, i as int));
                assert(next.last() == self.entities@[i as int]);
            }
            match self.entities[i] {
                Entity::Lightbulb(bulb) => {
                    lamps.push(bulb);
                },
                _ => {},
            }
            i = i + 1;
        }
        proof {
            assert(self.entities@.subrange(0, i as int) =~= self.entities@);
        }
        lamps
    }

    /// Lets every lamp shine: `sight` holds, for each lamp in the order of
    /// [`HeadlessScene::lamps`], the cells that the lamp sees whole, as
    /// indices into the room's row-major arrays. The colour of each lamp is
    /// added to the mask of each cell it sees, and nothing else changes.
    pub fn light_up(&mut self, sight: &Vec<Vec<usize>>)
        requires
            old(self).wf(),
            sight@.len() == lamps_of(old(self)@.entities).len(),
            forall|k: int, j: int|
                0 <= k < sight@.len() && 0 <= j < sight@[k]@.len() ==> #[trigger] sight@[k]@[j] < old(
                    self,
                )@.room.sees_color@.len(),
        ensures
            final(self).wf(),
            final(self)@ == (SceneView { room: final(self)@.room, ..old(self)@ }),
            final(self)@.room.width == old(self)@.room.width,
            final(self)@.room.height == old(self)@.room.height,
            final(self)@.room.tiles == old(self)@.room.tiles,
            final(self)@.room.sees_color@.len() == old(self)@.room.sees_color@.len(),
            forall|i: int|
                0 <= i < old(self)@.room.sees_color@.len() ==> #[trigger] final(self)@.room.sees_color@[i]
                    == mask_under(
                    old(self)@.room.sees_color@[i],
                    i,
                    lamps_of(old(self)@.entities),
                    sight@,
                    sight@.len() as int,
                ),
    {
        let lamps = self.lamps();
        let ghost before = self.room.sees_color@;
        let mut k: usize = 0;
        while k < sight.len()
            invariant
                0 <= k <= sight@.len(),
                sight@.len() == lamps@.len(),
                lamps@ == lamps_of(old(self)@.entities),
                before == old(self)@.room.sees_color@,
                self.player == old(self).player,
                self.entities == old(self).entities,
                self.light_color == old(self).light_color,
                self.history == old(self).history,
                self.room.width == old(self).room.width,
                self.room.height == old(self).room.height,
                self.room.tiles == old(self).room.tiles,
                self.room.sees_color@.len() == before.len(),
                forall|p: int, j: int|
                    0 <= p < sight@.len() && 0 <= j < sight@[p]@.len() ==> #[trigger] sight@[p]@[j] < before.len(),
                forall|i: int|
                    0 <= i < before.len() ==> #[trigger] self.room.sees_color@[i] == mask_under(
                        before[i],
                        i,
                        lamps@,
                        sight@,
                        k as int,
                    ),
            decreases sight@.len() - k,
        {
            self.room.illuminate(lamps[k].color, &sight[k]);
            k = k + 1;
        }
        proof {
            lemma_akin_keeps_wf(old(self)@, self@);
        }
    }

    /// Hard-sets the broadcast colour; see [`SceneView::with_radio`].
    fn set_radio(&mut self, new_color: Color)
        ensures
            final(self)@ == old(self)@.with_radio(new_color),
    {
        if self.light_color == new_color {
            return ;
        }
        let old_color = self.light_color;
        self.light_color = new_color;
        let ghost before = self.entities@;
        let mut i: usize = 0;
        while i < self.entities.len()
            invariant
                0 <= i <= self.entities@.len(),
                self.entities@.len() == before.len(),
                self.player == old(self).player,
                self.room == old(self).room,
                self.history == old(self).history,
                self.light_color == new_color,
                forall|j: int| 0 <= j < i ==> #[trigger] self.entities@[j] == before[j].retuned(old_color, new_color),
                forall|j: int| i <= j < before.len() ==> #[trigger] self.entities@[j] == before[j],
            decreases self.entities@.len() - i,
        {
            match self.entities[i] {
                Entity::Lightbulb(bulb) => {
                    let mut bulb = bulb;
                    if bulb.color == old_color {
                        bulb.turn_off();
                    } else if bulb.color == new_color {
                        bulb.turn_on();
                    }
                    self.entities.set(i, Entity::Lightbulb(bulb));
                },
                _ => {},
            }
            i = i + 1;
        }
        assert(self.entities@ =~= before.map_values(|e: Entity| e.retuned(old_color, new_color)));
    }

    /// Flips the channels of `color`; see [`SceneView::with_toggle`].
    fn set_toggle(&mut self, color: Color)
        ensures
            final(self)@ == old(self)@.with_toggle(color),
    {
        self.light_color = self.light_color.symmetric_difference(color);
        let ghost before = self.entities@;
        let mut i: usize = 0;
        while i < self.entities.len()
            invariant
                0 <= i <= self.entities@.len(),
                self.entities@.len() == before.len(),
                self.player == old(self).player,
                self.room == old(self).room,
                self.history == old(self).history,
                self.light_color == old(self).light_color.symmetric_difference(color),
                forall|j: int| 0 <= j < i ==> #[trigger] self.entities@[j] == before[j].flipped(color),
                forall|j: int| i <= j < before.len() ==> #[trigger] self.entities@[j] == before[j],
            decreases self.entities@.len() - i,
        {
            match self.entities[i] {
                Entity::Lightbulb(bulb) => {
                    if color == bulb.color {
                        let mut bulb = bulb;
                        bulb.toggle();
                        self.entities.set(i, Entity::Lightbulb(bulb));
                    }
                },
                _ => {},
            }
            i = i + 1;
        }
        assert(self.entities@ =~= before.map_values(|e: Entity| e.flipped(color)));
    }

    /// Broadcasts `new_color` alone. Nothing happens if it is broadcast
    /// already; else the lamps of the colour that was broadcast go off and
    /// those of the new colour come on.
    pub fn radio_set_light_color(&mut self, new_color: Color)
        requires
            old(self).wf(),
        ensures
            final(self).wf(),
            final(self)@ == old(self)@.with_radio(new_color),
    {
        self.set_radio(new_color);
        proof {
            lemma_switch_repowers(old(self)@, new_color);
            lemma_akin_keeps_wf(old(self)@, self@);
        }
    }

    /// Flips the channels of `color` in the broadcast colour, and the lamps
    /// of exactly that colour with them.
    pub fn toggle_light_color(&mut self, color: Color)
        requires
            old(self).wf(),
        ensures
            final(self).wf(),
            final(self)@ == old(self)@.with_toggle(color),
    {
        self.set_toggle(color);
        proof {
            lemma_switch_repowers(old(self)@, color);
            lemma_akin_keeps_wf(old(self)@, self@);
        }
    }

    /// The index of the first entity on `(x, y)`. It is good until the next
    /// change of the scene.
    pub fn entity_id_at(&self, x: i32, y: i32) -> (id: Option<usize>)
        ensures
            id == self@.entity_id_at(x as int, y as int),
            match id {
                Some(i) => is_first_at(self@.entities, x as int, y as int, i as int),
                None => !occupied(self@.entities, x as int, y as int),
            },
    {
        let mut i: usize = 0;
        while i < self.entities.len()
            invariant
                0 <= i <= self.entities@.len(),
                forall|j: int| 0 <= j < i ==> !(#[trigger] self.entities@[j]).at(x as int, y as int),
            decreases self.entities@.len() - i,
        {
            let e = &self.entities[i];
            if e.x() == x && e.y() == y {
                proof {
                    assert(self.entities@[i as int].at(x as int, y as int));
                    assert(is_first_at(self@.entities, x as int, y as int, i as int));
                    lemma_first_at(self@.entities, x as int, y as int);
                }
                return Some(i);
            }
            i = i + 1;
        }
        None
    }

    /// The first entity on `(x, y)`.
    pub fn entity_at(&self, x: i32, y: i32) -> (entity: Option<&Entity>)
        ensures
            match entity {
                Some(found) => self@.entity_at(x as int, y as int) == Some(*found),
                None => self@.entity_at(x as int, y as int) is None,
            },
    {
        match self.entity_id_at(x, y) {
            Some(idx) => Some(&self.entities[idx]),
            None => None,
        }
    }

    pub fn tile_is_passable(&self, x: i32, y: i32) -> (b: bool)
        ensures
            b == self@.tile_is_passable(x as int, y as int),
    {
        match self.room.tile_at(x, y) {
            Some(tile) => tile.is_passable(),
            None => false,
        }
    }

    /// Whether an object of colour `tile_color` on `(x, y)` is lit by what
    /// is broadcast now.
    pub fn tile_in_light(&self, x: i32, y: i32, tile_color: Color) -> (b: bool)
        ensures
            b == self@.tile_in_light(x as int, y as int, tile_color),
    {
        self.room.tile_in_light(x, y, tile_color, self.light_color)
    }

    /// Takes `event` back if it is the newest record of the history: the
    /// record leaves the history, what the move did to the entities and the
    /// broadcast colour is reversed, and the player steps back. An undo of
    /// anything else, or with an empty history, does nothing.
    pub fn undo(&mut self, event: HistoryEvent)
        requires
            old(self).wf(),
        ensures
            final(self).wf(),
            final(self)@ == old(self)@.undo(event),
    {
        let n = self.history.len();
        if n == 0 {
            return ;
        }
        if self.history[n - 1] != event {
            return ;
        }
        proof {
            lemma_unstep_keeps_wf(old(self)@);
        }
        self.history.pop();
        assert(self.history@ =~= old(self)@.history.drop_last());
        let px = self.player.x;
        let py = self.player.y;
        match event.event_type {
            HistoryEventType::Walk => {},
            HistoryEventType::Push => {
                let (bx, by) = event.direction.reverse().from(px, py);
                let idx = self.entity_id_at(bx, by).unwrap();
                match self.entities[idx] {
                    Entity::Block(block) => {
                        let mut block = block;
                        block.x = px;
                        block.y = py;
                        self.entities.set(idx, Entity::Block(block));
                    },
                    // Only blocks are pushed, so only a block is found here.
                    _ => unreached(),
                }
            },
            HistoryEventType::Sink(color) => {
                let (bx, by) = event.direction.reverse().from(px, py);
                self.entities.push(Entity::Block(Block::new(px, py, color)));
                self.entities.push(Entity::Water(Water::new(bx, by)));
            },
            HistoryEventType::ColorRadio(color) => {
                self.set_radio(color);
            },
            HistoryEventType::ColorToggle(color) => {
                self.set_toggle(color);
            },
            HistoryEventType::Win => {},
        }
        self.player.undo(event.direction);
        assert(self@ =~= old(self)@.unstep(event));
    }

    /// Takes back the newest record of the history, if there is one, and
    /// returns it. With an empty history nothing happens.
    pub fn undo_last(&mut self) -> (event: Option<HistoryEvent>)
        requires
            old(self).wf(),
        ensures
            final(self).wf(),
            event == (if old(self)@.history.len() > 0 {
                Some(old(self)@.history.last())
            } else {
                None
            }),
            final(self)@ == (match event {
                Some(newest) => old(self)@.unstep(newest),
                None => old(self)@,
            }),
    {
        let event = self.last_event();
        match event {
            Some(newest) => {
                self.undo(newest);
            },
            None => {},
        }
        event
    }

    /// Tells the player to move one cell in `direction`.
    ///
    /// The player faces that way from then on, whether or not a move
    /// follows. The move is refused, with `None`, while the player is
    /// walking, where the target is no floor, and where the entity on the
    /// target says `Stop`. Else the player steps, the
    /// action of the entity takes effect, and the record of the move is added
    /// to the history and returned. An undo of that record, made before any
    /// other move, restores what the move changed: see
    /// [`SceneView::restored_after`].
    pub fn navigate(&mut self, direction: Direction) -> (event: Option<HistoryEvent>)
        requires
            old(self).wf(),
        ensures
            final(self).wf(),
            final(self)@ == old(self)@.step(direction),
            event == old(self)@.step_event(direction),
            final(self)@.player.facing == direction,
            old(self)@.restored_after(direction),
    {
        let count = self.entities.len();
        proof {
            law_undo_restores(old(self)@, direction);
            lemma_step_keeps_wf(old(self)@, direction);
            lemma_choice_is_admitted(old(self)@, direction);
        }
        self.player.face(direction);
        if !self.player.can_walk() {
            return None;
        }
        match direction.checked_from(self.player.x, self.player.y) {
            None => None,
            Some((nx, ny)) => {
                if !self.tile_is_passable(nx, ny) {
                    return None;
                }
                proof {
                    self.room.lemma_cells_in_range(nx as int, ny as int);
                }
                let action = match self.entity_id_at(nx, ny) {
                    Some(entity_id) => self.entities[entity_id].on_approach(entity_id, direction, &*self),
                    None => GameAction::Walk,
                };
                self.handle_action(direction, action)
            },
        }
    }

    /// Commits `action` for a move in `direction`: nothing for `Stop`; else
    /// the player steps, the action takes effect, and its record is added to
    /// the history and returned.
    fn handle_action(&mut self, direction: Direction, action: GameAction) -> (event: Option<HistoryEvent>)
        requires
            old(self)@.admits(direction, action),
        ensures
            final(self)@ == old(self)@.committed(direction, action),
            event == old(self)@.committed_event(direction, action),
    {
        if action == GameAction::Stop {
            return None;
        }
        self.player.walk(direction);
        let evt = match action {
            GameAction::Walk => HistoryEvent { direction: direction.reverse(), event_type: HistoryEventType::Walk },
            GameAction::ColorRadio(color) => {
                let evt = HistoryEvent {
                    direction: direction.reverse(),
                    event_type: HistoryEventType::ColorRadio(self.light_color),
                };
                self.set_radio(color);
                evt
            },
            GameAction::ColorToggle(color) => {
                self.set_toggle(color);
                HistoryEvent { direction: direction.reverse(), event_type: HistoryEventType::ColorToggle(color) }
            },
            GameAction::Win => HistoryEvent { direction: direction.reverse(), event_type: HistoryEventType::Win },
            GameAction::Sink(pusher, water, color) => {
                if pusher < water {
                    self.entities.remove(water);
                    self.entities.remove(pusher);
                } else {
                    self.entities.remove(pusher);
                    self.entities.remove(water);
                }
                HistoryEvent { direction: direction.reverse(), event_type: HistoryEventType::Sink(color) }
            },
            GameAction::Push(entity_id) => {
                match self.entities[entity_id] {
                    Entity::Block(block) => {
                        let mut block = block;
                        block.push(direction);
                        self.entities.set(entity_id, Entity::Block(block));
                    },
                    // A push names a block.
                    _ => unreached(),
                }
                HistoryEvent { direction: direction.reverse(), event_type: HistoryEventType::Push }
            },
            GameAction::Stop => unreached(),
        };
        self.history.push(evt);
        assert(self@ =~= old(self)@.committed(direction, action));
        Some(evt)
    }
}

} // verus!
