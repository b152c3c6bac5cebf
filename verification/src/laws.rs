//! What holds of every scene: moves keep the invariant, and an undo gives
//! back what the move took.

use vstd::prelude::*;
use crate::color::Color;
use crate::direction::Direction;
use crate::entity::{
    distinct_cells, first_at, is_first_at, lemma_first_at, lemma_only_occupant, occupied, Block, Entity, Water,
};
use crate::model::{GameAction, HistoryEvent, HistoryEventType, SceneView};

verus! {

/// The entity that stands on `(x, y)`, without the state of its power.
pub open spec fn occupant(entities: Seq<Entity>, x: int, y: int) -> Option<Entity> {
    if occupied(entities, x, y) {
        Some(entities[first_at(entities, x, y)].unpowered())
    } else {
        None
    }
}

/// The two lists put the same entity on every cell, whatever the power of
/// its lamp. Where no two entities of a list share a cell, this says that
/// the lists hold the same entities on the same cells, in whatever order.
pub open spec fn same_entities(a: Seq<Entity>, b: Seq<Entity>) -> bool {
    forall|x: int, y: int| #![trigger occupant(a, x, y)] #![trigger occupant(b, x, y)] occupant(a, x, y) == occupant(b, x, y)
}

/// `b` holds, place by place, the entities of `a`, but for the power of
/// their lamps.
pub open spec fn repowered(a: Seq<Entity>, b: Seq<Entity>) -> bool {
    &&& a.len() == b.len()
    &&& forall|i: int| 0 <= i < a.len() ==> (#[trigger] b[i]).unpowered() == a[i].unpowered()
}

/// The entities without those at the places `pusher` and `water`.
pub open spec fn without_two(es: Seq<Entity>, pusher: int, water: int) -> Seq<Entity> {
    if pusher < water {
        es.remove(water).remove(pusher)
    } else {
        es.remove(pusher).remove(water)
    }
}

impl SceneView {
    /// The two scenes agree on what an undo depends on: the history, where
    /// the player stands, and which entity stands on which cell.
    pub open spec fn akin(self, other: SceneView) -> bool {
        &&& self.history == other.history
        &&& self.player.x == other.player.x
        &&& self.player.y == other.player.y
        &&& same_entities(self.entities, other.entities)
    }

    /// The two scenes agree on everything that a move or an undo can
    /// restore: the room, the history, where the player stands, the
    /// broadcast colour, and which entity stands on which cell.
    pub open spec fn similar(self, other: SceneView) -> bool {
        &&& self.akin(other)
        &&& self.room == other.room
        &&& self.light_color == other.light_color
    }

    /// What an undo owes a move in `direction`: if the move is committed,
    /// its record is the newest of the history and can be taken back, and
    /// taking it back restores the room, the history, the player's cell, the
    /// broadcast colour and the entities on their cells; if the move is
    /// refused, the player has turned and nothing else has changed.
    pub open spec fn restored_after(self, direction: Direction) -> bool {
        &&& distinct_cells(self.step(direction).entities)
        &&& self.step(direction).entities.len() <= self.entities.len()
        &&& match self.step_event(direction) {
            Some(e) => {
                let t = self.step(direction);
                &&& t.history == self.history.push(e)
                &&& t.applicable(e)
                &&& t.undo(e) == t.unstep(e)
                &&& distinct_cells(t.undo(e).entities)
                &&& self.similar(t.undo(e))
            },
            None => self.step(direction) == self.facing(direction),
        }
    }
}

/// Switching a lamp off moves nothing and changes no entity's kind.
pub proof fn lemma_unpowered(e: Entity)
    ensures
        e.unpowered().spec_x() == e.spec_x(),
        e.unpowered().spec_y() == e.spec_y(),
        e.unpowered() is Block <==> e is Block,
        e is Block ==> e.unpowered() == e,
        e is Water ==> e.unpowered() == e,
        forall|p: Color, q: Color| (#[trigger] e.retuned(p, q)).unpowered() == e.unpowered(),
        forall|c: Color| (#[trigger] e.flipped(c)).unpowered() == e.unpowered(),
{
}

/// Two entities that differ in power at most stand on the same cell, and
/// are the same block if one is a block.
pub proof fn lemma_same_cell(e: Entity, f: Entity)
    requires
        e.unpowered() == f.unpowered(),
    ensures
        e.spec_x() == f.spec_x(),
        e.spec_y() == f.spec_y(),
        e is Block <==> f is Block,
        e is Block ==> e == f,
{
    lemma_unpowered(e);
    lemma_unpowered(f);
}

/// Where no two entities share a cell, each entity is the occupant of its
/// own cell.
pub proof fn lemma_occupant_of(es: Seq<Entity>, i: int)
    requires
        distinct_cells(es),
        0 <= i < es.len(),
    ensures
        occupant(es, es[i].spec_x() as int, es[i].spec_y() as int) == Some(es[i].unpowered()),
{
    lemma_only_occupant(es, es[i].spec_x() as int, es[i].spec_y() as int, i);
}

/// Repowering moves no entity: the cells stay distinct and every cell keeps
/// its occupant.
pub proof fn lemma_repowered_same(a: Seq<Entity>, b: Seq<Entity>)
    requires
        repowered(a, b),
    ensures
        same_entities(a, b),
        distinct_cells(a) ==> distinct_cells(b),
        forall|x: int, y: int| #[trigger] occupant(b, x, y) == occupant(a, x, y),
{
    assert forall|i: int| 0 <= i < a.len() implies (#[trigger] b[i]).spec_x() == a[i].spec_x() && b[i].spec_y()
        == a[i].spec_y() by {
        lemma_same_cell(a[i], b[i]);
    }
    if distinct_cells(a) {
        assert forall|i: int, j: int| 0 <= i < j < b.len() implies !(#[trigger] b[i]).at(
            (#[trigger] b[j]).spec_x() as int,
            b[j].spec_y() as int,
        ) by {
            assert(!a[i].at(a[j].spec_x() as int, a[j].spec_y() as int));
        }
    }
    assert forall|x: int, y: int| #[trigger] occupant(b, x, y) == occupant(a, x, y) by {
        if occupied(a, x, y) {
            lemma_first_at(a, x, y);
            let f = first_at(a, x, y);
            assert(b[f].at(x, y));
            assert(is_first_at(b, x, y, f)) by {
                assert forall|j: int| 0 <= j < f implies !(#[trigger] b[j]).at(x, y) by {
                    assert(!a[j].at(x, y));
                }
            }
            lemma_first_at(b, x, y);
        } else if occupied(b, x, y) {
            let i = choose|i: int| 0 <= i < b.len() && (#[trigger] b[i]).at(x, y);
            assert(a[i].at(x, y));
        }
    }
}

/// Moving one entity to a free cell keeps the cells distinct; the entity is
/// then the occupant of its new cell, its old cell is free, and every other
/// cell keeps its occupant.
pub proof fn lemma_moved(es: Seq<Entity>, id: int, moved: Entity)
    requires
        distinct_cells(es),
        0 <= id < es.len(),
        !occupied(es, moved.spec_x() as int, moved.spec_y() as int),
    ensures
        distinct_cells(es.update(id, moved)),
        forall|x: int, y: int| #[trigger]
            occupant(es.update(id, moved), x, y) == (if moved.at(x, y) {
                Some(moved.unpowered())
            } else if es[id].at(x, y) {
                None
            } else {
                occupant(es, x, y)
            }),
{
    let after = es.update(id, moved);
    assert forall|i: int, j: int| 0 <= i < j < after.len() implies !(#[trigger] after[i]).at(
        (#[trigger] after[j]).spec_x() as int,
        after[j].spec_y() as int,
    ) by {
        if i == id {
            assert(!es[j].at(moved.spec_x() as int, moved.spec_y() as int));
        } else if j == id {
            assert(!es[i].at(moved.spec_x() as int, moved.spec_y() as int));
        } else {
            assert(!es[i].at(es[j].spec_x() as int, es[j].spec_y() as int));
        }
    }
    assert forall|x: int, y: int| #[trigger]
        occupant(after, x, y) == (if moved.at(x, y) {
            Some(moved.unpowered())
        } else if es[id].at(x, y) {
            None
        } else {
            occupant(es, x, y)
        }) by {
        if moved.at(x, y) {
            lemma_only_occupant(after, x, y, id);
        } else if occupied(after, x, y) {
            let k = choose|k: int| 0 <= k < after.len() && (#[trigger] after[k]).at(x, y);
            assert(k != id);
            assert(es[k].at(x, y));
            lemma_only_occupant(es, x, y, k);
            lemma_only_occupant(after, x, y, k);
            if es[id].at(x, y) {
                lemma_only_occupant(es, x, y, id);
            }
        } else if occupied(es, x, y) {
            let k = choose|k: int| 0 <= k < es.len() && (#[trigger] es[k]).at(x, y);
            if k != id {
                assert(after[k].at(x, y));
            }
            lemma_only_occupant(es, x, y, k);
        }
    }
}

/// Adding an entity on a free cell keeps the cells distinct; the entity is
/// then the occupant of its cell, and every other cell keeps its occupant.
pub proof fn lemma_added(es: Seq<Entity>, added: Entity)
    requires
        distinct_cells(es),
        !occupied(es, added.spec_x() as int, added.spec_y() as int),
    ensures
        distinct_cells(es.push(added)),
        forall|x: int, y: int| #[trigger]
            occupant(es.push(added), x, y) == (if added.at(x, y) {
                Some(added.unpowered())
            } else {
                occupant(es, x, y)
            }),
{
    let after = es.push(added);
    assert forall|i: int, j: int| 0 <= i < j < after.len() implies !(#[trigger] after[i]).at(
        (#[trigger] after[j]).spec_x() as int,
        after[j].spec_y() as int,
    ) by {
        if j == es.len() {
            assert(!es[i].at(added.spec_x() as int, added.spec_y() as int));
        } else {
            assert(!es[i].at(es[j].spec_x() as int, es[j].spec_y() as int));
        }
    }
    assert forall|x: int, y: int| #[trigger]
        occupant(after, x, y) == (if added.at(x, y) {
            Some(added.unpowered())
        } else {
            occupant(es, x, y)
        }) by {
        if added.at(x, y) {
            lemma_only_occupant(after, x, y, es.len() as int);
        } else if occupied(after, x, y) {
            let k = choose|k: int| 0 <= k < after.len() && (#[trigger] after[k]).at(x, y);
            assert(es[k].at(x, y));
            lemma_only_occupant(es, x, y, k);
            lemma_only_occupant(after, x, y, k);
        } else if occupied(es, x, y) {
            let k = choose|k: int| 0 <= k < es.len() && (#[trigger] es[k]).at(x, y);
            assert(after[k].at(x, y));
        }
    }
}

/// Taking an entity away keeps the cells distinct; its cell is then free,
/// and every other cell keeps its occupant.
pub proof fn lemma_removed(es: Seq<Entity>, id: int)
    requires
        distinct_cells(es),
        0 <= id < es.len(),
    ensures
        distinct_cells(es.remove(id)),
        es.remove(id).len() == es.len() - 1,
        forall|x: int, y: int| #[trigger]
            occupant(es.remove(id), x, y) == (if es[id].at(x, y) {
                None
            } else {
                occupant(es, x, y)
            }),
{
    let after = es.remove(id);
    es.remove_ensures(id);
    assert forall|i: int| 0 <= i < after.len() implies #[trigger] after[i] == es[if i < id { i } else { i + 1 }] by {}
    assert forall|i: int, j: int| 0 <= i < j < after.len() implies !(#[trigger] after[i]).at(
        (#[trigger] after[j]).spec_x() as int,
        after[j].spec_y() as int,
    ) by {
        let oi = if i < id { i } else { i + 1 };
        let oj = if j < id { j } else { j + 1 };
        assert(!es[oi].at(es[oj].spec_x() as int, es[oj].spec_y() as int));
    }
    assert forall|x: int, y: int| #[trigger]
        occupant(after, x, y) == (if es[id].at(x, y) {
            None
        } else {
            occupant(es, x, y)
        }) by {
        if occupied(after, x, y) {
            let k = choose|k: int| 0 <= k < after.len() && (#[trigger] after[k]).at(x, y);
            let ok = if k < id { k } else { k + 1 };
            assert(es[ok].at(x, y));
            lemma_only_occupant(es, x, y, ok);
            lemma_only_occupant(after, x, y, k);
            if es[id].at(x, y) {
                lemma_only_occupant(es, x, y, id);
            }
        } else if occupied(es, x, y) {
            let k = choose|k: int| 0 <= k < es.len() && (#[trigger] es[k]).at(x, y);
            lemma_only_occupant(es, x, y, k);
            if k != id {
                let nk = if k < id { k } else { k - 1 };
                assert(after[nk] == es[k]);
                assert(after[nk].at(x, y));
            }
        }
    }
}

/// Taking two entities away keeps the cells distinct; their cells are then
/// free, and every other cell keeps its occupant.
pub proof fn lemma_two_removed(es: Seq<Entity>, pusher: int, water: int)
    requires
        distinct_cells(es),
        0 <= pusher < es.len(),
        0 <= water < es.len(),
        pusher != water,
    ensures
        distinct_cells(without_two(es, pusher, water)),
        without_two(es, pusher, water).len() == es.len() - 2,
        forall|x: int, y: int| #[trigger]
            occupant(without_two(es, pusher, water), x, y) == (if es[pusher].at(x, y) || es[water].at(x, y) {
                None
            } else {
                occupant(es, x, y)
            }),
{
    let lo = if pusher < water { pusher } else { water };
    let hi = if pusher < water { water } else { pusher };
    es.remove_ensures(hi);
    assert(es.remove(hi)[lo] == es[lo]);
    lemma_removed(es, hi);
    lemma_removed(es.remove(hi), lo);
    assert forall|x: int, y: int| #[trigger]
        occupant(without_two(es, pusher, water), x, y) == (if es[pusher].at(x, y) || es[water].at(x, y) {
            None
        } else {
            occupant(es, x, y)
        }) by {
        assert(occupant(es.remove(hi).remove(lo), x, y) == (if es[lo].at(x, y) {
            None
        } else {
            occupant(es.remove(hi), x, y)
        }));
    }
}

/// What the action that a move resolves to says of the scene.
///
/// Unless the move is refused, the player is idle and the target is floor
/// with room for one more step. A push names the block on the target, and
/// the cell beyond is free floor. A sink names the block on the target and
/// the water on the floor beyond.
pub proof fn lemma_choice_facts(s: SceneView, d: Direction)
    requires
        s.room.wf(),
        distinct_cells(s.entities),
        s.entities.len() <= usize::MAX,
    ensures
        ({
            let px = s.player.x as int;
            let py = s.player.y as int;
            let (tx, ty) = d.spec_from(px, py);
            let (fx, fy) = d.spec_from(tx, ty);
            let es = s.entities;
            &&& s.facing(d).choice(d) == s.choice(d)
            &&& !(s.choice(d) is Stop) ==> {
                &&& s.player.can_walk()
                &&& s.room.passable(tx, ty)
                &&& d.in_range(px, py)
                &&& d.in_range(tx, ty)
                &&& 0 <= tx < i32::MAX
                &&& 0 <= ty < i32::MAX
            }
            &&& match s.choice(d) {
                GameAction::Push(id) => {
                    &&& 0 <= id < es.len()
                    &&& es[id as int] is Block
                    &&& es[id as int].at(tx, ty)
                    &&& s.room.passable(fx, fy)
                    &&& !occupied(es, fx, fy)
                },
                GameAction::Sink(pusher, water, color) => {
                    &&& 0 <= pusher < es.len()
                    &&& es[pusher as int] == Entity::Block(Block { x: tx as i32, y: ty as i32, color })
                    &&& 0 <= water < es.len()
                    &&& es[water as int] == Entity::Water(Water { x: fx as i32, y: fy as i32 })
                    &&& s.room.passable(fx, fy)
                    &&& pusher != water
                },
                _ => true,
            }
        }),
{
    let px = s.player.x as int;
    let py = s.player.y as int;
    let (tx, ty) = d.spec_from(px, py);
    let (fx, fy) = d.spec_from(tx, ty);
    let es = s.entities;
    Direction::lemma_reverse(d, tx, ty);
    assert(s.facing(d).choice(d) == s.choice(d));
    if !(s.choice(d) is Stop) {
        s.room.lemma_cells_in_range(tx, ty);
        assert(d.in_range(px, py));
        assert(d.in_range(tx, ty));
        if occupied(es, tx, ty) {
            lemma_first_at(es, tx, ty);
            let id = first_at(es, tx, ty);
            assert(es[id].at(tx, ty));
            match es[id] {
                Entity::Block(block) => {
                    assert(s.choice(d) == s.approach_block(block, id as usize, d));
                    assert(block.x as int == tx && block.y as int == ty);
                    if !s.tile_in_light(block.x as int, block.y as int, block.color) {
                        assert(s.tile_is_passable(fx, fy));
                        s.room.lemma_cells_in_range(fx, fy);
                        if occupied(es, fx, fy) {
                            lemma_first_at(es, fx, fy);
                            let wid = first_at(es, fx, fy);
                            assert(es[wid].at(fx, fy));
                            assert(wid != id);
                        }
                    }
                },
                _ => {},
            }
        }
    }
}

/// The action that a move resolves to can be committed.
pub proof fn lemma_choice_is_admitted(s: SceneView, d: Direction)
    requires
        s.room.wf(),
        distinct_cells(s.entities),
        s.entities.len() <= usize::MAX,
    ensures
        s.facing(d).admits(d, s.choice(d)),
        s.facing(d).choice(d) == s.choice(d),
{
    lemma_choice_facts(s, d);
}

/// Hard-setting or toggling the broadcast colour repowers the entities and
/// does no more to them.
pub proof fn lemma_switch_repowers(s: SceneView, color: Color)
    ensures
        repowered(s.entities, s.with_radio(color).entities),
        repowered(s.entities, s.with_toggle(color).entities),
{
    assert forall|i: int| 0 <= i < s.entities.len() implies (#[trigger] s.with_radio(color).entities[i]).unpowered()
        == s.entities[i].unpowered() by {
        lemma_unpowered(s.entities[i]);
    }
    assert forall|i: int| 0 <= i < s.entities.len() implies (#[trigger] s.with_toggle(color).entities[i]).unpowered()
        == s.entities[i].unpowered() by {
        lemma_unpowered(s.entities[i]);
    }
}

/// The cell beyond the player is not the player's own.
proof fn lemma_beyond_differs(s: SceneView, e: HistoryEvent)
    ensures
        s.beyond(e) != (s.player.x as int, s.player.y as int),
{
    Direction::lemma_reverse(e.direction.reverse(), s.player.x as int, s.player.y as int);
}

/// What taking back a record does to the cells, where it can be taken
/// back: the cells stay distinct; a push returns the block from the cell
/// beyond to the player's cell; a sink puts the block on the player's cell
/// and the water on the cell beyond; every other cell keeps its occupant.
pub proof fn lemma_unstep_cells(s: SceneView, e: HistoryEvent)
    requires
        distinct_cells(s.entities),
        s.applicable(e),
    ensures
        distinct_cells(s.unstep(e).entities),
        forall|x: int, y: int| #[trigger]
            occupant(s.unstep(e).entities, x, y) == (match e.event_type {
                HistoryEventType::Push => if x == s.player.x && y == s.player.y {
                    match occupant(s.entities, s.beyond(e).0, s.beyond(e).1) {
                        Some(Entity::Block(block)) => Some(
                            Entity::Block(Block { x: s.player.x, y: s.player.y, ..block }),
                        ),
                        _ => None,
                    }
                } else if (x, y) == s.beyond(e) {
                    None
                } else {
                    occupant(s.entities, x, y)
                },
                HistoryEventType::Sink(color) => if x == s.player.x && y == s.player.y {
                    Some(Entity::Block(Block { x: s.player.x, y: s.player.y, color }))
                } else if (x, y) == s.beyond(e) {
                    Some(Entity::Water(Water { x: s.beyond(e).0 as i32, y: s.beyond(e).1 as i32 }))
                } else {
                    occupant(s.entities, x, y)
                },
                _ => occupant(s.entities, x, y),
            }),
{
    let es = s.entities;
    let px = s.player.x as int;
    let py = s.player.y as int;
    let (bx, by) = s.beyond(e);
    lemma_beyond_differs(s, e);
    match e.event_type {
        HistoryEventType::Push => {
            lemma_first_at(es, bx, by);
            let id = first_at(es, bx, by);
            let block = es[id]->Block_0;
            lemma_unpowered(es[id]);
            lemma_moved(es, id, Entity::Block(Block { x: s.player.x, y: s.player.y, ..block }));
        },
        HistoryEventType::Sink(color) => {
            let block = Entity::Block(Block { x: s.player.x, y: s.player.y, color });
            let water = Entity::Water(Water { x: bx as i32, y: by as i32 });
            lemma_added(es, block);
            assert(occupant(es.push(block), bx, by) is None);
            lemma_added(es.push(block), water);
        },
        HistoryEventType::ColorRadio(color) => {
            lemma_switch_repowers(s, color);
            lemma_repowered_same(es, s.with_radio(color).entities);
        },
        HistoryEventType::ColorToggle(color) => {
            lemma_switch_repowers(s, color);
            lemma_repowered_same(es, s.with_toggle(color).entities);
        },
        _ => {},
    }
}

/// A record that can be taken back in one scene can be taken back in any
/// scene akin to it.
pub proof fn lemma_applicable_akin(a: SceneView, b: SceneView, e: HistoryEvent)
    requires
        a.akin(b),
        a.applicable(e),
    ensures
        b.applicable(e),
{
    let px = a.player.x as int;
    let py = a.player.y as int;
    let (bx, by) = a.beyond(e);
    assert(occupant(a.entities, bx, by) == occupant(b.entities, bx, by));
    assert(occupant(a.entities, px, py) == occupant(b.entities, px, py));
    match e.event_type {
        HistoryEventType::Push => {
            lemma_unpowered(a.entities[first_at(a.entities, bx, by)]);
            lemma_unpowered(b.entities[first_at(b.entities, bx, by)]);
        },
        _ => {},
    }
}

/// Taking the same record back in two scenes that are akin leaves two
/// scenes that are akin, each with its entities on cells of their own.
pub proof fn lemma_unstep_akin(a: SceneView, b: SceneView, e: HistoryEvent)
    requires
        a.akin(b),
        distinct_cells(a.entities),
        distinct_cells(b.entities),
        a.applicable(e),
    ensures
        b.applicable(e),
        a.unstep(e).akin(b.unstep(e)),
        distinct_cells(a.unstep(e).entities),
        distinct_cells(b.unstep(e).entities),
{
    lemma_applicable_akin(a, b, e);
    lemma_unstep_cells(a, e);
    lemma_unstep_cells(b, e);
    let (bx, by) = a.beyond(e);
    assert(occupant(a.entities, bx, by) == occupant(b.entities, bx, by));
    assert forall|x: int, y: int| #![trigger occupant(a.unstep(e).entities, x, y)] #![trigger occupant(b.unstep(e).entities, x, y)]
        occupant(a.unstep(e).entities, x, y) == occupant(b.unstep(e).entities, x, y) by {
        assert(occupant(a.entities, x, y) == occupant(b.entities, x, y));
    }
}

/// A history that can be taken back in one scene can be taken back in any
/// scene akin to it.
pub proof fn lemma_replayable_akin(a: SceneView, b: SceneView)
    requires
        a.akin(b),
        distinct_cells(a.entities),
        distinct_cells(b.entities),
        a.replayable(),
    ensures
        b.replayable(),
    decreases a.history.len(),
{
    if a.history.len() > 0 {
        let e = a.history.last();
        lemma_unstep_akin(a, b, e);
        lemma_replayable_akin(a.unstep(e), b.unstep(e));
    }
}

/// A change that leaves a valid room and keeps the history, the player's
/// cell and, but for their power, the entities keeps the invariant.
pub proof fn lemma_akin_keeps_wf(a: SceneView, b: SceneView)
    requires
        a.wf(),
        b.room.wf(),
        b.history == a.history,
        b.player.x == a.player.x,
        b.player.y == a.player.y,
        repowered(a.entities, b.entities),
    ensures
        b.wf(),
        a.akin(b),
{
    lemma_repowered_same(a.entities, b.entities);
    lemma_replayable_akin(a, b);
}

/// Taking back the newest record keeps the invariant.
pub proof fn lemma_unstep_keeps_wf(s: SceneView)
    requires
        s.wf(),
        s.history.len() > 0,
    ensures
        s.applicable(s.history.last()),
        s.unstep(s.history.last()).wf(),
{
    lemma_unstep_cells(s, s.history.last());
}

/// What every committed move has in common: the player stands on the
/// target, the record points back, and taking it back returns the player
/// and the history.
proof fn lemma_commit_frame(s: SceneView, d: Direction)
    requires
        s.room.wf(),
        distinct_cells(s.entities),
        s.entities.len() <= usize::MAX,
        !(s.choice(d) is Stop),
    ensures
        ({
            let t = s.step(d);
            let e = s.event_for(d, s.choice(d));
            let u = t.unstep(e);
            let (tx, ty) = d.spec_from(s.player.x as int, s.player.y as int);
            &&& s.step_event(d) == Some(e)
            &&& t.player.x as int == tx
            &&& t.player.y as int == ty
            &&& t.beyond(e) == d.spec_from(tx, ty)
            &&& t.room == s.room
            &&& t.entities == s.entities_after(d, s.choice(d))
            &&& t.light_color == s.light_after(s.choice(d))
            &&& t.history == s.history.push(e)
            &&& t.history.last() == e
            &&& t.undo(e) == u
            &&& e.direction == d.reverse()
            &&& e.direction.in_range(tx, ty)
            &&& e.direction.reverse().in_range(tx, ty)
            &&& u.room == s.room
            &&& u.player.x == s.player.x
            &&& u.player.y == s.player.y
            &&& u.history == s.history
            &&& u.entities == t.entities_before(e)
            &&& u.light_color == t.light_before(e)
        }),
{
    lemma_choice_facts(s, d);
    let px = s.player.x as int;
    let py = s.player.y as int;
    let (tx, ty) = d.spec_from(px, py);
    let t = s.step(d);
    let e = s.event_for(d, s.choice(d));
    Direction::lemma_reverse(d, px, py);
    Direction::lemma_reverse(d, tx, ty);
    Direction::lemma_reverse(d.reverse(), tx, ty);
    assert(s.facing(d).event_for(d, s.choice(d)) == e);
    assert(t.history.drop_last() =~= s.history);
    assert(s.facing(d).entities_after(d, s.choice(d)) == s.entities_after(d, s.choice(d)));
}

/// What a committed move does to the cells: the cells stay distinct; a push
/// moves the block from the target to the cell beyond; a sink frees the
/// target and the cell beyond; every other cell keeps its occupant.
proof fn lemma_commit_cells(s: SceneView, d: Direction)
    requires
        s.room.wf(),
        distinct_cells(s.entities),
        s.entities.len() <= usize::MAX,
        !(s.choice(d) is Stop),
    ensures
        distinct_cells(s.entities_after(d, s.choice(d))),
        s.entities_after(d, s.choice(d)).len() <= s.entities.len(),
        forall|x: int, y: int| #[trigger]
            occupant(s.entities_after(d, s.choice(d)), x, y) == ({
                let (tx, ty) = d.spec_from(s.player.x as int, s.player.y as int);
                let (fx, fy) = d.spec_from(tx, ty);
                match s.choice(d) {
                    GameAction::Push(_) => if (x, y) == (fx, fy) {
                        match occupant(s.entities, tx, ty) {
                            Some(Entity::Block(block)) => Some(
                                Entity::Block(Block { x: fx as i32, y: fy as i32, ..block }),
                            ),
                            _ => None,
                        }
                    } else if (x, y) == (tx, ty) {
                        None
                    } else {
                        occupant(s.entities, x, y)
                    },
                    GameAction::Sink(_, _, _) => if (x, y) == (fx, fy) || (x, y) == (tx, ty) {
                        None
                    } else {
                        occupant(s.entities, x, y)
                    },
                    _ => occupant(s.entities, x, y),
                }
            }),
{
    lemma_choice_facts(s, d);
    let es = s.entities;
    let (tx, ty) = d.spec_from(s.player.x as int, s.player.y as int);
    let (fx, fy) = d.spec_from(tx, ty);
    Direction::lemma_reverse(d, tx, ty);
    match s.choice(d) {
        GameAction::Push(id) => {
            let block = es[id as int]->Block_0;
            lemma_unpowered(es[id as int]);
            lemma_occupant_of(es, id as int);
            lemma_moved(es, id as int, Entity::Block(block.pushed(d)));
        },
        GameAction::Sink(pusher, water, _) => {
            lemma_two_removed(es, pusher as int, water as int);
            assert(s.entities_after(d, s.choice(d)) == without_two(es, pusher as int, water as int));
        },
        GameAction::ColorRadio(color) => {
            lemma_switch_repowers(s, color);
            lemma_repowered_same(es, s.with_radio(color).entities);
        },
        GameAction::ColorToggle(color) => {
            lemma_switch_repowers(s, color);
            lemma_repowered_same(es, s.with_toggle(color).entities);
        },
        _ => {},
    }
}

/// A committed move can be taken back at once, and the undo restores the
/// room, the history, the player's cell, the broadcast colour and the
/// entities on their cells. A refused move only turns the player.
pub proof fn law_undo_restores(s: SceneView, d: Direction)
    requires
        s.room.wf(),
        distinct_cells(s.entities),
        s.entities.len() <= usize::MAX,
    ensures
        s.restored_after(d),
{
    if !(s.choice(d) is Stop) {
        lemma_choice_facts(s, d);
        lemma_commit_frame(s, d);
        lemma_commit_cells(s, d);
        let t = s.step(d);
        let e = s.event_for(d, s.choice(d));
        let u = t.unstep(e);
        let (tx, ty) = d.spec_from(s.player.x as int, s.player.y as int);
        let (fx, fy) = d.spec_from(tx, ty);
        Direction::lemma_reverse(d, tx, ty);
        match s.choice(d) {
            GameAction::Push(id) => {
                lemma_occupant_of(s.entities, id as int);
                lemma_unpowered(s.entities[id as int]);
                assert(occupant(t.entities, fx, fy) is Some);
                assert(occupant(t.entities, tx, ty) is None);
                lemma_unpowered(t.entities[first_at(t.entities, fx, fy)]);
            },
            GameAction::Sink(pusher, water, color) => {
                lemma_occupant_of(s.entities, pusher as int);
                lemma_occupant_of(s.entities, water as int);
                assert(occupant(t.entities, fx, fy) is None);
                assert(occupant(t.entities, tx, ty) is None);
            },
            GameAction::ColorToggle(color) => {
                Color::lemma_toggle_twice(s.light_color, color);
            },
            _ => {},
        }
        assert(t.applicable(e));
        lemma_unstep_cells(t, e);
        assert forall|x: int, y: int| #![trigger occupant(s.entities, x, y)] #![trigger occupant(u.entities, x, y)]
            occupant(s.entities, x, y) == occupant(u.entities, x, y) by {
            assert(occupant(t.entities, x, y) == occupant(t.entities, x, y));
        }
    }
}

/// A move keeps the invariant, and adds no entity.
pub proof fn lemma_step_keeps_wf(s: SceneView, d: Direction)
    requires
        s.wf(),
        s.entities.len() <= usize::MAX,
    ensures
        s.step(d).wf(),
        s.step(d).entities.len() <= s.entities.len(),
{
    law_undo_restores(s, d);
    let t = s.step(d);
    match s.step_event(d) {
        Some(e) => {
            lemma_replayable_akin(s, t.unstep(e));
        },
        None => {
            lemma_akin_keeps_wf(s, t);
        },
    }
}

impl SceneView {
    /// The scene with the player idle: the move in progress is over.
    pub open spec fn settled(self) -> SceneView {
        SceneView { player: self.player.resolved(), ..self }
    }

    /// The scene after the player was told each of `directions` in turn,
    /// each time with the move before it over.
    pub open spec fn play(self, directions: Seq<Direction>) -> SceneView
        decreases directions.len(),
    {
        if directions.len() == 0 {
            self
        } else {
            self.play(directions.drop_last()).settled().step(directions.last())
        }
    }

    /// What the scene answers to each of `directions` in turn: the record of
    /// the move, or `None` where the move is refused.
    pub open spec fn replies(self, directions: Seq<Direction>) -> Seq<Option<HistoryEvent>>
        decreases directions.len(),
    {
        if directions.len() == 0 {
            Seq::empty()
        } else {
            self.replies(directions.drop_last()).push(
                self.play(directions.drop_last()).settled().step_event(directions.last()),
            )
        }
    }

    /// The scene after `count` undos, each of the record that is the newest
    /// at its turn.
    pub open spec fn rewind(self, count: nat) -> SceneView
        decreases count,
    {
        if count == 0 || self.history.len() == 0 {
            self
        } else {
            self.undo(self.history.last()).rewind((count - 1) as nat)
        }
    }
}

/// Being similar is symmetric and transitive.
pub proof fn lemma_similar_equivalence(a: SceneView, b: SceneView, c: SceneView)
    ensures
        a.similar(a),
        a.similar(b) ==> b.similar(a),
        a.similar(b) && b.similar(c) ==> a.similar(c),
{
    if a.similar(b) && b.similar(c) {
        assert forall|x: int, y: int| #![trigger occupant(a.entities, x, y)] #![trigger occupant(c.entities, x, y)]
            occupant(a.entities, x, y) == occupant(c.entities, x, y) by {
            assert(occupant(a.entities, x, y) == occupant(b.entities, x, y));
            assert(occupant(b.entities, x, y) == occupant(c.entities, x, y));
        }
    }
}

/// The same undos in two similar scenes leave two similar scenes.
pub proof fn lemma_rewind_similar(a: SceneView, b: SceneView, count: nat)
    requires
        a.similar(b),
        distinct_cells(a.entities),
        distinct_cells(b.entities),
        a.replayable(),
    ensures
        a.rewind(count).similar(b.rewind(count)),
    decreases count,
{
    if count > 0 && a.history.len() > 0 {
        let e = a.history.last();
        lemma_unstep_akin(a, b, e);
        lemma_rewind_similar(a.unstep(e), b.unstep(e), (count - 1) as nat);
    }
}

/// Round trip: after any sequence of moves, one undo for each move that
/// was committed, newest first, restores the room, the history, the
/// player's cell, the broadcast colour and the entities on their cells.
pub proof fn law_round_trip(s: SceneView, directions: Seq<Direction>)
    requires
        s.wf(),
        s.entities.len() <= usize::MAX,
    ensures
        s.play(directions).wf(),
        s.play(directions).entities.len() <= s.entities.len(),
        s.play(directions).history.len() >= s.history.len(),
        s.similar(s.play(directions).rewind((s.play(directions).history.len() - s.history.len()) as nat)),
    decreases directions.len(),
{
    if directions.len() == 0 {
        lemma_similar_equivalence(s, s, s);
    } else {
        let d = directions.last();
        let p = s.play(directions.drop_last());
        law_round_trip(s, directions.drop_last());
        let k = (p.history.len() - s.history.len()) as nat;
        let q = p.settled();
        lemma_akin_keeps_wf(p, q);
        law_undo_restores(q, d);
        lemma_step_keeps_wf(q, d);
        let t = q.step(d);
        // What one undo, if any is due, makes of `t` is similar to `p`.
        let back = match q.step_event(d) {
            Some(e) => t.unstep(e),
            None => t,
        };
        assert(q.similar(back)) by {
            if q.step_event(d) is None {
                lemma_akin_keeps_wf(q, t);
            }
        }
        lemma_similar_equivalence(p, q, back);
        lemma_rewind_similar(p, back, k);
        lemma_similar_equivalence(s, p.rewind(k), back.rewind(k));
        match q.step_event(d) {
            Some(e) => {
                assert(t.history.len() == p.history.len() + 1);
                assert(t.rewind(k + 1) == back.rewind(k));
            },
            None => {},
        }
    }
}

/// Determinism: two scenes that agree on the room, the player, the
/// entities, the broadcast colour and the history answer every sequence of
/// moves with the same records and end in the same state.
pub proof fn law_deterministic(a: SceneView, b: SceneView, directions: Seq<Direction>)
    requires
        a.room == b.room,
        a.player == b.player,
        a.entities == b.entities,
        a.light_color == b.light_color,
        a.history == b.history,
    ensures
        a.play(directions) == b.play(directions),
        a.replies(directions) == b.replies(directions),
{
    assert(a == b);
}

/// After a command the player faces the way of the command, whether the
/// move was committed or refused.
pub proof fn law_step_faces(s: SceneView, d: Direction)
    ensures
        s.step(d).player.facing == d,
        s.step_event(d) is None ==> s.step(d) == (SceneView { player: s.player.faced(d), ..s }),
{
}

/// A block that stands in light of its own colour lets the player through,
/// from whichever side it is approached.
pub proof fn law_lit_block_lets_through(s: SceneView, block: Block, entity_id: usize, d: Direction)
    requires
        s.tile_in_light(block.x as int, block.y as int, block.color),
    ensures
        s.approach(Entity::Block(block), entity_id, d) == GameAction::Walk,
{
}

} // verus!
