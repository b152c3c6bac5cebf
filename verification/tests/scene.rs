use geo::Contains;
use geo_visibility::Visibility;
use lightgrid::color::Color;
use lightgrid::direction::Direction;
use lightgrid::entity::{Block, Entity, Exit, LightRadio, LightToggle, Lightbulb, Water};
use lightgrid::player::Player;
use lightgrid::room::{Room, Tile};
use lightgrid::scene::{HeadlessScene, HistoryEvent, HistoryEventType};
use lightgrid::scene_config::SceneConfig;
use lightgrid::visibility::{cells_within, lamp_point, tile_square, wall_squares, Square, TILE_SIZE};

/// The square of a tile as a polygon on the plane.
fn polygon_of(square: Square) -> geo::Polygon<f64> {
    let left = square.left as f64;
    let top = square.top as f64;
    let side = TILE_SIZE as f64;
    geo::Polygon::new(
        geo::LineString::from(vec![(left, top), (left + side, top), (left + side, top + side), (left, top + side)]),
        vec![],
    )
}

/// The cells of `room` that a lamp on `(x, y)` sees whole.
fn line_of_sight(x: i32, y: i32, room: &Room) -> Vec<usize> {
    let walls = geo::MultiPolygon(wall_squares(&room.tiles, room.width).into_iter().map(polygon_of).collect());
    let (px, py) = lamp_point(x, y);
    let seen = geo::Point::new(px as f64, py as f64).visibility(&walls);
    cells_within(room.width, room.height, &|tx, ty| seen.contains(&polygon_of(tile_square(tx, ty))))
}

/// Reads a level and lets each of its lamps shine on what it sees.
fn load(level: &str) -> HeadlessScene {
    let config = SceneConfig::from_file(level.as_bytes()).expect("the level is well formed");
    let mut state = config.state;
    let mut sight = Vec::new();
    for lamp in state.lamps() {
        let cells = line_of_sight(lamp.x, lamp.y, state.room());
        assert!(cells.iter().all(|&cell| cell < state.room().sees_color.len()));
        sight.push(cells);
    }
    state.light_up(&sight);
    state
}

fn event(direction: Direction, event_type: HistoryEventType) -> Option<HistoryEvent> {
    Some(HistoryEvent { direction, event_type })
}

fn walk_east(state: &mut HeadlessScene) {
    let evt = state.navigate(Direction::East);
    state.resolve();
    assert_eq!(evt, event(Direction::West, HistoryEventType::Walk));
}

fn walk_north(state: &mut HeadlessScene) {
    let evt = state.navigate(Direction::North);
    state.resolve();
    assert_eq!(evt, event(Direction::South, HistoryEventType::Walk));
}

fn walk_south(state: &mut HeadlessScene) {
    let evt = state.navigate(Direction::South);
    state.resolve();
    assert_eq!(evt, event(Direction::North, HistoryEventType::Walk));
}

fn stopped_east(state: &mut HeadlessScene) {
    let evt = state.navigate(Direction::East);
    state.resolve();
    assert_eq!(evt, None);
}

fn stopped_north(state: &mut HeadlessScene) {
    let evt = state.navigate(Direction::North);
    state.resolve();
    assert_eq!(evt, None);
}

fn stopped_south(state: &mut HeadlessScene) {
    let evt = state.navigate(Direction::South);
    state.resolve();
    assert_eq!(evt, None);
}

fn push_west(state: &mut HeadlessScene) {
    let evt = state.navigate(Direction::West);
    state.resolve();
    assert_eq!(evt, event(Direction::East, HistoryEventType::Push));
}

fn push_east(state: &mut HeadlessScene) {
    let evt = state.navigate(Direction::East);
    state.resolve();
    assert_eq!(evt, event(Direction::West, HistoryEventType::Push));
}

fn push_south(state: &mut HeadlessScene) {
    let evt = state.navigate(Direction::South);
    state.resolve();
    assert_eq!(evt, event(Direction::North, HistoryEventType::Push));
}

fn push_south_and_advance(state: &mut HeadlessScene) {
    push_south(state);
    walk_north(state);
    walk_east(state);
}

fn walk_south_and_advance(state: &mut HeadlessScene) {
    walk_south(state);
    walk_north(state);
    walk_east(state);
}

/// Two gray blocks in a small room.
const LEVEL_PUSH: &str = "kpp\n\
######\n\
#ak\u{33d}..#\n\
#.k\u{33d}.##\n\
######\n";

/// A corridor over a row of blocks in the colours k r g b c y m w, with a
/// free row below the blocks and a green lamp that sees all of it.
const LEVEL_PRIMARY_PUSH: &str = "Gpp\n\
###########\n\
#a........#\n\
#k\u{33d}r\u{33d}g\u{33d}b\u{33d}c\u{33d}y\u{33d}m\u{33d}w\u{33d}G#\n\
#.........#\n\
###########\n";

/// The player first steps on a blue toggle, which adds blue to the red that
/// is broadcast; a red and a blue lamp both see the row of blocks.
const LEVEL_SECONDARY_PUSH: &str = "Rpp\n\
###########\n\
#a#########\n\
#b\u{302}#########\n\
#.........#\n\
#k\u{33d}r\u{33d}g\u{33d}b\u{33d}c\u{33d}y\u{33d}m\u{33d}w\u{33d}R#\n\
#........B#\n\
###########\n";

/// As before, but the blue lamp is walled in and sees no block.
const LEVEL_SECONDARY_OBSCURED: &str = "Rpp\n\
###########\n\
#a###B#####\n\
#b\u{302}#########\n\
#.........#\n\
#k\u{33d}r\u{33d}g\u{33d}b\u{33d}c\u{33d}y\u{33d}m\u{33d}w\u{33d}R#\n\
#.........#\n\
###########\n";

#[test]
fn test_push() {
    let mut state = load(LEVEL_PUSH);

    stopped_north(&mut state);
    push_east(&mut state);
    push_east(&mut state);
    stopped_east(&mut state);
    walk_south(&mut state);
    stopped_south(&mut state);
    push_west(&mut state);
}

#[test]
fn test_primary_push() {
    let mut state = load(LEVEL_PRIMARY_PUSH);

    // moving through green light
    push_south_and_advance(&mut state); // push black
    push_south_and_advance(&mut state); // push red
    walk_south_and_advance(&mut state); // walk green
    push_south_and_advance(&mut state); // push blue
    walk_south_and_advance(&mut state); // walk cyan
    walk_south_and_advance(&mut state); // walk yellow
    push_south_and_advance(&mut state); // push magenta
    walk_south_and_advance(&mut state); // walk white
}

#[test]
fn test_secondary_push() {
    let mut state = load(LEVEL_SECONDARY_PUSH);

    let evt = state.navigate(Direction::South);
    state.resolve();
    assert_eq!(evt, event(Direction::North, HistoryEventType::ColorToggle(Color::Blue)));
    assert_eq!(state.light_color(), Color::Magenta);

    walk_south(&mut state);

    // moving through magenta light, red and blue: a block is lit as soon
    // as it shares a channel with the light
    push_south_and_advance(&mut state); // push black
    walk_south_and_advance(&mut state); // walk red
    push_south_and_advance(&mut state); // push green
    walk_south_and_advance(&mut state); // walk blue
    walk_south_and_advance(&mut state); // walk cyan
    walk_south_and_advance(&mut state); // walk yellow
    walk_south_and_advance(&mut state); // walk magenta
    walk_south_and_advance(&mut state); // walk white
}

#[test]
fn test_secondary_obscured() {
    let mut state = load(LEVEL_SECONDARY_OBSCURED);

    state.navigate(Direction::South);
    state.resolve();
    assert_eq!(state.light_color(), Color::Magenta);

    walk_south(&mut state);

    // moving through red light, despite blue also being on
    push_south_and_advance(&mut state); // push black
    walk_south_and_advance(&mut state); // walk red
    push_south_and_advance(&mut state); // push green
    push_south_and_advance(&mut state); // push blue
    push_south_and_advance(&mut state); // push cyan
    walk_south_and_advance(&mut state); // walk yellow
    walk_south_and_advance(&mut state); // walk magenta
    walk_south_and_advance(&mut state); // walk white
}

/// A room of floor inside a ring of walls, dark.
fn walled_room(width: usize, height: usize) -> Room {
    let mut tiles = Vec::new();
    for y in 0..height {
        for x in 0..width {
            let edge = x == 0 || y == 0 || x == width - 1 || y == height - 1;
            tiles.push(if edge { Tile::Wall } else { Tile::Floor });
        }
    }
    let sees_color = vec![Color::Gray; tiles.len()];
    Room { width, height, tiles, sees_color }
}

/// The entities of a scene, in an order that does not depend on the order
/// of the list, and without the power of the lamps.
fn entity_set(state: &HeadlessScene) -> Vec<String> {
    let mut set: Vec<String> = state
        .entities()
        .iter()
        .map(|e| match e {
            Entity::Lightbulb(bulb) => format!("{:?}", Lightbulb { on: false, ..*bulb }),
            other => format!("{:?}", other),
        })
        .collect();
    set.sort();
    set
}

#[test]
fn push_against_wall_stops() {
    // "#####/#a.r#/#####": the block has a wall behind it
    let room = Room {
        width: 5,
        height: 3,
        tiles: vec![
            Tile::Wall, Tile::Wall, Tile::Wall, Tile::Wall, Tile::Wall,
            Tile::Wall, Tile::Floor, Tile::Floor, Tile::Floor, Tile::Wall,
            Tile::Wall, Tile::Wall, Tile::Wall, Tile::Wall, Tile::Wall,
        ],
        sees_color: vec![Color::Gray; 15],
    };
    let mut state = HeadlessScene::new(
        Player::new(1, 1),
        room,
        vec![Entity::Block(Block::new(3, 1, Color::Red))],
        Color::Gray,
    );
    assert_eq!(state.navigate(Direction::East), event(Direction::West, HistoryEventType::Walk));
    state.resolve();
    assert_eq!((state.player().x, state.player().y), (2, 1));
    assert_eq!(state.entity_at(3, 1), Some(&Entity::Block(Block::new(3, 1, Color::Red))));

    assert_eq!(state.navigate(Direction::East), None);
    assert_eq!((state.player().x, state.player().y), (2, 1));
    assert_eq!(state.entity_at(3, 1), Some(&Entity::Block(Block::new(3, 1, Color::Red))));
    assert_eq!(state.last_event(), event(Direction::West, HistoryEventType::Walk));
}

#[test]
fn push_into_free_floor() {
    let mut state = HeadlessScene::new(
        Player::new(1, 1),
        walled_room(6, 3),
        vec![Entity::Block(Block::new(3, 1, Color::Red))],
        Color::Gray,
    );
    assert_eq!(state.navigate(Direction::East), event(Direction::West, HistoryEventType::Walk));
    state.resolve();
    assert_eq!(state.navigate(Direction::East), event(Direction::West, HistoryEventType::Push));
    assert_eq!((state.player().x, state.player().y), (3, 1));
    assert_eq!(state.entity_at(3, 1), None);
    assert_eq!(state.entity_at(4, 1), Some(&Entity::Block(Block::new(4, 1, Color::Red))));
    assert_eq!(state.entity_id_at(4, 1), Some(0));
}

#[test]
fn exit_wins_once() {
    let mut state = HeadlessScene::new(
        Player::new(1, 1),
        walled_room(4, 3),
        vec![Entity::Exit(Exit::new(2, 1))],
        Color::Gray,
    );
    let evt = state.navigate(Direction::East);
    assert_eq!(evt, event(Direction::West, HistoryEventType::Win));
    assert_eq!((state.player().x, state.player().y), (2, 1));
    // the player is walking: a second command gives no second win
    assert_eq!(state.navigate(Direction::East), None);
    state.resolve();
    // and the exit is behind the player now
    assert_eq!(state.navigate(Direction::East), None);
    // the win is a record like any other, and its undo only steps back
    state.undo(evt.unwrap());
    assert_eq!((state.player().x, state.player().y), (1, 1));
    assert_eq!(state.entity_at(2, 1), Some(&Entity::Exit(Exit::new(2, 1))));
    assert_eq!(state.last_event(), None);
}

#[test]
fn block_sinks_in_water() {
    let mut state = HeadlessScene::new(
        Player::new(1, 1),
        walled_room(5, 3),
        vec![
            Entity::Exit(Exit::new(1, 1)),
            Entity::Block(Block::new(2, 1, Color::Red)),
            Entity::Water(Water::new(3, 1)),
        ],
        Color::Gray,
    );
    let evt = state.navigate(Direction::East);
    assert_eq!(evt, event(Direction::West, HistoryEventType::Sink(Color::Red)));
    assert_eq!((state.player().x, state.player().y), (2, 1));
    assert_eq!(state.entity_at(3, 1), None);
    assert_eq!(state.entity_at(2, 1), None);
    assert_eq!(state.entity_id_at(3, 1), None);
    assert_eq!(state.entities().len(), 1);
    assert_eq!(state.entity_at(1, 1), Some(&Entity::Exit(Exit::new(1, 1))));
}

#[test]
fn block_sinks_whatever_the_order_of_the_list() {
    let mut state = HeadlessScene::new(
        Player::new(1, 1),
        walled_room(5, 3),
        vec![
            Entity::Water(Water::new(3, 1)),
            Entity::Exit(Exit::new(1, 1)),
            Entity::Block(Block::new(2, 1, Color::Cyan)),
        ],
        Color::Gray,
    );
    let evt = state.navigate(Direction::East);
    assert_eq!(evt, event(Direction::West, HistoryEventType::Sink(Color::Cyan)));
    assert_eq!(state.entities(), &vec![Entity::Exit(Exit::new(1, 1))]);
}

#[test]
fn lit_block_lets_through_from_every_side() {
    for (direction, start) in [
        (Direction::East, (1, 2)),
        (Direction::West, (3, 2)),
        (Direction::South, (2, 1)),
        (Direction::North, (2, 3)),
    ] {
        let mut room = walled_room(5, 5);
        // a red lamp sees the cell of the block
        room.illuminate(Color::Red, &vec![2 + 2 * 5]);
        let mut state = HeadlessScene::new(
            Player::new(start.0, start.1),
            room,
            vec![Entity::Block(Block::new(2, 2, Color::Red))],
            Color::Red,
        );
        let evt = state.navigate(direction);
        assert_eq!(evt, event(direction.reverse(), HistoryEventType::Walk));
        assert_eq!((state.player().x, state.player().y), (2, 2));
        assert_eq!(state.entity_at(2, 2), Some(&Entity::Block(Block::new(2, 2, Color::Red))));
    }
}

#[test]
fn block_in_the_dark_is_pushed_though_its_colour_is_broadcast() {
    // red is broadcast, but no lamp sees the cell of the block
    let mut state = HeadlessScene::new(
        Player::new(1, 2),
        walled_room(5, 5),
        vec![Entity::Block(Block::new(2, 2, Color::Red))],
        Color::Red,
    );
    assert_eq!(state.navigate(Direction::East), event(Direction::West, HistoryEventType::Push));
    assert_eq!(state.entity_at(3, 2), Some(&Entity::Block(Block::new(3, 2, Color::Red))));
}

#[test]
fn block_stops_at_any_entity_but_water() {
    let mut state = HeadlessScene::new(
        Player::new(1, 1),
        walled_room(6, 3),
        vec![Entity::Block(Block::new(2, 1, Color::Red)), Entity::Block(Block::new(3, 1, Color::Green))],
        Color::Gray,
    );
    assert_eq!(state.navigate(Direction::East), None);
    assert_eq!((state.player().x, state.player().y), (1, 1));
    assert_eq!(state.last_event(), None);
}

#[test]
fn lamp_is_in_the_way() {
    let mut state = HeadlessScene::new(
        Player::new(1, 1),
        walled_room(4, 3),
        vec![Entity::Lightbulb(Lightbulb::new(2, 1, Color::Red))],
        Color::Gray,
    );
    assert_eq!(state.navigate(Direction::East), None);
}

#[test]
fn water_stops_unless_blue_light_dries_it() {
    let mut state = HeadlessScene::new(
        Player::new(1, 1),
        walled_room(4, 3),
        vec![Entity::Water(Water::new(2, 1))],
        Color::Blue,
    );
    assert_eq!(state.navigate(Direction::East), None);

    let mut room = walled_room(4, 3);
    room.illuminate(Color::Blue, &vec![2 + 4]);
    let mut state = HeadlessScene::new(Player::new(1, 1), room, vec![Entity::Water(Water::new(2, 1))], Color::Cyan);
    assert_eq!(state.navigate(Direction::East), event(Direction::West, HistoryEventType::Walk));
    assert_eq!(state.entity_at(2, 1), Some(&Entity::Water(Water::new(2, 1))));
}

#[test]
fn radio_switch_sets_the_colour_and_records_the_old_one() {
    let mut state = HeadlessScene::new(
        Player::new(1, 1),
        walled_room(5, 3),
        vec![
            Entity::LightRadio(LightRadio::new(2, 1, Color::Green)),
            Entity::Lightbulb(Lightbulb::new(3, 1, Color::Green)),
            Entity::Lightbulb(Lightbulb::new(1, 1, Color::Red)),
        ],
        Color::Red,
    );
    assert_eq!(
        state.entities()[2],
        Entity::Lightbulb(Lightbulb { x: 1, y: 1, color: Color::Red, on: true })
    );
    let evt = state.navigate(Direction::East);
    assert_eq!(evt, event(Direction::West, HistoryEventType::ColorRadio(Color::Red)));
    assert_eq!(state.light_color(), Color::Green);
    assert_eq!(
        state.entities()[1],
        Entity::Lightbulb(Lightbulb { x: 3, y: 1, color: Color::Green, on: true })
    );
    assert_eq!(
        state.entities()[2],
        Entity::Lightbulb(Lightbulb { x: 1, y: 1, color: Color::Red, on: false })
    );
    state.undo(evt.unwrap());
    assert_eq!(state.light_color(), Color::Red);
    assert_eq!((state.player().x, state.player().y), (1, 1));
    assert_eq!(
        state.entities()[1],
        Entity::Lightbulb(Lightbulb { x: 3, y: 1, color: Color::Green, on: false })
    );
    assert_eq!(
        state.entities()[2],
        Entity::Lightbulb(Lightbulb { x: 1, y: 1, color: Color::Red, on: true })
    );
}

#[test]
fn lit_radio_switch_lets_through() {
    let mut room = walled_room(4, 3);
    room.illuminate(Color::Green, &vec![2 + 4]);
    let mut state = HeadlessScene::new(
        Player::new(1, 1),
        room,
        vec![Entity::LightRadio(LightRadio::new(2, 1, Color::Green))],
        Color::Green,
    );
    assert_eq!(state.navigate(Direction::East), event(Direction::West, HistoryEventType::Walk));
    assert_eq!(state.light_color(), Color::Green);
}

#[test]
fn toggle_switch_flips_its_channel() {
    let mut state = HeadlessScene::new(
        Player::new(1, 1),
        walled_room(5, 3),
        vec![
            Entity::LightToggle(LightToggle::new(2, 1, Color::Blue)),
            Entity::Lightbulb(Lightbulb::new(3, 1, Color::Blue)),
        ],
        Color::Red,
    );
    let evt = state.navigate(Direction::East);
    assert_eq!(evt, event(Direction::West, HistoryEventType::ColorToggle(Color::Blue)));
    assert_eq!(state.light_color(), Color::Magenta);
    assert_eq!(
        state.entities()[1],
        Entity::Lightbulb(Lightbulb { x: 3, y: 1, color: Color::Blue, on: true })
    );
    state.undo(evt.unwrap());
    assert_eq!(state.light_color(), Color::Red);
    assert_eq!(
        state.entities()[1],
        Entity::Lightbulb(Lightbulb { x: 3, y: 1, color: Color::Blue, on: false })
    );
}

#[test]
fn walking_player_only_turns() {
    let mut state = HeadlessScene::new(Player::new(1, 1), walled_room(5, 3), vec![], Color::Gray);
    assert_eq!(state.navigate(Direction::East), event(Direction::West, HistoryEventType::Walk));
    assert!(!state.player().can_walk());
    assert_eq!(state.navigate(Direction::West), None);
    assert_eq!((state.player().x, state.player().y), (2, 1));
    assert!(state.player().face_left);
    state.resolve();
    assert!(state.player().can_walk());
    assert_eq!(state.navigate(Direction::East), event(Direction::West, HistoryEventType::Walk));
    assert!(!state.player().face_left);
}

#[test]
fn walls_and_the_edge_of_the_grid_stop() {
    let room = Room { width: 2, height: 1, tiles: vec![Tile::Floor, Tile::Floor], sees_color: vec![Color::Gray; 2] };
    let mut state = HeadlessScene::new(Player::new(0, 0), room, vec![], Color::Gray);
    assert!(!state.tile_is_passable(-1, 0));
    assert!(!state.tile_is_passable(0, -1));
    assert!(!state.tile_is_passable(0, 1));
    assert!(state.tile_is_passable(1, 0));
    assert_eq!(state.navigate(Direction::West), None);
    assert_eq!(state.navigate(Direction::North), None);
    assert_eq!(state.navigate(Direction::South), None);
    assert_eq!(state.navigate(Direction::East), event(Direction::West, HistoryEventType::Walk));
}

#[test]
fn undo_of_a_push_returns_the_block() {
    let mut state = HeadlessScene::new(
        Player::new(1, 1),
        walled_room(6, 3),
        vec![Entity::Block(Block::new(2, 1, Color::Red))],
        Color::Gray,
    );
    let evt = state.navigate(Direction::East).unwrap();
    assert_eq!(state.entity_at(3, 1), Some(&Entity::Block(Block::new(3, 1, Color::Red))));
    state.undo(evt);
    assert_eq!((state.player().x, state.player().y), (1, 1));
    assert_eq!(state.entity_at(2, 1), Some(&Entity::Block(Block::new(2, 1, Color::Red))));
    assert_eq!(state.entity_at(3, 1), None);
}

#[test]
fn undo_of_a_sink_returns_block_and_water() {
    let mut state = HeadlessScene::new(
        Player::new(1, 1),
        walled_room(5, 3),
        vec![Entity::Block(Block::new(2, 1, Color::Yellow)), Entity::Water(Water::new(3, 1))],
        Color::Gray,
    );
    let before = entity_set(&state);
    let evt = state.navigate(Direction::East).unwrap();
    assert_eq!(state.entities().len(), 0);
    state.undo(evt);
    assert_eq!((state.player().x, state.player().y), (1, 1));
    assert_eq!(state.entity_at(2, 1), Some(&Entity::Block(Block::new(2, 1, Color::Yellow))));
    assert_eq!(state.entity_at(3, 1), Some(&Entity::Water(Water::new(3, 1))));
    assert_eq!(entity_set(&state), before);
}

#[test]
fn undo_with_an_empty_history_does_nothing() {
    let mut state = HeadlessScene::new(
        Player::new(1, 1),
        walled_room(5, 3),
        vec![Entity::Block(Block::new(2, 1, Color::Red))],
        Color::Gray,
    );
    state.undo(HistoryEvent { direction: Direction::West, event_type: HistoryEventType::Push });
    assert_eq!((state.player().x, state.player().y), (1, 1));
    assert_eq!(state.entity_at(2, 1), Some(&Entity::Block(Block::new(2, 1, Color::Red))));
    assert_eq!(state.undo_last(), None);
    assert_eq!((state.player().x, state.player().y), (1, 1));
}

#[test]
fn undo_takes_back_the_newest_record_only() {
    let mut state = HeadlessScene::new(Player::new(1, 1), walled_room(6, 4), vec![], Color::Gray);
    let first = state.navigate(Direction::East).unwrap();
    state.resolve();
    let second = state.navigate(Direction::South).unwrap();
    state.resolve();
    assert_eq!((state.player().x, state.player().y), (2, 2));
    // the older record is not the newest: nothing happens
    state.undo(first);
    assert_eq!((state.player().x, state.player().y), (2, 2));
    assert_eq!(state.last_event(), Some(second));
    state.undo(second);
    assert_eq!((state.player().x, state.player().y), (2, 1));
    // a record is taken back once
    state.undo(second);
    assert_eq!((state.player().x, state.player().y), (2, 1));
    state.undo(first);
    assert_eq!((state.player().x, state.player().y), (1, 1));
    assert_eq!(state.last_event(), None);
}

#[test]
fn undo_turns_the_player_the_way_it_walked() {
    let mut state = HeadlessScene::new(Player::new(2, 1), walled_room(5, 3), vec![], Color::Gray);
    let evt = state.navigate(Direction::West).unwrap();
    assert!(state.player().face_left);
    // the way back is east, and the player still looks west
    assert_eq!(evt.direction, Direction::East);
    state.undo(evt);
    assert!(state.player().face_left);
    state.resolve();
    let evt = state.navigate(Direction::East).unwrap();
    assert!(!state.player().face_left);
    state.undo(evt);
    assert!(!state.player().face_left);
}

#[test]
fn round_trip_restores_position_colour_and_entities() {
    let mut state = load(LEVEL_SECONDARY_OBSCURED);
    let start = (state.player().x, state.player().y);
    let colour = state.light_color();
    let entities = entity_set(&state);

    let moves = [
        Direction::South, // toggle blue
        Direction::South,
        Direction::West, // refused: wall
        Direction::South, // push black
        Direction::North,
        Direction::East,
        Direction::South, // walk through red
        Direction::North,
        Direction::North, // refused: wall
        Direction::East,
        Direction::South, // push green
    ];
    let mut committed = 0;
    for direction in moves {
        if state.navigate(direction).is_some() {
            committed += 1;
        }
        state.resolve();
    }
    assert_eq!(committed, 9);
    assert_ne!((state.player().x, state.player().y), start);
    assert_ne!(state.light_color(), colour);
    assert_ne!(entity_set(&state), entities);

    for _ in 0..committed {
        assert!(state.undo_last().is_some());
    }
    assert_eq!(state.undo_last(), None);
    assert_eq!((state.player().x, state.player().y), start);
    assert_eq!(state.light_color(), colour);
    assert_eq!(entity_set(&state), entities);
}

#[test]
fn equal_scenes_answer_equal_moves_alike() {
    let mut one = load(LEVEL_PRIMARY_PUSH);
    let mut two = load(LEVEL_PRIMARY_PUSH);
    let moves = [
        Direction::South,
        Direction::North,
        Direction::East,
        Direction::East,
        Direction::South,
        Direction::West,
        Direction::South,
        Direction::East,
        Direction::North,
    ];
    for direction in moves {
        assert_eq!(one.navigate(direction), two.navigate(direction));
        one.resolve();
        two.resolve();
        assert_eq!(one.player(), two.player());
        assert_eq!(one.entities(), two.entities());
        assert_eq!(one.light_color(), two.light_color());
    }
}

#[test]
fn lamps_of_the_starting_colour_are_on() {
    let state = load(LEVEL_SECONDARY_PUSH);
    let lamps: Vec<(Color, bool)> = state
        .entities()
        .iter()
        .filter_map(|e| if let Entity::Lightbulb(bulb) = e { Some((bulb.color, bulb.on)) } else { None })
        .collect();
    assert_eq!(lamps, vec![(Color::Red, true), (Color::Blue, false)]);
}

#[test]
fn lamp_sees_the_open_room_and_not_beyond_walls() {
    let state = load(LEVEL_SECONDARY_OBSCURED);
    let room = state.room();
    // the red lamp sees the corridor and the rows around the blocks
    for x in 1..10 {
        for y in 3..6 {
            assert_eq!(room.sees(x, y), Color::Red, "({x}, {y})");
        }
    }
    // the blue lamp sees its own cell only
    assert_eq!(room.sees(5, 1), Color::Blue);
    // walls are seen by nobody
    assert_eq!(room.sees(0, 0), Color::Gray);
    assert_eq!(room.sees(4, 1), Color::Gray);
}

#[test]
fn same_geometry_gives_the_same_cells() {
    let state = load(LEVEL_SECONDARY_PUSH);
    let first = line_of_sight(9, 4, state.room());
    let second = line_of_sight(9, 4, state.room());
    assert_eq!(first, second);
    assert!(first.contains(&(1 + 4 * 11)));
}

#[test]
fn lamps_are_listed_in_the_order_of_the_entities() {
    let state = HeadlessScene::new(
        Player::new(1, 1),
        walled_room(6, 4),
        vec![
            Entity::Lightbulb(Lightbulb::new(4, 1, Color::Blue)),
            Entity::Block(Block::new(2, 1, Color::Red)),
            Entity::Lightbulb(Lightbulb::new(3, 2, Color::Red)),
            Entity::Exit(Exit::new(4, 2)),
        ],
        Color::Red,
    );
    assert_eq!(
        state.lamps(),
        vec![
            Lightbulb { x: 4, y: 1, color: Color::Blue, on: false },
            Lightbulb { x: 3, y: 2, color: Color::Red, on: true },
        ]
    );
}

#[test]
fn light_up_gives_each_cell_the_colours_of_the_lamps_that_see_it() {
    let mut state = HeadlessScene::new(
        Player::new(1, 1),
        walled_room(4, 3),
        vec![
            Entity::Lightbulb(Lightbulb::new(1, 1, Color::Blue)),
            Entity::Lightbulb(Lightbulb::new(2, 1, Color::Red)),
        ],
        Color::Gray,
    );
    state.light_up(&vec![vec![5, 6], vec![6, 6, 0]]);
    let masks = &state.room().sees_color;
    assert_eq!(masks[5], Color::Blue);
    assert_eq!(masks[6], Color::Magenta);
    assert_eq!(masks[0], Color::Red);
    assert_eq!(masks.iter().filter(|m| **m == Color::Gray).count(), 9);
    // a cell seen again gains nothing
    state.illuminate(Color::Red, &vec![6]);
    assert_eq!(state.room().sees_color[6], Color::Magenta);
    state.illuminate(Color::Green, &vec![6]);
    assert_eq!(state.room().sees_color[6], Color::White);
}

#[test]
fn a_scene_needs_a_valid_room_and_cells_of_their_own() {
    let two_on_one_cell = vec![
        Entity::Block(Block::new(2, 1, Color::Red)),
        Entity::Exit(Exit::new(3, 1)),
        Entity::Water(Water::new(2, 1)),
    ];
    assert!(!lightgrid::entity::cells_are_distinct(&two_on_one_cell));
    assert!(HeadlessScene::try_new(Player::new(1, 1), walled_room(5, 3), two_on_one_cell, Color::Gray).is_none());

    let mut room = walled_room(5, 3);
    room.sees_color.pop();
    assert!(HeadlessScene::try_new(Player::new(1, 1), room, vec![], Color::Gray).is_none());

    let apart = vec![Entity::Block(Block::new(2, 1, Color::Red)), Entity::Water(Water::new(3, 1))];
    assert!(lightgrid::entity::cells_are_distinct(&apart));
    assert!(lightgrid::entity::cells_are_distinct(&vec![]));
    let state = HeadlessScene::try_new(Player::new(1, 1), walled_room(5, 3), apart, Color::Green).unwrap();
    assert_eq!(state.light_color(), Color::Green);
    assert_eq!(state.history(), &vec![]);
    assert_eq!(state.entities().len(), 2);
}

#[test]
fn history_holds_the_committed_moves_oldest_first() {
    let mut state = HeadlessScene::new(
        Player::new(1, 1),
        walled_room(6, 3),
        vec![Entity::Block(Block::new(3, 1, Color::Red))],
        Color::Gray,
    );
    state.navigate(Direction::East);
    state.resolve();
    state.navigate(Direction::North);
    state.resolve();
    state.navigate(Direction::East);
    state.resolve();
    assert_eq!(
        state.history(),
        &vec![
            HistoryEvent { direction: Direction::West, event_type: HistoryEventType::Walk },
            HistoryEvent { direction: Direction::West, event_type: HistoryEventType::Push },
        ]
    );
    assert_eq!(state.undo_last(), event(Direction::West, HistoryEventType::Push));
    assert_eq!(state.history().len(), 1);
}

#[test]
fn a_refused_move_still_turns_the_player() {
    let mut state = HeadlessScene::new(
        Player::new(1, 1),
        walled_room(5, 4),
        vec![Entity::Lightbulb(Lightbulb::new(1, 2, Color::Red))],
        Color::Gray,
    );
    assert_eq!(state.player().facing, Direction::West);
    // a wall
    assert_eq!(state.navigate(Direction::North), None);
    assert_eq!(state.player().facing, Direction::North);
    assert!(!state.player().face_left);
    // a lamp
    assert_eq!(state.navigate(Direction::South), None);
    assert_eq!(state.player().facing, Direction::South);
    // a wall to the west: the figure looks left as well
    assert_eq!(state.navigate(Direction::West), None);
    assert_eq!(state.player().facing, Direction::West);
    assert!(state.player().face_left);
    assert_eq!((state.player().x, state.player().y), (1, 1));
    assert_eq!(state.last_event(), None);
}

#[test]
fn a_walking_player_turns_and_stays() {
    let mut state = HeadlessScene::new(Player::new(1, 1), walled_room(6, 4), vec![], Color::Gray);
    assert_eq!(state.navigate(Direction::East), event(Direction::West, HistoryEventType::Walk));
    assert_eq!(state.player().facing, Direction::East);
    for direction in [Direction::South, Direction::West, Direction::North, Direction::East] {
        assert_eq!(state.navigate(direction), None);
        assert_eq!(state.player().facing, direction);
        assert_eq!((state.player().x, state.player().y), (2, 1));
        assert!(!state.player().can_walk());
    }
    assert_eq!(state.history().len(), 1);
}

#[test]
fn a_committed_move_faces_the_way_walked_and_undo_leaves_the_facing() {
    let mut state = HeadlessScene::new(Player::new(1, 1), walled_room(6, 4), vec![], Color::Gray);
    let evt = state.navigate(Direction::South).unwrap();
    assert_eq!(state.player().facing, Direction::South);
    state.undo(evt);
    assert_eq!((state.player().x, state.player().y), (1, 1));
    assert_eq!(state.player().facing, Direction::South);
}
