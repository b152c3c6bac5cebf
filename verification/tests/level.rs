use lightgrid::camera::{Camera, CameraMode};
use lightgrid::color::Color;
use lightgrid::direction::Direction;
use lightgrid::entity::{Block, Entity, Exit, LightRadio, LightToggle, Lightbulb, Water};
use lightgrid::player::Player;
use lightgrid::room::Tile;
use lightgrid::scene::SceneTag;
use lightgrid::scene_config::{LevelError, SceneConfig};

fn error_of(bytes: &[u8]) -> LevelError {
    match SceneConfig::from_file(bytes) {
        Ok(_) => panic!("the level was read"),
        Err(e) => e,
    }
}

#[test]
fn reads_header_grid_and_entities() {
    let level = "Bp+m\n\
#####\n\
#ar\u{33d}g\u{302}#\n\
#zb\u{30a}~#\n\
#RGB#\n\
#####\n";
    let config = SceneConfig::from_file(level.as_bytes()).unwrap();
    assert_eq!(config.tag, Some(SceneTag::TeachMove));
    assert_eq!(config.camera, Camera { x_mode: CameraMode::Player, y_mode: CameraMode::Centered });
    let state = config.state;
    assert_eq!(state.light_color(), Color::Blue);
    assert_eq!(
        *state.player(),
        Player { face_left: false, facing: Direction::West, x: 1, y: 1, walking: false }
    );
    assert_eq!(
        state.entities(),
        &vec![
            Entity::Block(Block::new(2, 1, Color::Red)),
            Entity::LightToggle(LightToggle::new(3, 1, Color::Green)),
            Entity::Exit(Exit::new(1, 2)),
            Entity::LightRadio(LightRadio::new(2, 2, Color::Blue)),
            Entity::Water(Water::new(3, 2)),
            Entity::Lightbulb(Lightbulb { x: 1, y: 3, color: Color::Red, on: false }),
            Entity::Lightbulb(Lightbulb { x: 2, y: 3, color: Color::Green, on: false }),
            Entity::Lightbulb(Lightbulb { x: 3, y: 3, color: Color::Blue, on: true }),
        ]
    );
    let room = state.room();
    assert_eq!(room.width, 5);
    assert_eq!(room.height, 5);
    assert_eq!(room.tiles.len(), 25);
    assert_eq!(room.tile_at(0, 0), Some(Tile::Wall));
    assert_eq!(room.tile_at(1, 1), Some(Tile::Floor));
    assert_eq!(room.tile_at(2, 1), Some(Tile::Floor));
    assert_eq!(room.tile_at(4, 3), Some(Tile::Wall));
    assert_eq!(room.tile_at(3, 3), Some(Tile::Floor));
    assert_eq!(room.sees_color, vec![Color::Gray; 25]);
    assert!(room.is_wf());
}

#[test]
fn every_colour_letter_is_read() {
    let level = "-pp\n\
#k\u{33d}r\u{33d}g\u{33d}b\u{33d}y\u{33d}c\u{33d}m\u{33d}w\u{33d}a\n";
    let state = SceneConfig::from_file(level.as_bytes()).unwrap().state;
    let colours: Vec<Color> = state
        .entities()
        .iter()
        .map(|e| match e {
            Entity::Block(block) => block.color,
            other => panic!("{other:?}"),
        })
        .collect();
    assert_eq!(
        colours,
        vec![
            Color::Gray,
            Color::Red,
            Color::Green,
            Color::Blue,
            Color::Yellow,
            Color::Cyan,
            Color::Magenta,
            Color::White
        ]
    );
    assert_eq!((state.player().x, state.player().y), (9, 0));
    assert_eq!(state.light_color(), Color::Gray);
}

#[test]
fn header_bytes() {
    let state = |header: &str| SceneConfig::from_file(format!("{header}#a#\n").as_bytes());
    assert_eq!(state("Rpp\n").unwrap().state.light_color(), Color::Red);
    assert_eq!(state("Gpp\n").unwrap().state.light_color(), Color::Green);
    assert_eq!(state("Bpp\n").unwrap().state.light_color(), Color::Blue);
    assert_eq!(state("xpp\n").unwrap().state.light_color(), Color::Gray);
    assert_eq!(state("x++\n").unwrap().camera, Camera { x_mode: CameraMode::Centered, y_mode: CameraMode::Centered });
    assert_eq!(state("xp+\n").unwrap().tag, None);
    assert_eq!(state("xp+u\n").unwrap().tag, Some(SceneTag::TeachUndo));
    // what follows the tag on the header line is not read
    assert_eq!(state("xp+m and more\n").unwrap().tag, Some(SceneTag::TeachMove));
}

#[test]
fn a_ragged_last_row_is_cut_off() {
    let level = "-pp\n###\n#a#\n##";
    let state = SceneConfig::from_file(level.as_bytes()).unwrap().state;
    assert_eq!(state.room().width, 3);
    assert_eq!(state.room().height, 2);
    assert_eq!(state.room().tiles.len(), 8);
}

#[test]
fn error_short_header() {
    assert_eq!(error_of(b""), LevelError::ShortHeader);
    assert_eq!(error_of(b"Rpp"), LevelError::ShortHeader);
}

#[test]
fn error_camera_mode() {
    assert_eq!(error_of(b"Rxp\n#a#\n"), LevelError::CameraMode(b'x'));
    assert_eq!(error_of(b"Rp-\n#a#\n"), LevelError::CameraMode(b'-'));
}

#[test]
fn error_tag() {
    assert_eq!(error_of(b"Rppx\n#a#\n"), LevelError::Tag(b'x'));
}

#[test]
fn error_no_grid() {
    assert_eq!(error_of(b"Rppm"), LevelError::NoGrid);
    assert_eq!(error_of(b"Rpp\n"), LevelError::NoGrid);
    assert_eq!(error_of(b"Rpp\n#a#"), LevelError::NoGrid);
}

#[test]
fn error_empty_row() {
    assert_eq!(error_of(b"Rpp\n\n#a#\n"), LevelError::EmptyRow);
}

#[test]
fn error_byte() {
    assert_eq!(error_of(b"Rpp\n#a?#\n"), LevelError::Byte(b'?'));
    assert_eq!(error_of(b"Rpp\n#a #\n"), LevelError::Byte(b' '));
    // a mark without its letter
    assert_eq!(error_of(b"Rpp\n#a\xcc\xbd#\n"), LevelError::Byte(0xcc));
}

#[test]
fn error_modifier() {
    assert_eq!(error_of(b"Rpp\n#ar.#\n"), LevelError::Modifier(b'.', b'#'));
    assert_eq!(error_of(b"Rpp\n#ar\xcc\x80#\n"), LevelError::Modifier(0xcc, 0x80));
}

#[test]
fn error_no_modifier() {
    assert_eq!(error_of(b"Rpp\n#a#\nr"), LevelError::NoModifier);
    assert_eq!(error_of(b"Rpp\n#a#\nr\xcc"), LevelError::NoModifier);
}

#[test]
fn error_two_starts() {
    assert_eq!(error_of(b"Rpp\n#a.a#\n"), LevelError::TwoStarts);
    // the first fault in reading order is the one reported
    assert_eq!(error_of(b"Rpp\n#a.a?\n"), LevelError::TwoStarts);
    assert_eq!(error_of(b"Rpp\n#a?a#\n"), LevelError::Byte(b'?'));
}

#[test]
fn error_no_start() {
    assert_eq!(error_of(b"Rpp\n###\n#.#\n###\n"), LevelError::NoStart);
}

#[test]
fn error_too_long() {
    // one byte more than a grid with i32 coordinates can have
    let bytes = vec![0u8; i32::MAX as usize + 1];
    assert_eq!(error_of(&bytes), LevelError::TooLong);
}
