//! Levels as bytes: the header line, the grid and the entities on it.
//!
//! A level starts with a header line: the colour that is broadcast at the
//! start (`R`, `G`, `B`; anything else is gray), the camera mode of each axis
//! (`p` follows the player, `+` centres the room), and a tag (`m`, `u`, or the
//! end of the line for none). The rows of the grid follow, one line each. `#`
//! is a wall and every other cell is floor; `.` is bare floor, `a` the
//! player's start, `z` the exit, `~` water, `R` `G` `B` a lamp. The letters
//! `k r g b y c m w` name a colour and are followed by the two bytes of a
//! combining mark that says what has that colour: a circumflex a toggle
//! switch, a ring a radio switch, an x above a block.

use vstd::prelude::*;
use crate::camera::{Camera, CameraMode};
use crate::color::Color;
use crate::entity::{distinct_cells, Block, Entity, Exit, LightRadio, LightToggle, Lightbulb, Water};
use crate::model::SceneView;
use crate::player::Player;
use crate::room::{Room, Tile};
use crate::scene::{HeadlessScene, SceneTag};

verus! {

/// Why a level cannot be read.
#[derive(Clone, Copy, Debug, PartialEq, Eq, Structural)]
pub enum LevelError {
    /// The level has more bytes than a grid with `i32` coordinates can have.
    TooLong,
    /// The level ends before the four bytes of its header.
    ShortHeader,
    /// The header names no camera mode with this byte.
    CameraMode(u8),
    /// The header names no tag with this byte.
    Tag(u8),
    /// The header line or the first row of the grid does not end.
    NoGrid,
    /// The first row of the grid is empty.
    EmptyRow,
    /// No cell is written with this byte.
    Byte(u8),
    /// A colour letter is followed by these two bytes, which are no mark.
    Modifier(u8, u8),
    /// A colour letter is followed by fewer than two bytes.
    NoModifier,
    /// The level has a second starting position.
    TwoStarts,
    /// The level has no starting position.
    NoStart,
}

/// A level that was read: the scene at its start, and how to show it.
pub struct SceneConfig {
    pub state: HeadlessScene,
    pub tag: Option<SceneTag>,
    pub camera: Camera,
}

/// What a colour letter with its mark stands for.
#[derive(Clone, Copy, Debug, PartialEq, Eq, Structural)]
pub enum Marked {
    Toggle,
    Radio,
    Block,
}

/// What the scan of the grid has found so far.
pub struct Scan {
    /// The column of the next cell.
    pub x: int,
    /// The row of the next cell.
    pub y: int,
    pub player: Option<Player>,
    pub entities: Seq<Entity>,
}

/// What is known of a level once its bytes are read.
pub struct Plan {
    pub starting_color: Color,
    pub camera: Camera,
    pub tag: Option<SceneTag>,
    pub width: nat,
    pub height: nat,
    pub tiles: Seq<Tile>,
    pub player: Player,
    pub entities: Seq<Entity>,
}

/// The colour that a header byte asks to be broadcast at the start.
pub open spec fn starting_color_of(byte: u8) -> Color {
    if byte == 'R' as u8 {
        Color::Red
    } else if byte == 'G' as u8 {
        Color::Green
    } else if byte == 'B' as u8 {
        Color::Blue
    } else {
        Color::Gray
    }
}

/// The camera mode that a header byte names.
pub open spec fn camera_mode_of(byte: u8) -> Result<CameraMode, LevelError> {
    if byte == 'p' as u8 {
        Ok(CameraMode::Player)
    } else if byte == '+' as u8 {
        Ok(CameraMode::Centered)
    } else {
        Err(LevelError::CameraMode(byte))
    }
}

/// The tag that a header byte names.
pub open spec fn tag_of(byte: u8) -> Result<Option<SceneTag>, LevelError> {
    if byte == 'm' as u8 {
        Ok(Some(SceneTag::TeachMove))
    } else if byte == 'u' as u8 {
        Ok(Some(SceneTag::TeachUndo))
    } else if byte == '\n' as u8 {
        Ok(None)
    } else {
        Err(LevelError::Tag(byte))
    }
}

/// The colour that a letter of the grid names.
pub open spec fn color_of_letter(byte: u8) -> Option<Color> {
    if byte == 'k' as u8 {
        Some(Color::Gray)
    } else if byte == 'r' as u8 {
        Some(Color::Red)
    } else if byte == 'g' as u8 {
        Some(Color::Green)
    } else if byte == 'b' as u8 {
        Some(Color::Blue)
    } else if byte == 'y' as u8 {
        Some(Color::Yellow)
    } else if byte == 'c' as u8 {
        Some(Color::Cyan)
    } else if byte == 'm' as u8 {
        Some(Color::Magenta)
    } else if byte == 'w' as u8 {
        Some(Color::White)
    } else {
        None
    }
}

/// The colour of the lamp that a letter of the grid names.
pub open spec fn lamp_of_letter(byte: u8) -> Option<Color> {
    if byte == 'R' as u8 {
        Some(Color::Red)
    } else if byte == 'G' as u8 {
        Some(Color::Green)
    } else if byte == 'B' as u8 {
        Some(Color::Blue)
    } else {
        None
    }
}

/// What the two bytes of a combining mark say of the letter before them.
pub open spec fn mark_of(first: u8, second: u8) -> Option<Marked> {
    if first == 0xcc && second == 0x82 {
        Some(Marked::Toggle)
    } else if first == 0xcc && second == 0x8a {
        Some(Marked::Radio)
    } else if first == 0xcc && second == 0xbd {
        Some(Marked::Block)
    } else {
        None
    }
}

/// The entity that a marked colour letter puts on `(x, y)`.
pub open spec fn marked_entity(x: i32, y: i32, color: Color, mark: Marked) -> Entity {
    match mark {
        Marked::Toggle => Entity::LightToggle(LightToggle { x, y, color }),
        Marked::Radio => Entity::LightRadio(LightRadio { x, y, color }),
        Marked::Block => Entity::Block(Block { x, y, color }),
    }
}

/// The place of the first line feed of `bytes` at or after `from`, or the
/// length of `bytes` where there is none.
pub open spec fn line_end(bytes: Seq<u8>, from: int) -> int
    decreases bytes.len() - from,
{
    if from >= bytes.len() {
        bytes.len() as int
    } else if bytes[from] == '\n' as u8 {
        from
    } else {
        line_end(bytes, from + 1)
    }
}

/// The tiles that the bytes of a grid stand for: a wall for each `#`, floor
/// for each other byte, and nothing for line feeds and for the bytes of
/// combining marks.
pub open spec fn tiles_of(body: Seq<u8>) -> Seq<Tile>
    decreases body.len(),
{
    if body.len() == 0 {
        Seq::empty()
    } else {
        let before = tiles_of(body.drop_last());
        let byte = body.last();
        if byte == '#' as u8 {
            before.push(Tile::Wall)
        } else if byte == '\n' as u8 || byte >= 0x80 {
            before
        } else {
            before.push(Tile::Floor)
        }
    }
}

impl Scan {
    /// The scan with `entity` found on the cell it has reached.
    pub open spec fn with_entity(self, entity: Entity) -> Scan {
        Scan { x: self.x + 1, entities: self.entities.push(entity), ..self }
    }
}

/// The scan of the grid `body` from the byte at `i` on, continuing `scan`.
/// The scan stops at the first byte that it cannot read, with the reason.
pub open spec fn scan_from(body: Seq<u8>, i: int, scan: Scan) -> Result<Scan, LevelError>
    decreases body.len() - i,
{
    if i < 0 || i >= body.len() {
        Ok(scan)
    } else {
        let byte = body[i];
        let x = scan.x as i32;
        let y = scan.y as i32;
        if byte == '\n' as u8 {
            scan_from(body, i + 1, Scan { x: 0, y: scan.y + 1, ..scan })
        } else if byte == 'a' as u8 {
            if scan.player is Some {
                Err(LevelError::TwoStarts)
            } else {
                scan_from(
                    body,
                    i + 1,
                    Scan {
                        x: scan.x + 1,
                        player: Some(
                            Player { face_left: false, facing: crate::direction::Direction::West, x, y, walking: false },
                        ),
                        ..scan
                    },
                )
            }
        } else if color_of_letter(byte) is Some {
            if i + 2 >= body.len() {
                Err(LevelError::NoModifier)
            } else {
                match mark_of(body[i + 1], body[i + 2]) {
                    Some(mark) => scan_from(
                        body,
                        i + 3,
                        scan.with_entity(marked_entity(x, y, color_of_letter(byte)->0, mark)),
                    ),
                    None => Err(LevelError::Modifier(body[i + 1], body[i + 2])),
                }
            }
        } else if lamp_of_letter(byte) is Some {
            scan_from(
                body,
                i + 1,
                scan.with_entity(Entity::Lightbulb(Lightbulb { x, y, color: lamp_of_letter(byte)->0, on: false })),
            )
        } else if byte == 'z' as u8 {
            scan_from(body, i + 1, scan.with_entity(Entity::Exit(Exit { x, y })))
        } else if byte == '~' as u8 {
            scan_from(body, i + 1, scan.with_entity(Entity::Water(Water { x, y })))
        } else if byte == '#' as u8 || byte == '.' as u8 {
            scan_from(body, i + 1, Scan { x: scan.x + 1, ..scan })
        } else {
            Err(LevelError::Byte(byte))
        }
    }
}

/// What the bytes of a level say, or why they cannot be read.
pub open spec fn parse(bytes: Seq<u8>) -> Result<Plan, LevelError> {
    if bytes.len() > i32::MAX {
        Err(LevelError::TooLong)
    } else if bytes.len() < 4 {
        Err(LevelError::ShortHeader)
    } else if camera_mode_of(bytes[1]) is Err {
        Err(camera_mode_of(bytes[1])->Err_0)
    } else if camera_mode_of(bytes[2]) is Err {
        Err(camera_mode_of(bytes[2])->Err_0)
    } else if tag_of(bytes[3]) is Err {
        Err(tag_of(bytes[3])->Err_0)
    } else if line_end(bytes, 0) >= bytes.len() {
        Err(LevelError::NoGrid)
    } else {
        let body = bytes.subrange(line_end(bytes, 0) + 1, bytes.len() as int);
        let width = line_end(body, 0);
        if width >= body.len() {
            Err(LevelError::NoGrid)
        } else if width == 0 {
            Err(LevelError::EmptyRow)
        } else {
            match scan_from(body, 0, Scan { x: 0, y: 0, player: None, entities: Seq::empty() }) {
                Err(e) => Err(e),
                Ok(scan) => match scan.player {
                    None => Err(LevelError::NoStart),
                    Some(player) => Ok(
                        Plan {
                            starting_color: starting_color_of(bytes[0]),
                            camera: Camera {
                                x_mode: camera_mode_of(bytes[1])->Ok_0,
                                y_mode: camera_mode_of(bytes[2])->Ok_0,
                            },
                            tag: tag_of(bytes[3])->Ok_0,
                            width: width as nat,
                            height: (tiles_of(body).len() / width as nat) as nat,
                            tiles: tiles_of(body),
                            player,
                            entities: scan.entities,
                        },
                    ),
                },
            }
        }
    }
}

impl Plan {
    /// The scene that the level starts with: a room on which no lamp shines
    /// yet, the entities of the grid, and the starting colour just broadcast.
    pub open spec fn starts(self, scene: SceneView) -> bool {
        &&& scene.room.width == self.width
        &&& scene.room.height == self.height
        &&& scene.room.tiles@ == self.tiles
        &&& scene.room.sees_color@ == Seq::new(self.tiles.len(), |i: int| Color::Gray)
        &&& scene == (SceneView {
            room: scene.room,
            player: self.player,
            entities: self.entities,
            light_color: Color::Gray,
            history: Seq::empty(),
        }).with_radio(self.starting_color)
    }
}

/// Every entity of `entities` stands on a cell that a scan in reading
/// order has passed when it reaches `(x, y)`.
pub open spec fn all_before(entities: Seq<Entity>, x: int, y: int) -> bool {
    forall|k: int|
        0 <= k < entities.len() ==> {
            let e = #[trigger] entities[k];
            e.spec_y() < y || (e.spec_y() == y && e.spec_x() < x)
        }
}

fn starting_color(byte: u8) -> (color: Color)
    ensures
        color == starting_color_of(byte),
{
    if byte == 'R' as u8 {
        Color::Red
    } else if byte == 'G' as u8 {
        Color::Green
    } else if byte == 'B' as u8 {
        Color::Blue
    } else {
        Color::Gray
    }
}

fn camera_mode(byte: u8) -> (mode: Result<CameraMode, LevelError>)
    ensures
        mode == camera_mode_of(byte),
{
    if byte == 'p' as u8 {
        Ok(CameraMode::Player)
    } else if byte == '+' as u8 {
        Ok(CameraMode::Centered)
    } else {
        Err(LevelError::CameraMode(byte))
    }
}

fn tag(byte: u8) -> (tag: Result<Option<SceneTag>, LevelError>)
    ensures
        tag == tag_of(byte),
{
    if byte == 'm' as u8 {
        Ok(Some(SceneTag::TeachMove))
    } else if byte == 'u' as u8 {
        Ok(Some(SceneTag::TeachUndo))
    } else if byte == '\n' as u8 {
        Ok(None)
    } else {
        Err(LevelError::Tag(byte))
    }
}

fn letter_color(byte: u8) -> (color: Option<Color>)
    ensures
        color == color_of_letter(byte),
{
    if byte == 'k' as u8 {
        Some(Color::Gray)
    } else if byte == 'r' as u8 {
        Some(Color::Red)
    } else if byte == 'g' as u8 {
        Some(Color::Green)
    } else if byte == 'b' as u8 {
        Some(Color::Blue)
    } else if byte == 'y' as u8 {
        Some(Color::Yellow)
    } else if byte == 'c' as u8 {
        Some(Color::Cyan)
    } else if byte == 'm' as u8 {
        Some(Color::Magenta)
    } else if byte == 'w' as u8 {
        Some(Color::White)
    } else {
        None
    }
}

fn lamp_color(byte: u8) -> (color: Option<Color>)
    ensures
        color == lamp_of_letter(byte),
{
    if byte == 'R' as u8 {
        Some(Color::Red)
    } else if byte == 'G' as u8 {
        Some(Color::Green)
    } else if byte == 'B' as u8 {
        Some(Color::Blue)
    } else {
        None
    }
}

/// The place of the first line feed of `bytes` at or after `from`, counted
/// from `start`, where the grid begins.
fn find_line_end(bytes: &[u8], start: usize, from: usize) -> (end: usize)
    requires
        start <= from <= bytes@.len(),
    ensures
        from <= end <= bytes@.len(),
        end - start == line_end(bytes@.subrange(start as int, bytes@.len() as int), from - start),
    decreases bytes@.len() - from,
{
    let ghost body = bytes@.subrange(start as int, bytes@.len() as int);
    if from >= bytes.len() {
        from
    } else if bytes[from] == '\n' as u8 {
        assert(body[from - start] == bytes@[from as int]);
        from
    } else {
        assert(body[from - start] == bytes@[from as int]);
        find_line_end(bytes, start, from + 1)
    }
}

/// The tiles of the grid that starts at `start`.
fn read_tiles(bytes: &[u8], start: usize) -> (tiles: Vec<Tile>)
    requires
        start <= bytes@.len(),
    ensures
        tiles@ == tiles_of(bytes@.subrange(start as int, bytes@.len() as int)),
        tiles@.len() <= bytes@.len() - start,
{
    let ghost body = bytes@.subrange(start as int, bytes@.len() as int);
    let mut tiles: Vec<Tile> = Vec::new();
    let mut i: usize = start;
    while i < bytes.len()
        invariant
            start <= i <= bytes@.len(),
            body == bytes@.subrange(start as int, bytes@.len() as int),
            tiles@ == tiles_of(body.subrange(0, i - start)),
            tiles@.len() <= i - start,
        decreases bytes@.len() - i,
    {
        let byte = bytes[i];
        proof {
            let next = body.subrange(0, i - start + 1);
            assert(next.drop_last() =~= body.subrange(0, i - start));
            assert(next.last() == byte);
        }
        if byte == '#' as u8 {
            tiles.push(Tile::Wall);
        } else if byte == '\n' as u8 || byte >= 0x80 {
        } else {
            tiles.push(Tile::Floor);
        }
        i = i + 1;
    }
    proof {
        assert(body.subrange(0, i - start) =~= body);
    }
    tiles
}

/// A mask for each of `count` tiles, with no lamp seen yet.
fn dark_masks(count: usize) -> (masks: Vec<Color>)
    ensures
        masks@ == Seq::new(count as nat, |i: int| Color::Gray),
{
    let mut masks: Vec<Color> = Vec::new();
    let mut i: usize = 0;
    while i < count
        invariant
            0 <= i <= count,
            masks@.len() == i,
            forall|k: int| 0 <= k < i ==> masks@[k] == Color::Gray,
        decreases count - i,
    {
        masks.push(Color::Gray);
        i = i + 1;
    }
    assert(masks@ =~= Seq::new(count as nat, |i: int| Color::Gray));
    masks
}

impl SceneConfig {
    /// Reads a level. The room of the scene is dark: which tiles each lamp
    /// sees is for [`HeadlessScene::illuminate`] to say.
    pub fn from_file(bytes: &[u8]) -> (result: Result<SceneConfig, LevelError>)
        ensures
            match result {
                Ok(config) => {
                    &&& parse(bytes@) is Ok
                    &&& parse(bytes@)->Ok_0.starts(config.state@)
                    &&& config.tag == parse(bytes@)->Ok_0.tag
                    &&& config.camera == parse(bytes@)->Ok_0.camera
                    &&& config.state.wf()
                },
                Err(e) => parse(bytes@) == Err::<Plan, LevelError>(e),
            },
    {
        let len = bytes.len();
        if len > 0x7fff_ffff {
            return Err(LevelError::TooLong);
        }
        if len < 4 {
            return Err(LevelError::ShortHeader);
        }
        let starting_color = starting_color(bytes[0]);
        let x_mode = match camera_mode(bytes[1]) {
            Ok(mode) => mode,
            Err(e) => {
                return Err(e);
            },
        };
        let y_mode = match camera_mode(bytes[2]) {
            Ok(mode) => mode,
            Err(e) => {
                return Err(e);
            },
        };
        let camera = Camera { x_mode, y_mode };
        let tag = match tag(bytes[3]) {
            Ok(tag) => tag,
            Err(e) => {
                return Err(e);
            },
        };
        assert(bytes@.subrange(0, len as int) =~= bytes@);
        let header_end = find_line_end(bytes, 0, 0);
        if header_end >= len {
            return Err(LevelError::NoGrid);
        }
        let start = header_end + 1;
        let ghost body = bytes@.subrange(start as int, len as int);
        let row_end = find_line_end(bytes, start, start);
        if row_end >= len {
            return Err(LevelError::NoGrid);
        }
        let width = row_end - start;
        if width == 0 {
            return Err(LevelError::EmptyRow);
        }
        let tiles = read_tiles(bytes, start);
        let height = tiles.len() / width;
        let sees_color = dark_masks(tiles.len());
        let (player, entities) = match Self::read_entities(bytes, start) {
            Ok(found) => found,
            Err(e) => {
                return Err(e);
            },
        };
        let player = match player {
            Some(player) => player,
            None => {
                return Err(LevelError::NoStart);
            },
        };
        proof {
            assert(width * height <= tiles@.len()) by (nonlinear_arith)
                requires
                    width > 0,
                    height == tiles@.len() / width as nat,
            ;
            assert(height <= tiles@.len()) by (nonlinear_arith)
                requires
                    width > 0,
                    height == tiles@.len() / width as nat,
            ;
        }
        let room = Room { width, height, tiles, sees_color };
        let state = HeadlessScene::new(player, room, entities, starting_color);
        Ok(SceneConfig { state, tag, camera })
    }

    /// The entity that a colour letter and the two bytes after it put on
    /// `(x, y)`; `modifier` is `None` where fewer than two bytes follow.
    fn parse_entity_type(x: i32, y: i32, color: Color, modifier: Option<(u8, u8)>) -> (entity: Result<
        Entity,
        LevelError,
    >)
        ensures
            entity == (match modifier {
                None => Err(LevelError::NoModifier),
                Some((first, second)) => match mark_of(first, second) {
                    Some(mark) => Ok(marked_entity(x, y, color, mark)),
                    None => Err(LevelError::Modifier(first, second)),
                },
            }),
    {
        match modifier {
            None => Err(LevelError::NoModifier),
            Some((first, second)) => {
                if first == 0xcc && second == 0x82 {
                    Ok(Entity::LightToggle(LightToggle::new(x, y, color)))
                } else if first == 0xcc && second == 0x8a {
                    Ok(Entity::LightRadio(LightRadio::new(x, y, color)))
                } else if first == 0xcc && second == 0xbd {
                    Ok(Entity::Block(Block::new(x, y, color)))
                } else {
                    Err(LevelError::Modifier(first, second))
                }
            },
        }
    }

    /// Scans the grid that starts at `start` for the player and the
    /// entities.
    fn read_entities(bytes: &[u8], start: usize) -> (found: Result<(Option<Player>, Vec<Entity>), LevelError>)
        requires
            start <= bytes@.len() <= i32::MAX,
        ensures
            ({
                let body = bytes@.subrange(start as int, bytes@.len() as int);
                let all = scan_from(body, 0, Scan { x: 0, y: 0, player: None, entities: Seq::empty() });
                match found {
                    Ok((player, entities)) => {
                        &&& all is Ok
                        &&& all->Ok_0.player == player
                        &&& all->Ok_0.entities == entities@
                        &&& distinct_cells(entities@)
                    },
                    Err(e) => all == Err::<Scan, LevelError>(e),
                }
            }),
    {
        let ghost body = bytes@.subrange(start as int, bytes@.len() as int);
        let ghost all = scan_from(body, 0, Scan { x: 0, y: 0, player: None, entities: Seq::empty() });
        let len = bytes.len();
        let mut x: i32 = 0;
        let mut y: i32 = 0;
        let mut player: Option<Player> = None;
        let mut entities: Vec<Entity> = Vec::new();
        let mut i: usize = start;
        while i < len
            invariant
                start <= i <= len,
                len == bytes@.len(),
                len <= i32::MAX,
                body == bytes@.subrange(start as int, bytes@.len() as int),
                0 <= x <= i - start,
                0 <= y <= i - start,
                all == scan_from(body, 0, Scan { x: 0, y: 0, player: None, entities: Seq::empty() }),
                all == scan_from(body, i - start, Scan { x: x as int, y: y as int, player, entities: entities@ }),
                all_before(entities@, x as int, y as int),
                distinct_cells(entities@),
            decreases len - i,
        {
            let byte = bytes[i];
            let ghost at = i - start;
            let ghost now = Scan { x: x as int, y: y as int, player, entities: entities@ };
            assert(body[at] == byte);
            if byte == '\n' as u8 {
                x = 0;
                y = y + 1;
                i = i + 1;
                continue ;
            }
            let found = if byte == 'a' as u8 {
                if player.is_some() {
                    return Err(LevelError::TwoStarts);
                }
                player = Some(Player::new(x, y));
                i = i + 1;
                None
            } else if let Some(color) = letter_color(byte) {
                let modifier = if len - i > 2 {
                    assert(body[at + 1] == bytes@[i + 1] && body[at + 2] == bytes@[i + 2]);
                    Some((bytes[i + 1], bytes[i + 2]))
                } else {
                    None
                };
                match Self::parse_entity_type(x, y, color, modifier) {
                    Ok(entity) => {
                        i = i + 3;
                        Some(entity)
                    },
                    Err(e) => {
                        return Err(e);
                    },
                }
            } else if let Some(color) = lamp_color(byte) {
                i = i + 1;
                Some(Entity::Lightbulb(Lightbulb::new(x, y, color)))
            } else if byte == 'z' as u8 {
                i = i + 1;
                Some(Entity::Exit(Exit::new(x, y)))
            } else if byte == '~' as u8 {
                i = i + 1;
                Some(Entity::Water(Water::new(x, y)))
            } else if byte == '#' as u8 || byte == '.' as u8 {
                i = i + 1;
                None
            } else {
                return Err(LevelError::Byte(byte));
            };
            match found {
                Some(entity) => {
                    proof {
                        let before = entities@;
                        let after = before.push(entity);
                        assert(entity.at(x as int, y as int));
                        assert forall|p: int, q: int| 0 <= p < q < after.len() implies !(#[trigger] after[p]).at(
                            (#[trigger] after[q]).spec_x() as int,
                            after[q].spec_y() as int,
                        ) by {
                            if q < before.len() {
                                assert(!before[p].at(before[q].spec_x() as int, before[q].spec_y() as int));
                            }
                        }
                    }
                    entities.push(entity);
                },
                None => {},
            }
            x = x + 1;
        }
        Ok((player, entities))
    }
}

} // verus!
