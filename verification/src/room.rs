//! The tile grid and its static light mask.

use vstd::prelude::*;
use crate::color::Color;
use crate::entity::Lightbulb;

verus! {

/// One cell of the grid. Walls block both movement and light.
#[derive(Clone, Copy, Debug, PartialEq, Eq, Structural, Hash)]
pub enum Tile {
    Floor,
    Wall,
}

impl Tile {
    pub open spec fn spec_is_passable(&self) -> bool {
        *self == Tile::Floor
    }

    #[verifier::when_used_as_spec(spec_is_passable)]
    pub fn is_passable(&self) -> (b: bool)
        ensures
            b == (*self == Tile::Floor),
    {
        match self {
            Tile::Wall => false,
            Tile::Floor => true,
        }
    }

    pub open spec fn spec_is_transparent(&self) -> bool {
        self.spec_is_passable()
    }

    #[verifier::when_used_as_spec(spec_is_transparent)]
    pub fn is_transparent(&self) -> (b: bool)
        ensures
            b == (*self == Tile::Floor),
    {
        self.is_passable()
    }
}

/// Whether an object of colour `object` is lit on a tile whose mask is
/// `mask` while `active` is broadcast.
///
/// White objects are always lit. Any other object is lit when it shares a
/// channel with the active colour and a lamp of such a shared channel sees
/// the tile.
pub open spec fn lit(mask: Color, object: Color, active: Color) -> bool {
    object == Color::White || {
        let shared = object.intersection(active);
        !shared.is_empty() && !mask.intersection(shared).is_empty()
    }
}

/// A rectangular grid of tiles in row-major order, with one light mask per
/// tile: the channels of the lamps that see the whole tile.
#[derive(Debug)]
pub struct Room {
    pub width: usize,
    pub height: usize,
    pub tiles: Vec<Tile>,
    pub sees_color: Vec<Color>,
}

impl Room {
    /// The room has one mask per tile, holds its `width * height` grid, and
    /// every one of its cells has `i32` coordinates with room to spare for a
    /// step in any direction. Only a room without tiles may have no width.
    pub open spec fn wf(&self) -> bool {
        &&& self.tiles@.len() <= i32::MAX
        &&& self.sees_color@.len() == self.tiles@.len()
        &&& self.width <= i32::MAX
        &&& self.height <= i32::MAX
        &&& self.width * self.height <= self.tiles@.len()
        &&& self.width > 0 || self.tiles@.len() == 0
    }

    /// In a valid room the coordinates of a cell of the grid stay below
    /// `i32::MAX`, so each of its four neighbours has `i32` coordinates.
    pub proof fn lemma_cells_in_range(&self, x: int, y: int)
        requires
            self.wf(),
            self.spec_tile_at(x, y) is Some,
        ensures
            0 <= x < i32::MAX,
            0 <= y < i32::MAX,
    {
        let w = self.width as int;
        assert(w >= 1);
        assert(w * y >= y) by (nonlinear_arith)
            requires
                w >= 1,
                y >= 0,
        ;
    }

    /// The place of cell `(x, y)` in the row-major arrays.
    pub open spec fn cell_index(&self, x: int, y: int) -> int {
        self.width * y + x
    }

    /// The tile at `(x, y)`, or `None` off the grid.
    pub open spec fn spec_tile_at(&self, x: int, y: int) -> Option<Tile> {
        if x < 0 || y < 0 {
            None
        } else if self.cell_index(x, y) < self.tiles@.len() {
            Some(self.tiles@[self.cell_index(x, y)])
        } else {
            None
        }
    }

    /// Whether `(x, y)` is a floor tile of the grid.
    pub open spec fn passable(&self, x: int, y: int) -> bool {
        self.spec_tile_at(x, y) == Some(Tile::Floor)
    }

    /// The light mask of `(x, y)`; `Gray` off the grid.
    pub open spec fn mask_at(&self, x: int, y: int) -> Color {
        if x < 0 || y < 0 {
            Color::Gray
        } else if self.cell_index(x, y) < self.sees_color@.len() {
            self.sees_color@[self.cell_index(x, y)]
        } else {
            Color::Gray
        }
    }

    /// Whether an object of colour `object` at `(x, y)` is lit while `active`
    /// is broadcast.
    pub open spec fn spec_tile_in_light(&self, x: int, y: int, object: Color, active: Color) -> bool {
        lit(self.mask_at(x, y), object, active)
    }

    /// Checks the room's invariant.
    pub fn is_wf(&self) -> (b: bool)
        ensures
            b == self.wf(),
    {
        if self.tiles.len() > 0x7fff_ffff || self.sees_color.len() != self.tiles.len()
            || self.width > 0x7fff_ffff || self.height > 0x7fff_ffff {
            return false;
        }
        if self.width == 0 && self.tiles.len() != 0 {
            return false;
        }
        match self.width.checked_mul(self.height) {
            Some(cells) => cells <= self.tiles.len(),
            None => false,
        }
    }

    /// The array index of `(x, y)` where it fits in `usize`.
    fn index_of(&self, x: i32, y: i32) -> (idx: Option<usize>)
        requires
            x >= 0,
            y >= 0,
        ensures
            match idx {
                Some(i) => i == self.cell_index(x as int, y as int),
                None => self.cell_index(x as int, y as int) > usize::MAX,
            },
    {
        match self.width.checked_mul(y as usize) {
            Some(row) => row.checked_add(x as usize),
            None => {
                assert(self.width * y + x >= self.width * y);
                None
            },
        }
    }

    pub fn tile_at(&self, x: i32, y: i32) -> (tile: Option<Tile>)
        ensures
            tile == self.spec_tile_at(x as int, y as int),
    {
        if x < 0 || y < 0 {
            return None;
        }
        let len = self.tiles.len();
        match self.index_of(x, y) {
            Some(idx) => {
                if idx < len {
                    Some(self.tiles[idx])
                } else {
                    None
                }
            },
            None => None,
        }
    }

    /// The light mask of a cell.
    pub fn sees(&self, x: i32, y: i32) -> (mask: Color)
        ensures
            mask == self.mask_at(x as int, y as int),
    {
        if x < 0 || y < 0 {
            return Color::Gray;
        }
        let len = self.sees_color.len();
        match self.index_of(x, y) {
            Some(idx) => {
                if idx < len {
                    self.sees_color[idx]
                } else {
                    Color::Gray
                }
            },
            None => Color::Gray,
        }
    }

    /// The part of `light_color` that reaches the tile at `(x, y)`.
    pub fn tile_light(&self, x: i32, y: i32, light_color: Color) -> (light: Color)
        requires
            x >= 0,
            y >= 0,
        ensures
            light == self.mask_at(x as int, y as int).intersection(light_color),
    {
        self.sees(x, y).intersection(light_color)
    }

    pub fn tile_in_light(&self, x: i32, y: i32, tile_color: Color, light_color: Color) -> (b: bool)
        ensures
            b == self.spec_tile_in_light(x as int, y as int, tile_color, light_color),
    {
        if tile_color == Color::White {
            return true;
        }
        let shared = tile_color.intersection(light_color);
        !shared.is_empty() && !self.sees(x, y).intersection(shared).is_empty()
    }

    pub fn pixel_width(&self) -> (w: i64)
        requires
            self.width <= i32::MAX,
        ensures
            w == self.width * 16,
    {
        self.width as i64 * 16
    }

    pub fn pixel_height(&self) -> (h: i64)
        requires
            self.height <= i32::MAX,
        ensures
            h == self.height * 16,
    {
        self.height as i64 * 16
    }

    /// Records that a lamp of colour `color` sees every cell listed in
    /// `cells`: the colour is added to the mask of each of them, and no other
    /// mask changes.
    pub fn illuminate(&mut self, color: Color, cells: &Vec<usize>)
        requires
            forall|k: int| 0 <= k < cells@.len() ==> cells@[k] < old(self).sees_color@.len(),
        ensures
            final(self).width == old(self).width,
            final(self).height == old(self).height,
            final(self).tiles == old(self).tiles,
            final(self).sees_color@.len() == old(self).sees_color@.len(),
            forall|i: int|
                0 <= i < old(self).sees_color@.len() ==> #[trigger] final(self).sees_color@[i] == (
                if listed(cells@, cells@.len() as int, i) {
                    old(self).sees_color@[i].union(color)
                } else {
                    old(self).sees_color@[i]
                }),
    {
        let mut k: usize = 0;
        while k < cells.len()
            invariant
                0 <= k <= cells@.len(),
                self.width == old(self).width,
                self.height == old(self).height,
                self.tiles == old(self).tiles,
                self.sees_color@.len() == old(self).sees_color@.len(),
                forall|j: int| 0 <= j < cells@.len() ==> cells@[j] < self.sees_color@.len(),
                forall|i: int|
                    0 <= i < old(self).sees_color@.len() ==> #[trigger] self.sees_color@[i] == (
                    if listed(cells@, k as int, i) {
                        old(self).sees_color@[i].union(color)
                    } else {
                        old(self).sees_color@[i]
                    }),
            decreases cells@.len() - k,
        {
            let idx = cells[k];
            let merged = self.sees_color[idx].union(color);
            self.sees_color.set(idx, merged);
            proof {
                lemma_union_idempotent(old(self).sees_color@[idx as int], color);
                assert forall|i: int| 0 <= i < old(self).sees_color@.len() implies #[trigger] self.sees_color@[i]
                    == (if listed(cells@, k as int + 1, i) {
                    old(self).sees_color@[i].union(color)
                } else {
                    old(self).sees_color@[i]
                }) by {
                    if i == idx as int {
                        assert(cells@[k as int] as int == i);
                    } else if listed(cells@, k as int + 1, i) {
                        let j = choose|j: int| 0 <= j < k as int + 1 && cells@[j] as int == i;
                        assert(j < k);
                    }
                }
            }
            k = k + 1;
        }
    }
}

/// The mask of the cell with index `cell` once the first `n` of `lamps`
/// shine: the mask it had, with the colour of each lamp that lists the cell
/// among those it sees. `sight` holds the list of each lamp.
pub open spec fn mask_under(mask: Color, cell: int, lamps: Seq<Lightbulb>, sight: Seq<Vec<usize>>, n: int) -> Color
    decreases n,
{
    if n <= 0 {
        mask
    } else {
        let before = mask_under(mask, cell, lamps, sight, n - 1);
        if listed(sight[n - 1]@, sight[n - 1]@.len() as int, cell) {
            before.union(lamps[n - 1].color)
        } else {
            before
        }
    }
}

/// Whether `i` is one of the first `n` entries of `cells`.
pub open spec fn listed(cells: Seq<usize>, n: int, i: int) -> bool {
    exists|k: int| 0 <= k < n && k < cells.len() && cells[k] as int == i
}

/// Adding a colour to a mask a second time changes nothing.
pub proof fn lemma_union_idempotent(mask: Color, color: Color)
    ensures
        mask.union(color).union(color) == mask.union(color),
{
    Color::lemma_ops_stay_low(mask, color);
    Color::lemma_ops_stay_low(mask.union(color), color);
    let m = mask.bits();
    let c = color.bits();
    assert((m | c) | c == m | c) by (bit_vector);
    Color::lemma_bits_injective(mask.union(color).union(color), mask.union(color));
}

/// A white object is lit on every tile, whatever colour is broadcast.
pub proof fn law_white_is_lit(mask: Color, active: Color)
    ensures
        lit(mask, Color::White, active),
{
}

/// A gray object is lit on no tile, whatever colour is broadcast.
pub proof fn law_gray_is_dark(mask: Color, active: Color)
    ensures
        !lit(mask, Color::Gray, active),
{
    Color::lemma_ops_stay_low(Color::Gray, active);
    let a = active.bits();
    assert(0u8 & a == 0) by (bit_vector);
}

/// The light test gives the same answer when the object's colour and the
/// broadcast colour change places.
///
/// White is lit by fiat, so the two must agree on being white, or else the
/// tile's mask must share a channel with the one that is not white.
pub proof fn law_lit_symmetric(mask: Color, object: Color, active: Color)
    requires
        object == Color::White && active != Color::White ==> mask.intersects(active),
        active == Color::White && object != Color::White ==> mask.intersects(object),
    ensures
        lit(mask, object, active) == lit(mask, active, object),
{
    Color::lemma_commutative(object, active);
    if object == Color::White && active != Color::White {
        lemma_white_shares_all(mask, active);
    }
    if active == Color::White && object != Color::White {
        lemma_white_shares_all(mask, object);
    }
}

/// What an object shares with white is the object's own colour, so under a
/// white partner a tile that sees one of the object's channels lights it.
proof fn lemma_white_shares_all(mask: Color, c: Color)
    requires
        mask.intersects(c),
    ensures
        c.intersection(Color::White) == c,
        !c.is_empty(),
        !mask.intersection(c).is_empty(),
{
    Color::lemma_ops_stay_low(c, Color::White);
    Color::lemma_ops_stay_low(mask, c);
    let b = c.bits();
    let m = mask.bits();
    assert(b & 7 == b) by (bit_vector)
        requires
            b < 8,
    ;
    assert(m & b != 0 ==> b != 0) by (bit_vector);
    Color::lemma_bits_injective(c.intersection(Color::White), c);
}

} // verus!
