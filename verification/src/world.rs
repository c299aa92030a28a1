//! The tile grid: its tiles, its bounds and the size of a tile.

use vstd::prelude::*;
use crate::fixed::ONE;

verus! {

/// The largest tile size, in world units, of a well-formed world: 2^24.
/// Every whole number up to it is a single-precision number, so that a
/// level file holds the tile size as it is.
pub const MAX_TILE_SIZE: usize = 16777216;

/// The largest edge length, in world units, of a well-formed world: 2^31,
/// so that every point of the world lies in the range of coordinates.
pub const MAX_EXTENT: u64 = 0x8000_0000;

/// The kinds of tile. Only `STONE` stops a ray.
#[allow(non_camel_case_types)]
#[derive(Copy, Clone, Debug, PartialEq, Eq, Structural)]
pub enum Blocks {
    GRASS,
    STONE,
    PLAYER,
}

impl Blocks {
    /// The byte that stands for a tile kind in a level file.
    pub open spec fn code(self) -> u8 {
        match self {
            Blocks::GRASS => 0,
            Blocks::STONE => 1,
            Blocks::PLAYER => 2,
        }
    }

    /// The tile kind that a byte of a level file stands for, if any.
    pub open spec fn decode(value: u8) -> Option<Blocks> {
        if value == 0 {
            Some(Blocks::GRASS)
        } else if value == 1 {
            Some(Blocks::STONE)
        } else if value == 2 {
            Some(Blocks::PLAYER)
        } else {
            None
        }
    }

    /// The tile kind that `value` stands for, if it stands for one.
    pub fn from_u8(value: u8) -> (r: Option<Blocks>)
        ensures
            r == Blocks::decode(value),
    {
        match value {
            0 => Some(Blocks::GRASS),
            1 => Some(Blocks::STONE),
            2 => Some(Blocks::PLAYER),
            _ => None,
        }
    }

    /// The byte that stands for this tile kind.
    pub fn to_u8(self) -> (r: u8)
        ensures
            r == self.code(),
    {
        match self {
            Blocks::GRASS => 0,
            Blocks::STONE => 1,
            Blocks::PLAYER => 2,
        }
    }
}

/// Decoding the code of a tile kind gives the kind back.
pub proof fn lemma_code_decodes(block: Blocks)
    ensures
        Blocks::decode(block.code()) == Some(block),
{
}

/// A square grid of tiles. `data[col][row]` is the tile in column `col` and
/// row `row`; a tile is `tile_size` world units wide and high.
pub struct World {
    pub data: Vec<Vec<Blocks>>,
    pub tile_size: usize,
    pub size: usize,
}

impl World {
    /// The grid is a non-empty square of `size` columns of `size` tiles, the
    /// tile size is positive and at most [`MAX_TILE_SIZE`], and the edge of
    /// the grid is at most [`MAX_EXTENT`] world units long.
    pub open spec fn wf(&self) -> bool {
        &&& self.size >= 1
        &&& self.data@.len() == self.size
        &&& forall|i: int| 0 <= i < self.data@.len() ==> (#[trigger] self.data@[i])@.len() == self.size
        &&& 1 <= self.tile_size <= MAX_TILE_SIZE
        &&& self.size * self.tile_size <= MAX_EXTENT
    }

    /// The width of a tile in fixed point.
    pub open spec fn tile_span(&self) -> int {
        self.tile_size * ONE
    }

    /// The grid has a tile in column `col` and row `row`.
    pub open spec fn in_bounds(&self, col: int, row: int) -> bool {
        &&& 0 <= col < self.data@.len()
        &&& 0 <= row < self.data@[col]@.len()
    }

    /// The tile in column `col` and row `row`, where the grid has one.
    pub open spec fn tile(&self, col: int, row: int) -> Option<Blocks> {
        if self.in_bounds(col, row) {
            Some(self.data@[col]@[row])
        } else {
            None
        }
    }

    /// The grid has a tile in column `col` and row `row`, and it is stone.
    pub open spec fn solid(&self, col: int, row: int) -> bool {
        self.tile(col, row) == Some(Blocks::STONE)
    }

    /// The grid as a sequence of columns of tiles.
    pub open spec fn tiles(&self) -> Seq<Seq<Blocks>> {
        Seq::new(self.data@.len(), |i: int| self.data@[i]@)
    }

    /// An 8 by 8 world of grass, with tiles of 64 world units.
    pub fn new() -> (w: World)
        ensures
            w.wf(),
            w.size == 8,
            w.tile_size == 64,
            forall|col: int, row: int|
                0 <= col < 8 && 0 <= row < 8 ==> #[trigger] w.tile(col, row) == Some(Blocks::GRASS),
    {
        World { data: World::uniform(8, Blocks::GRASS), size: 8, tile_size: 64 }
    }

    /// A square of `size` columns of `size` tiles, all of one kind.
    pub fn uniform(size: usize, block: Blocks) -> (data: Vec<Vec<Blocks>>)
        ensures
            data@.len() == size,
            forall|i: int| 0 <= i < size ==> (#[trigger] data@[i])@.len() == size,
            forall|i: int, j: int| 0 <= i < size && 0 <= j < size ==> (#[trigger] data@[i]@[j]) == block,
    {
        let mut data: Vec<Vec<Blocks>> = Vec::new();
        let mut i: usize = 0;
        while i < size
            invariant
                i <= size,
                data@.len() == i,
                forall|a: int| 0 <= a < i ==> (#[trigger] data@[a])@.len() == size,
                forall|a: int, b: int| 0 <= a < i && 0 <= b < size ==> (#[trigger] data@[a]@[b]) == block,
            decreases size - i,
        {
            let mut column: Vec<Blocks> = Vec::new();
            let mut j: usize = 0;
            while j < size
                invariant
                    j <= size,
                    column@.len() == j,
                    forall|b: int| 0 <= b < j ==> (#[trigger] column@[b]) == block,
                decreases size - j,
            {
                column.push(block);
                j += 1;
            }
            data.push(column);
            i += 1;
        }
        data
    }

    /// Tells whether the world is well-formed.
    pub fn check(&self) -> (ok: bool)
        ensures
            ok == self.wf(),
    {
        if self.size < 1 || self.data.len() != self.size {
            return false;
        }
        if self.tile_size < 1 || self.tile_size > MAX_TILE_SIZE {
            return false;
        }
        if self.size as u64 > MAX_EXTENT {
            assert(self.size * self.tile_size > MAX_EXTENT) by (nonlinear_arith)
                requires
                    self.size > MAX_EXTENT,
                    self.tile_size >= 1,
            ;
            return false;
        }
        assert((self.size as u64) * (self.tile_size as u64) <= 0x8000_0000 * 0x100_0000) by (nonlinear_arith)
            requires
                self.size <= 0x8000_0000,
                self.tile_size <= 0x100_0000,
        ;
        if (self.size as u64) * (self.tile_size as u64) > MAX_EXTENT {
            return false;
        }
        let mut i: usize = 0;
        while i < self.data.len()
            invariant
                i <= self.data@.len(),
                forall|a: int| 0 <= a < i ==> (#[trigger] self.data@[a])@.len() == self.size,
            decreases self.data@.len() - i,
        {
            if self.data[i].len() != self.size {
                return false;
            }
            i = i + 1;
        }
        true
    }

    /// The tile in column `col` and row `row`, or `None` outside the grid.
    pub fn tile_at(&self, col: i64, row: i64) -> (r: Option<Blocks>)
        ensures
            r == self.tile(col as int, row as int),
    {
        if col < 0 || row < 0 {
            return None;
        }
        if col as u64 >= self.data.len() as u64 {
            return None;
        }
        let column = &self.data[col as usize];
        if row as u64 >= column.len() as u64 {
            return None;
        }
        Some(column[row as usize])
    }

    /// Tells whether a ray stops at the tile in column `col` and row `row`.
    /// Outside the grid nothing is solid.
    pub fn is_solid(&self, col: i64, row: i64) -> (r: bool)
        ensures
            r == self.solid(col as int, row as int),
    {
        match self.tile_at(col, row) {
            Some(Blocks::STONE) => true,
            _ => false,
        }
    }

    /// The width of a tile in fixed point.
    pub fn span(&self) -> (ts: i64)
        requires
            self.wf(),
        ensures
            ts == self.tile_span(),
            1 <= ts <= MAX_TILE_SIZE * ONE,
    {
        (self.tile_size as i64) * ONE
    }

    /// The width of a tile in world units.
    pub fn tile_size(&self) -> (r: usize)
        ensures
            r == self.tile_size,
    {
        self.tile_size
    }

    /// The numbers of columns and of rows.
    pub fn dimensions(&self) -> (r: (usize, usize))
        ensures
            r.0 == self.size,
            r.1 == self.size,
    {
        (self.size, self.size)
    }
}

} // verus!
