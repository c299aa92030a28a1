//! The level file: the edge length of the grid as four bytes, least
//! significant first, the tile size as a single-precision number in four
//! bytes, and one byte for each tile, column after column.

use vstd::prelude::*;
use vstd::arithmetic::div_mod::{lemma_div_pos_is_pos, lemma_fundamental_div_mod, lemma_fundamental_div_mod_converse};
use crate::binary32::{bits_of_tile_size, read_tile_size, tile_size_of_bits, write_tile_size};
use crate::binary32::lemma_tile_size_bits_round_trip;
use crate::world::{lemma_code_decodes, Blocks, World, MAX_EXTENT, MAX_TILE_SIZE};

verus! {

/// The length of the header of a level file.
pub const HEADER_LEN: usize = 8;

/// Why the contents of a level file were refused.
#[derive(Clone, Copy, Debug, PartialEq, Eq, Structural)]
pub enum LoadError {
    /// The file ends before its header does.
    Truncated,
    /// The number of tile bytes is not the square of the edge length.
    SizeMismatch,
    /// The edge length is zero.
    EmptyGrid,
    /// The tile size is no number between one and the largest tile size.
    InvalidTileSize,
    /// The edge of the grid is longer than the largest extent.
    TooLarge,
}

/// The number that four bytes denote, least significant byte first.
pub open spec fn le_u32(b0: u8, b1: u8, b2: u8, b3: u8) -> u32 {
    (b0 + 256 * b1 + 65536 * b2 + 16777216 * b3) as u32
}

/// The four bytes of `v`, least significant first.
pub open spec fn le_bytes(v: u32) -> Seq<u8> {
    seq![(v % 256) as u8, ((v / 256) % 256) as u8, ((v / 65536) % 256) as u8, (v / 16777216) as u8]
}

/// The tile that byte `code` of a level file gives: grass where the byte
/// stands for no tile kind.
pub open spec fn tile_of_code(code: u8) -> Blocks {
    match Blocks::decode(code) {
        Some(block) => block,
        None => Blocks::GRASS,
    }
}

/// The positions among the first `n` of `codes` of the bytes that stand for
/// no tile kind, in rising order.
pub open spec fn invalid_positions(codes: Seq<u8>, n: nat) -> Seq<usize>
    decreases n,
{
    if n == 0 {
        Seq::empty()
    } else if Blocks::decode(codes[n - 1]) is None {
        invalid_positions(codes, (n - 1) as nat).push((n - 1) as usize)
    } else {
        invalid_positions(codes, (n - 1) as nat)
    }
}

/// What a level file holds.
pub struct Level {
    /// The tiles, column after column.
    pub tiles: Seq<Seq<Blocks>>,
    /// The width of a tile in world units.
    pub tile_size: usize,
    /// The number of columns, and of rows.
    pub size: usize,
    /// The positions of the tile bytes that stand for no tile kind.
    pub invalid: Seq<usize>,
}

/// The edge length that the header of a level file gives.
pub open spec fn header_size(bytes: Seq<u8>) -> u32
    recommends
        bytes.len() >= HEADER_LEN,
{
    le_u32(bytes[0], bytes[1], bytes[2], bytes[3])
}

/// The tile size that the header of a level file gives, if it gives one.
pub open spec fn header_tile_size(bytes: Seq<u8>) -> Option<usize>
    recommends
        bytes.len() >= HEADER_LEN,
{
    tile_size_of_bits(le_u32(bytes[4], bytes[5], bytes[6], bytes[7]))
}

/// What the contents `bytes` of a level file hold, or why they are refused.
/// The refusals are tried in the order of [`LoadError`].
pub open spec fn parse_level(bytes: Seq<u8>) -> Result<Level, LoadError> {
    if bytes.len() < HEADER_LEN {
        Err(LoadError::Truncated)
    } else {
        let size = header_size(bytes);
        let codes = bytes.subrange(HEADER_LEN as int, bytes.len() as int);
        if codes.len() != size * size {
            Err(LoadError::SizeMismatch)
        } else if size == 0 {
            Err(LoadError::EmptyGrid)
        } else if header_tile_size(bytes) is None {
            Err(LoadError::InvalidTileSize)
        } else if size * header_tile_size(bytes).unwrap() > MAX_EXTENT {
            Err(LoadError::TooLarge)
        } else {
            Ok(
                Level {
                    tiles: Seq::new(
                        size as nat,
                        |col: int| Seq::new(size as nat, |row: int| tile_of_code(codes[col * size + row])),
                    ),
                    tile_size: header_tile_size(bytes).unwrap(),
                    size: size as usize,
                    invalid: invalid_positions(codes, codes.len()),
                },
            )
        }
    }
}

/// The contents of the level file of a grid of `size` columns of `size`
/// tiles.
pub open spec fn level_bytes(tiles: Seq<Seq<Blocks>>, tile_size: usize, size: usize) -> Seq<u8> {
    le_bytes(size as u32) + le_bytes(bits_of_tile_size(tile_size)) + Seq::new(
        (size * size) as nat,
        |p: int| tiles[p / (size as int)][p % (size as int)].code(),
    )
}

/// Reads four bytes at `at` as a number, least significant byte first.
pub fn read_le_u32(bytes: &[u8], at: usize) -> (v: u32)
    requires
        at + 4 <= bytes@.len(),
    ensures
        v == le_u32(bytes@[at as int], bytes@[at + 1], bytes@[at + 2], bytes@[at + 3]),
{
    (bytes[at] as u32) + 256 * (bytes[at + 1] as u32) + 65536 * (bytes[at + 2] as u32) + 16777216 * (
    bytes[at + 3] as u32)
}

/// Appends the four bytes of `v` to `out`, least significant first.
pub fn write_le_u32(out: &mut Vec<u8>, v: u32)
    ensures
        final(out)@ == old(out)@ + le_bytes(v),
{
    out.push((v % 256) as u8);
    out.push(((v / 256) % 256) as u8);
    out.push(((v / 65536) % 256) as u8);
    out.push((v / 16777216) as u8);
    proof {
        assert(final(out)@ =~= old(out)@ + le_bytes(v));
    }
}

/// Reading the four bytes of a number gives the number back.
pub proof fn lemma_le_round_trip(v: u32)
    ensures
        le_u32(le_bytes(v)[0], le_bytes(v)[1], le_bytes(v)[2], le_bytes(v)[3]) == v,
{
}

/// A position in a square of edge `n`, counted column after column, lies
/// in the square, and gives its column and row back by division.
pub proof fn lemma_position(n: int, col: int, row: int)
    requires
        0 <= col < n,
        0 <= row < n,
    ensures
        0 <= col * n + row < n * n,
        (col * n + row) / n == col,
        (col * n + row) % n == row,
        (col + 1) * n == col * n + n,
{
    assert(0 <= col * n && col * n + n <= n * n && (col + 1) * n == col * n + n) by (nonlinear_arith)
        requires
            0 <= col < n,
    ;
    assert(col * n == n * col) by (nonlinear_arith);
    lemma_fundamental_div_mod_converse(col * n + row, n, col, row);
}

impl World {
    /// Reads a world from the contents of a level file. A tile byte that
    /// stands for no tile kind gives grass; the positions of those bytes,
    /// counted from the first tile byte, are returned with the world.
    pub fn from_file(contents: &[u8]) -> (r: Result<(World, Vec<usize>), LoadError>)
        ensures
            match parse_level(contents@) {
                Ok(level) => {
                    &&& r matches Ok(loaded)
                    &&& loaded.0.wf()
                    &&& loaded.0.tiles() == level.tiles
                    &&& loaded.0.tile_size == level.tile_size
                    &&& loaded.0.size == level.size
                    &&& loaded.1@ == level.invalid
                },
                Err(e) => r == Err::<(World, Vec<usize>), LoadError>(e),
            },
    {
        if contents.len() < HEADER_LEN {
            return Err(LoadError::Truncated);
        }
        let size: u32 = read_le_u32(contents, 0);
        let bits: u32 = read_le_u32(contents, 4);
        let count: usize = contents.len() - HEADER_LEN;
        let ghost codes = contents@.subrange(HEADER_LEN as int, contents@.len() as int);
        assert((size as u64) * (size as u64) <= 0xffff_fffe_0000_0001) by (nonlinear_arith)
            requires
                size <= 0xffff_ffff,
        ;
        if count as u64 != (size as u64) * (size as u64) {
            return Err(LoadError::SizeMismatch);
        }
        if size == 0 {
            return Err(LoadError::EmptyGrid);
        }
        let tile_size: usize = match read_tile_size(bits) {
            Some(tile_size) => tile_size,
            None => {
                return Err(LoadError::InvalidTileSize);
            },
        };
        assert((size as u64) * (tile_size as u64) <= 0xffff_ffff * 0x100_0000) by (nonlinear_arith)
            requires
                size <= 0xffff_ffff,
                tile_size <= 0x100_0000,
        ;
        if (size as u64) * (tile_size as u64) > MAX_EXTENT {
            return Err(LoadError::TooLarge);
        }
        assert(size <= size * size) by (nonlinear_arith)
            requires
                size >= 1,
        ;
        let n: usize = size as usize;
        let mut data: Vec<Vec<Blocks>> = Vec::new();
        let mut invalid: Vec<usize> = Vec::new();
        let mut i: usize = 0;
        while i < n
            invariant
                i <= n,
                n * n == count,
                count + HEADER_LEN == contents@.len(),
                contents@.len() <= usize::MAX,
                codes == contents@.subrange(HEADER_LEN as int, contents@.len() as int),
                data@.len() == i,
                forall|a: int| 0 <= a < i ==> (#[trigger] data@[a])@.len() == n,
                forall|a: int, b: int|
                    0 <= a < i && 0 <= b < n ==> (#[trigger] data@[a]@[b]) == tile_of_code(codes[a * n + b]),
                invalid@ == invalid_positions(codes, (i * n) as nat),
            decreases n - i,
        {
            let mut column: Vec<Blocks> = Vec::new();
            let mut j: usize = 0;
            while j < n
                invariant
                    i < n,
                    j <= n,
                    n * n == count,
                    count + HEADER_LEN == contents@.len(),
                    contents@.len() <= usize::MAX,
                    codes == contents@.subrange(HEADER_LEN as int, contents@.len() as int),
                    column@.len() == j,
                    forall|b: int| 0 <= b < j ==> (#[trigger] column@[b]) == tile_of_code(codes[i * n + b]),
                    invalid@ == invalid_positions(codes, (i * n + j) as nat),
                decreases n - j,
            {
                proof {
                    lemma_position(n as int, i as int, j as int);
                }
                let index: usize = i * n + j;
                let code: u8 = contents[HEADER_LEN + index];
                assert(code == codes[index as int]);
                match Blocks::from_u8(code) {
                    Some(block) => {
                        column.push(block);
                    },
                    None => {
                        column.push(Blocks::GRASS);
                        invalid.push(index);
                    },
                }
                j = j + 1;
            }
            proof {
                lemma_position(n as int, i as int, 0);
            }
            data.push(column);
            i = i + 1;
        }
        let world = World { data, tile_size, size: n };
        proof {
            let level = parse_level(contents@).unwrap();
            assert forall|col: int| 0 <= col < n implies #[trigger] world.tiles()[col] == level.tiles[col] by {
                assert(world.tiles()[col] =~= level.tiles[col]);
            }
            assert(world.tiles() =~= level.tiles);
        }
        Ok((world, invalid))
    }

    /// The contents of the level file of this world.
    pub fn data_to_file(&self) -> (bytes: Vec<u8>)
        requires
            self.wf(),
        ensures
            bytes@ == level_bytes(self.tiles(), self.tile_size, self.size),
    {
        let n: usize = self.size;
        assert(n <= 0x8000_0000) by (nonlinear_arith)
            requires
                n * self.tile_size <= 0x8000_0000,
                1 <= self.tile_size,
        ;
        let mut bytes: Vec<u8> = Vec::new();
        write_le_u32(&mut bytes, n as u32);
        write_le_u32(&mut bytes, write_tile_size(self.tile_size));
        let ghost header = bytes@;
        assert(n * n <= 0x4000_0000_0000_0000) by (nonlinear_arith)
            requires
                n <= 0x8000_0000,
        ;
        let mut i: usize = 0;
        while i < n
            invariant
                self.wf(),
                n == self.size,
                i <= n,
                header.len() == HEADER_LEN,
                bytes@.len() == HEADER_LEN + i * n,
                bytes@.subrange(0, HEADER_LEN as int) == header,
                forall|a: int, b: int|
                    0 <= a < i && 0 <= b < n ==> bytes@[HEADER_LEN + a * n + b] == (#[trigger] self.data@[a]@[b]).code(),
            decreases n - i,
        {
            let column = &self.data[i];
            let mut j: usize = 0;
            while j < n
                invariant
                    self.wf(),
                    n == self.size,
                    i < n,
                    j <= n,
                    column@ == self.data@[i as int]@,
                    header.len() == HEADER_LEN,
                    bytes@.len() == HEADER_LEN + i * n + j,
                    bytes@.subrange(0, HEADER_LEN as int) == header,
                    forall|a: int, b: int|
                        0 <= a < i && 0 <= b < n ==> bytes@[HEADER_LEN + a * n + b] == (
                        #[trigger] self.data@[a]@[b]).code(),
                    forall|b: int|
                        0 <= b < j ==> bytes@[HEADER_LEN + i * n + b] == (#[trigger] self.data@[i as int]@[b]).code(),
                decreases n - j,
            {
                let ghost before = bytes@;
                bytes.push(column[j].to_u8());
                proof {
                    assert(bytes@.subrange(0, HEADER_LEN as int) =~= before.subrange(0, HEADER_LEN as int));
                    assert forall|a: int, b: int| 0 <= a < i && 0 <= b < n implies bytes@[HEADER_LEN + a * n + b] == (
                    #[trigger] self.data@[a]@[b]).code() by {
                        lemma_position(n as int, a, b);
                        assert(a * n + b < i * n + j) by (nonlinear_arith)
                            requires
                                0 <= a < i,
                                0 <= b < n,
                                0 <= j,
                        ;
                        assert(bytes@[HEADER_LEN + a * n + b] == before[HEADER_LEN + a * n + b]);
                    }
                }
                j = j + 1;
            }
            proof {
                lemma_position(n as int, i as int, 0);
            }
            i = i + 1;
        }
        proof {
            let body = Seq::new(
                (n * n) as nat,
                |p: int| self.tiles()[p / (n as int)][p % (n as int)].code(),
            );
            assert forall|p: int| 0 <= p < n * n implies bytes@[HEADER_LEN + p] == #[trigger] body[p] by {
                let a = p / (n as int);
                let b = p % (n as int);
                lemma_fundamental_div_mod(p, n as int);
                lemma_div_pos_is_pos(p, n as int);
                assert(a < n) by (nonlinear_arith)
                    requires
                        p < n * n,
                        p == n * a + b,
                        0 <= b,
                        0 < n,
                ;
                assert(n * a == a * n) by (nonlinear_arith);
                assert(self.data@[a]@[b].code() == bytes@[HEADER_LEN + a * n + b]);
            }
            assert(bytes@ =~= header + body);
        }
        bytes
    }
}

/// No position is invalid among codes that all stand for a tile kind.
pub proof fn lemma_no_invalid_positions(codes: Seq<u8>, n: nat)
    requires
        n <= codes.len(),
        forall|p: int| 0 <= p < n ==> Blocks::decode(#[trigger] codes[p]) is Some,
    ensures
        invalid_positions(codes, n) == Seq::<usize>::empty(),
    decreases n,
{
    if n > 0 {
        lemma_no_invalid_positions(codes, (n - 1) as nat);
    }
}

/// A grid that is written to a level file and read back is the same grid:
/// the contents written for a well-formed grid are not refused, and they
/// hold the same tiles, the same tile size and the same edge length, with
/// no tile byte that stands for no tile kind.
pub proof fn lemma_level_round_trip(tiles: Seq<Seq<Blocks>>, tile_size: usize, size: usize)
    requires
        size >= 1,
        tiles.len() == size,
        forall|col: int| 0 <= col < size ==> (#[trigger] tiles[col]).len() == size,
        1 <= tile_size <= MAX_TILE_SIZE,
        size * tile_size <= MAX_EXTENT,
    ensures
        parse_level(level_bytes(tiles, tile_size, size)) == Ok::<Level, LoadError>(
            Level { tiles, tile_size, size, invalid: Seq::empty() },
        ),
{
    let n = size as int;
    let bytes = level_bytes(tiles, tile_size, size);
    let body = Seq::new((size * size) as nat, |p: int| tiles[p / n][p % n].code());
    let codes = bytes.subrange(HEADER_LEN as int, bytes.len() as int);
    assert(size <= MAX_EXTENT) by (nonlinear_arith)
        requires
            size * tile_size <= MAX_EXTENT,
            1 <= tile_size,
            0 <= size,
    ;
    assert(size * size >= 0) by (nonlinear_arith);
    assert(codes =~= body);
    lemma_le_round_trip(size as u32);
    lemma_le_round_trip(bits_of_tile_size(tile_size));
    lemma_tile_size_bits_round_trip(tile_size);
    assert(header_size(bytes) == size);
    assert(header_tile_size(bytes) == Some(tile_size));
    assert forall|p: int| 0 <= p < codes.len() implies Blocks::decode(#[trigger] codes[p]) is Some by {
        lemma_code_decodes(tiles[p / n][p % n]);
    }
    lemma_no_invalid_positions(codes, codes.len());
    let parsed = parse_level(bytes).unwrap();
    assert forall|col: int| 0 <= col < size implies #[trigger] parsed.tiles[col] == tiles[col] by {
        assert forall|row: int| 0 <= row < size implies parsed.tiles[col][row] == #[trigger] tiles[col][row] by {
            lemma_position(n, col, row);
            lemma_code_decodes(tiles[col][row]);
        }
        assert(parsed.tiles[col] =~= tiles[col]);
    }
    assert(parsed.tiles =~= tiles);
}

} // verus!
