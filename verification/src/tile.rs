//! The 8x8 tile buffers: 64 palette indices packed into 32-bit words, eight
//! to a word at 4 bits per pixel and four to a word at 8 bits per pixel.

use crate::color::PaletteColor;
use crate::geometry::{cell_index, in_bounds, plot, plot_all, Pixel, Point, Size};
use crate::packing::{
    extract, insert, lemma_insert_updates_slots, lemma_replicated_fields, replicate, replicated,
    slots, Depth,
};
use vstd::prelude::*;

verus! {

/// The width and the height of a tile, in pixels.
pub const TILE_SIDE: u32 = 8;

/// The words of a tile of 4 bits per pixel.
#[derive(Debug, Copy, Clone)]
pub struct Tile4bpp(pub [u32; 8]);

/// The words of a tile of 8 bits per pixel.
#[derive(Debug, Copy, Clone)]
pub struct Tile8bpp(pub [u32; 16]);

/// A drawing surface over a tile of 4 bits per pixel.
pub struct Tile4bppDisplay {
    pub tile: Tile4bpp,
}

/// A drawing surface over a tile of 8 bits per pixel.
pub struct Tile8bppDisplay {
    pub tile: Tile8bpp,
}

/// The value that a slot holds after a palette index was written to it: at
/// 4 bits the low four bits of the index, at 8 bits the index.
pub open spec fn stored_index(depth: Depth, color: PaletteColor) -> u8 {
    match depth {
        Depth::Four => color.0 & 0xF,
        Depth::Eight => color.0,
    }
}

/// The writes that a sequence of pixels asks of a tile of the given depth.
pub open spec fn tile_writes(depth: Depth, pixels: Seq<Pixel<PaletteColor>>) -> Seq<(Point, u8)> {
    pixels.map_values(|p: Pixel<PaletteColor>| (p.0, stored_index(depth, p.1)))
}

/// What a slot holds is what the packing keeps of the index.
proof fn lemma_stored_index(depth: Depth, color: PaletteColor)
    ensures
        ((color.0 as u32) & depth.mask()) as u8 == stored_index(depth, color),
{
    let v: u8 = color.0;
    assert(((v as u32) & 0xF) as u8 == v & 0xF) by (bit_vector);
    assert(((v as u32) & 0xFF) as u8 == v) by (bit_vector);
}

/// The writes of the first `k + 1` pixels are those of the first `k`, then
/// that of pixel `k`.
proof fn lemma_tile_writes_step(depth: Depth, pixels: Seq<Pixel<PaletteColor>>, k: int)
    requires
        0 <= k < pixels.len(),
    ensures
        tile_writes(depth, pixels.take(k + 1)).drop_last() == tile_writes(depth, pixels.take(k)),
        tile_writes(depth, pixels.take(k + 1)).last() == (
            pixels[k].0,
            stored_index(depth, pixels[k].1),
        ),
        tile_writes(depth, pixels.take(k + 1)).len() == k + 1,
{
    assert(tile_writes(depth, pixels.take(k + 1)).drop_last() =~= tile_writes(
        depth,
        pixels.take(k),
    ));
}

/// Writes a palette index to slot `index` of a run of tile words: one read
/// and one write of the word that holds the slot.
fn store_slot<const N: usize>(words: &mut [u32; N], depth: Depth, index: u32, color: PaletteColor)
    requires
        index < 64,
        N == depth.words(),
    ensures
        slots(final(words)@, depth) == slots(old(words)@, depth).update(
            index as int,
            stored_index(depth, color),
        ),
{
    let at: usize = (index / depth.pixels_per_word()) as usize;
    let word: u32 = words[at];
    let value: u32 = color.into_storage() as u32;
    proof {
        lemma_insert_updates_slots(words@, depth, index, value);
        lemma_stored_index(depth, color);
    }
    words[at] = insert(word, depth, index, value);
}

/// Reads the palette index in slot `index` of a run of tile words.
fn load_slot<const N: usize>(words: &[u32; N], depth: Depth, index: u32) -> (v: u8)
    requires
        index < 64,
        N == depth.words(),
    ensures
        v == slots(words@, depth)[index as int],
{
    let at: usize = (index / depth.pixels_per_word()) as usize;
    extract(words[at], depth, index) as u8
}

/// The slots of a run of words that all hold the replicated fill word.
proof fn lemma_filled_slots(words: Seq<u32>, depth: Depth, color: PaletteColor)
    requires
        words.len() == depth.words(),
        forall|i: int| 0 <= i < words.len() ==> words[i] == replicated(depth, color.0 as u32),
    ensures
        slots(words, depth) == Seq::new(64, |i: int| stored_index(depth, color)),
{
    let want: Seq<u8> = Seq::new(64, |i: int| stored_index(depth, color));
    assert(slots(words, depth).len() == 64);
    assert forall|i: int| 0 <= i < 64 implies slots(words, depth)[i] == want[i] by {
        lemma_replicated_fields(depth, color.0 as u32, i as u32);
        lemma_stored_index(depth, color);
    }
    assert(slots(words, depth) =~= want);
}

impl View for Tile4bppDisplay {
    type V = Seq<u8>;

    /// The 64 palette indices of the tile, row by row.
    open spec fn view(&self) -> Seq<u8> {
        slots(self.tile.0@, Depth::Four)
    }
}

impl Tile4bppDisplay {
    /// A tile whose 64 slots all hold the low four bits of the fill index.
    pub fn new(color: PaletteColor) -> (t: Self)
        ensures
            t@ == Seq::new(64, |i: int| stored_index(Depth::Four, color)),
    {
        let word: u32 = replicate(Depth::Four, color.into_storage() as u32);
        let t = Tile4bppDisplay { tile: Tile4bpp([word; 8]) };
        proof {
            lemma_filled_slots(t.tile.0@, Depth::Four, color);
        }
        t
    }

    /// Writes each pixel in turn. A pixel inside the 8x8 tile replaces the
    /// nibble of slot `x + 8 * y` by the low four bits of its index; a pixel
    /// outside of it changes nothing.
    pub fn draw_iter(&mut self, pixels: &Vec<Pixel<PaletteColor>>)
        ensures
            final(self)@ == plot_all(old(self)@, 8, 8, tile_writes(Depth::Four, pixels@)),
    {
        let n: usize = pixels.len();
        let mut k: usize = 0;
        assert(pixels@.take(0) =~= Seq::empty());
        while k < n
            invariant
                k <= n,
                n == pixels.len(),
                self@ == plot_all(old(self)@, 8, 8, tile_writes(Depth::Four, pixels@.take(k as int))),
            decreases n - k,
        {
            let pixel = &pixels[k];
            let ghost before: Seq<u8> = self@;
            proof {
                lemma_tile_writes_step(Depth::Four, pixels@, k as int);
            }
            if let Some((x, y)) = pixel.0.clip(TILE_SIDE, TILE_SIDE) {
                let index: u32 = x + y * 8;
                store_slot(&mut self.tile.0, Depth::Four, index, pixel.1);
            }
            assert(self@ == plot(before, 8, 8, pixel.0, stored_index(Depth::Four, pixel.1)));
            k += 1;
        }
        assert(pixels@.take(n as int) =~= pixels@);
    }

    /// The palette index at a coordinate, or `None` outside the tile.
    pub fn read(&self, at: Point) -> (r: Option<u8>)
        ensures
            r == (if in_bounds(at, 8, 8) {
                Some(self@[cell_index(at, 8)])
            } else {
                None
            }),
    {
        match at.clip(TILE_SIDE, TILE_SIDE) {
            Some((x, y)) => Some(load_slot(&self.tile.0, Depth::Four, x + y * 8)),
            None => None,
        }
    }

    /// A tile is always 8 pixels wide and 8 pixels high.
    pub fn size(&self) -> (s: Size)
        ensures
            s.width == 8,
            s.height == 8,
    {
        Size::new(TILE_SIDE, TILE_SIDE)
    }
}

impl View for Tile8bppDisplay {
    type V = Seq<u8>;

    /// The 64 palette indices of the tile, row by row.
    open spec fn view(&self) -> Seq<u8> {
        slots(self.tile.0@, Depth::Eight)
    }
}

impl Tile8bppDisplay {
    /// A tile whose 64 slots all hold the fill index.
    pub fn new(color: PaletteColor) -> (t: Self)
        ensures
            t@ == Seq::new(64, |i: int| stored_index(Depth::Eight, color)),
    {
        let word: u32 = replicate(Depth::Eight, color.into_storage() as u32);
        let t = Tile8bppDisplay { tile: Tile8bpp([word; 16]) };
        proof {
            lemma_filled_slots(t.tile.0@, Depth::Eight, color);
        }
        t
    }

    /// Writes each pixel in turn. A pixel inside the 8x8 tile replaces the
    /// byte of slot `x + 8 * y` by its index; a pixel
    /// outside of it changes nothing.
    pub fn draw_iter(&mut self, pixels: &Vec<Pixel<PaletteColor>>)
        ensures
            final(self)@ == plot_all(old(self)@, 8, 8, tile_writes(Depth::Eight, pixels@)),
    {
        let n: usize = pixels.len();
        let mut k: usize = 0;
        assert(pixels@.take(0) =~= Seq::empty());
        while k < n
            invariant
                k <= n,
                n == pixels.len(),
                self@ == plot_all(old(self)@, 8, 8, tile_writes(Depth::Eight, pixels@.take(k as int))),
            decreases n - k,
        {
            let pixel = &pixels[k];
            let ghost before: Seq<u8> = self@;
            proof {
                lemma_tile_writes_step(Depth::Eight, pixels@, k as int);
            }
            if let Some((x, y)) = pixel.0.clip(TILE_SIDE, TILE_SIDE) {
                let index: u32 = x + y * 8;
                store_slot(&mut self.tile.0, Depth::Eight, index, pixel.1);
            }
            assert(self@ == plot(before, 8, 8, pixel.0, stored_index(Depth::Eight, pixel.1)));
            k += 1;
        }
        assert(pixels@.take(n as int) =~= pixels@);
    }

    /// The palette index at a coordinate, or `None` outside the tile.
    pub fn read(&self, at: Point) -> (r: Option<u8>)
        ensures
            r == (if in_bounds(at, 8, 8) {
                Some(self@[cell_index(at, 8)])
            } else {
                None
            }),
    {
        match at.clip(TILE_SIDE, TILE_SIDE) {
            Some((x, y)) => Some(load_slot(&self.tile.0, Depth::Eight, x + y * 8)),
            None => None,
        }
    }

    /// A tile is always 8 pixels wide and 8 pixels high.
    pub fn size(&self) -> (s: Size)
        ensures
            s.width == 8,
            s.height == 8,
    {
        Size::new(TILE_SIDE, TILE_SIDE)
    }
}


/// Drawing one in-bounds pixel on a tile gives the slot of its coordinate
/// the value that the depth keeps of the index, and changes no other slot.
pub proof fn lemma_draw_one_slot(
    depth: Depth,
    before: Seq<u8>,
    at: Point,
    color: PaletteColor,
    other: int,
)
    requires
        before.len() == 64,
        in_bounds(at, 8, 8),
        0 <= other < 64,
    ensures
        0 <= cell_index(at, 8) < 64,
        plot_all(before, 8, 8, tile_writes(depth, seq![Pixel(at, color)])).len() == 64,
        plot_all(before, 8, 8, tile_writes(depth, seq![Pixel(at, color)]))[cell_index(at, 8)]
            == stored_index(depth, color),
        other != cell_index(at, 8) ==> plot_all(
            before,
            8,
            8,
            tile_writes(depth, seq![Pixel(at, color)]),
        )[other] == before[other],
{
    let writes: Seq<(Point, u8)> = tile_writes(depth, seq![Pixel(at, color)]);
    assert(writes.len() == 1);
    assert(writes.drop_last() =~= Seq::empty());
    assert(writes.last() == (at, stored_index(depth, color)));
    assert(plot_all(before, 8, 8, writes.drop_last()) == before);
}

/// A palette index that fits the depth is stored as it is: every index at
/// 8 bits, and the indices below 16 at 4 bits.
pub proof fn lemma_stored_index_fits(depth: Depth, color: PaletteColor)
    requires
        depth == Depth::Four ==> color.0 < 16,
    ensures
        stored_index(depth, color) == color.0,
{
    let v: u8 = color.0;
    assert(v < 16 ==> v & 0xF == v) by (bit_vector);
}

/// Drawing one pixel outside the 8x8 bounds changes no slot of a tile.
pub proof fn lemma_draw_one_outside(depth: Depth, before: Seq<u8>, at: Point, color: PaletteColor)
    requires
        !in_bounds(at, 8, 8),
    ensures
        plot_all(before, 8, 8, tile_writes(depth, seq![Pixel(at, color)])) == before,
{
    let writes: Seq<(Point, u8)> = tile_writes(depth, seq![Pixel(at, color)]);
    assert(writes.len() == 1);
    assert(writes.drop_last() =~= Seq::empty());
    assert(writes.last() == (at, stored_index(depth, color)));
    assert(plot_all(before, 8, 8, writes.drop_last()) == before);
}

} // verus!
