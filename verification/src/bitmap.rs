//! The three bitmap surfaces: full resolution with direct colors, full
//! resolution with palette indices on two pages, and reduced resolution with
//! direct colors on two pages.

use crate::color::{DirectColor, PaletteColor};
use crate::geometry::{
    cell_index, in_bounds, lemma_filled_cell, lemma_last_write_wins, lemma_plot_all_one,
    lemma_plot_all_outside, lemma_plot_inside, plot, plot_all, Pixel, Point, Size,
};
use crate::vram::{Frame, Page, PagedFrame};
use vstd::prelude::*;

verus! {

pub const MODE3_WIDTH: u32 = 240;

pub const MODE3_HEIGHT: u32 = 160;

pub const MODE4_WIDTH: u32 = 240;

pub const MODE4_HEIGHT: u32 = 160;

pub const MODE5_WIDTH: u32 = 160;

pub const MODE5_HEIGHT: u32 = 128;

/// The writes that a sequence of direct-color pixels asks for: each
/// coordinate with the storage word of its color.
pub open spec fn direct_writes(pixels: Seq<Pixel<DirectColor>>) -> Seq<(Point, u16)> {
    pixels.map_values(|p: Pixel<DirectColor>| (p.0, p.1.word()))
}

/// The writes that a sequence of palette pixels asks for: each coordinate
/// with its palette index.
pub open spec fn palette_writes(pixels: Seq<Pixel<PaletteColor>>) -> Seq<(Point, u8)> {
    pixels.map_values(|p: Pixel<PaletteColor>| (p.0, p.1.word()))
}

/// The single write that a pixel asks of a surface of the given size: the
/// column and the row of the cell, and the word to store there.
pub open spec fn target_of<W>(width: int, height: int, at: Point, word: W) -> Option<(u32, u32, W)> {
    if in_bounds(at, width, height) {
        Some((at.x as u32, at.y as u32, word))
    } else {
        None
    }
}

/// Writes each direct-color pixel to a frame in turn.
fn draw_direct(frame: &mut Frame<u16>, pixels: &Vec<Pixel<DirectColor>>)
    requires
        old(frame).wf(),
    ensures
        final(frame).is_sized(old(frame).width(), old(frame).height()),
        final(frame)@ == plot_all(
            old(frame)@,
            old(frame).width(),
            old(frame).height(),
            direct_writes(pixels@),
        ),
{
    let n: usize = pixels.len();
    let mut k: usize = 0;
    assert(pixels@.take(0) =~= Seq::empty());
    while k < n
        invariant
            k <= n,
            n == pixels.len(),
            frame.is_sized(old(frame).width(), old(frame).height()),
            frame@ == plot_all(
                old(frame)@,
                old(frame).width(),
                old(frame).height(),
                direct_writes(pixels@.take(k as int)),
            ),
        decreases n - k,
    {
        let pixel = &pixels[k];
        proof {
            let next: Seq<(Point, u16)> = direct_writes(pixels@.take(k + 1));
            assert(next.drop_last() =~= direct_writes(pixels@.take(k as int)));
            assert(next.last() == (pixel.0, pixel.1.word()));
        }
        frame.write(pixel.0, pixel.1.into_storage());
        k += 1;
    }
    assert(pixels@.take(n as int) =~= pixels@);
}

/// Writes each palette pixel to a frame in turn.
fn draw_indexed(frame: &mut Frame<u8>, pixels: &Vec<Pixel<PaletteColor>>)
    requires
        old(frame).wf(),
    ensures
        final(frame).is_sized(old(frame).width(), old(frame).height()),
        final(frame)@ == plot_all(
            old(frame)@,
            old(frame).width(),
            old(frame).height(),
            palette_writes(pixels@),
        ),
{
    let n: usize = pixels.len();
    let mut k: usize = 0;
    assert(pixels@.take(0) =~= Seq::empty());
    while k < n
        invariant
            k <= n,
            n == pixels.len(),
            frame.is_sized(old(frame).width(), old(frame).height()),
            frame@ == plot_all(
                old(frame)@,
                old(frame).width(),
                old(frame).height(),
                palette_writes(pixels@.take(k as int)),
            ),
        decreases n - k,
    {
        let pixel = &pixels[k];
        proof {
            let next: Seq<(Point, u8)> = palette_writes(pixels@.take(k + 1));
            assert(next.drop_last() =~= palette_writes(pixels@.take(k as int)));
            assert(next.last() == (pixel.0, pixel.1.word()));
        }
        frame.write(pixel.0, pixel.1.into_storage());
        k += 1;
    }
    assert(pixels@.take(n as int) =~= pixels@);
}

/// The full-resolution surface of direct colors: 240 by 160, one page.
pub struct Mode3Display;

impl Mode3Display {
    /// Writes each pixel in turn: the storage word of its color goes into the
    /// cell of its coordinate, and a pixel outside the surface is skipped.
    pub fn draw_iter(&mut self, pixels: &Vec<Pixel<DirectColor>>, vram: &mut Frame<u16>)
        requires
            old(vram).is_sized(240, 160),
        ensures
            final(vram).is_sized(240, 160),
            final(vram)@ == plot_all(old(vram)@, 240, 160, direct_writes(pixels@)),
    {
        draw_direct(vram, pixels);
    }

    /// The write to video memory that one pixel asks for, or `None` for a
    /// pixel outside the surface, which asks for none.
    pub fn target(&self, pixel: &Pixel<DirectColor>) -> (r: Option<(u32, u32, u16)>)
        ensures
            r == target_of(240, 160, pixel.0, pixel.1.word()),
    {
        match pixel.0.clip(MODE3_WIDTH, MODE3_HEIGHT) {
            Some((x, y)) => Some((x, y, pixel.1.into_storage())),
            None => None,
        }
    }

    pub fn size(&self) -> (s: Size)
        ensures
            s.width == 240,
            s.height == 160,
    {
        Size::new(MODE3_WIDTH, MODE3_HEIGHT)
    }

    /// Sets every cell of the surface to the storage word of the color.
    pub fn clear(&mut self, color: DirectColor, vram: &mut Frame<u16>)
        requires
            old(vram).is_sized(240, 160),
        ensures
            final(vram).is_sized(240, 160),
            final(vram)@ == Seq::new(38400, |i: int| color.word()),
    {
        proof {
            vram.lemma_len();
        }
        vram.fill(color.into_storage());
    }
}

/// The full-resolution surface of palette indices: 240 by 160, two pages.
pub struct Mode4Display {
    pub page: Page,
}

impl Mode4Display {
    /// Writes each pixel in turn to the page of this surface: its palette
    /// index goes into the cell of its coordinate, and a pixel outside the
    /// surface is skipped. The other page is not touched.
    pub fn draw_iter(&mut self, pixels: &Vec<Pixel<PaletteColor>>, vram: &mut PagedFrame<u8>)
        requires
            old(vram).is_sized(240, 160),
        ensures
            final(self).page == old(self).page,
            final(vram).is_sized(240, 160),
            final(vram).page(old(self).page)@ == plot_all(
                old(vram).page(old(self).page)@,
                240,
                160,
                palette_writes(pixels@),
            ),
            final(vram).page(old(self).page.other_page()) == old(vram).page(
                old(self).page.other_page(),
            ),
    {
        match self.page {
            Page::Page0 => draw_indexed(&mut vram.page0, pixels),
            Page::Page1 => draw_indexed(&mut vram.page1, pixels),
        }
    }

    /// The write to video memory that one pixel asks for, or `None` for a
    /// pixel outside the surface, which asks for none.
    pub fn target(&self, pixel: &Pixel<PaletteColor>) -> (r: Option<(u32, u32, u8)>)
        ensures
            r == target_of(240, 160, pixel.0, pixel.1.word()),
    {
        match pixel.0.clip(MODE4_WIDTH, MODE4_HEIGHT) {
            Some((x, y)) => Some((x, y, pixel.1.into_storage())),
            None => None,
        }
    }

    pub fn size(&self) -> (s: Size)
        ensures
            s.width == 240,
            s.height == 160,
    {
        Size::new(MODE4_WIDTH, MODE4_HEIGHT)
    }

    /// Sets every cell of the page of this surface to the palette index.
    /// The other page is not touched.
    pub fn clear(&mut self, color: PaletteColor, vram: &mut PagedFrame<u8>)
        requires
            old(vram).is_sized(240, 160),
        ensures
            final(self).page == old(self).page,
            final(vram).is_sized(240, 160),
            final(vram).page(old(self).page)@ == Seq::new(38400, |i: int| color.word()),
            final(vram).page(old(self).page.other_page()) == old(vram).page(
                old(self).page.other_page(),
            ),
    {
        proof {
            vram.page0.lemma_len();
            vram.page1.lemma_len();
        }
        match self.page {
            Page::Page0 => vram.page0.fill(color.into_storage()),
            Page::Page1 => vram.page1.fill(color.into_storage()),
        }
    }
}

/// The reduced-resolution surface of direct colors: 160 by 128, two pages.
pub struct Mode5Display {
    pub page: Page,
}

impl Mode5Display {
    /// Writes each pixel in turn to the page of this surface: the storage
    /// word of its color goes into the cell of its coordinate, and a pixel
    /// outside the surface is skipped. The other page is not touched.
    pub fn draw_iter(&mut self, pixels: &Vec<Pixel<DirectColor>>, vram: &mut PagedFrame<u16>)
        requires
            old(vram).is_sized(160, 128),
        ensures
            final(self).page == old(self).page,
            final(vram).is_sized(160, 128),
            final(vram).page(old(self).page)@ == plot_all(
                old(vram).page(old(self).page)@,
                160,
                128,
                direct_writes(pixels@),
            ),
            final(vram).page(old(self).page.other_page()) == old(vram).page(
                old(self).page.other_page(),
            ),
    {
        match self.page {
            Page::Page0 => draw_direct(&mut vram.page0, pixels),
            Page::Page1 => draw_direct(&mut vram.page1, pixels),
        }
    }

    /// The write to video memory that one pixel asks for, or `None` for a
    /// pixel outside the surface, which asks for none.
    pub fn target(&self, pixel: &Pixel<DirectColor>) -> (r: Option<(u32, u32, u16)>)
        ensures
            r == target_of(160, 128, pixel.0, pixel.1.word()),
    {
        match pixel.0.clip(MODE5_WIDTH, MODE5_HEIGHT) {
            Some((x, y)) => Some((x, y, pixel.1.into_storage())),
            None => None,
        }
    }

    pub fn size(&self) -> (s: Size)
        ensures
            s.width == 160,
            s.height == 128,
    {
        Size::new(MODE5_WIDTH, MODE5_HEIGHT)
    }

    /// Sets every cell of the page of this surface to the storage word of
    /// the color. The other page is not touched.
    pub fn clear(&mut self, color: DirectColor, vram: &mut PagedFrame<u16>)
        requires
            old(vram).is_sized(160, 128),
        ensures
            final(self).page == old(self).page,
            final(vram).is_sized(160, 128),
            final(vram).page(old(self).page)@ == Seq::new(20480, |i: int| color.word()),
            final(vram).page(old(self).page.other_page()) == old(vram).page(
                old(self).page.other_page(),
            ),
    {
        proof {
            vram.page0.lemma_len();
            vram.page1.lemma_len();
        }
        match self.page {
            Page::Page0 => vram.page0.fill(color.into_storage()),
            Page::Page1 => vram.page1.fill(color.into_storage()),
        }
    }
}

/// Drawing a single direct-color pixel inside the bounds of a surface puts
/// the storage word of its color into the cell of its coordinate, and
/// leaves the cell of every other coordinate as it was.
pub proof fn lemma_direct_pixel_lands(
    cells: Seq<u16>,
    width: int,
    height: int,
    at: Point,
    color: DirectColor,
    other: Point,
)
    requires
        cells.len() == width * height,
        in_bounds(at, width, height),
        in_bounds(other, width, height),
    ensures
        plot_all(cells, width, height, direct_writes(seq![Pixel(at, color)]))[cell_index(
            at,
            width,
        )] == color.word(),
        other != at ==> plot_all(cells, width, height, direct_writes(seq![Pixel(at, color)]))[cell_index(
            other,
            width,
        )] == cells[cell_index(other, width)],
{
    assert(direct_writes(seq![Pixel(at, color)]) =~= seq![(at, color.word())]);
    lemma_plot_all_one(cells, width, height, at, color.word());
    lemma_plot_inside(cells, width, height, at, color.word(), other);
}

/// Drawing a single palette pixel inside the bounds of a surface puts its
/// index into the cell of its coordinate, and leaves the cell of every other
/// coordinate as it was.
pub proof fn lemma_palette_pixel_lands(
    cells: Seq<u8>,
    width: int,
    height: int,
    at: Point,
    color: PaletteColor,
    other: Point,
)
    requires
        cells.len() == width * height,
        in_bounds(at, width, height),
        in_bounds(other, width, height),
    ensures
        plot_all(cells, width, height, palette_writes(seq![Pixel(at, color)]))[cell_index(
            at,
            width,
        )] == color.word(),
        other != at ==> plot_all(cells, width, height, palette_writes(seq![Pixel(at, color)]))[cell_index(
            other,
            width,
        )] == cells[cell_index(other, width)],
{
    assert(palette_writes(seq![Pixel(at, color)]) =~= seq![(at, color.word())]);
    lemma_plot_all_one(cells, width, height, at, color.word());
    lemma_plot_inside(cells, width, height, at, color.word(), other);
}

/// Direct-color pixels that all lie outside the bounds of a surface leave
/// every cell unchanged.
pub proof fn lemma_direct_outside(
    cells: Seq<u16>,
    width: int,
    height: int,
    pixels: Seq<Pixel<DirectColor>>,
)
    requires
        forall|i: int| 0 <= i < pixels.len() ==> !in_bounds(#[trigger] pixels[i].0, width, height),
    ensures
        plot_all(cells, width, height, direct_writes(pixels)) == cells,
{
    let writes: Seq<(Point, u16)> = direct_writes(pixels);
    assert forall|i: int| 0 <= i < writes.len() implies !in_bounds(
        #[trigger] writes[i].0,
        width,
        height,
    ) by {
        assert(writes[i].0 == pixels[i].0);
    }
    lemma_plot_all_outside(cells, width, height, writes);
}

/// Palette pixels that all lie outside the bounds of a surface leave every
/// cell unchanged.
pub proof fn lemma_palette_outside(
    cells: Seq<u8>,
    width: int,
    height: int,
    pixels: Seq<Pixel<PaletteColor>>,
)
    requires
        forall|i: int| 0 <= i < pixels.len() ==> !in_bounds(#[trigger] pixels[i].0, width, height),
    ensures
        plot_all(cells, width, height, palette_writes(pixels)) == cells,
{
    let writes: Seq<(Point, u8)> = palette_writes(pixels);
    assert forall|i: int| 0 <= i < writes.len() implies !in_bounds(
        #[trigger] writes[i].0,
        width,
        height,
    ) by {
        assert(writes[i].0 == pixels[i].0);
    }
    lemma_plot_all_outside(cells, width, height, writes);
}

/// The last write wins: when the last pixel of a drawing call lies inside
/// the bounds, its cell holds the storage word of its color afterwards,
/// whatever the pixels before it were.
pub proof fn lemma_direct_last_wins(
    cells: Seq<u16>,
    width: int,
    height: int,
    pixels: Seq<Pixel<DirectColor>>,
    at: Point,
    color: DirectColor,
)
    requires
        cells.len() == width * height,
        in_bounds(at, width, height),
    ensures
        plot_all(cells, width, height, direct_writes(pixels.push(Pixel(at, color))))[cell_index(
            at,
            width,
        )] == color.word(),
{
    assert(direct_writes(pixels.push(Pixel(at, color))) =~= direct_writes(pixels).push(
        (at, color.word()),
    ));
    lemma_last_write_wins(cells, width, height, direct_writes(pixels), at, color.word());
}

/// After a clear, every cell inside the bounds of a surface holds the word
/// that it was cleared to.
pub proof fn lemma_cleared_cell<W>(width: int, height: int, word: W, at: Point)
    requires
        in_bounds(at, width, height),
    ensures
        Seq::new((width * height) as nat, |i: int| word)[cell_index(at, width)] == word,
{
    lemma_filled_cell(width, height, word, at);
}

/// Carrying out the write that `target_of` names is what drawing the pixel
/// does to the cells of a surface; where it names none, nothing changes.
pub proof fn lemma_target_is_plot<W>(cells: Seq<W>, width: int, height: int, at: Point, word: W)
    ensures
        plot(cells, width, height, at, word) == (match target_of(width, height, at, word) {
            Some((x, y, w)) => cells.update(y * width + x, w),
            None => cells,
        }),
{
}

} // verus!
