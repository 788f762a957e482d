use embedded_graphics_gba::bitmap::{Mode3Display, Mode4Display, Mode5Display};
use embedded_graphics_gba::color::{DirectColor, PaletteColor};
use embedded_graphics_gba::geometry::{Pixel, Point};
use embedded_graphics_gba::vram::{Frame, Page, PagedFrame};

fn red() -> DirectColor {
    DirectColor::new(31, 0, 0)
}

fn blue() -> DirectColor {
    DirectColor::new(0, 0, 31)
}

fn cells16(f: &Frame<u16>, width: i32, height: i32) -> Vec<u16> {
    let mut v = Vec::new();
    for y in 0..height {
        for x in 0..width {
            v.push(f.read(Point::new(x, y)).unwrap());
        }
    }
    v
}

fn cells8(f: &Frame<u8>, width: i32, height: i32) -> Vec<u8> {
    let mut v = Vec::new();
    for y in 0..height {
        for x in 0..width {
            v.push(f.read(Point::new(x, y)).unwrap());
        }
    }
    v
}

#[test]
fn frame_new_read_write_fill() {
    let mut f: Frame<u16> = Frame::new(4, 3, 7);
    assert_eq!((f.size().width, f.size().height), (4, 3));
    assert_eq!(cells16(&f, 4, 3), vec![7u16; 12]);
    f.write(Point::new(3, 2), 9);
    f.write(Point::new(1, 0), 8);
    f.write(Point::new(4, 0), 5);
    f.write(Point::new(0, 3), 5);
    f.write(Point::new(-1, -1), 5);
    assert_eq!(cells16(&f, 4, 3), vec![7, 8, 7, 7, 7, 7, 7, 7, 7, 7, 7, 9]);
    assert_eq!(f.read(Point::new(4, 0)), None);
    assert_eq!(f.read(Point::new(0, 3)), None);
    assert_eq!(f.read(Point::new(0, -1)), None);
    f.fill(1);
    assert_eq!(cells16(&f, 4, 3), vec![1u16; 12]);
}

#[test]
fn frame_of_no_cells() {
    let mut f: Frame<u8> = Frame::new(0, 5, 1);
    f.write(Point::new(0, 0), 2);
    f.fill(3);
    assert_eq!(f.read(Point::new(0, 0)), None);
}

#[test]
fn page_other() {
    assert_eq!(Page::Page0.other(), Page::Page1);
    assert_eq!(Page::Page1.other(), Page::Page0);
}

#[test]
fn mode3_size() {
    let d = Mode3Display;
    assert_eq!((d.size().width, d.size().height), (240, 160));
}

#[test]
fn mode3_single_pixel_lands_in_its_cell() {
    let mut vram: Frame<u16> = Frame::new(240, 160, 0);
    let mut d = Mode3Display;
    let c = DirectColor::new(17, 6, 10);
    d.draw_iter(&vec![Pixel(Point::new(239, 159), c)], &mut vram);
    let cells = cells16(&vram, 240, 160);
    assert_eq!(cells[159 * 240 + 239], 0x28D1);
    assert_eq!(cells.iter().filter(|w| **w != 0).count(), 1);
    d.draw_iter(&vec![Pixel(Point::new(5, 2), c)], &mut vram);
    assert_eq!(vram.read(Point::new(5, 2)), Some(0x28D1));
    assert_eq!(vram.read(Point::new(2, 5)), Some(0));
}

#[test]
fn mode3_red_then_blue_leaves_blue() {
    let mut vram: Frame<u16> = Frame::new(240, 160, 0);
    let mut d = Mode3Display;
    d.draw_iter(&vec![Pixel(Point::new(0, 0), red()), Pixel(Point::new(0, 0), blue())], &mut vram);
    assert_eq!(vram.read(Point::new(0, 0)), Some(0x7C00));
    assert_eq!(vram.read(Point::new(0, 0)), Some(blue().into_storage()));
}

#[test]
fn mode3_one_past_the_last_column_changes_nothing() {
    let mut vram: Frame<u16> = Frame::new(240, 160, 0x1234);
    let mut d = Mode3Display;
    d.draw_iter(&vec![Pixel(Point::new(240, 0), red())], &mut vram);
    assert_eq!(cells16(&vram, 240, 160), vec![0x1234u16; 240 * 160]);
}

#[test]
fn mode3_out_of_bounds_changes_nothing() {
    let mut vram: Frame<u16> = Frame::new(240, 160, 0x1234);
    let mut d = Mode3Display;
    let outside = vec![
        Pixel(Point::new(-1, 0), red()),
        Pixel(Point::new(0, -1), red()),
        Pixel(Point::new(0, 160), red()),
        Pixel(Point::new(240, 159), red()),
        Pixel(Point::new(i32::MIN, 5), red()),
        Pixel(Point::new(5, i32::MAX), red()),
    ];
    d.draw_iter(&outside, &mut vram);
    assert_eq!(cells16(&vram, 240, 160), vec![0x1234u16; 240 * 160]);
}

#[test]
fn mode3_clear_sets_every_cell() {
    let mut vram: Frame<u16> = Frame::new(240, 160, 0);
    let mut d = Mode3Display;
    d.draw_iter(&vec![Pixel(Point::new(3, 3), red())], &mut vram);
    d.clear(blue(), &mut vram);
    assert_eq!(cells16(&vram, 240, 160), vec![0x7C00u16; 240 * 160]);
}

#[test]
fn mode3_clear_equals_drawing_every_coordinate() {
    let c = DirectColor::new(1, 2, 3);
    let mut cleared: Frame<u16> = Frame::new(240, 160, 0);
    let mut drawn: Frame<u16> = Frame::new(240, 160, 0);
    let mut d = Mode3Display;
    d.clear(c, &mut cleared);
    let mut all = Vec::new();
    for y in 0..160 {
        for x in 0..240 {
            all.push(Pixel(Point::new(x, y), c));
        }
    }
    d.draw_iter(&all, &mut drawn);
    assert_eq!(cells16(&cleared, 240, 160), cells16(&drawn, 240, 160));
}

#[test]
fn mode3_target_of_a_pixel() {
    let d = Mode3Display;
    assert_eq!(d.target(&Pixel(Point::new(12, 34), red())), Some((12, 34, 0x001F)));
    assert_eq!(d.target(&Pixel(Point::new(240, 0), red())), None);
    assert_eq!(d.target(&Pixel(Point::new(0, -1), red())), None);
}

#[test]
fn mode4_size_and_target() {
    let d = Mode4Display { page: Page::Page0 };
    assert_eq!((d.size().width, d.size().height), (240, 160));
    assert_eq!(d.target(&Pixel(Point::new(239, 159), PaletteColor::new(200))), Some((239, 159, 200)));
    assert_eq!(d.target(&Pixel(Point::new(239, 160), PaletteColor::new(200))), None);
}

#[test]
fn mode4_draw_touches_only_its_page() {
    let mut vram: PagedFrame<u8> = PagedFrame::new(240, 160, 0);
    let mut d = Mode4Display { page: Page::Page1 };
    d.draw_iter(
        &vec![
            Pixel(Point::new(10, 20), PaletteColor::new(5)),
            Pixel(Point::new(240, 20), PaletteColor::new(6)),
            Pixel(Point::new(10, 20), PaletteColor::new(7)),
            Pixel(Point::new(0, 0), PaletteColor::new(255)),
        ],
        &mut vram,
    );
    assert_eq!(d.page, Page::Page1);
    assert_eq!(vram.read(Page::Page1, Point::new(10, 20)), Some(7));
    assert_eq!(vram.read(Page::Page1, Point::new(0, 0)), Some(255));
    assert_eq!(cells8(&vram.page1, 240, 160).iter().filter(|w| **w != 0).count(), 2);
    assert_eq!(cells8(&vram.page0, 240, 160), vec![0u8; 240 * 160]);

    let mut d0 = Mode4Display { page: Page::Page0 };
    d0.draw_iter(&vec![Pixel(Point::new(1, 1), PaletteColor::new(9))], &mut vram);
    assert_eq!(vram.read(Page::Page0, Point::new(1, 1)), Some(9));
    assert_eq!(vram.read(Page::Page1, Point::new(1, 1)), Some(0));
    assert_eq!(vram.read(Page::Page1, Point::new(10, 20)), Some(7));
}

#[test]
fn mode4_clear_touches_only_its_page() {
    let mut vram: PagedFrame<u8> = PagedFrame::new(240, 160, 1);
    let mut d = Mode4Display { page: Page::Page0 };
    d.clear(PaletteColor::new(42), &mut vram);
    assert_eq!(cells8(&vram.page0, 240, 160), vec![42u8; 240 * 160]);
    assert_eq!(cells8(&vram.page1, 240, 160), vec![1u8; 240 * 160]);
    let mut d = Mode4Display { page: Page::Page1 };
    d.clear(PaletteColor::transparent(), &mut vram);
    assert_eq!(cells8(&vram.page0, 240, 160), vec![42u8; 240 * 160]);
    assert_eq!(cells8(&vram.page1, 240, 160), vec![0u8; 240 * 160]);
}

#[test]
fn mode5_size_and_bounds() {
    let mut vram: PagedFrame<u16> = PagedFrame::new(160, 128, 0);
    let mut d = Mode5Display { page: Page::Page0 };
    assert_eq!((d.size().width, d.size().height), (160, 128));
    d.draw_iter(
        &vec![
            Pixel(Point::new(159, 127), red()),
            Pixel(Point::new(160, 0), blue()),
            Pixel(Point::new(0, 128), blue()),
            Pixel(Point::new(200, 100), blue()),
        ],
        &mut vram,
    );
    let cells = cells16(&vram.page0, 160, 128);
    assert_eq!(cells[127 * 160 + 159], 0x001F);
    assert_eq!(cells.iter().filter(|w| **w != 0).count(), 1);
    assert_eq!(cells16(&vram.page1, 160, 128), vec![0u16; 160 * 128]);
    assert_eq!(d.target(&Pixel(Point::new(159, 127), blue())), Some((159, 127, 0x7C00)));
    assert_eq!(d.target(&Pixel(Point::new(160, 127), blue())), None);
}

#[test]
fn mode5_pages_are_independent() {
    let mut vram: PagedFrame<u16> = PagedFrame::new(160, 128, 0);
    let mut d1 = Mode5Display { page: Page::Page1 };
    d1.clear(red(), &mut vram);
    assert_eq!(cells16(&vram.page1, 160, 128), vec![0x001Fu16; 160 * 128]);
    assert_eq!(cells16(&vram.page0, 160, 128), vec![0u16; 160 * 128]);
    d1.draw_iter(&vec![Pixel(Point::new(7, 7), blue())], &mut vram);
    assert_eq!(vram.read(Page::Page1, Point::new(7, 7)), Some(0x7C00));
    assert_eq!(vram.read(Page::Page0, Point::new(7, 7)), Some(0));
    let mut d0 = Mode5Display { page: Page::Page0 };
    d0.clear(blue(), &mut vram);
    assert_eq!(vram.read(Page::Page1, Point::new(0, 0)), Some(0x001F));
    assert_eq!(vram.read(Page::Page0, Point::new(0, 0)), Some(0x7C00));
}
