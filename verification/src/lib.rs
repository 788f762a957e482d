//! Drawing surfaces for the bitmap video modes and the 8x8 tile formats of a
//! memory-mapped handheld video unit.
//!
//! Every surface turns "this color at this coordinate" into the storage word
//! and the storage cell of its mode, and clips coordinates that lie outside
//! of it. Video memory itself is modelled by [`vram::Frame`], a rectangle of
//! storage cells, so that what a drawing call does to memory is stated and
//! proved cell by cell.

pub mod color;
pub mod geometry;
pub mod packing;
pub mod vram;
pub mod bitmap;
pub mod tile;

pub use crate::bitmap::{Mode3Display, Mode4Display, Mode5Display};
pub use crate::color::{DirectColor, PaletteColor};
pub use crate::geometry::{Pixel, Point, Size};
pub use crate::tile::{Tile4bpp, Tile4bppDisplay, Tile8bpp, Tile8bppDisplay};
pub use crate::vram::{Frame, Page, PagedFrame};
