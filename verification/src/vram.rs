//! Video memory as the surfaces see it: a rectangle of storage cells, one
//! per pixel, and a pair of such rectangles for the modes that have two pages.

use crate::geometry::{cell_index, in_bounds, lemma_cell_index, plot, Point, Size};
use vstd::prelude::*;

verus! {

/// Which of the two buffers of a double-buffered mode a surface draws to.
#[derive(Debug, Copy, Clone, PartialEq, Eq, Structural)]
pub enum Page {
    Page0,
    Page1,
}

impl Page {
    /// The page that this one is not.
    pub open spec fn other_page(self) -> Page {
        match self {
            Page::Page0 => Page::Page1,
            Page::Page1 => Page::Page0,
        }
    }

    pub fn other(self) -> (p: Page)
        ensures
            p == self.other_page(),
    {
        match self {
            Page::Page0 => Page::Page1,
            Page::Page1 => Page::Page0,
        }
    }
}

/// A rectangle of storage cells, kept row by row.
pub struct Frame<W> {
    width: u32,
    height: u32,
    cells: Vec<W>,
}

impl<W: Copy> View for Frame<W> {
    type V = Seq<W>;

    /// The cells, row by row: the cell of `(x, y)` is number `y * width + x`.
    closed spec fn view(&self) -> Seq<W> {
        self.cells@
    }
}

impl<W: Copy> Frame<W> {
    pub closed spec fn width(&self) -> int {
        self.width as int
    }

    pub closed spec fn height(&self) -> int {
        self.height as int
    }

    /// A frame holds one cell for each coordinate inside its bounds.
    pub closed spec fn wf(&self) -> bool {
        self.cells@.len() == self.width * self.height
    }

    /// The frame is well formed and has the given width and height.
    pub open spec fn is_sized(&self, width: int, height: int) -> bool {
        self.wf() && self.width() == width && self.height() == height
    }

    /// The number of cells of a well-formed frame.
    pub proof fn lemma_len(&self)
        requires
            self.wf(),
        ensures
            self@.len() == self.width() * self.height(),
            0 <= self.width(),
            0 <= self.height(),
    {
    }

    /// A frame of the given size with every cell set to `word`.
    pub fn new(width: u32, height: u32, word: W) -> (f: Self)
        requires
            width * height <= usize::MAX,
        ensures
            f.is_sized(width as int, height as int),
            f@ == Seq::new((width * height) as nat, |i: int| word),
    {
        assert(0 <= width * height) by (nonlinear_arith);
        let n: usize = width as usize * height as usize;
        let mut cells: Vec<W> = Vec::new();
        let mut i: usize = 0;
        while i < n
            invariant
                i <= n,
                cells@ == Seq::new(i as nat, |j: int| word),
            decreases n - i,
        {
            cells.push(word);
            i += 1;
            assert(cells@ =~= Seq::new(i as nat, |j: int| word));
        }
        Frame { width, height, cells }
    }

    pub fn size(&self) -> (s: Size)
        ensures
            s.width == self.width(),
            s.height == self.height(),
    {
        Size::new(self.width, self.height)
    }

    /// The word in the cell of a coordinate, or `None` outside the frame.
    pub fn read(&self, at: Point) -> (r: Option<W>)
        requires
            self.wf(),
        ensures
            r == (if in_bounds(at, self.width(), self.height()) {
                Some(self@[cell_index(at, self.width())])
            } else {
                None::<W>
            }),
    {
        match at.clip(self.width, self.height) {
            Some((x, y)) => {
                let n: usize = self.cells.len();
                proof {
                    lemma_cell_index(at, at, self.width as int, self.height as int);
                    assert(y * self.width + x < n);
                }
                let i: usize = y as usize * self.width as usize + x as usize;
                Some(self.cells[i])
            },
            None => None,
        }
    }

    /// Writes a word to the cell of a coordinate inside the frame; a
    /// coordinate outside of it changes nothing.
    pub fn write(&mut self, at: Point, word: W)
        requires
            old(self).wf(),
        ensures
            final(self).is_sized(old(self).width(), old(self).height()),
            final(self)@ == plot(old(self)@, old(self).width(), old(self).height(), at, word),
    {
        match at.clip(self.width, self.height) {
            Some((x, y)) => {
                let n: usize = self.cells.len();
                proof {
                    lemma_cell_index(at, at, self.width as int, self.height as int);
                    assert(y * self.width + x < n);
                }
                let i: usize = y as usize * self.width as usize + x as usize;
                self.cells.set(i, word);
            },
            None => {},
        }
    }

    /// Sets every cell to `word`.
    pub fn fill(&mut self, word: W)
        requires
            old(self).wf(),
        ensures
            final(self).is_sized(old(self).width(), old(self).height()),
            final(self)@ == Seq::new(old(self)@.len(), |i: int| word),
    {
        let n: usize = self.cells.len();
        let mut i: usize = 0;
        while i < n
            invariant
                i <= n,
                n == self.cells@.len(),
                self.width == old(self).width,
                self.height == old(self).height,
                self.cells@.len() == old(self).cells@.len(),
                forall|j: int| 0 <= j < i ==> self.cells@[j] == word,
            decreases n - i,
        {
            self.cells.set(i, word);
            i += 1;
        }
        assert(self.cells@ =~= Seq::new(old(self).cells@.len(), |i: int| word));
    }
}

/// The two pages of a double-buffered mode.
pub struct PagedFrame<W> {
    pub page0: Frame<W>,
    pub page1: Frame<W>,
}

impl<W: Copy> PagedFrame<W> {
    /// The frame of a page.
    pub open spec fn page(&self, page: Page) -> Frame<W> {
        match page {
            Page::Page0 => self.page0,
            Page::Page1 => self.page1,
        }
    }

    /// Both pages are well formed and have the given width and height.
    pub open spec fn is_sized(&self, width: int, height: int) -> bool {
        self.page0.is_sized(width, height) && self.page1.is_sized(width, height)
    }

    /// Two pages of the given size with every cell set to `word`.
    pub fn new(width: u32, height: u32, word: W) -> (f: Self)
        requires
            width * height <= usize::MAX,
        ensures
            f.is_sized(width as int, height as int),
            f.page0@ == Seq::new((width * height) as nat, |i: int| word),
            f.page1@ == Seq::new((width * height) as nat, |i: int| word),
    {
        PagedFrame { page0: Frame::new(width, height, word), page1: Frame::new(width, height, word) }
    }

    /// The word that a page holds at a coordinate, or `None` outside of it.
    pub fn read(&self, page: Page, at: Point) -> (r: Option<W>)
        requires
            self.page0.wf(),
            self.page1.wf(),
        ensures
            r == (if in_bounds(at, self.page(page).width(), self.page(page).height()) {
                Some(self.page(page)@[cell_index(at, self.page(page).width())])
            } else {
                None::<W>
            }),
    {
        match page {
            Page::Page0 => self.page0.read(at),
            Page::Page1 => self.page1.read(at),
        }
    }
}

} // verus!
