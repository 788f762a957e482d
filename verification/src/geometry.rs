//! Coordinates, sizes, and the rule that decides which coordinates a surface
//! of a given width and height holds.

use vstd::prelude::*;

verus! {

/// A coordinate on a surface. Both parts may be negative; no surface holds
/// such a point.
#[derive(Debug, Copy, Clone, PartialEq, Eq, Structural)]
pub struct Point {
    pub x: i32,
    pub y: i32,
}

/// The width and height of a surface.
#[derive(Debug, Copy, Clone, PartialEq, Eq, Structural)]
pub struct Size {
    pub width: u32,
    pub height: u32,
}

/// One drawing request: a color for a coordinate.
#[derive(Debug)]
pub struct Pixel<C>(pub Point, pub C);

/// A point lies on a surface when `0 <= x < width` and `0 <= y < height`.
pub open spec fn in_bounds(at: Point, width: int, height: int) -> bool {
    0 <= at.x < width && 0 <= at.y < height
}

/// The row-major number of the cell of a point on a surface `width` wide.
pub open spec fn cell_index(at: Point, width: int) -> int {
    at.y * width + at.x
}

/// What one write does to the cells of a surface: an in-bounds write replaces
/// the cell of its coordinate, any other write replaces nothing.
pub open spec fn plot<W>(cells: Seq<W>, width: int, height: int, at: Point, word: W) -> Seq<W> {
    if in_bounds(at, width, height) {
        cells.update(cell_index(at, width), word)
    } else {
        cells
    }
}

/// What a sequence of writes does, applied first to last.
pub open spec fn plot_all<W>(cells: Seq<W>, width: int, height: int, writes: Seq<(Point, W)>) -> Seq<
    W,
>
    decreases writes.len(),
{
    if writes.len() == 0 {
        cells
    } else {
        plot(
            plot_all(cells, width, height, writes.drop_last()),
            width,
            height,
            writes.last().0,
            writes.last().1,
        )
    }
}

impl Point {
    pub fn new(x: i32, y: i32) -> (p: Self)
        ensures
            p.x == x,
            p.y == y,
    {
        Point { x, y }
    }

    /// The column and row of the point on a surface of the given size, or
    /// `None` where the surface does not hold the point.
    pub fn clip(self, width: u32, height: u32) -> (r: Option<(u32, u32)>)
        ensures
            r.is_some() <==> in_bounds(self, width as int, height as int),
            r matches Some((x, y)) ==> x == self.x && y == self.y,
    {
        if self.x < 0 || self.y < 0 {
            return None;
        }
        let x: u32 = self.x as u32;
        let y: u32 = self.y as u32;
        if x < width && y < height {
            Some((x, y))
        } else {
            None
        }
    }
}

impl Size {
    pub fn new(width: u32, height: u32) -> (s: Self)
        ensures
            s.width == width,
            s.height == height,
    {
        Size { width, height }
    }
}

/// Inside a surface, the cell number of a point is below the number of cells,
/// and two points with the same cell number are the same point.
pub proof fn lemma_cell_index(at: Point, other: Point, width: int, height: int)
    requires
        in_bounds(at, width, height),
        in_bounds(other, width, height),
    ensures
        0 <= at.y * width <= cell_index(at, width) < width * height,
        cell_index(at, width) == cell_index(other, width) ==> at == other,
{
    let ay: int = at.y as int;
    let ax: int = at.x as int;
    let oy: int = other.y as int;
    let ox: int = other.x as int;
    assert(0 <= ay * width && ay * width + width <= height * width && width * height == height
        * width) by (nonlinear_arith)
        requires
            0 <= ay < height,
            0 < width,
    ;
    assert(ay * width + ax == oy * width + ox ==> ay == oy) by (nonlinear_arith)
        requires
            0 <= ax < width,
            0 <= ox < width,
    ;
}

/// A single write is the whole of a sequence of one write.
pub proof fn lemma_plot_all_one<W>(cells: Seq<W>, width: int, height: int, at: Point, word: W)
    ensures
        plot_all(cells, width, height, seq![(at, word)]) == plot(cells, width, height, at, word),
{
    let writes: Seq<(Point, W)> = seq![(at, word)];
    assert(writes.drop_last() =~= Seq::empty());
    assert(plot_all(cells, width, height, writes.drop_last()) == cells);
}

/// Writes never change the number of cells of a surface.
pub proof fn lemma_plot_all_len<W>(cells: Seq<W>, width: int, height: int, writes: Seq<(Point, W)>)
    requires
        cells.len() == width * height,
    ensures
        plot_all(cells, width, height, writes).len() == cells.len(),
    decreases writes.len(),
{
    if writes.len() > 0 {
        lemma_plot_all_len(cells, width, height, writes.drop_last());
        if in_bounds(writes.last().0, width, height) {
            lemma_cell_index(writes.last().0, writes.last().0, width, height);
        }
    }
}

/// An in-bounds write puts its word into the cell of its coordinate and
/// leaves the cell of every other coordinate as it was.
pub proof fn lemma_plot_inside<W>(
    cells: Seq<W>,
    width: int,
    height: int,
    at: Point,
    word: W,
    other: Point,
)
    requires
        cells.len() == width * height,
        in_bounds(at, width, height),
        in_bounds(other, width, height),
    ensures
        plot(cells, width, height, at, word)[cell_index(at, width)] == word,
        other != at ==> plot(cells, width, height, at, word)[cell_index(other, width)]
            == cells[cell_index(other, width)],
{
    lemma_cell_index(at, other, width, height);
    lemma_cell_index(other, at, width, height);
}

/// Writes that all lie outside the bounds leave every cell unchanged.
pub proof fn lemma_plot_all_outside<W>(
    cells: Seq<W>,
    width: int,
    height: int,
    writes: Seq<(Point, W)>,
)
    requires
        forall|i: int| 0 <= i < writes.len() ==> !in_bounds(#[trigger] writes[i].0, width, height),
    ensures
        plot_all(cells, width, height, writes) == cells,
    decreases writes.len(),
{
    if writes.len() > 0 {
        let rest: Seq<(Point, W)> = writes.drop_last();
        assert forall|i: int| 0 <= i < rest.len() implies !in_bounds(
            #[trigger] rest[i].0,
            width,
            height,
        ) by {
            assert(rest[i] == writes[i]);
        }
        lemma_plot_all_outside(cells, width, height, rest);
        assert(!in_bounds(writes[writes.len() - 1].0, width, height));
    }
}

/// The last write wins: after any sequence of writes that ends with an
/// in-bounds write, the cell of that write holds its word.
pub proof fn lemma_last_write_wins<W>(
    cells: Seq<W>,
    width: int,
    height: int,
    writes: Seq<(Point, W)>,
    at: Point,
    word: W,
)
    requires
        cells.len() == width * height,
        in_bounds(at, width, height),
    ensures
        plot_all(cells, width, height, writes.push((at, word)))[cell_index(at, width)] == word,
{
    let all: Seq<(Point, W)> = writes.push((at, word));
    assert(all.drop_last() =~= writes);
    lemma_plot_all_len(cells, width, height, writes);
    lemma_plot_inside(plot_all(cells, width, height, writes), width, height, at, word, at);
}

/// Every cell inside the bounds of a surface whose cells all hold one word
/// holds that word.
pub proof fn lemma_filled_cell<W>(width: int, height: int, word: W, at: Point)
    requires
        in_bounds(at, width, height),
    ensures
        0 <= cell_index(at, width) < width * height,
        Seq::new((width * height) as nat, |i: int| word)[cell_index(at, width)] == word,
{
    lemma_cell_index(at, at, width, height);
}

/// The word of the last write of a sequence that goes to a given point, or
/// `None` where no write of the sequence goes there.
pub open spec fn last_write_at<W>(writes: Seq<(Point, W)>, at: Point) -> Option<W>
    decreases writes.len(),
{
    if writes.len() == 0 {
        None
    } else if writes.last().0 == at {
        Some(writes.last().1)
    } else {
        last_write_at(writes.drop_last(), at)
    }
}

/// What a cell holds after a sequence of writes: the word of the last write
/// to its coordinate, and what it held before where there was none.
pub proof fn lemma_plot_all_cell<W>(
    cells: Seq<W>,
    width: int,
    height: int,
    writes: Seq<(Point, W)>,
    at: Point,
)
    requires
        cells.len() == width * height,
        in_bounds(at, width, height),
    ensures
        plot_all(cells, width, height, writes)[cell_index(at, width)] == (match last_write_at(
            writes,
            at,
        ) {
            Some(word) => word,
            None => cells[cell_index(at, width)],
        }),
    decreases writes.len(),
{
    if writes.len() > 0 {
        let rest: Seq<(Point, W)> = writes.drop_last();
        let before: Seq<W> = plot_all(cells, width, height, rest);
        lemma_plot_all_cell(cells, width, height, rest, at);
        lemma_plot_all_len(cells, width, height, rest);
        let last: (Point, W) = writes.last();
        if in_bounds(last.0, width, height) {
            lemma_plot_inside(before, width, height, last.0, last.1, at);
        }
    }
}

/// Clearing is drawing everywhere: a sequence of writes that all store one
/// word, and that goes to every coordinate of a surface, leaves that word in
/// every cell.
pub proof fn lemma_draw_everywhere<W>(
    cells: Seq<W>,
    width: int,
    height: int,
    writes: Seq<(Point, W)>,
    word: W,
)
    requires
        cells.len() == width * height,
        0 <= width <= i32::MAX,
        0 <= height <= i32::MAX,
        forall|i: int| 0 <= i < writes.len() ==> (#[trigger] writes[i]).1 == word,
        forall|at: Point|
            in_bounds(at, width, height) ==> exists|i: int|
                0 <= i < writes.len() && (#[trigger] writes[i]).0 == at,
    ensures
        plot_all(cells, width, height, writes) == Seq::new((width * height) as nat, |i: int| word),
{
    let after: Seq<W> = plot_all(cells, width, height, writes);
    lemma_plot_all_len(cells, width, height, writes);
    assert forall|c: int| 0 <= c < after.len() implies after[c] == word by {
        assert(width > 0) by (nonlinear_arith)
            requires
                0 <= c < width * height,
                0 <= width,
                0 <= height,
        ;
        let x: int = c % width;
        let y: int = c / width;
        assert(0 <= y < height && c == y * width + x) by (nonlinear_arith)
            requires
                0 <= c < width * height,
                0 < width,
                x == c % width,
                y == c / width,
        ;
        let at: Point = Point { x: x as i32, y: y as i32 };
        assert(in_bounds(at, width, height));
        assert(cell_index(at, width) == c);
        lemma_plot_all_cell(cells, width, height, writes, at);
        let i: int = choose|i: int| 0 <= i < writes.len() && (#[trigger] writes[i]).0 == at;
        lemma_last_write_found(writes, at, i);
    }
    assert(after =~= Seq::new((width * height) as nat, |i: int| word));
}

/// A point that some write of a sequence goes to has a last write, and its
/// word is that of one of the writes to the point.
pub proof fn lemma_last_write_found<W>(writes: Seq<(Point, W)>, at: Point, i: int)
    requires
        0 <= i < writes.len(),
        writes[i].0 == at,
    ensures
        exists|j: int|
            i <= j < writes.len() && (#[trigger] writes[j]).0 == at && last_write_at(writes, at)
                == Some(writes[j].1),
    decreases writes.len(),
{
    if writes.last().0 == at {
        assert(writes[writes.len() - 1].0 == at);
    } else {
        let rest: Seq<(Point, W)> = writes.drop_last();
        lemma_last_write_found(rest, at, i);
        let j: int = choose|j: int|
            i <= j < rest.len() && (#[trigger] rest[j]).0 == at && last_write_at(rest, at) == Some(
                rest[j].1,
            );
        assert(writes[j] == rest[j]);
    }
}

} // verus!
