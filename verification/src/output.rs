//! The output-side data model: positions, colors, formatted text, and the
//! character grid a host renders into.

use vstd::prelude::*;

verus! {

/// A position or size on the character grid: column then row.
#[derive(Clone, Copy, PartialEq, Eq, Structural, Debug)]
pub struct XY(pub usize, pub usize);

impl XY {
    /// The horizontal component.
    pub fn x(&self) -> (r: usize)
        ensures
            r == self.0,
    {
        self.0
    }

    /// The vertical component.
    pub fn y(&self) -> (r: usize)
        ensures
            r == self.1,
    {
        self.1
    }
}

/// The palette a cell or text run can name.
#[derive(Clone, Copy, PartialEq, Eq, Structural, Debug)]
pub enum Color {
    Black,
    Red,
    Green,
    Yellow,
    Blue,
    Magenta,
    Cyan,
    White,
    BrightBlack,
    BrightRed,
    BrightGreen,
    BrightYellow,
    BrightBlue,
    BrightMagenta,
    BrightCyan,
    BrightWhite,
}

/// A run of characters with one set of formatting.
#[derive(Clone, PartialEq, Debug)]
pub struct Text {
    pub text: String,
    pub fg: Option<Color>,
    pub bg: Option<Color>,
    pub bold: bool,
    pub underline: bool,
    pub invert: bool,
}

impl Text {
    /// An owned run with no formatting.
    pub fn of(text: String) -> (t: Text)
        ensures
            t.text == text,
            t.fg is None,
            t.bg is None,
            !t.bold,
            !t.underline,
            !t.invert,
    {
        Text { text, fg: None, bg: None, bold: false, underline: false, invert: false }
    }

    /// A borrowed run with no formatting.
    pub fn plain(text: &str) -> (t: Text)
        ensures
            t.text@ == text@,
            t.fg is None,
            t.bg is None,
            !t.bold,
            !t.underline,
            !t.invert,
    {
        Text::of(text.to_owned())
    }

    /// The same run with its foreground set.
    pub fn fg(self, c: Color) -> (t: Text)
        ensures
            t == (Text { fg: Some(c), ..self }),
    {
        Text { fg: Some(c), ..self }
    }

    /// The same run with its background set.
    pub fn bg(self, c: Color) -> (t: Text)
        ensures
            t == (Text { bg: Some(c), ..self }),
    {
        Text { bg: Some(c), ..self }
    }

    /// The same run in bold.
    pub fn bold(self) -> (t: Text)
        ensures
            t == (Text { bold: true, ..self }),
    {
        Text { bold: true, ..self }
    }

    /// The same run underlined.
    pub fn underline(self) -> (t: Text)
        ensures
            t == (Text { underline: true, ..self }),
    {
        Text { underline: true, ..self }
    }

    /// The same run with foreground and background swapped at draw time.
    pub fn invert(self) -> (t: Text)
        ensures
            t == (Text { invert: true, ..self }),
    {
        Text { invert: true, ..self }
    }
}

/// One character of the grid, with its formatting.
#[derive(Clone, Copy, PartialEq, Eq, Structural, Debug)]
pub struct Cell {
    pub ch: char,
    pub fg: Option<Color>,
    pub bg: Option<Color>,
    pub bold: bool,
    pub underline: bool,
    pub invert: bool,
}

/// The cell holding `ch` with no formatting.
pub open spec fn plain_cell(ch: char) -> Cell {
    Cell { ch, fg: None, bg: None, bold: false, underline: false, invert: false }
}

/// The blank cell the grid is cleared to.
pub open spec fn blank_cell() -> Cell {
    plain_cell(' ')
}

impl Cell {
    /// A cell holding `ch` with no formatting.
    pub fn plain(ch: char) -> (c: Cell)
        ensures
            c == plain_cell(ch),
    {
        Cell { ch, fg: None, bg: None, bold: false, underline: false, invert: false }
    }

    /// The blank cell the grid is cleared to.
    pub fn blank() -> (c: Cell)
        ensures
            c == blank_cell(),
    {
        Cell::plain(' ')
    }
}

/// The character grid a host renders into: `size().1` rows of `size().0`
/// cells each.
pub struct Screen {
    cells: Vec<Vec<Cell>>,
    width: usize,
}

impl Screen {
    /// Every row is exactly `width` cells wide.
    pub closed spec fn wf(&self) -> bool {
        forall|r: int| 0 <= r < self.cells@.len() ==> (#[trigger] self.cells@[r])@.len() == self.width
    }

    /// The grid's size: columns then rows.
    pub closed spec fn spec_size(&self) -> XY {
        XY(self.width, self.cells@.len() as usize)
    }

    /// The cell at column `x` of row `y`.
    pub closed spec fn cell_at(&self, x: int, y: int) -> Cell {
        self.cells@[y]@[x]
    }

    /// A blank grid of the given size.
    pub fn new(size: XY) -> (s: Screen)
        ensures
            s.wf(),
            s.spec_size() == size,
            forall|x: int, y: int|
                0 <= x < size.0 && 0 <= y < size.1 ==> #[trigger] s.cell_at(x, y) == blank_cell(),
    {
        let row: Vec<Cell> = vec![Cell::blank(); size.0];
        let cells: Vec<Vec<Cell>> = vec![row; size.1];
        Screen { cells, width: size.0 }
    }

    /// The current size: columns then rows.
    pub fn size(&self) -> (r: XY)
        ensures
            r == self.spec_size(),
    {
        XY(self.width, self.cells.len())
    }

    /// Throw the contents away and make the grid blank at the new size.
    pub fn resize(&mut self, size: XY)
        ensures
            final(self).wf(),
            final(self).spec_size() == size,
            forall|x: int, y: int|
                0 <= x < size.0 && 0 <= y < size.1 ==> #[trigger] final(self).cell_at(x, y) == blank_cell(),
    {
        let s = Screen::new(size);
        *self = s;
    }

    /// Read one cell.
    pub fn cell(&self, x: usize, y: usize) -> (c: Cell)
        requires
            self.wf(),
            x < self.spec_size().0,
            y < self.spec_size().1,
        ensures
            c == self.cell_at(x as int, y as int),
    {
        self.cells[y][x]
    }

    /// Overwrite one cell, leaving every other cell as it was.
    pub fn set_cell(&mut self, x: usize, y: usize, c: Cell)
        requires
            old(self).wf(),
            x < old(self).spec_size().0,
            y < old(self).spec_size().1,
        ensures
            final(self).wf(),
            final(self).spec_size() == old(self).spec_size(),
            final(self).cell_at(x as int, y as int) == c,
            forall|i: int, j: int|
                0 <= i < old(self).spec_size().0 && 0 <= j < old(self).spec_size().1
                    && !(i == x && j == y) ==> #[trigger] final(self).cell_at(i, j) == old(
                self,
            ).cell_at(i, j),
    {
        let row = &mut self.cells[y];
        row.set(x, c);
    }
}



/// A horizontal rule across one row of a screen: a builder for where it
/// starts and ends and which character it is drawn with, applied with
/// [`Horizontal::apply`].
pub struct Horizontal {
    row: usize,
    start: Option<usize>,
    end: Option<usize>,
    fill: char,
}

impl Horizontal {
    /// Where the rule starts: the set start, or the left edge.
    pub closed spec fn start_at(&self) -> int {
        match self.start {
            Some(s) => s as int,
            None => 0,
        }
    }

    /// Where the rule ends on a grid `width` columns wide: the set end, or
    /// the right edge.
    pub closed spec fn end_at(&self, width: int) -> int {
        match self.end {
            Some(e) => e as int,
            None => width,
        }
    }

    /// The row the rule crosses.
    pub closed spec fn row_at(&self) -> int {
        self.row as int
    }

    /// The character the rule is drawn with.
    pub closed spec fn fill_char(&self) -> char {
        self.fill
    }

    /// A rule across row `row`, from edge to edge, drawn with dashes until
    /// configured otherwise.
    pub fn new(row: usize) -> (r: Horizontal)
        ensures
            r.row_at() == row,
            r.start_at() == 0,
            forall|w: int| r.end_at(w) == w,
            r.fill_char() == '-',
    {
        Horizontal { row, start: None, end: None, fill: '-' }
    }

    /// Start the rule at column `x`.
    pub fn start(self, x: usize) -> (r: Horizontal)
        ensures
            r.start_at() == x,
            forall|w: int| r.end_at(w) == self.end_at(w),
            r.row_at() == self.row_at(),
            r.fill_char() == self.fill_char(),
    {
        Horizontal { start: Some(x), ..self }
    }

    /// End the rule just before column `x`.
    pub fn end(self, x: usize) -> (r: Horizontal)
        ensures
            forall|w: int| r.end_at(w) == x,
            r.start_at() == self.start_at(),
            r.row_at() == self.row_at(),
            r.fill_char() == self.fill_char(),
    {
        Horizontal { end: Some(x), ..self }
    }

    /// Draw the rule with `ch` instead of dashes.
    pub fn fill(self, ch: char) -> (r: Horizontal)
        ensures
            r.fill_char() == ch,
            r.start_at() == self.start_at(),
            forall|w: int| r.end_at(w) == self.end_at(w),
            r.row_at() == self.row_at(),
    {
        Horizontal { fill: ch, ..self }
    }

    /// Draw the rule onto the screen: every cell of the row from the start
    /// (inclusive) to the end (exclusive) becomes the fill character, and no
    /// other cell changes.
    pub fn apply(&self, screen: &mut Screen)
        requires
            old(screen).wf(),
            self.row_at() < old(screen).spec_size().1,
            self.end_at(old(screen).spec_size().0 as int) <= old(screen).spec_size().0,
        ensures
            final(screen).wf(),
            final(screen).spec_size() == old(screen).spec_size(),
            forall|x: int, y: int|
                0 <= x < old(screen).spec_size().0 && 0 <= y < old(screen).spec_size().1 ==> (
                #[trigger] final(screen).cell_at(x, y)) == (if y == self.row_at() && self.start_at()
                    <= x < self.end_at(old(screen).spec_size().0 as int) {
                    plain_cell(self.fill_char())
                } else {
                    old(screen).cell_at(x, y)
                }),
    {
        let width = screen.size().x();
        let start_x = match self.start {
            Some(s) => s,
            None => 0,
        };
        let end_x = match self.end {
            Some(e) => e,
            None => width,
        };
        if start_x >= end_x {
            return ;
        }
        let mut x = start_x;
        while x < end_x
            invariant
                x <= end_x,
                screen.wf(),
                screen.spec_size() == old(screen).spec_size(),
                end_x as int == self.end_at(old(screen).spec_size().0 as int),
                start_x as int == self.start_at(),
                end_x <= old(screen).spec_size().0,
                self.row_at() < old(screen).spec_size().1,
                start_x <= x,
                forall|i: int, j: int|
                    0 <= i < old(screen).spec_size().0 && 0 <= j < old(screen).spec_size().1 ==> (
                    #[trigger] screen.cell_at(i, j)) == (if j == self.row_at() && start_x <= i
                        < x {
                        plain_cell(self.fill_char())
                    } else {
                        old(screen).cell_at(i, j)
                    }),
            decreases end_x - x,
        {
            screen.set_cell(x, self.row, Cell::plain(self.fill));
            x = x + 1;
        }
        proof {
            assert forall|i: int, j: int|
                0 <= i < old(screen).spec_size().0 && 0 <= j < old(
                    screen,
                ).spec_size().1 implies (#[trigger] screen.cell_at(i, j)) == (if j == self.row_at()
                && self.start_at() <= i < self.end_at(old(screen).spec_size().0 as int) {
                plain_cell(self.fill_char())
            } else {
                old(screen).cell_at(i, j)
            }) by {
                assert(!(x < end_x));
            }
        }
    }
}


} // verus!
