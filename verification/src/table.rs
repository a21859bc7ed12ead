//! Plain-text tables: columns as wide as their widest cell, one space
//! between columns, one line per row.

use vstd::prelude::*;
use crate::text::{push_spaces, spaces};

verus! {

/// On which side of its column a cell stands.
#[derive(Clone, Copy, Debug, PartialEq, Eq, Structural)]
pub enum Align {
    Left,
    Right,
}

/// A cell: its text, and the number of terminal columns the text takes.
#[derive(Clone, Debug, PartialEq, Eq)]
pub struct Cell {
    pub text: String,
    pub width: usize,
}

/// A cell as a mathematical value.
pub struct CellView {
    pub text: Seq<char>,
    pub width: nat,
}

impl View for Cell {
    type V = CellView;

    open spec fn view(&self) -> CellView {
        CellView { text: self.text@, width: self.width as nat }
    }
}

impl DeepView for Cell {
    type V = CellView;

    open spec fn deep_view(&self) -> CellView {
        self@
    }
}

/// The width of column `c`: that of its widest cell, and zero without rows.
pub open spec fn column_width(rows: Seq<Seq<CellView>>, c: int) -> nat
    decreases rows.len(),
{
    if rows.len() == 0 {
        0
    } else {
        let above = column_width(rows.drop_last(), c);
        let here = rows.last()[c].width;
        if here > above {
            here
        } else {
            above
        }
    }
}

/// The spaces that fill a cell up to the width of its column.
pub open spec fn padding(cell: CellView, width: nat) -> Seq<char> {
    if width > cell.width {
        spaces((width - cell.width) as nat)
    } else {
        Seq::empty()
    }
}

/// A cell as it stands in its line. A left-aligned cell in the last column
/// is not filled up, so no line ends in padding.
pub open spec fn cell_text(cell: CellView, width: nat, align: Align, last: bool) -> Seq<char> {
    match align {
        Align::Left => if last {
            cell.text
        } else {
            cell.text + padding(cell, width)
        },
        Align::Right => padding(cell, width) + cell.text,
    }
}

/// What stands before column `c`: nothing before the first, one space
/// before each other.
pub open spec fn separator(c: int) -> Seq<char> {
    if c > 0 {
        seq![' ']
    } else {
        Seq::empty()
    }
}

/// The first `n` columns of row `r`.
pub open spec fn line_prefix(aligns: Seq<Align>, rows: Seq<Seq<CellView>>, r: int, n: int) -> Seq<
    char,
>
    decreases n,
{
    if n <= 0 {
        Seq::empty()
    } else {
        line_prefix(aligns, rows, r, n - 1) + separator(n - 1) + cell_text(
            rows[r][n - 1],
            column_width(rows, n - 1),
            aligns[n - 1],
            n == aligns.len(),
        )
    }
}

/// Row `r` as a line, with the newline that ends it.
pub open spec fn line_text(aligns: Seq<Align>, rows: Seq<Seq<CellView>>, r: int) -> Seq<char> {
    line_prefix(aligns, rows, r, aligns.len() as int).push('\n')
}

/// The first `n` lines of the table.
pub open spec fn table_prefix(aligns: Seq<Align>, rows: Seq<Seq<CellView>>, n: int) -> Seq<char>
    decreases n,
{
    if n <= 0 {
        Seq::empty()
    } else {
        table_prefix(aligns, rows, n - 1) + line_text(aligns, rows, n - 1)
    }
}

/// The whole table: its rows in order, one line each.
pub open spec fn table_text(aligns: Seq<Align>, rows: Seq<Seq<CellView>>) -> Seq<char> {
    table_prefix(aligns, rows, rows.len() as int)
}

/// Whether every row has one cell per column.
pub open spec fn rectangular(columns: nat, rows: Seq<Seq<CellView>>) -> bool {
    forall|r: int| 0 <= r < rows.len() ==> (#[trigger] rows[r]).len() == columns
}

/// A column is as wide as its widest cell: no cell is wider, some cell is
/// exactly as wide, and a column without cells has width zero.
pub proof fn lemma_column_width_is_max(rows: Seq<Seq<CellView>>, c: int)
    ensures
        forall|r: int| 0 <= r < rows.len() ==> (#[trigger] rows[r])[c].width <= column_width(rows, c),
        rows.len() == 0 ==> column_width(rows, c) == 0,
        rows.len() > 0 ==> exists|r: int|
            0 <= r < rows.len() && (#[trigger] rows[r])[c].width == column_width(rows, c),
    decreases rows.len(),
{
    if rows.len() > 0 {
        let above = rows.drop_last();
        lemma_column_width_is_max(above, c);
        assert forall|r: int| 0 <= r < rows.len() implies (#[trigger] rows[r])[c].width
            <= column_width(rows, c) by {
            if r < rows.len() - 1 {
                assert(above[r] == rows[r]);
            }
        }
        if rows.last()[c].width == column_width(rows, c) {
            assert(rows[rows.len() - 1][c].width == column_width(rows, c));
        } else {
            let r = choose|r: int|
                0 <= r < above.len() && (#[trigger] above[r])[c].width == column_width(above, c);
            assert(above[r] == rows[r]);
        }
    }
}

/// The text of a cell measured in terminal columns, as the outside crate
/// `unicode-width` counts them.
pub uninterp spec fn display_width(text: Seq<char>) -> usize;

/// A text as a cell that is as wide as the text is displayed.
pub open spec fn measured(text: Seq<char>) -> CellView {
    CellView { text, width: display_width(text) as nat }
}

/// `UnicodeWidthStr::width` of `unicode-width`: the displayed width of
/// `text` in columns, which depends on the characters of `text` alone.
#[verifier::external_body]
fn measure(text: &str) -> (width: usize)
    ensures
        width == display_width(text@),
{
    unicode_width::UnicodeWidthStr::width(text)
}

impl Cell {
    /// A cell of `text` that counts as `width` columns wide.
    pub fn new(text: String, width: usize) -> (cell: Cell)
        ensures
            cell@ == (CellView { text: text@, width: width as nat }),
    {
        Cell { text, width }
    }

    /// A cell of `text`, as wide as the text is displayed.
    pub fn measured(text: String) -> (cell: Cell)
        ensures
            cell@ == measured(text@),
    {
        let width = measure(text.as_str());
        Cell { text, width }
    }
}

/// A table under construction: the alignment of each column, and the rows
/// added so far. Every row has one cell per column.
pub struct Table {
    aligns: Vec<Align>,
    rows: Vec<Vec<Cell>>,
}

impl Table {
    /// Whether every row has one cell per column. `new` makes such a
    /// table and `add_row` keeps it so.
    pub closed spec fn wf(&self) -> bool {
        forall|r: int|
            0 <= r < self.rows@.len() ==> (#[trigger] self.rows@[r])@.len() == self.aligns@.len()
    }

    /// The alignment of each column.
    pub closed spec fn aligns(&self) -> Seq<Align> {
        self.aligns@
    }

    /// The rows, in the order in which they were added.
    pub closed spec fn rows(&self) -> Seq<Seq<CellView>> {
        self.rows.deep_view()
    }

    /// A table without rows, with one column per element of `aligns`.
    pub fn new(aligns: Vec<Align>) -> (table: Table)
        ensures
            table.wf(),
            table.aligns() == aligns@,
            table.rows() == Seq::<Seq<CellView>>::empty(),
    {
        let table = Table { aligns, rows: Vec::new() };
        assert(table.rows.deep_view() =~= Seq::<Seq<CellView>>::empty());
        table
    }

    /// The number of columns.
    pub fn column_count(&self) -> (n: usize)
        ensures
            n == self.aligns().len(),
    {
        self.aligns.len()
    }

    /// Adds `row` below the rows that are there.
    pub fn add_row(&mut self, row: Vec<Cell>)
        requires
            old(self).wf(),
            row@.len() == old(self).aligns().len(),
        ensures
            final(self).wf(),
            final(self).aligns() == old(self).aligns(),
            final(self).rows() == old(self).rows().push(row.deep_view()),
    {
        let ghost before = self.rows.deep_view();
        let ghost added = row.deep_view();
        self.rows.push(row);
        assert(self.rows.deep_view() =~= before.push(added));
    }

    /// In a well-formed table every row has one cell per column.
    pub proof fn lemma_rectangular(&self)
        requires
            self.wf(),
        ensures
            rectangular(self.aligns().len(), self.rows()),
    {
        assert forall|r: int| 0 <= r < self.rows().len() implies (#[trigger] self.rows()[r]).len()
            == self.aligns().len() by {
            assert(self.rows()[r] == self.rows@[r].deep_view());
        }
    }

    /// The width of each column: that of its widest cell.
    pub fn column_widths(&self) -> (widths: Vec<usize>)
        requires
            self.wf(),
        ensures
            widths@.len() == self.aligns().len(),
            forall|c: int|
                0 <= c < widths@.len() ==> widths@[c] == column_width(self.rows(), c),
    {
        let columns = self.aligns.len();
        let ghost rows = self.rows.deep_view();
        let mut widths: Vec<usize> = Vec::new();
        let mut c: usize = 0;
        while c < columns
            invariant
                self.wf(),
                rows == self.rows.deep_view(),
                columns == self.aligns@.len(),
                c <= columns,
                widths@.len() == c,
                forall|k: int| 0 <= k < c ==> widths@[k] == column_width(rows, k),
            decreases columns - c,
        {
            let mut widest: usize = 0;
            let mut r: usize = 0;
            while r < self.rows.len()
                invariant
                    self.wf(),
                    rows == self.rows.deep_view(),
                    c < columns == self.aligns@.len(),
                    r <= self.rows@.len(),
                    widest == column_width(rows.take(r as int), c as int),
                decreases self.rows@.len() - r,
            {
                let here = self.rows[r][c].width;
                proof {
                    let upto = rows.take(r + 1);
                    assert(upto.drop_last() =~= rows.take(r as int));
                    assert(upto.last() == rows[r as int]);
                    assert(rows[r as int][c as int] == self.rows@[r as int]@[c as int]@);
                }
                if here > widest {
                    widest = here;
                }
                r += 1;
            }
            assert(rows.take(self.rows@.len() as int) =~= rows);
            widths.push(widest);
            c += 1;
        }
        widths
    }

    /// The table as text: every row on a line of its own, every cell
    /// aligned in a column as wide as the column's widest cell, one space
    /// between columns, a newline after each row.
    pub fn render(&self) -> (out: String)
        requires
            self.wf(),
        ensures
            out@ == table_text(self.aligns(), self.rows()),
    {
        let widths = self.column_widths();
        let columns = self.aligns.len();
        let ghost aligns = self.aligns@;
        let ghost rows = self.rows.deep_view();
        let mut out = String::new();
        let mut r: usize = 0;
        while r < self.rows.len()
            invariant
                self.wf(),
                aligns == self.aligns@,
                rows == self.rows.deep_view(),
                columns == aligns.len(),
                widths@.len() == columns,
                forall|c: int| 0 <= c < columns ==> widths@[c] == column_width(rows, c),
                r <= self.rows@.len(),
                out@ == table_prefix(aligns, rows, r as int),
            decreases self.rows@.len() - r,
        {
            let ghost above = out@;
            let mut c: usize = 0;
            while c < columns
                invariant
                    self.wf(),
                    aligns == self.aligns@,
                    rows == self.rows.deep_view(),
                    columns == aligns.len(),
                    widths@.len() == columns,
                    forall|k: int| 0 <= k < columns ==> widths@[k] == column_width(rows, k),
                    r < self.rows@.len(),
                    c <= columns,
                    out@ == above + line_prefix(aligns, rows, r as int, c as int),
                decreases columns - c,
            {
                let ghost before = out@;
                let ghost cell_view = rows[r as int][c as int];
                let ghost width = column_width(rows, c as int);
                let cell = &self.rows[r][c];
                proof {
                    assert(cell_view == cell@);
                    lemma_column_width_is_max(rows, c as int);
                    assert(rows[r as int][c as int].width <= width);
                }
                if c > 0 {
                    out.push(' ');
                }
                assert(out@ =~= before + separator(c as int));
                let room = widths[c] - cell.width;
                assert(spaces(room as nat) =~= padding(cell_view, width));
                match self.aligns[c] {
                    Align::Left => {
                        out.append(cell.text.as_str());
                        if c + 1 < columns {
                            push_spaces(&mut out, room);
                        }
                    },
                    Align::Right => {
                        push_spaces(&mut out, room);
                        out.append(cell.text.as_str());
                    },
                }
                assert(out@ =~= before + separator(c as int) + cell_text(
                    cell_view,
                    width,
                    aligns[c as int],
                    c + 1 == columns,
                ));
                c += 1;
                assert(out@ =~= above + line_prefix(aligns, rows, r as int, c as int));
            }
            out.push('\n');
            assert(out@ =~= above + line_text(aligns, rows, r as int));
            r += 1;
        }
        out
    }
}

} // verus!
