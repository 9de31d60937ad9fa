//! The table of scales: one row per scale, one column per note, kept in a
//! two-dimensional `ndarray` array of note names.

use vstd::prelude::*;
use vstd::string::*;
use ndarray::Array2;

verus! {

/// A rectangular table of note names.
///
/// Trusted: the table is an `ndarray::Array2<String>`, which the verifier
/// does not look into. What it holds is known only through `table_cells`
/// and the contracts of the methods below that reach into the array.
#[verifier::external_body]
pub struct ScaleTable {
    cells: Array2<String>,
}

/// What a table holds: row by row, the characters of each name.
pub uninterp spec fn table_cells(table: ScaleTable) -> Seq<Seq<Seq<char>>>;

impl View for ScaleTable {
    type V = Seq<Seq<Seq<char>>>;

    open spec fn view(&self) -> Seq<Seq<Seq<char>>> {
        table_cells(*self)
    }
}

/// The largest number of rows, and of columns, that a table is made with.
pub const TABLE_SIDE_LIMIT: usize = 1024;

impl ScaleTable {
    /// A table of the given size with every name empty, made by
    /// `Array2::default`. Trusted: the array has `rows` rows of `columns`
    /// default strings. `Array2::default` panics where the number of cells
    /// does not fit `isize`; the limit on both sides keeps far from that.
    #[verifier::external_body]
    pub(crate) fn blank(rows: usize, columns: usize) -> (table: ScaleTable)
        requires
            rows <= TABLE_SIDE_LIMIT,
            columns <= TABLE_SIDE_LIMIT,
        ensures
            table_cells(table) == Seq::new(
                rows as nat,
                |row: int| Seq::new(columns as nat, |column: int| Seq::<char>::empty()),
            ),
    {
        ScaleTable { cells: Array2::<String>::default((rows, columns)) }
    }

    /// Writes `name` into one cell, by `ndarray`'s mutable indexing with
    /// `[row, column]`. Trusted: that cell holds `name` afterwards and every
    /// other cell is as before. Indexing panics outside the table, which
    /// `requires` rules out.
    #[verifier::external_body]
    pub(crate) fn put(&mut self, row: usize, column: usize, name: String)
        requires
            row < table_cells(*old(self)).len(),
            column < table_cells(*old(self))[row as int].len(),
        ensures
            table_cells(*final(self)) == table_cells(*old(self)).update(
                row as int,
                table_cells(*old(self))[row as int].update(column as int, name@),
            ),
    {
        self.cells[[row, column]] = name;
    }

    /// Reads one cell, by `ndarray`'s indexing with `[row, column]`, as a
    /// copy. Trusted: the copy has the characters of that cell. Indexing
    /// panics outside the table, which `requires` rules out.
    #[verifier::external_body]
    pub(crate) fn cell(&self, row: usize, column: usize) -> (name: String)
        requires
            row < table_cells(*self).len(),
            column < table_cells(*self)[row as int].len(),
        ensures
            name@ == table_cells(*self)[row as int][column as int],
    {
        self.cells[[row, column]].clone()
    }

    /// The number of rows, by `Array2::nrows`. Trusted: it is the number of
    /// rows that `table_cells` has.
    #[verifier::external_body]
    pub(crate) fn row_count(&self) -> (rows: usize)
        ensures
            rows == table_cells(*self).len(),
    {
        self.cells.nrows()
    }

    /// The number of columns, by `Array2::ncols`. Trusted: every row that
    /// `table_cells` has is that long.
    #[verifier::external_body]
    pub(crate) fn column_count(&self) -> (columns: usize)
        ensures
            forall|row: int|
                0 <= row < table_cells(*self).len() ==> (#[trigger] table_cells(*self)[row]).len()
                    == columns,
    {
        self.cells.ncols()
    }

    /// The number of scales in the table.
    pub fn rows(&self) -> (rows: usize)
        ensures
            rows == self@.len(),
    {
        self.row_count()
    }

    /// The number of notes in each scale of the table.
    pub fn columns(&self) -> (columns: usize)
        ensures
            forall|row: int| 0 <= row < self@.len() ==> (#[trigger] self@[row]).len() == columns,
    {
        self.column_count()
    }

    /// The name in one cell, or `None` outside the table.
    pub fn name_at(&self, row: usize, column: usize) -> (name: Option<String>)
        ensures
            match name {
                Some(text) => row < self@.len() && column < self@[row as int].len() && text@
                    == self@[row as int][column as int],
                None => !(row < self@.len() && column < self@[row as int].len()),
            },
    {
        if row < self.row_count() && column < self.column_count() {
            Some(self.cell(row, column))
        } else {
            None
        }
    }
}

} // verus!
