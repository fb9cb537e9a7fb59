//! The fixed layout that maps a pair of direction indices to a character.
use vstd::prelude::*;

verus! {

/// A grid of optional characters: row `i`, column `j` holds the character
/// chosen by primary direction `i` and secondary direction `j`.
/// Cells outside the grid, and empty cells, hold no character.
#[derive(Debug)]
pub struct CharacterTable {
    rows: usize,
    cols: usize,
    cells: Vec<Option<char>>,
}

/// The standard layout, row by row: nine rows of eight columns.
pub open spec fn standard_cells() -> Seq<Option<char>> {
    seq![
        None, None, None, None, None, None, None, None,
        None, Some('a'), None, Some('b'), None, Some('c'), None, None,
        None, Some('d'), None, Some('e'), None, Some('f'), None, None,
        None, Some('g'), None, Some('h'), None, Some('i'), None, None,
        None, Some('j'), None, Some('k'), None, Some('l'), None, None,
        None, Some('m'), None, Some('n'), None, Some('o'), None, None,
        None, Some('p'), None, Some('q'), None, Some('r'), None, Some('s'),
        None, Some('t'), None, Some('u'), None, Some('v'), None, None,
        None, Some('w'), None, None, None, Some('y'), None, Some('z'),
    ]
}

impl CharacterTable {
    pub closed spec fn wf(&self) -> bool {
        self.cells@.len() == self.rows * self.cols
    }

    pub closed spec fn rows_spec(&self) -> nat {
        self.rows as nat
    }

    pub closed spec fn cols_spec(&self) -> nat {
        self.cols as nat
    }

    /// The character in row `i`, column `j`; none outside the grid.
    pub closed spec fn cell(&self, i: int, j: int) -> Option<char> {
        if 0 <= i < self.rows && 0 <= j < self.cols {
            self.cells@[i * self.cols + j]
        } else {
            None
        }
    }

    /// A table of `rows` by `cols` cells, given row by row; none when the
    /// number of cells is not `rows * cols`.
    pub fn new(rows: usize, cols: usize, cells: Vec<Option<char>>) -> (r: Option<CharacterTable>)
        ensures
            r is Some <==> cells@.len() == rows * cols,
            r matches Some(t) ==> t.wf() && t.rows_spec() == rows && t.cols_spec() == cols
                && forall|i: int, j: int|
                0 <= i < rows && 0 <= j < cols ==> #[trigger] t.cell(i, j) == cells@[i * cols + j],
    {
        let len = cells.len();
        match rows.checked_mul(cols) {
            Some(size) => {
                if len == size {
                    Some(CharacterTable { rows, cols, cells })
                } else {
                    None
                }
            },
            None => {
                None
            },
        }
    }

    /// The standard layout: nine rows of eight columns, lower-case letters.
    pub fn standard() -> (r: CharacterTable)
        ensures
            r.wf(),
            r.rows_spec() == 9,
            r.cols_spec() == 8,
            forall|i: int, j: int|
                0 <= i < 9 && 0 <= j < 8 ==> #[trigger] r.cell(i, j) == standard_cells()[i * 8 + j],
    {
        let cells: Vec<Option<char>> = vec![
            None, None, None, None, None, None, None, None,
            None, Some('a'), None, Some('b'), None, Some('c'), None, None,
            None, Some('d'), None, Some('e'), None, Some('f'), None, None,
            None, Some('g'), None, Some('h'), None, Some('i'), None, None,
            None, Some('j'), None, Some('k'), None, Some('l'), None, None,
            None, Some('m'), None, Some('n'), None, Some('o'), None, None,
            None, Some('p'), None, Some('q'), None, Some('r'), None, Some('s'),
            None, Some('t'), None, Some('u'), None, Some('v'), None, None,
            None, Some('w'), None, None, None, Some('y'), None, Some('z'),
        ];
        assert(cells@ == standard_cells());
        assert(standard_cells().len() == 72);
        let t = CharacterTable { rows: 9, cols: 8, cells };
        assert(t.cells@.len() == 72);
        assert(t.rows * t.cols == 72) by (nonlinear_arith)
            requires
                t.rows == 9,
                t.cols == 8,
        ;
        t
    }

    pub fn rows(&self) -> (r: usize)
        ensures
            r == self.rows_spec(),
    {
        self.rows
    }

    pub fn cols(&self) -> (r: usize)
        ensures
            r == self.cols_spec(),
    {
        self.cols
    }

    /// The character at row `i`, column `j`; none outside the grid.
    pub fn lookup(&self, i: usize, j: usize) -> (r: Option<char>)
        requires
            self.wf(),
        ensures
            r == self.cell(i as int, j as int),
    {
        let len = self.cells.len();
        if i < self.rows && j < self.cols {
            proof {
                assert(i * self.cols + j < self.rows * self.cols) by (nonlinear_arith)
                    requires
                        i < self.rows,
                        j < self.cols,
                ;
            }
            self.cells[i * self.cols + j]
        } else {
            None
        }
    }
}

} // verus!
