//! What drawing is for: each cell of a terminal's screen is seen in its own place, in
//! its own look.

use vstd::prelude::*;

#[allow(unused_imports)]
use crate::protocol::{PaneCell, PaneView};
#[allow(unused_imports)]
use crate::render::{cell_at, char_at, glyph, pane_shows, row_glyphs, stretches, CellStyle};
#[allow(unused_imports)]
use crate::width::char_room;

verus! {

/// The characters of a drawn line, each with its look.
pub open spec fn line_glyphs(line: Seq<(CellStyle, Seq<char>)>) -> Seq<(CellStyle, char)>
    decreases line.len(),
{
    if line.len() == 0 {
        seq![]
    } else {
        line_glyphs(line.drop_last()) + line.last().1.map_values(|c: char| (line.last().0, c))
    }
}

/// The columns that a character takes where it is drawn: at least one.
pub open spec fn drawn_columns(c: char) -> int {
    if char_room(c) > 1 {
        char_room(c) as int
    } else {
        1
    }
}

/// The column at which the `i`th character of a line is drawn.
pub open spec fn column_of(line: Seq<(CellStyle, char)>, i: int) -> int
    decreases i,
{
    if i <= 0 {
        0
    } else {
        column_of(line, i - 1) + drawn_columns(line[i - 1].1)
    }
}

proof fn lemma_line_glyphs(glyphs: Seq<(CellStyle, char)>)
    ensures
        line_glyphs(stretches(glyphs)) == glyphs,
    decreases glyphs.len(),
{
    let line = stretches(glyphs);
    if glyphs.len() == 0 {
        assert(line_glyphs(line) =~= glyphs);
    } else {
        let before = stretches(glyphs.drop_last());
        let (style, ch) = glyphs.last();
        lemma_line_glyphs(glyphs.drop_last());
        let own = |c: char| (style, c);
        if before.len() > 0 && before.last().0 == style {
            let text = before.last().1;
            assert(line.drop_last() =~= before.drop_last());
            assert(text.push(ch).map_values(own) =~= text.map_values(own).push((style, ch)));
            assert(line.last().1.map_values(|c: char| (line.last().0, c)) =~= text.push(
                ch,
            ).map_values(own));
            assert(before.last().1.map_values(|c: char| (before.last().0, c)) =~= text.map_values(
                own,
            ));
            assert(line_glyphs(line) =~= line_glyphs(before).push((style, ch)));
        } else {
            assert(line.drop_last() =~= before);
            assert(line.last().1.map_values(|c: char| (line.last().0, c)) =~= seq![(style, ch)]);
            assert(line_glyphs(line) =~= line_glyphs(before).push((style, ch)));
        }
        assert(glyphs.drop_last().push((style, ch)) =~= glyphs);
    }
}

proof fn lemma_column_of_rest(line: Seq<(CellStyle, char)>, i: int)
    requires
        0 <= i < line.len(),
    ensures
        column_of(line, i + 1) == drawn_columns(line[0].1) + column_of(line.skip(1), i),
    decreases i,
{
    if i > 0 {
        lemma_column_of_rest(line, i - 1);
        assert(line.skip(1)[i - 1] == line[i]);
    } else {
        assert(column_of(line, 1) == column_of(line, 0) + drawn_columns(line[0].1));
    }
}

/// Whether some character of a row reaches over a column, and is the one of that
/// column where it begins there.
spec fn row_covers(
    line: Seq<(CellStyle, char)>,
    start: int,
    col: int,
    own: (CellStyle, char),
    i: int,
) -> bool {
    &&& 0 <= i < line.len()
    &&& start + column_of(line, i) <= col < start + column_of(line, i) + drawn_columns(line[i].1)
    &&& start + column_of(line, i) == col ==> line[i] == own
}

proof fn lemma_row_glyphs(cells: Seq<PaneCell>, row: int, start: int, cols: int, col: int)
    requires
        0 <= start <= col < cols,
    ensures
        exists|i: int|
            row_covers(
                row_glyphs(cells, row, start, cols),
                start,
                col,
                glyph(cell_at(cells, row, col)),
                i,
            ),
    decreases cols - start,
{
    let line = row_glyphs(cells, row, start, cols);
    let here = glyph(cell_at(cells, row, start));
    let next = start + drawn_columns(here.1);
    let rest = row_glyphs(cells, row, next, cols);
    let own = glyph(cell_at(cells, row, col));
    assert(line =~= seq![here] + rest);
    if col < next {
        assert(row_covers(line, start, col, own, 0));
    } else {
        lemma_row_glyphs(cells, row, next, cols, col);
        let i = choose|i: int| row_covers(rest, next, col, own, i);
        assert(line.skip(1) =~= rest);
        lemma_column_of_rest(line, i);
        assert(line[i + 1] == rest[i]);
        assert(row_covers(line, start, col, own, i + 1));
    }
}

proof fn lemma_last_cell(cells: Seq<PaneCell>, k: int)
    requires
        0 <= k < cells.len(),
        forall|j: int|
            k < j < cells.len() ==> !((#[trigger] cells[j]).row == cells[k].row && cells[j].col
                == cells[k].col),
    ensures
        cell_at(cells, cells[k].row as int, cells[k].col as int) == Some(cells[k]),
        char_at(cells, cells[k].row as int, cells[k].col as int) == cells[k].ch,
    decreases cells.len(),
{
    if k < cells.len() - 1 {
        let rest = cells.drop_last();
        assert(cells[cells.len() - 1] == cells.last());
        assert forall|j: int| k < j < rest.len() implies !((#[trigger] rest[j]).row == rest[k].row
            && rest[j].col == rest[k].col) by {
            assert(rest[j] == cells[j]);
        }
        lemma_last_cell(rest, k);
    }
}

proof fn lemma_no_cell(cells: Seq<PaneCell>, row: int, col: int)
    requires
        forall|j: int|
            0 <= j < cells.len() ==> !((#[trigger] cells[j]).row == row && cells[j].col == col),
    ensures
        cell_at(cells, row, col) is None,
        char_at(cells, row, col) == ' ',
    decreases cells.len(),
{
    if cells.len() > 0 {
        let rest = cells.drop_last();
        assert(cells[cells.len() - 1] == cells.last());
        assert forall|j: int| 0 <= j < rest.len() implies !((#[trigger] rest[j]).row == row
            && rest[j].col == col) by {
            assert(rest[j] == cells[j]);
        }
        lemma_no_cell(rest, row, col);
    }
}

/// As many lines are drawn of a pane as it has rows, counted from the top. In the line
/// of its row each cell that is the last of its place is drawn at its column, in its
/// look, unless a character before it reaches over that column.
pub proof fn law_cell_is_drawn_in_its_place(pane: PaneView, k: int)
    requires
        0 <= k < pane.cells@.len(),
        pane.cells@[k].row < pane.rows,
        pane.cells@[k].col < pane.cols,
        forall|j: int|
            k < j < pane.cells@.len() ==> !((#[trigger] pane.cells@[j]).row == pane.cells@[k].row
                && pane.cells@[j].col == pane.cells@[k].col),
    ensures
        pane_shows(pane).len() == pane.rows,
        ({
            let cell = pane.cells@[k];
            let line = line_glyphs(pane_shows(pane)[cell.row as int]);
            exists|i: int|
                0 <= i < line.len() && #[trigger] column_of(line, i) <= cell.col < column_of(line, i)
                    + drawn_columns(line[i].1) && (column_of(line, i) == cell.col ==> line[i] == (
                    CellStyle { fg: Some(cell.fg), bg: Some(cell.bg), bold: cell.bold },
                    cell.ch,
                ))
        }),
{
    let cell = pane.cells@[k];
    let row = cell.row as int;
    let col = cell.col as int;
    let glyphs = row_glyphs(pane.cells@, row, 0, pane.cols as int);
    lemma_line_glyphs(glyphs);
    lemma_last_cell(pane.cells@, k);
    lemma_row_glyphs(pane.cells@, row, 0, pane.cols as int, col);
    let i = choose|i: int| row_covers(glyphs, 0, col, glyph(cell_at(pane.cells@, row, col)), i);
    let line = line_glyphs(pane_shows(pane)[row]);
    assert(line == glyphs);
    assert(column_of(line, i) <= col);
}

/// A place of a pane's screen without a cell is drawn blank and plain, unless a
/// character before it reaches over it.
pub proof fn law_empty_place_is_drawn_blank(pane: PaneView, row: int, col: int)
    requires
        pane.cells@.len() > 0,
        0 <= row < pane.rows,
        0 <= col < pane.cols,
        forall|j: int|
            0 <= j < pane.cells@.len() ==> !((#[trigger] pane.cells@[j]).row == row
                && pane.cells@[j].col == col),
    ensures
        ({
            let line = line_glyphs(pane_shows(pane)[row]);
            exists|i: int|
                0 <= i < line.len() && #[trigger] column_of(line, i) <= col < column_of(line, i)
                    + drawn_columns(line[i].1) && (column_of(line, i) == col ==> line[i] == (
                    CellStyle { fg: None, bg: None, bold: false },
                    ' ',
                ))
        }),
{
    let glyphs = row_glyphs(pane.cells@, row, 0, pane.cols as int);
    lemma_line_glyphs(glyphs);
    lemma_no_cell(pane.cells@, row, col);
    lemma_row_glyphs(pane.cells@, row, 0, pane.cols as int, col);
    let i = choose|i: int| row_covers(glyphs, 0, col, glyph(cell_at(pane.cells@, row, col)), i);
    let line = line_glyphs(pane_shows(pane)[row]);
    assert(line == glyphs);
    assert(column_of(line, i) <= col);
}

proof fn lemma_narrow_row(cells: Seq<PaneCell>, row: int, start: int, cols: int, until: int)
    requires
        0 <= start <= until <= cols,
        forall|c: int|
            start <= c < until ==> drawn_columns((#[trigger] glyph(cell_at(cells, row, c))).1) == 1,
    ensures
        row_glyphs(cells, row, start, cols).len() >= until - start,
        forall|c: int|
            start <= c < until ==> row_glyphs(cells, row, start, cols)[c - start] == #[trigger] glyph(
                cell_at(cells, row, c),
            ),
        until < cols ==> row_glyphs(cells, row, start, cols).len() > until - start
            && row_glyphs(cells, row, start, cols)[until - start] == glyph(
            cell_at(cells, row, until),
        ),
    decreases until - start,
{
    let line = row_glyphs(cells, row, start, cols);
    if start < cols {
        let here = glyph(cell_at(cells, row, start));
        assert(line =~= seq![here] + row_glyphs(cells, row, start + drawn_columns(here.1), cols));
        if start < until {
            lemma_narrow_row(cells, row, start + 1, cols, until);
            let rest = row_glyphs(cells, row, start + 1, cols);
            assert forall|c: int| start <= c < until implies line[c - start] == #[trigger] glyph(
                cell_at(cells, row, c),
            ) by {
                if c > start {
                    assert(line[c - start] == rest[c - start - 1]);
                }
            }
        }
    }
}

/// Where all cells of a row that come before a cell take one column, as blanks do, the
/// cell is the character of its line with the number of its column.
pub proof fn law_narrow_cells_are_drawn_in_order(pane: PaneView, k: int)
    requires
        0 <= k < pane.cells@.len(),
        pane.cells@[k].row < pane.rows,
        pane.cells@[k].col < pane.cols,
        forall|j: int|
            k < j < pane.cells@.len() ==> !((#[trigger] pane.cells@[j]).row == pane.cells@[k].row
                && pane.cells@[j].col == pane.cells@[k].col),
        forall|j: int|
            0 <= j < pane.cells@.len() && (#[trigger] pane.cells@[j]).row == pane.cells@[k].row
                && pane.cells@[j].col < pane.cells@[k].col ==> char_room(pane.cells@[j].ch) <= 1,
        char_room(' ') <= 1,
    ensures
        ({
            let cell = pane.cells@[k];
            let line = line_glyphs(pane_shows(pane)[cell.row as int]);
            &&& cell.col < line.len()
            &&& line[cell.col as int] == (
                CellStyle { fg: Some(cell.fg), bg: Some(cell.bg), bold: cell.bold },
                cell.ch,
            )
        }),
{
    let cells = pane.cells@;
    let cell = cells[k];
    let row = cell.row as int;
    let col = cell.col as int;
    lemma_line_glyphs(row_glyphs(cells, row, 0, pane.cols as int));
    lemma_last_cell(cells, k);
    assert forall|c: int| 0 <= c < col implies drawn_columns(
        (#[trigger] glyph(cell_at(cells, row, c))).1,
    ) == 1 by {
        lemma_cell_found(cells, row, c);
    }
    lemma_narrow_row(cells, row, 0, pane.cols as int, col);
}

proof fn lemma_cell_found(cells: Seq<PaneCell>, row: int, col: int)
    ensures
        cell_at(cells, row, col) matches Some(cell) ==> exists|j: int|
            0 <= j < cells.len() && #[trigger] cells[j] == cell && cell.row == row && cell.col
                == col,
    decreases cells.len(),
{
    if cells.len() > 0 {
        let rest = cells.drop_last();
        lemma_cell_found(rest, row, col);
        if cells.last().row == row && cells.last().col == col {
            assert(cells[cells.len() - 1] == cells.last());
        } else if let Some(cell) = cell_at(rest, row, col) {
            let j = choose|j: int|
                0 <= j < rest.len() && #[trigger] rest[j] == cell && cell.row == row && cell.col
                    == col;
            assert(cells[j] == cell);
        }
    }
}

/// A pane that comes without cells is drawn by its lines: as many as it has, each in its own
/// place, whole and plain.
pub proof fn law_lines_are_drawn_in_their_places(pane: PaneView, row: int)
    requires
        pane.cells@.len() == 0,
        0 <= row < pane.lines@.len(),
    ensures
        pane_shows(pane).len() == pane.lines@.len(),
        pane_shows(pane)[row].len() == 1,
        pane_shows(pane)[row][0].1 == pane.lines@[row]@,
        pane_shows(pane)[row][0].0 == (CellStyle { fg: None, bg: None, bold: false }),
{
}

} // verus!
