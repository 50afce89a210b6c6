//! What holds of the frames that the host is shown, cell by cell.

use crate::frame;
use crate::frame::EngineView;
use crate::laws;
use crate::palette;
use crate::palette::Theme;
use crate::screen;
use crate::screen::{CellData, LineView, RenderView};
use crate::seek;
use crate::term_model;
use crate::term_model::{CellRange, CellView, CursorKind, TermState};
use vstd::prelude::*;

verus! {

/// The grid line that a row of a snapshot shows; the row behind the viewport's shows the
/// line above it.
pub open spec fn line_in_row(v: EngineView, row: int) -> int {
    if row < v.term.grid.lines {
        row - v.term.offset
    } else {
        -1 - v.term.offset
    }
}

/// The cell of the grid that a cell of a snapshot shows.
pub open spec fn cell_in(v: EngineView, row: int, col: int) -> CellView {
    v.term.grid.cells[(line_in_row(v, row), col)]
}

proof fn shown_cell(
    t: Theme,
    links: Seq<Seq<char>>,
    row: Seq<CellView>,
    line: int,
    selection: Option<CellRange>,
    c: int,
)
    requires
        0 <= c < row.len(),
    ensures
        ({
            let shown = screen::shown_row(t, links, row, line, selection)[c];
            let plain = screen::painted(t, links, row[c]);
            &&& shown == plain || shown == (CellData { flags: plain.flags | 0x0100, ..plain })
            &&& shown.flags & 0xFEFF == plain.flags & 0xFEFF
        }),
{
    let f = screen::painted(t, links, row[c]).flags;
    assert((f | 0x0100u16) & 0xFEFFu16 == f & 0xFEFFu16 && (f | 0x0100u16) | 0x0100u16 == f
        | 0x0100u16) by (bit_vector);
}

proof fn kept_bits(f: u16, g: u16)
    requires
        f & 0xFEFF == g & 0xFEFF,
    ensures
        f & 0x0001 == g & 0x0001,
        f & 0x0002 == g & 0x0002,
        f & 0x0004 == g & 0x0004,
        f & 0x0008 == g & 0x0008,
        f & 0x0010 == g & 0x0010,
        f & 0x0020 == g & 0x0020,
        f & 0x0040 == g & 0x0040,
        f & 0x0080 == g & 0x0080,
        f & 0x0200 == g & 0x0200,
        f & 0x0400 == g & 0x0400,
        f & 0x0800 == g & 0x0800,
{
    assert(f & 0x0001 == g & 0x0001 && f & 0x0002 == g & 0x0002 && f & 0x0004 == g & 0x0004 && f
        & 0x0008 == g & 0x0008 && f & 0x0010 == g & 0x0010 && f & 0x0020 == g & 0x0020 && f & 0x0040
        == g & 0x0040 && f & 0x0080 == g & 0x0080 && f & 0x0200 == g & 0x0200 && f & 0x0400 == g
        & 0x0400 && f & 0x0800 == g & 0x0800) by (bit_vector)
        requires
            f & 0xFEFF == g & 0xFEFF,
    ;
}

proof fn link_bit(style: u16)
    requires
        style & 0xFF00 == 0,
    ensures
        (style | 0x0800) & 0x00FF == style & 0x00FF,
        (style | 0x0800) & 0x0800 != 0,
        (style | 0x0800) & 0x0600 == 0,
        style & 0x0800 == 0,
        style & 0x0600 == 0,
{
    assert((style | 0x0800) & 0x00FF == style & 0x00FF && (style | 0x0800) & 0x0800 != 0 && (style
        | 0x0800) & 0x0600 == 0 && style & 0x0800 == 0 && style & 0x0600 == 0) by (bit_vector)
        requires
            style & 0xFF00 == 0,
    ;
}

proof fn low_bits(f: u16, g: u16)
    requires
        f & 0x00FF == g & 0x00FF,
    ensures
        f & 0x0001 == g & 0x0001,
        f & 0x0002 == g & 0x0002,
        f & 0x0004 == g & 0x0004,
        f & 0x0008 == g & 0x0008,
        f & 0x0010 == g & 0x0010,
        f & 0x0020 == g & 0x0020,
        f & 0x0040 == g & 0x0040,
        f & 0x0080 == g & 0x0080,
{
    assert(f & 0x0001 == g & 0x0001 && f & 0x0002 == g & 0x0002 && f & 0x0004 == g & 0x0004 && f
        & 0x0008 == g & 0x0008 && f & 0x0010 == g & 0x0010 && f & 0x0020 == g & 0x0020 && f & 0x0040
        == g & 0x0040 && f & 0x0080 == g & 0x0080) by (bit_vector)
        requires
            f & 0x00FF == g & 0x00FF,
    ;
}

/// The attributes of a cell, one by one: bold, italic, underlined, inverse, wide, second
/// half of a wide character, dim and struck out, and whether it is a hyperlink.
pub open spec fn flags_tell(flags: u16, cell: CellView) -> bool {
    &&& flags & 0x0001 != 0 <==> cell.flags & 0x0002 != 0
    &&& flags & 0x0002 != 0 <==> cell.flags & 0x0004 != 0
    &&& flags & 0x0004 != 0 <==> cell.flags & 0x7808 != 0
    &&& flags & 0x0008 != 0 <==> cell.flags & 0x0001 != 0
    &&& flags & 0x0010 != 0 <==> cell.flags & 0x0020 != 0
    &&& flags & 0x0020 != 0 <==> cell.flags & 0x0040 != 0
    &&& flags & 0x0040 != 0 <==> cell.flags & 0x0080 != 0
    &&& flags & 0x0080 != 0 <==> cell.flags & 0x0200 != 0
    &&& flags & 0x0800 != 0 <==> cell.link is Some
}

/// A painted cell has the cell's character, its colors as they show, and a flag for each of
/// its attributes; it has an id where the cell is a hyperlink, and only there. Selection
/// and search leave no trace in it.
pub proof fn law_painted_cell(t: Theme, links: Seq<Seq<char>>, cell: CellView)
    ensures
        ({
            let data = screen::painted(t, links, cell);
            &&& data.codepoint == cell.c as u32
            &&& data.fg == palette::shown_color(t, cell.fg)
            &&& data.bg == palette::shown_color(t, cell.bg)
            &&& flags_tell(data.flags, cell)
            &&& data.flags & 0x0100 == 0
            &&& data.flags & 0x0200 == 0
            &&& data.flags & 0x0400 == 0
            &&& cell.link is None ==> data.hyperlink_id == 0
            &&& cell.link matches Some(uri) ==> {
                &&& !links.contains(uri) ==> data.hyperlink_id == 0
                &&& links.contains(uri) && links.len() <= 0xFFFF_FFFF ==> {
                    &&& 1 <= data.hyperlink_id <= links.len()
                    &&& links[data.hyperlink_id - 1] == uri
                }
            }
        }),
{
    let style = screen::style_flags(cell.flags);
    screen::law_flags_show_attributes(cell.flags);
    link_bit(style);
    low_bits(style | 0x0800, style);
    let f = screen::painted(t, links, cell).flags;
    assert(f & 0x0100 == 0 && f & 0x0200 == 0 && f & 0x0400 == 0) by (bit_vector)
        requires
            style & 0xFF00 == 0,
            f == style || f == style | 0x0800,
    ;
    if let Some(uri) = cell.link {
        if links.contains(uri) {
            let i = links.index_of(uri);
            assert(0 <= i < links.len() && links[i] == uri);
        }
    }
}

/// Row by row and column by column, a snapshot shows the cells of the grid lines that the
/// viewport stands on, and behind them those of the line above it. Where there is no line,
/// it shows blanks.
pub proof fn law_snapshot_shows_the_grid(v: EngineView, row: int, col: int)
    requires
        v.wf(),
        0 <= row <= v.term.grid.lines,
        0 <= col < v.term.grid.columns,
    ensures
        ({
            let data = frame::snapshot(v).lines[row].cells[col];
            let t = Theme { palette: v.palette, colors: v.term.colors };
            let line = line_in_row(v, row);
            &&& -v.term.grid.history <= line ==> {
                let cell = cell_in(v, row, col);
                &&& data.codepoint == cell.c as u32
                &&& data.fg == palette::shown_color(t, cell.fg)
                &&& data.bg == palette::shown_color(t, cell.bg)
                &&& flags_tell(data.flags, cell)
                &&& cell.link is None ==> data.hyperlink_id == 0
                &&& cell.link is Some && v.hyperlinks.contains(cell.link->0) ==> {
                    &&& 1 <= data.hyperlink_id <= v.hyperlinks.len()
                    &&& v.hyperlinks[data.hyperlink_id - 1] == cell.link->0
                }
            }
            &&& line < -v.term.grid.history ==> {
                &&& data.codepoint == 0x20
                &&& data.fg == palette::shown_color(t, term_model::CellColor::Named(256))
                &&& data.bg == palette::shown_color(t, term_model::CellColor::Named(257))
                &&& data.hyperlink_id == 0
            }
            &&& data.flags & 0x0200 == 0
            &&& data.flags & 0x0400 == 0
        }),
{
    let line = line_in_row(v, row);
    let cells = v.term.grid.row(line);
    let data = frame::snapshot(v).lines[row].cells[col];
    assert(0u16 & 0x0200u16 == 0 && 0u16 & 0x0400u16 == 0) by (bit_vector);
    if row < v.term.grid.lines || v.term.offset < v.term.grid.history {
        shown_cell(v.theme(), v.hyperlinks, cells, line, v.selection(), col);
        law_painted_cell(v.theme(), v.hyperlinks, cells[col]);
        kept_bits(data.flags, screen::painted(v.theme(), v.hyperlinks, cells[col]).flags);
        assert(' ' as u32 == 0x20);
    }
}

/// A range is a run of cells in reading order, from its start to its end, both included.
pub proof fn law_range_is_a_run(r: CellRange, columns: int, line: int, col: int)
    requires
        0 <= col < columns,
        r.start_col < columns,
        r.end_col < columns,
    ensures
        screen::in_range(r, line, col) <==> r.start_line * columns + r.start_col <= line * columns
            + col <= r.end_line * columns + r.end_col,
{
    reading_order(columns, r.start_line as int, r.start_col as int, line, col);
    reading_order(columns, line, col, r.end_line as int, r.end_col as int);
}

proof fn reading_order(columns: int, l1: int, c1: int, l2: int, c2: int)
    requires
        0 <= c1 < columns,
        0 <= c2 < columns,
    ensures
        l1 * columns + c1 <= l2 * columns + c2 <==> l1 < l2 || (l1 == l2 && c1 <= c2),
{
    assert(l1 < l2 ==> l1 * columns + columns <= l2 * columns) by (nonlinear_arith)
        requires
            0 <= columns,
    ;
    assert(l2 < l1 ==> l2 * columns + columns <= l1 * columns) by (nonlinear_arith)
        requires
            0 <= columns,
    ;
}

/// The place of a cell in reading order.
pub open spec fn reading_place(v: EngineView, line: int, col: int) -> int {
    line * v.term.grid.columns + col
}

/// The range takes in the cell, by their places in reading order.
pub open spec fn takes_in(v: EngineView, r: CellRange, line: int, col: int) -> bool {
    reading_place(v, r.start_line as int, r.start_col as int) <= reading_place(v, line, col)
        <= reading_place(v, r.end_line as int, r.end_col as int)
}

/// In a snapshot, a cell that the selection takes in is shown selected. A cell that it does
/// not take in is shown selected only as one half of a wide character whose other half it
/// takes in or binds.
pub proof fn law_snapshot_shows_the_selection(v: EngineView, r: CellRange, row: int, col: int)
    requires
        v.wf(),
        v.selection() == Some(r),
        v.term.grid.has_range(r),
        0 <= row <= v.term.grid.lines,
        0 <= col < v.term.grid.columns,
        -v.term.grid.history <= line_in_row(v, row),
    ensures
        ({
            let line = line_in_row(v, row);
            let selected = frame::snapshot(v).lines[row].cells[col].flags & 0x0100 != 0;
            let wide = |c: int|
                0 <= c && c + 1 < v.term.grid.columns && v.term.grid.cells[(line, c)].flags & 0x0020
                    != 0 && v.term.grid.cells[(line, c + 1)].flags & 0x0040 != 0;
            &&& takes_in(v, r, line, col) ==> selected
            &&& selected && !takes_in(v, r, line, col) ==> wide(col) || wide(col - 1)
        }),
{
    let line = line_in_row(v, row);
    let cells = v.term.grid.row(line);
    let plain = screen::painted_row(v.theme(), v.hyperlinks, cells);
    law_range_is_a_run(r, v.term.grid.columns, line, col);
    laws::law_selection_is_shown(v.theme(), v.hyperlinks, cells, line, r, col);
    assert forall|c: int| 0 <= c < cells.len() implies #[trigger] plain[c] == screen::painted(
        v.theme(),
        v.hyperlinks,
        v.term.grid.cells[(line, c)],
    ) by {}
    law_painted_cell(v.theme(), v.hyperlinks, cells[col]);
    if col > 0 {
        law_painted_cell(v.theme(), v.hyperlinks, cells[col - 1]);
    }
    if col + 1 < cells.len() {
        law_painted_cell(v.theme(), v.hyperlinks, cells[col + 1]);
    }
}

/// A hyperlink that is shown can be followed: its id is one that was given out, and leads to
/// its URI, as long as there are ids left. Cells with one id have one URI.
pub proof fn law_shown_links_lead_to_their_uris(u: EngineView, row: int, col: int)
    requires
        u.wf(),
        0 <= row <= u.term.grid.lines,
        0 <= col < u.term.grid.columns,
        -u.term.grid.history <= line_in_row(u, row),
        cell_in(u, row, col).link is Some,
    ensures
        ({
            let v = frame::with_links(u, frame::snapshot_cells(u.term));
            let id = frame::snapshot(v).lines[row].cells[col].hyperlink_id;
            let uri = cell_in(u, row, col).link->0;
            v.hyperlinks.len() < 0xFFFF_FFFF ==> {
                &&& id >= 1
                &&& screen::link_of(v.hyperlinks, id) == Some(uri)
            }
        }),
{
    let cells = frame::snapshot_cells(u.term);
    let v = frame::with_links(u, cells);
    screen::law_links_only_grow(u.hyperlinks, cells);
    assert(cells[row] == u.term.grid.row(line_in_row(u, row)));
    laws::interned_rows_are_linked(u.hyperlinks, cells, row);
    assert(cells[row][col].link is Some);
    law_snapshot_shows_the_grid(v, row, col);
}

/// Giving ids to the URIs of cells that are shown changes nothing but the table of URIs, which
/// keeps what is in it in its place.
pub proof fn law_ids_are_given_and_kept(v: EngineView, rows: Seq<Seq<CellView>>, i: int)
    requires
        v.wf(),
        0 <= i < v.hyperlinks.len(),
    ensures
        ({
            let after = frame::with_links(v, rows);
            &&& after == EngineView { hyperlinks: after.hyperlinks, ..v }
            &&& after.hyperlinks.len() >= v.hyperlinks.len()
            &&& after.hyperlinks[i] == v.hyperlinks[i]
        }),
{
    screen::law_links_only_grow(v.hyperlinks, rows);
    let after = screen::interned_rows(v.hyperlinks, rows);
    assert(after.take(v.hyperlinks.len() as int)[i] == after[i]);
}

/// A hyperlink in a row of the screen that is shipped as damage can be followed.
pub proof fn law_damaged_links_lead_to_their_uris(v: EngineView, i: int, col: int)
    requires
        v.wf(),
        !frame::damage_shipped(v).full,
        0 <= i < frame::damage_shipped(v).lines.len(),
        0 <= col < v.term.grid.columns,
        v.term.grid.cells[(frame::damage_shipped(v).lines[i].line as int, col)].link is Some,
    ensures
        ({
            let line = frame::damage_shipped(v).lines[i];
            let after = frame::damage_taken(v);
            let uri = v.term.grid.cells[(line.line as int, col)].link->0;
            after.hyperlinks.len() < 0xFFFF_FFFF ==> {
                &&& line.cells[col].hyperlink_id >= 1
                &&& screen::link_of(after.hyperlinks, line.cells[col].hyperlink_id) == Some(uri)
            }
        }),
{
    let set = term_model::damaged_rows(v.term);
    let listed = frame::rows_in(set, v.term.grid.lines);
    rows_ascend(set, v.term.grid.lines);
    let cells = frame::screen_cells(v.term.grid, listed);
    let after = frame::damage_taken(v);
    screen::law_links_only_grow(v.hyperlinks, cells);
    laws::interned_rows_are_linked(v.hyperlinks, cells, i);
    let line = listed[i];
    assert(frame::damage_shipped(v).lines[i].line == line);
    assert(cells[i] == v.term.grid.row(line));
    assert(cells[i][col] == v.term.grid.cells[(line, col)]);
    law_painted_cell(v.theme(), after.hyperlinks, v.term.grid.cells[(line, col)]);
}

/// A hyperlink in a row that a scroll refresh ships can be followed.
pub proof fn law_refreshed_links_lead_to_their_uris(u: EngineView, delta: i32, i: int, col: int)
    requires
        u.wf(),
        0 <= i < frame::refreshed(u, delta).lines.len(),
        0 <= col < u.term.grid.columns,
        ({
            let tag = frame::refreshed(u, delta).lines[i].line;
            let row = if tag == 0xFFFF_FFFF {
                u.term.grid.lines
            } else {
                tag as int
            };
            -u.term.grid.history <= line_in_row(u, row) && cell_in(u, row, col).link is Some
        }),
    ensures
        ({
            let v = frame::with_links(u, frame::refresh_cells(u.term, delta as int));
            let line = frame::refreshed(v, delta).lines[i];
            let row = if line.line == 0xFFFF_FFFF {
                u.term.grid.lines
            } else {
                line.line as int
            };
            v.hyperlinks.len() < 0xFFFF_FFFF ==> {
                &&& line.cells[col].hyperlink_id >= 1
                &&& screen::link_of(v.hyperlinks, line.cells[col].hyperlink_id) == Some(
                    cell_in(u, row, col).link->0,
                )
            }
        }),
{
    let n = u.term.grid.lines;
    let first = frame::edge_first(n, delta as int);
    let count = frame::edge_count(n, delta as int);
    let cells = frame::refresh_cells(u.term, delta as int);
    let v = frame::with_links(u, cells);
    let row = if i < count {
        first + i
    } else {
        n
    };
    let line = line_in_row(u, row);
    screen::law_links_only_grow(u.hyperlinks, cells);
    assert(cells[i] == u.term.grid.row(line));
    laws::interned_rows_are_linked(u.hyperlinks, cells, i);
    assert(cells[i][col] == u.term.grid.cells[(line, col)]);
    shown_cell(v.theme(), v.hyperlinks, u.term.grid.row(line), line, v.selection(), col);
    law_painted_cell(v.theme(), v.hyperlinks, u.term.grid.row(line)[col]);
}

/// An id leads to the URI that was the id's number in the order of first showing, counted
/// from one; no other id leads anywhere.
pub proof fn law_ids_count_from_one(table: Seq<Seq<char>>, uri: Seq<char>, id: u32)
    requires
        table.len() < 0xFFFF_FFFF,
    ensures
        screen::link_of(table, id) is Some <==> 1 <= id <= table.len(),
        1 <= id <= table.len() ==> screen::link_of(table, id) == Some(table[id - 1]),
        table.contains(uri) ==> screen::interned(table, uri) == table,
        !table.contains(uri) ==> screen::interned(table, uri) == table.push(uri),
{
}

/// A scroll refresh ships rows as a snapshot of the same state shows them: the rows at the
/// edge that the viewport moved to, as many as it moved by, and the line above the viewport
/// under the tag `0xFFFF_FFFF`. It tells the host how far to rotate.
pub proof fn law_refresh_ships_rows_of_the_snapshot(v: EngineView, delta: i32, i: int, row: int)
    requires
        v.wf(),
        0 <= i < frame::refreshed(v, delta).lines.len(),
        0 <= row < v.term.grid.lines,
    ensures
        ({
            let r = frame::refreshed(v, delta);
            let whole = frame::snapshot(v);
            let n = v.term.grid.lines;
            let last = r.lines.len() - 1;
            &&& !r.full
            &&& r.scroll_line_delta == delta
            &&& r.lines[last].line == 0xFFFF_FFFF
            &&& r.lines[last].cells == whole.lines[n].cells
            &&& i < last ==> r.lines[i].line < n
            &&& i < last ==> r.lines[i].cells == whole.lines[r.lines[i].line as int].cells
            &&& ships(r.lines, row) <==> (delta > 0 && row < delta) || (delta < 0 && row >= n
                + delta)
        }),
{
    let r = frame::refreshed(v, delta);
    let n = v.term.grid.lines;
    let first = frame::edge_first(n, delta as int);
    let count = frame::edge_count(n, delta as int);
    if first <= row < first + count {
        assert(r.lines[row - first].line == row);
    }
    if ships(r.lines, row) {
        let k = choose|k: int| 0 <= k < r.lines.len() && (#[trigger] r.lines[k]).line == row;
        assert(r.lines[k].line == row);
    }
}

/// Some line carries the tag.
pub open spec fn ships(lines: Seq<LineView>, tag: int) -> bool {
    exists|k: int| 0 <= k < lines.len() && (#[trigger] lines[k]).line == tag
}

/// Damage is shipped as it came: while the viewport is flush at the live edge and not
/// everything is damaged, a row of the screen is shipped if and only if it is damaged, once,
/// with its cells as they are painted. Nothing is shipped that is no row of the screen.
pub proof fn law_damage_ships_the_damaged_rows(v: EngineView, row: int, i: int)
    requires
        v.wf(),
        v.term.offset == 0,
        v.scroll_fraction == 0 || v.scroll_fraction == 0x8000_0000_0000_0000,
        !v.term.damage.full,
        v.term.mode & 0x0400 == 0,
        0 <= row < v.term.grid.lines,
    ensures
        ({
            let r = frame::damage_shipped(v);
            let after = frame::damage_taken(v);
            let t = Theme { palette: v.palette, colors: v.term.colors };
            let touched = v.term.damage.rows.contains(row) || row == v.term.cursor_line || (row
                == v.term.damage.last_line && (v.term.damage.last_line != v.term.cursor_line
                || v.term.damage.last_col != v.term.cursor_col));
            &&& !r.full
            &&& ships(r.lines, row) <==> touched
            &&& 0 <= i < r.lines.len() ==> {
                &&& 0 <= r.lines[i].line < v.term.grid.lines
                &&& r.lines[i].cells == Seq::new(
                    v.term.grid.columns as nat,
                    |c: int|
                        screen::painted(
                            t,
                            after.hyperlinks,
                            v.term.grid.cells[(r.lines[i].line as int, c)],
                        ),
                )
            }
            &&& 0 < i < r.lines.len() ==> r.lines[i - 1].line < r.lines[i].line
        }),
{
    let set = term_model::damaged_rows(v.term);
    let n = v.term.grid.lines;
    let listed = frame::rows_in(set, n);
    let r = frame::damage_shipped(v);
    let after = frame::damage_taken(v);
    laws::law_damaged_rows_are_shipped(set, n, row);
    rows_ascend(set, n);
    assert(frame::shipped_rows(v.term) == listed);
    assert(r.lines.len() == listed.len());
    assert forall|k: int| 0 <= k < listed.len() implies (#[trigger] r.lines[k]).line
        == listed[k] by {
        assert(0 <= listed[k] < n);
    }
    if listed.contains(row) {
        let k = listed.index_of(row);
        assert(0 <= k < listed.len() && listed[k] == row);
        assert(r.lines[k].line == row);
    }
    if ships(r.lines, row) {
        let k = choose|k: int| 0 <= k < r.lines.len() && (#[trigger] r.lines[k]).line == row;
        assert(listed[k] == row);
    }
    if 0 <= i < r.lines.len() {
        let line = listed[i];
        assert(r.lines[i].line == line);
        assert(v.term.grid.has_line(line));
        assert(r.lines[i].cells =~= Seq::new(
            v.term.grid.columns as nat,
            |c: int| screen::painted(v.theme(), after.hyperlinks, v.term.grid.cells[(line, c)]),
        ));
        if i > 0 {
            assert(listed[i - 1] < listed[i]);
            assert(r.lines[i - 1].line == listed[i - 1]);
        }
    }
}

proof fn rows_ascend(set: Set<int>, n: int)
    ensures
        forall|i: int|
            0 <= i < frame::rows_in(set, n).len() ==> 0 <= #[trigger] frame::rows_in(set, n)[i] < n,
        forall|i: int, j: int|
            0 <= i < j < frame::rows_in(set, n).len() ==> #[trigger] frame::rows_in(set, n)[i]
                < #[trigger] frame::rows_in(set, n)[j],
    decreases n,
{
    if n > 0 {
        rows_ascend(set, n - 1);
        let before = frame::rows_in(set, n - 1);
        let rows = frame::rows_in(set, n);
        assert forall|i: int| 0 <= i < rows.len() implies 0 <= #[trigger] rows[i] < n by {
            if i < before.len() {
                assert(rows[i] == before[i]);
            }
        }
        assert forall|i: int, j: int| 0 <= i < j < rows.len() implies #[trigger] rows[i]
            < #[trigger] rows[j] by {
            assert(rows[i] == before[i]);
            if j < before.len() {
                assert(rows[j] == before[j]);
            }
        }
    }
}

/// Where the viewport is scrolled back or off a line boundary, or everything is damaged,
/// taking the damage ships a full snapshot. Off the live edge the damage is kept for later;
/// at the live edge it is forgotten, and the terminal is otherwise left alone.
pub proof fn law_damage_is_kept_or_forgotten(v: EngineView)
    requires
        v.wf(),
    ensures
        ({
            let after = frame::damage_taken(v);
            let edge = v.term.offset == 0 && (v.scroll_fraction == 0 || v.scroll_fraction
                == 0x8000_0000_0000_0000);
            let all = v.term.damage.full || v.term.mode & 0x0400 != 0;
            &&& !edge || all ==> frame::damage_shipped(v) == frame::snapshot(after)
            &&& frame::damage_shipped(v).full <==> !edge || all
            &&& !edge ==> after.term == v.term
            &&& edge ==> !after.term.damage.full && after.term.damage.rows == Set::<int>::empty()
            &&& after == EngineView {
                term: TermState { damage: after.term.damage, ..v.term },
                hyperlinks: after.hyperlinks,
                ..v
            }
        }),
{
}

/// The number of a cursor shape: block, underline, beam, hollow block, hidden.
pub open spec fn is_shape_number(shape: CursorKind, number: u8) -> bool {
    &&& shape is Block <==> number == 0
    &&& shape is Underline <==> number == 1
    &&& shape is Beam <==> number == 2
    &&& shape is HollowBlock <==> number == 3
    &&& shape is Hidden <==> number == 4
}

/// An update tells the cursor, the modes, the scroll offset and the default colors of the
/// state. The cursor is visible where the program shows it and the viewport is at the live
/// edge.
pub open spec fn tells_chrome(v: EngineView, r: RenderView) -> bool {
    let t = Theme { palette: v.palette, colors: v.term.colors };
    let style = match v.term.style {
        Some(style) => style,
        None => (v.term.options.shape, v.term.options.blinking),
    };
    &&& v.term.cursor_line >= 0 ==> r.cursor_line == v.term.cursor_line
    &&& v.term.cursor_line < 0 ==> r.cursor_line == 0
    &&& v.term.cursor_col <= 0xFFFF_FFFF ==> r.cursor_col == v.term.cursor_col
    &&& r.cursor_visible <==> v.term.mode & 0x0001 != 0 && v.term.offset == 0
    &&& is_shape_number(style.0, r.cursor_shape)
    &&& r.cursor_blinking == style.1
    &&& r.mode_flags == v.term.mode
    &&& r.display_offset == v.term.offset
    &&& r.default_fg == palette::shown_color(t, term_model::CellColor::Named(256))
    &&& r.default_bg == palette::shown_color(t, term_model::CellColor::Named(257))
    &&& r.cursor_color == palette::cursor_chrome(t)
}

/// Snapshots, scroll refreshes and damage updates tell the chrome of the state that they
/// show. The first two carry the sub-cell scroll position along; a damage update is shipped
/// on a line boundary only.
pub proof fn law_updates_tell_the_chrome(v: EngineView, delta: i32)
    requires
        v.wf(),
    ensures
        tells_chrome(v, frame::snapshot(v)),
        tells_chrome(v, frame::refreshed(v, delta)),
        tells_chrome(v, frame::searched_snapshot(v)),
        tells_chrome(v, frame::damage_shipped(v)),
        frame::snapshot(v).scroll_fraction == v.scroll_fraction,
        frame::refreshed(v, delta).scroll_fraction == v.scroll_fraction,
        frame::searched_snapshot(v).scroll_fraction == v.scroll_fraction,
        !frame::damage_shipped(v).full ==> frame::damage_shipped(v).scroll_fraction == 0,
        frame::damage_shipped(v).full ==> frame::damage_shipped(v).scroll_fraction
            == v.scroll_fraction,
        frame::damage_shipped(v).scroll_line_delta == 0,
{
}

/// With a search active, a snapshot highlights the cells that its matches take in, and those
/// of the current match, and shows them otherwise as ever. Without one, it shows none.
pub proof fn law_searched_snapshot_highlights_the_matches(v: EngineView, row: int, col: int)
    requires
        v.wf(),
        0 <= row <= v.term.grid.lines,
        0 <= col < v.term.grid.columns,
    ensures
        ({
            let plain = frame::snapshot(v).lines[row].cells[col];
            let data = frame::searched_snapshot(v).lines[row].cells[col];
            let line = row - v.term.offset;
            &&& frame::searched_snapshot(v).full
            &&& frame::searched_snapshot(v).lines.len() == v.term.grid.lines + 1
            &&& frame::searched_snapshot(v).lines[row].line == row
            &&& data == (CellData { flags: data.flags, ..plain })
            &&& data.flags & 0xF9FF == plain.flags & 0xF9FF
            &&& v.search is None ==> data == plain
            &&& v.search matches Some(pattern) ==> {
                let matches = seek::shown_matches(v.term.grid, pattern, v.term.offset);
                &&& data.flags & 0x0200 != 0 <==> exists|k: int|
                    0 <= k < matches.len() && is_between(#[trigger] matches[k], line, col)
                &&& data.flags & 0x0400 != 0 <==> v.current_match is Some && is_between(
                    v.current_match->0,
                    line,
                    col,
                )
            }
        }),
{
    let plain = frame::snapshot(v).lines[row].cells[col];
    law_snapshot_shows_the_grid(v, row, col);
    let f = plain.flags;
    assert((f | 0x0200u16) & 0xF9FFu16 == f & 0xF9FFu16 && (f | 0x0400u16) & 0xF9FFu16 == f
        & 0xF9FFu16 && (f | 0x0200u16 | 0x0400u16) & 0xF9FFu16 == f & 0xF9FFu16) by (bit_vector);
    if let Some(pattern) = v.search {
        let matches = seek::shown_matches(v.term.grid, pattern, v.term.offset);
        let line = row - v.term.offset;
        laws::law_highlights_show_the_matches(plain, line, col, matches, v.current_match);
        if screen::in_some_match(matches, line, col) {
            let k = choose|k: int|
                0 <= k < matches.len() && screen::in_range(#[trigger] matches[k], line, col);
            assert(is_between(matches[k], line, col));
        }
        if exists|k: int| 0 <= k < matches.len() && is_between(#[trigger] matches[k], line, col) {
            let k = choose|k: int|
                0 <= k < matches.len() && is_between(#[trigger] matches[k], line, col);
            assert(screen::in_range(matches[k], line, col));
        }
    }
}

/// The cell stands between the ends of the range, in reading order, or on one of them.
pub open spec fn is_between(r: CellRange, line: int, col: int) -> bool {
    let behind = if line == r.start_line {
        r.start_col <= col
    } else {
        r.start_line < line
    };
    let before = if line == r.end_line {
        col <= r.end_col
    } else {
        line < r.end_line
    };
    behind && before
}

} // verus!
