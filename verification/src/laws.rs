//! What holds of the engine across its operations.

use crate::config;
use crate::csi_mode_scan::ColorSchemeToggle;
use crate::event_proxy;
use crate::event_proxy::EventView;
use crate::frame;
use crate::frame::{EngineView, Feed};
use crate::osc_preparse;
use crate::palette;
use crate::palette::Theme;
use crate::screen;
use crate::screen::{
    CellData, LineView, RenderView, FLAG_HYPERLINK, FLAG_MATCH, FLAG_MATCH_CURRENT, FLAG_SELECTED,
};
use crate::seek;
use crate::term_bridge;
use crate::term_bridge::AnsiParser;
use crate::term_model;
use crate::term_model::{
    CellRange, CellView, GridState, TermState, CELL_WIDE_CHAR, CELL_WIDE_CHAR_SPACER, MODE_INSERT,
};
use crate::view_frame::OVERSCAN_LINE_TAG;
use alacritty_terminal::event::Event;
use vstd::prelude::*;

verus! {

/// Every URI of the row has its id, as far as there are ids.
pub open spec fn row_linked(table: Seq<Seq<char>>, row: Seq<CellView>) -> bool {
    forall|c: int|
        0 <= c < row.len() && (#[trigger] row[c]).link is Some ==> table.contains(row[c].link->0)
            || table.len() >= u32::MAX
}

proof fn row_stays_linked(table: Seq<Seq<char>>, row: Seq<CellView>, more: Seq<Seq<CellView>>)
    requires
        screen::links_wf(table),
        row_linked(table, row),
    ensures
        row_linked(screen::interned_rows(table, more), row),
{
    screen::law_links_only_grow(table, more);
    let after = screen::interned_rows(table, more);
    assert forall|c: int|
        0 <= c < row.len() && (#[trigger] row[c]).link is Some && table.contains(
            row[c].link->0,
        ) implies after.contains(row[c].link->0) by {
        let i = table.index_of(row[c].link->0);
        assert(0 <= i < table.len() && table[i] == row[c].link->0);
        assert(after.take(table.len() as int)[i] == after[i]);
    }
}

proof fn interned_row_is_linked(table: Seq<Seq<char>>, row: Seq<CellView>)
    requires
        screen::links_wf(table),
    ensures
        screen::links_wf(screen::interned_row(table, row)),
        row_linked(screen::interned_row(table, row), row),
    decreases row.len(),
{
    if row.len() > 0 {
        let front = row.drop_last();
        interned_row_is_linked(table, front);
        let before = screen::interned_row(table, front);
        let after = screen::interned_row(table, row);
        if let Some(uri) = row.last().link {
            if !before.contains(uri) && before.len() < u32::MAX {
                assert(after[before.len() as int] == uri);
                assert forall|u: Seq<char>| before.contains(u) implies after.contains(u) by {
                    let i = before.index_of(u);
                    assert(0 <= i < before.len() && before[i] == u);
                    assert(after[i] == u);
                }
            }
        }
        assert forall|c: int| 0 <= c < row.len() && (#[trigger] row[c]).link is Some implies {
            after.contains(row[c].link->0) || after.len() >= u32::MAX
        } by {
            if c < front.len() {
                assert(front[c] == row[c]);
            }
        }
    }
}

pub(crate) proof fn interned_rows_are_linked(
    table: Seq<Seq<char>>,
    rows: Seq<Seq<CellView>>,
    i: int,
)
    requires
        screen::links_wf(table),
        0 <= i < rows.len(),
    ensures
        row_linked(screen::interned_rows(table, rows), rows[i]),
    decreases rows.len(),
{
    let front = rows.drop_last();
    screen::law_links_only_grow(table, front);
    let before = screen::interned_rows(table, front);
    if i < front.len() {
        interned_rows_are_linked(table, front, i);
        let last = seq![rows.last()];
        row_stays_linked(before, rows[i], last);
        assert(last.drop_last() =~= Seq::<Seq<CellView>>::empty());
        assert(screen::interned_rows(before, last) == screen::interned_row(
            screen::interned_rows(before, last.drop_last()),
            last.last(),
        ));
    } else {
        interned_row_is_linked(before, rows.last());
    }
}

proof fn linked_row_keeps_its_look(
    t: Theme,
    table: Seq<Seq<char>>,
    row: Seq<CellView>,
    line: int,
    selection: Option<CellRange>,
    more: Seq<Seq<CellView>>,
)
    requires
        screen::links_wf(table),
        row_linked(table, row),
    ensures
        screen::shown_row(t, screen::interned_rows(table, more), row, line, selection)
            == screen::shown_row(t, table, row, line, selection),
{
    let after = screen::interned_rows(table, more);
    assert forall|c: int| 0 <= c < row.len() implies screen::painted(t, after, #[trigger] row[c])
        == screen::painted(t, table, row[c]) by {
        if let Some(uri) = row[c].link {
            if table.contains(uri) {
                screen::law_link_ids_are_stable(table, uri, more);
            } else {
                full_table_stays(table, more);
            }
        }
    }
    match selection {
        Some(r) => {
            let a = Seq::new(
                row.len(),
                |c: int|
                    screen::flagged(
                        screen::painted(t, after, row[c]),
                        FLAG_SELECTED,
                        screen::in_range(r, line, c),
                    ),
            );
            let b = Seq::new(
                row.len(),
                |c: int|
                    screen::flagged(
                        screen::painted(t, table, row[c]),
                        FLAG_SELECTED,
                        screen::in_range(r, line, c),
                    ),
            );
            assert(a =~= b);
        },
        None => {
            assert(screen::painted_row(t, after, row) =~= screen::painted_row(t, table, row));
        },
    }
}

proof fn full_row_stays(table: Seq<Seq<char>>, row: Seq<CellView>)
    requires
        table.len() >= u32::MAX,
    ensures
        screen::interned_row(table, row) == table,
    decreases row.len(),
{
    if row.len() > 0 {
        full_row_stays(table, row.drop_last());
    }
}

proof fn full_table_stays(table: Seq<Seq<char>>, rows: Seq<Seq<CellView>>)
    requires
        table.len() >= u32::MAX,
    ensures
        screen::interned_rows(table, rows) == table,
    decreases rows.len(),
{
    if rows.len() > 0 {
        full_table_stays(table, rows.drop_last());
        full_row_stays(table, rows.last());
    }
}

/// A host's rows are the rows of the viewport, and every URI in them has its id.
pub open spec fn mirrors(rows: Seq<Seq<CellData>>, v: EngineView) -> bool {
    &&& rows.len() == v.term.grid.lines
    &&& forall|i: int|
        #![trigger rows[i]]
        0 <= i < rows.len() ==> {
            &&& rows[i] == v.shown_line(i - v.term.offset)
            &&& row_linked(v.hyperlinks, v.term.grid.row(i - v.term.offset))
        }
}

/// The cells of the line with this tag, if there is one.
pub open spec fn tagged(lines: Seq<LineView>, tag: int) -> Option<Seq<CellData>>
    decreases lines.len(),
{
    if lines.len() == 0 {
        None
    } else if lines.last().line == tag {
        Some(lines.last().cells)
    } else {
        tagged(lines.drop_last(), tag)
    }
}

/// A host's rows once it took an update: it rotates them by the update's delta, and
/// puts the shipped lines in their places.
pub open spec fn mirror_applied(
    rows: Seq<Seq<CellData>>,
    update: RenderView,
) -> Seq<Seq<CellData>> {
    Seq::new(
        rows.len(),
        |i: int|
            match tagged(update.lines, i) {
                Some(cells) => cells,
                None => rows[i - update.scroll_line_delta],
            },
    )
}

proof fn tagged_viewport_line(v: EngineView, first: int, count: int, i: int)
    requires
        0 <= first,
        0 <= count,
        first + count <= 65535,
        0 <= i <= 65535,
    ensures
        tagged(frame::viewport_lines(v, first, count), i) == (if first <= i < first + count {
            Some(v.shown_line(i - v.term.offset))
        } else {
            None
        }),
    decreases count,
{
    let lines = frame::viewport_lines(v, first, count);
    if count > 0 {
        tagged_viewport_line(v, first, count - 1, i);
        assert(lines.drop_last() =~= frame::viewport_lines(v, first, count - 1));
    }
}

proof fn tagged_behind(lines: Seq<LineView>, other: LineView, tag: int)
    requires
        other.line != tag,
    ensures
        tagged(lines.push(other), tag) == tagged(lines, tag),
{
    assert(lines.push(other).drop_last() =~= lines);
}

/// A host that takes a full snapshot holds the rows of the viewport.
pub proof fn law_snapshot_makes_a_mirror(u: EngineView, rows: Seq<Seq<CellData>>)
    requires
        u.wf(),
        rows.len() == u.term.grid.lines,
    ensures
        ({
            let v = frame::with_links(u, frame::snapshot_cells(u.term));
            mirrors(mirror_applied(rows, frame::snapshot(v)), v)
        }),
{
    let cells = frame::snapshot_cells(u.term);
    let v = frame::with_links(u, cells);
    let update = frame::snapshot(v);
    let after = mirror_applied(rows, update);
    let n = u.term.grid.lines;
    assert forall|i: int|
        #![trigger after[i]]
        0 <= i < after.len() implies after[i] == v.shown_line(i - v.term.offset) by {
        tagged_viewport_line(v, 0, n, i);
        tagged_behind(
            frame::viewport_lines(v, 0, n),
            LineView { line: n as u32, cells: v.overscan() },
            i,
        );
    }
    assert forall|i: int|
        #![trigger after[i]]
        0 <= i < after.len() implies row_linked(
        v.hyperlinks,
        v.term.grid.row(i - v.term.offset),
    ) by {
        assert(cells[i] == u.term.grid.row(i - u.term.offset));
        interned_rows_are_linked(u.hyperlinks, cells, i);
    }
}

/// A host that holds the rows of the viewport, rotates them by a scroll refresh's
/// delta and puts the shipped lines in their places, holds the rows of the viewport
/// after the scroll: the rows that entered the view are all that has to be shipped.
pub proof fn law_scroll_refresh_keeps_the_mirror(
    v: EngineView,
    rows: Seq<Seq<CellData>>,
    delta: int,
    fraction: u64,
)
    requires
        v.wf(),
        mirrors(rows, v),
    ensures
        ({
            let scrolled = EngineView {
                term: term_model::scrolled(v.term, delta),
                scroll_fraction: fraction,
                ..v
            };
            let net = scrolled.term.offset - v.term.offset;
            let w = frame::with_links(scrolled, frame::refresh_cells(scrolled.term, net));
            mirrors(mirror_applied(rows, frame::refreshed(w, net as i32)), w)
        }),
{
    let scrolled = EngineView {
        term: term_model::scrolled(v.term, delta),
        scroll_fraction: fraction,
        ..v
    };
    let net = scrolled.term.offset - v.term.offset;
    let cells = frame::refresh_cells(scrolled.term, net);
    let w = frame::with_links(scrolled, cells);
    let update = frame::refreshed(w, net as i32);
    let after = mirror_applied(rows, update);
    let n = v.term.grid.lines;
    let first = frame::edge_first(n, net);
    let count = frame::edge_count(n, net);
    assert forall|i: int|
        #![trigger after[i]]
        0 <= i < after.len() implies after[i] == w.shown_line(i - w.term.offset) && row_linked(
        w.hyperlinks,
        w.term.grid.row(i - w.term.offset),
    ) by {
        tagged_viewport_line(w, first, count, i);
        tagged_behind(
            frame::viewport_lines(w, first, count),
            LineView { line: OVERSCAN_LINE_TAG, cells: w.overscan() },
            i,
        );
        let row = w.term.grid.row(i - w.term.offset);
        if first <= i < first + count {
            assert(cells[i - first] == row);
            interned_rows_are_linked(v.hyperlinks, cells, i - first);
        } else {
            let from = i - net;
            assert(rows[from] == v.shown_line(from - v.term.offset));
            row_stays_linked(v.hyperlinks, row, cells);
            linked_row_keeps_its_look(
                v.theme(),
                v.hyperlinks,
                row,
                i - w.term.offset,
                v.selection(),
                cells,
            );
        }
    }
}

/// A host that holds the rows of the viewport and takes the answer to a scroll, holds
/// the rows of the viewport after the scroll, as long as no search highlights them.
pub proof fn law_scroll_answer_keeps_the_mirror(
    v: EngineView,
    rows: Seq<Seq<CellData>>,
    delta: int,
    asked: int,
    fraction: u64,
)
    requires
        v.wf(),
        v.search is None,
        mirrors(rows, v),
        frame::is_fraction(fraction),
    ensures
        ({
            let scrolled = EngineView {
                term: term_model::scrolled(v.term, delta),
                scroll_fraction: fraction,
                ..v
            };
            let net = scrolled.term.offset - v.term.offset;
            let w = frame::with_links(scrolled, frame::scroll_cells(scrolled, asked, net));
            mirrors(mirror_applied(rows, frame::scroll_answer(w, asked, net as i32)), w)
        }),
{
    let scrolled = EngineView {
        term: term_model::scrolled(v.term, delta),
        scroll_fraction: fraction,
        ..v
    };
    if frame::scroll_is_full(scrolled, asked, scrolled.term.offset - v.term.offset) {
        law_snapshot_makes_a_mirror(scrolled, rows);
    } else {
        law_scroll_refresh_keeps_the_mirror(v, rows, delta, fraction);
    }
}

/// A full snapshot holds one line more than the viewport has rows; each line carries
/// its index as its tag and as many cells as the grid has columns.
pub proof fn law_snapshot_shape(v: EngineView, i: int)
    requires
        v.wf(),
        0 <= i <= v.term.grid.lines,
    ensures
        frame::snapshot(v).lines.len() == v.term.grid.lines + 1,
        frame::snapshot(v).lines[i].line == i,
        frame::snapshot(v).lines[i].cells.len() == v.term.grid.columns,
        frame::snapshot(v).full,
        frame::snapshot(v).scroll_line_delta == 0,
{
}

/// A scroll keeps the viewport inside the history, moves it by what was asked for as
/// far as the history goes, and changes no cell.
pub proof fn law_scroll_stays_in_history(s: TermState, delta: int)
    requires
        s.wf(),
    ensures
        ({
            let after = term_model::scrolled(s, delta);
            &&& after.wf()
            &&& 0 <= after.offset <= after.grid.history
            &&& after.grid == s.grid
            &&& 0 <= s.offset + delta <= s.grid.history ==> after.offset == s.offset + delta
            &&& s.offset + delta < 0 ==> after.offset == 0
            &&& s.offset + delta > s.grid.history ==> after.offset == s.grid.history
        }),
{
}

/// A scroll that started in the history and did not run into an end of it is undone by its
/// opposite.
pub proof fn law_scroll_back(s: TermState, delta: int)
    requires
        s.wf(),
        s.offset <= s.grid.history,
        0 <= s.offset + delta <= s.grid.history,
    ensures
        term_model::scrolled(term_model::scrolled(s, delta), -delta).offset == s.offset,
        term_model::scrolled(term_model::scrolled(s, delta), -delta).grid == s.grid,
{
}

/// Sub-cell scrolls leave a fraction from zero up to, but not including, one. They
/// never leave one above zero where there is no line above the viewport to reveal, nor
/// where they ran into an end of the history, and keep it everywhere else.
pub proof fn law_fraction_needs_a_line_above(v: EngineView, lines: int, fraction: u64)
    requires
        v.wf(),
    ensures
        ({
            let after = frame::pixels_scrolled(v, lines, fraction);
            &&& frame::is_fraction(after.scroll_fraction)
            &&& frame::is_positive(after.scroll_fraction) ==> after.term.offset
                < after.term.grid.history
            &&& after.term.offset != frame::pixel_target(v.term, lines) ==> after.scroll_fraction
                == 0
            &&& frame::is_fraction(fraction) && 0 <= frame::pixel_target(v.term, lines)
                < v.term.grid.history ==> after.scroll_fraction == fraction
        }),
{
}

/// A match that a search found is in view, and the viewport does not move for one
/// that was in view before.
pub proof fn law_found_match_is_in_view(v: EngineView, m: CellRange)
    requires
        v.wf(),
        v.term.grid.has_range(m),
    ensures
        ({
            let after = frame::focused(v, Some(m));
            &&& after.wf()
            &&& after.current_match == Some(m)
            &&& 0 <= m.start_line + after.term.offset < after.term.grid.lines
            &&& 0 <= m.start_line + v.term.offset < v.term.grid.lines ==> after.term.offset
                == v.term.offset
        }),
{
}

/// A search finds a match if and only if there is one on its way around the grid: where
/// none starts at its origin or past it, the first one on the way is found again.
pub proof fn law_search_finds_what_there_is(
    g: GridState,
    pattern: Seq<char>,
    cell: (int, int),
    to_right: bool,
)
    ensures
        ({
            let origin = if to_right {
                seek::widened_right(g, cell)
            } else {
                seek::widened_left(g, cell)
            };
            let (first, end) = seek::round_trip(g, origin, to_right);
            seek::found(g, pattern, cell, to_right) is Some <==> seek::hit(
                g,
                pattern,
                first,
                end,
                to_right,
            ) is Some
        }),
{
}

/// What a search finds starts at its origin or past it, or is the first match on its
/// way.
pub proof fn law_sought_match_is_beyond(
    g: GridState,
    pattern: Seq<char>,
    first: (int, int),
    origin: (int, int),
    at: (int, int),
    end: (int, int),
    to_right: bool,
)
    ensures
        seek::sought(g, pattern, first, origin, at, end, to_right) matches Some(m)
            ==> seek::is_beyond(first, origin, m, to_right),
    decreases seek::steps(g, first, end, to_right) - seek::steps(g, first, at, to_right),
{
    if let Some(m) = seek::hit(g, pattern, at, end, to_right) {
        let next = seek::past(g, m, to_right);
        if !seek::is_beyond(first, origin, m, to_right) && seek::goes_on(
            g,
            first,
            at,
            next,
            end,
            to_right,
        ) {
            law_sought_match_is_beyond(g, pattern, first, origin, next, end, to_right);
        }
    }
}

/// Inside the grid, the cell behind the cell before a cell is that cell, and so is
/// the cell before the cell behind it. A search takes the same steps on its way.
pub proof fn law_cell_steps_undo_each_other(g: GridState, line: int, col: int)
    requires
        g.columns >= 2,
        g.lines >= 1,
        g.history >= 0,
        g.has(line, col),
    ensures
        ({
            let next = frame::cell_after(g, line, col);
            &&& g.has(next.0, next.1)
            &&& next == seek::after(g, (line, col))
            &&& frame::cell_before(g, next.0, next.1) == (line, col)
        }),
        ({
            let prev = frame::cell_before(g, line, col);
            &&& g.has(prev.0, prev.1)
            &&& prev == seek::before(g, (line, col))
            &&& frame::cell_after(g, prev.0, prev.1) == (line, col)
        }),
{
    let total = g.history + g.lines;
    let at = line + g.history;
    small_mod(at, total);
    small_mod(col + 1, g.columns);
    small_mod(at + 1, total);
    small_mod(at - 1 + total, total);
    small_mod(g.columns + col - 1, g.columns);
    small_mod(0, total);
    small_mod(total - 1, total);
    let up = frame::cell_before(g, line, col);
    let down = frame::cell_after(g, line, col);
    vstd::arithmetic::div_mod::lemma_mod_add_multiples_vanish(at - 1, total);
    small_mod(g.columns - 1 + 1, g.columns);
    small_mod(g.columns + down.1 - 1, g.columns);
    small_mod(up.1 + 1, g.columns);
    small_mod(down.0 + g.history, total);
    small_mod(up.0 + g.history, total);
    small_mod(up.0 + g.history + 1, total);
    vstd::arithmetic::div_mod::lemma_mod_add_multiples_vanish(down.0 + g.history - 1, total);
    small_mod(down.0 + g.history - 1 + total, total);
}

proof fn small_mod(x: int, m: int)
    requires
        0 <= x < 2 * m,
    ensures
        x % m == (if x < m {
            x
        } else {
            x - m
        }),
        x / m == (if x < m {
            0int
        } else {
            1
        }),
{
    if x < m {
        vstd::arithmetic::div_mod::lemma_fundamental_div_mod_converse(x, m, 0, x);
    } else {
        vstd::arithmetic::div_mod::lemma_fundamental_div_mod_converse(x, m, 1, x - m);
    }
}

/// Once the damage was taken, nothing is damaged but the row of the cursor, which
/// always counts as damaged, as long as insert mode is off.
pub proof fn law_damage_is_taken_once(s: TermState)
    requires
        term_model::mode_off(s.mode, MODE_INSERT),
    ensures
        ({
            let after = term_model::damage_reset(term_model::damage_read(s));
            &&& !term_model::fully_damaged(after)
            &&& term_model::damaged_rows(after) == set![s.cursor_line as int]
        }),
{
    let after = term_model::damage_reset(term_model::damage_read(s));
    assert(term_model::damaged_rows(after) =~= set![s.cursor_line as int]);
}

/// Taking the damage twice in a row ships at most one line the second time, as long as
/// insert mode is off and the viewport is flush at the live edge.
pub proof fn law_second_damage_is_small(v: EngineView)
    requires
        v.wf(),
        frame::at_live_edge(v),
        term_model::mode_off(v.term.mode, MODE_INSERT),
    ensures
        ({
            let again = frame::damage_shipped(frame::damage_taken(v));
            !again.full && again.lines.len() <= 1
        }),
{
    law_damage_is_taken_once(v.term);
    let s = frame::damage_taken(v).term;
    rows_of_one(term_model::damaged_rows(s), v.term.cursor_line as int, s.grid.lines);
}

proof fn rows_of_one(set: Set<int>, only: int, n: int)
    requires
        forall|row: int| #[trigger] set.contains(row) ==> row == only,
    ensures
        frame::rows_in(set, n).len() <= 1,
        n <= only ==> frame::rows_in(set, n).len() == 0,
    decreases n,
{
    if n > 0 {
        rows_of_one(set, only, n - 1);
    }
}

/// A partial damage update ships each damaged row of the screen once, and no other.
pub proof fn law_damaged_rows_are_shipped(set: Set<int>, n: int, row: int)
    requires
        0 <= row < n,
    ensures
        frame::rows_in(set, n).contains(row) <==> set.contains(row),
        frame::rows_in(set, n).no_duplicates(),
    decreases n,
{
    let before = frame::rows_in(set, n - 1);
    let rows = frame::rows_in(set, n);
    rows_are_under(set, n - 1);
    if row < n - 1 {
        law_damaged_rows_are_shipped(set, n - 1, row);
        if set.contains(n - 1) {
            if before.contains(row) {
                let i = before.index_of(row);
                assert(0 <= i < before.len() && before[i] == row);
                assert(rows[i] == row);
            }
            if rows.contains(row) {
                let i = rows.index_of(row);
                assert(0 <= i < rows.len() && rows[i] == row);
                assert(before[i] == row);
            }
        }
    } else {
        if n - 1 > 0 {
            law_damaged_rows_are_shipped(set, n - 1, 0);
        }
        if set.contains(n - 1) {
            assert(rows[before.len() as int] == row);
        } else if rows.contains(row) {
            let i = rows.index_of(row);
            assert(0 <= i < rows.len() && rows[i] == row);
        }
    }
}

proof fn rows_are_under(set: Set<int>, n: int)
    ensures
        forall|i: int|
            0 <= i < frame::rows_in(set, n).len() ==> 0 <= #[trigger] frame::rows_in(set, n)[i] < n,
    decreases n,
{
    if n > 0 {
        rows_are_under(set, n - 1);
        let before = frame::rows_in(set, n - 1);
        let rows = frame::rows_in(set, n);
        assert forall|i: int| 0 <= i < rows.len() implies 0 <= #[trigger] rows[i] < n by {
            if i < before.len() {
                assert(rows[i] == before[i]);
            }
        }
    }
}

/// A cell that the selection takes in is shown selected; a cell that it does not take
/// in is shown selected only as one half of a wide character.
pub proof fn law_selection_is_shown(
    t: Theme,
    links: Seq<Seq<char>>,
    row: Seq<CellView>,
    line: int,
    r: CellRange,
    c: int,
)
    requires
        0 <= c < row.len(),
    ensures
        ({
            let plain = screen::painted_row(t, links, row);
            let shown = screen::shown_row(t, links, row, line, Some(r));
            &&& screen::in_range(r, line, c) ==> screen::is_selected(shown[c])
            &&& screen::is_selected(shown[c]) && !screen::in_range(r, line, c)
                ==> screen::wide_pair(plain, c) || screen::wide_pair(plain, c - 1)
        }),
{
    let plain = screen::painted_row(t, links, row);
    let marked = Seq::new(
        row.len(),
        |c: int|
            screen::flagged(
                screen::painted(t, links, row[c]),
                FLAG_SELECTED,
                screen::in_range(r, line, c),
            ),
    );
    assert forall|i: int| 0 <= i < row.len() implies !screen::is_selected(plain[i]) && (
    screen::is_selected(marked[i]) <==> screen::in_range(r, line, i)) && marked[i].flags
        & screen::FLAG_WIDE == plain[i].flags & screen::FLAG_WIDE && marked[i].flags
        & screen::FLAG_WIDE_SPACER == plain[i].flags & screen::FLAG_WIDE_SPACER by {
        painted_flags(t, links, row[i]);
        marked_flags(plain[i].flags);
    }
    assert(screen::shown_row(t, links, row, line, Some(r)) == screen::pairs_bound(marked));
    marked_flags(marked[c].flags);
    reveal_with_fuel(screen::carries_selection, 2);
}

/// Where the selection takes in no cell, no cell of a snapshot is shown selected.
pub proof fn law_without_a_selection_none_is_shown(v: EngineView, i: int, c: int)
    requires
        v.wf(),
        v.selection() is None,
        0 <= i <= v.term.grid.lines,
        0 <= c < v.term.grid.columns,
    ensures
        !screen::is_selected(frame::snapshot(v).lines[i].cells[c]),
{
    let line = if i < v.term.grid.lines {
        i - v.term.offset
    } else {
        -v.term.offset - 1
    };
    painted_flags(v.theme(), v.hyperlinks, v.term.grid.row(line)[c]);
    assert(0u16 & 0x0100u16 == 0) by (bit_vector);
}

/// A snapshot never shows a wide character half selected: of its two cells, both are
/// selected or none is.
pub proof fn law_snapshot_never_splits_a_glyph(v: EngineView, i: int, c: int)
    requires
        v.wf(),
        0 <= i <= v.term.grid.lines,
        screen::wide_pair(frame::snapshot(v).lines[i].cells, c),
    ensures
        screen::is_selected(frame::snapshot(v).lines[i].cells[c]) == screen::is_selected(
            frame::snapshot(v).lines[i].cells[c + 1],
        ),
{
    let cells = frame::snapshot(v).lines[i].cells;
    let blank = i == v.term.grid.lines && v.term.offset >= v.term.grid.history;
    let line = if i < v.term.grid.lines {
        i - v.term.offset
    } else {
        -v.term.offset - 1
    };
    assert(0u16 & 0x0010u16 == 0 && 0u16 & 0x0100u16 == 0 && 0u16 & 0x0020u16 == 0)
        by (bit_vector);
    if !blank {
        let row = v.term.grid.row(line);
        let plain = screen::painted_row(v.theme(), v.hyperlinks, row);
        assert forall|j: int| 0 <= j < row.len() implies !screen::is_selected(plain[j]) && !((
        #[trigger] plain[j]).flags & screen::FLAG_WIDE != 0 && plain[j].flags
            & screen::FLAG_WIDE_SPACER != 0) by {
            painted_flags(v.theme(), v.hyperlinks, row[j]);
            if v.term.grid.has_line(line) {
                assert(row[j] == v.term.grid.cells[(line, j)]);
            }
        }
        if let Some(r) = v.selection() {
            let marked = Seq::new(
                row.len(),
                |c: int|
                    screen::flagged(
                        screen::painted(v.theme(), v.hyperlinks, row[c]),
                        FLAG_SELECTED,
                        screen::in_range(r, line, c),
                    ),
            );
            assert(cells == screen::pairs_bound(marked));
            assert forall|j: int| 0 <= j < marked.len() implies (#[trigger] marked[j]).flags
                & screen::FLAG_WIDE == plain[j].flags & screen::FLAG_WIDE && marked[j].flags
                & screen::FLAG_WIDE_SPACER == plain[j].flags & screen::FLAG_WIDE_SPACER by {
                marked_flags(plain[j].flags);
            }
            marked_flags(marked[c].flags);
            marked_flags(marked[c + 1].flags);
            screen::law_wide_glyph_is_never_split(marked, c);
        }
    }
}

proof fn marked_flags(f: u16)
    ensures
        (f | FLAG_SELECTED) & FLAG_SELECTED != 0,
        (f | FLAG_SELECTED) & screen::FLAG_WIDE == f & screen::FLAG_WIDE,
        (f | FLAG_SELECTED) & screen::FLAG_WIDE_SPACER == f & screen::FLAG_WIDE_SPACER,
{
    assert((f | 0x0100u16) & 0x0100u16 != 0 && (f | 0x0100u16) & 0x0010u16 == f & 0x0010u16 && (f
        | 0x0100u16) & 0x0020u16 == f & 0x0020u16) by (bit_vector);
}

proof fn painted_flags(t: Theme, links: Seq<Seq<char>>, c: CellView)
    ensures
        ({
            let f = screen::painted(t, links, c).flags;
            &&& f & FLAG_SELECTED == 0
            &&& f & FLAG_MATCH == 0
            &&& f & FLAG_MATCH_CURRENT == 0
            &&& f & FLAG_HYPERLINK != 0 <==> c.link is Some
            &&& f & screen::FLAG_WIDE != 0 <==> c.flags & CELL_WIDE_CHAR != 0
            &&& f & screen::FLAG_WIDE_SPACER != 0 <==> c.flags & CELL_WIDE_CHAR_SPACER != 0
        }),
{
    let style = screen::style_flags(c.flags);
    screen::law_flags_show_attributes(c.flags);
    assert((style | 0x0800u16) & 0x0100u16 == 0 && (style | 0x0800u16) & 0x0200u16 == 0 && (style
        | 0x0800u16) & 0x0400u16 == 0 && (style | 0x0800u16) & 0x0800u16 != 0 && style & 0x0100u16
        == 0 && style & 0x0200u16 == 0 && style & 0x0400u16 == 0 && style & 0x0800u16 == 0 && (style
        | 0x0800u16) & 0x0010u16 == style & 0x0010u16 && (style | 0x0800u16) & 0x0020u16 == style
        & 0x0020u16) by (bit_vector)
        requires
            style & 0xFF00u16 == 0,
    ;
}

/// A cell is flagged as a hyperlink if and only if it is one, and only then has an id.
pub proof fn law_only_hyperlinks_are_flagged(t: Theme, links: Seq<Seq<char>>, c: CellView)
    ensures
        screen::painted(t, links, c).flags & FLAG_HYPERLINK != 0 <==> c.link is Some,
        c.link is None ==> screen::painted(t, links, c).hyperlink_id == 0,
{
    painted_flags(t, links, c);
}

/// The search highlights show the matches: a cell without highlights gets the one flag
/// if and only if some match holds it, and the other if and only if the current match
/// does.
pub proof fn law_highlights_show_the_matches(
    c: CellData,
    line: int,
    col: int,
    matches: Seq<CellRange>,
    current: Option<CellRange>,
)
    requires
        c.flags & FLAG_MATCH == 0,
        c.flags & FLAG_MATCH_CURRENT == 0,
    ensures
        ({
            let after = screen::highlighted(c, line, col, matches, current);
            &&& after.flags & FLAG_MATCH != 0 <==> screen::in_some_match(matches, line, col)
            &&& after.flags & FLAG_MATCH_CURRENT != 0 <==> current is Some && screen::in_range(
                current->0,
                line,
                col,
            )
        }),
{
    let f = c.flags;
    assert((f | 0x0200u16) & 0x0200u16 != 0 && (f | 0x0200u16) & 0x0400u16 == 0 && (f | 0x0400u16)
        & 0x0400u16 != 0 && (f | 0x0400u16) & 0x0200u16 == 0 && (f | 0x0200u16 | 0x0400u16)
        & 0x0200u16 != 0 && (f | 0x0200u16 | 0x0400u16) & 0x0400u16 != 0) by (bit_vector)
        requires
            f & 0x0200u16 == 0,
            f & 0x0400u16 == 0,
    ;
}

/// A new terminal shows blanks in the default colors, whatever the palette.
pub proof fn law_new_terminal_is_blank(v: EngineView, columns: int, lines: int, row: int, col: int)
    requires
        v.term == term_model::damage_reset(
            term_model::fresh(v.term.options, columns, lines, v.term.listener),
        ),
        v.selection() is None,
        0 <= row < lines,
        0 <= col < columns,
    ensures
        frame::snapshot(v).lines[row].cells[col] == screen::blank_data(v.theme()),
{
    let bits = 0u16;
    assert(screen::style_flags(bits) == 0) by (bit_vector)
        requires
            bits == 0,
    ;
    assert(v.term.grid.row(row)[col] == term_model::blank_cell());
    assert(' ' as u32 == 0x20);
}

/// Each subscription is answered with one report of the current color scheme, and
/// nothing else is.
pub proof fn law_each_subscription_is_answered(background: u32, toggles: Seq<ColorSchemeToggle>)
    ensures
        frame::toggle_reports(background, toggles).len() == toggles.filter(
            |t: ColorSchemeToggle| t is Subscribe,
        ).len(),
        forall|i: int|
            0 <= i < frame::toggle_reports(background, toggles).len()
                ==> #[trigger] frame::toggle_reports(background, toggles)[i]
                == frame::scheme_report(background),
    decreases toggles.len(),
{
    reveal(Seq::filter);
    if toggles.len() > 0 {
        law_each_subscription_is_answered(background, toggles.drop_last());
        let before = frame::toggle_reports(background, toggles.drop_last());
        let reports = frame::toggle_reports(background, toggles);
        assert forall|i: int| 0 <= i < reports.len() implies #[trigger] reports[i]
            == frame::scheme_report(background) by {
            if i < before.len() {
                assert(reports[i] == before[i]);
            }
        }
    }
}

/// As long as the selection's line numbers have room, the parser is handed its whole input
/// at once, and the terminal keeps its selection until then.
pub proof fn law_input_with_room_is_one_piece(
    bytes: Seq<u8>,
    parser: AnsiParser,
    term: TermState,
    feeds: Seq<Feed>,
)
    requires
        frame::is_feeding(bytes, parser, term, feeds),
        feeds.last().read == bytes.len(),
        bytes.len() > 0,
        term_model::is_moored(term, term_bridge::sync_pending(parser) + bytes.len()),
    ensures
        feeds.len() == 2,
        term_bridge::parse_outcome(
            parser,
            term,
            bytes,
            feeds[1].parser,
            feeds[1].term,
            feeds[1].told,
        ),
{
    first_piece_is_all(bytes, parser, term, feeds);
    let start = Feed { parser, term, told: Seq::<Event>::empty(), read: 0 };
    assert(feeds.len() >= 2);
    assert(feeds.len() == 2 ==> feeds.drop_last() =~= seq![start]);
    let end = feeds[1];
    assert(bytes.subrange(0, end.read) =~= bytes);
    assert(end.told.skip(0) =~= end.told);
}

proof fn first_piece_is_all(
    bytes: Seq<u8>,
    parser: AnsiParser,
    term: TermState,
    feeds: Seq<Feed>,
)
    requires
        frame::is_feeding(bytes, parser, term, feeds),
        bytes.len() > 0,
        term_model::is_moored(term, term_bridge::sync_pending(parser) + bytes.len()),
    ensures
        1 <= feeds.len() <= 2,
        feeds[0] == (Feed { parser, term, told: Seq::<Event>::empty(), read: 0 }),
        feeds.len() == 2 ==> feeds.last().read == bytes.len(),
        feeds.len() == 2 ==> frame::is_piece(bytes, feeds[0], feeds[1]),
    decreases feeds.len(),
{
    if feeds.len() > 1 {
        first_piece_is_all(bytes, parser, term, feeds.drop_last());
    }
}

/// Where there is no selection, there is room for any input.
pub proof fn law_without_a_selection_there_is_room(s: TermState, n: int)
    requires
        s.selection is None,
    ensures
        term_model::is_moored(s, n),
        term_model::moored(s, n) == s,
{
}

/// What a terminal tells reaches the host: every told event that is reported is among the
/// events that the engine took over.
pub proof fn law_told_events_reach_the_host(v: EngineView, told: Seq<Event>, i: int)
    requires
        0 <= i < told.len(),
        event_proxy::reported(event_proxy::event_content(told[i])) is Some,
    ensures
        frame::overheard(v, told).events.contains(
            event_proxy::reported(event_proxy::event_content(told[i]))->0,
        ),
{
    let reports = told.map_values(
        |e: Event| event_proxy::reported(event_proxy::event_content(e)),
    );
    some_is_kept(reports, i);
    let heard = event_proxy::somes(reports);
    let k = heard.index_of(reports[i]->0);
    assert(0 <= k < heard.len() && heard[k] == reports[i]->0);
    assert(frame::overheard(v, told).events[v.events.len() + k] == heard[k]);
}

proof fn some_is_kept(s: Seq<Option<EventView>>, i: int)
    requires
        0 <= i < s.len(),
        s[i] is Some,
    ensures
        event_proxy::somes(s).contains(s[i]->0),
    decreases s.len(),
{
    let all = event_proxy::somes(s);
    let front = event_proxy::somes(s.drop_last());
    if i < s.len() - 1 {
        some_is_kept(s.drop_last(), i);
        let k = front.index_of(s[i]->0);
        assert(0 <= k < front.len() && front[k] == s[i]->0);
        assert(all[k] == front[k]);
    } else {
        assert(all[front.len() as int] == s[i]->0);
    }
}

/// The host events that the engine held before bytes were fed stay in front of those
/// that come of the bytes, in their order.
pub proof fn law_events_only_grow(
    v: EngineView,
    bytes: Seq<u8>,
    feeds: Seq<Feed>,
    colors: Seq<Option<EventView>>,
    sizes: Seq<Option<EventView>>,
    after: EngineView,
)
    requires
        frame::is_advance(v, bytes, feeds, colors, sizes, after),
    ensures
        v.events.is_prefix_of(after.events),
        (v.events + osc_preparse::extracted(bytes, 0).1).is_prefix_of(after.events),
{
    let osc = osc_preparse::extracted(bytes, 0).1;
    assert(v.events =~= after.events.take(v.events.len() as int));
    assert(v.events + osc =~= after.events.take((v.events + osc).len() as int));
}

/// A resize to the size that the grid has keeps everything but the sub-cell offset.
pub proof fn law_same_size_resize_keeps_the_screen(
    v: EngineView,
    columns: u16,
    rows: u16,
    after: EngineView,
)
    requires
        v.wf(),
        config::grid_size(columns, rows) == (v.term.grid.columns, v.term.grid.lines),
        frame::is_resize(v, columns, rows, after),
    ensures
        after == (EngineView { scroll_fraction: 0, ..v }),
{
}

/// A color that a program set shows in place of the configured one, and is what a query
/// of it is answered with.
pub proof fn law_set_color_wins(t: Theme, slot: int, fallback: u32)
    requires
        0 <= slot < term_model::COLOR_COUNT,
        t.colors.contains_key(slot),
    ensures
        palette::live_color(t, slot, fallback) == palette::packed(
            t.colors[slot].0,
            t.colors[slot].1,
            t.colors[slot].2,
        ),
        palette::queried_color(t, slot) == Some(t.colors[slot]),
{
}

} // verus!
