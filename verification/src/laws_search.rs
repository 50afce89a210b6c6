//! What holds of searching, selecting and scrolling, cell by cell and line by line.

use crate::frame;
use crate::frame::EngineView;
use crate::laws;
use crate::seek;
use crate::term_bridge;
use crate::term_model;
use crate::term_model::{Anchor, CellRange, GridState, SelectionView, TermState};
use vstd::prelude::*;

verus! {

/// The cell has the attribute.
pub open spec fn marked(g: GridState, p: (int, int), bit: u16) -> bool {
    g.cells[p].flags & bit != 0
}

/// The cell is no half of a wide character, nor the placeholder of one that did not fit on
/// its line.
pub open spec fn is_narrow(g: GridState, p: (int, int)) -> bool {
    !marked(g, p, 0x0020) && !marked(g, p, 0x0040) && !marked(g, p, 0x0400)
}

/// The next cell in reading order; the first one behind the last.
pub open spec fn is_next(g: GridState, p: (int, int), q: (int, int)) -> bool {
    &&& p.1 + 1 < g.columns ==> q == (p.0, p.1 + 1)
    &&& p.1 + 1 == g.columns && p.0 + 1 < g.lines ==> q == (p.0 + 1, 0int)
    &&& p.1 + 1 == g.columns && p.0 + 1 == g.lines ==> q == (-g.history, 0int)
}

/// The cells behind and before a cell are its neighbours in reading order.
pub proof fn law_cells_have_their_neighbours(g: GridState, p: (int, int))
    requires
        has_size(g),
        g.has(p.0, p.1),
    ensures
        is_next(g, p, seek::after(g, p)),
        is_next(g, seek::before(g, p), p),
        g.has(seek::after(g, p).0, seek::after(g, p).1),
        g.has(seek::before(g, p).0, seek::before(g, p).1),
        seek::before(g, seek::after(g, p)) == p,
        seek::after(g, seek::before(g, p)) == p,
{
}

/// A search from a part of a wide character starts from the whole of it: to the right from its
/// second half, also where it stands on the next line, to the left from its first half or from
/// the placeholder before it. From a narrow cell it starts from the cell itself.
pub proof fn law_wide_characters_are_searched_whole(g: GridState, p: (int, int))
    requires
        has_size(g),
        g.has(p.0, p.1),
    ensures
        is_narrow(g, p) ==> seek::widened_right(g, p) == p && seek::widened_left(g, p) == p,
        marked(g, p, 0x0400) && p.0 + 1 < g.lines ==> seek::widened_right(g, p) == (p.0 + 1, 1int),
        !marked(g, p, 0x0400) && marked(g, p, 0x0020) && p.1 + 1 < g.columns ==> is_next(
            g,
            p,
            seek::widened_right(g, p),
        ),
        !marked(g, p, 0x0400) && !marked(g, p, 0x0020) ==> seek::widened_right(g, p) == p,
        ({
            let half = (p.0, p.1 - 1);
            let front = seek::before(g, half);
            marked(g, p, 0x0040) && p.1 > 0 ==> {
                &&& half != (-g.history, 0int) && marked(g, front, 0x0400) ==> seek::widened_left(
                    g,
                    p,
                ) == front
                &&& !marked(g, front, 0x0400) ==> seek::widened_left(g, p) == half
            }
        }),
        ({
            let front = seek::before(g, p);
            marked(g, p, 0x0020) && !marked(g, p, 0x0040) ==> {
                &&& p != (-g.history, 0int) && marked(g, front, 0x0400) ==> seek::widened_left(g, p)
                    == front
                &&& !marked(g, front, 0x0400) ==> seek::widened_left(g, p) == p
            }
        }),
{
}

/// The dimensions of a grid.
pub open spec fn has_size(g: GridState) -> bool {
    g.columns >= 2 && g.lines >= 1 && g.history >= 0
}

/// Without a current match, a search to the right starts in the first cell that the viewport
/// shows, and one to the left in the last.
pub proof fn law_search_starts_at_the_viewport(v: EngineView)
    requires
        v.wf(),
        v.current_match is None,
    ensures
        v.term.offset <= v.term.grid.history ==> frame::search_origin(v, true) == (
            -v.term.offset,
            0int,
        ),
        v.term.offset <= v.term.grid.history + v.term.grid.lines - 1 ==> frame::search_origin(
            v,
            false,
        ) == (v.term.grid.lines - 1 - v.term.offset, v.term.grid.columns - 1),
        v.term.grid.has(frame::search_origin(v, true).0, frame::search_origin(v, true).1),
        v.term.grid.has(frame::search_origin(v, false).0, frame::search_origin(v, false).1),
{
}

/// With a current match, a search to the right starts in the cell behind its end, and one to
/// the left in the cell before its start.
pub proof fn law_search_starts_past_the_match(v: EngineView, m: CellRange)
    requires
        v.wf(),
        v.current_match == Some(m),
        v.term.grid.has_range(m),
    ensures
        is_next(
            v.term.grid,
            (m.end_line as int, m.end_col as int),
            frame::search_origin(v, true),
        ),
        is_next(
            v.term.grid,
            frame::search_origin(v, false),
            (m.start_line as int, m.start_col as int),
        ),
        v.term.grid.has(frame::search_origin(v, true).0, frame::search_origin(v, true).1),
        v.term.grid.has(frame::search_origin(v, false).0, frame::search_origin(v, false).1),
{
    laws::law_cell_steps_undo_each_other(v.term.grid, m.end_line as int, m.end_col as int);
    laws::law_cell_steps_undo_each_other(v.term.grid, m.start_line as int, m.start_col as int);
}

/// Setting a search makes its pattern the one that is searched for, and forgets the current
/// match; ending one leaves none. Nothing else changes.
pub proof fn law_search_is_set(v: EngineView, pattern: Option<Seq<char>>)
    ensures
        ({
            let after = frame::search_started(v, pattern);
            &&& after.search == pattern
            &&& after.current_match is None
            &&& after == EngineView { search: pattern, current_match: None, ..v }
        }),
{
}

/// What a search finds becomes the current match, and the viewport moves as little as shows
/// its first line: not at all where the line is in view, to the top row where it is above,
/// to the bottom row where it is below. Finding nothing changes nothing.
pub proof fn law_focus_moves_as_little_as_it_can(v: EngineView, m: CellRange)
    requires
        v.wf(),
        v.term.offset <= v.term.grid.history,
        v.term.grid.has_range(m),
    ensures
        frame::focused(v, None) == v,
        ({
            let after = frame::focused(v, Some(m));
            let row = m.start_line + v.term.offset;
            &&& after.current_match == Some(m)
            &&& 0 <= row < v.term.grid.lines ==> after.term == v.term
            &&& row < 0 ==> m.start_line + after.term.offset == 0
            &&& row >= v.term.grid.lines ==> m.start_line + after.term.offset == v.term.grid.lines
                - 1 || after.term.offset == 0
            &&& after.term.grid == v.term.grid
            &&& after.term.selection == v.term.selection
            &&& after == EngineView {
                term: after.term,
                current_match: after.current_match,
                ..v
            }
        }),
{
}

/// The first line of a wrapped line: every line from it up to the given one is continued on
/// the next, and the line before it is not, or there is none.
pub proof fn law_wrapped_line_starts_where_it_was_not_continued(g: GridState, line: int, k: int)
    requires
        has_size(g),
        -g.history <= line < g.lines,
    ensures
        ({
            let start = seek::row_start(g, line);
            let last = g.columns - 1;
            &&& -g.history <= start <= line
            &&& start <= k < line ==> marked(g, (k, last), 0x0010)
            &&& start == -g.history || !marked(g, (start - 1, last), 0x0010)
        }),
    decreases line + g.history,
{
    if line > -g.history && seek::is_wrapped(g, line - 1) {
        law_wrapped_line_starts_where_it_was_not_continued(g, line - 1, k);
    }
}

/// The last line of a wrapped line: every line from the given one up to it is continued on
/// the next, and it is not itself, or is the last there is.
pub proof fn law_wrapped_line_ends_where_it_is_not_continued(g: GridState, line: int, k: int)
    requires
        has_size(g),
        -g.history <= line < g.lines,
    ensures
        ({
            let end = seek::row_end(g, line);
            let last = g.columns - 1;
            &&& line <= end < g.lines
            &&& line <= k < end ==> marked(g, (k, last), 0x0010)
            &&& end == g.lines - 1 || !marked(g, (end, last), 0x0010)
        }),
    decreases g.lines - line,
{
    if line + 1 < g.lines && seek::is_wrapped(g, line) {
        law_wrapped_line_ends_where_it_is_not_continued(g, line + 1, k);
    }
}

/// A search goes once around the grid: to the right from the first cell of the origin's
/// wrapped line to the cell before it, to the left from its last cell to the cell behind it,
/// as long as no placeholder stands in the way there.
pub proof fn law_search_goes_once_around(g: GridState, origin: (int, int))
    requires
        has_size(g),
        g.has(origin.0, origin.1),
    ensures
        ({
            let (first, end) = seek::round_trip(g, origin, true);
            let back = seek::before(g, end);
            &&& first == (seek::row_start(g, origin.0), 0int)
            &&& g.has(end.0, end.1)
            &&& is_next(g, seek::before(g, first), first)
            &&& !marked(g, seek::before(g, seek::before(g, first)), 0x0400) ==> is_next(
                g,
                end,
                first,
            )
        }),
        ({
            let (first, end) = seek::round_trip(g, origin, false);
            &&& first == (seek::row_end(g, origin.0), g.columns - 1)
            &&& g.has(end.0, end.1)
            &&& !marked(g, first, 0x0400) ==> is_next(g, first, end)
        }),
{
    law_wrapped_line_starts_where_it_was_not_continued(g, origin.0, 0);
    law_wrapped_line_ends_where_it_is_not_continued(g, origin.0, 0);
    let first = (seek::row_start(g, origin.0), 0int);
    met_stays_inside(g, seek::before(g, first));
    let last = (seek::row_end(g, origin.0), g.columns - 1);
    met_behind_stays_inside(g, seek::after(g, last));
    assert(seek::before(g, seek::after(g, last)) == last);
}

proof fn met_stays_inside(g: GridState, p: (int, int))
    requires
        has_size(g),
        g.has(p.0, p.1),
    ensures
        g.has(seek::met_rightward_from(g, p).0, seek::met_rightward_from(g, p).1),
        g.has(seek::met_leftward_from(g, p).0, seek::met_leftward_from(g, p).1),
    decreases p.0 + g.history, p.1,
{
    if p != seek::first_cell(g) {
        met_stays_inside(g, seek::before(g, p));
    }
}

proof fn met_behind_stays_inside(g: GridState, p: (int, int))
    requires
        has_size(g),
        g.has(p.0, p.1),
    ensures
        g.has(seek::met_leftward_behind(g, p).0, seek::met_leftward_behind(g, p).1),
    decreases g.lines - p.0, g.columns - p.1,
{
    if p != seek::last_cell(g) {
        met_behind_stays_inside(g, seek::after(g, p));
    }
}

/// On its way, a search takes the first match between two cells that the terminal's library
/// finds, as long as no placeholder stands before the cell that it starts from.
pub proof fn law_hit_is_the_first_match(
    g: GridState,
    pattern: Seq<char>,
    start: (int, int),
    end: (int, int),
)
    requires
        has_size(g),
        g.has(start.0, start.1),
        !marked(g, seek::before(g, start), 0x0400),
    ensures
        seek::hit(g, pattern, start, end, true) == term_bridge::match_right(g, pattern, start, end),
        seek::hit(g, pattern, start, end, false) == term_bridge::match_left(g, pattern, start, end),
{
}

/// Behind a placeholder that is out of place, a search to the left looks at the cell by itself,
/// and then goes on from the placeholder; where the cell is the last one of the way, nothing
/// more is looked at. To the right, a wide character behind its placeholder is found from the
/// placeholder on.
pub proof fn law_search_behind_a_placeholder(
    g: GridState,
    pattern: Seq<char>,
    start: (int, int),
    end: (int, int),
)
    requires
        has_size(g),
        g.has(start.0, start.1),
        g.has(end.0, end.1),
        start != (-g.history, 0int),
        start != (g.lines - 1, g.columns - 1),
        marked(g, seek::before(g, start), 0x0400),
        !marked(g, seek::before(g, seek::before(g, start)), 0x0400),
    ensures
        ({
            let placeholder = seek::before(g, start);
            let own = term_bridge::match_right(g, pattern, start, start);
            &&& is_narrow(g, start) && own is Some ==> seek::hit(g, pattern, start, end, false)
                == own
            &&& (!is_narrow(g, start) || own is None) && end != start ==> seek::hit(
                g,
                pattern,
                start,
                end,
                false,
            ) == term_bridge::match_left(g, pattern, placeholder, end)
            &&& (!is_narrow(g, start) || own is None) && end == start ==> seek::hit(
                g,
                pattern,
                start,
                end,
                false,
            ) is None
            &&& marked(g, seek::after(g, start), 0x0040) ==> seek::hit(
                g,
                pattern,
                start,
                end,
                true,
            ) == term_bridge::match_right(g, pattern, placeholder, end)
            &&& !marked(g, seek::after(g, start), 0x0040) ==> seek::hit(
                g,
                pattern,
                start,
                end,
                true,
            ) == term_bridge::match_right(g, pattern, start, end)
        }),
{
    let placeholder = seek::before(g, start);
    assert(seek::met_rightward(g, placeholder));
    assert(seek::met_leftward(g, placeholder));
    reveal_with_fuel(seek::met_rightward_from, 2);
    reveal_with_fuel(seek::met_leftward_from, 2);
    assert(seek::met_rightward_from(g, start) == placeholder);
    law_distance_counts_cells(g, placeholder, start);
    law_distance_counts_cells(g, end, start);
    let a = (placeholder.0 + g.history) * g.columns + placeholder.1;
    let b = (start.0 + g.history) * g.columns + start.1;
    let e = (end.0 + g.history) * g.columns + end.1;
    assert(b == a + 1) by {
        if start.1 == 0 {
            assert((start.0 + g.history) * g.columns == (start.0 - 1 + g.history) * g.columns
                + g.columns) by (nonlinear_arith);
        }
    }
    if end != start {
        place_is_inside(g.columns, g.history + g.lines, end.0 + g.history, end.1);
        place_is_inside(g.columns, g.history + g.lines, start.0 + g.history, start.1);
        if e == b {
            place_is_one(g.columns, end.0 + g.history, end.1, start.0 + g.history, start.1);
        }
        assert(seek::ahead(g, end, start) >= 1);
    } else {
        assert(seek::ahead(g, end, start) == 0);
    }
    assert(seek::ahead(g, placeholder, start) == 1);
}

proof fn place_is_one(columns: int, r1: int, c1: int, r2: int, c2: int)
    requires
        0 <= c1 < columns,
        0 <= c2 < columns,
        r1 * columns + c1 == r2 * columns + c2,
    ensures
        r1 == r2 && c1 == c2,
{
    assert(r1 < r2 ==> r1 * columns + columns <= r2 * columns) by (nonlinear_arith)
        requires
            0 <= columns,
    ;
    assert(r2 < r1 ==> r2 * columns + columns <= r1 * columns) by (nonlinear_arith)
        requires
            0 <= columns,
    ;
}

/// A search goes on one cell past the end of a match: in the next cell to the right, in the
/// one before to the left. The halves of a wide character are passed together.
pub proof fn law_search_goes_on_past_a_match(g: GridState, m: CellRange)
    requires
        has_size(g),
        g.has_range(m),
    ensures
        ({
            let end = (m.end_line as int, m.end_col as int);
            let right = seek::past(g, m, true);
            let left = seek::past(g, m, false);
            &&& is_narrow(g, end) ==> is_next(g, end, right) && is_next(g, left, end)
            &&& marked(g, end, 0x0020) && !marked(g, end, 0x0400) && end.1 + 1 < g.columns
                ==> is_next(g, (end.0, end.1 + 1), right)
            &&& marked(g, end, 0x0040) && end.1 >= 1 && !marked(
                g,
                seek::before(g, (end.0, end.1 - 1)),
                0x0400,
            ) ==> is_next(g, left, (end.0, end.1 - 1))
            &&& marked(g, end, 0x0400) && end.0 + 1 < g.lines ==> is_next(
                g,
                (end.0 + 1, 1int),
                right,
            )
            &&& g.has(right.0, right.1)
            &&& g.has(left.0, left.1)
        }),
{
}

/// How far one cell is from another is counted in cells, to the right and around the end.
pub proof fn law_distance_counts_cells(g: GridState, from: (int, int), to: (int, int))
    requires
        has_size(g),
        g.has(from.0, from.1),
        g.has(to.0, to.1),
    ensures
        ({
            let total = (g.history + g.lines) * g.columns;
            let a = (from.0 + g.history) * g.columns + from.1;
            let b = (to.0 + g.history) * g.columns + to.1;
            let d = seek::ahead(g, from, to);
            &&& 0 <= d < total
            &&& a + d == b || a + d == b + total
            &&& seek::steps(g, from, to, true) == d
            &&& seek::steps(g, to, from, false) == d
        }),
{
    let rows = g.history + g.lines;
    place_is_inside(g.columns, rows, from.0 + g.history, from.1);
    place_is_inside(g.columns, rows, to.0 + g.history, to.1);
}

proof fn place_is_inside(columns: int, rows: int, row: int, col: int)
    requires
        0 <= col < columns,
        0 <= row < rows,
    ensures
        0 <= row * columns + col < rows * columns,
{
    assert(0 <= row * columns) by (nonlinear_arith)
        requires
            0 <= row,
            0 <= columns,
    ;
    assert(row * columns + columns <= rows * columns) by (nonlinear_arith)
        requires
            row + 1 <= rows,
            0 <= columns,
    ;
}

/// The match starts in the cell or behind it, in reading order.
pub open spec fn starts_from(m: CellRange, p: (int, int)) -> bool {
    m.start_line > p.0 || (m.start_line == p.0 && m.start_col >= p.1)
}

/// The match starts in the cell or before it, in reading order.
pub open spec fn starts_up_to(m: CellRange, p: (int, int)) -> bool {
    m.start_line < p.0 || (m.start_line == p.0 && m.start_col <= p.1)
}

/// The matches on the way are looked at one by one. To the right, the first one is taken that
/// starts at the origin or behind it, or above the line that the way began on; to the left,
/// the first one that starts at the origin or before it, or below that line. Any other is
/// passed, and the search goes on past it for as long as it comes nearer to its end.
pub proof fn law_search_looks_at_one_match_after_another(
    g: GridState,
    pattern: Seq<char>,
    first: (int, int),
    origin: (int, int),
    at: (int, int),
    end: (int, int),
    to_right: bool,
)
    ensures
        ({
            let r = seek::sought(g, pattern, first, origin, at, end, to_right);
            match seek::hit(g, pattern, at, end, to_right) {
                None => r is None,
                Some(m) => {
                    let taken = if to_right {
                        starts_from(m, origin) || m.start_line < first.0
                    } else {
                        starts_up_to(m, origin) || m.start_line > first.0
                    };
                    let next = seek::past(g, m, to_right);
                    let nearer = seek::steps(g, first, at, to_right) < seek::steps(
                        g,
                        first,
                        next,
                        to_right,
                    ) <= seek::steps(g, first, end, to_right);
                    &&& taken ==> r == Some(m)
                    &&& !taken && nearer ==> r == seek::sought(
                        g,
                        pattern,
                        first,
                        origin,
                        next,
                        end,
                        to_right,
                    )
                    &&& !taken && !nearer ==> r is None
                },
            }
        }),
{
}

/// A search finds the match that it takes on its way around; where it takes none, the first
/// one on the way.
pub proof fn law_search_finds_the_taken_match(
    v: EngineView,
    pattern: Seq<char>,
    to_right: bool,
)
    requires
        v.wf(),
        v.search == Some(pattern),
        ({
            let origin = frame::search_origin(v, to_right);
            is_narrow(v.term.grid, origin) && v.term.grid.has(origin.0, origin.1)
        }),
    ensures
        ({
            let g = v.term.grid;
            let origin = frame::search_origin(v, to_right);
            let (first, end) = seek::round_trip(g, origin, to_right);
            let taken = seek::sought(g, pattern, first, origin, first, end, to_right);
            &&& taken is Some ==> frame::next_match(v, to_right) == taken
            &&& taken is None ==> frame::next_match(v, to_right) == seek::hit(
                g,
                pattern,
                first,
                end,
                to_right,
            )
        }),
{
}

/// Without a search, none is found.
pub proof fn law_no_search_finds_nothing(v: EngineView, to_right: bool)
    requires
        v.search is None,
    ensures
        frame::next_match(v, to_right) is None,
{
}

/// A search that is set takes what is on the screen before anything above it: where the first
/// match from the top left cell of the viewport on starts in the viewport, it becomes the
/// current match, and the viewport stays. (The cells at the corner are narrow and the line
/// above is not continued there, so that the way begins at the corner.)
pub proof fn law_new_search_takes_what_is_on_the_screen(
    v: EngineView,
    pattern: Seq<char>,
    end: (int, int),
    m: CellRange,
)
    requires
        v.wf(),
        v.term.offset <= v.term.grid.history,
        ({
            let g = v.term.grid;
            let corner = (-v.term.offset, 0int);
            &&& g.has(end.0, end.1)
            &&& is_next(g, end, corner)
            &&& is_narrow(g, corner)
            &&& is_narrow(g, end)
            &&& -v.term.offset > -g.history ==> !marked(g, end, 0x0010)
            &&& g.columns >= 2 && !marked(g, (end.0, end.1 - 1), 0x0400)
            &&& term_bridge::match_right(g, pattern, corner, end) == Some(m)
        }),
        0 <= m.start_line + v.term.offset < v.term.grid.lines,
    ensures
        ({
            let set = frame::search_started(v, Some(pattern));
            let found = frame::next_match(set, true);
            &&& found == Some(m)
            &&& frame::focused(set, found).current_match == Some(m)
            &&& frame::focused(set, found).term == v.term
        }),
{
    let set = frame::search_started(v, Some(pattern));
    let g = v.term.grid;
    let corner = (-v.term.offset, 0int);
    law_search_starts_at_the_viewport(set);
    law_wrapped_line_starts_where_it_was_not_continued(g, corner.0, corner.0 - 1);
    assert(seek::before(g, corner) == end);
    assert(seek::before(g, end) == (end.0, end.1 - 1));
    law_search_goes_once_around(g, corner);
    assert(seek::row_start(g, corner.0) == corner.0);
    assert(seek::round_trip(g, corner, true) == (corner, end));
    law_hit_is_the_first_match(g, pattern, corner, end);
    law_search_looks_at_one_match_after_another(g, pattern, corner, corner, corner, end, true);
    law_search_finds_the_taken_match(set, pattern, true);
}

/// The matches that a searched snapshot highlights: the first of them is the first one from
/// the first cell of the viewport to its last, and each other is the first one past the one
/// before it. The list ends where nothing is found any more, or where the end was reached.
pub proof fn law_shown_matches_follow_one_another(
    g: GridState,
    pattern: Seq<char>,
    offset: int,
    k: int,
)
    requires
        has_size(g),
        0 <= offset <= g.history,
        0 <= k,
    ensures
        ({
            let list = seek::shown_matches(g, pattern, offset);
            let first = (-offset, 0int);
            let last = (g.lines - 1 - offset, g.columns - 1);
            let end = seek::met_rightward_from(g, last);
            &&& !marked(g, (last.0, last.1 - 1), 0x0400) ==> end == last
            &&& list.len() == 0 <==> seek::hit(g, pattern, first, end, true) is None
            &&& list.len() > 0 ==> seek::hit(g, pattern, first, end, true) == Some(list[0])
            &&& k + 1 < list.len() ==> seek::hit(
                g,
                pattern,
                seek::past(g, list[k], true),
                end,
                true,
            ) == Some(list[k + 1])
            &&& k + 1 == list.len() ==> {
                let at = if k == 0 {
                    first
                } else {
                    seek::past(g, list[k - 1], true)
                };
                let next = seek::past(g, list[k], true);
                ||| seek::hit(g, pattern, next, end, true) is None
                ||| seek::ahead(g, first, next) > seek::ahead(g, first, end)
                ||| seek::ahead(g, first, next) <= seek::ahead(g, first, at)
            }
        }),
{
    let first = (-offset, 0int);
    let last = (g.lines - 1 - offset, g.columns - 1);
    let end = seek::met_rightward_from(g, last);
    assert(seek::before(g, last) == (last.0, last.1 - 1));
    matches_follow(g, pattern, first, first, end, k);
}

proof fn matches_follow(
    g: GridState,
    pattern: Seq<char>,
    first: (int, int),
    at: (int, int),
    end: (int, int),
    k: int,
)
    requires
        0 <= k,
    ensures
        ({
            let list = seek::matches_from(g, pattern, first, at, end);
            &&& list.len() == 0 <==> seek::hit(g, pattern, at, end, true) is None
            &&& list.len() > 0 ==> seek::hit(g, pattern, at, end, true) == Some(list[0])
            &&& k + 1 < list.len() ==> seek::hit(
                g,
                pattern,
                seek::past(g, list[k], true),
                end,
                true,
            ) == Some(list[k + 1])
            &&& k + 1 == list.len() ==> {
                let here = if k == 0 {
                    at
                } else {
                    seek::past(g, list[k - 1], true)
                };
                let next = seek::past(g, list[k], true);
                ||| seek::hit(g, pattern, next, end, true) is None
                ||| seek::ahead(g, first, next) > seek::ahead(g, first, end)
                ||| seek::ahead(g, first, next) <= seek::ahead(g, first, here)
            }
        }),
    decreases seek::steps(g, first, end, true) - seek::steps(g, first, at, true),
{
    let list = seek::matches_from(g, pattern, first, at, end);
    if let Some(m) = seek::hit(g, pattern, at, end, true) {
        let next = seek::past(g, m, true);
        if seek::goes_on(g, first, at, next, end, true) {
            let more = seek::matches_from(g, pattern, first, next, end);
            matches_follow(g, pattern, first, next, end, 0);
            if k > 0 {
                matches_follow(g, pattern, first, next, end, k - 1);
            }
            assert(list =~= seq![m] + more);
            assert(k > 0 && k < list.len() ==> list[k] == more[k - 1]);
            assert(k > 1 && k < list.len() ==> list[k - 1] == more[k - 2]);
        }
    }
}

/// The grid line in a row of the viewport: row 0 shows the line as many lines above line 0 as
/// the viewport is scrolled back. A selection that is started there has both ends on that
/// line, in that column and half, and grows by cells, by words for `1`, by lines for `2`. A
/// row above the viewport counts as its first. Nothing else changes.
pub proof fn law_selection_starts_in_its_row(
    v: EngineView,
    row: i32,
    col: u16,
    right: bool,
    kind: u8,
)
    requires
        v.wf(),
    ensures
        ({
            let after = frame::selection_started(v, row, col, right, kind);
            let line = if row >= 0 {
                row - v.term.offset
            } else {
                -v.term.offset
            };
            &&& after.term.selection matches Some(s) && {
                &&& is_anchor(s.start, line, col, right)
                &&& is_anchor(s.end, line, col, right)
                &&& s.kind is Semantic <==> kind == 1
                &&& s.kind is Lines <==> kind == 2
                &&& s.kind is Simple <==> kind != 1 && kind != 2
            }
            &&& after == EngineView {
                term: TermState { selection: after.term.selection, ..v.term },
                ..v
            }
        }),
{
}

/// The anchor stands in this cell and half.
pub open spec fn is_anchor(a: Anchor, line: int, col: u16, right: bool) -> bool {
    a.line == line && a.col == col && a.right == right
}

/// Updating a selection moves its end to the given cell of the viewport and keeps its start
/// and what it grows by. Without a selection nothing changes.
pub proof fn law_selection_ends_in_its_row(v: EngineView, row: i32, col: u16, right: bool)
    requires
        v.wf(),
    ensures
        ({
            let after = frame::selection_updated(v, row, col, right);
            let line = if row >= 0 {
                row - v.term.offset
            } else {
                -v.term.offset
            };
            &&& v.term.selection is None ==> after == v
            &&& v.term.selection matches Some(s) ==> {
                &&& after.term.selection is Some
                &&& is_anchor(after.term.selection->0.end, line, col, right)
                &&& after.term.selection->0 == (SelectionView {
                    end: after.term.selection->0.end,
                    ..s
                })
            }
            &&& after == EngineView {
                term: TermState { selection: after.term.selection, ..v.term },
                ..v
            }
        }),
{
}

/// The viewport went from one offset to another: by so many lines, or up to an end of the
/// history.
pub open spec fn moved_by(offset: int, lines: int, history: int, after: int) -> bool {
    &&& 0 <= after <= history
    &&& 0 <= offset + lines <= history ==> after == offset + lines
    &&& offset + lines < 0 ==> after == 0
    &&& offset + lines > history ==> after == history
}

/// A scroll by lines moves the viewport by as many, as far as the history goes, and lands on a
/// line boundary. It damages everything where it moves, and changes nothing else.
pub proof fn law_line_scroll(v: EngineView, lines: int)
    requires
        v.wf(),
    ensures
        ({
            let after = frame::lines_scrolled(v, lines);
            &&& moved_by(v.term.offset, lines, v.term.grid.history, after.term.offset)
            &&& after.scroll_fraction == 0
            &&& after.term.damage.full <==> v.term.damage.full || after.term.offset
                != v.term.offset
            &&& after.term.damage.rows == v.term.damage.rows
            &&& after == EngineView {
                term: TermState {
                    offset: after.term.offset,
                    damage: after.term.damage,
                    ..v.term
                },
                scroll_fraction: 0,
                ..v
            }
        }),
{
}

/// A scroll by pixels moves the viewport by whole lines, as far as the history goes, and keeps
/// the fraction behind them: a number from zero up to one, where the scroll did not run into
/// an end of the history, and none above zero at the top. It changes nothing else.
pub proof fn law_pixel_scroll(v: EngineView, lines: int, fraction: u64)
    requires
        v.wf(),
        v.term.offset <= v.term.grid.history,
    ensures
        ({
            let after = frame::pixels_scrolled(v, lines, fraction);
            let zero = fraction == 0 || fraction == 0x8000_0000_0000_0000;
            let kept = after.term.offset == v.term.offset + lines && (zero || (fraction
                < 0x3FF0_0000_0000_0000 && after.term.offset < v.term.grid.history));
            &&& moved_by(v.term.offset, lines, v.term.grid.history, after.term.offset)
            &&& kept ==> after.scroll_fraction == fraction
            &&& !kept ==> after.scroll_fraction == 0
            &&& after == EngineView {
                term: TermState {
                    offset: after.term.offset,
                    damage: after.term.damage,
                    ..v.term
                },
                scroll_fraction: after.scroll_fraction,
                ..v
            }
        }),
{
}

/// From above the history, a scroll by pixels leads to its top with its first line, up or
/// down, and on from there; without a whole line, the viewport stays.
pub proof fn law_pixel_scroll_from_above(v: EngineView, lines: int, fraction: u64)
    requires
        v.wf(),
        v.term.offset > v.term.grid.history,
    ensures
        ({
            let after = frame::pixels_scrolled(v, lines, fraction).term.offset;
            &&& lines == 0 ==> after == v.term.offset
            &&& lines > 0 ==> after == v.term.grid.history
            &&& lines < 0 ==> moved_by(v.term.grid.history, lines + 1, v.term.grid.history, after)
        }),
{
}

/// A scroll is answered with a refresh by the lines that the viewport moved, where no search
/// is active and neither they nor the lines that were asked for are as many as the viewport
/// has; else with a full snapshot.
pub proof fn law_scroll_is_answered(v: EngineView, asked: int, delta: i32)
    requires
        v.wf(),
    ensures
        ({
            let n = v.term.grid.lines;
            let r = frame::scroll_answer(v, asked, delta);
            let near = -n < asked < n && -n < delta < n;
            &&& v.search is None && near ==> r == frame::refreshed(v, delta) && !r.full
            &&& v.search is None && !near ==> r == frame::snapshot(v) && r.full
            &&& v.search is Some ==> r == frame::searched_snapshot(v) && r.full
            &&& r.full ==> r.scroll_line_delta == 0 && r.lines.len() == n + 1
            &&& frame::scroll_cells(v, asked, delta as int) == (if v.search is None && near {
                frame::refresh_cells(v.term, delta as int)
            } else {
                frame::snapshot_cells(v.term)
            })
        }),
{
}

/// The history is dropped whole: the screen keeps its cells, the viewport goes to the live
/// edge, and a selection that reaches into the history goes, and no other. Where there is no
/// history, nothing but the damage changes.
pub proof fn law_history_is_dropped_whole(a: TermState, b: TermState, line: int, col: int)
    requires
        a.wf(),
        term_model::is_history_cleared(a, b),
        0 <= line < a.grid.lines,
        0 <= col < a.grid.columns,
    ensures
        b.grid.history == 0,
        b.grid.lines == a.grid.lines,
        b.grid.columns == a.grid.columns,
        b.grid.cells[(line, col)] == a.grid.cells[(line, col)],
        b.damage.full,
        a.grid.history > 0 ==> b.offset == 0,
        a.grid.history == 0 ==> b.offset == a.offset && b.grid == a.grid,
        b.selection == a.selection || b.selection is None,
        a.selection matches Some(s) ==> (b.selection is None <==> a.grid.history > 0 && (
        s.start.line < 0 || s.end.line < 0)),
        b == (TermState {
            grid: b.grid,
            offset: b.offset,
            selection: b.selection,
            damage: b.damage,
            ..a
        }),
{
    assert(b.grid.has(line, col));
}

/// Other options cut the history of the main screen down to their limit, from its oldest lines,
/// and leave the cells of the others alone; everything counts as damaged.
pub proof fn law_options_cut_the_history(
    a: TermState,
    options: term_model::OptionsView,
    b: TermState,
    line: int,
    col: int,
)
    requires
        a.wf(),
        term_model::is_reconfigured(a, options, b),
        -b.grid.history <= line < b.grid.lines,
        0 <= col < b.grid.columns,
    ensures
        b.options == options,
        b.damage.full,
        b.grid.lines == a.grid.lines,
        b.grid.columns == a.grid.columns,
        b.grid.cells[(line, col)] == a.grid.cells[(line, col)],
        a.grid.history <= options.history ==> b.grid.history == a.grid.history,
        a.grid.history > options.history ==> b.grid.history == options.history,
        b == (TermState { grid: b.grid, offset: b.offset, damage: b.damage, options, ..a }),
{
    assert(b.grid.has(line, col));
}

/// The most lines that `n` bytes scroll by on a grid: see
/// [`scroll_bound`](term_model::scroll_bound).
pub open spec fn lines_at_most(g: GridState, n: int) -> int {
    (n + 8) * (g.lines / 4 + 8192int / (g.columns / 2) + 3)
}

/// A selection is given up to input only where one of its ends stands so far above that the
/// bytes could scroll its line number below the least one of 32 bits.
pub proof fn law_selection_is_kept_while_it_has_room(s: TermState, n: int)
    requires
        s.wf(),
        s.selection is Some,
        n >= 0,
    ensures
        ({
            let sel = s.selection->0;
            let room = sel.start.line - lines_at_most(s.grid, n) >= -0x8000_0000 && sel.end.line
                - lines_at_most(s.grid, n) >= -0x8000_0000;
            &&& term_model::is_moored(s, n) <==> room
            &&& room ==> term_model::moored(s, n) == s
            &&& !room ==> term_model::moored(s, n) == (TermState { selection: None, ..s })
        }),
{
}

/// Input is read at once where the selection has room for it, else in pieces of 4096 bytes, or
/// of one byte where it has no room for so many.
pub proof fn law_input_is_cut_only_where_it_must(s: TermState, pending: int, rest: int)
    requires
        rest > 0,
    ensures
        ({
            let n = frame::piece_len(s, pending, rest);
            &&& 1 <= n <= rest
            &&& term_model::is_moored(s, pending + rest) ==> n == rest
            &&& !term_model::is_moored(s, pending + rest) ==> n == 4096 || n == 1
            &&& !term_model::is_moored(s, pending + rest) && rest > 4096 && term_model::is_moored(
                s,
                pending + 4096,
            ) ==> n == 4096
        }),
{
}

/// A resize keeps the selection, as far as the terminal does, unless one of its ends stands
/// within 65536 lines of the least line number.
pub proof fn law_resize_keeps_the_selection(
    v: EngineView,
    columns: u16,
    rows: u16,
    after: EngineView,
)
    requires
        v.wf(),
        frame::is_resize(v, columns, rows, after),
        v.term.selection matches Some(s) ==> s.start.line >= -0x8000_0000 + 65536 && s.end.line
            >= -0x8000_0000 + 65536,
    ensures
        term_bridge::resize_outcome(
            v.term,
            if columns >= 2 {
                columns as int
            } else {
                2
            },
            if rows >= 1 {
                rows as int
            } else {
                1
            },
            after.term,
        ),
{
}

/// The selected text can be read where nothing is selected, and where no line that the
/// selection takes in starts with the second half of a wide character and the last of them does
/// not end in a placeholder.
pub proof fn law_text_can_be_read(s: TermState)
    requires
        s.wf(),
    ensures
        term_bridge::state_range(s) is None ==> term_bridge::text_readable(s),
        term_bridge::state_range(s) matches Some(r) ==> {
            (forall|line: int|
                r.start_line <= line <= r.end_line ==> !#[trigger] marked(
                    s.grid,
                    (line, 0int),
                    0x0040,
                )) && !marked(s.grid, (r.end_line as int, s.grid.columns - 1), 0x0400)
                ==> term_bridge::text_readable(s)
        },
{
    if let Some(r) = term_bridge::state_range(s) {
        if forall|line: int|
            r.start_line <= line <= r.end_line ==> !#[trigger] marked(
                s.grid,
                (line, 0int),
                0x0040,
            ) {
            assert forall|line: int|
                #![trigger term_bridge::text_start(r, line)]
                r.start_line <= line <= r.end_line && term_bridge::text_start(r, line)
                    == 0 implies !term_bridge::cell_is(
                s.grid,
                line,
                0,
                term_model::CELL_WIDE_CHAR_SPACER,
            ) by {
                assert(!marked(s.grid, (line, 0int), 0x0040));
            }
        }
    }
}

} // verus!
