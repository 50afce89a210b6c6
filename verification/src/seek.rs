//! The walk over the matches of a search. The terminal's library finds one match on
//! the way from one cell to another; which of them comes next, and which of them are on
//! the screen, is decided here. Each match is a call of its own, with the pattern as it
//! was compiled and between cells that the library comes to on its way, so that every
//! call returns; and the walk ends, because it comes nearer to its end with each match.

use crate::term_bridge;
use crate::term_bridge::Terminal;
use crate::term_model;
use crate::term_model::{
    CellRange, GridState, CELL_LEADING_WIDE_CHAR_SPACER, CELL_WIDE_CHAR, CELL_WIDE_CHAR_SPACER,
    CELL_WRAPLINE,
};
use alacritty_terminal::term::search::RegexSearch;
use vstd::prelude::*;

verus! {

/// A cell's line and column.
pub open spec fn place(p: (i32, usize)) -> (int, int) {
    (p.0 as int, p.1 as int)
}

/// The first cell of the grid.
pub open spec fn first_cell(g: GridState) -> (int, int) {
    (-g.history, 0)
}

/// The last cell of the grid.
pub open spec fn last_cell(g: GridState) -> (int, int) {
    (g.lines - 1, g.columns - 1)
}

/// The cell behind a cell of the grid, around its end.
pub open spec fn after(g: GridState, p: (int, int)) -> (int, int) {
    if p.1 + 1 < g.columns {
        (p.0, p.1 + 1)
    } else if p.0 + 1 < g.lines {
        (p.0 + 1, 0)
    } else {
        first_cell(g)
    }
}

/// The cell before a cell of the grid, around its end.
pub open spec fn before(g: GridState, p: (int, int)) -> (int, int) {
    if p.1 > 0 {
        (p.0, p.1 - 1)
    } else if p.0 > -g.history {
        (p.0 - 1, g.columns - 1)
    } else {
        last_cell(g)
    }
}

/// The cell has one of the attributes.
pub open spec fn has_flag(g: GridState, p: (int, int), bits: u16) -> bool {
    term_bridge::cell_is(g, p.0, p.1, bits)
}

/// The cell is the placeholder of a wide character that did not fit on its line.
pub open spec fn is_placeholder(g: GridState, p: (int, int)) -> bool {
    has_flag(g, p, CELL_LEADING_WIDE_CHAR_SPACER)
}

/// A walk to the right comes to the cell: from a placeholder it jumps over the cell
/// behind it, but never around the end of the grid.
pub open spec fn met_rightward(g: GridState, p: (int, int)) -> bool {
    p == first_cell(g) || p == last_cell(g) || !is_placeholder(g, before(g, p))
}

/// A walk to the left comes to the cell: from the second half of a wide character it
/// jumps over the first half, where a placeholder stands before that.
pub open spec fn met_leftward(g: GridState, p: (int, int)) -> bool {
    ||| p == first_cell(g)
    ||| p == last_cell(g)
    ||| !is_placeholder(g, before(g, p))
    ||| !has_flag(g, after(g, p), CELL_WIDE_CHAR_SPACER)
}

/// The last cell of what the cell is a part of, to the right: a placeholder and both
/// halves of its wide character are one thing.
pub open spec fn widened_right(g: GridState, p: (int, int)) -> (int, int) {
    if is_placeholder(g, p) {
        if p.0 + 1 < g.lines {
            (p.0 + 1, 1)
        } else {
            first_cell(g)
        }
    } else if has_flag(g, p, CELL_WIDE_CHAR) && p.1 + 1 < g.columns {
        (p.0, p.1 + 1)
    } else {
        p
    }
}

/// The first cell of what the cell is a part of, to the left.
pub open spec fn widened_left(g: GridState, p: (int, int)) -> (int, int) {
    let spacer = has_flag(g, p, CELL_WIDE_CHAR_SPACER);
    if spacer || has_flag(g, p, CELL_WIDE_CHAR) {
        let half = if spacer && p.1 > 0 {
            (p.0, p.1 - 1)
        } else {
            p
        };
        if half != first_cell(g) && is_placeholder(g, before(g, half)) {
            before(g, half)
        } else {
            half
        }
    } else {
        p
    }
}

/// The line is continued on the next one.
pub open spec fn is_wrapped(g: GridState, line: int) -> bool {
    has_flag(g, (line, g.columns - 1), CELL_WRAPLINE)
}

/// The line that a wrapped line starts on.
pub open spec fn row_start(g: GridState, line: int) -> int
    decreases line + g.history,
{
    if line > -g.history && is_wrapped(g, line - 1) {
        row_start(g, line - 1)
    } else {
        line
    }
}

/// The line that a wrapped line ends on.
pub open spec fn row_end(g: GridState, line: int) -> int
    decreases g.lines - line,
{
    if line + 1 < g.lines && is_wrapped(g, line) {
        row_end(g, line + 1)
    } else {
        line
    }
}

/// The cell, or the nearest one before it that a walk to the left comes to.
pub open spec fn met_leftward_from(g: GridState, p: (int, int)) -> (int, int)
    decreases p.0 + g.history, p.1,
{
    if !g.has(p.0, p.1) || met_leftward(g, p) {
        p
    } else {
        met_leftward_from(g, before(g, p))
    }
}

/// The cell, or the nearest one before it that a walk to the right comes to.
pub open spec fn met_rightward_from(g: GridState, p: (int, int)) -> (int, int)
    decreases p.0 + g.history, p.1,
{
    if !g.has(p.0, p.1) || met_rightward(g, p) {
        p
    } else {
        met_rightward_from(g, before(g, p))
    }
}

/// The cell, or the nearest one behind it that a walk to the left comes to.
pub open spec fn met_leftward_behind(g: GridState, p: (int, int)) -> (int, int)
    decreases g.lines - p.0, g.columns - p.1,
{
    if !g.has(p.0, p.1) || met_leftward(g, p) {
        p
    } else {
        met_leftward_behind(g, after(g, p))
    }
}

/// The cell's index in reading order.
pub open spec fn index(g: GridState, p: (int, int)) -> int {
    (p.0 + g.history) * g.columns + p.1
}

/// How many cells to the right, around the end of the grid, the one cell is from the
/// other.
pub open spec fn ahead(g: GridState, from: (int, int), to: (int, int)) -> int {
    let d = index(g, to) - index(g, from);
    if d >= 0 {
        d
    } else {
        d + (g.history + g.lines) * g.columns
    }
}

/// How many cells one cell is from another, in the direction of a search.
pub open spec fn steps(g: GridState, from: (int, int), to: (int, int), to_right: bool) -> int {
    if to_right {
        ahead(g, from, to)
    } else {
        ahead(g, to, from)
    }
}

/// The cell is no part of a wide character.
pub open spec fn is_plain(g: GridState, p: (int, int)) -> bool {
    &&& !has_flag(g, p, CELL_WIDE_CHAR)
    &&& !has_flag(g, p, CELL_WIDE_CHAR_SPACER)
    &&& !is_placeholder(g, p)
}

/// The match that a cell is by itself.
pub open spec fn alone(g: GridState, pattern: Seq<char>, p: (int, int)) -> Option<CellRange> {
    if is_plain(g, p) {
        term_bridge::match_right(g, pattern, p, p)
    } else {
        None
    }
}

/// The first match on the way from one cell to another. The way back from a match has to
/// come to the cell that the search starts from, so a cell that it would jump over is
/// looked at by itself, and the search starts from the nearest cell before it.
pub open spec fn hit(
    g: GridState,
    pattern: Seq<char>,
    start: (int, int),
    end: (int, int),
    to_right: bool,
) -> Option<CellRange> {
    if to_right {
        term_bridge::match_right(g, pattern, met_leftward_from(g, start), end)
    } else if met_rightward(g, start) {
        term_bridge::match_left(g, pattern, start, end)
    } else {
        let from = met_rightward_from(g, start);
        match alone(g, pattern, start) {
            Some(m) => Some(m),
            None => if steps(g, start, from, false) <= steps(g, start, end, false) {
                term_bridge::match_left(g, pattern, from, end)
            } else {
                None
            },
        }
    }
}

/// Where the search goes on after a match: one cell past its end.
pub open spec fn past(g: GridState, m: CellRange, to_right: bool) -> (int, int) {
    let end = (m.end_line as int, m.end_col as int);
    if to_right {
        after(g, widened_right(g, end))
    } else {
        before(g, widened_left(g, end))
    }
}

/// The search goes on from a cell: it came nearer to the end, and not beyond it.
pub open spec fn goes_on(
    g: GridState,
    first: (int, int),
    at: (int, int),
    next: (int, int),
    end: (int, int),
    to_right: bool,
) -> bool {
    steps(g, first, at, to_right) < steps(g, first, next, to_right) <= steps(
        g,
        first,
        end,
        to_right,
    )
}

/// The matches from cell `at` to cell `end`, on a way to the right that began at cell
/// `first`.
pub open spec fn matches_from(
    g: GridState,
    pattern: Seq<char>,
    first: (int, int),
    at: (int, int),
    end: (int, int),
) -> Seq<CellRange>
    decreases steps(g, first, end, true) - steps(g, first, at, true),
{
    match hit(g, pattern, at, end, true) {
        None => Seq::empty(),
        Some(m) => {
            let next = past(g, m, true);
            if goes_on(g, first, at, next, end, true) {
                seq![m] + matches_from(g, pattern, first, next, end)
            } else {
                seq![m]
            }
        },
    }
}

/// The line that a row of the screen shows while it is scrolled back by `offset` lines,
/// or the first line there is.
pub open spec fn line_shown(g: GridState, row: int, offset: int) -> int {
    if row - offset < -g.history {
        -g.history
    } else {
        row - offset
    }
}

/// The matches on the screen while it is scrolled back by `offset` lines.
pub open spec fn shown_matches(g: GridState, pattern: Seq<char>, offset: int) -> Seq<CellRange> {
    let first = (line_shown(g, 0, offset), 0);
    let end = met_rightward_from(g, (line_shown(g, g.lines - 1, offset), g.columns - 1));
    matches_from(g, pattern, first, first, end)
}

/// The match starts at the origin or past it, on a way that began at cell `first`.
pub open spec fn is_beyond(
    first: (int, int),
    origin: (int, int),
    m: CellRange,
    to_right: bool,
) -> bool {
    if to_right {
        ||| m.start_line < first.0
        ||| m.start_line > origin.0
        ||| m.start_line == origin.0 && m.start_col >= origin.1
    } else {
        ||| m.start_line > first.0
        ||| m.start_line < origin.0
        ||| m.start_line == origin.0 && m.start_col <= origin.1
    }
}

/// The first match beyond the origin, from cell `at` to cell `end`, on a way that began
/// at cell `first`.
pub open spec fn sought(
    g: GridState,
    pattern: Seq<char>,
    first: (int, int),
    origin: (int, int),
    at: (int, int),
    end: (int, int),
    to_right: bool,
) -> Option<CellRange>
    decreases steps(g, first, end, to_right) - steps(g, first, at, to_right),
{
    match hit(g, pattern, at, end, to_right) {
        None => None,
        Some(m) => {
            let next = past(g, m, to_right);
            if is_beyond(first, origin, m, to_right) {
                Some(m)
            } else if goes_on(g, first, at, next, end, to_right) {
                sought(g, pattern, first, origin, next, end, to_right)
            } else {
                None
            }
        },
    }
}

/// Where a search from a cell looks: from the edge of the cell's wrapped line, once
/// around the grid.
pub open spec fn round_trip(g: GridState, origin: (int, int), to_right: bool) -> (
    (int, int),
    (int, int),
) {
    if to_right {
        let first = (row_start(g, origin.0), 0);
        (first, met_rightward_from(g, before(g, first)))
    } else {
        let first = (row_end(g, origin.0), g.columns - 1);
        (first, met_leftward_behind(g, after(g, first)))
    }
}

/// What a search from a cell finds: the first match that starts at the cell or past it,
/// else the first one of its wrapped line.
pub open spec fn found(
    g: GridState,
    pattern: Seq<char>,
    cell: (int, int),
    to_right: bool,
) -> Option<CellRange> {
    let origin = if to_right {
        widened_right(g, cell)
    } else {
        widened_left(g, cell)
    };
    let (first, end) = round_trip(g, origin, to_right);
    match sought(g, pattern, first, origin, first, end, to_right) {
        Some(m) => Some(m),
        None => hit(g, pattern, first, end, to_right),
    }
}

/// What holds of a grid whose cells are walked.
pub open spec fn grid_ok(g: GridState) -> bool {
    &&& 2 <= g.columns <= 65535
    &&& 1 <= g.lines <= 65535
    &&& 0 <= g.history <= term_model::MAX_HISTORY
}

fn flag_at(term: &Terminal, p: (i32, usize), bits: u16) -> (r: bool)
    requires
        term_bridge::term_state(*term).grid.has(p.0 as int, p.1 as int),
    ensures
        r == has_flag(term_bridge::term_state(*term).grid, place(p), bits),
{
    term_bridge::cell_at(term, p.0, p.1).flags & bits != 0
}

/// The topmost line.
fn top_line(term: &Terminal) -> (r: i32)
    requires
        grid_ok(term_bridge::term_state(*term).grid),
    ensures
        r == -term_bridge::term_state(*term).grid.history,
{
    (0 - term_bridge::history_size(term) as i64) as i32
}

fn cell_after(term: &Terminal, p: (i32, usize)) -> (r: (i32, usize))
    requires
        grid_ok(term_bridge::term_state(*term).grid),
        term_bridge::term_state(*term).grid.has(p.0 as int, p.1 as int),
    ensures
        place(r) == after(term_bridge::term_state(*term).grid, place(p)),
        term_bridge::term_state(*term).grid.has(r.0 as int, r.1 as int),
{
    if p.1 + 1 < term_bridge::columns(term) {
        (p.0, p.1 + 1)
    } else if p.0 + 1 < term_bridge::screen_lines(term) as i32 {
        (p.0 + 1, 0)
    } else {
        (top_line(term), 0)
    }
}

fn cell_before(term: &Terminal, p: (i32, usize)) -> (r: (i32, usize))
    requires
        grid_ok(term_bridge::term_state(*term).grid),
        term_bridge::term_state(*term).grid.has(p.0 as int, p.1 as int),
    ensures
        place(r) == before(term_bridge::term_state(*term).grid, place(p)),
        term_bridge::term_state(*term).grid.has(r.0 as int, r.1 as int),
{
    let columns: usize = term_bridge::columns(term);
    if p.1 > 0 {
        (p.0, p.1 - 1)
    } else if p.0 > top_line(term) {
        (p.0 - 1, columns - 1)
    } else {
        (term_bridge::screen_lines(term) as i32 - 1, columns - 1)
    }
}

/// Whether the cell is the first or the last of the grid.
fn is_corner(term: &Terminal, p: (i32, usize)) -> (r: bool)
    requires
        grid_ok(term_bridge::term_state(*term).grid),
        term_bridge::term_state(*term).grid.has(p.0 as int, p.1 as int),
    ensures
        ({
            let g = term_bridge::term_state(*term).grid;
            r == (place(p) == first_cell(g) || place(p) == last_cell(g))
        }),
{
    let columns: usize = term_bridge::columns(term);
    let lines: i32 = term_bridge::screen_lines(term) as i32;
    (p.0 == top_line(term) && p.1 == 0) || (p.0 == lines - 1 && p.1 == columns - 1)
}

fn is_met_rightward(term: &Terminal, p: (i32, usize)) -> (r: bool)
    requires
        grid_ok(term_bridge::term_state(*term).grid),
        term_bridge::term_state(*term).grid.has(p.0 as int, p.1 as int),
    ensures
        r == met_rightward(term_bridge::term_state(*term).grid, place(p)),
{
    is_corner(term, p) || !flag_at(term, cell_before(term, p), CELL_LEADING_WIDE_CHAR_SPACER)
}

fn is_met_leftward(term: &Terminal, p: (i32, usize)) -> (r: bool)
    requires
        grid_ok(term_bridge::term_state(*term).grid),
        term_bridge::term_state(*term).grid.has(p.0 as int, p.1 as int),
    ensures
        r == met_leftward(term_bridge::term_state(*term).grid, place(p)),
{
    is_corner(term, p) || !flag_at(term, cell_before(term, p), CELL_LEADING_WIDE_CHAR_SPACER)
        || !flag_at(term, cell_after(term, p), CELL_WIDE_CHAR_SPACER)
}

/// Widens a cell to the last cell, in the direction of a search, of what it is a part of.
fn widen(term: &Terminal, p: (i32, usize), to_right: bool) -> (r: (i32, usize))
    requires
        grid_ok(term_bridge::term_state(*term).grid),
        term_bridge::term_state(*term).grid.has(p.0 as int, p.1 as int),
    ensures
        ({
            let g = term_bridge::term_state(*term).grid;
            place(r) == if to_right {
                widened_right(g, place(p))
            } else {
                widened_left(g, place(p))
            }
        }),
        term_bridge::term_state(*term).grid.has(r.0 as int, r.1 as int),
{
    if to_right {
        if flag_at(term, p, CELL_LEADING_WIDE_CHAR_SPACER) {
            if p.0 + 1 < term_bridge::screen_lines(term) as i32 {
                (p.0 + 1, 1)
            } else {
                (top_line(term), 0)
            }
        } else if flag_at(term, p, CELL_WIDE_CHAR) && p.1 + 1 < term_bridge::columns(term) {
            (p.0, p.1 + 1)
        } else {
            p
        }
    } else {
        let spacer: bool = flag_at(term, p, CELL_WIDE_CHAR_SPACER);
        if !spacer && !flag_at(term, p, CELL_WIDE_CHAR) {
            return p;
        }
        let half: (i32, usize) = if spacer && p.1 > 0 {
            (p.0, p.1 - 1)
        } else {
            p
        };
        if half.0 == top_line(term) && half.1 == 0 {
            return half;
        }
        let front: (i32, usize) = cell_before(term, half);
        if flag_at(term, front, CELL_LEADING_WIDE_CHAR_SPACER) {
            front
        } else {
            half
        }
    }
}

fn find_row_start(term: &Terminal, line: i32) -> (r: i32)
    requires
        grid_ok(term_bridge::term_state(*term).grid),
        term_bridge::term_state(*term).grid.has_line(line as int),
    ensures
        r == row_start(term_bridge::term_state(*term).grid, line as int),
        term_bridge::term_state(*term).grid.has_line(r as int),
{
    let ghost g = term_bridge::term_state(*term).grid;
    let top: i32 = top_line(term);
    let last: usize = term_bridge::columns(term) - 1;
    let mut l: i32 = line;
    while l > top && flag_at(term, (l - 1, last), CELL_WRAPLINE)
        invariant
            g == term_bridge::term_state(*term).grid,
            grid_ok(g),
            top == -g.history,
            last == g.columns - 1,
            g.has_line(l as int),
            row_start(g, l as int) == row_start(g, line as int),
        decreases l - top,
    {
        l = l - 1;
    }
    l
}

fn find_row_end(term: &Terminal, line: i32) -> (r: i32)
    requires
        grid_ok(term_bridge::term_state(*term).grid),
        term_bridge::term_state(*term).grid.has_line(line as int),
    ensures
        r == row_end(term_bridge::term_state(*term).grid, line as int),
        term_bridge::term_state(*term).grid.has_line(r as int),
{
    let ghost g = term_bridge::term_state(*term).grid;
    let lines: i32 = term_bridge::screen_lines(term) as i32;
    let last: usize = term_bridge::columns(term) - 1;
    let mut l: i32 = line;
    while l + 1 < lines && flag_at(term, (l, last), CELL_WRAPLINE)
        invariant
            g == term_bridge::term_state(*term).grid,
            grid_ok(g),
            lines == g.lines,
            last == g.columns - 1,
            g.has_line(l as int),
            row_end(g, l as int) == row_end(g, line as int),
        decreases lines - l,
    {
        l = l + 1;
    }
    l
}

fn leftward_from(term: &Terminal, p: (i32, usize)) -> (r: (i32, usize))
    requires
        grid_ok(term_bridge::term_state(*term).grid),
        term_bridge::term_state(*term).grid.has(p.0 as int, p.1 as int),
    ensures
        place(r) == met_leftward_from(term_bridge::term_state(*term).grid, place(p)),
        met_leftward(term_bridge::term_state(*term).grid, place(r)),
        term_bridge::term_state(*term).grid.has(r.0 as int, r.1 as int),
{
    let ghost g = term_bridge::term_state(*term).grid;
    let mut q: (i32, usize) = p;
    while !is_met_leftward(term, q)
        invariant
            g == term_bridge::term_state(*term).grid,
            grid_ok(g),
            g.has(q.0 as int, q.1 as int),
            met_leftward_from(g, place(q)) == met_leftward_from(g, place(p)),
        decreases q.0 + g.history, q.1,
    {
        q = cell_before(term, q);
    }
    q
}

fn rightward_from(term: &Terminal, p: (i32, usize)) -> (r: (i32, usize))
    requires
        grid_ok(term_bridge::term_state(*term).grid),
        term_bridge::term_state(*term).grid.has(p.0 as int, p.1 as int),
    ensures
        place(r) == met_rightward_from(term_bridge::term_state(*term).grid, place(p)),
        met_rightward(term_bridge::term_state(*term).grid, place(r)),
        term_bridge::term_state(*term).grid.has(r.0 as int, r.1 as int),
{
    let ghost g = term_bridge::term_state(*term).grid;
    let mut q: (i32, usize) = p;
    while !is_met_rightward(term, q)
        invariant
            g == term_bridge::term_state(*term).grid,
            grid_ok(g),
            g.has(q.0 as int, q.1 as int),
            met_rightward_from(g, place(q)) == met_rightward_from(g, place(p)),
        decreases q.0 + g.history, q.1,
    {
        q = cell_before(term, q);
    }
    q
}

fn leftward_behind(term: &Terminal, p: (i32, usize)) -> (r: (i32, usize))
    requires
        grid_ok(term_bridge::term_state(*term).grid),
        term_bridge::term_state(*term).grid.has(p.0 as int, p.1 as int),
    ensures
        place(r) == met_leftward_behind(term_bridge::term_state(*term).grid, place(p)),
        met_leftward(term_bridge::term_state(*term).grid, place(r)),
        term_bridge::term_state(*term).grid.has(r.0 as int, r.1 as int),
{
    let ghost g = term_bridge::term_state(*term).grid;
    let mut q: (i32, usize) = p;
    while !is_met_leftward(term, q)
        invariant
            g == term_bridge::term_state(*term).grid,
            grid_ok(g),
            g.has(q.0 as int, q.1 as int),
            met_leftward_behind(g, place(q)) == met_leftward_behind(g, place(p)),
        decreases g.lines - q.0, g.columns - q.1,
    {
        q = cell_after(term, q);
    }
    q
}

fn cell_index(term: &Terminal, p: (i32, usize)) -> (r: i64)
    requires
        grid_ok(term_bridge::term_state(*term).grid),
        term_bridge::term_state(*term).grid.has(p.0 as int, p.1 as int),
    ensures
        r == index(term_bridge::term_state(*term).grid, place(p)),
        0 <= r <= 0x1_0000_0000_0000,
{
    let columns: i64 = term_bridge::columns(term) as i64;
    let row: i64 = p.0 as i64 - top_line(term) as i64;
    proof {
        assert(0 <= row * columns <= 0x8000_0000 * 65535) by (nonlinear_arith)
            requires
                0 <= row <= 0x8000_0000,
                0 <= columns <= 65535,
        ;
    }
    row * columns + p.1 as i64
}

fn count_steps(term: &Terminal, from: (i32, usize), to: (i32, usize), to_right: bool) -> (r: i64)
    requires
        grid_ok(term_bridge::term_state(*term).grid),
        term_bridge::term_state(*term).grid.has(from.0 as int, from.1 as int),
        term_bridge::term_state(*term).grid.has(to.0 as int, to.1 as int),
    ensures
        r == steps(term_bridge::term_state(*term).grid, place(from), place(to), to_right),
{
    let a: i64 = cell_index(term, from);
    let b: i64 = cell_index(term, to);
    let d: i64 = if to_right {
        b - a
    } else {
        a - b
    };
    if d >= 0 {
        d
    } else {
        let columns: i64 = term_bridge::columns(term) as i64;
        let rows: i64 = term_bridge::screen_lines(term) as i64 - top_line(term) as i64;
        proof {
            assert(0 <= rows * columns <= 0x8000_0000 * 65535) by (nonlinear_arith)
                requires
                    0 <= rows <= 0x8000_0000,
                    0 <= columns <= 65535,
            ;
        }
        d + rows * columns
    }
}

/// The first match on the way from one cell to another.
fn find_hit(
    term: &Terminal,
    re: &RegexSearch,
    start: (i32, usize),
    end: (i32, usize),
    to_right: bool,
) -> (r: Option<CellRange>)
    requires
        term_bridge::term_state(*term).wf(),
        term_bridge::term_state(*term).grid.has(start.0 as int, start.1 as int),
        term_bridge::term_state(*term).grid.has(end.0 as int, end.1 as int),
        to_right ==> met_rightward(term_bridge::term_state(*term).grid, place(end)),
        !to_right ==> met_leftward(term_bridge::term_state(*term).grid, place(end)),
    ensures
        r == hit(
            term_bridge::term_state(*term).grid,
            term_bridge::regex_pattern(*re),
            place(start),
            place(end),
            to_right,
        ),
        r matches Some(m) ==> term_bridge::term_state(*term).grid.has_range(m),
{
    if to_right {
        term_bridge::find_right(term, re, leftward_from(term, start), end)
    } else if is_met_rightward(term, start) {
        term_bridge::find_left(term, re, start, end)
    } else {
        let plain: bool = !flag_at(term, start, CELL_WIDE_CHAR) && !flag_at(
            term,
            start,
            CELL_WIDE_CHAR_SPACER,
        ) && !flag_at(term, start, CELL_LEADING_WIDE_CHAR_SPACER);
        let own: Option<CellRange> = if plain {
            term_bridge::find_right(term, re, start, start)
        } else {
            None
        };
        if own.is_some() {
            return own;
        }
        let from: (i32, usize) = rightward_from(term, start);
        if count_steps(term, start, from, false) <= count_steps(term, start, end, false) {
            term_bridge::find_left(term, re, from, end)
        } else {
            None
        }
    }
}

/// Where the search goes on after a match.
fn find_past(term: &Terminal, m: CellRange, to_right: bool) -> (r: (i32, usize))
    requires
        grid_ok(term_bridge::term_state(*term).grid),
        term_bridge::term_state(*term).grid.has_range(m),
    ensures
        place(r) == past(term_bridge::term_state(*term).grid, m, to_right),
        term_bridge::term_state(*term).grid.has(r.0 as int, r.1 as int),
{
    let end: (i32, usize) = widen(term, (m.end_line, m.end_col), to_right);
    if to_right {
        cell_after(term, end)
    } else {
        cell_before(term, end)
    }
}

/// The line that a row of the screen shows, or the first line there is.
pub(crate) fn find_line_shown(term: &Terminal, row: i32, offset: i32) -> (r: i32)
    requires
        grid_ok(term_bridge::term_state(*term).grid),
        0 <= row < term_bridge::term_state(*term).grid.lines,
        0 <= offset,
    ensures
        r == line_shown(term_bridge::term_state(*term).grid, row as int, offset as int),
        term_bridge::term_state(*term).grid.has_line(r as int),
{
    let top: i32 = top_line(term);
    if row - offset < top {
        top
    } else {
        row - offset
    }
}

/// Lists the matches on the screen while it is scrolled back by `offset` lines.
pub(crate) fn list_matches(term: &Terminal, re: &RegexSearch, offset: i32) -> (r: Vec<CellRange>)
    requires
        term_bridge::term_state(*term).wf(),
        offset == term_bridge::term_state(*term).offset,
    ensures
        r@ == shown_matches(
            term_bridge::term_state(*term).grid,
            term_bridge::regex_pattern(*re),
            offset as int,
        ),
{
    let ghost g = term_bridge::term_state(*term).grid;
    let ghost pattern = term_bridge::regex_pattern(*re);
    let lines: i32 = term_bridge::screen_lines(term) as i32;
    let columns: usize = term_bridge::columns(term);
    let first: (i32, usize) = (find_line_shown(term, 0, offset), 0);
    let end: (i32, usize) = rightward_from(
        term,
        (find_line_shown(term, lines - 1, offset), columns - 1),
    );
    let limit: i64 = count_steps(term, first, end, true);
    let mut r: Vec<CellRange> = Vec::new();
    let mut at: (i32, usize) = first;
    let mut done: i64 = count_steps(term, first, first, true);
    let ghost all = matches_from(g, pattern, place(first), place(first), place(end));
    assert(r@ + all =~= all);
    loop
        invariant_except_break
            r@ + matches_from(g, pattern, place(first), place(at), place(end)) == all,
        invariant
            term_bridge::term_state(*term).wf(),
            g == term_bridge::term_state(*term).grid,
            pattern == term_bridge::regex_pattern(*re),
            g.has(first.0 as int, first.1 as int),
            g.has(at.0 as int, at.1 as int),
            g.has(end.0 as int, end.1 as int),
            met_rightward(g, place(end)),
            done == steps(g, place(first), place(at), true),
            limit == steps(g, place(first), place(end), true),
        ensures
            r@ == all,
        decreases limit - done,
    {
        let ghost listed = r@;
        let ghost rest = matches_from(g, pattern, place(first), place(at), place(end));
        let m: CellRange = match find_hit(term, re, at, end, true) {
            Some(m) => m,
            None => {
                assert(r@ + Seq::<CellRange>::empty() =~= r@);
                break;
            },
        };
        r.push(m);
        assert(listed + seq![m] =~= r@);
        let next: (i32, usize) = find_past(term, m, true);
        let next_done: i64 = count_steps(term, first, next, true);
        if !(done < next_done && next_done <= limit) {
            break;
        }
        at = next;
        done = next_done;
        proof {
            let more = matches_from(g, pattern, place(first), place(at), place(end));
            assert(rest == seq![m] + more);
            assert(listed + (seq![m] + more) =~= r@ + more);
        }
    }
    r
}

/// Searches once around the grid from a cell.
pub(crate) fn find_match(
    term: &Terminal,
    re: &RegexSearch,
    cell: (i32, usize),
    to_right: bool,
) -> (r: Option<CellRange>)
    requires
        term_bridge::term_state(*term).wf(),
        term_bridge::term_state(*term).grid.has(cell.0 as int, cell.1 as int),
    ensures
        r == found(
            term_bridge::term_state(*term).grid,
            term_bridge::regex_pattern(*re),
            place(cell),
            to_right,
        ),
        r matches Some(m) ==> term_bridge::term_state(*term).grid.has_range(m),
{
    let ghost g = term_bridge::term_state(*term).grid;
    let ghost pattern = term_bridge::regex_pattern(*re);
    let columns: usize = term_bridge::columns(term);
    let origin: (i32, usize) = widen(term, cell, to_right);
    let (first, end): ((i32, usize), (i32, usize)) = if to_right {
        let first: (i32, usize) = (find_row_start(term, origin.0), 0);
        (first, rightward_from(term, cell_before(term, first)))
    } else {
        let first: (i32, usize) = (find_row_end(term, origin.0), columns - 1);
        (first, leftward_behind(term, cell_after(term, first)))
    };
    assert((place(first), place(end)) == round_trip(g, place(origin), to_right));
    let limit: i64 = count_steps(term, first, end, to_right);
    let mut at: (i32, usize) = first;
    let mut done: i64 = count_steps(term, first, first, to_right);
    let ghost result = sought(
        g,
        pattern,
        place(first),
        place(origin),
        place(first),
        place(end),
        to_right,
    );
    loop
        invariant_except_break
            result == sought(
                g,
                pattern,
                place(first),
                place(origin),
                place(at),
                place(end),
                to_right,
            ),
        invariant
            term_bridge::term_state(*term).wf(),
            g == term_bridge::term_state(*term).grid,
            pattern == term_bridge::regex_pattern(*re),
            g.has(first.0 as int, first.1 as int),
            g.has(at.0 as int, at.1 as int),
            g.has(end.0 as int, end.1 as int),
            to_right ==> met_rightward(g, place(end)),
            !to_right ==> met_leftward(g, place(end)),
            done == steps(g, place(first), place(at), to_right),
            limit == steps(g, place(first), place(end), to_right),
            found(g, pattern, place(cell), to_right) == (match result {
                Some(m) => Some(m),
                None => hit(g, pattern, place(first), place(end), to_right),
            }),
        ensures
            result is None,
        decreases limit - done,
    {
        let m: CellRange = match find_hit(term, re, at, end, to_right) {
            Some(m) => m,
            None => {
                break;
            },
        };
        let beyond: bool = if to_right {
            m.start_line < first.0 || m.start_line > origin.0 || (m.start_line == origin.0
                && m.start_col >= origin.1)
        } else {
            m.start_line > first.0 || m.start_line < origin.0 || (m.start_line == origin.0
                && m.start_col <= origin.1)
        };
        if beyond {
            return Some(m);
        }
        let next: (i32, usize) = find_past(term, m, to_right);
        let next_done: i64 = count_steps(term, first, next, to_right);
        if !(done < next_done && next_done <= limit) {
            break;
        }
        at = next;
        done = next_done;
    }
    find_hit(term, re, first, end, to_right)
}

} // verus!
