//! The engine's state as plain values, and what each kind of render update shows
//! of it.

use crate::config;
use crate::config::EngineConfig;
use crate::csi_mode_scan;
use crate::csi_mode_scan::{ColorSchemeToggle, ScanView};
use crate::event_proxy;
use crate::event_proxy::{ClipboardReply, ColorReply, EventView, SizeReply};
use crate::osc_preparse;
use crate::palette;
use crate::palette::{Theme, PALETTE_LEN};
use crate::screen;
use crate::screen::{CellData, LineView, RenderView};
use crate::seek;
use crate::term_bridge;
use crate::term_bridge::AnsiParser;
use crate::term_model;
use crate::term_model::{
    Anchor, CellRange, CellView, CursorKind, GridState, SelectionKind, SelectionView, TermState,
    MODE_SHOW_CURSOR,
};
use crate::view_frame::OVERSCAN_LINE_TAG;
use alacritty_terminal::event::Event;
use vstd::prelude::*;
use vstd::utf8;

verus! {

/// The engine's state.
pub struct EngineView {
    pub term: TermState,
    pub parser: AnsiParser,
    /// Events that the host has not taken yet.
    pub events: Seq<EventView>,
    /// Clipboard requests that the host has not answered yet.
    pub clipboard: Seq<ClipboardReply>,
    pub cell_w: u16,
    pub cell_h: u16,
    pub palette: Seq<u32>,
    /// The pattern that is searched for.
    pub search: Option<Seq<char>>,
    pub current_match: Option<CellRange>,
    pub hyperlinks: Seq<Seq<char>>,
    /// The sub-cell scroll position, as the bits of a double.
    pub scroll_fraction: u64,
    pub scanner: ScanView,
    /// The program asked to be told of color-scheme changes.
    pub subscribed: bool,
}

impl EngineView {
    /// What holds of every engine.
    pub open spec fn wf(self) -> bool {
        &&& self.term.wf()
        &&& self.palette.len() == PALETTE_LEN
        &&& screen::links_wf(self.hyperlinks)
        &&& self.current_match matches Some(m) ==> m.start_col <= 65535 && m.end_col <= 65535
        &&& is_fraction(self.scroll_fraction)
    }

    /// What colors are resolved against.
    pub open spec fn theme(self) -> Theme {
        Theme { palette: self.palette, colors: self.term.colors }
    }

    /// The cells that the selection takes in.
    pub open spec fn selection(self) -> Option<CellRange> {
        term_bridge::state_range(self.term)
    }

    /// A grid line, shown with the selection.
    pub open spec fn shown_line(self, line: int) -> Seq<CellData> {
        screen::shown_row(
            self.theme(),
            self.hyperlinks,
            self.term.grid.row(line),
            line,
            self.selection(),
        )
    }

    /// The row above the viewport: the line there, or blanks at the top of the
    /// history.
    pub open spec fn overscan(self) -> Seq<CellData> {
        if self.term.offset < self.term.grid.history {
            self.shown_line(-self.term.offset - 1)
        } else {
            Seq::new(self.term.grid.columns as nat, |c: int| screen::blank_data(self.theme()))
        }
    }

    /// The pixels of the text area fit in 16 bits, in both directions.
    pub open spec fn text_area_fits(self) -> bool {
        &&& self.term.grid.lines * self.cell_h <= u16::MAX
        &&& self.term.grid.columns * self.cell_w <= u16::MAX
    }
}

/// The state once the URIs of the rows were given ids.
pub open spec fn with_links(v: EngineView, rows: Seq<Seq<CellView>>) -> EngineView {
    EngineView { hyperlinks: screen::interned_rows(v.hyperlinks, rows), ..v }
}

/// The number that stands for a cursor shape.
pub open spec fn shape_code(shape: CursorKind) -> u8 {
    match shape {
        CursorKind::Block => 0,
        CursorKind::Underline => 1,
        CursorKind::Beam => 2,
        CursorKind::HollowBlock => 3,
        CursorKind::Hidden => 4,
    }
}

/// An update with these lines, and with the chrome of the state. The cursor is
/// hidden while the viewport is scrolled back.
pub open spec fn update_of(
    v: EngineView,
    lines: Seq<LineView>,
    full: bool,
    delta: i32,
) -> RenderView {
    RenderView {
        lines,
        full,
        cursor_line: if v.term.cursor_line < 0 {
            0
        } else {
            v.term.cursor_line as u32
        },
        cursor_col: v.term.cursor_col as u32,
        cursor_visible: v.term.mode & MODE_SHOW_CURSOR != 0 && v.term.offset == 0,
        cursor_shape: shape_code(v.term.cursor_style().0),
        cursor_blinking: v.term.cursor_style().1,
        mode_flags: v.term.mode,
        display_offset: v.term.offset as u32,
        default_fg: palette::foreground(v.theme()),
        default_bg: palette::background(v.theme()),
        cursor_color: palette::cursor_chrome(v.theme()),
        scroll_fraction: v.scroll_fraction,
        scroll_line_delta: delta,
    }
}

/// The cells that are shown by `count` rows of the viewport, from row `first` on,
/// and by the overscan row, in that order.
pub open spec fn shown_cells(s: TermState, first: int, count: int) -> Seq<Seq<CellView>> {
    let rows = Seq::new(count as nat, |i: int| s.grid.row(first + i - s.offset));
    if s.offset < s.grid.history {
        rows.push(s.grid.row(-s.offset - 1))
    } else {
        rows
    }
}

/// `count` rows of the viewport, from row `first` on, tagged with their rows.
pub open spec fn viewport_lines(v: EngineView, first: int, count: int) -> Seq<LineView> {
    Seq::new(
        count as nat,
        |i: int|
            LineView { line: (first + i) as u32, cells: v.shown_line(first + i - v.term.offset) },
    )
}

/// The cells that a full snapshot shows.
pub open spec fn snapshot_cells(s: TermState) -> Seq<Seq<CellView>> {
    shown_cells(s, 0, s.grid.lines)
}

/// A full snapshot: the rows of the viewport, and one row more, which holds the
/// overscan row and carries the number of rows as its tag.
pub open spec fn snapshot(v: EngineView) -> RenderView {
    update_of(
        v,
        viewport_lines(v, 0, v.term.grid.lines).push(
            LineView { line: v.term.grid.lines as u32, cells: v.overscan() },
        ),
        true,
        0,
    )
}

/// A full snapshot, with the matches of the search highlighted where one is active.
pub open spec fn searched_snapshot(v: EngineView) -> RenderView {
    match v.search {
        None => snapshot(v),
        Some(pattern) => searched(
            v,
            seek::shown_matches(v.term.grid, pattern, v.term.offset),
        ),
    }
}

/// A full snapshot with these matches highlighted.
pub open spec fn searched(v: EngineView, found: Seq<CellRange>) -> RenderView {
    RenderView {
        lines: screen::highlighted_lines(
            snapshot(v).lines,
            v.term.offset,
            found,
            v.current_match,
        ),
        ..snapshot(v)
    }
}

/// How many rows enter the viewport when it scrolls by `delta` lines.
pub open spec fn edge_count(rows: int, delta: int) -> int {
    let d = if delta < 0 {
        -delta
    } else {
        delta
    };
    if d < rows {
        d
    } else {
        rows
    }
}

/// The first of the rows that enter the viewport when it scrolls by `delta` lines:
/// they come in at the top when it scrolls up, and at the bottom when it scrolls
/// down.
pub open spec fn edge_first(rows: int, delta: int) -> int {
    if delta < 0 {
        rows - edge_count(rows, delta)
    } else {
        0
    }
}

/// The cells that a scroll refresh shows.
pub open spec fn refresh_cells(s: TermState, delta: int) -> Seq<Seq<CellView>> {
    shown_cells(s, edge_first(s.grid.lines, delta), edge_count(s.grid.lines, delta))
}

/// A scroll refresh: the rows that entered the viewport, and the overscan row.
pub open spec fn refreshed(v: EngineView, delta: i32) -> RenderView {
    let rows = v.term.grid.lines;
    update_of(
        v,
        viewport_lines(v, edge_first(rows, delta as int), edge_count(rows, delta as int)).push(
            LineView { line: OVERSCAN_LINE_TAG, cells: v.overscan() },
        ),
        false,
        delta,
    )
}

/// A jump by this many lines is too large for a refresh: it is the viewport's height or
/// more.
pub open spec fn is_far(v: EngineView, lines: int) -> bool {
    lines >= v.term.grid.lines || -lines >= v.term.grid.lines
}

/// A scroll by `delta` lines, where `asked` lines were asked for, is answered with a full
/// snapshot: where a search is active, and where the jump is too large.
pub open spec fn scroll_is_full(v: EngineView, asked: int, delta: int) -> bool {
    v.search is Some || is_far(v, asked) || is_far(v, delta)
}

/// The cells that the answer to a scroll shows.
pub open spec fn scroll_cells(v: EngineView, asked: int, delta: int) -> Seq<Seq<CellView>> {
    if scroll_is_full(v, asked, delta) {
        snapshot_cells(v.term)
    } else {
        refresh_cells(v.term, delta)
    }
}

/// The answer to a scroll by `delta` lines, where `asked` lines were asked for.
pub open spec fn scroll_answer(v: EngineView, asked: int, delta: i32) -> RenderView {
    if scroll_is_full(v, asked, delta as int) {
        searched_snapshot(v)
    } else {
        refreshed(v, delta)
    }
}

/// The rows of the set that are under `n`, from the first to the last.
pub open spec fn rows_in(set: Set<int>, n: int) -> Seq<int>
    decreases n,
{
    if n <= 0 {
        Seq::empty()
    } else if set.contains(n - 1) {
        rows_in(set, n - 1).push(n - 1)
    } else {
        rows_in(set, n - 1)
    }
}

/// The rows that a partial damage update ships.
pub open spec fn shipped_rows(s: TermState) -> Seq<int> {
    rows_in(term_model::damaged_rows(s), s.grid.lines)
}

/// The cells of rows of the screen.
pub open spec fn screen_cells(g: GridState, rows: Seq<int>) -> Seq<Seq<CellView>> {
    rows.map_values(|row: int| g.row(row))
}

/// A partial damage update: the given rows of the screen, without the selection.
pub open spec fn damage_update(v: EngineView, rows: Seq<int>) -> RenderView {
    RenderView {
        scroll_fraction: 0,
        ..update_of(
            v,
            rows.map_values(
                |row: int|
                    LineView {
                        line: row as u32,
                        cells: screen::painted_row(v.theme(), v.hyperlinks, v.term.grid.row(row)),
                    },
            ),
            false,
            0,
        )
    }
}

/// The bits are those of zero.
pub open spec fn is_zero(fraction: u64) -> bool {
    fraction == 0 || fraction == 0x8000_0000_0000_0000
}

/// The bits are those of a number above zero.
pub open spec fn is_positive(fraction: u64) -> bool {
    0 < fraction <= 0x7FF0_0000_0000_0000
}

/// The bits are those of a number from zero up to, but not including, one.
pub open spec fn is_fraction(fraction: u64) -> bool {
    is_zero(fraction) || fraction < 0x3FF0_0000_0000_0000
}

/// Damage is read while the viewport is flush at the live edge.
pub open spec fn at_live_edge(v: EngineView) -> bool {
    v.term.offset == 0 && is_zero(v.scroll_fraction)
}

/// The state once the damage was taken.
pub open spec fn damage_taken(v: EngineView) -> EngineView {
    if !at_live_edge(v) {
        with_links(v, snapshot_cells(v.term))
    } else {
        let term = term_model::damage_reset(term_model::damage_read(v.term));
        let cells = if term_model::fully_damaged(v.term) {
            snapshot_cells(v.term)
        } else {
            screen_cells(v.term.grid, shipped_rows(v.term))
        };
        with_links(EngineView { term, ..v }, cells)
    }
}

/// What taking the damage ships: a full snapshot while the viewport is off the live
/// edge or everything is damaged, else the damaged rows.
pub open spec fn damage_shipped(v: EngineView) -> RenderView {
    if at_live_edge(v) && !term_model::fully_damaged(v.term) {
        damage_update(damage_taken(v), shipped_rows(v.term))
    } else {
        snapshot(damage_taken(v))
    }
}

/// The viewport scrolled by `delta` lines, flush on a line boundary.
pub open spec fn lines_scrolled(v: EngineView, delta: int) -> EngineView {
    EngineView { term: term_model::scrolled(v.term, delta), scroll_fraction: 0, ..v }
}

/// Where a scroll line by line would come to if the history had no ends. From above the
/// history, the first step leads to its top, up or down.
pub open spec fn pixel_target(s: TermState, delta: int) -> int {
    if s.offset <= s.grid.history || delta == 0 {
        s.offset + delta
    } else if delta > 0 {
        s.grid.history + delta - 1
    } else {
        s.grid.history + delta + 1
    }
}

/// The viewport scrolled line by line: not at all, or as far as the history goes.
pub open spec fn pixel_term(s: TermState, delta: int) -> TermState {
    if delta == 0 {
        s
    } else {
        term_model::scrolled(s, pixel_target(s, delta) - s.offset)
    }
}

/// The viewport scrolled by `delta` lines and a fraction of one. The fraction is
/// dropped where the scroll ran into an end of the history, at the top, where there is
/// no line above the viewport to reveal, and where it is none.
pub open spec fn pixels_scrolled(v: EngineView, delta: int, fraction: u64) -> EngineView {
    let term = pixel_term(v.term, delta);
    let stopped = term.offset != pixel_target(v.term, delta);
    let at_top = term.offset >= term.grid.history;
    EngineView {
        term,
        scroll_fraction: if stopped || (at_top && is_positive(fraction)) || !is_fraction(
            fraction,
        ) {
            0
        } else {
            fraction
        },
        ..v
    }
}

/// The state with the viewport moved as little as shows the line.
pub open spec fn revealed(s: TermState, line: int) -> TermState {
    if line < -s.offset {
        term_model::scrolled(s, -line - s.offset)
    } else if line >= s.grid.lines - s.offset {
        term_model::scrolled(s, s.grid.lines - 1 - line - s.offset)
    } else {
        s
    }
}

/// A line number wrapped around the ends of the grid.
pub open spec fn wrapped_line(g: GridState, line: int) -> int {
    (line + g.history) % (g.history + g.lines) - g.history
}

/// The cell behind a cell, in reading order, around the ends of the grid.
pub open spec fn cell_after(g: GridState, line: int, col: int) -> (int, int) {
    (wrapped_line(g, line + (col + 1) / g.columns), (col + 1) % g.columns)
}

/// The cell before a cell, in reading order, around the ends of the grid.
pub open spec fn cell_before(g: GridState, line: int, col: int) -> (int, int) {
    (
        wrapped_line(
            g,
            if col == 0 {
                line - 1
            } else {
                line
            },
        ),
        (g.columns + col - 1) % g.columns,
    )
}

/// Where a search starts: one cell past the current match, so that the match is
/// not found again; without one, at the near corner of the viewport.
pub open spec fn search_origin(v: EngineView, to_right: bool) -> (int, int) {
    match v.current_match {
        Some(m) => if to_right {
            cell_after(v.term.grid, m.end_line as int, m.end_col as int)
        } else {
            cell_before(v.term.grid, m.start_line as int, m.start_col as int)
        },
        None => if to_right {
            (seek::line_shown(v.term.grid, 0, v.term.offset), 0)
        } else {
            (
                seek::line_shown(v.term.grid, v.term.grid.lines - 1, v.term.offset),
                v.term.grid.columns - 1,
            )
        },
    }
}

/// The state once a search was set: no match is the current one yet.
pub open spec fn search_started(v: EngineView, pattern: Option<Seq<char>>) -> EngineView {
    EngineView { search: pattern, current_match: None, ..v }
}

/// The state once a search came to `found`: a match becomes the current one and
/// is brought into view.
pub open spec fn focused(v: EngineView, found: Option<CellRange>) -> EngineView {
    match found {
        Some(m) => EngineView {
            term: revealed(v.term, m.start_line as int),
            current_match: Some(m),
            ..v
        },
        None => v,
    }
}

/// What a search in this direction finds.
pub open spec fn next_match(v: EngineView, to_right: bool) -> Option<CellRange> {
    match v.search {
        Some(pattern) => seek::found(v.term.grid, pattern, search_origin(v, to_right), to_right),
        None => None,
    }
}

/// The text as a write to the terminal's program.
pub open spec fn as_write(text: Seq<char>) -> EventView {
    EventView::PtyWrite(utf8::encode_utf8(text))
}

/// `e` is the reply to a color query: one is owed where the query is one and the color
/// is known.
pub open spec fn is_color_answer(t: Theme, r: ColorReply, e: Option<EventView>) -> bool {
    match palette::queried_color(t, r.index as int) {
        Some(c) => if event_proxy::event_content(r.formatter) is ColorRequest {
            exists|text: Seq<char>| #[trigger]
                event_proxy::color_reply_outcome(r.formatter, c.0, c.1, c.2, text) && e == Some(
                    as_write(text),
                )
        } else {
            e is None
        },
        None => e is None,
    }
}

/// The replies to color queries, one for each query.
pub open spec fn are_color_answers(
    t: Theme,
    replies: Seq<ColorReply>,
    answers: Seq<Option<EventView>>,
) -> bool {
    &&& answers.len() == replies.len()
    &&& forall|i: int|
        0 <= i < answers.len() ==> is_color_answer(t, replies[i], #[trigger] answers[i])
}

/// `e` is the reply to a text-area size query. Pixels that do not fit in 16 bits are
/// not told.
pub open spec fn is_size_answer(v: EngineView, r: SizeReply, e: Option<EventView>) -> bool {
    if event_proxy::event_content(r.formatter) is TextAreaSizeRequest && v.text_area_fits() {
        exists|text: Seq<char>| #[trigger]
            event_proxy::size_reply_outcome(
                r.formatter,
                v.term.grid.lines as u16,
                v.term.grid.columns as u16,
                v.cell_w,
                v.cell_h,
                text,
            ) && e == Some(as_write(text))
    } else {
        e is None
    }
}

/// The replies to text-area size queries, one for each query.
pub open spec fn are_size_answers(
    v: EngineView,
    replies: Seq<SizeReply>,
    answers: Seq<Option<EventView>>,
) -> bool {
    &&& answers.len() == replies.len()
    &&& forall|i: int|
        0 <= i < answers.len() ==> is_size_answer(v, replies[i], #[trigger] answers[i])
}

/// `e` is the reply to a clipboard query.
pub open spec fn is_clipboard_answer(
    text: Seq<char>,
    r: ClipboardReply,
    e: Option<EventView>,
) -> bool {
    if event_proxy::event_content(r.formatter) is ClipboardLoad {
        exists|reply: Seq<char>| #[trigger]
            event_proxy::clipboard_reply_outcome(r.formatter, text, reply) && e == Some(
                as_write(reply),
            )
    } else {
        e is None
    }
}

/// The replies to clipboard queries, one for each query.
pub open spec fn are_clipboard_answers(
    text: Seq<char>,
    replies: Seq<ClipboardReply>,
    answers: Seq<Option<EventView>>,
) -> bool {
    &&& answers.len() == replies.len()
    &&& forall|i: int|
        0 <= i < answers.len() ==> is_clipboard_answer(text, replies[i], #[trigger] answers[i])
}

/// The OSC 997 report of the background that is shown: `ESC ] 997 ; 1 ST` where it is dark, `2` in
/// place of `1` where it is light.
pub open spec fn scheme_report(background: u32) -> EventView {
    EventView::PtyWrite(
        seq![
            0x1bu8,
            0x5d,
            0x39,
            0x39,
            0x37,
            0x3b,
            if palette::is_dark(background) {
                0x31
            } else {
                0x32
            },
            0x1b,
            0x5c,
        ],
    )
}

/// The state once the host was told the color scheme.
pub open spec fn reported_scheme(v: EngineView) -> EngineView {
    EngineView { events: v.events.push(scheme_report(palette::background(v.theme()))), ..v }
}

/// Whether a program is subscribed after several toggles: the last one decides.
pub open spec fn subscribed_after(subscribed: bool, toggles: Seq<ColorSchemeToggle>) -> bool {
    if toggles.len() == 0 {
        subscribed
    } else {
        toggles.last() is Subscribe
    }
}

/// The reports that answer several toggles: one for each subscription.
pub open spec fn toggle_reports(background: u32, toggles: Seq<ColorSchemeToggle>) -> Seq<EventView>
    decreases toggles.len(),
{
    if toggles.len() == 0 {
        Seq::empty()
    } else {
        let before = toggle_reports(background, toggles.drop_last());
        match toggles.last() {
            ColorSchemeToggle::Subscribe => before.push(scheme_report(background)),
            ColorSchemeToggle::Unsubscribe => before,
        }
    }
}

/// The state after several toggles: a subscription is answered with the current
/// scheme.
pub open spec fn toggled(v: EngineView, toggles: Seq<ColorSchemeToggle>) -> EngineView {
    EngineView {
        subscribed: subscribed_after(v.subscribed, toggles),
        events: v.events + toggle_reports(palette::background(v.theme()), toggles),
        ..v
    }
}

/// The state once the pending color and size queries were answered.
pub open spec fn answered(
    v: EngineView,
    colors: Seq<Option<EventView>>,
    sizes: Seq<Option<EventView>>,
) -> EngineView {
    EngineView {
        events: v.events + event_proxy::somes(colors) + event_proxy::somes(sizes),
        ..v
    }
}

/// The state with what the terminal told taken over.
pub open spec fn overheard(v: EngineView, told: Seq<Event>) -> EngineView {
    EngineView {
        events: v.events + event_proxy::told_events(told),
        clipboard: v.clipboard + event_proxy::told_clipboard(told),
        ..v
    }
}

/// A terminal part of the way through its input.
pub struct Feed {
    pub parser: AnsiParser,
    pub term: TermState,
    /// What the terminal told so far.
    pub told: Seq<Event>,
    /// How many bytes were read so far.
    pub read: int,
}

/// The longest of the pieces that an input is cut into where it has to be.
pub const PIECE: usize = 4096;

/// How many of the `rest` bytes of an input the parser is handed next: all of them, as
/// long as the selection's line numbers stay within 32 bits meanwhile; else as many as a
/// piece has, or one.
pub open spec fn piece_len(s: TermState, pending: int, rest: int) -> int {
    if term_model::is_moored(s, pending + rest) {
        rest
    } else if rest > PIECE && term_model::is_moored(s, pending + PIECE) {
        PIECE as int
    } else {
        1
    }
}

/// The parser was handed one more piece of the bytes. A selection whose line numbers a
/// single byte could make leave their 32 bits is gone.
pub open spec fn is_piece(bytes: Seq<u8>, a: Feed, b: Feed) -> bool {
    let pending = term_bridge::sync_pending(a.parser);
    let n = piece_len(a.term, pending, bytes.len() - a.read);
    let term = term_model::moored(a.term, pending + n);
    &&& 0 <= a.read < bytes.len()
    &&& b.read == a.read + n
    &&& a.told.is_prefix_of(b.told)
    &&& term_bridge::parse_outcome(
        a.parser,
        term,
        bytes.subrange(a.read, b.read),
        b.parser,
        b.term,
        b.told.skip(a.told.len() as int),
    )
    &&& b.term.wf()
    &&& b.term.grid.columns == term.grid.columns
    &&& b.term.grid.lines == term.grid.lines
    &&& b.term.options == term.options
    &&& b.term.listener == term.listener
}

/// The parser was handed the bytes from the start, piece by piece. Mostly there is one
/// piece.
pub open spec fn is_feeding(
    bytes: Seq<u8>,
    parser: AnsiParser,
    term: TermState,
    feeds: Seq<Feed>,
) -> bool
    decreases feeds.len(),
{
    if feeds.len() <= 1 {
        feeds == seq![Feed { parser, term, told: Seq::empty(), read: 0 }]
    } else {
        &&& is_feeding(bytes, parser, term, feeds.drop_last())
        &&& is_piece(bytes, feeds.drop_last().last(), feeds.last())
    }
}

/// The state once the bytes were fed and what the terminal told was taken over.
pub open spec fn fed(v: EngineView, bytes: Seq<u8>, end: Feed) -> EngineView {
    overheard(
        EngineView {
            term: end.term,
            parser: end.parser,
            scanner: csi_mode_scan::state_after(v.scanner, bytes),
            events: v.events + osc_preparse::extracted(bytes, 0).1,
            ..v
        },
        end.told,
    )
}

/// `after` is the state once the bytes were fed: the host events that were taken
/// out of the bytes come first, those of the terminal next, the replies to its
/// queries behind them, and the color-scheme reports last. `feeds` is how the terminal
/// took the bytes that were left, and `colors` and `sizes` are the replies to the queries
/// among what it told.
pub open spec fn is_advance(
    v: EngineView,
    bytes: Seq<u8>,
    feeds: Seq<Feed>,
    colors: Seq<Option<EventView>>,
    sizes: Seq<Option<EventView>>,
    after: EngineView,
) -> bool {
    let kept = osc_preparse::extracted(bytes, 0).0;
    let now = fed(v, bytes, feeds.last());
    &&& is_feeding(kept, v.parser, v.term, feeds)
    &&& feeds.last().read == kept.len()
    &&& are_color_answers(now.theme(), event_proxy::told_colors(feeds.last().told), colors)
    &&& are_size_answers(now, event_proxy::told_sizes(feeds.last().told), sizes)
    &&& after == toggled(
        answered(now, colors, sizes),
        csi_mode_scan::toggles_in(v.scanner, bytes),
    )
}

/// What the terminal tells of its title when its options are replaced.
pub open spec fn title_event(s: TermState) -> EventView {
    match s.title {
        Some(title) => EventView::Title(title),
        None => EventView::ResetTitle,
    }
}

/// `after` is the state once the configuration was replaced. The terminal tells its
/// title, and a program that asked for it is told of the color scheme.
pub open spec fn is_reconfigure(
    v: EngineView,
    config: EngineConfig,
    term: TermState,
    after: EngineView,
) -> bool {
    let set = EngineView {
        term,
        palette: config::accepted_palette(config.palette@, v.palette),
        events: v.events.push(title_event(v.term)),
        ..v
    };
    &&& term_model::is_reconfigured(v.term, config::options_of(config), term)
    &&& after == if v.subscribed {
        reported_scheme(set)
    } else {
        set
    }
}

/// `after` is the state once the grid was resized.
pub open spec fn is_resize(
    v: EngineView,
    columns: u16,
    rows: u16,
    after: EngineView,
) -> bool {
    let size = config::grid_size(columns, rows);
    let term = term_model::resizable(v.term, size.0, size.1);
    &&& term_bridge::resize_outcome(term, size.0, size.1, after.term)
    &&& term_model::is_resized(term, size.0, size.1, after.term)
    &&& after == EngineView { term: after.term, scroll_fraction: 0, ..v }
}

/// What a selection of this kind grows by.
pub open spec fn selection_kind(kind: u8) -> SelectionKind {
    if kind == 1 {
        SelectionKind::Semantic
    } else if kind == 2 {
        SelectionKind::Lines
    } else {
        SelectionKind::Simple
    }
}

/// The end of a selection that lies in this cell of the viewport. A row above the
/// viewport counts as its first.
pub open spec fn viewport_anchor(s: TermState, row: i32, col: u16, right: bool) -> Anchor {
    Anchor {
        line: (if row < 0 {
            0 - s.offset
        } else {
            row - s.offset
        }) as i32,
        col: col as usize,
        right,
    }
}

/// The state once a selection was started.
pub open spec fn selection_started(
    v: EngineView,
    row: i32,
    col: u16,
    right: bool,
    kind: u8,
) -> EngineView {
    let at = viewport_anchor(v.term, row, col, right);
    let selection = SelectionView { kind: selection_kind(kind), start: at, end: at };
    EngineView { term: TermState { selection: Some(selection), ..v.term }, ..v }
}

/// The state once the end of the selection was moved, where there is one.
pub open spec fn selection_updated(v: EngineView, row: i32, col: u16, right: bool) -> EngineView {
    let at = viewport_anchor(v.term, row, col, right);
    let selection = match v.term.selection {
        Some(s) => Some(SelectionView { end: at, ..s }),
        None => None,
    };
    EngineView { term: TermState { selection, ..v.term }, ..v }
}

} // verus!
