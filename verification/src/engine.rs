//! The terminal engine: it feeds a terminal, answers what programs ask of it, and
//! turns its grid into flat frames for a host to paint.

use crate::config;
use crate::config::{build_term_options, clamped_term_size};
use crate::csi_mode_scan;
use crate::csi_mode_scan::{ColorSchemeToggle, CsiModeScanner};
use crate::event_proxy;
use crate::event_proxy::{
    format_clipboard, format_color, format_size, hear_all, pty_write, ClipboardReply, ColorReply,
    EventRecord, EventView, Heard, IncomingView, Queue, SizeReply,
};
use crate::frame;
use crate::frame::{EngineView, Feed, PIECE};
use crate::osc_preparse::extract_osc_events;
use crate::palette;
use crate::palette::{chrome_colors, is_dark_bg, query_color_rgb, PALETTE_LEN};
use crate::screen;
use crate::screen::{
    blank_row, intern_rows, mark_matches, read_row, show_row, LineView, LinkTable,
};
use crate::seek::{find_line_shown, find_match, list_matches};
use crate::term_bridge;
use crate::term_bridge::{AnsiParser, Terminal};
use crate::term_model;
use crate::term_model::{
    CellRange, CursorKind, GridCell, SelectionKind, TermState, MODE_SHOW_CURSOR, RESIZE_ROOM,
};
use alacritty_terminal::event::Event;
use alacritty_terminal::term::search::RegexSearch;
use vstd::prelude::*;
use vstd::string::*;

pub use crate::config::EngineConfig;
pub use crate::event_proxy::EngineEvent;
pub use crate::palette::CURSOR_COLOR_UNSET;
pub use crate::screen::{
    CellData, LineUpdate, RawLine, RenderUpdate, FLAG_BOLD, FLAG_DIM, FLAG_HYPERLINK, FLAG_INVERSE,
    FLAG_ITALIC, FLAG_MATCH, FLAG_MATCH_CURRENT, FLAG_SELECTED, FLAG_STRIKEOUT, FLAG_UNDERLINE,
    FLAG_WIDE, FLAG_WIDE_SPACER,
};
pub use crate::view_frame::OVERSCAN_LINE_TAG;

verus! {

/// A terminal with its parser, what it owes the host, and how it is shown.
pub struct TerminalEngine {
    term: Terminal,
    parser: AnsiParser,
    /// What the terminal told while a call ran; emptied after each call.
    record: Queue<Event>,
    events: Vec<EngineEvent>,
    clipboard: Vec<ClipboardReply>,
    cell_w: u16,
    cell_h: u16,
    palette: Vec<u32>,
    search: Option<RegexSearch>,
    current_match: Option<CellRange>,
    hyperlinks: LinkTable,
    /// Sub-cell scroll position in cell-height fractions, as the bits of a double.
    scroll_fraction: u64,
    /// Parallel sniffer for DEC private mode 2031 (color-scheme notifications),
    /// which the terminal's parser does not surface.
    color_scheme_scanner: CsiModeScanner,
    /// Whether the running program subscribed (mode 2031) to color-scheme change
    /// notifications.
    color_scheme_subscribed: bool,
}

impl View for TerminalEngine {
    type V = EngineView;

    closed spec fn view(&self) -> EngineView {
        EngineView {
            term: term_bridge::term_state(self.term),
            parser: self.parser,
            events: event_proxy::event_views(self.events@),
            clipboard: self.clipboard@,
            cell_w: self.cell_w,
            cell_h: self.cell_h,
            palette: self.palette@,
            search: match self.search {
                Some(re) => Some(term_bridge::regex_pattern(re)),
                None => None,
            },
            current_match: self.current_match,
            hyperlinks: self.hyperlinks@,
            scroll_fraction: self.scroll_fraction,
            scanner: self.color_scheme_scanner@,
            subscribed: self.color_scheme_subscribed,
        }
    }
}

impl TerminalEngine {
    /// The parts of the engine agree: its terminal reports to its record, and its state
    /// is a valid one.
    pub closed spec fn wf(&self) -> bool {
        self.hyperlinks.wf() && self.listens() && self@.wf()
    }

    /// The terminal reports to the engine's record.
    spec fn listens(&self) -> bool {
        self@.term.listener.list() == self.record
    }

    /// The state of a well-formed engine is a valid one.
    pub proof fn wf_view(&self)
        requires
            self.wf(),
        ensures
            self@.wf(),
    {
    }

    /// Makes an engine with a blank screen. Sizes under the minimum are raised to it,
    /// and a palette that has not 18 entries is replaced by the canonical one.
    pub fn new(columns: u16, rows: u16, config: EngineConfig) -> (r: TerminalEngine)
        ensures
            r.wf(),
            r@ == (EngineView {
                term: term_model::damage_reset(
                    term_model::fresh(
                        config::options_of(config),
                        config::grid_size(columns, rows).0,
                        config::grid_size(columns, rows).1,
                        r@.term.listener,
                    ),
                ),
                parser: r@.parser,
                events: Seq::empty(),
                clipboard: Seq::empty(),
                cell_w: 0,
                cell_h: 0,
                palette: config::accepted_palette(config.palette@, config::standard_palette()),
                search: None,
                current_match: None,
                hyperlinks: Seq::empty(),
                scroll_fraction: 0,
                scanner: csi_mode_scan::ScanView::Ground,
                subscribed: false,
            }),
    {
        let (cols, lines): (usize, usize) = clamped_term_size(columns, rows);
        let term_config = term_bridge::to_config(build_term_options(&config));
        let palette: Vec<u32> = if config.palette.len() == PALETTE_LEN {
            config.palette
        } else {
            EngineConfig::default_palette_vec()
        };
        let record: Queue<Event> = Queue::new();
        let listener: EventRecord = EventRecord::new(record.clone());
        let mut term: Terminal = term_bridge::new_term(term_config, cols, lines, listener);
        // A terminal starts out fully damaged; the first damage after input is partial.
        term_bridge::reset_damage(&mut term);
        proof {
            assert(term_model::MODE_DEFAULT & term_model::MODE_VI == 0) by (bit_vector);
            assert(term_model::MODE_DEFAULT & term_model::MODE_ALT_SCREEN == 0) by (bit_vector);
            assert(0u16 & term_model::CELL_WIDE_CHAR == 0) by (bit_vector);
        }
        let r: TerminalEngine = TerminalEngine {
            term,
            parser: AnsiParser::new(),
            record,
            events: Vec::new(),
            clipboard: Vec::new(),
            cell_w: 0,
            cell_h: 0,
            palette,
            search: None,
            current_match: None,
            hyperlinks: LinkTable::new(),
            scroll_fraction: 0,
            color_scheme_scanner: CsiModeScanner::new(),
            color_scheme_subscribed: false,
        };
        assert(r@.events =~= Seq::<EventView>::empty());
        assert(r@.clipboard =~= Seq::<ClipboardReply>::empty());
        r
    }

    /// Columns of the grid.
    pub fn columns(&self) -> (r: usize)
        ensures
            r == self@.term.grid.columns,
    {
        term_bridge::columns(&self.term)
    }

    /// Rows of the viewport.
    pub fn screen_lines(&self) -> (r: usize)
        ensures
            r == self@.term.grid.lines,
    {
        term_bridge::screen_lines(&self.term)
    }

    /// Lines of the history.
    pub fn history_size(&self) -> (r: usize)
        ensures
            r == self@.term.grid.history,
    {
        term_bridge::history_size(&self.term)
    }

    /// The cell height that the host reported; 0 before it did.
    pub fn cell_height(&self) -> (r: u16)
        ensures
            r == self@.cell_h,
    {
        self.cell_h
    }

    /// The sub-cell scroll position, as the bits of a double: a number from zero up to,
    /// but not including, one.
    pub fn scroll_fraction(&self) -> (r: u64)
        requires
            self.wf(),
        ensures
            r == self@.scroll_fraction,
            frame::is_fraction(r),
    {
        self.scroll_fraction
    }

    /// Whether the pixels of the text area fit in 16 bits, in both directions. Where they
    /// do not, a program that asks for them gets no reply.
    pub fn text_area_fits(&self) -> (r: bool)
        requires
            self.wf(),
        ensures
            r == self@.text_area_fits(),
    {
        let lines: u64 = term_bridge::screen_lines(&self.term) as u64;
        let columns: u64 = term_bridge::columns(&self.term) as u64;
        proof {
            assert(lines * self.cell_h <= 65535 * 65535) by (nonlinear_arith)
                requires
                    lines <= 65535,
                    self.cell_h <= 65535,
            ;
            assert(columns * self.cell_w <= 65535 * 65535) by (nonlinear_arith)
                requires
                    columns <= 65535,
                    self.cell_w <= 65535,
            ;
        }
        lines * (self.cell_h as u64) <= 65535 && columns * (self.cell_w as u64) <= 65535
    }

    /// Takes the events that came up since the last call.
    pub fn take_events(&mut self) -> (r: Vec<EngineEvent>)
        requires
            old(self).wf(),
        ensures
            final(self).wf(),
            event_proxy::event_views(r@) == old(self)@.events,
            final(self)@ == (EngineView { events: Seq::empty(), ..old(self)@ }),
    {
        let mut taken: Vec<EngineEvent> = Vec::new();
        std::mem::swap(&mut taken, &mut self.events);
        assert(self@.events =~= Seq::<EventView>::empty());
        taken
    }

    /// Whether a program waits for the clipboard's text.
    pub fn has_pending_clipboard(&self) -> (r: bool)
        ensures
            r == (self@.clipboard.len() > 0),
    {
        self.clipboard.len() > 0
    }

    /// Answers every pending clipboard request with the text.
    pub fn respond_clipboard_load(&mut self, text: String)
        requires
            old(self).wf(),
        ensures
            final(self).wf(),
            exists|answers: Seq<Option<EventView>>| #[trigger]
                frame::are_clipboard_answers(text@, old(self)@.clipboard, answers)
                    && final(self)@ == (EngineView {
                    events: old(self)@.events + event_proxy::somes(answers),
                    clipboard: Seq::empty(),
                    ..old(self)@
                }),
    {
        let mut pending: Vec<ClipboardReply> = Vec::new();
        std::mem::swap(&mut pending, &mut self.clipboard);
        let ghost before = self@;
        let ghost mut answers: Seq<Option<EventView>> = Seq::empty();
        let n: usize = pending.len();
        let mut i: usize = 0;
        assert(before.events + event_proxy::somes(answers) =~= before.events);
        while i < n
            invariant
                i <= n == pending@.len(),
                self.wf(),
                answers.len() == i,
                forall|k: int|
                    0 <= k < i ==> frame::is_clipboard_answer(
                        text@,
                        pending@[k],
                        #[trigger] answers[k],
                    ),
                self@ == (EngineView {
                    events: before.events + event_proxy::somes(answers),
                    ..before
                }),
            decreases n - i,
        {
            let ghost mut answer: Option<EventView> = None;
            let ghost so_far = answers;
            if let Some(reply) = format_clipboard(&pending[i].formatter, text.as_str()) {
                self.push_event(pty_write(reply.as_str()));
                proof {
                    answer = Some(frame::as_write(reply@));
                }
            }
            proof {
                answers = so_far.push(answer);
                assert(answers.drop_last() =~= so_far);
                assert(frame::is_clipboard_answer(text@, pending@[i as int], answer));
            }
            i = i + 1;
            assert(self@.events =~= before.events + event_proxy::somes(answers));
        }
        assert(self@.clipboard =~= Seq::<ClipboardReply>::empty());
        assert(frame::are_clipboard_answers(text@, old(self)@.clipboard, answers));
    }

    /// Appends an event.
    fn push_event(&mut self, e: EngineEvent)
        requires
            old(self).wf(),
        ensures
            final(self).wf(),
            final(self)@ == (EngineView { events: old(self)@.events.push(e@), ..old(self)@ }),
    {
        self.events.push(e);
        assert(self@.events =~= old(self)@.events.push(e@));
    }

    /// Where the cursor stands, whether it is shown, its shape and whether it blinks.
    fn cursor_fields(&self) -> (r: (u32, u32, bool, u8, bool))
        requires
            self.wf(),
        ensures
            ({
                let u = frame::update_of(self@, Seq::empty(), false, 0);
                &&& r.0 == u.cursor_line
                &&& r.1 == u.cursor_col
                &&& r.2 == (self@.term.mode & MODE_SHOW_CURSOR != 0)
                &&& r.3 == u.cursor_shape
                &&& r.4 == u.cursor_blinking
            }),
    {
        let (line, col): (i32, usize) = term_bridge::cursor_point(&self.term);
        let (shape, blinking): (CursorKind, bool) = term_bridge::cursor_style(&self.term);
        let code: u8 = match shape {
            CursorKind::Block => 0,
            CursorKind::Underline => 1,
            CursorKind::Beam => 2,
            CursorKind::HollowBlock => 3,
            CursorKind::Hidden => 4,
        };
        let row: u32 = if line < 0 {
            0
        } else {
            line as u32
        };
        let shown: bool = term_bridge::mode_bits(&self.term) & MODE_SHOW_CURSOR != 0;
        (row, col as u32, shown, code, blinking)
    }

    /// An update with these lines, and with the chrome of the engine's state.
    fn update_with(&self, lines: Vec<LineUpdate>, full: bool, delta: i32) -> (r: RenderUpdate)
        requires
            self.wf(),
            screen::lines_wf(lines@),
        ensures
            r.wf(),
            r@ == frame::update_of(self@, screen::line_views(lines@), full, delta),
    {
        let offset: usize = term_bridge::display_offset(&self.term);
        let (cursor_line, cursor_col, shown, cursor_shape, cursor_blinking): (
            u32,
            u32,
            bool,
            u8,
            bool,
        ) = self.cursor_fields();
        let (default_fg, default_bg, cursor_color): (u32, u32, u32) = chrome_colors(
            &self.term,
            &self.palette,
        );
        RenderUpdate {
            lines,
            full,
            cursor_line,
            cursor_col,
            cursor_visible: shown && offset == 0,
            cursor_shape,
            cursor_blinking,
            mode_flags: term_bridge::mode_bits(&self.term),
            display_offset: offset as u32,
            default_fg,
            default_bg,
            cursor_color,
            scroll_fraction: self.scroll_fraction,
            scroll_line_delta: delta,
        }
    }

    /// Reads `count` rows of the viewport, from row `first` on, and the overscan row
    /// where there is one.
    fn read_viewport(&self, first: usize, count: usize) -> (r: Vec<Vec<GridCell>>)
        requires
            self.wf(),
            first + count <= self@.term.grid.lines,
        ensures
            screen::row_views(r@) == frame::shown_cells(self@.term, first as int, count as int),
    {
        let ghost s = self@.term;
        let offset: i32 = term_bridge::display_offset(&self.term) as i32;
        let mut rows: Vec<Vec<GridCell>> = Vec::new();
        let mut i: usize = 0;
        while i < count
            invariant
                self.wf(),
                s == self@.term,
                s.wf(),
                offset == s.offset,
                first + count <= s.grid.lines,
                i <= count,
                rows@.len() == i,
                forall|j: int|
                    0 <= j < i ==> term_model::cell_views((#[trigger] rows@[j])@) == s.grid.row(
                        first + j - s.offset,
                    ),
            decreases count - i,
        {
            rows.push(read_row(&self.term, (first + i) as i32 - offset));
            i = i + 1;
        }
        if (offset as usize) < term_bridge::history_size(&self.term) {
            rows.push(read_row(&self.term, -offset - 1));
        }
        assert(screen::row_views(rows@) =~= frame::shown_cells(s, first as int, count as int));
        rows
    }

    /// Shows `count` rows of the viewport, from row `first` on, and the overscan row,
    /// which gets the tag.
    fn show_rows(&mut self, first: usize, count: usize, overscan_tag: u32) -> (r: Vec<LineUpdate>)
        requires
            old(self).wf(),
            first + count <= old(self)@.term.grid.lines,
        ensures
            final(self).wf(),
            final(self)@ == frame::with_links(
                old(self)@,
                frame::shown_cells(old(self)@.term, first as int, count as int),
            ),
            screen::lines_wf(r@),
            screen::line_views(r@) == frame::viewport_lines(
                final(self)@,
                first as int,
                count as int,
            ).push(LineView { line: overscan_tag, cells: final(self)@.overscan() }),
            final(self)@.term.selection is None ==> final(self)@.selection() is None,
    {
        let rows: Vec<Vec<GridCell>> = self.read_viewport(first, count);
        proof {
            screen::law_links_only_grow(self@.hyperlinks, screen::row_views(rows@));
        }
        intern_rows(&mut self.hyperlinks, &rows);
        let ghost v = self@;
        let ghost cells = screen::row_views(rows@);
        assert(cells.len() == rows@.len());
        let offset: i32 = term_bridge::display_offset(&self.term) as i32;
        let selection: Option<CellRange> = term_bridge::selection_range(&self.term);
        let mut lines: Vec<LineUpdate> = Vec::new();
        let mut i: usize = 0;
        while i < count
            invariant
                self.wf(),
                v == self@,
                v.wf(),
                cells == screen::row_views(rows@),
                cells == frame::shown_cells(v.term, first as int, count as int),
                count <= rows@.len(),
                offset == v.term.offset,
                selection == v.selection(),
                first + count <= v.term.grid.lines,
                i <= count,
                lines@.len() == i,
                screen::lines_wf(lines@),
                forall|j: int|
                    0 <= j < i ==> (#[trigger] lines@[j])@ == (LineView {
                        line: (first + j) as u32,
                        cells: v.shown_line(first + j - v.term.offset),
                    }),
            decreases count - i,
        {
            let line: i32 = (first + i) as i32 - offset;
            assert(term_model::cell_views(rows@[i as int]@) == cells[i as int]);
            assert(cells[i as int] == v.term.grid.row(line as int));
            let data: Vec<CellData> = show_row(
                &self.term,
                &self.palette,
                &self.hyperlinks,
                &rows[i],
                line as i64,
                selection,
            );
            lines.push(RawLine { line: (first + i) as u32, cells: data }.pack());
            i = i + 1;
        }
        let over: Vec<CellData> = if (offset as usize) < term_bridge::history_size(&self.term) {
            assert(term_model::cell_views(rows@[count as int]@) == cells[count as int]);
            assert(cells[count as int] == v.term.grid.row(-offset - 1));
            show_row(
                &self.term,
                &self.palette,
                &self.hyperlinks,
                &rows[count],
                (-offset - 1) as i64,
                selection,
            )
        } else {
            blank_row(&self.term, &self.palette, term_bridge::columns(&self.term))
        };
        assert(over@ =~= v.overscan());
        lines.push(RawLine { line: overscan_tag, cells: over }.pack());
        assert(screen::line_views(lines@) =~= frame::viewport_lines(
            v,
            first as int,
            count as int,
        ).push(LineView { line: overscan_tag, cells: v.overscan() }));
        lines
    }

    /// The whole viewport, and the overscan row: one row more than the viewport has,
    /// whose tag is the number of rows. It holds the line just above the viewport, for
    /// the painter to draw in the sliver that a sub-cell scroll reveals.
    pub fn full_snapshot(&mut self) -> (r: RenderUpdate)
        requires
            old(self).wf(),
        ensures
            final(self).wf(),
            final(self)@ == frame::with_links(
                old(self)@,
                frame::snapshot_cells(old(self)@.term),
            ),
            r.wf(),
            r@ == frame::snapshot(final(self)@),
            final(self)@.term.selection is None ==> final(self)@.selection() is None,
    {
        let rows: usize = term_bridge::screen_lines(&self.term);
        let lines: Vec<LineUpdate> = self.show_rows(0, rows, rows as u32);
        self.update_with(lines, true, 0)
    }

    /// The whole viewport with the matches of the search highlighted, where one is
    /// active.
    pub fn full_snapshot_searched(&mut self) -> (r: RenderUpdate)
        requires
            old(self).wf(),
        ensures
            final(self).wf(),
            final(self)@ == frame::with_links(
                old(self)@,
                frame::snapshot_cells(old(self)@.term),
            ),
            r.wf(),
            r@ == frame::searched_snapshot(final(self)@),
    {
        let mut update: RenderUpdate = self.full_snapshot();
        let offset: usize = term_bridge::display_offset(&self.term);
        if let Some(re) = &self.search {
            let found: Vec<CellRange> = list_matches(&self.term, re, offset as i32);
            update.lines = mark_matches(&update.lines, offset as u32, &found, self.current_match);
        }
        update
    }

    /// Incremental scroll refresh: the host rotates its mirror by `line_delta`, so only
    /// the rows that entered the viewport, the overscan row and the chrome are shipped.
    /// Falls back to a full snapshot when the jump is too large or a search is active.
    pub fn scroll_refresh(&mut self, line_delta: i32) -> (r: RenderUpdate)
        requires
            old(self).wf(),
        ensures
            final(self).wf(),
            final(self)@ == frame::with_links(
                old(self)@,
                frame::scroll_cells(old(self)@, line_delta as int, line_delta as int),
            ),
            r.wf(),
            r@ == frame::scroll_answer(final(self)@, line_delta as int, line_delta),
    {
        if self.search.is_some() {
            return self.full_snapshot_searched();
        }
        let rows: usize = term_bridge::screen_lines(&self.term);
        let asked: i64 = if line_delta < 0 {
            -(line_delta as i64)
        } else {
            line_delta as i64
        };
        if asked >= rows as i64 {
            return self.full_snapshot();
        }
        let count: usize = asked as usize;
        let first: usize = if line_delta < 0 {
            rows - count
        } else {
            0
        };
        let lines: Vec<LineUpdate> = self.show_rows(first, count, OVERSCAN_LINE_TAG);
        self.update_with(lines, false, line_delta)
    }

    /// Answers a scroll by `line_delta` lines, where `asked` lines were asked for: with a
    /// full snapshot when a jump is too large or a search is active, else with a refresh.
    fn after_scroll_refresh(&mut self, asked: i32, line_delta: i32) -> (r: RenderUpdate)
        requires
            old(self).wf(),
        ensures
            final(self).wf(),
            final(self)@ == frame::with_links(
                old(self)@,
                frame::scroll_cells(old(self)@, asked as int, line_delta as int),
            ),
            r.wf(),
            r@ == frame::scroll_answer(final(self)@, asked as int, line_delta),
    {
        let rows: i64 = term_bridge::screen_lines(&self.term) as i64;
        if asked as i64 >= rows || -(asked as i64) >= rows {
            return self.full_snapshot_searched();
        }
        self.scroll_refresh(line_delta)
    }

    /// Reports the size of a cell in pixels. Another cell height changes the meaning of
    /// a sub-cell fraction (font zoom), so the viewport snaps to a line boundary.
    pub fn set_cell_pixels(&mut self, w: u16, h: u16)
        requires
            old(self).wf(),
        ensures
            final(self).wf(),
            final(self)@ == (EngineView {
                cell_w: w,
                cell_h: h,
                scroll_fraction: if h != old(self)@.cell_h {
                    0
                } else {
                    old(self)@.scroll_fraction
                },
                ..old(self)@
            }),
    {
        if h != self.cell_h {
            self.scroll_fraction = 0;
        }
        self.cell_w = w;
        self.cell_h = h;
    }

    /// Pushes an OSC 997 color-scheme report (`1` = dark, `2` = light), derived from the
    /// luminance of the live default background: the one that a program set with OSC 11,
    /// else the configured one.
    pub fn emit_color_scheme_report(&mut self)
        requires
            old(self).wf(),
        ensures
            final(self).wf(),
            final(self)@ == frame::reported_scheme(old(self)@),
    {
        let (_, background, _): (u32, u32, u32) = chrome_colors(&self.term, &self.palette);
        let digit: u8 = if is_dark_bg(background) {
            0x31
        } else {
            0x32
        };
        let report: Vec<u8> = vec![0x1b, 0x5d, 0x39, 0x39, 0x37, 0x3b, digit, 0x1b, 0x5c];
        proof {
            assert(EventView::PtyWrite(report@) == frame::scheme_report(background)) by {
                assert(report@ =~= frame::scheme_report(background)->PtyWrite_0);
            }
        }
        self.push_event(EngineEvent::PtyWrite(report));
    }

    /// Takes over events and clipboard requests, behind those that wait already.
    pub fn hear(&mut self, events: Vec<EngineEvent>, clipboard: Vec<ClipboardReply>)
        requires
            old(self).wf(),
        ensures
            final(self).wf(),
            final(self)@ == (EngineView {
                events: old(self)@.events + event_proxy::event_views(events@),
                clipboard: old(self)@.clipboard + clipboard@,
                ..old(self)@
            }),
    {
        let ghost before = self@;
        let mut events: Vec<EngineEvent> = events;
        let mut clipboard: Vec<ClipboardReply> = clipboard;
        let ghost told = event_proxy::event_views(events@);
        let ghost asked = clipboard@;
        self.events.append(&mut events);
        self.clipboard.append(&mut clipboard);
        assert(self@.events =~= before.events + told);
        assert(self@.clipboard =~= before.clipboard + asked);
    }

    /// Takes over what the terminal told, and returns the queries that wait for an answer.
    fn overhear(&mut self, told: &Vec<Event>) -> (r: (Vec<ColorReply>, Vec<SizeReply>))
        requires
            old(self).wf(),
        ensures
            final(self).wf(),
            final(self)@ == frame::overheard(old(self)@, told@),
            r.0@ == event_proxy::told_colors(told@),
            r.1@ == event_proxy::told_sizes(told@),
    {
        let heard: Heard = hear_all(told);
        self.hear(heard.events, heard.clipboard);
        (heard.replies, heard.sizes)
    }

    /// Answers color queries with the current color, where a reply is owed.
    fn answer_colors(&mut self, replies: &Vec<ColorReply>) -> (answers: Ghost<
        Seq<Option<EventView>>,
    >)
        requires
            old(self).wf(),
        ensures
            final(self).wf(),
            frame::are_color_answers(old(self)@.theme(), replies@, answers@),
            final(self)@ == (EngineView {
                events: old(self)@.events + event_proxy::somes(answers@),
                ..old(self)@
            }),
    {
        let ghost before = self@;
        let ghost mut answers: Seq<Option<EventView>> = Seq::empty();
        let n: usize = replies.len();
        let mut i: usize = 0;
        assert(before.events + event_proxy::somes(answers) =~= before.events);
        while i < n
            invariant
                i <= n == replies@.len(),
                self.wf(),
                answers.len() == i,
                forall|k: int|
                    0 <= k < i ==> frame::is_color_answer(
                        before.theme(),
                        replies@[k],
                        #[trigger] answers[k],
                    ),
                self@ == (EngineView {
                    events: before.events + event_proxy::somes(answers),
                    ..before
                }),
            decreases n - i,
        {
            let ghost mut answer: Option<EventView> = None;
            let ghost so_far = answers;
            let reply: &ColorReply = &replies[i];
            if let Some((r, g, b)) = query_color_rgb(&self.term, &self.palette, reply.index) {
                if let Some(text) = format_color(&reply.formatter, r, g, b) {
                    self.push_event(pty_write(text.as_str()));
                    proof {
                        answer = Some(frame::as_write(text@));
                    }
                }
            }
            proof {
                answers = so_far.push(answer);
                assert(answers.drop_last() =~= so_far);
                assert(frame::is_color_answer(before.theme(), replies@[i as int], answer));
            }
            i = i + 1;
            assert(self@.events =~= before.events + event_proxy::somes(answers));
        }
        Ghost(answers)
    }

    /// Answers text-area queries with the size of the text area, where it fits in 16 bits.
    fn answer_sizes(&mut self, sizes: &Vec<SizeReply>) -> (answers: Ghost<Seq<Option<EventView>>>)
        requires
            old(self).wf(),
        ensures
            final(self).wf(),
            frame::are_size_answers(old(self)@, sizes@, answers@),
            final(self)@ == (EngineView {
                events: old(self)@.events + event_proxy::somes(answers@),
                ..old(self)@
            }),
    {
        let ghost before = self@;
        let ghost mut answers: Seq<Option<EventView>> = Seq::empty();
        let lines: u16 = term_bridge::screen_lines(&self.term) as u16;
        let columns: u16 = term_bridge::columns(&self.term) as u16;
        let fits: bool = self.text_area_fits();
        let n: usize = sizes.len();
        let mut i: usize = 0;
        assert(before.events + event_proxy::somes(answers) =~= before.events);
        while i < n
            invariant
                i <= n == sizes@.len(),
                self.wf(),
                lines == before.term.grid.lines,
                columns == before.term.grid.columns,
                fits == before.text_area_fits(),
                answers.len() == i,
                forall|k: int|
                    0 <= k < i ==> frame::is_size_answer(before, sizes@[k], #[trigger] answers[k]),
                self@ == (EngineView {
                    events: before.events + event_proxy::somes(answers),
                    ..before
                }),
            decreases n - i,
        {
            let ghost mut answer: Option<EventView> = None;
            let ghost so_far = answers;
            if fits {
                let reply: Option<String> = format_size(
                    &sizes[i].formatter,
                    lines,
                    columns,
                    self.cell_w,
                    self.cell_h,
                );
                if let Some(text) = reply {
                    self.push_event(pty_write(text.as_str()));
                    proof {
                        answer = Some(frame::as_write(text@));
                        assert(event_proxy::size_reply_outcome(
                            sizes@[i as int].formatter,
                            before.term.grid.lines as u16,
                            before.term.grid.columns as u16,
                            before.cell_w,
                            before.cell_h,
                            text@,
                        ));
                    }
                }
            }
            proof {
                answers = so_far.push(answer);
                assert(answers.drop_last() =~= so_far);
                assert(frame::is_size_answer(before, sizes@[i as int], answer));
            }
            i = i + 1;
            assert(self@.events =~= before.events + event_proxy::somes(answers));
        }
        Ghost(answers)
    }

    /// Answers pending queries: those of colors with the current color, where a reply is
    /// owed, and those of the text area with its size, where it fits in 16 bits.
    pub fn resolve_pending_replies(&mut self, replies: Vec<ColorReply>, sizes: Vec<SizeReply>)
        requires
            old(self).wf(),
        ensures
            final(self).wf(),
            exists|colors: Seq<Option<EventView>>, areas: Seq<Option<EventView>>|
                frame::are_color_answers(old(self)@.theme(), replies@, colors)
                    && frame::are_size_answers(old(self)@, sizes@, areas) && final(self)@
                    == #[trigger] frame::answered(old(self)@, colors, areas),
    {
        let ghost before = self@;
        let colors: Ghost<Seq<Option<EventView>>> = self.answer_colors(&replies);
        let ghost mid = self@;
        let areas: Ghost<Seq<Option<EventView>>> = self.answer_sizes(&sizes);
        proof {
            assert forall|i: int| 0 <= i < areas@.len() implies frame::is_size_answer(
                before,
                sizes@[i],
                #[trigger] areas@[i],
            ) by {
                assert(frame::is_size_answer(mid, sizes@[i], areas@[i]));
            }
            assert(self@ == frame::answered(before, colors@, areas@));
        }
    }

    /// Takes over the program's wishes about color-scheme notifications, in their order.
    fn apply_toggles(&mut self, toggles: &Vec<ColorSchemeToggle>)
        requires
            old(self).wf(),
        ensures
            final(self).wf(),
            final(self)@ == frame::toggled(old(self)@, toggles@),
    {
        let n: usize = toggles.len();
        let mut i: usize = 0;
        assert(toggles@.take(0) =~= Seq::<ColorSchemeToggle>::empty());
        assert(self@.events + frame::toggle_reports(
            palette::background(self@.theme()),
            toggles@.take(0),
        ) =~= self@.events);
        while i < n
            invariant
                i <= n == toggles@.len(),
                self.wf(),
                self@ == frame::toggled(old(self)@, toggles@.take(i as int)),
            decreases n - i,
        {
            proof {
                assert(toggles@.take(i + 1).drop_last() =~= toggles@.take(i as int));
            }
            match toggles[i] {
                ColorSchemeToggle::Subscribe => {
                    self.color_scheme_subscribed = true;
                    // Per the protocol, the subscription is answered with the current scheme.
                    self.emit_color_scheme_report();
                },
                ColorSchemeToggle::Unsubscribe => {
                    self.color_scheme_subscribed = false;
                },
            }
            i = i + 1;
            assert(self@.events =~= old(self)@.events + frame::toggle_reports(
                palette::background(old(self)@.theme()),
                toggles@.take(i as int),
            ));
        }
        assert(toggles@.take(n as int) =~= toggles@);
    }

    /// Whether the selection's line numbers stay within 32 bits while the parser reads `n`
    /// bytes.
    fn has_room(&self, n: usize) -> (r: bool)
        requires
            self.wf(),
        ensures
            r == term_model::is_moored(
                self@.term,
                term_bridge::sync_pending(self@.parser) + n,
            ),
    {
        if !term_bridge::has_selection(&self.term) {
            return true;
        }
        let pending: usize = term_bridge::pending_bytes(&self.parser);
        let lines: u64 = term_bridge::screen_lines(&self.term) as u64;
        let columns: u64 = term_bridge::columns(&self.term) as u64;
        match lines_scroll_by(pending, n, lines, columns) {
            Some(bound) => {
                !term_bridge::selection_above(&self.term, (i32::MIN as i64 + bound) as i32)
            },
            None => false,
        }
    }

    /// Hands the parser the bytes, in pieces where the selection's line numbers need it,
    /// and returns what the terminal told meanwhile.
    fn feed(&mut self, bytes: &Vec<u8>) -> (r: (Vec<Event>, Ghost<Seq<Feed>>))
        requires
            old(self).wf(),
        ensures
            final(self).wf(),
            frame::is_feeding(bytes@, old(self)@.parser, old(self)@.term, r.1@),
            r.1@.last().read == bytes@.len(),
            r.1@.last().told == r.0@,
            final(self)@ == (EngineView {
                parser: r.1@.last().parser,
                term: r.1@.last().term,
                ..old(self)@
            }),
    {
        let ghost before = self@;
        let ghost start = Feed {
            parser: before.parser,
            term: before.term,
            told: Seq::empty(),
            read: 0,
        };
        let ghost mut feeds: Seq<Feed> = seq![start];
        let mut told: Vec<Event> = Vec::new();
        let len: usize = bytes.len();
        let mut read: usize = 0;
        assert(told@ =~= Seq::<Event>::empty());
        while read < len
            invariant
                read <= len == bytes@.len(),
                self.wf(),
                feeds.len() > 0,
                frame::is_feeding(bytes@, before.parser, before.term, feeds),
                feeds.last() == (Feed {
                    parser: self@.parser,
                    term: self@.term,
                    told: told@,
                    read: read as int,
                }),
                self@ == (EngineView { parser: self@.parser, term: self@.term, ..before }),
            decreases len - read,
        {
            let ghost here = feeds.last();
            let rest: usize = len - read;
            let mut n: usize = rest;
            if !self.has_room(rest) {
                if rest > PIECE && self.has_room(PIECE) {
                    n = PIECE;
                } else {
                    n = 1;
                    if !self.has_room(1) {
                        term_bridge::drop_selection(&mut self.term);
                    }
                }
            }
            let piece: &[u8] = vstd::slice::slice_subrange(bytes.as_slice(), read, read + n);
            let mut heard: Vec<Event> = term_bridge::parse(
                &mut self.parser,
                &mut self.term,
                piece,
                &self.record,
            );
            let ghost more = heard@;
            told.append(&mut heard);
            read = read + n;
            proof {
                let there = Feed {
                    parser: self@.parser,
                    term: self@.term,
                    told: told@,
                    read: read as int,
                };
                assert(there.told.skip(here.told.len() as int) =~= more);
                assert(here.told =~= there.told.take(here.told.len() as int));
                assert(frame::is_piece(bytes@, here, there));
                assert(feeds.push(there).drop_last() =~= feeds);
                feeds = feeds.push(there);
            }
        }
        (told, Ghost(feeds))
    }

    /// Feeds the output of the terminal's program. The scanner of mode 2031 reads the
    /// bytes as they came; the terminal gets them without the sequences that it would
    /// drop. A selection is dropped only where its own line numbers run out: where one
    /// byte more, with what the parser holds back, could make them leave their 32 bits.
    pub fn advance(&mut self, bytes: Vec<u8>)
        requires
            old(self).wf(),
        ensures
            final(self).wf(),
            exists|
                feeds: Seq<Feed>,
                colors: Seq<Option<EventView>>,
                sizes: Seq<Option<EventView>>,
            | #[trigger]
                frame::is_advance(old(self)@, bytes@, feeds, colors, sizes, final(self)@),
    {
        let ghost before = self@;
        let toggles: Vec<ColorSchemeToggle> = self.color_scheme_scanner.feed(bytes.as_slice());
        let (filtered, osc_events): (Vec<u8>, Vec<EngineEvent>) = extract_osc_events(
            bytes.as_slice(),
        );
        self.hear(osc_events, Vec::new());
        assert(self@.clipboard =~= before.clipboard);
        let (told, feeds): (Vec<Event>, Ghost<Seq<Feed>>) = self.feed(&filtered);
        let (replies, sizes): (Vec<ColorReply>, Vec<SizeReply>) = self.overhear(&told);
        let ghost now = self@;
        let ghost asked = (replies@, sizes@);
        self.resolve_pending_replies(replies, sizes);
        let ghost (colors, areas) = choose|
            colors: Seq<Option<EventView>>,
            areas: Seq<Option<EventView>>,
        |
            frame::are_color_answers(now.theme(), asked.0, colors) && frame::are_size_answers(
                now,
                asked.1,
                areas,
            ) && self@ == #[trigger] frame::answered(now, colors, areas);
        self.apply_toggles(&toggles);
        assert(now == frame::fed(before, bytes@, feeds@.last()));
        assert(frame::is_advance(before, bytes@, feeds@, colors, areas, self@));
    }

    /// Resizes the grid; sizes under the minimum are raised to it. The viewport lands
    /// flush on a line after the reflow. A selection is dropped where its line numbers
    /// could leave their 32 bits.
    pub fn resize(&mut self, columns: u16, rows: u16)
        requires
            old(self).wf(),
        ensures
            final(self).wf(),
            frame::is_resize(old(self)@, columns, rows, final(self)@),
    {
        self.scroll_fraction = 0;
        let (cols, lines): (usize, usize) = clamped_term_size(columns, rows);
        let same: bool = cols == term_bridge::columns(&self.term) && lines
            == term_bridge::screen_lines(&self.term);
        if !same && term_bridge::selection_above(&self.term, i32::MIN + RESIZE_ROOM) {
            term_bridge::drop_selection(&mut self.term);
        }
        term_bridge::resize_term(&mut self.term, cols, lines);
    }

    /// Whether a search is active.
    pub fn search_is_active(&self) -> (r: bool)
        ensures
            r == (self@.search is Some),
    {
        self.search.is_some()
    }

    /// Moves the viewport by `delta` lines, as far as the history goes, and returns by
    /// how many it moved.
    fn move_viewport(&mut self, delta: i64) -> (r: i32)
        requires
            old(self).wf(),
            -0x1_0000_0000 <= delta <= 0x1_0000_0000,
        ensures
            final(self).wf(),
            final(self)@ == (EngineView {
                term: term_model::scrolled(old(self)@.term, delta as int),
                ..old(self)@
            }),
            r == final(self)@.term.offset - old(self)@.term.offset,
    {
        let offset: i64 = term_bridge::display_offset(&self.term) as i64;
        let history: i64 = term_bridge::history_size(&self.term) as i64;
        let wanted: i64 = offset + delta;
        let target: i64 = if wanted < 0 {
            0
        } else if wanted > history {
            history
        } else {
            wanted
        };
        let net: i32 = (target - offset) as i32;
        term_bridge::scroll_display(&mut self.term, net);
        net
    }

    /// Scrolls by whole lines, up into the history where `delta` is positive. Discrete
    /// scrolls (keyboard, wheel notches) snap to a line boundary.
    pub fn scroll_lines(&mut self, delta: i32) -> (r: RenderUpdate)
        requires
            old(self).wf(),
        ensures
            final(self).wf(),
            r.wf(),
            ({
                let v = frame::lines_scrolled(old(self)@, delta as int);
                let net = v.term.offset - old(self)@.term.offset;
                &&& final(self)@ == frame::with_links(
                    v,
                    frame::scroll_cells(v, delta as int, net),
                )
                &&& r@ == frame::scroll_answer(final(self)@, delta as int, net as i32)
            }),
    {
        self.scroll_fraction = 0;
        let net: i32 = self.move_viewport(delta as i64);
        self.after_scroll_refresh(delta, net)
    }

    /// Scrolls with sub-cell precision: by whole lines, and to a fraction of a cell
    /// behind them. The host adds its pixels up to the fraction: `lines` is the whole
    /// part of the sum, rounded down, and `fraction` the bits of the rest, a number from
    /// zero up to, but not including, one; any other counts as zero. Positive is up into
    /// the history. Before the host reported the cell height, `lines` is a rough count
    /// and the fraction is not used.
    pub fn scroll_pixels(&mut self, lines: i32, fraction: u64) -> (r: RenderUpdate)
        requires
            old(self).wf(),
        ensures
            final(self).wf(),
            r.wf(),
            old(self)@.cell_h == 0 && lines == 0 ==> {
                &&& final(self)@ == frame::with_links(
                    old(self)@,
                    frame::scroll_cells(old(self)@, 0, 0),
                )
                &&& r@ == frame::scroll_answer(final(self)@, 0, 0)
            },
            old(self)@.cell_h == 0 && lines != 0 ==> {
                let v = frame::lines_scrolled(old(self)@, lines as int);
                let net = v.term.offset - old(self)@.term.offset;
                &&& final(self)@ == frame::with_links(
                    v,
                    frame::scroll_cells(v, lines as int, net),
                )
                &&& r@ == frame::scroll_answer(final(self)@, lines as int, net as i32)
            },
            old(self)@.cell_h != 0 ==> {
                let v = frame::pixels_scrolled(old(self)@, lines as int, fraction);
                let net = v.term.offset - old(self)@.term.offset;
                &&& final(self)@ == frame::with_links(v, frame::scroll_cells(v, net, net))
                &&& r@ == frame::scroll_answer(final(self)@, net, net as i32)
            },
    {
        if self.cell_h == 0 {
            if lines != 0 {
                return self.scroll_lines(lines);
            }
            return self.scroll_refresh(0);
        }
        let offset: i64 = term_bridge::display_offset(&self.term) as i64;
        let history: i64 = term_bridge::history_size(&self.term) as i64;
        // Line by line: from above the history, the first step leads to its top.
        let target: i64 = if offset <= history || lines == 0 {
            offset + lines as i64
        } else if lines > 0 {
            history + lines as i64 - 1
        } else {
            history + lines as i64 + 1
        };
        let net: i32 = if lines == 0 {
            0
        } else {
            self.move_viewport(target - offset)
        };
        let stopped: bool = offset + net as i64 != target;
        let at_top: bool = term_bridge::display_offset(&self.term) >= term_bridge::history_size(
            &self.term,
        );
        let zero: bool = fraction == 0 || fraction == 0x8000_0000_0000_0000;
        let below_one: bool = zero || fraction < 0x3FF0_0000_0000_0000;
        self.scroll_fraction = if stopped || (at_top && !zero) || !below_one {
            0
        } else {
            fraction
        };
        self.after_scroll_refresh(net, net)
    }

    /// Scrolls back to the live edge.
    pub fn scroll_to_bottom(&mut self) -> (r: RenderUpdate)
        requires
            old(self).wf(),
        ensures
            final(self).wf(),
            r.wf(),
            ({
                let net = -old(self)@.term.offset;
                let v = frame::lines_scrolled(old(self)@, net);
                &&& v.term.offset == 0
                &&& final(self)@ == frame::with_links(v, frame::scroll_cells(v, net, net))
                &&& r@ == frame::scroll_answer(final(self)@, net, net as i32)
            }),
    {
        self.scroll_fraction = 0;
        let offset: i64 = term_bridge::display_offset(&self.term) as i64;
        let net: i32 = self.move_viewport(-offset);
        self.after_scroll_refresh(net, net)
    }

    /// Drops the history.
    pub fn clear_history(&mut self)
        requires
            old(self).wf(),
        ensures
            final(self).wf(),
            final(self)@.term.grid.history == 0,
            old(self)@.term.grid.history > 0 ==> final(self)@.term.offset == 0,
            term_model::is_history_cleared(old(self)@.term, final(self)@.term),
            final(self)@ == (EngineView { term: final(self)@.term, ..old(self)@ }),
    {
        term_bridge::clear_saved(&mut self.term);
    }

    /// Replaces the palette, where the new one has 18 entries.
    pub fn set_palette(&mut self, palette: Vec<u32>)
        requires
            old(self).wf(),
        ensures
            final(self).wf(),
            final(self)@ == (EngineView {
                palette: config::accepted_palette(palette@, old(self)@.palette),
                ..old(self)@
            }),
    {
        if palette.len() == PALETTE_LEN {
            self.palette = palette;
        }
    }

    /// Replaces palette and terminal options. A program that subscribed to color-scheme
    /// notifications is told of the new light or dark, so that a live theme toggle
    /// re-themes it without a restart.
    pub fn reconfigure(&mut self, config: EngineConfig)
        requires
            old(self).wf(),
        ensures
            final(self).wf(),
            exists|term: TermState| #[trigger]
                frame::is_reconfigure(old(self)@, config, term, final(self)@),
    {
        let ghost before = self@;
        let term_config = term_bridge::to_config(build_term_options(&config));
        self.set_palette(config.palette);
        let told: Vec<Event> = term_bridge::set_options(&mut self.term, term_config, &self.record);
        let ghost term = self@.term;
        let _ = self.overhear(&told);
        proof {
            title_is_told(before.term, told@);
            assert(self@.events =~= before.events.push(frame::title_event(before.term)));
            assert(self@.clipboard =~= before.clipboard);
        }
        if self.color_scheme_subscribed {
            self.emit_color_scheme_report();
        }
        assert(frame::is_reconfigure(before, config, term, self@));
    }

    /// The grid line that a row of the viewport shows. A row above the viewport counts as
    /// its first.
    fn viewport_line(&self, display_row: i32) -> (r: i32)
        requires
            self.wf(),
        ensures
            r == frame::viewport_anchor(self@.term, display_row, 0, false).line,
    {
        let offset: i32 = term_bridge::display_offset(&self.term) as i32;
        if display_row < 0 {
            0 - offset
        } else {
            display_row - offset
        }
    }

    /// Starts a selection in a cell of the viewport: by cells, by words (`1`) or by lines
    /// (`2`).
    pub fn selection_start(&mut self, display_row: i32, col: u16, right_half: bool, kind: u8)
        requires
            old(self).wf(),
        ensures
            final(self).wf(),
            final(self)@ == frame::selection_started(
                old(self)@,
                display_row,
                col,
                right_half,
                kind,
            ),
    {
        let line: i32 = self.viewport_line(display_row);
        let kind: SelectionKind = match kind {
            1 => SelectionKind::Semantic,
            2 => SelectionKind::Lines,
            _ => SelectionKind::Simple,
        };
        term_bridge::start_selection(&mut self.term, kind, line, col as usize, right_half);
    }

    /// Moves the end of the selection to a cell of the viewport, where there is a
    /// selection.
    pub fn selection_update(&mut self, display_row: i32, col: u16, right_half: bool)
        requires
            old(self).wf(),
        ensures
            final(self).wf(),
            final(self)@ == frame::selection_updated(old(self)@, display_row, col, right_half),
    {
        let line: i32 = self.viewport_line(display_row);
        term_bridge::update_selection(&mut self.term, line, col as usize, right_half);
    }

    /// Drops the selection.
    pub fn selection_clear(&mut self)
        requires
            old(self).wf(),
        ensures
            final(self).wf(),
            final(self)@ == (EngineView {
                term: TermState { selection: None, ..old(self)@.term },
                ..old(self)@
            }),
    {
        term_bridge::drop_selection(&mut self.term);
    }

    /// Whether a cell of the grid has one of the attributes.
    fn cell_has(&self, line: i32, col: usize, bits: u16) -> (r: bool)
        requires
            self.wf(),
            self@.term.grid.has(line as int, col as int),
        ensures
            r == term_bridge::cell_is(self@.term.grid, line as int, col as int, bits),
    {
        term_bridge::cell_at(&self.term, line, col).flags & bits != 0
    }

    /// Whether the selected text can be read: see
    /// [`text_readable`](term_bridge::text_readable).
    pub fn selection_is_readable(&self) -> (r: bool)
        requires
            self.wf(),
        ensures
            r == term_bridge::text_readable(self@.term),
    {
        let range: CellRange = match term_bridge::selection_range(&self.term) {
            Some(range) => range,
            None => return true,
        };
        let ghost s = self@.term;
        let mut line: i32 = range.start_line;
        while line <= range.end_line
            invariant
                self.wf(),
                s == self@.term,
                s.wf(),
                term_bridge::state_range(s) == Some(range),
                s.grid.has_range(range),
                range.start_line <= line,
                forall|l: int|
                    #![trigger term_bridge::text_start(range, l)]
                    range.start_line <= l < line && l <= range.end_line && term_bridge::text_start(
                        range,
                        l,
                    ) == 0 ==> !term_bridge::cell_is(
                        s.grid,
                        l,
                        0,
                        term_model::CELL_WIDE_CHAR_SPACER,
                    ),
            decreases range.end_line - line + 1,
        {
            let from: usize = if line == range.start_line {
                range.start_col
            } else {
                0
            };
            assert(term_bridge::text_start(range, line as int) == from);
            if from == 0 && self.cell_has(line, 0, term_model::CELL_WIDE_CHAR_SPACER) {
                return false;
            }
            line = line + 1;
        }
        let history: i64 = term_bridge::history_size(&self.term) as i64;
        let last: usize = term_bridge::columns(&self.term) - 1;
        !(range.end_line as i64 == -history && range.end_col == last && self.cell_has(
            range.end_line,
            last,
            term_model::CELL_LEADING_WIDE_CHAR_SPACER,
        ))
    }

    /// The selected text, where the selection takes in cells. Ask
    /// [`selection_is_readable`](TerminalEngine::selection_is_readable) first.
    pub fn selection_text(&self) -> (r: Option<String>)
        requires
            self.wf(),
            term_bridge::text_readable(self@.term),
        ensures
            r is Some <==> self@.selection() is Some,
            self@.term.selection is None ==> r is None,
            term_bridge::state_text(self@.term) == (match r {
                Some(text) => Some(text@),
                None => None,
            }),
    {
        term_bridge::selection_string(&self.term)
    }

    /// Searches for a pattern, and focuses the first match from the top of the viewport
    /// on. Returns whether the pattern compiles; where it does not, no search is active.
    pub fn search_set(&mut self, pattern: String) -> (r: bool)
        requires
            old(self).wf(),
        ensures
            final(self).wf(),
            r == term_bridge::regex_valid(pattern@),
            !r ==> final(self)@ == frame::search_started(old(self)@, None),
            r ==> ({
                let v = frame::search_started(old(self)@, Some(pattern@));
                final(self)@ == frame::focused(v, frame::next_match(v, true))
            }),
    {
        self.current_match = None;
        match term_bridge::compile_regex(pattern.as_str()) {
            Ok(re) => {
                self.search = Some(re);
                let _ = self.search_step(true);
                true
            },
            Err(_) => {
                self.search = None;
                false
            },
        }
    }

    /// Focuses the next match. Returns whether there is one.
    pub fn search_next(&mut self) -> (r: bool)
        requires
            old(self).wf(),
        ensures
            final(self).wf(),
            r == (frame::next_match(old(self)@, true) is Some),
            final(self)@ == frame::focused(old(self)@, frame::next_match(old(self)@, true)),
    {
        self.search_step(true)
    }

    /// Focuses the previous match. Returns whether there is one.
    pub fn search_prev(&mut self) -> (r: bool)
        requires
            old(self).wf(),
        ensures
            final(self).wf(),
            r == (frame::next_match(old(self)@, false) is Some),
            final(self)@ == frame::focused(old(self)@, frame::next_match(old(self)@, false)),
    {
        self.search_step(false)
    }

    /// Ends the search.
    pub fn search_clear(&mut self)
        requires
            old(self).wf(),
        ensures
            final(self).wf(),
            final(self)@ == frame::search_started(old(self)@, None),
    {
        self.search = None;
        self.current_match = None;
    }

    /// Where a search starts in this direction.
    fn search_origin(&self, current: Option<CellRange>, to_right: bool) -> (r: (i32, usize))
        requires
            self.wf(),
            current matches Some(m) ==> m.start_col <= 65535 && m.end_col <= 65535,
        ensures
            ({
                let v = EngineView { current_match: current, ..self@ };
                &&& r.0 == frame::search_origin(v, to_right).0
                &&& r.1 == frame::search_origin(v, to_right).1
                &&& self@.term.grid.has(r.0 as int, r.1 as int)
            }),
    {
        let offset: i64 = term_bridge::display_offset(&self.term) as i64;
        let history: i64 = term_bridge::history_size(&self.term) as i64;
        let lines: i64 = term_bridge::screen_lines(&self.term) as i64;
        let columns: usize = term_bridge::columns(&self.term);
        match current {
            Some(m) => if to_right {
                let line: i64 = m.end_line as i64 + ((m.end_col + 1) / columns) as i64;
                (wrap_line(line, history, lines), (m.end_col + 1) % columns)
            } else {
                let line: i64 = if m.start_col == 0 {
                    m.start_line as i64 - 1
                } else {
                    m.start_line as i64
                };
                (wrap_line(line, history, lines), (columns + m.start_col - 1) % columns)
            },
            None => if to_right {
                (find_line_shown(&self.term, 0, offset as i32), 0)
            } else {
                (find_line_shown(&self.term, lines as i32 - 1, offset as i32), columns - 1)
            },
        }
    }

    /// Focuses what a search came to: a match becomes the current one and is brought into
    /// view. Returns whether there is one.
    pub fn focus_match(&mut self, found: Option<CellRange>) -> (r: bool)
        requires
            old(self).wf(),
            found matches Some(m) ==> old(self)@.term.grid.has_range(m),
        ensures
            final(self).wf(),
            r == (found is Some),
            final(self)@ == frame::focused(old(self)@, found),
    {
        match found {
            Some(m) => {
                let offset: i64 = term_bridge::display_offset(&self.term) as i64;
                let lines: i64 = term_bridge::screen_lines(&self.term) as i64;
                let line: i64 = m.start_line as i64;
                if line < -offset {
                    let _ = self.move_viewport(-line - offset);
                } else if line >= lines - offset {
                    let _ = self.move_viewport(lines - 1 - line - offset);
                }
                self.current_match = Some(m);
                true
            },
            None => false,
        }
    }

    /// Searches from one cell past the current match, or from the near corner of the
    /// viewport, and focuses what is found.
    fn search_step(&mut self, to_right: bool) -> (r: bool)
        requires
            old(self).wf(),
        ensures
            final(self).wf(),
            r == (frame::next_match(old(self)@, to_right) is Some),
            final(self)@ == frame::focused(old(self)@, frame::next_match(old(self)@, to_right)),
    {
        let cell: (i32, usize) = self.search_origin(self.current_match, to_right);
        match &self.search {
            Some(re) => {
                let found: Option<CellRange> = find_match(&self.term, re, cell, to_right);
                self.focus_match(found)
            },
            None => false,
        }
    }

    /// The URI of a hyperlink id, if the id was given out.
    pub fn resolve_hyperlink(&self, id: u32) -> (r: Option<String>)
        requires
            self.wf(),
        ensures
            screen::link_of(self@.hyperlinks, id) == (match r {
                Some(uri) => Some(uri@),
                None => None,
            }),
    {
        self.hyperlinks.resolve(id)
    }

    /// Reads the given rows of the screen.
    fn read_screen(&self, rows: &Vec<usize>) -> (r: Vec<Vec<GridCell>>)
        requires
            self.wf(),
            forall|i: int| 0 <= i < rows@.len() ==> #[trigger] rows@[i] < self@.term.grid.lines,
        ensures
            screen::row_views(r@) == frame::screen_cells(
                self@.term.grid,
                rows@.map_values(|row: usize| row as int),
            ),
    {
        let ghost g = self@.term.grid;
        let n: usize = rows.len();
        let mut cells: Vec<Vec<GridCell>> = Vec::new();
        let mut i: usize = 0;
        while i < n
            invariant
                self.wf(),
                g == self@.term.grid,
                self@.term.wf(),
                i <= n == rows@.len(),
                forall|k: int| 0 <= k < rows@.len() ==> #[trigger] rows@[k] < g.lines,
                cells@.len() == i,
                forall|k: int|
                    0 <= k < i ==> term_model::cell_views((#[trigger] cells@[k])@) == g.row(
                        rows@[k] as int,
                    ),
            decreases n - i,
        {
            cells.push(read_row(&self.term, rows[i] as i32));
            i = i + 1;
        }
        assert(screen::row_views(cells@) =~= frame::screen_cells(
            g,
            rows@.map_values(|row: usize| row as int),
        ));
        cells
    }

    /// Shows the given rows of the screen, without the selection.
    fn show_screen(&mut self, rows: &Vec<usize>) -> (r: Vec<LineUpdate>)
        requires
            old(self).wf(),
            forall|i: int|
                0 <= i < rows@.len() ==> #[trigger] rows@[i] < old(self)@.term.grid.lines,
        ensures
            final(self).wf(),
            screen::lines_wf(r@),
            ({
                let listed = rows@.map_values(|row: usize| row as int);
                &&& final(self)@ == frame::with_links(
                    old(self)@,
                    frame::screen_cells(old(self)@.term.grid, listed),
                )
                &&& screen::line_views(r@) == frame::damage_update(final(self)@, listed).lines
            }),
    {
        let ghost listed = rows@.map_values(|row: usize| row as int);
        let cells: Vec<Vec<GridCell>> = self.read_screen(rows);
        proof {
            screen::law_links_only_grow(self@.hyperlinks, screen::row_views(cells@));
        }
        intern_rows(&mut self.hyperlinks, &cells);
        let ghost v = self@;
        let ghost views = screen::row_views(cells@);
        assert(views.len() == cells@.len());
        let n: usize = rows.len();
        let mut lines: Vec<LineUpdate> = Vec::new();
        let mut i: usize = 0;
        while i < n
            invariant
                self.wf(),
                v == self@,
                v.wf(),
                i <= n == rows@.len(),
                cells@.len() == n,
                views == screen::row_views(cells@),
                listed == rows@.map_values(|row: usize| row as int),
                views == frame::screen_cells(v.term.grid, listed),
                lines@.len() == i,
                screen::lines_wf(lines@),
                forall|k: int|
                    0 <= k < i ==> (#[trigger] lines@[k])@ == (LineView {
                        line: rows@[k] as u32,
                        cells: screen::painted_row(
                            v.theme(),
                            v.hyperlinks,
                            v.term.grid.row(rows@[k] as int),
                        ),
                    }),
            decreases n - i,
        {
            assert(term_model::cell_views(cells@[i as int]@) == views[i as int]);
            assert(views[i as int] == v.term.grid.row(rows@[i as int] as int));
            let data: Vec<CellData> = show_row(
                &self.term,
                &self.palette,
                &self.hyperlinks,
                &cells[i],
                rows[i] as i64,
                None,
            );
            lines.push(RawLine { line: rows[i] as u32, cells: data }.pack());
            i = i + 1;
        }
        assert(screen::line_views(lines@) =~= frame::damage_update(v, listed).lines);
        lines
    }

    /// What changed since the damage was last taken. A sub-cell offset has to ride on a
    /// full snapshot, so that the overscan row is there; so has a viewport that is
    /// scrolled back. Damage is taken, and shipped as the changed rows alone, only while
    /// the viewport is flush at the live edge.
    pub fn take_damage(&mut self) -> (r: RenderUpdate)
        requires
            old(self).wf(),
        ensures
            final(self).wf(),
            final(self)@ == frame::damage_taken(old(self)@),
            r.wf(),
            r@ == frame::damage_shipped(old(self)@),
    {
        let ghost v = self@;
        let zero: bool = self.scroll_fraction == 0 || self.scroll_fraction == 0x8000_0000_0000_0000;
        if term_bridge::display_offset(&self.term) > 0 || !zero {
            return self.full_snapshot();
        }
        let damaged: Option<Vec<usize>> = term_bridge::read_damage(&mut self.term);
        term_bridge::reset_damage(&mut self.term);
        match damaged {
            None => self.full_snapshot(),
            Some(rows) => {
                let lines: usize = term_bridge::screen_lines(&self.term);
                let rows: Vec<usize> = ordered_rows(&rows, lines);
                proof {
                    assert(rows@.map_values(|row: usize| row as int) == frame::shipped_rows(
                        v.term,
                    )) by {
                        same_rows(
                            Set::new(
                                |row: int|
                                    exists|i: int|
                                        0 <= i < damaged->0@.len() && #[trigger] damaged->0@[i]
                                            == row,
                            ),
                            term_model::damaged_rows(v.term),
                            v.term.grid.lines,
                        );
                    }
                }
                let shown: Vec<LineUpdate> = self.show_screen(&rows);
                let mut update: RenderUpdate = self.update_with(shown, false, 0);
                update.scroll_fraction = 0;
                update
            },
        }
    }
}

/// The rows of a list in ascending order, each of them once.
fn ordered_rows(rows: &Vec<usize>, lines: usize) -> (r: Vec<usize>)
    requires
        forall|i: int| 0 <= i < rows@.len() ==> #[trigger] rows@[i] < lines,
    ensures
        r@.map_values(|row: usize| row as int) == frame::rows_in(
            Set::new(
                |row: int| exists|i: int| 0 <= i < rows@.len() && #[trigger] rows@[i] == row,
            ),
            lines as int,
        ),
        forall|i: int| 0 <= i < r@.len() ==> #[trigger] r@[i] < lines,
{
    let ghost set = Set::new(
        |row: int| exists|i: int| 0 <= i < rows@.len() && #[trigger] rows@[i] == row,
    );
    let mut listed: Vec<bool> = Vec::with_capacity(lines);
    let mut k: usize = 0;
    while k < lines
        invariant
            k <= lines,
            listed@.len() == k,
            forall|j: int| 0 <= j < k ==> !(#[trigger] listed@[j]),
        decreases lines - k,
    {
        listed.push(false);
        k = k + 1;
    }
    let n: usize = rows.len();
    let mut i: usize = 0;
    while i < n
        invariant
            i <= n == rows@.len(),
            forall|j: int| 0 <= j < rows@.len() ==> #[trigger] rows@[j] < lines,
            listed@.len() == lines,
            forall|row: int|
                0 <= row < lines ==> (#[trigger] listed@[row] <==> exists|j: int|
                    0 <= j < i && #[trigger] rows@[j] == row),
        decreases n - i,
    {
        let ghost before = listed@;
        listed.set(rows[i], true);
        proof {
            assert forall|row: int| 0 <= row < lines implies (#[trigger] listed@[row]
                <==> exists|j: int| 0 <= j < i + 1 && #[trigger] rows@[j] == row) by {
                if row == rows@[i as int] {
                    assert(rows@[i as int] == row);
                } else {
                    assert(listed@[row] == before[row]);
                }
            }
        }
        i = i + 1;
    }
    let mut r: Vec<usize> = Vec::new();
    let mut row: usize = 0;
    assert(r@.map_values(|row: usize| row as int) =~= Seq::<int>::empty());
    while row < lines
        invariant
            row <= lines,
            listed@.len() == lines,
            set == Set::new(
                |row: int| exists|i: int| 0 <= i < rows@.len() && #[trigger] rows@[i] == row,
            ),
            forall|k: int| 0 <= k < lines ==> (#[trigger] listed@[k] <==> set.contains(k)),
            r@.map_values(|row: usize| row as int) == frame::rows_in(set, row as int),
            forall|i: int| 0 <= i < r@.len() ==> #[trigger] r@[i] < lines,
        decreases lines - row,
    {
        if listed[row] {
            let ghost before = r@;
            r.push(row);
            assert(r@.map_values(|row: usize| row as int) =~= before.map_values(
                |row: usize| row as int,
            ).push(row as int));
        }
        row = row + 1;
    }
    r
}

/// What the terminal tells when its options are replaced.
proof fn title_is_told(s: TermState, told: Seq<Event>)
    requires
        told.len() == 1,
        event_proxy::event_content(told[0]) == (match s.title {
            Some(title) => IncomingView::Title(title),
            None => IncomingView::ResetTitle,
        }),
    ensures
        event_proxy::told_events(told) == seq![frame::title_event(s)],
        event_proxy::told_clipboard(told).len() == 0,
{
    let events = told.map_values(
        |e: Event| event_proxy::reported(event_proxy::event_content(e)),
    );
    let asked = told.map_values(|e: Event| event_proxy::clipboard_asked(e));
    reveal_with_fuel(event_proxy::somes, 2);
    assert(events.drop_last().len() == 0);
    assert(asked.drop_last().len() == 0);
    assert(event_proxy::told_events(told) =~= seq![frame::title_event(s)]);
}

/// The most lines that scroll by while a parser that holds `pending` bytes reads `n` more,
/// where no more do than there are line numbers.
fn lines_scroll_by(pending: usize, n: usize, lines: u64, columns: u64) -> (r: Option<i64>)
    requires
        1 <= lines <= 65535,
        2 <= columns <= 65535,
    ensures
        ({
            let bound = (pending + n + 8) * (lines as int / 4 + 8192int / (columns as int / 2) + 3);
            match r {
                Some(b) => b == bound && 0 < bound <= 0xFFFF_FFFF,
                None => bound > 0xFFFF_FFFF,
            }
        }),
{
    let rate: u64 = lines / 4 + 8192 / (columns / 2) + 3;
    assert(3 <= rate <= 32768);
    if pending > 0xFFFF_FFFF || n > 0xFFFF_FFFF {
        proof {
            assert((pending + n + 8) * rate > 0xFFFF_FFFF) by (nonlinear_arith)
                requires
                    pending + n + 8 > 0xFFFF_FFFF,
                    rate >= 3,
            ;
        }
        return None;
    }
    proof {
        assert(0 < (pending + n + 8) * rate <= 0x2_0000_0008 * 32768) by (nonlinear_arith)
            requires
                0 < pending + n + 8 <= 0x2_0000_0008,
                0 < rate <= 32768,
        ;
    }
    let bound: u64 = (pending as u64 + n as u64 + 8) * rate;
    if bound <= 0xFFFF_FFFF {
        Some(bound as i64)
    } else {
        None
    }
}

proof fn same_rows(a: Set<int>, b: Set<int>, n: int)
    requires
        forall|row: int| 0 <= row < n ==> (a.contains(row) <==> #[trigger] b.contains(row)),
    ensures
        frame::rows_in(a, n) == frame::rows_in(b, n),
    decreases n,
{
    if n > 0 {
        assert(a.contains(n - 1) <==> b.contains(n - 1));
        same_rows(a, b, n - 1);
    }
}

/// Wraps a line number around the ends of the grid.
fn wrap_line(line: i64, history: i64, lines: i64) -> (r: i32)
    requires
        0 <= history <= term_model::MAX_HISTORY,
        1 <= lines <= 65535,
        -0x1_0000_0000 <= line <= 0x1_0000_0000,
    ensures
        r == (line + history) % (history + lines) - history,
        -history <= r < lines,
{
    let total: u64 = (history + lines) as u64;
    let x: i64 = line + history;
    if x >= 0 {
        ((x as u64 % total) as i64 - history) as i32
    } else {
        let k: u64 = (0 - x) as u64 % total;
        let ghost q = (0 - x) / (total as int);
        proof {
            vstd::arithmetic::div_mod::lemma_fundamental_div_mod(0 - x, total as int);
        }
        if k == 0 {
            proof {
                assert(x == (-q) * (total as int) + 0) by (nonlinear_arith)
                    requires
                        0 - x == (total as int) * q + 0,
                ;
                vstd::arithmetic::div_mod::lemma_fundamental_div_mod_converse(
                    x as int,
                    total as int,
                    -q,
                    0,
                );
            }
            (0 - history) as i32
        } else {
            proof {
                assert(x == (-q - 1) * (total as int) + (total - k)) by (nonlinear_arith)
                    requires
                        0 - x == (total as int) * q + k,
                ;
                vstd::arithmetic::div_mod::lemma_fundamental_div_mod_converse(
                    x as int,
                    total as int,
                    -q - 1,
                    total - k,
                );
            }
            ((total - k) as i64 - history) as i32
        }
    }
}

} // verus!
