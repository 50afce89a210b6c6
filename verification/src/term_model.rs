//! The terminal as plain values: what the engine reads of a cell, of the grid
//! and of the terminal's state, and how each operation changes that state.

use crate::event_proxy::EventRecord;
use vstd::prelude::*;
use vstd::string::*;

verus! {

/// Longest scrollback. A grid line is a 32-bit number, negative in the history,
/// and the viewport is at most 65535 lines high.
pub const MAX_HISTORY: usize = 0x7FFE_FFFF;

/// Number of slots in the terminal's color table.
pub const COLOR_COUNT: usize = 269;

/// Slot of the default foreground in the terminal's color table.
pub const COLOR_FOREGROUND: u16 = 256;

/// Slot of the default background in the terminal's color table.
pub const COLOR_BACKGROUND: u16 = 257;

/// Slot of the cursor color in the terminal's color table.
pub const COLOR_CURSOR: u16 = 258;

/// Cell attribute bits, as the terminal stores them.
pub const CELL_INVERSE: u16 = 0x0001;

pub const CELL_BOLD: u16 = 0x0002;

pub const CELL_ITALIC: u16 = 0x0004;

pub const CELL_WRAPLINE: u16 = 0x0010;

pub const CELL_WIDE_CHAR: u16 = 0x0020;

pub const CELL_WIDE_CHAR_SPACER: u16 = 0x0040;

pub const CELL_DIM: u16 = 0x0080;

pub const CELL_STRIKEOUT: u16 = 0x0200;

pub const CELL_LEADING_WIDE_CHAR_SPACER: u16 = 0x0400;

/// Underline, double underline, undercurl, dotted and dashed underline.
pub const CELL_ALL_UNDERLINES: u16 = 0x7808;

/// Terminal mode bits that the engine reads.
pub const MODE_SHOW_CURSOR: u32 = 0x0000_0001;

pub const MODE_INSERT: u32 = 0x0000_0400;

pub const MODE_ALT_SCREEN: u32 = 0x0000_1000;

pub const MODE_VI: u32 = 0x0001_0000;

/// The modes of a new terminal: visible cursor, line wrap, alternate scroll,
/// urgency hints.
pub const MODE_DEFAULT: u32 = 0x0002_8081;

/// A cell's color, as the terminal stores it. A named color is its slot in the
/// terminal's color table.
#[derive(Clone, Copy, Debug, PartialEq, Eq, Structural)]
pub enum CellColor {
    Named(u16),
    Spec(u8, u8, u8),
    Indexed(u8),
}

/// What the engine reads of a cell.
pub struct GridCell {
    pub c: char,
    pub fg: CellColor,
    pub bg: CellColor,
    pub flags: u16,
    pub link: Option<String>,
}

/// The contents of a [`GridCell`].
pub struct CellView {
    pub c: char,
    pub fg: CellColor,
    pub bg: CellColor,
    pub flags: u16,
    pub link: Option<Seq<char>>,
}

impl View for GridCell {
    type V = CellView;

    open spec fn view(&self) -> CellView {
        CellView {
            c: self.c,
            fg: self.fg,
            bg: self.bg,
            flags: self.flags,
            link: match self.link {
                Some(uri) => Some(uri@),
                None => None,
            },
        }
    }
}

/// The contents of a row of cells.
pub open spec fn cell_views(cells: Seq<GridCell>) -> Seq<CellView> {
    cells.map_values(|c: GridCell| c@)
}

/// A cell that nothing was written to.
pub open spec fn blank_cell() -> CellView {
    CellView {
        c: ' ',
        fg: CellColor::Named(COLOR_FOREGROUND),
        bg: CellColor::Named(COLOR_BACKGROUND),
        flags: 0,
        link: None,
    }
}

/// Shape of the cursor.
#[derive(Clone, Copy, Debug, PartialEq, Eq, Structural)]
pub enum CursorKind {
    Block,
    Underline,
    Beam,
    HollowBlock,
    Hidden,
}

/// Which way OSC 52 may move the clipboard.
#[derive(Clone, Copy, Debug, PartialEq, Eq, Structural)]
pub enum ClipboardPolicy {
    Disabled,
    OnlyCopy,
    OnlyPaste,
    CopyPaste,
}

/// The terminal's options.
pub struct TermOptions {
    pub history: usize,
    pub escape_chars: String,
    pub shape: CursorKind,
    pub blinking: bool,
    pub osc52: ClipboardPolicy,
}

/// The contents of [`TermOptions`].
pub struct OptionsView {
    pub history: usize,
    pub escape_chars: Seq<char>,
    pub shape: CursorKind,
    pub blinking: bool,
    pub osc52: ClipboardPolicy,
    /// Programs may ask for the kitty keyboard protocol.
    pub kitty: bool,
}

impl View for TermOptions {
    type V = OptionsView;

    open spec fn view(&self) -> OptionsView {
        OptionsView {
            history: self.history,
            escape_chars: self.escape_chars@,
            shape: self.shape,
            blinking: self.blinking,
            osc52: self.osc52,
            kitty: false,
        }
    }
}

/// What a selection grows by.
#[derive(Clone, Copy, Debug, PartialEq, Eq, Structural)]
pub enum SelectionKind {
    Simple,
    Semantic,
    Lines,
}

/// One end of a selection: a cell, and which half of it.
pub struct Anchor {
    pub line: i32,
    pub col: usize,
    pub right: bool,
}

/// A selection, from where it was started to where it was drawn.
pub struct SelectionView {
    pub kind: SelectionKind,
    pub start: Anchor,
    pub end: Anchor,
}

/// A run of cells in reading order, both ends included.
#[derive(Clone, Copy, Debug, PartialEq, Eq, Structural)]
pub struct CellRange {
    pub start_line: i32,
    pub start_col: usize,
    pub end_line: i32,
    pub end_col: usize,
}

/// The active screen. Line 0 is the top line of the screen at its live edge;
/// the lines of the history count down from -1.
pub struct GridState {
    pub columns: int,
    pub lines: int,
    pub history: int,
    /// Cell by line and column.
    pub cells: Map<(int, int), CellView>,
    /// Zero-width characters by line and column.
    pub marks: Map<(int, int), Seq<char>>,
}

impl GridState {
    /// The line is part of the history or of the screen.
    pub open spec fn has_line(self, line: int) -> bool {
        -self.history <= line < self.lines
    }

    /// The cell exists.
    pub open spec fn has(self, line: int, col: int) -> bool {
        self.has_line(line) && 0 <= col < self.columns
    }

    /// Both ends of the range exist.
    pub open spec fn has_range(self, r: CellRange) -> bool {
        self.has(r.start_line as int, r.start_col as int) && self.has(
            r.end_line as int,
            r.end_col as int,
        )
    }

    /// No cell is both halves of a wide character at once.
    pub open spec fn halves_apart(self) -> bool {
        forall|line: int, col: int|
            #![trigger self.cells[(line, col)]]
            self.has(line, col) ==> self.cells[(line, col)].flags & CELL_WIDE_CHAR == 0
                || self.cells[(line, col)].flags & CELL_WIDE_CHAR_SPACER == 0
    }

    /// The cells of a line. Blanks stand where there is no line.
    pub open spec fn row(self, line: int) -> Seq<CellView> {
        Seq::new(
            self.columns as nat,
            |col: int|
                if self.has_line(line) {
                    self.cells[(line, col)]
                } else {
                    blank_cell()
                },
        )
    }
}

/// What changed since the damage was last read.
pub struct DamageState {
    /// Everything.
    pub full: bool,
    /// These rows of the screen.
    pub rows: Set<int>,
    /// Where the cursor stood when the damage was last read.
    pub last_line: i32,
    pub last_col: usize,
}

/// The terminal's state, as far as it is read.
pub struct TermState {
    pub grid: GridState,
    /// How many lines the viewport is scrolled up into the history.
    pub offset: int,
    pub cursor_line: i32,
    pub cursor_col: usize,
    /// Shape and blinking of the cursor, where a program set them.
    pub style: Option<(CursorKind, bool)>,
    pub mode: u32,
    /// The colors that a program set, by slot.
    pub colors: Map<int, (u8, u8, u8)>,
    pub selection: Option<SelectionView>,
    pub tabs: Seq<bool>,
    pub damage: DamageState,
    pub options: OptionsView,
    /// The window's title, where a program set one.
    pub title: Option<Seq<char>>,
    /// Where the terminal reports its events.
    pub listener: EventRecord,
}

/// The mode bits of `bit` are all off.
pub open spec fn mode_off(mode: u32, bit: u32) -> bool {
    mode & bit == 0
}

impl TermState {
    /// Dimensions, history and the columns of the selection are within their bounds, vi
    /// mode and the kitty protocol are off, the alternate screen has no history to scroll
    /// back into, and no cell is both halves of a wide character. The viewport may be
    /// scrolled back further than the history goes: a program that scrolls a region of the
    /// screen takes a viewport that is scrolled back along.
    pub open spec fn wf(self) -> bool {
        &&& 2 <= self.grid.columns <= 65535
        &&& 1 <= self.grid.lines <= 65535
        &&& 0 <= self.grid.history <= self.options.history <= MAX_HISTORY
        &&& 0 <= self.offset <= self.options.history
        &&& mode_off(self.mode, MODE_VI)
        &&& !mode_off(self.mode, MODE_ALT_SCREEN) ==> self.grid.history == 0 && self.offset == 0
        &&& !self.options.kitty
        &&& self.selection matches Some(s) ==> s.start.col <= 65535 && s.end.col <= 65535
        &&& self.grid.halves_apart()
    }

    /// The cursor's shape and whether it blinks.
    pub open spec fn cursor_style(self) -> (CursorKind, bool) {
        match self.style {
            Some(style) => style,
            None => (self.options.shape, self.options.blinking),
        }
    }
}

/// `x`, moved to the nearest number from `lo` to `hi`.
pub open spec fn clamp(x: int, lo: int, hi: int) -> int {
    if x < lo {
        lo
    } else if x > hi {
        hi
    } else {
        x
    }
}

/// The state of a new terminal.
pub open spec fn fresh(
    options: OptionsView,
    columns: int,
    lines: int,
    listener: EventRecord,
) -> TermState {
    TermState {
        grid: GridState {
            columns,
            lines,
            history: 0,
            cells: Map::new(
                |p: (int, int)| 0 <= p.0 < lines && 0 <= p.1 < columns,
                |p: (int, int)| blank_cell(),
            ),
            marks: Map::new(
                |p: (int, int)| 0 <= p.0 < lines && 0 <= p.1 < columns,
                |p: (int, int)| Seq::empty(),
            ),
        },
        offset: 0,
        cursor_line: 0,
        cursor_col: 0,
        style: None,
        mode: MODE_DEFAULT,
        colors: Map::empty(),
        selection: None,
        tabs: Seq::new(columns as nat, |i: int| i % 8 == 0),
        damage: DamageState { full: true, rows: Set::empty(), last_line: 0, last_col: 0 },
        options,
        title: None,
        listener,
    }
}

/// The state with the viewport scrolled by `delta` lines, up into the history
/// where `delta` is positive. Moving the viewport damages everything.
pub open spec fn scrolled(s: TermState, delta: int) -> TermState {
    let offset = clamp(s.offset + delta, 0, s.grid.history);
    TermState {
        offset,
        damage: DamageState { full: s.damage.full || offset != s.offset, ..s.damage },
        ..s
    }
}

/// `b` is `a` with its history cut down to `history` lines.
pub open spec fn is_trimmed(a: GridState, b: GridState, history: int) -> bool {
    if history >= a.history {
        b == a
    } else {
        &&& b.columns == a.columns
        &&& b.lines == a.lines
        &&& b.history == history
        &&& forall|line: int, col: int|
            #![trigger b.cells[(line, col)]]
            b.has(line, col) ==> b.cells[(line, col)] == a.cells[(line, col)]
        &&& forall|line: int, col: int|
            #![trigger b.marks[(line, col)]]
            b.has(line, col) ==> b.marks[(line, col)] == a.marks[(line, col)]
    }
}

/// `b` is `a` with new options: a shorter limit drops the oldest lines of the
/// main screen, and everything is damaged.
pub open spec fn is_reconfigured(a: TermState, options: OptionsView, b: TermState) -> bool {
    let alt = !mode_off(a.mode, MODE_ALT_SCREEN);
    &&& if alt {
        b.grid == a.grid && b.offset == a.offset
    } else {
        is_trimmed(a.grid, b.grid, options.history as int) && b.offset == clamp(
            a.offset,
            0,
            options.history as int,
        )
    }
    &&& b == TermState {
        grid: b.grid,
        offset: b.offset,
        damage: DamageState { full: true, ..a.damage },
        options,
        ..a
    }
}

/// An end of the selection stands above the line.
pub open spec fn selection_above(s: TermState, line: int) -> bool {
    match s.selection {
        Some(selection) => selection.start.line < line || selection.end.line < line,
        None => false,
    }
}

/// No more lines than these scroll by while a parser reads `n` bytes. A byte of text and
/// a sequence without a number scroll by one line. A sequence with a number has four
/// bytes or more and scrolls by the height of the screen at most, or it repeats a
/// character: 65535 times with eight bytes, and a line takes half as many characters as
/// it has columns, or more. Eight bytes are added for a sequence that was begun before.
pub open spec fn scroll_bound(g: GridState, n: int) -> int {
    (n + 8) * (g.lines / 4 + 8192int / (g.columns / 2) + 3)
}

/// The selection's line numbers stay within 32 bits while a parser reads `n` bytes.
pub open spec fn is_moored(s: TermState, n: int) -> bool {
    !selection_above(s, i32::MIN + scroll_bound(s.grid, n))
}

/// The state without a selection.
pub open spec fn unselected(s: TermState) -> TermState {
    TermState { selection: None, ..s }
}

/// The state without a selection whose line numbers could leave their 32 bits while a
/// parser reads `n` bytes.
pub open spec fn moored(s: TermState, n: int) -> TermState {
    if is_moored(s, n) {
        s
    } else {
        unselected(s)
    }
}

/// More lines than a resize moves the selection by.
pub const RESIZE_ROOM: i32 = 65536;

/// The state without a selection whose line numbers could leave their 32 bits in a
/// resize.
pub open spec fn resizable(s: TermState, columns: int, lines: int) -> TermState {
    if (s.grid.columns != columns || s.grid.lines != lines) && selection_above(
        s,
        i32::MIN + RESIZE_ROOM,
    ) {
        unselected(s)
    } else {
        s
    }
}

/// An end of the selection lies in the history.
pub open spec fn selection_in_history(selection: SelectionView) -> bool {
    selection.start.line < 0 || selection.end.line < 0
}

/// `b` is `a` without its history. A selection that reaches into the history
/// goes with it, and everything is damaged.
pub open spec fn is_history_cleared(a: TermState, b: TermState) -> bool {
    &&& is_trimmed(a.grid, b.grid, 0)
    &&& b == TermState {
        grid: b.grid,
        offset: if a.grid.history > 0 {
            0
        } else {
            a.offset
        },
        selection: if a.grid.history > 0 && a.selection is Some && selection_in_history(
            a.selection->0,
        ) {
            None
        } else {
            a.selection
        },
        damage: DamageState { full: true, ..a.damage },
        ..a
    }
}

/// What a resize settles of the state, whatever becomes of the lines: the same
/// dimensions change nothing; others reset the damage, and other columns drop
/// the selection.
pub open spec fn is_resized(a: TermState, columns: int, lines: int, b: TermState) -> bool {
    if a.grid.columns == columns && a.grid.lines == lines {
        b == a
    } else {
        &&& b.wf()
        &&& b.grid.columns == columns
        &&& b.grid.lines == lines
        &&& a.grid.columns != columns ==> b.selection is None
        &&& a.selection is None ==> b.selection is None
        &&& a.grid.columns == columns ==> b.tabs == a.tabs
        &&& b == TermState {
            grid: b.grid,
            offset: b.offset,
            cursor_line: b.cursor_line,
            cursor_col: b.cursor_col,
            selection: b.selection,
            tabs: b.tabs,
            damage: DamageState { full: true, rows: Set::empty(), last_line: 0, last_col: 0 },
            ..a
        }
    }
}

/// The rows that are damaged when the damage is read: those that changed, the
/// cursor's row, and the row it left.
pub open spec fn damaged_rows(s: TermState) -> Set<int> {
    let moved = s.damage.last_line != s.cursor_line || s.damage.last_col != s.cursor_col;
    if moved {
        s.damage.rows.insert(s.damage.last_line as int).insert(s.cursor_line as int)
    } else {
        s.damage.rows.insert(s.cursor_line as int)
    }
}

/// Everything counts as damaged.
pub open spec fn fully_damaged(s: TermState) -> bool {
    s.damage.full || !mode_off(s.mode, MODE_INSERT)
}

/// The state once the damage was read.
pub open spec fn damage_read(s: TermState) -> TermState {
    TermState {
        damage: DamageState {
            full: fully_damaged(s),
            rows: if fully_damaged(s) {
                s.damage.rows
            } else {
                damaged_rows(s)
            },
            last_line: s.cursor_line,
            last_col: s.cursor_col,
        },
        ..s
    }
}

/// The state once the damage was reset.
pub open spec fn damage_reset(s: TermState) -> TermState {
    TermState { damage: DamageState { full: false, rows: Set::empty(), ..s.damage }, ..s }
}

} // verus!
