//! The calls into `alacritty_terminal`: each wrapper makes one, and states what
//! it does to the terminal's state as [`term_model`](crate::term_model) has it.

use crate::event_proxy;
use crate::event_proxy::{EventRecord, IncomingView, Queue};
use crate::seek;
use crate::term_model;
use crate::term_model::{
    Anchor, CellColor, CellRange, ClipboardPolicy, CursorKind, GridCell, GridState, SelectionKind,
    SelectionView, TermOptions, TermState, COLOR_COUNT,
};
use alacritty_terminal::event::Event;
use alacritty_terminal::grid::{Dimensions, Scroll};
use alacritty_terminal::index::{Column, Line, Point, Side};
use alacritty_terminal::selection::{Selection, SelectionType};
use alacritty_terminal::term::search::RegexSearch;
use alacritty_terminal::term::test::TermSize;
use alacritty_terminal::term::{Config, Osc52, Term, TermDamage};
use alacritty_terminal::vte::ansi::{
    ClearMode, Color, CursorShape, CursorStyle, Handler, Processor,
};
use vstd::prelude::*;
use vstd::string::*;

verus! {

/// `alacritty_terminal`'s terminal.
#[verifier::external_type_specification]
#[verifier::external_body]
#[verifier::reject_recursive_types(T)]
pub struct ExTerm<T>(alacritty_terminal::term::Term<T>);

/// `alacritty_terminal`'s configuration.
#[verifier::external_type_specification]
#[verifier::external_body]
pub struct ExConfig(alacritty_terminal::term::Config);

/// `alacritty_terminal`'s compiled search pattern.
#[verifier::external_type_specification]
#[verifier::external_body]
pub struct ExRegexSearch(alacritty_terminal::term::search::RegexSearch);

/// `alacritty_terminal`'s error for a pattern that does not compile.
#[verifier::external_type_specification]
#[verifier::external_body]
pub struct ExBuildError(alacritty_terminal::term::search::BuildError);

/// The terminal that reports to the engine's record.
pub type Terminal = Term<EventRecord>;

/// `vte`'s escape sequence parser, with what it holds of a sequence that has
/// not ended yet.
#[verifier::external_body]
pub struct AnsiParser {
    inner: Processor,
}

/// The state of a terminal, as far as the engine reads it.
pub uninterp spec fn term_state(term: Terminal) -> TermState;

/// The options that a configuration stands for.
pub uninterp spec fn config_options(config: Config) -> term_model::OptionsView;

/// Builds a [`Config`] that holds the given options; its other fields have
/// their defaults, so the kitty keyboard protocol is off.
#[verifier::external_body]
pub(crate) fn to_config(options: TermOptions) -> (r: Config)
    ensures
        config_options(r) == options@,
{
    let shape = match options.shape {
        CursorKind::Block => CursorShape::Block,
        CursorKind::Underline => CursorShape::Underline,
        CursorKind::Beam => CursorShape::Beam,
        CursorKind::HollowBlock => CursorShape::HollowBlock,
        CursorKind::Hidden => CursorShape::Hidden,
    };
    let osc52 = match options.osc52 {
        ClipboardPolicy::Disabled => Osc52::Disabled,
        ClipboardPolicy::OnlyCopy => Osc52::OnlyCopy,
        ClipboardPolicy::OnlyPaste => Osc52::OnlyPaste,
        ClipboardPolicy::CopyPaste => Osc52::CopyPaste,
    };
    let default_cursor_style = CursorStyle { shape, blinking: options.blinking };
    Config { scrolling_history: options.history, semantic_escape_chars: options.escape_chars, default_cursor_style, osc52, ..Default::default() }
}

/// Makes a terminal with [`Term::new`]: the screen is blank, nothing is in the
/// history, no color is set, everything counts as damaged, and events go to the
/// listener.
#[verifier::external_body]
pub(crate) fn new_term(
    config: Config,
    columns: usize,
    lines: usize,
    listener: EventRecord,
) -> (r: Terminal)
    requires
        1 <= columns,
        1 <= lines,
    ensures
        term_state(r) == term_model::fresh(
            config_options(config),
            columns as int,
            lines as int,
            listener,
        ),
{
    Term::new(config, &TermSize::new(columns, lines), listener)
}

impl AnsiParser {
    /// Makes a parser with [`Processor::new`]. Nothing is stated of it.
    #[verifier::external_body]
    pub(crate) fn new() -> AnsiParser {
        AnsiParser { inner: Processor::new() }
    }
}

/// How many bytes of a synchronized update the parser holds back.
pub uninterp spec fn sync_pending(parser: AnsiParser) -> int;

/// Reads how many bytes of a synchronized update the parser holds back, with
/// [`Processor::sync_bytes_count`].
#[verifier::external_body]
pub(crate) fn pending_bytes(parser: &AnsiParser) -> (r: usize)
    ensures
        r == sync_pending(*parser),
{
    parser.inner.sync_bytes_count()
}

/// Whether feeding the bytes to the parser can lead from the one state of parser
/// and terminal to the other, and have the terminal tell these events meanwhile. A
/// terminal holds more than its state as it is read here, so one state can lead to
/// several.
pub uninterp spec fn parse_outcome(
    parser: AnsiParser,
    term: TermState,
    bytes: Seq<u8>,
    parser_after: AnsiParser,
    term_after: TermState,
    told: Seq<Event>,
) -> bool;

/// Feeds bytes to the terminal with [`Processor::advance`], and returns what the
/// terminal told its listener meanwhile, in order, as the listener's list has it.
/// The dimensions, the options and the listener stay, the history stays within its
/// limit, vi mode is not entered, no cell becomes both halves of a wide character, the
/// selection stays within the columns that it had or the grid has, and no bytes change
/// nothing. What the escape sequences do to the terminal, and what it tells of them, is
/// not spelled out here. Scrolling moves the line numbers of the selection in 32 bits,
/// so they have to have room.
#[verifier::external_body]
pub(crate) fn parse(
    parser: &mut AnsiParser,
    term: &mut Terminal,
    bytes: &[u8],
    record: &Queue<Event>,
) -> (told: Vec<Event>)
    requires
        term_state(*old(term)).wf(),
        term_state(*old(term)).listener.list() == *record,
        term_model::is_moored(
            term_state(*old(term)),
            sync_pending(*old(parser)) + bytes@.len(),
        ),
    ensures
        parse_outcome(
            *old(parser),
            term_state(*old(term)),
            bytes@,
            *final(parser),
            term_state(*final(term)),
            told@,
        ),
        term_state(*final(term)).wf(),
        term_state(*final(term)).grid.columns == term_state(*old(term)).grid.columns,
        term_state(*final(term)).grid.lines == term_state(*old(term)).grid.lines,
        term_state(*final(term)).options == term_state(*old(term)).options,
        term_state(*final(term)).listener == term_state(*old(term)).listener,
        bytes@.len() == 0 ==> term_state(*final(term)) == term_state(*old(term)),
        bytes@.len() == 0 ==> *final(parser) == *old(parser),
        bytes@.len() == 0 ==> told@.len() == 0,
{
    record.take();
    parser.inner.advance(term, bytes);
    record.take()
}

/// Whether a resize can lead from the one state to the other. How lines reflow
/// also rests on the screen that is not shown.
pub uninterp spec fn resize_outcome(
    term: TermState,
    columns: int,
    lines: int,
    term_after: TermState,
) -> bool;

/// Resizes the terminal with [`Term::resize`]. How the lines reflow is not
/// spelled out here. A resize moves the line numbers of the selection in 32 bits, so
/// they have to have room.
#[verifier::external_body]
pub(crate) fn resize_term(term: &mut Terminal, columns: usize, lines: usize)
    requires
        term_state(*old(term)).wf(),
        2 <= columns <= 65535,
        1 <= lines <= 65535,
        term_model::resizable(term_state(*old(term)), columns as int, lines as int)
            == term_state(*old(term)),
    ensures
        resize_outcome(
            term_state(*old(term)),
            columns as int,
            lines as int,
            term_state(*final(term)),
        ),
        term_model::is_resized(
            term_state(*old(term)),
            columns as int,
            lines as int,
            term_state(*final(term)),
        ),
{
    term.resize(TermSize::new(columns, lines));
}

/// Replaces the options with [`Term::set_options`], and returns what the terminal told
/// its listener meanwhile, as the listener's list has it: the window's title. As
/// long as the kitty keyboard protocol stays off, the modes stay.
#[verifier::external_body]
pub(crate) fn set_options(term: &mut Terminal, config: Config, record: &Queue<Event>) -> (told: Vec<
    Event,
>)
    requires
        term_state(*old(term)).wf(),
        term_state(*old(term)).listener.list() == *record,
        config_options(config).kitty == term_state(*old(term)).options.kitty,
    ensures
        term_model::is_reconfigured(
            term_state(*old(term)),
            config_options(config),
            term_state(*final(term)),
        ),
        told@.len() == 1,
        event_proxy::event_content(told@[0]) == (match term_state(*old(term)).title {
            Some(title) => IncomingView::Title(title),
            None => IncomingView::ResetTitle,
        }),
{
    record.take();
    term.set_options(config);
    record.take()
}

/// Scrolls the viewport with [`Term::scroll_display`], by `delta` lines. The
/// offset is added up in 32 bits.
#[verifier::external_body]
pub(crate) fn scroll_display(term: &mut Terminal, delta: i32)
    requires
        term_state(*old(term)).wf(),
        i32::MIN <= term_state(*old(term)).offset + delta <= i32::MAX,
    ensures
        term_state(*final(term)) == term_model::scrolled(term_state(*old(term)), delta as int),
{
    term.scroll_display(Scroll::Delta(delta));
}

/// Drops the history with `Term::clear_screen`.
#[verifier::external_body]
pub(crate) fn clear_saved(term: &mut Terminal)
    requires
        term_state(*old(term)).wf(),
    ensures
        term_model::is_history_cleared(term_state(*old(term)), term_state(*final(term))),
{
    term.clear_screen(ClearMode::Saved);
}

/// Reads the damage with [`Term::damage`]: nothing where everything is damaged,
/// else the damaged rows, each of them once.
#[verifier::external_body]
pub(crate) fn read_damage(term: &mut Terminal) -> (r: Option<Vec<usize>>)
    requires
        term_state(*old(term)).wf(),
        term_state(*old(term)).offset == 0,
    ensures
        term_state(*final(term)) == term_model::damage_read(term_state(*old(term))),
        r is None <==> term_model::fully_damaged(term_state(*old(term))),
        r matches Some(rows) ==> {
            &&& rows@.no_duplicates()
            &&& forall|i: int|
                0 <= i < rows@.len() ==> #[trigger] rows@[i] < term_state(*old(term)).grid.lines
            &&& forall|row: int|
                #![trigger term_model::damaged_rows(term_state(*old(term))).contains(row)]
                term_model::damaged_rows(term_state(*old(term))).contains(row) <==> exists|i: int|
                    0 <= i < rows@.len() && #[trigger] rows@[i] == row
        },
{
    match term.damage() {
        TermDamage::Full => None,
        TermDamage::Partial(rows) => Some(rows.map(|row| row.line).collect()),
    }
}

/// Forgets the damage with [`Term::reset_damage`].
#[verifier::external_body]
pub(crate) fn reset_damage(term: &mut Terminal)
    ensures
        term_state(*final(term)) == term_model::damage_reset(term_state(*old(term))),
{
    term.reset_damage();
}

/// Reads the number of columns with [`Dimensions::columns`].
#[verifier::external_body]
pub(crate) fn columns(term: &Terminal) -> (r: usize)
    ensures
        r == term_state(*term).grid.columns,
{
    term.columns()
}

/// Reads the height of the viewport with [`Dimensions::screen_lines`].
#[verifier::external_body]
pub(crate) fn screen_lines(term: &Terminal) -> (r: usize)
    ensures
        r == term_state(*term).grid.lines,
{
    term.screen_lines()
}

/// Reads the length of the history with [`Dimensions::history_size`].
#[verifier::external_body]
pub(crate) fn history_size(term: &Terminal) -> (r: usize)
    ensures
        r == term_state(*term).grid.history,
{
    term.history_size()
}

/// Reads the viewport's offset with `Grid::display_offset`.
#[verifier::external_body]
pub(crate) fn display_offset(term: &Terminal) -> (r: usize)
    ensures
        r == term_state(*term).offset,
{
    term.grid().display_offset()
}

/// Reads a cell of the grid by indexing it with a [`Point`].
#[verifier::external_body]
pub(crate) fn cell_at(term: &Terminal, line: i32, col: usize) -> (r: GridCell)
    requires
        term_state(*term).grid.has(line as int, col as int),
    ensures
        r@ == term_state(*term).grid.cells[(line as int, col as int)],
{
    let cell = &term.grid()[Point::new(Line(line), Column(col))];
    let color = |c: Color| match c {
        Color::Named(n) => CellColor::Named(n as u16),
        Color::Spec(rgb) => CellColor::Spec(rgb.r, rgb.g, rgb.b),
        Color::Indexed(i) => CellColor::Indexed(i),
    };
    let link = cell.hyperlink().map(|h| h.uri().to_owned());
    let (fg, bg) = (color(cell.fg), color(cell.bg));
    GridCell { c: cell.c, fg, bg, flags: cell.flags.bits(), link }
}

/// Reads a slot of the color table of [`Term::colors`]: the color that a program
/// set, if one did.
#[verifier::external_body]
pub(crate) fn color_at(term: &Terminal, slot: usize) -> (r: Option<(u8, u8, u8)>)
    requires
        slot < COLOR_COUNT,
    ensures
        r is Some <==> term_state(*term).colors.contains_key(slot as int),
        r matches Some(rgb) ==> rgb == term_state(*term).colors[slot as int],
{
    term.colors()[slot].map(|c| (c.r, c.g, c.b))
}

/// Reads where the cursor stands in the grid, as line and column.
#[verifier::external_body]
pub(crate) fn cursor_point(term: &Terminal) -> (r: (i32, usize))
    ensures
        r == (term_state(*term).cursor_line, term_state(*term).cursor_col),
{
    let point = term.grid().cursor.point;
    (point.line.0, point.column.0)
}

/// Reads the cursor's shape and whether it blinks with [`Term::cursor_style`].
#[verifier::external_body]
pub(crate) fn cursor_style(term: &Terminal) -> (r: (CursorKind, bool))
    requires
        term_state(*term).wf(),
    ensures
        r == term_state(*term).cursor_style(),
{
    let style = term.cursor_style();
    let shape = match style.shape {
        CursorShape::Block => CursorKind::Block,
        CursorShape::Underline => CursorKind::Underline,
        CursorShape::Beam => CursorKind::Beam,
        CursorShape::HollowBlock => CursorKind::HollowBlock,
        CursorShape::Hidden => CursorKind::Hidden,
    };
    (shape, style.blinking)
}

/// Reads the bits of [`Term::mode`].
#[verifier::external_body]
pub(crate) fn mode_bits(term: &Terminal) -> (r: u32)
    ensures
        r == term_state(*term).mode,
{
    term.mode().bits()
}

/// Starts a selection with [`Selection::new`]: both ends at one place.
#[verifier::external_body]
pub(crate) fn start_selection(
    term: &mut Terminal,
    kind: SelectionKind,
    line: i32,
    col: usize,
    right: bool,
)
    ensures
        term_state(*final(term)) == (TermState {
            selection: Some(
                SelectionView {
                    kind,
                    start: Anchor { line, col, right },
                    end: Anchor { line, col, right },
                },
            ),
            ..term_state(*old(term))
        }),
{
    let ty = match kind {
        SelectionKind::Simple => SelectionType::Simple,
        SelectionKind::Semantic => SelectionType::Semantic,
        SelectionKind::Lines => SelectionType::Lines,
    };
    let side = if right { Side::Right } else { Side::Left };
    term.selection = Some(Selection::new(ty, Point::new(Line(line), Column(col)), side));
}

/// Moves the end of the selection with [`Selection::update`], where there is one.
#[verifier::external_body]
pub(crate) fn update_selection(term: &mut Terminal, line: i32, col: usize, right: bool)
    ensures
        term_state(*final(term)) == (TermState {
            selection: match term_state(*old(term)).selection {
                Some(s) => Some(SelectionView { end: Anchor { line, col, right }, ..s }),
                None => None,
            },
            ..term_state(*old(term))
        }),
{
    let side = if right { Side::Right } else { Side::Left };
    if let Some(selection) = term.selection.as_mut() {
        selection.update(Point::new(Line(line), Column(col)), side);
    }
}

/// Drops the terminal's selection.
#[verifier::external_body]
pub(crate) fn drop_selection(term: &mut Terminal)
    ensures
        term_state(*final(term)) == (TermState { selection: None, ..term_state(*old(term)) }),
{
    term.selection = None;
}

/// Reads whether an end of the selection stands above the line, with
/// [`Selection::intersects_range`].
#[verifier::external_body]
pub(crate) fn selection_above(term: &Terminal, line: i32) -> (r: bool)
    requires
        line > i32::MIN,
    ensures
        r == term_model::selection_above(term_state(*term), line as int),
{
    term.selection.as_ref().is_some_and(|s| s.intersects_range(..Line(line)))
}

/// Reads whether there is a selection.
#[verifier::external_body]
pub(crate) fn has_selection(term: &Terminal) -> (r: bool)
    ensures
        r == (term_state(*term).selection is Some),
{
    term.selection.is_some()
}

/// The cells that a selection takes in: a function of the grid, the selection and
/// the characters that end a word.
pub uninterp spec fn selected_range(
    grid: GridState,
    selection: Option<SelectionView>,
    escape_chars: Seq<char>,
) -> Option<CellRange>;

/// Reads the cells that the selection takes in with [`Selection::to_range`]. Its
/// ends lie inside the grid, and without a selection there is none. How a
/// selection grows to words or lines is not spelled out here.
#[verifier::external_body]
pub(crate) fn selection_range(term: &Terminal) -> (r: Option<CellRange>)
    requires
        term_state(*term).wf(),
    ensures
        r == selected_range(
            term_state(*term).grid,
            term_state(*term).selection,
            term_state(*term).options.escape_chars,
        ),
        term_state(*term).selection is None ==> r is None,
        r matches Some(range) ==> term_state(*term).grid.has_range(range),
{
    let range = term.selection.as_ref().and_then(|s| s.to_range(term))?;
    Some(
        CellRange {
            start_line: range.start.line.0,
            start_col: range.start.column.0,
            end_line: range.end.line.0,
            end_col: range.end.column.0,
        },
    )
}

/// The text of a selection: a function of the grid, the tab stops, the selection
/// and the characters that end a word.
pub uninterp spec fn selected_text(
    grid: GridState,
    tabs: Seq<bool>,
    selection: Option<SelectionView>,
    escape_chars: Seq<char>,
) -> Option<Seq<char>>;

/// Reads the selected text with [`Term::selection_to_string`]: there is one if
/// and only if the selection takes in cells. How lines are joined is not spelled
/// out here. It steps back from the cell that a line is read from where that cell
/// is the second half of a wide character, and up from the last line where that
/// line ends in the placeholder of a wide character; both places have to exist.
#[verifier::external_body]
pub(crate) fn selection_string(term: &Terminal) -> (r: Option<String>)
    requires
        term_state(*term).wf(),
        text_readable(term_state(*term)),
    ensures
        r is Some <==> state_range(term_state(*term)) is Some,
        term_state(*term).selection is None ==> r is None,
        selected_text(
            term_state(*term).grid,
            term_state(*term).tabs,
            term_state(*term).selection,
            term_state(*term).options.escape_chars,
        ) == (match r {
            Some(text) => Some(text@),
            None => None,
        }),
{
    term.selection_to_string()
}

/// The cells that the terminal's selection takes in.
pub open spec fn state_range(s: TermState) -> Option<CellRange> {
    selected_range(s.grid, s.selection, s.options.escape_chars)
}

/// The text of the terminal's selection.
pub open spec fn state_text(s: TermState) -> Option<Seq<char>> {
    selected_text(s.grid, s.tabs, s.selection, s.options.escape_chars)
}

/// The cell has one of the attributes.
pub open spec fn cell_is(g: GridState, line: int, col: int, bits: u16) -> bool {
    g.cells[(line, col)].flags & bits != 0
}

/// The column that a selected line is read from.
pub open spec fn text_start(r: CellRange, line: int) -> int {
    if line == r.start_line {
        r.start_col as int
    } else {
        0
    }
}

/// The selected text can be read: no line is read from a wide character's second
/// half in column 0, and the last line, where it is the topmost of the grid, is
/// not read up to a wide character's placeholder in the last column.
pub open spec fn text_readable(s: TermState) -> bool {
    match state_range(s) {
        None => true,
        Some(r) => {
            &&& forall|line: int|
                #![trigger text_start(r, line)]
                r.start_line <= line <= r.end_line && text_start(r, line) == 0 ==> !cell_is(
                    s.grid,
                    line,
                    0,
                    term_model::CELL_WIDE_CHAR_SPACER,
                )
            &&& !(r.end_line == -s.grid.history && r.end_col == s.grid.columns - 1 && cell_is(
                s.grid,
                r.end_line as int,
                s.grid.columns - 1,
                term_model::CELL_LEADING_WIDE_CHAR_SPACER,
            ))
        },
    }
}

/// The pattern that a search was compiled from.
pub uninterp spec fn regex_pattern(re: RegexSearch) -> Seq<char>;

/// Whether a pattern compiles.
pub uninterp spec fn regex_valid(pattern: Seq<char>) -> bool;

/// Compiles a pattern with [`RegexSearch::new`]. Which patterns compile is not
/// spelled out here.
#[verifier::external_body]
pub(crate) fn compile_regex(pattern: &str) -> (r: Result<
    RegexSearch,
    Box<alacritty_terminal::term::search::BuildError>,
>)
    ensures
        r is Ok <==> regex_valid(pattern@),
        r matches Ok(re) ==> regex_pattern(re) == pattern@,
{
    RegexSearch::new(pattern)
}

/// The first match of a pattern on the way from one cell to another, to the right and
/// around the ends of the grid.
pub uninterp spec fn match_right(
    grid: GridState,
    pattern: Seq<char>,
    start: (int, int),
    end: (int, int),
) -> Option<CellRange>;

/// Finds the first match from one cell to another with [`Term::regex_search_right`],
/// with a copy of the pattern as it was compiled: the search panics on one whose cache
/// an earlier search wore out. Both ends of a match lie inside the grid. Which cells
/// match is not spelled out here; a pattern that outgrows its cache on the way matches
/// nothing. The walk runs to the right until it comes to the one cell, and from the
/// match back to the other, so both have to be cells that such a walk does not jump
/// over, or one cell that it need not leave.
#[verifier::external_body]
pub(crate) fn find_right(
    term: &Terminal,
    re: &RegexSearch,
    start: (i32, usize),
    end: (i32, usize),
) -> (r: Option<CellRange>)
    requires
        term_state(*term).wf(),
        term_state(*term).grid.has(start.0 as int, start.1 as int),
        term_state(*term).grid.has(end.0 as int, end.1 as int),
        (start == end && seek::is_plain(term_state(*term).grid, seek::place(start))) || (
        seek::met_leftward(term_state(*term).grid, seek::place(start)) && seek::met_rightward(
            term_state(*term).grid,
            seek::place(end),
        )),
    ensures
        r == match_right(
            term_state(*term).grid,
            regex_pattern(*re),
            seek::place(start),
            seek::place(end),
        ),
        r matches Some(m) ==> term_state(*term).grid.has_range(m),
{
    let from = Point::new(Line(start.0), Column(start.1));
    let to = Point::new(Line(end.0), Column(end.1));
    let found = term.regex_search_right(&mut re.clone(), from, to)?;
    let (first, last) = (found.start(), found.end());
    Some(
        CellRange {
            start_line: first.line.0,
            start_col: first.column.0,
            end_line: last.line.0,
            end_col: last.column.0,
        },
    )
}

/// The first match of a pattern on the way from one cell to another, to the left and
/// around the ends of the grid.
pub uninterp spec fn match_left(
    grid: GridState,
    pattern: Seq<char>,
    start: (int, int),
    end: (int, int),
) -> Option<CellRange>;

/// Finds the first match from one cell to another with [`Term::regex_search_left`],
/// with a copy of the pattern as it was compiled: the search panics on one whose cache
/// an earlier search wore out. Both ends of a match lie inside the grid. Which cells
/// match is not spelled out here; a pattern that outgrows its cache on the way matches
/// nothing. The walk runs to the left until it comes to the one cell, and from the
/// match back to the other, so both have to be cells that such a walk does not jump
/// over.
#[verifier::external_body]
pub(crate) fn find_left(
    term: &Terminal,
    re: &RegexSearch,
    start: (i32, usize),
    end: (i32, usize),
) -> (r: Option<CellRange>)
    requires
        term_state(*term).wf(),
        term_state(*term).grid.has(start.0 as int, start.1 as int),
        term_state(*term).grid.has(end.0 as int, end.1 as int),
        seek::met_rightward(term_state(*term).grid, seek::place(start)),
        seek::met_leftward(term_state(*term).grid, seek::place(end)),
    ensures
        r == match_left(
            term_state(*term).grid,
            regex_pattern(*re),
            seek::place(start),
            seek::place(end),
        ),
        r matches Some(m) ==> term_state(*term).grid.has_range(m),
{
    let from = Point::new(Line(start.0), Column(start.1));
    let to = Point::new(Line(end.0), Column(end.1));
    let found = term.regex_search_left(&mut re.clone(), from, to)?;
    let (first, last) = (found.start(), found.end());
    Some(
        CellRange {
            start_line: first.line.0,
            start_col: first.column.0,
            end_line: last.line.0,
            end_col: last.column.0,
        },
    )
}

} // verus!
