//! What the host is shown: cells, lines and render updates, and how they come of
//! the terminal's cells.

use crate::palette;
use crate::palette::{resolve_color, Theme, PALETTE_LEN};
use crate::term_bridge;
use crate::term_bridge::Terminal;
use crate::term_model;
use crate::term_model::{
    CellColor, CellRange, CellView, GridCell, CELL_ALL_UNDERLINES, CELL_BOLD, CELL_DIM,
    CELL_INVERSE, CELL_ITALIC, CELL_STRIKEOUT, CELL_WIDE_CHAR, CELL_WIDE_CHAR_SPACER,
    COLOR_BACKGROUND, COLOR_FOREGROUND,
};
use vstd::hash_map::StringHashMap;
use vstd::prelude::*;
use vstd::string::*;

verus! {

/// Bit layout of [`CellData::flags`].
pub const FLAG_BOLD: u16 = 0x0001;

pub const FLAG_ITALIC: u16 = 0x0002;

pub const FLAG_UNDERLINE: u16 = 0x0004;

pub const FLAG_INVERSE: u16 = 0x0008;

pub const FLAG_WIDE: u16 = 0x0010;

pub const FLAG_WIDE_SPACER: u16 = 0x0020;

pub const FLAG_DIM: u16 = 0x0040;

pub const FLAG_STRIKEOUT: u16 = 0x0080;

pub const FLAG_SELECTED: u16 = 0x0100;

pub const FLAG_MATCH: u16 = 0x0200;

pub const FLAG_MATCH_CURRENT: u16 = 0x0400;

pub const FLAG_HYPERLINK: u16 = 0x0800;

/// Flat cell. fg/bg are packed 0x00RRGGBB.
#[derive(Clone, Copy, Debug, PartialEq, Eq, Structural)]
pub struct CellData {
    pub codepoint: u32,
    pub fg: u32,
    pub bg: u32,
    pub flags: u16,
    pub hyperlink_id: u32,
}

/// Flat, columnar line. Each attribute is held in its own vector of primitives,
/// so that a host decodes it in one piece; no object per cell is made.
#[derive(Clone, Debug)]
pub struct LineUpdate {
    pub line: u32,
    pub codepoints: Vec<u32>,
    pub fg: Vec<u32>,
    pub bg: Vec<u32>,
    pub flags: Vec<u16>,
    pub hyperlink_id: Vec<u32>,
}

/// The contents of a [`LineUpdate`]: the line's tag and its cells.
#[verifier::ext_equal]
pub struct LineView {
    pub line: u32,
    pub cells: Seq<CellData>,
}

impl View for LineUpdate {
    type V = LineView;

    open spec fn view(&self) -> LineView {
        LineView {
            line: self.line,
            cells: Seq::new(
                self.codepoints@.len(),
                |i: int|
                    CellData {
                        codepoint: self.codepoints@[i],
                        fg: self.fg@[i],
                        bg: self.bg@[i],
                        flags: self.flags@[i],
                        hyperlink_id: self.hyperlink_id@[i],
                    },
            ),
        }
    }
}

impl LineUpdate {
    /// The attributes cover the same columns.
    pub open spec fn wf(&self) -> bool {
        let n = self.codepoints@.len();
        &&& self.fg@.len() == n
        &&& self.bg@.len() == n
        &&& self.flags@.len() == n
        &&& self.hyperlink_id@.len() == n
    }

    /// Packs a row of per-cell [`CellData`] into the columnar layout.
    pub fn from_cells(line: u32, cells: Vec<CellData>) -> (r: LineUpdate)
        ensures
            r.wf(),
            r@ == (LineView { line, cells: cells@ }),
    {
        let n: usize = cells.len();
        let mut codepoints: Vec<u32> = Vec::with_capacity(n);
        let mut fg: Vec<u32> = Vec::with_capacity(n);
        let mut bg: Vec<u32> = Vec::with_capacity(n);
        let mut flags: Vec<u16> = Vec::with_capacity(n);
        let mut hyperlink_id: Vec<u32> = Vec::with_capacity(n);
        let mut i: usize = 0;
        while i < n
            invariant
                i <= n == cells@.len(),
                codepoints@.len() == i,
                fg@.len() == i,
                bg@.len() == i,
                flags@.len() == i,
                hyperlink_id@.len() == i,
                forall|j: int|
                    #![trigger cells@[j]]
                    0 <= j < i ==> cells@[j] == (CellData {
                        codepoint: codepoints@[j],
                        fg: fg@[j],
                        bg: bg@[j],
                        flags: flags@[j],
                        hyperlink_id: hyperlink_id@[j],
                    }),
            decreases n - i,
        {
            let c: CellData = cells[i];
            codepoints.push(c.codepoint);
            fg.push(c.fg);
            bg.push(c.bg);
            flags.push(c.flags);
            hyperlink_id.push(c.hyperlink_id);
            i = i + 1;
        }
        let r: LineUpdate = LineUpdate { line, codepoints, fg, bg, flags, hyperlink_id };
        assert(r@.cells =~= cells@);
        r
    }

    /// Column count of this line.
    pub fn len(&self) -> (r: usize)
        ensures
            r == self@.cells.len(),
    {
        self.codepoints.len()
    }

    /// The cell in a column.
    pub fn cell(&self, col: usize) -> (r: CellData)
        requires
            self.wf(),
            col < self@.cells.len(),
        ensures
            r == self@.cells[col as int],
    {
        CellData {
            codepoint: self.codepoints[col],
            fg: self.fg[col],
            bg: self.bg[col],
            flags: self.flags[col],
            hyperlink_id: self.hyperlink_id[col],
        }
    }
}

/// Row being built before it is packed into a columnar [`LineUpdate`].
pub struct RawLine {
    pub line: u32,
    pub cells: Vec<CellData>,
}

impl RawLine {
    /// Packs the row.
    pub fn pack(self) -> (r: LineUpdate)
        ensures
            r.wf(),
            r@ == (LineView { line: self.line, cells: self.cells@ }),
    {
        LineUpdate::from_cells(self.line, self.cells)
    }
}

/// What the host is told of the screen.
#[derive(Clone, Debug)]
pub struct RenderUpdate {
    pub lines: Vec<LineUpdate>,
    pub full: bool,
    pub cursor_line: u32,
    pub cursor_col: u32,
    pub cursor_visible: bool,
    pub cursor_shape: u8,
    pub cursor_blinking: bool,
    pub mode_flags: u32,
    pub display_offset: u32,
    pub default_fg: u32,
    pub default_bg: u32,
    pub cursor_color: u32,
    /// Sub-cell scroll position, as the bits of a double in [0.0, 1.0): how far, in
    /// fractions of a cell height, the viewport is scrolled up past
    /// `display_offset`. The painter shifts content down by that much and fills the
    /// revealed top sliver with the overscan row (the last entry in `lines` on a
    /// full update). Zero when sitting on a line boundary.
    pub scroll_fraction: u64,
    /// Net viewport line scroll since the last mirror state. Positive = scrolled
    /// up into history. Zero on full updates and on sub-cell-only pixel scrolls.
    /// The host rotates its rows by this delta before applying `lines`, so a scroll
    /// refresh only ships the edge rows that entered view.
    pub scroll_line_delta: i32,
}

/// The contents of a [`RenderUpdate`].
#[verifier::ext_equal]
pub struct RenderView {
    pub lines: Seq<LineView>,
    pub full: bool,
    pub cursor_line: u32,
    pub cursor_col: u32,
    pub cursor_visible: bool,
    pub cursor_shape: u8,
    pub cursor_blinking: bool,
    pub mode_flags: u32,
    pub display_offset: u32,
    pub default_fg: u32,
    pub default_bg: u32,
    pub cursor_color: u32,
    pub scroll_fraction: u64,
    pub scroll_line_delta: i32,
}

/// The contents of a list of lines.
pub open spec fn line_views(lines: Seq<LineUpdate>) -> Seq<LineView> {
    lines.map_values(|l: LineUpdate| l@)
}

/// Each line of the list is well-formed.
pub open spec fn lines_wf(lines: Seq<LineUpdate>) -> bool {
    forall|i: int| 0 <= i < lines.len() ==> (#[trigger] lines[i]).wf()
}

impl View for RenderUpdate {
    type V = RenderView;

    open spec fn view(&self) -> RenderView {
        RenderView {
            lines: line_views(self.lines@),
            full: self.full,
            cursor_line: self.cursor_line,
            cursor_col: self.cursor_col,
            cursor_visible: self.cursor_visible,
            cursor_shape: self.cursor_shape,
            cursor_blinking: self.cursor_blinking,
            mode_flags: self.mode_flags,
            display_offset: self.display_offset,
            default_fg: self.default_fg,
            default_bg: self.default_bg,
            cursor_color: self.cursor_color,
            scroll_fraction: self.scroll_fraction,
            scroll_line_delta: self.scroll_line_delta,
        }
    }
}

impl RenderUpdate {
    /// Each line of the update is well-formed.
    pub open spec fn wf(&self) -> bool {
        lines_wf(self.lines@)
    }

    /// Column count inferred from the first line.
    pub fn columns(&self) -> (r: usize)
        ensures
            r == (if self@.lines.len() > 0 {
                self@.lines[0].cells.len()
            } else {
                0
            }),
    {
        if self.lines.len() > 0 {
            self.lines[0].len()
        } else {
            0
        }
    }
}

/// `out` where the attribute is on, else nothing.
pub open spec fn flag_if(bits: u16, attribute: u16, out: u16) -> u16 {
    if bits & attribute != 0 {
        out
    } else {
        0
    }
}

/// The flags that show a cell's attributes.
pub open spec fn style_flags(bits: u16) -> u16 {
    flag_if(bits, CELL_BOLD, FLAG_BOLD) | flag_if(bits, CELL_ITALIC, FLAG_ITALIC) | flag_if(
        bits,
        CELL_ALL_UNDERLINES,
        FLAG_UNDERLINE,
    ) | flag_if(bits, CELL_INVERSE, FLAG_INVERSE) | flag_if(bits, CELL_WIDE_CHAR, FLAG_WIDE)
        | flag_if(bits, CELL_WIDE_CHAR_SPACER, FLAG_WIDE_SPACER) | flag_if(
        bits,
        CELL_DIM,
        FLAG_DIM,
    ) | flag_if(bits, CELL_STRIKEOUT, FLAG_STRIKEOUT)
}

fn flag_when(bits: u16, attribute: u16, out: u16) -> (r: u16)
    ensures
        r == flag_if(bits, attribute, out),
{
    if bits & attribute != 0 {
        out
    } else {
        0
    }
}

/// Maps a cell's attribute bits to the flags that show them.
pub fn map_flags(bits: u16) -> (r: u16)
    ensures
        r == style_flags(bits),
{
    flag_when(bits, CELL_BOLD, FLAG_BOLD) | flag_when(bits, CELL_ITALIC, FLAG_ITALIC) | flag_when(
        bits,
        CELL_ALL_UNDERLINES,
        FLAG_UNDERLINE,
    ) | flag_when(bits, CELL_INVERSE, FLAG_INVERSE) | flag_when(bits, CELL_WIDE_CHAR, FLAG_WIDE)
        | flag_when(bits, CELL_WIDE_CHAR_SPACER, FLAG_WIDE_SPACER) | flag_when(
        bits,
        CELL_DIM,
        FLAG_DIM,
    ) | flag_when(bits, CELL_STRIKEOUT, FLAG_STRIKEOUT)
}

/// A flag is on if and only if the attribute that it shows is on, and no flag
/// beside the eight of them comes of an attribute.
pub proof fn law_flags_show_attributes(bits: u16)
    ensures
        style_flags(bits) & FLAG_BOLD != 0 <==> bits & CELL_BOLD != 0,
        style_flags(bits) & FLAG_ITALIC != 0 <==> bits & CELL_ITALIC != 0,
        style_flags(bits) & FLAG_UNDERLINE != 0 <==> bits & CELL_ALL_UNDERLINES != 0,
        style_flags(bits) & FLAG_INVERSE != 0 <==> bits & CELL_INVERSE != 0,
        style_flags(bits) & FLAG_WIDE != 0 <==> bits & CELL_WIDE_CHAR != 0,
        style_flags(bits) & FLAG_WIDE_SPACER != 0 <==> bits & CELL_WIDE_CHAR_SPACER != 0,
        style_flags(bits) & FLAG_DIM != 0 <==> bits & CELL_DIM != 0,
        style_flags(bits) & FLAG_STRIKEOUT != 0 <==> bits & CELL_STRIKEOUT != 0,
        style_flags(bits) & 0xFF00 == 0,
{
    let out = style_flags(bits);
    assert(out & FLAG_BOLD != 0 <==> bits & CELL_BOLD != 0) by (bit_vector)
        requires
            out == style_flags(bits),
    ;
    assert(out & FLAG_ITALIC != 0 <==> bits & CELL_ITALIC != 0) by (bit_vector)
        requires
            out == style_flags(bits),
    ;
    assert(out & FLAG_UNDERLINE != 0 <==> bits & CELL_ALL_UNDERLINES != 0) by (bit_vector)
        requires
            out == style_flags(bits),
    ;
    assert(out & FLAG_INVERSE != 0 <==> bits & CELL_INVERSE != 0) by (bit_vector)
        requires
            out == style_flags(bits),
    ;
    assert(out & FLAG_WIDE != 0 <==> bits & CELL_WIDE_CHAR != 0) by (bit_vector)
        requires
            out == style_flags(bits),
    ;
    assert(out & FLAG_WIDE_SPACER != 0 <==> bits & CELL_WIDE_CHAR_SPACER != 0) by (bit_vector)
        requires
            out == style_flags(bits),
    ;
    assert(out & FLAG_DIM != 0 <==> bits & CELL_DIM != 0) by (bit_vector)
        requires
            out == style_flags(bits),
    ;
    assert(out & FLAG_STRIKEOUT != 0 <==> bits & CELL_STRIKEOUT != 0) by (bit_vector)
        requires
            out == style_flags(bits),
    ;
    assert(out & 0xFF00 == 0) by (bit_vector)
        requires
            out == style_flags(bits),
    ;
}

/// The id of a URI: its place in the table, counted from 1; 0 where it has none.
pub open spec fn link_id(table: Seq<Seq<char>>, uri: Seq<char>) -> u32 {
    if table.contains(uri) {
        (table.index_of(uri) + 1) as u32
    } else {
        0
    }
}

/// The table holds each URI once, and no more of them than there are ids.
pub open spec fn links_wf(table: Seq<Seq<char>>) -> bool {
    table.no_duplicates() && table.len() <= u32::MAX
}

/// The table with a URI in it. A URI that is new goes to the end, as long as
/// there are ids left.
pub open spec fn interned(table: Seq<Seq<char>>, uri: Seq<char>) -> Seq<Seq<char>> {
    if table.contains(uri) || table.len() >= u32::MAX {
        table
    } else {
        table.push(uri)
    }
}

/// The table with the URIs of a row of cells in it.
pub open spec fn interned_row(table: Seq<Seq<char>>, row: Seq<CellView>) -> Seq<Seq<char>>
    decreases row.len(),
{
    if row.len() == 0 {
        table
    } else {
        let before = interned_row(table, row.drop_last());
        match row.last().link {
            Some(uri) => interned(before, uri),
            None => before,
        }
    }
}

/// The table with the URIs of rows of cells in it.
pub open spec fn interned_rows(table: Seq<Seq<char>>, rows: Seq<Seq<CellView>>) -> Seq<Seq<char>>
    decreases rows.len(),
{
    if rows.len() == 0 {
        table
    } else {
        interned_row(interned_rows(table, rows.drop_last()), rows.last())
    }
}

proof fn interned_row_extends(table: Seq<Seq<char>>, row: Seq<CellView>)
    requires
        links_wf(table),
    ensures
        links_wf(interned_row(table, row)),
        table.len() <= interned_row(table, row).len(),
        interned_row(table, row).take(table.len() as int) == table,
    decreases row.len(),
{
    if row.len() > 0 {
        interned_row_extends(table, row.drop_last());
        let before = interned_row(table, row.drop_last());
        if let Some(uri) = row.last().link {
            assert(interned(before, uri).take(table.len() as int) =~= before.take(
                table.len() as int,
            ));
        }
    } else {
        assert(table.take(table.len() as int) =~= table);
    }
}

/// Showing more cells keeps the hyperlink table: it stays free of duplicates,
/// and what is in it stays in its place.
pub proof fn law_links_only_grow(table: Seq<Seq<char>>, rows: Seq<Seq<CellView>>)
    requires
        links_wf(table),
    ensures
        links_wf(interned_rows(table, rows)),
        table.len() <= interned_rows(table, rows).len(),
        interned_rows(table, rows).take(table.len() as int) == table,
    decreases rows.len(),
{
    if rows.len() > 0 {
        law_links_only_grow(table, rows.drop_last());
        let before = interned_rows(table, rows.drop_last());
        interned_row_extends(before, rows.last());
        let after = interned_row(before, rows.last());
        assert(after.take(table.len() as int) =~= after.take(before.len() as int).take(
            table.len() as int,
        ));
    } else {
        assert(table.take(table.len() as int) =~= table);
    }
}

/// The id of a URI in the table is not 0, leads back to the URI, and stays the
/// same whatever is shown later.
pub proof fn law_link_ids_are_stable(
    table: Seq<Seq<char>>,
    uri: Seq<char>,
    rows: Seq<Seq<CellView>>,
)
    requires
        links_wf(table),
        table.contains(uri),
    ensures
        1 <= link_id(table, uri) <= table.len(),
        table[link_id(table, uri) - 1] == uri,
        link_id(interned_rows(table, rows), uri) == link_id(table, uri),
{
    law_links_only_grow(table, rows);
    let i = table.index_of(uri);
    assert(0 <= i < table.len() && table[i] == uri);
    let after = interned_rows(table, rows);
    assert(after[i] == after.take(table.len() as int)[i]);
    assert(after.contains(uri));
    let j = after.index_of(uri);
    assert(0 <= j < after.len() && after[j] == uri);
}

proof fn pushed_link(table: Seq<Seq<char>>, uri: Seq<char>, u: Seq<char>)
    requires
        links_wf(table),
        !table.contains(uri),
        table.len() < u32::MAX,
    ensures
        links_wf(table.push(uri)),
        table.push(uri).contains(u) <==> u == uri || table.contains(u),
        link_id(table.push(uri), uri) == table.len() + 1,
        table.contains(u) ==> link_id(table.push(uri), u) == link_id(table, u),
{
    let after = table.push(uri);
    assert(after[table.len() as int] == uri);
    assert(after.contains(uri));
    let at = after.index_of(uri);
    assert(0 <= at < after.len() && after[at] == uri);
    if table.contains(u) {
        let i = table.index_of(u);
        assert(0 <= i < table.len() && table[i] == u);
        assert(after[i] == u);
        assert(after.contains(u));
        let j = after.index_of(u);
        assert(0 <= j < after.len() && after[j] == u);
    }
    if after.contains(u) && u != uri {
        let j = choose|j: int| 0 <= j < after.len() && after[j] == u;
        assert(table[j] == u);
    }
}

/// The hyperlinks that cells were shown with, and the ids that stand for them.
pub struct LinkTable {
    uris: Vec<String>,
    ids: StringHashMap<u32>,
}

impl View for LinkTable {
    type V = Seq<Seq<char>>;

    closed spec fn view(&self) -> Seq<Seq<char>> {
        self.uris@.map_values(|s: String| s@)
    }
}

impl LinkTable {
    /// Each URI is there once, and is found by its id and the id by it.
    pub closed spec fn wf(&self) -> bool {
        &&& links_wf(self@)
        &&& forall|u: Seq<char>| #[trigger] self.ids@.contains_key(u) <==> self@.contains(u)
        &&& forall|u: Seq<char>| #[trigger]
            self.ids@.contains_key(u) ==> self.ids@[u] == link_id(self@, u)
    }

    /// A table without URIs.
    pub fn new() -> (r: LinkTable)
        ensures
            r.wf(),
            r@ == Seq::<Seq<char>>::empty(),
    {
        let r: LinkTable = LinkTable { uris: Vec::new(), ids: StringHashMap::new() };
        assert(r@ =~= Seq::<Seq<char>>::empty());
        r
    }

    /// The id of a URI; 0 where it has none.
    pub fn id_of(&self, uri: &str) -> (id: u32)
        requires
            self.wf(),
        ensures
            id == link_id(self@, uri@),
    {
        match self.ids.get(uri) {
            Some(id) => *id,
            None => 0,
        }
    }

    /// Interns a URI: one that is new goes to the end of the table, as long as
    /// there are ids left. Returns its id.
    pub fn intern_hyperlink(&mut self, uri: &String) -> (id: u32)
        requires
            old(self).wf(),
        ensures
            final(self).wf(),
            final(self)@ == interned(old(self)@, uri@),
            id == link_id(final(self)@, uri@),
    {
        let ghost before = self@;
        if let Some(id) = self.ids.get(uri.as_str()) {
            return *id;
        }
        let n: usize = self.uris.len();
        if n as u64 >= 0xFFFF_FFFF {
            return 0;
        }
        let id: u32 = (n + 1) as u32;
        self.uris.push(uri.clone());
        self.ids.insert(uri.clone(), id);
        proof {
            assert(self@ =~= before.push(uri@));
            assert forall|u: Seq<char>| #[trigger]
                self.ids@.contains_key(u) implies self@.contains(u) && self.ids@[u] == link_id(
                self@,
                u,
            ) by {
                pushed_link(before, uri@, u);
            }
            assert forall|u: Seq<char>| self@.contains(u) implies #[trigger] self.ids@.contains_key(
                u,
            ) by {
                pushed_link(before, uri@, u);
            }
            pushed_link(before, uri@, uri@);
        }
        id
    }

    /// The URI of an id, if the id was given out.
    pub fn resolve(&self, id: u32) -> (r: Option<String>)
        requires
            self.wf(),
        ensures
            link_of(self@, id) == (match r {
                Some(uri) => Some(uri@),
                None => None,
            }),
    {
        if id == 0 || (id - 1) as usize >= self.uris.len() {
            None
        } else {
            Some(self.uris[(id - 1) as usize].clone())
        }
    }
}

/// Interns the URIs of a row of cells.
fn intern_row(table: &mut LinkTable, row: &Vec<GridCell>)
    requires
        old(table).wf(),
    ensures
        final(table).wf(),
        final(table)@ == interned_row(old(table)@, term_model::cell_views(row@)),
{
    let ghost cells = term_model::cell_views(row@);
    let n: usize = row.len();
    let mut i: usize = 0;
    assert(cells.take(0) =~= Seq::<CellView>::empty());
    while i < n
        invariant
            i <= n == row@.len(),
            cells == term_model::cell_views(row@),
            table.wf(),
            table@ == interned_row(old(table)@, cells.take(i as int)),
        decreases n - i,
    {
        assert(cells.take(i + 1).drop_last() =~= cells.take(i as int));
        assert(cells.take(i + 1).last() == row@[i as int]@);
        if let Some(uri) = &row[i].link {
            let _ = table.intern_hyperlink(uri);
        }
        i = i + 1;
    }
    assert(cells.take(n as int) =~= cells);
}

/// The contents of rows of cells.
pub open spec fn row_views(rows: Seq<Vec<GridCell>>) -> Seq<Seq<CellView>> {
    rows.map_values(|r: Vec<GridCell>| term_model::cell_views(r@))
}

/// Interns the URIs of rows of cells.
pub fn intern_rows(table: &mut LinkTable, rows: &Vec<Vec<GridCell>>)
    requires
        old(table).wf(),
    ensures
        final(table).wf(),
        final(table)@ == interned_rows(old(table)@, row_views(rows@)),
{
    let ghost views = row_views(rows@);
    let n: usize = rows.len();
    let mut i: usize = 0;
    assert(views.take(0) =~= Seq::<Seq<CellView>>::empty());
    while i < n
        invariant
            i <= n == rows@.len(),
            views == row_views(rows@),
            table.wf(),
            table@ == interned_rows(old(table)@, views.take(i as int)),
        decreases n - i,
    {
        assert(views.take(i + 1).drop_last() =~= views.take(i as int));
        assert(views.take(i + 1).last() == term_model::cell_views(rows@[i as int]@));
        intern_row(table, &rows[i]);
        i = i + 1;
    }
    assert(views.take(n as int) =~= views);
}

/// The URI of an id, if the id was given out.
pub open spec fn link_of(table: Seq<Seq<char>>, id: u32) -> Option<Seq<char>> {
    if 1 <= id <= table.len() {
        Some(table[id - 1])
    } else {
        None
    }
}

/// A cell as the host is shown it, before selection and search.
pub open spec fn painted(t: Theme, links: Seq<Seq<char>>, c: CellView) -> CellData {
    CellData {
        codepoint: c.c as u32,
        fg: palette::shown_color(t, c.fg),
        bg: palette::shown_color(t, c.bg),
        flags: match c.link {
            Some(_) => style_flags(c.flags) | FLAG_HYPERLINK,
            None => style_flags(c.flags),
        },
        hyperlink_id: match c.link {
            Some(uri) => link_id(links, uri),
            None => 0,
        },
    }
}

/// Shows a cell, before selection and search. Its URI was interned before.
pub fn cell_data(
    term: &Terminal,
    palette: &Vec<u32>,
    links: &LinkTable,
    cell: &GridCell,
) -> (r: CellData)
    requires
        palette@.len() == PALETTE_LEN,
        links.wf(),
    ensures
        r == painted(palette::theme_of(palette@, *term), links@, cell@),
{
    let (hyperlink_id, link_flag): (u32, u16) = match &cell.link {
        Some(uri) => (links.id_of(uri.as_str()), FLAG_HYPERLINK),
        None => (0, 0),
    };
    let style: u16 = map_flags(cell.flags);
    assert(style | 0u16 == style) by (bit_vector);
    CellData {
        codepoint: cell.c as u32,
        fg: resolve_color(term, palette, cell.fg),
        bg: resolve_color(term, palette, cell.bg),
        flags: style | link_flag,
        hyperlink_id,
    }
}

/// The cell lies in the range, in reading order.
pub open spec fn in_range(r: CellRange, line: int, col: int) -> bool {
    &&& line > r.start_line || (line == r.start_line && col >= r.start_col)
    &&& line < r.end_line || (line == r.end_line && col <= r.end_col)
}

/// Whether a cell lies in a range, in reading order.
pub fn point_in_range(line: i64, col: usize, r: &CellRange) -> (b: bool)
    ensures
        b == in_range(*r, line as int, col as int),
{
    let start: i64 = r.start_line as i64;
    let end: i64 = r.end_line as i64;
    let after_start: bool = line > start || (line == start && col >= r.start_col);
    let before_end: bool = line < end || (line == end && col <= r.end_col);
    after_start && before_end
}

/// The cell with a flag on.
pub open spec fn with_flag(c: CellData, flag: u16) -> CellData {
    CellData { flags: c.flags | flag, ..c }
}

/// The cell with a flag on where `on` holds.
pub open spec fn flagged(c: CellData, flag: u16, on: bool) -> CellData {
    if on {
        with_flag(c, flag)
    } else {
        c
    }
}

/// The cell is selected.
pub open spec fn is_selected(c: CellData) -> bool {
    c.flags & FLAG_SELECTED != 0
}

/// The cell and the next one are the two halves of a wide character.
pub open spec fn wide_pair(cells: Seq<CellData>, i: int) -> bool {
    &&& 0 <= i
    &&& i + 1 < cells.len()
    &&& cells[i].flags & FLAG_WIDE != 0
    &&& cells[i + 1].flags & FLAG_WIDE_SPACER != 0
}

/// The cell is selected, or it is the second half of a cell of which this holds.
pub open spec fn carries_selection(cells: Seq<CellData>, i: int) -> bool
    decreases i,
{
    is_selected(cells[i]) || (i > 0 && wide_pair(cells, i - 1) && carries_selection(cells, i - 1))
}

/// The cell is selected once the halves of wide characters are bound together.
pub open spec fn bound_selected(cells: Seq<CellData>, i: int) -> bool {
    carries_selection(cells, i) || (wide_pair(cells, i) && is_selected(cells[i + 1]))
}

/// The row with the halves of wide characters bound together: where one half is
/// selected, both are.
pub open spec fn pairs_bound(cells: Seq<CellData>) -> Seq<CellData> {
    Seq::new(cells.len(), |i: int| flagged(cells[i], FLAG_SELECTED, bound_selected(cells, i)))
}

proof fn selected_flag_bits(f: u16)
    ensures
        (f | FLAG_SELECTED) & FLAG_WIDE == f & FLAG_WIDE,
        (f | FLAG_SELECTED) & FLAG_WIDE_SPACER == f & FLAG_WIDE_SPACER,
        (f | FLAG_SELECTED) & FLAG_SELECTED != 0,
        f & FLAG_SELECTED != 0 ==> f | FLAG_SELECTED == f,
        (f | FLAG_SELECTED) | FLAG_SELECTED == f | FLAG_SELECTED,
{
    assert((f | FLAG_SELECTED) & FLAG_WIDE == f & FLAG_WIDE && (f | FLAG_SELECTED)
        & FLAG_WIDE_SPACER == f & FLAG_WIDE_SPACER && (f | FLAG_SELECTED) & FLAG_SELECTED != 0 && (f
        & FLAG_SELECTED != 0 ==> f | FLAG_SELECTED == f) && (f | FLAG_SELECTED) | FLAG_SELECTED == f
        | FLAG_SELECTED) by (bit_vector);
}

/// Binds the halves of wide characters together. Selection is computed per cell,
/// but a wide glyph spans two of them: a drag edge between the two would highlight
/// half the glyph. If either half is selected, both are.
pub fn apply_wide_selection_pair(cells: &mut Vec<CellData>)
    ensures
        final(cells)@ == pairs_bound(old(cells)@),
{
    let ghost o = cells@;
    let n: usize = cells.len();
    if n == 0 {
        assert(cells@ =~= pairs_bound(o));
        return;
    }
    proof {
        selected_flag_bits(o[0].flags);
    }
    let mut c: usize = 0;
    while c < n - 1
        invariant
            1 <= n == o.len(),
            cells@.len() == n,
            c <= n - 1,
            forall|j: int| 0 <= j < c ==> cells@[j] == #[trigger] pairs_bound(o)[j],
            cells@[c as int] == flagged(o[c as int], FLAG_SELECTED, carries_selection(o, c as int)),
            forall|j: int| c < j < n ==> #[trigger] cells@[j] == o[j],
        decreases n - c,
    {
        let lead: CellData = cells[c];
        let next: CellData = cells[c + 1];
        proof {
            selected_flag_bits(o[c as int].flags);
            selected_flag_bits(o[c + 1].flags);
            reveal_with_fuel(carries_selection, 2);
        }
        let ghost at = c as int;
        if lead.flags & FLAG_WIDE != 0 && next.flags & FLAG_WIDE_SPACER != 0 && (lead.flags
            & FLAG_SELECTED != 0 || next.flags & FLAG_SELECTED != 0) {
            cells.set(c, CellData { flags: lead.flags | FLAG_SELECTED, ..lead });
            cells.set(c + 1, CellData { flags: next.flags | FLAG_SELECTED, ..next });
        }
        assert(cells@[at] == pairs_bound(o)[at]);
        c = c + 1;
    }
    assert(cells@ =~= pairs_bound(o));
}

/// No glyph is half selected: of a wide character's two cells, both are selected
/// or none is, as long as no cell is a lead and a second half at once.
pub proof fn law_wide_glyph_is_never_split(cells: Seq<CellData>, i: int)
    requires
        wide_pair(cells, i),
        forall|j: int|
            0 <= j < cells.len() ==> !((#[trigger] cells[j]).flags & FLAG_WIDE != 0
                && cells[j].flags & FLAG_WIDE_SPACER != 0),
    ensures
        is_selected(pairs_bound(cells)[i]) == is_selected(pairs_bound(cells)[i + 1]),
        is_selected(pairs_bound(cells)[i]) == (is_selected(cells[i]) || is_selected(cells[i + 1])),
{
    reveal_with_fuel(carries_selection, 3);
    selected_flag_bits(cells[i].flags);
    selected_flag_bits(cells[i + 1].flags);
}

/// Binding changes nothing of a row in which no cell is selected.
pub proof fn law_nothing_selected_nothing_bound(cells: Seq<CellData>)
    requires
        forall|j: int| 0 <= j < cells.len() ==> !is_selected(#[trigger] cells[j]),
    ensures
        pairs_bound(cells) == cells,
{
    assert forall|i: int| 0 <= i < cells.len() implies !carries_selection(cells, i) by {
        nothing_carried(cells, i);
    }
    assert(pairs_bound(cells) =~= cells);
}

proof fn nothing_carried(cells: Seq<CellData>, i: int)
    requires
        0 <= i < cells.len(),
        forall|j: int| 0 <= j < cells.len() ==> !is_selected(#[trigger] cells[j]),
    ensures
        !carries_selection(cells, i),
    decreases i,
{
    if i > 0 {
        nothing_carried(cells, i - 1);
    }
}

/// A row of cells, shown with the selection.
pub open spec fn shown_row(
    t: Theme,
    links: Seq<Seq<char>>,
    row: Seq<CellView>,
    line: int,
    selection: Option<CellRange>,
) -> Seq<CellData> {
    match selection {
        Some(r) => pairs_bound(
            Seq::new(
                row.len(),
                |c: int|
                    flagged(painted(t, links, row[c]), FLAG_SELECTED, in_range(r, line, c)),
            ),
        ),
        None => painted_row(t, links, row),
    }
}

/// A row of cells, shown without the selection.
pub open spec fn painted_row(t: Theme, links: Seq<Seq<char>>, row: Seq<CellView>) -> Seq<CellData> {
    Seq::new(row.len(), |c: int| painted(t, links, row[c]))
}

/// Shows a row of cells that belong to a grid line, with the selection.
pub fn show_row(
    term: &Terminal,
    palette: &Vec<u32>,
    links: &LinkTable,
    row: &Vec<GridCell>,
    line: i64,
    selection: Option<CellRange>,
) -> (r: Vec<CellData>)
    requires
        palette@.len() == PALETTE_LEN,
        links.wf(),
    ensures
        r@ == shown_row(
            palette::theme_of(palette@, *term),
            links@,
            term_model::cell_views(row@),
            line as int,
            selection,
        ),
{
    let ghost t = palette::theme_of(palette@, *term);
    let ghost table = links@;
    let ghost cells = term_model::cell_views(row@);
    let n: usize = row.len();
    let mut out: Vec<CellData> = Vec::with_capacity(n);
    let mut c: usize = 0;
    while c < n
        invariant
            c <= n == row@.len(),
            palette@.len() == PALETTE_LEN,
            links.wf(),
            t == palette::theme_of(palette@, *term),
            table == links@,
            cells == term_model::cell_views(row@),
            out@.len() == c,
            forall|j: int|
                0 <= j < c ==> #[trigger] out@[j] == (match selection {
                    Some(r) => flagged(
                        painted(t, table, cells[j]),
                        FLAG_SELECTED,
                        in_range(r, line as int, j),
                    ),
                    None => painted(t, table, cells[j]),
                }),
        decreases n - c,
    {
        let mut data: CellData = cell_data(term, palette, links, &row[c]);
        if let Some(r) = selection {
            if point_in_range(line, c, &r) {
                data.flags = data.flags | FLAG_SELECTED;
            }
        }
        out.push(data);
        c = c + 1;
    }
    if let Some(r) = selection {
        assert(out@ =~= Seq::new(
            cells.len(),
            |c: int|
                flagged(
                    painted(t, table, cells[c]),
                    FLAG_SELECTED,
                    in_range(r, line as int, c),
                ),
        ));
        apply_wide_selection_pair(&mut out);
    } else {
        assert(out@ =~= painted_row(t, table, cells));
    }
    out
}

/// The cell that stands where there is nothing to show.
pub open spec fn blank_data(t: Theme) -> CellData {
    CellData {
        codepoint: 0x20,
        fg: palette::foreground(t),
        bg: palette::background(t),
        flags: 0,
        hyperlink_id: 0,
    }
}

/// A row of blanks.
pub fn blank_row(term: &Terminal, palette: &Vec<u32>, columns: usize) -> (r: Vec<CellData>)
    requires
        palette@.len() == PALETTE_LEN,
    ensures
        r@ == Seq::new(
            columns as nat,
            |c: int| blank_data(palette::theme_of(palette@, *term)),
        ),
{
    let (fg, bg, _): (u32, u32, u32) = palette::chrome_colors(term, palette);
    let blank: CellData = CellData { codepoint: 0x20, fg, bg, flags: 0, hyperlink_id: 0 };
    let mut out: Vec<CellData> = Vec::with_capacity(columns);
    let mut c: usize = 0;
    while c < columns
        invariant
            c <= columns,
            out@.len() == c,
            forall|j: int| 0 <= j < c ==> #[trigger] out@[j] == blank,
        decreases columns - c,
    {
        out.push(blank);
        c = c + 1;
    }
    assert(out@ =~= Seq::new(
        columns as nat,
        |c: int| blank_data(palette::theme_of(palette@, *term)),
    ));
    out
}

/// Reads the cells of a grid line, or blanks where there is no such line.
pub fn read_row(term: &Terminal, line: i32) -> (r: Vec<GridCell>)
    requires
        term_bridge::term_state(*term).wf(),
    ensures
        term_model::cell_views(r@) == term_bridge::term_state(*term).grid.row(line as int),
{
    let ghost g = term_bridge::term_state(*term).grid;
    let columns: usize = term_bridge::columns(term);
    let top: i64 = 0 - term_bridge::history_size(term) as i64;
    let there: bool = top <= line as i64 && (line as i64) < term_bridge::screen_lines(term) as i64;
    let mut out: Vec<GridCell> = Vec::with_capacity(columns);
    let mut c: usize = 0;
    while c < columns
        invariant
            c <= columns == g.columns,
            g == term_bridge::term_state(*term).grid,
            there == g.has_line(line as int),
            out@.len() == c,
            forall|j: int| 0 <= j < c ==> (#[trigger] out@[j])@ == g.row(line as int)[j],
        decreases columns - c,
    {
        if there {
            out.push(term_bridge::cell_at(term, line, c));
        } else {
            out.push(
                GridCell {
                    c: ' ',
                    fg: CellColor::Named(COLOR_FOREGROUND),
                    bg: CellColor::Named(COLOR_BACKGROUND),
                    flags: 0,
                    link: None,
                },
            );
        }
        c = c + 1;
    }
    assert(term_model::cell_views(out@) =~= g.row(line as int));
    out
}

/// Some match holds the cell.
pub open spec fn in_some_match(matches: Seq<CellRange>, line: int, col: int) -> bool {
    exists|k: int| 0 <= k < matches.len() && in_range(#[trigger] matches[k], line, col)
}

/// The cell with its search highlight: a match, and the current match.
pub open spec fn highlighted(
    c: CellData,
    line: int,
    col: int,
    matches: Seq<CellRange>,
    current: Option<CellRange>,
) -> CellData {
    flagged(
        flagged(c, FLAG_MATCH, in_some_match(matches, line, col)),
        FLAG_MATCH_CURRENT,
        current is Some && in_range(current->0, line, col),
    )
}

/// A line of a snapshot with its search highlights. The line's tag is its row in
/// the viewport.
pub open spec fn highlighted_line(
    l: LineView,
    offset: int,
    matches: Seq<CellRange>,
    current: Option<CellRange>,
) -> LineView {
    LineView {
        line: l.line,
        cells: Seq::new(
            l.cells.len(),
            |c: int| highlighted(l.cells[c], l.line - offset, c, matches, current),
        ),
    }
}

/// Whether some match holds the cell.
fn any_match(matches: &Vec<CellRange>, line: i64, col: usize) -> (r: bool)
    ensures
        r == in_some_match(matches@, line as int, col as int),
{
    let n: usize = matches.len();
    let mut k: usize = 0;
    while k < n
        invariant
            k <= n == matches@.len(),
            forall|j: int|
                0 <= j < k ==> !in_range(#[trigger] matches@[j], line as int, col as int),
        decreases n - k,
    {
        if point_in_range(line, col, &matches[k]) {
            return true;
        }
        k = k + 1;
    }
    false
}

/// Highlights a line of a snapshot.
fn highlight_line(
    l: &LineUpdate,
    offset: u32,
    matches: &Vec<CellRange>,
    current: Option<CellRange>,
) -> (r: LineUpdate)
    requires
        l.wf(),
    ensures
        r.wf(),
        r@ == highlighted_line(l@, offset as int, matches@, current),
{
    let n: usize = l.len();
    let line: i64 = l.line as i64 - offset as i64;
    let mut cells: Vec<CellData> = Vec::with_capacity(n);
    let mut c: usize = 0;
    while c < n
        invariant
            l.wf(),
            c <= n == l@.cells.len(),
            line == l.line - offset,
            cells@.len() == c,
            forall|j: int|
                0 <= j < c ==> #[trigger] cells@[j] == highlighted(
                    l@.cells[j],
                    line as int,
                    j,
                    matches@,
                    current,
                ),
        decreases n - c,
    {
        let mut data: CellData = l.cell(c);
        if any_match(matches, line, c) {
            data.flags = data.flags | FLAG_MATCH;
        }
        if let Some(m) = current {
            if point_in_range(line, c, &m) {
                data.flags = data.flags | FLAG_MATCH_CURRENT;
            }
        }
        cells.push(data);
        c = c + 1;
    }
    assert(cells@ =~= highlighted_line(l@, offset as int, matches@, current).cells);
    LineUpdate::from_cells(l.line, cells)
}

/// The lines of a snapshot with their search highlights.
pub open spec fn highlighted_lines(
    lines: Seq<LineView>,
    offset: int,
    matches: Seq<CellRange>,
    current: Option<CellRange>,
) -> Seq<LineView> {
    lines.map_values(|l: LineView| highlighted_line(l, offset, matches, current))
}

/// Highlights the lines of a snapshot: every cell that a match holds, and those
/// of the current match.
pub fn mark_matches(
    lines: &Vec<LineUpdate>,
    offset: u32,
    matches: &Vec<CellRange>,
    current: Option<CellRange>,
) -> (r: Vec<LineUpdate>)
    requires
        lines_wf(lines@),
    ensures
        lines_wf(r@),
        line_views(r@) == highlighted_lines(
            line_views(lines@),
            offset as int,
            matches@,
            current,
        ),
{
    let n: usize = lines.len();
    let mut out: Vec<LineUpdate> = Vec::with_capacity(n);
    let mut i: usize = 0;
    while i < n
        invariant
            lines_wf(lines@),
            i <= n == lines@.len(),
            out@.len() == i,
            lines_wf(out@),
            forall|j: int|
                0 <= j < i ==> (#[trigger] out@[j])@ == highlighted_line(
                    lines@[j]@,
                    offset as int,
                    matches@,
                    current,
                ),
        decreases n - i,
    {
        out.push(highlight_line(&lines[i], offset, matches, current));
        i = i + 1;
    }
    assert(line_views(out@) =~= highlighted_lines(
        line_views(lines@),
        offset as int,
        matches@,
        current,
    ));
    out
}

} // verus!
