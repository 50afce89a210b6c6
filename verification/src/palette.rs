//! Colors: packing, the 256-color cube, and the resolution of a cell's color
//! against the colors that a program set and the configured palette.

use crate::term_bridge;
use crate::term_bridge::{color_at, Terminal};
use crate::term_model::{CellColor, COLOR_BACKGROUND, COLOR_COUNT, COLOR_CURSOR, COLOR_FOREGROUND};
use vstd::prelude::*;

verus! {

/// Sentinel `cursor_color` when no program has set OSC 12. Impossible as a real
/// packed color (which is always `0x00RRGGBB`), so the host can tell "unset, keep
/// the inverse-video cursor" from a real cursor color.
pub const CURSOR_COLOR_UNSET: u32 = 0xFF00_0000;

/// Number of entries in a configured palette: the 16 ANSI colors, the default
/// foreground and the default background.
pub const PALETTE_LEN: usize = 18;

/// What colors are resolved against: the configured palette, and the colors that
/// a program set.
pub struct Theme {
    pub palette: Seq<u32>,
    pub colors: Map<int, (u8, u8, u8)>,
}

/// The theme of an engine with this palette and this terminal.
pub open spec fn theme_of(palette: Seq<u32>, term: Terminal) -> Theme {
    Theme { palette, colors: term_bridge::term_state(term).colors }
}

/// A color as `0x00RRGGBB`.
pub open spec fn packed(r: u8, g: u8, b: u8) -> u32 {
    (r * 0x1_0000 + g * 0x100 + b) as u32
}

/// The channels of a packed color.
pub open spec fn channels(v: u32) -> (u8, u8, u8) {
    ((v / 0x1_0000 % 0x100) as u8, (v / 0x100 % 0x100) as u8, (v % 0x100) as u8)
}

/// Packs a color as `0x00RRGGBB`.
pub fn pack(r: u8, g: u8, b: u8) -> (v: u32)
    ensures
        v == packed(r, g, b),
{
    let v: u32 = ((r as u32) << 16) | ((g as u32) << 8) | (b as u32);
    assert(v == r * 0x1_0000 + g * 0x100 + b) by (bit_vector)
        requires
            v == ((r as u32) << 16) | ((g as u32) << 8) | (b as u32),
    ;
    v
}

/// Splits a packed color into its channels; the top byte is ignored.
pub fn unpack(v: u32) -> (rgb: (u8, u8, u8))
    ensures
        rgb == channels(v),
{
    ((v / 0x1_0000 % 0x100) as u8, (v / 0x100 % 0x100) as u8, (v % 0x100) as u8)
}

/// Packing and splitting undo each other, and no packed color is the sentinel of
/// an unset cursor color.
pub proof fn law_pack_round_trip(r: u8, g: u8, b: u8, v: u32)
    ensures
        channels(packed(r, g, b)) == (r, g, b),
        v < 0x100_0000 ==> packed(channels(v).0, channels(v).1, channels(v).2) == v,
        packed(r, g, b) < 0x100_0000,
        packed(r, g, b) != CURSOR_COLOR_UNSET,
{
}

/// The luminance of a background, in ten-thousandths, is under the midpoint of
/// 128 by the weights of Rec. 709.
pub open spec fn is_dark(v: u32) -> bool {
    let c = channels(v);
    2126 * c.0 + 7152 * c.1 + 722 * c.2 < 128 * 10000
}

/// Whether a packed `0x00RRGGBB` background reads as "dark": it picks the value
/// of the OSC 997 color-scheme report. Rec. 709 relative luminance, midpoint 128.
pub fn is_dark_bg(v: u32) -> (r: bool)
    ensures
        r == is_dark(v),
{
    let (r, g, b): (u8, u8, u8) = unpack(v);
    2126 * (r as u32) + 7152 * (g as u32) + 722 * (b as u32) < 1_280_000
}

/// The color in a slot: what a program set, else `fallback`.
pub open spec fn live_color(t: Theme, slot: int, fallback: u32) -> u32 {
    if t.colors.contains_key(slot) {
        let c = t.colors[slot];
        packed(c.0, c.1, c.2)
    } else {
        fallback
    }
}

/// One of the 16 ANSI colors.
pub open spec fn ansi_color(t: Theme, i: int) -> u32 {
    live_color(t, i, t.palette[i])
}

/// The default foreground.
pub open spec fn foreground(t: Theme) -> u32 {
    live_color(t, COLOR_FOREGROUND as int, t.palette[16])
}

/// The default background.
pub open spec fn background(t: Theme) -> u32 {
    live_color(t, COLOR_BACKGROUND as int, t.palette[17])
}

/// The cursor color as the chrome shows it.
pub open spec fn cursor_chrome(t: Theme) -> u32 {
    live_color(t, COLOR_CURSOR as int, CURSOR_COLOR_UNSET)
}

/// The intensity of a step of the color cube.
pub open spec fn cube_step(v: int) -> u8 {
    if v == 0 {
        0
    } else {
        (55 + 40 * v) as u8
    }
}

/// A color of the 256-color table: ANSI, the 6x6x6 cube, the grayscale ramp.
pub open spec fn indexed_color(t: Theme, i: u8) -> u32 {
    if i < 16 {
        ansi_color(t, i as int)
    } else if i < 232 {
        let n = i - 16;
        packed(cube_step(n / 36), cube_step(n / 6 % 6), cube_step(n % 6))
    } else {
        let v = (8 + 10 * (i - 232)) as u8;
        packed(v, v, v)
    }
}

/// A named color. The dim colors show as their normal ones, and the bright and
/// the dim foreground as the foreground.
pub open spec fn named_color(t: Theme, slot: u16) -> u32 {
    if slot < 16 {
        ansi_color(t, slot as int)
    } else if slot == COLOR_BACKGROUND {
        background(t)
    } else if slot == COLOR_CURSOR {
        live_color(t, COLOR_CURSOR as int, t.palette[16])
    } else if 259 <= slot <= 266 {
        ansi_color(t, slot - 259)
    } else {
        foreground(t)
    }
}

/// A cell's color.
pub open spec fn shown_color(t: Theme, c: CellColor) -> u32 {
    match c {
        CellColor::Named(slot) => named_color(t, slot),
        CellColor::Spec(r, g, b) => packed(r, g, b),
        CellColor::Indexed(i) => indexed_color(t, i),
    }
}

/// The color that the configuration gives a slot.
pub open spec fn config_color(t: Theme, slot: int) -> u32 {
    if 0 <= slot < 16 {
        t.palette[slot]
    } else if 16 <= slot < 256 {
        indexed_color(t, slot as u8)
    } else if slot == COLOR_BACKGROUND {
        t.palette[17]
    } else {
        t.palette[16]
    }
}

/// The answer to a color query: what a program set, else what the configuration
/// gives the slot. There is none for a cursor color that was never set, nor for
/// a slot that does not exist.
pub open spec fn queried_color(t: Theme, slot: int) -> Option<(u8, u8, u8)> {
    if slot < 0 || slot >= COLOR_COUNT {
        None
    } else if t.colors.contains_key(slot) {
        Some(t.colors[slot])
    } else if slot == COLOR_CURSOR {
        None
    } else {
        Some(channels(config_color(t, slot)))
    }
}

/// Live packed color for a slot of the terminal's color table, honoring what a
/// program set at run time. Falls back to the configured value when unset.
pub fn live(term: &Terminal, slot: usize, fallback: u32) -> (r: u32)
    requires
        slot < COLOR_COUNT,
    ensures
        forall|palette: Seq<u32>|
            r == #[trigger] live_color(theme_of(palette, *term), slot as int, fallback),
{
    match color_at(term, slot) {
        Some((r, g, b)) => pack(r, g, b),
        None => fallback,
    }
}

/// One of the 16 ANSI colors.
pub fn ansi16(term: &Terminal, palette: &Vec<u32>, i: u8) -> (r: u32)
    requires
        palette@.len() == PALETTE_LEN,
        i < 16,
    ensures
        r == ansi_color(theme_of(palette@, *term), i as int),
{
    live(term, i as usize, palette[i as usize])
}

fn step(v: u8) -> (r: u8)
    requires
        v < 6,
    ensures
        r == cube_step(v as int),
{
    if v == 0 {
        0
    } else {
        55 + v * 40
    }
}

/// A color of the 256-color table.
pub fn xterm256(term: &Terminal, palette: &Vec<u32>, i: u8) -> (r: u32)
    requires
        palette@.len() == PALETTE_LEN,
    ensures
        r == indexed_color(theme_of(palette@, *term), i),
{
    if i < 16 {
        ansi16(term, palette, i)
    } else if i < 232 {
        let n: u8 = i - 16;
        assert(n % 36 / 6 == n / 6 % 6) by (bit_vector)
            requires
                n < 216,
        ;
        pack(step(n / 36), step(n % 36 / 6), step(n % 6))
    } else {
        let v: u8 = 8 + (i - 232) * 10;
        pack(v, v, v)
    }
}

/// A named color.
pub fn resolve_named(term: &Terminal, palette: &Vec<u32>, slot: u16) -> (r: u32)
    requires
        palette@.len() == PALETTE_LEN,
    ensures
        r == named_color(theme_of(palette@, *term), slot),
{
    if slot < 16 {
        ansi16(term, palette, slot as u8)
    } else if slot == COLOR_BACKGROUND {
        live(term, COLOR_BACKGROUND as usize, palette[17])
    } else if slot == COLOR_CURSOR {
        live(term, COLOR_CURSOR as usize, palette[16])
    } else if 259 <= slot && slot <= 266 {
        ansi16(term, palette, (slot - 259) as u8)
    } else {
        live(term, COLOR_FOREGROUND as usize, palette[16])
    }
}

/// A cell's color.
pub fn resolve_color(term: &Terminal, palette: &Vec<u32>, c: CellColor) -> (r: u32)
    requires
        palette@.len() == PALETTE_LEN,
    ensures
        r == shown_color(theme_of(palette@, *term), c),
{
    match c {
        CellColor::Named(slot) => resolve_named(term, palette, slot),
        CellColor::Spec(r, g, b) => pack(r, g, b),
        CellColor::Indexed(i) => xterm256(term, palette, i),
    }
}

/// Default foreground, default background and cursor color for the chrome. The
/// last is [`CURSOR_COLOR_UNSET`] unless a program set OSC 12.
pub fn chrome_colors(term: &Terminal, palette: &Vec<u32>) -> (r: (u32, u32, u32))
    requires
        palette@.len() == PALETTE_LEN,
    ensures
        r.0 == foreground(theme_of(palette@, *term)),
        r.1 == background(theme_of(palette@, *term)),
        r.2 == cursor_chrome(theme_of(palette@, *term)),
{
    (
        live(term, COLOR_FOREGROUND as usize, palette[16]),
        live(term, COLOR_BACKGROUND as usize, palette[17]),
        live(term, COLOR_CURSOR as usize, CURSOR_COLOR_UNSET),
    )
}

/// The color that the configuration gives a slot, for a query of a slot that no
/// program set.
pub fn config_default_rgb(term: &Terminal, palette: &Vec<u32>, slot: usize) -> (r: (u8, u8, u8))
    requires
        palette@.len() == PALETTE_LEN,
    ensures
        r == channels(config_color(theme_of(palette@, *term), slot as int)),
{
    let v: u32 = if slot < 16 {
        palette[slot]
    } else if slot < 256 {
        xterm256(term, palette, slot as u8)
    } else if slot == COLOR_BACKGROUND as usize {
        palette[17]
    } else {
        palette[16]
    };
    unpack(v)
}

/// Current color for an OSC color query. `None` means that no reply is owed: a
/// query of a cursor color that was never set is ignored.
pub fn query_color_rgb(term: &Terminal, palette: &Vec<u32>, slot: usize) -> (r: Option<
    (u8, u8, u8),
>)
    requires
        palette@.len() == PALETTE_LEN,
    ensures
        r == queried_color(theme_of(palette@, *term), slot as int),
{
    if slot >= COLOR_COUNT {
        return None;
    }
    match color_at(term, slot) {
        Some(rgb) => Some(rgb),
        None => if slot == COLOR_CURSOR as usize {
            None
        } else {
            Some(config_default_rgb(term, palette, slot))
        },
    }
}

} // verus!
