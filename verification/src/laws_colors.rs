//! What holds of colors and of the configuration, in plain numbers.

use crate::config;
use crate::config::EngineConfig;
use crate::palette;
use crate::palette::Theme;
use crate::term_model::CellColor;
use vstd::prelude::*;

verus! {

/// The number `0x00RRGGBB` of a color.
pub open spec fn rgb_number(c: (u8, u8, u8)) -> int {
    65536 * c.0 + 256 * c.1 + c.2
}

/// A slot shows the color that the program set for it, else the configured entry.
pub open spec fn shows_slot(t: Theme, slot: int, entry: int, shown: u32) -> bool {
    if t.colors.contains_key(slot) {
        shown == rgb_number(t.colors[slot])
    } else {
        shown == t.palette[entry]
    }
}

/// Red, green and blue stand in the third, the second and the lowest byte of a packed
/// color, and are read back from there; the top byte is not read.
pub proof fn law_channels_have_their_bytes(r: u8, g: u8, b: u8, top: u8)
    ensures
        palette::packed(r, g, b) == rgb_number((r, g, b)),
        palette::channels((0x100_0000 * top + rgb_number((r, g, b))) as u32) == (r, g, b),
{
    let v = 0x100_0000 * top + rgb_number((r, g, b));
    assert(v / 0x1_0000 == 256 * top + r);
    assert(v / 0x100 == 65536 * top + 256 * r + g);
}

/// Each of the 16 ANSI colors shows as what the program set for its slot, else as its own
/// palette entry, be it named or indexed.
pub proof fn law_ansi_colors_show_their_entries(t: Theme, slot: u16)
    requires
        slot < 16,
    ensures
        shows_slot(t, slot as int, slot as int, palette::shown_color(t, CellColor::Named(slot))),
        shows_slot(
            t,
            slot as int,
            slot as int,
            palette::shown_color(t, CellColor::Indexed(slot as u8)),
        ),
{
}

/// A dim color shows as the normal color that it dims, the bright and the dim foreground
/// as the foreground. The foreground, the background and the cursor show as what the
/// program set for them, else as the configured foreground, background and foreground.
pub proof fn law_special_colors_show_their_entries(t: Theme, dim: u16)
    requires
        dim < 8,
    ensures
        shows_slot(
            t,
            dim as int,
            dim as int,
            palette::shown_color(t, CellColor::Named((259 + dim) as u16)),
        ),
        shows_slot(t, 256, 16, palette::shown_color(t, CellColor::Named(256))),
        shows_slot(t, 256, 16, palette::shown_color(t, CellColor::Named(267))),
        shows_slot(t, 256, 16, palette::shown_color(t, CellColor::Named(268))),
        shows_slot(t, 257, 17, palette::shown_color(t, CellColor::Named(257))),
        shows_slot(t, 258, 16, palette::shown_color(t, CellColor::Named(258))),
{
}

/// A color that a cell spells out shows as it is.
pub proof fn law_direct_colors_show_as_they_are(t: Theme, r: u8, g: u8, b: u8)
    ensures
        palette::shown_color(t, CellColor::Spec(r, g, b)) == rgb_number((r, g, b)),
{
}

/// One of the six levels of a channel in the color cube.
pub open spec fn cube_level(step: int) -> int {
    if step == 0 {
        0
    } else {
        95 + 40 * (step - 1)
    }
}

/// The color cube has its red step in the thirty-sixes of the index, its green step in the
/// sixes and its blue step in the ones. What a program set for such a slot does not show.
pub proof fn law_cube_colors_have_their_levels(t: Theme, red: int, green: int, blue: int)
    requires
        0 <= red < 6,
        0 <= green < 6,
        0 <= blue < 6,
    ensures
        palette::shown_color(t, CellColor::Indexed((16 + 36 * red + 6 * green + blue) as u8))
            == 65536 * cube_level(red) + 256 * cube_level(green) + cube_level(blue),
{
    let n = 36 * red + 6 * green + blue;
    assert(n / 36 == red);
    assert(n / 6 == 6 * red + green);
    assert(n / 6 % 6 == green);
    assert(n % 6 == blue);
}

/// The grayscale ramp climbs from 8 to 238 in steps of ten.
pub proof fn law_gray_ramp_climbs(t: Theme, step: int)
    requires
        0 <= step < 24,
    ensures
        ({
            let level = 8 + 10 * step;
            palette::shown_color(t, CellColor::Indexed((232 + step) as u8)) == 65536 * level + 256
                * level + level
        }),
{
}

/// The chrome tells the default colors that cells show, and a cursor color only where a
/// program set one.
pub proof fn law_chrome_colors(t: Theme)
    ensures
        palette::foreground(t) == palette::shown_color(t, CellColor::Named(256)),
        palette::background(t) == palette::shown_color(t, CellColor::Named(257)),
        !t.colors.contains_key(258) ==> palette::cursor_chrome(t) == 0xFF00_0000,
        t.colors.contains_key(258) ==> palette::cursor_chrome(t) == rgb_number(t.colors[258]),
{
}

/// A color query is answered with the color that is shown for the slot. The cursor color
/// is told only where a program set it, and there is no answer for a slot that does not
/// exist.
pub proof fn law_query_tells_what_is_shown(t: Theme, slot: int)
    ensures
        t.colors.contains_key(slot) && 0 <= slot < 269 ==> palette::queried_color(t, slot) == Some(
            t.colors[slot],
        ),
        !t.colors.contains_key(slot) && 0 <= slot < 258 ==> {
            let shown = palette::shown_color(
                t,
                if slot < 256 {
                    CellColor::Indexed(slot as u8)
                } else {
                    CellColor::Named(slot as u16)
                },
            );
            palette::queried_color(t, slot) matches Some(c) && rgb_number(c) == shown % 0x100_0000
        },
        !t.colors.contains_key(258) ==> palette::queried_color(t, 258) is None,
        !t.colors.contains_key(slot) && 258 < slot < 269 ==> {
            palette::queried_color(t, slot) matches Some(c) && rgb_number(c) == t.palette[16]
                % 0x100_0000
        },
        slot < 0 || slot >= 269 ==> palette::queried_color(t, slot) is None,
{
    if !t.colors.contains_key(slot) && 0 <= slot < 269 {
        let v = palette::config_color(t, slot);
        let c = palette::channels(v);
        assert(rgb_number(c) == v % 0x100_0000) by {
            assert(v % 0x100_0000 == 65536 * (v / 0x1_0000 % 0x100) + 256 * (v / 0x100 % 0x100) + v
                % 0x100);
        }
    }
}

/// A background is dark where its luminance, by the weights 0.2126, 0.7152 and 0.0722, is
/// under 128. Making a channel darker never makes a dark background light.
pub proof fn law_dark_is_low_luminance(r: u8, g: u8, b: u8, r2: u8, g2: u8, b2: u8)
    ensures
        palette::is_dark(rgb_number((r, g, b)) as u32) <==> 2126 * r + 7152 * g + 722 * b
            < 1_280_000,
        palette::is_dark(rgb_number((r, g, b)) as u32) && r2 <= r && g2 <= g && b2 <= b
            ==> palette::is_dark(rgb_number((r2, g2, b2)) as u32),
{
    law_channels_have_their_bytes(r, g, b, 0);
    law_channels_have_their_bytes(r2, g2, b2, 0);
}

/// A grid is as large as was asked for, and never smaller than two columns and one row.
pub proof fn law_grid_size(columns: u16, rows: u16)
    ensures
        columns >= 2 ==> config::grid_size(columns, rows).0 == columns,
        columns < 2 ==> config::grid_size(columns, rows).0 == 2,
        rows >= 1 ==> config::grid_size(columns, rows).1 == rows,
        rows == 0 ==> config::grid_size(columns, rows).1 == 1,
{
}

/// A palette is taken whole where it has 18 entries, and not at all otherwise.
pub proof fn law_palette_is_taken_whole(sent: Seq<u32>, otherwise: Seq<u32>)
    ensures
        sent.len() == 18 ==> config::accepted_palette(sent, otherwise) == sent,
        sent.len() != 18 ==> config::accepted_palette(sent, otherwise) == otherwise,
{
}

/// The terminal gets the history, the word characters, the cursor and the clipboard policy
/// that the configuration asks for. A number that means nothing asks for a block cursor,
/// or for a clipboard that programs may only write.
pub proof fn law_options_are_those_asked_for(c: EngineConfig)
    ensures
        ({
            let o = config::options_of(c);
            &&& c.scrollback <= 0x7FFE_FFFF ==> o.history == c.scrollback
            &&& c.scrollback > 0x7FFE_FFFF ==> o.history == 0x7FFE_FFFF
            &&& o.escape_chars == c.semantic_escape_chars@
            &&& o.blinking == c.default_cursor_blinking
            &&& !o.kitty
            &&& o.shape is Underline <==> c.default_cursor_shape == 1
            &&& o.shape is Beam <==> c.default_cursor_shape == 2
            &&& o.shape is HollowBlock <==> c.default_cursor_shape == 3
            &&& o.shape is Hidden <==> c.default_cursor_shape == 4
            &&& o.shape is Block <==> c.default_cursor_shape == 0 || c.default_cursor_shape > 4
            &&& o.osc52 is Disabled <==> c.osc52 == 0
            &&& o.osc52 is OnlyPaste <==> c.osc52 == 2
            &&& o.osc52 is CopyPaste <==> c.osc52 == 3
            &&& o.osc52 is OnlyCopy <==> c.osc52 == 1 || c.osc52 > 3
        }),
{
}

/// The canonical palette: the 16 ANSI colors, then light gray on dark gray.
pub proof fn law_canonical_palette()
    ensures
        ({
            let p = config::standard_palette();
            &&& p.len() == 18
            &&& p[0] == 0x000000 && p[1] == 0xCC0000 && p[2] == 0x4E9A06 && p[3] == 0xC4A000
            &&& p[4] == 0x3465A4 && p[5] == 0x75507B && p[6] == 0x06989A && p[7] == 0xD3D7CF
            &&& p[8] == 0x555753 && p[9] == 0xEF2929 && p[10] == 0x8AE234 && p[11] == 0xFCE94F
            &&& p[12] == 0x729FCF && p[13] == 0xAD7FA8 && p[14] == 0x34E2E2 && p[15] == 0xEEEEEC
            &&& p[16] == 0xD8D8D8 && p[17] == 0x181818
        }),
{
}

} // verus!
