//! The engine's configuration.

use crate::palette::PALETTE_LEN;
use crate::term_model::{ClipboardPolicy, CursorKind, OptionsView, TermOptions, MAX_HISTORY};
use vstd::prelude::*;
use vstd::string::*;

verus! {

/// Smallest grid the terminal can represent. A fullwidth glyph takes a cell and
/// its trailing spacer, so a row has to hold both.
pub const MIN_COLUMNS: u16 = 2;

pub const MIN_SCREEN_LINES: u16 = 1;

/// The default foreground of [`EngineConfig::default_palette`].
pub const DEFAULT_FG: u32 = 0x00D8_D8D8;

/// The default background of [`EngineConfig::default_palette`].
pub const DEFAULT_BG: u32 = 0x0018_1818;

/// Configuration passed by the host at engine creation.
/// `palette` is length 18: `[0..15]` = ANSI colors, `[16]` = default fg, `[17]` =
/// default bg (each packed 0x00RRGGBB). `scrollback` = max history lines.
#[derive(Clone, Debug)]
pub struct EngineConfig {
    pub palette: Vec<u32>,
    pub scrollback: u32,
    pub osc52: u8,
    pub semantic_escape_chars: String,
    pub default_cursor_shape: u8,
    pub default_cursor_blinking: bool,
}

/// The canonical palette.
pub open spec fn standard_palette() -> Seq<u32> {
    seq![
        0x0000_0000u32,
        0x00CC_0000,
        0x004E_9A06,
        0x00C4_A000,
        0x0034_65A4,
        0x0075_507B,
        0x0006_989A,
        0x00D3_D7CF,
        0x0055_5753,
        0x00EF_2929,
        0x008A_E234,
        0x00FC_E94F,
        0x0072_9FCF,
        0x00AD_7FA8,
        0x0034_E2E2,
        0x00EE_EEEC,
        DEFAULT_FG,
        DEFAULT_BG,
    ]
}

/// The palette in use once the host sent `sent`: it is taken where it has the
/// right length.
pub open spec fn accepted_palette(sent: Seq<u32>, otherwise: Seq<u32>) -> Seq<u32> {
    if sent.len() == PALETTE_LEN {
        sent
    } else {
        otherwise
    }
}

impl EngineConfig {
    /// The canonical palette (ANSI 0-15, then default fg, default bg).
    pub fn default_palette() -> (r: [u32; 18])
        ensures
            r@ == standard_palette(),
    {
        let r: [u32; 18] = [
            0x0000_0000,
            0x00CC_0000,
            0x004E_9A06,
            0x00C4_A000,
            0x0034_65A4,
            0x0075_507B,
            0x0006_989A,
            0x00D3_D7CF,
            0x0055_5753,
            0x00EF_2929,
            0x008A_E234,
            0x00FC_E94F,
            0x0072_9FCF,
            0x00AD_7FA8,
            0x0034_E2E2,
            0x00EE_EEEC,
            DEFAULT_FG,
            DEFAULT_BG,
        ];
        assert(r@ =~= standard_palette());
        r
    }

    /// The canonical palette as a vector.
    pub(crate) fn default_palette_vec() -> (r: Vec<u32>)
        ensures
            r@ == standard_palette(),
    {
        let table: [u32; 18] = EngineConfig::default_palette();
        let mut r: Vec<u32> = Vec::with_capacity(PALETTE_LEN);
        let mut i: usize = 0;
        while i < PALETTE_LEN
            invariant
                i <= PALETTE_LEN == table@.len(),
                r@ == table@.take(i as int),
            decreases PALETTE_LEN - i,
        {
            r.push(table[i]);
            i = i + 1;
            assert(r@ =~= table@.take(i as int));
        }
        assert(table@.take(PALETTE_LEN as int) =~= table@);
        r
    }

    /// The configuration that stands where the host sends none.
    pub fn defaults() -> (r: EngineConfig)
        ensures
            r.palette@ == standard_palette(),
            r.scrollback == 10000,
            r.osc52 == 1,
            r.semantic_escape_chars@ == ",│`|:\"' ()[]{}<>\t"@,
            r.default_cursor_shape == 0,
            !r.default_cursor_blinking,
    {
        EngineConfig {
            palette: EngineConfig::default_palette_vec(),
            scrollback: 10000,
            osc52: 1,
            semantic_escape_chars: String::from_str(",│`|:\"' ()[]{}<>\t"),
            default_cursor_shape: 0,
            default_cursor_blinking: false,
        }
    }
}

/// The clipboard policy of a configuration.
pub open spec fn policy_of(osc52: u8) -> ClipboardPolicy {
    if osc52 == 0 {
        ClipboardPolicy::Disabled
    } else if osc52 == 2 {
        ClipboardPolicy::OnlyPaste
    } else if osc52 == 3 {
        ClipboardPolicy::CopyPaste
    } else {
        ClipboardPolicy::OnlyCopy
    }
}

/// The cursor shape of a configuration.
pub open spec fn shape_of(shape: u8) -> CursorKind {
    if shape == 1 {
        CursorKind::Underline
    } else if shape == 2 {
        CursorKind::Beam
    } else if shape == 3 {
        CursorKind::HollowBlock
    } else if shape == 4 {
        CursorKind::Hidden
    } else {
        CursorKind::Block
    }
}

/// The terminal options of a configuration. The history is as long as asked for,
/// up to what the terminal can number.
pub open spec fn options_of(c: EngineConfig) -> OptionsView {
    OptionsView {
        history: if c.scrollback < MAX_HISTORY {
            c.scrollback as usize
        } else {
            MAX_HISTORY
        },
        escape_chars: c.semantic_escape_chars@,
        shape: shape_of(c.default_cursor_shape),
        blinking: c.default_cursor_blinking,
        osc52: policy_of(c.osc52),
        kitty: false,
    }
}

/// Turns a configuration into terminal options.
pub fn build_term_options(c: &EngineConfig) -> (r: TermOptions)
    ensures
        r@ == options_of(*c),
{
    let osc52: ClipboardPolicy = match c.osc52 {
        0 => ClipboardPolicy::Disabled,
        2 => ClipboardPolicy::OnlyPaste,
        3 => ClipboardPolicy::CopyPaste,
        _ => ClipboardPolicy::OnlyCopy,
    };
    let shape: CursorKind = match c.default_cursor_shape {
        1 => CursorKind::Underline,
        2 => CursorKind::Beam,
        3 => CursorKind::HollowBlock,
        4 => CursorKind::Hidden,
        _ => CursorKind::Block,
    };
    let history: usize = if (c.scrollback as usize) < MAX_HISTORY {
        c.scrollback as usize
    } else {
        MAX_HISTORY
    };
    TermOptions {
        history,
        escape_chars: c.semantic_escape_chars.clone(),
        shape,
        blinking: c.default_cursor_blinking,
        osc52,
    }
}

/// The size of the grid that stands for a requested size.
pub open spec fn grid_size(columns: u16, rows: u16) -> (int, int) {
    (
        if columns < MIN_COLUMNS {
            MIN_COLUMNS as int
        } else {
            columns as int
        },
        if rows < MIN_SCREEN_LINES {
            MIN_SCREEN_LINES as int
        } else {
            rows as int
        },
    )
}

/// The only place where a `(columns, rows)` pair becomes grid geometry. Clamps to
/// the terminal's minimum, so an invalid grid size is unrepresentable past it.
pub fn clamped_term_size(columns: u16, rows: u16) -> (r: (usize, usize))
    ensures
        r.0 == grid_size(columns, rows).0,
        r.1 == grid_size(columns, rows).1,
        2 <= r.0 <= 65535,
        1 <= r.1 <= 65535,
{
    (
        if columns < MIN_COLUMNS {
            MIN_COLUMNS as usize
        } else {
            columns as usize
        },
        if rows < MIN_SCREEN_LINES {
            MIN_SCREEN_LINES as usize
        } else {
            rows as usize
        },
    )
}

} // verus!
