//! The damage-driven view protocol: what one engine mutation tells the painter.

use vstd::prelude::*;

verus! {

/// Sentinel `viewport_row` for overscan lines (partial scroll with fractional offset).
pub const OVERSCAN_LINE_TAG: u32 = 0xFFFF_FFFF;

/// Per-frame chrome: cursor, mode, scroll state, and default colors.
#[derive(Clone, Debug)]
pub struct ViewChrome {
    pub cursor_line: u32,
    pub cursor_col: u32,
    pub cursor_visible: bool,
    pub cursor_shape: u8,
    pub cursor_blinking: bool,
    pub mode_flags: u32,
    pub display_offset: u32,
    pub history_size: u32,
    /// The sub-cell scroll position, as the bits of a double.
    pub scroll_fraction: u64,
    /// Viewport ring rotation hint; 0 = none.
    pub scroll_rotate: i32,
    pub default_fg: u32,
    pub default_bg: u32,
    pub cursor_color: u32,
}

/// Column-range damage for one viewport row.
///
/// `start_col` and `end_col` are both inclusive.
#[derive(Clone, Debug)]
pub struct RowDamage {
    /// 0..rows-1, or [`OVERSCAN_LINE_TAG`] for overscan.
    pub viewport_row: u32,
    pub start_col: u16,
    pub end_col: u16,
    pub codepoints: Vec<u32>,
    pub fg: Vec<u32>,
    pub bg: Vec<u32>,
    pub flags: Vec<u16>,
    pub hyperlink_id: Vec<u32>,
}

impl RowDamage {
    /// Each attribute holds one entry for each column of the range.
    pub open spec fn wf(&self) -> bool {
        let n = self.end_col - self.start_col + 1;
        &&& self.start_col <= self.end_col
        &&& self.codepoints@.len() == n
        &&& self.fg@.len() == n
        &&& self.bg@.len() == n
        &&& self.flags@.len() == n
        &&& self.hyperlink_id@.len() == n
    }
}

/// Search match highlight span in viewport coordinates.
#[derive(Clone, Debug)]
pub struct SearchSpan {
    pub viewport_row: u32,
    pub start_col: u16,
    pub end_col: u16,
    pub is_current: bool,
}

/// Single damage-driven view update emitted per engine mutation.
#[derive(Clone, Debug)]
pub struct ViewFrame {
    pub chrome: ViewChrome,
    pub damage: Vec<RowDamage>,
    pub search_spans: Vec<SearchSpan>,
    /// Resize / explicit invalidate: the painter must scan all rows.
    pub full_viewport: bool,
}

} // verus!
