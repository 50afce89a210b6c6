use rust_lib_flutter_alacritty::engine::{
    CellData, LineUpdate, RawLine, FLAG_BOLD, FLAG_DIM, FLAG_INVERSE, FLAG_ITALIC, FLAG_MATCH,
    FLAG_MATCH_CURRENT, FLAG_SELECTED, FLAG_STRIKEOUT, FLAG_UNDERLINE, FLAG_WIDE, FLAG_WIDE_SPACER,
};
use rust_lib_flutter_alacritty::palette::{is_dark_bg, pack, unpack, CURSOR_COLOR_UNSET};
use rust_lib_flutter_alacritty::screen::{
    apply_wide_selection_pair, map_flags, mark_matches, point_in_range, LinkTable,
};
use rust_lib_flutter_alacritty::term_model::CellRange;

fn cell(flags: u16) -> CellData {
    CellData { codepoint: 65, fg: 1, bg: 2, flags, hyperlink_id: 0 }
}

fn range(start_line: i32, start_col: usize, end_line: i32, end_col: usize) -> CellRange {
    CellRange { start_line, start_col, end_line, end_col }
}

fn bound(flags: &[u16]) -> Vec<u16> {
    let mut cells: Vec<CellData> = flags.iter().map(|f| cell(*f)).collect();
    apply_wide_selection_pair(&mut cells);
    cells.iter().map(|c| c.flags).collect()
}

#[test]
fn colors_pack_and_unpack() {
    assert_eq!(pack(0x12, 0x34, 0x56), 0x0012_3456);
    assert_eq!(unpack(0x0012_3456), (0x12, 0x34, 0x56));
    assert_eq!(unpack(0xFF12_3456), (0x12, 0x34, 0x56));
    assert_eq!(pack(255, 255, 255), 0x00FF_FFFF);
    for v in [0, 1, 0x00FF_0000, 0x0000_FF00, 0x00AB_CDEF] {
        let (r, g, b) = unpack(v);
        assert_eq!(pack(r, g, b), v);
        assert_ne!(pack(r, g, b), CURSOR_COLOR_UNSET);
    }
}

#[test]
fn dark_backgrounds_are_those_under_the_midpoint() {
    assert!(is_dark_bg(0x0018_1818));
    assert!(!is_dark_bg(0x00FF_FFFF));
    assert!(is_dark_bg(0x007F_7F7F));
    assert!(!is_dark_bg(0x0080_8080));
    // Red and blue alone never reach the midpoint, green alone does.
    assert!(is_dark_bg(0x00FF_00FF));
    assert!(!is_dark_bg(0x0000_FF00));
    for r in (0..=255u32).step_by(5) {
        for g in (0..=255u32).step_by(3) {
            for b in (0..=255u32).step_by(7) {
                let luminance = 0.2126 * r as f64 + 0.7152 * g as f64 + 0.0722 * b as f64;
                if (luminance - 128.0).abs() > 1e-9 {
                    assert_eq!(is_dark_bg(r << 16 | g << 8 | b), luminance < 128.0);
                }
            }
        }
    }
}

#[test]
fn attributes_map_to_flags() {
    assert_eq!(map_flags(0), 0);
    assert_eq!(map_flags(0x0001), FLAG_INVERSE);
    assert_eq!(map_flags(0x0002), FLAG_BOLD);
    assert_eq!(map_flags(0x0004), FLAG_ITALIC);
    for underline in [0x0008, 0x0800, 0x1000, 0x2000, 0x4000] {
        assert_eq!(map_flags(underline), FLAG_UNDERLINE);
    }
    assert_eq!(map_flags(0x0020), FLAG_WIDE);
    assert_eq!(map_flags(0x0040), FLAG_WIDE_SPACER);
    assert_eq!(map_flags(0x0080), FLAG_DIM);
    assert_eq!(map_flags(0x0200), FLAG_STRIKEOUT);
    // Wrapped lines, hidden cells and placeholders have no flag.
    assert_eq!(map_flags(0x0010 | 0x0100 | 0x0400), 0);
    assert_eq!(map_flags(0xFFFF), 0x00FF);
}

#[test]
fn either_half_selects_the_glyph() {
    let (w, s, sel) = (FLAG_WIDE, FLAG_WIDE_SPACER, FLAG_SELECTED);
    assert_eq!(bound(&[w | sel, s, 0]), vec![w | sel, s | sel, 0]);
    assert_eq!(bound(&[w, s | sel, 0]), vec![w | sel, s | sel, 0]);
    assert_eq!(bound(&[w, s, sel]), vec![w, s, sel]);
    assert_eq!(bound(&[w | sel, 0]), vec![w | sel, 0]);
    assert_eq!(bound(&[sel, s]), vec![sel, s]);
    assert_eq!(bound(&[w, s, w, s | sel]), vec![w, s, w | sel, s | sel]);
    assert_eq!(bound(&[]), Vec::<u16>::new());
    assert_eq!(bound(&[sel]), vec![sel]);
    // A cell that is both carries the selection on.
    assert_eq!(bound(&[w | sel, w | s, s]), vec![w | sel, w | s | sel, s | sel]);
}

#[test]
fn ranges_are_in_reading_order() {
    let r = range(1, 5, 3, 2);
    assert!(!point_in_range(1, 4, &r));
    assert!(point_in_range(1, 5, &r));
    assert!(point_in_range(2, 0, &r));
    assert!(point_in_range(2, 900, &r));
    assert!(point_in_range(3, 2, &r));
    assert!(!point_in_range(3, 3, &r));
    assert!(!point_in_range(0, 6, &r));
    assert!(!point_in_range(4, 0, &r));
}

#[test]
fn lines_read_back_cell_by_cell() {
    let cells = vec![cell(1), CellData { codepoint: 66, fg: 3, bg: 4, flags: 5, hyperlink_id: 6 }];
    let line = LineUpdate::from_cells(9, cells.clone());
    assert_eq!(line.line, 9);
    assert_eq!(line.len(), 2);
    assert_eq!(line.cell(0), cells[0]);
    assert_eq!(line.cell(1), cells[1]);
    let packed = RawLine { line: 3, cells }.pack();
    assert_eq!(packed.line, 3);
    assert_eq!(packed.codepoints, vec![65, 66]);
    assert_eq!(packed.hyperlink_id, vec![0, 6]);
}

#[test]
fn hyperlink_ids_are_stable() {
    let mut table = LinkTable::new();
    assert_eq!(table.id_of("a"), 0);
    assert_eq!(table.intern_hyperlink(&"a".to_string()), 1);
    assert_eq!(table.intern_hyperlink(&"b".to_string()), 2);
    assert_eq!(table.intern_hyperlink(&"a".to_string()), 1);
    assert_eq!(table.id_of("b"), 2);
    assert_eq!(table.resolve(1).as_deref(), Some("a"));
    assert_eq!(table.resolve(2).as_deref(), Some("b"));
    assert_eq!(table.resolve(0), None);
    assert_eq!(table.resolve(3), None);
    assert_eq!(table.resolve(u32::MAX), None);
}

#[test]
fn matches_are_highlighted_by_grid_line() {
    let lines: Vec<LineUpdate> =
        (0..3).map(|row| LineUpdate::from_cells(row, vec![cell(FLAG_BOLD); 4])).collect();
    // The viewport is scrolled up by one line: row 0 shows grid line -1.
    let marked =
        mark_matches(&lines, 1, &vec![range(-1, 1, -1, 2), range(0, 3, 1, 0)], Some(range(0, 3, 1, 0)));
    let (m, c) = (FLAG_BOLD | FLAG_MATCH, FLAG_BOLD | FLAG_MATCH | FLAG_MATCH_CURRENT);
    assert_eq!(marked[0].flags, vec![FLAG_BOLD, m, m, FLAG_BOLD]);
    assert_eq!(marked[1].flags, vec![FLAG_BOLD, FLAG_BOLD, FLAG_BOLD, c]);
    assert_eq!(marked[2].flags, vec![c, FLAG_BOLD, FLAG_BOLD, FLAG_BOLD]);
    assert_eq!(marked[2].codepoints, lines[2].codepoints);
}
