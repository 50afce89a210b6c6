use rust_lib_flutter_alacritty::config::{MIN_COLUMNS, MIN_SCREEN_LINES};
use rust_lib_flutter_alacritty::engine::{
    EngineConfig, EngineEvent, LineUpdate, RenderUpdate, TerminalEngine, CURSOR_COLOR_UNSET,
    FLAG_DIM, FLAG_HYPERLINK, FLAG_MATCH, FLAG_MATCH_CURRENT, FLAG_SELECTED, FLAG_STRIKEOUT,
    FLAG_WIDE, FLAG_WIDE_SPACER, OVERSCAN_LINE_TAG,
};

/// Cell height that stands in for the real one until the host reports it.
const DEFAULT_CELL_HEIGHT_PX: f64 = 16.0;

/// Scrolls by pixels, as a host does: it adds them up to the fraction of a cell.
fn scroll_pixels(e: &mut TerminalEngine, delta_px: f64) -> RenderUpdate {
    if e.cell_height() == 0 {
        return e.scroll_pixels((delta_px / DEFAULT_CELL_HEIGHT_PX).round() as i32, 0);
    }
    let total = f64::from_bits(e.scroll_fraction()) + delta_px / e.cell_height() as f64;
    let (lines, rest) = (total.floor(), total - total.floor());
    if rest < 1.0 {
        e.scroll_pixels(lines as i32, rest.to_bits())
    } else {
        // The rest of a sum just below a line rounds up to that line.
        e.scroll_pixels((lines + 1.0) as i32, 0)
    }
}

/// The sub-cell scroll position of an update.
fn fraction(u: &RenderUpdate) -> f64 {
    f64::from_bits(u.scroll_fraction)
}

fn engine(cols: u16, rows: u16) -> TerminalEngine {
    TerminalEngine::new(cols, rows, EngineConfig::defaults())
}

fn line<'a>(u: &'a RenderUpdate, row: u32) -> &'a LineUpdate {
    u.lines.iter().find(|l| l.line == row).expect("line present")
}
fn ch(u: &RenderUpdate, row: u32, col: usize) -> char {
    char::from_u32(line(u, row).cell(col).codepoint).unwrap()
}

fn pty_writes(e: &mut TerminalEngine) -> Vec<Vec<u8>> {
    e.take_events()
        .into_iter()
        .filter_map(|ev| match ev {
            EngineEvent::PtyWrite(b) => Some(b),
            _ => None,
        })
        .collect()
}

#[test]
fn osc11_set_changes_default_bg_and_cells() {
    let mut e = engine(10, 3);
    // OSC 11 ; rgb:ff/00/00  (set default background to pure red), ST-terminated.
    e.advance(b"\x1b]11;rgb:ff/00/00\x1b\\".to_vec());
    let u = e.full_snapshot();
    assert_eq!(u.default_bg, 0x00FF_0000, "chrome default_bg follows OSC 11");
    // A blank cell (no explicit bg) must repack to the live default bg.
    assert_eq!(line(&u, 0).cell(0).bg, 0x00FF_0000, "blank cell uses live bg");
}

#[test]
fn degenerate_size_clamps_to_vt_minimum_and_never_panics() {
    // Regression: a 1-column grid panics `cursor_cell` when `Term::input`
    // writes a fullwidth glyph's trailing spacer past the row end. Both the
    // constructor and resize must clamp to the VT minimum at the boundary.
    let mut e = engine(1, 1);
    assert!(e.columns() >= MIN_COLUMNS as usize, "new() clamps columns");
    assert!(e.screen_lines() >= MIN_SCREEN_LINES as usize, "new() clamps rows");
    // Fullwidth (CJK) + ASCII into the formerly-degenerate grid: no panic.
    e.advance("界A".as_bytes().to_vec());

    // A live resize down to one column must clamp too, then tolerate output.
    e.resize(1, 1);
    assert!(e.columns() >= MIN_COLUMNS as usize, "resize() clamps columns");
    e.advance("界".as_bytes().to_vec());
}

#[test]
fn osc111_reset_reverts_default_bg_to_config() {
    let mut e = engine(10, 3);
    e.advance(b"\x1b]11;rgb:ff/00/00\x1b\\".to_vec());
    e.advance(b"\x1b]111\x1b\\".to_vec()); // reset default background
    let u = e.full_snapshot();
    assert_eq!(u.default_bg, EngineConfig::default_palette()[17]);
}

#[test]
fn cursor_color_unset_sentinel_then_osc12() {
    let mut e = engine(10, 3);
    assert_eq!(e.full_snapshot().cursor_color, CURSOR_COLOR_UNSET);
    e.advance(b"\x1b]12;rgb:00/ff/00\x1b\\".to_vec()); // set cursor color green
    assert_eq!(e.full_snapshot().cursor_color, 0x0000_FF00);
}

#[test]
fn osc11_query_emits_background_reply() {
    let mut e = engine(10, 3);
    e.advance(b"\x1b]11;?\x1b\\".to_vec()); // query default background
    let writes = pty_writes(&mut e);
    assert_eq!(writes.len(), 1, "exactly one reply");
    assert!(
        writes[0].starts_with(b"\x1b]11;rgb:"),
        "OSC 11 reply prefix, got {:?}",
        String::from_utf8_lossy(&writes[0])
    );
}

#[test]
fn osc11_query_reflects_live_color() {
    let mut e = engine(10, 3);
    e.advance(b"\x1b]11;rgb:ff/00/00\x1b\\".to_vec()); // set red
    let _ = e.take_events(); // drain set (no reply for SET)
    e.advance(b"\x1b]11;?\x1b\\".to_vec()); // query
    let writes = pty_writes(&mut e);
    let s = String::from_utf8_lossy(&writes[0]);
    assert!(s.contains("rgb:ffff/0000/0000"), "reply carries SET value, got {s}");
}

#[test]
fn osc12_query_ignored_when_cursor_unset() {
    let mut e = engine(10, 3);
    e.advance(b"\x1b]12;?\x1b\\".to_vec()); // query cursor color, never set
    assert!(pty_writes(&mut e).is_empty(), "unset cursor query is dropped (alacritty parity)");
}

/// EngineConfig whose default background is `bg` (packed RGB); rest defaults.
fn config_with_bg(bg: u32) -> EngineConfig {
    let mut palette = EngineConfig::default_palette().to_vec();
    palette[17] = bg;
    EngineConfig {
        palette,
        ..EngineConfig::defaults()
    }
}

const COLOR_SCHEME_DARK: &[u8] = b"\x1b]997;1\x1b\\";
const COLOR_SCHEME_LIGHT: &[u8] = b"\x1b]997;2\x1b\\";

#[test]
fn mode2031_subscribe_reports_current_scheme() {
    // Default config bg (0x181818) is dark → report "1".
    let mut e = engine(10, 3);
    e.advance(b"\x1b[?2031h".to_vec());
    assert_eq!(pty_writes(&mut e), vec![COLOR_SCHEME_DARK.to_vec()]);
}

#[test]
fn mode2031_reconfigure_pushes_update_when_subscribed() {
    let mut e = engine(10, 3);
    e.advance(b"\x1b[?2031h".to_vec());
    let _ = e.take_events(); // drain the subscribe report
    // Switch to a light themed palette: the running TUI must be told.
    e.reconfigure(config_with_bg(0x00FF_FFFF));
    assert_eq!(pty_writes(&mut e), vec![COLOR_SCHEME_LIGHT.to_vec()]);
}

#[test]
fn mode2031_reconfigure_silent_when_not_subscribed() {
    let mut e = engine(10, 3);
    e.reconfigure(config_with_bg(0x00FF_FFFF));
    assert!(pty_writes(&mut e).is_empty(), "no report without a subscriber");
}

#[test]
fn mode2031_unsubscribe_stops_updates() {
    let mut e = engine(10, 3);
    e.advance(b"\x1b[?2031h".to_vec());
    e.advance(b"\x1b[?2031l".to_vec());
    let _ = e.take_events();
    e.reconfigure(config_with_bg(0x00FF_FFFF));
    assert!(pty_writes(&mut e).is_empty(), "unsubscribed program gets no updates");
}

#[test]
fn writes_plain_text_into_the_grid() {
    let mut e = engine(20, 5);
    e.advance(b"hi".to_vec());
    let u = e.full_snapshot();
    assert_eq!(u.columns(), 20);
    // screen_lines (5) viewport rows + 1 trailing overscan row.
    assert_eq!(u.lines.len(), 6);
    assert_eq!(ch(&u, 0, 0), 'h');
    assert_eq!(ch(&u, 0, 1), 'i');
    assert!(u.full);
}

#[test]
fn applies_sgr_foreground_color() {
    let mut e = engine(20, 5);
    e.advance(b"\x1b[31mR".to_vec());
    let u = e.full_snapshot();
    let c = &line(&u, 0).cell(0);
    assert_eq!(char::from_u32(c.codepoint).unwrap(), 'R');
    assert_eq!(c.fg & 0x00FF_FFFF, 0x00CC_0000);
}

#[test]
fn newline_moves_to_next_row() {
    let mut e = engine(20, 5);
    e.advance(b"a\r\nb".to_vec());
    let u = e.full_snapshot();
    assert_eq!(ch(&u, 0, 0), 'a');
    assert_eq!(ch(&u, 1, 0), 'b');
}

#[test]
fn resize_changes_reported_dimensions() {
    let mut e = engine(20, 5);
    e.resize(40, 10);
    let u = e.full_snapshot();
    assert_eq!(u.columns(), 40);
    assert_eq!(u.lines.len(), 11); // 10 viewport + 1 overscan
    assert_eq!(line(&u, 0).len(), 40);
}

#[test]
fn damage_reports_only_changed_lines_then_resets() {
    let mut e = engine(20, 5);
    e.advance(b"hi".to_vec());
    let u = e.take_damage();
    assert!(!u.full);
    assert!(u.lines.iter().any(|l| l.line == 0));
    assert_eq!(
        char::from_u32(
            u.lines
                .iter()
                .find(|l| l.line == 0)
                .unwrap()
                .cell(0)
                .codepoint
        )
        .unwrap(),
        'h'
    );
    // Second read after reset: no new cell writes; alacritty_terminal may still
    // report cursor-cell damage from `damage()` (at most one line).
    let u2 = e.take_damage();
    assert!(!u2.full);
    assert!(u2.lines.len() <= 1);
}

#[test]
fn resize_forces_full_damage() {
    let mut e = engine(20, 5);
    e.take_damage(); // drain initial
    e.resize(30, 6);
    let u = e.take_damage();
    assert!(u.full);
    assert_eq!(u.lines.len(), 7); // 6 viewport + 1 overscan
}

#[test]
fn wide_char_sets_wide_and_spacer_flags() {
    let mut e = engine(20, 5);
    e.advance("中".as_bytes().to_vec());
    let u = e.full_snapshot();
    let row0 = line(&u, 0);
    assert_eq!(char::from_u32(row0.cell(0).codepoint).unwrap(), '中');
    assert_ne!(row0.cell(0).flags & FLAG_WIDE, 0, "lead cell must be WIDE_CHAR");
    assert_ne!(
        row0.cell(1).flags & FLAG_WIDE_SPACER,
        0,
        "the cell after a wide char must be WIDE_CHAR_SPACER"
    );
    assert_eq!(
        char::from_u32(row0.cell(1).codepoint).unwrap(),
        ' ',
        "WIDE_CHAR_SPACER cell.c is a space placeholder"
    );
}

#[test]
fn cursor_style_shape_and_blinking_exposed() {
    let mut e = engine(20, 5);
    e.advance(b"\x1b[5 q".to_vec()); // DECSCUSR 5 = blinking bar (beam)
    let u = e.full_snapshot();
    assert_eq!(u.cursor_shape, 2); // beam
    assert!(u.cursor_blinking);

    let mut e2 = engine(20, 5);
    e2.advance(b"\x1b[2 q".to_vec()); // 2 = steady block
    let u2 = e2.full_snapshot();
    assert_eq!(u2.cursor_shape, 0); // block
    assert!(!u2.cursor_blinking);
}

#[test]
fn maps_dim_and_strikeout_flags() {
    let mut e = engine(20, 5);
    e.advance(b"\x1b[2mD".to_vec()); // SGR 2 = dim
    assert_ne!(line(&e.full_snapshot(), 0).cell(0).flags & FLAG_DIM, 0);

    let mut e2 = engine(20, 5);
    e2.advance(b"\x1b[9mS".to_vec()); // SGR 9 = strikeout
    assert_ne!(
        line(&e2.full_snapshot(), 0).cell(0).flags & FLAG_STRIKEOUT,
        0
    );
}

#[test]
fn mode_flags_reflect_private_modes() {
    let mut e = engine(20, 5);
    e.advance(b"\x1b[?1h".to_vec()); // DECCKM -> APP_CURSOR (1<<1)
    assert_ne!(e.full_snapshot().mode_flags & (1 << 1), 0);
    e.advance(b"\x1b[?2004h".to_vec()); // bracketed paste (1<<4)
    assert_ne!(e.full_snapshot().mode_flags & (1 << 4), 0);
    e.advance(b"\x1b[?1l".to_vec()); // reset DECCKM
    assert_eq!(e.full_snapshot().mode_flags & (1 << 1), 0);
}

#[test]
fn scroll_shows_history_then_returns_to_bottom() {
    let mut e = engine(10, 3); // 3 visible rows
    for i in 0..10 {
        e.advance(format!("line{}\r\n", i).into_bytes());
    }
    // At bottom: latest lines visible, offset 0.
    assert_eq!(e.full_snapshot().display_offset, 0);

    e.scroll_lines(2); // scroll up 2 lines into history
    let u = e.full_snapshot();
    assert_eq!(u.display_offset, 2);
    // Row 0 now shows an older line than it did at the bottom.
    let row0: String = u.lines.iter().find(|l| l.line == 0).unwrap()
        .codepoints.iter().map(|c| char::from_u32(*c).unwrap()).collect();
    assert!(row0.trim_end().starts_with("line"));
    // Cursor is hidden while scrolled back.
    assert!(!u.cursor_visible);

    e.scroll_to_bottom();
    assert_eq!(e.full_snapshot().display_offset, 0);
}

#[test]
fn scroll_refresh_ships_edge_rows_not_full_grid() {
    let mut e = engine(10, 5);
    for i in 0..20 {
        e.advance(format!("{:02}\r\n", i).into_bytes());
    }
    let u = e.scroll_lines(1);
    assert!(!u.full);
    assert_eq!(u.scroll_line_delta, 1);
    assert_eq!(u.lines.len(), 2, "viewport edge + overscan");
    assert!(u.lines.iter().any(|l| l.line == 0));
    assert!(u.lines.iter().any(|l| l.line == OVERSCAN_LINE_TAG));
    let scrolled_full = e.full_snapshot();
    let edge = u.lines.iter().find(|l| l.line == 0).unwrap();
    let full_r0 = scrolled_full.lines.iter().find(|l| l.line == 0).unwrap();
    assert_eq!(edge.codepoints, full_r0.codepoints);
}

#[test]
fn selection_text_and_selected_flag() {
    let mut e = engine(20, 3);
    e.advance(b"hello world".to_vec());
    e.selection_start(0, 0, false, 0); // simple, row 0 col 0, left side
    e.selection_update(0, 4, true); // through col 4, right side -> "hello"
    let txt = e.selection_text().unwrap();
    assert!(txt.starts_with("hello"), "got {:?}", txt);

    let u = e.full_snapshot();
    let row0 = u.lines.iter().find(|l| l.line == 0).unwrap();
    assert_ne!(row0.cell(0).flags & FLAG_SELECTED, 0);
    assert_ne!(row0.cell(4).flags & FLAG_SELECTED, 0);
    assert_eq!(row0.cell(10).flags & FLAG_SELECTED, 0); // 'd' not selected

    e.selection_clear();
    assert!(e.selection_text().is_none());
}

#[test]
fn wide_char_selection_never_splits_glyph() {
    // "中文" occupies cols 0-1 (中: WIDE lead + WIDE_SPACER) and 2-3 (文: ditto).
    // A drag edge that lands between a glyph's two cells must still select the
    // whole glyph, never half. Each case below puts a selection boundary inside
    // exactly one glyph; without the wide-pair binding one of the two cells of
    // that glyph would be left unselected.
    let cases = [
        // end at col 2 (lead of 文, right side) -> 文's spacer (col 3) excluded.
        (0u16, false, 2u16, true),
        // start at col 1 (spacer of 中, left side) -> 中's lead (col 0) excluded.
        (1, false, 3, true),
    ];
    for (start_col, start_right, end_col, end_right) in cases {
        let mut e = engine(20, 3);
        e.advance("中文".as_bytes().to_vec());
        e.selection_start(0, start_col, start_right, 0);
        e.selection_update(0, end_col, end_right);
        let u = e.full_snapshot();
        let row0 = u.lines.iter().find(|l| l.line == 0).unwrap();
        let sel = |c: usize| row0.cell(c).flags & FLAG_SELECTED != 0;
        // At least one cell must be selected (guards against an empty range that
        // would make the equality checks below pass vacuously).
        assert!(
            sel(0) || sel(1) || sel(2) || sel(3),
            "selection produced no selected cells for \
             start=({start_col},{start_right}) end=({end_col},{end_right})"
        );
        assert_eq!(sel(0), sel(1), "中 half-selected");
        assert_eq!(sel(2), sel(3), "文 half-selected");
    }
}

#[test]
fn dsr_emits_pty_write() {
    let mut e = engine(20, 5);
    e.advance(b"\x1b[6n".to_vec()); // DSR: report cursor position (1-based row;col R)
    let events = e.take_events();
    let report = events
        .iter()
        .find_map(|ev| match ev {
            EngineEvent::PtyWrite(b) => Some(b.as_slice()),
            _ => None,
        })
        .expect("expected a PtyWrite cursor report");
    assert_eq!(report, b"\x1b[1;1R");
}

#[test]
fn reconfigure_updates_scrollback_and_palette() {
    let mut e = TerminalEngine::new(10, 2, EngineConfig::defaults());
    let mut cfg = EngineConfig::defaults();
    cfg.scrollback = 5;
    cfg.palette[1] = 0x00AB_CDEF;
    e.reconfigure(cfg);
    e.advance(b"\x1b[31mR".to_vec());
    let snap = e.full_snapshot();
    let red_cell = &snap.lines[0].cell(0);
    assert_eq!(red_cell.fg & 0x00FF_FFFF, 0x00AB_CDEF);
}

#[test]
fn semantic_escape_chars_affect_word_selection() {
    let mut cfg = EngineConfig::defaults();
    cfg.semantic_escape_chars = "-".to_string();
    let mut e = TerminalEngine::new(20, 2, cfg);
    e.advance(b"foo-bar".to_vec());
    e.selection_start(0, 0, false, 1);
    e.selection_update(0, 0, false);
    assert_eq!(e.selection_text().as_deref(), Some("foo"));
}

#[test]
fn palette_injection_overrides_ansi_colors() {
    let mut pal = EngineConfig::default_palette();
    pal[1] = 0x0011_2233;
    let cfg = EngineConfig {
        palette: pal.to_vec(),
        scrollback: 1000,
        ..EngineConfig::defaults()
    };
    let mut e = TerminalEngine::new(20, 5, cfg);
    e.advance(b"\x1b[31mR".to_vec());
    let u = e.full_snapshot();
    assert_eq!(u.lines[0].cell(0).fg & 0x00FF_FFFF, 0x0011_2233);
}

#[test]
fn default_palette_matches_v1_table() {
    let p = EngineConfig::default_palette();
    assert_eq!(p[0], 0x0000_0000);
    assert_eq!(p[1], 0x00CC_0000);
    assert_eq!(p[15], 0x00EE_EEEC);
    assert_eq!(p[16], 0x00D8_D8D8);
    assert_eq!(p[17], 0x0018_1818);
}

#[test]
fn custom_scrollback_is_honored() {
    let mut cfg = EngineConfig::defaults();
    cfg.scrollback = 50;
    let mut e = TerminalEngine::new(10, 3, cfg);
    for _ in 0..200 { e.advance(b"x\r\n".to_vec()); }
    e.scroll_lines(1000);
    let u = e.full_snapshot();
    assert!(u.display_offset <= 50, "offset {} exceeds history 50", u.display_offset);
}

#[test]
fn search_set_marks_matches_and_focuses_first() {
    let mut e = engine(20, 5);
    e.advance(b"foo bar foo".to_vec());
    assert!(e.search_set("foo".to_string()));
    let u = e.full_snapshot_searched();
    assert_ne!(u.lines[0].cell(0).flags & FLAG_MATCH, 0);
    assert_ne!(u.lines[0].cell(0).flags & FLAG_MATCH_CURRENT, 0);
    assert_ne!(u.lines[0].cell(8).flags & FLAG_MATCH, 0);
    assert_eq!(u.lines[0].cell(8).flags & FLAG_MATCH_CURRENT, 0);
    assert_eq!(u.lines[0].cell(3).flags & (FLAG_MATCH | FLAG_MATCH_CURRENT), 0);
}

#[test]
fn search_next_moves_focus_to_the_second_match() {
    let mut e = engine(20, 5);
    e.advance(b"foo bar foo".to_vec());
    e.search_set("foo".to_string());
    assert!(e.search_next());
    let u = e.full_snapshot_searched();
    assert_ne!(u.lines[0].cell(8).flags & FLAG_MATCH_CURRENT, 0);
    assert_eq!(u.lines[0].cell(0).flags & FLAG_MATCH_CURRENT, 0);
}

#[test]
fn search_prev_walks_back_then_re_finds_the_first_match() {
    // Regression: origin was sitting AT m.start() for Direction::Left, so
    // search_next could re-find the current match → no visible change.
    // Fix uses Point::sub(.., Boundary::None, 1) to step past it.
    let mut e = engine(20, 5);
    e.advance(b"foo bar foo".to_vec());
    e.search_set("foo".to_string());      // first "foo" (col 0) focused
    assert!(e.search_next());              // second "foo" (col 8) focused
    let u1 = e.full_snapshot_searched();
    assert_ne!(u1.lines[0].cell(8).flags & FLAG_MATCH_CURRENT, 0);
    assert!(e.search_prev());              // back to first "foo"
    let u2 = e.full_snapshot_searched();
    assert_ne!(u2.lines[0].cell(0).flags & FLAG_MATCH_CURRENT, 0);
    assert_eq!(u2.lines[0].cell(8).flags & FLAG_MATCH_CURRENT, 0);
}

#[test]
fn search_next_and_prev_cycle_multiple_matches_on_one_line() {
    // Three "foo" on a single line at cols 0-2, 3-5, 6-8 — the user's
    // failing scenario ("同行多匹配 ↓ 不动").
    let mut e = engine(20, 5);
    e.advance(b"foofoofoo".to_vec());
    assert!(e.search_set("foo".to_string()));
    // After set: focus on first.
    let u = e.full_snapshot_searched();
    assert_ne!(u.lines[0].cell(0).flags & FLAG_MATCH_CURRENT, 0);
    assert_eq!(u.lines[0].cell(3).flags & FLAG_MATCH_CURRENT, 0);

    // next → second.
    assert!(e.search_next());
    let u = e.full_snapshot_searched();
    assert_eq!(u.lines[0].cell(0).flags & FLAG_MATCH_CURRENT, 0);
    assert_ne!(u.lines[0].cell(3).flags & FLAG_MATCH_CURRENT, 0);
    assert_eq!(u.lines[0].cell(6).flags & FLAG_MATCH_CURRENT, 0);

    // next → third.
    assert!(e.search_next());
    let u = e.full_snapshot_searched();
    assert_eq!(u.lines[0].cell(3).flags & FLAG_MATCH_CURRENT, 0);
    assert_ne!(u.lines[0].cell(6).flags & FLAG_MATCH_CURRENT, 0);

    // prev → second.
    assert!(e.search_prev());
    let u = e.full_snapshot_searched();
    assert_ne!(u.lines[0].cell(3).flags & FLAG_MATCH_CURRENT, 0);
    assert_eq!(u.lines[0].cell(6).flags & FLAG_MATCH_CURRENT, 0);

    // prev → first.
    assert!(e.search_prev());
    let u = e.full_snapshot_searched();
    assert_ne!(u.lines[0].cell(0).flags & FLAG_MATCH_CURRENT, 0);
    assert_eq!(u.lines[0].cell(3).flags & FLAG_MATCH_CURRENT, 0);
}

#[test]
fn invalid_regex_returns_false_and_highlights_nothing() {
    let mut e = engine(20, 5);
    e.advance(b"foo".to_vec());
    assert!(!e.search_set("(".to_string()));
    let u = e.full_snapshot_searched();
    assert_eq!(u.lines[0].cell(0).flags & FLAG_MATCH, 0);
}

#[test]
fn search_clear_removes_highlight() {
    let mut e = engine(20, 5);
    e.advance(b"foo".to_vec());
    e.search_set("foo".to_string());
    e.search_clear();
    let u = e.full_snapshot_searched();
    assert_eq!(u.lines[0].cell(0).flags & FLAG_MATCH, 0);
}

#[test]
fn osc8_hyperlink_is_carried_on_cell_data() {
    let mut e = engine(20, 3);
    e.advance(b"\x1b]8;;https://example.com\x1b\\X\x1b]8;;\x1b\\".to_vec());
    let u = e.full_snapshot_searched();
    let cell = &u.lines[0].cell(0);
    assert_ne!(cell.flags & FLAG_HYPERLINK, 0);
    assert_ne!(cell.hyperlink_id, 0);
    assert_eq!(
        e.resolve_hyperlink(cell.hyperlink_id).as_deref(),
        Some("https://example.com")
    );
}

#[test]
fn resolve_hyperlink_returns_none_for_unknown_id() {
    let e = engine(10, 3);
    assert!(e.resolve_hyperlink(0).is_none());
    assert!(e.resolve_hyperlink(999).is_none());
}

#[test]
fn clear_history_drops_scrollback() {
    let mut e = TerminalEngine::new(10, 2, EngineConfig::defaults());
    // produce > screen_lines of output so there is scrollback
    e.advance(b"a\r\nb\r\nc\r\nd\r\ne\r\nf\r\n".to_vec());
    e.scroll_lines(100); // scroll up into history
    let before = e.full_snapshot().display_offset;
    e.clear_history();
    let after = e.full_snapshot().display_offset;
    assert_eq!(after, 0);
    assert!(before >= after);
}

#[test]
fn plain_url_is_not_auto_marked_by_engine() {
    // URL detection moved to the Dart UrlLinkProvider; the engine marks only
    // OSC 8 hyperlinks. A bare URL with no OSC 8 must stay unmarked here.
    let mut e = engine(40, 3);
    e.advance(b"see https://example.com here".to_vec());
    let u = e.full_snapshot_searched();
    let any_hyperlink = u
        .lines
        .iter()
        .flat_map(|l| l.flags.iter())
        .any(|f| f & FLAG_HYPERLINK != 0);
    assert!(
        !any_hyperlink,
        "engine must not auto-mark plain URLs after hint-pass removal"
    );
}

#[test]
fn osc52_paste_round_trips_when_enabled() {
    let mut cfg = EngineConfig::defaults();
    cfg.osc52 = 3;
    let mut e = TerminalEngine::new(10, 2, cfg);
    e.advance(b"\x1b]52;c;?\x07".to_vec());
    assert!(e.has_pending_clipboard());
    e.respond_clipboard_load("hello".to_string());
    let evs = e.take_events();
    let wrote = evs.iter().any(|ev| {
        matches!(ev, EngineEvent::PtyWrite(b)
            if String::from_utf8_lossy(b).contains("52;c;")
            && String::from_utf8_lossy(b).contains("aGVsbG8="))
    });
    assert!(wrote, "expected base64('hello')=aGVsbG8= reply, got {evs:?}");
}

#[test]
fn osc52_paste_denied_by_default() {
    let mut e = TerminalEngine::new(10, 2, EngineConfig::defaults());
    e.advance(b"\x1b]52;c;?\x07".to_vec());
    assert!(!e.has_pending_clipboard());
}

#[test]
fn text_area_size_request_replies_with_pixels() {
    let mut e = TerminalEngine::new(80, 24, EngineConfig::defaults());
    e.set_cell_pixels(9, 18);
    e.advance(b"\x1b[14t".to_vec());
    let evs = e.take_events();
    let ok = evs.iter().any(|ev| {
        matches!(ev, EngineEvent::PtyWrite(b)
            if String::from_utf8_lossy(b).contains("4;432;720t"))
    });
    assert!(ok, "got {evs:?}");
}

// ---- sub-cell pixel scroll ------------------------------------------

/// Print `n` numbered lines so a small screen accrues scrollback history.
fn fill_lines(e: &mut TerminalEngine, n: usize) {
    for i in 0..n {
        e.advance(format!("line{i:02}\r\n").into_bytes());
    }
}

#[test]
fn scroll_pixels_accumulates_fraction_then_steps_a_line() {
    let mut e = engine(10, 3);
    fill_lines(&mut e, 12);
    e.set_cell_pixels(9, 18);

    // Half a cell up: stays on the same line, fraction = 0.5.
    scroll_pixels(&mut e, 9.0);
    let u = e.full_snapshot();
    assert_eq!(u.display_offset, 0);
    assert!((fraction(&u) - 0.5).abs() < 1e-9);

    // Another half: wraps to the next history line, fraction back to 0.
    scroll_pixels(&mut e, 9.0);
    let u = e.full_snapshot();
    assert_eq!(u.display_offset, 1);
    assert!(fraction(&u).abs() < 1e-9);

    // Reverse half a cell: steps back down, fraction = 0.5 again.
    scroll_pixels(&mut e, -9.0);
    let u = e.full_snapshot();
    assert_eq!(u.display_offset, 0);
    assert!((fraction(&u) - 0.5).abs() < 1e-9);
}

#[test]
fn scroll_pixels_large_delta_steps_multiple_lines() {
    let mut e = engine(10, 3);
    fill_lines(&mut e, 20);
    e.set_cell_pixels(9, 18);
    scroll_pixels(&mut e, 3.5 * 18.0);
    let u = e.full_snapshot();
    assert_eq!(u.display_offset, 3);
    assert!((fraction(&u) - 0.5).abs() < 1e-9);
}

#[test]
fn scroll_pixels_zero_delta_is_noop() {
    let mut e = engine(10, 3);
    e.set_cell_pixels(9, 18);
    scroll_pixels(&mut e, 0.0);
    let u = e.full_snapshot();
    assert_eq!(u.display_offset, 0);
    assert_eq!(fraction(&u), 0.0);
}

#[test]
fn scroll_pixels_without_cell_pixels_falls_back_to_line_scroll() {
    let mut e = engine(10, 3);
    fill_lines(&mut e, 12);
    scroll_pixels(&mut e, 2.0 * DEFAULT_CELL_HEIGHT_PX);
    let u = e.full_snapshot();
    assert_eq!(u.display_offset, 2);
    assert_eq!(fraction(&u), 0.0);
}

#[test]
fn scroll_pixels_snaps_flush_at_top_of_history() {
    let mut e = engine(10, 2);
    fill_lines(&mut e, 6);
    e.set_cell_pixels(9, 18);
    // Scroll far past the top; offset clamps and the fraction snaps to 0.
    scroll_pixels(&mut e, 1000.0);
    let u = e.full_snapshot();
    assert_eq!(u.display_offset as usize, e.history_size());
    assert_eq!(fraction(&u), 0.0);
}

#[test]
fn scroll_pixels_sub_line_at_top_keeps_fraction_pinned() {
    // Regression: at the very top, sub-line up-scrolls (e.g. a decaying fling)
    // must not accumulate a fraction — that caused build-to-1/snap jitter.
    let mut e = engine(10, 2);
    fill_lines(&mut e, 5);
    e.set_cell_pixels(9, 18);
    scroll_pixels(&mut e, 1000.0); // pin to the top
    assert_eq!(e.full_snapshot().display_offset as usize, e.history_size());
    for _ in 0..5 {
        scroll_pixels(&mut e, 9.0); // half a cell up, repeatedly
        assert_eq!(fraction(&e.full_snapshot()), 0.0);
    }
}

#[test]
fn scroll_pixels_snaps_flush_at_live_bottom() {
    let mut e = engine(10, 2);
    fill_lines(&mut e, 6);
    e.set_cell_pixels(9, 18);
    // Already at the bottom; scrolling further down cannot move and snaps flush.
    scroll_pixels(&mut e, -1000.0);
    let u = e.full_snapshot();
    assert_eq!(u.display_offset, 0);
    assert_eq!(fraction(&u), 0.0);
}

#[test]
fn full_snapshot_overscan_row_is_line_above_viewport() {
    // 2-row screen, four logical lines: viewport shows CCCC/DDDD at offset 0,
    // so the overscan row (last entry) must be the line just above: BBBB.
    let mut e = engine(10, 2);
    e.advance(b"AAAA\r\nBBBB\r\nCCCC\r\nDDDD".to_vec());
    let u = e.full_snapshot();
    assert_eq!(u.lines.len(), 3); // 2 viewport + 1 overscan
    assert_eq!(ch(&u, 0, 0), 'C');
    assert_eq!(ch(&u, 1, 0), 'D');
    // Overscan carries sentinel line index == screen_lines.
    assert_eq!(ch(&u, 2, 0), 'B');
}

#[test]
fn full_snapshot_overscan_blank_at_top_of_history() {
    // No scrollback above the viewport → overscan row left blank.
    let mut e = engine(10, 3);
    e.advance(b"hi".to_vec());
    let u = e.full_snapshot();
    assert_eq!(u.lines.len(), 4);
    assert_eq!(ch(&u, 3, 0), ' ');
}

#[test]
fn take_damage_forces_full_when_fraction_nonzero() {
    let mut e = engine(10, 3);
    fill_lines(&mut e, 12);
    e.set_cell_pixels(9, 18);
    e.take_damage(); // drain
    scroll_pixels(&mut e, 9.0); // fraction 0.5, still display_offset 0
    let u = e.take_damage();
    assert!(u.full, "non-zero fraction must ride a full snapshot");
    assert!((fraction(&u) - 0.5).abs() < 1e-9);
}

#[test]
fn resize_clears_scroll_fraction() {
    let mut e = engine(10, 3);
    fill_lines(&mut e, 12);
    e.set_cell_pixels(9, 18);
    scroll_pixels(&mut e, 9.0); // fraction 0.5
    e.resize(12, 4);
    assert_eq!(fraction(&e.full_snapshot()), 0.0);
}

#[test]
fn cell_height_change_clears_scroll_fraction() {
    let mut e = engine(10, 3);
    fill_lines(&mut e, 12);
    e.set_cell_pixels(9, 18);
    scroll_pixels(&mut e, 9.0); // fraction 0.5
    e.set_cell_pixels(9, 20); // zoom: cell height changed
    assert_eq!(fraction(&e.full_snapshot()), 0.0);
    // Same height again must NOT reset a live fraction.
    scroll_pixels(&mut e, 10.0); // 0.5 at h=20
    e.set_cell_pixels(9, 20);
    assert!((fraction(&e.full_snapshot()) - 0.5).abs() < 1e-9);
}

#[test]
fn scroll_to_bottom_clears_fraction() {
    let mut e = engine(10, 3);
    fill_lines(&mut e, 12);
    e.set_cell_pixels(9, 18);
    scroll_pixels(&mut e, 9.0);
    e.scroll_to_bottom();
    let u = e.full_snapshot();
    assert_eq!(u.display_offset, 0);
    assert_eq!(fraction(&u), 0.0);
}

#[test]
fn a_sum_just_below_a_line_is_that_line() {
    let mut e = engine(10, 4);
    for i in 0..20 {
        e.advance(format!("line{i}\r\n").into_bytes());
    }
    e.set_cell_pixels(9, 18);
    e.scroll_lines(2);
    let u = scroll_pixels(&mut e, -1e-20);
    assert_eq!((u.display_offset, fraction(&u)), (2, 0.0));
}
