//! The engine against a live terminal: what its operations do to the screen, and
//! what they tell the host.

use alacritty_terminal::event::Event;
use alacritty_terminal::term::ClipboardType;
use rust_lib_flutter_alacritty::engine::{
    EngineConfig, EngineEvent, LineUpdate, RenderUpdate, TerminalEngine, FLAG_BOLD, FLAG_HYPERLINK,
    FLAG_ITALIC, FLAG_MATCH, FLAG_MATCH_CURRENT, FLAG_SELECTED, FLAG_UNDERLINE, OVERSCAN_LINE_TAG,
};
use rust_lib_flutter_alacritty::event_proxy::{ClipboardReply, ColorReply, SizeReply};
use rust_lib_flutter_alacritty::term_model::CellRange;
use std::sync::Arc;

fn engine(cols: u16, rows: u16) -> TerminalEngine {
    TerminalEngine::new(cols, rows, EngineConfig::defaults())
}

fn feed(e: &mut TerminalEngine, text: &str) {
    e.advance(text.as_bytes().to_vec());
}

fn fill(e: &mut TerminalEngine, n: usize) {
    for i in 0..n {
        feed(e, &format!("line{i:02}\r\n"));
    }
}

fn text(line: &LineUpdate) -> String {
    let s: String = line.codepoints.iter().map(|c| char::from_u32(*c).unwrap()).collect();
    s.trim_end().to_string()
}

fn viewport(u: &RenderUpdate, rows: usize) -> Vec<String> {
    u.lines[..rows].iter().map(text).collect()
}

fn writes(e: &mut TerminalEngine) -> Vec<String> {
    e.take_events()
        .into_iter()
        .filter_map(|ev| match ev {
            EngineEvent::PtyWrite(b) => Some(String::from_utf8(b).unwrap()),
            _ => None,
        })
        .collect()
}

/// The rows of a host once it took an update: rotated, and patched.
fn take(rows: &mut Vec<LineUpdate>, u: &RenderUpdate) {
    let n = rows.len() as i32;
    let before = rows.clone();
    for i in 0..n {
        let from = i - u.scroll_line_delta;
        if 0 <= from && from < n {
            rows[i as usize] = before[from as usize].clone();
        }
    }
    for line in &u.lines {
        if (line.line as i32) < n && line.line != OVERSCAN_LINE_TAG {
            rows[line.line as usize] = line.clone();
        }
    }
}

// ---- construction and configuration --------------------------------------

#[test]
fn a_new_screen_is_blank() {
    let mut e = engine(4, 2);
    assert_eq!((e.columns(), e.screen_lines(), e.history_size()), (4, 2, 0));
    let u = e.full_snapshot();
    assert_eq!(u.lines.len(), 3);
    for (i, line) in u.lines.iter().enumerate() {
        assert_eq!(line.line, i as u32);
        for col in 0..4 {
            let c = line.cell(col);
            assert_eq!((c.codepoint, c.fg, c.bg, c.flags, c.hyperlink_id), (32, 0x00D8_D8D8, 0x0018_1818, 0, 0));
        }
    }
    assert_eq!((u.cursor_line, u.cursor_col, u.cursor_visible), (0, 0, true));
    assert_eq!((u.cursor_shape, u.cursor_blinking), (0, false));
    assert_eq!((u.scroll_fraction, u.scroll_line_delta, u.full), (0, 0, true));
}

#[test]
fn sizes_under_the_minimum_are_raised() {
    let e = engine(0, 0);
    assert_eq!((e.columns(), e.screen_lines()), (2, 1));
}

#[test]
fn a_palette_of_another_length_is_not_taken() {
    let mut cfg = EngineConfig::defaults();
    cfg.palette = vec![1, 2, 3];
    let mut e = TerminalEngine::new(4, 2, cfg);
    assert_eq!(e.full_snapshot().default_bg, 0x0018_1818);
    let mut palette = EngineConfig::default_palette().to_vec();
    palette[17] = 0x0012_3456;
    e.set_palette(palette.clone());
    assert_eq!(e.full_snapshot().default_bg, 0x0012_3456);
    palette.push(0);
    palette[17] = 0;
    e.set_palette(palette);
    assert_eq!(e.full_snapshot().default_bg, 0x0012_3456);
}

#[test]
fn the_configured_cursor_is_shown() {
    for (code, shape) in [(0, 0), (1, 1), (2, 2), (3, 3), (4, 4), (9, 0)] {
        let mut cfg = EngineConfig::defaults();
        cfg.default_cursor_shape = code;
        cfg.default_cursor_blinking = true;
        let u = TerminalEngine::new(4, 2, cfg).full_snapshot();
        assert_eq!((u.cursor_shape, u.cursor_blinking), (shape, true));
    }
}

#[test]
fn the_clipboard_policy_is_kept() {
    // Copy "hi" and ask for a paste, under each policy.
    for (osc52, copies, pastes) in [(0, 0, 0), (1, 1, 0), (2, 0, 1), (3, 1, 1), (7, 1, 0)] {
        let mut cfg = EngineConfig::defaults();
        cfg.osc52 = osc52;
        let mut e = TerminalEngine::new(10, 2, cfg);
        feed(&mut e, "\x1b]52;c;aGk=\x07\x1b]52;c;?\x07");
        let events = e.take_events();
        let stored = events.iter().filter(|ev| **ev == EngineEvent::ClipboardStore("hi".into()));
        assert_eq!(stored.count(), copies, "policy {osc52}");
        let loads = events.iter().filter(|ev| **ev == EngineEvent::ClipboardLoad);
        assert_eq!(loads.count(), pastes, "policy {osc52}");
        assert_eq!(e.has_pending_clipboard(), pastes > 0, "policy {osc52}");
    }
}

#[test]
fn reconfiguring_tells_the_title_and_cuts_the_history() {
    let mut e = engine(10, 2);
    fill(&mut e, 12);
    feed(&mut e, "\x1b]2;shell\x07");
    let _ = e.take_events();
    e.scroll_lines(100);
    assert_eq!(e.history_size(), 11);
    let mut cfg = EngineConfig::defaults();
    cfg.scrollback = 4;
    e.reconfigure(cfg);
    assert_eq!(e.take_events(), vec![EngineEvent::Title("shell".into())]);
    assert_eq!(e.history_size(), 4);
    let u = e.full_snapshot();
    assert_eq!(u.display_offset, 4);
    assert_eq!(viewport(&u, 2), vec!["line07", "line08"]);
    assert!(e.take_damage().full);
}

// ---- colors and attributes ------------------------------------------------

#[test]
fn the_256_colors_follow_the_table() {
    let palette = EngineConfig::default_palette();
    let step = |v: u32| if v == 0 { 0 } else { 55 + 40 * v };
    let mut e = engine(2, 1);
    for i in 0..256u32 {
        feed(&mut e, &format!("\x1b[H\x1b[38;5;{i}m#"));
        let expected = match i {
            0..=15 => palette[i as usize],
            16..=231 => {
                let n = i - 16;
                step(n / 36) << 16 | step(n / 6 % 6) << 8 | step(n % 6)
            }
            _ => (8 + 10 * (i - 232)) * 0x0001_0101,
        };
        assert_eq!(e.full_snapshot().lines[0].cell(0).fg, expected, "color {i}");
    }
}

#[test]
fn direct_and_named_colors_are_resolved() {
    let mut e = engine(10, 2);
    feed(&mut e, "\x1b[38;2;1;2;3m\x1b[48;2;4;5;6ma\x1b[0m\x1b[97;100mb\x1b[0;2;31mc");
    let u = e.full_snapshot();
    let (a, b, c) = (u.lines[0].cell(0), u.lines[0].cell(1), u.lines[0].cell(2));
    assert_eq!((a.fg, a.bg), (0x0001_0203, 0x0004_0506));
    assert_eq!((b.fg, b.bg), (0x00EE_EEEC, 0x0055_5753));
    assert_eq!(c.fg, 0x00CC_0000);
}

#[test]
fn a_program_can_replace_a_color() {
    let mut e = engine(10, 2);
    feed(&mut e, "\x1b]4;1;rgb:12/34/56\x1b\\\x1b[31mR\x1b]10;rgb:aa/bb/cc\x1b\\");
    let u = e.full_snapshot();
    assert_eq!(u.lines[0].cell(0).fg, 0x0012_3456);
    assert_eq!(u.default_fg, 0x00AA_BBCC);
    assert_eq!(u.lines[0].cell(5).fg, 0x00AA_BBCC);
}

#[test]
fn attributes_are_shown() {
    let mut e = engine(10, 2);
    feed(&mut e, "\x1b[1;3;4mx");
    assert_eq!(e.full_snapshot().lines[0].cell(0).flags, FLAG_BOLD | FLAG_ITALIC | FLAG_UNDERLINE);
}

// ---- replies ----------------------------------------------------------------

#[test]
fn color_queries_are_answered() {
    let mut e = engine(10, 3);
    feed(&mut e, "\x1b]10;?\x1b\\\x1b]11;?\x1b\\\x1b]4;1;?\x1b\\\x1b]4;21;?\x1b\\");
    assert_eq!(
        writes(&mut e),
        vec![
            "\x1b]10;rgb:d8d8/d8d8/d8d8\x1b\\",
            "\x1b]11;rgb:1818/1818/1818\x1b\\",
            "\x1b]4;1;rgb:cccc/0000/0000\x1b\\",
            "\x1b]4;21;rgb:0000/0000/ffff\x1b\\",
        ]
    );
    feed(&mut e, "\x1b]12;rgb:00/80/00\x1b\\\x1b]12;?\x1b\\");
    assert_eq!(writes(&mut e), vec!["\x1b]12;rgb:0000/8080/0000\x1b\\"]);
}

#[test]
fn size_queries_are_answered() {
    let mut e = engine(80, 24);
    e.set_cell_pixels(9, 18);
    feed(&mut e, "\x1b[18t\x1b[14t");
    assert_eq!(writes(&mut e), vec!["\x1b[8;24;80t", "\x1b[4;432;720t"]);
}

#[test]
fn a_text_area_too_large_is_not_told() {
    let mut e = engine(80, 24);
    e.set_cell_pixels(819, 2730);
    assert!(e.text_area_fits());
    feed(&mut e, "\x1b[14t");
    assert_eq!(writes(&mut e), vec!["\x1b[4;65520;65520t"]);
    // One pixel more does not fit; the number of cells is told all the same.
    for (w, h) in [(820, 18), (9, 2731), (65535, 65535)] {
        e.set_cell_pixels(w, h);
        assert!(!e.text_area_fits());
        feed(&mut e, "\x1b[14t\x1b[18t");
        assert_eq!(writes(&mut e), vec!["\x1b[8;24;80t"]);
    }
}

#[test]
fn pending_queries_are_resolved_in_their_order() {
    let mut e = engine(7, 3);
    e.set_cell_pixels(2, 5);
    let color = |index| ColorReply {
        index,
        formatter: Event::ColorRequest(index, Arc::new(move |c| format!("{index}:{},{},{}", c.r, c.g, c.b))),
    };
    let size = SizeReply {
        formatter: Event::TextAreaSizeRequest(Arc::new(|s| {
            format!("{} {} {} {}", s.num_lines, s.num_cols, s.cell_width, s.cell_height)
        })),
    };
    // An unset cursor color and a slot that does not exist get no reply, nor does a
    // request of another kind.
    let odd = ColorReply { index: 0, formatter: Event::Bell };
    e.resolve_pending_replies(
        vec![color(257), color(258), color(16), color(4000), odd, color(256)],
        vec![size.clone()],
    );
    assert_eq!(writes(&mut e), vec!["257:24,24,24", "16:0,0,0", "256:216,216,216", "3 7 2 5"]);
}

#[test]
fn every_clipboard_request_is_answered_once() {
    let mut e = engine(10, 2);
    let ask = |tag: &'static str| ClipboardReply {
        formatter: Event::ClipboardLoad(ClipboardType::Clipboard, Arc::new(move |t| format!("{tag}={t}"))),
    };
    e.hear(vec![EngineEvent::Bell], vec![ask("a"), ask("b").clone()]);
    assert!(e.has_pending_clipboard());
    e.respond_clipboard_load("text".to_string());
    assert!(!e.has_pending_clipboard());
    e.respond_clipboard_load("again".to_string());
    assert_eq!(
        e.take_events(),
        vec![
            EngineEvent::Bell,
            EngineEvent::PtyWrite(b"a=text".to_vec()),
            EngineEvent::PtyWrite(b"b=text".to_vec()),
        ]
    );
    assert!(e.take_events().is_empty());
}

#[test]
fn events_come_in_their_order() {
    let mut e = engine(10, 2);
    feed(&mut e, "\x07\x1b[6n\x1b]11;?\x1b\\");
    e.advance(b"\x1b]9;done\x07\x07\x1b[?2031h".to_vec());
    let events = e.take_events();
    assert_eq!(events[0], EngineEvent::Bell);
    assert_eq!(events[1], EngineEvent::PtyWrite(b"\x1b[1;1R".to_vec()));
    assert_eq!(events[2], EngineEvent::PtyWrite(b"\x1b]11;rgb:1818/1818/1818\x1b\\".to_vec()));
    assert_eq!(events[3], EngineEvent::Notify("done".into()));
    assert_eq!(events[4], EngineEvent::Bell);
    assert_eq!(events[5], EngineEvent::PtyWrite(b"\x1b]997;1\x1b\\".to_vec()));
    assert_eq!(events.len(), 6);
}

#[test]
fn the_last_toggle_decides() {
    let mut e = engine(10, 2);
    feed(&mut e, "\x1b[?2031h\x1b[?2031l\x1b[?2031h");
    assert_eq!(writes(&mut e), vec!["\x1b]997;1\x1b\\"; 2]);
    e.reconfigure(EngineConfig::defaults());
    assert_eq!(writes(&mut e), vec!["\x1b]997;1\x1b\\"]);
    feed(&mut e, "\x1b[?2031l");
    e.reconfigure(EngineConfig::defaults());
    assert!(writes(&mut e).is_empty());
}

#[test]
fn the_color_scheme_is_that_of_the_live_background() {
    let mut e = engine(10, 3);
    feed(&mut e, "\x1b]11;#ffffff\x1b\\\x1b[?2031h");
    assert_eq!(writes(&mut e), vec!["\x1b]997;2\x1b\\"]);
    e.emit_color_scheme_report();
    assert_eq!(writes(&mut e), vec!["\x1b]997;2\x1b\\"]);
    // The configured background counts again once the program's is gone.
    feed(&mut e, "\x1b]111\x1b\\\x1b[?2031h");
    assert_eq!(writes(&mut e), vec!["\x1b]997;1\x1b\\"]);
}

#[test]
fn what_the_terminal_tells_comes_in_order() {
    let mut e = engine(10, 3);
    feed(&mut e, "\x07\x1b]0;one\x07\x1b]9;n\x07\x07\x1b[c\x1b]52;c;?\x07\x1b]0;two\x07");
    let events = e.take_events();
    assert_eq!(events[0], EngineEvent::Notify("n".into()));
    let told: Vec<&EngineEvent> =
        events[1..].iter().filter(|ev| !matches!(ev, EngineEvent::PtyWrite(_))).collect();
    assert_eq!(
        told,
        vec![
            &EngineEvent::Bell,
            &EngineEvent::Title("one".into()),
            &EngineEvent::Bell,
            &EngineEvent::Title("two".into()),
        ]
    );
    e.scroll_lines(1);
    assert!(e.take_events().is_empty());
}

#[test]
fn working_directories_do_not_reach_the_screen() {
    let mut e = engine(20, 2);
    feed(&mut e, "a\x1b]7;file://h/p\x07b");
    assert_eq!(e.take_events(), vec![EngineEvent::WorkingDir("file://h/p".into())]);
    assert_eq!(text(&e.full_snapshot().lines[0]), "ab");
}

// ---- scrolling ----------------------------------------------------------------

#[test]
fn the_reported_delta_is_the_net_one() {
    let mut e = engine(10, 5);
    fill(&mut e, 5);
    assert_eq!(e.history_size(), 1);
    let u = e.scroll_lines(3);
    assert!(!u.full);
    assert_eq!((u.display_offset, u.scroll_line_delta), (1, 1));
    assert_eq!(u.lines.len(), 2);
    let u = e.scroll_lines(2);
    assert_eq!((u.display_offset, u.scroll_line_delta), (1, 0));
    assert_eq!(u.lines.len(), 1);
    let u = e.scroll_lines(-4);
    assert_eq!((u.display_offset, u.scroll_line_delta), (0, -1));
    assert_eq!(u.lines[0].line, 4);
    let u = e.scroll_lines(i32::MAX);
    assert!(u.full);
    assert_eq!((u.display_offset, u.scroll_line_delta), (1, 0));
    let u = e.scroll_lines(i32::MIN);
    assert!(u.full);
    assert_eq!(u.display_offset, 0);
}

#[test]
fn a_mirror_follows_scroll_refreshes() {
    let mut e = engine(12, 6);
    fill(&mut e, 40);
    feed(&mut e, "\x1b]8;;http://a\x1b\\link\x1b]8;;\x1b\\ 中文");
    e.selection_start(1, 2, false, 0);
    e.selection_update(3, 1, true);
    let mut rows = e.full_snapshot().lines[..6].to_vec();
    for delta in [1, 3, -2, 5, -1, -5, 2, 4, -4, 60, -60, 7, -3] {
        let u = e.scroll_lines(delta);
        take(&mut rows, &u);
        let whole = e.full_snapshot();
        for i in 0..6 {
            assert_eq!(rows[i].codepoints, whole.lines[i].codepoints, "delta {delta}, row {i}");
            assert_eq!(rows[i].flags, whole.lines[i].flags, "delta {delta}, row {i}");
            assert_eq!(rows[i].hyperlink_id, whole.lines[i].hyperlink_id, "delta {delta}, row {i}");
        }
    }
    e.set_cell_pixels(9, 18);
    for (lines, fraction) in [(2, 0.25), (0, 0.5), (-1, 0.75), (100, 0.5), (-100, 0.5), (3, 0.0)] {
        let u = e.scroll_pixels(lines, f64::to_bits(fraction));
        take(&mut rows, &u);
        let whole = e.full_snapshot();
        for i in 0..6 {
            assert_eq!(rows[i].codepoints, whole.lines[i].codepoints, "lines {lines}, row {i}");
        }
    }
}

#[test]
fn overscan_is_the_line_above() {
    let mut e = engine(10, 3);
    fill(&mut e, 10);
    let u = e.scroll_lines(2);
    assert_eq!(u.lines.last().unwrap().line, OVERSCAN_LINE_TAG);
    assert_eq!(text(u.lines.last().unwrap()), "line05");
    let full = e.full_snapshot();
    assert_eq!(viewport(&full, 3), vec!["line06", "line07", "line08"]);
    assert_eq!(text(&full.lines[3]), "line05");
    assert_eq!(full.lines[3].line, 3);
}

#[test]
fn a_fraction_is_dropped_at_the_ends() {
    let mut e = engine(10, 3);
    fill(&mut e, 10);
    e.set_cell_pixels(9, 18);
    let half = f64::to_bits(0.5);
    let u = e.scroll_pixels(2, half);
    assert_eq!((u.display_offset, u.scroll_fraction, u.scroll_line_delta), (2, half, 2));
    // Off the top end: the fraction goes.
    let u = e.scroll_pixels(1000, half);
    assert_eq!((u.display_offset as usize, u.scroll_fraction), (e.history_size(), 0));
    // At the top there is nothing to reveal.
    let u = e.scroll_pixels(0, half);
    assert_eq!(u.scroll_fraction, 0);
    // One line down there is.
    let u = e.scroll_pixels(-1, half);
    assert_eq!((u.scroll_fraction, u.scroll_line_delta), (half, -1));
    // Off the bottom end.
    let u = e.scroll_pixels(-1000, half);
    assert_eq!((u.display_offset, u.scroll_fraction), (0, 0));
    // Negative zero counts as zero.
    e.scroll_pixels(0, f64::to_bits(-0.0));
    assert_eq!(e.scroll_fraction(), f64::to_bits(-0.0));
    e.take_damage();
    assert!(!e.take_damage().full);
}

#[test]
fn without_a_cell_height_lines_are_scrolled() {
    let mut e = engine(10, 3);
    fill(&mut e, 10);
    let u = e.scroll_pixels(0, f64::to_bits(0.5));
    assert_eq!((u.full, u.lines.len(), u.scroll_fraction), (false, 1, 0));
    let u = e.scroll_pixels(1, f64::to_bits(0.5));
    assert_eq!((u.display_offset, u.scroll_fraction), (1, 0));
}

#[test]
fn an_active_search_forces_full_snapshots() {
    let mut e = engine(10, 5);
    fill(&mut e, 20);
    assert!(e.search_set("line1".to_string()));
    assert!(e.search_is_active());
    assert!(e.scroll_lines(1).full);
    let u = e.scroll_refresh(0);
    assert_eq!((u.full, u.lines.len()), (true, 6));
    // The highlights ride on it, before the host reported a cell height too.
    let u = e.scroll_pixels(0, 0);
    assert_eq!((u.full, u.lines.len()), (true, 6));
    assert!(u.lines.iter().any(|l| l.flags.iter().any(|f| f & FLAG_MATCH_CURRENT != 0)));
    e.search_clear();
    assert!(!e.search_is_active());
    assert!(!e.scroll_lines(-1).full);
}

#[test]
fn a_refresh_falls_back_to_a_full_snapshot() {
    let mut e = engine(10, 5);
    fill(&mut e, 20);
    for (delta, full, lines) in [
        (0, false, 1),
        (2, false, 3),
        (-4, false, 5),
        (5, true, 6),
        (-5, true, 6),
        (i32::MIN, true, 6),
    ] {
        let u = e.scroll_refresh(delta);
        assert_eq!((u.full, u.lines.len()), (full, lines), "delta {delta}");
        assert_eq!(u.scroll_line_delta, if full { 0 } else { delta });
    }
}

/// An engine whose viewport is scrolled back by 11 lines, with a history of 3.
fn above_the_history() -> TerminalEngine {
    let mut e = engine(10, 5);
    fill(&mut e, 7);
    e.scroll_lines(100);
    assert_eq!(e.history_size(), 3);
    // Lines scroll inside a region that does not start at the top: nothing goes to the
    // history, but the viewport goes along.
    feed(&mut e, "\x1b[2;4r\x1b[4;1H\n\n\n\n\n\n\n\n");
    assert_eq!(e.history_size(), 3);
    e
}

#[test]
fn a_region_that_scrolls_takes_the_viewport_along() {
    let mut e = above_the_history();
    let u = e.full_snapshot();
    assert_eq!((u.display_offset, u.lines.len()), (11, 6));
    // There is nothing to show up there.
    assert_eq!(viewport(&u, 5), vec![""; 5]);
    let u = e.scroll_refresh(0);
    assert_eq!((u.display_offset, u.full, u.lines.len()), (11, false, 1));
    e.resize(10, 5);
    assert_eq!(e.full_snapshot().display_offset, 11);
    // A scroll leads back into the history.
    for (delta, offset) in [(0, 3), (1, 3), (-1, 3), (-8, 3), (-9, 2), (-100, 0)] {
        let mut e = above_the_history();
        let u = e.scroll_lines(delta);
        assert_eq!(u.display_offset, offset, "delta {delta}");
    }
    e.scroll_to_bottom();
    assert_eq!(e.full_snapshot().display_offset, 0);
}

#[test]
fn a_pixel_scroll_leads_back_step_by_step() {
    for (lines, offset, kept) in [
        (0, 11, false),
        (1, 3, false),
        (2, 3, false),
        (-1, 3, false),
        (-2, 2, true),
        (-4, 0, true),
        (-5, 0, false),
    ] {
        let mut e = above_the_history();
        e.set_cell_pixels(9, 18);
        let half = f64::to_bits(0.5);
        let u = e.scroll_pixels(lines, half);
        assert_eq!(u.display_offset, offset, "lines {lines}");
        assert_eq!(u.scroll_fraction, if kept { half } else { 0 }, "lines {lines}");
    }
}

#[test]
fn a_search_above_the_history_starts_at_its_top() {
    let mut e = above_the_history();
    assert!(e.search_set("line01".to_string()));
    let u = e.full_snapshot_searched();
    let row = u.lines.iter().find(|l| l.flags.iter().any(|f| f & FLAG_MATCH_CURRENT != 0));
    assert!(row.is_none() || text(row.unwrap()) == "line01");
    assert!(e.search_next() && e.search_prev());
}

#[test]
fn resizing_to_the_same_size_keeps_the_screen() {
    let mut e = engine(10, 4);
    fill(&mut e, 9);
    e.scroll_lines(2);
    let before = e.full_snapshot();
    e.resize(10, 4);
    let after = e.full_snapshot();
    assert_eq!(viewport(&before, 4), viewport(&after, 4));
    assert_eq!(before.display_offset, after.display_offset);
}

#[test]
fn resizing_drops_a_selection_of_other_columns() {
    let mut e = engine(10, 4);
    feed(&mut e, "hello");
    e.selection_start(0, 0, false, 0);
    e.selection_update(0, 4, true);
    e.resize(10, 6);
    assert_eq!(e.selection_text().as_deref(), Some("hello"));
    e.resize(20, 6);
    assert_eq!(e.selection_text(), None);
}

#[test]
fn a_fraction_stays_below_one() {
    let mut e = engine(10, 3);
    fill(&mut e, 10);
    e.set_cell_pixels(9, 18);
    e.scroll_lines(2);
    for odd in [1.0, 1.5, -0.25, f64::NAN, f64::INFINITY, f64::NEG_INFINITY] {
        e.scroll_pixels(0, odd.to_bits());
        assert_eq!(e.scroll_fraction(), 0, "{odd}");
    }
    let most = f64::from_bits(1.0f64.to_bits() - 1);
    assert_eq!(e.scroll_pixels(0, most.to_bits()).scroll_fraction, most.to_bits());
}

#[test]
fn a_selection_outlasts_a_long_input() {
    // Two columns: a repeated character scrolls one line by for each repetition, so the
    // input is read in pieces.
    for (columns, bytes) in [(2, 1000), (2, 300_000), (10, 2_000_000), (80, 200_000)] {
        let mut e = engine(columns, 24);
        feed(&mut e, "ab");
        e.selection_start(0, 0, false, 0);
        e.selection_update(0, 1, true);
        feed(&mut e, &"\r".repeat(bytes));
        assert_eq!(e.selection_text().as_deref(), Some("ab"), "{columns} columns, {bytes} bytes");
    }
    // What the pieces tell comes in order.
    let mut e = engine(2, 24);
    feed(&mut e, "ab");
    e.selection_start(0, 0, false, 0);
    let pad = "\r".repeat(300_000);
    feed(&mut e, &format!("\x07{pad}\x1b]0;one\x07{pad}\x1b]0;two\x07"));
    assert_eq!(
        e.take_events(),
        vec![
            EngineEvent::Bell,
            EngineEvent::Title("one".into()),
            EngineEvent::Title("two".into()),
        ]
    );
}

// ---- damage ----------------------------------------------------------------------

#[test]
fn damage_ships_the_changed_rows_in_order() {
    let mut e = engine(10, 5);
    e.take_damage();
    feed(&mut e, "\x1b[4;1Hd\x1b[2;1Hb");
    let u = e.take_damage();
    assert!(!u.full);
    assert_eq!(u.lines.iter().map(|l| l.line).collect::<Vec<_>>(), vec![0, 1, 3]);
    assert_eq!(u.lines.iter().map(text).collect::<Vec<_>>(), vec!["", "b", "d"]);
    assert_eq!((u.cursor_line, u.cursor_col), (1, 1));
    // Only the cursor's row is left.
    let u = e.take_damage();
    assert_eq!(u.lines.iter().map(|l| l.line).collect::<Vec<_>>(), vec![1]);
}

#[test]
fn damage_does_not_show_the_selection() {
    let mut e = engine(10, 2);
    feed(&mut e, "hello");
    e.selection_start(0, 0, false, 0);
    e.selection_update(0, 4, true);
    let u = e.take_damage();
    assert_eq!(u.lines[0].cell(0).flags & FLAG_SELECTED, 0);
    assert_ne!(e.full_snapshot().lines[0].cell(0).flags & FLAG_SELECTED, 0);
}

#[test]
fn insert_mode_damages_everything() {
    let mut e = engine(10, 2);
    feed(&mut e, "\x1b[4h");
    assert!(e.take_damage().full);
    assert!(e.take_damage().full);
    feed(&mut e, "\x1b[4l");
    e.take_damage();
    assert!(!e.take_damage().full);
}

#[test]
fn a_viewport_that_is_scrolled_back_keeps_its_damage() {
    let mut e = engine(10, 3);
    fill(&mut e, 8);
    e.take_damage();
    e.scroll_lines(1);
    assert!(e.take_damage().full);
    e.scroll_to_bottom();
    // The scroll itself damaged everything, and that was not taken yet.
    assert!(e.take_damage().full);
    assert!(!e.take_damage().full);
}

// ---- selection -----------------------------------------------------------------

#[test]
fn selections_grow_to_words_and_lines() {
    let mut e = engine(20, 3);
    feed(&mut e, "one two three\r\nnext");
    e.selection_start(0, 5, false, 1);
    assert_eq!(e.selection_text().as_deref(), Some("two"));
    e.selection_start(0, 5, false, 2);
    assert_eq!(e.selection_text().as_deref(), Some("one two three\n"));
    e.selection_start(0, 5, false, 0);
    assert_eq!(e.selection_text(), None);
    e.selection_update(1, 1, true);
    assert_eq!(e.selection_text().as_deref(), Some("wo three\nne"));
    assert!(e.selection_is_readable());
    // A row above the viewport counts as its first.
    e.selection_start(-3, 0, false, 0);
    e.selection_update(0, 2, true);
    assert_eq!(e.selection_text().as_deref(), Some("one"));
}

#[test]
fn updating_without_a_selection_does_nothing() {
    let mut e = engine(20, 3);
    feed(&mut e, "text");
    e.selection_update(0, 3, true);
    assert_eq!(e.selection_text(), None);
    assert!(e.selection_is_readable());
}

#[test]
fn a_selection_follows_the_scrolled_viewport() {
    let mut e = engine(10, 3);
    fill(&mut e, 10);
    e.scroll_lines(3);
    e.selection_start(0, 0, false, 0);
    e.selection_update(0, 5, true);
    assert_eq!(e.selection_text().as_deref(), Some("line05"));
    let u = e.full_snapshot();
    assert!((0..6).all(|c| u.lines[0].cell(c).flags & FLAG_SELECTED != 0));
    assert!((0..6).all(|c| u.lines[1].cell(c).flags & FLAG_SELECTED == 0));
    e.clear_history();
    assert_eq!((e.history_size(), e.selection_text()), (0, None));
}

// ---- search ----------------------------------------------------------------------

#[test]
fn a_search_wraps_around_and_scrolls() {
    let mut e = engine(10, 3);
    fill(&mut e, 10);
    assert!(e.search_set("line0[27]".to_string()));
    // The viewport starts at line08, so the search wraps to the top of the history.
    assert_eq!(e.full_snapshot().display_offset, 6);
    for (forward, row) in [(true, "line07"), (true, "line02"), (false, "line07"), (false, "line02")] {
        assert!(if forward { e.search_next() } else { e.search_prev() });
        let u = e.full_snapshot_searched();
        let current = u.lines[..3]
            .iter()
            .find(|l| l.flags.iter().any(|f| f & FLAG_MATCH_CURRENT != 0))
            .expect("the match is in view");
        assert_eq!(text(current), row);
    }
}

#[test]
fn a_pattern_that_is_not_there_is_not_found() {
    let mut e = engine(10, 3);
    feed(&mut e, "abc");
    assert!(e.search_set("xyz".to_string()));
    assert!(!e.search_next());
    assert!(!e.search_prev());
    e.search_clear();
    assert!(!e.search_next());
    assert!(!e.search_set("[".to_string()));
    assert!(!e.search_is_active());
}

#[test]
fn a_match_that_was_found_is_brought_into_view() {
    let mut e = engine(10, 3);
    fill(&mut e, 10);
    let at = |line: i32| CellRange { start_line: line, start_col: 0, end_line: line, end_col: 3 };
    assert!(!e.focus_match(None));
    assert!(e.focus_match(Some(at(-5))));
    assert_eq!(e.full_snapshot().display_offset, 5);
    assert!(e.focus_match(Some(at(-4))));
    assert_eq!(e.full_snapshot().display_offset, 5);
    assert!(e.focus_match(Some(at(-2))));
    assert_eq!(e.full_snapshot().display_offset, 4);
    assert!(e.focus_match(Some(at(2))));
    assert_eq!(e.full_snapshot().display_offset, 0);
}

#[test]
fn searching_starts_past_the_current_match() {
    let mut e = engine(4, 2);
    feed(&mut e, "abab");
    e.search_set("ab".to_string());
    // The match ends in the last column: the next search starts on the next line.
    assert!(e.search_next());
    assert!(e.search_next());
    let u = e.full_snapshot_searched();
    assert_ne!(u.lines[0].cell(0).flags & FLAG_MATCH_CURRENT, 0);
    assert!(e.search_prev());
    let u = e.full_snapshot_searched();
    assert_ne!(u.lines[0].cell(2).flags & FLAG_MATCH_CURRENT, 0);
}

#[test]
fn half_a_wide_character_in_front_is_noticed() {
    let mut e = engine(10, 3);
    feed(&mut e, "中文 text");
    e.selection_start(0, 0, false, 0);
    e.selection_update(0, 5, true);
    assert!(e.selection_is_readable());
    // Deleting the first cell leaves the second half of the glyph in column 0.
    feed(&mut e, "\x1b[H\x1b[P");
    e.selection_start(0, 0, false, 0);
    e.selection_update(0, 5, true);
    assert!(!e.selection_is_readable());
    e.selection_start(0, 2, false, 0);
    e.selection_update(0, 5, true);
    assert!(e.selection_is_readable());
    // A search meets it without ado, both ways.
    assert!(e.search_set("text".to_string()));
    assert!(e.search_prev() && e.search_next());
    let u = e.full_snapshot_searched();
    assert!((4..8).all(|c| u.lines[0].cell(c).flags & FLAG_MATCH_CURRENT != 0));
}

/// The cells of the viewport that are highlighted as matches, row by row.
fn highlights(u: &RenderUpdate, rows: usize) -> Vec<String> {
    u.lines[..rows]
        .iter()
        .map(|l| l.flags.iter().map(|f| if f & FLAG_MATCH != 0 { '#' } else { '.' }).collect())
        .collect()
}

#[test]
fn a_match_that_runs_past_the_screen_is_highlighted() {
    let mut e = engine(5, 2);
    // The wide character does not fit on the first line: a placeholder stands at its end.
    feed(&mut e, "abcd\u{4e2d}\r\nx\r\ny\r\nz");
    e.scroll_lines(2);
    assert!(e.search_set("d\u{4e2d}".to_string()));
    assert_eq!(highlights(&e.full_snapshot_searched(), 2), vec!["...##", "##..."]);
    // Its first line is the last one of the viewport.
    let mut e = engine(5, 2);
    feed(&mut e, "top\r\nabcd\u{4e2d}\r\nx\r\ny\r\nz");
    e.scroll_lines(3);
    assert!(e.search_set("\u{4e2d}".to_string()));
    e.scroll_lines(1);
    assert_eq!(e.full_snapshot().display_offset, 4);
    assert_eq!(highlights(&e.full_snapshot_searched(), 2), vec![".....", "....#"]);
    // It is the first thing in the viewport.
    e.scroll_lines(-2);
    assert_eq!(highlights(&e.full_snapshot_searched(), 2), vec!["##...", "....."]);
    assert!(e.search_next() && e.search_prev());
}

#[test]
fn a_placeholder_out_of_place_does_not_hold_a_search_up() {
    for sequence in ["\x1b[H\x1b[P", "\x1b[H\x1b[2P", "\x1b[H\x1b[@"] {
        let mut e = engine(5, 3);
        feed(&mut e, "abcd\u{4e2d}ef\u{4e2d}g\x1b[3;1Hb");
        feed(&mut e, sequence);
        for (pattern, there) in [("f", true), ("zz", false), (".", true), (".*", true)] {
            assert!(e.search_set(pattern.to_string()));
            for _ in 0..4 {
                assert_eq!(e.search_next(), there, "next {pattern} {sequence:?}");
                assert_eq!(e.search_prev(), there, "prev {pattern} {sequence:?}");
                e.full_snapshot_searched();
            }
        }
        // Where the placeholder jumps over the glyph behind it, the glyph is not found.
        assert!(e.search_set("\u{4e2d}".to_string()));
        e.search_next();
        e.search_prev();
        e.full_snapshot_searched();
    }
}

#[test]
fn a_search_to_the_left_goes_on_behind_a_placeholder() {
    // The placeholder of the wrapped character moves to the fourth column. The cell behind
    // it can be a match of its own.
    for (letters, pattern, places) in
        [("\x1b[1;6HX", "[cX]", vec![5, 0, 5, 0]), ("\x1b[1;5HZX", "[cZX]", vec![5, 4, 0, 5])]
    {
        let mut e = engine(6, 3);
        feed(&mut e, &format!("abcde\u{4e2d}\x1b[H\x1b[2P{letters}"));
        assert!(e.search_set(pattern.to_string()));
        for place in places {
            assert!(e.search_prev());
            let u = e.full_snapshot_searched();
            let at = (0..6).find(|c| u.lines[0].cell(*c).flags & FLAG_MATCH_CURRENT != 0);
            assert_eq!(at, Some(place), "{pattern}");
        }
    }
}

#[test]
fn every_match_of_the_viewport_is_highlighted() {
    let mut e = engine(6, 3);
    feed(&mut e, "aXaaX \r\nXX\r\n    aX");
    assert!(e.search_set("X".to_string()));
    assert_eq!(highlights(&e.full_snapshot_searched(), 3), vec![".#..#.", "##....", ".....#"]);
    assert!(e.search_set("aX".to_string()));
    assert_eq!(highlights(&e.full_snapshot_searched(), 3), vec!["##.##.", "......", "....##"]);
}

#[test]
fn searches_walk_over_all_matches_both_ways() {
    let mut e = engine(6, 3);
    feed(&mut e, "X..X\r\n.X\r\n..X");
    assert!(e.search_set("X".to_string()));
    let mut at = |step: &mut dyn FnMut(&mut TerminalEngine) -> bool| {
        assert!(step(&mut e));
        let u = e.full_snapshot_searched();
        (0..3)
            .flat_map(|r| (0..6).map(move |c| (r, c)))
            .find(|(r, c)| u.lines[*r].cell(*c).flags & FLAG_MATCH_CURRENT != 0)
            .unwrap()
    };
    let forward = [(0, 3), (1, 1), (2, 2), (0, 0), (0, 3)];
    for place in forward {
        assert_eq!(at(&mut |e| e.search_next()), place);
    }
    for place in [(0, 0), (2, 2), (1, 1), (0, 3), (0, 0)] {
        assert_eq!(at(&mut |e| e.search_prev()), place);
    }
}

#[test]
fn a_pattern_that_wears_out_its_cache_keeps_searching() {
    let mut e = engine(80, 24);
    let mut x: u32 = 12345;
    for _ in 0..400 {
        let row: String = (0..80)
            .map(|_| {
                x = x.wrapping_mul(1103515245).wrapping_add(12345);
                if x >> 16 & 1 == 0 { '0' } else { '1' }
            })
            .collect();
        feed(&mut e, &row);
    }
    assert!(e.search_set("[01]*1[01]{20}".to_string()));
    for _ in 0..3 {
        e.search_next();
        e.search_prev();
        e.full_snapshot_searched();
    }
}

// ---- hyperlinks ------------------------------------------------------------------

#[test]
fn hyperlinks_keep_their_ids() {
    let mut e = engine(20, 3);
    feed(&mut e, "\x1b]8;;http://a\x1b\\A\x1b]8;;http://b\x1b\\B\x1b]8;;\x1b\\-");
    let u = e.full_snapshot();
    let ids: Vec<u32> = (0..3).map(|c| u.lines[0].cell(c).hyperlink_id).collect();
    assert_eq!(ids, vec![1, 2, 0]);
    assert_eq!(u.lines[0].cell(2).flags & FLAG_HYPERLINK, 0);
    feed(&mut e, "\r\n\x1b]8;;http://b\x1b\\B\x1b]8;;http://c\x1b\\C\x1b]8;;\x1b\\");
    let u = e.take_damage();
    let row = u.lines.iter().find(|l| l.line == 1).unwrap();
    assert_eq!((row.cell(0).hyperlink_id, row.cell(1).hyperlink_id), (2, 3));
    for (id, uri) in [(1, "http://a"), (2, "http://b"), (3, "http://c")] {
        assert_eq!(e.resolve_hyperlink(id).as_deref(), Some(uri));
    }
    assert_eq!(e.resolve_hyperlink(4), None);
}
