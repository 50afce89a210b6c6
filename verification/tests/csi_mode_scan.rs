use rust_lib_flutter_alacritty::csi_mode_scan::ColorSchemeToggle::{Subscribe, Unsubscribe};
use rust_lib_flutter_alacritty::csi_mode_scan::{ColorSchemeToggle, CsiModeScanner};

fn scan(bytes: &[u8]) -> Vec<ColorSchemeToggle> {
    CsiModeScanner::new().feed(bytes)
}

#[test]
fn subscribe_sequence() {
    assert_eq!(scan(b"\x1b[?2031h"), vec![Subscribe]);
}

#[test]
fn unsubscribe_sequence() {
    assert_eq!(scan(b"\x1b[?2031l"), vec![Unsubscribe]);
}

#[test]
fn surrounded_by_text() {
    assert_eq!(scan(b"before\x1b[?2031hafter"), vec![Subscribe]);
}

#[test]
fn ignores_other_private_modes() {
    // Bracketed paste + alt screen must not be mistaken for 2031.
    assert!(scan(b"\x1b[?2004h\x1b[?1049h").is_empty());
}

#[test]
fn mode_2031_among_other_params() {
    assert_eq!(scan(b"\x1b[?1049;2031h"), vec![Subscribe]);
    assert_eq!(scan(b"\x1b[?2031;1004l"), vec![Unsubscribe]);
}

#[test]
fn substring_param_does_not_match() {
    // "12031" / "20310" must not be read as 2031.
    assert!(scan(b"\x1b[?12031h").is_empty());
    assert!(scan(b"\x1b[?20310h").is_empty());
}

#[test]
fn split_across_feeds() {
    let mut s = CsiModeScanner::new();
    assert!(s.feed(b"\x1b[?20").is_empty());
    assert!(s.feed(b"31").is_empty());
    assert_eq!(s.feed(b"h"), vec![Subscribe]);
}

#[test]
fn split_at_introducer() {
    let mut s = CsiModeScanner::new();
    assert!(s.feed(b"\x1b").is_empty());
    assert!(s.feed(b"[?2031").is_empty());
    assert_eq!(s.feed(b"l"), vec![Unsubscribe]);
}

#[test]
fn aborted_by_new_escape() {
    // ESC mid-params abandons the first attempt, then a clean sequence wins.
    assert_eq!(scan(b"\x1b[?20\x1b[?2031h"), vec![Subscribe]);
}

#[test]
fn multiple_toggles_in_order() {
    assert_eq!(
        scan(b"\x1b[?2031h\x1b[?2031l\x1b[?2031h"),
        vec![Subscribe, Unsubscribe, Subscribe]
    );
}

#[test]
fn runaway_params_abort() {
    let mut input = b"\x1b[?".to_vec();
    input.extend(std::iter::repeat(b'1').take(200));
    input.push(b'h');
    assert!(scan(&input).is_empty());
}

#[test]
fn plain_csi_without_question_mark_ignored() {
    // SGR and a non-private CSI must never enter the params accumulator.
    assert!(scan(b"\x1b[2031h\x1b[31m").is_empty());
}

#[test]
fn chunk_boundaries_do_not_matter() {
    let input = b"x\x1b[?1049;2031hy\x1b[?2031lz\x1b[?2031";
    let whole = scan(input);
    assert_eq!(whole, vec![Subscribe, Unsubscribe]);
    for cut in 0..input.len() {
        let mut s = CsiModeScanner::new();
        let mut seen = s.feed(&input[..cut]);
        seen.extend(s.feed(&input[cut..]));
        assert_eq!(seen, whole, "cut at {cut}");
        assert_eq!(s.feed(b"h"), vec![Subscribe], "cut at {cut}");
    }
}

#[test]
fn bytes_without_escape_are_ignored() {
    assert!(scan(b"[?2031h plain text; 2031h").is_empty());
    assert!(scan(b"").is_empty());
}

#[test]
fn parameters_up_to_the_limit_are_read() {
    // 64 bytes of parameters, the last field of which is the mode.
    let mut fits = b"\x1b[?".to_vec();
    fits.extend(std::iter::repeat(b'1').take(59));
    fits.extend(b";2031h");
    assert_eq!(scan(&fits), vec![Subscribe]);
    let mut too_long = b"\x1b[?".to_vec();
    too_long.extend(std::iter::repeat(b'1').take(60));
    too_long.extend(b";2031h");
    assert!(scan(&too_long).is_empty());
}

#[test]
fn a_foreign_byte_ends_the_sequence() {
    assert!(scan(b"\x1b[?2031 h").is_empty());
    assert!(scan(b"\x1b[?2031$p").is_empty());
    assert_eq!(scan(b"\x1b[?20x\x1b[?2031l"), vec![Unsubscribe]);
}

#[test]
fn the_default_scanner_is_a_new_one() {
    let mut s = CsiModeScanner::default();
    assert_eq!(s.feed(b"\x1b[?2031h"), vec![Subscribe]);
}
