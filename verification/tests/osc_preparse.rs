use rust_lib_flutter_alacritty::event_proxy::EngineEvent;
use rust_lib_flutter_alacritty::osc_preparse::{
    extract_osc_events, find_osc_introducer, find_semicolon_or_non_digit, find_st,
    format_osc777_notify, is_semicolon_at, parse_osc_sequence, parse_param, st_len, OscParam,
    OscParseResult,
};
use rust_lib_flutter_alacritty::text::is_white_space;

// ---- helpers -----------------------------------------------------------

fn extract(bytes: &[u8]) -> (Vec<u8>, Vec<EngineEvent>) {
    extract_osc_events(bytes)
}

fn working_dir(s: &str) -> EngineEvent {
    EngineEvent::WorkingDir(s.into())
}

fn notify(s: &str) -> EngineEvent {
    EngineEvent::Notify(s.into())
}

// ---- passthrough (non-intercepted OSCs) --------------------------------

#[test]
fn unknown_osc_passthrough() {
    // OSC 0 (title) — vte handles this, we pass it through.
    let input = b"\x1b]0;my title\x07";
    let (f, e) = extract(input);
    assert_eq!(f, input);
    assert!(e.is_empty());
}

#[test]
fn plain_text_passthrough() {
    let input = b"hello world";
    let (f, e) = extract(input);
    assert_eq!(f, b"hello world");
    assert!(e.is_empty());
}

#[test]
fn text_with_esc_not_osc() {
    // ESC alone without ] — not an OSC introducer.
    let input = b"abc\x1b[31mred\x1b[0m";
    let (f, e) = extract(input);
    assert_eq!(f, b"abc\x1b[31mred\x1b[0m");
    assert!(e.is_empty());
}

// ---- OSC 7 (cwd) -------------------------------------------------------

#[test]
fn osc7_bel_terminated() {
    let input = b"before\x1b]7;file://myhost/home/user\x07after";
    let (f, e) = extract(input);
    assert_eq!(f, b"beforeafter");
    assert_eq!(e.len(), 1);
    assert_eq!(e[0], working_dir("file://myhost/home/user"));
}

#[test]
fn osc7_st_terminated() {
    let input = b"before\x1b]7;file://host/path\x1b\\after";
    let (f, e) = extract(input);
    assert_eq!(f, b"beforeafter");
    assert_eq!(e.len(), 1);
    assert_eq!(e[0], working_dir("file://host/path"));
}

#[test]
fn osc7_multiple() {
    let input = b"\x1b]7;file://a/dir1\x07middle\x1b]7;file://a/dir2\x07end";
    let (f, e) = extract(input);
    assert_eq!(f, b"middleend");
    assert_eq!(e.len(), 2);
    assert_eq!(e[0], working_dir("file://a/dir1"));
    assert_eq!(e[1], working_dir("file://a/dir2"));
}

// ---- OSC 9 (notify) ----------------------------------------------------

#[test]
fn osc9_simple() {
    let input = b"\x1b]9;Build complete\x07";
    let (f, e) = extract(input);
    assert_eq!(f, b"");
    assert_eq!(e.len(), 1);
    assert_eq!(e[0], notify("Build complete"));
}

#[test]
fn osc9_bel_terminated_with_text() {
    let input = b"run\x1b]9;done\x07next";
    let (f, e) = extract(input);
    assert_eq!(f, b"runnext");
    assert_eq!(e.len(), 1);
    assert_eq!(e[0], notify("done"));
}

#[test]
fn osc9_empty_body() {
    let input = b"\x1b]9;\x07";
    let (f, e) = extract(input);
    assert_eq!(f, b"");
    assert_eq!(e.len(), 1);
    assert_eq!(e[0], notify(""));
}

// ---- OSC 777 (notify with title) ---------------------------------------

#[test]
fn osc777_with_title_and_body() {
    let input = b"\x1b]777;notify;CI finished;All tests passed\x07";
    let (f, e) = extract(input);
    assert_eq!(f, b"");
    assert_eq!(e.len(), 1);
    // Combined: title\0body
    assert_eq!(e[0], notify("CI finished\0All tests passed"));
}

#[test]
fn osc777_notify_only_title() {
    let input = b"\x1b]777;notify;Done\x07";
    let (f, e) = extract(input);
    assert_eq!(f, b"");
    assert_eq!(e.len(), 1);
    assert_eq!(e[0], notify("Done"));
}

#[test]
fn osc777_no_notify_prefix() {
    let input = b"\x1b]777;raw message here\x07";
    let (f, e) = extract(input);
    assert_eq!(f, b"");
    assert_eq!(e.len(), 1);
    assert_eq!(e[0], notify("raw message here"));
}

// ---- edge cases --------------------------------------------------------

#[test]
fn malformed_no_semicolon_passthrough() {
    let input = b"\x1b]7file://nope\x07rest";
    let (f, e) = extract(input);
    assert_eq!(f, input);
    assert!(e.is_empty());
}

#[test]
fn malformed_non_numeric_param_passthrough() {
    let input = b"\x1b]abc;payload\x07";
    let (f, e) = extract(input);
    assert_eq!(f, input);
    assert!(e.is_empty());
}

#[test]
fn incomplete_no_terminator() {
    let input = b"prefix\x1b]7;file://incomplete";
    let (f, e) = extract(input);
    // The ESC ] ... part is passed through because we can't be sure it's
    // complete. Next advance() may get the rest.
    assert_eq!(f, input);
    assert!(e.is_empty());
}

#[test]
fn payload_too_long_passthrough() {
    let big = "x".repeat(5000);
    let input = format!("\x1b]7;{}\x07", big);
    let (f, e) = extract(input.as_bytes());
    assert_eq!(f, input.as_bytes());
    assert!(e.is_empty());
}

#[test]
fn mixed_osc_and_regular() {
    let input = b"\x1b]9;notif\x07regular\x1b]7;file://cwd\x07more";
    let (f, e) = extract(input);
    assert_eq!(f, b"regularmore");
    assert_eq!(e.len(), 2);
    assert_eq!(e[0], notify("notif"));
    assert_eq!(e[1], working_dir("file://cwd"));
}

#[test]
fn osc_8_hyperlink_passthrough() {
    // vte handles OSC 8 — we must pass it through.
    let input = b"\x1b]8;id=foo;https://example.com\x07text\x1b]8;;\x07";
    let (f, e) = extract(input);
    assert_eq!(f, input);
    assert!(e.is_empty());
}

#[test]
fn osc_52_clipboard_passthrough() {
    // vte handles OSC 52 — pass through.
    let input = b"\x1b]52;c;dGhpcyBpcyBhIHRlc3Q=\x07";
    let (f, e) = extract(input);
    assert_eq!(f, input);
    assert!(e.is_empty());
}

// ---- what lies around a sequence ---------------------------------------

#[test]
fn scanning_goes_on_behind_a_foreign_sequence() {
    let (f, e) = extract(b"a\x1b]0;title\x07b\x1b]7;file://h/p\x07c");
    assert_eq!(f, b"a\x1b]0;title\x07bc");
    assert_eq!(e, vec![working_dir("file://h/p")]);
    let (f, e) = extract(b"\x1b]0;t\x07\x1b]7;file://h/p\x07x");
    assert_eq!(f, b"\x1b]0;t\x07x");
    assert_eq!(e, vec![working_dir("file://h/p")]);
    // A malformed one ends with its terminator too, be it the first thing in it.
    for odd in [
        &b"\x1b]\x07"[..],
        b"\x1b]7\x1b\\",
        b"\x1b]7x;y\x07",
        b"\x1b];a\x07",
        b"\x1b]777777;a\x1b\\",
    ] {
        let (f, e) = extract(&[odd, b"|\x1b]9;n\x07|"].concat());
        assert_eq!(f, [odd, b"||"].concat());
        assert_eq!(e, vec![notify("n")]);
    }
    // Without one it takes the rest of the chunk along.
    let open = b"\x1b]0;title\x1b]9;n";
    let (f, e) = extract(open);
    assert_eq!(f, open);
    assert!(e.is_empty());
}

#[test]
fn a_sequence_is_parsed_to_its_end() {
    let end = |bytes: &[u8]| match parse_osc_sequence(bytes, 0) {
        OscParseResult::Passthrough { end } => Some(end),
        _ => None,
    };
    assert_eq!(end(b"0;t\x07abc"), Some(4));
    assert_eq!(end(b"0;t\x1b\\abc"), Some(5));
    assert_eq!(end(b"0;t"), Some(3));
    assert_eq!(end(b"12"), Some(2));
    assert_eq!(end(b"7;\x07abc"), Some(3));
    assert!(matches!(parse_osc_sequence(b"7;open", 0), OscParseResult::Incomplete));
    match parse_osc_sequence(b"9;m\x07abc", 0) {
        OscParseResult::Known { param, payload, end } => {
            assert_eq!((param, payload.as_str(), end), (OscParam::Nine, "m", 4));
        }
        _ => panic!("a plain notification is taken out"),
    }
}

#[test]
fn an_empty_payload_is_a_plain_notification_alone() {
    for input in [&b"\x1b]7;\x07"[..], b"\x1b]7;\x1b\\", b"\x1b]777;\x07"] {
        let (f, e) = extract(input);
        assert_eq!(f, input);
        assert!(e.is_empty());
    }
    let (f, e) = extract(b"<\x1b]9;\x07>");
    assert_eq!(f, b"<>");
    assert_eq!(e, vec![notify("")]);
}

#[test]
fn a_payload_of_the_longest_length_is_taken() {
    let body = "y".repeat(4096);
    let (f, e) = extract(format!("<\x1b]9;{body}\x1b\\>").as_bytes());
    assert_eq!(f, b"<>");
    assert_eq!(e, vec![notify(&body)]);
}

#[test]
fn scanning_goes_on_behind_a_long_payload() {
    let long = format!("\x1b]9;{}\x07", "z".repeat(4097));
    let (f, e) = extract(format!("{long}|\x1b]9;short\x07|").as_bytes());
    assert_eq!(f, format!("{long}||").as_bytes());
    assert_eq!(e, vec![notify("short")]);
}

#[test]
fn a_lone_escape_is_part_of_the_payload() {
    let (f, e) = extract(b"\x1b]9;a\x1bb\x07c");
    assert_eq!(f, b"c");
    assert_eq!(e, vec![notify("a\x1bb")]);
    let (f, e) = extract(b"\x1b]9;a\x1b\x1b\\c");
    assert_eq!(f, b"c");
    assert_eq!(e, vec![notify("a\x1b")]);
}

#[test]
fn invalid_utf8_is_replaced() {
    let (f, e) = extract(b"\x1b]9;a\xffb\x07");
    assert!(f.is_empty());
    assert_eq!(e, vec![notify("a\u{FFFD}b")]);
    let (_, e) = extract("\x1b]9;中文\x07".as_bytes());
    assert_eq!(e, vec![notify("中文")]);
}

#[test]
fn parameters_are_read_to_the_letter() {
    for param in ["", "07", "77", "7777", "70", "99", "6", "000777"] {
        let input = format!("\x1b]{param};payload\x07");
        let (f, e) = extract(input.as_bytes());
        assert_eq!(f, input.as_bytes(), "param {param:?}");
        assert!(e.is_empty(), "param {param:?}");
    }
}

#[test]
fn unterminated_sequences_pass() {
    for input in [&b"\x1b]"[..], b"\x1b]7", b"\x1b]7;", b"\x1b]777;notify;a;b", b"\x1b]9;a\x1b", b"\x1b"] {
        let (f, e) = extract(input);
        assert_eq!(f, input);
        assert!(e.is_empty());
    }
    let (f, e) = extract(b"");
    assert!(f.is_empty());
    assert!(e.is_empty());
}

#[test]
fn only_the_first_terminator_ends_a_sequence() {
    let (f, e) = extract(b"\x1b]9;a\x07b\x07\x1b]9;c\x1b\\\x07");
    assert_eq!(f, b"b\x07\x07");
    assert_eq!(e, vec![notify("a"), notify("c")]);
}

// ---- OSC 777 payloads --------------------------------------------------

#[test]
fn titled_notifications_are_trimmed() {
    assert_eq!(format_osc777_notify("notify; Title ; Body; more "), "Title\0Body; more");
    assert_eq!(format_osc777_notify("notify Title"), "notify Title");
    assert_eq!(format_osc777_notify("notify hello"), "notify hello");
    assert_eq!(format_osc777_notify("notify;\u{3000}a\u{2003};\u{a0}b\t"), "a\0b");
    assert_eq!(format_osc777_notify("notify;"), "");
    assert_eq!(format_osc777_notify("notify;;"), "\0");
    assert_eq!(format_osc777_notify("notify"), "notify");
    assert_eq!(format_osc777_notify("notifyx;a;b"), "notifyx;a;b");
    assert_eq!(format_osc777_notify("Notify;a;b"), "Notify;a;b");
    assert_eq!(format_osc777_notify(" notify;a"), " notify;a");
    assert_eq!(format_osc777_notify(""), "");
}

#[test]
fn white_space_is_that_of_the_standard_library() {
    for c in '\0'..=char::MAX {
        assert_eq!(is_white_space(c), c.is_whitespace(), "{:x}", c as u32);
    }
}

// ---- the parts of the parser --------------------------------------------

#[test]
fn positions_are_found() {
    let bytes = b"ab\x1b]12;x\x1b\\y\x07";
    assert_eq!(find_osc_introducer(bytes, 0), Some(2));
    assert_eq!(find_osc_introducer(bytes, 3), None);
    assert_eq!(find_semicolon_or_non_digit(bytes, 4), Some(6));
    assert_eq!(find_semicolon_or_non_digit(b"123", 0), None);
    assert!(is_semicolon_at(bytes, 6));
    assert!(!is_semicolon_at(bytes, 7));
    assert!(!is_semicolon_at(bytes, 100));
    assert_eq!(find_st(bytes, 7), Some(8));
    assert_eq!(find_st(bytes, 10), Some(11));
    assert_eq!(find_st(b"\x1b", 0), None);
    assert_eq!(st_len(0x07), 1);
    assert_eq!(st_len(0x1b), 2);
    assert_eq!(parse_param(b"7"), Some(OscParam::Seven));
    assert_eq!(parse_param(b"9"), Some(OscParam::Nine));
    assert_eq!(parse_param(b"777"), Some(OscParam::SevenSevenSeven));
    assert_eq!(parse_param(b"77"), None);
}

#[test]
fn runs_are_extracted_independently() {
    let first = b"a\x1b]7;file://x\x07b\x1b]0;t\x07\x1b]9;n\x1b\\c";
    for rest in [&b"plain"[..], b"\x1b]9;m\x07d", b"\x1b]0;t\x07\x1b]9;m\x07", b"\x1b]9;open", b""] {
        let (f1, e1) = extract(first);
        let (f2, e2) = extract(rest);
        let (f, e) = extract(&[first, rest].concat());
        assert_eq!(f, [f1, f2].concat());
        assert_eq!(e, [e1, e2].concat());
    }
}
