//! Pre-parser that scans incoming PTY bytes for OSC sequences that the `vte`
//! parser drops (OSC 7, 9, 777) and extracts them before the bytes reach it.
//!
//! | OSC | Format | Event |
//! |-----|--------|-------|
//! | 7   | `ESC ] 7 ; file://host/path ST` | `EngineEvent::WorkingDir` |
//! | 9   | `ESC ] 9 ; <message> ST` | `EngineEvent::Notify` |
//! | 777 | `ESC ] 777 ; notify; <title>; <body> ST` | `EngineEvent::Notify` ("title\0body") |
//!
//! ST (string terminator) is BEL (`0x07`) or `ESC \` (`0x1b 0x5c`).
//!
//! The slice is walked once, building a filtered output buffer and a list of
//! extracted events. A sequence with any other parameter, a malformed one, and one
//! whose payload is too long, or empty where a message must be, pass through
//! unmodified; the walk goes on behind their terminator.

use crate::ascii;
use crate::ascii::{BACKSLASH, BEL, ESC, NINE, RIGHT_BRACKET, SEMICOLON, ZERO};
use crate::event_proxy;
use crate::event_proxy::{EngineEvent, EventView};
use crate::text;
use crate::text::{chars_of, decode_lossy, trim_bounds};
use vstd::prelude::*;
use vstd::string::*;

verus! {

/// Maximum payload length to accept for OSC 7/9/777 (4 KiB). Longer payloads
/// pass through unmodified: they are likely not valid OSC sequences.
pub const MAX_PAYLOAD: usize = 4096;

/// Maximum parameter length: "777" is 3 chars, but cap at 5 to be safe.
pub const MAX_PARAM: usize = 5;

/// The parameters that are intercepted.
#[derive(Debug, PartialEq, Eq, Structural)]
pub enum OscParam {
    Seven,
    Nine,
    SevenSevenSeven,
}

/// How one OSC sequence is disposed of.
pub enum OscParseResult {
    /// Recognized OSC (7/9/777): strip from output, emit event.
    Known { param: OscParam, payload: String, end: usize },
    /// Unknown param or malformed: copy original bytes through to `end`.
    Passthrough { end: usize },
    /// ST not found in remaining buffer: copy everything through.
    Incomplete,
}

/// The contents of an [`OscParseResult`].
pub enum OscView {
    Known { param: OscParam, payload: Seq<char>, end: int },
    Passthrough { end: int },
    Incomplete,
}

impl View for OscParseResult {
    type V = OscView;

    open spec fn view(&self) -> OscView {
        match *self {
            OscParseResult::Known { param, payload, end } => OscView::Known {
                param,
                payload: payload@,
                end: end as int,
            },
            OscParseResult::Passthrough { end } => OscView::Passthrough { end: end as int },
            OscParseResult::Incomplete => OscView::Incomplete,
        }
    }
}

/// The first position at or after `from` where `hit` holds, if there is one
/// before `end`.
pub open spec fn first_from(hit: spec_fn(int) -> bool, from: int, end: int) -> Option<int>
    decreases end - from,
{
    if from >= end {
        None
    } else if hit(from) {
        Some(from)
    } else {
        first_from(hit, from + 1, end)
    }
}

/// `ESC ]` stands at `i`.
pub open spec fn introducer_at(bytes: Seq<u8>, i: int) -> bool {
    0 <= i && i + 1 < bytes.len() && bytes[i] == ESC && bytes[i + 1] == RIGHT_BRACKET
}

/// A string terminator (BEL or `ESC \`) stands at `i`.
pub open spec fn st_at(bytes: Seq<u8>, i: int) -> bool {
    &&& 0 <= i < bytes.len()
    &&& bytes[i] == BEL || (bytes[i] == ESC && i + 1 < bytes.len() && bytes[i + 1] == BACKSLASH)
}

/// Where the next `ESC ]` at or after `from` stands.
pub open spec fn next_introducer(bytes: Seq<u8>, from: int) -> Option<int> {
    first_from(|i: int| introducer_at(bytes, i), from, bytes.len() as int)
}

/// Where the next string terminator at or after `from` stands.
pub open spec fn next_st(bytes: Seq<u8>, from: int) -> Option<int> {
    first_from(|i: int| st_at(bytes, i), from, bytes.len() as int)
}

/// Where the run of digits that starts at `from` ends.
pub open spec fn next_non_digit(bytes: Seq<u8>, from: int) -> Option<int> {
    first_from(|i: int| !ascii::is_digit(bytes[i]), from, bytes.len() as int)
}

/// Length of the string terminator whose first byte is `byte`.
pub open spec fn st_width(byte: u8) -> int {
    if byte == ESC {
        2
    } else {
        1
    }
}

/// The parameter that the digits spell, if it is one that is intercepted.
pub open spec fn param_of(digits: Seq<u8>) -> Option<OscParam> {
    if digits == seq![0x37u8] {
        Some(OscParam::Seven)
    } else if digits == seq![0x39u8] {
        Some(OscParam::Nine)
    } else if digits == seq![0x37u8, 0x37, 0x37] {
        Some(OscParam::SevenSevenSeven)
    } else {
        None
    }
}

/// The parameter at `start` and the place of the `;` behind it, where the parameter
/// is one that is intercepted.
pub open spec fn intercepted(bytes: Seq<u8>, start: int) -> Option<(OscParam, int)> {
    match next_non_digit(bytes, start) {
        Some(semi) => if bytes[semi] != SEMICOLON {
            None
        } else {
            match param_of(bytes.subrange(start, semi)) {
                Some(param) => Some((param, semi)),
                None => None,
            }
        },
        None => None,
    }
}

/// Just behind the first terminator at or after `start`, or the end of the bytes.
pub open spec fn sequence_end(bytes: Seq<u8>, start: int) -> int {
    match next_st(bytes, start) {
        Some(st) => st + st_width(bytes[st]),
        None => bytes.len() as int,
    }
}

/// The payload can be that of an event: it is not too long, and it is empty for a
/// plain notification only.
pub open spec fn is_fit(param: OscParam, payload: Seq<u8>) -> bool {
    payload.len() <= MAX_PAYLOAD && (payload.len() > 0 || param == OscParam::Nine)
}

/// What becomes of the OSC sequence whose parameter starts at `start`.
pub open spec fn parsed(bytes: Seq<u8>, start: int) -> OscView {
    if start >= bytes.len() {
        OscView::Incomplete
    } else {
        match intercepted(bytes, start) {
            None => OscView::Passthrough { end: sequence_end(bytes, start) },
            Some((param, semi)) => match next_st(bytes, semi + 1) {
                None => OscView::Incomplete,
                Some(st) => {
                    let end = st + st_width(bytes[st]);
                    let payload = bytes.subrange(semi + 1, st);
                    if is_fit(param, payload) {
                        OscView::Known { param, payload: text::utf8_lossy(payload), end }
                    } else {
                        OscView::Passthrough { end }
                    }
                },
            },
        }
    }
}

/// The word that opens a titled notification.
pub open spec fn notify_word() -> Seq<char> {
    seq!['n', 'o', 't', 'i', 'f', 'y']
}

/// The payload opens with `notify;`.
pub open spec fn is_titled(raw: Seq<char>) -> bool {
    &&& raw.len() >= 7
    &&& raw.take(6) == notify_word()
    &&& raw[6] == ';'
}

/// The text that an OSC 777 payload stands for: `title\0body`, the title alone
/// where there is no body, and the payload itself where it is not titled.
pub open spec fn notify_text(raw: Seq<char>) -> Seq<char> {
    if !is_titled(raw) {
        raw
    } else {
        match first_from(|i: int| raw[i] == ';', 7, raw.len() as int) {
            Some(semi) => text::trim(raw.subrange(7, semi)) + seq!['\0'] + text::trim(
                raw.subrange(semi + 1, raw.len() as int),
            ),
            None => text::trim(raw.subrange(7, raw.len() as int)),
        }
    }
}

/// The event that an intercepted sequence stands for.
pub open spec fn event_of(param: OscParam, payload: Seq<char>) -> EventView {
    match param {
        OscParam::Seven => EventView::WorkingDir(payload),
        OscParam::Nine => EventView::Notify(payload),
        OscParam::SevenSevenSeven => EventView::Notify(notify_text(payload)),
    }
}

/// What becomes of the bytes from `pos` on: those that are kept, and the events
/// that the others stand for.
pub open spec fn extracted(bytes: Seq<u8>, pos: int) -> (Seq<u8>, Seq<EventView>)
    decreases bytes.len() - pos,
{
    let len = bytes.len() as int;
    if pos < 0 || pos >= len {
        (Seq::empty(), Seq::empty())
    } else {
        match next_introducer(bytes, pos) {
            None => (bytes.subrange(pos, len), Seq::empty()),
            Some(intro) => {
                proof {
                    first_from_bounds(|i: int| introducer_at(bytes, i), pos, len);
                    parsed_bounds(bytes, intro + 2);
                }
                match parsed(bytes, intro + 2) {
                    OscView::Known { param, payload, end } => {
                        let rest = extracted(bytes, end);
                        (
                            bytes.subrange(pos, intro) + rest.0,
                            seq![event_of(param, payload)] + rest.1,
                        )
                    },
                    OscView::Passthrough { end } => {
                        let rest = extracted(bytes, end);
                        (bytes.subrange(pos, end) + rest.0, rest.1)
                    },
                    OscView::Incomplete => (bytes.subrange(pos, len), Seq::empty()),
                }
            },
        }
    }
}

/// What [`first_from`] finds is the first hit, and there is none where it finds none.
pub proof fn first_from_bounds(hit: spec_fn(int) -> bool, from: int, end: int)
    ensures
        match first_from(hit, from, end) {
            Some(i) => {
                &&& from <= i < end
                &&& hit(i)
                &&& forall|j: int| from <= j < i ==> !#[trigger] hit(j)
            },
            None => forall|j: int| from <= j < end ==> !#[trigger] hit(j),
        },
    decreases end - from,
{
    if from < end && !hit(from) {
        first_from_bounds(hit, from + 1, end);
    }
}

proof fn first_from_is(hit: spec_fn(int) -> bool, from: int, end: int, at: int)
    requires
        from <= at < end,
        hit(at),
        forall|j: int| from <= j < at ==> !#[trigger] hit(j),
    ensures
        first_from(hit, from, end) == Some(at),
    decreases at - from,
{
    if from < at {
        first_from_is(hit, from + 1, end, at);
    }
}

proof fn first_from_none(hit: spec_fn(int) -> bool, from: int, end: int)
    requires
        forall|j: int| from <= j < end ==> !#[trigger] hit(j),
    ensures
        first_from(hit, from, end) is None,
    decreases end - from,
{
    if from < end {
        first_from_none(hit, from + 1, end);
    }
}

/// Parsing moves forward and stays inside the bytes.
pub proof fn parsed_bounds(bytes: Seq<u8>, start: int)
    requires
        0 <= start <= bytes.len(),
    ensures
        match parsed(bytes, start) {
            OscView::Known { end, .. } => start < end <= bytes.len(),
            OscView::Passthrough { end } => start <= end <= bytes.len(),
            OscView::Incomplete => true,
        },
{
    let len = bytes.len() as int;
    first_from_bounds(|i: int| !ascii::is_digit(bytes[i]), start, len);
    first_from_bounds(|i: int| st_at(bytes, i), start, len);
    if let Some(semi) = next_non_digit(bytes, start) {
        first_from_bounds(|i: int| st_at(bytes, i), semi + 1, len);
    }
}

/// Where the next `ESC ]` at or after `start` stands.
pub fn find_osc_introducer(bytes: &[u8], start: usize) -> (r: Option<usize>)
    requires
        start <= bytes@.len(),
    ensures
        match r {
            Some(i) => next_introducer(bytes@, start as int) == Some(i as int),
            None => next_introducer(bytes@, start as int) is None,
        },
{
    let ghost hit = |i: int| introducer_at(bytes@, i);
    let len: usize = bytes.len();
    let mut i: usize = start;
    while i < len
        invariant
            start <= i <= len == bytes@.len(),
            hit == (|i: int| introducer_at(bytes@, i)),
            forall|j: int| start <= j < i ==> !#[trigger] hit(j),
        decreases len - i,
    {
        if bytes[i] == ESC && i + 1 < len && bytes[i + 1] == RIGHT_BRACKET {
            proof {
                first_from_is(hit, start as int, len as int, i as int);
            }
            return Some(i);
        }
        i = i + 1;
    }
    proof {
        first_from_none(hit, start as int, len as int);
    }
    None
}

/// Length of the string terminator that starts with `byte`.
pub fn st_len(byte: u8) -> (r: usize)
    ensures
        r == st_width(byte),
{
    if byte == ESC {
        2
    } else {
        1
    }
}

/// The first string terminator (BEL or `ESC \`) at or after `start`.
pub fn find_st(bytes: &[u8], start: usize) -> (r: Option<usize>)
    requires
        start <= bytes@.len(),
    ensures
        match r {
            Some(i) => next_st(bytes@, start as int) == Some(i as int) && st_at(bytes@, i as int),
            None => next_st(bytes@, start as int) is None,
        },
{
    let ghost hit = |i: int| st_at(bytes@, i);
    let len: usize = bytes.len();
    let mut i: usize = start;
    while i < len
        invariant
            start <= i <= len == bytes@.len(),
            hit == (|i: int| st_at(bytes@, i)),
            forall|j: int| start <= j < i ==> !#[trigger] hit(j),
        decreases len - i,
    {
        if bytes[i] == BEL || (bytes[i] == ESC && i + 1 < len && bytes[i + 1] == BACKSLASH) {
            proof {
                first_from_is(hit, start as int, len as int, i as int);
            }
            return Some(i);
        }
        i = i + 1;
    }
    proof {
        first_from_none(hit, start as int, len as int);
    }
    None
}

/// The first byte at or after `start` that is no digit; a `;` is one such byte.
pub fn find_semicolon_or_non_digit(bytes: &[u8], start: usize) -> (r: Option<usize>)
    requires
        start <= bytes@.len(),
    ensures
        match r {
            Some(i) => next_non_digit(bytes@, start as int) == Some(i as int) && start <= i
                < bytes@.len(),
            None => next_non_digit(bytes@, start as int) is None,
        },
{
    let ghost hit = |i: int| !ascii::is_digit(bytes@[i]);
    let len: usize = bytes.len();
    let mut i: usize = start;
    while i < len
        invariant
            start <= i <= len == bytes@.len(),
            hit == (|i: int| !ascii::is_digit(bytes@[i])),
            forall|j: int| start <= j < i ==> !#[trigger] hit(j),
        decreases len - i,
    {
        let b: u8 = bytes[i];
        if b < ZERO || b > NINE {
            proof {
                first_from_is(hit, start as int, len as int, i as int);
            }
            return Some(i);
        }
        i = i + 1;
    }
    proof {
        first_from_none(hit, start as int, len as int);
    }
    None
}

/// Whether the byte at `pos` is there and is a semicolon. Behind
/// [`find_semicolon_or_non_digit`] it tells `Ps;Pt` from a malformed `PsX`.
pub fn is_semicolon_at(bytes: &[u8], pos: usize) -> (r: bool)
    ensures
        r == (pos < bytes@.len() && bytes@[pos as int] == SEMICOLON),
{
    pos < bytes.len() && bytes[pos] == SEMICOLON
}

/// The parameter that `bytes` spells, if it is one that is intercepted.
pub fn parse_param(bytes: &[u8]) -> (r: Option<OscParam>)
    ensures
        r == param_of(bytes@),
{
    let seven: u8 = 0x37;
    let nine: u8 = 0x39;
    let ghost b = bytes@;
    if bytes.len() == 1 {
        if bytes[0] == seven {
            assert(b =~= seq![0x37u8]);
            Some(OscParam::Seven)
        } else if bytes[0] == nine {
            assert(b =~= seq![0x39u8]);
            Some(OscParam::Nine)
        } else {
            assert(b[0] != seq![0x37u8][0] && b[0] != seq![0x39u8][0]);
            None
        }
    } else if bytes.len() == 3 && bytes[0] == seven && bytes[1] == seven && bytes[2] == seven {
        assert(b =~= seq![0x37u8, 0x37, 0x37]);
        Some(OscParam::SevenSevenSeven)
    } else {
        proof {
            let triple = seq![0x37u8, 0x37, 0x37];
            assert(triple[0] == 0x37 && triple[1] == 0x37 && triple[2] == 0x37);
        }
        None
    }
}

/// Parses an OSC sequence from just behind its `ESC ]`.
pub fn parse_osc_sequence(bytes: &[u8], start: usize) -> (r: OscParseResult)
    requires
        start <= bytes@.len(),
    ensures
        r@ == parsed(bytes@, start as int),
{
    let len: usize = bytes.len();
    if start >= len {
        return OscParseResult::Incomplete;
    }
    let semi: usize = match find_semicolon_or_non_digit(bytes, start) {
        Some(i) => i,
        None => return OscParseResult::Passthrough { end: find_end(bytes, start) },
    };
    if !is_semicolon_at(bytes, semi) || semi - start > MAX_PARAM {
        assert(bytes@.subrange(start as int, semi as int).len() == semi - start);
        return OscParseResult::Passthrough { end: find_end(bytes, start) };
    }
    let param: OscParam = match parse_param(vstd::slice::slice_subrange(bytes, start, semi)) {
        Some(p) => p,
        None => return OscParseResult::Passthrough { end: find_end(bytes, start) },
    };
    let st: usize = match find_st(bytes, semi + 1) {
        Some(i) => i,
        None => return OscParseResult::Incomplete,
    };
    proof {
        first_from_bounds(|i: int| st_at(bytes@, i), semi + 1, len as int);
    }
    let end: usize = st + st_len(bytes[st]);
    let size: usize = st - (semi + 1);
    if size > MAX_PAYLOAD || (size == 0 && param != OscParam::Nine) {
        return OscParseResult::Passthrough { end };
    }
    let payload: String = decode_lossy(vstd::slice::slice_subrange(bytes, semi + 1, st));
    OscParseResult::Known { param, payload, end }
}

/// Where the sequence whose parameter starts at `start` ends: just behind the first
/// terminator, or at the end of the bytes where there is none.
fn find_end(bytes: &[u8], start: usize) -> (r: usize)
    requires
        start <= bytes@.len(),
    ensures
        r == sequence_end(bytes@, start as int),
{
    proof {
        first_from_bounds(|i: int| st_at(bytes@, i), start as int, bytes@.len() as int);
    }
    match find_st(bytes, start) {
        Some(st) => st + st_len(bytes[st]),
        None => bytes.len(),
    }
}

/// Formats an OSC 777 payload: `notify; <title>; <body>` becomes
/// `<title>\0<body>`, so that the host can split it cheaply. A payload of another
/// form is returned as it is (a bare notification).
pub fn format_osc777_notify(raw: &str) -> (r: String)
    ensures
        r@ == notify_text(raw@),
{
    let chars: Vec<char> = chars_of(raw);
    let n: usize = chars.len();
    let titled: bool = n >= 7 && chars[0] == 'n' && chars[1] == 'o' && chars[2] == 't' && chars[3]
        == 'i' && chars[4] == 'f' && chars[5] == 'y' && chars[6] == ';';
    proof {
        if raw@.len() >= 7 {
            let head = raw@.take(6);
            let word = notify_word();
            assert(word[0] == 'n' && word[1] == 'o' && word[2] == 't' && word[3] == 'i' && word[4]
                == 'f' && word[5] == 'y');
            assert(forall|i: int| 0 <= i < 6 ==> head[i] == raw@[i]);
            if titled {
                assert(head =~= word);
            } else if head == word {
                assert(head[0] == raw@[0] && head[1] == raw@[1] && head[2] == raw@[2] && head[3]
                    == raw@[3] && head[4] == raw@[4] && head[5] == raw@[5]);
            }
        }
    }
    if !titled {
        return raw.to_owned();
    }
    let ghost hit = |i: int| raw@[i] == ';';
    let mut semi: usize = 7;
    while semi < n && chars[semi] != ';'
        invariant
            7 <= semi <= n == chars@.len(),
            chars@ == raw@,
            hit == (|i: int| raw@[i] == ';'),
            forall|j: int| 7 <= j < semi ==> !#[trigger] hit(j),
        decreases n - semi,
    {
        semi = semi + 1;
    }
    if semi < n {
        proof {
            first_from_is(hit, 7, n as int, semi as int);
        }
        let (a, b): (usize, usize) = trim_bounds(&chars, 7, semi);
        let (c, d): (usize, usize) = trim_bounds(&chars, semi + 1, n);
        let mut out: String = String::from_str(raw.substring_char(a, b));
        proof {
            reveal_strlit("\0");
            assert("\0"@ =~= seq!['\0']);
        }
        out.append("\0");
        out.append(raw.substring_char(c, d));
        out
    } else {
        proof {
            first_from_none(hit, 7, n as int);
        }
        let (a, b): (usize, usize) = trim_bounds(&chars, 7, n);
        String::from_str(raw.substring_char(a, b))
    }
}

/// Scans `bytes` for OSC 7/9/777, strips the matched sequences, and returns the
/// filtered bytes together with the extracted events.
#[verifier::loop_isolation(false)]
pub fn extract_osc_events(bytes: &[u8]) -> (r: (Vec<u8>, Vec<EngineEvent>))
    ensures
        r.0@ == extracted(bytes@, 0).0,
        event_proxy::event_views(r.1@) == extracted(bytes@, 0).1,
{
    let mut filtered: Vec<u8> = Vec::new();
    let mut events: Vec<EngineEvent> = Vec::new();
    let len: usize = bytes.len();
    let mut pos: usize = 0;
    while pos < len
        invariant
            pos <= len,
            filtered@ + extracted(bytes@, pos as int).0 == extracted(bytes@, 0).0,
            event_proxy::event_views(events@) + extracted(bytes@, pos as int).1 == extracted(
                bytes@,
                0,
            ).1,
        decreases len - pos,
    {
        let ghost here = extracted(bytes@, pos as int);
        let ghost kept = filtered@;
        let ghost seen = event_proxy::event_views(events@);
        proof {
            first_from_bounds(|i: int| introducer_at(bytes@, i), pos as int, len as int);
        }
        let intro: usize = match find_osc_introducer(bytes, pos) {
            Some(i) => i,
            None => {
                push_bytes(&mut filtered, bytes, pos, len);
                pos = len;
                assert(kept + here.0 + Seq::<u8>::empty() =~= kept + here.0);
                assert(seen + here.1 =~= seen + extracted(bytes@, len as int).1);
                continue;
            },
        };
        proof {
            parsed_bounds(bytes@, intro + 2);
        }
        match parse_osc_sequence(bytes, intro + 2) {
            OscParseResult::Known { param, payload, end } => {
                push_bytes(&mut filtered, bytes, pos, intro);
                let event: EngineEvent = match param {
                    OscParam::Seven => EngineEvent::WorkingDir(payload),
                    OscParam::Nine => EngineEvent::Notify(payload),
                    OscParam::SevenSevenSeven => EngineEvent::Notify(
                        format_osc777_notify(payload.as_str()),
                    ),
                };
                events.push(event);
                pos = end;
                proof {
                    let rest = extracted(bytes@, pos as int);
                    assert(event_proxy::event_views(events@) =~= seen.push(event@));
                    assert(filtered@ + rest.0 =~= kept + here.0);
                    assert(event_proxy::event_views(events@) + rest.1 =~= seen + here.1);
                }
            },
            OscParseResult::Passthrough { end } => {
                push_bytes(&mut filtered, bytes, pos, end);
                pos = end;
                assert(filtered@ + extracted(bytes@, pos as int).0 =~= kept + here.0);
            },
            OscParseResult::Incomplete => {
                push_bytes(&mut filtered, bytes, pos, len);
                pos = len;
                assert(kept + here.0 + Seq::<u8>::empty() =~= kept + here.0);
                assert(seen + here.1 =~= seen + extracted(bytes@, len as int).1);
            },
        }
    }
    proof {
        let rest = extracted(bytes@, pos as int);
        assert(filtered@ + rest.0 =~= filtered@);
        assert(event_proxy::event_views(events@) + rest.1 =~= event_proxy::event_views(events@));
    }
    (filtered, events)
}

/// Appends `bytes[from..to]` to `out`.
fn push_bytes(out: &mut Vec<u8>, bytes: &[u8], from: usize, to: usize)
    requires
        from <= to <= bytes@.len(),
    ensures
        final(out)@ == old(out)@ + bytes@.subrange(from as int, to as int),
{
    let part: &[u8] = vstd::slice::slice_subrange(bytes, from, to);
    out.extend_from_slice(part);
    assert(out@ =~= old(out)@ + bytes@.subrange(from as int, to as int));
}

proof fn first_from_shift(
    far: spec_fn(int) -> bool,
    near: spec_fn(int) -> bool,
    by: int,
    from: int,
    end: int,
)
    requires
        forall|j: int| from <= j < end ==> #[trigger] near(j) == far(j + by),
    ensures
        first_from(far, from + by, end + by) == (match first_from(near, from, end) {
            Some(i) => Some(i + by),
            None => None,
        }),
    decreases end - from,
{
    if from < end {
        assert(near(from) == far(from + by));
        if !near(from) {
            first_from_shift(far, near, by, from + 1, end);
        }
    }
}

proof fn parsed_shift(front: Seq<u8>, bytes: Seq<u8>, start: int)
    requires
        0 <= start <= bytes.len(),
    ensures
        parsed(front + bytes, front.len() + start) == (match parsed(bytes, start) {
            OscView::Known { param, payload, end } => OscView::Known {
                param,
                payload,
                end: end + front.len(),
            },
            OscView::Passthrough { end } => OscView::Passthrough { end: end + front.len() },
            OscView::Incomplete => OscView::Incomplete,
        }),
{
    let all = front + bytes;
    let by = front.len() as int;
    let len = bytes.len() as int;
    first_from_shift(
        |i: int| !ascii::is_digit(all[i]),
        |i: int| !ascii::is_digit(bytes[i]),
        by,
        start,
        len,
    );
    first_from_bounds(|i: int| !ascii::is_digit(bytes[i]), start, len);
    first_from_shift(|i: int| st_at(all, i), |i: int| st_at(bytes, i), by, start, len);
    first_from_bounds(|i: int| st_at(bytes, i), start, len);
    if let Some(semi) = next_non_digit(bytes, start) {
        assert(all.subrange(start + by, semi + by) =~= bytes.subrange(start, semi));
        first_from_shift(|i: int| st_at(all, i), |i: int| st_at(bytes, i), by, semi + 1, len);
        first_from_bounds(|i: int| st_at(bytes, i), semi + 1, len);
        if let Some(st) = next_st(bytes, semi + 1) {
            assert(all.subrange(semi + 1 + by, st + by) =~= bytes.subrange(semi + 1, st));
        }
    }
}

/// What is extracted from a position on does not depend on the bytes in front of it.
pub proof fn law_front_is_irrelevant(front: Seq<u8>, bytes: Seq<u8>, pos: int)
    requires
        0 <= pos <= bytes.len(),
    ensures
        extracted(front + bytes, front.len() + pos) == extracted(bytes, pos),
    decreases bytes.len() - pos,
{
    let all = front + bytes;
    let by = front.len() as int;
    let len = bytes.len() as int;
    if pos < len {
        first_from_shift(
            |i: int| introducer_at(all, i),
            |i: int| introducer_at(bytes, i),
            by,
            pos,
            len,
        );
        first_from_bounds(|i: int| introducer_at(bytes, i), pos, len);
        assert(all.subrange(pos + by, len + by) =~= bytes.subrange(pos, len));
        if let Some(intro) = next_introducer(bytes, pos) {
            parsed_shift(front, bytes, intro + 2);
            parsed_bounds(bytes, intro + 2);
            assert(all.subrange(pos + by, intro + by) =~= bytes.subrange(pos, intro));
            match parsed(bytes, intro + 2) {
                OscView::Known { end, .. } => {
                    law_front_is_irrelevant(front, bytes, end);
                },
                OscView::Passthrough { end } => {
                    law_front_is_irrelevant(front, bytes, end);
                    assert(all.subrange(pos + by, end + by) =~= bytes.subrange(pos, end));
                },
                OscView::Incomplete => {},
            }
        }
    }
}

/// Bytes without `ESC ]` pass through untouched, and no event comes of them.
pub proof fn law_plain_bytes_pass(bytes: Seq<u8>)
    requires
        forall|i: int| !#[trigger] introducer_at(bytes, i),
    ensures
        extracted(bytes, 0) == (bytes, Seq::<EventView>::empty()),
{
    first_from_none(|i: int| introducer_at(bytes, i), 0, bytes.len() as int);
    assert(bytes.subrange(0, bytes.len() as int) =~= bytes);
    assert(bytes.len() == 0 ==> bytes =~= Seq::<u8>::empty());
}

/// Where no event comes of the bytes, nothing is taken out of them.
pub proof fn law_no_event_no_change(bytes: Seq<u8>, pos: int)
    requires
        0 <= pos <= bytes.len(),
        extracted(bytes, pos).1.len() == 0,
    ensures
        extracted(bytes, pos).0 == bytes.subrange(pos, bytes.len() as int),
    decreases bytes.len() - pos,
{
    let len = bytes.len() as int;
    if pos < len {
        first_from_bounds(|i: int| introducer_at(bytes, i), pos, len);
        if let Some(intro) = next_introducer(bytes, pos) {
            parsed_bounds(bytes, intro + 2);
            match parsed(bytes, intro + 2) {
                OscView::Known { param, payload, end } => {
                    let rest = extracted(bytes, end);
                    assert((seq![event_of(param, payload)] + rest.1).len() == 1 + rest.1.len());
                },
                OscView::Passthrough { end } => {
                    law_no_event_no_change(bytes, end);
                    assert(bytes.subrange(pos, end) + bytes.subrange(end, len) =~= bytes.subrange(
                        pos,
                        len,
                    ));
                },
                OscView::Incomplete => {},
            }
        }
    } else {
        assert(bytes.subrange(pos, len) =~= Seq::<u8>::empty());
    }
}

/// The two string terminators.
pub open spec fn is_terminator(st: Seq<u8>) -> bool {
    st == seq![BEL] || st == seq![ESC, BACKSLASH]
}

/// A sequence `ESC ] digits ; payload ST`.
pub open spec fn osc_bytes(digits: Seq<u8>, payload: Seq<u8>, st: Seq<u8>) -> Seq<u8> {
    seq![ESC, RIGHT_BRACKET] + digits + seq![SEMICOLON] + payload + st
}

/// How a complete sequence is parsed, whatever stands before and behind it.
proof fn complete_sequence(
    before: Seq<u8>,
    digits: Seq<u8>,
    payload: Seq<u8>,
    st: Seq<u8>,
    after: Seq<u8>,
)
    requires
        forall|i: int| !#[trigger] introducer_at(before, i),
        param_of(digits) is Some,
        forall|i: int| !#[trigger] st_at(payload, i),
        is_terminator(st),
    ensures
        ({
            let osc = osc_bytes(digits, payload, st);
            let all = before + osc + after;
            let end = (before.len() + osc.len()) as int;
            &&& next_introducer(all, 0) == Some(before.len() as int)
            &&& all.subrange(0, before.len() as int) == before
            &&& all.subrange(0, end) == before + osc
            &&& parsed(all, before.len() as int + 2) == (if is_fit(param_of(digits)->0, payload) {
                OscView::Known {
                    param: param_of(digits)->0,
                    payload: text::utf8_lossy(payload),
                    end,
                }
            } else {
                OscView::Passthrough { end }
            })
        }),
{
    let osc = osc_bytes(digits, payload, st);
    let all = before + osc + after;
    let len = all.len() as int;
    let intro = before.len() as int;
    let semi = intro + 2 + digits.len();
    let at = semi + 1 + payload.len();
    let end = at + st.len();
    let sevens = seq![0x37u8, 0x37, 0x37];
    assert(sevens[0] == 0x37 && sevens[1] == 0x37 && sevens[2] == 0x37);
    assert(digits.len() <= 3);
    assert(forall|i: int| 0 <= i < digits.len() ==> ascii::is_digit(digits[i]));
    assert(st.len() == st_width(st[0]));
    assert(forall|i: int| 0 <= i < before.len() ==> all[i] == before[i]);
    assert(forall|i: int| 0 <= i < osc.len() ==> all[intro + i] == osc[i]);
    assert(osc[0] == ESC && osc[1] == RIGHT_BRACKET && osc[semi - intro] == SEMICOLON);
    assert(all[intro] == ESC && all[intro + 1] == RIGHT_BRACKET);
    assert(all[semi] == SEMICOLON);
    assert forall|i: int| intro + 2 <= i < semi implies all[i] == digits[i - intro - 2] by {
        assert(all[i] == osc[i - intro]);
    }
    assert forall|i: int| semi < i < at implies all[i] == payload[i - semi - 1] by {
        assert(all[i] == osc[i - intro]);
    }
    assert forall|i: int| at <= i < end implies all[i] == st[i - at] by {
        assert(all[i] == osc[i - intro]);
    }
    let opens = |i: int| introducer_at(all, i);
    assert forall|i: int| 0 <= i < intro implies !#[trigger] opens(i) by {
        assert(!introducer_at(before, i));
    }
    assert(opens(intro));
    first_from_is(opens, 0, len, intro);
    let stops = |i: int| !ascii::is_digit(all[i]);
    assert forall|i: int| intro + 2 <= i < semi implies !#[trigger] stops(i) by {
        assert(all[i] == digits[i - intro - 2]);
    }
    first_from_is(stops, intro + 2, len, semi);
    assert(next_non_digit(all, intro + 2) == Some(semi as int));
    assert(all.subrange(intro + 2, semi as int) =~= digits);
    assert(intercepted(all, intro + 2) == Some((param_of(digits)->0, semi as int)));
    let closes = |i: int| st_at(all, i);
    assert forall|i: int| semi + 1 <= i < at implies !#[trigger] closes(i) by {
        assert(!st_at(payload, i - semi - 1));
        assert(all[i] == payload[i - semi - 1]);
        if i + 1 < at {
            assert(all[i + 1] == payload[i + 1 - semi - 1]);
        } else {
            assert(all[at] == st[0]);
        }
    }
    assert(all[at] == st[0]);
    assert(st.len() == 2 ==> all[at + 1] == st[1]);
    first_from_is(closes, semi + 1, len, at);
    assert(next_st(all, semi + 1) == Some(at as int));
    assert(all.subrange(semi + 1, at as int) =~= payload);
    assert(all.subrange(0, intro) =~= before);
    assert(all.subrange(0, end) =~= before + osc);
}

/// A complete OSC 7, 9 or 777 whose payload is fit for an event is taken out of the
/// bytes, whatever stands before and behind it, and its event comes in its place.
pub proof fn law_known_sequence_is_extracted(
    before: Seq<u8>,
    digits: Seq<u8>,
    payload: Seq<u8>,
    st: Seq<u8>,
    after: Seq<u8>,
)
    requires
        forall|i: int| !#[trigger] introducer_at(before, i),
        param_of(digits) is Some,
        is_fit(param_of(digits)->0, payload),
        forall|i: int| !#[trigger] st_at(payload, i),
        is_terminator(st),
    ensures
        ({
            let r = extracted(before + osc_bytes(digits, payload, st) + after, 0);
            &&& r.0 == before + extracted(after, 0).0
            &&& r.1 == seq![event_of(param_of(digits)->0, text::utf8_lossy(payload))] + extracted(
                after,
                0,
            ).1
        }),
{
    complete_sequence(before, digits, payload, st, after);
    law_front_is_irrelevant(before + osc_bytes(digits, payload, st), after, 0);
}

/// A complete OSC 7, 9 or 777 whose payload is too long, or empty where a plain
/// notification alone may be, passes through unmodified, and the bytes behind it are
/// scanned as ever.
pub proof fn law_unfit_payload_passes(
    before: Seq<u8>,
    digits: Seq<u8>,
    payload: Seq<u8>,
    st: Seq<u8>,
    after: Seq<u8>,
)
    requires
        forall|i: int| !#[trigger] introducer_at(before, i),
        param_of(digits) is Some,
        !is_fit(param_of(digits)->0, payload),
        forall|i: int| !#[trigger] st_at(payload, i),
        is_terminator(st),
    ensures
        ({
            let osc = osc_bytes(digits, payload, st);
            let r = extracted(before + osc + after, 0);
            &&& r.0 == before + osc + extracted(after, 0).0
            &&& r.1 == extracted(after, 0).1
        }),
{
    complete_sequence(before, digits, payload, st, after);
    law_front_is_irrelevant(before + osc_bytes(digits, payload, st), after, 0);
}

/// The first introducer stands where it was put.
proof fn opens_after(before: Seq<u8>, rest: Seq<u8>)
    requires
        forall|i: int| !#[trigger] introducer_at(before, i),
    ensures
        next_introducer(before + seq![ESC, RIGHT_BRACKET] + rest, 0) == Some(before.len() as int),
{
    let intro_bytes = seq![ESC, RIGHT_BRACKET];
    let all = before + intro_bytes + rest;
    let intro = before.len() as int;
    let opens = |i: int| introducer_at(all, i);
    assert(intro_bytes[0] == ESC && intro_bytes[1] == RIGHT_BRACKET);
    assert(all[intro] == intro_bytes[0] && all[intro + 1] == intro_bytes[1]);
    assert forall|i: int| 0 <= i < intro implies !#[trigger] opens(i) by {
        assert(!introducer_at(before, i));
    }
    first_from_is(opens, 0, all.len() as int, intro);
}

/// A sequence with another parameter, or a malformed one, passes through up to its
/// own terminator, and the bytes behind it are scanned as ever.
pub proof fn law_other_sequence_passes(
    before: Seq<u8>,
    body: Seq<u8>,
    st: Seq<u8>,
    after: Seq<u8>,
)
    requires
        forall|i: int| !#[trigger] introducer_at(before, i),
        intercepted(body + st + after, 0) is None,
        forall|i: int| !#[trigger] st_at(body, i),
        is_terminator(st),
    ensures
        ({
            let osc = seq![ESC, RIGHT_BRACKET] + body + st;
            let r = extracted(before + osc + after, 0);
            &&& r.0 == before + osc + extracted(after, 0).0
            &&& r.1 == extracted(after, 0).1
        }),
{
    let intro_bytes = seq![ESC, RIGHT_BRACKET];
    let osc = intro_bytes + body + st;
    let rest = body + st + after;
    let all = before + osc + after;
    let at = body.len() as int;
    let front = before + intro_bytes;
    assert(all =~= front + rest);
    opens_after(before, rest);
    parsed_shift(front, rest, 0);
    let closes = |i: int| st_at(rest, i);
    assert forall|i: int| 0 <= i < at implies !#[trigger] closes(i) by {
        assert(!st_at(body, i));
        assert(rest[i] == body[i]);
        if i + 1 < at {
            assert(rest[i + 1] == body[i + 1]);
        } else {
            assert(rest[at] == st[0]);
        }
    }
    assert(rest[at] == st[0]);
    assert(st.len() == 2 ==> rest[at + 1] == st[1]);
    first_from_is(closes, 0, rest.len() as int, at);
    assert(st.len() == st_width(st[0]));
    let end = (before + osc).len() as int;
    assert(parsed(all, before.len() as int + 2) == OscView::Passthrough { end });
    assert(all.subrange(0, end) =~= before + osc);
    law_front_is_irrelevant(before + osc, after, 0);
}

/// A sequence whose terminator has not arrived passes through unmodified, whatever
/// its parameter is.
pub proof fn law_unterminated_sequence_passes(before: Seq<u8>, body: Seq<u8>)
    requires
        forall|i: int| !#[trigger] introducer_at(before, i),
        forall|i: int| !#[trigger] st_at(body, i),
    ensures
        ({
            let all = before + seq![ESC, RIGHT_BRACKET] + body;
            extracted(all, 0) == (all, Seq::<EventView>::empty())
        }),
{
    let front = before + seq![ESC, RIGHT_BRACKET];
    let all = front + body;
    let len = all.len() as int;
    opens_after(before, body);
    parsed_shift(front, body, 0);
    first_from_none(|i: int| st_at(body, i), 0, body.len() as int);
    first_from_bounds(|i: int| !ascii::is_digit(body[i]), 0, body.len() as int);
    if let Some((_, semi)) = intercepted(body, 0) {
        first_from_none(|i: int| st_at(body, i), semi + 1, body.len() as int);
    }
    assert(all.subrange(0, len) =~= all);
    assert(extracted(all, len) == (Seq::<u8>::empty(), Seq::<EventView>::empty()));
    assert(all + Seq::<u8>::empty() =~= all);
}

/// From `pos` on, each sequence of the bytes has its terminator, and they do not end
/// within an introducer.
pub open spec fn is_self_contained(bytes: Seq<u8>, pos: int) -> bool
    decreases bytes.len() - pos,
{
    let len = bytes.len() as int;
    if pos < 0 || pos >= len {
        true
    } else {
        match next_introducer(bytes, pos) {
            None => bytes.last() != ESC,
            Some(intro) => {
                proof {
                    first_from_bounds(|i: int| introducer_at(bytes, i), pos, len);
                    parsed_bounds(bytes, intro + 2);
                }
                next_st(bytes, intro + 2) is Some && match parsed(bytes, intro + 2) {
                    OscView::Known { end, .. } => is_self_contained(bytes, end),
                    OscView::Passthrough { end } => is_self_contained(bytes, end),
                    OscView::Incomplete => false,
                }
            },
        }
    }
}

proof fn first_from_longer(
    hit: spec_fn(int) -> bool,
    more: spec_fn(int) -> bool,
    from: int,
    end: int,
)
    requires
        first_from(hit, from, end) is Some,
        forall|j: int|
            from <= j <= first_from(hit, from, end)->0 ==> #[trigger] hit(j) == more(j),
    ensures
        forall|longer: int|
            longer >= end ==> #[trigger] first_from(more, from, longer) == first_from(
                hit,
                from,
                end,
            ),
{
    first_from_bounds(hit, from, end);
    let at = first_from(hit, from, end)->0;
    assert forall|longer: int| longer >= end implies #[trigger] first_from(more, from, longer)
        == first_from(hit, from, end) by {
        assert(hit(at) == more(at));
        assert forall|j: int| from <= j < at implies !#[trigger] more(j) by {
            assert(hit(j) == more(j));
        }
        first_from_is(more, from, longer, at);
    }
}

/// Bytes behind a terminated sequence do not change how it is parsed.
proof fn complete_stays(bytes: Seq<u8>, rest: Seq<u8>, start: int)
    requires
        0 <= start <= bytes.len(),
        next_st(bytes, start) is Some,
    ensures
        parsed(bytes + rest, start) == parsed(bytes, start),
{
    let all = bytes + rest;
    let len = bytes.len() as int;
    let stops = |i: int| !ascii::is_digit(bytes[i]);
    let closes = |i: int| st_at(bytes, i);
    let closes_all = |i: int| st_at(all, i);
    first_from_bounds(closes, start, len);
    let st = next_st(bytes, start)->0;
    assert forall|j: int| start <= j <= st implies #[trigger] closes(j) == closes_all(j) by {
        if j < st {
            assert(all[j + 1] == bytes[j + 1]);
        }
    }
    first_from_longer(closes, closes_all, start, len);
    assert(next_st(all, start) == Some(st));
    first_from_bounds(stops, start, len);
    assert(stops(st));
    let semi = next_non_digit(bytes, start)->0;
    first_from_longer(stops, |i: int| !ascii::is_digit(all[i]), start, len);
    assert(next_non_digit(all, start) == Some(semi));
    assert(all.subrange(start, semi) =~= bytes.subrange(start, semi));
    if intercepted(bytes, start) is Some {
        assert forall|j: int| start <= j < semi + 1 implies !#[trigger] closes(j) && !closes_all(
            j,
        ) by {
            assert(j < semi ==> !stops(j));
        }
        skip_to(closes, start, semi + 1, len);
        skip_to(closes_all, start, semi + 1, all.len() as int);
        assert(all.subrange(semi + 1, st) =~= bytes.subrange(semi + 1, st));
    }
}

/// Sequences are extracted independently of one another: what is extracted of two
/// runs of bytes in a row is what is extracted of each, as long as each sequence of the
/// first run has its terminator and the run does not end within an introducer.
pub proof fn law_runs_are_independent(bytes: Seq<u8>, rest: Seq<u8>, pos: int)
    requires
        0 <= pos <= bytes.len(),
        is_self_contained(bytes, pos),
    ensures
        extracted(bytes + rest, pos).0 == extracted(bytes, pos).0 + extracted(rest, 0).0,
        extracted(bytes + rest, pos).1 == extracted(bytes, pos).1 + extracted(rest, 0).1,
    decreases bytes.len() - pos,
{
    let all = bytes + rest;
    let len = bytes.len() as int;
    let opens = |i: int| introducer_at(bytes, i);
    let opens_all = |i: int| introducer_at(all, i);
    law_front_is_irrelevant(bytes, rest, 0);
    if pos == len {
        assert(extracted(all, pos).0 =~= extracted(bytes, pos).0 + extracted(rest, 0).0);
        assert(extracted(all, pos).1 =~= extracted(bytes, pos).1 + extracted(rest, 0).1);
    } else {
        first_from_bounds(opens, pos, len);
        match next_introducer(bytes, pos) {
            None => {
                assert forall|j: int| pos <= j < len implies !#[trigger] opens_all(j) by {
                    assert(!opens(j));
                }
                skip_to(opens_all, pos, len, all.len() as int);
                let kept = bytes.subrange(pos, len);
                assert(extracted(bytes, pos) == (kept, Seq::<EventView>::empty()));
                if rest.len() == 0 {
                    assert(all =~= bytes);
                    assert(extracted(rest, 0).0 =~= Seq::<u8>::empty());
                } else {
                    first_from_bounds(opens_all, len, all.len() as int);
                    assert(next_introducer(all, pos) == next_introducer(all, len));
                    match next_introducer(all, len) {
                        None => {
                            assert(all.subrange(pos, all.len() as int) =~= kept + all.subrange(
                                len,
                                all.len() as int,
                            ));
                        },
                        Some(intro) => {
                            parsed_bounds(all, intro + 2);
                            assert(all.subrange(pos, intro) =~= kept + all.subrange(len, intro));
                            match parsed(all, intro + 2) {
                                OscView::Known { end, .. } => {
                                    assert(all.subrange(pos, intro) + extracted(all, end).0 =~= kept
                                        + (all.subrange(len, intro) + extracted(all, end).0));
                                },
                                OscView::Passthrough { end } => {
                                    assert(all.subrange(pos, end) =~= kept + all.subrange(
                                        len,
                                        end,
                                    ));
                                    assert(all.subrange(pos, end) + extracted(all, end).0 =~= kept
                                        + (all.subrange(len, end) + extracted(all, end).0));
                                },
                                OscView::Incomplete => {
                                    assert(all.subrange(pos, all.len() as int) =~= kept
                                        + all.subrange(len, all.len() as int));
                                },
                            }
                        },
                    }
                }
                assert(extracted(all, pos).1 =~= extracted(bytes, pos).1 + extracted(rest, 0).1);
            },
            Some(intro) => {
                assert forall|j: int| pos <= j <= intro implies #[trigger] opens(j) == opens_all(
                    j,
                ) by {
                    assert(all[j + 1] == bytes[j + 1]);
                }
                first_from_longer(opens, opens_all, pos, len);
                assert(next_introducer(all, pos) == Some(intro));
                complete_stays(bytes, rest, intro + 2);
                parsed_bounds(bytes, intro + 2);
                match parsed(bytes, intro + 2) {
                    OscView::Known { param, payload, end } => {
                        law_runs_are_independent(bytes, rest, end);
                        let kept = bytes.subrange(pos, intro);
                        let event = seq![event_of(param, payload)];
                        assert(all.subrange(pos, intro) =~= kept);
                        assert(kept + (extracted(bytes, end).0 + extracted(rest, 0).0) =~= (kept
                            + extracted(bytes, end).0) + extracted(rest, 0).0);
                        assert(event + (extracted(bytes, end).1 + extracted(rest, 0).1) =~= (event
                            + extracted(bytes, end).1) + extracted(rest, 0).1);
                    },
                    OscView::Passthrough { end } => {
                        law_runs_are_independent(bytes, rest, end);
                        let kept = bytes.subrange(pos, end);
                        assert(all.subrange(pos, end) =~= kept);
                        assert(kept + (extracted(bytes, end).0 + extracted(rest, 0).0) =~= (kept
                            + extracted(bytes, end).0) + extracted(rest, 0).0);
                    },
                    OscView::Incomplete => {},
                }
            },
        }
    }
}

proof fn skip_to(hit: spec_fn(int) -> bool, from: int, to: int, end: int)
    requires
        from <= to <= end,
        forall|j: int| from <= j < to ==> !#[trigger] hit(j),
    ensures
        first_from(hit, from, end) == first_from(hit, to, end),
    decreases to - from,
{
    if from < to {
        skip_to(hit, from + 1, to, end);
    }
}

} // verus!
