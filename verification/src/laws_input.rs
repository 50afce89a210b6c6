//! What holds of the bytes that a program writes: which of them stand for events, what the
//! host is told, and in what order.

use crate::csi_mode_scan;
use crate::csi_mode_scan::{ColorSchemeToggle, ScanView};
use crate::event_proxy;
use crate::event_proxy::{ClipboardReply, ColorReply, EventView, IncomingView, SizeReply};
use crate::frame;
use crate::frame::{EngineView, Feed};
use crate::laws_colors;
use crate::osc_preparse;
use crate::palette;
use crate::palette::Theme;
use crate::term_model;
use crate::text;
use alacritty_terminal::event::Event;
use vstd::prelude::*;
use vstd::utf8;

verus! {

/// The bytes hold no `ESC ]`.
pub open spec fn opens_nothing(bytes: Seq<u8>) -> bool {
    forall|i: int|
        0 <= i < bytes.len() - 1 ==> !(#[trigger] bytes[i] == 0x1b && bytes[i + 1] == 0x5d)
}

/// The bytes hold neither a `BEL` nor an `ESC \`.
pub open spec fn closes_nothing(bytes: Seq<u8>) -> bool {
    forall|i: int|
        0 <= i < bytes.len() ==> #[trigger] bytes[i] != 0x07 && !(bytes[i] == 0x1b && i + 1
            < bytes.len() && bytes[i + 1] == 0x5c)
}

/// A `BEL` or an `ESC \`.
pub open spec fn is_close(st: Seq<u8>) -> bool {
    st == seq![0x07u8] || st == seq![0x1bu8, 0x5c]
}

/// The bytes hold digits alone.
pub open spec fn all_digits(bytes: Seq<u8>) -> bool {
    forall|i: int| 0 <= i < bytes.len() ==> 0x30 <= #[trigger] bytes[i] <= 0x39
}

proof fn nothing_opened(bytes: Seq<u8>)
    requires
        opens_nothing(bytes),
    ensures
        forall|i: int| !#[trigger] osc_preparse::introducer_at(bytes, i),
{
}

proof fn nothing_closed(bytes: Seq<u8>)
    requires
        closes_nothing(bytes),
    ensures
        forall|i: int| !#[trigger] osc_preparse::st_at(bytes, i),
{
}

/// `ESC ] 9 ; message ST` is taken out of the bytes, and the host is notified of the whole
/// message. What stands in front of it is kept, and what stands behind it is read as if it
/// stood alone.
pub proof fn law_osc_9_notifies_of_its_message(
    before: Seq<u8>,
    message: Seq<u8>,
    st: Seq<u8>,
    after: Seq<u8>,
)
    requires
        opens_nothing(before),
        closes_nothing(message),
        is_close(st),
        message.len() <= 4096,
    ensures
        ({
            let r = osc_preparse::extracted(
                before + seq![0x1bu8, 0x5d, 0x39, 0x3b] + message + st + after,
                0,
            );
            let rest = osc_preparse::extracted(after, 0);
            &&& r.0 == before + rest.0
            &&& r.1 == seq![EventView::Notify(text::utf8_lossy(message))] + rest.1
        }),
{
    nothing_opened(before);
    nothing_closed(message);
    let digits = seq![0x39u8];
    assert(osc_preparse::param_of(digits) == Some(osc_preparse::OscParam::Nine)) by {
        assert(digits[0] == 0x39);
        assert(seq![0x37u8][0] == 0x37);
    }
    assert(before + seq![0x1bu8, 0x5d, 0x39, 0x3b] + message + st + after =~= before
        + osc_preparse::osc_bytes(digits, message, st) + after);
    osc_preparse::law_known_sequence_is_extracted(before, digits, message, st, after);
}

/// `ESC ] 7 ; uri ST` is taken out of the bytes, and the host is told the whole URI as the
/// working directory.
pub proof fn law_osc_7_tells_the_directory(
    before: Seq<u8>,
    uri: Seq<u8>,
    st: Seq<u8>,
    after: Seq<u8>,
)
    requires
        opens_nothing(before),
        closes_nothing(uri),
        is_close(st),
        1 <= uri.len() <= 4096,
    ensures
        ({
            let r = osc_preparse::extracted(
                before + seq![0x1bu8, 0x5d, 0x37, 0x3b] + uri + st + after,
                0,
            );
            let rest = osc_preparse::extracted(after, 0);
            &&& r.0 == before + rest.0
            &&& r.1 == seq![EventView::WorkingDir(text::utf8_lossy(uri))] + rest.1
        }),
{
    nothing_opened(before);
    nothing_closed(uri);
    let digits = seq![0x37u8];
    assert(before + seq![0x1bu8, 0x5d, 0x37, 0x3b] + uri + st + after =~= before
        + osc_preparse::osc_bytes(digits, uri, st) + after);
    osc_preparse::law_known_sequence_is_extracted(before, digits, uri, st, after);
}

/// The text opens with `notify;`.
pub open spec fn opens_with_notify(s: Seq<char>) -> bool {
    &&& s.len() >= 7
    &&& s[0] == 'n' && s[1] == 'o' && s[2] == 't' && s[3] == 'i' && s[4] == 'f' && s[5] == 'y'
    &&& s[6] == ';'
}

/// The text says `notify; title; body`: the title ends at the first semicolon behind
/// `notify;`.
pub open spec fn says_title_and_body(s: Seq<char>, title: Seq<char>, body: Seq<char>) -> bool {
    &&& opens_with_notify(s)
    &&& s.skip(7) == title + seq![';'] + body
    &&& !title.contains(';')
}

/// `ESC ] 777 ; text ST` is taken out of the bytes, and the host is notified: of title and
/// body, with a NUL between them, where the text is `notify; title; body`; of the title
/// alone where it is `notify; title`; both without white space around them; and of the text
/// as it is where it is neither.
pub proof fn law_osc_777_notifies_of_title_and_body(
    before: Seq<u8>,
    payload: Seq<u8>,
    st: Seq<u8>,
    after: Seq<u8>,
    title: Seq<char>,
    body: Seq<char>,
)
    requires
        opens_nothing(before),
        closes_nothing(payload),
        is_close(st),
        1 <= payload.len() <= 4096,
    ensures
        ({
            let r = osc_preparse::extracted(
                before + seq![0x1bu8, 0x5d, 0x37, 0x37, 0x37, 0x3b] + payload + st + after,
                0,
            );
            let rest = osc_preparse::extracted(after, 0);
            let said = text::utf8_lossy(payload);
            &&& r.0 == before + rest.0
            &&& r.1.len() == 1 + rest.1.len()
            &&& r.1.skip(1) == rest.1
            &&& says_title_and_body(said, title, body) ==> r.1[0] == EventView::Notify(
                text::trim(title) + seq!['\0'] + text::trim(body),
            )
            &&& opens_with_notify(said) && !said.skip(7).contains(';') ==> r.1[0]
                == EventView::Notify(text::trim(said.skip(7)))
            &&& !opens_with_notify(said) ==> r.1[0] == EventView::Notify(said)
        }),
{
    nothing_opened(before);
    nothing_closed(payload);
    let digits = seq![0x37u8, 0x37, 0x37];
    assert(digits.len() == 3);
    assert(before + seq![0x1bu8, 0x5d, 0x37, 0x37, 0x37, 0x3b] + payload + st + after =~= before
        + osc_preparse::osc_bytes(digits, payload, st) + after);
    osc_preparse::law_known_sequence_is_extracted(before, digits, payload, st, after);
    let said = text::utf8_lossy(payload);
    let rest = osc_preparse::extracted(after, 0).1;
    let event = osc_preparse::event_of(osc_preparse::OscParam::SevenSevenSeven, said);
    assert((seq![event] + rest).skip(1) =~= rest);
    let hit = |i: int| said[i] == ';';
    let word = osc_preparse::notify_word();
    assert(word[0] == 'n' && word[1] == 'o' && word[2] == 't' && word[3] == 'i' && word[4] == 'f'
        && word[5] == 'y');
    if opens_with_notify(said) {
        assert(said.take(6) =~= word);
        if says_title_and_body(said, title, body) {
            let tail = said.skip(7);
            let at = 7 + title.len() as int;
            assert(tail[title.len() as int] == ';');
            assert forall|j: int| 7 <= j < at implies !#[trigger] hit(j) by {
                assert(tail[j - 7] == title[j - 7]);
                assert(title.contains(title[j - 7]));
            }
            osc_preparse::first_from_bounds(hit, 7, said.len() as int);
            assert(hit(at as int));
            assert(said.subrange(7, at as int) =~= title);
            let tail_body = said.subrange(at + 1, said.len() as int);
            assert(tail.len() == title.len() + 1 + body.len());
            assert forall|k: int| 0 <= k < body.len() implies #[trigger] tail_body[k]
                == body[k] by {
                assert(tail_body[k] == tail[title.len() + 1 + k]);
            }
            assert(tail_body =~= body);
        }
        if !said.skip(7).contains(';') {
            osc_preparse::first_from_bounds(hit, 7, said.len() as int);
            assert forall|j: int| 7 <= j < said.len() implies !#[trigger] hit(j) by {
                assert(said.skip(7)[j - 7] == said[j]);
            }
            assert(said.subrange(7, said.len() as int) =~= said.skip(7));
        }
    } else if osc_preparse::is_titled(said) {
        assert(said.take(6)[0] == said[0] && said.take(6)[1] == said[1] && said.take(6)[2]
            == said[2] && said.take(6)[3] == said[3] && said.take(6)[4] == said[4] && said.take(
            6,
        )[5] == said[5]);
    }
}

/// Trimming takes white space off both ends and nothing else.
pub proof fn law_trimming_takes_the_ends(front: Seq<char>, core: Seq<char>, back: Seq<char>)
    requires
        forall|i: int| 0 <= i < front.len() ==> text::white_space(#[trigger] front[i]),
        forall|i: int| 0 <= i < back.len() ==> text::white_space(#[trigger] back[i]),
        core.len() > 0 ==> !text::white_space(core.first()) && !text::white_space(core.last()),
    ensures
        text::trim(front + core + back) == core,
{
    if core.len() > 0 {
        trimmed_front(front, core + back);
        assert(front + core + back =~= front + (core + back));
        trimmed_back(core, back);
    } else {
        let all = front + back;
        assert(front + core + back =~= all);
        trimmed_front(all, Seq::empty());
        assert(all + Seq::<char>::empty() =~= all);
        assert(core =~= Seq::<char>::empty());
    }
}

proof fn trimmed_front(front: Seq<char>, rest: Seq<char>)
    requires
        forall|i: int| 0 <= i < front.len() ==> text::white_space(#[trigger] front[i]),
        rest.len() > 0 ==> !text::white_space(rest.first()),
    ensures
        text::trim_start(front + rest) == rest,
    decreases front.len(),
{
    let all = front + rest;
    if front.len() > 0 {
        assert(all.first() == front[0]);
        assert(all.drop_first() =~= front.drop_first() + rest);
        trimmed_front(front.drop_first(), rest);
    } else {
        assert(all =~= rest);
    }
}

proof fn trimmed_back(rest: Seq<char>, back: Seq<char>)
    requires
        forall|i: int| 0 <= i < back.len() ==> text::white_space(#[trigger] back[i]),
        rest.len() > 0 ==> !text::white_space(rest.last()),
    ensures
        text::trim_end(rest + back) == rest,
    decreases back.len(),
{
    let all = rest + back;
    if back.len() > 0 {
        assert(all.last() == back.last());
        assert(all.drop_last() =~= rest + back.drop_last());
        trimmed_back(rest, back.drop_last());
    } else {
        assert(all =~= rest);
    }
}

/// A sequence whose parameter is no 7, 9 or 777, one whose payload is longer than 4096
/// bytes, and a 7 or 777 without payload stay in the bytes as they are, up to their
/// terminator, and no event comes of them.
pub proof fn law_other_osc_sequences_stay(
    before: Seq<u8>,
    digits: Seq<u8>,
    payload: Seq<u8>,
    st: Seq<u8>,
    after: Seq<u8>,
)
    requires
        opens_nothing(before),
        all_digits(digits),
        closes_nothing(payload),
        is_close(st),
        ({
            let known = digits == seq![0x37u8] || digits == seq![0x39u8] || digits == seq![
                0x37u8,
                0x37,
                0x37,
            ];
            ||| !known
            ||| payload.len() > 4096
            ||| payload.len() == 0 && digits != seq![0x39u8]
        }),
    ensures
        ({
            let osc = seq![0x1bu8, 0x5d] + digits + seq![0x3bu8] + payload + st;
            let r = osc_preparse::extracted(before + osc + after, 0);
            let rest = osc_preparse::extracted(after, 0);
            &&& r.0 == before + osc + rest.0
            &&& r.1 == rest.1
        }),
{
    nothing_opened(before);
    nothing_closed(payload);
    if osc_preparse::param_of(digits) is Some {
        assert(seq![0x37u8][0] == 0x37 && seq![0x39u8][0] == 0x39);
        osc_preparse::law_unfit_payload_passes(before, digits, payload, st, after);
        assert(seq![0x1bu8, 0x5d] + digits + seq![0x3bu8] + payload + st
            =~= osc_preparse::osc_bytes(digits, payload, st));
    } else {
        let body = digits + seq![0x3bu8] + payload;
        other_body_stays(before, digits, 0x3b, payload, st, after);
        assert(seq![0x1bu8, 0x5d] + digits + seq![0x3bu8] + payload + st =~= seq![0x1bu8, 0x5d]
            + body + st);
    }
}

proof fn other_body_stays(
    before: Seq<u8>,
    digits: Seq<u8>,
    sep: u8,
    payload: Seq<u8>,
    st: Seq<u8>,
    after: Seq<u8>,
)
    requires
        opens_nothing(before),
        all_digits(digits),
        closes_nothing(payload),
        is_close(st),
        sep != 0x07 && sep != 0x1b,
        !(0x30 <= sep <= 0x39),
        sep != 0x3b || osc_preparse::param_of(digits) is None,
    ensures
        ({
            let osc = seq![0x1bu8, 0x5d] + (digits + seq![sep] + payload) + st;
            let r = osc_preparse::extracted(before + osc + after, 0);
            let rest = osc_preparse::extracted(after, 0);
            &&& r.0 == before + osc + rest.0
            &&& r.1 == rest.1
        }),
{
    nothing_opened(before);
    let body = digits + seq![sep] + payload;
    let all = body + st + after;
    let n = digits.len() as int;
    assert forall|i: int| !#[trigger] osc_preparse::st_at(body, i) by {
        if n < i < body.len() {
            assert(body[i] == payload[i - n - 1]);
            if i + 1 < body.len() {
                assert(body[i + 1] == payload[i - n]);
            }
        } else if 0 <= i < n {
            assert(body[i] == digits[i]);
        } else if i == n {
            assert(body[i] == sep);
        }
    }
    let stops = |i: int| !crate::ascii::is_digit(all[i]);
    assert(all[n] == sep);
    assert(stops(n));
    assert forall|i: int| 0 <= i < n implies !#[trigger] stops(i) by {
        assert(all[i] == digits[i]);
    }
    osc_preparse::first_from_bounds(stops, 0, all.len() as int);
    assert(osc_preparse::next_non_digit(all, 0) == Some(n));
    assert(all.subrange(0, n) =~= digits);
    osc_preparse::law_other_sequence_passes(before, body, st, after);
}

/// A sequence whose parameter is not followed by a semicolon stays in the bytes as it is.
pub proof fn law_malformed_osc_sequences_stay(
    before: Seq<u8>,
    digits: Seq<u8>,
    odd: u8,
    payload: Seq<u8>,
    st: Seq<u8>,
    after: Seq<u8>,
)
    requires
        opens_nothing(before),
        all_digits(digits),
        !(0x30 <= odd <= 0x39),
        odd != 0x3b && odd != 0x07 && odd != 0x1b,
        closes_nothing(payload),
        is_close(st),
    ensures
        ({
            let osc = seq![0x1bu8, 0x5d] + (digits + seq![odd] + payload) + st;
            let r = osc_preparse::extracted(before + osc + after, 0);
            let rest = osc_preparse::extracted(after, 0);
            &&& r.0 == before + osc + rest.0
            &&& r.1 == rest.1
        }),
{
    other_body_stays(before, digits, odd, payload, st, after);
}

/// Bytes without `ESC ]` stay as they are, and no event comes of them.
pub proof fn law_ordinary_bytes_stay(bytes: Seq<u8>)
    requires
        opens_nothing(bytes),
    ensures
        osc_preparse::extracted(bytes, 0).0 == bytes,
        osc_preparse::extracted(bytes, 0).1.len() == 0,
{
    nothing_opened(bytes);
    osc_preparse::law_plain_bytes_pass(bytes);
}

/// A sequence without a terminator stays in the bytes as it is, and no event comes of it.
pub proof fn law_open_osc_sequences_stay(before: Seq<u8>, body: Seq<u8>)
    requires
        opens_nothing(before),
        closes_nothing(body),
    ensures
        ({
            let all = before + seq![0x1bu8, 0x5d] + body;
            osc_preparse::extracted(all, 0) == (all, Seq::<EventView>::empty())
        }),
{
    nothing_opened(before);
    nothing_closed(body);
    osc_preparse::law_unterminated_sequence_passes(before, body);
}

/// Digits and semicolons.
pub open spec fn is_param_list(params: Seq<u8>) -> bool {
    forall|i: int|
        0 <= i < params.len() ==> (0x30 <= #[trigger] params[i] <= 0x39) || params[i] == 0x3b
}

/// The list has `2031` at this place, as a whole entry.
pub open spec fn has_2031_at(params: Seq<u8>, i: int) -> bool {
    &&& 0 <= i && i + 4 <= params.len()
    &&& params[i] == 0x32 && params[i + 1] == 0x30 && params[i + 2] == 0x33 && params[i + 3] == 0x31
    &&& i == 0 || params[i - 1] == 0x3b
    &&& i + 4 == params.len() || params[i + 4] == 0x3b
}

/// From whatever state, `ESC [ ? list h` reports one subscription and `ESC [ ? list l` one
/// end of it, if and only if the list has at most 64 bytes and `2031` is an entry of it.
/// Afterwards no sequence is in flight.
pub proof fn law_mode_2031_toggles(s: ScanView, params: Seq<u8>, set: bool, at: int)
    requires
        is_param_list(params),
    ensures
        ({
            let sequence = seq![0x1bu8, 0x5b, 0x3f] + params + seq![
                if set {
                    0x68u8
                } else {
                    0x6cu8
                },
            ];
            let toggles = csi_mode_scan::toggles_in(s, sequence);
            &&& csi_mode_scan::state_after(s, sequence) is Ground
            &&& has_2031_at(params, at) && params.len() <= 64 ==> toggles.len() == 1
            &&& toggles.len() <= 1
            &&& toggles.len() == 1 ==> params.len() <= 64
            &&& toggles.len() == 1 ==> exists|i: int| #[trigger] has_2031_at(params, i)
            &&& toggles.len() == 1 ==> (toggles[0] is Subscribe <==> set)
        }),
{
    assert forall|i: int| 0 <= i < params.len() implies csi_mode_scan::is_param_byte(params[i]) by {
        assert(0x30 <= params[i] <= 0x39 || params[i] == 0x3b);
    }
    csi_mode_scan::law_whole_sequence(s, params, set);
    assert(csi_mode_scan::private_introducer() =~= seq![0x1bu8, 0x5b, 0x3f]);
    let digits = csi_mode_scan::mode_digits();
    assert(digits[0] == 0x32 && digits[1] == 0x30 && digits[2] == 0x33 && digits[3] == 0x31);
    if has_2031_at(params, at) {
        assert(params.subrange(at, at + 4) =~= digits);
        assert(csi_mode_scan::is_field(params, at, at + 4));
    }
    if csi_mode_scan::names_color_scheme_mode(params) {
        let (i, j) = choose|i: int, j: int| #[trigger]
            csi_mode_scan::is_field(params, i, j) && params.subrange(i, j) == digits;
        let field = params.subrange(i, j);
        assert(field.len() == j - i);
        assert(field[0] == params[i] && field[1] == params[i + 1] && field[2] == params[i + 2]
            && field[3] == params[i + 3]);
        assert(has_2031_at(params, i));
    }
}

/// A private sequence with another final byte, and a sequence without the `?`, report
/// nothing, whatever their parameters are, and no sequence is in flight behind them. A new
/// `ESC` cuts any sequence short.
pub proof fn law_other_sequences_toggle_nothing(s: ScanView, params: Seq<u8>, last: u8)
    requires
        is_param_list(params),
        !(0x30 <= last <= 0x39) && last != 0x3b,
    ensures
        last != 0x68 && last != 0x6c ==> csi_mode_scan::toggles_in(
            s,
            seq![0x1bu8, 0x5b, 0x3f] + params + seq![last],
        ).len() == 0,
        last != 0x1b ==> csi_mode_scan::state_after(
            s,
            seq![0x1bu8, 0x5b, 0x3f] + params + seq![last],
        ) is Ground,
        last == 0x1b ==> csi_mode_scan::state_after(
            s,
            seq![0x1bu8, 0x5b, 0x3f] + params + seq![last],
        ) is Esc,
        params.len() > 0 ==> csi_mode_scan::toggles_in(
            s,
            seq![0x1bu8, 0x5b] + params + seq![last],
        ).len() == 0,
        params.len() > 0 ==> csi_mode_scan::state_after(s, seq![0x1bu8, 0x5b] + params) is Ground,
        last != 0x5b && last != 0x1b ==> csi_mode_scan::state_after(
            s,
            seq![0x1bu8, last],
        ) is Ground,
        last != 0x5b ==> csi_mode_scan::toggles_in(s, seq![0x1bu8, last]).len() == 0,
{
    pair_toggles_nothing(s, last);
    reveal_with_fuel(csi_mode_scan::toggles_in, 2);
    reveal_with_fuel(csi_mode_scan::state_after, 2);
    let intro = seq![0x1bu8, 0x5b, 0x3f];
    csi_mode_scan::law_chunking(s, intro + params, seq![last]);
    csi_mode_scan::law_chunking(s, intro, params);
    opened(s);
    listed(params);
    let one = seq![last];
    assert(one.drop_last() =~= Seq::<u8>::empty());
    assert(csi_mode_scan::state_after(ScanView::CsiPriv(params), Seq::<u8>::empty())
        == ScanView::CsiPriv(params));
    if params.len() > 0 {
        let short = seq![0x1bu8, 0x5b];
        csi_mode_scan::law_chunking(s, short + params, one);
        csi_mode_scan::law_chunking(s, short, params);
        half_opened(s);
        not_private(params);
    }
}

proof fn pair_toggles_nothing(s: ScanView, last: u8)
    ensures
        last != 0x5b && last != 0x1b ==> csi_mode_scan::state_after(
            s,
            seq![0x1bu8, last],
        ) is Ground,
        csi_mode_scan::toggles_in(s, seq![0x1bu8, last]).len() == 0,
{
    reveal_with_fuel(csi_mode_scan::state_after, 3);
    reveal_with_fuel(csi_mode_scan::toggles_in, 3);
    let pair = seq![0x1bu8, last];
    assert(pair.drop_last() =~= seq![0x1bu8]);
    assert(pair.drop_last().drop_last() =~= Seq::<u8>::empty());
}

proof fn opened(s: ScanView)
    ensures
        csi_mode_scan::state_after(s, seq![0x1bu8, 0x5b, 0x3f]) == ScanView::CsiPriv(Seq::empty()),
        csi_mode_scan::toggles_in(s, seq![0x1bu8, 0x5b, 0x3f]).len() == 0,
{
    reveal_with_fuel(csi_mode_scan::state_after, 4);
    reveal_with_fuel(csi_mode_scan::toggles_in, 4);
    let p = seq![0x1bu8, 0x5b, 0x3f];
    assert(p.drop_last() =~= seq![0x1bu8, 0x5b]);
    assert(p.drop_last().drop_last() =~= seq![0x1bu8]);
    assert(p.drop_last().drop_last().drop_last() =~= Seq::<u8>::empty());
}

proof fn half_opened(s: ScanView)
    ensures
        csi_mode_scan::state_after(s, seq![0x1bu8, 0x5b]) == ScanView::Csi,
        csi_mode_scan::toggles_in(s, seq![0x1bu8, 0x5b]).len() == 0,
{
    reveal_with_fuel(csi_mode_scan::state_after, 3);
    reveal_with_fuel(csi_mode_scan::toggles_in, 3);
    let p = seq![0x1bu8, 0x5b];
    assert(p.drop_last() =~= seq![0x1bu8]);
    assert(p.drop_last().drop_last() =~= Seq::<u8>::empty());
}

proof fn listed(params: Seq<u8>)
    requires
        is_param_list(params),
    ensures
        ({
            let after = csi_mode_scan::state_after(ScanView::CsiPriv(Seq::empty()), params);
            after == ScanView::CsiPriv(params) || after is Ground
        }),
        csi_mode_scan::toggles_in(ScanView::CsiPriv(Seq::empty()), params).len() == 0,
    decreases params.len(),
{
    if params.len() > 0 {
        let front = params.drop_last();
        assert forall|i: int| 0 <= i < front.len() implies (0x30 <= #[trigger] front[i] <= 0x39)
            || front[i] == 0x3b by {
            assert(front[i] == params[i]);
        }
        listed(front);
        assert(0x30 <= params[params.len() - 1] <= 0x39 || params[params.len() - 1] == 0x3b);
        assert(front.push(params.last()) =~= params);
    } else {
        assert(params =~= Seq::<u8>::empty());
    }
}

proof fn not_private(params: Seq<u8>)
    requires
        is_param_list(params),
        params.len() > 0,
    ensures
        csi_mode_scan::state_after(ScanView::Csi, params) == ScanView::Ground,
        csi_mode_scan::toggles_in(ScanView::Csi, params).len() == 0,
    decreases params.len(),
{
    let front = params.drop_last();
    assert(0x30 <= params[params.len() - 1] <= 0x39 || params[params.len() - 1] == 0x3b);
    if front.len() > 0 {
        assert forall|i: int| 0 <= i < front.len() implies (0x30 <= #[trigger] front[i] <= 0x39)
            || front[i] == 0x3b by {
            assert(front[i] == params[i]);
        }
        not_private(front);
    } else {
        assert(front =~= Seq::<u8>::empty());
        assert(csi_mode_scan::state_after(ScanView::Csi, front) == ScanView::Csi);
        assert(csi_mode_scan::toggles_in(ScanView::Csi, front).len() == 0);
    }
}

/// What a single told event comes to. Text is handed on whole, a request for the clipboard
/// is told and waits, and queries of colors and of the text area wait without a word.
pub proof fn law_told_event(e: Event)
    ensures
        ({
            let one = seq![e];
            let content = event_proxy::event_content(e);
            let events = event_proxy::told_events(one);
            let clipboard = event_proxy::told_clipboard(one);
            let colors = event_proxy::told_colors(one);
            let sizes = event_proxy::told_sizes(one);
            &&& content matches IncomingView::PtyWrite(s) ==> events == seq![
                EventView::PtyWrite(utf8::encode_utf8(s)),
            ]
            &&& content matches IncomingView::Title(s) ==> events == seq![EventView::Title(s)]
            &&& content is ResetTitle ==> events == seq![EventView::ResetTitle]
            &&& content is Bell ==> events == seq![EventView::Bell]
            &&& content matches IncomingView::ClipboardStore(s) ==> events == seq![
                EventView::ClipboardStore(s),
            ]
            &&& content is ClipboardLoad ==> events == seq![EventView::ClipboardLoad]
            &&& content is ClipboardLoad ==> clipboard == seq![ClipboardReply { formatter: e }]
            &&& !(content is ClipboardLoad) ==> clipboard.len() == 0
            &&& content matches IncomingView::ColorRequest(i) ==> colors == seq![
                ColorReply { index: i, formatter: e },
            ]
            &&& !(content is ColorRequest) ==> colors.len() == 0
            &&& content is TextAreaSizeRequest ==> sizes == seq![SizeReply { formatter: e }]
            &&& !(content is TextAreaSizeRequest) ==> sizes.len() == 0
            &&& content is ColorRequest || content is TextAreaSizeRequest || content is Other
                ==> events.len() == 0
        }),
{
    let one = seq![e];
    reveal_with_fuel(event_proxy::somes, 2);
    let events = one.map_values(|e: Event| event_proxy::reported(event_proxy::event_content(e)));
    let clipboard = one.map_values(|e: Event| event_proxy::clipboard_asked(e));
    let colors = one.map_values(|e: Event| event_proxy::color_asked(e));
    let sizes = one.map_values(|e: Event| event_proxy::size_asked(e));
    assert(events.drop_last().len() == 0 && clipboard.drop_last().len() == 0
        && colors.drop_last().len() == 0 && sizes.drop_last().len() == 0);
    let content = event_proxy::event_content(e);
    let r = event_proxy::told_events(one);
    if let Some(x) = event_proxy::reported(content) {
        assert(r =~= seq![x]);
    }
    if let Some(x) = event_proxy::clipboard_asked(e) {
        assert(event_proxy::told_clipboard(one) =~= seq![x]);
    }
    if let Some(x) = event_proxy::color_asked(e) {
        assert(event_proxy::told_colors(one) =~= seq![x]);
    }
    if let Some(x) = event_proxy::size_asked(e) {
        assert(event_proxy::told_sizes(one) =~= seq![x]);
    }
}

/// Told events are sorted one by one, in their order: what a run of them comes to is what its
/// parts come to, one behind the other.
pub proof fn law_told_events_keep_their_order(a: Seq<Event>, b: Seq<Event>)
    ensures
        event_proxy::told_events(a + b) == event_proxy::told_events(a)
            + event_proxy::told_events(b),
        event_proxy::told_clipboard(a + b) == event_proxy::told_clipboard(a)
            + event_proxy::told_clipboard(b),
        event_proxy::told_colors(a + b) == event_proxy::told_colors(a)
            + event_proxy::told_colors(b),
        event_proxy::told_sizes(a + b) == event_proxy::told_sizes(a) + event_proxy::told_sizes(b),
{
    let events = |e: Event| event_proxy::reported(event_proxy::event_content(e));
    let clipboard = |e: Event| event_proxy::clipboard_asked(e);
    let colors = |e: Event| event_proxy::color_asked(e);
    let sizes = |e: Event| event_proxy::size_asked(e);
    assert((a + b).map_values(events) =~= a.map_values(events) + b.map_values(events));
    assert((a + b).map_values(clipboard) =~= a.map_values(clipboard) + b.map_values(clipboard));
    assert((a + b).map_values(colors) =~= a.map_values(colors) + b.map_values(colors));
    assert((a + b).map_values(sizes) =~= a.map_values(sizes) + b.map_values(sizes));
    somes_add(a.map_values(events), b.map_values(events));
    somes_add(a.map_values(clipboard), b.map_values(clipboard));
    somes_add(a.map_values(colors), b.map_values(colors));
    somes_add(a.map_values(sizes), b.map_values(sizes));
}

proof fn somes_add<T>(a: Seq<Option<T>>, b: Seq<Option<T>>)
    ensures
        event_proxy::somes(a + b) == event_proxy::somes(a) + event_proxy::somes(b),
    decreases b.len(),
{
    if b.len() == 0 {
        assert(a + b =~= a);
        assert(event_proxy::somes(a) + event_proxy::somes(b) =~= event_proxy::somes(a));
    } else {
        somes_add(a, b.drop_last());
        assert((a + b).drop_last() =~= a + b.drop_last());
        assert((a + b).last() == b.last());
        assert(event_proxy::somes(a + b) =~= event_proxy::somes(a) + event_proxy::somes(b));
    }
}

/// The color that a cell of this slot shows.
pub open spec fn slot_shown(t: Theme, slot: int) -> u32 {
    if slot < 256 {
        palette::shown_color(t, term_model::CellColor::Indexed(slot as u8))
    } else {
        palette::shown_color(t, term_model::CellColor::Named(slot as u16))
    }
}

/// A reply is owed for each query that asks for a known color, and is what the query's own
/// formatter makes of the color that is set for its slot, or of the color that is shown for
/// it. A cursor color that was never set is not told.
pub proof fn law_color_answer(t: Theme, r: ColorReply, e: Option<EventView>)
    requires
        frame::is_color_answer(t, r, e),
        event_proxy::event_content(r.formatter) is ColorRequest,
    ensures
        r.index < 269 && t.colors.contains_key(r.index as int) ==> {
            let c = t.colors[r.index as int];
            exists|text: Seq<char>| #[trigger]
                event_proxy::color_reply_outcome(r.formatter, c.0, c.1, c.2, text) && e == Some(
                    EventView::PtyWrite(utf8::encode_utf8(text)),
                )
        },
        r.index < 258 && !t.colors.contains_key(r.index as int) ==> exists|
            red: u8,
            green: u8,
            blue: u8,
            text: Seq<char>,
        |
            #![trigger event_proxy::color_reply_outcome(r.formatter, red, green, blue, text)]
            65536 * red + 256 * green + blue == slot_shown(t, r.index as int) % 0x100_0000
                && event_proxy::color_reply_outcome(r.formatter, red, green, blue, text) && e
                == Some(EventView::PtyWrite(utf8::encode_utf8(text))),
        r.index == 258 && !t.colors.contains_key(258) ==> e is None,
        r.index >= 269 ==> e is None,
{
    laws_colors::law_query_tells_what_is_shown(t, r.index as int);
    if r.index < 258 && !t.colors.contains_key(r.index as int) {
        let c = palette::queried_color(t, r.index as int)->0;
        let text = choose|text: Seq<char>| #[trigger]
            event_proxy::color_reply_outcome(r.formatter, c.0, c.1, c.2, text) && e == Some(
                frame::as_write(text),
            );
        assert(event_proxy::color_reply_outcome(r.formatter, c.0, c.1, c.2, text));
        assert(65536 * c.0 + 256 * c.1 + c.2 == slot_shown(t, r.index as int) % 0x100_0000);
    }
}

/// A text-area query is answered by its own formatter, which is given the rows and columns
/// of the grid and the width and height of a cell, as long as their products fit in 16 bits.
pub proof fn law_size_answer(v: EngineView, r: SizeReply, e: Option<EventView>)
    requires
        v.wf(),
        frame::is_size_answer(v, r, e),
    ensures
        ({
            let owed = event_proxy::event_content(r.formatter) is TextAreaSizeRequest
                && v.term.grid.lines * v.cell_h <= 65535 && v.term.grid.columns * v.cell_w <= 65535;
            &&& !owed ==> e is None
            &&& owed ==> exists|rows: u16, columns: u16, text: Seq<char>|
                #![trigger event_proxy::size_reply_outcome(
                    r.formatter,
                    rows,
                    columns,
                    v.cell_w,
                    v.cell_h,
                    text,
                )]
                rows == v.term.grid.lines && columns == v.term.grid.columns
                    && event_proxy::size_reply_outcome(
                    r.formatter,
                    rows,
                    columns,
                    v.cell_w,
                    v.cell_h,
                    text,
                ) && e == Some(EventView::PtyWrite(utf8::encode_utf8(text)))
        }),
{
}

/// A clipboard query is answered by its own formatter, which is given the host's text.
pub proof fn law_clipboard_answer(text: Seq<char>, r: ClipboardReply, e: Option<EventView>)
    requires
        frame::is_clipboard_answer(text, r, e),
    ensures
        event_proxy::event_content(r.formatter) is ClipboardLoad ==> exists|reply: Seq<char>|
            #[trigger]
            event_proxy::clipboard_reply_outcome(r.formatter, text, reply) && e == Some(
                EventView::PtyWrite(utf8::encode_utf8(reply)),
            ),
        !(event_proxy::event_content(r.formatter) is ClipboardLoad) ==> e is None,
{
}

/// Each query gets its own answer or none, and what is owed joins the events, the colors before
/// the sizes.
pub proof fn law_each_query_gets_its_answer(
    v: EngineView,
    replies: Seq<ColorReply>,
    colors: Seq<Option<EventView>>,
    asked: Seq<SizeReply>,
    sizes: Seq<Option<EventView>>,
    i: int,
)
    requires
        frame::are_color_answers(v.theme(), replies, colors),
        frame::are_size_answers(v, asked, sizes),
    ensures
        colors.len() == replies.len(),
        sizes.len() == asked.len(),
        0 <= i < replies.len() ==> frame::is_color_answer(
            Theme { palette: v.palette, colors: v.term.colors },
            replies[i],
            colors[i],
        ),
        0 <= i < asked.len() ==> frame::is_size_answer(v, asked[i], sizes[i]),
        frame::answered(v, colors, sizes) == (EngineView {
            events: v.events + event_proxy::somes(colors) + event_proxy::somes(sizes),
            ..v
        }),
{
}

/// Each clipboard request gets its own answer.
pub proof fn law_each_clipboard_request_gets_its_answer(
    text: Seq<char>,
    replies: Seq<ClipboardReply>,
    answers: Seq<Option<EventView>>,
    i: int,
)
    requires
        frame::are_clipboard_answers(text, replies, answers),
        0 <= i < replies.len(),
    ensures
        answers.len() == replies.len(),
        frame::is_clipboard_answer(text, replies[i], answers[i]),
{
}

/// Of several answers, those that are there are kept, in their order.
pub proof fn law_answers_keep_their_order(answers: Seq<Option<EventView>>, e: EventView)
    ensures
        event_proxy::somes(Seq::<Option<EventView>>::empty()).len() == 0,
        event_proxy::somes(answers.push(Some(e))) == event_proxy::somes(answers).push(e),
        event_proxy::somes(answers.push(None)) == event_proxy::somes(answers),
{
    assert(answers.push(Some(e)).drop_last() =~= answers);
    assert(answers.push(None).drop_last() =~= answers);
}

/// The text area fits where its rows and columns, in pixels, have 16 bits.
pub proof fn law_text_area_fits(v: EngineView)
    ensures
        v.text_area_fits() <==> v.term.grid.lines * v.cell_h <= 65535 && v.term.grid.columns
            * v.cell_w <= 65535,
{
}

/// What the terminal told joins the events and the clipboard requests behind those that wait,
/// and changes nothing else.
pub proof fn law_told_events_join_at_the_end(v: EngineView, told: Seq<Event>)
    ensures
        frame::overheard(v, told) == (EngineView {
            events: v.events + event_proxy::told_events(told),
            clipboard: v.clipboard + event_proxy::told_clipboard(told),
            ..v
        }),
{
}

/// The color-scheme report of a theme says `1` where its background is dark, `2` where it is
/// light: `ESC ] 997 ; 1 ESC \`.
pub open spec fn is_scheme_report(t: Theme, e: EventView) -> bool {
    let shown = palette::shown_color(t, term_model::CellColor::Named(257));
    match e {
        EventView::PtyWrite(b) => {
            &&& b.len() == 9
            &&& b[0] == 0x1b && b[1] == 0x5d && b[2] == 0x39 && b[3] == 0x39 && b[4] == 0x37
            &&& b[5] == 0x3b && b[7] == 0x1b && b[8] == 0x5c
            &&& b[6] == 0x31 || b[6] == 0x32
            &&& b[6] == 0x31 <==> palette::is_dark(shown)
        },
        _ => false,
    }
}

/// A report of the color scheme is one event more, for the background that is shown, and
/// changes nothing else.
pub proof fn law_scheme_is_reported(v: EngineView)
    ensures
        ({
            let after = frame::reported_scheme(v);
            let t = Theme { palette: v.palette, colors: v.term.colors };
            &&& after.events.len() == v.events.len() + 1
            &&& after.events.drop_last() == v.events
            &&& is_scheme_report(t, after.events.last())
            &&& after == EngineView { events: after.events, ..v }
        }),
{
    assert(frame::reported_scheme(v).events.drop_last() =~= v.events);
}

/// Toggles are taken one by one, in their order: a subscription is answered with a report,
/// the end of one is not answered, and each decides whether the program is subscribed.
pub proof fn law_toggles_are_taken_in_order(
    v: EngineView,
    toggles: Seq<ColorSchemeToggle>,
    t: ColorSchemeToggle,
)
    ensures
        frame::toggled(v, Seq::empty()) == v,
        ({
            let before = frame::toggled(v, toggles);
            let after = frame::toggled(v, toggles.push(t));
            &&& t is Subscribe ==> after == (EngineView {
                subscribed: true,
                ..frame::reported_scheme(before)
            })
            &&& t is Unsubscribe ==> after == (EngineView { subscribed: false, ..before })
        }),
{
    let none = Seq::<ColorSchemeToggle>::empty();
    assert(frame::toggled(v, none).events =~= v.events);
    assert(toggles.push(t).drop_last() =~= toggles);
    let before = frame::toggled(v, toggles);
    let after = frame::toggled(v, toggles.push(t));
    assert(t is Subscribe ==> after.events =~= frame::reported_scheme(before).events);
    assert(t is Unsubscribe ==> after.events =~= before.events);
}

/// Input is fed without loss and in order. The host is told of the sequences that were taken
/// out of it, then of what the terminal told, then come the replies to color queries and to
/// text-area queries, and last the color-scheme reports. Requests for the clipboard wait
/// behind those that waited before. Nothing else of the engine changes but the terminal, its
/// parser and the scanner.
pub proof fn law_input_is_taken_in_order(
    v: EngineView,
    bytes: Seq<u8>,
    feeds: Seq<Feed>,
    colors: Seq<Option<EventView>>,
    sizes: Seq<Option<EventView>>,
    after: EngineView,
)
    requires
        frame::is_advance(v, bytes, feeds, colors, sizes, after),
    ensures
        ({
            let end = feeds.last();
            let toggles = csi_mode_scan::toggles_in(v.scanner, bytes);
            let t = Theme { palette: v.palette, colors: end.term.colors };
            let told = v.events + osc_preparse::extracted(bytes, 0).1 + event_proxy::told_events(
                end.told,
            ) + event_proxy::somes(colors) + event_proxy::somes(sizes);
            &&& after.events.len() >= told.len()
            &&& after.events.take(told.len() as int) == told
            &&& forall|i: int|
                told.len() <= i < after.events.len() ==> is_scheme_report(
                    t,
                    #[trigger] after.events[i],
                )
            &&& after.events.len() == told.len() + toggles.filter(
                |x: ColorSchemeToggle| x is Subscribe,
            ).len()
            &&& after.clipboard == v.clipboard + event_proxy::told_clipboard(end.told)
            &&& colors.len() == event_proxy::told_colors(end.told).len()
            &&& sizes.len() == event_proxy::told_sizes(end.told).len()
            &&& toggles.len() > 0 ==> (after.subscribed <==> toggles.last() is Subscribe)
            &&& toggles.len() == 0 ==> after.subscribed == v.subscribed
            &&& after.scanner == csi_mode_scan::state_after(v.scanner, bytes)
            &&& after == EngineView {
                term: end.term,
                parser: end.parser,
                events: after.events,
                clipboard: after.clipboard,
                scanner: after.scanner,
                subscribed: after.subscribed,
                ..v
            }
            &&& end.read == osc_preparse::extracted(bytes, 0).0.len()
        }),
{
    let end = feeds.last();
    let toggles = csi_mode_scan::toggles_in(v.scanner, bytes);
    let t = Theme { palette: v.palette, colors: end.term.colors };
    let told = v.events + osc_preparse::extracted(bytes, 0).1 + event_proxy::told_events(end.told)
        + event_proxy::somes(colors) + event_proxy::somes(sizes);
    let reports = frame::toggle_reports(palette::background(t), toggles);
    assert(after.events == told + reports);
    assert(after.events.take(told.len() as int) =~= told);
    crate::laws::law_each_subscription_is_answered(palette::background(t), toggles);
    laws_colors::law_chrome_colors(t);
    assert forall|i: int| told.len() <= i < after.events.len() implies is_scheme_report(
        t,
        #[trigger] after.events[i],
    ) by {
        assert(after.events[i] == reports[i - told.len()]);
    }
}

/// The pieces that the parser was handed are the bytes, from the first to the last: each
/// starts where the one before it ended, holds a byte at least, and carries on from where the
/// parser and the terminal stood, with no more than the selection gone.
pub proof fn law_pieces_are_the_input(bytes: Seq<u8>, a: Feed, b: Feed)
    requires
        frame::is_piece(bytes, a, b),
    ensures
        a.read < b.read <= bytes.len(),
        a.told == b.told.take(a.told.len() as int),
        exists|term: term_model::TermState|
            #![trigger crate::term_bridge::parse_outcome(
                a.parser,
                term,
                bytes.subrange(a.read, b.read),
                b.parser,
                b.term,
                b.told.skip(a.told.len() as int),
            )]
            crate::term_bridge::parse_outcome(
                a.parser,
                term,
                bytes.subrange(a.read, b.read),
                b.parser,
                b.term,
                b.told.skip(a.told.len() as int),
            ) && (term == a.term || term == (term_model::TermState { selection: None, ..a.term })),
        b.term.wf(),
        b.term.grid.columns == a.term.grid.columns,
        b.term.grid.lines == a.term.grid.lines,
        b.term.options == a.term.options,
        b.term.listener == a.term.listener,
{
}

/// Feeding begins with the parser and the terminal as they stood, with nothing read and nothing
/// told, and goes on piece by piece.
pub proof fn law_feeding_goes_from_piece_to_piece(
    bytes: Seq<u8>,
    parser: crate::term_bridge::AnsiParser,
    term: term_model::TermState,
    feeds: Seq<Feed>,
    i: int,
)
    requires
        frame::is_feeding(bytes, parser, term, feeds),
    ensures
        feeds.len() >= 1,
        feeds[0].parser == parser,
        feeds[0].term == term,
        feeds[0].told.len() == 0,
        feeds[0].read == 0,
        0 < i < feeds.len() ==> frame::is_piece(bytes, feeds[i - 1], feeds[i]),
    decreases feeds.len(),
{
    if feeds.len() > 1 {
        law_feeding_goes_from_piece_to_piece(bytes, parser, term, feeds.drop_last(), i);
    }
}

/// Replacing the configuration tells the terminal's title, and, to a program that asked for
/// it, the color scheme of the new palette. A palette of 18 entries is taken, the options are
/// replaced, and nothing else of the engine changes.
pub proof fn law_reconfiguring_tells_title_and_scheme(
    v: EngineView,
    config: crate::config::EngineConfig,
    term: term_model::TermState,
    after: EngineView,
)
    requires
        frame::is_reconfigure(v, config, term, after),
    ensures
        ({
            let t = Theme { palette: after.palette, colors: v.term.colors };
            let n = v.events.len() as int;
            let title = match v.term.title {
                Some(title) => EventView::Title(title),
                None => EventView::ResetTitle,
            };
            &&& after.palette == (if config.palette@.len() == 18 {
                config.palette@
            } else {
                v.palette
            })
            &&& after.events.len() == n + (if v.subscribed {
                2int
            } else {
                1
            })
            &&& after.events.take(n) == v.events
            &&& after.events[n] == title
            &&& v.subscribed ==> is_scheme_report(t, after.events[n + 1])
            &&& after.term.options.history == (if config.scrollback <= 0x7FFE_FFFF {
                config.scrollback as int
            } else {
                0x7FFE_FFFF
            })
            &&& after.term.options.escape_chars == config.semantic_escape_chars@
            &&& after.term.colors == v.term.colors
            &&& after.term.selection == v.term.selection
            &&& after.term.mode == v.term.mode
            &&& after == EngineView {
                term: after.term,
                palette: after.palette,
                events: after.events,
                ..v
            }
        }),
{
    assert(after.events.take(v.events.len() as int) =~= v.events);
    laws_colors::law_chrome_colors(Theme { palette: after.palette, colors: v.term.colors });
}

/// A resize gives the grid the size that was asked for, at least two columns and one row,
/// lands on a line boundary, and leaves all but the terminal alone. Other columns drop the
/// selection.
pub proof fn law_resize_gives_the_size(v: EngineView, columns: u16, rows: u16, after: EngineView)
    requires
        v.wf(),
        frame::is_resize(v, columns, rows, after),
    ensures
        after.wf(),
        columns >= 2 ==> after.term.grid.columns == columns,
        columns < 2 ==> after.term.grid.columns == 2,
        rows >= 1 ==> after.term.grid.lines == rows,
        rows == 0 ==> after.term.grid.lines == 1,
        after.scroll_fraction == 0,
        after.term.grid.columns != v.term.grid.columns ==> after.term.selection is None,
        after.term.colors == v.term.colors,
        after.term.mode == v.term.mode,
        after == (EngineView { term: after.term, scroll_fraction: 0, ..v }),
{
}

} // verus!
