//! Incremental sniffer for DEC private mode **2031**, the color-scheme
//! change-notification protocol (contour/ghostty/iTerm2, "light/dark mode
//! reporting").
//!
//! Alacritty's parser swallows private modes it does not recognize and offers no
//! hook to observe them, so the raw PTY byte stream is sniffed beside the parser.
//! The scanner is **observe-only**: it never removes or rewrites bytes. It carries
//! partial state across [`CsiModeScanner::feed`] calls, so a sequence split across
//! two PTY reads is still recognized.
//!
//! | Sequence | Toggle |
//! |----------|--------|
//! | `CSI ? 2031 h` (`ESC [ ? 2031 h`) | [`ColorSchemeToggle::Subscribe`] |
//! | `CSI ? 2031 l` | [`ColorSchemeToggle::Unsubscribe`] |
//!
//! `2031` may appear among other `;`-separated params (e.g. `CSI ? 1049;2031 h`).

use crate::ascii;
use crate::ascii::{ESC, LEFT_BRACKET, LOWER_H, LOWER_L, NINE, QUESTION, SEMICOLON, ZERO};
use vstd::prelude::*;

verus! {

/// A recognized toggle of DEC private mode 2031.
#[derive(Debug, Clone, Copy, PartialEq, Eq, Structural)]
pub enum ColorSchemeToggle {
    /// `CSI ? 2031 h`: the application wants color-scheme change notifications.
    Subscribe,
    /// `CSI ? 2031 l`: the application no longer wants them.
    Unsubscribe,
}

/// Cap on accumulated CSI parameter bytes. Real mode sequences are short, so a
/// runaway means the scanner mis-synced on binary data: abort rather than grow.
pub const MAX_PARAMS_LEN: usize = 64;

/// What the scanner has seen of a sequence that may still be in flight.
pub enum ScanView {
    /// Outside any escape sequence.
    Ground,
    /// Saw `ESC`.
    Esc,
    /// Saw `ESC [`.
    Csi,
    /// Saw `ESC [ ?` and then these parameter bytes.
    CsiPriv(Seq<u8>),
}

/// Digits and `;`: the bytes that make up a parameter list.
pub open spec fn is_param_byte(b: u8) -> bool {
    ascii::is_digit(b) || b == SEMICOLON
}

/// The digits of the color-scheme mode number.
pub open spec fn mode_digits() -> Seq<u8> {
    seq![0x32u8, 0x30, 0x33, 0x31]
}

/// `params[i..j]` is one whole field of a `;`-separated list.
pub open spec fn is_field(params: Seq<u8>, i: int, j: int) -> bool {
    &&& 0 <= i <= j <= params.len()
    &&& i == 0 || params[i - 1] == SEMICOLON
    &&& j == params.len() || params[j] == SEMICOLON
    &&& forall|k: int| i <= k < j ==> params[k] != SEMICOLON
}

/// Some field of the `;`-separated list `params` is exactly `2031`.
pub open spec fn names_color_scheme_mode(params: Seq<u8>) -> bool {
    exists|i: int, j: int| #[trigger]
        is_field(params, i, j) && params.subrange(i, j) == mode_digits()
}

/// The state after one byte.
pub open spec fn next_state(s: ScanView, b: u8) -> ScanView {
    if b == ESC {
        ScanView::Esc
    } else {
        match s {
            ScanView::Ground => ScanView::Ground,
            ScanView::Esc => if b == LEFT_BRACKET {
                ScanView::Csi
            } else {
                ScanView::Ground
            },
            ScanView::Csi => if b == QUESTION {
                ScanView::CsiPriv(Seq::empty())
            } else {
                ScanView::Ground
            },
            ScanView::CsiPriv(params) => if is_param_byte(b) && params.len() < MAX_PARAMS_LEN {
                ScanView::CsiPriv(params.push(b))
            } else {
                ScanView::Ground
            },
        }
    }
}

/// The toggle that one byte completes, if it completes one.
pub open spec fn toggle_at(s: ScanView, b: u8) -> Option<ColorSchemeToggle> {
    match s {
        ScanView::CsiPriv(params) => if names_color_scheme_mode(params) && b == LOWER_H {
            Some(ColorSchemeToggle::Subscribe)
        } else if names_color_scheme_mode(params) && b == LOWER_L {
            Some(ColorSchemeToggle::Unsubscribe)
        } else {
            None
        },
        _ => None,
    }
}

/// The state after a run of bytes.
pub open spec fn state_after(s: ScanView, bytes: Seq<u8>) -> ScanView
    decreases bytes.len(),
{
    if bytes.len() == 0 {
        s
    } else {
        next_state(state_after(s, bytes.drop_last()), bytes.last())
    }
}

/// The toggles that a run of bytes completes, in stream order.
pub open spec fn toggles_in(s: ScanView, bytes: Seq<u8>) -> Seq<ColorSchemeToggle>
    decreases bytes.len(),
{
    if bytes.len() == 0 {
        Seq::empty()
    } else {
        let before = toggles_in(s, bytes.drop_last());
        match toggle_at(state_after(s, bytes.drop_last()), bytes.last()) {
            Some(t) => before.push(t),
            None => before,
        }
    }
}

/// No field that starts before `start` is the color-scheme mode.
spec fn no_match_before(params: Seq<u8>, start: int) -> bool {
    forall|i: int, j: int| #[trigger]
        is_field(params, i, j) && i < start ==> params.subrange(i, j) != mode_digits()
}

/// Whether `params[start..end]` holds the digits of the color-scheme mode.
fn is_mode_field(params: &Vec<u8>, start: usize, end: usize) -> (r: bool)
    requires
        start <= end <= params@.len(),
    ensures
        r == (params@.subrange(start as int, end as int) == mode_digits()),
{
    let r = end - start == 4 && params[start] == 0x32 && params[start + 1] == 0x30 && params[start
        + 2] == 0x33 && params[start + 3] == 0x31;
    proof {
        let field = params@.subrange(start as int, end as int);
        if r {
            assert(field =~= mode_digits());
        } else if field == mode_digits() {
            assert(field.len() == 4);
            assert(field[0] == 0x32 && field[1] == 0x30 && field[2] == 0x33 && field[3] == 0x31);
        }
    }
    r
}

#[derive(Clone, Copy, PartialEq, Eq, Structural)]
enum State {
    /// Outside any escape sequence.
    Ground,
    /// Saw `ESC` (0x1b).
    Esc,
    /// Saw `ESC [`.
    Csi,
    /// Saw `ESC [ ?`: accumulating numeric/`;` params until a final byte.
    CsiPriv,
}

/// Stateful, observe-only sniffer for mode-2031 toggles. Construct once per
/// engine and [`feed`](Self::feed) every chunk of raw PTY output.
pub struct CsiModeScanner {
    state: State,
    params: Vec<u8>,
}

impl View for CsiModeScanner {
    type V = ScanView;

    closed spec fn view(&self) -> ScanView {
        scan_view(self.state, self.params@)
    }
}

spec fn scan_view(state: State, params: Seq<u8>) -> ScanView {
    match state {
        State::Ground => ScanView::Ground,
        State::Esc => ScanView::Esc,
        State::Csi => ScanView::Csi,
        State::CsiPriv => ScanView::CsiPriv(params),
    }
}

/// What a scanner may hold over from one chunk to the next: a bounded number of
/// bytes, each a digit or a `;`.
pub open spec fn is_bounded(params: Seq<u8>) -> bool {
    &&& params.len() <= MAX_PARAMS_LEN
    &&& forall|i: int|
        0 <= i < params.len() ==> ascii::is_digit(#[trigger] params[i]) || params[i] == SEMICOLON
}

impl Default for CsiModeScanner {
    fn default() -> (r: Self)
        ensures
            r@ == ScanView::Ground,
    {
        CsiModeScanner { state: State::Ground, params: Vec::new() }
    }
}

impl CsiModeScanner {
    /// The parameter bytes that are held.
    pub closed spec fn held(&self) -> Seq<u8> {
        self.params@
    }

    /// Memory stays bounded on any stream.
    #[verifier::type_invariant]
    spec fn inv(self) -> bool {
        is_bounded(self.params@)
    }

    pub fn new() -> (r: Self)
        ensures
            r@ == ScanView::Ground,
            r.held().len() == 0,
    {
        CsiModeScanner { state: State::Ground, params: Vec::new() }
    }

    /// Feed one chunk of raw PTY output. Returns the mode-2031 toggles found, in
    /// stream order. The bytes are neither consumed nor modified: the caller
    /// still hands the identical bytes to the real parser. What is held over to the
    /// next chunk is bounded, whatever the bytes are.
    pub fn feed(&mut self, bytes: &[u8]) -> (out: Vec<ColorSchemeToggle>)
        ensures
            final(self)@ == state_after(old(self)@, bytes@),
            out@ == toggles_in(old(self)@, bytes@),
            is_bounded(final(self).held()),
    {
        proof {
            use_type_invariant(&*self);
        }
        let mut state: State = self.state;
        let mut params: Vec<u8> = Vec::new();
        std::mem::swap(&mut params, &mut self.params);
        let mut out: Vec<ColorSchemeToggle> = Vec::new();
        let mut i: usize = 0;
        while i < bytes.len()
            invariant
                i <= bytes@.len(),
                is_bounded(params@),
                scan_view(state, params@) == state_after(old(self)@, bytes@.take(i as int)),
                out@ == toggles_in(old(self)@, bytes@.take(i as int)),
            decreases bytes.len() - i,
        {
            let b = bytes[i];
            assert(bytes@.take(i + 1).drop_last() =~= bytes@.take(i as int));
            assert(bytes@.take(i + 1).last() == b);
            match state {
                State::Ground => {
                    if b == ESC {
                        state = State::Esc;
                    }
                },
                State::Esc => {
                    state = if b == LEFT_BRACKET {
                        State::Csi
                    } else if b == ESC {
                        // ESC ESC: restart on the new ESC.
                        State::Esc
                    } else {
                        State::Ground
                    };
                },
                State::Csi => {
                    if b == QUESTION {
                        params.clear();
                        state = State::CsiPriv;
                    } else if b == ESC {
                        state = State::Esc;
                    } else {
                        // Not a private-mode CSI; stop tracking.
                        state = State::Ground;
                    }
                },
                State::CsiPriv => {
                    if (ZERO <= b && b <= NINE) || b == SEMICOLON {
                        if params.len() >= MAX_PARAMS_LEN {
                            params.clear();
                        state = State::Ground;
                        } else {
                            params.push(b);
                        }
                    } else if b == LOWER_H || b == LOWER_L {
                        if has_color_scheme_mode(&params) {
                            out.push(
                                if b == LOWER_H {
                                    ColorSchemeToggle::Subscribe
                                } else {
                                    ColorSchemeToggle::Unsubscribe
                                },
                            );
                        }
                        params.clear();
                        state = State::Ground;
                    } else if b == ESC {
                        // A fresh ESC aborts the sequence in flight.
                        params.clear();
                        state = State::Esc;
                    } else {
                        params.clear();
                        state = State::Ground;
                    }
                },
            }
            i = i + 1;
        }
        assert(bytes@.take(i as int) =~= bytes@);
        self.params = params;
        self.state = state;
        out
    }
}

/// Whether one of the accumulated params is the color-scheme mode.
fn has_color_scheme_mode(params: &Vec<u8>) -> (r: bool)
    ensures
        r == names_color_scheme_mode(params@),
{
    let n: usize = params.len();
    // Start of the field being read.
    let mut start: usize = 0;
    let mut i: usize = 0;
    while i < n
        invariant
            n == params@.len(),
            start <= i <= n,
            start == 0 || params@[start - 1] == SEMICOLON,
            forall|k: int| start <= k < i ==> params@[k] != SEMICOLON,
            no_match_before(params@, start as int),
        decreases n - i,
    {
        if params[i] == SEMICOLON {
            if is_mode_field(params, start, i) {
                assert(is_field(params@, start as int, i as int));
                return true;
            }
            start = i + 1;
        }
        i = i + 1;
    }
    let r = is_mode_field(params, start, n);
    proof {
        assert(is_field(params@, start as int, n as int));
        if names_color_scheme_mode(params@) {
            let (i, j) = choose|i: int, j: int| #[trigger]
                is_field(params@, i, j) && params@.subrange(i, j) == mode_digits();
            assert(i >= start);
            if i > start {
                assert(params@[i - 1] == SEMICOLON);
            }
            assert(j == n);
        }
    }
    r
}

/// Splitting the stream into chunks changes nothing: feeding `a` and then `b`
/// leaves the same state and reports the same toggles as feeding `a + b` at once.
pub proof fn law_chunking(s: ScanView, a: Seq<u8>, b: Seq<u8>)
    ensures
        state_after(s, a + b) == state_after(state_after(s, a), b),
        toggles_in(s, a + b) == toggles_in(s, a) + toggles_in(state_after(s, a), b),
    decreases b.len(),
{
    if b.len() == 0 {
        assert(a + b =~= a);
        assert(toggles_in(s, a) + toggles_in(state_after(s, a), b) =~= toggles_in(s, a));
    } else {
        law_chunking(s, a, b.drop_last());
        assert((a + b).drop_last() =~= a + b.drop_last());
        assert((a + b).last() == b.last());
        assert(toggles_in(s, a + b) =~= toggles_in(s, a) + toggles_in(state_after(s, a), b));
    }
}

/// Plain output holds no toggles: from the ground state, bytes without an `ESC`
/// report nothing and leave the scanner in the ground state.
pub proof fn law_plain_bytes_are_ignored(bytes: Seq<u8>)
    requires
        forall|i: int| 0 <= i < bytes.len() ==> bytes[i] != ESC,
    ensures
        state_after(ScanView::Ground, bytes) == ScanView::Ground,
        toggles_in(ScanView::Ground, bytes) == Seq::<ColorSchemeToggle>::empty(),
    decreases bytes.len(),
{
    if bytes.len() > 0 {
        law_plain_bytes_are_ignored(bytes.drop_last());
    }
}

/// The bytes `ESC [ ?`.
pub open spec fn private_introducer() -> Seq<u8> {
    seq![ESC, LEFT_BRACKET, QUESTION]
}

/// `ESC [ ?` opens an empty parameter list from every state, without a toggle.
proof fn lemma_introducer(s: ScanView)
    ensures
        state_after(s, private_introducer()) == ScanView::CsiPriv(Seq::empty()),
        toggles_in(s, private_introducer()) == Seq::<ColorSchemeToggle>::empty(),
{
    reveal_with_fuel(state_after, 4);
    reveal_with_fuel(toggles_in, 4);
    let p = private_introducer();
    assert(p.drop_last() =~= seq![ESC, LEFT_BRACKET]);
    assert(p.drop_last().drop_last() =~= seq![ESC]);
    assert(p.drop_last().drop_last().drop_last() =~= Seq::<u8>::empty());
}

/// Parameter bytes accumulate up to the cap, without a toggle.
proof fn lemma_params(params: Seq<u8>)
    requires
        forall|i: int| 0 <= i < params.len() ==> is_param_byte(params[i]),
    ensures
        state_after(ScanView::CsiPriv(Seq::empty()), params) == if params.len() <= MAX_PARAMS_LEN {
            ScanView::CsiPriv(params)
        } else {
            ScanView::Ground
        },
        toggles_in(ScanView::CsiPriv(Seq::empty()), params) == Seq::<ColorSchemeToggle>::empty(),
    decreases params.len(),
{
    if params.len() > 0 {
        lemma_params(params.drop_last());
        assert(params.drop_last().push(params.last()) =~= params);
    } else {
        assert(params =~= Seq::empty());
    }
}

/// From whatever state the scanner is in (so also right after a sequence that was
/// cut short), `ESC [ ? params h` reports exactly one subscribe, and
/// `ESC [ ? params l` exactly one unsubscribe, if one of the params is `2031`, and
/// nothing otherwise. A list longer than the cap reports nothing. Either way the
/// scanner is back in the ground state.
pub proof fn law_whole_sequence(s: ScanView, params: Seq<u8>, set: bool)
    requires
        forall|i: int| 0 <= i < params.len() ==> is_param_byte(params[i]),
    ensures
        ({
            let last = if set {
                LOWER_H
            } else {
                LOWER_L
            };
            let sequence = private_introducer() + params + seq![last];
            &&& state_after(s, sequence) == ScanView::Ground
            &&& toggles_in(s, sequence) == if names_color_scheme_mode(params) && params.len()
                <= MAX_PARAMS_LEN {
                seq![
                    if set {
                        ColorSchemeToggle::Subscribe
                    } else {
                        ColorSchemeToggle::Unsubscribe
                    },
                ]
            } else {
                Seq::empty()
            }
        }),
{
    let last = if set {
        LOWER_H
    } else {
        LOWER_L
    };
    let intro = private_introducer();
    let sequence = intro + params + seq![last];
    lemma_introducer(s);
    lemma_params(params);
    law_chunking(s, intro, params);
    assert(sequence.drop_last() =~= intro + params);
    assert(toggles_in(s, intro + params) =~= Seq::empty());
}

} // verus!
