//! Events that travel from the terminal to the host, and the listener that
//! collects them while the terminal parses.

use alacritty_terminal::event::{Event, EventListener, WindowSize};
use alacritty_terminal::vte::ansi::Rgb;
use std::sync::Arc;
use vstd::prelude::*;
use vstd::rwlock::{RwLock, RwLockPredicate};
use vstd::string::*;
use vstd::utf8;

verus! {

/// `alacritty_terminal`'s event. The formatters of the three kinds of request
/// are closures inside it, so the value is carried along whole.
#[verifier::external_type_specification]
#[verifier::external_body]
pub struct ExEvent(alacritty_terminal::event::Event);

/// A deferred OSC color-query reply. The request holds alacritty's own reply
/// builder, which is fed the current color after parsing finishes (the proxy
/// cannot read terminal state while the parser runs). Never part of
/// [`EngineEvent`].
pub struct ColorReply {
    pub index: usize,
    pub formatter: Event,
}

/// A deferred OSC 52 paste reply: the request's formatter is applied to the
/// system clipboard text that the host fetches later.
pub struct ClipboardReply {
    pub formatter: Event,
}

/// A deferred text-area size reply (CSI 14/18 t).
pub struct SizeReply {
    pub formatter: Event,
}

/// Clones an [`Event`]: the texts are copied and the formatters shared, so the
/// clone stands for the same event.
#[verifier::external_body]
pub(crate) fn clone_event(event: &Event) -> (r: Event)
    ensures
        r == *event,
{
    event.clone()
}

impl Clone for ColorReply {
    fn clone(&self) -> (r: ColorReply)
        ensures
            r == *self,
    {
        ColorReply { index: self.index, formatter: clone_event(&self.formatter) }
    }
}

impl Clone for ClipboardReply {
    fn clone(&self) -> (r: ClipboardReply)
        ensures
            r == *self,
    {
        ClipboardReply { formatter: clone_event(&self.formatter) }
    }
}

impl Clone for SizeReply {
    fn clone(&self) -> (r: SizeReply)
        ensures
            r == *self,
    {
        SizeReply { formatter: clone_event(&self.formatter) }
    }
}

/// Serializable terminal-to-host events.
#[derive(Clone, Debug, PartialEq)]
pub enum EngineEvent {
    PtyWrite(Vec<u8>),
    Title(String),
    ResetTitle,
    Bell,
    ClipboardStore(String),
    ClipboardLoad,
    /// OSC 7: current working directory (file://host/path).
    WorkingDir(String),
    /// OSC 9 / OSC 777: desktop notification (body, or "title\0body" for 777).
    Notify(String),
}

/// The contents of an [`EngineEvent`].
pub enum EventView {
    PtyWrite(Seq<u8>),
    Title(Seq<char>),
    ResetTitle,
    Bell,
    ClipboardStore(Seq<char>),
    ClipboardLoad,
    WorkingDir(Seq<char>),
    Notify(Seq<char>),
}

impl View for EngineEvent {
    type V = EventView;

    open spec fn view(&self) -> EventView {
        match *self {
            EngineEvent::PtyWrite(b) => EventView::PtyWrite(b@),
            EngineEvent::Title(s) => EventView::Title(s@),
            EngineEvent::ResetTitle => EventView::ResetTitle,
            EngineEvent::Bell => EventView::Bell,
            EngineEvent::ClipboardStore(s) => EventView::ClipboardStore(s@),
            EngineEvent::ClipboardLoad => EventView::ClipboardLoad,
            EngineEvent::WorkingDir(s) => EventView::WorkingDir(s@),
            EngineEvent::Notify(s) => EventView::Notify(s@),
        }
    }
}

/// The contents of a list of events.
pub open spec fn event_views(events: Seq<EngineEvent>) -> Seq<EventView> {
    events.map_values(|e: EngineEvent| e@)
}

/// What can wait in a queue.
pub trait Queued: Sized {
    /// The item is what its queue is for.
    spec fn queueable(self) -> bool;
}

impl Queued for EngineEvent {
    /// Every event can be told.
    open spec fn queueable(self) -> bool {
        true
    }
}

impl Queued for Event {
    /// Every event can be written down.
    open spec fn queueable(self) -> bool {
        true
    }
}

impl Queued for ColorReply {
    /// The reply builder is one for colors.
    open spec fn queueable(self) -> bool {
        event_content(self.formatter) is ColorRequest
    }
}

impl Queued for ClipboardReply {
    /// The reply builder is one for the clipboard's text.
    open spec fn queueable(self) -> bool {
        event_content(self.formatter) is ClipboardLoad
    }
}

impl Queued for SizeReply {
    /// The reply builder is one for the window's size.
    open spec fn queueable(self) -> bool {
        event_content(self.formatter) is TextAreaSizeRequest
    }
}

/// What the lock around a queue keeps: each item is one that the queue accepts.
#[verifier::reject_recursive_types(T)]
pub struct Accepted<T> {
    pub accepts: Ghost<spec_fn(T) -> bool>,
}

impl<T> RwLockPredicate<Vec<T>> for Accepted<T> {
    open spec fn inv(self, v: Vec<T>) -> bool {
        forall|i: int| 0 <= i < v@.len() ==> (self.accepts@)(#[trigger] v@[i])
    }
}

/// A queue that is shared between a listener and the one who reads it: clones of it
/// stand for one list. What another holder pushes can arrive at any time, so what is known
/// of the items that are taken out is that the queue accepts them; how many there
/// are, and which, rests on the other holders.
#[verifier::reject_recursive_types(T)]
pub struct Queue<T> {
    items: Arc<RwLock<Vec<T>, Accepted<T>>>,
}

impl<T: Queued> Queue<T> {
    /// The item may be pushed, and may come out.
    pub closed spec fn accepts(&self, item: T) -> bool {
        (self.items.pred().accepts@)(item)
    }

    /// The queue accepts every item that it is for, and no other.
    pub open spec fn is_open(&self) -> bool {
        forall|item: T| #[trigger] self.accepts(item) <==> item.queueable()
    }

    /// A queue that nothing was pushed to. It accepts every item that it is for, and
    /// no other.
    pub fn new() -> (r: Queue<T>)
        ensures
            r.is_open(),
    {
        let ghost pred = Accepted { accepts: Ghost(|item: T| item.queueable()) };
        Queue { items: Arc::new(RwLock::new(Vec::new(), Ghost(pred))) }
    }

    /// Appends `item`.
    pub fn push(&self, item: T)
        requires
            self.accepts(item),
    {
        let (mut v, handle) = self.items.acquire_write();
        v.push(item);
        handle.release_write(v);
    }

    /// Takes out all that was pushed since the last call, in the order of arrival. The
    /// queue accepts each of the items.
    pub fn take(&self) -> (r: Vec<T>)
        ensures
            forall|i: int| 0 <= i < r@.len() ==> self.accepts(#[trigger] r@[i]),
    {
        let (v, handle) = self.items.acquire_write();
        handle.release_write(Vec::new());
        v
    }
}

impl<T> Clone for Queue<T> {
    fn clone(&self) -> (r: Queue<T>)
        ensures
            r == *self,
    {
        Queue { items: self.items.clone() }
    }
}

/// Event queue shared by a host and the proxy, which fills it.
pub type EventQueue = Queue<EngineEvent>;

/// Side queue of pending color-query replies (parallel to [`EventQueue`]).
pub type ReplyQueue = Queue<ColorReply>;

/// Side queue of pending OSC 52 paste replies.
pub type ClipboardReplyQueue = Queue<ClipboardReply>;

/// Side queue of pending text-area size replies.
pub type SizeReplyQueue = Queue<SizeReply>;

/// What an [`Event`] asks for, as plain values.
pub enum Incoming {
    PtyWrite(String),
    Title(String),
    ResetTitle,
    Bell,
    ClipboardStore(String),
    ClipboardLoad,
    ColorRequest(usize),
    TextAreaSizeRequest,
    Other,
}

/// The contents of an [`Incoming`].
pub enum IncomingView {
    PtyWrite(Seq<char>),
    Title(Seq<char>),
    ResetTitle,
    Bell,
    ClipboardStore(Seq<char>),
    ClipboardLoad,
    ColorRequest(usize),
    TextAreaSizeRequest,
    Other,
}

impl View for Incoming {
    type V = IncomingView;

    open spec fn view(&self) -> IncomingView {
        match *self {
            Incoming::PtyWrite(s) => IncomingView::PtyWrite(s@),
            Incoming::Title(s) => IncomingView::Title(s@),
            Incoming::ResetTitle => IncomingView::ResetTitle,
            Incoming::Bell => IncomingView::Bell,
            Incoming::ClipboardStore(s) => IncomingView::ClipboardStore(s@),
            Incoming::ClipboardLoad => IncomingView::ClipboardLoad,
            Incoming::ColorRequest(i) => IncomingView::ColorRequest(i),
            Incoming::TextAreaSizeRequest => IncomingView::TextAreaSizeRequest,
            Incoming::Other => IncomingView::Other,
        }
    }
}

/// The variant of an event, with its text or index.
pub uninterp spec fn event_content(event: Event) -> IncomingView;

/// Reads the variant of an [`Event`], with its text or index. The variants that
/// no host asks about come out as `Other`.
#[verifier::external_body]
fn classify(event: &Event) -> (r: Incoming)
    ensures
        r@ == event_content(*event),
{
    match event {
        Event::PtyWrite(s) => Incoming::PtyWrite(s.clone()),
        Event::Title(s) => Incoming::Title(s.clone()),
        Event::ResetTitle => Incoming::ResetTitle,
        Event::Bell => Incoming::Bell,
        Event::ClipboardStore(_, s) => Incoming::ClipboardStore(s.clone()),
        Event::ClipboardLoad(_, _) => Incoming::ClipboardLoad,
        Event::ColorRequest(index, _) => Incoming::ColorRequest(*index),
        Event::TextAreaSizeRequest(_) => Incoming::TextAreaSizeRequest,
        _ => Incoming::Other,
    }
}

/// Whether the formatter of a color request can make this text of the color.
pub uninterp spec fn color_reply_outcome(
    event: Event,
    r: u8,
    g: u8,
    b: u8,
    text: Seq<char>,
) -> bool;

/// Applies the formatter of [`Event::ColorRequest`] to a color. There is a reply if
/// and only if the event is such a request. Its text is what that formatter makes of
/// the color; the formatter is a closure that came with the event, and what it makes
/// is not spelled out here.
#[verifier::external_body]
pub(crate) fn format_color(event: &Event, r: u8, g: u8, b: u8) -> (text: Option<String>)
    ensures
        text is Some <==> event_content(*event) is ColorRequest,
        text matches Some(t) ==> color_reply_outcome(*event, r, g, b, t@),
{
    match event {
        Event::ColorRequest(_, formatter) => Some(formatter(Rgb { r, g, b })),
        _ => None,
    }
}

/// Whether the formatter of a clipboard request can make this reply of the
/// clipboard's text.
pub uninterp spec fn clipboard_reply_outcome(
    event: Event,
    text: Seq<char>,
    reply: Seq<char>,
) -> bool;

/// Applies the formatter of [`Event::ClipboardLoad`] to the clipboard's text. There
/// is a reply if and only if the event is such a request. It is what that formatter
/// makes of the text; the formatter is a closure that came with the event, and what
/// it makes is not spelled out here.
#[verifier::external_body]
pub(crate) fn format_clipboard(event: &Event, text: &str) -> (r: Option<String>)
    ensures
        r is Some <==> event_content(*event) is ClipboardLoad,
        r matches Some(t) ==> clipboard_reply_outcome(*event, text@, t@),
{
    match event {
        Event::ClipboardLoad(_, formatter) => Some(formatter(text)),
        _ => None,
    }
}

/// Whether the formatter of a text-area size request can make this text of the
/// window's size.
pub uninterp spec fn size_reply_outcome(
    event: Event,
    lines: u16,
    columns: u16,
    cell_w: u16,
    cell_h: u16,
    text: Seq<char>,
) -> bool;

/// Applies the formatter of [`Event::TextAreaSizeRequest`] to the window's size.
/// There is a reply if and only if the event is such a request. Its text is what that
/// formatter makes of the size; the formatter is a closure that came with the event,
/// and what it makes is not spelled out here. It multiplies in 16 bits, so the text
/// area has to fit in them.
#[verifier::external_body]
pub(crate) fn format_size(
    event: &Event,
    lines: u16,
    columns: u16,
    cell_w: u16,
    cell_h: u16,
) -> (r: Option<String>)
    requires
        lines * cell_h <= u16::MAX,
        columns * cell_w <= u16::MAX,
    ensures
        r is Some <==> event_content(*event) is TextAreaSizeRequest,
        r matches Some(t) ==> size_reply_outcome(*event, lines, columns, cell_w, cell_h, t@),
{
    match event {
        Event::TextAreaSizeRequest(formatter) => Some(
            formatter(
                WindowSize {
                    num_lines: lines,
                    num_cols: columns,
                    cell_width: cell_w,
                    cell_height: cell_h,
                },
            ),
        ),
        _ => None,
    }
}

/// Where the parts of an event go.
pub struct Routed {
    pub event: Option<EngineEvent>,
    pub clipboard: Option<ClipboardReply>,
    pub reply: Option<ColorReply>,
    pub size: Option<SizeReply>,
}

/// The host event that an incoming event is reported as, if there is one.
pub open spec fn reported(incoming: IncomingView) -> Option<EventView> {
    match incoming {
        IncomingView::PtyWrite(s) => Some(EventView::PtyWrite(utf8::encode_utf8(s))),
        IncomingView::Title(s) => Some(EventView::Title(s)),
        IncomingView::ResetTitle => Some(EventView::ResetTitle),
        IncomingView::Bell => Some(EventView::Bell),
        IncomingView::ClipboardStore(s) => Some(EventView::ClipboardStore(s)),
        IncomingView::ClipboardLoad => Some(EventView::ClipboardLoad),
        IncomingView::ColorRequest(_) => None,
        IncomingView::TextAreaSizeRequest => None,
        IncomingView::Other => None,
    }
}

/// The clipboard request that waits for an answer once the event was told.
pub open spec fn clipboard_asked(event: Event) -> Option<ClipboardReply> {
    if event_content(event) is ClipboardLoad {
        Some(ClipboardReply { formatter: event })
    } else {
        None
    }
}

/// The color query that waits for an answer once the event was told.
pub open spec fn color_asked(event: Event) -> Option<ColorReply> {
    match event_content(event) {
        IncomingView::ColorRequest(index) => Some(ColorReply { index, formatter: event }),
        _ => None,
    }
}

/// The text-area query that waits for an answer once the event was told.
pub open spec fn size_asked(event: Event) -> Option<SizeReply> {
    if event_content(event) is TextAreaSizeRequest {
        Some(SizeReply { formatter: event })
    } else {
        None
    }
}

/// The values that are there.
pub open spec fn somes<T>(s: Seq<Option<T>>) -> Seq<T>
    decreases s.len(),
{
    if s.len() == 0 {
        Seq::empty()
    } else {
        match s.last() {
            Some(e) => somes(s.drop_last()).push(e),
            None => somes(s.drop_last()),
        }
    }
}

/// The host events that told events are reported as.
pub open spec fn told_events(told: Seq<Event>) -> Seq<EventView> {
    somes(told.map_values(|e: Event| reported(event_content(e))))
}

/// The clipboard requests among told events.
pub open spec fn told_clipboard(told: Seq<Event>) -> Seq<ClipboardReply> {
    somes(told.map_values(|e: Event| clipboard_asked(e)))
}

/// The color queries among told events.
pub open spec fn told_colors(told: Seq<Event>) -> Seq<ColorReply> {
    somes(told.map_values(|e: Event| color_asked(e)))
}

/// The text-area queries among told events.
pub open spec fn told_sizes(told: Seq<Event>) -> Seq<SizeReply> {
    somes(told.map_values(|e: Event| size_asked(e)))
}

/// The bytes of a reply, as a write to the terminal's program.
pub fn pty_write(text: &str) -> (r: EngineEvent)
    ensures
        r@ == EventView::PtyWrite(utf8::encode_utf8(text@)),
{
    EngineEvent::PtyWrite(text.as_bytes_vec())
}

/// Decides where the parts of an incoming event go: what the host is told, and
/// what waits for an answer.
pub fn route(event: Event) -> (r: Routed)
    ensures
        ({
            let content = event_content(event);
            &&& r.event is Some <==> reported(content) is Some
            &&& r.event is Some ==> reported(content) == Some(r.event->0@)
            &&& r.clipboard == clipboard_asked(event)
            &&& r.reply == color_asked(event)
            &&& r.size == size_asked(event)
        }),
{
    let mut r: Routed = Routed { event: None, clipboard: None, reply: None, size: None };
    match classify(&event) {
        Incoming::PtyWrite(s) => {
            r.event = Some(pty_write(s.as_str()));
        },
        Incoming::Title(s) => {
            r.event = Some(EngineEvent::Title(s));
        },
        Incoming::ResetTitle => {
            r.event = Some(EngineEvent::ResetTitle);
        },
        Incoming::Bell => {
            r.event = Some(EngineEvent::Bell);
        },
        Incoming::ClipboardStore(s) => {
            r.event = Some(EngineEvent::ClipboardStore(s));
        },
        Incoming::ClipboardLoad => {
            r.clipboard = Some(ClipboardReply { formatter: event });
            r.event = Some(EngineEvent::ClipboardLoad);
        },
        Incoming::ColorRequest(index) => {
            r.reply = Some(ColorReply { index, formatter: event });
        },
        Incoming::TextAreaSizeRequest => {
            r.size = Some(SizeReply { formatter: event });
        },
        Incoming::Other => {},
    }
    r
}

/// What a run of told events comes to: what the host is told, and what waits for an
/// answer.
pub struct Heard {
    pub events: Vec<EngineEvent>,
    pub clipboard: Vec<ClipboardReply>,
    pub replies: Vec<ColorReply>,
    pub sizes: Vec<SizeReply>,
}

/// Appends the value, where there is one.
fn push_some<T>(out: &mut Vec<T>, value: Option<T>)
    ensures
        final(out)@ == (match value {
            Some(x) => old(out)@.push(x),
            None => old(out)@,
        }),
{
    if let Some(x) = value {
        out.push(x);
    }
}

/// Decides where the parts of each told event go, in their order.
pub fn hear_all(told: &Vec<Event>) -> (r: Heard)
    ensures
        event_views(r.events@) == told_events(told@),
        r.clipboard@ == told_clipboard(told@),
        r.replies@ == told_colors(told@),
        r.sizes@ == told_sizes(told@),
{
    let mut r: Heard = Heard {
        events: Vec::new(),
        clipboard: Vec::new(),
        replies: Vec::new(),
        sizes: Vec::new(),
    };
    let n: usize = told.len();
    let mut i: usize = 0;
    proof {
        assert(told@.take(0) =~= Seq::<Event>::empty());
        assert(event_views(r.events@) =~= told_events(told@.take(0)));
        assert(r.clipboard@ =~= told_clipboard(told@.take(0)));
        assert(r.replies@ =~= told_colors(told@.take(0)));
        assert(r.sizes@ =~= told_sizes(told@.take(0)));
    }
    while i < n
        invariant
            i <= n == told@.len(),
            event_views(r.events@) == told_events(told@.take(i as int)),
            r.clipboard@ == told_clipboard(told@.take(i as int)),
            r.replies@ == told_colors(told@.take(i as int)),
            r.sizes@ == told_sizes(told@.take(i as int)),
        decreases n - i,
    {
        let ghost before = r.events@;
        let routed: Routed = route(clone_event(&told[i]));
        proof {
            told_one_more(told@, i as int);
        }
        let ghost event = routed.event;
        push_some(&mut r.events, routed.event);
        push_some(&mut r.clipboard, routed.clipboard);
        push_some(&mut r.replies, routed.reply);
        push_some(&mut r.sizes, routed.size);
        i = i + 1;
        proof {
            if let Some(e) = event {
                assert(event_views(r.events@) =~= event_views(before).push(e@));
            }
        }
    }
    assert(told@.take(n as int) =~= told@);
    r
}

/// What one more told event adds.
proof fn told_one_more(told: Seq<Event>, i: int)
    requires
        0 <= i < told.len(),
    ensures
        ({
            let before = told.take(i);
            let after = told.take(i + 1);
            &&& told_events(after) == (match reported(event_content(told[i])) {
                Some(e) => told_events(before).push(e),
                None => told_events(before),
            })
            &&& told_clipboard(after) == (match clipboard_asked(told[i]) {
                Some(e) => told_clipboard(before).push(e),
                None => told_clipboard(before),
            })
            &&& told_colors(after) == (match color_asked(told[i]) {
                Some(e) => told_colors(before).push(e),
                None => told_colors(before),
            })
            &&& told_sizes(after) == (match size_asked(told[i]) {
                Some(e) => told_sizes(before).push(e),
                None => told_sizes(before),
            })
        }),
{
    let before = told.take(i);
    let after = told.take(i + 1);
    let events = |e: Event| reported(event_content(e));
    let clipboard = |e: Event| clipboard_asked(e);
    let colors = |e: Event| color_asked(e);
    let sizes = |e: Event| size_asked(e);
    assert(after.map_values(events).drop_last() =~= before.map_values(events));
    assert(after.map_values(clipboard).drop_last() =~= before.map_values(clipboard));
    assert(after.map_values(colors).drop_last() =~= before.map_values(colors));
    assert(after.map_values(sizes).drop_last() =~= before.map_values(sizes));
}

/// The engine's listener: it writes down what the terminal tells while a call runs, for
/// the engine to sort out once the call is over.
pub struct EventRecord {
    record: Queue<Event>,
}

impl EventRecord {
    /// Every event can be written down.
    #[verifier::type_invariant]
    closed spec fn is_ready(self) -> bool {
        self.record.is_open()
    }

    /// A listener that writes to the given list.
    pub fn new(record: Queue<Event>) -> (r: EventRecord)
        requires
            record.is_open(),
        ensures
            r.list() == record,
    {
        EventRecord { record }
    }

    /// The list that the listener writes to.
    pub closed spec fn list(&self) -> Queue<Event> {
        self.record
    }
}

impl EventListener for EventRecord {
    fn send_event(&self, event: Event) {
        proof {
            use_type_invariant(self);
        }
        match classify(&event) {
            // Nobody asks about these.
            Incoming::Other => {},
            _ => {
                self.record.push(event);
            },
        }
    }
}

/// Bridges alacritty's `EventListener` to queues that a host holds.
pub struct EventProxy {
    queue: EventQueue,
    replies: ReplyQueue,
    clipboard: ClipboardReplyQueue,
    sizes: SizeReplyQueue,
}

impl Clone for EventProxy {
    fn clone(&self) -> (r: EventProxy)
        ensures
            r == *self,
    {
        proof {
            use_type_invariant(self);
        }
        EventProxy {
            queue: self.queue.clone(),
            replies: self.replies.clone(),
            clipboard: self.clipboard.clone(),
            sizes: self.sizes.clone(),
        }
    }
}

impl EventProxy {
    /// The queues accept what the proxy hears.
    #[verifier::type_invariant]
    closed spec fn is_heard(self) -> bool {
        &&& self.queue.is_open()
        &&& self.replies.is_open()
        &&& self.clipboard.is_open()
        &&& self.sizes.is_open()
    }

    /// A proxy that fills the given queues.
    pub fn new(
        queue: EventQueue,
        replies: ReplyQueue,
        clipboard: ClipboardReplyQueue,
        sizes: SizeReplyQueue,
    ) -> (r: EventProxy)
        requires
            queue.is_open(),
            replies.is_open(),
            clipboard.is_open(),
            sizes.is_open(),
        ensures
            r.queues() == (queue, replies, clipboard, sizes),
    {
        EventProxy { queue, replies, clipboard, sizes }
    }

    /// The queues that the proxy fills.
    pub closed spec fn queues(&self) -> (
        EventQueue,
        ReplyQueue,
        ClipboardReplyQueue,
        SizeReplyQueue,
    ) {
        (self.queue, self.replies, self.clipboard, self.sizes)
    }

    fn emit(&self, e: EngineEvent) {
        proof {
            use_type_invariant(self);
        }
        self.queue.push(e);
    }
}

impl EventListener for EventProxy {
    fn send_event(&self, event: Event) {
        proof {
            use_type_invariant(self);
        }
        let routed: Routed = route(event);
        if let Some(reply) = routed.clipboard {
            self.clipboard.push(reply);
        }
        if let Some(e) = routed.event {
            self.emit(e);
        }
        if let Some(reply) = routed.reply {
            self.replies.push(reply);
        }
        if let Some(reply) = routed.size {
            self.sizes.push(reply);
        }
    }
}

} // verus!
