use alacritty_terminal::event::{Event, EventListener};
use alacritty_terminal::term::ClipboardType;
use rust_lib_flutter_alacritty::event_proxy::{
    route, ClipboardReplyQueue, EngineEvent, EventProxy, EventQueue, ReplyQueue, SizeReplyQueue,
};
use std::sync::Arc;

fn collector() -> (EventProxy, EventQueue) {
    let store: EventQueue = EventQueue::new();
    let replies: ReplyQueue = ReplyQueue::new();
    let clipboard: ClipboardReplyQueue = ClipboardReplyQueue::new();
    let sizes: SizeReplyQueue = SizeReplyQueue::new();
    (
        EventProxy::new(store.clone(), replies, clipboard, sizes),
        store,
    )
}

#[test]
fn maps_pty_write() {
    let (proxy, store) = collector();
    proxy.send_event(Event::PtyWrite("\x1b[1;3R".to_string()));
    assert_eq!(
        store.take()[0],
        EngineEvent::PtyWrite(b"\x1b[1;3R".to_vec())
    );
}

#[test]
fn maps_title() {
    let (proxy, store) = collector();
    proxy.send_event(Event::Title("hello".to_string()));
    assert_eq!(store.take()[0], EngineEvent::Title("hello".into()));
}

#[test]
fn maps_the_other_events() {
    let (proxy, store) = collector();
    proxy.send_event(Event::Bell);
    proxy.send_event(Event::ResetTitle);
    proxy.send_event(Event::ClipboardStore(ClipboardType::Clipboard, "copied".to_string()));
    proxy.send_event(Event::MouseCursorDirty);
    proxy.send_event(Event::Wakeup);
    proxy.send_event(Event::Exit);
    assert_eq!(
        store.take(),
        vec![
            EngineEvent::Bell,
            EngineEvent::ResetTitle,
            EngineEvent::ClipboardStore("copied".into()),
        ]
    );
    assert!(store.take().is_empty());
}

#[test]
fn requests_wait_in_their_queues() {
    let store = EventQueue::new();
    let replies = ReplyQueue::new();
    let clipboard = ClipboardReplyQueue::new();
    let sizes = SizeReplyQueue::new();
    let proxy = EventProxy::new(store.clone(), replies.clone(), clipboard.clone(), sizes.clone());
    proxy.send_event(Event::ColorRequest(257, Arc::new(|c| format!("{}", c.r))));
    proxy.send_event(Event::TextAreaSizeRequest(Arc::new(|s| format!("{}", s.num_cols))));
    assert!(store.take().is_empty());
    proxy.send_event(Event::ClipboardLoad(ClipboardType::Clipboard, Arc::new(|t| t.to_string())));
    assert_eq!(store.take(), vec![EngineEvent::ClipboardLoad]);
    let queries = replies.take();
    assert_eq!(queries.len(), 1);
    assert_eq!(queries[0].index, 257);
    assert_eq!(queries[0].clone().index, 257);
    assert_eq!(clipboard.take().len(), 1);
    assert_eq!(sizes.take().len(), 1);
}

#[test]
fn events_are_routed_by_their_kind() {
    let routed = route(Event::PtyWrite("é".to_string()));
    assert_eq!(routed.event, Some(EngineEvent::PtyWrite("é".as_bytes().to_vec())));
    assert!(routed.reply.is_none() && routed.clipboard.is_none() && routed.size.is_none());
    let routed = route(Event::ColorRequest(4, Arc::new(|_| String::new())));
    assert!(routed.event.is_none());
    assert_eq!(routed.reply.map(|r| r.index), Some(4));
    let routed = route(Event::CursorBlinkingChange);
    assert!(routed.event.is_none() && routed.reply.is_none());
}

#[test]
fn clones_of_a_queue_are_one_queue() {
    let queue = EventQueue::new();
    let other = queue.clone();
    other.push(EngineEvent::Bell);
    queue.push(EngineEvent::ResetTitle);
    assert_eq!(queue.take(), vec![EngineEvent::Bell, EngineEvent::ResetTitle]);
    assert!(other.take().is_empty());
}
