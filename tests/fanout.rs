use std::sync::Arc;

use orderbook_trial_task::aggregator::{ChannelEvent, Resolver};
use orderbook_trial_task::orderbook::{AveragePrice, QueryError};
use orderbook_trial_task::publisher::{Publisher, PublisherAction, SourceEvent};
use orderbook_trial_task::typespec::Symbol;
use tokio::sync::broadcast;
use tokio::sync::broadcast::error::TryRecvError;

fn poll(rx: &mut broadcast::Receiver<Arc<String>>) -> Option<ChannelEvent> {
    match rx.try_recv() {
        Ok(text) => Some(ChannelEvent::Frame(text.to_string())),
        Err(TryRecvError::Lagged(n)) => Some(ChannelEvent::Lagged(n)),
        Err(TryRecvError::Closed) => Some(ChannelEvent::Closed),
        Err(TryRecvError::Empty) => None,
    }
}

fn frame(i: usize) -> String {
    format!("{{\"stream\":\"btcusdc@depth\",\"data\":{{\"a\":[[\"{}\",\"1\"]],\"b\":[]}}}}", i)
}

#[test]
fn publisher_publishes_text_and_skips_control() {
    let mut p = Publisher::new();
    match p.on_event(SourceEvent::Text("hello".into())) {
        PublisherAction::Publish(t) => assert_eq!(t, "hello"),
        other => panic!("unexpected {:?}", other),
    }
    assert!(matches!(p.on_event(SourceEvent::KeepAlive), PublisherAction::Skip));
    assert!(matches!(p.on_event(SourceEvent::Binary(vec![1, 2])), PublisherAction::Skip));
    assert!(!p.closed);
}

#[test]
fn publisher_shuts_down_for_good() {
    for end in [SourceEvent::Close, SourceEvent::Failed, SourceEvent::Ended] {
        let mut p = Publisher::new();
        assert!(matches!(p.on_event(end), PublisherAction::Shutdown));
        assert!(p.closed);
        assert!(matches!(p.on_event(SourceEvent::Text("late".into())), PublisherAction::Shutdown));
    }
}

#[test]
fn closed_channel_reaches_every_handle() {
    let (tx, mut early) = broadcast::channel::<Arc<String>>(4);
    let mut publisher = Publisher::new();
    let query = Resolver::new(Symbol("BTCUSDC".into()));
    if let PublisherAction::Publish(t) = publisher.on_event(SourceEvent::Text("{\"result\":null}".into())) {
        tx.send(Arc::new(t)).unwrap();
    }
    let event = poll(&mut early).unwrap();
    assert_eq!(query.step(&event), None);
    assert!(matches!(publisher.on_event(SourceEvent::Failed), PublisherAction::Shutdown));
    let mut late = tx.subscribe();
    drop(tx);
    for rx in [&mut early, &mut late] {
        let event = poll(rx).unwrap();
        assert!(matches!(event, ChannelEvent::Closed));
        assert_eq!(query.step(&event), Some(Err(QueryError::StreamClosed)));
    }
    let mut after = early.resubscribe();
    assert!(matches!(poll(&mut after), Some(ChannelEvent::Closed)));
}

#[test]
fn slow_reader_sees_latest_frames_only() {
    let capacity = 4;
    let (tx, mut slow) = broadcast::channel::<Arc<String>>(capacity);
    for i in 1..=10 {
        // the producer never waits on the reader
        assert!(tx.send(Arc::new(frame(i))).is_ok());
    }
    let query = Resolver::new(Symbol("BTCUSDC".into()));
    let first = poll(&mut slow).unwrap();
    assert!(matches!(first, ChannelEvent::Lagged(6)));
    assert_eq!(query.step(&first), None);
    let mut seen = Vec::new();
    while let Some(ChannelEvent::Frame(text)) = poll(&mut slow) {
        seen.push(text);
    }
    assert_eq!(seen, (7..=10).map(frame).collect::<Vec<_>>());
    let r = query.resolve_events(&vec![first, ChannelEvent::Frame(seen[0].clone())]);
    assert_eq!(r, Some(Ok(AveragePrice { total_units: 700_000_000, levels: 1 })));
}
