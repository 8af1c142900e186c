use orderbook_trial_task::frame::{classify_frame, Frame};

const DEPTH: &str = r#"{"stream":"btcusdc@depth","data":{"e":"depthUpdate","E":1,"s":"BTCUSDC","U":1,"u":2,"b":[["100.5","1.0"],["99","2"]],"a":[["101","0.5"]]}}"#;

#[test]
fn classifies_depth_update() {
    match classify_frame(DEPTH) {
        Frame::DepthUpdate { stream, asks, bids } => {
            assert_eq!(stream, "btcusdc@depth");
            assert_eq!(asks, vec![10_100_000_000]);
            assert_eq!(bids, vec![10_050_000_000, 9_900_000_000]);
        }
        other => panic!("expected a depth update, got {:?}", other),
    }
}

#[test]
fn classifies_connection_ack() {
    assert!(matches!(classify_frame(r#"{"result":null,"id":1}"#), Frame::ConnectionAck));
}

#[test]
fn ack_needs_null_result() {
    assert!(matches!(classify_frame(r#"{"result":["x"],"id":1}"#), Frame::Unrecognized));
    assert!(matches!(classify_frame(r#"{"id":1}"#), Frame::Unrecognized));
}

#[test]
fn malformed_text_is_unrecognized() {
    assert!(matches!(classify_frame("not json"), Frame::Unrecognized));
    assert!(matches!(classify_frame(r#"{"stream":"btcusdc@depth""#), Frame::Unrecognized));
    assert!(matches!(classify_frame(""), Frame::Unrecognized));
}

#[test]
fn bad_levels_are_unrecognized() {
    let no_data = r#"{"stream":"btcusdc@depth"}"#;
    let number_price = r#"{"stream":"btcusdc@depth","data":{"a":[[101,"1"]],"b":[]}}"#;
    let bad_price = r#"{"stream":"btcusdc@depth","data":{"a":[["x","1"]],"b":[]}}"#;
    let empty_level = r#"{"stream":"btcusdc@depth","data":{"a":[[]],"b":[]}}"#;
    let no_bids = r#"{"stream":"btcusdc@depth","data":{"a":[]}}"#;
    for text in [no_data, number_price, bad_price, empty_level, no_bids] {
        assert!(matches!(classify_frame(text), Frame::Unrecognized), "{}", text);
    }
}

#[test]
fn empty_sides_are_a_depth_update() {
    match classify_frame(r#"{"stream":"ethusdc@depth","data":{"a":[],"b":[]}}"#) {
        Frame::DepthUpdate { stream, asks, bids } => {
            assert_eq!(stream, "ethusdc@depth");
            assert!(asks.is_empty() && bids.is_empty());
        }
        other => panic!("expected a depth update, got {:?}", other),
    }
}
