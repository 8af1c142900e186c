//! Frames of the depth stream: a connection acknowledgement, a depth update,
//! or anything else, which a query skips.
use vstd::prelude::*;
use vstd::string::*;
use crate::json::{Json, json_of_text, field, get_field, parse_json};
use crate::orderbook::{price_of, parse_price};

verus! {

/// A frame after parsing.
#[derive(Debug)]
pub enum Frame {
    /// The provider's reply to a subscription: no `stream`, a null `result`.
    ConnectionAck,
    /// Price levels of one stream; quantities are dropped.
    DepthUpdate { stream: String, asks: Vec<u64>, bids: Vec<u64> },
    /// Text that is not JSON, or JSON of another shape.
    Unrecognized,
}

impl Frame {
    /// A depth update holds no more levels than a `usize` counts.
    pub open spec fn wf(&self) -> bool {
        match self {
            Frame::DepthUpdate { asks, bids, .. } => asks@.len() + bids@.len() <= usize::MAX,
            _ => true,
        }
    }
}

/// The price of one level `[price, quantity]`: its first item, as price text.
pub open spec fn level_price(level: Json) -> Option<u64> {
    match level {
        Json::Array(items) => if items@.len() > 0 {
            match items@[0] {
                Json::Str(p) => price_of(p@),
                _ => None,
            }
        } else {
            None
        },
        _ => None,
    }
}

/// The prices of a list of levels, where every level has one.
pub open spec fn level_prices(side: Json) -> Option<Seq<u64>> {
    match side {
        Json::Array(levels) => if forall|i: int|
            0 <= i < levels@.len() ==> (#[trigger] level_price(levels@[i])) is Some {
            Some(Seq::new(levels@.len(), |i: int| level_price(levels@[i])->0))
        } else {
            None
        },
        _ => None,
    }
}

/// The prices of the side `key` (`"a"` for asks, `"b"` for bids) of a payload.
pub open spec fn side_prices(data: Json, key: Seq<char>) -> Option<Seq<u64>> {
    match field(data, key) {
        Some(side) => level_prices(side),
        None => None,
    }
}

/// The `stream` member, where it is a string.
pub open spec fn stream_of(j: Json) -> Option<Seq<char>> {
    match field(j, "stream"@) {
        Some(Json::Str(s)) => Some(s@),
        _ => None,
    }
}

/// Stream name, ask prices and bid prices of a depth update.
pub open spec fn depth_of(j: Json) -> Option<(Seq<char>, Seq<u64>, Seq<u64>)> {
    match (stream_of(j), field(j, "data"@)) {
        (Some(stream), Some(data)) => match (side_prices(data, "a"@), side_prices(data, "b"@)) {
            (Some(asks), Some(bids)) => if asks.len() + bids.len() <= usize::MAX {
                Some((stream, asks, bids))
            } else {
                None
            },
            _ => None,
        },
        _ => None,
    }
}

/// A connection acknowledgement: a null `result` and no `stream`.
pub open spec fn is_ack(j: Json) -> bool {
    field(j, "result"@) == Some(Json::Null) && field(j, "stream"@) is None
}

/// `f` is the classification of the document `j`.
pub open spec fn classifies(f: Frame, j: Json) -> bool {
    match f {
        Frame::DepthUpdate { stream, asks, bids } => depth_of(j) == Some((stream@, asks@, bids@)),
        Frame::ConnectionAck => depth_of(j) is None && is_ack(j),
        Frame::Unrecognized => depth_of(j) is None && !is_ack(j),
    }
}

/// `f` is the classification of the frame text `text`.
pub open spec fn classifies_text(f: Frame, text: Seq<char>) -> bool {
    match json_of_text(text) {
        Some(j) => classifies(f, j),
        None => f is Unrecognized,
    }
}

fn read_level_price(level: &Json) -> (r: Option<u64>)
    ensures
        r == level_price(*level),
{
    match level {
        Json::Array(items) => {
            if items.len() > 0 {
                match &items[0] {
                    Json::Str(p) => parse_price(p.as_str()),
                    _ => None,
                }
            } else {
                None
            }
        },
        _ => None,
    }
}

fn read_level_prices(side: &Json) -> (r: Option<Vec<u64>>)
    ensures
        match r {
            Some(v) => level_prices(*side) == Some(v@),
            None => level_prices(*side) is None,
        },
{
    match side {
        Json::Array(levels) => {
            let mut out: Vec<u64> = Vec::new();
            let mut i: usize = 0;
            while i < levels.len()
                invariant
                    i <= levels.len(),
                    *side == Json::Array(*levels),
                    out@.len() == i,
                    forall|k: int| 0 <= k < i ==> (#[trigger] level_price(levels@[k])) is Some,
                    forall|k: int| 0 <= k < i ==> out@[k] == level_price(levels@[k])->0,
                decreases levels.len() - i,
            {
                match read_level_price(&levels[i]) {
                    Some(p) => out.push(p),
                    None => return None,
                }
                i = i + 1;
            }
            assert(out@ =~= Seq::new(levels@.len(), |k: int| level_price(levels@[k])->0));
            Some(out)
        },
        _ => None,
    }
}

fn read_side_prices(data: &Json, key: &String) -> (r: Option<Vec<u64>>)
    ensures
        match r {
            Some(v) => side_prices(*data, key@) == Some(v@),
            None => side_prices(*data, key@) is None,
        },
{
    match get_field(data, key) {
        Some(side) => read_level_prices(side),
        None => None,
    }
}

/// Classifies a parsed document.
pub fn classify(j: &Json) -> (r: Frame)
    ensures
        classifies(r, *j),
        r.wf(),
{
    let stream_key = String::from_str("stream");
    let data_key = String::from_str("data");
    let asks_key = String::from_str("a");
    let bids_key = String::from_str("b");
    let result_key = String::from_str("result");
    let stream_field = get_field(j, &stream_key);
    if let Some(Json::Str(stream)) = stream_field {
        if let Some(data) = get_field(j, &data_key) {
            if let Some(asks) = read_side_prices(data, &asks_key) {
                if let Some(bids) = read_side_prices(data, &bids_key) {
                    if asks.len() <= usize::MAX - bids.len() {
                        return Frame::DepthUpdate { stream: stream.clone(), asks, bids };
                    }
                }
            }
        }
    }
    if stream_field.is_none() {
        if let Some(Json::Null) = get_field(j, &result_key) {
            return Frame::ConnectionAck;
        }
    }
    Frame::Unrecognized
}

/// Parses and classifies the text of one frame; text that is not JSON is
/// `Unrecognized`.
pub fn classify_frame(text: &str) -> (r: Frame)
    ensures
        classifies_text(r, text@),
        r.wf(),
{
    match parse_json(text) {
        Some(j) => classify(&j),
        None => Frame::Unrecognized,
    }
}

} // verus!
