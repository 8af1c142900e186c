//! One query: scan the shared frame stream for the first depth update of a
//! symbol and reduce it to its average price.
use vstd::prelude::*;
use crate::adapters::{BinanceDiffDepthStream, depth_stream_of};
use crate::frame::{Frame, classifies, classify_frame, depth_of};
use crate::json::json_of_text;
use crate::orderbook::{AveragePrice, QueryError, average_of, average_price_of_order_book};
use crate::typespec::Symbol;

verus! {

/// What a channel handle hands its reader.
#[derive(Clone, Debug)]
pub enum ChannelEvent {
    /// The text of one published frame.
    Frame(String),
    /// The reader fell behind and this many frames were dropped for it.
    Lagged(u64),
    /// The publisher closed the channel.
    Closed,
}

/// How one query ends on one event, or `None` where it scans on.
pub open spec fn event_outcome(stream: Seq<char>, e: ChannelEvent) -> Option<
    Result<AveragePrice, QueryError>,
> {
    match e {
        ChannelEvent::Frame(text) => match json_of_text(text@) {
            Some(j) => match depth_of(j) {
                Some((s, asks, bids)) => if s == stream {
                    Some(average_of(asks, bids))
                } else {
                    None
                },
                None => None,
            },
            None => None,
        },
        ChannelEvent::Lagged(_) => None,
        ChannelEvent::Closed => Some(Err(QueryError::StreamClosed)),
    }
}

/// How a query on `stream` ends over a sequence of events: at the first event
/// that ends it, or `None` while none has.
pub open spec fn first_outcome(stream: Seq<char>, events: Seq<ChannelEvent>) -> Option<
    Result<AveragePrice, QueryError>,
>
    decreases events.len(),
{
    if events.len() == 0 {
        None
    } else {
        match event_outcome(stream, events[0]) {
            Some(o) => Some(o),
            None => first_outcome(stream, events.drop_first()),
        }
    }
}

/// A depth update of `stream`.
pub open spec fn is_update_of(stream: Seq<char>, e: ChannelEvent) -> bool {
    match e {
        ChannelEvent::Frame(text) => match json_of_text(text@) {
            Some(j) => match depth_of(j) {
                Some((s, _, _)) => s == stream,
                None => false,
            },
            None => false,
        },
        _ => false,
    }
}

/// `events` without the depth updates of `stream`.
pub open spec fn without_updates_of(stream: Seq<char>, events: Seq<ChannelEvent>) -> Seq<
    ChannelEvent,
>
    decreases events.len(),
{
    if events.len() == 0 {
        events
    } else if is_update_of(stream, events[0]) {
        without_updates_of(stream, events.drop_first())
    } else {
        seq![events[0]] + without_updates_of(stream, events.drop_first())
    }
}

/// A frame that is no depth update of the queried stream is skipped: the
/// query ends on what follows as it would without that frame.
pub proof fn lemma_unmatched_frame_skipped(
    stream: Seq<char>,
    text: String,
    rest: Seq<ChannelEvent>,
)
    requires
        !is_update_of(stream, ChannelEvent::Frame(text)),
    ensures
        first_outcome(stream, seq![ChannelEvent::Frame(text)] + rest) == first_outcome(
            stream,
            rest,
        ),
{
    let events = seq![ChannelEvent::Frame(text)] + rest;
    assert(events[0] == ChannelEvent::Frame(text));
    assert(events.drop_first() =~= rest);
}

/// A reader that fell behind scans on: lag ends no query and changes no result.
pub proof fn lemma_lag_skipped(stream: Seq<char>, dropped: u64, rest: Seq<ChannelEvent>)
    ensures
        first_outcome(stream, seq![ChannelEvent::Lagged(dropped)] + rest) == first_outcome(
            stream,
            rest,
        ),
{
    let events = seq![ChannelEvent::Lagged(dropped)] + rest;
    assert(events[0] == ChannelEvent::Lagged(dropped));
    assert(events.drop_first() =~= rest);
}

/// Once the channel closes, a query that is still scanning ends with
/// `StreamClosed`, whatever would have followed.
pub proof fn lemma_closed_ends_query(
    stream: Seq<char>,
    before: Seq<ChannelEvent>,
    after: Seq<ChannelEvent>,
)
    requires
        first_outcome(stream, before) is None,
    ensures
        first_outcome(stream, before + seq![ChannelEvent::Closed] + after) == Some(
            Err::<AveragePrice, QueryError>(QueryError::StreamClosed),
        ),
    decreases before.len(),
{
    let events = before + seq![ChannelEvent::Closed] + after;
    if before.len() == 0 {
        assert(events[0] == ChannelEvent::Closed);
    } else {
        assert(events[0] == before[0]);
        assert(events.drop_first() =~= before.drop_first() + seq![ChannelEvent::Closed] + after);
        lemma_closed_ends_query(stream, before.drop_first(), after);
    }
}

proof fn lemma_other_updates_ignored(
    stream: Seq<char>,
    other: Seq<char>,
    events: Seq<ChannelEvent>,
)
    requires
        stream != other,
    ensures
        first_outcome(stream, events) == first_outcome(
            stream,
            without_updates_of(other, events),
        ),
    decreases events.len(),
{
    if events.len() > 0 {
        lemma_other_updates_ignored(stream, other, events.drop_first());
        if !is_update_of(other, events[0]) {
            let kept = seq![events[0]] + without_updates_of(other, events.drop_first());
            assert(kept[0] == events[0]);
            assert(kept.drop_first() =~= without_updates_of(other, events.drop_first()));
        }
    }
}

/// Two queries on different streams fed the same interleaved events do not
/// affect each other: each ends as it would with the other's updates removed.
pub proof fn lemma_queries_independent(
    first: Seq<char>,
    second: Seq<char>,
    events: Seq<ChannelEvent>,
)
    requires
        first != second,
    ensures
        first_outcome(first, events) == first_outcome(first, without_updates_of(second, events)),
        first_outcome(second, events) == first_outcome(
            second,
            without_updates_of(first, events),
        ),
{
    lemma_other_updates_ignored(first, second, events);
    lemma_other_updates_ignored(second, first, events);
}

/// The state of one query: the symbol asked for and the stream that carries it.
pub struct Resolver {
    pub symbol: Symbol,
    pub stream: String,
}

impl Resolver {
    /// A query on `symbol`, matched against the stream `<symbol, lower-cased>@depth`.
    pub fn new(symbol: Symbol) -> (r: Resolver)
        ensures
            r.symbol == symbol,
            r.stream@ == depth_stream_of(symbol.0@),
    {
        let stream = BinanceDiffDepthStream::stream_name(&symbol);
        Resolver { symbol, stream }
    }

    /// How the query ends on a classified frame, or `None` where it scans on.
    pub fn outcome_of(&self, frame: &Frame) -> (r: Option<Result<AveragePrice, QueryError>>)
        requires
            frame.wf(),
        ensures
            match frame {
                Frame::DepthUpdate { stream, asks, bids } => r == if stream@ == self.stream@ {
                    Some(average_of(asks@, bids@))
                } else {
                    None::<Result<AveragePrice, QueryError>>
                },
                _ => r is None,
            },
    {
        match frame {
            Frame::DepthUpdate { stream, asks, bids } => {
                if *stream == self.stream {
                    Some(average_price_of_order_book(asks.clone(), bids.clone()))
                } else {
                    None
                }
            },
            _ => None,
        }
    }

    /// How the query ends on one event, or `None` where it scans on: a
    /// matching depth update gives its average (`EmptyOrderBook` when it has
    /// no levels), the closing gives `StreamClosed`, anything else is skipped.
    pub fn step(&self, event: &ChannelEvent) -> (r: Option<Result<AveragePrice, QueryError>>)
        ensures
            r == event_outcome(self.stream@, *event),
            *event is Closed ==> r == Some(Err::<AveragePrice, QueryError>(QueryError::StreamClosed)),
            *event is Lagged ==> r is None,
    {
        match event {
            ChannelEvent::Frame(text) => {
                let frame = classify_frame(text.as_str());
                proof {
                    match json_of_text(text@) {
                        Some(j) => {
                            assert(classifies(frame, j));
                        },
                        None => {},
                    }
                }
                self.outcome_of(&frame)
            },
            ChannelEvent::Lagged(_) => None,
            ChannelEvent::Closed => Some(Err(QueryError::StreamClosed)),
        }
    }

    /// Runs the query over a recorded sequence of events.
    pub fn resolve_events(&self, events: &Vec<ChannelEvent>) -> (r: Option<
        Result<AveragePrice, QueryError>,
    >)
        ensures
            r == first_outcome(self.stream@, events@),
    {
        let mut i: usize = 0;
        assert(events@.subrange(0, events@.len() as int) =~= events@);
        while i < events.len()
            invariant
                i <= events.len(),
                first_outcome(self.stream@, events@) == first_outcome(
                    self.stream@,
                    events@.subrange(i as int, events@.len() as int),
                ),
            decreases events.len() - i,
        {
            let ghost rest = events@.subrange(i as int, events@.len() as int);
            assert(rest.drop_first() =~= events@.subrange(i + 1, events@.len() as int));
            let o = self.step(&events[i]);
            if o.is_some() {
                return o;
            }
            i = i + 1;
        }
        None
    }
}

} // verus!
