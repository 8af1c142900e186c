//! The diff-depth provider: stream names and the subscription bound.
use vstd::prelude::*;
use vstd::string::*;
use crate::typespec::Symbol;

verus! {

/// Most streams one subscription may name, exclusive: the provider refuses
/// a request for this many.
pub const MAX_STREAMS: usize = 1024;

/// The text of a symbol after `str::to_lowercase`.
pub uninterp spec fn lower_of(s: Seq<char>) -> Seq<char>;

/// The depth stream of a symbol: `<symbol, lower-cased>@depth`.
pub open spec fn depth_stream_of(symbol: Seq<char>) -> Seq<char> {
    lower_of(symbol) + "@depth"@
}

/// Relies on `str::to_lowercase`: the result depends on the characters alone.
#[verifier::external_body]
fn lowercase(s: &str) -> (r: String)
    ensures
        r@ == lower_of(s@),
{
    s.to_lowercase()
}

/// Why a subscription was not sent.
#[derive(Clone, Copy, Debug, PartialEq, Eq, Structural)]
pub enum SubscribeError {
    /// `MAX_STREAMS` or more symbols were asked for.
    TooManySymbols,
    /// The control message could not be sent.
    SubscriptionError,
}

/// Credentials and endpoint of the provider's API.
pub struct Binance {
    pub api_endpoint: String,
    pub api_key: String,
    pub api_secret: String,
}

/// The provider's diff-depth market stream.
pub struct BinanceDiffDepthStream;

impl BinanceDiffDepthStream {
    pub fn new() -> (r: Self) {
        Self
    }

    /// The name of the depth stream of `symbol`.
    pub fn stream_name(symbol: &Symbol) -> (r: String)
        ensures
            r@ == depth_stream_of(symbol.0@),
    {
        let lowered = lowercase(symbol.0.as_str());
        Self::depth_stream(lowered)
    }

    /// The depth stream named by an already lower-cased symbol.
    pub fn depth_stream(lowered: String) -> (r: String)
        ensures
            r@ == lowered@ + "@depth"@,
    {
        let mut name = lowered;
        name.append("@depth");
        name
    }

    /// Checks the size of one subscription request for all of `symbols`:
    /// `TooManySymbols` for `MAX_STREAMS` symbols or more.
    pub fn check_subscription(&self, symbols: &Vec<Symbol>) -> (r: Result<(), SubscribeError>)
        requires
            symbols@.len() > 0,
        ensures
            r is Ok <==> symbols@.len() < MAX_STREAMS,
            r is Err ==> r == Err::<(), SubscribeError>(SubscribeError::TooManySymbols),
    {
        if symbols.len() >= MAX_STREAMS {
            Err(SubscribeError::TooManySymbols)
        } else {
            Ok(())
        }
    }
}

} // verus!
