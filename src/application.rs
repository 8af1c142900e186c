//! The application layer's queries and responses.
use vstd::prelude::*;
use crate::aggregator::Resolver;
use crate::adapters::depth_stream_of;
use crate::orderbook::{AveragePrice, QueryError};
use crate::typespec::Symbol;

verus! {

/// A query that a driving adapter hands the application layer.
pub enum ApplicationQuery {
    GetAverageValueOfSymbol(Symbol),
}

/// The application layer's answer to a query.
#[derive(Debug)]
pub enum ApplicationResponse {
    CurrentAveragePriceForSymbol { symbol: Symbol, price: AveragePrice },
    InfrastructureConnected,
    /// The query ended without a price.
    QueryFailed { symbol: Symbol, error: QueryError },
    InternalError,
}

impl ApplicationQuery {
    /// Starts the scan that answers the query.
    pub fn resolver(self) -> (r: Resolver)
        ensures
            match self {
                ApplicationQuery::GetAverageValueOfSymbol(symbol) => r.symbol == symbol
                    && r.stream@ == depth_stream_of(symbol.0@),
            },
    {
        match self {
            ApplicationQuery::GetAverageValueOfSymbol(symbol) => Resolver::new(symbol),
        }
    }
}

impl ApplicationResponse {
    /// The response to a query on `symbol` that ended with `outcome`.
    pub fn from_outcome(symbol: Symbol, outcome: Result<AveragePrice, QueryError>) -> (r: Self)
        ensures
            match outcome {
                Ok(price) => r == (ApplicationResponse::CurrentAveragePriceForSymbol {
                    symbol,
                    price,
                }),
                Err(error) => r == (ApplicationResponse::QueryFailed { symbol, error }),
            },
    {
        match outcome {
            Ok(price) => ApplicationResponse::CurrentAveragePriceForSymbol { symbol, price },
            Err(error) => ApplicationResponse::QueryFailed { symbol, error },
        }
    }
}

} // verus!
