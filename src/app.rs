//! The consumer side: the state a renderer draws from.
use vstd::prelude::*;

use crate::stock::StockState;

verus! {

/// What the display shows: the rolling window of closes.
pub struct App {
    pub stock_state: StockState,
}

impl App {
    /// An application with an empty window.
    pub fn new() -> (r: App)
        ensures
            r.stock_state.wf(),
            r.stock_state@.buckets.len() == 0,
            r.stock_state@.labels.len() == 0,
            r.stock_state@.y_min == 0,
            r.stock_state@.y_max == 0,
    {
        App { stock_state: StockState::new() }
    }
}

} // verus!
