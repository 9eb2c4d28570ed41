use vstd::prelude::*;

pub mod contract;
pub mod error;
pub mod feed_status;
pub mod keys;
pub mod market_data;
pub mod orders;
pub mod private_cache;
pub mod private_feed;
pub mod realtime_state;
pub mod refs;
pub mod report;
pub mod schema;
pub mod risk_params;
pub mod semantics;
pub mod storage;
pub mod subscriptions;
pub mod text;
pub mod ws_session;

verus! {

} // verus!
