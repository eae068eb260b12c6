//! Verified core of an Ethereum data client.
//!
//! - [`RpcUrl`] is one RPC endpoint with the results of its last probe, and
//!   [`RpcUrl::after_check`] decides what a probe leaves of it.
//! - [`RpcUrl::cmp`] is the order in which endpoints are preferred.
//! - [`RpcUrlList`] keeps the endpoints best first, each URL once, and
//!   answers which endpoint to use for each transport.
//! - [`provider_url`] checks a request to switch the HTTP provider.
//! - [`FetchCursor`] walks the blocks that have enough confirmations, and
//!   [`next_feed_action`] decides how a block feed follows its provider.
//!
//! Network access, timers and tasks live outside this crate: they hand the
//! library plain values and act on the plain values it returns.

mod endpoint;
mod feed;
mod fetch;
mod priority;
mod provider;
mod rpc_url;
mod rpc_url_list;
mod time;

pub use feed::{feed_action, lemma_feed_action, next_feed_action, FeedAction, FeedEvent};
pub use fetch::{confirmed, lemma_confirmed, FetchCursor, FetchFlow, FetchStep, FETCH_PAUSE_MS, IDLE_PAUSE_MS};
pub use priority::{
    is_down, lemma_cmp_antisymmetric, lemma_cmp_transitive, lemma_down_ranks_lowest,
    lemma_higher_tier_wins, lemma_measured_endpoints, lemma_measured_order,
    lemma_outranks_strict, lemma_tiers, outranks, priority_order, reversed, tier,
};
pub use endpoint::{parsed_url_text, url_scheme_text, url_text};
pub use provider::{provider_url, ProviderUpdateError};
pub use rpc_url::{
    checked, lemma_answered_probe, lemma_scheme_of, lemma_serves, lemma_timed_out_probe,
    lemma_unanswered_probes, lemma_unprobed, scheme_of, serves, unprobed, ProbeOutcome, RequestStatus, RpcUrl, RpcUrlReport, RpcUrlView,
    Scheme, Transport,
};
pub use rpc_url_list::{
    accepts, admitted, lemma_accepts, best_first, distinct_urls, entry_for, found_first_serving, has_url,
    insert_ranked, is_priority_queue, lemma_admitted, lemma_admitted_urls, lemma_probe_round_keeps_urls, lemma_updated, rank_position, updated, views,
    without_url, RpcUrlList,
};
pub use time::{get_timestamp, timestamp_or_zero};
