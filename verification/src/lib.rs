//! An event-sourced command/query runtime for a small restaurant and order
//! domain: pure deciders, views and a saga around an append-only event log
//! with per-stream optimistic concurrency and lease-based dispatch.

pub mod aggregate;
pub mod application;
pub mod api;
pub mod codec;
pub mod combined;
pub mod error;
pub mod event_codec;
pub mod materialized_view;
pub mod order_aggregate;
pub mod order_decider;
pub mod order_saga;
pub mod order_view;
pub mod restaurant_decider;
pub mod restaurant_view;
pub mod saga_manager;
pub mod saga_stream;
pub mod view_stream;
pub mod store;
