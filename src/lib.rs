//! Synchronisation engine that mirrors a numerically keyed remote item graph
//! into a relational store: range partitioning, batched idempotent ingestion,
//! and a cancellable realtime change-feed listener.

pub mod config;
pub mod firebase_listener;
pub mod ingest;
pub mod models;
pub mod partition;
pub mod realtime;
pub mod store;
pub mod sync_service;
