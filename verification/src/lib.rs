//! The core of a blockchain indexer that runs a WASM program over the blocks
//! of a chain, keeps every value the program writes under the height it was
//! written at, and answers views at any indexed height.
//!
//! The store: [`store`] is the versioned key/value store itself, in memory,
//! and [`store_laws`] states what holds of every such store. [`schema`] lays
//! keys and heights out as the byte strings a storage engine sorts,
//! [`plan`] turns commits, rollbacks and reads into operations on such an
//! engine, and [`plan_laws`] and [`engine_laws`] state that those operations
//! do to the engine what the store does. [`db`] holds the life of the index
//! store: its configuration, its batches, opening and flushing.
//!
//! The pipeline: [`client`] asks the block source and retries, [`pipeline`]
//! holds the scan for reorganisations, the fetcher, the processor and the
//! supervisor as state machines, and [`pipeline_laws`] states what a whole
//! run commits.
//!
//! The program and the views: [`host`] is the context that the host keeps
//! for the program, [`rpc`] the JSON-RPC surface of the indexer and
//! [`view_server`] that of the server that follows it.
//!
//! [`bytes`], [`text`] and [`hexcodec`] are what the others are written in.
//!
//! Everything here computes on plain values. What reads or writes a disk, a
//! socket or the program's memory is done by the caller, who hands the
//! result in and carries the decision out.
//!
//! [`store`] and [`host`] are this library's own model of the store and of
//! the host, and the laws of [`store_laws`] and of [`host`] are proved of
//! that model. Where an outside runtime runs the program over an outside
//! storage engine, it is that runtime which stages and commits; what such a
//! deployment takes from here are the decisions of [`pipeline`], [`client`],
//! [`rpc`], [`view_server`] and [`db`], and the operations of [`plan`], of
//! which [`engine_laws`] says that they do to an engine laid out as
//! [`schema`] says what the model does.

pub mod bytes;
pub mod client;
pub mod db;
pub mod engine_laws;
pub mod hexcodec;
pub mod host;
pub mod pipeline;
pub mod pipeline_laws;
pub mod plan;
pub mod plan_laws;
pub mod rpc;
pub mod schema;
pub mod store;
pub mod store_laws;
pub mod text;
pub mod view_server;
