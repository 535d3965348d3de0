//! A minimal runtime-module mechanism: a self-contained unit of blockchain
//! state-transition logic, with verified storage addressing, dispatchable-call
//! routing with deterministic weight accounting, a per-block event log, and
//! block-lifecycle hooks.
//!
//! - [`codec`]: the injective byte codec stored values and argument payloads
//!   use.
//! - [`keys`]: derivation of collision-free physical storage keys from a
//!   module identifier and item name, and the declared map-key hash
//!   strategies.
//! - [`store`]: the byte-oriented key-value backing store.
//! - [`storage`]: typed storage items — single values with defaults, and
//!   point-lookup maps.
//! - [`dispatch`]: origins, authorization classes, infrastructure errors and
//!   weight metering.
//! - [`pallet`]: a concrete module — its configuration, storage items,
//!   `toto` operation, events, errors, hooks and genesis state.
//! - [`lifecycle`]: the per-block protocol around the module's hooks and
//!   dispatches.
//! - [`metadata`]: the registration tables introspection tooling queries.

pub mod codec;
pub mod keys;
pub mod store;
pub mod storage;
pub mod dispatch;
pub mod pallet;
pub mod lifecycle;
pub mod metadata;
