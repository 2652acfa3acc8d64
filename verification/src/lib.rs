pub mod text;
pub mod agent;
pub mod ids;
pub mod journal;
pub mod digest;
pub mod paths;
pub mod blob_store;
pub mod server_config;
pub mod portable;
pub mod skill_snapshot;
pub mod snapshot_verifier;
pub mod deployment;
pub mod uninstall;
pub mod workspace;
pub mod hydrate;
pub mod telemetry;
pub mod desktop;
pub mod local_store;
pub mod cache_manager;
pub mod cache_order;
pub mod credentials;
pub mod sync_client;
pub mod sync_push;
pub mod sync_transport;
pub mod sync_pull;
pub mod sync;
pub mod sync_worker;

use vstd::prelude::*;

verus! {

} // verus!
