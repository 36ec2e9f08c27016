//! Node-local share custody, corporate intake and settlement rules of the
//! OCLOB confidential limit order book.
//!
//! The crate holds the decisions: what a node stores and refuses, what a
//! corporate journal keeps, which market transition follows a matching round.
//! Files, sockets, key material and the proof system stay with the programs
//! that call it.

pub mod acceptance_effects;
pub mod acceptance_results;
pub mod bytes;
pub mod chance;
pub mod claim_authorizations;
pub mod cluster_acceptance;
pub mod corporate;
pub mod corporate_api;
pub mod corporate_authorization;
pub mod corporate_client;
pub mod corporate_custody;
pub mod corporate_dispatch;
pub mod corporate_effects;
pub mod corporate_expiry;
pub mod corporate_journal;
pub mod corporate_journal_laws;
pub mod corporate_journal_model;
pub mod corporate_reconciliation;
pub mod corporate_submission;
pub mod corporate_worker;
pub mod deployment_policy;
pub mod dispatch_effects;
pub mod edge_client;
pub mod edge_submit;
pub mod encoding_laws;
pub mod evidence_effects;
pub mod executor;
pub mod journal_effects;
pub mod json;
pub mod lab_provision;
pub mod layout_laws;
pub mod market_effects;
pub mod market_journal;
pub mod market_laws;
pub mod market_network;
pub mod market_runtime;
pub mod market_steps;
pub mod market_worker;
pub mod native_acceptance;
pub mod native_admission;
pub mod native_bootstrap;
pub mod native_expiry_acceptance;
pub mod native_lifecycle_acceptance;
pub mod native_reports;
pub mod node_service;
pub mod outcome_effects;
pub mod paths;
pub mod round_effects;
pub mod scalars;
pub mod service_effects;
pub mod signatures;
pub mod lines;
pub mod stable_sort;
pub mod store;
pub mod store_effects;
pub mod store_file;
pub mod store_history;
pub mod store_laws;
pub mod store_model;
pub mod text;
pub mod text_map;
pub mod types;

pub use store::{NodeError, NodeShareStore, NodeStoreStatus, PreparedPartyInput};
pub use store_model::{IngestOutcome, PrivateStateFinality};
