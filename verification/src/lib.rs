//! Keeps a local Kubernetes client configuration synchronized with kubeconfig
//! files fetched from a fleet of remote cluster nodes.
//!
//! The library holds the logic of the fetch–transform–merge pipeline:
//! credential resolution policy, certificate-expiry skip decisions, kubeconfig
//! rewriting, idempotent merging into one shared document, and per-server
//! run-state tracking. Network and file access live outside the library and
//! hand it plain values.

pub mod codec;
pub mod config;
pub mod credentials;
pub mod find;
pub mod job;
pub mod kube;
pub mod kvlist;
pub mod merge;
pub mod platform;
pub mod screens;
pub mod state;
pub mod text;
pub mod ui;
