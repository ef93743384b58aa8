//! Control plane for multi-tenant API proxies: the rules by which tenant
//! pipelines are declared, provisioned, observed, repaired and torn down.
//!
//! Everything here works on plain values and explicit state. Where a rule has
//! to wait for something (the cluster, a timer, the network), it is written
//! as a run that says what it waits for and takes in what came of it; the
//! adjoining program owns sockets, timers, the terminal and the Kubernetes
//! client.

pub mod api;
pub mod boot;
pub mod chaos;
pub mod clock;
pub mod cloud;
pub mod crd;
pub mod demo;
pub mod json;
pub mod k8s_backend;
pub mod keyed;
pub mod operator;
pub mod reconcile;
pub mod store;
pub mod text;
pub mod tui;
