//! Copies stored "mustache" script templates between two Elasticsearch
//! clusters: the source cluster's stored scripts are enumerated, each
//! template is fetched, and each is uploaded to the target cluster.
//!
//! Every logical operation is dispatched through a node-failover executor
//! that shuffles a cluster's nodes and tries each in turn until one
//! succeeds. The decision logic of that executor, the response handling of
//! the three domain operations, and the copy orchestration are verified;
//! the wire calls themselves stand behind a small set of trusted items.

pub mod cluster_info;
pub mod copy_service;
pub mod failover;
pub mod protocol;
pub mod repository;
pub mod errors;
pub mod script_content;
