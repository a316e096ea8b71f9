//! Core rules of a distributed optimisation task queue: the task, lease and
//! result tables of the coordinating server, the claim / submit / expiry
//! protocol over them, the status vocabularies shared with workers and the
//! command line, and the small integer helpers of the optimisation worker.

pub mod ids;
pub mod proto;
pub mod store;
pub mod task_repo;
pub mod result_repo;
pub mod service;
pub mod laws;
pub mod swarm;
pub mod client;
