//! Audits a set of software dependencies against a remote vulnerability
//! advisory source. This library holds the decisions of that audit, each
//! behind a verified contract: classifying raw entries into the canonical
//! dependency shapes, planning and interpreting one advisory query per
//! dependency, parsing the resolver front end's output, and aggregating
//! per-dependency outcomes into a stably ordered report list that drops,
//! but never hides, failed units. The asynchronous fan-out, the network
//! exchange and the report rendering live with the binary around it.

pub mod auditor;
pub mod cli;
pub mod extractor;
pub mod formatters;
pub mod models;
pub mod service;
pub mod uv_cli;
