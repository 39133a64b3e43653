//! Derives a changelog of merged pull requests from raw Git commit messages,
//! relative to a service's previous deployment.
//!
//! The pipeline: a deployment baseline is selected from the deployment
//! history, the commits between the baseline and the target ref are
//! aggregated across comparison pages, and each commit message is run
//! through a fixed merge-commit pattern; the matches become an ordered
//! changelog of pull-request records with derived web URLs.

pub mod dto;
pub mod engine;
pub mod error;
pub mod ext;
pub mod models;
pub mod pattern;
