//! Exact core of an air-quality classifier: label vocabulary, dataset
//! loading, train/test splitting, k-nearest-neighbour voting, accuracy
//! and the lifecycle of published results, each with a proved contract.

pub mod accuracy;
pub mod config;
pub mod dataset;
pub mod error;
pub mod knn;
pub mod label;
pub mod legend;
pub mod order;
pub mod perm;
pub mod pipeline;
pub mod results;
pub mod split;
pub mod taylor;
pub mod text;
pub mod vote;
