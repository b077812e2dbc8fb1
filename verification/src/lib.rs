//! Chunking, table provisioning and job planning for a text-embedding index.

pub mod chunker;
pub mod job;
pub mod model;
pub mod provision;
pub mod rag;
pub mod registry;
pub mod schedule;
pub mod search;
pub mod transform;
