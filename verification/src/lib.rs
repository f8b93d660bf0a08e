//! Mind Palace: a wiki-style hierarchical knowledge base for LLM agents.
//!
//! The domain core (pages, access control, groups, the knowledge graph,
//! linting and the service that orchestrates them) with its contracts.
use vstd::prelude::*;

pub mod clock;
pub mod text;
pub mod value_objects;
pub mod group;
pub mod tenant;
pub mod page;
pub mod graph;
pub mod error;
pub mod ports;
pub mod lint;
pub mod rules;
pub mod service;
pub mod auth;
pub mod markdown;
pub mod secrets;
pub mod mcp;
pub mod web;
pub mod config;
pub mod dream;
pub mod tools;
pub mod records;
pub mod vectors;

verus! {

} // verus!
