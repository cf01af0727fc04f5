//! Declarative data-refinement pipeline: records, operators, routing, sinks.

pub mod text;
pub mod sample;
pub mod yaml;
pub mod op;
pub mod spec;
pub mod registry;
pub mod plan;
pub mod context;
pub mod micropartition;
pub mod manifest;
pub mod operators;
pub mod hub;
pub mod io;
pub mod config;
pub mod layout;
pub mod runner;
pub mod runtime;
