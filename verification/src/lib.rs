//! Typed model of automation workflows: nodes, name-keyed connections,
//! in-place graph edits, structural comparison and a lint pass.

pub mod commands;
pub mod config;
pub mod diff;
pub mod diff_laws;
pub mod error;
pub mod gather;
pub mod ids;
pub mod json;
pub mod linediff;
pub mod models;
pub mod output;
pub mod pagination;
pub mod parse;
pub mod report;
pub mod text;
pub mod timefmt;
pub mod validation;
