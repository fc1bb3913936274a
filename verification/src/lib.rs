//! A rule-based static-analysis engine over a structural model of source
//! code. It inspects declarations (structs, traits, impls, functions,
//! enums), their coarse statement sequences and signature metadata, and
//! emits categorized findings across six domains: architectural
//! composition, concurrency safety, borrowing complexity, error-handling
//! quality, low-level memory safety, and type-system design.
//!
//! Parsing source text into the structural model, rendering reports and
//! loading configuration are external collaborators; the engine itself is
//! a pure function from a compilation unit and a configuration to an
//! ordered sequence of findings.

#![verifier::loop_isolation(false)]

pub mod finding;
pub mod model;
pub mod config;
pub mod graph;
pub mod concurrency;
pub mod borrowing;
pub mod systems;
pub mod error_rules;
pub mod type_rules;
pub mod arch;
pub mod router;
pub mod aggregate;
pub mod pipeline;
