//! Declarative test-data generation for competitive-programming problems:
//! a format model rendered to judge-style text, constraint validation,
//! a seeded value generator, and the decisions of the generation runner.

pub mod command;
pub mod convert;
pub mod format;
pub mod generator;
pub mod problem;
pub mod random;
pub mod runner;
pub mod testspec;
pub mod text;
