//! ReBase: validation and normalization of RON-authored data schemas for
//! code generation into Unreal Engine C++ and Rust.
//!
//! - `options`: run options and their check.
//! - `model`: the schema as authored and its normalized form.
//! - `value`: record values and their shape checks.
//! - `types`: field types and their C++ spelling.
//! - `normalize`: checking a type definition and building its normalized form.
//! - `names`: identifiers, enumerators, text literals, namespace chains.
//! - `plan`: choosing a file's reading, and dry-run reports.
//! - `report`: error texts.
//! - `order`, `text`: string order and character helpers.

pub mod model;
pub mod names;
pub mod normalize;
pub mod options;
pub mod order;
pub mod plan;
pub mod report;
pub mod text;
pub mod types;
pub mod value;

pub use options::Options;
