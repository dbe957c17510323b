//! Static analysis rules for Terraform configuration text.
//!
//! Every rule reads one source text and appends located diagnostics to a
//! sink. Offsets into a text are byte offsets into its UTF-8 encoding;
//! positions are zero-based line and column pairs, a column counting
//! Unicode scalars.

pub mod diagnostic;
pub mod document;
pub mod host;
pub mod outside;
pub mod parser;
pub mod pattern;
pub mod position;
pub mod rules;
pub mod ruleset;
pub mod text;
pub mod utils;
