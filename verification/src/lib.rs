//! Segmentation of text into line-break chunks, for scripts that do not
//! separate words with spaces.
//!
//! A [`Model`] holds thirteen tables of trained weights, keyed by the one,
//! two or three codepoints found at fixed offsets around a position. A
//! [`Parser`] scores every interior position of a text against those tables
//! and starts a new chunk wherever the score is positive.

pub mod error;
pub mod model;
pub mod parser;
pub mod score;
pub mod segment;
pub mod table;
pub mod text;

pub use crate::error::BudouXError;
pub use crate::model::Model;
pub use crate::parser::{load_default_japanese_parser, load_parser, Parser};
pub use crate::table::FeatureTable;
