//! Tags for code navigation: the classes, functions, methods, modules and
//! call sites that a tag query finds in a source file, each with the byte
//! ranges of its name, its line and its whole construct, and with its
//! documentation.
//!
//! Parsing and query matching are done by `tree_sitter_tags`. This crate
//! compiles the directives of a tag query and says which pattern a fault in
//! the query lies in; it decides which of the matches become tags, finds the
//! line of each, puts the tags in source order and renders them.

pub mod assemble;
pub mod directive;
pub mod engine;
pub mod error;
pub mod kind;
pub mod lines;
pub mod matcher;
pub mod order;
pub mod patterns;
pub mod render;
pub mod tag;
pub mod text;

pub use crate::assemble::assemble_tags;
pub use crate::directive::{CompiledPattern, Directive, DirectiveFault, DirectiveFaultKind};
pub use crate::engine::{generate_tags, TagContext, TagQuery};
pub use crate::error::{Failure, QueryFault, TagsError};
pub use crate::kind::TagKind;
pub use crate::lines::line_range;
pub use crate::render::{render_tag, render_tags};
pub use crate::tag::{CaptureSet, MatchedTag, Tag};
