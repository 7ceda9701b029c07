//! Markdown-to-document conversion: metadata blocks, outlines, table of
//! contents rendering, ordered markup rewriting and inlined assets.
pub mod annotate;
pub mod assets;
pub mod compose;
pub mod custom_error;
pub mod frontmatter;
pub mod outline;
pub mod toc;

pub use custom_error::{custom_err_with_cause, CustomError};
