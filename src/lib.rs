//! Discovery, validation and lifetime management of a dynamically loaded
//! `libclang` shared library.
//!
//! The search plan, file-name parsing, header probing, candidate ranking and
//! the per-thread loader registry are plain computations on values; walking
//! the filesystem, reading header bytes and opening the library with the
//! operating system are left to the caller.

pub mod order;
pub mod text;
pub mod version;
pub mod probe;
pub mod search;
pub mod select;
pub mod registry;
pub mod messages;
pub mod support;
pub mod documentation;

pub use documentation::{CXCommentInlineCommandRenderKind, CXCommentKind, CXCommentParamPassDirection};
