//! Scanner for a small C-like scripting language, and a naive two-stack
//! reducer that prints flat arithmetic token streams as parenthesised groups.
//!
//! The scanner is proved to produce exactly what the model in [`model`]
//! describes; [`laws`] states general properties of that model.
pub mod laws;
pub mod model;
pub mod reducer;
pub mod render;
pub mod scanner;
pub mod tables;
pub mod text;
pub mod token;

pub use reducer::{reduce, ReduceError};
pub use render::{describe_diagnostic, describe_token};
pub use scanner::{scan, scan_chars};
pub use tables::{get_reserved_keyword, get_single_char_tokens};
pub use token::{Diagnostic, DiagnosticKind, ScanResult, Token, TokenType};
