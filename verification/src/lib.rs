//! Converts kernel-style configuration text into a declarative module
//! expression: a line classifier, a value inferencer and a serializer.

pub mod classify;
pub mod context;
pub mod diagnostic;
pub mod document;
pub mod infer;
pub mod laws;
pub mod options;
pub mod text;
pub mod value;

pub use context::RunContext;
pub use diagnostic::{Diagnostic, DiagnosticKind, ParseError, ParseErrorKind, Severity};
pub use document::Symbol;
pub use options::RunOptions;
pub use value::{Tristate, Value};
