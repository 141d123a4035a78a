//! Core of an editor-tooling front-end for the Huff assembly language.
//!
//! The library keeps per-document state (latest text and version, last
//! successfully parsed syntax tree), classifies a cursor offset against
//! macro bodies to answer completion queries, and turns structured parse
//! errors into positioned diagnostics. The lexer and parser are external
//! collaborators: the core consumes their outcome as a value and never
//! implements the grammar itself.

pub mod ast;
pub mod completion;
pub mod diagnostics;
pub mod laws;
pub mod position;
pub mod render;
pub mod server;
pub mod store;

pub use ast::{Ast, MacroDef, MacroDefV, Span, Statement};
pub use completion::{HuffCompletionItem, ItemV, LabelEntry, LabelMap};
pub use diagnostics::{DiagV, Diagnostic, ParseErrV, ParseError};
pub use position::{LineIndex, Position};
pub use render::{CompletionEntry, CompletionEntryV, EntryKind};
pub use server::{OnChangeAction, ServerState};
pub use store::{AstCache, AstEntry, DocEntry, DocV, DocumentStore};
