//! Translation of structured parse errors into positioned diagnostics. A
//! span-carrying parser error is anchored at its first recorded span; any
//! other error is anchored generically at offsets 0 and 1. When either
//! offset fails to map to a position, the whole translation is dropped
//! rather than producing a partial diagnostic.

use vstd::prelude::*;

use crate::ast::Span;
use crate::position::{spec_offset_to_position, LineIndex, Position};
use crate::render::{spec_dec, usize_to_decimal};

verus! {

/// A structured parse failure: a parser error locates itself with one or
/// more spans and a message; any other failure carries no span.
pub enum ParseError {
    /// A structural parse failure with the spans of the offending region.
    Parser { spans: Vec<Span>, message: String },
    /// A failure of any other kind, a malformed token among them.
    Unrecognized,
}

/// Mathematical model of a structured parse failure.
pub enum ParseErrV {
    Parser { spans: Seq<Span>, message: Seq<char> },
    Unrecognized,
}

impl View for ParseError {
    type V = ParseErrV;

    open spec fn view(&self) -> ParseErrV {
        match self {
            ParseError::Parser { spans, message } => ParseErrV::Parser {
                spans: spans@,
                message: message@,
            },
            ParseError::Unrecognized => ParseErrV::Unrecognized,
        }
    }
}

/// A positioned message surfaced to the editor.
pub struct Diagnostic {
    pub start: Position,
    pub end: Position,
    pub message: String,
}

/// Mathematical model of a diagnostic.
pub struct DiagV {
    pub start: Position,
    pub end: Position,
    pub message: Seq<char>,
}

impl View for Diagnostic {
    type V = DiagV;

    open spec fn view(&self) -> DiagV {
        DiagV { start: self.start, end: self.end, message: self.message@ }
    }
}

/// The rendering of a span inside a diagnostic message.
pub open spec fn spec_span_message(sp: Span) -> Seq<char> {
    "Span { start: "@ + spec_dec(sp.start as nat) + ", end: "@ + spec_dec(sp.end as nat) + " }"@
}

/// What translating an error over a text yields: the first span's offsets
/// mapped to positions, or the generic anchor at offsets 0 and 1; nothing
/// when any needed offset fails to map, or when a parser error carries no
/// span at all.
pub open spec fn spec_translate(e: ParseErrV, text: Seq<char>) -> Option<DiagV> {
    match e {
        ParseErrV::Parser { spans, message } => {
            if spans.len() == 0 {
                None
            } else {
                let sp = spans[0];
                match spec_offset_to_position(text, sp.start as int) {
                    Some(start) => match spec_offset_to_position(text, sp.end as int) {
                        Some(end) => Some(
                            DiagV { start, end, message: spec_span_message(sp) },
                        ),
                        None => None,
                    },
                    None => None,
                }
            }
        },
        ParseErrV::Unrecognized => {
            match spec_offset_to_position(text, 0) {
                Some(start) => match spec_offset_to_position(text, 1) {
                    Some(end) => Some(
                        DiagV { start, end, message: "Unrecognized error"@ },
                    ),
                    None => None,
                },
                None => None,
            }
        },
    }
}

/// Renders a span for a diagnostic message.
fn span_message(sp: Span) -> (r: String)
    ensures
        r@ == spec_span_message(sp),
{
    let mut s = String::from_str("Span { start: ");
    s.append(usize_to_decimal(sp.start).as_str());
    s.append(", end: ");
    s.append(usize_to_decimal(sp.end).as_str());
    s.append(" }");
    s
}

/// Maps a structured parse error to a positioned diagnostic over the line
/// index of the document's current text, or drops it when an offset cannot
/// be resolved.
pub fn translate(error: &ParseError, index: &LineIndex) -> (r: Option<Diagnostic>)
    requires
        index.wf(),
    ensures
        match r {
            Some(d) => spec_translate(error@, index.text@) == Some(d@),
            None => spec_translate(error@, index.text@) is None,
        },
{
    match error {
        ParseError::Parser { spans, message: _ } => {
            if spans.len() == 0 {
                return None;
            }
            let sp = spans[0];
            let start = match index.offset_to_position(sp.start) {
                Some(p) => p,
                None => {
                    return None;
                },
            };
            let end = match index.offset_to_position(sp.end) {
                Some(p) => p,
                None => {
                    return None;
                },
            };
            Some(Diagnostic { start, end, message: span_message(sp) })
        },
        ParseError::Unrecognized => {
            let start = match index.offset_to_position(0) {
                Some(p) => p,
                None => {
                    return None;
                },
            };
            let end = match index.offset_to_position(1) {
                Some(p) => p,
                None => {
                    return None;
                },
            };
            let message = String::from_str("Unrecognized error");
            Some(Diagnostic { start, end, message })
        },
    }
}

} // verus!
