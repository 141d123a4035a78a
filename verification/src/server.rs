//! The per-document decision logic behind the editor protocol: a change
//! notification replaces the stored text, then the parse outcome either
//! replaces the cached syntax tree or leaves it untouched and yields a
//! diagnostic; a completion query reads the current text snapshot and the
//! cached tree independently of whether the two are mutually consistent,
//! so completions keep working through transient syntax errors.

use vstd::prelude::*;

use crate::ast::{spec_inside_any_macro, Ast};
use crate::completion::{completion, spec_completion_map, LabelMap};
use crate::diagnostics::{spec_translate, Diagnostic, ParseError};
use crate::position::{spec_line_starts, LineIndex};
use crate::store::{AstCache, DocV, DocumentStore};

verus! {

/// What a change notification asks the surrounding tooling to do: nothing
/// after a successful parse, publish one diagnostic after a translated
/// failure, or nothing when the translation was dropped.
pub enum OnChangeAction {
    /// The parse succeeded and the cache was updated.
    Parsed,
    /// The parse failed; publish this diagnostic against the document.
    Publish(Diagnostic),
    /// The parse failed and the diagnostic could not be positioned.
    Skip,
}

/// The flat offset a line/column query denotes over a text: the line's
/// start plus the column, when the line exists and the sum is
/// representable.
pub open spec fn spec_query_offset(text: Seq<char>, line: int, character: int) -> Option<int> {
    let starts = spec_line_starts(text);
    if 0 <= line < starts.len() && starts[line] + character <= usize::MAX {
        Some(starts[line] + character)
    } else {
        None
    }
}

/// The whole per-document state: the latest text and version of every
/// tracked document, and the last successfully parsed syntax tree of each.
pub struct ServerState {
    pub docs: DocumentStore,
    pub asts: AstCache,
}

impl ServerState {
    /// Both stores key each document at most once.
    pub open spec fn wf(self) -> bool {
        self.docs.wf() && self.asts.wf()
    }

    /// A state that tracks no document.
    pub fn new() -> (r: ServerState)
        ensures
            r.wf(),
            r.docs@ =~= Map::<Seq<char>, DocV>::empty(),
            r.asts@.dom() =~= Set::<Seq<char>>::empty(),
    {
        ServerState { docs: DocumentStore::new(), asts: AstCache::new() }
    }

    /// Applies one change notification: records the full new text and
    /// version, then lets the parse outcome drive the cache. A successful
    /// parse replaces the cached tree; a failed parse leaves the cache
    /// untouched and yields the translated diagnostic, or nothing when the
    /// translation was dropped.
    pub fn on_change(
        &mut self,
        uri: String,
        text: String,
        version: i32,
        parsed: Result<Ast, ParseError>,
    ) -> (r: OnChangeAction)
        requires
            old(self).wf(),
        ensures
            final(self).wf(),
            final(self).docs@ == old(self).docs@.insert(
                uri@,
                DocV { text: text@, version: version as int },
            ),
            parsed matches Ok(ast) ==> final(self).asts@ == old(self).asts@.insert(uri@, ast@)
                && r is Parsed,
            parsed matches Err(e) ==> final(self).asts@ == old(self).asts@ && (match spec_translate(
                e@,
                text@,
            ) {
                Some(dv) => r matches OnChangeAction::Publish(d) && d@ == dv,
                None => r is Skip,
            }),
    {
        let index = LineIndex::new(text.as_str());
        self.docs.open_or_replace(uri.clone(), text, version);
        match parsed {
            Ok(ast) => {
                self.asts.on_parse_success(uri, ast);
                OnChangeAction::Parsed
            },
            Err(e) => {
                match crate::diagnostics::translate(&e, &index) {
                    Some(d) => OnChangeAction::Publish(d),
                    None => OnChangeAction::Skip,
                }
            },
        }
    }

    /// Answers a completion request at a line/column position of a
    /// document: nothing when the document is untracked, no parse of it
    /// ever succeeded, or the position does not resolve to an offset of
    /// the current text; otherwise the completion mapping computed against
    /// the last successfully parsed tree, which may be staler than the
    /// text on screen.
    pub fn completion_at(&self, uri: &String, line: usize, character: usize) -> (r: Option<
        LabelMap,
    >)
        requires
            self.wf(),
        ensures
            match r {
                Some(map) => {
                    &&& self.docs@.dom().contains(uri@)
                    &&& self.asts@.dom().contains(uri@)
                    &&& spec_query_offset(
                        self.docs@[uri@].text,
                        line as int,
                        character as int,
                    ) matches Some(off)
                    &&& map.wf()
                    &&& {
                        let off = spec_query_offset(
                            self.docs@[uri@].text,
                            line as int,
                            character as int,
                        )->Some_0;
                        &&& (!spec_inside_any_macro(self.asts@[uri@], off) ==> map@
                            =~= Map::<Seq<char>, crate::completion::ItemV>::empty())
                        &&& (spec_inside_any_macro(self.asts@[uri@], off) ==> exists|
                            ops: Seq<Seq<char>>,
                        |
                            ops.len() == 142 && map@ == #[trigger] spec_completion_map(
                                ops,
                                self.asts@[uri@],
                            ))
                    }
                },
                None => {
                    ||| !self.docs@.dom().contains(uri@)
                    ||| !self.asts@.dom().contains(uri@)
                    ||| spec_query_offset(
                        self.docs@[uri@].text,
                        line as int,
                        character as int,
                    ) is None
                },
            },
    {
        let doc = match self.docs.get(uri) {
            Some(d) => d,
            None => {
                return None;
            },
        };
        let ast = match self.asts.get(uri) {
            Some(a) => a,
            None => {
                return None;
            },
        };
        let index = LineIndex::new(doc.text.as_str());
        let base = match index.line_to_offset(line) {
            Some(b) => b,
            None => {
                return None;
            },
        };
        if character > usize::MAX - base {
            return None;
        }
        let offset = base + character;
        Some(completion(ast, offset))
    }
}

} // verus!
