//! The contract-level parse result: a sequence of macro definitions, each
//! with a name, an ordered parameter list and an ordered statement list,
//! every statement carrying one or more source spans.

use vstd::prelude::*;

verus! {

/// A half-open character-offset range `[start, end)` into a source text.
#[derive(Clone, Copy, PartialEq, Eq, Structural, Debug)]
pub struct Span {
    pub start: usize,
    pub end: usize,
}

/// One statement of a macro body; it carries the spans of its token ranges.
pub struct Statement {
    pub spans: Vec<Span>,
}

/// A named, parameterized block of statements. A parameter is kept as its
/// declared name.
pub struct MacroDef {
    pub name: String,
    pub parameters: Vec<String>,
    pub statements: Vec<Statement>,
}

/// The parsed contract structure: an ordered collection of macro definitions.
pub struct Ast {
    pub macros: Vec<MacroDef>,
}

/// Mathematical model of a macro definition: its name, its parameter names in
/// order, and per statement the spans of its token ranges in order.
pub struct MacroDefV {
    pub name: Seq<char>,
    pub parameters: Seq<Seq<char>>,
    pub statements: Seq<Seq<Span>>,
}

impl View for Statement {
    type V = Seq<Span>;

    open spec fn view(&self) -> Seq<Span> {
        self.spans@
    }
}

impl View for MacroDef {
    type V = MacroDefV;

    open spec fn view(&self) -> MacroDefV {
        MacroDefV {
            name: self.name@,
            parameters: self.parameters.deep_view(),
            statements: self.statements@.map_values(|s: Statement| s@),
        }
    }
}

impl View for Ast {
    type V = Seq<MacroDefV>;

    open spec fn view(&self) -> Seq<MacroDefV> {
        self.macros@.map_values(|m: MacroDef| m@)
    }
}

/// The coarse bracketing test for a single macro: the cursor offset lies
/// strictly between the start of the first span of the first statement and
/// the end of the last span of the last statement. A macro with no
/// statements, or whose bracketing statements carry no spans, contains no
/// offset.
pub open spec fn spec_inside_macro(m: MacroDefV, offset: int) -> bool {
    &&& m.statements.len() > 0
    &&& m.statements.first().len() > 0
    &&& m.statements.last().len() > 0
    &&& m.statements.first().first().start < offset
    &&& offset < m.statements.last().last().end
}

/// The cursor is inside some macro's bracketing range.
pub open spec fn spec_inside_any_macro(macros: Seq<MacroDefV>, offset: int) -> bool {
    exists|i: int| 0 <= i < macros.len() && spec_inside_macro(macros[i], offset)
}

/// Classifies a cursor offset against every macro's bracketing range.
pub fn inside_macro_context(macro_defs: &Vec<MacroDef>, ident_offset: usize) -> (r: bool)
    ensures
        r == spec_inside_any_macro(macro_defs@.map_values(|m: MacroDef| m@), ident_offset as int),
{
    let n = macro_defs.len();
    let mut i: usize = 0;
    while i < n
        invariant
            n == macro_defs.len(),
            i <= n,
            forall|j: int| 0 <= j < i ==> !spec_inside_macro(#[trigger] macro_defs@[j]@, ident_offset as int),
        decreases n - i,
    {
        let m = &macro_defs[i];
        let stmt_count = m.statements.len();
        if stmt_count > 0 {
            let first_stmt = &m.statements[0];
            let last_stmt = &m.statements[stmt_count - 1];
            if first_stmt.spans.len() > 0 && last_stmt.spans.len() > 0 {
                let first_span = first_stmt.spans[0];
                let last_span = last_stmt.spans[last_stmt.spans.len() - 1];
                if first_span.start < ident_offset && last_span.end > ident_offset {
                    proof {
                        let mv = macro_defs@.map_values(|m: MacroDef| m@);
                        assert(mv[i as int] == macro_defs@[i as int]@);
                        assert(spec_inside_macro(mv[i as int], ident_offset as int));
                    }
                    return true;
                }
            }
        }
        assert(!spec_inside_macro(macro_defs@[i as int]@, ident_offset as int));
        i = i + 1;
    }
    proof {
        let mv = macro_defs@.map_values(|m: MacroDef| m@);
        assert forall|j: int| 0 <= j < mv.len() implies !spec_inside_macro(mv[j], ident_offset as int) by {
            assert(mv[j] == macro_defs@[j]@);
        }
    }
    false
}

} // verus!
