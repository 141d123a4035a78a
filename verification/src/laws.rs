//! The behavioral laws of the library, stated once in full and proved,
//! over the same models that the functions' own contracts use.

use vstd::prelude::*;

use crate::ast::{spec_inside_macro, MacroDefV};
use crate::completion::{builtin_names, has_macro_named, spec_completion_map};
use crate::server::ServerState;

verus! {

/// Every declared macro name is carried by some macro.
pub proof fn lemma_has_macro_named_of_index(macros: Seq<MacroDefV>, i: int)
    requires
        0 <= i < macros.len(),
    ensures
        has_macro_named(macros, macros[i].name),
    decreases macros.len(),
{
    if macros.last().name != macros[i].name {
        assert(i < macros.len() - 1);
        assert(macros.drop_last()[i] == macros[i]);
        lemma_has_macro_named_of_index(macros.drop_last(), i);
    }
}

/// Stale-cache law: a successful parse of a document leaves its tree in
/// the cache, and a later edit whose reparse fails leaves the cache
/// untouched, so a completion query after the failing edit is still
/// computed against the earlier tree, not against an empty or updated
/// state. The two premises are exactly what `ServerState::on_change`
/// ensures for a successful and for a failing outcome.
pub proof fn lemma_stale_cache(
    s0: ServerState,
    s1: ServerState,
    s2: ServerState,
    uri: Seq<char>,
    a1: Seq<MacroDefV>,
)
    requires
        s1.asts@ == s0.asts@.insert(uri, a1),
        s2.asts@ == s1.asts@,
    ensures
        s2.asts@.dom().contains(uri),
        s2.asts@[uri] == a1,
{
}

/// Containment law: for a macro whose bracketing range is `(s, e)`, an
/// offset strictly between the two is classified inside; an offset at or
/// before `s`, at or beyond `e`, or any offset against a macro with no
/// statements, is classified outside.
pub proof fn lemma_containment(m: MacroDefV, o: int)
    ensures
        (m.statements.len() > 0 && m.statements.first().len() > 0 && m.statements.last().len() > 0
            && m.statements.first().first().start < o < m.statements.last().last().end)
            ==> spec_inside_macro(m, o),
        m.statements.len() == 0 ==> !spec_inside_macro(m, o),
        (m.statements.len() > 0 && m.statements.first().len() > 0 && m.statements.last().len() > 0
            && (o <= m.statements.first().first().start || o >= m.statements.last().last().end))
            ==> !spec_inside_macro(m, o),
{
}

/// Superset law: inside a macro, the completion mapping holds an entry for
/// every mnemonic of the opcode vocabulary, every builtin name of the
/// catalog, and every macro name declared in the contract.
pub proof fn lemma_completion_superset(ops: Seq<Seq<char>>, macros: Seq<MacroDefV>)
    ensures
        forall|l: Seq<char>|
            ops.contains(l) ==> spec_completion_map(ops, macros).dom().contains(l),
        forall|l: Seq<char>|
            builtin_names().contains(l) ==> spec_completion_map(ops, macros).dom().contains(l),
        forall|i: int|
            0 <= i < macros.len() ==> spec_completion_map(ops, macros).dom().contains(
                (#[trigger] macros[i]).name,
            ),
{
    assert forall|i: int|
        0 <= i < macros.len() implies spec_completion_map(ops, macros).dom().contains(
        (#[trigger] macros[i]).name,
    ) by {
        lemma_has_macro_named_of_index(macros, i);
    }
}

/// Collision law: when a macro is named identically to an opcode mnemonic
/// or a builtin name, the final entry under that label is the macro.
pub proof fn lemma_collision_resolution(ops: Seq<Seq<char>>, macros: Seq<MacroDefV>, i: int)
    requires
        0 <= i < macros.len(),
        ops.contains(macros[i].name) || builtin_names().contains(macros[i].name),
    ensures
        spec_completion_map(ops, macros).dom().contains(macros[i].name),
        spec_completion_map(ops, macros)[macros[i].name] is Macro,
{
    lemma_has_macro_named_of_index(macros, i);
}

} // verus!
