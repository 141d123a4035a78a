//! Context-aware completion: when the cursor sits inside some macro's
//! bracketing range, the candidate set is the union of every EVM opcode
//! mnemonic, every builtin function name, and every macro defined in the
//! contract, composed into one label-keyed mapping in that order, so that
//! on a label collision the macro wins. Outside every macro the mapping is
//! empty.

use vstd::prelude::*;

use crate::ast::{spec_inside_any_macro, Ast, MacroDefV};
use crate::ast::inside_macro_context;
use crate::store::{lemma_pairs_map_dom, lemma_pairs_map_index, lemma_pairs_map_push, lemma_pairs_map_update, pairs_map, unique_keys};

verus! {

/// One completion candidate.
pub enum HuffCompletionItem {
    /// An opcode mnemonic.
    Opcode(String),
    /// A macro: its name and its declared parameter names.
    Macro(String, Vec<String>),
    /// A builtin function invocation.
    BuiltinFunction(String),
}

/// Mathematical model of a completion candidate.
pub enum ItemV {
    Opcode(Seq<char>),
    Macro(Seq<char>, Seq<Seq<char>>),
    BuiltinFunction(Seq<char>),
}

impl View for HuffCompletionItem {
    type V = ItemV;

    open spec fn view(&self) -> ItemV {
        match self {
            HuffCompletionItem::Opcode(s) => ItemV::Opcode(s@),
            HuffCompletionItem::Macro(s, ps) => ItemV::Macro(s@, ps.deep_view()),
            HuffCompletionItem::BuiltinFunction(s) => ItemV::BuiltinFunction(s@),
        }
    }
}

/// The fixed catalog of builtin function names.
pub open spec fn builtin_names() -> Seq<Seq<char>> {
    seq![
        "__tablesize"@,
        "__codesize"@,
        "__tablestart"@,
        "__FUNC_SIG"@,
        "__EVENT_HASH"@,
        "__ERROR"@,
        "__RIGHTPAD"@,
        "__CODECOPY_DYN_ARG"@,
    ]
}

/// The fixed catalog of builtin function names, one entry per name of the
/// catalog, in its order.
pub fn builtin_functions() -> (r: Vec<&'static str>)
    ensures
        r@.len() == builtin_names().len(),
        forall|j: int| 0 <= j < r@.len() ==> (#[trigger] r@[j])@ == builtin_names()[j],
{
    let mut r: Vec<&'static str> = Vec::new();
    r.push("__tablesize");
    r.push("__codesize");
    r.push("__tablestart");
    r.push("__FUNC_SIG");
    r.push("__EVENT_HASH");
    r.push("__ERROR");
    r.push("__RIGHTPAD");
    r.push("__CODECOPY_DYN_ARG");
    r
}

/// Relies on huff_utils::evm::OPCODES, the fixed table of the 142 EVM opcode
/// mnemonics, for the completion vocabulary; hands each entry out as an
/// owned string.
#[verifier::external_body]
fn opcode_mnemonics() -> (r: Vec<String>)
    ensures
        r@.len() == 142,
{
    huff_utils::evm::OPCODES.iter().map(|s| s.to_string()).collect()
}

/// The index of the last macro that carries a name, or -1 when none does.
pub open spec fn last_macro_with_name(macros: Seq<MacroDefV>, l: Seq<char>) -> int
    decreases macros.len(),
{
    if macros.len() == 0 {
        -1
    } else if macros.last().name == l {
        macros.len() - 1
    } else {
        last_macro_with_name(macros.drop_last(), l)
    }
}

/// Some macro carries this name.
pub open spec fn has_macro_named(macros: Seq<MacroDefV>, l: Seq<char>) -> bool {
    last_macro_with_name(macros, l) >= 0
}

/// The final entry a label receives: the last macro of that name when one
/// exists (macros are inserted last, so they win a collision), else the
/// builtin of that name, else the opcode of that name.
pub open spec fn entry_value(macros: Seq<MacroDefV>, l: Seq<char>) -> ItemV {
    if has_macro_named(macros, l) {
        ItemV::Macro(l, macros[last_macro_with_name(macros, l)].parameters)
    } else if builtin_names().contains(l) {
        ItemV::BuiltinFunction(l)
    } else {
        ItemV::Opcode(l)
    }
}

/// The completion mapping offered inside a macro body, given the opcode
/// vocabulary: one entry per opcode, builtin and macro name, each holding
/// its final value.
pub open spec fn spec_completion_map(ops: Seq<Seq<char>>, macros: Seq<MacroDefV>) -> Map<
    Seq<char>,
    ItemV,
> {
    Map::new(
        |l: Seq<char>|
            ops.contains(l) || builtin_names().contains(l) || has_macro_named(macros, l),
        |l: Seq<char>| entry_value(macros, l),
    )
}

/// The index of the last macro that carries a name points at a macro of
/// that name; when there is none, no macro carries the name.
pub proof fn lemma_last_macro_with_name(macros: Seq<MacroDefV>, l: Seq<char>)
    ensures
        has_macro_named(macros, l) ==> {
            &&& 0 <= last_macro_with_name(macros, l) < macros.len()
            &&& macros[last_macro_with_name(macros, l)].name == l
        },
        !has_macro_named(macros, l) ==> forall|i: int|
            0 <= i < macros.len() ==> (#[trigger] macros[i]).name != l,
    decreases macros.len(),
{
    if macros.len() > 0 {
        lemma_last_macro_with_name(macros.drop_last(), l);
        if macros.last().name != l {
            assert forall|i: int|
                0 <= i < macros.len() && !has_macro_named(macros, l) implies (
            #[trigger] macros[i]).name != l by {
                if i < macros.len() - 1 {
                    assert(macros.drop_last()[i] == macros[i]);
                }
            }
        }
    }
}

/// A sequence extended by one element contains exactly its old elements and
/// the new one.
pub proof fn lemma_push_contains<A>(s: Seq<A>, x: A, l: A)
    ensures
        s.push(x).contains(l) <==> s.contains(l) || l == x,
{
    if s.push(x).contains(l) {
        let i = choose|i: int| 0 <= i < s.push(x).len() && s.push(x)[i] == l;
        if i < s.len() {
            assert(s[i] == l);
        }
    }
    if s.contains(l) {
        let i = choose|i: int| 0 <= i < s.len() && s[i] == l;
        assert(s.push(x)[i] == l);
    }
    assert(s.push(x)[s.len() as int] == x);
}

/// One entry of the label-keyed completion mapping.
pub struct LabelEntry {
    pub label: String,
    pub item: HuffCompletionItem,
}

/// A label-keyed mapping of completion candidates with unique labels; a
/// later insertion overwrites an earlier one on label collision. Entries
/// keep insertion order.
pub struct LabelMap {
    pub entries: Vec<LabelEntry>,
}

impl LabelMap {
    /// The entries as key/value pairs.
    pub open spec fn pairs(self) -> Seq<(Seq<char>, ItemV)> {
        self.entries@.map_values(|e: LabelEntry| (e.label@, e.item@))
    }

    /// Each label occurs at most once.
    pub open spec fn wf(self) -> bool {
        unique_keys(self.pairs())
    }

    /// An empty mapping.
    pub fn new() -> (r: LabelMap)
        ensures
            r.wf(),
            r@ =~= Map::<Seq<char>, ItemV>::empty(),
    {
        let r = LabelMap { entries: Vec::new() };
        proof {
            assert(r.pairs() =~= Seq::<(Seq<char>, ItemV)>::empty());
        }
        r
    }

    /// Inserts a candidate under a label; the last write for a label wins.
    pub fn insert(&mut self, label: String, item: HuffCompletionItem)
        requires
            old(self).wf(),
        ensures
            final(self).wf(),
            final(self)@ =~= old(self)@.insert(label@, item@),
    {
        let ghost old_pairs = self.pairs();
        let ghost v = item@;
        let n = self.entries.len();
        let mut i: usize = 0;
        while i < n
            invariant
                self.entries@ == old(self).entries@,
                unique_keys(old_pairs),
                old_pairs == old(self).pairs(),
                v == item@,
                n == self.entries@.len(),
                i <= n,
                forall|j: int| 0 <= j < i ==> (#[trigger] self.entries@[j]).label@ != label@,
            decreases n - i,
        {
            if self.entries[i].label.eq(&label) {
                let e = LabelEntry { label, item };
                proof {
                    assert(old_pairs[i as int].0 == label@);
                    lemma_pairs_map_update(old_pairs, i as int, v);
                }
                self.entries[i] = e;
                proof {
                    assert forall|j: int| 0 <= j < self.pairs().len() implies self.pairs()[j]
                        == old_pairs.update(i as int, (label@, v))[j] by {
                        if j != i {
                            assert(self.entries@[j] == old(self).entries@[j]);
                        } else {
                            assert(self.entries@[j] == e);
                        }
                    }
                    assert(self.pairs() =~= old_pairs.update(i as int, (label@, v)));
                    assert forall|a: int, b: int|
                        0 <= a < b < self.pairs().len() implies (#[trigger] self.pairs()[a]).0 != (
                    #[trigger] self.pairs()[b]).0 by {
                        if a != i && b != i {
                            assert(old_pairs[a].0 != old_pairs[b].0);
                        } else if a == i {
                            assert(old_pairs[b].0 == self.pairs()[b].0);
                            assert(old_pairs[a].0 == label@);
                        } else {
                            assert(old_pairs[a].0 == self.pairs()[a].0);
                            assert(old_pairs[b].0 == label@);
                        }
                    }
                }
                return ;
            }
            i = i + 1;
        }
        let e = LabelEntry { label, item };
        self.entries.push(e);
        proof {
            assert forall|j: int| 0 <= j < self.pairs().len() implies self.pairs()[j]
                == old_pairs.push((label@, v))[j] by {
                if j < old_pairs.len() {
                    assert(self.entries@[j] == old(self).entries@[j]);
                }
            }
            assert(self.pairs() =~= old_pairs.push((label@, v)));
            lemma_pairs_map_push(old_pairs, label@, v);
            assert forall|a: int, b: int|
                0 <= a < b < self.pairs().len() implies (#[trigger] self.pairs()[a]).0 != (
            #[trigger] self.pairs()[b]).0 by {
                if b < old_pairs.len() {
                    assert(old_pairs[a].0 != old_pairs[b].0);
                } else {
                    assert(self.pairs()[a].0 == old_pairs[a].0);
                    assert(old_pairs[a].0 == self.entries@[a].label@);
                }
            }
        }
    }

    /// Read-only lookup of the candidate a label maps to.
    pub fn get(&self, label: &String) -> (r: Option<&HuffCompletionItem>)
        requires
            self.wf(),
        ensures
            match r {
                Some(item) => self@.dom().contains(label@) && self@[label@] == item@,
                None => !self@.dom().contains(label@),
            },
    {
        let n = self.entries.len();
        let mut i: usize = 0;
        while i < n
            invariant
                self.wf(),
                n == self.entries@.len(),
                i <= n,
                forall|j: int| 0 <= j < i ==> (#[trigger] self.entries@[j]).label@ != label@,
            decreases n - i,
        {
            if self.entries[i].label.eq(label) {
                proof {
                    lemma_pairs_map_index(self.pairs(), i as int);
                }
                return Some(&self.entries[i].item);
            }
            i = i + 1;
        }
        proof {
            lemma_pairs_map_dom(self.pairs(), label@);
        }
        None
    }

    /// The number of labels mapped.
    pub fn len(&self) -> (r: usize)
        requires
            self.wf(),
        ensures
            r == self@.dom().len(),
    {
        proof {
            lemma_pairs_dom_len(self.pairs());
        }
        self.entries.len()
    }
}

impl View for LabelMap {
    type V = Map<Seq<char>, ItemV>;

    open spec fn view(&self) -> Map<Seq<char>, ItemV> {
        pairs_map(self.pairs())
    }
}

/// With unique keys, the denoted mapping has exactly one label per entry.
pub proof fn lemma_pairs_dom_len<V>(s: Seq<(Seq<char>, V)>)
    requires
        unique_keys(s),
    ensures
        pairs_map(s).dom().finite(),
        pairs_map(s).dom().len() == s.len(),
    decreases s.len(),
{
    if s.len() > 0 {
        lemma_pairs_dom_len(s.drop_last());
        lemma_pairs_map_dom(s.drop_last(), s.last().0);
        assert forall|i: int| 0 <= i < s.drop_last().len() implies (#[trigger] s.drop_last()[i]).0
            != s.last().0 by {
            assert(s.drop_last()[i] == s[i]);
        }
    }
}

/// Composes the completion mapping from a given opcode vocabulary: inside a
/// macro it is exactly the union of the opcodes, the builtins and the
/// declared macros, later sources overwriting earlier ones per label;
/// outside every macro it is empty.
pub fn completion_with_opcodes(opcodes: &Vec<String>, ast: &Ast, ident_offset: usize) -> (r:
    LabelMap)
    ensures
        r.wf(),
        !spec_inside_any_macro(ast@, ident_offset as int) ==> r@ =~= Map::<Seq<char>, ItemV>::empty(),
        spec_inside_any_macro(ast@, ident_offset as int) ==> r@ =~= spec_completion_map(
            opcodes.deep_view(),
            ast@,
        ),
{
    let mut map = LabelMap::new();
    if !inside_macro_context(&ast.macros, ident_offset) {
        return map;
    }
    let ghost ops = opcodes.deep_view();
    let n_ops = opcodes.len();
    let mut i: usize = 0;
    while i < n_ops
        invariant
            map.wf(),
            ops == opcodes.deep_view(),
            n_ops == opcodes@.len(),
            i <= n_ops,
            forall|l: Seq<char>| #[trigger]
                map@.dom().contains(l) <==> ops.take(i as int).contains(l),
            forall|l: Seq<char>| #[trigger]
                map@.dom().contains(l) ==> map@[l] == ItemV::Opcode(l),
        decreases n_ops - i,
    {
        let label = opcodes[i].clone();
        proof {
            assert(label@ == ops[i as int]);
            assert(ops.take(i + 1) =~= ops.take(i as int).push(ops[i as int]));
        }
        map.insert(label.clone(), HuffCompletionItem::Opcode(label));
        proof {
            assert forall|l: Seq<char>| #[trigger]
                map@.dom().contains(l) <==> ops.take(i + 1).contains(l) by {
                lemma_push_contains(ops.take(i as int), ops[i as int], l);
            }
        }
        i = i + 1;
    }
    proof {
        assert(ops.take(n_ops as int) =~= ops);
    }
    let builtins = builtin_functions();
    let n_b = builtins.len();
    let mut j: usize = 0;
    while j < n_b
        invariant
            map.wf(),
            ops == opcodes.deep_view(),
            n_b == builtins@.len(),
            builtins@.len() == builtin_names().len(),
            forall|t: int| 0 <= t < builtins@.len() ==> (#[trigger] builtins@[t])@
                == builtin_names()[t],
            j <= n_b,
            forall|l: Seq<char>| #[trigger]
                map@.dom().contains(l) <==> ops.contains(l) || builtin_names().take(
                    j as int,
                ).contains(l),
            forall|l: Seq<char>| #[trigger]
                map@.dom().contains(l) ==> map@[l] == (if builtin_names().take(j as int).contains(
                    l,
                ) {
                    ItemV::BuiltinFunction(l)
                } else {
                    ItemV::Opcode(l)
                }),
        decreases n_b - j,
    {
        let label = String::from_str(builtins[j]);
        proof {
            assert(label@ == builtin_names()[j as int]);
            assert(builtin_names().take(j + 1) =~= builtin_names().take(j as int).push(
                builtin_names()[j as int],
            ));
        }
        map.insert(label.clone(), HuffCompletionItem::BuiltinFunction(label));
        proof {
            assert forall|l: Seq<char>|
                ops.contains(l) || builtin_names().take(j + 1).contains(l) implies #[trigger] map@
                .dom().contains(l) by {
                lemma_push_contains(builtin_names().take(j as int), builtin_names()[j as int], l);
            }
            assert forall|l: Seq<char>| #[trigger]
                map@.dom().contains(l) implies (ops.contains(l) || builtin_names().take(
                j + 1,
            ).contains(l)) && map@[l] == (if builtin_names().take(j + 1).contains(l) {
                ItemV::BuiltinFunction(l)
            } else {
                ItemV::Opcode(l)
            }) by {
                lemma_push_contains(builtin_names().take(j as int), builtin_names()[j as int], l);
            }
        }
        j = j + 1;
    }
    proof {
        assert(builtin_names().take(builtin_names().len() as int) =~= builtin_names());
    }
    let n_m = ast.macros.len();
    let mut k: usize = 0;
    while k < n_m
        invariant
            map.wf(),
            ops == opcodes.deep_view(),
            n_m == ast.macros@.len(),
            k <= n_m,
            forall|l: Seq<char>| #[trigger]
                map@.dom().contains(l) <==> ops.contains(l) || builtin_names().contains(l)
                    || has_macro_named(ast@.take(k as int), l),
            forall|l: Seq<char>| #[trigger]
                map@.dom().contains(l) ==> map@[l] == entry_value(ast@.take(k as int), l),
        decreases n_m - k,
    {
        let name = ast.macros[k].name.clone();
        let params = ast.macros[k].parameters.clone();
        proof {
            assert(ast@[k as int] == ast.macros@[k as int]@);
            assert(name@ == ast@[k as int].name);
            assert forall|t: int| 0 <= t < params@.len() implies params@[t] == ast.macros@[k as int].parameters@[t] by {
            }
            assert(params.deep_view() =~= ast.macros@[k as int].parameters.deep_view());
            assert(ast@.take(k + 1) =~= ast@.take(k as int).push(ast@[k as int]));
            assert(ast@.take(k + 1).drop_last() =~= ast@.take(k as int));
        }
        map.insert(name.clone(), HuffCompletionItem::Macro(name, params));
        proof {
            let taken = ast@.take(k + 1);
            let prev = ast@.take(k as int);
            let mname = ast@[k as int].name;
            assert(taken.last() == ast@[k as int]);
            assert forall|l: Seq<char>| #[trigger]
                map@.dom().contains(l) <==> ops.contains(l) || builtin_names().contains(l)
                    || has_macro_named(taken, l) by {
                if l == mname {
                    assert(last_macro_with_name(taken, l) == taken.len() - 1);
                } else {
                    assert(last_macro_with_name(taken, l) == last_macro_with_name(prev, l));
                }
            }
            assert forall|l: Seq<char>| #[trigger]
                map@.dom().contains(l) implies map@[l] == entry_value(taken, l) by {
                if l == mname {
                    assert(last_macro_with_name(taken, l) == taken.len() - 1);
                    assert(taken[taken.len() - 1] == ast@[k as int]);
                } else {
                    assert(last_macro_with_name(taken, l) == last_macro_with_name(prev, l));
                    lemma_last_macro_with_name(taken, l);
                    lemma_last_macro_with_name(prev, l);
                    if has_macro_named(prev, l) {
                        assert(taken[last_macro_with_name(prev, l)] == prev[last_macro_with_name(
                            prev,
                            l,
                        )]);
                    }
                }
            }
        }
        k = k + 1;
    }
    proof {
        assert(ast@.take(n_m as int) =~= ast@);
        assert(map@ =~= spec_completion_map(ops, ast@));
    }
    map
}

/// Answers a completion query against a cached syntax tree: empty outside
/// every macro's bracketing range; inside one, the label-keyed union of the
/// opcode vocabulary, the builtin catalog and the declared macros, macros
/// winning label collisions.
pub fn completion(ast: &Ast, ident_offset: usize) -> (r: LabelMap)
    ensures
        r.wf(),
        !spec_inside_any_macro(ast@, ident_offset as int) ==> r@ =~= Map::<Seq<char>, ItemV>::empty(),
        spec_inside_any_macro(ast@, ident_offset as int) ==> exists|ops: Seq<Seq<char>>|
            ops.len() == 142 && r@ == #[trigger] spec_completion_map(ops, ast@),
{
    let opcodes = opcode_mnemonics();
    let r = completion_with_opcodes(&opcodes, ast, ident_offset);
    proof {
        if spec_inside_any_macro(ast@, ident_offset as int) {
            assert(opcodes.deep_view().len() == 142);
            assert(r@ == spec_completion_map(opcodes.deep_view(), ast@));
        }
    }
    r
}

} // verus!
