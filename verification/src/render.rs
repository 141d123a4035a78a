//! Rendering of completion candidates into the shape the editor consumes:
//! macro items become `name(${1:arg1},${2:arg2},...)` snippets with one
//! placeholder per declared parameter, builtin items become `name()`
//! snippets, opcode items stay bare mnemonics.

use vstd::prelude::*;

use crate::completion::{HuffCompletionItem, ItemV, LabelMap};

verus! {

/// The decimal digit of a value below ten.
pub open spec fn spec_digit(d: nat) -> char {
    if d == 0 {
        '0'
    } else if d == 1 {
        '1'
    } else if d == 2 {
        '2'
    } else if d == 3 {
        '3'
    } else if d == 4 {
        '4'
    } else if d == 5 {
        '5'
    } else if d == 6 {
        '6'
    } else if d == 7 {
        '7'
    } else if d == 8 {
        '8'
    } else {
        '9'
    }
}

/// The decimal rendering of a natural number, most significant digit first.
pub open spec fn spec_dec(n: nat) -> Seq<char>
    decreases n,
{
    if n < 10 {
        seq![spec_digit(n)]
    } else {
        spec_dec(n / 10).push(spec_digit(n % 10))
    }
}

/// The decimal digit of a value below ten, as a string slice.
fn digit_str(d: usize) -> (r: &'static str)
    requires
        d < 10,
    ensures
        r@ =~= seq![spec_digit(d as nat)],
{
    let r: &'static str = if d == 0 {
        proof {
            reveal_strlit("0");
        }
        "0"
    } else if d == 1 {
        proof {
            reveal_strlit("1");
        }
        "1"
    } else if d == 2 {
        proof {
            reveal_strlit("2");
        }
        "2"
    } else if d == 3 {
        proof {
            reveal_strlit("3");
        }
        "3"
    } else if d == 4 {
        proof {
            reveal_strlit("4");
        }
        "4"
    } else if d == 5 {
        proof {
            reveal_strlit("5");
        }
        "5"
    } else if d == 6 {
        proof {
            reveal_strlit("6");
        }
        "6"
    } else if d == 7 {
        proof {
            reveal_strlit("7");
        }
        "7"
    } else if d == 8 {
        proof {
            reveal_strlit("8");
        }
        "8"
    } else {
        proof {
            reveal_strlit("9");
        }
        "9"
    };
    r
}

/// Renders a number in decimal.
pub fn usize_to_decimal(n: usize) -> (r: String)
    ensures
        r@ == spec_dec(n as nat),
    decreases n,
{
    if n < 10 {
        digit_str(n).to_owned()
    } else {
        let mut s = usize_to_decimal(n / 10);
        s.append(digit_str(n % 10));
        proof {
            assert(s@ =~= spec_dec((n / 10) as nat).push(spec_digit((n % 10) as nat)));
        }
        s
    }
}

/// The completion item kinds the editor distinguishes.
#[derive(Clone, Copy, PartialEq, Eq, Structural, Debug)]
pub enum EntryKind {
    /// Rendered as a callable item.
    Function,
    /// Rendered as a plain value.
    Value,
}

/// One entry of a completion response.
pub struct CompletionEntry {
    pub label: String,
    pub kind: EntryKind,
    pub insert_text: String,
    pub is_snippet: bool,
}

/// Mathematical model of a completion response entry.
pub struct CompletionEntryV {
    pub label: Seq<char>,
    pub kind: EntryKind,
    pub insert_text: Seq<char>,
    pub is_snippet: bool,
}

impl View for CompletionEntry {
    type V = CompletionEntryV;

    open spec fn view(&self) -> CompletionEntryV {
        CompletionEntryV {
            label: self.label@,
            kind: self.kind,
            insert_text: self.insert_text@,
            is_snippet: self.is_snippet,
        }
    }
}

/// The placeholder list of a macro snippet from parameter index `k` on:
/// `${k+1:name}` pieces joined by commas, numbered from one.
pub open spec fn spec_placeholders_from(params: Seq<Seq<char>>, k: int) -> Seq<char>
    decreases params.len() - k,
{
    if k < 0 || k >= params.len() {
        Seq::empty()
    } else {
        let piece = "${"@ + spec_dec((k + 1) as nat) + ":"@ + params[k] + "}"@;
        if k + 1 < params.len() {
            piece + ","@ + spec_placeholders_from(params, k + 1)
        } else {
            piece
        }
    }
}

/// How one candidate renders: a macro as a snippet with one placeholder per
/// declared parameter, a builtin as an empty-call snippet, an opcode as its
/// bare mnemonic.
pub open spec fn spec_render(label: Seq<char>, item: ItemV) -> CompletionEntryV {
    match item {
        ItemV::Macro(name, params) => CompletionEntryV {
            label,
            kind: EntryKind::Function,
            insert_text: name + "("@ + spec_placeholders_from(params, 0) + ")"@,
            is_snippet: true,
        },
        ItemV::Opcode(name) => CompletionEntryV {
            label,
            kind: EntryKind::Value,
            insert_text: name,
            is_snippet: false,
        },
        ItemV::BuiltinFunction(name) => CompletionEntryV {
            label,
            kind: EntryKind::Function,
            insert_text: name + "()"@,
            is_snippet: true,
        },
    }
}

/// Builds the placeholder list of a macro snippet.
fn render_placeholders(params: &Vec<String>) -> (r: String)
    ensures
        r@ == spec_placeholders_from(params.deep_view(), 0),
{
    let ghost ps = params.deep_view();
    let n = params.len();
    let mut acc = String::new();
    let mut k: usize = 0;
    while k < n
        invariant
            ps == params.deep_view(),
            n == params@.len(),
            k <= n,
            k < n ==> spec_placeholders_from(ps, 0) == acc@ + spec_placeholders_from(ps, k as int),
            k >= n ==> spec_placeholders_from(ps, 0) == acc@,
        decreases n - k,
    {
        acc.append("${");
        acc.append(usize_to_decimal(k + 1).as_str());
        acc.append(":");
        acc.append(params[k].as_str());
        acc.append("}");
        proof {
            assert(params@[k as int]@ == ps[k as int]);
        }
        if k + 1 < n {
            acc.append(",");
        }
        k = k + 1;
    }
    acc
}

/// Renders one candidate for the editor.
pub fn render_item(label: &String, item: &HuffCompletionItem) -> (r: CompletionEntry)
    ensures
        r@ == spec_render(label@, item@),
{
    match item {
        HuffCompletionItem::Opcode(name) => CompletionEntry {
            label: label.clone(),
            kind: EntryKind::Value,
            insert_text: name.clone(),
            is_snippet: false,
        },
        HuffCompletionItem::BuiltinFunction(name) => {
            let mut text = name.clone();
            text.append("()");
            CompletionEntry { label: label.clone(), kind: EntryKind::Function, insert_text: text, is_snippet: true }
        },
        HuffCompletionItem::Macro(name, params) => {
            let mut text = name.clone();
            text.append("(");
            text.append(render_placeholders(params).as_str());
            text.append(")");
            CompletionEntry { label: label.clone(), kind: EntryKind::Function, insert_text: text, is_snippet: true }
        },
    }
}

/// Renders a whole completion mapping, in its entry order.
pub fn render_completion_list(map: &LabelMap) -> (r: Vec<CompletionEntry>)
    ensures
        r@.len() == map.entries@.len(),
        forall|i: int|
            0 <= i < r@.len() ==> (#[trigger] r@[i])@ == spec_render(
                map.pairs()[i].0,
                map.pairs()[i].1,
            ),
{
    let n = map.entries.len();
    let mut r: Vec<CompletionEntry> = Vec::new();
    let mut i: usize = 0;
    while i < n
        invariant
            n == map.entries@.len(),
            i <= n,
            r@.len() == i,
            forall|j: int|
                0 <= j < i ==> (#[trigger] r@[j])@ == spec_render(
                    map.pairs()[j].0,
                    map.pairs()[j].1,
                ),
        decreases n - i,
    {
        let e = render_item(&map.entries[i].label, &map.entries[i].item);
        r.push(e);
        i = i + 1;
    }
    r
}

} // verus!
