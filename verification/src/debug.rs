//! Text renderings of the compiler's data for debugging: the elements, the AST, the errors,
//! the logs and the lines of characters and of tokens.
use crate::ast::elements::{mods_view, strs_view, ArgModifier, ArgModifierV, Element, ElementInfo, Elements, InfoV};
use crate::ast::output::empties;
use crate::ast::Ast;
use crate::text::repeat;
use crate::{CharPosition, Compiler, ErrorStack, LinesOfChars, LinesOfTokens, Token};
use crate::formatting::{self, pairs_text};
use crate::text::{self, decimal};
use vstd::prelude::*;

verus! {

/// What `{:?}` writes for a string: std's `Debug` for `str`.
pub uninterp spec fn str_debug(s: Seq<char>) -> Seq<char>;

/// Printable ASCII text without quote marks or backslashes, which `{:?}` leaves as it is.
pub open spec fn plain_text(s: Seq<char>) -> bool {
    forall|i: int| 0 <= i < s.len() ==> {
        let c = #[trigger] s[i];
        &&& 0x20 <= (c as u32) < 0x7f
        &&& c != '"' && c != '\\' && c != '\''
    }
}

/// Formats a string as `{:?}` does, through std's `Debug` for `str`. The contract names the
/// result, and states the one fact that std documents plainly: printable ASCII text without
/// quote marks or backslashes is written as it is, between quote marks. How other
/// characters are escaped is left unsaid.
#[verifier::external_body]
fn debug_str(s: &String) -> (r: String)
    ensures
        r@ == str_debug(s@),
        plain_text(s@) ==> r@ == seq!['"'] + s@ + seq!['"'],
{
    format!("{:?}", s)
}

/// What `{:?}` writes for a character: std's `Debug` for `char`.
pub uninterp spec fn char_debug(c: char) -> Seq<char>;

/// A printable ASCII character other than a quote mark or a backslash, which `{:?}` leaves as
/// it is.
pub open spec fn plain_char(c: char) -> bool {
    &&& 0x20 <= (c as u32) < 0x7f
    &&& c != '"' && c != '\\' && c != '\''
}

/// Formats a character as `{:?}` does, through std's `Debug` for `char`. The contract names
/// the result, and states that a printable ASCII character other than a quote mark or a
/// backslash is written as it is, between single quote marks. How other characters are
/// escaped is left unsaid.
#[verifier::external_body]
fn debug_char(c: char) -> (r: String)
    ensures
        r@ == char_debug(c),
        plain_char(c) ==> r@ == seq!['\'', c, '\''],
{
    format!("{:?}", c)
}

/// The items with `sep` between each two of them.
pub open spec fn sep_joined(items: Seq<Seq<char>>, sep: Seq<char>) -> Seq<char>
    decreases items.len(),
{
    if items.len() == 0 {
        Seq::empty()
    } else if items.len() == 1 {
        items[0]
    } else {
        sep_joined(items.drop_last(), sep) + sep + items.last()
    }
}

/// A list as `{:?}` writes it: its items between square brackets, separated by ", ".
pub open spec fn list_text(items: Seq<Seq<char>>) -> Seq<char> {
    "["@ + sep_joined(items, ", "@) + "]"@
}

/// A list of strings as `{:?}` writes it.
pub open spec fn strs_debug(v: Seq<Seq<char>>) -> Seq<char> {
    list_text(v.map_values(|s: Seq<char>| str_debug(s)))
}

/// A list of numbers as `{:?}` writes it.
pub open spec fn usizes_debug(v: Seq<usize>) -> Seq<char> {
    list_text(v.map_values(|n: usize| decimal(n as nat)))
}

/// The texts joined with `sep` between each two of them.
pub fn join_strings(items: &Vec<String>, sep: &str) -> (r: String)
    ensures
        r@ == sep_joined(strs_view(items@), sep@),
{
    let ghost all = strs_view(items@);
    let mut r = String::new();
    let mut i: usize = 0;
    while i < items.len()
        invariant
            i <= items@.len(),
            all == strs_view(items@),
            r@ == sep_joined(all.take(i as int), sep@),
        decreases items@.len() - i,
    {
        let ghost prev = all.take(i as int);
        if i > 0 {
            r = text::concat_str(&r, sep);
        }
        r = text::concat(&r, &items[i]);
        proof {
            let next = all.take(i + 1);
            assert(next.drop_last() =~= prev);
            assert(next.last() == items@[i as int]@);
            if i == 0 {
                assert(r@ =~= next[0]);
            }
        }
        i = i + 1;
    }
    assert(all.take(items@.len() as int) =~= all);
    r
}

/// The texts as a list, as `{:?}` writes a list: between square brackets, separated by ", ".
pub fn list_of(items: &Vec<String>) -> (r: String)
    ensures
        r@ == list_text(strs_view(items@)),
{
    let body = join_strings(items, ", ");
    text::concat_str(&text::concat(&text::lit("["), &body), "]")
}

/// A list of strings as `{:?}` writes it.
pub fn strings_debug(v: &Vec<String>) -> (r: String)
    ensures
        r@ == strs_debug(strs_view(v@)),
{
    let mut items: Vec<String> = Vec::new();
    let mut i: usize = 0;
    while i < v.len()
        invariant
            i <= v@.len(),
            items@.len() == i,
            forall|k: int| 0 <= k < i ==> #[trigger] items@[k]@ == str_debug(v@[k]@),
        decreases v@.len() - i,
    {
        items.push(debug_str(&v[i]));
        i = i + 1;
    }
    assert(strs_view(items@) =~= strs_view(v@).map_values(|s: Seq<char>| str_debug(s)));
    list_of(&items)
}

/// A list of numbers as `{:?}` writes it.
pub fn usizes_to_debug(v: &Vec<usize>) -> (r: String)
    ensures
        r@ == usizes_debug(v@),
{
    let mut items: Vec<String> = Vec::new();
    let mut i: usize = 0;
    while i < v.len()
        invariant
            i <= v@.len(),
            items@.len() == i,
            forall|k: int| 0 <= k < i ==> #[trigger] items@[k]@ == decimal(v@[k] as nat),
        decreases v@.len() - i,
    {
        items.push(text::usize_to_string(v[i]));
        i = i + 1;
    }
    assert(strs_view(items@) =~= v@.map_values(|n: usize| decimal(n as nat)));
    list_of(&items)
}

/// An argument modifier as `{:?}` writes it.
pub open spec fn mod_debug(m: ArgModifierV) -> Seq<char> {
    match m {
        ArgModifierV::Arg(s) => "Arg("@ + str_debug(s) + ")"@,
        ArgModifierV::FnArg(v) => "FnArg("@ + strs_debug(v) + ")"@,
        ArgModifierV::Plain => "None"@,
    }
}

/// A list of argument modifiers as `{:?}` writes it.
pub open spec fn mods_debug(v: Seq<ArgModifierV>) -> Seq<char> {
    list_text(v.map_values(|m: ArgModifierV| mod_debug(m)))
}

/// The debugging text of an element's info: its kind and the values it holds.
pub open spec fn info_debug(i: InfoV) -> Seq<char> {
    match i {
        InfoV::Root => "Root"@,
        InfoV::List(rt) => "List ("@ + rt + ")"@,
        InfoV::CommentSingleLine(c) => "Comment: "@ + c,
        InfoV::Int(v) => "Int: "@ + v,
        InfoV::Float(v) => "Float: "@ + v,
        InfoV::String(v) => "String: "@ + v,
        InfoV::Bool(v) => "Bool: "@ + v,
        InfoV::Arg(name, scope, m, rt) => "Arg: "@ + name + " scope:"@ + decimal(scope) + " argmodifier:("@ + mod_debug(m) + ") ("@ + rt + ")"@,
        InfoV::Struct(name, keys, types) => "Struct: "@ + name + " keys: "@ + strs_debug(keys) + " keytypes: "@ + strs_debug(types),
        InfoV::StructEdit(name, keys) => "StructEdit: "@ + name + " keys: "@ + strs_debug(keys),
        InfoV::Constant(name, rt) => "Constant: "@ + name + " ("@ + rt + ")"@,
        InfoV::ConstantRef(name, rt, r) => "ConstantRef: "@ + name + " ("@ + rt + ")"@ + " for \""@ + r + "\""@,
        InfoV::Assignment => "Assignment"@,
        InfoV::InbuiltFunctionDef(name, _, types, mods, rt, _) => "InbuiltFunctionDef: \""@ + name + "\" argtypes("@ + strs_debug(types)
            + ") argmodifiers("@ + mods_debug(mods) + ") -> ("@ + rt + ")"@,
        InfoV::InbuiltFunctionCall(name, _, rt) => "InbuiltFunctionCall: "@ + name + " ("@ + rt + ")"@,
        InfoV::FunctionDefWIP => "FunctionDefWIP"@,
        InfoV::FunctionDef(name, names, types, rt) => "FunctionDef: "@ + name + " ("@ + pairs_text(names, types, empties(names.len()), names.len())
            + ")"@ + " -> ("@ + rt + ")"@,
        InfoV::FunctionCall(name, rt) => "FunctionCall: "@ + name + " ("@ + rt + ")"@,
        InfoV::Parens => "Parens"@,
        InfoV::Eol => "Eol"@,
        InfoV::Seol => "Seol"@,
        InfoV::Indent => "Indent"@,
        InfoV::Type(name) => "Type: "@ + name,
        InfoV::Unused => "Unused"@,
        InfoV::LoopForRangeWIP => "LoopForRangeWIP"@,
        InfoV::LoopForRange(name, from, to) => "Loop For "@ + name + " in "@ + decimal(from as nat) + " to "@ + decimal(to as nat),
        InfoV::Println => "Println"@,
        InfoV::If(rt) => "If ("@ + rt + ")"@,
    }
}

/// A function definition's info has a type for each argument name (which its text needs).
pub open spec fn info_debuggable(i: InfoV) -> bool {
    i matches InfoV::FunctionDef(_, names, types, _) ==> types.len() >= names.len()
}

/// A list of argument modifiers as `{:?}` writes it.
fn modifiers_debug(v: &Vec<ArgModifier>) -> (r: String)
    ensures
        r@ == mods_debug(mods_view(v@)),
{
    let mut items: Vec<String> = Vec::new();
    let mut i: usize = 0;
    while i < v.len()
        invariant
            i <= v@.len(),
            items@.len() == i,
            forall|k: int| 0 <= k < i ==> #[trigger] items@[k]@ == mod_debug(v@[k]@),
        decreases v@.len() - i,
    {
        items.push(modifier_debug(&v[i]));
        i = i + 1;
    }
    assert(strs_view(items@) =~= mods_view(v@).map_values(|m: ArgModifierV| mod_debug(m)));
    list_of(&items)
}

/// `n` empty strings.
fn empty_strings(n: usize) -> (v: Vec<String>)
    ensures
        v@.len() == n,
        strs_view(v@) == empties(n as nat),
{
    let mut v: Vec<String> = Vec::new();
    let mut i: usize = 0;
    while i < n
        invariant
            i <= n,
            v@.len() == i,
            forall|k: int| 0 <= k < i ==> #[trigger] v@[k]@ == Seq::<char>::empty(),
        decreases n - i,
    {
        v.push(String::new());
        i = i + 1;
    }
    assert(strs_view(v@) =~= empties(n as nat));
    v
}

/// `a`, then `b` between round brackets.
fn with_brackets(a: &str, b: &String) -> (r: String)
    ensures
        r@ == a@ + " ("@ + b@ + ")"@,
{
    text::concat_str(&text::concat(&text::concat_str(&text::lit(a), " ("), b), ")")
}

impl ElementInfo {
    /// The debugging text of the info: its kind and the values it holds (see `info_debug`).
    pub fn debug_text(&self) -> (r: String)
        requires
            info_debuggable(self@),
        ensures
            r@ == info_debug(self@),
    {
        match self {
            ElementInfo::Root => {
                let t = text::lit("Root");
                assert(t@ =~= info_debug(self@));
                t
            },
            ElementInfo::List(rt) => {
                let t = text::concat_str(&text::concat(&text::lit("List ("), rt), ")");
                assert(t@ =~= info_debug(self@));
                t
            },
            ElementInfo::CommentSingleLine(c) => {
                let t = text::concat(&text::lit("Comment: "), c);
                assert(t@ =~= info_debug(self@));
                t
            },
            ElementInfo::Int(v) => {
                let t = text::concat(&text::lit("Int: "), v);
                assert(t@ =~= info_debug(self@));
                t
            },
            ElementInfo::Float(v) => {
                let t = text::concat(&text::lit("Float: "), v);
                assert(t@ =~= info_debug(self@));
                t
            },
            ElementInfo::String(v) => {
                let t = text::concat(&text::lit("String: "), v);
                assert(t@ =~= info_debug(self@));
                t
            },
            ElementInfo::Bool(v) => {
                let t = text::concat(&text::lit("Bool: "), v);
                assert(t@ =~= info_debug(self@));
                t
            },
            ElementInfo::Arg(name, scope, m, rt) => {
                let ms = modifier_debug(m);
                let a = text::concat_str(&text::concat(&text::lit("Arg: "), name), " scope:");
                let b = text::concat_str(&text::concat(&a, &text::usize_to_string(*scope)), " argmodifier:(");
                let c = text::concat_str(&text::concat(&b, &ms), ") (");
                let t = text::concat_str(&text::concat(&c, rt), ")");
                assert(t@ =~= info_debug(self@));
                t
            },
            ElementInfo::Struct(name, keys, types) => {
                let a = text::concat_str(&text::concat(&text::lit("Struct: "), name), " keys: ");
                let b = text::concat_str(&text::concat(&a, &strings_debug(keys)), " keytypes: ");
                let t = text::concat(&b, &strings_debug(types));
                assert(t@ =~= info_debug(self@));
                t
            },
            ElementInfo::StructEdit(name, keys) => {
                let a = text::concat_str(&text::concat(&text::lit("StructEdit: "), name), " keys: ");
                let t = text::concat(&a, &strings_debug(keys));
                assert(t@ =~= info_debug(self@));
                t
            },
            ElementInfo::Constant(name, rt) => {
                let t = with_brackets(&text::concat(&text::lit("Constant: "), name), rt);
                assert(t@ =~= info_debug(self@));
                t
            },
            ElementInfo::ConstantRef(name, rt, r) => {
                let a = with_brackets(&text::concat(&text::lit("ConstantRef: "), name), rt);
                let t = text::concat_str(&text::concat(&text::concat_str(&a, " for \""), r), "\"");
                assert(t@ =~= info_debug(self@));
                t
            },
            ElementInfo::Assignment => {
                let t = text::lit("Assignment");
                assert(t@ =~= info_debug(self@));
                t
            },
            ElementInfo::InbuiltFunctionDef(name, _, types, mods, rt, _) => {
                let a = text::concat_str(&text::concat(&text::lit("InbuiltFunctionDef: \""), name), "\" argtypes(");
                let b = text::concat_str(&text::concat(&a, &strings_debug(types)), ") argmodifiers(");
                let c = text::concat_str(&text::concat(&b, &modifiers_debug(mods)), ") -> (");
                let t = text::concat_str(&text::concat(&c, rt), ")");
                assert(t@ =~= info_debug(self@));
                t
            },
            ElementInfo::InbuiltFunctionCall(name, _, rt) => {
                let t = with_brackets(&text::concat(&text::lit("InbuiltFunctionCall: "), name), rt);
                assert(t@ =~= info_debug(self@));
                t
            },
            ElementInfo::FunctionDefWIP => {
                let t = text::lit("FunctionDefWIP");
                assert(t@ =~= info_debug(self@));
                t
            },
            ElementInfo::FunctionDef(name, names, types, rt) => {
                let mods = empty_strings(names.len());
                let args = formatting::get_formatted_argname_argtype_pairs(names, types, &mods);
                let a = with_brackets(&text::concat(&text::lit("FunctionDef: "), name), &args);
                let t = text::concat_str(&text::concat(&text::concat_str(&a, " -> ("), rt), ")");
                assert(t@ =~= info_debug(self@));
                t
            },
            ElementInfo::FunctionCall(name, rt) => {
                let t = with_brackets(&text::concat(&text::lit("FunctionCall: "), name), rt);
                assert(t@ =~= info_debug(self@));
                t
            },
            ElementInfo::Parens => {
                let t = text::lit("Parens");
                assert(t@ =~= info_debug(self@));
                t
            },
            ElementInfo::Eol => {
                let t = text::lit("Eol");
                assert(t@ =~= info_debug(self@));
                t
            },
            ElementInfo::Seol => {
                let t = text::lit("Seol");
                assert(t@ =~= info_debug(self@));
                t
            },
            ElementInfo::Indent => {
                let t = text::lit("Indent");
                assert(t@ =~= info_debug(self@));
                t
            },
            ElementInfo::Type(name) => {
                let t = text::concat(&text::lit("Type: "), name);
                assert(t@ =~= info_debug(self@));
                t
            },
            ElementInfo::Unused => {
                let t = text::lit("Unused");
                assert(t@ =~= info_debug(self@));
                t
            },
            ElementInfo::LoopForRangeWIP => {
                let t = text::lit("LoopForRangeWIP");
                assert(t@ =~= info_debug(self@));
                t
            },
            ElementInfo::LoopForRange(name, from, to) => {
                let a = text::concat_str(&text::concat(&text::lit("Loop For "), name), " in ");
                let b = text::concat_str(&text::concat(&a, &text::usize_to_string(*from)), " to ");
                let t = text::concat(&b, &text::usize_to_string(*to));
                assert(t@ =~= info_debug(self@));
                t
            },
            ElementInfo::Println => {
                let t = text::lit("Println");
                assert(t@ =~= info_debug(self@));
                t
            },
            ElementInfo::If(rt) => {
                let t = text::concat_str(&text::concat(&text::lit("If ("), rt), ")");
                assert(t@ =~= info_debug(self@));
                t
            },
        }
    }
}

/// An argument modifier as `{:?}` writes it.
fn modifier_debug(m: &ArgModifier) -> (r: String)
    ensures
        r@ == mod_debug(m@),
{
    match m {
        ArgModifier::Arg(s) => text::concat_str(&text::concat(&text::lit("Arg("), &debug_str(s)), ")"),
        ArgModifier::FnArg(fa) => text::concat_str(&text::concat(&text::lit("FnArg("), &strings_debug(fa)), ")"),
        ArgModifier::Plain => text::lit("None"),
    }
}

/// Numbers as `debug_flat_usize_array` lists them: each followed by ", ".
pub open spec fn flat_items(v: Seq<usize>) -> Seq<char>
    decreases v.len(),
{
    if v.len() == 0 {
        Seq::empty()
    } else {
        flat_items(v.drop_last()) + decimal(v.last() as nat) + ", "@
    }
}

/// Numbers as `debug_flat_usize_array` writes them: "[ ", each number followed by ", ", "]".
pub open spec fn flat_text(v: Seq<usize>) -> Seq<char> {
    "[ "@ + flat_items(v) + "]"@
}

/// Writes numbers as "[ 1, 2, ]".
pub fn debug_flat_usize_array(arr: &Vec<usize>) -> (r: String)
    ensures
        r@ == flat_text(arr@),
{
    let mut items = String::new();
    let mut i: usize = 0;
    while i < arr.len()
        invariant
            i <= arr@.len(),
            items@ == flat_items(arr@.take(i as int)),
        decreases arr@.len() - i,
    {
        items = text::concat_str(&text::concat(&items, &text::usize_to_string(arr[i])), ", ");
        proof {
            assert(arr@.take(i + 1).drop_last() =~= arr@.take(i as int));
        }
        i = i + 1;
    }
    assert(arr@.take(arr@.len() as int) =~= arr@);
    text::concat_str(&text::concat(&text::lit("[ "), &items), "]")
}

/// Every function definition has a type for each argument name.
pub open spec fn els_debuggable(els: Seq<(InfoV, Seq<usize>)>) -> bool {
    forall|i: int| 0 <= i < els.len() ==> info_debuggable(#[trigger] els[i].0)
}

/// One line per element, up to the `k`th: its index (after a space when it has one digit),
/// its info's text and its children.
pub open spec fn element_lines(els: Seq<(InfoV, Seq<usize>)>, k: nat) -> Seq<char>
    decreases k,
{
    if k == 0 || k > els.len() {
        Seq::empty()
    } else {
        let i = (k - 1) as nat;
        element_lines(els, i) + (if i > 9 { ""@ } else { " "@ }) + decimal(i) + ": "@ + info_debug(els[i as int].0) + " "@
            + flat_text(els[i as int].1) + "\r\n"@
    }
}

/// The lines of the elements' debugging text (see `element_lines`).
fn element_lines_text(els: &Elements) -> (r: String)
    requires
        els_debuggable(crate::ast::elements::els_view(els@)),
    ensures
        r@ == element_lines(crate::ast::elements::els_view(els@), els@.len()),
{
    let ghost ev = crate::ast::elements::els_view(els@);
    let mut r = String::new();
    let mut i: usize = 0;
    while i < els.len()
        invariant
            i <= els@.len(),
            ev == crate::ast::elements::els_view(els@),
            els_debuggable(ev),
            r@ == element_lines(ev, i as nat),
        decreases els@.len() - i,
    {
        assert(info_debuggable(ev[i as int].0));
        let info = els[i].0.debug_text();
        let children = debug_flat_usize_array(&els[i].1);
        let pad = if i > 9 { String::new() } else { text::lit(" ") };
        let a = text::concat_str(&text::concat(&text::concat(&r, &pad), &text::usize_to_string(i)), ": ");
        let b = text::concat_str(&text::concat(&a, &info), " ");
        r = text::concat_str(&text::concat(&b, &children), "\r\n");
        proof {
            assert(ev[i as int].0 == els@[i as int].0@);
            assert(ev[i as int].1 == els@[i as int].1@);
            if i > 9 {
                assert(pad@ == ""@) by {
                    reveal_strlit("");
                }
            }
        }
        i = i + 1;
    }
    r
}

/// The debugging text of a list of elements: one line per element (see `element_lines`).
pub open spec fn elements_debug(els: Seq<(InfoV, Seq<usize>)>) -> Seq<char> {
    "Custom Debug of Elements [\r\nElements:\r\n"@ + element_lines(els, els.len()) + "\r\n]"@
}

/// A list of elements, to be written out for debugging.
pub struct DebugElements<'a>(pub &'a Elements);

impl<'a> DebugElements<'a> {
    /// The debugging text of the elements (see `elements_debug`).
    pub fn text(&self) -> (r: String)
        requires
            els_debuggable(crate::ast::elements::els_view(self.0@)),
        ensures
            r@ == elements_debug(crate::ast::elements::els_view(self.0@)),
    {
        let lines = element_lines_text(self.0);
        text::concat_str(&text::concat(&text::lit("Custom Debug of Elements [\r\nElements:\r\n"), &lines), "\r\n]")
    }
}

/// The debugging text of an AST: its elements, parents, output stack and output.
pub open spec fn ast_debug(ast: &Ast) -> Seq<char> {
    "Custom Debug of Ast [\r\nElements:\r\n"@ + element_lines(ast.els(), ast.els().len()) + "Parents: "@ + flat_text(ast.parents@)
        + "\r\nOutput_stack: "@ + usizes_debug(ast.output_stack@) + "\r\nOutput: \r\n"@ + str_debug(ast.output@) + "\r\n]"@
}

/// What a log entry records of the AST: its elements, parents, output stack, and both
/// outputs.
pub open spec fn history_entry(ast: &Ast) -> Seq<char> {
    elements_debug(ast.els()) + "\r\n\r\nParents:\r\n"@ + usizes_debug(ast.parents@) + "\r\n\r\nOutput_stack:\r\n"@
        + usizes_debug(ast.output_stack@) + "\r\n\r\nPre-main Output:\r\n"@ + str_debug(ast.premain_output@) + "r\n\r\nOutput:\r\n"@
        + str_debug(ast.output@)
}

impl Ast {
    /// Whether every function definition has a type for each argument name, which the
    /// debugging texts of the elements need (see `els_debuggable`).
    pub fn is_debuggable(&self) -> (b: bool)
        ensures
            b == els_debuggable(self.els()),
    {
        let mut i: usize = 0;
        while i < self.elements.len()
            invariant
                i <= self.elements@.len(),
                forall|k: int| 0 <= k < i ==> info_debuggable(#[trigger] self.els()[k].0),
            decreases self.elements@.len() - i,
        {
            if let ElementInfo::FunctionDef(_, names, types, _) = &self.elements[i].0 {
                if types.len() < names.len() {
                    assert(!info_debuggable(self.els()[i as int].0));
                    return false;
                }
            }
            assert(info_debuggable(self.els()[i as int].0));
            i = i + 1;
        }
        true
    }

    /// The debugging text of the AST (see `ast_debug`).
    pub fn debug_text(&self) -> (r: String)
        requires
            els_debuggable(self.els()),
        ensures
            r@ == ast_debug(self),
    {
        let lines = element_lines_text(&self.elements);
        let a = text::concat(&text::lit("Custom Debug of Ast [\r\nElements:\r\n"), &lines);
        let b = text::concat(&text::concat_str(&a, "Parents: "), &debug_flat_usize_array(&self.parents));
        let c = text::concat(&text::concat_str(&b, "\r\nOutput_stack: "), &usizes_to_debug(&self.output_stack));
        let d = text::concat(&text::concat_str(&c, "\r\nOutput: \r\n"), &debug_str(&self.output));
        text::concat_str(&d, "\r\n]")
    }

    /// In debug mode, records a log line and, with it, the state of the AST (see
    /// `history_entry`); otherwise does nothing.
    pub fn log(&mut self, string: String)
        requires
            els_debuggable(old(self).els()),
        ensures
            final(self).elements == old(self).elements,
            final(self).output == old(self).output,
            final(self).output_stack == old(self).output_stack,
            final(self).premain_output == old(self).premain_output,
            final(self).parents == old(self).parents,
            final(self).debug == old(self).debug,
            old(self).debug ==> {
                &&& final(self).logs@.len() == old(self).logs@.len() + 1
                &&& final(self).logs@.drop_last() == old(self).logs@
                &&& final(self).logs@.last().0@ == string@
                &&& crate::token_view(final(self).logs@.last().1) == (Seq::<char>::empty(), 0usize, 0usize, 0usize)
                &&& final(self).debug_compiler_history@.len() == old(self).debug_compiler_history@.len() + 1
                &&& final(self).debug_compiler_history@.drop_last() == old(self).debug_compiler_history@
                &&& final(self).debug_compiler_history@.last()@ == history_entry(old(self))
            },
            !old(self).debug ==> final(self).logs == old(self).logs && final(self).debug_compiler_history == old(self).debug_compiler_history,
    {
        if self.debug {
            let entry = DebugElements(&self.elements).text();
            let a = text::concat(&text::concat_str(&entry, "\r\n\r\nParents:\r\n"), &usizes_to_debug(&self.parents));
            let b = text::concat(&text::concat_str(&a, "\r\n\r\nOutput_stack:\r\n"), &usizes_to_debug(&self.output_stack));
            let c = text::concat(&text::concat_str(&b, "\r\n\r\nPre-main Output:\r\n"), &debug_str(&self.premain_output));
            let d = text::concat(&text::concat_str(&c, "r\n\r\nOutput:\r\n"), &debug_str(&self.output));
            let ghost logs0 = self.logs@;
            let ghost hist0 = self.debug_compiler_history@;
            self.logs.push((string, (String::new(), 0, 0, 0)));
            self.debug_compiler_history.push(d);
            assert(self.logs@.drop_last() =~= logs0);
            assert(self.debug_compiler_history@.drop_last() =~= hist0);
        }
    }
}

/// A larger number has at least as many digits.
proof fn lemma_decimal_len_mono(a: nat, b: nat)
    requires
        a <= b,
    ensures
        decimal(a).len() <= decimal(b).len(),
    decreases b,
{
    if b >= 10 {
        if a >= 10 {
            lemma_decimal_len_mono(a / 10, b / 10);
        } else {
            lemma_decimal_len_mono(1, b / 10);
        }
    }
}

/// The number of decimal digits of a number.
pub fn num_digits(num: usize) -> (n: usize)
    ensures
        n == decimal(num as nat).len(),
{
    let mut n: usize = 1;
    let mut rest: usize = num;
    while rest >= 10
        invariant
            1 <= n <= 1 + num - rest,
            rest <= num,
            n + decimal(rest as nat).len() - 1 == decimal(num as nat).len(),
        decreases rest,
    {
        proof {
            lemma_decimal_len_mono(1, (rest / 10) as nat);
        }
        rest = rest / 10;
        n = n + 1;
    }
    n
}

/// The spaces that put `index` in line with the numbers up to `total`: one for each digit
/// that `index` has fewer than `total`.
pub fn left_pad(total: usize, index: usize) -> (r: String)
    requires
        decimal(index as nat).len() <= decimal(total as nat).len(),
    ensures
        r@ == repeat(" "@, (decimal(total as nat).len() - decimal(index as nat).len()) as nat),
{
    let digits = num_digits(total);
    let num = num_digits(index);
    text::repeat_str(" ", digits - num)
}

/// A text without its first and its last character (empty when it has fewer than two).
pub open spec fn trimmed_ends(s: Seq<char>) -> Seq<char> {
    if s.len() < 2 {
        Seq::empty()
    } else {
        s.subrange(1, s.len() - 1)
    }
}

/// The text without its first and its last character.
pub fn rem_first_and_last(value: &str) -> (r: String)
    ensures
        r@ == trimmed_ends(value@),
{
    let owned = text::lit(value);
    let chars = text::chars_of(&owned);
    if chars.len() < 2 {
        String::new()
    } else {
        text::string_from_chars(vstd::slice::slice_subrange(chars.as_slice(), 1, chars.len() - 1))
    }
}

/// Numbered lines, up to the `k`th: each on a new line, indented by two spaces, with its
/// number padded to the width of `total`, a colon and a comma after the item.
pub open spec fn numbered_lines(items: Seq<Seq<char>>, total: nat, k: nat) -> Seq<char>
    decreases k,
{
    if k == 0 || k > items.len() {
        Seq::empty()
    } else {
        let i = (k - 1) as nat;
        numbered_lines(items, total, i) + "\r\n  "@ + repeat(" "@, (decimal(total).len() - decimal(i).len()) as nat) + decimal(i) + ": "@
            + items[i as int] + ","@
    }
}

/// The numbered lines of the items (see `numbered_lines`), numbered against their count.
fn numbered_text(items: &Vec<String>) -> (r: String)
    ensures
        r@ == numbered_lines(strs_view(items@), items@.len() as nat, items@.len() as nat),
{
    let ghost iv = strs_view(items@);
    let n = items.len();
    let mut r = String::new();
    let mut i: usize = 0;
    while i < n
        invariant
            n == items@.len(),
            iv == strs_view(items@),
            i <= n,
            r@ == numbered_lines(iv, n as nat, i as nat),
        decreases n - i,
    {
        proof {
            lemma_decimal_len_mono(i as nat, n as nat);
        }
        let spaces = left_pad(n, i);
        let a = text::concat(&text::concat(&text::concat_str(&r, "\r\n  "), &spaces), &text::usize_to_string(i));
        r = text::concat_str(&text::concat(&text::concat_str(&a, ": "), &items[i]), ",");
        i = i + 1;
    }
    r
}

/// The messages of an error stack (or of the logs), as plain text.
pub open spec fn messages(v: Seq<(String, Token)>) -> Seq<Seq<char>> {
    v.map_values(|e: (String, Token)| e.0@)
}

/// An error stack, to be written out for debugging.
pub struct DebugErrorStack<'a>(pub &'a ErrorStack);

impl<'a> DebugErrorStack<'a> {
    /// One numbered line per error, with its message less the first and last characters.
    pub fn text(&self) -> (r: String)
        ensures
            r@ == "Custom Debug of ErrorStack ["@ + numbered_lines(
                messages(self.0@).map_values(|m: Seq<char>| trimmed_ends(m)),
                self.0@.len() as nat,
                self.0@.len() as nat,
            ) + "\r\n]"@,
    {
        let mut items: Vec<String> = Vec::new();
        let mut i: usize = 0;
        while i < self.0.len()
            invariant
                i <= self.0@.len(),
                items@.len() == i,
                forall|k: int| 0 <= k < i ==> #[trigger] items@[k]@ == trimmed_ends(self.0@[k].0@),
            decreases self.0@.len() - i,
        {
            items.push(rem_first_and_last(self.0[i].0.as_str()));
            i = i + 1;
        }
        assert(strs_view(items@) =~= messages(self.0@).map_values(|m: Seq<char>| trimmed_ends(m)));
        let body = numbered_text(&items);
        text::concat_str(&text::concat(&text::lit("Custom Debug of ErrorStack ["), &body), "\r\n]")
    }
}

/// The logs, to be written out for debugging.
pub struct DebugLogs<'a>(pub &'a ErrorStack);

impl<'a> DebugLogs<'a> {
    /// One numbered line per log entry, with its message.
    pub fn text(&self) -> (r: String)
        ensures
            r@ == "Custom Debug of Logs\r\n"@ + numbered_lines(messages(self.0@), self.0@.len() as nat, self.0@.len() as nat),
    {
        let mut items: Vec<String> = Vec::new();
        let mut i: usize = 0;
        while i < self.0.len()
            invariant
                i <= self.0@.len(),
                items@.len() == i,
                forall|k: int| 0 <= k < i ==> #[trigger] items@[k]@ == self.0@[k].0@,
            decreases self.0@.len() - i,
        {
            items.push(self.0[i].0.clone());
            i = i + 1;
        }
        assert(strs_view(items@) =~= messages(self.0@));
        let body = numbered_text(&items);
        text::concat(&text::lit("Custom Debug of Logs\r\n"), &body)
    }
}

/// A character and its position as `{:?}` writes the pair.
pub open spec fn position_debug(p: CharPosition) -> Seq<char> {
    "("@ + char_debug(p.0) + ", "@ + decimal(p.1 as nat) + ")"@
}

/// A token as `{:?}` writes it: its text, line, start and end.
pub open spec fn token_debug(t: Token) -> Seq<char> {
    "("@ + str_debug(t.0@) + ", "@ + decimal(t.1 as nat) + ", "@ + decimal(t.2 as nat) + ", "@ + decimal(t.3 as nat) + ")"@
}

/// A line of characters as `{:?}` writes it.
pub open spec fn char_line_debug(line: Seq<CharPosition>) -> Seq<char> {
    list_text(line.map_values(|p: CharPosition| position_debug(p)))
}

/// A line of tokens as `{:?}` writes it.
pub open spec fn token_line_debug(line: Seq<Token>) -> Seq<char> {
    list_text(line.map_values(|t: Token| token_debug(t)))
}

/// A line of characters as `{:?}` writes it.
fn char_line_text(line: &Vec<CharPosition>) -> (r: String)
    ensures
        r@ == char_line_debug(line@),
{
    let mut items: Vec<String> = Vec::new();
    let mut i: usize = 0;
    while i < line.len()
        invariant
            i <= line@.len(),
            items@.len() == i,
            forall|k: int| 0 <= k < i ==> #[trigger] items@[k]@ == position_debug(line@[k]),
        decreases line@.len() - i,
    {
        let (c, col) = line[i];
        let a = text::concat_str(&text::concat(&text::lit("("), &debug_char(c)), ", ");
        items.push(text::concat_str(&text::concat(&a, &text::usize_to_string(col)), ")"));
        i = i + 1;
    }
    assert(strs_view(items@) =~= line@.map_values(|p: CharPosition| position_debug(p)));
    list_of(&items)
}

/// A line of tokens as `{:?}` writes it.
fn token_line_text(line: &Vec<Token>) -> (r: String)
    ensures
        r@ == token_line_debug(line@),
{
    let mut items: Vec<String> = Vec::new();
    let mut i: usize = 0;
    while i < line.len()
        invariant
            i <= line@.len(),
            items@.len() == i,
            forall|k: int| 0 <= k < i ==> #[trigger] items@[k]@ == token_debug(line@[k]),
        decreases line@.len() - i,
    {
        let t = &line[i];
        let a = text::concat_str(&text::concat(&text::lit("("), &debug_str(&t.0)), ", ");
        let b = text::concat_str(&text::concat(&a, &text::usize_to_string(t.1)), ", ");
        let c = text::concat_str(&text::concat(&b, &text::usize_to_string(t.2)), ", ");
        items.push(text::concat_str(&text::concat(&c, &text::usize_to_string(t.3)), ")"));
        i = i + 1;
    }
    assert(strs_view(items@) =~= line@.map_values(|t: Token| token_debug(t)));
    list_of(&items)
}

/// Lines of characters, to be written out for debugging.
pub struct DebugLinesOfChars<'a>(pub &'a LinesOfChars);

impl<'a> DebugLinesOfChars<'a> {
    /// One numbered line per line of characters, as `{:?}` writes it.
    pub fn text(&self) -> (r: String)
        ensures
            r@ == "Custom Debug of LinesOfChars ["@ + numbered_lines(
                self.0@.map_values(|l: Vec<CharPosition>| char_line_debug(l@)),
                self.0@.len() as nat,
                self.0@.len() as nat,
            ) + "\r\n]"@,
    {
        let mut items: Vec<String> = Vec::new();
        let mut i: usize = 0;
        while i < self.0.len()
            invariant
                i <= self.0@.len(),
                items@.len() == i,
                forall|k: int| 0 <= k < i ==> #[trigger] items@[k]@ == char_line_debug(self.0@[k]@),
            decreases self.0@.len() - i,
        {
            items.push(char_line_text(&self.0[i]));
            i = i + 1;
        }
        assert(strs_view(items@) =~= self.0@.map_values(|l: Vec<CharPosition>| char_line_debug(l@)));
        let body = numbered_text(&items);
        text::concat_str(&text::concat(&text::lit("Custom Debug of LinesOfChars ["), &body), "\r\n]")
    }
}

/// Lines of tokens, to be written out for debugging.
pub struct DebugLinesOfTokens<'a>(pub &'a LinesOfTokens);

impl<'a> DebugLinesOfTokens<'a> {
    /// One numbered line per line of tokens, as `{:?}` writes it.
    pub fn text(&self) -> (r: String)
        ensures
            r@ == "Custom Debug of LinesOfTokens ["@ + numbered_lines(
                self.0@.map_values(|l: Vec<Token>| token_line_debug(l@)),
                self.0@.len() as nat,
                self.0@.len() as nat,
            ) + "\r\n]"@,
    {
        let mut items: Vec<String> = Vec::new();
        let mut i: usize = 0;
        while i < self.0.len()
            invariant
                i <= self.0@.len(),
                items@.len() == i,
                forall|k: int| 0 <= k < i ==> #[trigger] items@[k]@ == token_line_debug(self.0@[k]@),
            decreases self.0@.len() - i,
        {
            items.push(token_line_text(&self.0[i]));
            i = i + 1;
        }
        assert(strs_view(items@) =~= self.0@.map_values(|l: Vec<Token>| token_line_debug(l@)));
        let body = numbered_text(&items);
        text::concat_str(&text::concat(&text::lit("Custom Debug of LinesOfTokens ["), &body), "\r\n]")
    }
}

/// The lines of tokens as the editor extension reads them: as `{:?}` writes them, with every
/// round bracket made a square one.
pub open spec fn tokens_json(lines: Seq<Vec<Token>>) -> Seq<char> {
    let debug = list_text(lines.map_values(|l: Vec<Token>| token_line_debug(l@)));
    text::replace_all(text::replace_all(debug, "("@, "["@), ")"@, "]"@)
}

impl Compiler {
    /// The lines of tokens as the editor extension reads them (see `tokens_json`).
    pub fn lines_of_tokens_json(&self) -> (r: String)
        ensures
            r@ == tokens_json(self.lines_of_tokens@),
    {
        let mut items: Vec<String> = Vec::new();
        let mut i: usize = 0;
        while i < self.lines_of_tokens.len()
            invariant
                i <= self.lines_of_tokens@.len(),
                items@.len() == i,
                forall|k: int| 0 <= k < i ==> #[trigger] items@[k]@ == token_line_debug(self.lines_of_tokens@[k]@),
            decreases self.lines_of_tokens@.len() - i,
        {
            items.push(token_line_text(&self.lines_of_tokens[i]));
            i = i + 1;
        }
        assert(strs_view(items@) =~= self.lines_of_tokens@.map_values(|l: Vec<Token>| token_line_debug(l@)));
        let debug = list_of(&items);
        proof {
            reveal_strlit("(");
            reveal_strlit(")");
        }
        let a = text::replace_str(&debug, &text::lit("("), &text::lit("["));
        text::replace_str(&a, &text::lit(")"), &text::lit("]"))
    }
}

/// The tree under the element at `i`, written `level` levels deep (two spaces each) as
/// `ElementsVec` writes it: each element on its own line (an indent as "..."), its children
/// between braces; `fuel` bounds the depth.
pub open spec fn subtree_text(els: Seq<(InfoV, Seq<usize>)>, i: int, level: nat, fuel: nat) -> Seq<char>
    decreases fuel, 0nat, 0nat,
{
    if fuel == 0 || !(0 <= i < els.len()) {
        Seq::empty()
    } else {
        let ch = els[i].1;
        let head = repeat("  "@, level) + (if els[i].0 is Indent { "..."@ } else { info_debug(els[i].0) });
        if ch.len() == 0 {
            head + "\n"@
        } else {
            head + " {\n"@ + children_text(els, ch, ch.len(), level + 1, (fuel - 1) as nat) + repeat("  "@, level) + "}\n"@
        }
    }
}

/// The trees under the first `k` children, one after another.
pub open spec fn children_text(els: Seq<(InfoV, Seq<usize>)>, ch: Seq<usize>, k: nat, level: nat, fuel: nat) -> Seq<char>
    decreases fuel, 1nat, k,
{
    if k == 0 || k > ch.len() {
        Seq::empty()
    } else {
        children_text(els, ch, (k - 1) as nat, level, fuel) + subtree_text(els, ch[k - 1] as int, level, fuel)
    }
}

/// The tree under the element at `index` (see `subtree_text`).
fn write_subtree(els: &Elements, index: usize, level: usize, fuel: usize) -> (r: String)
    requires
        index < els@.len(),
        level + fuel <= usize::MAX,
        els_debuggable(crate::ast::elements::els_view(els@)),
        crate::ast::elements::children_in(crate::ast::elements::els_view(els@)),
    ensures
        r@ == subtree_text(crate::ast::elements::els_view(els@), index as int, level as nat, fuel as nat),
    decreases fuel,
{
    let ghost ev = crate::ast::elements::els_view(els@);
    if fuel == 0 {
        return String::new();
    }
    let indent = text::repeat_str("  ", level);
    assert(info_debuggable(ev[index as int].0));
    let name = match &els[index].0 {
        ElementInfo::Indent => text::lit("..."),
        other => other.debug_text(),
    };
    let head = text::concat(&indent, &name);
    let ch = &els[index].1;
    assert(ch@ == ev[index as int].1);
    if ch.len() == 0 {
        return text::concat_str(&head, "\n");
    }
    let mut body = String::new();
    let mut k: usize = 0;
    while k < ch.len()
        invariant
            k <= ch@.len(),
            ch@ == ev[index as int].1,
            ev == crate::ast::elements::els_view(els@),
            els_debuggable(ev),
            crate::ast::elements::children_in(ev),
            index < els@.len(),
            fuel >= 1,
            level + fuel <= usize::MAX,
            body@ == children_text(ev, ch@, k as nat, (level + 1) as nat, (fuel - 1) as nat),
        decreases ch@.len() - k,
    {
        assert(ev[index as int].1[k as int] < ev.len());
        let sub = write_subtree(els, ch[k], level + 1, fuel - 1);
        body = text::concat(&body, &sub);
        k = k + 1;
    }
    let a = text::concat(&text::concat_str(&head, " {\n"), &body);
    text::concat_str(&text::concat(&a, &indent), "}\n")
}

/// A list of elements, to be written out as a tree from the root.
pub struct ElementsVec(pub Elements);

impl ElementsVec {
    /// The tree under the root (see `subtree_text`), as deep as there are elements.
    pub fn text(&self) -> (r: String)
        requires
            els_debuggable(crate::ast::elements::els_view(self.0@)),
            crate::ast::elements::children_in(crate::ast::elements::els_view(self.0@)),
        ensures
            r@ == subtree_text(crate::ast::elements::els_view(self.0@), 0, 0, self.0@.len() as nat),
    {
        if self.0.len() == 0 {
            return String::new();
        }
        write_subtree(&self.0, 0, 0, self.0.len())
    }
}

} // verus!
