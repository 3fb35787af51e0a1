//! Elements are the nodes of the AST: an `ElementInfo` and the indexes of the element's children.
pub mod append;

use crate::ast::parents::{self, parent_of};
use crate::ast::{info_refs_ok, tree_wf, Ast};
use crate::Compiler;
use crate::text::{self, seq_contains};
use vstd::prelude::*;

verus! {

pub type ElIndex = usize;

pub type ElementChildren = Vec<ElIndex>;

pub type Element = (ElementInfo, ElementChildren);

pub type Elements = Vec<Element>;

/// How an argument is passed: as is, by a prefix, or, for a function argument, with a prefix per argument.
#[derive(Clone, Debug)]
pub enum ArgModifier {
    Arg(String),
    FnArg(Vec<String>),
    Plain,
}

/// The kinds of node in the AST, with the data each carries.
#[derive(Clone, Debug)]
pub enum ElementInfo {
    /// children = list items of the same type
    List(String),
    CommentSingleLine(String),
    Int(String),
    Float(String),
    String(String),
    Bool(String),
    /// name, scope (index of its function definition), modifier, type
    Arg(String, ElIndex, ArgModifier, String),
    Type(String),
    Eol,
    Seol,
    Indent,
    Unused,
    /// name, type, name of the constant referred to
    ConstantRef(String, String, String),
    /// name, keys, key types; children = one assignment per key
    Struct(String, Vec<String>, Vec<String>),
    StructEdit(String, Vec<String>),
    /// name, type; one child, the value
    Constant(String, String),
    /// one child, the constant
    Assignment,
    /// name, argument names, argument types, argument modifiers, return type, output format
    InbuiltFunctionDef(String, Vec<String>, Vec<String>, Vec<ArgModifier>, String, String),
    /// name, index of the definition, return type
    InbuiltFunctionCall(String, ElIndex, String),
    FunctionDefWIP,
    /// name, argument names, argument types, return type
    FunctionDef(String, Vec<String>, Vec<String>, String),
    /// name, return type
    FunctionCall(String, String),
    Parens,
    LoopForRangeWIP,
    /// variable name, from, to
    LoopForRange(String, usize, usize),
    Println,
    /// children = condition, true expression, false expression
    If(String),
    Root,
}

/// The text of each string in a list.
pub open spec fn strs_view(v: Seq<String>) -> Seq<Seq<char>> {
    v.map_values(|s: String| s@)
}

/// An argument modifier as plain values.
pub enum ArgModifierV {
    Arg(Seq<char>),
    FnArg(Seq<Seq<char>>),
    Plain,
}

impl View for ArgModifier {
    type V = ArgModifierV;

    open spec fn view(&self) -> ArgModifierV {
        match self {
            ArgModifier::Arg(s) => ArgModifierV::Arg(s@),
            ArgModifier::FnArg(v) => ArgModifierV::FnArg(strs_view(v@)),
            ArgModifier::Plain => ArgModifierV::Plain,
        }
    }
}

/// Argument modifiers as plain values.
pub open spec fn mods_view(v: Seq<ArgModifier>) -> Seq<ArgModifierV> {
    v.map_values(|m: ArgModifier| m@)
}

/// An element's info as plain values: each string by its characters.
pub enum InfoV {
    List(Seq<char>),
    CommentSingleLine(Seq<char>),
    Int(Seq<char>),
    Float(Seq<char>),
    String(Seq<char>),
    Bool(Seq<char>),
    Arg(Seq<char>, nat, ArgModifierV, Seq<char>),
    Type(Seq<char>),
    Eol,
    Seol,
    Indent,
    Unused,
    ConstantRef(Seq<char>, Seq<char>, Seq<char>),
    Struct(Seq<char>, Seq<Seq<char>>, Seq<Seq<char>>),
    StructEdit(Seq<char>, Seq<Seq<char>>),
    Constant(Seq<char>, Seq<char>),
    Assignment,
    InbuiltFunctionDef(Seq<char>, Seq<Seq<char>>, Seq<Seq<char>>, Seq<ArgModifierV>, Seq<char>, Seq<char>),
    InbuiltFunctionCall(Seq<char>, nat, Seq<char>),
    FunctionDefWIP,
    FunctionDef(Seq<char>, Seq<Seq<char>>, Seq<Seq<char>>, Seq<char>),
    FunctionCall(Seq<char>, Seq<char>),
    Parens,
    LoopForRangeWIP,
    LoopForRange(Seq<char>, nat, nat),
    Println,
    If(Seq<char>),
    Root,
}

impl View for ElementInfo {
    type V = InfoV;

    open spec fn view(&self) -> InfoV {
        match self {
            ElementInfo::List(a) => InfoV::List(a@),
            ElementInfo::CommentSingleLine(a) => InfoV::CommentSingleLine(a@),
            ElementInfo::Int(a) => InfoV::Int(a@),
            ElementInfo::Float(a) => InfoV::Float(a@),
            ElementInfo::String(a) => InfoV::String(a@),
            ElementInfo::Bool(a) => InfoV::Bool(a@),
            ElementInfo::Arg(a, b, c, d) => InfoV::Arg(a@, *b as nat, c@, d@),
            ElementInfo::Type(a) => InfoV::Type(a@),
            ElementInfo::Eol => InfoV::Eol,
            ElementInfo::Seol => InfoV::Seol,
            ElementInfo::Indent => InfoV::Indent,
            ElementInfo::Unused => InfoV::Unused,
            ElementInfo::ConstantRef(a, b, c) => InfoV::ConstantRef(a@, b@, c@),
            ElementInfo::Struct(a, b, c) => InfoV::Struct(a@, strs_view(b@), strs_view(c@)),
            ElementInfo::StructEdit(a, b) => InfoV::StructEdit(a@, strs_view(b@)),
            ElementInfo::Constant(a, b) => InfoV::Constant(a@, b@),
            ElementInfo::Assignment => InfoV::Assignment,
            ElementInfo::InbuiltFunctionDef(a, b, c, d, e, f) => InfoV::InbuiltFunctionDef(
                a@,
                strs_view(b@),
                strs_view(c@),
                mods_view(d@),
                e@,
                f@,
            ),
            ElementInfo::InbuiltFunctionCall(a, b, c) => InfoV::InbuiltFunctionCall(a@, *b as nat, c@),
            ElementInfo::FunctionDefWIP => InfoV::FunctionDefWIP,
            ElementInfo::FunctionDef(a, b, c, d) => InfoV::FunctionDef(a@, strs_view(b@), strs_view(c@), d@),
            ElementInfo::FunctionCall(a, b) => InfoV::FunctionCall(a@, b@),
            ElementInfo::Parens => InfoV::Parens,
            ElementInfo::LoopForRangeWIP => InfoV::LoopForRangeWIP,
            ElementInfo::LoopForRange(a, b, c) => InfoV::LoopForRange(a@, *b as nat, *c as nat),
            ElementInfo::Println => InfoV::Println,
            ElementInfo::If(a) => InfoV::If(a@),
            ElementInfo::Root => InfoV::Root,
        }
    }
}

/// An element as plain values: its info and its children.
pub open spec fn el_view(e: Element) -> (InfoV, Seq<usize>) {
    (e.0@, e.1@)
}

/// The elements of an AST as plain values.
pub open spec fn els_view(v: Seq<Element>) -> Seq<(InfoV, Seq<usize>)> {
    v.map_values(|e: Element| el_view(e))
}

/// A copy of an argument modifier.
pub fn copy_argmodifier(m: &ArgModifier) -> (r: ArgModifier)
    ensures
        r@ == m@,
{
    match m {
        ArgModifier::Arg(s) => ArgModifier::Arg(s.clone()),
        ArgModifier::FnArg(v) => {
            let c = v.clone();
            assert(c@ =~= v@);
            ArgModifier::FnArg(c)
        },
        ArgModifier::Plain => ArgModifier::Plain,
    }
}

/// A copy of a list of argument modifiers.
pub fn copy_argmodifiers(v: &Vec<ArgModifier>) -> (r: Vec<ArgModifier>)
    ensures
        mods_view(r@) == mods_view(v@),
{
    let mut r: Vec<ArgModifier> = Vec::new();
    let mut i: usize = 0;
    while i < v.len()
        invariant
            i <= v@.len(),
            r@.len() == i,
            forall|k: int| 0 <= k < i ==> r@[k]@ == #[trigger] v@[k]@,
        decreases v@.len() - i,
    {
        r.push(copy_argmodifier(&v[i]));
        i = i + 1;
    }
    assert(mods_view(r@) =~= mods_view(v@));
    r
}

/// A copy of an element's info.
pub fn copy_info(info: &ElementInfo) -> (r: ElementInfo)
    ensures
        r@ == info@,
{
    match info {
        ElementInfo::List(a) => ElementInfo::List(a.clone()),
        ElementInfo::CommentSingleLine(a) => ElementInfo::CommentSingleLine(a.clone()),
        ElementInfo::Int(a) => ElementInfo::Int(a.clone()),
        ElementInfo::Float(a) => ElementInfo::Float(a.clone()),
        ElementInfo::String(a) => ElementInfo::String(a.clone()),
        ElementInfo::Bool(a) => ElementInfo::Bool(a.clone()),
        ElementInfo::Arg(a, b, c, d) => ElementInfo::Arg(a.clone(), *b, copy_argmodifier(c), d.clone()),
        ElementInfo::Type(a) => ElementInfo::Type(a.clone()),
        ElementInfo::Eol => ElementInfo::Eol,
        ElementInfo::Seol => ElementInfo::Seol,
        ElementInfo::Indent => ElementInfo::Indent,
        ElementInfo::Unused => ElementInfo::Unused,
        ElementInfo::ConstantRef(a, b, c) => ElementInfo::ConstantRef(a.clone(), b.clone(), c.clone()),
        ElementInfo::Struct(a, b, c) => {
            let b2 = b.clone();
            let c2 = c.clone();
            assert(b2@ =~= b@);
            assert(c2@ =~= c@);
            ElementInfo::Struct(a.clone(), b2, c2)
        },
        ElementInfo::StructEdit(a, b) => {
            let b2 = b.clone();
            assert(b2@ =~= b@);
            ElementInfo::StructEdit(a.clone(), b2)
        },
        ElementInfo::Constant(a, b) => ElementInfo::Constant(a.clone(), b.clone()),
        ElementInfo::Assignment => ElementInfo::Assignment,
        ElementInfo::InbuiltFunctionDef(a, b, c, d, e, f) => {
            let b2 = b.clone();
            let c2 = c.clone();
            assert(b2@ =~= b@);
            assert(c2@ =~= c@);
            let d2 = copy_argmodifiers(d);
                        ElementInfo::InbuiltFunctionDef(a.clone(), b2, c2, d2, e.clone(), f.clone())
        },
        ElementInfo::InbuiltFunctionCall(a, b, c) => ElementInfo::InbuiltFunctionCall(a.clone(), *b, c.clone()),
        ElementInfo::FunctionDefWIP => ElementInfo::FunctionDefWIP,
        ElementInfo::FunctionDef(a, b, c, d) => {
            let b2 = b.clone();
            let c2 = c.clone();
            assert(b2@ =~= b@);
            assert(c2@ =~= c@);
            ElementInfo::FunctionDef(a.clone(), b2, c2, d.clone())
        },
        ElementInfo::FunctionCall(a, b) => ElementInfo::FunctionCall(a.clone(), b.clone()),
        ElementInfo::Parens => ElementInfo::Parens,
        ElementInfo::LoopForRangeWIP => ElementInfo::LoopForRangeWIP,
        ElementInfo::LoopForRange(a, b, c) => ElementInfo::LoopForRange(a.clone(), *b, *c),
        ElementInfo::Println => ElementInfo::Println,
        ElementInfo::If(a) => ElementInfo::If(a.clone()),
        ElementInfo::Root => ElementInfo::Root,
    }
}

/// A copy of an element: the same info and the same children.
pub fn copy_element(el: &Element) -> (r: Element)
    ensures
        r.0@ == el.0@,
        r.1@ == el.1@,
{
    let c = el.1.clone();
    assert(c@ =~= el.1@);
    (copy_info(&el.0), c)
}


/// The kinds of element that a name is looked up among.
pub enum Lookup {
    Arg,
    Type,
    Constant,
    Function,
    InbuiltFunction,
    Struct,
}

/// The element info is of the kind looked up, with the given name.
pub open spec fn named(kind: Lookup, name: Seq<char>, v: InfoV) -> bool {
    match kind {
        Lookup::Arg => v matches InfoV::Arg(n, _, _, _) && n == name,
        Lookup::Type => v matches InfoV::Type(n) && n == name,
        Lookup::Constant => (v matches InfoV::Constant(n, _) && n == name) || (
        v matches InfoV::ConstantRef(n, _, _) && n == name),
        Lookup::Function => (v matches InfoV::FunctionDef(n, _, _, _) && n == name) || (
        v matches InfoV::Arg(n, _, _, r) && n == name && seq_contains(r, "&dyn Fn"@)),
        Lookup::InbuiltFunction => (v matches InfoV::InbuiltFunctionDef(n, _, _, _, _, _) && n
            == name) || (v matches InfoV::Arg(n, _, _, r) && n == name && seq_contains(r, "&dyn Fn"@)),
        Lookup::Struct => v matches InfoV::Struct(n, _, _) && n == name,
    }
}

/// The smallest index of an element of the kind looked up with the given name, if any.
#[verifier::opaque]
pub open spec fn find(els: Seq<(InfoV, Seq<usize>)>, kind: Lookup, name: Seq<char>) -> Option<int> {
    if exists|i: int| 0 <= i < els.len() && named(kind, name, els[i].0) {
        Some(
            choose|i: int|
                0 <= i < els.len() && named(kind, name, els[i].0) && forall|k: int|
                    0 <= k < i ==> !named(kind, name, els[k].0),
        )
    } else {
        None
    }
}

proof fn lemma_find(els: Seq<(InfoV, Seq<usize>)>, kind: Lookup, name: Seq<char>, i: int)
    requires
        0 <= i < els.len(),
        named(kind, name, els[i].0),
        forall|k: int| 0 <= k < i ==> !named(kind, name, els[k].0),
    ensures
        find(els, kind, name) == Some(i),
{
    reveal(find);
    let j = choose|j: int|
        0 <= j < els.len() && named(kind, name, els[j].0) && forall|k: int|
            0 <= k < j ==> !named(kind, name, els[k].0);
    assert(0 <= j < els.len() && named(kind, name, els[j].0) && forall|k: int|
        0 <= k < j ==> !named(kind, name, els[k].0));
}

fn is_named(kind: &Lookup, name: &String, info: &ElementInfo) -> (b: bool)
    ensures
        b == named(*kind, name@, info@),
{
    match kind {
        Lookup::Arg => match info {
            ElementInfo::Arg(n, _, _, _) => *n == *name,
            _ => false,
        },
        Lookup::Type => match info {
            ElementInfo::Type(n) => *n == *name,
            _ => false,
        },
        Lookup::Constant => match info {
            ElementInfo::Constant(n, _) => *n == *name,
            ElementInfo::ConstantRef(n, _, _) => *n == *name,
            _ => false,
        },
        Lookup::Function => match info {
            ElementInfo::FunctionDef(n, _, _, _) => *n == *name,
            ElementInfo::Arg(n, _, _, r) => *n == *name && text::contains(r, "&dyn Fn"),
            _ => false,
        },
        Lookup::InbuiltFunction => match info {
            ElementInfo::InbuiltFunctionDef(n, _, _, _, _, _) => *n == *name,
            ElementInfo::Arg(n, _, _, r) => *n == *name && text::contains(r, "&dyn Fn"),
            _ => false,
        },
        Lookup::Struct => match info {
            ElementInfo::Struct(n, _, _) => *n == *name,
            _ => false,
        },
    }
}

pub(crate) fn find_index(ast: &Ast, name: &String, kind: Lookup) -> (r: Option<usize>)
    ensures
        match r {
            Some(k) => find(ast.els(), kind, name@) == Some(k as int) && k < ast.elements@.len(),
            None => find(ast.els(), kind, name@) is None,
        },
{
    let mut i: usize = 0;
    while i < ast.elements.len()
        invariant
            i <= ast.elements@.len(),
            forall|k: int| 0 <= k < i ==> !named(kind, name@, #[trigger] ast.els()[k].0),
        decreases ast.elements@.len() - i,
    {
        if is_named(&kind, name, &ast.elements[i].0) {
            proof { lemma_find(ast.els(), kind, name@, i as int); }
            return Some(i);
        }
        i = i + 1;
    }
    proof { reveal(find); }
    None
}

/// The index of the first Arg with this name.
pub fn get_arg_index_by_name(ast: &Ast, name: &String) -> (r: Option<usize>)
    ensures
        match r {
            Some(k) => find(ast.els(), Lookup::Arg, name@) == Some(k as int) && k < ast.elements@.len(),
            None => find(ast.els(), Lookup::Arg, name@) is None,
        },
{
    find_index(ast, name, Lookup::Arg)
}

/// The index of the first Type with this name.
pub fn get_inbuilt_type_index_by_name(ast: &Ast, name: &String) -> (r: Option<usize>)
    ensures
        match r {
            Some(k) => find(ast.els(), Lookup::Type, name@) == Some(k as int) && k < ast.elements@.len(),
            None => find(ast.els(), Lookup::Type, name@) is None,
        },
{
    find_index(ast, name, Lookup::Type)
}

/// The index of the first Constant or ConstantRef with this name.
pub fn get_constant_index_by_name(ast: &Ast, name: &String) -> (r: Option<usize>)
    ensures
        match r {
            Some(k) => find(ast.els(), Lookup::Constant, name@) == Some(k as int) && k < ast.elements@.len(),
            None => find(ast.els(), Lookup::Constant, name@) is None,
        },
{
    find_index(ast, name, Lookup::Constant)
}

/// The info of the first Constant or ConstantRef with this name.
pub fn get_constant_by_name(ast: &Ast, name: &String) -> (r: Option<ElementInfo>)
    ensures
        match find(ast.els(), Lookup::Constant, name@) {
            Some(i) => r is Some && r->0@ == ast.els()[i].0,
            None => r is None,
        },
{
    if let Some(index) = get_constant_index_by_name(ast, name) {
        return Some(copy_info(&ast.elements[index].0));
    }
    None
}

/// The index of the first FunctionDef with this name, or of an Arg with this name whose
/// type is a function type.
pub fn get_function_index_by_name(ast: &Ast, name: &String) -> (r: Option<usize>)
    ensures
        match r {
            Some(k) => find(ast.els(), Lookup::Function, name@) == Some(k as int) && k < ast.elements@.len(),
            None => find(ast.els(), Lookup::Function, name@) is None,
        },
{
    find_index(ast, name, Lookup::Function)
}

/// The index of the first InbuiltFunctionDef with this name, or of an Arg with this name
/// whose type is a function type.
pub fn get_inbuilt_function_index_by_name(ast: &Ast, name: &String) -> (r: Option<usize>)
    ensures
        match r {
            Some(k) => find(ast.els(), Lookup::InbuiltFunction, name@) == Some(k as int) && k < ast.elements@.len(),
            None => find(ast.els(), Lookup::InbuiltFunction, name@) is None,
        },
{
    find_index(ast, name, Lookup::InbuiltFunction)
}

/// The info found by `get_inbuilt_function_index_by_name`.
pub fn get_inbuilt_function_by_name(ast: &Ast, name: &String) -> (r: Option<ElementInfo>)
    ensures
        match find(ast.els(), Lookup::InbuiltFunction, name@) {
            Some(i) => r is Some && r->0@ == ast.els()[i].0,
            None => r is None,
        },
{
    if let Some(index) = get_inbuilt_function_index_by_name(ast, name) {
        return Some(copy_info(&ast.elements[index].0));
    }
    None
}

/// The last element of the AST.
pub fn get_last_element(ast: &Ast) -> (el: Element)
    requires
        ast.elements@.len() >= 1,
    ensures
        el_view(el) == ast.els().last(),
{
    copy_element(&ast.elements[ast.elements.len() - 1])
}

/// The type that a FunctionCall of `name` has: the return type of the function that the
/// name finds, or "Undefined".
pub open spec fn fncall_type(els: Seq<(InfoV, Seq<usize>)>, name: Seq<char>) -> Seq<char> {
    match find(els, Lookup::Function, name) {
        Some(i) => match els[i].0 {
            InfoV::FunctionDef(_, _, _, rt) => rt,
            InfoV::Arg(_, _, _, rt) => if seq_contains(rt, "&dyn Fn"@) {
                rt
            } else {
                "Undefined"@
            },
            _ => "Undefined"@,
        },
        None => "Undefined"@,
    }
}

/// The type that an element info states.
pub open spec fn info_type(els: Seq<(InfoV, Seq<usize>)>, v: InfoV) -> Seq<char> {
    match v {
        InfoV::List(rt) => rt,
        InfoV::Int(_) => "i64"@,
        InfoV::Float(_) => "f64"@,
        InfoV::String(_) => "String"@,
        InfoV::Bool(_) => "bool"@,
        InfoV::Struct(name, _, _) => name,
        InfoV::Constant(_, rt) => rt,
        InfoV::ConstantRef(_, rt, _) => rt,
        InfoV::InbuiltFunctionCall(_, _, rt) => rt,
        InfoV::Arg(_, _, _, rt) => rt,
        InfoV::FunctionCall(name, _) => fncall_type(els, name),
        InfoV::Type(rt) => rt,
        InfoV::If(rt) => rt,
        InfoV::InbuiltFunctionDef(_, _, _, _, _, _) => "Undefined"@,
        InfoV::FunctionDef(_, _, _, _) => "Undefined"@,
        _ => "None"@,
    }
}

/// The type of the Arg named `name` at `idx`: the type of that argument in the function
/// definition that holds it, or "Undefined".
pub open spec fn arg_type(els: Seq<(InfoV, Seq<usize>)>, idx: int, name: Seq<char>) -> Seq<char> {
    match parent_of(els, idx as usize) {
        Some(p) => match els[p].0 {
            InfoV::FunctionDef(_, argnames, argtypes, _) => match text::index_of(argnames, name) {
                Some(k) => if argtypes.len() > k {
                    argtypes[k]
                } else {
                    "Undefined"@
                },
                None => "Undefined"@,
            },
            _ => "Undefined"@,
        },
        None => "Undefined"@,
    }
}

/// The type of a ConstantRef to `refname`: the type of the first Constant of that name.
pub open spec fn constref_type(els: Seq<(InfoV, Seq<usize>)>, refname: Seq<char>) -> Seq<char> {
    match find(els, Lookup::Constant, refname) {
        Some(i) => match els[i].0 {
            InfoV::Constant(_, rt) => rt,
            _ => "Undefined"@,
        },
        None => "Undefined"@,
    }
}

/// A call of an inbuilt function whose return type lists alternatives, with all its
/// arguments, has as its type the return alternative at the place where the type of its
/// first argument stands (first) among the alternatives of the first parameter, whatever
/// that place is; so its type lists no alternatives.
pub proof fn inbuilt_call_type_follows_the_first_argument(
    els: Seq<(InfoV, Seq<usize>)>,
    children: Seq<usize>,
    fndef: int,
    name: Seq<char>,
    argnames: Seq<Seq<char>>,
    argtypes: Seq<Seq<char>>,
    mods: Seq<ArgModifierV>,
    rt: Seq<char>,
    format: Seq<char>,
    k: int,
)
    requires
        0 <= fndef < els.len(),
        els[fndef].0 == InfoV::InbuiltFunctionDef(name, argnames, argtypes, mods, rt, format),
        seq_contains(rt, "|"@),
        1 <= argtypes.len() <= children.len(),
        0 <= k < text::split_on(argtypes[0], '|').len(),
        k < text::split_on(rt, '|').len(),
        text::split_on(argtypes[0], '|')[k] == info_type(els, els[children[0] as int].0),
        forall|j: int| 0 <= j < k ==> text::split_on(argtypes[0], '|')[j] != info_type(els, els[children[0] as int].0),
    ensures
        inbuilt_call_type(els, children, fndef) == text::split_on(rt, '|')[k],
        forall|j: int| 0 <= j < inbuilt_call_type(els, children, fndef).len() ==> #[trigger] inbuilt_call_type(els, children, fndef)[j] != '|',
{
    text::lemma_index_of(text::split_on(argtypes[0], '|'), info_type(els, els[children[0] as int].0), k);
    text::lemma_split_on_pieces(rt, '|');
    let r = text::split_on(rt, '|')[k];
    assert forall|j: int| 0 <= j < r.len() implies #[trigger] r[j] != '|' by {
        assert(text::split_on(rt, '|')[k][j] != '|');
    }
}

/// A call of an inbuilt function whose return type lists no alternatives has that return
/// type, whatever its arguments.
pub proof fn inbuilt_call_type_without_alternatives(
    els: Seq<(InfoV, Seq<usize>)>,
    children: Seq<usize>,
    fndef: int,
    name: Seq<char>,
    argnames: Seq<Seq<char>>,
    argtypes: Seq<Seq<char>>,
    mods: Seq<ArgModifierV>,
    rt: Seq<char>,
    format: Seq<char>,
)
    requires
        0 <= fndef < els.len(),
        els[fndef].0 == InfoV::InbuiltFunctionDef(name, argnames, argtypes, mods, rt, format),
        forall|i: int| 0 <= i < rt.len() ==> rt[i] != '|',
    ensures
        inbuilt_call_type(els, children, fndef) == rt,
{
    reveal_strlit("|");
    if seq_contains(rt, "|"@) {
        let i = choose|i: int| text::occurs_at(rt, "|"@, i);
        assert(rt.subrange(i, i + 1) == "|"@);
        assert(rt.subrange(i, i + 1)[0] == rt[i]);
    }
}

/// The type of a call of the inbuilt definition at `fndef` with these children: the return
/// type, or for a return type with alternatives "a|b", the alternative at the position that
/// the first child's type has among the first argument's alternatives.
pub open spec fn inbuilt_call_type(els: Seq<(InfoV, Seq<usize>)>, children: Seq<usize>, fndef: int) -> Seq<char> {
    match els[fndef].0 {
        InfoV::InbuiltFunctionDef(_, _, argtypes, _, rt, _) => if seq_contains(rt, "|"@) {
            if children.len() > 0 && argtypes.len() <= children.len() {
                if argtypes.len() == 0 {
                    rt
                } else {
                    let t = info_type(els, els[children[0] as int].0);
                    match text::index_of(text::split_on(argtypes[0], '|'), t) {
                        Some(k) => if k < text::split_on(rt, '|').len() {
                            text::split_on(rt, '|')[k]
                        } else {
                            rt
                        },
                        None => rt,
                    }
                }
            } else {
                "Undefined"@
            }
        } else {
            rt
        },
        _ => "Undefined"@,
    }
}

/// The type of an If with these children: the stated type of its second child, the value
/// when the condition holds.
pub open spec fn if_type(els: Seq<(InfoV, Seq<usize>)>, children: Seq<usize>) -> Seq<char> {
    if children.len() > 1 {
        info_type(els, els[children[1] as int].0)
    } else {
        "error"@
    }
}

/// The child whose type a Constant takes: its value, skipping an Indent before it.
pub open spec fn constant_child(els: Seq<(InfoV, Seq<usize>)>, children: Seq<usize>) -> int {
    if els[children[0] as int].0 is Indent && children.len() > 1 {
        children[1] as int
    } else {
        children[0] as int
    }
}

/// The type inferred for the element at `idx`, from its own info and, for constants, lists
/// and ifs, from the types of their children.
pub open spec fn infer_type(els: Seq<(InfoV, Seq<usize>)>, idx: int) -> Seq<char>
    decreases els.len() - idx,
{
    let el = els[idx];
    match el.0 {
        InfoV::Arg(name, _, _, _) => arg_type(els, idx, name),
        InfoV::Constant(_, _) => if el.1.len() > 0 {
            let c = constant_child(els, el.1);
            if idx < c < els.len() {
                infer_type(els, c)
            } else {
                "Undefined"@
            }
        } else {
            "Undefined"@
        },
        InfoV::ConstantRef(_, _, refname) => constref_type(els, refname),
        InfoV::InbuiltFunctionCall(_, fndef, _) => inbuilt_call_type(els, el.1, fndef as int),
        InfoV::FunctionCall(name, _) => fncall_type(els, name),
        InfoV::List(rt) => if el.1.len() > 0 {
            let c = el.1[0] as int;
            if idx < c < els.len() {
                "Vec<"@ + infer_type(els, c) + ">"@
            } else {
                "Undefined"@
            }
        } else {
            rt
        },
        InfoV::If(_) => if_type(els, el.1),
        InfoV::Struct(name, _, _) => name,
        _ => info_type(els, el.0),
    }
}

/// Every child index of every element lies within the elements.
pub open spec fn children_in(els: Seq<(InfoV, Seq<usize>)>) -> bool {
    forall|i: int, j: int|
        #![trigger els[i].1[j]]
        0 <= i < els.len() && 0 <= j < els[i].1.len() ==> els[i].1[j] < els.len()
}

/// A well formed AST has its children within the elements.
pub proof fn lemma_wf_children(ast: &Ast, i: int, j: int)
    requires
        ast.wf(),
        0 <= i < ast.elements@.len(),
        0 <= j < ast.els()[i].1.len(),
    ensures
        ast.els()[i].1[j] < ast.elements@.len(),
{
    assert(ast.els()[i].1[j] == ast.elements@[i].1@[j]);
}

/// The type of the function that `name` finds.
pub fn get_infered_type_of_functioncall_element(ast: &Ast, name: &String) -> (t: String)
    ensures
        t@ == fncall_type(ast.els(), name@),
{
    if let Some(index) = get_function_index_by_name(ast, name) {
        match &ast.elements[index].0 {
            ElementInfo::FunctionDef(_, _, _, returntype) => return returntype.clone(),
            ElementInfo::Arg(_, _, _, returntype) => {
                if text::contains(returntype, "&dyn Fn") {
                    return returntype.clone();
                } else {
                    return text::lit("Undefined");
                }
            },
            _ => return text::lit("Undefined"),
        }
    }
    text::lit("Undefined")
}

/// The type that an element info states.
pub fn get_elementinfo_type(ast: &Ast, elementinfo: &ElementInfo) -> (t: String)
    ensures
        t@ == info_type(ast.els(), elementinfo@),
{
    match elementinfo {
        ElementInfo::List(returntype) => returntype.clone(),
        ElementInfo::Int(_) => text::lit("i64"),
        ElementInfo::Float(_) => text::lit("f64"),
        ElementInfo::String(_) => text::lit("String"),
        ElementInfo::Bool(_) => text::lit("bool"),
        ElementInfo::Assignment => text::lit("None"),
        ElementInfo::Struct(name, _, _) => name.clone(),
        ElementInfo::Constant(_, returntype) => returntype.clone(),
        ElementInfo::ConstantRef(_, returntype, _) => returntype.clone(),
        ElementInfo::InbuiltFunctionCall(_, _, returntype) => returntype.clone(),
        ElementInfo::Arg(_, _, _, returntype) => returntype.clone(),
        ElementInfo::FunctionCall(name, _) => get_infered_type_of_functioncall_element(ast, name),
        ElementInfo::Type(returntype) => returntype.clone(),
        ElementInfo::If(returntype) => returntype.clone(),
        ElementInfo::Root => text::lit("None"),
        ElementInfo::StructEdit(_, _) => text::lit("None"),
        ElementInfo::CommentSingleLine(_) => text::lit("None"),
        ElementInfo::InbuiltFunctionDef(_, _, _, _, _, _) => text::lit("Undefined"),
        ElementInfo::FunctionDefWIP => text::lit("None"),
        ElementInfo::FunctionDef(_, _, _, _) => text::lit("Undefined"),
        ElementInfo::Parens => text::lit("None"),
        ElementInfo::Eol => text::lit("None"),
        ElementInfo::Seol => text::lit("None"),
        ElementInfo::Indent => text::lit("None"),
        ElementInfo::Unused => text::lit("None"),
        ElementInfo::LoopForRangeWIP => text::lit("None"),
        ElementInfo::LoopForRange(_, _, _) => text::lit("None"),
        ElementInfo::Println => text::lit("None"),
    }
}

/// The type of an Arg: the type of that argument in the function definition holding it.
pub fn get_infered_type_of_arg_element(ast: &Ast, el_info: &ElementInfo, el_index: usize) -> (t: String)
    ensures
        t@ == match el_info@ {
            InfoV::Arg(name, _, _, _) => arg_type(ast.els(), el_index as int, name),
            _ => "Undefined"@,
        },
{
    match el_info {
        ElementInfo::Arg(name, _, _, _) => {
            if let Some(p) = parents::get_current_parent_ref_from_element_children_search(ast, el_index) {
                match &ast.elements[p].0 {
                    ElementInfo::FunctionDef(_, argnames, argtypes, _) => {
                        assert(argnames@.map_values(|s: String| s@) =~= strs_view(argnames@));
                        if let Some(index) = text::position_of(argnames, name) {
                            if argtypes.len() > index {
                                return argtypes[index].clone();
                            }
                        }
                    },
                    _ => (),
                }
            }
        },
        _ => (),
    }
    text::lit("Undefined")
}

/// The type of a ConstantRef: the type of the first Constant with the name it refers to.
pub fn get_infered_type_of_constantref_element(ast: &Ast, refname: &String) -> (t: String)
    ensures
        t@ == constref_type(ast.els(), refname@),
{
    let mut infered_type = text::lit("Undefined");
    if let Some(ElementInfo::Constant(_, returntype)) = get_constant_by_name(ast, refname) {
        infered_type = returntype;
    }
    infered_type
}

/// The type of an inbuilt function call, chosen among the alternatives of its definition's
/// return type by the type of its first child.
pub fn get_infered_type_of_inbuiltfunctioncall_element(
    ast: &Ast,
    func_call_el: &Element,
    funcdef_el_index: usize,
) -> (t: String)
    requires
        funcdef_el_index < ast.elements@.len(),
        forall|k: int| 0 <= k < func_call_el.1@.len() ==> #[trigger] func_call_el.1@[k] < ast.elements@.len(),
    ensures
        t@ == inbuilt_call_type(ast.els(), func_call_el.1@, funcdef_el_index as int),
{
    let mut infered_type = text::lit("Undefined");
    let el_children = &func_call_el.1;
    match &ast.elements[funcdef_el_index].0 {
        ElementInfo::InbuiltFunctionDef(_, _argnames, argtypes, _argmodifiers, returntype, _) => {
            if text::contains(returntype, "|") {
                if el_children.len() > 0 && argtypes.len() <= el_children.len() {
                    if argtypes.len() == 0 {
                        infered_type = returntype.clone();
                    } else {
                        let first_child_ref = el_children[0];
                        let type_of_first_child = get_elementinfo_type(ast, &ast.elements[first_child_ref].0);
                        let argtypes_vec = text::split_char(&argtypes[0], '|');
                        assert(argtypes_vec@.map_values(|s: String| s@) =~= text::split_on(argtypes@[0]@, '|'));
                        match text::position_of(&argtypes_vec, &type_of_first_child) {
                            Some(argtype_index) => {
                                let returntypes_vec = text::split_char(returntype, '|');
                                if argtype_index < returntypes_vec.len() {
                                    infered_type = returntypes_vec[argtype_index].clone();
                                } else {
                                    infered_type = returntype.clone();
                                }
                            },
                            _ => {
                                infered_type = returntype.clone();
                            },
                        }
                    }
                }
            } else {
                infered_type = returntype.clone();
            }
        },
        _ => (),
    }
    infered_type
}

/// The type of an If: the stated type of its second child.
pub fn get_infered_type_of_if_element(ast: &Ast, children: Vec<usize>) -> (t: String)
    requires
        forall|k: int| 0 <= k < children@.len() ==> #[trigger] children@[k] < ast.elements@.len(),
    ensures
        t@ == if_type(ast.els(), children@),
{
    if children.len() > 1 {
        get_elementinfo_type(ast, &ast.elements[children[1]].0)
    } else {
        text::lit("error")
    }
}

/// The child of a Constant whose type it takes.
fn get_constant_child(ast: &Ast, children: &Vec<usize>) -> (c: usize)
    requires
        children@.len() > 0,
        children@[0] < ast.elements@.len(),
    ensures
        c as int == constant_child(ast.els(), children@),
{
    let mut child_ref = children[0];
    match &ast.elements[child_ref].0 {
        ElementInfo::Indent => {
            if children.len() > 1 {
                child_ref = children[1];
            }
        },
        _ => (),
    }
    child_ref
}

/// The type inferred for the element at `el_index`.
#[verifier::rlimit(40)]
pub fn get_infered_type_of_any_element(ast: &Ast, el_index: usize) -> (t: String)
    requires
        ast.wf(),
        el_index < ast.elements@.len(),
    ensures
        t@ == infer_type(ast.els(), el_index as int),
    decreases ast.elements@.len() - el_index,
{
    let el = &ast.elements[el_index];
    let ghost elv = ast.els()[el_index as int];
    assert(el.1@ == elv.1);
    proof {
        if el.1@.len() > 0 {
            lemma_wf_children(ast, el_index as int, 0);
        }
        if el.1@.len() > 1 {
            lemma_wf_children(ast, el_index as int, 1);
        }
    }
    match &el.0 {
        ElementInfo::Arg(_, _, _, _) => {
            return get_infered_type_of_arg_element(ast, &el.0, el_index);
        },
        ElementInfo::Constant(_, _) => {
            if el.1.len() > 0 {
                let c = get_constant_child(ast, &el.1);
                if el_index < c && c < ast.elements.len() {
                    return get_infered_type_of_any_element(ast, c);
                } else {
                    return text::lit("Undefined");
                }
            } else {
                return text::lit("Undefined");
            }
        },
        ElementInfo::ConstantRef(_, _, refname) => {
            return get_infered_type_of_constantref_element(ast, refname);
        },
        ElementInfo::InbuiltFunctionCall(_, fndef_index, _) => {
            proof {
                assert(crate::ast::info_refs_ok(ast.elements@[el_index as int].0, ast.elements@.len()));
                assert forall|k: int| 0 <= k < el.1@.len() implies #[trigger] el.1@[k] < ast.elements@.len() by {
                    lemma_wf_children(ast, el_index as int, k);
                }
            }
            return get_infered_type_of_inbuiltfunctioncall_element(ast, el, *fndef_index);
        },
        ElementInfo::FunctionCall(name, _) => {
            return get_infered_type_of_functioncall_element(ast, name);
        },
        ElementInfo::List(returntype) => {
            if el.1.len() > 0 {
                let c = el.1[0];
                if el_index < c && c < ast.elements.len() {
                    let first_child_type = get_infered_type_of_any_element(ast, c);
                    let r = text::concat_str(&text::concat(&text::lit("Vec<"), &first_child_type), ">");
                    return r;
                } else {
                    return text::lit("Undefined");
                }
            } else {
                return returntype.clone();
            }
        },
        ElementInfo::If(_) => {
            proof {
                assert forall|k: int| 0 <= k < el.1@.len() implies #[trigger] el.1@[k] < ast.elements@.len() by {
                    lemma_wf_children(ast, el_index as int, k);
                }
            }
            let children = el.1.clone();
            assert(children@ =~= el.1@);
            return get_infered_type_of_if_element(ast, children);
        },
        ElementInfo::Struct(name, _, _) => return name.clone(),
        _ => (),
    }
    get_elementinfo_type(ast, &el.0)
}

/// The type inferred for a constant element (not necessarily in the AST): that of its value,
/// the child after a leading indent, or "Undefined" for any other element or a constant
/// without children.
pub open spec fn constant_el_type(els: Seq<(InfoV, Seq<usize>)>, el: (InfoV, Seq<usize>)) -> Seq<char> {
    if el.0 is Constant && el.1.len() > 0 {
        infer_type(els, constant_child(els, el.1))
    } else {
        "Undefined"@
    }
}

/// The type inferred for a constant element from its value.
pub fn get_infered_type_of_constant_element(ast: &Ast, el: &Element) -> (t: String)
    requires
        ast.wf(),
        forall|k: int| 0 <= k < el.1@.len() ==> #[trigger] el.1@[k] < ast.elements@.len(),
    ensures
        t@ == constant_el_type(ast.els(), (el.0@, el.1@)),
{
    match &el.0 {
        ElementInfo::Constant(_, _) => {
            if el.1.len() > 0 {
                let c = get_constant_child(ast, &el.1);
                get_infered_type_of_any_element(ast, c)
            } else {
                text::lit("Undefined")
            }
        },
        _ => text::lit("Undefined"),
    }
}

/// The info of the element at `idx` with its open type filled in: when the type it states
/// is "Undefined" or has alternatives, the inferred type replaces it.
pub open spec fn updated_info(els: Seq<(InfoV, Seq<usize>)>, idx: int) -> InfoV {
    let el = els[idx];
    let t = info_type(els, el.0);
    if seq_contains(t, "Undefined"@) || seq_contains(t, "|"@) {
        let inf = infer_type(els, idx);
        match el.0 {
            InfoV::Arg(n, sc, m, _) => InfoV::Arg(n, sc, m, inf),
            InfoV::Constant(n, _) => InfoV::Constant(n, inf),
            InfoV::ConstantRef(n, _, r) => InfoV::ConstantRef(n, inf, r),
            InfoV::InbuiltFunctionCall(n, f, _) => InfoV::InbuiltFunctionCall(n, f, inf),
            InfoV::FunctionCall(n, _) => InfoV::FunctionCall(n, inf),
            InfoV::List(rt) => if el.1.len() == 0 {
                InfoV::List(rt)
            } else {
                InfoV::List("Vec<"@ + infer_type(els, el.1[0] as int) + ">"@)
            },
            InfoV::If(_) => if el.1.len() > 1 {
                InfoV::If(infer_type(els, el.1[1] as int))
            } else {
                InfoV::If("error in get_updated_elementinfo_with_infered_type"@)
            },
            _ => el.0,
        }
    } else {
        el.0
    }
}

/// The element's info with the inferred type in place of an open one.
pub fn get_updated_elementinfo_with_infered_type(ast: &mut Ast, el_index: usize) -> (r: ElementInfo)
    requires
        old(ast).wf(),
        el_index < old(ast).elements@.len(),
    ensures
        *final(ast) == *old(ast),
        r@ == updated_info(old(ast).els(), el_index as int),
{
    let ast: &Ast = ast;
    let el = &ast.elements[el_index];
    let el_type = get_elementinfo_type(ast, &el.0);
    proof {
        if el.1@.len() > 0 {
            lemma_wf_children(ast, el_index as int, 0);
        }
        if el.1@.len() > 1 {
            lemma_wf_children(ast, el_index as int, 1);
        }
    }
    if text::contains(&el_type, "Undefined") || text::contains(&el_type, "|") {
        let infered_type = get_infered_type_of_any_element(ast, el_index);
        match &el.0 {
            ElementInfo::Arg(name, scope, argmodifier, _) => {
                return ElementInfo::Arg(name.clone(), *scope, copy_argmodifier(argmodifier), infered_type);
            },
            ElementInfo::Constant(name, _) => {
                return ElementInfo::Constant(name.clone(), infered_type);
            },
            ElementInfo::ConstantRef(name, _, refname) => {
                return ElementInfo::ConstantRef(name.clone(), infered_type, refname.clone());
            },
            ElementInfo::InbuiltFunctionCall(name, fndef_index, _) => {
                return ElementInfo::InbuiltFunctionCall(name.clone(), *fndef_index, infered_type);
            },
            ElementInfo::FunctionCall(name, _) => {
                return ElementInfo::FunctionCall(name.clone(), infered_type);
            },
            ElementInfo::List(returntype) => {
                if el.1.len() == 0 {
                    return ElementInfo::List(returntype.clone());
                } else {
                    let first_child_type = get_infered_type_of_any_element(ast, el.1[0]);
                    return ElementInfo::List(
                        text::concat_str(&text::concat(&text::lit("Vec<"), &first_child_type), ">"),
                    );
                }
            },
            ElementInfo::If(_) => {
                if el.1.len() > 1 {
                    return ElementInfo::If(get_infered_type_of_any_element(ast, el.1[1]));
                } else {
                    return ElementInfo::If(text::lit("error in get_updated_elementinfo_with_infered_type"));
                }
            },
            _ => (),
        }
    }
    copy_info(&el.0)
}

/// The children with every `from` replaced by `to`.
pub open spec fn replaced_children(children: Seq<usize>, from: usize, to: usize) -> Seq<usize> {
    children.map_values(|c: usize| if c == from { to } else { c })
}

/// Replace a child index of an element by another index.
pub fn replace_element_child(ast: &mut Ast, element_ref: usize, from: usize, to: usize)
    requires
        old(ast).wf(),
        element_ref < old(ast).elements@.len(),
        to < old(ast).elements@.len(),
    ensures
        final(ast).wf(),
        final(ast).same_but_elements(old(ast)),
        final(ast).elements@.len() == old(ast).elements@.len(),
        final(ast).elements@[element_ref as int].0 == old(ast).elements@[element_ref as int].0,
        final(ast).elements@[element_ref as int].1@ == replaced_children(old(ast).elements@[element_ref as int].1@, from, to),
        forall|i: int| 0 <= i < old(ast).elements@.len() && i != element_ref ==> final(ast).elements@[i] == old(ast).elements@[i],
{
    let ghost old_els = ast.elements@;
    let mut children: Vec<usize> = Vec::new();
    let n = ast.elements[element_ref].1.len();
    let mut k: usize = 0;
    while k < n
        invariant
            n == old_els[element_ref as int].1@.len(),
            ast.elements@ == old_els,
            element_ref < old_els.len(),
            k <= n,
            children@ == replaced_children(old_els[element_ref as int].1@, from, to).subrange(0, k as int),
        decreases n - k,
    {
        let c = ast.elements[element_ref].1[k];
        children.push(if c == from { to } else { c });
        k = k + 1;
        assert(children@ =~= replaced_children(old_els[element_ref as int].1@, from, to).subrange(0, k as int));
    }
    assert(children@ =~= replaced_children(old_els[element_ref as int].1@, from, to));
    ast.elements[element_ref].1 = children;
    proof {
        let new = ast.elements@;
        assert forall|i: int, j: int|
            0 <= i < new.len() && 0 <= j < new[i].1@.len() implies #[trigger] new[i].1@[j] < new.len() by {
            if i == element_ref {
                let c = old_els[i].1@[j];
                assert(c < old_els.len());
            } else {
                assert(new[i] == old_els[i]);
            }
        }
        assert forall|i: int| 0 <= i < new.len() implies info_refs_ok(#[trigger] new[i].0, new.len()) by {
            assert(info_refs_ok(old_els[i].0, old_els.len()));
        }
    }
}

/// The name with its first character in uppercase.
pub open spec fn upper_first(name: Seq<char>) -> Seq<char> {
    if name.len() > 0 {
        name.update(0, text::uppercase_first(name[0]))
    } else {
        name
    }
}

fn upper_first_char(name: &String) -> (r: String)
    ensures
        r@ == upper_first(name@),
{
    let mut chars = text::chars_of(name);
    if chars.len() > 0 {
        let u = text::to_uppercase_first(chars[0]);
        chars.set(0, u);
    }
    text::string_from_chars(chars.as_slice())
}

/// The index of the first Struct whose name is `name` with its first character in uppercase.
pub fn get_struct_index_by_name(ast: &Ast, name: &String) -> (r: Option<usize>)
    ensures
        match r {
            Some(k) => find(ast.els(), Lookup::Struct, upper_first(name@)) == Some(k as int) && k < ast.elements@.len(),
            None => find(ast.els(), Lookup::Struct, upper_first(name@)) is None,
        },
{
    let upper = upper_first_char(name);
    find_index(ast, &upper, Lookup::Struct)
}

/// The element that a name refers to: looked up first among constants, then inbuilt
/// functions, defined functions, types, arguments and structs.
pub open spec fn element_by_name(els: Seq<(InfoV, Seq<usize>)>, name: Seq<char>) -> Option<int> {
    if find(els, Lookup::Constant, name) is Some {
        find(els, Lookup::Constant, name)
    } else if find(els, Lookup::InbuiltFunction, name) is Some {
        find(els, Lookup::InbuiltFunction, name)
    } else if find(els, Lookup::Function, name) is Some {
        find(els, Lookup::Function, name)
    } else if find(els, Lookup::Type, name) is Some {
        find(els, Lookup::Type, name)
    } else if find(els, Lookup::Arg, name) is Some {
        find(els, Lookup::Arg, name)
    } else {
        find(els, Lookup::Struct, upper_first(name))
    }
}

/// Finds the element that a name refers to, e.g. a constant's name.
pub fn get_element_by_name(ast: &Ast, name: &String) -> (r: Option<Element>)
    ensures
        match element_by_name(ast.els(), name@) {
            Some(i) => r is Some && el_view(r->0) == ast.els()[i],
            None => r is None,
        },
{
    if let Some(index) = get_constant_index_by_name(ast, name) {
        return Some(copy_element(&ast.elements[index]));
    }
    if let Some(index) = get_inbuilt_function_index_by_name(ast, name) {
        return Some(copy_element(&ast.elements[index]));
    }
    if let Some(index) = get_function_index_by_name(ast, name) {
        return Some(copy_element(&ast.elements[index]));
    }
    if let Some(index) = get_inbuilt_type_index_by_name(ast, name) {
        return Some(copy_element(&ast.elements[index]));
    }
    if let Some(index) = get_arg_index_by_name(ast, name) {
        return Some(copy_element(&ast.elements[index]));
    }
    if let Some(index) = get_struct_index_by_name(ast, name) {
        return Some(copy_element(&ast.elements[index]));
    }
    None
}

/// The argument types of a function type, joined as the signature writes them: each type
/// after the first `i` is preceded by ", " unless it is the last one.
pub open spec fn joined_types(els: Seq<(InfoV, Seq<usize>)>, ts: Seq<usize>, i: nat) -> Seq<char>
    decreases i,
{
    if i == 0 || i > ts.len() {
        Seq::empty()
    } else {
        joined_types(els, ts, (i - 1) as nat) + (if i == ts.len() { ""@ } else { ", "@ }) + info_type(
            els,
            els[ts[i - 1] as int].0,
        )
    }
}

/// The type of a function whose argument types and return type are the children of the
/// parentheses `pc`, the return type last.
pub open spec fn dyn_fn_sig(els: Seq<(InfoV, Seq<usize>)>, pc: Seq<usize>) -> Seq<char> {
    let ts = pc.drop_last();
    "&dyn Fn("@ + joined_types(els, ts, ts.len()) + ") -> "@ + info_type(els, els[pc.last() as int].0)
}

/// Get the type of a function argument, "&dyn Fn(..) -> ..", from the children of its
/// parentheses.
pub fn get_formatted_dyn_fn_type_sig(compiler: &mut Compiler, paren_children: &Vec<usize>) -> (t: String)
    requires
        paren_children@.len() > 0,
        forall|k: int| 0 <= k < paren_children@.len() ==> #[trigger] paren_children@[k] < old(compiler).ast.elements@.len(),
    ensures
        *final(compiler) == *old(compiler),
        t@ == dyn_fn_sig(old(compiler).ast.els(), paren_children@),
{
    let ghost els = compiler.ast.els();
    let n = paren_children.len();
    let paren_returntype_ref = paren_children[n - 1];
    let paren_returntype = get_elementinfo_type(&compiler.ast, &compiler.ast.elements[paren_returntype_ref].0);
    let ghost ts = paren_children@.drop_last();
    let mut main_types = String::new();
    let mut i: usize = 0;
    while i < n - 1
        invariant
            n == paren_children@.len(),
            ts == paren_children@.drop_last(),
            els == compiler.ast.els(),
            i <= n - 1,
            forall|k: int| 0 <= k < paren_children@.len() ==> #[trigger] paren_children@[k] < compiler.ast.elements@.len(),
            main_types@ == joined_types(els, ts, i as nat),
        decreases n - 1 - i,
    {
        let main_type_ref = paren_children[i];
        let main_type = get_elementinfo_type(&compiler.ast, &compiler.ast.elements[main_type_ref].0);
        assert(compiler.ast.elements@[main_type_ref as int].0@ == els[ts[i as int] as int].0);
        let comma = if i + 1 == n - 1 { text::lit("") } else { text::lit(", ") };
        main_types = text::concat(&text::concat(&main_types, &comma), &main_type);
        i = i + 1;
    }
    assert(ts.len() == n - 1);
    assert(compiler.ast.elements@[paren_returntype_ref as int].0@ == els[paren_children@.last() as int].0);
    text::concat(&text::concat_str(&text::concat(&text::lit("&dyn Fn("), &main_types), ") -> "), &paren_returntype)
}

/// The argument types that the children `refs` of a function definition give: each Type's
/// name, and for non-empty parentheses the function type they hold.
pub open spec fn argtypes_of(els: Seq<(InfoV, Seq<usize>)>, refs: Seq<usize>) -> Seq<Seq<char>>
    decreases refs.len(),
{
    if refs.len() == 0 {
        Seq::empty()
    } else {
        let prev = argtypes_of(els, refs.drop_last());
        let e = els[refs.last() as int];
        match e.0 {
            InfoV::Type(t) => prev.push(t),
            InfoV::Parens => if e.1.len() > 0 {
                prev.push(dyn_fn_sig(els, e.1))
            } else {
                prev
            },
            _ => prev,
        }
    }
}

/// Every index in `v` lies within the elements of the compiler's AST.
pub open spec fn refs_in(v: Seq<usize>, n: nat) -> bool {
    forall|k: int| 0 <= k < v.len() ==> #[trigger] v[k] < n
}

/// Get the argument types of a function definition from its first half of children, which
/// are Types or parentheses holding a function type.
pub fn get_argtypes_from_argtokens(compiler: &mut Compiler, children: &[usize]) -> (argtypes: Vec<String>)
    requires
        old(compiler).ast.wf(),
        refs_in(children@, old(compiler).ast.elements@.len()),
    ensures
        *final(compiler) == *old(compiler),
        strs_view(argtypes@) == argtypes_of(old(compiler).ast.els(), children@.take((children@.len() / 2) as int)),
{
    let ghost c0 = *compiler;
    let ghost els = compiler.ast.els();
    let num_args = children.len() / 2;
    let ghost refs = children@.take(num_args as int);
    let mut argtypes: Vec<String> = Vec::new();
    let mut i: usize = 0;
    while i < num_args
        invariant
            num_args == children@.len() / 2,
            refs == children@.take(num_args as int),
            els == compiler.ast.els(),
            *compiler == c0,
            compiler.ast.wf(),
            refs_in(children@, compiler.ast.elements@.len()),
            i <= num_args,
            strs_view(argtypes@) == argtypes_of(els, refs.take(i as int)),
        decreases num_args - i,
    {
        let a = children[i];
        assert(refs.take(i + 1).drop_last() =~= refs.take(i as int));
        let el = &compiler.ast.elements[a];
        match &el.0 {
            ElementInfo::Type(typename) => {
                argtypes.push(typename.clone());
            },
            ElementInfo::Parens => {
                if el.1.len() > 0 {
                    let pc = el.1.clone();
                    proof {
                        assert forall|k: int| 0 <= k < pc@.len() implies #[trigger] pc@[k] < compiler.ast.elements@.len() by {
                            lemma_wf_children(&compiler.ast, a as int, k);
                        }
                    }
                    let fn_type_signature = get_formatted_dyn_fn_type_sig(compiler, &pc);
                    argtypes.push(fn_type_signature);
                }
            },
            _ => {},
        }
        i = i + 1;
        assert(strs_view(argtypes@) =~= argtypes_of(els, refs.take(i as int)));
    }
    assert(refs.take(num_args as int) =~= refs);
    argtypes
}

/// The return type of a function definition: the Type just after its argument types.
pub open spec fn returntype_of(els: Seq<(InfoV, Seq<usize>)>, children: Seq<usize>) -> Seq<char> {
    match els[children[(children.len() / 2) as int] as int].0 {
        InfoV::Type(t) => t,
        _ => "Undefined"@,
    }
}

/// Get the return type of a function definition from its children.
pub fn get_returntype_from_argtokens(compiler: &mut Compiler, children: &[usize]) -> (t: String)
    requires
        children@.len() > 0,
        refs_in(children@, old(compiler).ast.elements@.len()),
    ensures
        *final(compiler) == *old(compiler),
        t@ == returntype_of(old(compiler).ast.els(), children@),
{
    let num_args = children.len() / 2;
    let returntype_ref = children[num_args];
    match &compiler.ast.elements[returntype_ref].0 {
        ElementInfo::Type(typename) => typename.clone(),
        _ => text::lit("Undefined"),
    }
}

/// The argument names of a function definition, and its elements with each Arg among `refs`
/// given the argument type at its position (when there is one), after the first `i` of them.
pub open spec fn args_named(els: Seq<(InfoV, Seq<usize>)>, refs: Seq<usize>, argtypes: Seq<Seq<char>>, i: nat) -> (Seq<Seq<char>>, Seq<(InfoV, Seq<usize>)>)
    decreases i,
{
    if i == 0 || i > refs.len() {
        (Seq::empty(), els)
    } else {
        let (names, e) = args_named(els, refs, argtypes, (i - 1) as nat);
        let a = refs[i - 1] as int;
        match e[a].0 {
            InfoV::Arg(n, sc, m, _) => (
                names.push(n),
                if i - 1 < argtypes.len() {
                    e.update(a, (InfoV::Arg(n, sc, m, argtypes[i - 1]), e[a].1))
                } else {
                    e
                },
            ),
            _ => (names, e),
        }
    }
}

/// Naming the arguments of a function definition gives, for Args at distinct places, each
/// argument's name in order, and gives the Arg at every position `k` the `k`th argument
/// type, keeping its name, scope, modifier and children; every other element stays.
pub proof fn every_argument_gets_its_type(els: Seq<(InfoV, Seq<usize>)>, refs: Seq<usize>, argtypes: Seq<Seq<char>>)
    requires
        refs.len() <= argtypes.len(),
        forall|k: int| 0 <= k < refs.len() ==> (#[trigger] refs[k]) < els.len() && els[refs[k] as int].0 is Arg,
        forall|k: int, l: int| 0 <= k < l < refs.len() ==> refs[k] != refs[l],
    ensures
        ({
            let (names, e) = args_named(els, refs, argtypes, refs.len());
            &&& names.len() == refs.len()
            &&& e.len() == els.len()
            &&& forall|k: int|
                0 <= k < refs.len() ==> (els[#[trigger] refs[k] as int].0 matches InfoV::Arg(n, sc, m, _) ==> names[k]
                    == n && e[refs[k] as int] == (InfoV::Arg(n, sc, m, argtypes[k]), els[refs[k] as int].1))
            &&& forall|x: int| 0 <= x < els.len() && !refs.contains(x as usize) ==> #[trigger] e[x] == els[x]
        }),
{
    lemma_args_named_prefix(els, refs, argtypes, refs.len());
}

proof fn lemma_args_named_prefix(els: Seq<(InfoV, Seq<usize>)>, refs: Seq<usize>, argtypes: Seq<Seq<char>>, i: nat)
    requires
        i <= refs.len() <= argtypes.len(),
        forall|k: int| 0 <= k < refs.len() ==> (#[trigger] refs[k]) < els.len() && els[refs[k] as int].0 is Arg,
        forall|k: int, l: int| 0 <= k < l < refs.len() ==> refs[k] != refs[l],
    ensures
        ({
            let (names, e) = args_named(els, refs, argtypes, i);
            &&& names.len() == i
            &&& e.len() == els.len()
            &&& forall|k: int|
                0 <= k < i ==> (els[#[trigger] refs[k] as int].0 matches InfoV::Arg(n, sc, m, _) ==> names[k] == n
                    && e[refs[k] as int] == (InfoV::Arg(n, sc, m, argtypes[k]), els[refs[k] as int].1))
            &&& forall|x: int| 0 <= x < els.len() && !refs.take(i as int).contains(x as usize) ==> #[trigger] e[x] == els[x]
        }),
    decreases i,
{
    if i > 0 {
        lemma_args_named_prefix(els, refs, argtypes, (i - 1) as nat);
        let (names0, e0) = args_named(els, refs, argtypes, (i - 1) as nat);
        let a = refs[i - 1] as int;
        assert(!refs.take(i - 1).contains(a as usize)) by {
            if refs.take(i - 1).contains(a as usize) {
                let k = choose|k: int| 0 <= k < refs.take(i - 1).len() && #[trigger] refs.take(i - 1)[k] == a as usize;
                assert(refs[k] == refs[i - 1]);
            }
        }
        assert(e0[a] == els[a]);
        let (names, e) = args_named(els, refs, argtypes, i);
        assert forall|x: int| 0 <= x < els.len() && !refs.take(i as int).contains(x as usize) implies #[trigger] e[x] == els[x] by {
            assert(refs.take(i as int)[i - 1] == a as usize);
            assert(x != a);
            assert(!refs.take(i - 1).contains(x as usize)) by {
                if refs.take(i - 1).contains(x as usize) {
                    let k = choose|k: int| 0 <= k < refs.take(i - 1).len() && #[trigger] refs.take(i - 1)[k] == x as usize;
                    assert(refs.take(i as int)[k] == x as usize);
                }
            }
        }
        assert forall|k: int|
            0 <= k < i implies (els[#[trigger] refs[k] as int].0 matches InfoV::Arg(n, sc, m, _) ==> names[k] == n
                && e[refs[k] as int] == (InfoV::Arg(n, sc, m, argtypes[k]), els[refs[k] as int].1)) by {
            if k < i - 1 {
                assert(refs[k] != refs[i - 1]);
            }
        }
    }
}

/// Get the argument names of a function definition from the Args after its return type,
/// and give each Arg the argument type at its position.
pub fn get_argnames_from_argtokens(compiler: &mut Compiler, children: &[usize], argtypes: &Vec<String>) -> (argnames: Vec<String>)
    requires
        old(compiler).at_token(),
        children@.len() > 0,
        refs_in(children@, old(compiler).ast.elements@.len()),
    ensures
        final(compiler).at_token(),
        final(compiler).same_but_ast(old(compiler)),
        final(compiler).error_stack == old(compiler).error_stack,
        final(compiler).ast.same_but_elements(&old(compiler).ast),
        final(compiler).ast.elements@.len() == old(compiler).ast.elements@.len(),
        ({
            let refs = children@.skip((children@.len() / 2 + 1) as int);
            let (names, els) = args_named(old(compiler).ast.els(), refs, strs_view(argtypes@), refs.len());
            strs_view(argnames@) == names && final(compiler).ast.els() == els
        }),
{
    let ghost c0 = *compiler;
    let ghost tys = strs_view(argtypes@);
    let num_args = children.len() / 2;
    let ghost refs = children@.skip((num_args + 1) as int);
    let mut argnames: Vec<String> = Vec::new();
    let mut i: usize = num_args + 1;
    let start = i;
    assert(refs.len() == children@.len() - start);
    while i < children.len()
        invariant
            start == num_args + 1,
            start <= children@.len(),
            refs == children@.skip((num_args + 1) as int),
            refs.len() == children@.len() - start,
            start <= i <= children@.len(),
            compiler.at_token(),
            compiler.same_but_ast(&c0),
            compiler.error_stack == c0.error_stack,
            compiler.ast.same_but_elements(&c0.ast),
            compiler.ast.elements@.len() == c0.ast.elements@.len(),
            refs_in(children@, compiler.ast.elements@.len()),
            tys == strs_view(argtypes@),
            ({
                let (names, els) = args_named(c0.ast.els(), refs, tys, (i - start) as nat);
                strs_view(argnames@) == names && compiler.ast.els() == els
            }),
        decreases children@.len() - i,
    {
        let a = children[i];
        let j = i - start;
        assert(refs[j as int] == a);
        let info = copy_info(&compiler.ast.elements[a].0);
        if let ElementInfo::Arg(argname, scope, argmodifier, oldtype) = info {
            argnames.push(argname.clone());
            if j < argtypes.len() {
                let returntype = argtypes[j].clone();
                let children_of_a = compiler.ast.elements[a].1.clone();
                assert(children_of_a@ == compiler.ast.elements@[a as int].1@);
                let ghost before = compiler.ast.elements@;
                compiler.ast.elements.set(a, (ElementInfo::Arg(argname, scope, argmodifier, returntype), children_of_a));
                proof {
                    let new = compiler.ast.elements@;
                    assert forall|x: int, y: int|
                        0 <= x < new.len() && 0 <= y < new[x].1@.len() implies #[trigger] new[x].1@[y] < new.len() by {
                        assert(new[x].1@ == before[x].1@);
                        assert(before[x].1@[y] < before.len());
                    }
                    assert forall|x: int| 0 <= x < new.len() implies crate::ast::info_refs_ok(#[trigger] new[x].0, new.len()) by {
                        if x != a {
                            assert(crate::ast::info_refs_ok(before[x].0, before.len()));
                        }
                    }
                }
            }
        }
        i = i + 1;
        proof {
            let (names, els) = args_named(c0.ast.els(), refs, tys, (i - start) as nat);
            assert(strs_view(argnames@) =~= names);
            assert(compiler.ast.els() =~= els);
        }
    }
    argnames
}

/// The elements after the placeholder at `fd` is replaced by the FunctionDef that its
/// children `ch` describe, named `name`.
pub open spec fn funcdef_replaced(els: Seq<(InfoV, Seq<usize>)>, ch: Seq<usize>, name: Seq<char>, fd: int) -> Seq<(InfoV, Seq<usize>)> {
    let argtypes = argtypes_of(els, ch.take((ch.len() / 2) as int));
    let refs = ch.skip((ch.len() / 2 + 1) as int);
    let (names, els2) = args_named(els, refs, argtypes, refs.len());
    els2.update(fd, (InfoV::FunctionDef(name, names, argtypes, returntype_of(els, ch)), Seq::empty()))
}

/// Replace the placeholder FunctionDefWIP with the FunctionDef that its children describe:
/// argument types, return type, argument names; the FunctionDef starts with no children.
pub fn replace_funcdefwip_with_funcdef(compiler: &mut Compiler, children: &[usize], name: &String, func_def_ref: usize)
    requires
        old(compiler).at_token(),
        children@.len() > 0,
        refs_in(children@, old(compiler).ast.elements@.len()),
        func_def_ref < old(compiler).ast.elements@.len(),
    ensures
        final(compiler).at_token(),
        final(compiler).same_but_ast(old(compiler)),
        final(compiler).error_stack == old(compiler).error_stack,
        final(compiler).ast.same_but_elements(&old(compiler).ast),
        final(compiler).ast.els() == funcdef_replaced(old(compiler).ast.els(), children@, name@, func_def_ref as int),
        final(compiler).ast.elements@.len() == old(compiler).ast.elements@.len(),
{
    let argtypes = get_argtypes_from_argtokens(compiler, children);
    let returntype = get_returntype_from_argtokens(compiler, children);
    let argnames = get_argnames_from_argtokens(compiler, children, &argtypes);
    let ghost before = compiler.ast.elements@;
    let new_funcdef = ElementInfo::FunctionDef(name.clone(), argnames, argtypes, returntype);
    compiler.ast.elements.set(func_def_ref, (new_funcdef, Vec::new()));
    proof {
        let new = compiler.ast.elements@;
        assert forall|x: int, y: int|
            0 <= x < new.len() && 0 <= y < new[x].1@.len() implies #[trigger] new[x].1@[y] < new.len() by {
            if x != func_def_ref {
                assert(new[x].1@ == before[x].1@);
                assert(before[x].1@[y] < before.len());
            }
        }
        assert forall|x: int| 0 <= x < new.len() implies crate::ast::info_refs_ok(#[trigger] new[x].0, new.len()) by {
            if x != func_def_ref {
                assert(crate::ast::info_refs_ok(before[x].0, before.len()));
            }
        }
        assert(compiler.ast.els() =~= els_view(before).update(func_def_ref as int, el_view(compiler.ast.elements@[func_def_ref as int])));
    }
}

} // verus!
