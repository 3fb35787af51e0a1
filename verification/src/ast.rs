//! The AST: an adjacency list of elements, the output strings, and the stack of parents.
//!
//! Element 0 is the root. The inbuilt types and functions follow it, and the parsed
//! elements are appended after them; a parent always has a smaller index than its children.
pub mod elements;
pub mod output;
pub mod parents;

use crate::ast::elements::{
    copy_argmodifier, els_view, strs_view, ArgModifier, ArgModifierV, ElIndex, Element,
    ElementInfo, Elements, InfoV,
};
use crate::text;
use crate::Token;
use vstd::prelude::*;

verus! {

pub type Logs = Vec<(String, Token)>;

/// The AST with its output and its parse state.
#[derive(Clone, Debug)]
pub struct Ast {
    /// element 0 is the root; real elements follow the inbuilt definitions
    pub elements: Elements,
    pub output: String,
    pub output_stack: Vec<ElIndex>,
    pub premain_output: String,
    /// the stack of elements that the parser is inside; its length gives the indent
    pub parents: Vec<ElIndex>,
    pub debug: bool,
    pub logs: Logs,
    pub debug_compiler_history: Vec<String>,
}

/// The index that an inbuilt function call refers to lies within the elements.
pub open spec fn info_refs_ok(info: ElementInfo, n: nat) -> bool {
    match info {
        ElementInfo::InbuiltFunctionCall(_, r, _) => r < n,
        _ => true,
    }
}

/// The elements form a graph below the root: every child index and every reference lies
/// within the elements.
pub open spec fn tree_wf(els: Seq<Element>) -> bool {
    &&& els.len() >= 1
    &&& forall|i: int, j: int|
        #![trigger els[i].1@[j]]
        0 <= i < els.len() && 0 <= j < els[i].1@.len() ==> els[i].1@[j] < els.len()
    &&& forall|i: int| 0 <= i < els.len() ==> info_refs_ok(#[trigger] els[i].0, els.len())
}

/// Every index on the parents stack lies within the elements.
pub open spec fn parents_ok(parents: Seq<usize>, n: nat) -> bool {
    &&& parents.len() >= 1
    &&& forall|k: int| 0 <= k < parents.len() ==> #[trigger] parents[k] < n
}

impl Ast {
    /// The AST is well formed: a tree of elements and a non-empty stack of parents within it.
    pub open spec fn wf(&self) -> bool {
        tree_wf(self.elements@) && parents_ok(self.parents@, self.elements@.len())
    }

    /// The elements as plain values.
    pub open spec fn els(&self) -> Seq<(InfoV, Seq<usize>)> {
        els_view(self.elements@)
    }
}


/// The list types that the list functions take.
pub open spec fn vecs_type() -> Seq<char> {
    "Vec<i64>|Vec<f64>|Vec<String>"@
}

/// An inbuilt arithmetic or comparison function `name` of two arguments.
pub open spec fn binary_def(name: Seq<char>, argtype: Seq<char>, returntype: Seq<char>) -> InfoV {
    InfoV::InbuiltFunctionDef(
        name,
        seq!["arg~1"@, "arg~2"@],
        seq![argtype, argtype],
        seq![ArgModifierV::Plain, ArgModifierV::Plain],
        returntype,
        "arg~1 "@ + name + " arg~2"@,
    )
}

/// A list function of one argument.
pub open spec fn list_def1(name: Seq<char>, returntype: Seq<char>, format: Seq<char>) -> InfoV {
    InfoV::InbuiltFunctionDef(
        name,
        seq!["arg~1"@],
        seq![vecs_type()],
        seq![ArgModifierV::Plain],
        returntype,
        format,
    )
}

/// A list function of two arguments, the second modified by `m`.
pub open spec fn list_def2(name: Seq<char>, m: ArgModifierV, format: Seq<char>) -> InfoV {
    InfoV::InbuiltFunctionDef(
        name,
        seq!["arg~1"@, "arg~2"@],
        seq![vecs_type(), vecs_type()],
        seq![ArgModifierV::Plain, m],
        vecs_type(),
        format,
    )
}

/// A boolean constant as an inbuilt function of no arguments.
pub open spec fn bool_def(name: Seq<char>) -> InfoV {
    InfoV::InbuiltFunctionDef(name, seq![], seq![], seq![], "bool"@, name)
}

/// The elements that every AST starts with: the root, the inbuilt types, the arithmetic
/// operators, the list functions, the booleans and the comparison functions.
pub open spec fn initial_infos() -> Seq<InfoV> {
    seq![
        InfoV::Root,
        InfoV::Type("i64"@),
        InfoV::Type("f64"@),
        InfoV::Type("String"@),
        InfoV::Type("bool"@),
        binary_def("+"@, "i64|f64"@, "i64|f64"@),
        binary_def("-"@, "i64|f64"@, "i64|f64"@),
        binary_def("*"@, "i64|f64"@, "i64|f64"@),
        binary_def("/"@, "i64|f64"@, "i64|f64"@),
        binary_def("%"@, "i64|f64"@, "i64|f64"@),
        list_def2("List::map"@, ArgModifierV::FnArg(seq!["&"@]), "arg~1.iter().map(arg~2).collect()"@),
        list_def2(
            "List::mapindex"@,
            ArgModifierV::FnArg(seq![""@, "&"@]),
            "arg~1.iter().enumerate().map(|x| {\r\nlet index = x.0;\r\nlet val = x.1;\r\n|index, val| arg~2).collect()"@,
        ),
        list_def2(
            "List::append"@,
            ArgModifierV::Plain,
            "arg~1.iter().cloned().chain(arg~2.iter().cloned()).collect()"@,
        ),
        list_def1("List::len"@, "i64|f64|String"@, "arg~1.len() as i64"@),
        list_def1("List::reverse"@, vecs_type(), "arg~1.into_iter().rev().collect()"@),
        bool_def("true"@),
        bool_def("false"@),
        binary_def("=="@, "i64|f64|String|bool"@, "bool"@),
        binary_def("!="@, "i64|f64|String|bool"@, "bool"@),
        binary_def("<"@, "i64|f64|String|bool"@, "bool"@),
        binary_def(">"@, "i64|f64|String|bool"@, "bool"@),
        binary_def("<="@, "i64|f64|String|bool"@, "bool"@),
        binary_def(">="@, "i64|f64|String|bool"@, "bool"@),
    ]
}

/// The elements are exactly the initial ones, none with children.
pub open spec fn is_initial(els: Seq<(InfoV, Seq<usize>)>) -> bool {
    &&& els.len() == initial_infos().len()
    &&& forall|i: int| 0 <= i < els.len() ==> #[trigger] els[i] == (initial_infos()[i], Seq::<usize>::empty())
}

fn element(info: ElementInfo) -> (e: Element)
    ensures
        e.0 == info,
        e.1@ == Seq::<usize>::empty(),
{
    (info, Vec::new())
}

fn arg_names(n: usize) -> (v: Vec<String>)
    requires
        n == 1 || n == 2,
    ensures
        n == 1 ==> strs_view(v@) == seq!["arg~1"@],
        n == 2 ==> strs_view(v@) == seq!["arg~1"@, "arg~2"@],
{
    let mut v: Vec<String> = Vec::new();
    v.push(text::lit("arg~1"));
    if n == 2 {
        v.push(text::lit("arg~2"));
    }
    assert(n == 1 ==> strs_view(v@) =~= seq!["arg~1"@]);
    assert(n == 2 ==> strs_view(v@) =~= seq!["arg~1"@, "arg~2"@]);
    v
}

fn binary(name: &str, argtype: &str, returntype: &str) -> (e: Element)
    ensures
        e.0@ == binary_def(name@, argtype@, returntype@),
        e.1@ == Seq::<usize>::empty(),
{
    let types = vec![text::lit(argtype), text::lit(argtype)];
    assert(strs_view(types@) =~= seq![argtype@, argtype@]);
    let mods = vec![ArgModifier::Plain, ArgModifier::Plain];
    assert(elements::mods_view(mods@) =~= seq![ArgModifierV::Plain, ArgModifierV::Plain]);
    let format = text::concat_str(&text::concat_str(&text::lit("arg~1 "), name), " arg~2");
    element(ElementInfo::InbuiltFunctionDef(
        text::lit(name),
        arg_names(2),
        types,
        mods,
        text::lit(returntype),
        format,
    ))
}

fn list1(name: &str, returntype: &str, format: &str) -> (e: Element)
    ensures
        e.0@ == list_def1(name@, returntype@, format@),
        e.1@ == Seq::<usize>::empty(),
{
    let types = vec![text::lit("Vec<i64>|Vec<f64>|Vec<String>")];
    assert(strs_view(types@) =~= seq![vecs_type()]);
    let mods = vec![ArgModifier::Plain];
    assert(elements::mods_view(mods@) =~= seq![ArgModifierV::Plain]);
    element(ElementInfo::InbuiltFunctionDef(
        text::lit(name),
        arg_names(1),
        types,
        mods,
        text::lit(returntype),
        text::lit(format),
    ))
}

fn list2(name: &str, m: ArgModifier, format: &str) -> (e: Element)
    ensures
        e.0@ == list_def2(name@, m@, format@),
        e.1@ == Seq::<usize>::empty(),
{
    let types = vec![
        text::lit("Vec<i64>|Vec<f64>|Vec<String>"),
        text::lit("Vec<i64>|Vec<f64>|Vec<String>"),
    ];
    assert(strs_view(types@) =~= seq![vecs_type(), vecs_type()]);
    let ghost mv = m@;
    let mods = vec![ArgModifier::Plain, m];
    assert(elements::mods_view(mods@) =~= seq![ArgModifierV::Plain, mv]);
    element(ElementInfo::InbuiltFunctionDef(
        text::lit(name),
        arg_names(2),
        types,
        mods,
        text::lit("Vec<i64>|Vec<f64>|Vec<String>"),
        text::lit(format),
    ))
}

fn boolean(name: &str) -> (e: Element)
    ensures
        e.0@ == bool_def(name@),
        e.1@ == Seq::<usize>::empty(),
{
    let names: Vec<String> = Vec::new();
    let types: Vec<String> = Vec::new();
    let mods: Vec<ArgModifier> = Vec::new();
    assert(strs_view(names@) =~= seq![]);
    assert(elements::mods_view(mods@) =~= seq![]);
    element(ElementInfo::InbuiltFunctionDef(
        text::lit(name),
        names,
        types,
        mods,
        text::lit("bool"),
        text::lit(name),
    ))
}

/// The initial elements from the `a`th to before the `b`th, none with children.
pub open spec fn initial_els(a: int, b: int) -> Seq<(InfoV, Seq<usize>)> {
    initial_infos().subrange(a, b).map_values(|i: InfoV| (i, Seq::<usize>::empty()))
}

proof fn lemma_initial_concat(a: Seq<Element>, b: Seq<Element>, x: int, y: int, z: int)
    requires
        0 <= x <= y <= z <= 23,
        els_view(a) == initial_els(x, y),
        els_view(b) == initial_els(y, z),
    ensures
        els_view(a + b) == initial_els(x, z),
{
    assert(initial_infos().len() == 23);
    assert(els_view(a).len() == a.len());
    assert(els_view(b).len() == b.len());
    assert(a.len() == y - x);
    assert(b.len() == z - y);
    assert forall|i: int| 0 <= i < z - x implies #[trigger] els_view(a + b)[i] == initial_els(x, z)[i] by {
        if i < y - x {
            assert((a + b)[i] == a[i]);
            assert(els_view(a)[i] == initial_els(x, y)[i]);
        } else {
            assert((a + b)[i] == b[i - (y - x)]);
            assert(els_view(b)[i - (y - x)] == initial_els(y, z)[i - (y - x)]);
        }
    }
    assert(els_view(a + b) =~= initial_els(x, z));
}

/// The root.
fn init_root() -> (els: Elements)
    ensures
        els_view(els@) == initial_els(0, 1),
{
    let v = vec![element(ElementInfo::Root)];
    assert(els_view(v@) =~= initial_els(0, 1));
    v
}

/// The inbuilt types.
fn init_initial_types() -> (els: Elements)
    ensures
        els_view(els@) == initial_els(1, 5),
{
    let mut v: Elements = Vec::new();
    v.push(element(ElementInfo::Type(text::lit("i64"))));
    v.push(element(ElementInfo::Type(text::lit("f64"))));
    v.push(element(ElementInfo::Type(text::lit("String"))));
    v.push(element(ElementInfo::Type(text::lit("bool"))));
    assert(els_view(v@) =~= initial_els(1, 5));
    v
}

/// The arithmetic operators.
fn init_initial_arithmetic_operators() -> (els: Elements)
    ensures
        els_view(els@) == initial_els(5, 10),
{
    let mut v: Elements = Vec::new();
    v.push(binary("+", "i64|f64", "i64|f64"));
    v.push(binary("-", "i64|f64", "i64|f64"));
    v.push(binary("*", "i64|f64", "i64|f64"));
    v.push(binary("/", "i64|f64", "i64|f64"));
    v.push(binary("%", "i64|f64", "i64|f64"));
    assert(els_view(v@) =~= initial_els(5, 10));
    v
}

/// The list functions.
fn init_list_functions() -> (els: Elements)
    ensures
        els_view(els@) == initial_els(10, 15),
{
    let mut v: Elements = Vec::new();
    let amp = vec![text::lit("&")];
    assert(strs_view(amp@) =~= seq!["&"@]);
    v.push(list2("List::map", ArgModifier::FnArg(amp), "arg~1.iter().map(arg~2).collect()"));
    let amp2 = vec![text::lit(""), text::lit("&")];
    assert(strs_view(amp2@) =~= seq![""@, "&"@]);
    v.push(
        list2(
            "List::mapindex",
            ArgModifier::FnArg(amp2),
            "arg~1.iter().enumerate().map(|x| {\r\nlet index = x.0;\r\nlet val = x.1;\r\n|index, val| arg~2).collect()",
        ),
    );
    v.push(
        list2(
            "List::append",
            ArgModifier::Plain,
            "arg~1.iter().cloned().chain(arg~2.iter().cloned()).collect()",
        ),
    );
    v.push(list1("List::len", "i64|f64|String", "arg~1.len() as i64"));
    v.push(list1("List::reverse", "Vec<i64>|Vec<f64>|Vec<String>", "arg~1.into_iter().rev().collect()"));
    assert(els_view(v@) =~= initial_els(10, 15));
    v
}

/// The booleans, as inbuilt functions of no arguments.
fn init_booleans() -> (els: Elements)
    ensures
        els_view(els@) == initial_els(15, 17),
{
    let mut v: Elements = Vec::new();
    v.push(boolean("true"));
    v.push(boolean("false"));
    assert(els_view(v@) =~= initial_els(15, 17));
    v
}

/// The comparison functions.
fn init_boolean_fns() -> (els: Elements)
    ensures
        els_view(els@) == initial_els(17, 23),
{
    let mut v: Elements = Vec::new();
    v.push(binary("==", "i64|f64|String|bool", "bool"));
    v.push(binary("!=", "i64|f64|String|bool", "bool"));
    v.push(binary("<", "i64|f64|String|bool", "bool"));
    v.push(binary(">", "i64|f64|String|bool", "bool"));
    v.push(binary("<=", "i64|f64|String|bool", "bool"));
    v.push(binary(">=", "i64|f64|String|bool", "bool"));
    assert(els_view(v@) =~= initial_els(17, 23));
    v
}

/// The inbuilt elements that every AST starts with, the root first.
fn init() -> (els: Elements)
    ensures
        is_initial(els_view(els@)),
{
    let mut v = init_root();
    let mut part = init_initial_types();
    proof { lemma_initial_concat(v@, part@, 0, 1, 5); }
    v.append(&mut part);
    let mut part = init_initial_arithmetic_operators();
    proof { lemma_initial_concat(v@, part@, 0, 5, 10); }
    v.append(&mut part);
    let mut part = init_list_functions();
    proof { lemma_initial_concat(v@, part@, 0, 10, 15); }
    v.append(&mut part);
    let mut part = init_booleans();
    proof { lemma_initial_concat(v@, part@, 0, 15, 17); }
    v.append(&mut part);
    let mut part = init_boolean_fns();
    proof { lemma_initial_concat(v@, part@, 0, 17, 23); }
    v.append(&mut part);
    assert(els_view(v@) =~= initial_els(0, 23));
    assert(els_view(v@) =~= initial_infos().map_values(|i: InfoV| (i, Seq::<usize>::empty())));
    v
}

impl Ast {
    /// The state of a new AST: only the initial elements, the root as the only parent,
    /// and empty outputs and logs.
    pub open spec fn is_new(&self, debug: bool) -> bool {
        &&& is_initial(self.els())
        &&& self.parents@ == seq![0usize]
        &&& self.output@ == Seq::<char>::empty()
        &&& self.premain_output@ == Seq::<char>::empty()
        &&& self.output_stack@ == Seq::<usize>::empty()
        &&& self.debug == debug
        &&& self.logs@ == Seq::<(String, Token)>::empty()
        &&& self.debug_compiler_history@ == Seq::<String>::empty()
    }

    /// A new AST, with or without the debug history.
    pub fn new(debug: bool) -> (ast: Ast)
        ensures
            ast.is_new(debug),
            ast.wf(),
    {
        let elements = init();
        let ast = Ast {
            elements,
            output: String::new(),
            output_stack: Vec::new(),
            premain_output: String::new(),
            parents: vec![0],
            debug,
            logs: Vec::new(),
            debug_compiler_history: Vec::new(),
        };
        assert(ast.parents@ =~= seq![0usize]);
        proof {
            assert forall|i: int| 0 <= i < ast.elements@.len() implies ast.elements@[i].1@.len() == 0 by {
                assert(ast.els()[i] == (initial_infos()[i], Seq::<usize>::empty()));
            }
            assert forall|i: int| 0 <= i < ast.elements@.len() implies info_refs_ok(#[trigger] ast.elements@[i].0, ast.elements@.len()) by {
                assert(ast.els()[i] == (initial_infos()[i], Seq::<usize>::empty()));
            }
        }
        ast
    }
}

impl Default for Ast {
    fn default() -> (ast: Ast)
        ensures
            ast.is_new(false),
            ast.wf(),
    {
        Ast::new(false)
    }
}
} // verus!
