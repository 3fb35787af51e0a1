//! Writing the AST out as Rust code.
use crate::ast::elements::{self, find, strs_view, Element, ElementInfo, InfoV, Lookup};
use crate::ast::parents::{self, parent_of};
use crate::ast::parents::outdent::outdented;
use crate::ast::Ast;
use crate::Compiler;
use crate::formatting::{self, pairs_text};
use crate::text::{self, decimal, repeat, replace_all, seq_contains};
use vstd::prelude::*;

verus! {

/// The element at `i` is written by its parent (an Assignment, FunctionCall, Println, List,
/// If or Struct), not on its own.
pub open spec fn skippable(els: Seq<(InfoV, Seq<usize>)>, i: int) -> bool {
    match parent_of(els, i as usize) {
        Some(p) => {
            let v = els[p].0;
            v is Assignment || v is FunctionCall || v is Println || v is List || v is If || v is Struct
        },
        None => false,
    }
}

/// `k` empty strings.
pub open spec fn empties(k: nat) -> Seq<Seq<char>> {
    Seq::new(k, |i: int| Seq::<char>::empty())
}

/// The type of the items of an empty list of type `rt`: what lies between "Vec<" and the
/// last character, or `rt` itself when it is not a "Vec" type.
pub open spec fn vec_item_type(rt: Seq<char>) -> Seq<char> {
    if rt.len() > 5 && rt.take(3) == "Vec"@ {
        rt.subrange(4, rt.len() - 1)
    } else {
        rt
    }
}

/// `n` spaces.
pub open spec fn spaces(n: nat) -> Seq<char> {
    repeat(" "@, n)
}

/// The Rust code of the element at `i`, with `plen` parents open, within `fuel` levels of
/// nesting; when `skip`, nothing for an element that its parent writes.
pub open spec fn out(els: Seq<(InfoV, Seq<usize>)>, plen: nat, i: int, skip: bool, fuel: nat) -> Seq<char>
    decreases fuel, 0nat,
{
    if fuel == 0 || !(0 <= i < els.len()) {
        Seq::empty()
    } else if skip && skippable(els, i) {
        Seq::empty()
    } else {
        let ch = els[i].1;
        let f = (fuel - 1) as nat;
        match els[i].0 {
            InfoV::Root => Seq::empty(),
            InfoV::CommentSingleLine(c) => c,
            InfoV::Int(v) => v,
            InfoV::Float(v) => v,
            InfoV::String(v) => v + ".to_string()"@,
            InfoV::Bool(v) => v + ".to_string()"@,
            InfoV::Arg(name, _, _, _) => name,
            InfoV::Struct(name, _, _) => name + "::new("@ + struct_args(els, plen, ch, ch.len(), f) + ")"@,
            InfoV::StructEdit(_, _) => Seq::empty(),
            InfoV::Constant(name, _) => name,
            InfoV::ConstantRef(name, _, _) => name + ".clone()"@,
            InfoV::Assignment => assignment_out(els, plen, ch, f),
            InfoV::InbuiltFunctionDef(name, _, _, _, _, _) => "fn "@ + name + "() ->{ /* stuff */ }"@,
            InfoV::List(rt) => if ch.len() > 0 {
                "vec![ "@ + joined(els, plen, ch, ch.len(), f) + " ]"@
            } else {
                "Vec::<"@ + vec_item_type(rt) + ">::new()"@
            },
            InfoV::InbuiltFunctionCall(name, _, _) => inbuilt_out(els, plen, name, ch, f),
            InfoV::FunctionDefWIP => Seq::empty(),
            InfoV::FunctionDef(name, argnames, argtypes, rt) => "fn "@ + name + "("@ + pairs_text(
                argnames,
                argtypes,
                empties(argnames.len()),
                argnames.len(),
            ) + ") -> "@ + rt + " {\r\n"@,
            InfoV::FunctionCall(name, _) => name + "("@ + call_args(els, plen, name, ch, ch.len(), f) + ")"@,
            InfoV::Parens => "("@ + concat_out(els, plen, ch, ch.len(), f) + ")"@,
            InfoV::LoopForRangeWIP => Seq::empty(),
            InfoV::LoopForRange(name, from, to) => "For "@ + name + " in "@ + decimal(from) + ".."@ + decimal(to) + " {\r\n"@,
            InfoV::Eol => "\r\n"@,
            InfoV::Seol => ";\r\n"@,
            InfoV::Indent => spaces((4 * (plen - 1)) as nat),
            InfoV::Type(name) => name,
            InfoV::Unused => Seq::empty(),
            InfoV::Println => if prints_struct(els, ch) {
                "println!(\"{:?}\", &"@ + concat_out(els, plen, ch, ch.len(), f) + ")"@
            } else {
                "println!(\"{}\", "@ + concat_out(els, plen, ch, ch.len(), f) + ")"@
            },
            InfoV::If(_) => if_out(els, plen, ch, f),
        }
    }
}

/// A Println of one reference to a constant whose type is a struct, which is printed with
/// its `Debug` text.
pub open spec fn prints_struct(els: Seq<(InfoV, Seq<usize>)>, ch: Seq<usize>) -> bool {
    &&& ch.len() == 1
    &&& ch[0] < els.len()
    &&& els[ch[0] as int].0 matches InfoV::ConstantRef(_, rt, _) && elements::find(els, Lookup::Struct, rt) is Some
}

/// The code of the first `k` children, one after the other.
pub open spec fn concat_out(els: Seq<(InfoV, Seq<usize>)>, plen: nat, ch: Seq<usize>, k: nat, f: nat) -> Seq<char>
    decreases f, 1nat, k,
{
    if k == 0 || k > ch.len() {
        Seq::empty()
    } else {
        concat_out(els, plen, ch, (k - 1) as nat, f) + out(els, plen, ch[k - 1] as int, false, f)
    }
}

/// The code of the first `k` children, separated by ", ".
pub open spec fn joined(els: Seq<(InfoV, Seq<usize>)>, plen: nat, ch: Seq<usize>, k: nat, f: nat) -> Seq<char>
    decreases f, 1nat, k,
{
    if k == 0 || k > ch.len() {
        Seq::empty()
    } else {
        joined(els, plen, ch, (k - 1) as nat, f) + (if k == 1 { ""@ } else { ", "@ }) + out(els, plen, ch[k - 1] as int, false, f)
    }
}

/// The arguments of a struct's `new`: for each child (an Assignment), the value of its
/// Constant, separated by ", ".
pub open spec fn struct_args(els: Seq<(InfoV, Seq<usize>)>, plen: nat, ch: Seq<usize>, k: nat, f: nat) -> Seq<char>
    decreases f, 1nat, k,
{
    if k == 0 || k > ch.len() {
        Seq::empty()
    } else {
        let constant = els[ch[k - 1] as int].1[0];
        let arg = els[constant as int].1[0];
        struct_args(els, plen, ch, (k - 1) as nat, f) + (if k == 1 { ""@ } else { ", "@ }) + out(els, plen, arg as int, false, f)
    }
}

/// A function call's arguments, separated by ", "; an argument that the function takes as a
/// function ("&dyn Fn") is borrowed with "&".
pub open spec fn call_args(els: Seq<(InfoV, Seq<usize>)>, plen: nat, name: Seq<char>, args: Seq<usize>, k: nat, f: nat) -> Seq<char>
    decreases f, 1nat, k,
{
    if k == 0 || k > args.len() {
        Seq::empty()
    } else {
        let i = k - 1;
        let borrow = match find(els, Lookup::Function, name) {
            Some(d) => match els[d].0 {
                InfoV::FunctionDef(_, _, argtypes, _) => if argtypes.len() == args.len() && seq_contains(argtypes[i], "&dyn Fn"@) {
                    "&"@
                } else {
                    ""@
                },
                _ => ""@,
            },
            None => ""@,
        };
        call_args(els, plen, name, args, (k - 1) as nat, f) + borrow + out(els, plen, args[i] as int, false, f) + (if i == args.len() - 1 {
            ""@
        } else {
            ", "@
        })
    }
}

/// An assignment: "let name: type = ", with "mut " for a struct.
pub open spec fn assignment_out(els: Seq<(InfoV, Seq<usize>)>, plen: nat, ch: Seq<usize>, f: nat) -> Seq<char>
    decreases f, 1nat,
{
    if ch.len() < 1 {
        "// let ?: ? = ? OUTPUT ERROR: Can't get constant for this assignment from : []"@
    } else {
        let c = ch[0] as int;
        let rt = match els[c].0 {
            InfoV::Constant(_, r) => r,
            _ => "Undefined"@,
        };
        let is_mut = els[c].0 is Constant && els[els[c].1[0] as int].0 is Struct;
        "let "@ + (if is_mut { "mut "@ } else { ""@ }) + out(els, plen, c, false, f) + ": "@ + rt + " = "@
    }
}

/// The format of an inbuilt function with its first `k` argument markers "arg~1", "arg~2",
/// ... replaced by the code of the children.
pub open spec fn inbuilt_args(els: Seq<(InfoV, Seq<usize>)>, plen: nat, format: Seq<char>, ch: Seq<usize>, k: nat, f: nat) -> Seq<char>
    decreases f, 1nat, k,
{
    if k == 0 {
        format
    } else {
        let prev = inbuilt_args(els, plen, format, ch, (k - 1) as nat, f);
        if k - 1 >= ch.len() {
            prev
        } else {
            replace_all(prev, "arg~"@ + decimal(k as nat), out(els, plen, ch[k - 1] as int, true, f))
        }
    }
}

/// A call of an inbuilt function: its definition's format with the arguments filled in, and
/// ";\r\n" after it when it has one child more than arguments and the AST ends with a Seol.
pub open spec fn inbuilt_out(els: Seq<(InfoV, Seq<usize>)>, plen: nat, name: Seq<char>, ch: Seq<usize>, f: nat) -> Seq<char>
    decreases f, 1nat,
{
    match find(els, Lookup::InbuiltFunction, name) {
        Some(d) => match els[d].0 {
            InfoV::InbuiltFunctionDef(_, argnames, _, _, _, format) => {
                let o = inbuilt_args(els, plen, format, ch, argnames.len(), f);
                if ch.len() > 0 && ch.len() == argnames.len() + 1 && els.last().0 is Seol {
                    o + ";\r\n"@
                } else {
                    o
                }
            },
            _ => Seq::empty(),
        },
        None => Seq::empty(),
    }
}

/// An If: "if cond {", the two values on their own indented lines, and the closing braces.
pub open spec fn if_out(els: Seq<(InfoV, Seq<usize>)>, plen: nat, ch: Seq<usize>, f: nat) -> Seq<char>
    decreases f, 1nat,
{
    if ch.len() < 3 {
        Seq::empty()
    } else {
        "if "@ + out(els, plen, ch[0] as int, false, f) + " {"@ + "\r\n"@ + spaces(4 * plen) + out(els, plen, ch[1] as int, false, f)
            + "\r\n"@ + spaces((4 * (plen - 1)) as nat) + "} else {"@ + "\r\n"@ + spaces(4 * plen) + out(
            els,
            plen,
            ch[2] as int,
            false,
            f,
        ) + "\r\n"@ + spaces((4 * (plen - 1)) as nat) + "}"@
    }
}


/// The AST can be written out without a fault: no element has the root as a child, each
/// struct's children hold a constant holding a value, an assignment's constant holds a value,
/// a function definition has a type for each argument, and list types are ASCII.
pub open spec fn output_safe(els: Seq<(InfoV, Seq<usize>)>) -> bool {
    forall|i: int| 0 <= i < els.len() ==> #[trigger] element_output_safe(els, i)
}

/// The element at `i` can be written out without a fault (see `output_safe`).
pub open spec fn element_output_safe(els: Seq<(InfoV, Seq<usize>)>, i: int) -> bool {
    let ch = els[i].1;
    &&& forall|j: int| 0 <= j < ch.len() ==> #[trigger] ch[j] != 0
    &&& els[i].0 is Struct ==> forall|j: int| 0 <= j < ch.len() ==> #[trigger] els[ch[j] as int].1.len() >= 1
        && els[els[ch[j] as int].1[0] as int].1.len() >= 1
    &&& (els[i].0 is Assignment && ch.len() >= 1 && els[ch[0] as int].0 is Constant) ==> els[ch[0] as int].1.len() >= 1
    &&& els[i].0 matches InfoV::FunctionDef(_, names, types, _) ==> types.len() >= names.len()
    &&& els[i].0 matches InfoV::List(rt) ==> text::is_ascii_text(rt)
}

/// Whether the element at `element_index` is written by its parent.
fn is_skippable_due_to_parent(ast: &Ast, element_index: usize) -> (b: bool)
    ensures
        b == skippable(ast.els(), element_index as int),
{
    match parents::get_current_parent_ref_from_element_children_search(ast, element_index) {
        Some(p) => match &ast.elements[p].0 {
            ElementInfo::Assignment => true,
            ElementInfo::FunctionCall(_, _) => true,
            ElementInfo::Println => true,
            ElementInfo::List(_) => true,
            ElementInfo::If(_) => true,
            ElementInfo::Struct(_, _, _) => true,
            _ => false,
        },
        None => false,
    }
}

/// The AST is ready to be written: well formed, safe to write, and with a parents stack whose
/// indents fit in a `usize`.
pub open spec fn writable(ast: &Ast) -> bool {
    &&& ast.wf()
    &&& output_safe(ast.els())
    &&& ast.parents@.len() >= 1
    &&& 4 * ast.parents@.len() <= usize::MAX
}

proof fn lemma_child(ast: &Ast, i: int, j: int)
    requires
        ast.wf(),
        0 <= i < ast.elements@.len(),
        0 <= j < ast.els()[i].1.len(),
    ensures
        ast.els()[i].1[j] < ast.elements@.len(),
{
    elements::lemma_wf_children(ast, i, j);
}

/// Gets the output string for an element by its index.
fn get_output_for_element_index(ast: &Ast, element_index: usize, request_skip_if_element_is_handled_by_parent: bool, fuel: usize) -> (s: String)
    requires
        writable(ast),
    ensures
        s@ == out(ast.els(), ast.parents@.len(), element_index as int, request_skip_if_element_is_handled_by_parent, fuel as nat),
    decreases fuel, 0nat,
{
    if fuel == 0 || element_index >= ast.elements.len() {
        return String::new();
    }
    if request_skip_if_element_is_handled_by_parent && is_skippable_due_to_parent(ast, element_index) {
        return String::new();
    }
    let f = fuel - 1;
    let children = ast.elements[element_index].1.clone();
    assert(children@ == ast.els()[element_index as int].1);
    proof {
        assert(element_output_safe(ast.els(), element_index as int));
        assert forall|j: int| 0 <= j < children@.len() implies #[trigger] children@[j] < ast.elements@.len() by {
            lemma_child(ast, element_index as int, j);
        }
    }
    match &ast.elements[element_index].0 {
        ElementInfo::Root => String::new(),
        ElementInfo::CommentSingleLine(c) => c.clone(),
        ElementInfo::Int(v) => v.clone(),
        ElementInfo::Float(v) => v.clone(),
        ElementInfo::String(v) => text::concat_str(v, ".to_string()"),
        ElementInfo::Bool(v) => text::concat_str(v, ".to_string()"),
        ElementInfo::Arg(name, _, _, _) => name.clone(),
        ElementInfo::Struct(name, _, _) => get_output_for_struct(ast, name, &children, f),
        ElementInfo::StructEdit(_, _) => String::new(),
        ElementInfo::Constant(name, _) => name.clone(),
        ElementInfo::ConstantRef(name, _, _) => text::concat_str(name, ".clone()"),
        ElementInfo::Assignment => get_output_for_assignment(ast, &children, f),
        ElementInfo::InbuiltFunctionDef(name, _, _, _, _, _) => text::concat_str(&text::concat(&text::lit("fn "), name), "() ->{ /* stuff */ }"),
        ElementInfo::List(returntype) => get_output_for_list(ast, &children, returntype, f),
        ElementInfo::InbuiltFunctionCall(name, _, _) => get_output_for_inbuiltfncall(ast, name, &children, f),
        ElementInfo::FunctionDefWIP => String::new(),
        ElementInfo::FunctionDef(name, argnames, argtypes, returntype) => {
            let mut empty_arg_modifiers: Vec<String> = Vec::new();
            let mut k: usize = 0;
            while k < argnames.len()
                invariant
                    k <= argnames@.len(),
                    empty_arg_modifiers@.len() == k,
                    forall|j: int| 0 <= j < k ==> (#[trigger] empty_arg_modifiers@[j])@ == Seq::<char>::empty(),
                decreases argnames@.len() - k,
            {
                empty_arg_modifiers.push(String::new());
                k = k + 1;
            }
            assert(strs_view(empty_arg_modifiers@) =~= empties(argnames@.len()));
            let args = formatting::get_formatted_argname_argtype_pairs(argnames, argtypes, &empty_arg_modifiers);
            let mut o = text::concat(&text::lit("fn "), name);
            o = text::concat_str(&o, "(");
            o = text::concat(&o, &args);
            o = text::concat_str(&o, ") -> ");
            o = text::concat(&o, returntype);
            text::concat_str(&o, " {\r\n")
        },
        ElementInfo::FunctionCall(name, _) => get_output_for_functioncall(ast, name, &children, f),
        ElementInfo::Parens => get_output_for_parens(ast, &children, f),
        ElementInfo::LoopForRangeWIP => String::new(),
        ElementInfo::LoopForRange(name, from, to) => {
            let mut o = text::concat(&text::lit("For "), name);
            o = text::concat_str(&o, " in ");
            o = text::concat(&o, &text::usize_to_string(*from));
            o = text::concat_str(&o, "..");
            o = text::concat(&o, &text::usize_to_string(*to));
            text::concat_str(&o, " {\r\n")
        },
        ElementInfo::Eol => text::lit("\r\n"),
        ElementInfo::Seol => text::lit(";\r\n"),
        ElementInfo::Indent => parents::get_indent(ast),
        ElementInfo::Type(name) => name.clone(),
        ElementInfo::Unused => String::new(),
        ElementInfo::Println => get_output_for_println(ast, &children, f),
        ElementInfo::If(_) => get_output_for_if(ast, &children, f),
    }
}

/// The code of the children, one after the other.
fn concat_children(ast: &Ast, children: &Vec<usize>, fuel: usize) -> (s: String)
    requires
        writable(ast),
    ensures
        s@ == concat_out(ast.els(), ast.parents@.len(), children@, children@.len(), fuel as nat),
    decreases fuel, 1nat,
{
    let mut output = String::new();
    let mut i: usize = 0;
    while i < children.len()
        invariant
            writable(ast),
            i <= children@.len(),
            output@ == concat_out(ast.els(), ast.parents@.len(), children@, i as nat, fuel as nat),
        decreases children@.len() - i,
    {
        let child = get_output_for_element_index(ast, children[i], false, fuel);
        output = text::concat(&output, &child);
        i = i + 1;
    }
    output
}

/// Output for Parens.
fn get_output_for_parens(ast: &Ast, children: &Vec<usize>, fuel: usize) -> (s: String)
    requires
        writable(ast),
    ensures
        s@ == "("@ + concat_out(ast.els(), ast.parents@.len(), children@, children@.len(), fuel as nat) + ")"@,
    decreases fuel, 2nat,
{
    let output = concat_children(ast, children, fuel);
    text::concat_str(&text::concat(&text::lit("("), &output), ")")
}

/// Output for Println: with the `Debug` text of a struct (see `prints_struct`), else with
/// its `Display` text.
fn get_output_for_println(ast: &Ast, children: &Vec<usize>, fuel: usize) -> (s: String)
    requires
        writable(ast),
    ensures
        s@ == (if prints_struct(ast.els(), children@) {
            "println!(\"{:?}\", &"@ + concat_out(ast.els(), ast.parents@.len(), children@, children@.len(), fuel as nat) + ")"@
        } else {
            "println!(\"{}\", "@ + concat_out(ast.els(), ast.parents@.len(), children@, children@.len(), fuel as nat) + ")"@
        }),
    decreases fuel, 2nat,
{
    let output = concat_children(ast, children, fuel);
    let mut is_struct = false;
    if children.len() == 1 && children[0] < ast.elements.len() {
        if let ElementInfo::ConstantRef(_, rt, _) = &ast.elements[children[0]].0 {
            is_struct = elements::find_index(ast, rt, Lookup::Struct).is_some();
        }
    }
    if is_struct {
        text::concat_str(&text::concat(&text::lit("println!(\"{:?}\", &"), &output), ")")
    } else {
        text::concat_str(&text::concat(&text::lit("println!(\"{}\", "), &output), ")")
    }
}

/// Output for List: its items, or an empty Vec of its item type.
fn get_output_for_list(ast: &Ast, children: &Vec<usize>, returntype: &String, fuel: usize) -> (s: String)
    requires
        writable(ast),
        text::is_ascii_text(returntype@),
    ensures
        s@ == (if children@.len() > 0 {
            "vec![ "@ + joined(ast.els(), ast.parents@.len(), children@, children@.len(), fuel as nat) + " ]"@
        } else {
            "Vec::<"@ + vec_item_type(returntype@) + ">::new()"@
        }),
    decreases fuel, 1nat,
{
    if children.len() > 0 {
        let mut output = String::new();
        let mut i: usize = 0;
        while i < children.len()
            invariant
                writable(ast),
                i <= children@.len(),
                output@ == joined(ast.els(), ast.parents@.len(), children@, i as nat, fuel as nat),
            decreases children@.len() - i,
        {
            let child_output = get_output_for_element_index(ast, children[i], false, fuel);
            let no_first_comma = if i == 0 { text::lit("") } else { text::lit(", ") };
            output = text::concat(&text::concat(&output, &no_first_comma), &child_output);
            i = i + 1;
        }
        text::concat_str(&text::concat(&text::lit("vec![ "), &output), " ]")
    } else {
        let chars = text::chars_of(returntype);
        let n = chars.len();
        let mut vec_type = returntype.clone();
        if n > 5 && chars[0] == 'V' && chars[1] == 'e' && chars[2] == 'c' {
            proof { reveal_strlit("Vec"); }
            assert(returntype@.take(3) =~= "Vec"@);
            vec_type = text::string_from_chars(vstd::slice::slice_subrange(chars.as_slice(), 4, n - 1));
        } else {
            proof {
                reveal_strlit("Vec");
                if n > 5 && returntype@.take(3) == "Vec"@ {
                    assert(returntype@.take(3)[0] == 'V');
                    assert(returntype@.take(3)[1] == 'e');
                    assert(returntype@.take(3)[2] == 'c');
                }
            }
        }
        text::concat_str(&text::concat(&text::lit("Vec::<"), &vec_type), ">::new()")
    }
}


/// The children of a struct: each holds a constant, which holds a value.
pub open spec fn struct_shaped(els: Seq<(InfoV, Seq<usize>)>, ch: Seq<usize>) -> bool {
    forall|j: int| 0 <= j < ch.len() ==> #[trigger] els[ch[j] as int].1.len() >= 1 && els[els[ch[j] as int].1[0] as int].1.len() >= 1
}

/// Output for Struct: a call of its `new` with the constants' values.
fn get_output_for_struct(ast: &Ast, name: &String, children: &Vec<usize>, fuel: usize) -> (s: String)
    requires
        writable(ast),
        forall|k: int| 0 <= k < children@.len() ==> #[trigger] children@[k] < ast.elements@.len(),
        struct_shaped(ast.els(), children@),
    ensures
        s@ == name@ + "::new("@ + struct_args(ast.els(), ast.parents@.len(), children@, children@.len(), fuel as nat) + ")"@,
    decreases fuel, 1nat,
{
    let mut args_output = String::new();
    let mut i: usize = 0;
    while i < children.len()
        invariant
            writable(ast),
            forall|k: int| 0 <= k < children@.len() ==> #[trigger] children@[k] < ast.elements@.len(),
            struct_shaped(ast.els(), children@),
            i <= children@.len(),
            args_output@ == struct_args(ast.els(), ast.parents@.len(), children@, i as nat, fuel as nat),
        decreases children@.len() - i,
    {
        let c = children[i];
        assert(ast.els()[c as int].1.len() >= 1);
        proof { lemma_child(ast, c as int, 0); }
        let constant = ast.elements[c].1[0];
        assert(ast.els()[constant as int].1.len() >= 1);
        proof { lemma_child(ast, constant as int, 0); }
        let arg_ref = ast.elements[constant].1[0];
        let arg = get_output_for_element_index(ast, arg_ref, false, fuel);
        let no_first_comma = if i == 0 { text::lit("") } else { text::lit(", ") };
        args_output = text::concat(&text::concat(&args_output, &no_first_comma), &arg);
        i = i + 1;
    }
    text::concat_str(&text::concat(&text::concat_str(name, "::new("), &args_output), ")")
}

/// Output for Assignment: "let name: type = ", with "mut " when the value is a struct.
fn get_output_for_assignment(ast: &Ast, children: &Vec<usize>, fuel: usize) -> (s: String)
    requires
        writable(ast),
        forall|k: int| 0 <= k < children@.len() ==> #[trigger] children@[k] < ast.elements@.len(),
        (children@.len() >= 1 && ast.els()[children@[0] as int].0 is Constant) ==> ast.els()[children@[0] as int].1.len() >= 1,
    ensures
        s@ == assignment_out(ast.els(), ast.parents@.len(), children@, fuel as nat),
    decreases fuel, 1nat,
{
    if children.len() < 1 {
        return text::lit("// let ?: ? = ? OUTPUT ERROR: Can't get constant for this assignment from : []");
    }
    let constant_index = children[0];
    let constant_output = get_output_for_element_index(ast, constant_index, false, fuel);
    let mut returntype = text::lit("Undefined");
    let mut mut_if_assigning_to_struct = text::lit("");
    if let ElementInfo::Constant(_, r) = &ast.elements[constant_index].0 {
        returntype = r.clone();
        proof { lemma_child(ast, constant_index as int, 0); }
        let constant_first_child_ref = ast.elements[constant_index].1[0];
        if let ElementInfo::Struct(_, _, _) = &ast.elements[constant_first_child_ref].0 {
            mut_if_assigning_to_struct = text::lit("mut ");
        }
    }
    let mut o = text::concat(&text::lit("let "), &mut_if_assigning_to_struct);
    o = text::concat(&o, &constant_output);
    o = text::concat_str(&o, ": ");
    o = text::concat(&o, &returntype);
    text::concat_str(&o, " = ")
}

/// Output for a call of an inbuilt function.
fn get_output_for_inbuiltfncall(ast: &Ast, name: &String, children: &Vec<usize>, fuel: usize) -> (s: String)
    requires
        writable(ast),
        forall|k: int| 0 <= k < children@.len() ==> #[trigger] children@[k] < ast.elements@.len(),
    ensures
        s@ == inbuilt_out(ast.els(), ast.parents@.len(), name@, children@, fuel as nat),
    decreases fuel, 1nat,
{
    if let Some(ElementInfo::InbuiltFunctionDef(_, argnames, _, _, _, format)) = elements::get_inbuilt_function_by_name(ast, name) {
        let mut output = format.clone();
        let mut i: usize = 0;
        while i < argnames.len()
            invariant
                writable(ast),
                i <= argnames@.len(),
                output@ == inbuilt_args(ast.els(), ast.parents@.len(), format@, children@, i as nat, fuel as nat),
                forall|k: int| 0 <= k < children@.len() ==> #[trigger] children@[k] < ast.elements@.len(),
            decreases argnames@.len() - i,
        {
            if i < children.len() {
                let arg_var_num = text::concat(&text::lit("arg~"), &text::usize_to_string(i + 1));
                proof {
                    reveal_strlit("arg~");
                }
                assert(arg_var_num@.len() > 0);
                let arg_output = get_output_for_element_index(ast, children[i], true, fuel);
                output = text::replace_str(&output, &arg_var_num, &arg_output);
            }
            i = i + 1;
        }
        if children.len() > 0 && children.len() - 1 == argnames.len() {
            let last_child = elements::get_last_element(ast);
            if let ElementInfo::Seol = &last_child.0 {
                output = text::concat_str(&output, ";\r\n");
            }
        }
        return output;
    }
    String::new()
}

/// Output for a function call: the name and the arguments, each argument that the function
/// takes as a function borrowed with "&".
fn get_output_for_functioncall(ast: &Ast, name: &String, arguments: &Vec<usize>, fuel: usize) -> (s: String)
    requires
        writable(ast),
        forall|k: int| 0 <= k < arguments@.len() ==> #[trigger] arguments@[k] < ast.elements@.len(),
    ensures
        s@ == name@ + "("@ + call_args(ast.els(), ast.parents@.len(), name@, arguments@, arguments@.len(), fuel as nat) + ")"@,
    decreases fuel, 1nat,
{
    let mut args = String::new();
    let mut i: usize = 0;
    while i < arguments.len()
        invariant
            writable(ast),
            i <= arguments@.len(),
            args@ == call_args(ast.els(), ast.parents@.len(), name@, arguments@, i as nat, fuel as nat),
            forall|k: int| 0 <= k < arguments@.len() ==> #[trigger] arguments@[k] < ast.elements@.len(),
        decreases arguments@.len() - i,
    {
        let arg = get_output_for_element_index(ast, arguments[i], false, fuel);
        let mut borrow = text::lit("");
        let ghost expected_borrow = match find(ast.els(), Lookup::Function, name@) {
            Some(d) => match ast.els()[d].0 {
                InfoV::FunctionDef(_, _, argtypes, _) => if argtypes.len() == arguments@.len() && seq_contains(argtypes[i as int], "&dyn Fn"@) {
                    "&"@
                } else {
                    ""@
                },
                _ => ""@,
            },
            None => ""@,
        };
        if let Some(fndef_ref) = elements::get_function_index_by_name(ast, name) {
            assert(ast.els()[fndef_ref as int].0 == ast.elements@[fndef_ref as int].0@);
            if let ElementInfo::FunctionDef(_, _, argtypes, _) = &ast.elements[fndef_ref].0 {
                if argtypes.len() == arguments.len() {
                    assert(strs_view(argtypes@)[i as int] == argtypes@[i as int]@);
                    if text::contains(&argtypes[i], "&dyn Fn") {
                        borrow = text::lit("&");
                    }
                }
            }
        }
        assert(borrow@ == expected_borrow);
        let comma = if i == arguments.len() - 1 { text::lit("") } else { text::lit(", ") };
        args = text::concat(&text::concat(&text::concat(&args, &borrow), &arg), &comma);
        i = i + 1;
    }
    text::concat_str(&text::concat(&text::concat_str(name, "("), &args), ")")
}

/// Output for If.
fn get_output_for_if(ast: &Ast, children: &Vec<usize>, fuel: usize) -> (s: String)
    requires
        writable(ast),
        forall|k: int| 0 <= k < children@.len() ==> #[trigger] children@[k] < ast.elements@.len(),
    ensures
        s@ == if_out(ast.els(), ast.parents@.len(), children@, fuel as nat),
    decreases fuel, 1nat,
{
    if children.len() < 3 {
        return String::new();
    }
    let n = ast.parents.len();
    let child1_output = get_output_for_element_index(ast, children[0], false, fuel);
    let mut output = text::concat_str(&text::concat(&text::lit("if "), &child1_output), " {");
    let child2_output = get_output_for_element_index(ast, children[1], false, fuel);
    output = text::concat_str(&output, "\r\n");
    output = text::concat(&output, &text::repeat_str(" ", 4 * n));
    output = text::concat(&output, &child2_output);
    output = text::concat_str(&output, "\r\n");
    output = text::concat(&output, &text::repeat_str(" ", 4 * (n - 1)));
    output = text::concat_str(&output, "} else {");
    let child3_output = get_output_for_element_index(ast, children[2], false, fuel);
    output = text::concat_str(&output, "\r\n");
    output = text::concat(&output, &text::repeat_str(" ", 4 * n));
    output = text::concat(&output, &child3_output);
    output = text::concat_str(&output, "\r\n");
    output = text::concat(&output, &text::repeat_str(" ", 4 * (n - 1)));
    text::concat_str(&output, "}")
}


/// The children of the elements of a level, each element's children in reverse order.
pub open spec fn next_level(els: Seq<(InfoV, Seq<usize>)>, level: Seq<usize>) -> Seq<usize>
    decreases level.len(),
{
    if level.len() == 0 {
        Seq::empty()
    } else {
        next_level(els, level.drop_last()) + els[level.last() as int].1.reverse()
    }
}

/// The levels below `level`, each the children of the one before (in reverse order), until
/// an empty one or `fuel` levels.
pub open spec fn depth_levels(els: Seq<(InfoV, Seq<usize>)>, level: Seq<usize>, fuel: nat) -> Seq<Seq<usize>>
    decreases fuel,
{
    let next = next_level(els, level);
    if fuel == 0 || next.len() == 0 {
        Seq::empty()
    } else {
        seq![next] + depth_levels(els, next, (fuel - 1) as nat)
    }
}

/// The levels of the AST, from the root's children down (at most as many levels below as
/// there are elements, which no AST without cycles reaches).
pub open spec fn depths_of(els: Seq<(InfoV, Seq<usize>)>) -> Seq<Seq<usize>> {
    seq![els[0].1] + depth_levels(els, els[0].1, els.len())
}

/// The levels flattened from the deepest to the highest.
pub open spec fn flat_rev(depths: Seq<Seq<usize>>) -> Seq<usize>
    decreases depths.len(),
{
    if depths.len() == 0 {
        Seq::empty()
    } else {
        depths.last() + flat_rev(depths.drop_last())
    }
}

/// A reversed copy of a list of indexes.
fn reversed(v: &Vec<usize>) -> (r: Vec<usize>)
    ensures
        r@ == v@.reverse(),
{
    let mut r: Vec<usize> = Vec::new();
    let mut i: usize = v.len();
    while i > 0
        invariant
            i <= v@.len(),
            r@ == v@.subrange(i as int, v@.len() as int).reverse(),
        decreases i,
    {
        i = i - 1;
        r.push(v[i]);
        assert(r@ =~= v@.subrange(i as int, v@.len() as int).reverse());
    }
    assert(v@.subrange(0, v@.len() as int) =~= v@);
    r
}

/// `a` followed by `b`.
fn appended(a: &Vec<usize>, b: &Vec<usize>) -> (r: Vec<usize>)
    ensures
        r@ == a@ + b@,
{
    let mut r = a.clone();
    assert(r@ =~= a@);
    let mut i: usize = 0;
    while i < b.len()
        invariant
            i <= b@.len(),
            r@ == a@ + b@.take(i as int),
        decreases b@.len() - i,
    {
        r.push(b[i]);
        i = i + 1;
        assert(r@ =~= a@ + b@.take(i as int));
    }
    assert(b@.take(i as int) =~= b@);
    r
}

/// Collects all elements of the AST by levels, so that the deepest types can be inferred
/// first and inform their parents' types: the root's children, then their children, and so
/// on, each element's children in reverse order.
pub fn get_depths_vec(ast: &mut Ast) -> (depths: Vec<Vec<usize>>)
    requires
        old(ast).wf(),
    ensures
        *final(ast) == *old(ast),
        depths@.map_values(|l: Vec<usize>| l@) == depths_of(old(ast).els()),
{
    let ghost els = ast.els();
    let n = ast.elements.len();
    let first = ast.elements[0].1.clone();
    assert(first@ == els[0].1);
    let mut depths: Vec<Vec<usize>> = Vec::new();
    depths.push(first);
    let mut current: Vec<usize> = ast.elements[0].1.clone();
    let mut fuel: usize = n;
    let ghost start = els[0].1;
    assert(depths@.map_values(|l: Vec<usize>| l@) =~= seq![start]);
    loop
        invariant
            *ast == *old(ast),
            els == ast.els(),
            ast.wf(),
            n == els.len(),
            fuel <= n,
            forall|k: int| 0 <= k < current@.len() ==> #[trigger] current@[k] < n,
            depths@.map_values(|l: Vec<usize>| l@) + depth_levels(els, current@, fuel as nat) == depths_of(els),
        ensures
            depths@.map_values(|l: Vec<usize>| l@) == depths_of(els),
            *ast == *old(ast),
        decreases fuel,
    {
        let mut next_level_v: Vec<usize> = Vec::new();
        let mut i: usize = 0;
        while i < current.len()
            invariant
                *ast == *old(ast),
                els == ast.els(),
                ast.wf(),
                n == els.len(),
                i <= current@.len(),
                forall|k: int| 0 <= k < current@.len() ==> #[trigger] current@[k] < n,
                forall|k: int| 0 <= k < next_level_v@.len() ==> #[trigger] next_level_v@[k] < n,
                next_level_v@ == next_level(els, current@.take(i as int)),
            decreases current@.len() - i,
        {
            let el_ref = current[i];
            let children = reversed(&ast.elements[el_ref].1);
            proof {
                assert forall|k: int| 0 <= k < children@.len() implies #[trigger] children@[k] < n by {
                    let j = ast.els()[el_ref as int].1.len() - 1 - k;
                    assert(children@[k] == ast.els()[el_ref as int].1[j]);
                    elements::lemma_wf_children(ast, el_ref as int, j);
                }
            }
            next_level_v = appended(&next_level_v, &children);
            i = i + 1;
            assert(current@.take(i as int).drop_last() =~= current@.take(i - 1));
        }
        assert(current@.take(i as int) =~= current@);
        if fuel == 0 || next_level_v.len() == 0 {
            assert(depth_levels(els, current@, fuel as nat) =~= Seq::<Seq<usize>>::empty());
            assert(depths@.map_values(|l: Vec<usize>| l@) =~= depths@.map_values(|l: Vec<usize>| l@) + Seq::<Seq<usize>>::empty());
            break;
        }
        let ghost prev = depths@.map_values(|l: Vec<usize>| l@);
        let ghost nl = next_level_v@;
        let copy = next_level_v.clone();
        assert(copy@ == nl);
        depths.push(copy);
        assert(depths@.map_values(|l: Vec<usize>| l@) =~= prev.push(nl));
        assert(prev.push(nl) + depth_levels(els, nl, (fuel - 1) as nat) =~= prev + (seq![nl] + depth_levels(els, nl, (fuel - 1) as nat)));
        current = next_level_v;
        fuel = fuel - 1;
    }
    depths
}

/// Flattens the levels, from the deepest to the highest, so that elements are visited
/// deepest first: a "+" of type "i64|f64" can take its type once its arguments have theirs.
pub fn get_depths_flattened(depths: &Vec<Vec<usize>>) -> (output: Vec<usize>)
    ensures
        output@ == flat_rev(depths@.map_values(|l: Vec<usize>| l@)),
{
    let ghost d = depths@.map_values(|l: Vec<usize>| l@);
    let mut output: Vec<usize> = Vec::new();
    let mut i: usize = depths.len();
    assert(d.take(i as int) =~= d);
    assert(output@ + flat_rev(d) =~= flat_rev(d));
    while i > 0
        invariant
            i <= depths@.len(),
            d == depths@.map_values(|l: Vec<usize>| l@),
            output@ + flat_rev(d.take(i as int)) == flat_rev(d),
        decreases i,
    {
        assert(d.take(i as int).drop_last() =~= d.take(i - 1));
        i = i - 1;
        output = appended(&output, &depths[i]);
        assert(output@ + flat_rev(d.take(i as int)) =~= flat_rev(d)) by {
            assert(d.take(i + 1).last() == depths@[i as int]@);
        }
    }
    assert(d.take(0) =~= Seq::<Seq<usize>>::empty());
    assert(output@ =~= output@ + Seq::<usize>::empty());
    output
}


/// The elements after the first `k` elements of `order` have had their types filled in, in
/// turn (an index outside the elements is passed over).
pub open spec fn updated_upto(els: Seq<(InfoV, Seq<usize>)>, order: Seq<usize>, k: nat) -> Seq<(InfoV, Seq<usize>)>
    decreases k,
{
    if k == 0 || k > order.len() {
        els
    } else {
        let e = updated_upto(els, order, (k - 1) as nat);
        let i = order[k - 1] as int;
        if 0 <= i < e.len() {
            e.update(i, (elements::updated_info(e, i), e[i].1))
        } else {
            e
        }
    }
}

/// One pass of type filling: every element, deepest first, takes its inferred type.
pub open spec fn types_pass(els: Seq<(InfoV, Seq<usize>)>) -> Seq<(InfoV, Seq<usize>)> {
    let order = flat_rev(depths_of(els));
    updated_upto(els, order, order.len())
}

/// `n` passes of type filling.
pub open spec fn types_replaced(els: Seq<(InfoV, Seq<usize>)>, n: nat) -> Seq<(InfoV, Seq<usize>)>
    decreases n,
{
    if n == 0 {
        els
    } else {
        types_pass(types_replaced(els, (n - 1) as nat))
    }
}

/// Goes through the AST ten times to fill in the types that are not yet known.
pub fn replace_any_unknown_types(ast: &mut Ast)
    requires
        old(ast).wf(),
    ensures
        final(ast).wf(),
        final(ast).same_but_elements(old(ast)),
        final(ast).els() == types_replaced(old(ast).els(), 10),
{
    let ghost els0 = ast.els();
    let mut pass: usize = 0;
    while pass < 10
        invariant
            pass <= 10,
            ast.wf(),
            ast.same_but_elements(old(ast)),
            ast.els() == types_replaced(els0, pass as nat),
            els0 == old(ast).els(),
        decreases 10 - pass,
    {
        let ghost start = ast.els();
        let depths = get_depths_vec(ast);
        let depths_flattened = get_depths_flattened(&depths);
        let ghost order = depths_flattened@;
        let mut k: usize = 0;
        while k < depths_flattened.len()
            invariant
                ast.wf(),
                ast.same_but_elements(old(ast)),
                k <= order.len(),
                order == depths_flattened@,
                order == flat_rev(depths_of(start)),
                ast.els() == updated_upto(start, order, k as nat),
            decreases order.len() - k,
        {
            let el_index = depths_flattened[k];
            if el_index < ast.elements.len() {
                let ghost before = ast.elements@;
                let info = elements::get_updated_elementinfo_with_infered_type(ast, el_index);
                let children = ast.elements[el_index].1.clone();
                assert(children@ == before[el_index as int].1@);
                ast.elements.set(el_index, (info, children));
                proof {
                    let new = ast.elements@;
                    assert forall|x: int, y: int|
                        0 <= x < new.len() && 0 <= y < new[x].1@.len() implies #[trigger] new[x].1@[y] < new.len() by {
                        assert(new[x].1@ == before[x].1@);
                        assert(before[x].1@[y] < before.len());
                    }
                    assert forall|x: int| 0 <= x < new.len() implies crate::ast::info_refs_ok(#[trigger] new[x].0, new.len()) by {
                        assert(crate::ast::info_refs_ok(before[x].0, before.len()));
                    }
                    assert(ast.els() =~= elements::els_view(before).update(el_index as int, (info@, before[el_index as int].1@)));
                }
            }
            k = k + 1;
        }
        pass = pass + 1;
    }
}

/// The three lists that a struct's definition is written from: "pub key: type,", "key: type,"
/// and "key," for each of the first `k` children's constants.
pub open spec fn premain_fields(els: Seq<(InfoV, Seq<usize>)>, ch: Seq<usize>, k: nat) -> (Seq<char>, Seq<char>, Seq<char>)
    decreases k,
{
    if k == 0 || k > ch.len() {
        (Seq::empty(), Seq::empty(), Seq::empty())
    } else {
        let (a, b, c) = premain_fields(els, ch, (k - 1) as nat);
        let constant = els[ch[k - 1] as int].1[0];
        match els[constant as int].0 {
            InfoV::Constant(key, t) => (
                a + "    pub "@ + key + ": "@ + t + ",\r\n"@,
                b + "        "@ + key + ": "@ + t + ",\r\n"@,
                c + "            "@ + key + ",\r\n"@,
            ),
            _ => (a, b, c),
        }
    }
}

/// The definition of a struct written before the main function: the struct with its keys
/// and types, and its `new` function.
pub open spec fn struct_premain(els: Seq<(InfoV, Seq<usize>)>, name: Seq<char>, ch: Seq<usize>) -> Seq<char> {
    let (pk, kt, keys) = premain_fields(els, ch, ch.len());
    let new_fn = "    pub fn new(\r\n"@ + kt + ") -> "@ + name + " {\r\n        "@ + name + " {\r\n"@ + keys + "        }\r\n    }"@;
    "#[derive(Clone, Debug)]\r\n"@ + "pub struct "@ + name + " {\r\n"@ + pk + "}\r\n\r\n"@ + "impl Newstruct {\r\n"@ + new_fn
        + "\r\n}\r\n\r\n"@
}

/// The code written before the main function for the element at `i`: a struct's definition.
pub open spec fn premain_out(els: Seq<(InfoV, Seq<usize>)>, i: int, skip: bool) -> Seq<char> {
    if skip && skippable(els, i) {
        Seq::empty()
    } else {
        match els[i].0 {
            InfoV::Struct(name, _, _) => struct_premain(els, name, els[i].1),
            _ => Seq::empty(),
        }
    }
}

/// Pre-main output for a struct.
fn get_premain_output_for_struct(ast: &Ast, name: &String, children: &Vec<usize>) -> (s: String)
    requires
        ast.wf(),
        forall|k: int| 0 <= k < children@.len() ==> #[trigger] children@[k] < ast.elements@.len(),
        struct_shaped(ast.els(), children@),
    ensures
        s@ == struct_premain(ast.els(), name@, children@),
{
    let mut struct_pub_keys_types = String::new();
    let mut struct_keys_types = String::new();
    let mut struct_keys = String::new();
    let mut i: usize = 0;
    while i < children.len()
        invariant
            ast.wf(),
            forall|k: int| 0 <= k < children@.len() ==> #[trigger] children@[k] < ast.elements@.len(),
            struct_shaped(ast.els(), children@),
            i <= children@.len(),
            (struct_pub_keys_types@, struct_keys_types@, struct_keys@) == premain_fields(ast.els(), children@, i as nat),
        decreases children@.len() - i,
    {
        let c = children[i];
        assert(ast.els()[c as int].1.len() >= 1);
        proof { lemma_child(ast, c as int, 0); }
        let assignment_ref = ast.elements[c].1[0];
        if let ElementInfo::Constant(key, a_type) = &ast.elements[assignment_ref].0 {
            struct_pub_keys_types = text::concat_str(&text::concat(&text::concat_str(&text::concat(&text::concat_str(&struct_pub_keys_types, "    pub "), key), ": "), a_type), ",\r\n");
            struct_keys_types = text::concat_str(&text::concat(&text::concat_str(&text::concat(&text::concat_str(&struct_keys_types, "        "), key), ": "), a_type), ",\r\n");
            struct_keys = text::concat_str(&text::concat(&text::concat_str(&struct_keys, "            "), key), ",\r\n");
        }
        i = i + 1;
    }
    let derive = text::lit("#[derive(Clone, Debug)]\r\n");
    let a_struct = text::concat_str(&text::concat(&text::concat_str(&text::concat(&text::lit("pub struct "), name), " {\r\n"), &struct_pub_keys_types), "}\r\n\r\n");
    let mut new_fn = text::concat(&text::lit("    pub fn new(\r\n"), &struct_keys_types);
    new_fn = text::concat(&text::concat_str(&new_fn, ") -> "), name);
    new_fn = text::concat(&text::concat_str(&new_fn, " {\r\n        "), name);
    new_fn = text::concat(&text::concat_str(&new_fn, " {\r\n"), &struct_keys);
    new_fn = text::concat_str(&new_fn, "        }\r\n    }");
    let mut o = text::concat(&derive, &a_struct);
    o = text::concat(&text::concat_str(&o, "impl Newstruct {\r\n"), &new_fn);
    text::concat_str(&o, "\r\n}\r\n\r\n")
}

/// Gets the code before the main function for an element: a struct's definition.
fn get_premain_output_for_element_index(ast: &Ast, element_index: usize, request_skip_if_element_is_handled_by_parent: bool) -> (s: String)
    requires
        ast.wf(),
        output_safe(ast.els()),
        element_index < ast.elements@.len(),
    ensures
        s@ == premain_out(ast.els(), element_index as int, request_skip_if_element_is_handled_by_parent),
{
    if request_skip_if_element_is_handled_by_parent && is_skippable_due_to_parent(ast, element_index) {
        return String::new();
    }
    if let ElementInfo::Struct(name, _, _) = &ast.elements[element_index].0 {
        let children = ast.elements[element_index].1.clone();
        assert(children@ == ast.els()[element_index as int].1);
        proof {
            assert(element_output_safe(ast.els(), element_index as int));
            assert forall|j: int| 0 <= j < children@.len() implies #[trigger] children@[j] < ast.elements@.len() by {
                lemma_child(ast, element_index as int, j);
            }
        }
        get_premain_output_for_struct(ast, name, &children)
    } else {
        String::new()
    }
}


/// The state of writing the AST: its elements, the stack of elements still to write (a 0
/// marks the end of the element after it), the parents stack (whose length gives the
/// indent), the main output and the output before the main function.
#[verifier::ext_equal]
pub struct OutState {
    pub els: Seq<(InfoV, Seq<usize>)>,
    pub stack: Seq<usize>,
    pub parents: Seq<usize>,
    pub out: Seq<char>,
    pub pre: Seq<char>,
}

/// The writing state of an AST.
pub open spec fn out_state(ast: &Ast) -> OutState {
    OutState {
        els: ast.els(),
        stack: ast.output_stack@,
        parents: ast.parents@,
        out: ast.output@,
        pre: ast.premain_output@,
    }
}

/// The end of the element at `tag`: a function definition's or a loop's closing brace, on
/// its own indented line; a struct's children are dropped.
pub open spec fn close_state(st: OutState, tag: int) -> OutState {
    if 0 <= tag < st.els.len() {
        let ind = spaces((4 * (st.parents.len() - 1)) as nat);
        match st.els[tag].0 {
            InfoV::FunctionDef(_, _, _, _) => OutState { out: st.out + "\r\n"@ + ind + "}\r\n"@, ..st },
            InfoV::LoopForRange(_, _, _) => OutState { out: st.out + ";\r\n"@ + ind + "}"@, ..st },
            InfoV::Struct(_, _, _) => OutState { els: st.els.update(tag, (st.els[tag].0, Seq::empty())), ..st },
            _ => st,
        }
    } else {
        st
    }
}

/// One step of writing: the first element of the stack is written (and its children, but
/// for an inbuilt function call's or a struct's, are put first on the stack, followed by an
/// end marker, and the indent grows), or an end marker closes the element after it.
pub open spec fn output_step(st: OutState) -> OutState {
    let cur = st.stack[0];
    let rest = st.stack.skip(1);
    if cur == 0 {
        let s1 = close_state(OutState { stack: rest, parents: outdented(st.parents), ..st }, rest[0] as int);
        OutState { stack: rest.skip(1), ..s1 }
    } else {
        let ch = st.els[cur as int].1;
        let pre = st.pre + premain_out(st.els, cur as int, true);
        let o = st.out + out(st.els, st.parents.len(), cur as int, true, st.els.len());
        let render = !(st.els[cur as int].0 is InbuiltFunctionCall) && !(st.els[cur as int].0 is Struct) && ch.len() > 0;
        if render {
            OutState {
                stack: ch + seq![0usize, cur] + rest,
                parents: st.parents.push((st.els.len() - 1) as usize),
                out: o,
                pre,
                ..st
            }
        } else {
            OutState { stack: rest, out: o, pre, ..st }
        }
    }
}

/// The most steps that writing takes (a bound that no AST without cycles reaches).
pub open spec fn max_steps() -> nat {
    (usize::MAX / 8) as nat
}

/// Writing until the stack is empty, or for `steps` steps.
pub open spec fn output_run(st: OutState, steps: nat) -> OutState
    decreases steps,
{
    if steps == 0 || st.stack.len() == 0 {
        st
    } else {
        output_run(output_step(st), (steps - 1) as nat)
    }
}

/// Where writing starts: the root's children on the stack, two parents, and "fn main() {"
/// after the output so far.
pub open spec fn out_start(els: Seq<(InfoV, Seq<usize>)>, output: Seq<char>, premain: Seq<char>) -> OutState {
    OutState { els, stack: els[0].1, parents: seq![0usize, 0usize], out: output + "fn main() {\r\n"@, pre: premain }
}

/// Append a string to the output string.
fn set_output_append(ast: &mut Ast, append_string: &str)
    ensures
        final(ast).output@ == old(ast).output@ + append_string@,
        final(ast).elements == old(ast).elements,
        final(ast).parents == old(ast).parents,
        final(ast).output_stack == old(ast).output_stack,
        final(ast).premain_output == old(ast).premain_output,
        final(ast).debug == old(ast).debug,
        final(ast).logs == old(ast).logs,
        final(ast).debug_compiler_history == old(ast).debug_compiler_history,
{
    ast.output = text::concat_str(&ast.output, append_string);
}

/// Append a string to the output string for the code before the main function.
fn set_premain_output_append(ast: &mut Ast, append_string: &String)
    ensures
        final(ast).premain_output@ == old(ast).premain_output@ + append_string@,
        final(ast).elements == old(ast).elements,
        final(ast).parents == old(ast).parents,
        final(ast).output_stack == old(ast).output_stack,
        final(ast).output == old(ast).output,
        final(ast).debug == old(ast).debug,
        final(ast).logs == old(ast).logs,
        final(ast).debug_compiler_history == old(ast).debug_compiler_history,
{
    ast.premain_output = text::concat(&ast.premain_output, append_string);
}

/// The stack holds elements, and each end marker is followed by an element other than a
/// struct.
pub open spec fn stack_ok(els: Seq<(InfoV, Seq<usize>)>, stack: Seq<usize>) -> bool {
    &&& forall|k: int| 0 <= k < stack.len() ==> #[trigger] stack[k] < els.len()
    &&& forall|k: int| 0 <= k < stack.len() && #[trigger] stack[k] == 0 ==> k + 1 < stack.len() && !(els[stack[k + 1] as int].0 is Struct)
}

/// Checks that every element can be written out (see `output_safe`).
#[verifier::loop_isolation(false)]
fn check_output_safe(ast: &Ast) -> (b: bool)
    requires
        ast.wf(),
    ensures
        b == output_safe(ast.els()),
{
    let n = ast.elements.len();
    let mut i: usize = 0;
    while i < n
        invariant
            n == ast.elements@.len(),
            ast.wf(),
            i <= n,
            forall|k: int| 0 <= k < i ==> #[trigger] element_output_safe(ast.els(), k),
        decreases n - i,
    {
        let ghost els = ast.els();
        let ch = &ast.elements[i].1;
        assert(ch@ == els[i as int].1);
        let mut j: usize = 0;
        while j < ch.len()
            invariant
                j <= ch@.len(),
                forall|k: int| 0 <= k < j ==> #[trigger] ch@[k] != 0,
            decreases ch@.len() - j,
        {
            if ch[j] == 0 {
                assert(!element_output_safe(els, i as int));
                return false;
            }
            j = j + 1;
        }
        match &ast.elements[i].0 {
            ElementInfo::Struct(_, _, _) => {
                let mut j: usize = 0;
                while j < ch.len()
                    invariant
                        ast.wf(),
                        i < n,
                        n == ast.elements@.len(),
                        els == ast.els(),
                        ch@ == els[i as int].1,
                        els[i as int].0 is Struct,
                        j <= ch@.len(),
                        forall|k: int| 0 <= k < j ==> #[trigger] els[ch@[k] as int].1.len() >= 1 && els[els[ch@[k] as int].1[0] as int].1.len() >= 1,
                    decreases ch@.len() - j,
                {
                    proof { lemma_child(ast, i as int, j as int); }
                    let c = ch[j];
                    if ast.elements[c].1.len() < 1 {
                        assert(els[ch@[j as int] as int].1.len() < 1);
                        assert(!element_output_safe(els, i as int));
                        return false;
                    }
                    proof { lemma_child(ast, c as int, 0); }
                    let constant = ast.elements[c].1[0];
                    if ast.elements[constant].1.len() < 1 {
                        assert(els[ch@[j as int] as int].1.len() >= 1);
                        assert(els[els[ch@[j as int] as int].1[0] as int].1.len() < 1);
                        assert(!element_output_safe(els, i as int));
                        return false;
                    }
                    j = j + 1;
                }
            },
            ElementInfo::Assignment => {
                if ch.len() >= 1 {
                    proof { lemma_child(ast, i as int, 0); }
                    let c = ch[0];
                    if let ElementInfo::Constant(_, _) = &ast.elements[c].0 {
                        if ast.elements[c].1.len() < 1 {
                            assert(!element_output_safe(els, i as int));
                            return false;
                        }
                    }
                }
            },
            ElementInfo::FunctionDef(_, names, types, _) => {
                if types.len() < names.len() {
                    assert(!element_output_safe(els, i as int));
                    return false;
                }
            },
            ElementInfo::List(rt) => {
                let chars = text::chars_of(rt);
                let mut k: usize = 0;
                while k < chars.len()
                    invariant
                        k <= chars@.len(),
                        chars@ == rt@,
                        forall|m: int| 0 <= m < k ==> (#[trigger] chars@[m] as u32) < 128,
                    decreases chars@.len() - k,
                {
                    if (chars[k] as u32) >= 128 {
                        assert(!text::is_ascii_text(rt@));
                        assert(!element_output_safe(els, i as int));
                        return false;
                    }
                    k = k + 1;
                }
            },
            _ => {},
        }
        assert(element_output_safe(els, i as int));
        i = i + 1;
    }
    true
}


/// Appends the element's code before the main function: a struct's definition.
fn set_premain_output_for_element(ast: &mut Ast, el_index: usize)
    requires
        old(ast).wf(),
        output_safe(old(ast).els()),
        el_index < old(ast).elements@.len(),
    ensures
        final(ast).premain_output@ == old(ast).premain_output@ + premain_out(old(ast).els(), el_index as int, true),
        final(ast).elements == old(ast).elements,
        final(ast).parents == old(ast).parents,
        final(ast).output_stack == old(ast).output_stack,
        final(ast).output == old(ast).output,
        final(ast).debug == old(ast).debug,
        final(ast).logs == old(ast).logs,
        final(ast).debug_compiler_history == old(ast).debug_compiler_history,
{
    let element_string = get_premain_output_for_element_index(ast, el_index, true);
    set_premain_output_append(ast, &element_string);
}

/// The code that opens the element at `i`, written at the AST's current depth.
pub open spec fn open_out(ast: &Ast, i: int) -> Seq<char> {
    out(ast.els(), ast.parents@.len(), i, true, ast.elements@.len())
}

/// Appends the element's code to the output.
fn set_output_for_element_open(ast: &mut Ast, el_index: usize)
    requires
        writable(old(ast)),
    ensures
        final(ast).output@ == old(ast).output@ + open_out(old(ast), el_index as int),
        final(ast).elements == old(ast).elements,
        final(ast).parents == old(ast).parents,
        final(ast).output_stack == old(ast).output_stack,
        final(ast).premain_output == old(ast).premain_output,
        final(ast).debug == old(ast).debug,
        final(ast).logs == old(ast).logs,
        final(ast).debug_compiler_history == old(ast).debug_compiler_history,
{
    let element_string = get_output_for_element_index(ast, el_index, true, ast.elements.len());
    set_output_append(ast, element_string.as_str());
}

/// Appends the end of the element: a closing brace for a function definition or a loop; a
/// struct's children are dropped.
fn set_output_for_element_close(ast: &mut Ast, el_index: usize)
    requires
        old(ast).wf(),
        old(ast).parents@.len() >= 1,
        4 * old(ast).parents@.len() <= usize::MAX,
    ensures
        out_state(final(ast)) == close_state(out_state(old(ast)), el_index as int),
        final(ast).wf(),
        final(ast).debug == old(ast).debug,
        final(ast).logs == old(ast).logs,
        final(ast).debug_compiler_history == old(ast).debug_compiler_history,
{
    let ghost st = out_state(ast);
    if el_index < ast.elements.len() {
        let mut element_string = String::new();
        let mut is_struct = false;
        match &ast.elements[el_index].0 {
            ElementInfo::FunctionDef(_, _, _, _) => {
                element_string = text::concat_str(&text::concat(&text::lit("\r\n"), &parents::get_indent(ast)), "}\r\n");
            },
            ElementInfo::LoopForRange(_, _, _) => {
                element_string = text::concat_str(&text::concat(&text::lit(";\r\n"), &parents::get_indent(ast)), "}");
            },
            ElementInfo::Struct(_, _, _) => {
                is_struct = true;
            },
            _ => {},
        }
        if is_struct {
            let ghost before = ast.elements@;
            ast.elements[el_index].1 = Vec::new();
            proof {
                let new = ast.elements@;
                assert forall|x: int, y: int|
                    0 <= x < new.len() && 0 <= y < new[x].1@.len() implies #[trigger] new[x].1@[y] < new.len() by {
                    assert(new[x].1@ == before[x].1@);
                    assert(before[x].1@[y] < before.len());
                }
                assert forall|x: int| 0 <= x < new.len() implies crate::ast::info_refs_ok(#[trigger] new[x].0, new.len()) by {
                    assert(crate::ast::info_refs_ok(before[x].0, before.len()));
                }
                assert(ast.els() =~= elements::els_view(before).update(el_index as int, (before[el_index as int].0@, Seq::<usize>::empty())));
                assert(out_state(ast).els =~= close_state(st, el_index as int).els);
            }
        } else {
            set_output_append(ast, element_string.as_str());
            proof {
                assert(""@ =~= Seq::<char>::empty()) by {
                    reveal_strlit("");
                }
                assert(out_state(ast).out =~= close_state(st, el_index as int).out);
                assert(out_state(ast).els =~= close_state(st, el_index as int).els);
            }
        }
    }
}

/// Puts the element's children first on the stack, followed by an end marker and the
/// element itself, and indents one level.
fn indent_and_add_children(compiler: &mut Compiler, current_el_index: usize, children: Vec<usize>) -> (stack: Vec<usize>)
    requires
        old(compiler).wf(),
    ensures
        stack@ == children@ + seq![0usize, current_el_index] + old(compiler).ast.output_stack@,
        final(compiler).wf(),
        final(compiler).same_but_ast(old(compiler)),
        final(compiler).error_stack == old(compiler).error_stack,
        final(compiler).ast.same_but_parents(&old(compiler).ast),
        final(compiler).ast.parents@ == old(compiler).ast.parents@.push((old(compiler).ast.elements@.len() - 1) as usize),
{
    let mut marker: Vec<usize> = Vec::new();
    marker.push(0);
    marker.push(current_el_index);
    let head = appended(&children, &marker);
    let new_stack = appended(&head, &compiler.ast.output_stack);
    parents::indent::indent(&mut compiler.ast);
    assert(marker@ =~= seq![0usize, current_el_index]);
    new_stack
}

/// Outdents, writes the end of the element that follows the end marker, and gives back the
/// stack without that element.
fn output_end_of_element_and_outdent(compiler: &mut Compiler) -> (stack: Vec<usize>)
    requires
        old(compiler).wf(),
        old(compiler).ast.output_stack@.len() >= 1,
        4 * old(compiler).ast.parents@.len() <= usize::MAX,
    ensures
        ({
            let st = out_state(&old(compiler).ast);
            let closed = close_state(OutState { parents: outdented(st.parents), ..st }, st.stack[0] as int);
            &&& out_state(&final(compiler).ast) == closed
            &&& stack@ == st.stack.skip(1)
        }),
        final(compiler).wf(),
        final(compiler).same_but_ast(old(compiler)),
        final(compiler).error_stack == old(compiler).error_stack,
        final(compiler).ast.debug == old(compiler).ast.debug,
        final(compiler).ast.logs == old(compiler).ast.logs,
        final(compiler).ast.debug_compiler_history == old(compiler).ast.debug_compiler_history,
{
    let ghost st = out_state(&compiler.ast);
    parents::outdent::outdent(compiler);
    proof {
        assert(parents::outdent::outdented_times(st.parents, 0) == st.parents);
        assert(compiler.ast.parents@ == outdented(st.parents));
    }
    let end_tag = compiler.ast.output_stack[0];
    set_output_for_element_close(&mut compiler.ast, end_tag);
    parents::vec_remove_head(&compiler.ast.output_stack)
}

/// One more step of writing is the step after those already taken, unless the stack ran
/// empty.
proof fn lemma_output_run_step(st: OutState, n: nat)
    ensures
        output_run(st, n + 1) == (if output_run(st, n).stack.len() == 0 { output_run(st, n) } else { output_step(output_run(st, n)) }),
    decreases n,
{
    if st.stack.len() > 0 {
        if n > 0 {
            lemma_output_run_step(output_step(st), (n - 1) as nat);
            assert(output_run(st, n) == output_run(output_step(st), (n - 1) as nat));
            assert(output_run(st, n + 1) == output_run(output_step(st), n));
        } else {
            assert(output_run(output_step(st), 0) == output_step(st));
            assert(output_run(st, 1) == output_run(output_step(st), 0));
        }
    }
}

/// Once the stack has run empty, further steps change nothing.
proof fn lemma_output_run_stable(st: OutState, n: nat, m: nat)
    requires
        n <= m,
        output_run(st, n).stack.len() == 0,
    ensures
        output_run(st, m) == output_run(st, n),
    decreases m - n,
{
    if n < m {
        lemma_output_run_step(st, n);
        lemma_output_run_stable(st, n + 1, m);
    }
}

/// Takes one step of writing (see `output_step`).
fn output_one_step(compiler: &mut Compiler)
    requires
        old(compiler).wf(),
        output_safe(old(compiler).ast.els()),
        old(compiler).ast.output_stack@.len() >= 1,
        stack_ok(old(compiler).ast.els(), old(compiler).ast.output_stack@),
        old(compiler).ast.parents@.len() >= 1,
        4 * (old(compiler).ast.parents@.len() + 1) <= usize::MAX,
    ensures
        out_state(&final(compiler).ast) == output_step(out_state(&old(compiler).ast)),
        final(compiler).wf(),
        final(compiler).same_but_ast(old(compiler)),
        final(compiler).error_stack == old(compiler).error_stack,
        final(compiler).ast.debug == old(compiler).ast.debug,
        final(compiler).ast.els() == old(compiler).ast.els(),
        stack_ok(final(compiler).ast.els(), final(compiler).ast.output_stack@),
        1 <= final(compiler).ast.parents@.len() <= old(compiler).ast.parents@.len() + 1,
{
    let ghost pre_st = out_state(&compiler.ast);
    let ghost typed = compiler.ast.els();
    let cur = compiler.ast.output_stack[0];
    let ghost rest = pre_st.stack.skip(1);
    compiler.ast.output_stack = parents::vec_remove_head(&compiler.ast.output_stack);
    if cur == 0 {
        proof {
            assert(pre_st.stack[0] == 0);
            assert(!(typed[pre_st.stack[1] as int].0 is Struct));
        }
        let s = output_end_of_element_and_outdent(compiler);
        compiler.ast.output_stack = s;
        proof {
            assert(out_state(&compiler.ast) =~= output_step(pre_st));
            assert forall|k: int| 0 <= k < compiler.ast.output_stack@.len() && #[trigger] compiler.ast.output_stack@[k] == 0
                implies k + 1 < compiler.ast.output_stack@.len() && !(typed[compiler.ast.output_stack@[k + 1] as int].0 is Struct) by {
                assert(compiler.ast.output_stack@[k] == pre_st.stack[k + 2]);
                assert(compiler.ast.output_stack@[k + 1] == pre_st.stack[k + 3]);
            }
            assert forall|k: int| 0 <= k < compiler.ast.output_stack@.len() implies #[trigger] compiler.ast.output_stack@[k] < typed.len() by {
                assert(compiler.ast.output_stack@[k] == pre_st.stack[k + 2]);
            }
        }
    } else {
        let children = compiler.ast.elements[cur].1.clone();
        let render = match &compiler.ast.elements[cur].0 {
            ElementInfo::InbuiltFunctionCall(_, _, _) => false,
            ElementInfo::Struct(_, _, _) => false,
            _ => children.len() > 0,
        };
        set_premain_output_for_element(&mut compiler.ast, cur);
        set_output_for_element_open(&mut compiler.ast, cur);
        if render {
            let s = indent_and_add_children(compiler, cur, children);
            compiler.ast.output_stack = s;
            proof {
                assert(out_state(&compiler.ast) =~= output_step(pre_st));
                let ns = compiler.ast.output_stack@;
                let ch = typed[cur as int].1;
                assert(element_output_safe(typed, cur as int));
                assert forall|k: int| 0 <= k < ns.len() implies #[trigger] ns[k] < typed.len() by {
                    if k < ch.len() {
                        assert(ns[k] == ch[k]);
                        assert(compiler.ast.elements@[cur as int].1@[k] < typed.len());
                    } else if k >= ch.len() + 2 {
                        assert(ns[k] == pre_st.stack[k - ch.len() - 1]);
                    }
                }
                assert forall|k: int| 0 <= k < ns.len() && #[trigger] ns[k] == 0
                    implies k + 1 < ns.len() && !(typed[ns[k + 1] as int].0 is Struct) by {
                    if k < ch.len() {
                        assert(ns[k] == ch[k]);
                    } else if k >= ch.len() + 2 {
                        assert(ns[k] == pre_st.stack[k - ch.len() - 1]);
                        assert(ns[k + 1] == pre_st.stack[k - ch.len()]);
                    }
                }
            }
        } else {
            proof {
                assert(out_state(&compiler.ast) =~= output_step(pre_st));
                assert forall|k: int| 0 <= k < compiler.ast.output_stack@.len() && #[trigger] compiler.ast.output_stack@[k] == 0
                    implies k + 1 < compiler.ast.output_stack@.len() && !(typed[compiler.ast.output_stack@[k + 1] as int].0 is Struct) by {
                    assert(compiler.ast.output_stack@[k] == pre_st.stack[k + 1]);
                    assert(compiler.ast.output_stack@[k + 1] == pre_st.stack[k + 2]);
                }
                assert forall|k: int| 0 <= k < compiler.ast.output_stack@.len() implies #[trigger] compiler.ast.output_stack@[k] < typed.len() by {
                    assert(compiler.ast.output_stack@[k] == pre_st.stack[k + 1]);
                }
            }
        }
    }
}

/// The written Rust program for an AST whose types were filled in: the code before the main
/// function, then the main function with the code of every element; `None` where some
/// element cannot be written (see `output_safe`).
pub open spec fn program_state(els: Seq<(InfoV, Seq<usize>)>, output: Seq<char>, premain: Seq<char>) -> Option<OutState> {
    if output_safe(els) {
        Some(output_run(out_start(els, output, premain), max_steps()))
    } else {
        None
    }
}

/// `new` is `old` with its program written (see `set_output`).
pub open spec fn output_written(old: &Compiler, new: &Compiler) -> bool {
    &&& new.wf()
    &&& new.same_but_ast(old)
    &&& new.error_stack == old.error_stack
    &&& new.ast.debug == old.ast.debug
    &&& match program_state(types_replaced(old.ast.els(), 10), old.ast.output@, old.ast.premain_output@) {
        Some(st) => {
            &&& new.ast.output@ == st.pre + st.out + "}\r\n"@
            &&& new.ast.premain_output@ == st.pre
            &&& new.ast.els() == st.els
            &&& new.ast.output_stack@ == st.stack
            &&& new.ast.parents@ == outdented(st.parents)
        },
        None => {
            &&& new.ast.els() == types_replaced(old.ast.els(), 10)
            &&& new.ast.output == old.ast.output
            &&& new.ast.premain_output == old.ast.premain_output
            &&& new.ast.output_stack == old.ast.output_stack
            &&& new.ast.parents == old.ast.parents
        },
    }
}

/// Writes the program of an AST whose elements can all be written.
fn write_program(compiler: &mut Compiler)
    requires
        old(compiler).wf(),
        output_safe(old(compiler).ast.els()),
    ensures
        ({
            let st = output_run(out_start(old(compiler).ast.els(), old(compiler).ast.output@, old(compiler).ast.premain_output@), max_steps());
            &&& final(compiler).ast.output@ == st.pre + st.out + "}\r\n"@
            &&& final(compiler).ast.premain_output@ == st.pre
            &&& final(compiler).ast.els() == st.els
            &&& final(compiler).ast.output_stack@ == st.stack
            &&& final(compiler).ast.parents@ == outdented(st.parents)
        }),
        final(compiler).wf(),
        final(compiler).same_but_ast(old(compiler)),
        final(compiler).error_stack == old(compiler).error_stack,
        final(compiler).ast.debug == old(compiler).ast.debug,
{
    let ghost c0 = *compiler;
    let ghost typed = compiler.ast.els();
    set_output_append(&mut compiler.ast, "fn main() {\r\n");
    let mut start_parents: Vec<usize> = Vec::new();
    start_parents.push(0);
    start_parents.push(0);
    compiler.ast.parents = start_parents;
    compiler.ast.output_stack = compiler.ast.elements[0].1.clone();
    let ghost start = out_start(typed, c0.ast.output@, c0.ast.premain_output@);
    proof {
        assert(compiler.ast.parents@ =~= seq![0usize, 0usize]);
        assert(out_state(&compiler.ast) =~= start);
        assert(element_output_safe(typed, 0));
        assert forall|k: int| 0 <= k < compiler.ast.output_stack@.len() implies #[trigger] compiler.ast.output_stack@[k] < typed.len() by {
            assert(compiler.ast.output_stack@[k] == compiler.ast.elements@[0].1@[k]);
        }
    }
    let limit: usize = usize::MAX / 8;
    let mut steps: usize = 0;
    while steps < limit && compiler.ast.output_stack.len() > 0
        invariant
            limit == max_steps(),
            steps <= limit,
            compiler.wf(),
            compiler.same_but_ast(&c0),
            compiler.error_stack == c0.error_stack,
            compiler.ast.debug == c0.ast.debug,
            compiler.ast.els() == typed,
            output_safe(typed),
            1 <= compiler.ast.parents@.len() <= 2 + steps,
            stack_ok(typed, compiler.ast.output_stack@),
            out_state(&compiler.ast) == output_run(start, steps as nat),
        decreases limit - steps,
    {
        proof {
            lemma_output_run_step(start, steps as nat);
        }
        output_one_step(compiler);
        steps = steps + 1;
    }
    proof {
        if steps < limit {
            lemma_output_run_stable(start, steps as nat, max_steps());
        }
    }
    let ghost fin = out_state(&compiler.ast);
    parents::outdent::outdent(compiler);
    proof {
        assert(parents::outdent::outdented_times(fin.parents, 0) == fin.parents);
    }
    set_output_append(&mut compiler.ast, "}\r\n");
    compiler.ast.output = text::concat(&compiler.ast.premain_output, &compiler.ast.output);
}

/// Writes the program: fills in the open types, then writes each element in turn from a
/// stack that starts with the root's children (an element's children are written inside
/// it, one level deeper), inside `fn main() { .. }`, with the code that must stand before
/// the main function (struct definitions) put first. Where some element cannot be written
/// (see `output_safe`) only the types are filled in.
pub fn set_output(compiler: &mut Compiler)
    requires
        old(compiler).wf(),
    ensures
        output_written(old(compiler), final(compiler)),
{
    replace_any_unknown_types(&mut compiler.ast);
    if check_output_safe(&compiler.ast) {
        write_program(compiler);
    }
}

/// Filling in types passes over the elements in place: the AST keeps its length and every
/// element keeps its children.
proof fn lemma_updated_upto_keeps_tree(els: Seq<(InfoV, Seq<usize>)>, order: Seq<usize>, k: nat)
    ensures
        updated_upto(els, order, k).len() == els.len(),
        forall|i: int| 0 <= i < els.len() ==> #[trigger] updated_upto(els, order, k)[i].1 == els[i].1,
    decreases k,
{
    if k > 0 && k <= order.len() {
        lemma_updated_upto_keeps_tree(els, order, (k - 1) as nat);
    }
}

/// Filling in the types, any number of passes, leaves the shape of the tree as it was: the
/// same elements with the same children; only their infos change.
pub proof fn types_keep_tree(els: Seq<(InfoV, Seq<usize>)>, n: nat)
    ensures
        types_replaced(els, n).len() == els.len(),
        forall|i: int| 0 <= i < els.len() ==> #[trigger] types_replaced(els, n)[i].1 == els[i].1,
    decreases n,
{
    if n > 0 {
        types_keep_tree(els, (n - 1) as nat);
        let prev = types_replaced(els, (n - 1) as nat);
        let order = flat_rev(depths_of(prev));
        lemma_updated_upto_keeps_tree(prev, order, order.len());
    }
}

/// Writing only adds to the output and to the code before the main function: what was
/// written before any number of steps stays at the start of both.
pub proof fn writing_only_appends(st: OutState, n: nat)
    ensures
        st.out.is_prefix_of(output_run(st, n).out),
        st.pre.is_prefix_of(output_run(st, n).pre),
    decreases n,
{
    if n > 0 && st.stack.len() > 0 {
        let next = output_step(st);
        assert(st.out.is_prefix_of(next.out) && st.pre.is_prefix_of(next.pre)) by {
            let cur = st.stack[0];
            let rest = st.stack.skip(1);
            if cur == 0 {
                let s0 = OutState { stack: rest, parents: outdented(st.parents), ..st };
                let tag = rest[0] as int;
                if 0 <= tag < s0.els.len() {
                    let ind = spaces((4 * (s0.parents.len() - 1)) as nat);
                    match s0.els[tag].0 {
                        InfoV::FunctionDef(_, _, _, _) => {
                            assert(next.out =~= st.out + ("\r\n"@ + ind + "}\r\n"@));
                        },
                        InfoV::LoopForRange(_, _, _) => {
                            assert(next.out =~= st.out + (";\r\n"@ + ind + "}"@));
                        },
                        _ => {},
                    }
                }
            }
        }
        writing_only_appends(next, (n - 1) as nat);
    }
}

/// A written program is the code before the main function (which starts with what was
/// there before), then the output that was there before, `fn main() {`, the code of the
/// elements, and the closing brace of the main function.
pub proof fn written_program_shape(old: &Compiler, new: &Compiler)
    requires
        output_written(old, new),
        program_state(types_replaced(old.ast.els(), 10), old.ast.output@, old.ast.premain_output@) is Some,
    ensures
        ({
            let st = program_state(types_replaced(old.ast.els(), 10), old.ast.output@, old.ast.premain_output@)->0;
            &&& new.ast.output@ == st.pre + st.out + "}\r\n"@
            &&& old.ast.premain_output@.is_prefix_of(st.pre)
            &&& (old.ast.output@ + "fn main() {\r\n"@).is_prefix_of(st.out)
        }),
{
    let typed = types_replaced(old.ast.els(), 10);
    let start = out_start(typed, old.ast.output@, old.ast.premain_output@);
    writing_only_appends(start, max_steps());
}

/// `x` is an entry of one of the levels.
pub open spec fn in_some_level(d: Seq<Seq<usize>>, x: usize) -> bool {
    exists|i: int, j: int| 0 <= i < d.len() && 0 <= j < d[i].len() && #[trigger] d[i][j] == x
}

/// Flattening the levels keeps every entry and adds none, and puts the deepest level
/// first.
pub proof fn flattening_keeps_every_entry(d: Seq<Seq<usize>>)
    ensures
        forall|i: int, j: int| 0 <= i < d.len() && 0 <= j < d[i].len() ==> flat_rev(d).contains(#[trigger] d[i][j]),
        forall|k: int| 0 <= k < flat_rev(d).len() ==> in_some_level(d, #[trigger] flat_rev(d)[k]),
        d.len() > 0 ==> d.last().is_prefix_of(flat_rev(d)),
    decreases d.len(),
{
    if d.len() > 0 {
        let init = d.drop_last();
        flattening_keeps_every_entry(init);
        let last = d.last();
        let rest = flat_rev(init);
        assert(flat_rev(d) == last + rest);
        assert forall|i: int, j: int| 0 <= i < d.len() && 0 <= j < d[i].len() implies flat_rev(d).contains(#[trigger] d[i][j]) by {
            if i == d.len() - 1 {
                assert(flat_rev(d)[j] == d[i][j]);
            } else {
                assert(init[i] == d[i]);
                assert(rest.contains(init[i][j]));
                let k = choose|k: int| 0 <= k < rest.len() && rest[k] == init[i][j];
                assert(flat_rev(d)[last.len() + k] == rest[k]);
            }
        }
        assert forall|k: int| 0 <= k < flat_rev(d).len() implies in_some_level(d, #[trigger] flat_rev(d)[k]) by {
            if k < last.len() {
                assert(d[d.len() - 1][k] == flat_rev(d)[k]);
            } else {
                let r = k - last.len();
                assert(flat_rev(d)[k] == rest[r]);
                assert(in_some_level(init, rest[r]));
                let (i, j) = choose|i: int, j: int| 0 <= i < init.len() && 0 <= j < init[i].len() && #[trigger] init[i][j] == rest[r];
                assert(d[i] == init[i]);
                assert(d[i][j] == flat_rev(d)[k]);
            }
        }
    }
}

} // verus!
