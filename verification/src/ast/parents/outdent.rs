//! Outdenting the parser out of a code block, by the kind of the block and how much of it
//! has been parsed.
use crate::ast::elements::{self, find, Element, ElementInfo, InfoV, Lookup};
use crate::ast::parents::{self, parent_of};
use crate::ast::Ast;
use crate::parse::{self, dyn_fn_args};
use crate::Compiler;
use vstd::prelude::*;

verus! {

/// The parents stack after one outdent: the last parent removed, or only the root left.
pub open spec fn outdented(parents: Seq<usize>) -> Seq<usize> {
    if parents.len() < 2 {
        seq![0usize]
    } else {
        parents.subrange(0, parents.len() - 1)
    }
}

/// An outdent undoes an indent: pushing a parent and then outdenting gives back the parents
/// stack as it was.
pub proof fn outdent_undoes_indent(parents: Seq<usize>, parent: usize)
    requires
        parents.len() >= 1,
    ensures
        outdented(parents.push(parent)) == parents,
{
    assert(parents.push(parent).subrange(0, parents.len() as int) =~= parents);
}

/// The parents stack after `n` outdents.
pub open spec fn outdented_times(parents: Seq<usize>, n: nat) -> Seq<usize>
    decreases n,
{
    if n == 0 {
        parents
    } else {
        outdented(outdented_times(parents, (n - 1) as nat))
    }
}

/// `new` is `old` outdented `n` times, and nothing else changed.
pub open spec fn outdented_by(old: &Compiler, new: &Compiler, n: nat) -> bool {
    &&& new.wf()
    &&& new.same_but_ast(old)
    &&& new.error_stack == old.error_stack
    &&& new.ast.same_but_parents(&old.ast)
    &&& new.ast.parents@ == outdented_times(old.ast.parents@, n)
}

proof fn lemma_outdent_step(old: &Compiler, mid: &Compiler, new: &Compiler, n: nat)
    requires
        outdented_by(old, mid, n),
        outdented_by(mid, new, 1),
    ensures
        outdented_by(old, new, n + 1),
{
    assert(outdented_times(mid.ast.parents@, 0) == mid.ast.parents@);
}

proof fn lemma_outdent_none(c: &Compiler)
    requires
        c.wf(),
    ensures
        outdented_by(c, c, 0),
{
}

/// Removes the last parent, leaving the parser in the enclosing block; only the root is left
/// when there is no enclosing block.
pub fn outdent(compiler: &mut Compiler)
    requires
        old(compiler).wf(),
    ensures
        outdented_by(old(compiler), final(compiler), 1),
{
    if compiler.ast.parents.len() < 2 {
        compiler.ast.parents = vec![0];
        assert(compiler.ast.parents@ =~= seq![0usize]);
    } else {
        compiler.ast.parents = parents::vec_remove_tail(&compiler.ast.parents);
    }
    assert(outdented_times(old(compiler).ast.parents@, 0) == old(compiler).ast.parents@);
}

/// Outdents `n` times.
fn outdent_times(compiler: &mut Compiler, n: usize)
    requires
        old(compiler).wf(),
    ensures
        outdented_by(old(compiler), final(compiler), n as nat),
{
    let ghost c0 = *compiler;
    proof { lemma_outdent_none(&c0); }
    let mut i: usize = 0;
    while i < n
        invariant
            i <= n,
            outdented_by(&c0, compiler, i as nat),
        decreases n - i,
    {
        let ghost mid = *compiler;
        outdent(compiler);
        proof { lemma_outdent_step(&c0, &mid, compiler, i as nat); }
        i = i + 1;
    }
}

/// How many outdents follow a return expression in a function definition, when the
/// function's last child is `last` after an Indent.
pub open spec fn fndef_return_outdents(els: Seq<(InfoV, Seq<usize>)>, last: InfoV) -> nat {
    match last {
        InfoV::List(_) | InfoV::Int(_) | InfoV::Float(_) | InfoV::String(_) | InfoV::Bool(_)
        | InfoV::Constant(_, _) | InfoV::ConstantRef(_, _, _) | InfoV::If(_) => 2,
        InfoV::InbuiltFunctionCall(_, fndefref, _) => inbuiltfndef_outdents(els, fndefref as int),
        InfoV::FunctionCall(name, _) => fndef_call_outdents(els, name),
        _ => 0,
    }
}

/// How many outdents follow an inbuilt function call inside a function definition: two, and
/// one more for a definition with as many children as arguments.
pub open spec fn inbuiltfndef_outdents(els: Seq<(InfoV, Seq<usize>)>, fndefref: int) -> nat {
    match els[fndefref].0 {
        InfoV::InbuiltFunctionDef(_, argnames, _, _, _, _) => if els[fndefref].1.len() == argnames.len() {
            3
        } else {
            2
        },
        _ => 0,
    }
}

/// How many outdents follow a call of the function `name` inside a function definition.
pub open spec fn fndef_call_outdents(els: Seq<(InfoV, Seq<usize>)>, name: Seq<char>) -> nat {
    match find(els, Lookup::Function, name) {
        Some(i) => match els[i].0 {
            InfoV::FunctionDef(_, argnames, _, _) => if els[i].1.len() == argnames.len() {
                2
            } else {
                1
            },
            _ => 0,
        },
        None => 0,
    }
}

/// How many outdents end a function definition at its return expression: when its last child
/// follows an Indent, as many as that return expression needs.
pub open spec fn within_fndef_outdents(els: Seq<(InfoV, Seq<usize>)>, cp: int) -> nat {
    let children = els[cp].1;
    if children.len() < 2 {
        0
    } else {
        let last = els[children[children.len() - 1] as int].0;
        let second_last = els[children[children.len() - 2] as int].0;
        if second_last is Indent {
            fndef_return_outdents(els, last)
        } else {
            0
        }
    }
}

/// Outdents from within a function definition, by the return expression that ends it.
pub fn within_fndef_from_return_expression(compiler: &mut Compiler)
    requires
        old(compiler).wf(),
    ensures
        outdented_by(old(compiler), final(compiler), within_fndef_outdents(old(compiler).ast.els(), old(compiler).ast.current_parent())),
{
    let this_fn_ref = parents::get_current_parent_ref_from_parents(&compiler.ast);
    let n = compiler.ast.elements[this_fn_ref].1.len();
    if n < 2 {
        outdent_times(compiler, 0);
        return;
    }
    let last_child_ref = compiler.ast.elements[this_fn_ref].1[n - 1];
    let second_last_child_ref = compiler.ast.elements[this_fn_ref].1[n - 2];
    proof {
        elements::lemma_wf_children(&compiler.ast, this_fn_ref as int, n - 1);
        elements::lemma_wf_children(&compiler.ast, this_fn_ref as int, n - 2);
    }
    let last_child = elements::copy_element(&compiler.ast.elements[last_child_ref]);
    match &compiler.ast.elements[second_last_child_ref].0 {
        ElementInfo::Indent => {
            match last_child.0 {
                ElementInfo::List(_) | ElementInfo::Int(_) | ElementInfo::Float(_)
                | ElementInfo::String(_) | ElementInfo::Bool(_) | ElementInfo::Constant(_, _)
                | ElementInfo::ConstantRef(_, _, _) | ElementInfo::If(_) => {
                    outdent_times(compiler, 2);
                },
                ElementInfo::InbuiltFunctionCall(_, fndefref, _) => {
                    proof {
                        assert(crate::ast::info_refs_ok(compiler.ast.elements@[last_child_ref as int].0, compiler.ast.elements@.len()));
                    }
                    within_fndef_for_inbuiltfncall_from_inbuiltfndef(compiler, fndefref);
                },
                ElementInfo::FunctionCall(name, _) => {
                    within_fndef_for_fncall_from_fndef(compiler, &name);
                },
                _ => {
                    outdent_times(compiler, 0);
                },
            }
        },
        _ => {
            outdent_times(compiler, 0);
        },
    }
}

/// Outdents after an inbuilt function call that ends a function definition.
pub fn within_fndef_for_inbuiltfncall_from_inbuiltfndef(compiler: &mut Compiler, fndefref: usize)
    requires
        old(compiler).wf(),
        fndefref < old(compiler).ast.elements@.len(),
    ensures
        outdented_by(old(compiler), final(compiler), inbuiltfndef_outdents(old(compiler).ast.els(), fndefref as int)),
{
    let fndef = &compiler.ast.elements[fndefref];
    match &fndef.0 {
        ElementInfo::InbuiltFunctionDef(_, argnames, _, _, _, _) => {
            if fndef.1.len() == argnames.len() {
                outdent_times(compiler, 3);
            } else {
                outdent_times(compiler, 2);
            }
        },
        _ => {
            outdent_times(compiler, 0);
        },
    }
}

/// Whether an inbuilt function call with this many children is complete.
pub open spec fn inbuiltfncall_outdents(els: Seq<(InfoV, Seq<usize>)>, num_children: nat, fndefref: int) -> nat {
    match els[fndefref].0 {
        InfoV::InbuiltFunctionDef(_, argnames, _, _, _, _) => if num_children == argnames.len() {
            1
        } else {
            0
        },
        _ => 0,
    }
}

/// Outdents from an inbuilt function call once it has one child per argument.
pub fn inbuiltfncall_from_inbuiltfndef(compiler: &mut Compiler, current_parent: Element, fndefref: usize)
    requires
        old(compiler).wf(),
        fndefref < old(compiler).ast.elements@.len(),
    ensures
        outdented_by(old(compiler), final(compiler), inbuiltfncall_outdents(old(compiler).ast.els(), current_parent.1@.len(), fndefref as int)),
{
    match &compiler.ast.elements[fndefref].0 {
        ElementInfo::InbuiltFunctionDef(_, argnames, _, _, _, _) => {
            if current_parent.1.len() == argnames.len() {
                outdent_times(compiler, 1);
            } else {
                outdent_times(compiler, 0);
            }
        },
        _ => {
            outdent_times(compiler, 0);
        },
    }
}

/// Outdents after a call of a defined function that ends a function definition.
pub fn within_fndef_for_fncall_from_fndef(compiler: &mut Compiler, name: &String)
    requires
        old(compiler).wf(),
    ensures
        outdented_by(old(compiler), final(compiler), fndef_call_outdents(old(compiler).ast.els(), name@)),
{
    if let Some(index) = elements::get_function_index_by_name(&compiler.ast, name) {
        let fndef = &compiler.ast.elements[index];
        match &fndef.0 {
            ElementInfo::FunctionDef(_, argnames, _, _) => {
                if fndef.1.len() == argnames.len() {
                    outdent_times(compiler, 2);
                } else {
                    outdent_times(compiler, 1);
                }
            },
            _ => {
                outdent_times(compiler, 0);
            },
        }
    } else {
        outdent_times(compiler, 0);
    }
}

/// How many outdents a function call with this parent needs.
pub open spec fn fncall_outdents(els: Seq<(InfoV, Seq<usize>)>, cp: int, current_parent: (InfoV, Seq<usize>), name: Seq<char>) -> nat {
    match current_parent.0 {
        InfoV::Println => if current_parent.1.len() > 0 {
            1
        } else {
            0
        },
        _ => match find(els, Lookup::Function, name) {
            Some(i) => match els[i].0 {
                InfoV::FunctionDef(_, argnames, _, _) => fncall_of_fndef_outdents(els, cp, current_parent.1.len(), argnames.len()),
                InfoV::Arg(_, _, _, rt) => fncall_of_arg_outdents(rt, current_parent.1.len()),
                _ => 0,
            },
            None => 0,
        },
    }
}

/// Outdents from a function call once it is complete.
pub fn fncall(compiler: &mut Compiler, current_parent: Element, name: String)
    requires
        old(compiler).wf(),
    ensures
        outdented_by(old(compiler), final(compiler), fncall_outdents(old(compiler).ast.els(), old(compiler).ast.current_parent(), elements::el_view(current_parent), name@)),
{
    match current_parent.0 {
        ElementInfo::Println => println(compiler, current_parent),
        _ => {
            if let Some(index) = elements::get_function_index_by_name(&compiler.ast, &name) {
                match &compiler.ast.elements[index].0 {
                    ElementInfo::FunctionDef(_, argnames, _, _) => {
                        let args = argnames.len();
                        functioncall_of_functiondef(compiler, current_parent.1.len(), args);
                    },
                    ElementInfo::Arg(_, _, _, returntype) => {
                        let r = returntype.clone();
                        functioncall_of_arg(compiler, &r, current_parent.1.len());
                    },
                    _ => {
                        outdent_times(compiler, 0);
                    },
                }
            } else {
                outdent_times(compiler, 0);
            }
        },
    }
}

/// Outdents from a Println once it has its child.
pub fn println(compiler: &mut Compiler, current_parent: Element)
    requires
        old(compiler).wf(),
    ensures
        outdented_by(old(compiler), final(compiler), if current_parent.1@.len() > 0 { 1 } else { 0 }),
{
    if current_parent.1.len() > 0 {
        outdent_times(compiler, 1);
    } else {
        outdent_times(compiler, 0);
    }
}

/// Outdents from a struct edit, which is called once it has its child.
pub fn struct_edit(compiler: &mut Compiler, current_parent: Element)
    requires
        old(compiler).wf(),
    ensures
        outdented_by(old(compiler), final(compiler), 1),
{
    outdent(compiler);
}

/// Outdents from a Constant once it has its value.
pub fn constant(compiler: &mut Compiler, current_parent: Element)
    requires
        old(compiler).wf(),
    ensures
        outdented_by(old(compiler), final(compiler), if current_parent.1@.len() > 0 { 1 } else { 0 }),
{
    if current_parent.1.len() > 0 {
        outdent_times(compiler, 1);
    } else {
        outdent_times(compiler, 0);
    }
}

/// Outdents from an Assignment once it has its constant.
pub fn assignment(compiler: &mut Compiler, current_parent: Element)
    requires
        old(compiler).wf(),
    ensures
        outdented_by(old(compiler), final(compiler), if current_parent.1@.len() > 0 { 1 } else { 0 }),
{
    if current_parent.1.len() > 0 {
        outdent_times(compiler, 1);
    } else {
        outdent_times(compiler, 0);
    }
}

/// Outdents from an If once it has its condition and both values.
pub fn if_expression(compiler: &mut Compiler, current_parent: Element)
    requires
        old(compiler).wf(),
    ensures
        outdented_by(old(compiler), final(compiler), if current_parent.1@.len() > 2 { 1 } else { 0 }),
{
    if current_parent.1.len() > 2 {
        outdent_times(compiler, 1);
    } else {
        outdent_times(compiler, 0);
    }
}

/// How many outdents a call of a function argument of type `returntype` needs: two once it
/// has one child per argument of that type.
pub open spec fn fncall_of_arg_outdents(returntype: Seq<char>, num_children: nat) -> nat {
    if num_children > 0 && num_children == dyn_fn_args(returntype) {
        2
    } else {
        0
    }
}

/// Outdents from a call of a function argument once it has all its arguments.
pub fn functioncall_of_arg(compiler: &mut Compiler, returntype: &String, num_children: usize)
    requires
        old(compiler).wf(),
    ensures
        outdented_by(old(compiler), final(compiler), fncall_of_arg_outdents(returntype@, num_children as nat)),
{
    let args = parse::get_args_from_dyn_fn(returntype);
    if num_children > 0 && num_children == args {
        outdent_times(compiler, 2);
    } else {
        outdent_times(compiler, 0);
    }
}

/// The current parent is an argument of a call of "List::mapindex", which gives the
/// function it is handed its arguments itself.
pub open spec fn is_mapindex_arg(els: Seq<(InfoV, Seq<usize>)>, cp: int) -> bool {
    match parent_of(els, cp as usize) {
        Some(p) => els[p].0 matches InfoV::InbuiltFunctionCall(name, _, _) && name == "List::mapindex"@,
        None => false,
    }
}

/// How many outdents a call of a defined function needs: one once it has one child per
/// argument, or at once when it is handed to "List::mapindex".
pub open spec fn fncall_of_fndef_outdents(els: Seq<(InfoV, Seq<usize>)>, cp: int, num_children: nat, args: nat) -> nat {
    if (num_children > 0 && num_children == args) || is_mapindex_arg(els, cp) {
        1
    } else {
        0
    }
}

/// Outdents from a call of a defined function once it has all its arguments.
pub fn functioncall_of_functiondef(compiler: &mut Compiler, num_children: usize, args: usize)
    requires
        old(compiler).wf(),
    ensures
        outdented_by(old(compiler), final(compiler), fncall_of_fndef_outdents(old(compiler).ast.els(), old(compiler).ast.current_parent(), num_children as nat, args as nat)),
{
    let this_el_ref = parents::get_current_parent_ref_from_parents(&compiler.ast);
    let mut is_mapindex = false;
    if let Some(p) = parents::get_current_parent_ref_from_element_children_search(&compiler.ast, this_el_ref) {
        if let ElementInfo::InbuiltFunctionCall(name, _, _) = &compiler.ast.elements[p].0 {
            is_mapindex = text_eq(name, "List::mapindex");
        }
    }
    if (num_children > 0 && num_children == args) || is_mapindex {
        outdent_times(compiler, 1);
    } else {
        outdent_times(compiler, 0);
    }
}

fn text_eq(s: &String, lit: &str) -> (b: bool)
    ensures
        b == (s@ == lit@),
{
    *s == crate::text::lit(lit)
}

} // verus!
