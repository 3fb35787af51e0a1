//! Indenting the parser into a code block.
use crate::ast::Ast;
use vstd::prelude::*;

verus! {

/// Indent by pushing the last element onto the parents stack.
pub fn indent(ast: &mut Ast)
    requires
        old(ast).wf(),
    ensures
        final(ast).wf(),
        final(ast).same_but_parents(old(ast)),
        final(ast).parents@ == old(ast).parents@.push((old(ast).elements@.len() - 1) as usize),
{
    let last = ast.elements.len() - 1;
    ast.parents.push(last);
}

/// Indent by pushing the given element index onto the parents stack.
pub fn indent_this(ast: &mut Ast, index: usize)
    requires
        old(ast).wf(),
        index < old(ast).elements@.len(),
    ensures
        final(ast).wf(),
        final(ast).same_but_parents(old(ast)),
        final(ast).parents@ == old(ast).parents@.push(index),
{
    ast.parents.push(index);
}

} // verus!
