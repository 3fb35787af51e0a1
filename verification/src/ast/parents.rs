//! The parents stack: the elements that the parser is inside, the last one innermost.
//!
//! If element 3 is the first child of 2, and 2 the first child of 1, then while element 3
//! is parsed the stack ends with `[1, 2, 3]`; when 3 is finished it is popped, leaving `[1, 2]`.
pub mod indent;
pub mod outdent;

use crate::ast::elements::{copy_element, el_view, Element, InfoV};
use crate::ast::Ast;
use crate::text;
use vstd::prelude::*;

verus! {

impl Ast {
    /// The innermost parent.
    pub open spec fn current_parent(&self) -> int {
        self.parents@.last() as int
    }

    /// The two ASTs differ at most in their elements.
    pub open spec fn same_but_elements(&self, other: &Ast) -> bool {
        &&& self.parents == other.parents
        &&& self.output == other.output
        &&& self.output_stack == other.output_stack
        &&& self.premain_output == other.premain_output
        &&& self.debug == other.debug
        &&& self.logs == other.logs
        &&& self.debug_compiler_history == other.debug_compiler_history
    }

    /// The elements other than the parents stack are the same in both ASTs.
    pub open spec fn same_but_parents(&self, other: &Ast) -> bool {
        &&& self.elements == other.elements
        &&& self.output == other.output
        &&& self.output_stack == other.output_stack
        &&& self.premain_output == other.premain_output
        &&& self.debug == other.debug
        &&& self.logs == other.logs
        &&& self.debug_compiler_history == other.debug_compiler_history
    }
}

/// The smallest index of an element whose children contain `child`, if any.
#[verifier::opaque]
pub open spec fn parent_of(els: Seq<(InfoV, Seq<usize>)>, child: usize) -> Option<int> {
    if exists|i: int| 0 <= i < els.len() && els[i].1.contains(child) {
        let i = choose|i: int|
            0 <= i < els.len() && els[i].1.contains(child) && forall|k: int|
                0 <= k < i ==> !els[k].1.contains(child);
        Some(i)
    } else {
        None
    }
}

/// There is a smallest index with the property whenever there is one at all.
pub proof fn lemma_parent_of(els: Seq<(InfoV, Seq<usize>)>, child: usize, i: int)
    requires
        0 <= i < els.len(),
        els[i].1.contains(child),
        forall|k: int| 0 <= k < i ==> !els[k].1.contains(child),
    ensures
        parent_of(els, child) == Some(i),
{
    reveal(parent_of);
    let j = choose|j: int|
        0 <= j < els.len() && els[j].1.contains(child) && forall|k: int|
            0 <= k < j ==> !els[k].1.contains(child);
    assert(0 <= j < els.len() && els[j].1.contains(child) && forall|k: int|
        0 <= k < j ==> !els[k].1.contains(child));
    if j < i {
    } else if i < j {
    }
}

/// Whether `x` is in `v`.
pub fn vec_contains(v: &Vec<usize>, x: usize) -> (b: bool)
    ensures
        b == v@.contains(x),
{
    let mut j: usize = 0;
    while j < v.len()
        invariant
            j <= v@.len(),
            forall|m: int| 0 <= m < j ==> v@[m] != x,
        decreases v@.len() - j,
    {
        if v[j] == x {
            assert(v@[j as int] == x);
            return true;
        }
        j = j + 1;
    }
    false
}

/// Get the current parent as an Element.
pub fn get_current_parent_element_from_parents(ast: &Ast) -> (el: Element)
    requires
        ast.wf(),
    ensures
        el_view(el) == ast.els()[ast.current_parent()],
{
    let parent_ref = get_current_parent_ref_from_parents(ast);
    copy_element(&ast.elements[parent_ref])
}

/// Get the current parent as an element index.
pub fn get_current_parent_ref_from_parents(ast: &Ast) -> (r: usize)
    requires
        ast.wf(),
    ensures
        r == ast.current_parent(),
        r < ast.elements@.len(),
{
    let last = ast.parents.len() - 1;
    ast.parents[last]
}

/// The element that has `child_ref` among its children, if there is one.
pub fn get_current_parent_element_from_element_children_search(ast: &Ast, child_ref: usize) -> (r:
    Option<Element>)
    ensures
        match parent_of(ast.els(), child_ref) {
            Some(i) => r is Some && el_view(r->0) == ast.els()[i],
            None => r is None,
        },
{
    proof { reveal(parent_of); }
    if let Some(index) = get_current_parent_ref_from_element_children_search(ast, child_ref) {
        return Some(copy_element(&ast.elements[index]));
    }
    None
}

/// The index of the first element that has `child_ref` among its children, if there is one.
pub fn get_current_parent_ref_from_element_children_search(ast: &Ast, child_ref: usize) -> (r:
    Option<usize>)
    ensures
        match r {
            Some(k) => parent_of(ast.els(), child_ref) == Some(k as int) && k < ast.elements@.len(),
            None => parent_of(ast.els(), child_ref) is None,
        },
{
    let mut i: usize = 0;
    while i < ast.elements.len()
        invariant
            i <= ast.elements@.len(),
            forall|k: int| 0 <= k < i ==> !(#[trigger] ast.els()[k]).1.contains(child_ref),
        decreases ast.elements@.len() - i,
    {
        if vec_contains(&ast.elements[i].1, child_ref) {
            proof {
                lemma_parent_of(ast.els(), child_ref, i as int);
            }
            return Some(i);
        }
        i = i + 1;
    }
    proof { reveal(parent_of); }
    None
}

/// Spaces for the current depth: four for each parent below the outermost.
pub fn get_indent(ast: &Ast) -> (s: String)
    requires
        ast.parents@.len() >= 1,
        4 * (ast.parents@.len() - 1) <= usize::MAX,
    ensures
        s@ == text::repeat(" "@, (4 * (ast.parents@.len() - 1)) as nat),
{
    text::repeat_str(" ", 4 * (ast.parents.len() - 1))
}

/// The stack without its first item.
pub fn vec_remove_head(stack: &Vec<usize>) -> (r: Vec<usize>)
    requires
        stack@.len() >= 1,
    ensures
        r@ == stack@.subrange(1, stack@.len() as int),
{
    let mut r: Vec<usize> = Vec::new();
    let mut i: usize = 1;
    while i < stack.len()
        invariant
            1 <= i <= stack@.len(),
            r@ == stack@.subrange(1, i as int),
        decreases stack@.len() - i,
    {
        r.push(stack[i]);
        i = i + 1;
        assert(r@ =~= stack@.subrange(1, i as int));
    }
    r
}

/// The stack without its last item.
pub fn vec_remove_tail(stack: &Vec<usize>) -> (r: Vec<usize>)
    requires
        stack@.len() >= 1,
    ensures
        r@ == stack@.subrange(0, stack@.len() - 1),
{
    let mut r: Vec<usize> = Vec::new();
    let mut i: usize = 0;
    while i < stack.len() - 1
        invariant
            i <= stack@.len() - 1,
            r@ == stack@.subrange(0, i as int),
        decreases stack@.len() - i,
    {
        r.push(stack[i]);
        i = i + 1;
        assert(r@ =~= stack@.subrange(0, i as int));
    }
    r
}

} // verus!
