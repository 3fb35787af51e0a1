//! Appending elements to the AST.
//!
//! Each function here takes the parser one token further: it appends the token's elements,
//! checks that the current parent may hold them, and then indents into or outdents out of
//! blocks. Their contracts speak of the AST as plain values, an `AstState`.
use crate::ast::elements::{self, els_view, el_view, Element, ElementInfo, InfoV};
use crate::ast::parents::{self, outdent, parent_of};
use crate::ast::{info_refs_ok, parents_ok, tree_wf, Ast};
use crate::errors::{self, error_text, parent_msg};
use crate::text;
use crate::Compiler;
use vstd::prelude::*;

verus! {

/// The elements of an AST and its stack of parents, as plain values.
pub struct AstState {
    pub els: Seq<(InfoV, Seq<usize>)>,
    pub parents: Seq<usize>,
}

impl Ast {
    /// The elements and the parents stack as plain values.
    pub open spec fn state(&self) -> AstState {
        AstState { els: self.els(), parents: self.parents@ }
    }

    /// The two ASTs have the same outputs, logs and settings; their elements and parents
    /// may differ.
    pub open spec fn same_but_tree(&self, other: &Ast) -> bool {
        &&& self.output == other.output
        &&& self.output_stack == other.output_stack
        &&& self.premain_output == other.premain_output
        &&& self.debug == other.debug
        &&& self.logs == other.logs
        &&& self.debug_compiler_history == other.debug_compiler_history
    }
}

/// The innermost parent of a state.
pub open spec fn parent_of_state(s: AstState) -> int {
    s.parents.last() as int
}

/// The state with an element of this info and no children added at the end, as the last
/// child of the current parent.
pub open spec fn push_el(s: AstState, info: InfoV) -> AstState {
    let p = parent_of_state(s);
    AstState {
        els: s.els.update(p, (s.els[p].0, s.els[p].1.push(s.els.len() as usize))).push((info, Seq::empty())),
        parents: s.parents,
    }
}

/// The state with its last element pushed onto the parents stack.
pub open spec fn indent_last(s: AstState) -> AstState {
    AstState { els: s.els, parents: s.parents.push((s.els.len() - 1) as usize) }
}

/// The state with an Indent appended when the token is the first of its line.
pub open spec fn indent_if(s: AstState, first: bool) -> AstState {
    if first {
        push_el(s, InfoV::Indent)
    } else {
        s
    }
}

/// The error message for the last element of the state, if its parent may not hold it.
pub open spec fn check_msg(s: AstState) -> Option<Seq<char>> {
    parent_msg(s.els.last().0, s.els[parent_of_state(s)].0)
}

/// The current token is the first of its line.
pub open spec fn first_in_line(c: &Compiler) -> bool {
    c.current_line_token == 0
}

/// The current token is the last of its line.
pub open spec fn last_in_line(c: &Compiler) -> bool {
    c.current_line_token == c.lines_of_tokens@[c.current_line as int]@.len() - 1
}

/// Where a step of the parser ends: in a state, or in a state with an error.
pub enum Outcome {
    Done(AstState),
    /// the state, the error's message, and the length of the arrow under the token
    Failed(AstState, Seq<char>, usize),
}

/// The outcome of checking the state `s`: it fails there with the error, or goes on to `rest`.
pub open spec fn checked_then(s: AstState, rest: AstState) -> Outcome {
    match check_msg(s) {
        Some(m) => Outcome::Failed(s, m, 1),
        None => Outcome::Done(rest),
    }
}

/// `new` has one more error than `old`: its text, and the token at which it was found.
pub open spec fn error_added(old: &Compiler, new: &Compiler, error: Seq<char>, arrow_len: usize) -> bool {
    &&& new.error_stack@.len() == old.error_stack@.len() + 1
    &&& forall|k: int| 0 <= k < old.error_stack@.len() ==> new.error_stack@[k] == old.error_stack@[k]
    &&& new.error_stack@.last().0@ == error_text(old, 0, arrow_len, error)
    &&& new.error_stack@.last().1 == old.lines_of_tokens@[old.current_line as int]@[old.current_line_token as int]
}

/// `new` is `old` after a step of the parser with this outcome, returning `r`.
pub open spec fn ended(old: &Compiler, new: &Compiler, r: Result<(), ()>, o: Outcome) -> bool {
    &&& new.at_token()
    &&& new.same_but_ast(old)
    &&& new.ast.same_but_tree(&old.ast)
    &&& match o {
        Outcome::Done(s) => r is Ok && new.ast.els() == s.els && new.ast.parents@ == s.parents
            && new.error_stack == old.error_stack,
        Outcome::Failed(s, m, len) => r is Err && new.ast.els() == s.els && new.ast.parents@ == s.parents
            && error_added(old, new, m, len),
    }
}

/// `new` is `old` with its AST in state `s` and no error added.
pub open spec fn moved_to(old: &Compiler, new: &Compiler, s: AstState) -> bool {
    &&& new.at_token()
    &&& new.same_but_ast(old)
    &&& new.ast.same_but_tree(&old.ast)
    &&& new.ast.els() == s.els
    &&& new.ast.parents@ == s.parents
    &&& new.error_stack == old.error_stack
}

/// `new` is `old` with `element` added at the end and its index added to the children of `parent`.
pub open spec fn appended_under(old: Seq<Element>, new: Seq<Element>, element: Element, parent: int) -> bool {
    &&& new.len() == old.len() + 1
    &&& new[old.len() as int] == element
    &&& new[parent].0 == old[parent].0
    &&& new[parent].1@ == old[parent].1@.push(old.len() as usize)
    &&& forall|i: int| 0 <= i < old.len() && i != parent ==> new[i] == old[i]
}

/// The element can be added at index `idx` of a well formed AST: its children and references
/// then fit.
pub open spec fn element_fits(element: Element, idx: nat) -> bool {
    &&& forall|j: int| 0 <= j < element.1@.len() ==> #[trigger] element.1@[j] < idx + 1
    &&& info_refs_ok(element.0, idx + 1)
}

/// Adds the element at the end of the AST, as the last child of the current parent, and
/// returns its index. The AST stays well formed when the element's children and reference
/// lie within it (see `element_fits`).
pub fn append(ast: &mut Ast, element: Element) -> (idx: usize)
    requires
        old(ast).wf(),
    ensures
        element_fits(element, old(ast).elements@.len()) ==> final(ast).wf(),
        parents_ok(final(ast).parents@, final(ast).elements@.len()),
        final(ast).same_but_elements(old(ast)),
        idx == old(ast).elements@.len(),
        appended_under(old(ast).elements@, final(ast).elements@, element, old(ast).current_parent()),
{
    let ghost old_els = ast.elements@;
    let parent = parents::get_current_parent_ref_from_parents(ast);
    ast.elements.push(element);
    let idx = ast.elements.len() - 1;
    ast.elements[parent].1.push(idx);
    proof {
        if element_fits(element, old_els.len()) {
            let new = ast.elements@;
            assert forall|i: int, j: int|
                0 <= i < new.len() && 0 <= j < new[i].1@.len() implies #[trigger] new[i].1@[j] < new.len() by {
                if i == idx {
                } else if i == parent {
                    if j < old_els[i].1@.len() {
                        assert(new[i].1@[j] == old_els[i].1@[j]);
                    }
                } else {
                    assert(new[i] == old_els[i]);
                }
            }
            assert forall|i: int| 0 <= i < new.len() implies info_refs_ok(#[trigger] new[i].0, new.len()) by {
                if i < old_els.len() {
                    assert(info_refs_ok(old_els[i].0, old_els.len()));
                }
            }
        }
    }
    idx
}


/// `old` with `child` placed after the child at `position`, or at the end when there is no
/// child at `position`.
pub open spec fn inserted_child(old: Seq<usize>, position: int, child: usize) -> Seq<usize> {
    if position >= old.len() {
        old.push(child)
    } else {
        old.subrange(0, position + 1).push(child) + old.subrange(position + 1, old.len() as int)
    }
}

/// Adds the element at the end of the AST and makes it a child of `parent_index`, after
/// its child at `position` (see `inserted_child`), and returns the element's index. The
/// AST stays well formed when the element fits (see `element_fits`).
pub fn append_as_nth_child_of_elindex(ast: &mut Ast, element: Element, parent_index: usize, position: usize) -> (idx: usize)
    requires
        old(ast).wf(),
        parent_index < old(ast).elements@.len(),
    ensures
        element_fits(element, old(ast).elements@.len()) ==> final(ast).wf(),
        parents_ok(final(ast).parents@, final(ast).elements@.len()),
        final(ast).same_but_elements(old(ast)),
        idx == old(ast).elements@.len(),
        final(ast).elements@.len() == old(ast).elements@.len() + 1,
        final(ast).elements@[idx as int] == element,
        final(ast).elements@[parent_index as int].0 == old(ast).elements@[parent_index as int].0,
        final(ast).elements@[parent_index as int].1@ == inserted_child(old(ast).elements@[parent_index as int].1@, position as int, idx),
        forall|i: int| 0 <= i < old(ast).elements@.len() && i != parent_index ==> final(ast).elements@[i] == old(ast).elements@[i],
{
    let ghost old_els = ast.elements@;
    ast.elements.push(element);
    let new_items_index = ast.elements.len() - 1;
    let parent_children = ast.elements[parent_index].1.clone();
    let ghost pc = old_els[parent_index as int].1@;
    assert(parent_children@ == pc);
    let mut new_children: Vec<usize> = Vec::new();
    if position >= parent_children.len() {
        new_children = parent_children;
        new_children.push(new_items_index);
    } else {
        let mut i: usize = 0;
        while i < parent_children.len()
            invariant
                parent_children@ == pc,
                position < pc.len(),
                i <= pc.len(),
                new_children@ == (if i <= position { pc.subrange(0, i as int) } else {
                    pc.subrange(0, position + 1).push(new_items_index) + pc.subrange(position + 1, i as int)
                }),
            decreases pc.len() - i,
        {
            new_children.push(parent_children[i]);
            if i == position {
                new_children.push(new_items_index);
            }
            i = i + 1;
            assert(new_children@ =~= (if i <= position { pc.subrange(0, i as int) } else {
                pc.subrange(0, position + 1).push(new_items_index) + pc.subrange(position + 1, i as int)
            }));
        }
        assert(new_children@ =~= inserted_child(pc, position as int, new_items_index));
    }
    ast.elements[parent_index].1 = new_children;
    proof {
        if element_fits(element, old_els.len()) {
            let new = ast.elements@;
            assert forall|i: int, j: int|
                0 <= i < new.len() && 0 <= j < new[i].1@.len() implies #[trigger] new[i].1@[j] < new.len() by {
                if i == new_items_index {
                } else if i == parent_index {
                    let c = new[i].1@[j];
                    if c != new_items_index {
                        assert(pc.contains(c));
                        let k = choose|k: int| 0 <= k < pc.len() && pc[k] == c;
                        assert(old_els[i].1@[k] < old_els.len());
                    }
                } else {
                    assert(new[i] == old_els[i]);
                }
            }
            assert forall|i: int| 0 <= i < new.len() implies info_refs_ok(#[trigger] new[i].0, new.len()) by {
                if i < old_els.len() {
                    assert(info_refs_ok(old_els[i].0, old_els.len()));
                }
            }
        }
    }
    new_items_index
}

/// The state after a leaf was appended: `els_view` of the new elements is `push_el`.
proof fn lemma_push_leaf(old: Seq<Element>, new: Seq<Element>, element: Element, parents: Seq<usize>)
    requires
        parents.len() >= 1,
        parents.last() < old.len(),
        appended_under(old, new, element, parents.last() as int),
        element.1@.len() == 0,
    ensures
        els_view(new) == push_el(AstState { els: els_view(old), parents }, element.0@).els,
{
    let p = parents.last() as int;
    let st = AstState { els: els_view(old), parents };
    let expected = push_el(st, element.0@).els;
    assert(el_view(element) == (element.0@, Seq::<usize>::empty()));
    assert forall|i: int| 0 <= i < new.len() implies els_view(new)[i] == expected[i] by {
        if i < old.len() && i != p {
            assert(new[i] == old[i]);
        }
    }
    assert(els_view(new) =~= expected);
}

/// Appends an element of this info, with no children, under the current parent.
fn append_leaf(compiler: &mut Compiler, info: ElementInfo)
    requires
        old(compiler).at_token(),
        info_refs_ok(info, old(compiler).ast.elements@.len() + 1),
    ensures
        moved_to(old(compiler), final(compiler), push_el(old(compiler).ast.state(), info@)),
{
    let ghost old_els = compiler.ast.elements@;
    let ghost parents = compiler.ast.parents@;
    let ghost v = info@;
    let element: Element = (info, Vec::new());
    append(&mut compiler.ast, element);
    proof {
        lemma_push_leaf(old_els, compiler.ast.elements@, element, parents);
    }
}

/// Pushes the last element onto the parents stack.
fn indent_last_element(compiler: &mut Compiler)
    requires
        old(compiler).at_token(),
    ensures
        moved_to(old(compiler), final(compiler), indent_last(old(compiler).ast.state())),
{
    parents::indent::indent(&mut compiler.ast);
}

/// Appends an Indent when the current token is the first of its line.
pub fn indent_if_first_in_line(compiler: &mut Compiler)
    requires
        old(compiler).at_token(),
    ensures
        moved_to(old(compiler), final(compiler), indent_if(old(compiler).ast.state(), first_in_line(old(compiler)))),
{
    if compiler.current_line_token == 0 {
        append_leaf(compiler, ElementInfo::Indent);
    }
}

/// Checks that the current parent may hold the last element.
fn check(compiler: &mut Compiler) -> (r: Result<(), ()>)
    requires
        old(compiler).at_token(),
        old(compiler).has_chars_line() || check_msg(old(compiler).ast.state()) is None,
    ensures
        match check_msg(old(compiler).ast.state()) {
            None => r is Ok && *final(compiler) == *old(compiler),
            Some(m) => ended(old(compiler), final(compiler), r, Outcome::Failed(old(compiler).ast.state(), m, 1)),
        },
{
    errors::error_if_parent_is_invalid(compiler)
}


/// How many outdents the current parent asks for now that its last child is appended.
pub open spec fn last_child_outdents(els: Seq<(InfoV, Seq<usize>)>, parents: Seq<usize>) -> nat {
    let cp = parents.last() as int;
    let p = els[cp];
    match p.0 {
        InfoV::Println => if p.1.len() > 0 { 1 } else { 0 },
        InfoV::Constant(_, _) => if p.1.len() > 0 { 1 } else { 0 },
        InfoV::Assignment => if p.1.len() > 0 { 1 } else { 0 },
        InfoV::InbuiltFunctionCall(_, fndefref, _) => outdent::inbuiltfncall_outdents(els, p.1.len(), fndefref as int),
        InfoV::FunctionDef(_, _, _, _) => outdent::within_fndef_outdents(els, cp),
        InfoV::FunctionCall(name, _) => outdent::fncall_outdents(els, cp, p, name),
        InfoV::If(_) => if p.1.len() > 2 { 1 } else { 0 },
        _ => 0,
    }
}

/// The parents stack after outdenting while parents are complete: it stops at the root,
/// or when a round does not outdent, or when the stack has `prev` parents.
pub open spec fn outdent_loop(els: Seq<(InfoV, Seq<usize>)>, parents: Seq<usize>, prev: nat) -> Seq<usize>
    decreases parents.len(), (if parents.len() == prev { 0nat } else { 1nat }),
{
    if parents.len() < 2 || parents.len() == prev {
        parents
    } else {
        let next = outdent::outdented_times(parents, last_child_outdents(els, parents));
        if next.len() <= parents.len() {
            outdent_loop(els, next, parents.len())
        } else {
            next
        }
    }
}

/// The state after outdenting out of every parent that is complete.
pub open spec fn after_outdents(s: AstState) -> AstState {
    AstState { els: s.els, parents: outdent_loop(s.els, s.parents, 999999999) }
}

/// Outdenting never makes a non-empty stack longer, nor empty.
pub proof fn lemma_outdented_times_len(parents: Seq<usize>, n: nat)
    requires
        parents.len() >= 1,
    ensures
        1 <= outdent::outdented_times(parents, n).len() <= parents.len(),
    decreases n,
{
    if n > 0 {
        lemma_outdented_times_len(parents, (n - 1) as nat);
    }
}

/// Outdenting a stack that starts at the root leaves a non-empty prefix of it.
proof fn lemma_outdented_times_prefix(parents: Seq<usize>, n: nat)
    requires
        parents.len() >= 1,
        parents[0] == 0,
    ensures
        ({
            let r = outdent::outdented_times(parents, n);
            1 <= r.len() <= parents.len() && r == parents.take(r.len() as int)
        }),
    decreases n,
{
    if n == 0 {
        assert(parents.take(parents.len() as int) =~= parents);
    } else {
        lemma_outdented_times_prefix(parents, (n - 1) as nat);
        let q = outdent::outdented_times(parents, (n - 1) as nat);
        if q.len() < 2 {
            assert(outdent::outdented(q) =~= parents.take(1));
        } else {
            assert(outdent::outdented(q) =~= parents.take(q.len() - 1));
        }
    }
}

proof fn lemma_outdent_loop_prefix(els: Seq<(InfoV, Seq<usize>)>, parents: Seq<usize>, prev: nat)
    requires
        parents.len() >= 1,
        parents[0] == 0,
    ensures
        ({
            let r = outdent_loop(els, parents, prev);
            &&& 1 <= r.len() <= parents.len()
            &&& r == parents.take(r.len() as int)
            &&& parents.len() < 2 ==> r == parents
        }),
    decreases parents.len(), (if parents.len() == prev { 0nat } else { 1nat }),
{
    if parents.len() < 2 || parents.len() == prev {
        assert(parents.take(parents.len() as int) =~= parents);
    } else {
        let n = last_child_outdents(els, parents);
        let next = outdent::outdented_times(parents, n);
        lemma_outdented_times_prefix(parents, n);
        assert(next[0] == parents[0]);
        lemma_outdent_loop_prefix(els, next, parents.len());
        let r = outdent_loop(els, next, parents.len());
        assert(r =~= parents.take(r.len() as int));
    }
}

/// Outdenting out of the complete parents (`outdent_if_last_expected_child`) leaves the
/// elements as they are and cuts the
/// parents stack back to a non-empty prefix of itself; with the root alone as parent it
/// changes nothing.
pub proof fn outdenting_cuts_back_the_parents(s: AstState)
    requires
        s.parents.len() >= 1,
        s.parents[0] == 0,
    ensures
        after_outdents(s).els == s.els,
        1 <= after_outdents(s).parents.len() <= s.parents.len(),
        after_outdents(s).parents == s.parents.take(after_outdents(s).parents.len() as int),
        s.parents.len() < 2 ==> after_outdents(s).parents == s.parents,
{
    lemma_outdent_loop_prefix(s.els, s.parents, 999999999);
}

/// Outdents out of the current parent, and out of each enclosing one in turn, while the
/// parent is complete: a Println, Constant or Assignment with its child, an If with its
/// three, a call with all its arguments, or a function definition at its return expression.
pub fn outdent_if_last_expected_child(compiler: &mut Compiler)
    requires
        old(compiler).at_token(),
    ensures
        moved_to(old(compiler), final(compiler), after_outdents(old(compiler).ast.state())),
{
    let ghost c0 = *compiler;
    let ghost els = c0.ast.els();
    let mut prev_parents_len: usize = 999999999;
    loop
        invariant
            moved_to(&c0, compiler, AstState { els, parents: compiler.ast.parents@ }),
            els == c0.ast.els(),
            outdent_loop(els, compiler.ast.parents@, prev_parents_len as nat) == outdent_loop(els, c0.ast.parents@, 999999999),
        ensures
            moved_to(&c0, compiler, after_outdents(c0.ast.state())),
        decreases compiler.ast.parents@.len(), (if compiler.ast.parents@.len() == prev_parents_len { 0nat } else { 1nat }),
    {
        let parent_is_root = compiler.ast.parents.len() < 2;
        let parent_is_same_as_last_time = compiler.ast.parents.len() == prev_parents_len;
        if parent_is_root || parent_is_same_as_last_time {
            break;
        }
        let ghost before = *compiler;
        let ghost p = compiler.ast.parents@;
        prev_parents_len = compiler.ast.parents.len();
        let current_parent_ref = parents::get_current_parent_ref_from_parents(&compiler.ast);
        let current_parent = elements::copy_element(&compiler.ast.elements[current_parent_ref]);
        assert(el_view(current_parent) == els[current_parent_ref as int]);
        proof {
            lemma_outdented_times_len(p, last_child_outdents(els, p));
        }
        match &current_parent.0 {
            ElementInfo::Println => {
                outdent::println(compiler, current_parent);
            },
            ElementInfo::Constant(_, _) => {
                outdent::constant(compiler, current_parent);
            },
            ElementInfo::Assignment => {
                outdent::assignment(compiler, current_parent);
            },
            ElementInfo::InbuiltFunctionCall(_, fndefref, _) => {
                proof {
                    assert(info_refs_ok(compiler.ast.elements@[current_parent_ref as int].0, compiler.ast.elements@.len()));
                }
                let fndefref = *fndefref;
                outdent::inbuiltfncall_from_inbuiltfndef(compiler, current_parent, fndefref);
            },
            ElementInfo::FunctionDef(_, _, _, _) => {
                outdent::within_fndef_from_return_expression(compiler);
            },
            ElementInfo::FunctionCall(name, _) => {
                let name = name.clone();
                outdent::fncall(compiler, current_parent, name);
            },
            ElementInfo::If(_) => {
                outdent::if_expression(compiler, current_parent);
            },
            _ => {
                assert(outdent::outdented_times(p, 0) == p);
            },
        }
        assert(compiler.ast.parents@ == outdent::outdented_times(p, last_child_outdents(els, p)));
    }
}

/// The element info is an expression that can be a function's return value.
pub open spec fn is_return_expr(v: InfoV) -> bool {
    match v {
        InfoV::List(_) | InfoV::Int(_) | InfoV::Float(_) | InfoV::String(_) | InfoV::Bool(_)
        | InfoV::Struct(_, _, _) | InfoV::Constant(_, _) | InfoV::ConstantRef(_, _, _)
        | InfoV::InbuiltFunctionCall(_, _, _) | InfoV::FunctionCall(_, _) | InfoV::If(_)
        | InfoV::Parens => true,
        _ => false,
    }
}

/// Check if the ElementInfo is a return expression.
pub fn is_return_expression(elinfo: &ElementInfo) -> (b: bool)
    ensures
        b == is_return_expr(elinfo@),
{
    match elinfo {
        ElementInfo::List(_) => true,
        ElementInfo::Int(_) => true,
        ElementInfo::Float(_) => true,
        ElementInfo::String(_) => true,
        ElementInfo::Bool(_) => true,
        ElementInfo::Struct(_, _, _) => true,
        ElementInfo::Constant(_, _) => true,
        ElementInfo::ConstantRef(_, _, _) => true,
        ElementInfo::InbuiltFunctionCall(_, _, _) => true,
        ElementInfo::FunctionCall(_, _) => true,
        ElementInfo::If(_) => true,
        ElementInfo::Parens => true,
        ElementInfo::Root => false,
        ElementInfo::CommentSingleLine(_) => false,
        ElementInfo::Arg(_, _, _, _) => false,
        ElementInfo::Assignment => false,
        ElementInfo::InbuiltFunctionDef(_, _, _, _, _, _) => false,
        ElementInfo::FunctionDefWIP => false,
        ElementInfo::FunctionDef(_, _, _, _) => false,
        ElementInfo::Type(_) => false,
        ElementInfo::Eol => false,
        ElementInfo::Seol => false,
        ElementInfo::Indent => false,
        ElementInfo::Unused => false,
        ElementInfo::LoopForRangeWIP => false,
        ElementInfo::LoopForRange(_, _, _) => false,
        ElementInfo::Println => false,
        ElementInfo::StructEdit(_, _) => false,
    }
}


/// The index of the last Indent before the last element, if any.
#[verifier::opaque]
pub open spec fn last_indent(els: Seq<(InfoV, Seq<usize>)>) -> Option<int> {
    if exists|k: int| 0 <= k < els.len() - 1 && (#[trigger] els[k]).0 is Indent {
        Some(
            choose|k: int|
                0 <= k < els.len() - 1 && (#[trigger] els[k]).0 is Indent && forall|j: int|
                    k < j < els.len() - 1 ==> !(els[j].0 is Indent),
        )
    } else {
        None
    }
}

proof fn lemma_last_indent(els: Seq<(InfoV, Seq<usize>)>, k: int)
    requires
        0 <= k < els.len() - 1,
        els[k].0 is Indent,
        forall|j: int| k < j < els.len() - 1 ==> !(els[j].0 is Indent),
    ensures
        last_indent(els) == Some(k),
{
    reveal(last_indent);
    let j = choose|j: int|
        0 <= j < els.len() - 1 && (#[trigger] els[j]).0 is Indent && forall|i: int|
            j < i < els.len() - 1 ==> !(els[i].0 is Indent);
    assert(0 <= j < els.len() - 1 && els[j].0 is Indent && forall|i: int|
        j < i < els.len() - 1 ==> !(els[i].0 is Indent));
}

/// Below `m`, an Indent, if there is one, has a last one.
proof fn lemma_some_last_indent(els: Seq<(InfoV, Seq<usize>)>, m: int) -> (k: int)
    requires
        0 <= m <= els.len() - 1,
        exists|k: int| 0 <= k < m && (#[trigger] els[k]).0 is Indent,
    ensures
        0 <= k < m,
        els[k].0 is Indent,
        forall|j: int| k < j < m ==> !(els[j].0 is Indent),
    decreases m,
{
    if els[m - 1].0 is Indent {
        m - 1
    } else {
        let w = choose|k: int| 0 <= k < m && (#[trigger] els[k]).0 is Indent;
        assert(0 <= w < m - 1 && els[w].0 is Indent);
        lemma_some_last_indent(els, m - 1)
    }
}

/// The last Indent before the last element, when there is one, is an Indent there.
proof fn lemma_last_indent_range(els: Seq<(InfoV, Seq<usize>)>)
    ensures
        match last_indent(els) {
            Some(k) => 0 <= k < els.len() - 1 && els[k].0 is Indent,
            None => true,
        },
{
    reveal(last_indent);
    if exists|k: int| 0 <= k < els.len() - 1 && (#[trigger] els[k]).0 is Indent {
        let k = lemma_some_last_indent(els, els.len() - 1);
        lemma_last_indent(els, k);
    }
}

/// The index of the last Indent before the last element, if any.
fn find_last_indent(ast: &Ast) -> (r: Option<usize>)
    ensures
        match r {
            Some(k) => last_indent(ast.els()) == Some(k as int) && k + 1 < ast.elements@.len(),
            None => last_indent(ast.els()) is None,
        },
{
    let n = ast.elements.len();
    if n == 0 {
        proof { reveal(last_indent); }
        return None;
    }
    let mut i: usize = n - 1;
    while i > 0
        invariant
            n == ast.elements@.len(),
            i <= n - 1,
            forall|j: int| i <= j < n - 1 ==> !((#[trigger] ast.els()[j]).0 is Indent),
        decreases i,
    {
        i = i - 1;
        if let ElementInfo::Indent = ast.elements[i].0 {
            proof { lemma_last_indent(ast.els(), i as int); }
            return Some(i);
        }
    }
    proof { reveal(last_indent); }
    None
}

/// The state after the end of a line: when the token is the last of its line, an Int that
/// starts the line's expression gets " as i64", and a Seol follows unless the line is the
/// return expression of a function definition.
pub open spec fn after_seol(s: AstState, last: bool) -> AstState {
    if !last {
        s
    } else {
        match last_indent(s.els) {
            Some(k) => {
                let f = k + 1;
                let fe = s.els[f];
                let els1 = match fe.0 {
                    InfoV::Int(x) => s.els.update(f, (InfoV::Int(x + " as i64"@), fe.1)),
                    _ => s.els,
                };
                let s1 = AstState { els: els1, parents: s.parents };
                let is_return = match parent_of(s.els, f as usize) {
                    Some(p) => s.els[p].0 is FunctionDef && is_return_expr(fe.0),
                    None => false,
                };
                if is_return {
                    s1
                } else {
                    push_el(s1, InfoV::Seol)
                }
            },
            None => push_el(s, InfoV::Seol),
        }
    }
}

/// Appends a Seol (semicolon and end of line) when the current token is the last of its
/// line, except after a function's return expression; an Int that starts the line gets
/// " as i64", so that Rust does not take it for an i32.
pub fn seol_if_last_in_line(compiler: &mut Compiler) -> (r: Result<(), ()>)
    requires
        old(compiler).at_token(),
    ensures
        r is Ok,
        moved_to(old(compiler), final(compiler), after_seol(old(compiler).ast.state(), last_in_line(old(compiler)))),
{
    let ghost c0 = *compiler;
    let is_last_token_in_this_line = compiler.current_line_token == compiler.lines_of_tokens[compiler.current_line].len() - 1;
    if is_last_token_in_this_line {
        let mut append_seol: bool = true;
        let found = find_last_indent(&compiler.ast);
        if let Some(k) = found {
            let n = compiler.ast.elements.len();
            assert(k + 1 < n);
            let first_element_after_indent_ref = k + 1;
            let parent_of_first_el_option = parents::get_current_parent_ref_from_element_children_search(
                &compiler.ast,
                first_element_after_indent_ref,
            );
            let first_element_after_indent_el = elements::copy_element(&compiler.ast.elements[first_element_after_indent_ref]);
            let mut parent_is_fndef = false;
            if let Some(p) = parent_of_first_el_option {
                if let ElementInfo::FunctionDef(_, _, _, _) = &compiler.ast.elements[p].0 {
                    parent_is_fndef = true;
                }
            }
            let ghost els0 = compiler.ast.elements@;
            match &first_element_after_indent_el.0 {
                ElementInfo::Int(x) => {
                    let children = first_element_after_indent_el.1.clone();
                    assert(children@ == els0[first_element_after_indent_ref as int].1@);
                    compiler.ast.elements.set(
                        first_element_after_indent_ref,
                        (ElementInfo::Int(text::concat_str(x, " as i64")), children),
                    );
                    proof {
                        let new = compiler.ast.elements@;
                        assert forall|i: int, j: int|
                            0 <= i < new.len() && 0 <= j < new[i].1@.len() implies #[trigger] new[i].1@[j] < new.len() by {
                            assert(new[i].1@ == els0[i].1@);
                            assert(els0[i].1@[j] < els0.len());
                        }
                        assert forall|i: int| 0 <= i < new.len() implies info_refs_ok(#[trigger] new[i].0, new.len()) by {
                            assert(info_refs_ok(els0[i].0, els0.len()));
                        }
                        assert(compiler.ast.els() =~= els0.map_values(|e: Element| el_view(e)).update(
                            first_element_after_indent_ref as int,
                            (InfoV::Int(x@ + " as i64"@), els0[first_element_after_indent_ref as int].1@),
                        ));
                    }
                },
                _ => {},
            }
            if parent_is_fndef && is_return_expression(&first_element_after_indent_el.0) {
                append_seol = false;
            }
        }
        if append_seol {
            append_leaf(compiler, ElementInfo::Seol);
        }
    }
    Ok(())
}

/// Ending a line (`seol_if_last_in_line`) changes nothing before its last token. At the last token it keeps the
/// parents and appends a Seol, as the last child of the current parent, unless the line's
/// first element is the return expression of a function definition; it changes no other
/// element's children, and no element's kind: an Int may get " as i64".
pub proof fn ending_a_line_appends_at_most_a_seol(s: AstState, last: bool)
    requires
        parents_ok(s.parents, s.els.len()),
    ensures
        !last ==> after_seol(s, last) == s,
        ({
            let t = after_seol(s, last);
            let n = s.els.len();
            let p = s.parents.last() as int;
            &&& t.parents == s.parents
            &&& t.els.len() == n || t.els.len() == n + 1
            &&& t.els.len() == n + 1 ==> t.els[n as int] == (InfoV::Seol, Seq::<usize>::empty()) && t.els[p].1
                == s.els[p].1.push(n as usize)
            &&& t.els.len() == n ==> t.els[p].1 == s.els[p].1
            &&& last ==> (t.els.len() == n <==> (last_indent(s.els) matches Some(k) && (parent_of(
                s.els,
                (k + 1) as usize,
            ) matches Some(q) && s.els[q].0 is FunctionDef) && is_return_expr(s.els[k + 1].0)))
            &&& forall|j: int| 0 <= j < n && j != p ==> (#[trigger] t.els[j]).1 == s.els[j].1
            &&& forall|j: int|
                0 <= j < n ==> (#[trigger] t.els[j]).0 == s.els[j].0 || (s.els[j].0 matches InfoV::Int(x)
                    && t.els[j].0 == InfoV::Int(x + " as i64"@))
        }),
{
    assert(s.parents[s.parents.len() - 1] < s.els.len());
    lemma_last_indent_range(s.els);
    if last {
        match last_indent(s.els) {
            Some(k) => {
                let f = k + 1;
                assert(0 <= f < s.els.len());
            },
            None => {},
        }
    }
}

/// The step that appends `info` (after an Indent when it starts the line), checks it, and
/// then, indented into it or not, outdents and ends the line: the element stays where it was
/// appended, a child of the current parent, with its kind; without the indent it gets no
/// children.
pub(crate) proof fn lemma_step_places(s: AstState, info: InfoV, first: bool, last: bool, indent: bool)
    requires
        parents_ok(s.parents, s.els.len()),
        s.els.len() + 2 <= usize::MAX,
        s.parents[0] == 0,
        !(info is Int),
    ensures
        ({
            let s1 = push_el(indent_if(s, first), info);
            let s2 = if indent { indent_last(s1) } else { s1 };
            let k = s1.els.len() - 1;
            let p = s.parents.last() as int;
            let t = after_seol(after_outdents(s2), last);
            &&& k == s.els.len() + (if first { 1int } else { 0int })
            &&& s1.els[k] == (info, Seq::<usize>::empty())
            &&& s1.els[p].1.contains(k as usize)
            &&& k < t.els.len()
            &&& t.els[k].0 == info
            &&& t.els[p].1.contains(k as usize)
            &&& !indent ==> t.els[k].1 == Seq::<usize>::empty()
        }),
{
    let n = s.els.len();
    let p = s.parents.last() as int;
    assert(s.parents[s.parents.len() - 1] < n);
    let s0 = indent_if(s, first);
    assert(s0.parents == s.parents);
    assert(n <= s0.els.len());
    let s1 = push_el(s0, info);
    let k = s1.els.len() - 1;
    assert(k == s0.els.len());
    assert(s1.els[p] == (s0.els[p].0, s0.els[p].1.push(k as usize)));
    let idx = s1.els[p].1.len() - 1;
    assert(s1.els[p].1[idx] == k);
    let s2 = if indent { indent_last(s1) } else { s1 };
    assert(parents_ok(s2.parents, s2.els.len()));
    outdenting_cuts_back_the_parents(s2);
    let u = after_outdents(s2);
    assert forall|i: int| 0 <= i < u.parents.len() implies #[trigger] u.parents[i] < u.els.len()
        && (!indent ==> u.parents[i] < n) by {
        assert(u.parents[i] == s2.parents[i]);
    }
    assert(parents_ok(u.parents, u.els.len()));
    ending_a_line_appends_at_most_a_seol(u, last);
    let t = after_seol(u, last);
    assert(t.els[k].0 == info);
    assert(t.els[p].1[idx] == k);
}

/// A value is appended, with no children, as a child of the current parent (after an Indent
/// when it starts the line), and stays so through outdenting and the end of the line; a
/// failed check leaves it there too.
pub proof fn a_value_stays_under_its_parent(s: AstState, info: InfoV, first: bool, last: bool)
    requires
        parents_ok(s.parents, s.els.len()),
        s.els.len() + 2 <= usize::MAX,
        s.parents[0] == 0,
        !(info is Int),
    ensures
        ({
            let k = s.els.len() + (if first { 1int } else { 0int });
            let p = s.parents.last() as int;
            let t = match value_step(s, info, first, last) {
                Outcome::Done(t) => t,
                Outcome::Failed(t, _, _) => t,
            };
            &&& k < t.els.len()
            &&& t.els[k] == (info, Seq::<usize>::empty())
            &&& t.els[p].1.contains(k as usize)
        }),
{
    lemma_step_places(s, info, first, last, false);
}

/// A move of the AST followed by a parser step ends as that step does from the start: the
/// error, if any, is the same one at the same token.
pub proof fn lemma_moved_then_ended(c0: &Compiler, c1: &Compiler, c2: &Compiler, s1: AstState, r: Result<(), ()>, o: Outcome)
    requires
        moved_to(c0, c1, s1),
        ended(c1, c2, r, o),
    ensures
        ended(c0, c2, r, o),
{
    match o {
        Outcome::Failed(s, m, len) => {
            assert(error_text(c1, 0, len, m) == error_text(c0, 0, len, m));
        },
        _ => {},
    }
}

/// Checks the state reached, and on success goes on from it.
fn check_after(compiler: &mut Compiler, Ghost(c0): Ghost<Compiler>) -> (r: Result<(), ()>)
    requires
        moved_to(&c0, old(compiler), old(compiler).ast.state()),
        old(compiler).has_chars_line() || check_msg(old(compiler).ast.state()) is None,
    ensures
        match check_msg(old(compiler).ast.state()) {
            None => r is Ok && *final(compiler) == *old(compiler),
            Some(m) => ended(&c0, final(compiler), r, Outcome::Failed(old(compiler).ast.state(), m, 1)),
        },
{
    let ghost c1 = *compiler;
    let r = check(compiler);
    proof {
        match check_msg(c1.ast.state()) {
            Some(m) => lemma_moved_then_ended(&c0, &c1, compiler, c1.ast.state(), r, Outcome::Failed(c1.ast.state(), m, 1)),
            None => {},
        }
    }
    r
}

/// A value that ends an expression: appended, checked, then outdented out of the parents
/// that it completes, and the line ended when it is the last token.
pub open spec fn value_step(s: AstState, info: InfoV, first: bool, last: bool) -> Outcome {
    let s1 = push_el(indent_if(s, first), info);
    checked_then(s1, after_seol(after_outdents(s1), last))
}

/// A value: indented if first in line, appended, checked, outdented, and the line ended.
fn value(compiler: &mut Compiler, info: ElementInfo) -> (r: Result<(), ()>)
    requires
        old(compiler).at_token(),
        old(compiler).can_end_in(value_step(old(compiler).ast.state(), info@, first_in_line(old(compiler)), last_in_line(old(compiler)))),
        info_refs_ok(info, old(compiler).ast.elements@.len() + 1),
    ensures
        ended(old(compiler), final(compiler), r, value_step(old(compiler).ast.state(), info@, first_in_line(old(compiler)), last_in_line(old(compiler)))),
{
    let ghost c0 = *compiler;
    indent_if_first_in_line(compiler);
    append_leaf(compiler, info);
    check_after(compiler, Ghost(c0))?;
    outdent_if_last_expected_child(compiler);
    seol_if_last_in_line(compiler)
}

/// Append String.
pub fn string(compiler: &mut Compiler, current_token: &String) -> (r: Result<(), ()>)
    requires
        old(compiler).at_token(),
        old(compiler).can_end_in(value_step(old(compiler).ast.state(), InfoV::String(current_token@), first_in_line(old(compiler)), last_in_line(old(compiler)))),
    ensures
        ended(old(compiler), final(compiler), r, value_step(old(compiler).ast.state(), InfoV::String(current_token@), first_in_line(old(compiler)), last_in_line(old(compiler)))),
{
    value(compiler, ElementInfo::String(current_token.clone()))
}

/// Append Int.
pub fn int_literal(compiler: &mut Compiler, current_token: &String) -> (r: Result<(), ()>)
    requires
        old(compiler).at_token(),
        old(compiler).can_end_in(value_step(old(compiler).ast.state(), InfoV::Int(current_token@), first_in_line(old(compiler)), last_in_line(old(compiler)))),
    ensures
        ended(old(compiler), final(compiler), r, value_step(old(compiler).ast.state(), InfoV::Int(current_token@), first_in_line(old(compiler)), last_in_line(old(compiler)))),
{
    value(compiler, ElementInfo::Int(current_token.clone()))
}

/// Append Float.
pub fn float(compiler: &mut Compiler, current_token: &String) -> (r: Result<(), ()>)
    requires
        old(compiler).at_token(),
        old(compiler).can_end_in(value_step(old(compiler).ast.state(), InfoV::Float(current_token@), first_in_line(old(compiler)), last_in_line(old(compiler)))),
    ensures
        ended(old(compiler), final(compiler), r, value_step(old(compiler).ast.state(), InfoV::Float(current_token@), first_in_line(old(compiler)), last_in_line(old(compiler)))),
{
    value(compiler, ElementInfo::Float(current_token.clone()))
}

/// Append ConstantRef: a reference to the constant `current_token` of type `returntype`.
pub fn constant_ref(compiler: &mut Compiler, current_token: &String, returntype: &String) -> (r: Result<(), ()>)
    requires
        old(compiler).at_token(),
        old(compiler).can_end_in(value_step(old(compiler).ast.state(), InfoV::ConstantRef(current_token@, returntype@, current_token@), first_in_line(old(compiler)), last_in_line(old(compiler)))),
    ensures
        ended(old(compiler), final(compiler), r, value_step(old(compiler).ast.state(), InfoV::ConstantRef(current_token@, returntype@, current_token@), first_in_line(old(compiler)), last_in_line(old(compiler)))),
{
    value(compiler, ElementInfo::ConstantRef(current_token.clone(), returntype.clone(), current_token.clone()))
}

/// A block opener at the start of a statement (Println, If): an Indent and the element,
/// checked, then the parser indents into it and the line ends if it is the last token.
pub open spec fn statement_step(s: AstState, info: InfoV, last: bool) -> Outcome {
    let s1 = push_el(push_el(s, InfoV::Indent), info);
    checked_then(s1, after_seol(indent_last(s1), last))
}

fn statement(compiler: &mut Compiler, info: ElementInfo) -> (r: Result<(), ()>)
    requires
        old(compiler).at_token(),
        old(compiler).can_end_in(statement_step(old(compiler).ast.state(), info@, last_in_line(old(compiler)))),
        info_refs_ok(info, old(compiler).ast.elements@.len() + 1),
    ensures
        ended(old(compiler), final(compiler), r, statement_step(old(compiler).ast.state(), info@, last_in_line(old(compiler)))),
{
    let ghost c0 = *compiler;
    append_leaf(compiler, ElementInfo::Indent);
    append_leaf(compiler, info);
    check_after(compiler, Ghost(c0))?;
    indent_last_element(compiler);
    seol_if_last_in_line(compiler)
}

/// Append Println.
pub fn println(compiler: &mut Compiler) -> (r: Result<(), ()>)
    requires
        old(compiler).at_token(),
        old(compiler).can_end_in(statement_step(old(compiler).ast.state(), InfoV::Println, last_in_line(old(compiler)))),
    ensures
        ended(old(compiler), final(compiler), r, statement_step(old(compiler).ast.state(), InfoV::Println, last_in_line(old(compiler)))),
{
    statement(compiler, ElementInfo::Println)
}

/// Append If, its type not yet known.
pub fn if_expression(compiler: &mut Compiler) -> (r: Result<(), ()>)
    requires
        old(compiler).at_token(),
        old(compiler).can_end_in(statement_step(old(compiler).ast.state(), InfoV::If("Undefined"@), last_in_line(old(compiler)))),
    ensures
        ended(old(compiler), final(compiler), r, statement_step(old(compiler).ast.state(), InfoV::If("Undefined"@), last_in_line(old(compiler)))),
{
    statement(compiler, ElementInfo::If(text::lit("Undefined")))
}

/// A comment line: an Indent and the comment, checked, and an Eol.
pub open spec fn comment_step(s: AstState, val: Seq<char>) -> Outcome {
    let s1 = push_el(push_el(s, InfoV::Indent), InfoV::CommentSingleLine(val));
    checked_then(s1, push_el(s1, InfoV::Eol))
}

/// Append Comment single line.
pub fn comment_single_line(compiler: &mut Compiler, val: String) -> (r: Result<(), ()>)
    requires
        old(compiler).at_token(),
        old(compiler).can_end_in(comment_step(old(compiler).ast.state(), val@)),
    ensures
        ended(old(compiler), final(compiler), r, comment_step(old(compiler).ast.state(), val@)),
{
    let ghost c0 = *compiler;
    append_leaf(compiler, ElementInfo::Indent);
    append_leaf(compiler, ElementInfo::CommentSingleLine(val));
    check_after(compiler, Ghost(c0))?;
    append_leaf(compiler, ElementInfo::Eol);
    Ok(())
}

/// A block opener within an expression (List, Struct): appended, checked, and indented into.
pub open spec fn opener_step(s: AstState, info: InfoV, first: bool) -> Outcome {
    let s1 = push_el(indent_if(s, first), info);
    checked_then(s1, indent_last(s1))
}

/// A block opener that may end the line (FunctionDefWIP, LoopForRangeWIP, Parens).
pub open spec fn opener_seol_step(s: AstState, info: InfoV, first: bool, last: bool) -> Outcome {
    let s1 = push_el(indent_if(s, first), info);
    checked_then(s1, after_seol(indent_last(s1), last))
}

fn opener(compiler: &mut Compiler, info: ElementInfo, seol: bool) -> (r: Result<(), ()>)
    requires
        old(compiler).at_token(),
        old(compiler).can_end_in(if seol {
            opener_seol_step(old(compiler).ast.state(), info@, first_in_line(old(compiler)), last_in_line(old(compiler)))
        } else {
            opener_step(old(compiler).ast.state(), info@, first_in_line(old(compiler)))
        }),
        info_refs_ok(info, old(compiler).ast.elements@.len() + 1),
    ensures
        ended(old(compiler), final(compiler), r, if seol {
            opener_seol_step(old(compiler).ast.state(), info@, first_in_line(old(compiler)), last_in_line(old(compiler)))
        } else {
            opener_step(old(compiler).ast.state(), info@, first_in_line(old(compiler)))
        }),
{
    let ghost c0 = *compiler;
    indent_if_first_in_line(compiler);
    append_leaf(compiler, info);
    check_after(compiler, Ghost(c0))?;
    indent_last_element(compiler);
    if seol {
        seol_if_last_in_line(compiler)
    } else {
        Ok(())
    }
}

/// Append start of a list, its type not yet known.
pub fn list_start(compiler: &mut Compiler) -> (r: Result<(), ()>)
    requires
        old(compiler).at_token(),
        old(compiler).can_end_in(opener_step(old(compiler).ast.state(), InfoV::List("Undefined"@), first_in_line(old(compiler)))),
    ensures
        ended(old(compiler), final(compiler), r, opener_step(old(compiler).ast.state(), InfoV::List("Undefined"@), first_in_line(old(compiler)))),
{
    opener(compiler, ElementInfo::List(text::lit("Undefined")), false)
}

/// Append start of a function definition.
pub fn function_definition_start(compiler: &mut Compiler) -> (r: Result<(), ()>)
    requires
        old(compiler).at_token(),
        old(compiler).can_end_in(opener_seol_step(old(compiler).ast.state(), InfoV::FunctionDefWIP, first_in_line(old(compiler)), last_in_line(old(compiler)))),
    ensures
        ended(old(compiler), final(compiler), r, opener_seol_step(old(compiler).ast.state(), InfoV::FunctionDefWIP, first_in_line(old(compiler)), last_in_line(old(compiler)))),
{
    opener(compiler, ElementInfo::FunctionDefWIP, true)
}

/// Append start of a loop for range.
pub fn loop_for_range_start(compiler: &mut Compiler) -> (r: Result<(), ()>)
    requires
        old(compiler).at_token(),
        old(compiler).can_end_in(opener_seol_step(old(compiler).ast.state(), InfoV::LoopForRangeWIP, first_in_line(old(compiler)), last_in_line(old(compiler)))),
    ensures
        ended(old(compiler), final(compiler), r, opener_seol_step(old(compiler).ast.state(), InfoV::LoopForRangeWIP, first_in_line(old(compiler)), last_in_line(old(compiler)))),
{
    opener(compiler, ElementInfo::LoopForRangeWIP, true)
}

/// Append a function type signature, or the start of a function reference.
pub fn functiontypesig_or_functionreference_start(compiler: &mut Compiler) -> (r: Result<(), ()>)
    requires
        old(compiler).at_token(),
        old(compiler).can_end_in(opener_seol_step(old(compiler).ast.state(), InfoV::Parens, first_in_line(old(compiler)), last_in_line(old(compiler)))),
    ensures
        ended(old(compiler), final(compiler), r, opener_seol_step(old(compiler).ast.state(), InfoV::Parens, first_in_line(old(compiler)), last_in_line(old(compiler)))),
{
    opener(compiler, ElementInfo::Parens, true)
}

/// The state after one outdent.
pub open spec fn outdent_once(s: AstState) -> AstState {
    AstState { els: s.els, parents: outdent::outdented(s.parents) }
}

/// Append the end of a function type signature or function reference: outdent out of the
/// parentheses, then out of every parent completed, and end the line if it is the last token.
pub fn functiontypesig_or_functionreference_end(compiler: &mut Compiler) -> (r: Result<(), ()>)
    requires
        old(compiler).at_token(),
    ensures
        r is Ok,
        moved_to(old(compiler), final(compiler), after_seol(after_outdents(outdent_once(old(compiler).ast.state())), last_in_line(old(compiler)))),
{
    let ghost c0 = *compiler;
    outdent::outdent(compiler);
    assert(outdent::outdented_times(c0.ast.parents@, 0) == c0.ast.parents@);
    outdent_if_last_expected_child(compiler);
    seol_if_last_in_line(compiler)
}

/// An assignment: appended and checked, outdented out of completed parents, then indented
/// into, and the line ended if it is the last token.
pub open spec fn assignment_step(s: AstState, first: bool, last: bool) -> Outcome {
    let s1 = push_el(indent_if(s, first), InfoV::Assignment);
    checked_then(s1, after_seol(indent_last(after_outdents(s1)), last))
}

/// Append Assignment.
pub fn assignment(compiler: &mut Compiler) -> (r: Result<(), ()>)
    requires
        old(compiler).at_token(),
        old(compiler).can_end_in(assignment_step(old(compiler).ast.state(), first_in_line(old(compiler)), last_in_line(old(compiler)))),
    ensures
        ended(old(compiler), final(compiler), r, assignment_step(old(compiler).ast.state(), first_in_line(old(compiler)), last_in_line(old(compiler)))),
{
    let ghost c0 = *compiler;
    indent_if_first_in_line(compiler);
    append_leaf(compiler, ElementInfo::Assignment);
    check_after(compiler, Ghost(c0))?;
    outdent_if_last_expected_child(compiler);
    indent_last_element(compiler);
    seol_if_last_in_line(compiler)
}


/// The state with a copy of an element added at the end, as the last child of the current
/// parent.
pub open spec fn push_elem(s: AstState, e: (InfoV, Seq<usize>)) -> AstState {
    let p = parent_of_state(s);
    AstState {
        els: s.els.update(p, (s.els[p].0, s.els[p].1.push(s.els.len() as usize))).push(e),
        parents: s.parents,
    }
}

proof fn lemma_push_elem(old: Seq<Element>, new: Seq<Element>, element: Element, parents: Seq<usize>)
    requires
        parents.len() >= 1,
        parents.last() < old.len(),
        appended_under(old, new, element, parents.last() as int),
    ensures
        els_view(new) == push_elem(AstState { els: els_view(old), parents }, el_view(element)).els,
{
    let p = parents.last() as int;
    let expected = push_elem(AstState { els: els_view(old), parents }, el_view(element)).els;
    assert forall|i: int| 0 <= i < new.len() implies els_view(new)[i] == expected[i] by {
        if i < old.len() && i != p {
            assert(new[i] == old[i]);
        }
    }
    assert(els_view(new) =~= expected);
}

/// A type token: inside a list it gives the list its type "Vec<type>"; elsewhere a copy
/// of the type's element is appended.
pub open spec fn types_state(s: AstState, index_of_type: int, first: bool) -> AstState {
    let s1 = indent_if(s, first);
    let p = parent_of_state(s1);
    let el = s1.els[index_of_type];
    match s1.els[p].0 {
        InfoV::List(_) => AstState {
            els: s1.els.update(p, (InfoV::List("Vec<"@ + elements::info_type(s1.els, el.0) + ">"@), s1.els[p].1)),
            parents: s1.parents,
        },
        _ => push_elem(s1, el),
    }
}

/// Append a type: inside a list, the list takes it as its element type instead.
pub fn types(compiler: &mut Compiler, index_of_type: usize) -> (r: Result<(), ()>)
    requires
        old(compiler).at_token(),
        index_of_type < old(compiler).ast.elements@.len(),
    ensures
        r is Ok,
        moved_to(old(compiler), final(compiler), types_state(old(compiler).ast.state(), index_of_type as int, first_in_line(old(compiler)))),
{
    let ghost c0 = *compiler;
    indent_if_first_in_line(compiler);
    let ghost c1 = *compiler;
    assert(compiler.ast.els().len() == compiler.ast.elements@.len());
    assert(compiler.ast.elements@.len() >= c0.ast.elements@.len());
    let el = elements::copy_element(&compiler.ast.elements[index_of_type]);
    let list_ref = parents::get_current_parent_ref_from_parents(&compiler.ast);
    let is_list = match &compiler.ast.elements[list_ref].0 {
        ElementInfo::List(_) => true,
        _ => false,
    };
    if is_list {
        let list_type = elements::get_elementinfo_type(&compiler.ast, &el.0);
        let vec_type = text::concat_str(&text::concat(&text::lit("Vec<"), &list_type), ">");
        let children = compiler.ast.elements[list_ref].1.clone();
        assert(children@ == c1.ast.elements@[list_ref as int].1@);
        compiler.ast.elements.set(list_ref, (ElementInfo::List(vec_type), children));
        proof {
            let old_els = c1.ast.elements@;
            let new = compiler.ast.elements@;
            assert forall|i: int, j: int|
                0 <= i < new.len() && 0 <= j < new[i].1@.len() implies #[trigger] new[i].1@[j] < new.len() by {
                assert(new[i].1@ == old_els[i].1@);
                assert(old_els[i].1@[j] < old_els.len());
            }
            assert forall|i: int| 0 <= i < new.len() implies info_refs_ok(#[trigger] new[i].0, new.len()) by {
                assert(info_refs_ok(old_els[i].0, old_els.len()));
            }
            assert(compiler.ast.els() =~= types_state(c1.ast.state(), index_of_type as int, false).els);
        }
    } else {
        let ghost old_els = compiler.ast.elements@;
        proof {
            assert forall|j: int| 0 <= j < el.1@.len() implies #[trigger] el.1@[j] < old_els.len() + 1 by {
                assert(el.1@[j] == old_els[index_of_type as int].1@[j]);
            }
            assert(info_refs_ok(old_els[index_of_type as int].0, old_els.len()));
        }
        append(&mut compiler.ast, el);
        proof {
            lemma_push_elem(old_els, compiler.ast.elements@, el, c1.ast.parents@);
        }
    }
    Ok(())
}

/// A call of the inbuilt function defined at `index`: its type is the type the definition
/// states; the parser indents into the call when the function takes arguments.
pub open spec fn inbuilt_call_step(s: AstState, tok: Seq<char>, index: int, first: bool, last: bool) -> Outcome {
    let s1 = indent_if(s, first);
    match s1.els[index].0 {
        InfoV::InbuiltFunctionDef(_, argnames, _, _, _, _) => {
            let rt = elements::info_type(s1.els, s1.els[index].0);
            let s2 = push_el(s1, InfoV::InbuiltFunctionCall(tok, index as nat, rt));
            let s3 = after_outdents(s2);
            checked_then(s2, after_seol(if argnames.len() > 0 { indent_last(s3) } else { s3 }, last))
        },
        _ => Outcome::Done(s1),
    }
}

/// Append a call of an inbuilt function.
pub fn inbuilt_function_call(compiler: &mut Compiler, current_token: &String, index_of_function: usize) -> (r: Result<(), ()>)
    requires
        old(compiler).at_token(),
        old(compiler).can_end_in(inbuilt_call_step(old(compiler).ast.state(), current_token@, index_of_function as int, first_in_line(old(compiler)), last_in_line(old(compiler)))),
        index_of_function < old(compiler).ast.elements@.len(),
    ensures
        ended(old(compiler), final(compiler), r, inbuilt_call_step(old(compiler).ast.state(), current_token@, index_of_function as int, first_in_line(old(compiler)), last_in_line(old(compiler)))),
{
    let ghost c0 = *compiler;
    indent_if_first_in_line(compiler);
    let returntype = elements::get_elementinfo_type(&compiler.ast, &compiler.ast.elements[index_of_function].0);
    let num_args: Option<usize> = match &compiler.ast.elements[index_of_function].0 {
        ElementInfo::InbuiltFunctionDef(_, argnames, _, _, _, _) => Some(argnames.len()),
        _ => None,
    };
    match num_args {
        Some(n) => {
            append_leaf(compiler, ElementInfo::InbuiltFunctionCall(current_token.clone(), index_of_function, returntype));
            check_after(compiler, Ghost(c0))?;
            outdent_if_last_expected_child(compiler);
            if n > 0 {
                indent_last_element(compiler);
            }
            seol_if_last_in_line(compiler)
        },
        None => Ok(()),
    }
}

/// A call of the function defined at `index`, typed by what the definition states; the
/// parser indents into it.
pub open spec fn function_call1_step(s: AstState, tok: Seq<char>, index: int, first: bool, last: bool) -> Outcome {
    let s1 = indent_if(s, first);
    let rt = elements::info_type(s1.els, s1.els[index].0);
    let s2 = push_el(s1, InfoV::FunctionCall(tok, rt));
    checked_then(s2, after_seol(indent_last(after_outdents(s2)), last))
}

/// Append a call of a function found by name.
pub fn function_call1(compiler: &mut Compiler, current_token: &String, index_of_function: usize) -> (r: Result<(), ()>)
    requires
        old(compiler).at_token(),
        old(compiler).can_end_in(function_call1_step(old(compiler).ast.state(), current_token@, index_of_function as int, first_in_line(old(compiler)), last_in_line(old(compiler)))),
        index_of_function < old(compiler).ast.elements@.len(),
    ensures
        ended(old(compiler), final(compiler), r, function_call1_step(old(compiler).ast.state(), current_token@, index_of_function as int, first_in_line(old(compiler)), last_in_line(old(compiler)))),
{
    let ghost c0 = *compiler;
    indent_if_first_in_line(compiler);
    let returntype = elements::get_elementinfo_type(&compiler.ast, &compiler.ast.elements[index_of_function].0);
    append_leaf(compiler, ElementInfo::FunctionCall(current_token.clone(), returntype));
    check_after(compiler, Ghost(c0))?;
    outdent_if_last_expected_child(compiler);
    indent_last_element(compiler);
    seol_if_last_in_line(compiler)
}

/// A new name: an Arg when the parser is in a function definition's arguments, otherwise
/// a Constant, which the parser indents into to take its value.
pub open spec fn new_constant_or_arg_step(s: AstState, tok: Seq<char>, first: bool, last: bool) -> Outcome {
    let s1 = indent_if(s, first);
    let p = parent_of_state(s1);
    match s1.els[p].0 {
        InfoV::FunctionDefWIP => {
            let s2 = push_el(s1, InfoV::Arg(tok, p as nat, elements::ArgModifierV::Plain, "Undefined"@));
            checked_then(s2, after_seol(after_outdents(s2), last))
        },
        _ => {
            let s2 = push_el(s1, InfoV::Constant(tok, "Undefined"@));
            checked_then(s2, after_seol(after_outdents(indent_last(s2)), last))
        },
    }
}

/// Append a new constant, or an argument within a function definition being read.
pub fn new_constant_or_arg(compiler: &mut Compiler, current_token: &String) -> (r: Result<(), ()>)
    requires
        old(compiler).at_token(),
        old(compiler).can_end_in(new_constant_or_arg_step(old(compiler).ast.state(), current_token@, first_in_line(old(compiler)), last_in_line(old(compiler)))),
    ensures
        ended(old(compiler), final(compiler), r, new_constant_or_arg_step(old(compiler).ast.state(), current_token@, first_in_line(old(compiler)), last_in_line(old(compiler)))),
{
    let ghost c0 = *compiler;
    indent_if_first_in_line(compiler);
    let parent_ref = parents::get_current_parent_ref_from_parents(&compiler.ast);
    let in_fndef = match &compiler.ast.elements[parent_ref].0 {
        ElementInfo::FunctionDefWIP => true,
        _ => false,
    };
    if in_fndef {
        append_leaf(
            compiler,
            ElementInfo::Arg(current_token.clone(), parent_ref, elements::ArgModifier::Plain, text::lit("Undefined")),
        );
        check_after(compiler, Ghost(c0))?;
    } else {
        append_leaf(compiler, ElementInfo::Constant(current_token.clone(), text::lit("Undefined")));
        check_after(compiler, Ghost(c0))?;
        indent_last_element(compiler);
    }
    outdent_if_last_expected_child(compiler);
    seol_if_last_in_line(compiler)
}

/// A stack whose innermost parent asks for no outdent stays as it is.
proof fn lemma_no_outdent(els: Seq<(InfoV, Seq<usize>)>, parents: Seq<usize>)
    requires
        parents.len() >= 1,
        last_child_outdents(els, parents) == 0,
    ensures
        outdent_loop(els, parents, 999999999) == parents,
{
    if parents.len() >= 2 && parents.len() != 999999999 {
        assert(outdent::outdented_times(parents, 0) == parents);
        assert(outdent_loop(els, parents, parents.len()) == parents);
    }
}

/// A name that names nothing (`new_constant_or_arg`) is appended as a child of the current parent (after an Indent
/// when it starts the line). Directly within a function definition being read it is the
/// definition's argument, of undefined type, and the parents stay. Elsewhere it is a new
/// constant of undefined type, which may stand only in an assignment or a loop; there the
/// step goes on inside the constant, which becomes the innermost parent.
pub proof fn a_new_name_is_placed(s: AstState, tok: Seq<char>, first: bool, last: bool)
    requires
        parents_ok(s.parents, s.els.len()),
        s.parents[0] == 0,
        s.els.len() + 2 <= usize::MAX,
    ensures
        ({
            let k = s.els.len() + (if first { 1int } else { 0int });
            let p = s.parents.last() as int;
            let o = new_constant_or_arg_step(s, tok, first, last);
            let t = match o {
                Outcome::Done(t) => t,
                Outcome::Failed(t, _, _) => t,
            };
            &&& k < t.els.len()
            &&& t.els[p].1.contains(k as usize)
            &&& s.els[p].0 is FunctionDefWIP ==> t.els[k].0 == InfoV::Arg(tok, p as nat, elements::ArgModifierV::Plain, "Undefined"@)
                && t.parents == s.parents
            &&& !(s.els[p].0 is FunctionDefWIP) ==> {
                &&& t.els[k].0 == InfoV::Constant(tok, "Undefined"@)
                &&& (o is Done <==> (s.els[p].0 is Assignment || s.els[p].0 is LoopForRangeWIP || s.els[p].0 is LoopForRange))
                &&& o is Done ==> t.parents == s.parents.push(k as usize)
            }
        }),
{
    let p = s.parents.last() as int;
    assert(s.parents[s.parents.len() - 1] < s.els.len());
    let s1 = indent_if(s, first);
    assert(s1.els[p].0 == s.els[p].0);
    assert(s1.parents == s.parents);
    if s.els[p].0 is FunctionDefWIP {
        let info = InfoV::Arg(tok, p as nat, elements::ArgModifierV::Plain, "Undefined"@);
        lemma_step_places(s, info, first, last, false);
        let s2 = push_el(s1, info);
        assert(s2.els[p].0 is FunctionDefWIP);
        lemma_no_outdent(s2.els, s2.parents);
        let u = after_outdents(s2);
        assert(parents_ok(u.parents, u.els.len()));
        ending_a_line_appends_at_most_a_seol(u, last);
    } else {
        let info = InfoV::Constant(tok, "Undefined"@);
        lemma_step_places(s, info, first, last, true);
        let s2 = push_el(s1, info);
        let k = s2.els.len() - 1;
        assert(s2.els[k] == (info, Seq::<usize>::empty()));
        assert(s2.els[p].0 == s.els[p].0);
        let s3 = indent_last(s2);
        assert(s3.parents.last() == k);
        lemma_no_outdent(s3.els, s3.parents);
        let u = after_outdents(s3);
        assert forall|i: int| 0 <= i < u.parents.len() implies #[trigger] u.parents[i] < u.els.len() by {
            if i < s.parents.len() {
                assert(u.parents[i] == s.parents[i]);
            }
        }
        ending_a_line_appends_at_most_a_seol(u, last);
    }
}

/// A call of a function that takes `args` arguments: appended without an Indent, checked,
/// indented into when it takes arguments, outdented out of completed parents, and the line
/// ended if asked for.
pub open spec fn function_call_step(s: AstState, tok: Seq<char>, args: nat, rt: Seq<char>, seol: bool, last: bool) -> Outcome {
    let s1 = push_el(s, InfoV::FunctionCall(tok, rt));
    let s2 = if args > 0 { indent_last(s1) } else { s1 };
    let s3 = after_outdents(s2);
    checked_then(s1, if seol { after_seol(s3, last) } else { s3 })
}

/// Append a function call.
pub fn function_call(compiler: &mut Compiler, current_token: &String, args: usize, returntype: &String, seol: bool) -> (r: Result<(), ()>)
    requires
        old(compiler).at_token(),
        old(compiler).can_end_in(function_call_step(old(compiler).ast.state(), current_token@, args as nat, returntype@, seol, last_in_line(old(compiler)))),
    ensures
        ended(old(compiler), final(compiler), r, function_call_step(old(compiler).ast.state(), current_token@, args as nat, returntype@, seol, last_in_line(old(compiler)))),
{
    let ghost c0 = *compiler;
    append_leaf(compiler, ElementInfo::FunctionCall(current_token.clone(), returntype.clone()));
    check_after(compiler, Ghost(c0))?;
    if args > 0 {
        indent_last_element(compiler);
    }
    outdent_if_last_expected_child(compiler);
    if seol {
        seol_if_last_in_line(compiler)
    } else {
        Ok(())
    }
}

/// The name of a struct held by a constant: the constant's name in lowercase without
/// underscores, its first character in uppercase ("Undefined" when the parent is no constant).
pub open spec fn struct_name(parent: InfoV) -> Seq<char> {
    let base = match parent {
        InfoV::Constant(name, _) => name,
        _ => "Undefined"@,
    };
    let n = text::replace_all(text::lowercase(base), "_"@, ""@);
    if n.len() > 0 {
        n.update(0, text::uppercase_first(n[0]))
    } else {
        n
    }
}

/// The start of a struct, named after the constant it is the value of.
pub open spec fn struct_start_step(s: AstState, first: bool) -> Outcome {
    let s1 = indent_if(s, first);
    let s2 = push_el(s1, InfoV::Struct(struct_name(s1.els[parent_of_state(s1)].0), Seq::empty(), Seq::empty()));
    checked_then(s2, indent_last(s2))
}

/// Append the start of a struct.
pub fn struct_start(compiler: &mut Compiler) -> (r: Result<(), ()>)
    requires
        old(compiler).at_token(),
        old(compiler).can_end_in(struct_start_step(old(compiler).ast.state(), first_in_line(old(compiler)))),
    ensures
        ended(old(compiler), final(compiler), r, struct_start_step(old(compiler).ast.state(), first_in_line(old(compiler)))),
{
    let ghost c0 = *compiler;
    indent_if_first_in_line(compiler);
    let parent_ref = parents::get_current_parent_ref_from_parents(&compiler.ast);
    let mut struct_name = text::lit("Undefined");
    if let ElementInfo::Constant(name, _) = &compiler.ast.elements[parent_ref].0 {
        struct_name = name.clone();
    }
    proof { reveal_strlit("_"); }
    struct_name = text::replace_str(&text::to_lowercase(&struct_name), &text::lit("_"), &text::lit(""));
    let mut temp_struct_name = text::chars_of(&struct_name);
    if temp_struct_name.len() > 0 {
        let upper = text::to_uppercase_first(temp_struct_name[0]);
        temp_struct_name.set(0, upper);
    }
    struct_name = text::string_from_chars(temp_struct_name.as_slice());
    let names: Vec<String> = Vec::new();
    let types: Vec<String> = Vec::new();
    assert(elements::strs_view(names@) =~= Seq::<Seq<char>>::empty());
    append_leaf(compiler, ElementInfo::Struct(struct_name, names, types));
    check_after(compiler, Ghost(c0))?;
    indent_last_element(compiler);
    Ok(())
}


/// The first position of `x` in `v`, if any.
#[verifier::opaque]
pub open spec fn first_pos(v: Seq<usize>, x: usize) -> Option<int> {
    if v.contains(x) {
        Some(choose|i: int| 0 <= i < v.len() && v[i] == x && forall|k: int| 0 <= k < i ==> v[k] != x)
    } else {
        None
    }
}

proof fn lemma_first_pos(v: Seq<usize>, x: usize, i: int)
    requires
        0 <= i < v.len(),
        v[i] == x,
        forall|k: int| 0 <= k < i ==> v[k] != x,
    ensures
        first_pos(v, x) == Some(i),
{
    reveal(first_pos);
    let j = choose|j: int| 0 <= j < v.len() && v[j] == x && forall|k: int| 0 <= k < j ==> v[k] != x;
    assert(0 <= j < v.len() && v[j] == x && forall|k: int| 0 <= k < j ==> v[k] != x);
}

/// The first position of `x` in `v`, if any.
fn usize_position(v: &Vec<usize>, x: usize) -> (r: Option<usize>)
    ensures
        match r {
            Some(k) => first_pos(v@, x) == Some(k as int) && k < v@.len(),
            None => first_pos(v@, x) is None,
        },
{
    let mut i: usize = 0;
    while i < v.len()
        invariant
            i <= v@.len(),
            forall|k: int| 0 <= k < i ==> v@[k] != x,
        decreases v@.len() - i,
    {
        if v[i] == x {
            proof { lemma_first_pos(v@, x, i as int); }
            return Some(i);
        }
        i = i + 1;
    }
    proof { reveal(first_pos); }
    None
}

/// The state with the element `e` added at the end and placed among the children of
/// `parent` as `append_as_nth_child_of_elindex` places it.
pub open spec fn inserted_state(s: AstState, e: (InfoV, Seq<usize>), parent: int, position: int) -> AstState {
    AstState {
        els: s.els.update(parent, (s.els[parent].0, inserted_child(s.els[parent].1, position, s.els.len() as usize))).push(e),
        parents: s.parents,
    }
}

/// The reference at `pr` renamed to the duplicate function `new_name`.
pub open spec fn switched_state(s: AstState, pr: int, new_name: Seq<char>) -> AstState {
    match s.els[pr].0 {
        InfoV::ConstantRef(_, rt, _) => AstState {
            els: s.els.update(pr, (InfoV::ConstantRef(new_name, rt, new_name), s.els[pr].1)),
            parents: s.parents,
        },
        _ => s,
    }
}

/// The argument types of a function handed to an inbuilt function, each with its modifier
/// in front.
pub open spec fn modified_types(fam: Seq<Seq<char>>, argtypes: Seq<Seq<char>>) -> Seq<Seq<char>> {
    Seq::new(argtypes.len(), |i: int| fam[i] + argtypes[i])
}

/// The state after the function `tok` is duplicated as `new_name` with modified argument
/// types, placed just after the function it copies under the same parent, and the reference at `pr`
/// switched to it. Nothing changes when a modifier is missing for an argument.
pub open spec fn duplicated_state(s: AstState, tok: Seq<char>, new_name: Seq<char>, fam: Seq<Seq<char>>, pr: int) -> AstState {
    match elements::find(s.els, elements::Lookup::Function, tok) {
        Some(fi) => match s.els[fi].0 {
            InfoV::FunctionDef(_, argnames, argtypes, rt) => if fam.len() >= argtypes.len() {
                let dup = (InfoV::FunctionDef(new_name, argnames, modified_types(fam, argtypes), rt), s.els[fi].1);
                match parent_of(s.els, fi as usize) {
                    Some(pf) => match first_pos(s.els[pf].1, fi as usize) {
                        Some(pos) => switched_state(inserted_state(s, dup, pf, pos + 1), pr, new_name),
                        None => s,
                    },
                    None => s,
                }
            } else {
                s
            },
            _ => s,
        },
        None => s,
    }
}

/// The name of the duplicate of function `tok` made for the inbuilt function `name`: the
/// function's name, "_for_", and the inbuilt function's name in snake case (its "::" and "."
/// made "_", in lower case), which makes a valid Rust name.
pub open spec fn duplicate_name(tok: Seq<char>, name: Seq<char>) -> Seq<char> {
    tok + "_for_"@ + text::lowercase(text::replace_all(text::replace_all(name, "::"@, "_"@), "."@, "_"@))
}

/// After the parentheses at `pr` became a reference to the function `tok`: when they are an
/// argument of an inbuilt function call whose definition gives that argument a function
/// modifier, the function is duplicated with the modified argument types (once per name).
pub open spec fn parens_checked_state(s: AstState, tok: Seq<char>, pr: int) -> AstState {
    match parent_of(s.els, pr as usize) {
        Some(pp) => match s.els[pp].0 {
            InfoV::InbuiltFunctionCall(name, _, _) => match first_pos(s.els[pp].1, pr as usize) {
                Some(index) => match elements::find(s.els, elements::Lookup::InbuiltFunction, name) {
                    Some(d) => match s.els[d].0 {
                        InfoV::InbuiltFunctionDef(_, _, _, mods, _, _) => if index < mods.len() {
                            match mods[index] {
                                elements::ArgModifierV::FnArg(fam) => {
                                    let new_name = duplicate_name(tok, name);
                                    if elements::find(s.els, elements::Lookup::Constant, new_name) is None {
                                        duplicated_state(s, tok, new_name, fam, pr)
                                    } else {
                                        s
                                    }
                                },
                                _ => s,
                            }
                        } else {
                            s
                        },
                        _ => s,
                    },
                    None => s,
                },
                None => s,
            },
            _ => s,
        },
        None => s,
    }
}

/// A function name inside parentheses is a reference to it: the parentheses become a
/// ConstantRef to the function, with no children.
pub open spec fn fnref_state(s: AstState, tok: Seq<char>, rt: Seq<char>) -> AstState {
    let pr = parent_of_state(s);
    let s1 = AstState { els: s.els.update(pr, (InfoV::ConstantRef(tok, rt, tok), Seq::empty())), parents: s.parents };
    parens_checked_state(s1, tok, pr)
}

/// A defined function's name: inside parentheses a reference to it, otherwise a call.
pub open spec fn function_ref_or_call_step(s: AstState, tok: Seq<char>, args: nat, rt: Seq<char>, first: bool, last: bool) -> Outcome {
    let s1 = indent_if(s, first);
    if s1.els[parent_of_state(s1)].0 is Parens {
        Outcome::Done(after_seol(fnref_state(s1, tok, rt), last))
    } else {
        function_call_step(s1, tok, args, rt, true, last)
    }
}

/// Replaces the element at `index`, keeping the AST well formed.
pub(crate) fn set_element(compiler: &mut Compiler, index: usize, e: Element)
    requires
        old(compiler).at_token(),
        index < old(compiler).ast.elements@.len(),
        forall|j: int| 0 <= j < e.1@.len() ==> #[trigger] e.1@[j] < old(compiler).ast.elements@.len(),
        info_refs_ok(e.0, old(compiler).ast.elements@.len()),
    ensures
        moved_to(old(compiler), final(compiler), AstState {
            els: old(compiler).ast.els().update(index as int, el_view(e)),
            parents: old(compiler).ast.parents@,
        }),
        final(compiler).ast.elements@.len() == old(compiler).ast.elements@.len(),
{
    let ghost old_els = compiler.ast.elements@;
    compiler.ast.elements.set(index, e);
    proof {
        let new = compiler.ast.elements@;
        assert forall|i: int, j: int|
            0 <= i < new.len() && 0 <= j < new[i].1@.len() implies #[trigger] new[i].1@[j] < new.len() by {
            if i != index {
                assert(old_els[i].1@[j] < old_els.len());
            }
        }
        assert forall|i: int| 0 <= i < new.len() implies info_refs_ok(#[trigger] new[i].0, new.len()) by {
            if i != index {
                assert(info_refs_ok(old_els[i].0, old_els.len()));
            }
        }
        assert(compiler.ast.els() =~= els_view(old_els).update(index as int, el_view(e)));
    }
}

/// Switches the reference at `parens_ref` from the function to its duplicate.
fn switch_old_fn_ref_for_new(compiler: &mut Compiler, parens_ref: usize, new_fn_name: &String)
    requires
        old(compiler).at_token(),
        parens_ref < old(compiler).ast.elements@.len(),
    ensures
        moved_to(old(compiler), final(compiler), switched_state(old(compiler).ast.state(), parens_ref as int, new_fn_name@)),
{
    let el = elements::copy_element(&compiler.ast.elements[parens_ref]);
    if let ElementInfo::ConstantRef(_, returntype, _) = &el.0 {
        proof {
            assert forall|j: int| 0 <= j < el.1@.len() implies #[trigger] el.1@[j] < compiler.ast.elements@.len() by {
                assert(el.1@[j] == compiler.ast.elements@[parens_ref as int].1@[j]);
            }
        }
        let rt = returntype.clone();
        let children = el.1.clone();
        assert(children@ == el.1@);
        set_element(compiler, parens_ref, (ElementInfo::ConstantRef(new_fn_name.clone(), rt, new_fn_name.clone()), children));
    }
}

/// Duplicates the function `name` as `new_fn_name`, each argument type with its modifier in
/// front, places the duplicate just after the function it copies, and switches the reference to it.
fn duplicate_fn(compiler: &mut Compiler, name: &String, new_fn_name: &String, fn_arg_modifier: &Vec<String>, parens_ref: usize)
    requires
        old(compiler).at_token(),
        parens_ref < old(compiler).ast.elements@.len(),
    ensures
        moved_to(old(compiler), final(compiler), duplicated_state(old(compiler).ast.state(), name@, new_fn_name@, elements::strs_view(fn_arg_modifier@), parens_ref as int)),
{
    let ghost c0 = *compiler;
    let ghost fam = elements::strs_view(fn_arg_modifier@);
    if let Some(fi) = elements::get_function_index_by_name(&compiler.ast, name) {
        let dup = elements::copy_element(&compiler.ast.elements[fi]);
        if let ElementInfo::FunctionDef(_, argnames, argtypes, returntype) = &dup.0 {
            if fn_arg_modifier.len() >= argtypes.len() {
                let mut new_argtypes: Vec<String> = Vec::new();
                let mut i: usize = 0;
                while i < argtypes.len()
                    invariant
                        i <= argtypes@.len() <= fn_arg_modifier@.len(),
                        new_argtypes@.len() == i,
                        forall|k: int| 0 <= k < i ==> (#[trigger] new_argtypes@[k])@ == fn_arg_modifier@[k]@ + argtypes@[k]@,
                    decreases argtypes@.len() - i,
                {
                    new_argtypes.push(text::concat(&fn_arg_modifier[i], &argtypes[i]));
                    i = i + 1;
                }
                assert(elements::strs_view(new_argtypes@) =~= modified_types(fam, elements::strs_view(argtypes@)));
                let names2 = argnames.clone();
                assert(names2@ =~= argnames@);
                let children = dup.1.clone();
                assert(children@ == dup.1@);
                let new_dup: Element = (
                    ElementInfo::FunctionDef(new_fn_name.clone(), names2, new_argtypes, returntype.clone()),
                    children,
                );
                if let Some(pf) = parents::get_current_parent_ref_from_element_children_search(&compiler.ast, fi) {
                    let siblings = compiler.ast.elements[pf].1.clone();
                    assert(siblings@ == compiler.ast.els()[pf as int].1);
                    if let Some(pos) = usize_position(&siblings, fi) {
                        proof {
                            assert forall|j: int| 0 <= j < new_dup.1@.len() implies #[trigger] new_dup.1@[j] < compiler.ast.elements@.len() + 1 by {
                                assert(new_dup.1@[j] == compiler.ast.elements@[fi as int].1@[j]);
                            }
                        }
                        let ghost before = compiler.ast.elements@;
                        append_as_nth_child_of_elindex(&mut compiler.ast, new_dup, pf, pos + 1);
                        proof {
                            let expected = inserted_state(c0.ast.state(), el_view(new_dup), pf as int, pos + 1);
                            assert forall|i: int| 0 <= i < compiler.ast.elements@.len() implies compiler.ast.els()[i] == expected.els[i] by {
                                if i < before.len() && i != pf {
                                    assert(compiler.ast.elements@[i] == before[i]);
                                }
                            }
                            assert(compiler.ast.els() =~= expected.els);
                        }
                        switch_old_fn_ref_for_new(compiler, parens_ref, new_fn_name);
                    }
                }
            }
        }
    }
}

/// The parentheses at `parens_ref` hold a reference to the function `current_token`; when
/// they are an argument of an inbuilt function call whose definition gives that argument a
/// function modifier, a duplicate of the function with modified argument types is made.
fn check_parens_parent(compiler: &mut Compiler, current_token: &String, parens_ref: usize)
    requires
        old(compiler).at_token(),
        parens_ref < old(compiler).ast.elements@.len(),
    ensures
        moved_to(old(compiler), final(compiler), parens_checked_state(old(compiler).ast.state(), current_token@, parens_ref as int)),
{
    if let Some(pp) = parents::get_current_parent_ref_from_element_children_search(&compiler.ast, parens_ref) {
        if let ElementInfo::InbuiltFunctionCall(name, _, _) = &compiler.ast.elements[pp].0 {
            let name = name.clone();
            let children = compiler.ast.elements[pp].1.clone();
            assert(children@ == compiler.ast.els()[pp as int].1);
            if let Some(index) = usize_position(&children, parens_ref) {
                if let Some(ElementInfo::InbuiltFunctionDef(_, _, _, argmodifiers, _, _)) = elements::get_inbuilt_function_by_name(&compiler.ast, &name) {
                    if index < argmodifiers.len() {
                        if let elements::ArgModifier::FnArg(fn_arg_modifier) = &argmodifiers[index] {
                            proof {
                                reveal_strlit(".");
                                reveal_strlit("::");
                            }
                            let path_free = text::replace_str(&name, &text::lit("::"), &text::lit("_"));
                            let snake = text::to_lowercase(&text::replace_str(&path_free, &text::lit("."), &text::lit("_")));
                            let new_fn_name = text::concat(&text::concat_str(current_token, "_for_"), &snake);
                            if elements::get_constant_index_by_name(&compiler.ast, &new_fn_name).is_none() {
                                duplicate_fn(compiler, current_token, &new_fn_name, fn_arg_modifier, parens_ref);
                            }
                        }
                    }
                }
            }
        }
    }
}

/// Append a reference to a defined function, or a call of it: inside parentheses the
/// parentheses become a reference to the function, otherwise the function is called.
pub fn function_ref_or_call(compiler: &mut Compiler, current_token: &String, args: usize, returntype: &String) -> (r: Result<(), ()>)
    requires
        old(compiler).at_token(),
        old(compiler).can_end_in(function_ref_or_call_step(old(compiler).ast.state(), current_token@, args as nat, returntype@, first_in_line(old(compiler)), last_in_line(old(compiler)))),
    ensures
        ended(old(compiler), final(compiler), r, function_ref_or_call_step(old(compiler).ast.state(), current_token@, args as nat, returntype@, first_in_line(old(compiler)), last_in_line(old(compiler)))),
{
    let ghost c0 = *compiler;
    indent_if_first_in_line(compiler);
    let ghost c1 = *compiler;
    let parens_ref = parents::get_current_parent_ref_from_parents(&compiler.ast);
    let is_parens = match &compiler.ast.elements[parens_ref].0 {
        ElementInfo::Parens => true,
        _ => false,
    };
    if is_parens {
        let children: Vec<usize> = Vec::new();
        set_element(
            compiler,
            parens_ref,
            (ElementInfo::ConstantRef(current_token.clone(), returntype.clone(), current_token.clone()), children),
        );
        check_parens_parent(compiler, current_token, parens_ref);
        seol_if_last_in_line(compiler)
    } else {
        let r = function_call(compiler, current_token, args, returntype, true);
        proof {
            lemma_moved_then_ended(&c0, &c1, compiler, c1.ast.state(), r, function_call_step(c1.ast.state(), current_token@, args as nat, returntype@, true, last_in_line(&c1)));
        }
        r
    }
}

} // verus!
