//! Compile errors: their messages, how they are recorded, and the checks that an element
//! is placed inside a parent that may hold it.
use crate::ast::elements::{get_last_element, ElementInfo, Element, InfoV};
use crate::ast::parents;
use crate::text::{self, decimal, repeat};
use crate::{CharPosition, Compiler, Token};
use vstd::prelude::*;

verus! {
pub const COMMENT_SINGLE_LINE: &'static str = "Invalid single line comment: Must begin with two forward slashes '//'";
pub const COMMENT_CANT_BE_CHILD_OF_ASSIGNMENT: &'static str = "Invalid Assignment - comment found instead of constant or function definition";
pub const COMMENT_CANT_BE_CHILD_OF_CONSTANT: &'static str = "Invalid Constant Definition - comment found instead of value";
pub const COMMENT_CANT_BE_CHILD_OF_INBUILTFNCALL: &'static str = "Invalid Inbuilt Function Call - comment found instead of value";
pub const COMMENT_CANT_BE_CHILD_OF_FNCALL: &'static str = "Invalid Function Call - comment found instead of value";
pub const COMMENT_CANT_BE_CHILD_OF_PARENTHESIS: &'static str = "Invalid Parenthesis - comment found inside parenthesis";
pub const INT_CANT_BE_CHILD_OF_ASSIGNMENT: &'static str = "Invalid Assignment - Int found  instead of constant or function definition";
pub const INT_CANT_BE_CHILD_OF_PARENTHESIS: &'static str = "Invalid parenthesis - Int found inside parenthesis. Can only include a type in a function definition, or a function name as a reference";
pub const FLOAT_CANT_BE_CHILD_OF_ASSIGNMENT: &'static str = "Invalid Assignment - Float found  instead of constant or function definition";
pub const FLOAT_CANT_BE_CHILD_OF_PARENTHESIS: &'static str = "Invalid parenthesis - Float found inside parenthesis. Can only include a type in a function definition, or a function name as a reference";
pub const STRING_CANT_BE_CHILD_OF_ASSIGNMENT: &'static str = "Invalid Assignment - Float found  instead of constant or function definition";
pub const STRING_CANT_BE_CHILD_OF_PARENTHESIS: &'static str = "Invalid parenthesis - Float found inside parenthesis. Can only include a type in a function definition, or a function name as a reference";
pub const CONSTANTREF_CANT_BE_CHILD_OF_PARENTHESIS: &'static str = "Invalid Constant Reference - only Types and Function names should be found inside parenthesis";
pub const CONSTANT_UNDEFINED: &'static str = "Invalid Constant Definition - this constant has not previously been defined, so cannot be used anywhere except in a new definition, e.g. = a 123";
pub const ASSIGNMENT_CANT_BE_CHILD_OF_CONSTANT: &'static str = "Invalid Constant Definition - \"=\" can't be the value of this constant";
pub const ASSIGNMENT_CANT_BE_CHILD_OF_INBUILTFNCALL: &'static str = "Invalid Inbuilt Function Call - \"=\" found instead of value";
pub const ASSIGNMENT_CANT_BE_CHILD_OF_FNCAL: &'static str = "Invalid Function Call - \"=\" found instead of value";
pub const ASSIGNMENT_CANT_BE_CHILD_OF_ASSIGNMENT: &'static str = "Invalid Assignment - \"=\" found instead of constant or function definition";
pub const ASSIGNMENT_CANT_BE_CHILD_OF_PARENTHESIS: &'static str = "Invalid parenthesis - \"=\" found inside parenthesis. Can only include a type in a function definition, or a function name as a reference";
pub const INBUILTFNCALL_CANT_BE_CHILD_OF_PARENTHESIS: &'static str = "Invalid parenthesis - inbuilt function call found inside parenthesis. Can only include a type in a function definition, or a function name as a reference";
pub const FNCALL_CANT_BE_CHILD_OF_PARENTHESIS: &'static str = "Invalid parenthesis - function call found inside parenthesis. Can only include a type in a function definition, or a function name as a reference";
pub const PARENTHESIS_CANT_BE_CHILD_OF_ROOT: &'static str = "Invalid parenthesis - parenthesis found at start of line. Can only use in a function definition, or a function name as a reference";
pub const PARENTHESIS_CANT_BE_CHILD_OF_CONSTANT: &'static str = "Invalid parenthesis - parenthesis found as value of constant. Can only use in a function definition, or a function name as a reference";
pub const PARENTHESIS_CANT_BE_CHILD_OF_ASSIGNMENT: &'static str = "Invalid parenthesis - parenthesis found as value of assignment. Can only use in a function definition, or a function name as a reference";
pub const PRINTLN_CANT_BE_CHILD_OF_ELEMENT: &'static str = "Invalid PrintLn - can't be used as child of this element";
pub const FNDEFWIP_CAN_ONLY_BE_CHILD_OF_CONSTANT: &'static str = "Invalid Function Definition - \"\\\" found, which defines start of a function. Can only be used after a constant, i.e. = fn_name \\ i64 i64 arg1 : + arg1 123";
pub const LOOPFOR_CANT_BE_CHILD: &'static str = "Invalid For Loop - can't be placed here";
pub const LOOPFOR_END_BUT_NO_START: &'static str = "Invalid End For Loop found - can't find start of for loop";
pub const LOOPFOR_MALFORMED: &'static str = "Invalid For Loop - is missing key parts like variable name, start or end of range";
pub const STRING: &'static str = "Invalid string found: Must be enclosed in quote marks \"\"";
pub const ASSIGN: &'static str = "Invalid assignment: There are characters directly after '='. It must be followed by a space";
pub const INT: &'static str = "Invalid int: there are characters after the first digit. Must only contain digits";
pub const INT_OUT_OF_BOUNDS: &'static str = "Invalid int: is out of bounds. Must be within the value of -9223372036854775808 to 9223372036854775807";
pub const INT_NEGATIVE: &'static str = "Invalid negative int or float: Must follow a negative sign '-' with a digit";
pub const FLOAT: &'static str = "Invalid float";
pub const FUNCDEF_ARGS: &'static str = "Invalid Functional Definition - wrong number of argument types: should be 1 type for each arg, plus a return type.";
pub const FUNCDEF_ARGTYPES_FIRST: &'static str = "Invalid Functional Definition - argument types should come before argument names.";
pub const CONSTANTS_ARE_IMMUTABLE: &'static str = "Constants are immutable. You may be trying to assign a value to a constant that has already been defined. Try renaming this as a new constant.";
pub const LOOP_FOR: &'static str = "Found character after \".\" For loops start with \"..\"";
pub const A_STRUCT: &'static str = "Invalid struct: a struct starts with a lone '{' and holds at least one key and value";
pub const LIST: &'static str = "Invalid list: a list starts with a lone '[' and holds at least one item or a type";
pub const RUSTCODE: &'static str = "Rust code lines are not accepted here";
pub const STRUCT_EDIT: &'static str = "Struct edits are not accepted here";
pub const UNKNOWN: &'static str = "parser - unknown error";
pub const IMPOSSIBLE_ERROR: &'static str = "Oh no, this error should be impossible... 'Well here's another nice mess you've gotten me into.'";

/// The messages of all compile errors.
#[derive(Clone, Debug)]
pub struct Errors {
    pub comment_single_line: &'static str,
    pub comment_cant_be_child_of_assignment: &'static str,
    pub comment_cant_be_child_of_constant: &'static str,
    pub comment_cant_be_child_of_inbuiltfncall: &'static str,
    pub comment_cant_be_child_of_fncall: &'static str,
    pub comment_cant_be_child_of_parenthesis: &'static str,
    pub int_cant_be_child_of_assignment: &'static str,
    pub int_cant_be_child_of_parenthesis: &'static str,
    pub float_cant_be_child_of_assignment: &'static str,
    pub float_cant_be_child_of_parenthesis: &'static str,
    pub string_cant_be_child_of_assignment: &'static str,
    pub string_cant_be_child_of_parenthesis: &'static str,
    pub constantref_cant_be_child_of_parenthesis: &'static str,
    pub constant_undefined: &'static str,
    pub assignment_cant_be_child_of_constant: &'static str,
    pub assignment_cant_be_child_of_inbuiltfncall: &'static str,
    pub assignment_cant_be_child_of_fncal: &'static str,
    pub assignment_cant_be_child_of_assignment: &'static str,
    pub assignment_cant_be_child_of_parenthesis: &'static str,
    pub inbuiltfncall_cant_be_child_of_parenthesis: &'static str,
    pub fncall_cant_be_child_of_parenthesis: &'static str,
    pub parenthesis_cant_be_child_of_root: &'static str,
    pub parenthesis_cant_be_child_of_constant: &'static str,
    pub parenthesis_cant_be_child_of_assignment: &'static str,
    pub println_cant_be_child_of_element: &'static str,
    pub fndefwip_can_only_be_child_of_constant: &'static str,
    pub loopfor_cant_be_child: &'static str,
    pub loopfor_end_but_no_start: &'static str,
    pub loopfor_malformed: &'static str,
    pub string: &'static str,
    pub assign: &'static str,
    pub int: &'static str,
    pub int_out_of_bounds: &'static str,
    pub int_negative: &'static str,
    pub float: &'static str,
    pub funcdef_args: &'static str,
    pub funcdef_argtypes_first: &'static str,
    pub constants_are_immutable: &'static str,
    pub loop_for: &'static str,
    pub impossible_error: &'static str,
}

/// All compile error messages.
pub fn errors() -> (e: Errors)
    ensures
        e.comment_single_line@ == COMMENT_SINGLE_LINE@,
        e.comment_cant_be_child_of_assignment@ == COMMENT_CANT_BE_CHILD_OF_ASSIGNMENT@,
        e.comment_cant_be_child_of_constant@ == COMMENT_CANT_BE_CHILD_OF_CONSTANT@,
        e.comment_cant_be_child_of_inbuiltfncall@ == COMMENT_CANT_BE_CHILD_OF_INBUILTFNCALL@,
        e.comment_cant_be_child_of_fncall@ == COMMENT_CANT_BE_CHILD_OF_FNCALL@,
        e.comment_cant_be_child_of_parenthesis@ == COMMENT_CANT_BE_CHILD_OF_PARENTHESIS@,
        e.int_cant_be_child_of_assignment@ == INT_CANT_BE_CHILD_OF_ASSIGNMENT@,
        e.int_cant_be_child_of_parenthesis@ == INT_CANT_BE_CHILD_OF_PARENTHESIS@,
        e.float_cant_be_child_of_assignment@ == FLOAT_CANT_BE_CHILD_OF_ASSIGNMENT@,
        e.float_cant_be_child_of_parenthesis@ == FLOAT_CANT_BE_CHILD_OF_PARENTHESIS@,
        e.string_cant_be_child_of_assignment@ == STRING_CANT_BE_CHILD_OF_ASSIGNMENT@,
        e.string_cant_be_child_of_parenthesis@ == STRING_CANT_BE_CHILD_OF_PARENTHESIS@,
        e.constantref_cant_be_child_of_parenthesis@ == CONSTANTREF_CANT_BE_CHILD_OF_PARENTHESIS@,
        e.constant_undefined@ == CONSTANT_UNDEFINED@,
        e.assignment_cant_be_child_of_constant@ == ASSIGNMENT_CANT_BE_CHILD_OF_CONSTANT@,
        e.assignment_cant_be_child_of_inbuiltfncall@ == ASSIGNMENT_CANT_BE_CHILD_OF_INBUILTFNCALL@,
        e.assignment_cant_be_child_of_fncal@ == ASSIGNMENT_CANT_BE_CHILD_OF_FNCAL@,
        e.assignment_cant_be_child_of_assignment@ == ASSIGNMENT_CANT_BE_CHILD_OF_ASSIGNMENT@,
        e.assignment_cant_be_child_of_parenthesis@ == ASSIGNMENT_CANT_BE_CHILD_OF_PARENTHESIS@,
        e.inbuiltfncall_cant_be_child_of_parenthesis@ == INBUILTFNCALL_CANT_BE_CHILD_OF_PARENTHESIS@,
        e.fncall_cant_be_child_of_parenthesis@ == FNCALL_CANT_BE_CHILD_OF_PARENTHESIS@,
        e.parenthesis_cant_be_child_of_root@ == PARENTHESIS_CANT_BE_CHILD_OF_ROOT@,
        e.parenthesis_cant_be_child_of_constant@ == PARENTHESIS_CANT_BE_CHILD_OF_CONSTANT@,
        e.parenthesis_cant_be_child_of_assignment@ == PARENTHESIS_CANT_BE_CHILD_OF_ASSIGNMENT@,
        e.println_cant_be_child_of_element@ == PRINTLN_CANT_BE_CHILD_OF_ELEMENT@,
        e.fndefwip_can_only_be_child_of_constant@ == FNDEFWIP_CAN_ONLY_BE_CHILD_OF_CONSTANT@,
        e.loopfor_cant_be_child@ == LOOPFOR_CANT_BE_CHILD@,
        e.loopfor_end_but_no_start@ == LOOPFOR_END_BUT_NO_START@,
        e.loopfor_malformed@ == LOOPFOR_MALFORMED@,
        e.string@ == STRING@,
        e.assign@ == ASSIGN@,
        e.int@ == INT@,
        e.int_out_of_bounds@ == INT_OUT_OF_BOUNDS@,
        e.int_negative@ == INT_NEGATIVE@,
        e.float@ == FLOAT@,
        e.funcdef_args@ == FUNCDEF_ARGS@,
        e.funcdef_argtypes_first@ == FUNCDEF_ARGTYPES_FIRST@,
        e.constants_are_immutable@ == CONSTANTS_ARE_IMMUTABLE@,
        e.loop_for@ == LOOP_FOR@,
        e.impossible_error@ == IMPOSSIBLE_ERROR@,
{
    Errors {
        comment_single_line: COMMENT_SINGLE_LINE,
        comment_cant_be_child_of_assignment: COMMENT_CANT_BE_CHILD_OF_ASSIGNMENT,
        comment_cant_be_child_of_constant: COMMENT_CANT_BE_CHILD_OF_CONSTANT,
        comment_cant_be_child_of_inbuiltfncall: COMMENT_CANT_BE_CHILD_OF_INBUILTFNCALL,
        comment_cant_be_child_of_fncall: COMMENT_CANT_BE_CHILD_OF_FNCALL,
        comment_cant_be_child_of_parenthesis: COMMENT_CANT_BE_CHILD_OF_PARENTHESIS,
        int_cant_be_child_of_assignment: INT_CANT_BE_CHILD_OF_ASSIGNMENT,
        int_cant_be_child_of_parenthesis: INT_CANT_BE_CHILD_OF_PARENTHESIS,
        float_cant_be_child_of_assignment: FLOAT_CANT_BE_CHILD_OF_ASSIGNMENT,
        float_cant_be_child_of_parenthesis: FLOAT_CANT_BE_CHILD_OF_PARENTHESIS,
        string_cant_be_child_of_assignment: STRING_CANT_BE_CHILD_OF_ASSIGNMENT,
        string_cant_be_child_of_parenthesis: STRING_CANT_BE_CHILD_OF_PARENTHESIS,
        constantref_cant_be_child_of_parenthesis: CONSTANTREF_CANT_BE_CHILD_OF_PARENTHESIS,
        constant_undefined: CONSTANT_UNDEFINED,
        assignment_cant_be_child_of_constant: ASSIGNMENT_CANT_BE_CHILD_OF_CONSTANT,
        assignment_cant_be_child_of_inbuiltfncall: ASSIGNMENT_CANT_BE_CHILD_OF_INBUILTFNCALL,
        assignment_cant_be_child_of_fncal: ASSIGNMENT_CANT_BE_CHILD_OF_FNCAL,
        assignment_cant_be_child_of_assignment: ASSIGNMENT_CANT_BE_CHILD_OF_ASSIGNMENT,
        assignment_cant_be_child_of_parenthesis: ASSIGNMENT_CANT_BE_CHILD_OF_PARENTHESIS,
        inbuiltfncall_cant_be_child_of_parenthesis: INBUILTFNCALL_CANT_BE_CHILD_OF_PARENTHESIS,
        fncall_cant_be_child_of_parenthesis: FNCALL_CANT_BE_CHILD_OF_PARENTHESIS,
        parenthesis_cant_be_child_of_root: PARENTHESIS_CANT_BE_CHILD_OF_ROOT,
        parenthesis_cant_be_child_of_constant: PARENTHESIS_CANT_BE_CHILD_OF_CONSTANT,
        parenthesis_cant_be_child_of_assignment: PARENTHESIS_CANT_BE_CHILD_OF_ASSIGNMENT,
        println_cant_be_child_of_element: PRINTLN_CANT_BE_CHILD_OF_ELEMENT,
        fndefwip_can_only_be_child_of_constant: FNDEFWIP_CAN_ONLY_BE_CHILD_OF_CONSTANT,
        loopfor_cant_be_child: LOOPFOR_CANT_BE_CHILD,
        loopfor_end_but_no_start: LOOPFOR_END_BUT_NO_START,
        loopfor_malformed: LOOPFOR_MALFORMED,
        string: STRING,
        assign: ASSIGN,
        int: INT,
        int_out_of_bounds: INT_OUT_OF_BOUNDS,
        int_negative: INT_NEGATIVE,
        float: FLOAT,
        funcdef_args: FUNCDEF_ARGS,
        funcdef_argtypes_first: FUNCDEF_ARGTYPES_FIRST,
        constants_are_immutable: CONSTANTS_ARE_IMMUTABLE,
        loop_for: LOOP_FOR,
        impossible_error: IMPOSSIBLE_ERROR,
    }
}

/// The text of the tokens, concatenated.
pub open spec fn tokens_text(toks: Seq<Token>) -> Seq<char>
    decreases toks.len(),
{
    if toks.len() == 0 {
        Seq::empty()
    } else {
        tokens_text(toks.drop_last()) + toks.last().0@
    }
}

/// The characters of a line of characters.
pub open spec fn line_text(line: Seq<CharPosition>) -> Seq<char> {
    line.map_values(|p: CharPosition| p.0)
}

/// Where the arrow under the error starts: the given indent, or when it is 0 and the error
/// is not at the first token, the byte length of the tokens before it plus one space for
/// each of them (at most `usize::MAX`; the byte length is taken as a `usize`).
pub open spec fn arrow_start(c: &Compiler, arrow_indent: usize) -> nat {
    if arrow_indent == 0 && c.current_line_token != 0 {
        let pre = tokens_text(c.lines_of_tokens@[c.current_line as int]@.take(c.current_line_token as int));
        let n = (vstd::utf8::encode_utf8(pre).len() as usize) + c.current_line_token;
        if n > usize::MAX { usize::MAX as nat } else { n as nat }
    } else {
        arrow_indent as nat
    }
}

/// The text of a compile error: the file and line, the line itself, an arrow under the
/// offending token, and the message.
pub open spec fn error_text(c: &Compiler, arrow_indent: usize, arrow_len: usize, error: Seq<char>) -> Seq<char> {
    "----------\r\n./src/"@ + c.file.filename@ + ":"@ + decimal((c.current_line + 1) as nat) + ":0\r\n"@
        + line_text(c.lines_of_chars@[c.current_line as int]@) + "\r\n"@ + repeat(" "@, arrow_start(c, arrow_indent))
        + repeat("^"@, arrow_len as nat) + " "@ + error
}

/// `new` is `old` with one error recorded: its text, and the token at which it was found.
pub open spec fn erred(old: &Compiler, new: &Compiler, error: Seq<char>, arrow_indent: usize, arrow_len: usize) -> bool {
    &&& new.same_but_ast(old)
    &&& new.ast == old.ast
    &&& new.error_stack@.len() == old.error_stack@.len() + 1
    &&& forall|k: int| 0 <= k < old.error_stack@.len() ==> new.error_stack@[k] == old.error_stack@[k]
    &&& new.error_stack@.last().0@ == error_text(old, arrow_indent, arrow_len, error)
    &&& new.error_stack@.last().1 == old.lines_of_tokens@[old.current_line as int]@[old.current_line_token as int]
}

/// The outcome of a check: nothing changes when there is no message, and otherwise the
/// error is recorded and the result is `Err`.
pub open spec fn checked(old: &Compiler, new: &Compiler, msg: Option<Seq<char>>, r: Result<(), ()>) -> bool {
    match msg {
        None => r is Ok && *new == *old,
        Some(m) => r is Err && erred(old, new, m, 0, 1),
    }
}

/// The concatenated text of the first `n` tokens.
fn tokens_concat(line: &Vec<Token>, n: usize) -> (s: String)
    requires
        n <= line@.len(),
    ensures
        s@ == tokens_text(line@.take(n as int)),
{
    let mut s = String::new();
    let mut i: usize = 0;
    while i < n
        invariant
            i <= n <= line@.len(),
            s@ == tokens_text(line@.take(i as int)),
        decreases n - i,
    {
        s = text::concat(&s, &line[i].0);
        i = i + 1;
        assert(line@.take(i as int).drop_last() =~= line@.take(i - 1));
    }
    s
}

/// The characters of a line of characters, as a string.
pub fn line_string(line: &Vec<CharPosition>) -> (s: String)
    ensures
        s@ == line_text(line@),
{
    let mut s = String::new();
    let mut i: usize = 0;
    while i < line.len()
        invariant
            i <= line@.len(),
            s@ == line_text(line@).take(i as int),
        decreases line@.len() - i,
    {
        text::push_char(&mut s, line[i].0);
        i = i + 1;
        assert(s@ =~= line_text(line@).take(i as int));
    }
    assert(line_text(line@).take(i as int) =~= line_text(line@));
    s
}

/// A copy of a token.
pub fn copy_token(t: &Token) -> (r: Token)
    ensures
        r == *t,
{
    (t.0.clone(), t.1, t.2, t.3)
}

/// Records a compile error at the current token and returns `Err`.
///
/// When `arrow_indent` is 0 and the token is not the first of its line, the arrow starts
/// under the current token.
pub fn append_error(compiler: &mut Compiler, arrow_indent: usize, arrow_len: usize, error: &str) -> (r: Result<(), ()>)
    requires
        old(compiler).at_token(),
        old(compiler).has_chars_line(),
    ensures
        r is Err,
        final(compiler).at_token(),
        erred(old(compiler), final(compiler), error@, arrow_indent, arrow_len),
{
    let ghost c0 = *compiler;
    let num_lines = compiler.lines_of_tokens.len();
    let mut indent = arrow_indent;
    if arrow_indent == 0 && compiler.current_line_token != 0 {
        let pre = tokens_concat(&compiler.lines_of_tokens[compiler.current_line], compiler.current_line_token);
        let n = pre.as_str().len();
        indent = n.saturating_add(compiler.current_line_token);
    }
    assert(indent as nat == arrow_start(&c0, arrow_indent));
    let mut e = text::lit("----------\r\n./src/");
    e = text::concat(&e, &compiler.file.filename);
    e = text::concat_str(&e, ":");
    e = text::concat(&e, &text::usize_to_string(compiler.current_line + 1));
    e = text::concat_str(&e, ":0\r\n");
    e = text::concat(&e, &line_string(&compiler.lines_of_chars[compiler.current_line]));
    e = text::concat_str(&e, "\r\n");
    e = text::concat(&e, &text::repeat_str(" ", indent));
    e = text::concat(&e, &text::repeat_str("^", arrow_len));
    e = text::concat_str(&e, " ");
    e = text::concat_str(&e, error);
    let token = copy_token(&compiler.lines_of_tokens[compiler.current_line][compiler.current_line_token]);
    compiler.error_stack.push((e, token));
    Err(())
}

/// Records an error when the last element is inside a parent that may not hold it.
pub fn error_if_parent_is_invalid(compiler: &mut Compiler) -> (r: Result<(), ()>)
    requires
        old(compiler).at_token(),
        old(compiler).has_chars_line() || parent_msg(
            old(compiler).ast.els().last().0,
            old(compiler).ast.els()[old(compiler).ast.current_parent()].0,
        ) is None,
    ensures
        final(compiler).at_token(),
        checked(
            old(compiler),
            final(compiler),
            parent_msg(old(compiler).ast.els().last().0, old(compiler).ast.els()[old(compiler).ast.current_parent()].0),
            r,
        ),
{
    let el = get_last_element(&compiler.ast);
    let parent = parents::get_current_parent_element_from_parents(&compiler.ast);
    match el.0 {
        ElementInfo::CommentSingleLine(_) => error_if_parent_is_invalid_for_commentsingleline(compiler, &parent),
        ElementInfo::Int(_) => error_if_parent_is_invalid_for_int(compiler, &parent),
        ElementInfo::Float(_) => error_if_parent_is_invalid_for_float(compiler, &parent),
        ElementInfo::String(_) => error_if_parent_is_invalid_for_string(compiler, &parent),
        ElementInfo::Arg(_, _, _, _) => error_if_parent_is_invalid_for_arg(compiler, &parent),
        ElementInfo::ConstantRef(_, _, _) => error_if_parent_is_invalid_for_constantref(compiler, &parent),
        ElementInfo::Constant(_, _) => error_if_parent_is_invalid_for_constant(compiler, &parent),
        ElementInfo::Assignment => error_if_parent_is_invalid_for_assignment(compiler, &parent),
        ElementInfo::InbuiltFunctionCall(_, _, _) => error_if_parent_is_invalid_for_inbuiltfncall(compiler, &parent),
        ElementInfo::FunctionCall(_, _) => error_if_parent_is_invalid_for_fncall(compiler, &parent),
        ElementInfo::Parens => error_if_parent_is_invalid_for_parenthesis(compiler, &parent),
        ElementInfo::LoopForRangeWIP => error_if_parent_is_invalid_for_loopfor(compiler, &parent),
        ElementInfo::LoopForRange(_, _, _) => error_if_parent_is_invalid_for_loopfor(compiler, &parent),
        ElementInfo::FunctionDefWIP => error_if_parent_is_invalid_for_fndefwip(compiler, &parent),
        ElementInfo::Println => error_if_parent_is_invalid_for_println(compiler, &parent),
        _ => Ok(()),
    }
}

/// The message of the error for an element of kind `el` below a parent of kind `p`, if the
/// parent may not hold it.
pub open spec fn parent_msg(el: InfoV, p: InfoV) -> Option<Seq<char>> {
    match el {
        InfoV::CommentSingleLine(_) => parent_msg_commentsingleline(p),
        InfoV::Int(_) => parent_msg_int(p),
        InfoV::Float(_) => parent_msg_float(p),
        InfoV::String(_) => parent_msg_string(p),
        InfoV::Arg(_, _, _, _) => parent_msg_arg(p),
        InfoV::ConstantRef(_, _, _) => parent_msg_constantref(p),
        InfoV::Constant(_, _) => parent_msg_constant(p),
        InfoV::Assignment => parent_msg_assignment(p),
        InfoV::InbuiltFunctionCall(_, _, _) => parent_msg_inbuiltfncall(p),
        InfoV::FunctionCall(_, _) => parent_msg_fncall(p),
        InfoV::Parens => parent_msg_parenthesis(p),
        InfoV::LoopForRangeWIP => parent_msg_loopfor(p),
        InfoV::LoopForRange(_, _, _) => parent_msg_loopfor(p),
        InfoV::FunctionDefWIP => parent_msg_fndefwip(p),
        InfoV::Println => parent_msg_println(p),
        _ => None,
    }
}

/// Statements, a Println or an Assignment, may stand in every block that holds statements:
/// at the root, in a function's body (a definition being read or a finished one), in a
/// loop (being read or finished) and in an If.
pub proof fn statements_may_stand_in_every_block(p: InfoV)
    requires
        p is Root || p is FunctionDefWIP || p is FunctionDef || p is LoopForRangeWIP || p is LoopForRange || p is If,
    ensures
        parent_msg(InfoV::Println, p) is None,
        parent_msg(InfoV::Assignment, p) is None,
{
}

/// The root, types, line ends, indents, unused slots and function definitions follow no rule
/// of placement (`error_if_parent_is_invalid`): under any parent they pass the check, which then changes nothing.
pub proof fn unruled_kinds_always_pass(el: InfoV, p: InfoV)
    requires
        el is Root || el is Type || el is Eol || el is Seol || el is Indent || el is Unused
            || el is InbuiltFunctionDef || el is FunctionDef,
    ensures
        parent_msg(el, p) is None,
{
}

/// The message of the error for this element below a parent of this kind, if it may not be there.
pub open spec fn parent_msg_commentsingleline(p: InfoV) -> Option<Seq<char>> {
    match p {
        InfoV::List(_) => None,
        InfoV::CommentSingleLine(_) => Some(IMPOSSIBLE_ERROR@),
        InfoV::Int(_) => Some(IMPOSSIBLE_ERROR@),
        InfoV::Float(_) => Some(IMPOSSIBLE_ERROR@),
        InfoV::String(_) => Some(IMPOSSIBLE_ERROR@),
        InfoV::Bool(_) => Some(IMPOSSIBLE_ERROR@),
        InfoV::Arg(_, _, _, _) => Some(IMPOSSIBLE_ERROR@),
        InfoV::Type(_) => Some(IMPOSSIBLE_ERROR@),
        InfoV::Eol => Some(IMPOSSIBLE_ERROR@),
        InfoV::Seol => Some(IMPOSSIBLE_ERROR@),
        InfoV::Indent => Some(IMPOSSIBLE_ERROR@),
        InfoV::Unused => Some(IMPOSSIBLE_ERROR@),
        InfoV::ConstantRef(_, _, _) => Some(IMPOSSIBLE_ERROR@),
        InfoV::Struct(_, _, _) => None,
        InfoV::StructEdit(_, _) => None,
        InfoV::Constant(_, _) => Some(COMMENT_CANT_BE_CHILD_OF_CONSTANT@),
        InfoV::Assignment => Some(COMMENT_CANT_BE_CHILD_OF_ASSIGNMENT@),
        InfoV::InbuiltFunctionDef(_, _, _, _, _, _) => None,
        InfoV::InbuiltFunctionCall(_, _, _) => Some(COMMENT_CANT_BE_CHILD_OF_INBUILTFNCALL@),
        InfoV::FunctionDefWIP => None,
        InfoV::FunctionDef(_, _, _, _) => None,
        InfoV::FunctionCall(_, _) => Some(COMMENT_CANT_BE_CHILD_OF_FNCALL@),
        InfoV::Parens => Some(COMMENT_CANT_BE_CHILD_OF_PARENTHESIS@),
        InfoV::LoopForRangeWIP => None,
        InfoV::LoopForRange(_, _, _) => None,
        InfoV::Println => Some(IMPOSSIBLE_ERROR@),
        InfoV::If(_) => None,
        InfoV::Root => None,
    }
}

/// Records an error when the parent may not hold this kind of element.
pub fn error_if_parent_is_invalid_for_commentsingleline(compiler: &mut Compiler, parent: &Element) -> (r: Result<(), ()>)
    requires
        old(compiler).at_token(),
        old(compiler).has_chars_line() || parent_msg_commentsingleline(parent.0@) is None,
    ensures
        final(compiler).at_token(),
        checked(old(compiler), final(compiler), parent_msg_commentsingleline(parent.0@), r),
{
    match &parent.0 {
        ElementInfo::List(_) => Ok(()),
        ElementInfo::CommentSingleLine(_) => append_error(compiler, 0, 1, IMPOSSIBLE_ERROR),
        ElementInfo::Int(_) => append_error(compiler, 0, 1, IMPOSSIBLE_ERROR),
        ElementInfo::Float(_) => append_error(compiler, 0, 1, IMPOSSIBLE_ERROR),
        ElementInfo::String(_) => append_error(compiler, 0, 1, IMPOSSIBLE_ERROR),
        ElementInfo::Bool(_) => append_error(compiler, 0, 1, IMPOSSIBLE_ERROR),
        ElementInfo::Arg(_, _, _, _) => append_error(compiler, 0, 1, IMPOSSIBLE_ERROR),
        ElementInfo::Type(_) => append_error(compiler, 0, 1, IMPOSSIBLE_ERROR),
        ElementInfo::Eol => append_error(compiler, 0, 1, IMPOSSIBLE_ERROR),
        ElementInfo::Seol => append_error(compiler, 0, 1, IMPOSSIBLE_ERROR),
        ElementInfo::Indent => append_error(compiler, 0, 1, IMPOSSIBLE_ERROR),
        ElementInfo::Unused => append_error(compiler, 0, 1, IMPOSSIBLE_ERROR),
        ElementInfo::ConstantRef(_, _, _) => append_error(compiler, 0, 1, IMPOSSIBLE_ERROR),
        ElementInfo::Struct(_, _, _) => Ok(()),
        ElementInfo::StructEdit(_, _) => Ok(()),
        ElementInfo::Constant(_, _) => append_error(compiler, 0, 1, COMMENT_CANT_BE_CHILD_OF_CONSTANT),
        ElementInfo::Assignment => append_error(compiler, 0, 1, COMMENT_CANT_BE_CHILD_OF_ASSIGNMENT),
        ElementInfo::InbuiltFunctionDef(_, _, _, _, _, _) => Ok(()),
        ElementInfo::InbuiltFunctionCall(_, _, _) => append_error(compiler, 0, 1, COMMENT_CANT_BE_CHILD_OF_INBUILTFNCALL),
        ElementInfo::FunctionDefWIP => Ok(()),
        ElementInfo::FunctionDef(_, _, _, _) => Ok(()),
        ElementInfo::FunctionCall(_, _) => append_error(compiler, 0, 1, COMMENT_CANT_BE_CHILD_OF_FNCALL),
        ElementInfo::Parens => append_error(compiler, 0, 1, COMMENT_CANT_BE_CHILD_OF_PARENTHESIS),
        ElementInfo::LoopForRangeWIP => Ok(()),
        ElementInfo::LoopForRange(_, _, _) => Ok(()),
        ElementInfo::Println => append_error(compiler, 0, 1, IMPOSSIBLE_ERROR),
        ElementInfo::If(_) => Ok(()),
        ElementInfo::Root => Ok(()),
    }
}

/// The message of the error for this element below a parent of this kind, if it may not be there.
pub open spec fn parent_msg_int(p: InfoV) -> Option<Seq<char>> {
    match p {
        InfoV::List(_) => None,
        InfoV::CommentSingleLine(_) => Some(IMPOSSIBLE_ERROR@),
        InfoV::Int(_) => Some(IMPOSSIBLE_ERROR@),
        InfoV::Float(_) => Some(IMPOSSIBLE_ERROR@),
        InfoV::String(_) => Some(IMPOSSIBLE_ERROR@),
        InfoV::Bool(_) => Some(IMPOSSIBLE_ERROR@),
        InfoV::Arg(_, _, _, _) => Some(IMPOSSIBLE_ERROR@),
        InfoV::Type(_) => Some(IMPOSSIBLE_ERROR@),
        InfoV::Eol => Some(IMPOSSIBLE_ERROR@),
        InfoV::Seol => Some(IMPOSSIBLE_ERROR@),
        InfoV::Indent => Some(IMPOSSIBLE_ERROR@),
        InfoV::Unused => Some(IMPOSSIBLE_ERROR@),
        InfoV::ConstantRef(_, _, _) => Some(IMPOSSIBLE_ERROR@),
        InfoV::Struct(_, _, _) => None,
        InfoV::StructEdit(_, _) => None,
        InfoV::Constant(_, _) => None,
        InfoV::Assignment => Some(INT_CANT_BE_CHILD_OF_ASSIGNMENT@),
        InfoV::InbuiltFunctionDef(_, _, _, _, _, _) => None,
        InfoV::InbuiltFunctionCall(_, _, _) => None,
        InfoV::FunctionDefWIP => None,
        InfoV::FunctionDef(_, _, _, _) => None,
        InfoV::FunctionCall(_, _) => None,
        InfoV::Parens => Some(INT_CANT_BE_CHILD_OF_PARENTHESIS@),
        InfoV::LoopForRangeWIP => None,
        InfoV::LoopForRange(_, _, _) => None,
        InfoV::Println => None,
        InfoV::If(_) => None,
        InfoV::Root => None,
    }
}

/// Records an error when the parent may not hold this kind of element.
pub fn error_if_parent_is_invalid_for_int(compiler: &mut Compiler, parent: &Element) -> (r: Result<(), ()>)
    requires
        old(compiler).at_token(),
        old(compiler).has_chars_line() || parent_msg_int(parent.0@) is None,
    ensures
        final(compiler).at_token(),
        checked(old(compiler), final(compiler), parent_msg_int(parent.0@), r),
{
    match &parent.0 {
        ElementInfo::List(_) => Ok(()),
        ElementInfo::CommentSingleLine(_) => append_error(compiler, 0, 1, IMPOSSIBLE_ERROR),
        ElementInfo::Int(_) => append_error(compiler, 0, 1, IMPOSSIBLE_ERROR),
        ElementInfo::Float(_) => append_error(compiler, 0, 1, IMPOSSIBLE_ERROR),
        ElementInfo::String(_) => append_error(compiler, 0, 1, IMPOSSIBLE_ERROR),
        ElementInfo::Bool(_) => append_error(compiler, 0, 1, IMPOSSIBLE_ERROR),
        ElementInfo::Arg(_, _, _, _) => append_error(compiler, 0, 1, IMPOSSIBLE_ERROR),
        ElementInfo::Type(_) => append_error(compiler, 0, 1, IMPOSSIBLE_ERROR),
        ElementInfo::Eol => append_error(compiler, 0, 1, IMPOSSIBLE_ERROR),
        ElementInfo::Seol => append_error(compiler, 0, 1, IMPOSSIBLE_ERROR),
        ElementInfo::Indent => append_error(compiler, 0, 1, IMPOSSIBLE_ERROR),
        ElementInfo::Unused => append_error(compiler, 0, 1, IMPOSSIBLE_ERROR),
        ElementInfo::ConstantRef(_, _, _) => append_error(compiler, 0, 1, IMPOSSIBLE_ERROR),
        ElementInfo::Struct(_, _, _) => Ok(()),
        ElementInfo::StructEdit(_, _) => Ok(()),
        ElementInfo::Constant(_, _) => Ok(()),
        ElementInfo::Assignment => append_error(compiler, 0, 1, INT_CANT_BE_CHILD_OF_ASSIGNMENT),
        ElementInfo::InbuiltFunctionDef(_, _, _, _, _, _) => Ok(()),
        ElementInfo::InbuiltFunctionCall(_, _, _) => Ok(()),
        ElementInfo::FunctionDefWIP => Ok(()),
        ElementInfo::FunctionDef(_, _, _, _) => Ok(()),
        ElementInfo::FunctionCall(_, _) => Ok(()),
        ElementInfo::Parens => append_error(compiler, 0, 1, INT_CANT_BE_CHILD_OF_PARENTHESIS),
        ElementInfo::LoopForRangeWIP => Ok(()),
        ElementInfo::LoopForRange(_, _, _) => Ok(()),
        ElementInfo::Println => Ok(()),
        ElementInfo::If(_) => Ok(()),
        ElementInfo::Root => Ok(()),
    }
}

/// The message of the error for this element below a parent of this kind, if it may not be there.
pub open spec fn parent_msg_float(p: InfoV) -> Option<Seq<char>> {
    match p {
        InfoV::List(_) => None,
        InfoV::CommentSingleLine(_) => Some(IMPOSSIBLE_ERROR@),
        InfoV::Int(_) => Some(IMPOSSIBLE_ERROR@),
        InfoV::Float(_) => Some(IMPOSSIBLE_ERROR@),
        InfoV::String(_) => Some(IMPOSSIBLE_ERROR@),
        InfoV::Bool(_) => Some(IMPOSSIBLE_ERROR@),
        InfoV::Arg(_, _, _, _) => Some(IMPOSSIBLE_ERROR@),
        InfoV::Type(_) => Some(IMPOSSIBLE_ERROR@),
        InfoV::Eol => Some(IMPOSSIBLE_ERROR@),
        InfoV::Seol => Some(IMPOSSIBLE_ERROR@),
        InfoV::Indent => Some(IMPOSSIBLE_ERROR@),
        InfoV::Unused => Some(IMPOSSIBLE_ERROR@),
        InfoV::ConstantRef(_, _, _) => Some(IMPOSSIBLE_ERROR@),
        InfoV::Struct(_, _, _) => None,
        InfoV::StructEdit(_, _) => None,
        InfoV::Constant(_, _) => None,
        InfoV::Assignment => Some(FLOAT_CANT_BE_CHILD_OF_ASSIGNMENT@),
        InfoV::InbuiltFunctionDef(_, _, _, _, _, _) => None,
        InfoV::InbuiltFunctionCall(_, _, _) => None,
        InfoV::FunctionDefWIP => None,
        InfoV::FunctionDef(_, _, _, _) => None,
        InfoV::FunctionCall(_, _) => None,
        InfoV::Parens => Some(FLOAT_CANT_BE_CHILD_OF_PARENTHESIS@),
        InfoV::LoopForRangeWIP => None,
        InfoV::LoopForRange(_, _, _) => None,
        InfoV::Println => None,
        InfoV::If(_) => None,
        InfoV::Root => None,
    }
}

/// Records an error when the parent may not hold this kind of element.
pub fn error_if_parent_is_invalid_for_float(compiler: &mut Compiler, parent: &Element) -> (r: Result<(), ()>)
    requires
        old(compiler).at_token(),
        old(compiler).has_chars_line() || parent_msg_float(parent.0@) is None,
    ensures
        final(compiler).at_token(),
        checked(old(compiler), final(compiler), parent_msg_float(parent.0@), r),
{
    match &parent.0 {
        ElementInfo::List(_) => Ok(()),
        ElementInfo::CommentSingleLine(_) => append_error(compiler, 0, 1, IMPOSSIBLE_ERROR),
        ElementInfo::Int(_) => append_error(compiler, 0, 1, IMPOSSIBLE_ERROR),
        ElementInfo::Float(_) => append_error(compiler, 0, 1, IMPOSSIBLE_ERROR),
        ElementInfo::String(_) => append_error(compiler, 0, 1, IMPOSSIBLE_ERROR),
        ElementInfo::Bool(_) => append_error(compiler, 0, 1, IMPOSSIBLE_ERROR),
        ElementInfo::Arg(_, _, _, _) => append_error(compiler, 0, 1, IMPOSSIBLE_ERROR),
        ElementInfo::Type(_) => append_error(compiler, 0, 1, IMPOSSIBLE_ERROR),
        ElementInfo::Eol => append_error(compiler, 0, 1, IMPOSSIBLE_ERROR),
        ElementInfo::Seol => append_error(compiler, 0, 1, IMPOSSIBLE_ERROR),
        ElementInfo::Indent => append_error(compiler, 0, 1, IMPOSSIBLE_ERROR),
        ElementInfo::Unused => append_error(compiler, 0, 1, IMPOSSIBLE_ERROR),
        ElementInfo::ConstantRef(_, _, _) => append_error(compiler, 0, 1, IMPOSSIBLE_ERROR),
        ElementInfo::Struct(_, _, _) => Ok(()),
        ElementInfo::StructEdit(_, _) => Ok(()),
        ElementInfo::Constant(_, _) => Ok(()),
        ElementInfo::Assignment => append_error(compiler, 0, 1, FLOAT_CANT_BE_CHILD_OF_ASSIGNMENT),
        ElementInfo::InbuiltFunctionDef(_, _, _, _, _, _) => Ok(()),
        ElementInfo::InbuiltFunctionCall(_, _, _) => Ok(()),
        ElementInfo::FunctionDefWIP => Ok(()),
        ElementInfo::FunctionDef(_, _, _, _) => Ok(()),
        ElementInfo::FunctionCall(_, _) => Ok(()),
        ElementInfo::Parens => append_error(compiler, 0, 1, FLOAT_CANT_BE_CHILD_OF_PARENTHESIS),
        ElementInfo::LoopForRangeWIP => Ok(()),
        ElementInfo::LoopForRange(_, _, _) => Ok(()),
        ElementInfo::Println => Ok(()),
        ElementInfo::If(_) => Ok(()),
        ElementInfo::Root => Ok(()),
    }
}

/// The message of the error for this element below a parent of this kind, if it may not be there.
pub open spec fn parent_msg_string(p: InfoV) -> Option<Seq<char>> {
    match p {
        InfoV::List(_) => None,
        InfoV::CommentSingleLine(_) => Some(IMPOSSIBLE_ERROR@),
        InfoV::Int(_) => Some(IMPOSSIBLE_ERROR@),
        InfoV::Float(_) => Some(IMPOSSIBLE_ERROR@),
        InfoV::String(_) => Some(IMPOSSIBLE_ERROR@),
        InfoV::Bool(_) => Some(IMPOSSIBLE_ERROR@),
        InfoV::Arg(_, _, _, _) => Some(IMPOSSIBLE_ERROR@),
        InfoV::Type(_) => Some(IMPOSSIBLE_ERROR@),
        InfoV::Eol => Some(IMPOSSIBLE_ERROR@),
        InfoV::Seol => Some(IMPOSSIBLE_ERROR@),
        InfoV::Indent => Some(IMPOSSIBLE_ERROR@),
        InfoV::Unused => Some(IMPOSSIBLE_ERROR@),
        InfoV::ConstantRef(_, _, _) => Some(IMPOSSIBLE_ERROR@),
        InfoV::Struct(_, _, _) => None,
        InfoV::StructEdit(_, _) => None,
        InfoV::Constant(_, _) => None,
        InfoV::Assignment => Some(STRING_CANT_BE_CHILD_OF_ASSIGNMENT@),
        InfoV::InbuiltFunctionDef(_, _, _, _, _, _) => None,
        InfoV::InbuiltFunctionCall(_, _, _) => None,
        InfoV::FunctionDefWIP => None,
        InfoV::FunctionDef(_, _, _, _) => None,
        InfoV::FunctionCall(_, _) => None,
        InfoV::Parens => Some(STRING_CANT_BE_CHILD_OF_PARENTHESIS@),
        InfoV::LoopForRangeWIP => None,
        InfoV::LoopForRange(_, _, _) => None,
        InfoV::Println => None,
        InfoV::If(_) => None,
        InfoV::Root => None,
    }
}

/// Records an error when the parent may not hold this kind of element.
pub fn error_if_parent_is_invalid_for_string(compiler: &mut Compiler, parent: &Element) -> (r: Result<(), ()>)
    requires
        old(compiler).at_token(),
        old(compiler).has_chars_line() || parent_msg_string(parent.0@) is None,
    ensures
        final(compiler).at_token(),
        checked(old(compiler), final(compiler), parent_msg_string(parent.0@), r),
{
    match &parent.0 {
        ElementInfo::List(_) => Ok(()),
        ElementInfo::CommentSingleLine(_) => append_error(compiler, 0, 1, IMPOSSIBLE_ERROR),
        ElementInfo::Int(_) => append_error(compiler, 0, 1, IMPOSSIBLE_ERROR),
        ElementInfo::Float(_) => append_error(compiler, 0, 1, IMPOSSIBLE_ERROR),
        ElementInfo::String(_) => append_error(compiler, 0, 1, IMPOSSIBLE_ERROR),
        ElementInfo::Bool(_) => append_error(compiler, 0, 1, IMPOSSIBLE_ERROR),
        ElementInfo::Arg(_, _, _, _) => append_error(compiler, 0, 1, IMPOSSIBLE_ERROR),
        ElementInfo::Type(_) => append_error(compiler, 0, 1, IMPOSSIBLE_ERROR),
        ElementInfo::Eol => append_error(compiler, 0, 1, IMPOSSIBLE_ERROR),
        ElementInfo::Seol => append_error(compiler, 0, 1, IMPOSSIBLE_ERROR),
        ElementInfo::Indent => append_error(compiler, 0, 1, IMPOSSIBLE_ERROR),
        ElementInfo::Unused => append_error(compiler, 0, 1, IMPOSSIBLE_ERROR),
        ElementInfo::ConstantRef(_, _, _) => append_error(compiler, 0, 1, IMPOSSIBLE_ERROR),
        ElementInfo::Struct(_, _, _) => Ok(()),
        ElementInfo::StructEdit(_, _) => Ok(()),
        ElementInfo::Constant(_, _) => Ok(()),
        ElementInfo::Assignment => append_error(compiler, 0, 1, STRING_CANT_BE_CHILD_OF_ASSIGNMENT),
        ElementInfo::InbuiltFunctionDef(_, _, _, _, _, _) => Ok(()),
        ElementInfo::InbuiltFunctionCall(_, _, _) => Ok(()),
        ElementInfo::FunctionDefWIP => Ok(()),
        ElementInfo::FunctionDef(_, _, _, _) => Ok(()),
        ElementInfo::FunctionCall(_, _) => Ok(()),
        ElementInfo::Parens => append_error(compiler, 0, 1, STRING_CANT_BE_CHILD_OF_PARENTHESIS),
        ElementInfo::LoopForRangeWIP => Ok(()),
        ElementInfo::LoopForRange(_, _, _) => Ok(()),
        ElementInfo::Println => Ok(()),
        ElementInfo::If(_) => Ok(()),
        ElementInfo::Root => Ok(()),
    }
}

/// The message of the error for this element below a parent of this kind, if it may not be there.
pub open spec fn parent_msg_arg(p: InfoV) -> Option<Seq<char>> {
    match p {
        InfoV::List(_) => None,
        InfoV::CommentSingleLine(_) => Some(IMPOSSIBLE_ERROR@),
        InfoV::Int(_) => Some(IMPOSSIBLE_ERROR@),
        InfoV::Float(_) => Some(IMPOSSIBLE_ERROR@),
        InfoV::String(_) => Some(IMPOSSIBLE_ERROR@),
        InfoV::Bool(_) => Some(IMPOSSIBLE_ERROR@),
        InfoV::Arg(_, _, _, _) => Some(IMPOSSIBLE_ERROR@),
        InfoV::Type(_) => Some(IMPOSSIBLE_ERROR@),
        InfoV::Eol => Some(IMPOSSIBLE_ERROR@),
        InfoV::Seol => Some(IMPOSSIBLE_ERROR@),
        InfoV::Indent => Some(IMPOSSIBLE_ERROR@),
        InfoV::Unused => Some(IMPOSSIBLE_ERROR@),
        InfoV::ConstantRef(_, _, _) => Some(IMPOSSIBLE_ERROR@),
        InfoV::Struct(_, _, _) => None,
        InfoV::StructEdit(_, _) => None,
        InfoV::Constant(_, _) => Some(IMPOSSIBLE_ERROR@),
        InfoV::Assignment => Some(IMPOSSIBLE_ERROR@),
        InfoV::InbuiltFunctionDef(_, _, _, _, _, _) => Some(IMPOSSIBLE_ERROR@),
        InfoV::InbuiltFunctionCall(_, _, _) => Some(IMPOSSIBLE_ERROR@),
        InfoV::FunctionDefWIP => None,
        InfoV::FunctionDef(_, _, _, _) => None,
        InfoV::FunctionCall(_, _) => Some(IMPOSSIBLE_ERROR@),
        InfoV::Parens => Some(IMPOSSIBLE_ERROR@),
        InfoV::LoopForRangeWIP => Some(IMPOSSIBLE_ERROR@),
        InfoV::LoopForRange(_, _, _) => Some(IMPOSSIBLE_ERROR@),
        InfoV::Println => Some(IMPOSSIBLE_ERROR@),
        InfoV::If(_) => None,
        InfoV::Root => Some(IMPOSSIBLE_ERROR@),
    }
}

/// Records an error when the parent may not hold this kind of element.
pub fn error_if_parent_is_invalid_for_arg(compiler: &mut Compiler, parent: &Element) -> (r: Result<(), ()>)
    requires
        old(compiler).at_token(),
        old(compiler).has_chars_line() || parent_msg_arg(parent.0@) is None,
    ensures
        final(compiler).at_token(),
        checked(old(compiler), final(compiler), parent_msg_arg(parent.0@), r),
{
    match &parent.0 {
        ElementInfo::List(_) => Ok(()),
        ElementInfo::CommentSingleLine(_) => append_error(compiler, 0, 1, IMPOSSIBLE_ERROR),
        ElementInfo::Int(_) => append_error(compiler, 0, 1, IMPOSSIBLE_ERROR),
        ElementInfo::Float(_) => append_error(compiler, 0, 1, IMPOSSIBLE_ERROR),
        ElementInfo::String(_) => append_error(compiler, 0, 1, IMPOSSIBLE_ERROR),
        ElementInfo::Bool(_) => append_error(compiler, 0, 1, IMPOSSIBLE_ERROR),
        ElementInfo::Arg(_, _, _, _) => append_error(compiler, 0, 1, IMPOSSIBLE_ERROR),
        ElementInfo::Type(_) => append_error(compiler, 0, 1, IMPOSSIBLE_ERROR),
        ElementInfo::Eol => append_error(compiler, 0, 1, IMPOSSIBLE_ERROR),
        ElementInfo::Seol => append_error(compiler, 0, 1, IMPOSSIBLE_ERROR),
        ElementInfo::Indent => append_error(compiler, 0, 1, IMPOSSIBLE_ERROR),
        ElementInfo::Unused => append_error(compiler, 0, 1, IMPOSSIBLE_ERROR),
        ElementInfo::ConstantRef(_, _, _) => append_error(compiler, 0, 1, IMPOSSIBLE_ERROR),
        ElementInfo::Struct(_, _, _) => Ok(()),
        ElementInfo::StructEdit(_, _) => Ok(()),
        ElementInfo::Constant(_, _) => append_error(compiler, 0, 1, IMPOSSIBLE_ERROR),
        ElementInfo::Assignment => append_error(compiler, 0, 1, IMPOSSIBLE_ERROR),
        ElementInfo::InbuiltFunctionDef(_, _, _, _, _, _) => append_error(compiler, 0, 1, IMPOSSIBLE_ERROR),
        ElementInfo::InbuiltFunctionCall(_, _, _) => append_error(compiler, 0, 1, IMPOSSIBLE_ERROR),
        ElementInfo::FunctionDefWIP => Ok(()),
        ElementInfo::FunctionDef(_, _, _, _) => Ok(()),
        ElementInfo::FunctionCall(_, _) => append_error(compiler, 0, 1, IMPOSSIBLE_ERROR),
        ElementInfo::Parens => append_error(compiler, 0, 1, IMPOSSIBLE_ERROR),
        ElementInfo::LoopForRangeWIP => append_error(compiler, 0, 1, IMPOSSIBLE_ERROR),
        ElementInfo::LoopForRange(_, _, _) => append_error(compiler, 0, 1, IMPOSSIBLE_ERROR),
        ElementInfo::Println => append_error(compiler, 0, 1, IMPOSSIBLE_ERROR),
        ElementInfo::If(_) => Ok(()),
        ElementInfo::Root => append_error(compiler, 0, 1, IMPOSSIBLE_ERROR),
    }
}

/// The message of the error for this element below a parent of this kind, if it may not be there.
pub open spec fn parent_msg_constantref(p: InfoV) -> Option<Seq<char>> {
    match p {
        InfoV::List(_) => None,
        InfoV::CommentSingleLine(_) => Some(IMPOSSIBLE_ERROR@),
        InfoV::Int(_) => Some(IMPOSSIBLE_ERROR@),
        InfoV::Float(_) => Some(IMPOSSIBLE_ERROR@),
        InfoV::String(_) => Some(IMPOSSIBLE_ERROR@),
        InfoV::Bool(_) => Some(IMPOSSIBLE_ERROR@),
        InfoV::Arg(_, _, _, _) => Some(IMPOSSIBLE_ERROR@),
        InfoV::Type(_) => Some(IMPOSSIBLE_ERROR@),
        InfoV::Eol => Some(IMPOSSIBLE_ERROR@),
        InfoV::Seol => Some(IMPOSSIBLE_ERROR@),
        InfoV::Indent => Some(IMPOSSIBLE_ERROR@),
        InfoV::Unused => Some(IMPOSSIBLE_ERROR@),
        InfoV::ConstantRef(_, _, _) => Some(IMPOSSIBLE_ERROR@),
        InfoV::Struct(_, _, _) => None,
        InfoV::StructEdit(_, _) => None,
        InfoV::Constant(_, _) => None,
        InfoV::Assignment => Some(CONSTANTS_ARE_IMMUTABLE@),
        InfoV::InbuiltFunctionDef(_, _, _, _, _, _) => None,
        InfoV::InbuiltFunctionCall(_, _, _) => None,
        InfoV::FunctionDefWIP => None,
        InfoV::FunctionDef(_, _, _, _) => None,
        InfoV::FunctionCall(_, _) => None,
        InfoV::Parens => Some(CONSTANTREF_CANT_BE_CHILD_OF_PARENTHESIS@),
        InfoV::LoopForRangeWIP => None,
        InfoV::LoopForRange(_, _, _) => None,
        InfoV::Println => None,
        InfoV::If(_) => None,
        InfoV::Root => None,
    }
}

/// Records an error when the parent may not hold this kind of element.
pub fn error_if_parent_is_invalid_for_constantref(compiler: &mut Compiler, parent: &Element) -> (r: Result<(), ()>)
    requires
        old(compiler).at_token(),
        old(compiler).has_chars_line() || parent_msg_constantref(parent.0@) is None,
    ensures
        final(compiler).at_token(),
        checked(old(compiler), final(compiler), parent_msg_constantref(parent.0@), r),
{
    match &parent.0 {
        ElementInfo::List(_) => Ok(()),
        ElementInfo::CommentSingleLine(_) => append_error(compiler, 0, 1, IMPOSSIBLE_ERROR),
        ElementInfo::Int(_) => append_error(compiler, 0, 1, IMPOSSIBLE_ERROR),
        ElementInfo::Float(_) => append_error(compiler, 0, 1, IMPOSSIBLE_ERROR),
        ElementInfo::String(_) => append_error(compiler, 0, 1, IMPOSSIBLE_ERROR),
        ElementInfo::Bool(_) => append_error(compiler, 0, 1, IMPOSSIBLE_ERROR),
        ElementInfo::Arg(_, _, _, _) => append_error(compiler, 0, 1, IMPOSSIBLE_ERROR),
        ElementInfo::Type(_) => append_error(compiler, 0, 1, IMPOSSIBLE_ERROR),
        ElementInfo::Eol => append_error(compiler, 0, 1, IMPOSSIBLE_ERROR),
        ElementInfo::Seol => append_error(compiler, 0, 1, IMPOSSIBLE_ERROR),
        ElementInfo::Indent => append_error(compiler, 0, 1, IMPOSSIBLE_ERROR),
        ElementInfo::Unused => append_error(compiler, 0, 1, IMPOSSIBLE_ERROR),
        ElementInfo::ConstantRef(_, _, _) => append_error(compiler, 0, 1, IMPOSSIBLE_ERROR),
        ElementInfo::Struct(_, _, _) => Ok(()),
        ElementInfo::StructEdit(_, _) => Ok(()),
        ElementInfo::Constant(_, _) => Ok(()),
        ElementInfo::Assignment => append_error(compiler, 0, 1, CONSTANTS_ARE_IMMUTABLE),
        ElementInfo::InbuiltFunctionDef(_, _, _, _, _, _) => Ok(()),
        ElementInfo::InbuiltFunctionCall(_, _, _) => Ok(()),
        ElementInfo::FunctionDefWIP => Ok(()),
        ElementInfo::FunctionDef(_, _, _, _) => Ok(()),
        ElementInfo::FunctionCall(_, _) => Ok(()),
        ElementInfo::Parens => append_error(compiler, 0, 1, CONSTANTREF_CANT_BE_CHILD_OF_PARENTHESIS),
        ElementInfo::LoopForRangeWIP => Ok(()),
        ElementInfo::LoopForRange(_, _, _) => Ok(()),
        ElementInfo::Println => Ok(()),
        ElementInfo::If(_) => Ok(()),
        ElementInfo::Root => Ok(()),
    }
}

/// The message of the error for this element below a parent of this kind, if it may not be there.
pub open spec fn parent_msg_constant(p: InfoV) -> Option<Seq<char>> {
    match p {
        InfoV::List(_) => Some(CONSTANT_UNDEFINED@),
        InfoV::CommentSingleLine(_) => Some(CONSTANT_UNDEFINED@),
        InfoV::Int(_) => Some(CONSTANT_UNDEFINED@),
        InfoV::Float(_) => Some(CONSTANT_UNDEFINED@),
        InfoV::String(_) => Some(CONSTANT_UNDEFINED@),
        InfoV::Bool(_) => Some(CONSTANT_UNDEFINED@),
        InfoV::Arg(_, _, _, _) => Some(CONSTANT_UNDEFINED@),
        InfoV::Type(_) => Some(CONSTANT_UNDEFINED@),
        InfoV::Eol => Some(CONSTANT_UNDEFINED@),
        InfoV::Seol => Some(CONSTANT_UNDEFINED@),
        InfoV::Indent => Some(CONSTANT_UNDEFINED@),
        InfoV::Unused => Some(CONSTANT_UNDEFINED@),
        InfoV::ConstantRef(_, _, _) => Some(CONSTANT_UNDEFINED@),
        InfoV::Struct(_, _, _) => Some(CONSTANT_UNDEFINED@),
        InfoV::StructEdit(_, _) => Some(CONSTANT_UNDEFINED@),
        InfoV::Constant(_, _) => Some(CONSTANT_UNDEFINED@),
        InfoV::Assignment => None,
        InfoV::InbuiltFunctionDef(_, _, _, _, _, _) => Some(CONSTANT_UNDEFINED@),
        InfoV::InbuiltFunctionCall(_, _, _) => Some(CONSTANT_UNDEFINED@),
        InfoV::FunctionDefWIP => Some(CONSTANT_UNDEFINED@),
        InfoV::FunctionDef(_, _, _, _) => Some(CONSTANT_UNDEFINED@),
        InfoV::FunctionCall(_, _) => Some(CONSTANT_UNDEFINED@),
        InfoV::Parens => Some(CONSTANT_UNDEFINED@),
        InfoV::LoopForRangeWIP => None,
        InfoV::LoopForRange(_, _, _) => None,
        InfoV::Println => Some(CONSTANT_UNDEFINED@),
        InfoV::If(_) => Some(CONSTANT_UNDEFINED@),
        InfoV::Root => Some(CONSTANT_UNDEFINED@),
    }
}

/// Records an error when the parent may not hold this kind of element.
pub fn error_if_parent_is_invalid_for_constant(compiler: &mut Compiler, parent: &Element) -> (r: Result<(), ()>)
    requires
        old(compiler).at_token(),
        old(compiler).has_chars_line() || parent_msg_constant(parent.0@) is None,
    ensures
        final(compiler).at_token(),
        checked(old(compiler), final(compiler), parent_msg_constant(parent.0@), r),
{
    match &parent.0 {
        ElementInfo::List(_) => append_error(compiler, 0, 1, CONSTANT_UNDEFINED),
        ElementInfo::CommentSingleLine(_) => append_error(compiler, 0, 1, CONSTANT_UNDEFINED),
        ElementInfo::Int(_) => append_error(compiler, 0, 1, CONSTANT_UNDEFINED),
        ElementInfo::Float(_) => append_error(compiler, 0, 1, CONSTANT_UNDEFINED),
        ElementInfo::String(_) => append_error(compiler, 0, 1, CONSTANT_UNDEFINED),
        ElementInfo::Bool(_) => append_error(compiler, 0, 1, CONSTANT_UNDEFINED),
        ElementInfo::Arg(_, _, _, _) => append_error(compiler, 0, 1, CONSTANT_UNDEFINED),
        ElementInfo::Type(_) => append_error(compiler, 0, 1, CONSTANT_UNDEFINED),
        ElementInfo::Eol => append_error(compiler, 0, 1, CONSTANT_UNDEFINED),
        ElementInfo::Seol => append_error(compiler, 0, 1, CONSTANT_UNDEFINED),
        ElementInfo::Indent => append_error(compiler, 0, 1, CONSTANT_UNDEFINED),
        ElementInfo::Unused => append_error(compiler, 0, 1, CONSTANT_UNDEFINED),
        ElementInfo::ConstantRef(_, _, _) => append_error(compiler, 0, 1, CONSTANT_UNDEFINED),
        ElementInfo::Struct(_, _, _) => append_error(compiler, 0, 1, CONSTANT_UNDEFINED),
        ElementInfo::StructEdit(_, _) => append_error(compiler, 0, 1, CONSTANT_UNDEFINED),
        ElementInfo::Constant(_, _) => append_error(compiler, 0, 1, CONSTANT_UNDEFINED),
        ElementInfo::Assignment => Ok(()),
        ElementInfo::InbuiltFunctionDef(_, _, _, _, _, _) => append_error(compiler, 0, 1, CONSTANT_UNDEFINED),
        ElementInfo::InbuiltFunctionCall(_, _, _) => append_error(compiler, 0, 1, CONSTANT_UNDEFINED),
        ElementInfo::FunctionDefWIP => append_error(compiler, 0, 1, CONSTANT_UNDEFINED),
        ElementInfo::FunctionDef(_, _, _, _) => append_error(compiler, 0, 1, CONSTANT_UNDEFINED),
        ElementInfo::FunctionCall(_, _) => append_error(compiler, 0, 1, CONSTANT_UNDEFINED),
        ElementInfo::Parens => append_error(compiler, 0, 1, CONSTANT_UNDEFINED),
        ElementInfo::LoopForRangeWIP => Ok(()),
        ElementInfo::LoopForRange(_, _, _) => Ok(()),
        ElementInfo::Println => append_error(compiler, 0, 1, CONSTANT_UNDEFINED),
        ElementInfo::If(_) => append_error(compiler, 0, 1, CONSTANT_UNDEFINED),
        ElementInfo::Root => append_error(compiler, 0, 1, CONSTANT_UNDEFINED),
    }
}

/// The message of the error for this element below a parent of this kind, if it may not be there.
pub open spec fn parent_msg_assignment(p: InfoV) -> Option<Seq<char>> {
    match p {
        InfoV::List(_) => None,
        InfoV::CommentSingleLine(_) => Some(IMPOSSIBLE_ERROR@),
        InfoV::Int(_) => Some(IMPOSSIBLE_ERROR@),
        InfoV::Float(_) => Some(IMPOSSIBLE_ERROR@),
        InfoV::String(_) => Some(IMPOSSIBLE_ERROR@),
        InfoV::Bool(_) => Some(IMPOSSIBLE_ERROR@),
        InfoV::Arg(_, _, _, _) => Some(IMPOSSIBLE_ERROR@),
        InfoV::Type(_) => Some(IMPOSSIBLE_ERROR@),
        InfoV::Eol => Some(IMPOSSIBLE_ERROR@),
        InfoV::Seol => Some(IMPOSSIBLE_ERROR@),
        InfoV::Indent => Some(IMPOSSIBLE_ERROR@),
        InfoV::Unused => Some(IMPOSSIBLE_ERROR@),
        InfoV::ConstantRef(_, _, _) => Some(IMPOSSIBLE_ERROR@),
        InfoV::Struct(_, _, _) => None,
        InfoV::StructEdit(_, _) => None,
        InfoV::Constant(_, _) => Some(ASSIGNMENT_CANT_BE_CHILD_OF_CONSTANT@),
        InfoV::Assignment => Some(ASSIGNMENT_CANT_BE_CHILD_OF_ASSIGNMENT@),
        InfoV::InbuiltFunctionDef(_, _, _, _, _, _) => Some(IMPOSSIBLE_ERROR@),
        InfoV::InbuiltFunctionCall(_, _, _) => Some(ASSIGNMENT_CANT_BE_CHILD_OF_INBUILTFNCALL@),
        InfoV::FunctionDefWIP => None,
        InfoV::FunctionDef(_, _, _, _) => None,
        InfoV::FunctionCall(_, _) => Some(ASSIGNMENT_CANT_BE_CHILD_OF_FNCAL@),
        InfoV::Parens => Some(ASSIGNMENT_CANT_BE_CHILD_OF_PARENTHESIS@),
        InfoV::LoopForRangeWIP => None,
        InfoV::LoopForRange(_, _, _) => None,
        InfoV::Println => Some(IMPOSSIBLE_ERROR@),
        InfoV::If(_) => None,
        InfoV::Root => None,
    }
}

/// Records an error when the parent may not hold this kind of element.
pub fn error_if_parent_is_invalid_for_assignment(compiler: &mut Compiler, parent: &Element) -> (r: Result<(), ()>)
    requires
        old(compiler).at_token(),
        old(compiler).has_chars_line() || parent_msg_assignment(parent.0@) is None,
    ensures
        final(compiler).at_token(),
        checked(old(compiler), final(compiler), parent_msg_assignment(parent.0@), r),
{
    match &parent.0 {
        ElementInfo::List(_) => Ok(()),
        ElementInfo::CommentSingleLine(_) => append_error(compiler, 0, 1, IMPOSSIBLE_ERROR),
        ElementInfo::Int(_) => append_error(compiler, 0, 1, IMPOSSIBLE_ERROR),
        ElementInfo::Float(_) => append_error(compiler, 0, 1, IMPOSSIBLE_ERROR),
        ElementInfo::String(_) => append_error(compiler, 0, 1, IMPOSSIBLE_ERROR),
        ElementInfo::Bool(_) => append_error(compiler, 0, 1, IMPOSSIBLE_ERROR),
        ElementInfo::Arg(_, _, _, _) => append_error(compiler, 0, 1, IMPOSSIBLE_ERROR),
        ElementInfo::Type(_) => append_error(compiler, 0, 1, IMPOSSIBLE_ERROR),
        ElementInfo::Eol => append_error(compiler, 0, 1, IMPOSSIBLE_ERROR),
        ElementInfo::Seol => append_error(compiler, 0, 1, IMPOSSIBLE_ERROR),
        ElementInfo::Indent => append_error(compiler, 0, 1, IMPOSSIBLE_ERROR),
        ElementInfo::Unused => append_error(compiler, 0, 1, IMPOSSIBLE_ERROR),
        ElementInfo::ConstantRef(_, _, _) => append_error(compiler, 0, 1, IMPOSSIBLE_ERROR),
        ElementInfo::Struct(_, _, _) => Ok(()),
        ElementInfo::StructEdit(_, _) => Ok(()),
        ElementInfo::Constant(_, _) => append_error(compiler, 0, 1, ASSIGNMENT_CANT_BE_CHILD_OF_CONSTANT),
        ElementInfo::Assignment => append_error(compiler, 0, 1, ASSIGNMENT_CANT_BE_CHILD_OF_ASSIGNMENT),
        ElementInfo::InbuiltFunctionDef(_, _, _, _, _, _) => append_error(compiler, 0, 1, IMPOSSIBLE_ERROR),
        ElementInfo::InbuiltFunctionCall(_, _, _) => append_error(compiler, 0, 1, ASSIGNMENT_CANT_BE_CHILD_OF_INBUILTFNCALL),
        ElementInfo::FunctionDefWIP => Ok(()),
        ElementInfo::FunctionDef(_, _, _, _) => Ok(()),
        ElementInfo::FunctionCall(_, _) => append_error(compiler, 0, 1, ASSIGNMENT_CANT_BE_CHILD_OF_FNCAL),
        ElementInfo::Parens => append_error(compiler, 0, 1, ASSIGNMENT_CANT_BE_CHILD_OF_PARENTHESIS),
        ElementInfo::LoopForRangeWIP => Ok(()),
        ElementInfo::LoopForRange(_, _, _) => Ok(()),
        ElementInfo::Println => append_error(compiler, 0, 1, IMPOSSIBLE_ERROR),
        ElementInfo::If(_) => Ok(()),
        ElementInfo::Root => Ok(()),
    }
}

/// The message of the error for this element below a parent of this kind, if it may not be there.
pub open spec fn parent_msg_inbuiltfncall(p: InfoV) -> Option<Seq<char>> {
    match p {
        InfoV::List(_) => None,
        InfoV::CommentSingleLine(_) => Some(IMPOSSIBLE_ERROR@),
        InfoV::Int(_) => Some(IMPOSSIBLE_ERROR@),
        InfoV::Float(_) => Some(IMPOSSIBLE_ERROR@),
        InfoV::String(_) => Some(IMPOSSIBLE_ERROR@),
        InfoV::Bool(_) => Some(IMPOSSIBLE_ERROR@),
        InfoV::Arg(_, _, _, _) => Some(IMPOSSIBLE_ERROR@),
        InfoV::Type(_) => Some(IMPOSSIBLE_ERROR@),
        InfoV::Eol => Some(IMPOSSIBLE_ERROR@),
        InfoV::Seol => Some(IMPOSSIBLE_ERROR@),
        InfoV::Indent => Some(IMPOSSIBLE_ERROR@),
        InfoV::Unused => Some(IMPOSSIBLE_ERROR@),
        InfoV::ConstantRef(_, _, _) => Some(IMPOSSIBLE_ERROR@),
        InfoV::Struct(_, _, _) => None,
        InfoV::StructEdit(_, _) => None,
        InfoV::Constant(_, _) => None,
        InfoV::Assignment => None,
        InfoV::InbuiltFunctionDef(_, _, _, _, _, _) => None,
        InfoV::InbuiltFunctionCall(_, _, _) => None,
        InfoV::FunctionDefWIP => None,
        InfoV::FunctionDef(_, _, _, _) => None,
        InfoV::FunctionCall(_, _) => None,
        InfoV::Parens => Some(INBUILTFNCALL_CANT_BE_CHILD_OF_PARENTHESIS@),
        InfoV::LoopForRangeWIP => None,
        InfoV::LoopForRange(_, _, _) => None,
        InfoV::Println => None,
        InfoV::If(_) => None,
        InfoV::Root => None,
    }
}

/// Records an error when the parent may not hold this kind of element.
pub fn error_if_parent_is_invalid_for_inbuiltfncall(compiler: &mut Compiler, parent: &Element) -> (r: Result<(), ()>)
    requires
        old(compiler).at_token(),
        old(compiler).has_chars_line() || parent_msg_inbuiltfncall(parent.0@) is None,
    ensures
        final(compiler).at_token(),
        checked(old(compiler), final(compiler), parent_msg_inbuiltfncall(parent.0@), r),
{
    match &parent.0 {
        ElementInfo::List(_) => Ok(()),
        ElementInfo::CommentSingleLine(_) => append_error(compiler, 0, 1, IMPOSSIBLE_ERROR),
        ElementInfo::Int(_) => append_error(compiler, 0, 1, IMPOSSIBLE_ERROR),
        ElementInfo::Float(_) => append_error(compiler, 0, 1, IMPOSSIBLE_ERROR),
        ElementInfo::String(_) => append_error(compiler, 0, 1, IMPOSSIBLE_ERROR),
        ElementInfo::Bool(_) => append_error(compiler, 0, 1, IMPOSSIBLE_ERROR),
        ElementInfo::Arg(_, _, _, _) => append_error(compiler, 0, 1, IMPOSSIBLE_ERROR),
        ElementInfo::Type(_) => append_error(compiler, 0, 1, IMPOSSIBLE_ERROR),
        ElementInfo::Eol => append_error(compiler, 0, 1, IMPOSSIBLE_ERROR),
        ElementInfo::Seol => append_error(compiler, 0, 1, IMPOSSIBLE_ERROR),
        ElementInfo::Indent => append_error(compiler, 0, 1, IMPOSSIBLE_ERROR),
        ElementInfo::Unused => append_error(compiler, 0, 1, IMPOSSIBLE_ERROR),
        ElementInfo::ConstantRef(_, _, _) => append_error(compiler, 0, 1, IMPOSSIBLE_ERROR),
        ElementInfo::Struct(_, _, _) => Ok(()),
        ElementInfo::StructEdit(_, _) => Ok(()),
        ElementInfo::Constant(_, _) => Ok(()),
        ElementInfo::Assignment => Ok(()),
        ElementInfo::InbuiltFunctionDef(_, _, _, _, _, _) => Ok(()),
        ElementInfo::InbuiltFunctionCall(_, _, _) => Ok(()),
        ElementInfo::FunctionDefWIP => Ok(()),
        ElementInfo::FunctionDef(_, _, _, _) => Ok(()),
        ElementInfo::FunctionCall(_, _) => Ok(()),
        ElementInfo::Parens => append_error(compiler, 0, 1, INBUILTFNCALL_CANT_BE_CHILD_OF_PARENTHESIS),
        ElementInfo::LoopForRangeWIP => Ok(()),
        ElementInfo::LoopForRange(_, _, _) => Ok(()),
        ElementInfo::Println => Ok(()),
        ElementInfo::If(_) => Ok(()),
        ElementInfo::Root => Ok(()),
    }
}

/// The message of the error for this element below a parent of this kind, if it may not be there.
pub open spec fn parent_msg_fncall(p: InfoV) -> Option<Seq<char>> {
    match p {
        InfoV::List(_) => None,
        InfoV::CommentSingleLine(_) => Some(IMPOSSIBLE_ERROR@),
        InfoV::Int(_) => Some(IMPOSSIBLE_ERROR@),
        InfoV::Float(_) => Some(IMPOSSIBLE_ERROR@),
        InfoV::String(_) => Some(IMPOSSIBLE_ERROR@),
        InfoV::Bool(_) => Some(IMPOSSIBLE_ERROR@),
        InfoV::Arg(_, _, _, _) => Some(IMPOSSIBLE_ERROR@),
        InfoV::Type(_) => Some(IMPOSSIBLE_ERROR@),
        InfoV::Eol => Some(IMPOSSIBLE_ERROR@),
        InfoV::Seol => Some(IMPOSSIBLE_ERROR@),
        InfoV::Indent => Some(IMPOSSIBLE_ERROR@),
        InfoV::Unused => Some(IMPOSSIBLE_ERROR@),
        InfoV::ConstantRef(_, _, _) => Some(IMPOSSIBLE_ERROR@),
        InfoV::Struct(_, _, _) => None,
        InfoV::StructEdit(_, _) => None,
        InfoV::Constant(_, _) => None,
        InfoV::Assignment => None,
        InfoV::InbuiltFunctionDef(_, _, _, _, _, _) => None,
        InfoV::InbuiltFunctionCall(_, _, _) => None,
        InfoV::FunctionDefWIP => None,
        InfoV::FunctionDef(_, _, _, _) => None,
        InfoV::FunctionCall(_, _) => None,
        InfoV::Parens => Some(FNCALL_CANT_BE_CHILD_OF_PARENTHESIS@),
        InfoV::LoopForRangeWIP => None,
        InfoV::LoopForRange(_, _, _) => None,
        InfoV::Println => None,
        InfoV::If(_) => None,
        InfoV::Root => None,
    }
}

/// Records an error when the parent may not hold this kind of element.
pub fn error_if_parent_is_invalid_for_fncall(compiler: &mut Compiler, parent: &Element) -> (r: Result<(), ()>)
    requires
        old(compiler).at_token(),
        old(compiler).has_chars_line() || parent_msg_fncall(parent.0@) is None,
    ensures
        final(compiler).at_token(),
        checked(old(compiler), final(compiler), parent_msg_fncall(parent.0@), r),
{
    match &parent.0 {
        ElementInfo::List(_) => Ok(()),
        ElementInfo::CommentSingleLine(_) => append_error(compiler, 0, 1, IMPOSSIBLE_ERROR),
        ElementInfo::Int(_) => append_error(compiler, 0, 1, IMPOSSIBLE_ERROR),
        ElementInfo::Float(_) => append_error(compiler, 0, 1, IMPOSSIBLE_ERROR),
        ElementInfo::String(_) => append_error(compiler, 0, 1, IMPOSSIBLE_ERROR),
        ElementInfo::Bool(_) => append_error(compiler, 0, 1, IMPOSSIBLE_ERROR),
        ElementInfo::Arg(_, _, _, _) => append_error(compiler, 0, 1, IMPOSSIBLE_ERROR),
        ElementInfo::Type(_) => append_error(compiler, 0, 1, IMPOSSIBLE_ERROR),
        ElementInfo::Eol => append_error(compiler, 0, 1, IMPOSSIBLE_ERROR),
        ElementInfo::Seol => append_error(compiler, 0, 1, IMPOSSIBLE_ERROR),
        ElementInfo::Indent => append_error(compiler, 0, 1, IMPOSSIBLE_ERROR),
        ElementInfo::Unused => append_error(compiler, 0, 1, IMPOSSIBLE_ERROR),
        ElementInfo::ConstantRef(_, _, _) => append_error(compiler, 0, 1, IMPOSSIBLE_ERROR),
        ElementInfo::Struct(_, _, _) => Ok(()),
        ElementInfo::StructEdit(_, _) => Ok(()),
        ElementInfo::Constant(_, _) => Ok(()),
        ElementInfo::Assignment => Ok(()),
        ElementInfo::InbuiltFunctionDef(_, _, _, _, _, _) => Ok(()),
        ElementInfo::InbuiltFunctionCall(_, _, _) => Ok(()),
        ElementInfo::FunctionDefWIP => Ok(()),
        ElementInfo::FunctionDef(_, _, _, _) => Ok(()),
        ElementInfo::FunctionCall(_, _) => Ok(()),
        ElementInfo::Parens => append_error(compiler, 0, 1, FNCALL_CANT_BE_CHILD_OF_PARENTHESIS),
        ElementInfo::LoopForRangeWIP => Ok(()),
        ElementInfo::LoopForRange(_, _, _) => Ok(()),
        ElementInfo::Println => Ok(()),
        ElementInfo::If(_) => Ok(()),
        ElementInfo::Root => Ok(()),
    }
}

/// The message of the error for this element below a parent of this kind, if it may not be there.
pub open spec fn parent_msg_parenthesis(p: InfoV) -> Option<Seq<char>> {
    match p {
        InfoV::List(_) => None,
        InfoV::CommentSingleLine(_) => Some(IMPOSSIBLE_ERROR@),
        InfoV::Int(_) => Some(IMPOSSIBLE_ERROR@),
        InfoV::Float(_) => Some(IMPOSSIBLE_ERROR@),
        InfoV::String(_) => Some(IMPOSSIBLE_ERROR@),
        InfoV::Bool(_) => Some(IMPOSSIBLE_ERROR@),
        InfoV::Arg(_, _, _, _) => Some(IMPOSSIBLE_ERROR@),
        InfoV::Type(_) => Some(IMPOSSIBLE_ERROR@),
        InfoV::Eol => Some(IMPOSSIBLE_ERROR@),
        InfoV::Seol => Some(IMPOSSIBLE_ERROR@),
        InfoV::Indent => Some(IMPOSSIBLE_ERROR@),
        InfoV::Unused => Some(IMPOSSIBLE_ERROR@),
        InfoV::ConstantRef(_, _, _) => Some(IMPOSSIBLE_ERROR@),
        InfoV::Struct(_, _, _) => None,
        InfoV::StructEdit(_, _) => None,
        InfoV::Constant(_, _) => Some(PARENTHESIS_CANT_BE_CHILD_OF_CONSTANT@),
        InfoV::Assignment => Some(PARENTHESIS_CANT_BE_CHILD_OF_ASSIGNMENT@),
        InfoV::InbuiltFunctionDef(_, _, _, _, _, _) => None,
        InfoV::InbuiltFunctionCall(_, _, _) => None,
        InfoV::FunctionDefWIP => None,
        InfoV::FunctionDef(_, _, _, _) => None,
        InfoV::FunctionCall(_, _) => None,
        InfoV::Parens => Some(FNCALL_CANT_BE_CHILD_OF_PARENTHESIS@),
        InfoV::LoopForRangeWIP => None,
        InfoV::LoopForRange(_, _, _) => Some(LOOPFOR_CANT_BE_CHILD@),
        InfoV::Println => Some(IMPOSSIBLE_ERROR@),
        InfoV::If(_) => None,
        InfoV::Root => Some(PARENTHESIS_CANT_BE_CHILD_OF_ROOT@),
    }
}

/// Records an error when the parent may not hold this kind of element.
pub fn error_if_parent_is_invalid_for_parenthesis(compiler: &mut Compiler, parent: &Element) -> (r: Result<(), ()>)
    requires
        old(compiler).at_token(),
        old(compiler).has_chars_line() || parent_msg_parenthesis(parent.0@) is None,
    ensures
        final(compiler).at_token(),
        checked(old(compiler), final(compiler), parent_msg_parenthesis(parent.0@), r),
{
    match &parent.0 {
        ElementInfo::List(_) => Ok(()),
        ElementInfo::CommentSingleLine(_) => append_error(compiler, 0, 1, IMPOSSIBLE_ERROR),
        ElementInfo::Int(_) => append_error(compiler, 0, 1, IMPOSSIBLE_ERROR),
        ElementInfo::Float(_) => append_error(compiler, 0, 1, IMPOSSIBLE_ERROR),
        ElementInfo::String(_) => append_error(compiler, 0, 1, IMPOSSIBLE_ERROR),
        ElementInfo::Bool(_) => append_error(compiler, 0, 1, IMPOSSIBLE_ERROR),
        ElementInfo::Arg(_, _, _, _) => append_error(compiler, 0, 1, IMPOSSIBLE_ERROR),
        ElementInfo::Type(_) => append_error(compiler, 0, 1, IMPOSSIBLE_ERROR),
        ElementInfo::Eol => append_error(compiler, 0, 1, IMPOSSIBLE_ERROR),
        ElementInfo::Seol => append_error(compiler, 0, 1, IMPOSSIBLE_ERROR),
        ElementInfo::Indent => append_error(compiler, 0, 1, IMPOSSIBLE_ERROR),
        ElementInfo::Unused => append_error(compiler, 0, 1, IMPOSSIBLE_ERROR),
        ElementInfo::ConstantRef(_, _, _) => append_error(compiler, 0, 1, IMPOSSIBLE_ERROR),
        ElementInfo::Struct(_, _, _) => Ok(()),
        ElementInfo::StructEdit(_, _) => Ok(()),
        ElementInfo::Constant(_, _) => append_error(compiler, 0, 1, PARENTHESIS_CANT_BE_CHILD_OF_CONSTANT),
        ElementInfo::Assignment => append_error(compiler, 0, 1, PARENTHESIS_CANT_BE_CHILD_OF_ASSIGNMENT),
        ElementInfo::InbuiltFunctionDef(_, _, _, _, _, _) => Ok(()),
        ElementInfo::InbuiltFunctionCall(_, _, _) => Ok(()),
        ElementInfo::FunctionDefWIP => Ok(()),
        ElementInfo::FunctionDef(_, _, _, _) => Ok(()),
        ElementInfo::FunctionCall(_, _) => Ok(()),
        ElementInfo::Parens => append_error(compiler, 0, 1, FNCALL_CANT_BE_CHILD_OF_PARENTHESIS),
        ElementInfo::LoopForRangeWIP => Ok(()),
        ElementInfo::LoopForRange(_, _, _) => append_error(compiler, 0, 1, LOOPFOR_CANT_BE_CHILD),
        ElementInfo::Println => append_error(compiler, 0, 1, IMPOSSIBLE_ERROR),
        ElementInfo::If(_) => Ok(()),
        ElementInfo::Root => append_error(compiler, 0, 1, PARENTHESIS_CANT_BE_CHILD_OF_ROOT),
    }
}

/// The message of the error for this element below a parent of this kind, if it may not be there.
pub open spec fn parent_msg_loopfor(p: InfoV) -> Option<Seq<char>> {
    match p {
        InfoV::List(_) => None,
        InfoV::CommentSingleLine(_) => Some(IMPOSSIBLE_ERROR@),
        InfoV::Int(_) => Some(IMPOSSIBLE_ERROR@),
        InfoV::Float(_) => Some(IMPOSSIBLE_ERROR@),
        InfoV::String(_) => Some(IMPOSSIBLE_ERROR@),
        InfoV::Bool(_) => Some(IMPOSSIBLE_ERROR@),
        InfoV::Arg(_, _, _, _) => Some(IMPOSSIBLE_ERROR@),
        InfoV::Type(_) => Some(IMPOSSIBLE_ERROR@),
        InfoV::Eol => Some(IMPOSSIBLE_ERROR@),
        InfoV::Seol => Some(IMPOSSIBLE_ERROR@),
        InfoV::Indent => Some(IMPOSSIBLE_ERROR@),
        InfoV::Unused => Some(IMPOSSIBLE_ERROR@),
        InfoV::ConstantRef(_, _, _) => Some(IMPOSSIBLE_ERROR@),
        InfoV::Struct(_, _, _) => None,
        InfoV::StructEdit(_, _) => None,
        InfoV::Constant(_, _) => Some(LOOPFOR_CANT_BE_CHILD@),
        InfoV::Assignment => Some(LOOPFOR_CANT_BE_CHILD@),
        InfoV::InbuiltFunctionDef(_, _, _, _, _, _) => None,
        InfoV::InbuiltFunctionCall(_, _, _) => None,
        InfoV::FunctionDefWIP => None,
        InfoV::FunctionDef(_, _, _, _) => None,
        InfoV::FunctionCall(_, _) => Some(LOOPFOR_CANT_BE_CHILD@),
        InfoV::Parens => Some(LOOPFOR_CANT_BE_CHILD@),
        InfoV::LoopForRangeWIP => None,
        InfoV::LoopForRange(_, _, _) => None,
        InfoV::Println => None,
        InfoV::If(_) => None,
        InfoV::Root => None,
    }
}

/// Records an error when the parent may not hold this kind of element.
pub fn error_if_parent_is_invalid_for_loopfor(compiler: &mut Compiler, parent: &Element) -> (r: Result<(), ()>)
    requires
        old(compiler).at_token(),
        old(compiler).has_chars_line() || parent_msg_loopfor(parent.0@) is None,
    ensures
        final(compiler).at_token(),
        checked(old(compiler), final(compiler), parent_msg_loopfor(parent.0@), r),
{
    match &parent.0 {
        ElementInfo::List(_) => Ok(()),
        ElementInfo::CommentSingleLine(_) => append_error(compiler, 0, 1, IMPOSSIBLE_ERROR),
        ElementInfo::Int(_) => append_error(compiler, 0, 1, IMPOSSIBLE_ERROR),
        ElementInfo::Float(_) => append_error(compiler, 0, 1, IMPOSSIBLE_ERROR),
        ElementInfo::String(_) => append_error(compiler, 0, 1, IMPOSSIBLE_ERROR),
        ElementInfo::Bool(_) => append_error(compiler, 0, 1, IMPOSSIBLE_ERROR),
        ElementInfo::Arg(_, _, _, _) => append_error(compiler, 0, 1, IMPOSSIBLE_ERROR),
        ElementInfo::Type(_) => append_error(compiler, 0, 1, IMPOSSIBLE_ERROR),
        ElementInfo::Eol => append_error(compiler, 0, 1, IMPOSSIBLE_ERROR),
        ElementInfo::Seol => append_error(compiler, 0, 1, IMPOSSIBLE_ERROR),
        ElementInfo::Indent => append_error(compiler, 0, 1, IMPOSSIBLE_ERROR),
        ElementInfo::Unused => append_error(compiler, 0, 1, IMPOSSIBLE_ERROR),
        ElementInfo::ConstantRef(_, _, _) => append_error(compiler, 0, 1, IMPOSSIBLE_ERROR),
        ElementInfo::Struct(_, _, _) => Ok(()),
        ElementInfo::StructEdit(_, _) => Ok(()),
        ElementInfo::Constant(_, _) => append_error(compiler, 0, 1, LOOPFOR_CANT_BE_CHILD),
        ElementInfo::Assignment => append_error(compiler, 0, 1, LOOPFOR_CANT_BE_CHILD),
        ElementInfo::InbuiltFunctionDef(_, _, _, _, _, _) => Ok(()),
        ElementInfo::InbuiltFunctionCall(_, _, _) => Ok(()),
        ElementInfo::FunctionDefWIP => Ok(()),
        ElementInfo::FunctionDef(_, _, _, _) => Ok(()),
        ElementInfo::FunctionCall(_, _) => append_error(compiler, 0, 1, LOOPFOR_CANT_BE_CHILD),
        ElementInfo::Parens => append_error(compiler, 0, 1, LOOPFOR_CANT_BE_CHILD),
        ElementInfo::LoopForRangeWIP => Ok(()),
        ElementInfo::LoopForRange(_, _, _) => Ok(()),
        ElementInfo::Println => Ok(()),
        ElementInfo::If(_) => Ok(()),
        ElementInfo::Root => Ok(()),
    }
}

/// The message of the error for this element below a parent of this kind, if it may not be there.
pub open spec fn parent_msg_fndefwip(p: InfoV) -> Option<Seq<char>> {
    match p {
        InfoV::List(_) => None,
        InfoV::CommentSingleLine(_) => Some(IMPOSSIBLE_ERROR@),
        InfoV::Int(_) => Some(IMPOSSIBLE_ERROR@),
        InfoV::Float(_) => Some(IMPOSSIBLE_ERROR@),
        InfoV::String(_) => Some(IMPOSSIBLE_ERROR@),
        InfoV::Bool(_) => Some(IMPOSSIBLE_ERROR@),
        InfoV::Arg(_, _, _, _) => Some(IMPOSSIBLE_ERROR@),
        InfoV::Type(_) => Some(IMPOSSIBLE_ERROR@),
        InfoV::Eol => Some(IMPOSSIBLE_ERROR@),
        InfoV::Seol => Some(IMPOSSIBLE_ERROR@),
        InfoV::Indent => Some(IMPOSSIBLE_ERROR@),
        InfoV::Unused => Some(IMPOSSIBLE_ERROR@),
        InfoV::ConstantRef(_, _, _) => Some(IMPOSSIBLE_ERROR@),
        InfoV::Struct(_, _, _) => None,
        InfoV::StructEdit(_, _) => None,
        InfoV::Constant(_, _) => None,
        InfoV::Assignment => Some(FNDEFWIP_CAN_ONLY_BE_CHILD_OF_CONSTANT@),
        InfoV::InbuiltFunctionDef(_, _, _, _, _, _) => Some(IMPOSSIBLE_ERROR@),
        InfoV::InbuiltFunctionCall(_, _, _) => Some(FNDEFWIP_CAN_ONLY_BE_CHILD_OF_CONSTANT@),
        InfoV::FunctionDefWIP => None,
        InfoV::FunctionDef(_, _, _, _) => None,
        InfoV::FunctionCall(_, _) => Some(FNDEFWIP_CAN_ONLY_BE_CHILD_OF_CONSTANT@),
        InfoV::Parens => Some(FNDEFWIP_CAN_ONLY_BE_CHILD_OF_CONSTANT@),
        InfoV::LoopForRangeWIP => None,
        InfoV::LoopForRange(_, _, _) => Some(FNDEFWIP_CAN_ONLY_BE_CHILD_OF_CONSTANT@),
        InfoV::Println => None,
        InfoV::If(_) => None,
        InfoV::Root => Some(FNDEFWIP_CAN_ONLY_BE_CHILD_OF_CONSTANT@),
    }
}

/// Records an error when the parent may not hold this kind of element.
pub fn error_if_parent_is_invalid_for_fndefwip(compiler: &mut Compiler, parent: &Element) -> (r: Result<(), ()>)
    requires
        old(compiler).at_token(),
        old(compiler).has_chars_line() || parent_msg_fndefwip(parent.0@) is None,
    ensures
        final(compiler).at_token(),
        checked(old(compiler), final(compiler), parent_msg_fndefwip(parent.0@), r),
{
    match &parent.0 {
        ElementInfo::List(_) => Ok(()),
        ElementInfo::CommentSingleLine(_) => append_error(compiler, 0, 1, IMPOSSIBLE_ERROR),
        ElementInfo::Int(_) => append_error(compiler, 0, 1, IMPOSSIBLE_ERROR),
        ElementInfo::Float(_) => append_error(compiler, 0, 1, IMPOSSIBLE_ERROR),
        ElementInfo::String(_) => append_error(compiler, 0, 1, IMPOSSIBLE_ERROR),
        ElementInfo::Bool(_) => append_error(compiler, 0, 1, IMPOSSIBLE_ERROR),
        ElementInfo::Arg(_, _, _, _) => append_error(compiler, 0, 1, IMPOSSIBLE_ERROR),
        ElementInfo::Type(_) => append_error(compiler, 0, 1, IMPOSSIBLE_ERROR),
        ElementInfo::Eol => append_error(compiler, 0, 1, IMPOSSIBLE_ERROR),
        ElementInfo::Seol => append_error(compiler, 0, 1, IMPOSSIBLE_ERROR),
        ElementInfo::Indent => append_error(compiler, 0, 1, IMPOSSIBLE_ERROR),
        ElementInfo::Unused => append_error(compiler, 0, 1, IMPOSSIBLE_ERROR),
        ElementInfo::ConstantRef(_, _, _) => append_error(compiler, 0, 1, IMPOSSIBLE_ERROR),
        ElementInfo::Struct(_, _, _) => Ok(()),
        ElementInfo::StructEdit(_, _) => Ok(()),
        ElementInfo::Constant(_, _) => Ok(()),
        ElementInfo::Assignment => append_error(compiler, 0, 1, FNDEFWIP_CAN_ONLY_BE_CHILD_OF_CONSTANT),
        ElementInfo::InbuiltFunctionDef(_, _, _, _, _, _) => append_error(compiler, 0, 1, IMPOSSIBLE_ERROR),
        ElementInfo::InbuiltFunctionCall(_, _, _) => append_error(compiler, 0, 1, FNDEFWIP_CAN_ONLY_BE_CHILD_OF_CONSTANT),
        ElementInfo::FunctionDefWIP => Ok(()),
        ElementInfo::FunctionDef(_, _, _, _) => Ok(()),
        ElementInfo::FunctionCall(_, _) => append_error(compiler, 0, 1, FNDEFWIP_CAN_ONLY_BE_CHILD_OF_CONSTANT),
        ElementInfo::Parens => append_error(compiler, 0, 1, FNDEFWIP_CAN_ONLY_BE_CHILD_OF_CONSTANT),
        ElementInfo::LoopForRangeWIP => Ok(()),
        ElementInfo::LoopForRange(_, _, _) => append_error(compiler, 0, 1, FNDEFWIP_CAN_ONLY_BE_CHILD_OF_CONSTANT),
        ElementInfo::Println => Ok(()),
        ElementInfo::If(_) => Ok(()),
        ElementInfo::Root => append_error(compiler, 0, 1, FNDEFWIP_CAN_ONLY_BE_CHILD_OF_CONSTANT),
    }
}

/// The message of the error for this element below a parent of this kind, if it may not be there.
pub open spec fn parent_msg_println(p: InfoV) -> Option<Seq<char>> {
    match p {
        InfoV::List(_) => None,
        InfoV::CommentSingleLine(_) => Some(IMPOSSIBLE_ERROR@),
        InfoV::Int(_) => Some(IMPOSSIBLE_ERROR@),
        InfoV::Float(_) => Some(IMPOSSIBLE_ERROR@),
        InfoV::String(_) => Some(IMPOSSIBLE_ERROR@),
        InfoV::Bool(_) => Some(IMPOSSIBLE_ERROR@),
        InfoV::Arg(_, _, _, _) => Some(IMPOSSIBLE_ERROR@),
        InfoV::Type(_) => Some(IMPOSSIBLE_ERROR@),
        InfoV::Eol => Some(IMPOSSIBLE_ERROR@),
        InfoV::Seol => Some(IMPOSSIBLE_ERROR@),
        InfoV::Indent => Some(IMPOSSIBLE_ERROR@),
        InfoV::Unused => Some(IMPOSSIBLE_ERROR@),
        InfoV::ConstantRef(_, _, _) => Some(IMPOSSIBLE_ERROR@),
        InfoV::Struct(_, _, _) => None,
        InfoV::StructEdit(_, _) => None,
        InfoV::Constant(_, _) => Some(IMPOSSIBLE_ERROR@),
        InfoV::Assignment => Some(PRINTLN_CANT_BE_CHILD_OF_ELEMENT@),
        InfoV::InbuiltFunctionDef(_, _, _, _, _, _) => Some(IMPOSSIBLE_ERROR@),
        InfoV::InbuiltFunctionCall(_, _, _) => None,
        InfoV::FunctionDefWIP => None,
        InfoV::FunctionDef(_, _, _, _) => None,
        InfoV::FunctionCall(_, _) => Some(PRINTLN_CANT_BE_CHILD_OF_ELEMENT@),
        InfoV::Parens => Some(PRINTLN_CANT_BE_CHILD_OF_ELEMENT@),
        InfoV::LoopForRangeWIP => None,
        InfoV::LoopForRange(_, _, _) => None,
        InfoV::Println => Some(PRINTLN_CANT_BE_CHILD_OF_ELEMENT@),
        InfoV::If(_) => None,
        InfoV::Root => None,
    }
}

/// Records an error when the parent may not hold this kind of element.
pub fn error_if_parent_is_invalid_for_println(compiler: &mut Compiler, parent: &Element) -> (r: Result<(), ()>)
    requires
        old(compiler).at_token(),
        old(compiler).has_chars_line() || parent_msg_println(parent.0@) is None,
    ensures
        final(compiler).at_token(),
        checked(old(compiler), final(compiler), parent_msg_println(parent.0@), r),
{
    match &parent.0 {
        ElementInfo::List(_) => Ok(()),
        ElementInfo::CommentSingleLine(_) => append_error(compiler, 0, 1, IMPOSSIBLE_ERROR),
        ElementInfo::Int(_) => append_error(compiler, 0, 1, IMPOSSIBLE_ERROR),
        ElementInfo::Float(_) => append_error(compiler, 0, 1, IMPOSSIBLE_ERROR),
        ElementInfo::String(_) => append_error(compiler, 0, 1, IMPOSSIBLE_ERROR),
        ElementInfo::Bool(_) => append_error(compiler, 0, 1, IMPOSSIBLE_ERROR),
        ElementInfo::Arg(_, _, _, _) => append_error(compiler, 0, 1, IMPOSSIBLE_ERROR),
        ElementInfo::Type(_) => append_error(compiler, 0, 1, IMPOSSIBLE_ERROR),
        ElementInfo::Eol => append_error(compiler, 0, 1, IMPOSSIBLE_ERROR),
        ElementInfo::Seol => append_error(compiler, 0, 1, IMPOSSIBLE_ERROR),
        ElementInfo::Indent => append_error(compiler, 0, 1, IMPOSSIBLE_ERROR),
        ElementInfo::Unused => append_error(compiler, 0, 1, IMPOSSIBLE_ERROR),
        ElementInfo::ConstantRef(_, _, _) => append_error(compiler, 0, 1, IMPOSSIBLE_ERROR),
        ElementInfo::Struct(_, _, _) => Ok(()),
        ElementInfo::StructEdit(_, _) => Ok(()),
        ElementInfo::Constant(_, _) => append_error(compiler, 0, 1, IMPOSSIBLE_ERROR),
        ElementInfo::Assignment => append_error(compiler, 0, 1, PRINTLN_CANT_BE_CHILD_OF_ELEMENT),
        ElementInfo::InbuiltFunctionDef(_, _, _, _, _, _) => append_error(compiler, 0, 1, IMPOSSIBLE_ERROR),
        ElementInfo::InbuiltFunctionCall(_, _, _) => Ok(()),
        ElementInfo::FunctionDefWIP => Ok(()),
        ElementInfo::FunctionDef(_, _, _, _) => Ok(()),
        ElementInfo::FunctionCall(_, _) => append_error(compiler, 0, 1, PRINTLN_CANT_BE_CHILD_OF_ELEMENT),
        ElementInfo::Parens => append_error(compiler, 0, 1, PRINTLN_CANT_BE_CHILD_OF_ELEMENT),
        ElementInfo::LoopForRangeWIP => Ok(()),
        ElementInfo::LoopForRange(_, _, _) => Ok(()),
        ElementInfo::Println => append_error(compiler, 0, 1, PRINTLN_CANT_BE_CHILD_OF_ELEMENT),
        ElementInfo::If(_) => Ok(()),
        ElementInfo::Root => Ok(()),
    }
}

/// Cases for testing the compile errors: each an expected error message and a program (the
/// first, the empty program, with no message).
pub open spec fn error_cases() -> Seq<Seq<Seq<char>>> {
    seq![
        seq![""@, ""@],
        seq![COMMENT_SINGLE_LINE@, "/1/comment"@],
        seq![COMMENT_CANT_BE_CHILD_OF_ASSIGNMENT@, "= //test"@],
        seq![COMMENT_CANT_BE_CHILD_OF_CONSTANT@, "= c //test"@],
        seq![COMMENT_CANT_BE_CHILD_OF_INBUILTFNCALL@, "+ //test"@],
        seq![COMMENT_CANT_BE_CHILD_OF_FNCALL@, "= myfun \\ i64 i64 arg1 => + arg1 123\r\nmyfun //test"@],
        seq![COMMENT_CANT_BE_CHILD_OF_PARENTHESIS@, "= myfun \\ ( i64 i64 // test ) i64 arg1 => arg1 123"@],
        seq![COMMENT_CANT_BE_CHILD_OF_PARENTHESIS@, "= myfun \\ ( i64 i64 ) i64 arg1 => arg1 123\r\nmyfun ( //test ) 123"@],
        seq![INT_CANT_BE_CHILD_OF_ASSIGNMENT@, "= 123"@],
        seq![INT_CANT_BE_CHILD_OF_PARENTHESIS@, "= myfun \\ ( i64 123 ) i64 arg1 => arg1 123"@],
        seq![INT_CANT_BE_CHILD_OF_PARENTHESIS@, "= myfun \\ ( i64 i64 ) i64 arg1 => arg1 123\r\nmyfun ( 123 ) 123"@],
        seq![FLOAT_CANT_BE_CHILD_OF_ASSIGNMENT@, "= 123.456"@],
        seq![FLOAT_CANT_BE_CHILD_OF_PARENTHESIS@, "= myfun \\ ( i64 123.456 ) i64 arg1 => arg1 123"@],
        seq![FLOAT_CANT_BE_CHILD_OF_PARENTHESIS@, "= myfun \\ ( i64 i64 ) i64 arg1 => arg1 123\r\nmyfun ( 123.456 ) 123"@],
        seq![STRING_CANT_BE_CHILD_OF_ASSIGNMENT@, "= \"string\""@],
        seq![STRING_CANT_BE_CHILD_OF_PARENTHESIS@, "= myfun \\ ( i64 \"string\" ) i64 arg1 => arg1 123"@],
        seq![STRING_CANT_BE_CHILD_OF_PARENTHESIS@, "= myfun \\ ( i64 i64 ) i64 arg1 => arg1 123\r\nmyfun ( \"string\" ) 123"@],
        seq![CONSTANTREF_CANT_BE_CHILD_OF_PARENTHESIS@, "= a 123\r\n= myfun \\ ( i64 a ) i64 arg1 => arg1 123"@],
        seq![CONSTANTREF_CANT_BE_CHILD_OF_PARENTHESIS@, "= a 123\r\n= myfun \\ ( i64 i64 ) i64 arg1 => arg1 123\r\nmyfun ( a ) 123"@],
        seq![CONSTANT_UNDEFINED@, "a"@],
        seq![CONSTANTS_ARE_IMMUTABLE@, "= a 123\r\n= a 234"@],
        seq![ASSIGNMENT_CANT_BE_CHILD_OF_CONSTANT@, "= a ="@],
        seq![ASSIGNMENT_CANT_BE_CHILD_OF_INBUILTFNCALL@, "+ 123 ="@],
        seq![ASSIGNMENT_CANT_BE_CHILD_OF_FNCAL@, "= myfun \\ i64 i64 arg1 => + arg1 123\r\nmyfun = 123"@],
        seq![ASSIGNMENT_CANT_BE_CHILD_OF_ASSIGNMENT@, "= ="@],
        seq![ASSIGNMENT_CANT_BE_CHILD_OF_PARENTHESIS@, "= a 123\r\n= myfun \\ ( i64 = ) i64 arg1 => arg1 123"@],
        seq![ASSIGNMENT_CANT_BE_CHILD_OF_PARENTHESIS@, "= a 123\r\n= myfun \\ ( i64 i64 ) i64 arg1 => arg1 123\r\nmyfun ( = ) 123"@],
        seq![INBUILTFNCALL_CANT_BE_CHILD_OF_PARENTHESIS@, "= a 123\r\n= myfun \\ ( i64 + ) i64 arg1 => arg1 123"@],
        seq![INBUILTFNCALL_CANT_BE_CHILD_OF_PARENTHESIS@, "= a 123\r\n= myfun \\ ( i64 i64 ) i64 arg1 => arg1 123\r\nmyfun ( + ) 123"@],
        seq![FUNCDEF_ARGTYPES_FIRST@, "= myfun1 \\ i64 i64 arg1 => + arg1 123\r\n= myfun2 \\ ( i64 myfun1 ) i64 arg2 => arg2 123"@],
        seq![PARENTHESIS_CANT_BE_CHILD_OF_ROOT@, "( i64 )"@],
        seq![PARENTHESIS_CANT_BE_CHILD_OF_CONSTANT@, "= x ( i64 )"@],
        seq![PARENTHESIS_CANT_BE_CHILD_OF_ASSIGNMENT@, "= ( i64 ) 123"@],
        seq![FNDEFWIP_CAN_ONLY_BE_CHILD_OF_CONSTANT@, "\\ i64 => 123"@],
        seq![FNDEFWIP_CAN_ONLY_BE_CHILD_OF_CONSTANT@, "+ 123 \\"@],
        seq![FNDEFWIP_CAN_ONLY_BE_CHILD_OF_CONSTANT@, "= myfun \\ i64 i64 arg1 => + arg1 123\r\nmyfun \\"@],
        seq![PARENTHESIS_CANT_BE_CHILD_OF_ASSIGNMENT@, "= ( \\ ) 123"@],
        seq![FNDEFWIP_CAN_ONLY_BE_CHILD_OF_CONSTANT@, "= a 123\r\n= myfun \\ ( \\ i64 ) i64 arg1 => arg1 123\r\nmyfun ( a ) 123"@],
        seq![FNDEFWIP_CAN_ONLY_BE_CHILD_OF_CONSTANT@, "= \\ 123"@],
        seq![STRING@, "\""@],
        seq![STRING@, "\"\"\""@],
        seq![STRING@, "\"\" \""@],
        seq![INT@, "1a"@],
        seq![INT_OUT_OF_BOUNDS@, "9223372036854775808"@],
        seq![INT@, "-1a"@],
        seq![INT_OUT_OF_BOUNDS@, "-9223372036854775809"@],
        seq![INT@, "1.1.1"@],
        seq![INT@, "1.7976931348623157E+309"@],
        seq![INT@, "-1.1.1"@],
        seq![INT@, "-1.7976931348623157E+309"@],
    ]
}

/// A case: a message and a program.
fn case(message: &str, program: &str) -> (c: Vec<String>)
    ensures
        c@.map_values(|s: String| s@) == seq![message@, program@],
{
    let c = vec![text::lit(message), text::lit(program)];
    assert(c@.map_values(|s: String| s@) =~= seq![message@, program@]);
    c
}

/// The error cases (see `error_cases`), as lists of two strings.
pub fn test_case_errors() -> (v: Vec<Vec<String>>)
    ensures
        v@.map_values(|c: Vec<String>| c@.map_values(|s: String| s@)) == error_cases(),
{
    let mut v: Vec<Vec<String>> = Vec::new();
    v.push(case("", ""));
    v.push(case(COMMENT_SINGLE_LINE, "/1/comment"));
    v.push(case(COMMENT_CANT_BE_CHILD_OF_ASSIGNMENT, "= //test"));
    v.push(case(COMMENT_CANT_BE_CHILD_OF_CONSTANT, "= c //test"));
    v.push(case(COMMENT_CANT_BE_CHILD_OF_INBUILTFNCALL, "+ //test"));
    v.push(case(COMMENT_CANT_BE_CHILD_OF_FNCALL, "= myfun \\ i64 i64 arg1 => + arg1 123\r\nmyfun //test"));
    v.push(case(COMMENT_CANT_BE_CHILD_OF_PARENTHESIS, "= myfun \\ ( i64 i64 // test ) i64 arg1 => arg1 123"));
    v.push(case(COMMENT_CANT_BE_CHILD_OF_PARENTHESIS, "= myfun \\ ( i64 i64 ) i64 arg1 => arg1 123\r\nmyfun ( //test ) 123"));
    v.push(case(INT_CANT_BE_CHILD_OF_ASSIGNMENT, "= 123"));
    v.push(case(INT_CANT_BE_CHILD_OF_PARENTHESIS, "= myfun \\ ( i64 123 ) i64 arg1 => arg1 123"));
    v.push(case(INT_CANT_BE_CHILD_OF_PARENTHESIS, "= myfun \\ ( i64 i64 ) i64 arg1 => arg1 123\r\nmyfun ( 123 ) 123"));
    v.push(case(FLOAT_CANT_BE_CHILD_OF_ASSIGNMENT, "= 123.456"));
    v.push(case(FLOAT_CANT_BE_CHILD_OF_PARENTHESIS, "= myfun \\ ( i64 123.456 ) i64 arg1 => arg1 123"));
    v.push(case(FLOAT_CANT_BE_CHILD_OF_PARENTHESIS, "= myfun \\ ( i64 i64 ) i64 arg1 => arg1 123\r\nmyfun ( 123.456 ) 123"));
    v.push(case(STRING_CANT_BE_CHILD_OF_ASSIGNMENT, "= \"string\""));
    v.push(case(STRING_CANT_BE_CHILD_OF_PARENTHESIS, "= myfun \\ ( i64 \"string\" ) i64 arg1 => arg1 123"));
    v.push(case(STRING_CANT_BE_CHILD_OF_PARENTHESIS, "= myfun \\ ( i64 i64 ) i64 arg1 => arg1 123\r\nmyfun ( \"string\" ) 123"));
    v.push(case(CONSTANTREF_CANT_BE_CHILD_OF_PARENTHESIS, "= a 123\r\n= myfun \\ ( i64 a ) i64 arg1 => arg1 123"));
    v.push(case(CONSTANTREF_CANT_BE_CHILD_OF_PARENTHESIS, "= a 123\r\n= myfun \\ ( i64 i64 ) i64 arg1 => arg1 123\r\nmyfun ( a ) 123"));
    v.push(case(CONSTANT_UNDEFINED, "a"));
    v.push(case(CONSTANTS_ARE_IMMUTABLE, "= a 123\r\n= a 234"));
    v.push(case(ASSIGNMENT_CANT_BE_CHILD_OF_CONSTANT, "= a ="));
    v.push(case(ASSIGNMENT_CANT_BE_CHILD_OF_INBUILTFNCALL, "+ 123 ="));
    v.push(case(ASSIGNMENT_CANT_BE_CHILD_OF_FNCAL, "= myfun \\ i64 i64 arg1 => + arg1 123\r\nmyfun = 123"));
    v.push(case(ASSIGNMENT_CANT_BE_CHILD_OF_ASSIGNMENT, "= ="));
    v.push(case(ASSIGNMENT_CANT_BE_CHILD_OF_PARENTHESIS, "= a 123\r\n= myfun \\ ( i64 = ) i64 arg1 => arg1 123"));
    v.push(case(ASSIGNMENT_CANT_BE_CHILD_OF_PARENTHESIS, "= a 123\r\n= myfun \\ ( i64 i64 ) i64 arg1 => arg1 123\r\nmyfun ( = ) 123"));
    v.push(case(INBUILTFNCALL_CANT_BE_CHILD_OF_PARENTHESIS, "= a 123\r\n= myfun \\ ( i64 + ) i64 arg1 => arg1 123"));
    v.push(case(INBUILTFNCALL_CANT_BE_CHILD_OF_PARENTHESIS, "= a 123\r\n= myfun \\ ( i64 i64 ) i64 arg1 => arg1 123\r\nmyfun ( + ) 123"));
    v.push(case(FUNCDEF_ARGTYPES_FIRST, "= myfun1 \\ i64 i64 arg1 => + arg1 123\r\n= myfun2 \\ ( i64 myfun1 ) i64 arg2 => arg2 123"));
    v.push(case(PARENTHESIS_CANT_BE_CHILD_OF_ROOT, "( i64 )"));
    v.push(case(PARENTHESIS_CANT_BE_CHILD_OF_CONSTANT, "= x ( i64 )"));
    v.push(case(PARENTHESIS_CANT_BE_CHILD_OF_ASSIGNMENT, "= ( i64 ) 123"));
    v.push(case(FNDEFWIP_CAN_ONLY_BE_CHILD_OF_CONSTANT, "\\ i64 => 123"));
    v.push(case(FNDEFWIP_CAN_ONLY_BE_CHILD_OF_CONSTANT, "+ 123 \\"));
    v.push(case(FNDEFWIP_CAN_ONLY_BE_CHILD_OF_CONSTANT, "= myfun \\ i64 i64 arg1 => + arg1 123\r\nmyfun \\"));
    v.push(case(PARENTHESIS_CANT_BE_CHILD_OF_ASSIGNMENT, "= ( \\ ) 123"));
    v.push(case(FNDEFWIP_CAN_ONLY_BE_CHILD_OF_CONSTANT, "= a 123\r\n= myfun \\ ( \\ i64 ) i64 arg1 => arg1 123\r\nmyfun ( a ) 123"));
    v.push(case(FNDEFWIP_CAN_ONLY_BE_CHILD_OF_CONSTANT, "= \\ 123"));
    v.push(case(STRING, "\""));
    v.push(case(STRING, "\"\"\""));
    v.push(case(STRING, "\"\" \""));
    v.push(case(INT, "1a"));
    v.push(case(INT_OUT_OF_BOUNDS, "9223372036854775808"));
    v.push(case(INT, "-1a"));
    v.push(case(INT_OUT_OF_BOUNDS, "-9223372036854775809"));
    v.push(case(INT, "1.1.1"));
    v.push(case(INT, "1.7976931348623157E+309"));
    v.push(case(INT, "-1.1.1"));
    v.push(case(INT, "-1.7976931348623157E+309"));
    assert(v@.map_values(|c: Vec<String>| c@.map_values(|s: String| s@)) =~= error_cases());
    v
}

} // verus!
