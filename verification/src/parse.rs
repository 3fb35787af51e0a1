//! The parser: each token, by its kind, becomes elements of the AST.
use crate::ast::elements::append::{
    self, after_outdents, after_seol, first_in_line, function_call_step, function_ref_or_call_step,
    last_in_line, new_constant_or_arg_step, opener_seol_step, opener_step, outdent_once, parent_of_state,
    statement_step, value_step, AstState, ended, moved_to, Outcome,
};
use crate::ast::elements::{self, el_view, element_by_name, ElementInfo, InfoV};
use crate::ast::parents::{self, outdent};
use crate::errors::{self, tokens_text};
use crate::text::{self, count_matches, seq_contains};
use crate::{Compiler, Tokens};
use vstd::prelude::*;

verus! {

/// The number of arguments of a function type such as "&dyn Fn(i64, i64) -> i64": one more
/// than its commas, or as many as its commas when it has no arguments "()" (at most `usize::MAX`).
pub open spec fn dyn_fn_args(s: Seq<char>) -> nat {
    let n = count_matches(s, ","@) + if seq_contains(s, "()"@) { 0nat } else { 1nat };
    if n > usize::MAX { usize::MAX as nat } else { n }
}

/// Gets the number of arguments of a function type, e.g.
///
/// 0 args, e.g. "&dyn Fn() -> i64"         = 0 commas + 0 does match ()
/// 1 args, e.g. "&dyn Fn(i64) -> i64"      = 0 commas + 1 does not match ()
/// 2 args, e.g. "&dyn Fn(i64, i64) -> i64" = 1 comma  + 1 does not match ()
pub fn get_args_from_dyn_fn(string: &String) -> (n: usize)
    ensures
        n as nat == dyn_fn_args(string@),
{
    proof {
        reveal_strlit(",");
    }
    let commas = text::count_str(string, ",");
    let no_parens: usize = if text::contains(string, "()") { 0 } else { 1 };
    commas.saturating_add(no_parens)
}

/// Records an error at the current token, with an arrow of `arrow_len` under it.
fn fail(compiler: &mut Compiler, arrow_len: usize, msg: &str) -> (r: Result<(), ()>)
    requires
        old(compiler).at_token(),
        old(compiler).has_chars_line(),
    ensures
        ended(old(compiler), final(compiler), r, Outcome::Failed(old(compiler).ast.state(), msg@, arrow_len)),
{
    errors::append_error(compiler, 0, arrow_len, msg)
}

/// An edit of a struct's field ("name.key"): such edits are refused with an error at the
/// token.
pub fn struct_edit(compiler: &mut Compiler, current_token: &String) -> (r: Result<(), ()>)
    requires
        old(compiler).at_token(),
        old(compiler).has_chars_line(),
    ensures
        ended(old(compiler), final(compiler), r, Outcome::Failed(old(compiler).ast.state(), errors::STRUCT_EDIT@, 1)),
{
    fail(compiler, 1, errors::STRUCT_EDIT)
}

/// A line of raw Rust code ("##..."): such lines are refused with an error at the token.
pub fn rustcode(compiler: &mut Compiler, current_token_vec: &Vec<char>) -> (r: Result<(), ()>)
    requires
        old(compiler).at_token(),
        old(compiler).has_chars_line(),
    ensures
        ended(old(compiler), final(compiler), r, Outcome::Failed(old(compiler).ast.state(), errors::RUSTCODE@, 1)),
{
    fail(compiler, 1, errors::RUSTCODE)
}

/// The text is an Int: ASCII digits, after a '-' for a negative one, within the range of `i64`.
pub open spec fn int_text(s: Seq<char>) -> bool {
    let neg = s.len() > 0 && s[0] == '-';
    let digits = if neg { s.skip(1) } else { s };
    &&& digits.len() > 0
    &&& text::all_digits(digits)
    &&& if neg {
        text::digits_value(digits) <= 9223372036854775808
    } else {
        text::digits_value(digits) <= 9223372036854775807
    }
}

/// A non-empty string of digits is an Int exactly when its value fits an `i64`; with a '-'
/// before it, exactly when the negative value does; a text with any other character after
/// its first is not an Int.
pub proof fn ints_are_digits_that_fit_an_i64(d: Seq<char>)
    requires
        d.len() >= 1,
        text::all_digits(d),
    ensures
        int_text(d) <==> text::digits_value(d) <= i64::MAX,
        int_text(seq!['-'] + d) <==> text::digits_value(d) <= i64::MAX + 1,
        forall|t: Seq<char>, i: int|
            1 <= i < t.len() && !text::is_ascii_digit(#[trigger] t[i]) ==> !int_text(t),
{
    assert((seq!['-'] + d).skip(1) =~= d);
    assert(d[0] != '-');
    assert forall|t: Seq<char>, i: int| 1 <= i < t.len() && !text::is_ascii_digit(#[trigger] t[i]) implies !int_text(t) by {
        if t[0] == '-' {
            assert(t.skip(1)[i - 1] == t[i]);
        }
    }
}

/// Every character of `s` from `from` on is numeric, as `char::is_numeric` decides.
pub open spec fn all_numeric_from(s: Seq<char>, from: int) -> bool {
    forall|i: int| from <= i < s.len() ==> text::char_is_numeric(#[trigger] s[i])
}

fn all_numeric(chars: &Vec<char>, from: usize) -> (b: bool)
    ensures
        b == all_numeric_from(chars@, from as int),
        b ==> forall|k: int| from <= k < chars@.len() && (#[trigger] chars@[k] as u32) < 128 ==> text::is_ascii_digit(chars@[k]),
        !b ==> exists|k: int| from <= k < chars@.len() && !text::char_is_numeric(#[trigger] chars@[k])
            && ((chars@[k] as u32) < 128 ==> !text::is_ascii_digit(chars@[k])),
{
    let mut i = from;
    while i < chars.len()
        invariant
            from <= i || chars@.len() <= i,
            forall|k: int| from <= k < i ==> text::char_is_numeric(#[trigger] chars@[k]),
            forall|k: int| from <= k < i && (#[trigger] chars@[k] as u32) < 128 ==> text::is_ascii_digit(chars@[k]),
        decreases chars@.len() - i,
    {
        if !text::is_numeric(chars[i]) {
            assert(!text::char_is_numeric(chars@[i as int]));
            return false;
        }
        i = i + 1;
    }
    true
}

/// Checks if a text is an Int.
pub fn is_integer(text: &String) -> (b: bool)
    requires
        text@.len() > 0,
    ensures
        b == int_text(text@),
{
    let text_chars = text::chars_of(text);
    let all_chars_are_numeric = all_numeric(&text_chars, 0);
    let first_char_is_negative_sign = text_chars[0] == '-';
    let is_negative_all_other_chars_are_numeric = first_char_is_negative_sign && text_chars.len() > 1
        && all_numeric(&text_chars, 1);
    let mut is_valid = true;
    if !all_chars_are_numeric && !is_negative_all_other_chars_are_numeric {
        is_valid = false;
    }
    if !text::parses_as_i64(&text_chars) {
        is_valid = false;
    }
    proof {
        let s = text@;
        if text::parses_i64(s) {
            if s[0] == '-' {
                if text_chars@.len() > 1 && !all_numeric_from(s, 1) {
                    let k = choose|k: int| 1 <= k < s.len() && !text::char_is_numeric(#[trigger] s[k])
                        && ((s[k] as u32) < 128 ==> !text::is_ascii_digit(s[k]));
                    assert(s.skip(1)[k - 1] == s[k]);
                }
            } else if s[0] != '+' {
                if !all_chars_are_numeric {
                    let k = choose|k: int| 0 <= k < s.len() && !text::char_is_numeric(#[trigger] s[k])
                        && ((s[k] as u32) < 128 ==> !text::is_ascii_digit(s[k]));
                    assert(text::is_ascii_digit(s[k]));
                }
            }
        }
    }
    is_valid
}

/// Checks if a text is a String: two or more characters between quote marks.
pub fn is_string(text: &String) -> (b: bool)
    requires
        text@.len() > 0 && text@[0] == '"' ==> text::is_ascii_text(text@),
    ensures
        b == (text@.len() >= 2 && text@[0] == '"' && text@.last() == '"'),
{
    let char_vec = text::chars_of(text);
    let n = char_vec.len();
    if n < 2 || char_vec[0] != '"' || char_vec[n - 1] != '"' {
        false
    } else {
        true
    }
}

/// Concatenates the texts of a line of tokens, used in a comment.
pub fn concatenate_vec_strings(tokens: &Tokens) -> (s: String)
    ensures
        s@ == tokens_text(tokens@),
{
    let mut output = String::new();
    let mut i: usize = 0;
    while i < tokens.len()
        invariant
            i <= tokens@.len(),
            output@ == tokens_text(tokens@.take(i as int)),
        decreases tokens@.len() - i,
    {
        output = text::concat(&output, &tokens[i].0);
        i = i + 1;
        assert(tokens@.take(i as int).drop_last() =~= tokens@.take(i - 1));
    }
    assert(tokens@.take(i as int) =~= tokens@);
    output
}

/// The number of whitespace characters at the start of `s`.
pub open spec fn leading_ws(s: Seq<char>) -> nat
    decreases s.len(),
{
    if s.len() > 0 && text::spec_is_whitespace(s[0]) {
        1 + leading_ws(s.drop_first())
    } else {
        0
    }
}

/// The number of whitespace characters at the end of `s`.
pub open spec fn trailing_ws(s: Seq<char>) -> nat
    decreases s.len(),
{
    if s.len() > 0 && text::spec_is_whitespace(s.last()) {
        1 + trailing_ws(s.drop_last())
    } else {
        0
    }
}

/// There are no more leading or trailing whitespace characters than characters.
pub proof fn lemma_ws_len(s: Seq<char>)
    ensures
        leading_ws(s) <= s.len(),
        trailing_ws(s) <= s.len(),
    decreases s.len(),
{
    if s.len() > 0 {
        lemma_ws_len(s.drop_first());
        lemma_ws_len(s.drop_last());
    }
}

proof fn lemma_leading_ws(s: Seq<char>, i: int)
    requires
        0 <= i <= s.len(),
        forall|k: int| 0 <= k < i ==> text::spec_is_whitespace(#[trigger] s[k]),
        i == s.len() || !text::spec_is_whitespace(s[i]),
    ensures
        leading_ws(s) == i,
    decreases i,
{
    if i > 0 {
        lemma_leading_ws(s.drop_first(), i - 1);
    }
}

proof fn lemma_trailing_ws(s: Seq<char>, i: int)
    requires
        0 <= i <= s.len(),
        forall|k: int| i <= k < s.len() ==> text::spec_is_whitespace(#[trigger] s[k]),
        i == 0 || !text::spec_is_whitespace(s[i - 1]),
    ensures
        trailing_ws(s) == s.len() - i,
    decreases s.len() - i,
{
    if i < s.len() {
        lemma_trailing_ws(s.drop_last(), i);
    }
}

/// The leading whitespace is whitespace, and what follows it is not.
proof fn lemma_leading_ws_ends(s: Seq<char>)
    ensures
        forall|k: int| 0 <= k < leading_ws(s) ==> text::spec_is_whitespace(#[trigger] s[k]),
        leading_ws(s) < s.len() ==> !text::spec_is_whitespace(s[leading_ws(s) as int]),
    decreases s.len(),
{
    lemma_ws_len(s);
    if s.len() > 0 && text::spec_is_whitespace(s[0]) {
        lemma_leading_ws_ends(s.drop_first());
        assert forall|k: int| 0 <= k < leading_ws(s) implies text::spec_is_whitespace(#[trigger] s[k]) by {
            if k > 0 {
                assert(s[k] == s.drop_first()[k - 1]);
            }
        }
    }
}

/// The trailing whitespace is whitespace, and what comes before it is not.
proof fn lemma_trailing_ws_ends(s: Seq<char>)
    ensures
        forall|k: int| s.len() - trailing_ws(s) <= k < s.len() ==> text::spec_is_whitespace(#[trigger] s[k]),
        trailing_ws(s) < s.len() ==> !text::spec_is_whitespace(s[s.len() - trailing_ws(s) - 1]),
    decreases s.len(),
{
    lemma_ws_len(s);
    if s.len() > 0 && text::spec_is_whitespace(s.last()) {
        lemma_trailing_ws_ends(s.drop_last());
        assert forall|k: int| s.len() - trailing_ws(s) <= k < s.len() implies text::spec_is_whitespace(#[trigger] s[k]) by {
            if k < s.len() - 1 {
                assert(s[k] == s.drop_last()[k]);
            }
        }
    }
}

/// A line with its whitespace stripped at both ends (as `strip_leading_whitespace` and then
/// `strip_trailing_whitespace` leave it) is empty or starts and ends with a character that
/// is not whitespace, and stripping it again changes nothing.
pub proof fn stripping_is_idempotent(line: Seq<char>)
    ensures
        ({
            let r = crate::stripped(line);
            &&& r.len() == 0 || (!text::spec_is_whitespace(r[0]) && !text::spec_is_whitespace(r.last()))
            &&& crate::stripped(r) == r
        }),
{
    let n = leading_ws(line);
    let a = line.skip(n as int);
    lemma_leading_ws_ends(line);
    lemma_ws_len(line);
    lemma_ws_len(a);
    lemma_trailing_ws_ends(a);
    if a.len() > 0 {
        assert(a[0] == line[n as int]);
        assert(!text::spec_is_whitespace(a[0]));
        assert(trailing_ws(a) < a.len()) by {
            if trailing_ws(a) == a.len() {
                assert(text::spec_is_whitespace(a[0]));
            }
        }
        let r = a.take(a.len() - trailing_ws(a));
        assert(r.len() > 0);
        assert(r[0] == a[0]);
        assert(r.last() == a[a.len() - trailing_ws(a) - 1]);
        lemma_leading_ws(r, 0);
        assert(r.skip(0) =~= r);
        lemma_trailing_ws(r, r.len() as int);
    } else {
        assert(crate::stripped(line) =~= Seq::<char>::empty());
        assert(leading_ws(Seq::<char>::empty()) == 0);
        assert(trailing_ws(Seq::<char>::empty()) == 0);
        assert(Seq::<char>::empty().skip(0) =~= Seq::<char>::empty());
    }
}

/// Strips leading whitespace from a String.
pub fn strip_leading_whitespace(input: &String) -> (r: String)
    ensures
        r@ == input@.skip(leading_ws(input@) as int),
{
    let char_vec = text::chars_of(input);
    let mut k: usize = 0;
    while k < char_vec.len() && text::is_whitespace(char_vec[k])
        invariant
            k <= char_vec@.len(),
            char_vec@ == input@,
            forall|j: int| 0 <= j < k ==> text::spec_is_whitespace(#[trigger] char_vec@[j]),
        decreases char_vec@.len() - k,
    {
        k = k + 1;
    }
    proof { lemma_leading_ws(input@, k as int); }
    let rest = vstd::slice::slice_subrange(char_vec.as_slice(), k, char_vec.len());
    text::string_from_chars(rest)
}

/// Strips trailing whitespace from a String; a String of whitespace alone becomes empty.
pub fn strip_trailing_whitespace(input: &String) -> (r: String)
    ensures
        r@ == input@.take(input@.len() - trailing_ws(input@)),
{
    let char_vec = text::chars_of(input);
    let mut k: usize = char_vec.len();
    while k > 0 && text::is_whitespace(char_vec[k - 1])
        invariant
            k <= char_vec@.len(),
            char_vec@ == input@,
            forall|j: int| k <= j < char_vec@.len() ==> text::spec_is_whitespace(#[trigger] char_vec@[j]),
        decreases k,
    {
        k = k - 1;
    }
    proof { lemma_trailing_ws(input@, k as int); }
    let kept = vstd::slice::slice_subrange(char_vec.as_slice(), 0, k);
    text::string_from_chars(kept)
}

/// Parses a Println.
pub fn println(compiler: &mut Compiler) -> (r: Result<(), ()>)
    requires
        old(compiler).at_token(),
        old(compiler).can_end_in(statement_step(old(compiler).ast.state(), InfoV::Println, last_in_line(old(compiler)))),
    ensures
        ended(old(compiler), final(compiler), r, statement_step(old(compiler).ast.state(), InfoV::Println, last_in_line(old(compiler)))),
{
    append::println(compiler)
}

/// Parses an If.
pub fn if_expression(compiler: &mut Compiler) -> (r: Result<(), ()>)
    requires
        old(compiler).at_token(),
        old(compiler).can_end_in(statement_step(old(compiler).ast.state(), InfoV::If("Undefined"@), last_in_line(old(compiler)))),
    ensures
        ended(old(compiler), final(compiler), r, statement_step(old(compiler).ast.state(), InfoV::If("Undefined"@), last_in_line(old(compiler)))),
{
    append::if_expression(compiler)
}

/// What a String token gives: the String, or the error for a malformed one.
pub open spec fn string_outcome(s: AstState, tok: Seq<char>, first: bool, last: bool) -> Outcome {
    if tok.len() >= 2 && tok[0] == '"' && tok.last() == '"' {
        value_step(s, InfoV::String(tok), first, last)
    } else {
        Outcome::Failed(s, errors::STRING@, 1)
    }
}

/// Parses a String.
pub fn string(compiler: &mut Compiler, current_token: &String) -> (r: Result<(), ()>)
    requires
        old(compiler).at_token(),
        old(compiler).can_end_in(string_outcome(old(compiler).ast.state(), current_token@, first_in_line(old(compiler)), last_in_line(old(compiler)))),
        current_token@.len() > 0 && current_token@[0] == '"' ==> text::is_ascii_text(current_token@),
    ensures
        ended(old(compiler), final(compiler), r, string_outcome(old(compiler).ast.state(), current_token@, first_in_line(old(compiler)), last_in_line(old(compiler)))),
{
    if is_string(current_token) {
        append::string(compiler, current_token)
    } else {
        fail(compiler, 1, errors::STRING)
    }
}

/// The length in bytes of a text.
pub open spec fn byte_len(s: Seq<char>) -> nat {
    vstd::utf8::encode_utf8(s).len()
}

/// What an Int token gives: the Int, or the error for one with other characters than digits
/// (after a '-'), or for one out of the range of `i64`; the arrow spans the token.
pub open spec fn int_outcome(s: AstState, tok: Seq<char>, first: bool, last: bool) -> Outcome {
    let neg = tok[0] == '-';
    let neg_other_not_numeric = neg && tok.len() > 1 && !all_numeric_from(tok, 1);
    if (!neg && !all_numeric_from(tok, 0)) || neg_other_not_numeric {
        Outcome::Failed(s, errors::INT@, byte_len(tok) as usize)
    } else if !text::parses_i64(tok) {
        Outcome::Failed(s, errors::INT_OUT_OF_BOUNDS@, byte_len(tok) as usize)
    } else {
        value_step(s, InfoV::Int(tok), first, last)
    }
}

/// Parses an Int.
pub fn int_literal(compiler: &mut Compiler, current_token: &String) -> (r: Result<(), ()>)
    requires
        old(compiler).at_token(),
        old(compiler).can_end_in(int_outcome(old(compiler).ast.state(), current_token@, first_in_line(old(compiler)), last_in_line(old(compiler)))),
        current_token@.len() > 0,
    ensures
        ended(old(compiler), final(compiler), r, int_outcome(old(compiler).ast.state(), current_token@, first_in_line(old(compiler)), last_in_line(old(compiler)))),
{
    let chars = text::chars_of(current_token);
    let all_chars_are_numeric = all_numeric(&chars, 0);
    let first_char_is_negative_sign = chars[0] == '-';
    let is_negative_all_other_chars_are_not_numeric = first_char_is_negative_sign && chars.len() > 1 && !all_numeric(&chars, 1);
    let len = current_token.as_str().len();
    if (!first_char_is_negative_sign && !all_chars_are_numeric) || is_negative_all_other_chars_are_not_numeric {
        return fail(compiler, len, errors::INT);
    }
    if !text::parses_as_i64(&chars) {
        return fail(compiler, len, errors::INT_OUT_OF_BOUNDS);
    }
    append::int_literal(compiler, current_token)
}

/// What a name gives: a reference to the constant or argument it names, a call of the
/// function argument or function it names (a reference to the function inside parentheses),
/// a new If for a name of an If, or otherwise a new constant or argument.
pub open spec fn constant_outcome(s: AstState, tok: Seq<char>, first: bool, last: bool) -> Outcome {
    let fresh = new_constant_or_arg_step(s, tok, first, last);
    match element_by_name(s.els, tok) {
        Some(i) => match s.els[i].0 {
            InfoV::Constant(_, rt) => value_step(s, InfoV::ConstantRef(tok, rt, tok), first, last),
            InfoV::ConstantRef(_, rt, _) => value_step(s, InfoV::ConstantRef(tok, rt, tok), first, last),
            InfoV::Arg(_, _, _, rt) => if seq_contains(rt, "&dyn Fn"@) {
                function_call_step(s, tok, dyn_fn_args(rt), rt, false, last)
            } else {
                value_step(s, InfoV::ConstantRef(tok, rt, tok), first, last)
            },
            InfoV::FunctionDef(_, argnames, _, rt) => function_ref_or_call_step(s, tok, argnames.len(), rt, first, last),
            InfoV::If(_) => statement_step(s, InfoV::If("Undefined"@), last),
            _ => fresh,
        },
        None => fresh,
    }
}

/// Parses a name: as a ConstantRef, an Arg, a function call or reference, an If, or a new
/// Constant or Arg.
pub fn constant(compiler: &mut Compiler, current_token: &String) -> (r: Result<(), ()>)
    requires
        old(compiler).at_token(),
        old(compiler).can_end_in(constant_outcome(old(compiler).ast.state(), current_token@, first_in_line(old(compiler)), last_in_line(old(compiler)))),
    ensures
        ended(old(compiler), final(compiler), r, constant_outcome(old(compiler).ast.state(), current_token@, first_in_line(old(compiler)), last_in_line(old(compiler)))),
{
    let el_option = elements::get_element_by_name(&compiler.ast, current_token);
    match el_option {
        Some(el) => match &el.0 {
            ElementInfo::Constant(_, returntype) => {
                return append::constant_ref(compiler, current_token, returntype);
            },
            ElementInfo::ConstantRef(_, returntype, _) => {
                return append::constant_ref(compiler, current_token, returntype);
            },
            ElementInfo::Arg(_, _, _, returntype) => {
                if text::contains(returntype, "&dyn Fn") {
                    let args = get_args_from_dyn_fn(returntype);
                    return append::function_call(compiler, current_token, args, returntype, false);
                } else {
                    return append::constant_ref(compiler, current_token, returntype);
                }
            },
            ElementInfo::FunctionDef(_, argnames, _, returntype) => {
                return append::function_ref_or_call(compiler, current_token, argnames.len(), returntype);
            },
            ElementInfo::If(_) => {
                return append::if_expression(compiler);
            },
            _ => {},
        },
        None => {},
    }
    append::new_constant_or_arg(compiler, current_token)
}

/// The type of the constant, or of the reference to one, that a name names, if it names one.
pub open spec fn named_constant_type(els: Seq<(InfoV, Seq<usize>)>, tok: Seq<char>) -> Option<Seq<char>> {
    match element_by_name(els, tok) {
        Some(i) => match els[i].0 {
            InfoV::Constant(_, rt) => Some(rt),
            InfoV::ConstantRef(_, rt, _) => Some(rt),
            _ => None,
        },
        None => None,
    }
}

/// A name (`constant`) is appended as a child of the current parent (after an Indent when it starts the
/// line), and stays there whether or not the check then fails: the name of a constant, or
/// of a reference to one, as a reference to it with its type and no children; a name that
/// names nothing as a new constant of undefined type, or, directly within a function
/// definition being read, as its argument.
pub proof fn a_name_is_placed_under_its_parent(s: AstState, tok: Seq<char>, first: bool, last: bool)
    requires
        crate::ast::parents_ok(s.parents, s.els.len()),
        s.parents[0] == 0,
        s.els.len() + 2 <= usize::MAX,
    ensures
        ({
            let k = s.els.len() + (if first { 1int } else { 0int });
            let p = s.parents.last() as int;
            let t = match constant_outcome(s, tok, first, last) {
                Outcome::Done(t) => t,
                Outcome::Failed(t, _, _) => t,
            };
            &&& named_constant_type(s.els, tok) matches Some(rt) ==> k < t.els.len() && t.els[k] == (
            InfoV::ConstantRef(tok, rt, tok), Seq::<usize>::empty()) && t.els[p].1.contains(k as usize)
            &&& element_by_name(s.els, tok) is None ==> k < t.els.len() && t.els[p].1.contains(k as usize) && (
            t.els[k].0 == InfoV::Constant(tok, "Undefined"@) || (s.els[p].0 is FunctionDefWIP && t.els[k].0
                == InfoV::Arg(tok, p as nat, elements::ArgModifierV::Plain, "Undefined"@)))
        }),
{
    let p = s.parents.last() as int;
    assert(s.parents[s.parents.len() - 1] < s.els.len());
    match named_constant_type(s.els, tok) {
        Some(rt) => {
            append::lemma_step_places(s, InfoV::ConstantRef(tok, rt, tok), first, last, false);
        },
        None => {},
    }
    if element_by_name(s.els, tok) is None {
        let s1 = append::indent_if(s, first);
        assert(s1.els[p].0 == s.els[p].0);
        if s.els[p].0 is FunctionDefWIP {
            append::lemma_step_places(s, InfoV::Arg(tok, p as nat, elements::ArgModifierV::Plain, "Undefined"@), first, last, false);
        } else {
            append::lemma_step_places(s, InfoV::Constant(tok, "Undefined"@), first, last, true);
        }
    }
}

/// Parses an assignment.
pub fn assignment(compiler: &mut Compiler) -> (r: Result<(), ()>)
    requires
        old(compiler).at_token(),
        old(compiler).can_end_in(append::assignment_step(old(compiler).ast.state(), first_in_line(old(compiler)), last_in_line(old(compiler)))),
    ensures
        ended(old(compiler), final(compiler), r, append::assignment_step(old(compiler).ast.state(), first_in_line(old(compiler)), last_in_line(old(compiler)))),
{
    append::assignment(compiler)
}

/// Parses a call of an inbuilt function.
pub fn inbuilt_function_call(compiler: &mut Compiler, current_token: &String, index_of_function: usize) -> (r: Result<(), ()>)
    requires
        old(compiler).at_token(),
        old(compiler).can_end_in(append::inbuilt_call_step(old(compiler).ast.state(), current_token@, index_of_function as int, first_in_line(old(compiler)), last_in_line(old(compiler)))),
        index_of_function < old(compiler).ast.elements@.len(),
    ensures
        ended(old(compiler), final(compiler), r, append::inbuilt_call_step(old(compiler).ast.state(), current_token@, index_of_function as int, first_in_line(old(compiler)), last_in_line(old(compiler)))),
{
    append::inbuilt_function_call(compiler, current_token, index_of_function)
}

/// Parses a call of a defined function.
pub fn function_call(compiler: &mut Compiler, current_token: &String, index_of_function: usize) -> (r: Result<(), ()>)
    requires
        old(compiler).at_token(),
        old(compiler).can_end_in(append::function_call1_step(old(compiler).ast.state(), current_token@, index_of_function as int, first_in_line(old(compiler)), last_in_line(old(compiler)))),
        index_of_function < old(compiler).ast.elements@.len(),
    ensures
        ended(old(compiler), final(compiler), r, append::function_call1_step(old(compiler).ast.state(), current_token@, index_of_function as int, first_in_line(old(compiler)), last_in_line(old(compiler)))),
{
    append::function_call1(compiler, current_token, index_of_function)
}

/// Parses the start of a struct.
pub fn struct_start(compiler: &mut Compiler) -> (r: Result<(), ()>)
    requires
        old(compiler).at_token(),
        old(compiler).can_end_in(append::struct_start_step(old(compiler).ast.state(), first_in_line(old(compiler)))),
    ensures
        ended(old(compiler), final(compiler), r, append::struct_start_step(old(compiler).ast.state(), first_in_line(old(compiler)))),
{
    append::struct_start(compiler)
}

/// Parses the start of a list.
pub fn list_start(compiler: &mut Compiler) -> (r: Result<(), ()>)
    requires
        old(compiler).at_token(),
        old(compiler).can_end_in(opener_step(old(compiler).ast.state(), InfoV::List("Undefined"@), first_in_line(old(compiler)))),
    ensures
        ended(old(compiler), final(compiler), r, opener_step(old(compiler).ast.state(), InfoV::List("Undefined"@), first_in_line(old(compiler)))),
{
    append::list_start(compiler)
}

/// Parses the start of a function definition.
pub fn function_definition_start(compiler: &mut Compiler) -> (r: Result<(), ()>)
    requires
        old(compiler).at_token(),
        old(compiler).can_end_in(opener_seol_step(old(compiler).ast.state(), InfoV::FunctionDefWIP, first_in_line(old(compiler)), last_in_line(old(compiler)))),
    ensures
        ended(old(compiler), final(compiler), r, opener_seol_step(old(compiler).ast.state(), InfoV::FunctionDefWIP, first_in_line(old(compiler)), last_in_line(old(compiler)))),
{
    append::function_definition_start(compiler)
}

/// Parses the start of a loop for range.
pub fn loop_for_range_start(compiler: &mut Compiler) -> (r: Result<(), ()>)
    requires
        old(compiler).at_token(),
        old(compiler).can_end_in(opener_seol_step(old(compiler).ast.state(), InfoV::LoopForRangeWIP, first_in_line(old(compiler)), last_in_line(old(compiler)))),
    ensures
        ended(old(compiler), final(compiler), r, opener_seol_step(old(compiler).ast.state(), InfoV::LoopForRangeWIP, first_in_line(old(compiler)), last_in_line(old(compiler)))),
{
    append::loop_for_range_start(compiler)
}

/// Parses a function type signature, or the start of a function reference.
pub fn functiontypesig_or_functionreference_start(compiler: &mut Compiler) -> (r: Result<(), ()>)
    requires
        old(compiler).at_token(),
        old(compiler).can_end_in(opener_seol_step(old(compiler).ast.state(), InfoV::Parens, first_in_line(old(compiler)), last_in_line(old(compiler)))),
    ensures
        ended(old(compiler), final(compiler), r, opener_seol_step(old(compiler).ast.state(), InfoV::Parens, first_in_line(old(compiler)), last_in_line(old(compiler)))),
{
    append::functiontypesig_or_functionreference_start(compiler)
}

/// Parses the end of a function type signature or function reference.
pub fn functiontypesig_or_functionreference_end(compiler: &mut Compiler) -> (r: Result<(), ()>)
    requires
        old(compiler).at_token(),
        old(compiler).can_end_in(Outcome::Done(after_seol(after_outdents(outdent_once(old(compiler).ast.state())), last_in_line(old(compiler))))),
    ensures
        ended(old(compiler), final(compiler), r, Outcome::Done(after_seol(after_outdents(outdent_once(old(compiler).ast.state())), last_in_line(old(compiler))))),
{
    append::functiontypesig_or_functionreference_end(compiler)
}


/// The smallest value that `str::parse::<f64>` reads as infinite: 2^1024 - 2^970, halfway
/// between `f64::MAX` and the next power of two, in decimal digits.
pub const F64_OVERFLOW: &'static str = "179769313486231580793728971405303415079934132710037826936173778980444968292764750946649017977587207096330286416692887910946555547851940402630657488671505820681908902000708383676273854845817711531764475730270069855571366959622842914819860834936475292719074168444365510704342711559699508093042880177904174497792";

/// The threshold's digits: 309 of them, starting with '1'.
pub proof fn lemma_f64_overflow_digits()
    ensures
        F64_OVERFLOW@.len() == 309,
        text::all_digits(F64_OVERFLOW@),
        F64_OVERFLOW@[0] == '1',
{
    reveal_strlit("179769313486231580793728971405303415079934132710037826936173778980444968292764750946649017977587207096330286416692887910946555547851940402630657488671505820681908902000708383676273854845817711531764475730270069855571366959622842914819860834936475292719074168444365510704342711559699508093042880177904174497792");
}

/// The first position in `lo..hi` where `c` occurs, or 0 when there is none.
pub open spec fn first_pos_in(s: Seq<char>, c: char, lo: int, hi: int) -> int
    decreases hi - lo,
{
    if hi <= lo {
        0
    } else {
        let p = first_pos_in(s, c, lo, hi - 1);
        if p != 0 {
            p
        } else if s[hi - 1] == c {
            hi - 1
        } else {
            0
        }
    }
}

/// The character at `k` may stand in a float: a digit, a '-' first, or the first '.', 'E'
/// or '+' after the first character (or one of these first).
pub open spec fn float_char_ok(s: Seq<char>, k: int) -> bool {
    let c = s[k];
    ||| c == '.' && first_pos_in(s, '.', 1, k) == 0
    ||| c == 'E' && first_pos_in(s, 'E', 1, k) == 0
    ||| c == '+' && first_pos_in(s, '+', 1, k) == 0
    ||| text::is_ascii_digit(c)
    ||| k == 0 && c == '-'
}

/// The position of the decimal point (after the first character), or 0.
pub open spec fn dot_pos(s: Seq<char>) -> int {
    first_pos_in(s, '.', 1, s.len() as int)
}

/// The position of the 'E' (after the first character), or 0.
pub open spec fn e_pos(s: Seq<char>) -> int {
    first_pos_in(s, 'E', 1, s.len() as int)
}

/// The position of the '+' (after the first character), or 0.
pub open spec fn plus_pos(s: Seq<char>) -> int {
    first_pos_in(s, '+', 1, s.len() as int)
}

/// Where the mantissa ends: at the 'E', or at the end.
pub open spec fn mant_end(s: Seq<char>) -> int {
    if e_pos(s) > 0 { e_pos(s) } else { s.len() as int }
}

/// Where the mantissa's digits start: after a sign.
pub open spec fn num_start(s: Seq<char>) -> int {
    if s.len() > 0 && (s[0] == '-' || s[0] == '+') { 1 } else { 0 }
}

/// The mantissa's digits, without the decimal point.
pub open spec fn mant_digits(s: Seq<char>) -> Seq<char> {
    s.subrange(num_start(s), dot_pos(s)) + s.subrange(dot_pos(s) + 1, mant_end(s))
}

/// The number of digits after the decimal point.
pub open spec fn frac_len(s: Seq<char>) -> nat {
    (mant_end(s) - dot_pos(s) - 1) as nat
}

/// The value of the exponent: the digits after "E+".
pub open spec fn exp_value(s: Seq<char>) -> nat {
    if e_pos(s) > 0 { text::digits_value(s.subrange(e_pos(s) + 2, s.len() as int)) } else { 0 }
}

/// For a text of the shape that the other conditions of `float_text` leave (a sign or a
/// digit first, digits, one decimal point, and maybe "E+" and digits), `str::parse::<f64>`
/// reads a finite number: the mantissa has a digit and comes before the exponent, and its
/// value is below `F64_OVERFLOW`.
pub open spec fn reads_as_finite_f64(s: Seq<char>) -> bool {
    &&& s.len() > 0
    &&& s[0] != 'E'
    &&& s[0] != '.'
    &&& dot_pos(s) < mant_end(s)
    &&& mant_digits(s).len() > 0
    &&& text::digits_value(mant_digits(s)) * text::pow10(exp_value(s)) < text::digits_value(F64_OVERFLOW@)
        * text::pow10(frac_len(s))
}

/// The text is a Float: digits with one decimal point after the first character, maybe a
/// '-' first, maybe an exponent "E+" and digits, and a finite value as an `f64`.
pub open spec fn float_text(s: Seq<char>) -> bool {
    let n = s.len() as int;
    let dot = dot_pos(s);
    let e = e_pos(s);
    let plus = plus_pos(s);
    let no_power_of_10 = e == 0 && plus == 0;
    let has_one_power_of_10 = e != 0 && plus > 0 && plus == e + 1 && (n > 1 && plus < n - 1) && e > 0;
    &&& forall|k: int| 0 <= k < n ==> float_char_ok(s, k)
    &&& dot != 0
    &&& (no_power_of_10 || has_one_power_of_10)
    &&& reads_as_finite_f64(s)
}

/// The first place of `c` in `lo..hi` is 0 when `c` is not there.
proof fn lemma_first_pos_none(s: Seq<char>, c: char, lo: int, hi: int)
    requires
        forall|i: int| lo <= i < hi ==> s[i] != c,
    ensures
        first_pos_in(s, c, lo, hi) == 0,
    decreases hi - lo,
{
    if hi > lo {
        lemma_first_pos_none(s, c, lo, hi - 1);
    }
}

/// The first place of `c` in `lo..hi` is `p` when `c` is at `p` and not before it.
proof fn lemma_first_pos_at(s: Seq<char>, c: char, lo: int, hi: int, p: int)
    requires
        0 < lo <= p < hi,
        s[p] == c,
        forall|i: int| lo <= i < p ==> s[i] != c,
    ensures
        first_pos_in(s, c, lo, hi) == p,
    decreases hi - lo,
{
    if hi - 1 == p {
        lemma_first_pos_none(s, c, lo, p);
    } else {
        lemma_first_pos_at(s, c, lo, hi - 1, p);
    }
}

/// A text with no decimal point is not a float.
pub proof fn floats_have_a_point(t: Seq<char>)
    requires
        forall|i: int| 0 <= i < t.len() ==> t[i] != '.',
    ensures
        !float_text(t),
{
    lemma_first_pos_none(t, '.', 1, t.len() as int);
}

/// The text of a float written as a sign (when `neg`), the digits `a`, a point and the
/// digits `b`.
pub open spec fn point_float_literal(neg: bool, a: Seq<char>, b: Seq<char>) -> Seq<char> {
    (if neg { seq!['-'] } else { Seq::<char>::empty() }) + a + seq!['.'] + b
}

/// Every text of the form [-]digits.digits, with at least one digit before the point, is a
/// float when its value is a finite `f64` (below `F64_OVERFLOW`).
pub proof fn point_floats_are_floats(neg: bool, a: Seq<char>, b: Seq<char>)
    requires
        a.len() >= 1,
        text::all_digits(a),
        text::all_digits(b),
        text::digits_value(a + b) < text::digits_value(F64_OVERFLOW@) * text::pow10(b.len()),
    ensures
        float_text(point_float_literal(neg, a, b)),
{
    let s = point_float_literal(neg, a, b);
    let o: int = if neg { 1 } else { 0 };
    let d = o + a.len();
    let n = s.len() as int;
    assert(n == d + 1 + b.len());
    assert forall|i: int| o <= i < d implies #[trigger] s[i] == a[i - o] by {}
    assert forall|i: int| d + 1 <= i < n implies #[trigger] s[i] == b[i - d - 1] by {}
    assert(s[d] == '.');
    assert(neg ==> s[0] == '-');
    assert(!neg ==> s[0] == a[0]);
    assert forall|i: int| 0 <= i < n && i != d && !(neg && i == 0) implies text::is_ascii_digit(#[trigger] s[i]) by {
        if i < d {
            assert(text::is_ascii_digit(a[i - o]));
        } else {
            assert(text::is_ascii_digit(b[i - d - 1]));
        }
    }
    lemma_first_pos_at(s, '.', 1, n, d);
    lemma_first_pos_none(s, 'E', 1, n);
    lemma_first_pos_none(s, '+', 1, n);
    assert forall|k: int| 0 <= k < n implies float_char_ok(s, k) by {
        if k == d {
            lemma_first_pos_none(s, '.', 1, k);
        }
    }
    assert(dot_pos(s) == d);
    assert(num_start(s) == o);
    assert(s.subrange(o, d) =~= a);
    assert(s.subrange(d + 1, n) =~= b);
    assert(mant_digits(s) =~= a + b);
    assert(frac_len(s) == b.len());
    assert(exp_value(s) == 0);
    assert(text::pow10(0) == 1);
}

/// The text of a float written as a sign (when `neg`), the digits `a`, a point, the digits
/// `b`, and "E+" with the exponent digits `c`.
pub open spec fn exp_float_literal(neg: bool, a: Seq<char>, b: Seq<char>, c: Seq<char>) -> Seq<char> {
    (if neg { seq!['-'] } else { Seq::<char>::empty() }) + a + seq!['.'] + b + seq!['E', '+'] + c
}

/// Every text of the form [-]digits.digits"E+"digits, with at least one digit before the
/// point and at least one in the exponent, is a float when its value is a finite `f64`
/// (below `F64_OVERFLOW`).
pub proof fn exponent_floats_are_floats(neg: bool, a: Seq<char>, b: Seq<char>, c: Seq<char>)
    requires
        a.len() >= 1,
        c.len() >= 1,
        text::all_digits(a),
        text::all_digits(b),
        text::all_digits(c),
        text::digits_value(a + b) * text::pow10(text::digits_value(c)) < text::digits_value(F64_OVERFLOW@) * text::pow10(
            b.len(),
        ),
    ensures
        float_text(exp_float_literal(neg, a, b, c)),
{
    let s = exp_float_literal(neg, a, b, c);
    let o: int = if neg { 1 } else { 0 };
    let d = o + a.len();
    let e = d + 1 + b.len();
    let n = s.len() as int;
    assert(n == e + 2 + c.len());
    assert forall|i: int| o <= i < d implies #[trigger] s[i] == a[i - o] by {}
    assert forall|i: int| d + 1 <= i < e implies #[trigger] s[i] == b[i - d - 1] by {}
    assert forall|i: int| e + 2 <= i < n implies #[trigger] s[i] == c[i - e - 2] by {}
    assert(s[d] == '.');
    assert(s[e] == 'E');
    assert(s[e + 1] == '+');
    assert(neg ==> s[0] == '-');
    assert(!neg ==> s[0] == a[0]);
    assert forall|i: int| 0 <= i < n && i != d && i != e && i != e + 1 && !(neg && i == 0) implies text::is_ascii_digit(
        #[trigger] s[i],
    ) by {
        if i < d {
            assert(text::is_ascii_digit(a[i - o]));
        } else if i < e {
            assert(text::is_ascii_digit(b[i - d - 1]));
        } else {
            assert(text::is_ascii_digit(c[i - e - 2]));
        }
    }
    lemma_first_pos_at(s, '.', 1, n, d);
    lemma_first_pos_at(s, 'E', 1, n, e);
    lemma_first_pos_at(s, '+', 1, n, e + 1);
    assert forall|k: int| 0 <= k < n implies float_char_ok(s, k) by {
        if k == d {
            lemma_first_pos_none(s, '.', 1, k);
        } else if k == e {
            lemma_first_pos_none(s, 'E', 1, k);
        } else if k == e + 1 {
            lemma_first_pos_none(s, '+', 1, k);
        }
    }
    assert(dot_pos(s) == d);
    assert(e_pos(s) == e);
    assert(plus_pos(s) == e + 1);
    assert(num_start(s) == o);
    assert(s.subrange(o, d) =~= a);
    assert(s.subrange(d + 1, e) =~= b);
    assert(mant_digits(s) =~= a + b);
    assert(frac_len(s) == b.len());
    assert(s.subrange(e + 2, n) =~= c);
    assert(exp_value(s) == text::digits_value(c));
}

proof fn lemma_mul_lt(a: nat, b: nat, c: nat, d: nat)
    requires
        a < b,
        b * c <= d,
        c >= 1,
    ensures
        a * c < d,
{
    assert(a * c < b * c) by (nonlinear_arith)
        requires
            a < b,
            c >= 1;
}

proof fn lemma_mul_ge(a: nat, b: nat, c: nat, d: nat)
    requires
        a >= b,
        b * c >= d,
    ensures
        a * c >= d,
{
    assert(a * c >= b * c) by (nonlinear_arith)
        requires
            a >= b;
}

/// Whether `m * 10^x < F64_OVERFLOW * 10^frac`, where `x` is the value of `exp_digits`.
#[verifier::loop_isolation(false)]
fn below_f64_overflow(mant: &Vec<char>, frac: usize, exp_digits: &[char]) -> (b: bool)
    requires
        text::all_digits(mant@),
        text::all_digits(exp_digits@),
    ensures
        b == (text::digits_value(mant@) * text::pow10(text::digits_value(exp_digits@)) < text::digits_value(F64_OVERFLOW@)
            * text::pow10(frac as nat)),
{
    proof { lemma_f64_overflow_digits(); }
    let ghost tv = text::digits_value(F64_OVERFLOW@);
    let ghost xv = text::digits_value(exp_digits@);
    let ghost rhs = tv * text::pow10(frac as nat);
    proof {
        text::lemma_digits_lower(F64_OVERFLOW@);
        text::lemma_digits_upper(F64_OVERFLOW@);
        text::lemma_pow10_pos(frac as nat);
        text::lemma_pow10_add(308, frac as nat);
        text::lemma_pow10_add(309, frac as nat);
        assert(tv * text::pow10(frac as nat) >= text::pow10(308) * text::pow10(frac as nat)) by (nonlinear_arith)
            requires
                tv >= text::pow10(308);
        assert(tv * text::pow10(frac as nat) < text::pow10(309) * text::pow10(frac as nat)) by (nonlinear_arith)
            requires
                tv < text::pow10(309),
                text::pow10(frac as nat) >= 1;
    }
    // the mantissa without its leading zeros
    let mut z: usize = 0;
    while z < mant.len() && mant[z] == '0'
        invariant
            z <= mant@.len(),
            forall|j: int| 0 <= j < z ==> mant@[j] == '0',
        decreases mant@.len() - z,
    {
        z = z + 1;
    }
    let m = vstd::slice::slice_subrange(mant.as_slice(), z, mant.len());
    proof {
        assert(mant@ =~= text::zeros(z as nat) + m@);
        text::lemma_leading_zeros(z as nat, m@);
        assert(text::all_digits(m@)) by {
            assert forall|j: int| 0 <= j < m@.len() implies text::is_ascii_digit(#[trigger] m@[j]) by {
                assert(m@[j] == mant@[z + j]);
            }
        }
    }
    let ghost mv = text::digits_value(m@);
    let l = m.len();
    if l == 0 {
        proof {
            assert(m@ =~= Seq::<char>::empty());
            assert(mv == 0);
            assert(0 * text::pow10(xv) == 0) by (nonlinear_arith);
        }
        return true;
    }
    proof {
        text::lemma_digits_upper(m@);
        text::lemma_digits_lower(m@);
    }
    // the exponent, up to a bound past which the number is surely too large
    let cap: u128 = frac as u128 + 310;
    let mut x: u128 = 0;
    let mut i: usize = 0;
    while i < exp_digits.len()
        invariant
            i <= exp_digits@.len(),
            x == text::digits_value(exp_digits@.take(i as int)),
            x <= cap,
            cap == frac + 310,
            text::all_digits(exp_digits@),
        decreases exp_digits@.len() - i,
    {
        let c = exp_digits[i];
        assert(exp_digits@.take(i + 1).drop_last() =~= exp_digits@.take(i as int));
        assert(text::is_ascii_digit(exp_digits@[i as int]));
        x = x * 10 + ((c as u32) - ('0' as u32)) as u128;
        i = i + 1;
        assert(exp_digits@.take(i as int).last() == c);
        assert(x == text::digits_value(exp_digits@.take(i as int)));
        if x > cap {
            proof {
                text::lemma_digits_value_prefix(exp_digits@, i as int);
                // the number has at least l + frac + 311 digits, more than the threshold's
                text::lemma_pow10_add((l - 1) as nat, xv);
                text::lemma_pow10_mono((309 + frac) as nat, (l - 1 + xv) as nat);
                lemma_mul_ge(mv, text::pow10((l - 1) as nat), text::pow10(xv), text::pow10((309 + frac) as nat));
            }
            return false;
        }
    }
    assert(exp_digits@.take(i as int) =~= exp_digits@);
    let d1: u128 = l as u128 + x;
    let d2: u128 = 309 + frac as u128;
    if d1 < d2 {
        proof {
            text::lemma_pow10_add(l as nat, xv);
            text::lemma_pow10_mono((l + xv) as nat, (308 + frac) as nat);
            text::lemma_pow10_pos(xv);
            lemma_mul_lt(mv, text::pow10(l as nat), text::pow10(xv), rhs);
        }
        return true;
    }
    if d1 > d2 {
        proof {
            text::lemma_pow10_add((l - 1) as nat, xv);
            text::lemma_pow10_mono((309 + frac) as nat, (l - 1 + xv) as nat);
            lemma_mul_ge(mv, text::pow10((l - 1) as nat), text::pow10(xv), text::pow10((309 + frac) as nat));
        }
        return false;
    }
    // the same number of digits: compare them from the first
    let tdigits = text::chars_of(&text::lit(F64_OVERFLOW));
    let ghost a = m@ + text::zeros(xv);
    let ghost b = F64_OVERFLOW@ + text::zeros(frac as nat);
    proof {
        text::lemma_zeros_value(xv);
        text::lemma_zeros_value(frac as nat);
        text::lemma_digits_append(m@, text::zeros(xv));
        text::lemma_digits_append(F64_OVERFLOW@, text::zeros(frac as nat));
        assert(text::all_digits(a)) by {
            assert forall|j: int| 0 <= j < a.len() implies text::is_ascii_digit(#[trigger] a[j]) by {
                if j < m@.len() {
                    assert(a[j] == m@[j]);
                } else {
                    assert(a[j] == '0');
                }
            }
        }
        assert(text::all_digits(b)) by {
            assert forall|j: int| 0 <= j < b.len() implies text::is_ascii_digit(#[trigger] b[j]) by {
                if j < 309 {
                    assert(b[j] == F64_OVERFLOW@[j]);
                } else {
                    assert(b[j] == '0');
                }
            }
        }
    }
    let mut k: u128 = 0;
    while k < d1
        invariant
            d1 == l + xv,
            d1 == d2,
            d2 == 309 + frac,
            a == m@ + text::zeros(xv),
            b == F64_OVERFLOW@ + text::zeros(frac as nat),
            tdigits@ == F64_OVERFLOW@,
            F64_OVERFLOW@.len() == 309,
            l == m@.len(),
            text::all_digits(a),
            text::all_digits(b),
            text::digits_value(a) == mv * text::pow10(xv),
            text::digits_value(b) == rhs,
            rhs == tv * text::pow10(frac as nat),
            tv == text::digits_value(F64_OVERFLOW@),
            mv == text::digits_value(mant@),
            xv == text::digits_value(exp_digits@),
            k <= d1,
            a.take(k as int) == b.take(k as int),
        decreases d1 - k,
    {
        let ca = if k < l as u128 { m[k as usize] } else { '0' };
        let cb = if k < 309 { tdigits[k as usize] } else { '0' };
        assert(ca == a[k as int]);
        assert(cb == b[k as int]);
        if ca < cb {
            proof { text::lemma_lex_less(a, b, k as int); }
            return true;
        }
        if ca > cb {
            proof { text::lemma_lex_less(b, a, k as int); }
            return false;
        }
        k = k + 1;
        assert(a.take(k as int) =~= b.take(k as int)) by {
            assert(a.take(k - 1) == b.take(k - 1));
            assert forall|j: int| 0 <= j < k implies a.take(k as int)[j] == b.take(k as int)[j] by {
                if j < k - 1 {
                    assert(a.take(k - 1)[j] == b.take(k - 1)[j]);
                }
            }
        }
    }
    assert(a =~= a.take(d1 as int));
    assert(b =~= b.take(d1 as int));
    false
}


/// The digits from `lo` to `hi`, all of them digits by `float_char_ok` and the positions
/// of the special characters.
fn push_digits(out: &mut Vec<char>, chars: &Vec<char>, lo: usize, hi: usize)
    requires
        lo <= hi <= chars@.len(),
    ensures
        final(out)@ == old(out)@ + chars@.subrange(lo as int, hi as int),
{
    let mut k = lo;
    while k < hi
        invariant
            lo <= k <= hi <= chars@.len(),
            out@ == old(out)@ + chars@.subrange(lo as int, k as int),
        decreases hi - k,
    {
        out.push(chars[k]);
        k = k + 1;
        assert(out@ =~= old(out)@ + chars@.subrange(lo as int, k as int));
    }
}

/// Checks if a text is a Float.
pub fn is_float(text: &String) -> (b: bool)
    requires
        text::is_ascii_text(text@),
    ensures
        b == float_text(text@),
{
    let ghost s = text@;
    let char_vec = text::chars_of(text);
    let n = char_vec.len();
    let mut is_valid = true;
    let mut index_decimal_point: usize = 0;
    let mut index_e: usize = 0;
    let mut index_plus: usize = 0;
    let mut i: usize = 0;
    while i < n
        invariant
            n == s.len(),
            char_vec@ == s,
            text::is_ascii_text(s),
            i <= n,
            index_decimal_point == first_pos_in(s, '.', 1, i as int),
            index_e == first_pos_in(s, 'E', 1, i as int),
            index_plus == first_pos_in(s, '+', 1, i as int),
            index_decimal_point < i || index_decimal_point == 0,
            index_e < i || index_e == 0,
            index_plus < i || index_plus == 0,
            is_valid == forall|k: int| 0 <= k < i ==> float_char_ok(s, k),
        decreases n - i,
    {
        let c = char_vec[i];
        let numeric = text::is_numeric(c);
        assert((c as u32) < 128);
        if c == '.' && index_decimal_point == 0 {
            index_decimal_point = i;
        } else if c == 'E' && index_e == 0 {
            index_e = i;
        } else if c == '+' && index_plus == 0 {
            index_plus = i;
        } else if !numeric && !(i == 0 && c == '-') {
            is_valid = false;
        }
        proof {
            assert(float_char_ok(s, i as int) == (
                (c == '.' && index_decimal_point == 0 && first_pos_in(s, '.', 1, i as int) == 0)
                || (c == '.' && first_pos_in(s, '.', 1, i as int) == 0)
                || (c == 'E' && first_pos_in(s, 'E', 1, i as int) == 0)
                || (c == '+' && first_pos_in(s, '+', 1, i as int) == 0)
                || text::is_ascii_digit(c) || (i == 0 && c == '-')));
        }
        i = i + 1;
        proof {
            if i == 1 {
                assert(first_pos_in(s, '.', 1, 1) == 0);
                assert(first_pos_in(s, 'E', 1, 1) == 0);
                assert(first_pos_in(s, '+', 1, 1) == 0);
            }
        }
    }
    let has_one_decimal_point = index_decimal_point != 0;
    let no_power_of_10 = index_e == 0 && index_plus == 0;
    let has_one_power_of_10 = index_e != 0 && index_plus > 0 && index_plus == index_e + 1 && (n > 1 && index_plus < n - 1)
        && index_e > 0;
    if !(is_valid && has_one_decimal_point && (no_power_of_10 || has_one_power_of_10)) {
        return false;
    }
    // what str::parse::<f64> reads of such a text
    if char_vec[0] == 'E' || char_vec[0] == '.' {
        return false;
    }
    let mant_end_i = if index_e > 0 { index_e } else { n };
    if !(index_decimal_point < mant_end_i) {
        return false;
    }
    let start: usize = if char_vec[0] == '-' || char_vec[0] == '+' { 1 } else { 0 };
    let mut mant: Vec<char> = Vec::new();
    push_digits(&mut mant, &char_vec, start, index_decimal_point);
    push_digits(&mut mant, &char_vec, index_decimal_point + 1, mant_end_i);
    assert(mant@ =~= mant_digits(s));
    if mant.len() == 0 {
        return false;
    }
    proof {
        // the mantissa's and the exponent's characters are digits
        assert forall|j: int| 0 <= j < mant@.len() implies text::is_ascii_digit(#[trigger] mant@[j]) by {
            let k = if j < index_decimal_point - start { start + j } else { j - (index_decimal_point - start) + index_decimal_point + 1 };
            assert(mant@[j] == s[k]);
            lemma_float_digit(s, k);
        }
    }
    let frac = mant_end_i - index_decimal_point - 1;
    let exp_lo: usize = if index_e > 0 { index_e + 2 } else { n };
    let exp_digits = vstd::slice::slice_subrange(char_vec.as_slice(), exp_lo, n);
    proof {
        assert forall|j: int| 0 <= j < exp_digits@.len() implies text::is_ascii_digit(#[trigger] exp_digits@[j]) by {
            let k = exp_lo + j;
            assert(exp_digits@[j] == s[k]);
            lemma_float_digit(s, k);
        }
        if index_e == 0 {
            assert(exp_digits@ =~= Seq::<char>::empty());
        }
    }
    below_f64_overflow(&mant, frac, exp_digits)
}

/// Where the first `c` at or after `lo` lies: before it there is none, and at it there is `c`.
proof fn lemma_first_pos_in(s: Seq<char>, c: char, lo: int, hi: int, k: int)
    requires
        lo <= k < hi <= s.len(),
        lo >= 1,
        s[k] == c,
    ensures
        first_pos_in(s, c, lo, hi) != 0,
        first_pos_in(s, c, lo, hi) <= k,
        s[first_pos_in(s, c, lo, hi)] == c,
        forall|j: int| lo <= j < first_pos_in(s, c, lo, hi) ==> s[j] != c,
        first_pos_in(s, c, lo, hi) == first_pos_in(s, c, lo, k + 1),
    decreases hi - lo,
{
    if hi - 1 > k {
        lemma_first_pos_in(s, c, lo, hi - 1, k);
    } else {
        lemma_first_pos_none_or(s, c, lo, k);
    }
}

proof fn lemma_first_pos_none_or(s: Seq<char>, c: char, lo: int, hi: int)
    requires
        1 <= lo,
        hi <= s.len(),
    ensures
        first_pos_in(s, c, lo, hi) == 0 ==> forall|j: int| lo <= j < hi ==> s[j] != c,
        first_pos_in(s, c, lo, hi) != 0 ==> (lo <= first_pos_in(s, c, lo, hi) < hi && s[first_pos_in(s, c, lo, hi)] == c
            && forall|j: int| lo <= j < first_pos_in(s, c, lo, hi) ==> s[j] != c),
    decreases hi - lo,
{
    if hi > lo {
        lemma_first_pos_none_or(s, c, lo, hi - 1);
    }
}


/// A '.', 'E' or '+' with none of its kind before it (after the first character) is the
/// first of its kind.
proof fn lemma_first_is(s: Seq<char>, c: char, k: int)
    requires
        1 <= k < s.len(),
        s[k] == c,
        first_pos_in(s, c, 1, k) == 0,
    ensures
        first_pos_in(s, c, 1, s.len() as int) == k,
{
    lemma_first_pos_in(s, c, 1, s.len() as int, k);
}

/// A character that may stand in a float, but is not at the place of the first '.', 'E' or
/// '+' (nor, for a '-', first), is a digit.
proof fn lemma_float_digit(s: Seq<char>, k: int)
    requires
        0 <= k < s.len(),
        float_char_ok(s, k),
        s[k] == '.' ==> k >= 1 && k != dot_pos(s),
        s[k] == 'E' ==> k >= 1 && k != e_pos(s),
        s[k] == '+' ==> k >= 1 && k != plus_pos(s),
        s[k] == '-' ==> k != 0,
    ensures
        text::is_ascii_digit(s[k]),
{
    if s[k] == '.' {
        lemma_first_is(s, '.', k);
    } else if s[k] == 'E' {
        lemma_first_is(s, 'E', k);
    } else if s[k] == '+' {
        lemma_first_is(s, '+', k);
    }
}


/// What a Float token gives: the Float, or the error for a malformed one.
pub open spec fn float_outcome(s: AstState, tok: Seq<char>, first: bool, last: bool) -> Outcome {
    if tok.len() > 0 && float_text(tok) {
        value_step(s, InfoV::Float(tok), first, last)
    } else {
        Outcome::Failed(s, errors::FLOAT@, 1)
    }
}

/// Parses a Float.
pub fn float(compiler: &mut Compiler, current_token: &String) -> (r: Result<(), ()>)
    requires
        old(compiler).at_token(),
        old(compiler).can_end_in(float_outcome(old(compiler).ast.state(), current_token@, first_in_line(old(compiler)), last_in_line(old(compiler)))),
        text::is_ascii_text(current_token@),
    ensures
        ended(old(compiler), final(compiler), r, float_outcome(old(compiler).ast.state(), current_token@, first_in_line(old(compiler)), last_in_line(old(compiler)))),
{
    if !current_token.as_str().is_empty() && is_float(current_token) {
        append::float(compiler, current_token)
    } else {
        fail(compiler, 1, errors::FLOAT)
    }
}

/// What a comment token gives: the comment, the text of the whole line, or the error for a
/// token that does not start with "//".
pub open spec fn comment_outcome(s: AstState, tok: Seq<char>, line: Seq<crate::Token>) -> Outcome {
    if tok.len() < 2 || tok[1] != '/' {
        Outcome::Failed(s, errors::COMMENT_SINGLE_LINE@, 1)
    } else {
        append::comment_step(s, tokens_text(line))
    }
}

/// Parses a comment, which takes the rest of its line.
pub fn comment_single_line(compiler: &mut Compiler, current_token_vec: &Vec<char>) -> (r: Result<(), ()>)
    requires
        old(compiler).at_token(),
        old(compiler).can_end_in(comment_outcome(old(compiler).ast.state(), current_token_vec@, old(compiler).lines_of_tokens@[old(compiler).current_line as int]@)),
    ensures
        ended(old(compiler), final(compiler), r, comment_outcome(old(compiler).ast.state(), current_token_vec@, old(compiler).lines_of_tokens@[old(compiler).current_line as int]@)),
{
    if current_token_vec.len() < 2 || current_token_vec[1] != '/' {
        return fail(compiler, 1, errors::COMMENT_SINGLE_LINE);
    }
    let val = concatenate_vec_strings(&compiler.lines_of_tokens[compiler.current_line]);
    append::comment_single_line(compiler, val)
}

/// A step that continues from where a first step ended.
proof fn lemma_ended_then(c0: &Compiler, c1: &Compiler, c2: &Compiler, s1: AstState, r: Result<(), ()>, o: Outcome)
    requires
        ended(c0, c1, Ok(()), Outcome::Done(s1)),
        ended(c1, c2, r, o),
    ensures
        ended(c0, c2, r, o),
{
    append::lemma_moved_then_ended(c0, c1, c2, s1, r, o);
}

/// The state after a list is closed: outdented out of it and out of the parents it
/// completes, and the line ended if it is the last token.
pub open spec fn list_closed(s: AstState, last: bool) -> AstState {
    after_seol(after_outdents(outdent_once(s)), last)
}

/// What the end of a list gives: a list whose type is not yet known takes it from a first
/// child that is a list ("Vec<type>"), and is an error when it has no children.
pub open spec fn list_end_outcome(s: AstState, last: bool) -> Outcome {
    let p = parent_of_state(s);
    match s.els[p].0 {
        InfoV::List(rt) => if rt == "Undefined"@ {
            if s.els[p].1.len() == 0 {
                Outcome::Failed(s, errors::LIST@, 1)
            } else {
                match s.els[s.els[p].1[0] as int].0 {
                    InfoV::List(lt) => Outcome::Done(list_closed(AstState {
                        els: s.els.update(p, (InfoV::List("Vec<"@ + lt + ">"@), s.els[p].1)),
                        parents: s.parents,
                    }, last)),
                    _ => Outcome::Done(list_closed(s, last)),
                }
            }
        } else {
            Outcome::Done(list_closed(s, last))
        },
        _ => Outcome::Done(list_closed(s, last)),
    }
}

/// Outdents once, then out of every parent completed, and ends the line if it is the last token.
fn close_list(compiler: &mut Compiler) -> (r: Result<(), ()>)
    requires
        old(compiler).at_token(),
        old(compiler).can_end_in(Outcome::Done(list_closed(old(compiler).ast.state(), last_in_line(old(compiler))))),
    ensures
        ended(old(compiler), final(compiler), r, Outcome::Done(list_closed(old(compiler).ast.state(), last_in_line(old(compiler))))),
{
    let ghost c0 = *compiler;
    outdent::outdent(compiler);
    assert(outdent::outdented_times(c0.ast.parents@, 0) == c0.ast.parents@);
    append::outdent_if_last_expected_child(compiler);
    append::seol_if_last_in_line(compiler)
}

/// Parses the end of a list.
pub fn list_end(compiler: &mut Compiler) -> (r: Result<(), ()>)
    requires
        old(compiler).at_token(),
        old(compiler).can_end_in(list_end_outcome(old(compiler).ast.state(), last_in_line(old(compiler)))),
    ensures
        ended(old(compiler), final(compiler), r, list_end_outcome(old(compiler).ast.state(), last_in_line(old(compiler)))),
{
    let ghost c0 = *compiler;
    let list_parent_ref = parents::get_current_parent_ref_from_parents(&compiler.ast);
    let list_parent = elements::copy_element(&compiler.ast.elements[list_parent_ref]);
    if let ElementInfo::List(returntype) = &list_parent.0 {
        if *returntype == text::lit("Undefined") {
            if list_parent.1.len() == 0 {
                return fail(compiler, 1, errors::LIST);
            } else {
                let first = list_parent.1[0];
                proof { elements::lemma_wf_children(&compiler.ast, list_parent_ref as int, 0); }
                let first_info = elements::copy_info(&compiler.ast.elements[first].0);
                if let ElementInfo::List(list_type) = &first_info {
                    let children = list_parent.1.clone();
                    assert(children@ == compiler.ast.elements@[list_parent_ref as int].1@);
                    proof {
                        assert forall|j: int| 0 <= j < children@.len() implies #[trigger] children@[j] < compiler.ast.elements@.len() by {
                            elements::lemma_wf_children(&compiler.ast, list_parent_ref as int, j);
                        }
                    }
                    let t = text::concat_str(&text::concat(&text::lit("Vec<"), list_type), ">");
                    let ghost c1 = *compiler;
                    append::set_element(compiler, list_parent_ref, (ElementInfo::List(t), children));
                    let ghost c2 = *compiler;
                    let r = close_list(compiler);
                    proof {
                        append::lemma_moved_then_ended(&c1, &c2, compiler, c2.ast.state(), r, Outcome::Done(list_closed(c2.ast.state(), last_in_line(&c2))));
                        assert(c2.ast.els() =~= c0.ast.els().update(list_parent_ref as int, (InfoV::List("Vec<"@ + list_type@ + ">"@), c0.ast.els()[list_parent_ref as int].1)));
                    }
                    return r;
                }
            }
        }
    }
    close_list(compiler)
}

/// What "[]" gives: a list opened and closed at once.
pub open spec fn list_empty_outcome(s: AstState, first: bool, last: bool) -> Outcome {
    match opener_step(s, InfoV::List("Undefined"@), first) {
        Outcome::Done(s1) => list_end_outcome(s1, last),
        o => o,
    }
}

/// Parses an empty list.
pub fn list_empty(compiler: &mut Compiler) -> (r: Result<(), ()>)
    requires
        old(compiler).at_token(),
        old(compiler).can_end_in(list_empty_outcome(old(compiler).ast.state(), first_in_line(old(compiler)), last_in_line(old(compiler)))),
    ensures
        ended(old(compiler), final(compiler), r, list_empty_outcome(old(compiler).ast.state(), first_in_line(old(compiler)), last_in_line(old(compiler)))),
{
    let ghost c0 = *compiler;
    list_start(compiler)?;
    let ghost c1 = *compiler;
    let r = list_end(compiler);
    proof {
        lemma_ended_then(&c0, &c1, compiler, c1.ast.state(), r, list_end_outcome(c1.ast.state(), last_in_line(&c1)));
    }
    r
}

/// What the end of a struct gives: an error for a struct with no keys, otherwise three
/// outdents (out of the struct, its constant and the assignment) and the line ended.
pub open spec fn struct_end_outcome(s: AstState, last: bool) -> Outcome {
    let p = parent_of_state(s);
    if s.els[p].0 is Struct && s.els[p].1.len() == 0 {
        Outcome::Failed(s, errors::A_STRUCT@, 1)
    } else {
        Outcome::Done(after_seol(outdent_once(outdent_once(outdent_once(s))), last))
    }
}

/// Parses the end of a struct.
pub fn struct_end(compiler: &mut Compiler) -> (r: Result<(), ()>)
    requires
        old(compiler).at_token(),
        old(compiler).can_end_in(struct_end_outcome(old(compiler).ast.state(), last_in_line(old(compiler)))),
    ensures
        ended(old(compiler), final(compiler), r, struct_end_outcome(old(compiler).ast.state(), last_in_line(old(compiler)))),
{
    let ghost c0 = *compiler;
    let p = parents::get_current_parent_ref_from_parents(&compiler.ast);
    if let ElementInfo::Struct(_, _, _) = &compiler.ast.elements[p].0 {
        if compiler.ast.elements[p].1.len() == 0 {
            return fail(compiler, 1, errors::A_STRUCT);
        }
    }
    outdent::outdent(compiler);
    let ghost p1 = compiler.ast.parents@;
    outdent::outdent(compiler);
    let ghost p2 = compiler.ast.parents@;
    outdent::outdent(compiler);
    proof {
        assert(outdent::outdented_times(c0.ast.parents@, 0) == c0.ast.parents@);
        assert(outdent::outdented_times(p1, 0) == p1);
        assert(outdent::outdented_times(p2, 0) == p2);
    }
    append::seol_if_last_in_line(compiler)
}

/// The index of the last LoopForRangeWIP, if any.
#[verifier::opaque]
pub open spec fn last_loopwip(els: Seq<(InfoV, Seq<usize>)>) -> Option<int> {
    if exists|k: int| 0 <= k < els.len() && (#[trigger] els[k]).0 is LoopForRangeWIP {
        Some(
            choose|k: int|
                0 <= k < els.len() && (#[trigger] els[k]).0 is LoopForRangeWIP && forall|j: int|
                    k < j < els.len() ==> !(els[j].0 is LoopForRangeWIP),
        )
    } else {
        None
    }
}

proof fn lemma_last_loopwip(els: Seq<(InfoV, Seq<usize>)>, k: int)
    requires
        0 <= k < els.len(),
        els[k].0 is LoopForRangeWIP,
        forall|j: int| k < j < els.len() ==> !(els[j].0 is LoopForRangeWIP),
    ensures
        last_loopwip(els) == Some(k),
{
    reveal(last_loopwip);
    let j = choose|j: int|
        0 <= j < els.len() && (#[trigger] els[j]).0 is LoopForRangeWIP && forall|i: int|
            j < i < els.len() ==> !(els[i].0 is LoopForRangeWIP);
    assert(0 <= j < els.len() && els[j].0 is LoopForRangeWIP && forall|i: int|
        j < i < els.len() ==> !(els[i].0 is LoopForRangeWIP));
}

/// Below `m`, a LoopForRangeWIP, if there is one, has a last one.
proof fn lemma_some_last_loopwip(els: Seq<(InfoV, Seq<usize>)>, m: int) -> (k: int)
    requires
        0 <= m <= els.len(),
        exists|k: int| 0 <= k < m && (#[trigger] els[k]).0 is LoopForRangeWIP,
    ensures
        0 <= k < m,
        els[k].0 is LoopForRangeWIP,
        forall|j: int| k < j < m ==> !(els[j].0 is LoopForRangeWIP),
    decreases m,
{
    if els[m - 1].0 is LoopForRangeWIP {
        m - 1
    } else {
        let w = choose|k: int| 0 <= k < m && (#[trigger] els[k]).0 is LoopForRangeWIP;
        assert(0 <= w < m - 1 && els[w].0 is LoopForRangeWIP);
        lemma_some_last_loopwip(els, m - 1)
    }
}

/// The last LoopForRangeWIP is one, with none after it; there is none when none is found.
proof fn lemma_last_loopwip_found(els: Seq<(InfoV, Seq<usize>)>)
    ensures
        match last_loopwip(els) {
            Some(k) => 0 <= k < els.len() && els[k].0 is LoopForRangeWIP && forall|j: int|
                k < j < els.len() ==> !(#[trigger] els[j].0 is LoopForRangeWIP),
            None => forall|k: int| 0 <= k < els.len() ==> !(#[trigger] els[k].0 is LoopForRangeWIP),
        },
{
    reveal(last_loopwip);
    if exists|k: int| 0 <= k < els.len() && (#[trigger] els[k]).0 is LoopForRangeWIP {
        let k = lemma_some_last_loopwip(els, els.len() as int);
        lemma_last_loopwip(els, k);
    }
}

/// The end of a loop (`loop_end`) rewrites the last loop being read and nothing else: it becomes a loop
/// over a range and keeps its children after the first three, and the parents stay. Without
/// a loop being read it fails with the error for an end without a start; when the last one
/// has fewer than three children, with the error for a malformed loop; a failure leaves the
/// AST as it was.
pub proof fn loop_end_rewrites_only_its_loop(s: AstState)
    requires
        s.els.len() >= 1,
        !(s.els[0].0 is LoopForRangeWIP),
    ensures
        (forall|k: int| 0 <= k < s.els.len() ==> !(#[trigger] s.els[k].0 is LoopForRangeWIP))
            ==> loop_end_outcome(s) == Outcome::Failed(s, errors::LOOPFOR_END_BUT_NO_START@, 1),
        forall|w: int|
            0 <= w < s.els.len() && (#[trigger] s.els[w]).0 is LoopForRangeWIP && s.els[w].1.len() < 3 && (forall|j: int|
                w < j < s.els.len() ==> !(#[trigger] s.els[j].0 is LoopForRangeWIP))
                ==> loop_end_outcome(s) == Outcome::Failed(s, errors::LOOPFOR_MALFORMED@, 1),
        match loop_end_outcome(s) {
            Outcome::Failed(t, m, len) => t == s && len == 1 && (m == errors::LOOPFOR_END_BUT_NO_START@ || m
                == errors::LOOPFOR_MALFORMED@),
            Outcome::Done(t) => t.parents == s.parents && exists|w: int|
                0 < w < s.els.len() && (#[trigger] s.els[w]).0 is LoopForRangeWIP && s.els[w].1.len() >= 3
                    && t.els[w].0 is LoopForRange && t.els == s.els.update(w, (t.els[w].0, s.els[w].1.skip(3))),
        },
{
    lemma_last_loopwip_found(s.els);
    assert forall|w: int|
        0 <= w < s.els.len() && (#[trigger] s.els[w]).0 is LoopForRangeWIP && s.els[w].1.len() < 3 && (forall|j: int|
            w < j < s.els.len() ==> !(#[trigger] s.els[j].0 is LoopForRangeWIP))
            implies loop_end_outcome(s) == Outcome::Failed(s, errors::LOOPFOR_MALFORMED@, 1) by {
        lemma_last_loopwip(s.els, w);
    }
    match last_loopwip(s.els) {
        Some(n) => {
            if n > 0 && s.els[n].1.len() >= 3 {
                match loop_end_outcome(s) {
                    Outcome::Done(t) => {
                        assert(t.els[n].0 is LoopForRange);
                        assert(t.els == s.els.update(n, (t.els[n].0, s.els[n].1.skip(3))));
                    },
                    _ => {},
                }
            }
        },
        None => {},
    }
}

/// What the end of a loop gives: the last LoopForRangeWIP, whose first children are a
/// Constant holding an Int (the variable and where the range starts), then an Int (where it
/// ends), becomes a LoopForRange with the rest of its children; otherwise an error, also when
/// either Int does not read as a `usize`.
pub open spec fn loop_end_outcome(s: AstState) -> Outcome {
    let malformed = Outcome::Failed(s, errors::LOOPFOR_MALFORMED@, 1);
    match last_loopwip(s.els) {
        Some(n) => if n == 0 {
            Outcome::Failed(s, errors::LOOPFOR_END_BUT_NO_START@, 1)
        } else {
            let w = s.els[n];
            if w.1.len() < 3 {
                malformed
            } else {
                let f = s.els[w.1[0] as int];
                match f.0 {
                    InfoV::Constant(name, _) => match s.els[w.1[1] as int].0 {
                        InfoV::Int(to) => if f.1.len() == 1 {
                            match s.els[f.1[0] as int].0 {
                                InfoV::Int(from) => if text::parses_usize(from) && text::parses_usize(to) {
                                    Outcome::Done(AstState {
                                        els: s.els.update(n, (InfoV::LoopForRange(name, text::usize_value(from), text::usize_value(to)), w.1.skip(3))),
                                        parents: s.parents,
                                    })
                                } else {
                                    malformed
                                },
                                _ => malformed,
                            }
                        } else {
                            malformed
                        },
                        _ => malformed,
                    },
                    _ => malformed,
                }
            }
        },
        None => Outcome::Failed(s, errors::LOOPFOR_END_BUT_NO_START@, 1),
    }
}

/// Parses the end of a loop for range.
pub fn loop_end(compiler: &mut Compiler) -> (r: Result<(), ()>)
    requires
        old(compiler).at_token(),
        old(compiler).can_end_in(loop_end_outcome(old(compiler).ast.state())),
    ensures
        ended(old(compiler), final(compiler), r, loop_end_outcome(old(compiler).ast.state())),
{
    let ghost c0 = *compiler;
    let n = compiler.ast.elements.len();
    let mut loopforrangewip_ref: usize = 0;
    let mut i: usize = n;
    let mut found = false;
    while i > 0
        invariant_except_break
            !found,
            loopforrangewip_ref == 0,
            forall|j: int| i <= j < n ==> !((#[trigger] compiler.ast.els()[j]).0 is LoopForRangeWIP),
        invariant
            i <= n,
            n == compiler.ast.elements@.len(),
            *compiler == c0,
        ensures
            found ==> loopforrangewip_ref < n && last_loopwip(compiler.ast.els()) == Some(loopforrangewip_ref as int),
            !found ==> loopforrangewip_ref == 0 && forall|j: int| 0 <= j < n ==> !((#[trigger] compiler.ast.els()[j]).0 is LoopForRangeWIP),
        decreases i,
    {
        i = i - 1;
        if let ElementInfo::LoopForRangeWIP = &compiler.ast.elements[i].0 {
            proof { lemma_last_loopwip(compiler.ast.els(), i as int); }
            loopforrangewip_ref = i;
            found = true;
            break;
        }
    }
    proof {
        if !found {
            reveal(last_loopwip);
        }
    }
    if loopforrangewip_ref == 0 {
        return fail(compiler, 1, errors::LOOPFOR_END_BUT_NO_START);
    }
    let wip = elements::copy_element(&compiler.ast.elements[loopforrangewip_ref]);
    if wip.1.len() < 3 {
        return fail(compiler, 1, errors::LOOPFOR_MALFORMED);
    }
    proof {
        elements::lemma_wf_children(&compiler.ast, loopforrangewip_ref as int, 0);
        elements::lemma_wf_children(&compiler.ast, loopforrangewip_ref as int, 1);
    }
    let first_child = elements::copy_element(&compiler.ast.elements[wip.1[0]]);
    let second_info = elements::copy_info(&compiler.ast.elements[wip.1[1]].0);
    if let ElementInfo::Constant(name, _) = &first_child.0 {
        if let ElementInfo::Int(to) = &second_info {
            if first_child.1.len() == 1 {
                proof { elements::lemma_wf_children(&compiler.ast, wip.1@[0] as int, 0); }
                if let ElementInfo::Int(from) = &compiler.ast.elements[first_child.1[0]].0 {
                    let from_v = text::parse_usize(from);
                    let to_v = text::parse_usize(to);
                    if let (Some(f), Some(t)) = (from_v, to_v) {
                        let mut rest = parents::vec_remove_head(&wip.1);
                        rest = parents::vec_remove_head(&rest);
                        rest = parents::vec_remove_head(&rest);
                        assert(rest@ =~= wip.1@.skip(3));
                        proof {
                            assert forall|j: int| 0 <= j < rest@.len() implies #[trigger] rest@[j] < compiler.ast.elements@.len() by {
                                elements::lemma_wf_children(&compiler.ast, loopforrangewip_ref as int, j + 3);
                            }
                        }
                        append::set_element(compiler, loopforrangewip_ref, (ElementInfo::LoopForRange(name.clone(), f, t), rest));
                        return Ok(());
                    }
                }
            }
        }
    }
    fail(compiler, 1, errors::LOOPFOR_MALFORMED)
}


/// The elements with the children among the first `i` of `ch` that are Lists turned into
/// Types of the same name.
pub open spec fn lists_typed(els: Seq<(InfoV, Seq<usize>)>, ch: Seq<usize>, i: nat) -> Seq<(InfoV, Seq<usize>)>
    decreases i,
{
    if i == 0 || i > ch.len() {
        els
    } else {
        let e = lists_typed(els, ch, (i - 1) as nat);
        let c = ch[i - 1] as int;
        match e[c].0 {
            InfoV::List(lt) => e.update(c, (InfoV::Type(lt), e[c].1)),
            _ => e,
        }
    }
}

/// The function definition made at `fd` when it was a FunctionDefWIP below a Constant below
/// an Assignment: the FunctionDef takes the constant's name, the Assignment and the Constant
/// become Unused, the Assignment's parent takes the function in its place, and the parser
/// indents into the function (after outdenting out of the three).
pub open spec fn fndef_made(s: AstState, ch: Seq<usize>, fd: int, fd_info: InfoV) -> AstState {
    match fd_info {
        InfoV::FunctionDefWIP => match parents::parent_of(s.els, fd as usize) {
            Some(cr) => match parents::parent_of(s.els, cr as usize) {
                Some(ar) => match s.els[cr].0 {
                    InfoV::Constant(name, _) => {
                        let els1 = elements::funcdef_replaced(s.els, ch, name, fd);
                        let els2 = els1.update(ar, (InfoV::Unused, Seq::empty())).update(cr, (InfoV::Unused, Seq::empty()));
                        let els3 = match parents::parent_of(els2, ar as usize) {
                            Some(x) => els2.update(x, (els2[x].0, elements::replaced_children(els2[x].1, ar as usize, fd as usize))),
                            None => els2,
                        };
                        AstState {
                            els: els3,
                            parents: outdent::outdented(outdent::outdented(outdent::outdented(s.parents))).push(fd as usize),
                        }
                    },
                    _ => s,
                },
                None => s,
            },
            None => s,
        },
        _ => s,
    }
}

/// What the end of a function definition's signature gives: errors for an even number of
/// children or for children that do not start with a type; otherwise Lists among the
/// children become Types, the FunctionDef is made, and the parser outdents out of the
/// parents completed.
pub open spec fn fndef_end_outcome(s: AstState) -> Outcome {
    let fd = parent_of_state(s);
    let ch = s.els[fd].1;
    if ch.len() % 2 == 0 || ch.len() == 0 {
        Outcome::Failed(s, errors::FUNCDEF_ARGS@, 1)
    } else if !(s.els[ch[0] as int].0 is Type || s.els[ch[0] as int].0 is Parens || s.els[ch[0] as int].0 is List) {
        Outcome::Failed(s, errors::FUNCDEF_ARGTYPES_FIRST@, 1)
    } else {
        let s1 = AstState { els: lists_typed(s.els, ch, ch.len()), parents: s.parents };
        Outcome::Done(after_outdents(fndef_made(s1, ch, fd, s.els[fd].0)))
    }
}

/// Makes the FunctionDef, when the placeholder is below a Constant below an Assignment.
fn make_fndef(compiler: &mut Compiler, children: &Vec<usize>, func_def_ref: usize, fd_info: &ElementInfo)
    requires
        old(compiler).at_token(),
        children@.len() > 0,
        elements::refs_in(children@, old(compiler).ast.elements@.len()),
        func_def_ref < old(compiler).ast.elements@.len(),
    ensures
        moved_to(old(compiler), final(compiler), fndef_made(old(compiler).ast.state(), children@, func_def_ref as int, fd_info@)),
{
    let ghost c0 = *compiler;
    if let ElementInfo::FunctionDefWIP = fd_info {
        if let Some(constant_ref) = parents::get_current_parent_ref_from_element_children_search(&compiler.ast, func_def_ref) {
            let constant = elements::copy_element(&compiler.ast.elements[constant_ref]);
            if let Some(assignment_ref) = parents::get_current_parent_ref_from_element_children_search(&compiler.ast, constant_ref) {
                if let ElementInfo::Constant(name, _) = &constant.0 {
                    elements::replace_funcdefwip_with_funcdef(compiler, children.as_slice(), name, func_def_ref);
                    let ghost els1 = compiler.ast.els();
                    append::set_element(compiler, assignment_ref, (ElementInfo::Unused, Vec::new()));
                    append::set_element(compiler, constant_ref, (ElementInfo::Unused, Vec::new()));
                    let ghost els2 = compiler.ast.els();
                    assert(els2 =~= els1.update(assignment_ref as int, (InfoV::Unused, Seq::empty())).update(constant_ref as int, (InfoV::Unused, Seq::empty())));
                    if let Some(index) = parents::get_current_parent_ref_from_element_children_search(&compiler.ast, assignment_ref) {
                        let ghost before = compiler.ast.elements@;
                        elements::replace_element_child(&mut compiler.ast, index, assignment_ref, func_def_ref);
                        proof {
                            let expected = els2.update(index as int, (els2[index as int].0, elements::replaced_children(els2[index as int].1, assignment_ref, func_def_ref)));
                            assert forall|i: int| 0 <= i < compiler.ast.elements@.len() implies compiler.ast.els()[i] == expected[i] by {
                                if i != index {
                                    assert(compiler.ast.elements@[i] == before[i]);
                                }
                            }
                            assert(compiler.ast.els() =~= expected);
                        }
                    }
                    let ghost q0 = compiler.ast.parents@;
                    outdent::outdent(compiler);
                    let ghost q1 = compiler.ast.parents@;
                    outdent::outdent(compiler);
                    let ghost q2 = compiler.ast.parents@;
                    outdent::outdent(compiler);
                    proof {
                        assert(outdent::outdented_times(q0, 0) == q0);
                        assert(outdent::outdented_times(q1, 0) == q1);
                        assert(outdent::outdented_times(q2, 0) == q2);
                    }
                    parents::indent::indent_this(&mut compiler.ast, func_def_ref);
                }
            }
        }
    }
}

/// Parses the end of a function definition's signature ("=>").
pub fn function_definition_end(compiler: &mut Compiler) -> (r: Result<(), ()>)
    requires
        old(compiler).at_token(),
        old(compiler).can_end_in(fndef_end_outcome(old(compiler).ast.state())),
    ensures
        ended(old(compiler), final(compiler), r, fndef_end_outcome(old(compiler).ast.state())),
{
    let ghost c0 = *compiler;
    let func_def_ref = parents::get_current_parent_ref_from_parents(&compiler.ast);
    let func_def = elements::copy_element(&compiler.ast.elements[func_def_ref]);
    let children = func_def.1.clone();
    assert(children@ == c0.ast.els()[func_def_ref as int].1);
    if children.len() % 2 == 0 || children.len() == 0 {
        return fail(compiler, 1, errors::FUNCDEF_ARGS);
    }
    proof {
        assert forall|j: int| 0 <= j < children@.len() implies #[trigger] children@[j] < compiler.ast.elements@.len() by {
            elements::lemma_wf_children(&compiler.ast, func_def_ref as int, j);
        }
    }
    let first_child_ref = children[0];
    match &compiler.ast.elements[first_child_ref].0 {
        ElementInfo::Type(_) => {},
        ElementInfo::Parens => {},
        ElementInfo::List(_) => {},
        _ => {
            return fail(compiler, 1, errors::FUNCDEF_ARGTYPES_FIRST);
        },
    }
    // now change any top level List items into Types
    let mut i: usize = 0;
    while i < children.len()
        invariant
            i <= children@.len(),
            children@ == c0.ast.els()[func_def_ref as int].1,
            func_def_ref < c0.ast.elements@.len(),
            compiler.ast.elements@.len() == c0.ast.elements@.len(),
            elements::refs_in(children@, compiler.ast.elements@.len()),
            moved_to(&c0, compiler, AstState { els: lists_typed(c0.ast.els(), children@, i as nat), parents: c0.ast.parents@ }),
        decreases children@.len() - i,
    {
        let child_ref = children[i];
        let info = elements::copy_info(&compiler.ast.elements[child_ref].0);
        if let ElementInfo::List(list_type) = info {
            let grandchildren = compiler.ast.elements[child_ref].1.clone();
            assert(grandchildren@ == compiler.ast.elements@[child_ref as int].1@);
            proof {
                assert forall|j: int| 0 <= j < grandchildren@.len() implies #[trigger] grandchildren@[j] < compiler.ast.elements@.len() by {
                    elements::lemma_wf_children(&compiler.ast, child_ref as int, j);
                }
            }
            append::set_element(compiler, child_ref, (ElementInfo::Type(list_type), grandchildren));
        }
        i = i + 1;
    }
    let ghost c1 = *compiler;
    make_fndef(compiler, &children, func_def_ref, &func_def.0);
    append::outdent_if_last_expected_child(compiler);
    Ok(())
}


/// The token can be parsed without a fault: its first character and text are there, and
/// where it is a number or a string, it is ASCII.
pub open spec fn first_chars_safe(tok: Seq<char>, vec: Seq<char>) -> bool {
    &&& vec.len() > 0
    &&& (text::is_ascii_digit(vec[0]) || (vec[0] == '-' && vec.len() > 1)) ==> tok.len() > 0 && text::is_ascii_text(tok)
    &&& vec[0] == '"' ==> (tok.len() > 0 && tok[0] == '"' ==> text::is_ascii_text(tok))
}

/// What a token gives by its first characters (`vec`), when it names no inbuilt function
/// or type: a struct, list, function definition, parentheses, comment, Println, If,
/// assignment, loop, String, Float, Int or name, or an error.
pub open spec fn by_first_chars_outcome(s: AstState, tok: Seq<char>, vec: Seq<char>, line: Seq<crate::Token>, first: bool, last: bool) -> Outcome {
    let c = vec[0];
    let has_second = vec.len() > 1;
    let number = if float_text(tok) { float_outcome(s, tok, first, last) } else { int_outcome(s, tok, first, last) };
    if c == '{' {
        if has_second { Outcome::Failed(s, errors::A_STRUCT@, 1) } else { append::struct_start_step(s, first) }
    } else if c == '}' {
        struct_end_outcome(s, last)
    } else if c == '[' {
        if has_second {
            if vec[1] == ']' { list_empty_outcome(s, first, last) } else { Outcome::Failed(s, errors::LIST@, 1) }
        } else {
            opener_step(s, InfoV::List("Undefined"@), first)
        }
    } else if c == ']' {
        list_end_outcome(s, last)
    } else if c == '\\' {
        opener_seol_step(s, InfoV::FunctionDefWIP, first, last)
    } else if c == '(' {
        opener_seol_step(s, InfoV::Parens, first, last)
    } else if c == ')' {
        Outcome::Done(after_seol(after_outdents(outdent_once(s)), last))
    } else if c == '/' {
        comment_outcome(s, vec, line)
    } else if c == '#' {
        Outcome::Failed(s, errors::RUSTCODE@, 1)
    } else if c == '@' {
        statement_step(s, InfoV::Println, last)
    } else if c == '?' {
        statement_step(s, InfoV::If("Undefined"@), last)
    } else if c == '=' {
        if has_second {
            if vec[1] == '>' { fndef_end_outcome(s) } else { Outcome::Failed(s, errors::ASSIGN@, 1) }
        } else {
            append::assignment_step(s, first, last)
        }
    } else if c == '.' {
        if has_second {
            if vec[1] == '.' { opener_seol_step(s, InfoV::LoopForRangeWIP, first, last) } else { Outcome::Failed(s, errors::LOOP_FOR@, 1) }
        } else {
            loop_end_outcome(s)
        }
    } else if c == '"' {
        string_outcome(s, tok, first, last)
    } else if text::is_ascii_digit(c) {
        number
    } else if c == '-' {
        if has_second { number } else { Outcome::Failed(s, errors::INT_NEGATIVE@, 1) }
    } else if ('a' <= c && c <= 'z') || c == '_' {
        if text::split_on(tok, '.').len() > 1 {
            Outcome::Failed(s, errors::STRUCT_EDIT@, 1)
        } else {
            constant_outcome(s, tok, first, last)
        }
    } else {
        Outcome::Failed(s, errors::UNKNOWN@, 1)
    }
}

/// A name is a token that starts with a small letter or '_' and holds no '.': it is parsed
/// as a name (see `constant`) whichever of these it starts with.
pub proof fn names_start_with_a_small_letter_or_underscore(
    s: AstState,
    tok: Seq<char>,
    line: Seq<crate::Token>,
    first: bool,
    last: bool,
)
    requires
        tok.len() > 0,
        ('a' <= tok[0] && tok[0] <= 'z') || tok[0] == '_',
        forall|i: int| 0 <= i < tok.len() ==> tok[i] != '.',
    ensures
        by_first_chars_outcome(s, tok, tok, line, first, last) == constant_outcome(s, tok, first, last),
{
    text::lemma_split_on_absent(tok, '.');
}

/// A token that starts with a capital letter (and names no inbuilt function or type) is
/// refused as unknown: names start with a small letter or '_'.
pub proof fn capitalised_tokens_are_unknown(s: AstState, tok: Seq<char>, line: Seq<crate::Token>, first: bool, last: bool)
    requires
        tok.len() > 0,
        'A' <= tok[0] && tok[0] <= 'Z',
    ensures
        by_first_chars_outcome(s, tok, tok, line, first, last) == Outcome::Failed(s, errors::UNKNOWN@, 1),
{
}

/// A one-character text is an Int exactly when the character is a digit.
proof fn lemma_int_text_char(c: char)
    ensures
        int_text(seq![c]) == text::is_ascii_digit(c),
{
    let s = seq![c];
    if c != '-' {
        assert(s.drop_last() =~= Seq::<char>::empty());
        assert(text::digits_value(s.drop_last()) == 0);
        assert(s.last() == c);
        if text::is_ascii_digit(c) {
            assert(text::digits_value(s) == text::digits_value(s.drop_last()) * 10 + text::digit_value(s.last()));
            assert(text::digits_value(s) == text::digit_value(c));
        }
    } else {
        assert(s.skip(1) =~= Seq::<char>::empty());
    }
}

/// Parses a token by its first characters, when it is not the name of an inbuilt function
/// or type. Rust code lines ("##") and struct edits ("name.key") are refused with an error.
pub fn token_by_first_chars(compiler: &mut Compiler, current_token: &String, current_token_vec: &Vec<char>) -> (r: Result<(), ()>)
    requires
        old(compiler).at_token(),
        old(compiler).can_end_in(by_first_chars_outcome(old(compiler).ast.state(), current_token@, current_token_vec@, old(compiler).lines_of_tokens@[old(compiler).current_line as int]@, first_in_line(old(compiler)), last_in_line(old(compiler)))),
        first_chars_safe(current_token@, current_token_vec@),
    ensures
        ended(old(compiler), final(compiler), r, by_first_chars_outcome(old(compiler).ast.state(), current_token@, current_token_vec@, old(compiler).lines_of_tokens@[old(compiler).current_line as int]@, first_in_line(old(compiler)), last_in_line(old(compiler)))),
{
    let first_char = current_token_vec[0];
    let has_second = current_token_vec.len() > 1;
    if first_char == '{' {
        if has_second { fail(compiler, 1, errors::A_STRUCT) } else { struct_start(compiler) }
    } else if first_char == '}' {
        struct_end(compiler)
    } else if first_char == '[' {
        if has_second {
            if current_token_vec[1] == ']' { list_empty(compiler) } else { fail(compiler, 1, errors::LIST) }
        } else {
            list_start(compiler)
        }
    } else if first_char == ']' {
        list_end(compiler)
    } else if first_char == '\\' {
        function_definition_start(compiler)
    } else if first_char == '(' {
        functiontypesig_or_functionreference_start(compiler)
    } else if first_char == ')' {
        functiontypesig_or_functionreference_end(compiler)
    } else if first_char == '/' {
        comment_single_line(compiler, current_token_vec)
    } else if first_char == '#' {
        rustcode(compiler, current_token_vec)
    } else if first_char == '@' {
        println(compiler)
    } else if first_char == '?' {
        if_expression(compiler)
    } else if first_char == '=' {
        if has_second {
            if current_token_vec[1] == '>' { function_definition_end(compiler) } else { fail(compiler, 1, errors::ASSIGN) }
        } else {
            assignment(compiler)
        }
    } else if first_char == '.' {
        if has_second {
            if current_token_vec[1] == '.' { loop_for_range_start(compiler) } else { fail(compiler, 1, errors::LOOP_FOR) }
        } else {
            loop_end(compiler)
        }
    } else if first_char == '"' {
        string(compiler, current_token)
    } else {
        let mut first_char_string = String::new();
        text::push_char(&mut first_char_string, first_char);
        proof { lemma_int_text_char(first_char); }
        assert(first_char_string@ =~= seq![first_char]);
        if is_integer(&first_char_string) || (first_char == '-' && has_second) {
            if is_float(current_token) {
                float(compiler, current_token)
            } else {
                int_literal(compiler, current_token)
            }
        } else if first_char == '-' {
            fail(compiler, 1, errors::INT_NEGATIVE)
        } else if ('a' <= first_char && first_char <= 'z') || first_char == '_' {
            let token_split = text::split_char(current_token, '.');
            if token_split.len() > 1 {
                struct_edit(compiler, current_token)
            } else {
                constant(compiler, current_token)
            }
        } else {
            fail(compiler, 1, errors::UNKNOWN)
        }
    }
}

/// The token can be parsed without a fault (see `first_chars_safe`).
pub open spec fn token_safe(tok: Seq<char>) -> bool {
    tok.len() == 0 || first_chars_safe(tok, tok)
}

/// What a token gives: a call of the inbuilt function or function it names, a type, or what
/// its first characters make of it; nothing for an empty token.
#[verifier::opaque]
pub open spec fn token_outcome(s: AstState, tok: Seq<char>, line: Seq<crate::Token>, first: bool, last: bool) -> Outcome {
    let by_chars = by_first_chars_outcome(s, tok, tok, line, first, last);
    if tok.len() == 0 {
        Outcome::Done(s)
    } else {
        match elements::find(s.els, elements::Lookup::InbuiltFunction, tok) {
            Some(i) => match s.els[i].0 {
                InfoV::InbuiltFunctionDef(_, _, _, _, _, _) => append::inbuilt_call_step(s, tok, i, first, last),
                InfoV::FunctionDef(_, _, _, _) => append::function_call1_step(s, tok, i, first, last),
                InfoV::Arg(_, _, _, rt) => if seq_contains(rt, "&dyn Fn"@) {
                    append::function_call1_step(s, tok, i, first, last)
                } else {
                    by_chars
                },
                _ => by_chars,
            },
            None => match elements::find(s.els, elements::Lookup::Type, tok) {
                Some(i) => Outcome::Done(append::types_state(s, i, first)),
                None => by_chars,
            },
        }
    }
}

/// Parses the current token of `tokens`: a call of an inbuilt function or function, a
/// type, or something else by its first characters.
pub fn current_token(compiler: &mut Compiler, tokens: &Tokens) -> (r: Result<(), ()>)
    requires
        old(compiler).at_token(),
        old(compiler).can_end_in(token_outcome(old(compiler).ast.state(), tokens@[old(compiler).current_line_token as int].0@, old(compiler).lines_of_tokens@[old(compiler).current_line as int]@, first_in_line(old(compiler)), last_in_line(old(compiler)))),
        old(compiler).current_line_token < tokens@.len(),
        token_safe(tokens@[old(compiler).current_line_token as int].0@),
    ensures
        ended(old(compiler), final(compiler), r, token_outcome(old(compiler).ast.state(), tokens@[old(compiler).current_line_token as int].0@, old(compiler).lines_of_tokens@[old(compiler).current_line as int]@, first_in_line(old(compiler)), last_in_line(old(compiler)))),
{
    let ghost c0 = *compiler;
    proof { reveal(token_outcome); }
    let current_token = &tokens[compiler.current_line_token].0;
    let current_token_vec = text::chars_of(current_token);
    if current_token_vec.len() == 0 {
        return Ok(());
    }
    match elements::get_inbuilt_function_index_by_name(&compiler.ast, current_token) {
        Some(index_of_function) => {
            match &compiler.ast.elements[index_of_function].0 {
                ElementInfo::InbuiltFunctionDef(_, _, _, _, _, _) => inbuilt_function_call(compiler, current_token, index_of_function),
                ElementInfo::FunctionDef(_, _, _, _) => function_call(compiler, current_token, index_of_function),
                ElementInfo::Arg(_, _, _, returntype) => {
                    if text::contains(returntype, "&dyn Fn") {
                        function_call(compiler, current_token, index_of_function)
                    } else {
                        token_by_first_chars(compiler, current_token, &current_token_vec)
                    }
                },
                _ => token_by_first_chars(compiler, current_token, &current_token_vec),
            }
        },
        None => match elements::get_inbuilt_type_index_by_name(&compiler.ast, current_token) {
            Some(index_of_type) => append::types(compiler, index_of_type),
            None => token_by_first_chars(compiler, current_token, &current_token_vec),
        },
    }
}


/// What parsing the tokens of a line from the `k`th on gives: the state at the end, and the
/// first error, if any, with its token's index, its message and the length of its arrow.
pub open spec fn line_run(s: AstState, line: Seq<crate::Token>, k: nat) -> (AstState, Option<(nat, Seq<char>, usize)>)
    decreases line.len() - k,
{
    if k >= line.len() {
        (s, None)
    } else {
        match token_outcome(s, line[k as int].0@, line, k == 0, k == line.len() - 1) {
            Outcome::Done(s2) => line_run(s2, line, k + 1),
            Outcome::Failed(s2, m, len) => (s2, Some((k, m, len))),
        }
    }
}

/// The compiler `c` at token `k` of its current line.
pub open spec fn at_token_k(c: &Compiler, k: nat) -> Compiler {
    Compiler { current_line_token: k as usize, ..*c }
}

/// Every token of the line can be parsed without a fault.
pub open spec fn line_safe(line: Seq<crate::Token>) -> bool {
    forall|k: int| 0 <= k < line.len() ==> token_safe(#[trigger] line[k].0@)
}

/// `new` is `old` after parsing its current line from its current token on: the AST is in
/// the state that `line_run` gives, and on an error, the error is recorded at its token.
pub open spec fn line_parsed(old: &Compiler, new: &Compiler, r: Result<(), ()>) -> bool {
    let line = old.lines_of_tokens@[old.current_line as int]@;
    let (s_end, err) = line_run(old.ast.state(), line, old.current_line_token as nat);
    &&& new.wf()
    &&& new.same_input(old)
    &&& new.current_line == old.current_line
    &&& new.ast.same_but_tree(&old.ast)
    &&& new.ast.els() == s_end.els
    &&& new.ast.parents@ == s_end.parents
    &&& match err {
        None => r is Ok && new.error_stack == old.error_stack && new.current_line_token as int == (
        if old.current_line_token < line.len() { line.len() as int } else { old.current_line_token as int }),
        Some((k, m, len)) => r is Err && new.current_line_token == k && append::error_added(&at_token_k(old, k), new, m, len),
    }
}

/// A copy of a line of tokens.
fn copy_tokens(v: &Tokens) -> (r: Tokens)
    ensures
        r@ == v@,
{
    let mut r: Tokens = Vec::new();
    let mut i: usize = 0;
    while i < v.len()
        invariant
            i <= v@.len(),
            r@ == v@.take(i as int),
        decreases v@.len() - i,
    {
        r.push(errors::copy_token(&v[i]));
        i = i + 1;
        assert(r@ =~= v@.take(i as int));
    }
    assert(v@.take(i as int) =~= v@);
    r
}

/// Parses the tokens of the current line, from the current token on, until the end of the
/// line or the first error.
pub fn current_line(compiler: &mut Compiler) -> (r: Result<(), ()>)
    requires
        old(compiler).wf(),
        old(compiler).current_line < old(compiler).lines_of_tokens@.len(),
        line_safe(old(compiler).lines_of_tokens@[old(compiler).current_line as int]@),
        old(compiler).has_chars_line() || line_run(
            old(compiler).ast.state(),
            old(compiler).lines_of_tokens@[old(compiler).current_line as int]@,
            old(compiler).current_line_token as nat,
        ).1 is None,
    ensures
        line_parsed(old(compiler), final(compiler), r),
{
    let ghost c0 = *compiler;
    let ghost line = c0.lines_of_tokens@[c0.current_line as int]@;
    let tokens = copy_tokens(&compiler.lines_of_tokens[compiler.current_line]);
    if tokens.len() > 0 {
        while compiler.current_line_token < tokens.len()
            invariant
                c0 == *old(compiler),
                tokens@ == line,
                line == c0.lines_of_tokens@[c0.current_line as int]@,
                line_safe(line),
                compiler.wf(),
                compiler.same_input(&c0),
                compiler.current_line == c0.current_line,
                c0.current_line < c0.lines_of_tokens@.len(),
                compiler.ast.same_but_tree(&c0.ast),
                compiler.error_stack == c0.error_stack,
                c0.current_line_token <= compiler.current_line_token,
                c0.current_line_token < line.len() ==> compiler.current_line_token <= line.len(),
                c0.current_line_token >= line.len() ==> compiler.current_line_token == c0.current_line_token,
                line_run(compiler.ast.state(), line, compiler.current_line_token as nat)
                    == line_run(c0.ast.state(), line, c0.current_line_token as nat),
                c0.has_chars_line() || line_run(c0.ast.state(), line, c0.current_line_token as nat).1 is None,
            decreases tokens@.len() - compiler.current_line_token,
        {
            let ghost before = *compiler;
            let k = compiler.current_line_token;
            assert(token_safe(line[k as int].0@));
            let r = current_token(compiler, &tokens);
            proof {
                assert(first_in_line(&before) == (k == 0));
                assert(last_in_line(&before) == (k == line.len() - 1));
                match token_outcome(before.ast.state(), line[k as int].0@, line, k == 0, k == line.len() - 1) {
                    Outcome::Failed(s2, m, len) => {
                        let ck = at_token_k(&c0, k as nat);
                        assert(errors::error_text(&before, 0, len, m) == errors::error_text(&ck, 0, len, m));
                    },
                    _ => {},
                }
            }
            if r.is_err() {
                proof {
                    let o = token_outcome(before.ast.state(), line[k as int].0@, line, k == 0, k == line.len() - 1);
                    match o {
                        Outcome::Failed(s2, m, len) => {
                            assert(line_run(before.ast.state(), line, k as nat) == (s2, Some((k as nat, m, len))));
                            let ck = at_token_k(&c0, k as nat);
                            assert(append::error_added(&before, compiler, m, len));
                            assert(errors::error_text(&before, 0, len, m) == errors::error_text(&ck, 0, len, m));
                            assert(ck.error_stack == before.error_stack);
                            assert(ck.lines_of_tokens == before.lines_of_tokens);
                            assert(ck.current_line == before.current_line);
                            assert(ck.current_line_token == before.current_line_token);
                            assert(append::error_added(&ck, compiler, m, len));
                        },
                        _ => {
                            assert(false);
                        },
                    }
                    assert(compiler.same_input(&before));
                    assert(compiler.same_input(&c0));
                    assert(compiler.ast.same_but_tree(&c0.ast));
                    assert(compiler.wf());
                    let (s_end, err) = line_run(c0.ast.state(), line, c0.current_line_token as nat);
                    assert(err is Some);
                    assert(compiler.ast.els() == s_end.els);
                    assert(compiler.ast.parents@ == s_end.parents);
                    assert(r is Err);
                    match err {
                        Some((kk, m, len)) => {
                            assert(compiler.current_line_token == kk);
                            assert(append::error_added(&at_token_k(&c0, kk), compiler, m, len));
                        },
                        None => {},
                    }

                }
                return r;
            }
            compiler.current_line_token = compiler.current_line_token + 1;
        }
    }
    Ok(())
}

} // verus!
