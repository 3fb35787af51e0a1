//! Formatting lists of argument names and types.
use crate::ast::elements::strs_view;
use crate::text;
use vstd::prelude::*;

verus! {

/// The first `k` arguments as "name: modifiertype", separated by ", ".
pub open spec fn pairs_text(names: Seq<Seq<char>>, types: Seq<Seq<char>>, mods: Seq<Seq<char>>, k: nat) -> Seq<char>
    decreases k,
{
    if k == 0 || k > names.len() {
        Seq::empty()
    } else {
        pairs_text(names, types, mods, (k - 1) as nat) + names[k - 1] + ": "@ + mods[k - 1] + types[k - 1] + (if k
            == names.len() {
            ""@
        } else {
            ", "@
        })
    }
}

/// Formats three vecs into a single string, usually for the arguments of a function, e.g.
/// "arg1: &i64, arg2: String" for the names "arg1", "arg2", the types "i64", "String" and
/// the modifiers "&", "".
pub fn get_formatted_argname_argtype_pairs(argnames: &Vec<String>, argtypes: &Vec<String>, argmodifiers: &Vec<String>) -> (s: String)
    requires
        argtypes@.len() >= argnames@.len(),
        argmodifiers@.len() >= argnames@.len(),
    ensures
        s@ == pairs_text(strs_view(argnames@), strs_view(argtypes@), strs_view(argmodifiers@), argnames@.len()),
{
    let ghost names = strs_view(argnames@);
    let ghost types = strs_view(argtypes@);
    let ghost mods = strs_view(argmodifiers@);
    let mut args = String::new();
    let mut a: usize = 0;
    while a < argnames.len()
        invariant
            a <= argnames@.len(),
            argtypes@.len() >= argnames@.len(),
            argmodifiers@.len() >= argnames@.len(),
            names == strs_view(argnames@),
            types == strs_view(argtypes@),
            mods == strs_view(argmodifiers@),
            args@ == pairs_text(names, types, mods, a as nat),
        decreases argnames@.len() - a,
    {
        let comma = if a + 1 == argnames.len() { text::lit("") } else { text::lit(", ") };
        args = text::concat(&args, &argnames[a]);
        args = text::concat_str(&args, ": ");
        args = text::concat(&args, &argmodifiers[a]);
        args = text::concat(&args, &argtypes[a]);
        args = text::concat(&args, &comma);
        a = a + 1;
    }
    args
}

/// The first `k` names, separated by ", ".
pub open spec fn names_text(names: Seq<Seq<char>>, k: nat) -> Seq<char>
    decreases k,
{
    if k == 0 || k > names.len() {
        Seq::empty()
    } else {
        names_text(names, (k - 1) as nat) + names[k - 1] + (if k == names.len() { ""@ } else { ", "@ })
    }
}

/// Formats argument names, separated by ", ".
pub fn get_formatted_argnames(argnames: &Vec<String>) -> (s: String)
    ensures
        s@ == names_text(strs_view(argnames@), argnames@.len()),
{
    let ghost names = strs_view(argnames@);
    let mut args = String::new();
    let mut a: usize = 0;
    while a < argnames.len()
        invariant
            a <= argnames@.len(),
            names == strs_view(argnames@),
            args@ == names_text(names, a as nat),
        decreases argnames@.len() - a,
    {
        let comma = if a + 1 == argnames.len() { text::lit("") } else { text::lit(", ") };
        args = text::concat(&text::concat(&args, &argnames[a]), &comma);
        a = a + 1;
    }
    args
}

} // verus!
