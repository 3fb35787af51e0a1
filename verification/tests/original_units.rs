use toylang::ast::elements::append;
use toylang::ast::elements::{Element, ElementInfo};
use toylang::ast::output;
use toylang::ast::parents;
use toylang::ast::Ast;
use toylang::formatting::get_formatted_argname_argtype_pairs;
use toylang::parse::{
    concatenate_vec_strings, get_args_from_dyn_fn, is_float, is_integer, is_string,
    strip_leading_whitespace, strip_trailing_whitespace,
};
use toylang::Compiler;

#[test]
fn test_get_depths_vec() {
    //1 el
    let mut ast1 = Ast::new(false);
    let mut n = ast1.elements.len();
    let el1: Element = (ElementInfo::Int("1".to_string()), vec![]);
    append::append(&mut ast1, el1);
    assert_eq!(output::get_depths_vec(&mut ast1), vec![[n]]);

    //3 el under root
    let mut ast2 = Ast::new(false);
    n = ast2.elements.len();
    let el21: Element = (ElementInfo::Int("1".to_string()), vec![]);
    let el22: Element = (ElementInfo::Int("1".to_string()), vec![]);
    let el23: Element = (ElementInfo::Int("1".to_string()), vec![]);
    append::append(&mut ast2, el21);
    append::append(&mut ast2, el22);
    append::append(&mut ast2, el23);
    assert_eq!(output::get_depths_vec(&mut ast2), vec![[n, n + 1, n + 2]]);

    //1 el under with 2 children, under root
    let mut ast3 = Ast::new(false);
    n = ast3.elements.len();
    let el31: Element = (
        ElementInfo::InbuiltFunctionCall("+".to_string(), 1, "i64|f64".to_string()),
        vec![],
    );
    let el32: Element = (ElementInfo::Int("1".to_string()), vec![]);
    let el33: Element = (ElementInfo::Int("1".to_string()), vec![]);
    append::append(&mut ast3, el31);
    parents::indent::indent(&mut ast3);
    append::append(&mut ast3, el32);
    append::append(&mut ast3, el33);
    assert_eq!(
        output::get_depths_vec(&mut ast3),
        vec![vec![n], vec![n + 2, n + 1]]
    );

    //10 el in nested structure
    let mut c: Compiler = Default::default();
    n = c.ast.elements.len();
    let el41: Element = (ElementInfo::Int("1".to_string()), vec![]);
    let el42: Element = (ElementInfo::Int("1".to_string()), vec![]);
    let el43: Element = (
        ElementInfo::InbuiltFunctionCall("+".to_string(), 1, "i64|f64".to_string()),
        vec![],
    );
    let el44: Element = (ElementInfo::Int("1".to_string()), vec![]);
    let el45: Element = (
        ElementInfo::InbuiltFunctionCall("+".to_string(), 1, "i64|f64".to_string()),
        vec![],
    );
    let el46: Element = (ElementInfo::Int("1".to_string()), vec![]);
    let el47: Element = (
        ElementInfo::InbuiltFunctionCall("+".to_string(), 1, "i64|f64".to_string()),
        vec![],
    );
    let el48: Element = (ElementInfo::Int("1".to_string()), vec![]);
    let el49: Element = (ElementInfo::Int("1".to_string()), vec![]);
    let el410: Element = (ElementInfo::Int("1".to_string()), vec![]);
    append::append(&mut c.ast, el41);
    append::append(&mut c.ast, el42);
    append::append(&mut c.ast, el43);
    parents::indent::indent(&mut c.ast);
    append::append(&mut c.ast, el44);
    append::append(&mut c.ast, el45);
    parents::indent::indent(&mut c.ast);
    append::append(&mut c.ast, el46);
    append::append(&mut c.ast, el47);
    parents::indent::indent(&mut c.ast);
    append::append(&mut c.ast, el48);
    append::append(&mut c.ast, el49);
    parents::outdent::outdent(&mut c);
    parents::outdent::outdent(&mut c);
    parents::outdent::outdent(&mut c);
    append::append(&mut c.ast, el410);

    assert_eq!(
        output::get_depths_vec(&mut c.ast),
        vec![
            vec![n, n + 1, n + 2, n + 9],
            vec![n + 4, n + 3],
            vec![n + 6, n + 5],
            vec![n + 8, n + 7]
        ]
    );
}

#[test]
fn test_get_depths_flattened() {
    let mut input = vec![vec![0]];
    assert_eq!(output::get_depths_flattened(&input), vec![0]);

    input = vec![vec![1, 2, 3]];
    assert_eq!(output::get_depths_flattened(&input), vec![1, 2, 3]);

    input = vec![vec![1], vec![2, 3]];
    assert_eq!(output::get_depths_flattened(&input), vec![2, 3, 1]);

    input = vec![vec![1, 2, 3, 10], vec![4, 5], vec![6, 7], vec![8, 9]];
    assert_eq!(
        output::get_depths_flattened(&input),
        vec![8, 9, 6, 7, 4, 5, 1, 2, 3, 10]
    );
}

fn strings(v: &[&str]) -> Vec<String> {
    v.iter().map(|s| s.to_string()).collect()
}

#[test]
fn test_get_formatted_argname_argtype_pairs() {
    let test_case_passes: Vec<Vec<Vec<String>>> = vec![
        vec![strings(&["arg1"]), strings(&["i64"]), strings(&[""]), strings(&["arg1: i64"])],
        vec![
            strings(&["arg1", "arg2"]),
            strings(&["i64", "f64"]),
            strings(&["", ""]),
            strings(&["arg1: i64, arg2: f64"]),
        ],
        vec![
            strings(&["arg1", "arg2", "arg3"]),
            strings(&["i64", "f64", "String"]),
            strings(&["", "", ""]),
            strings(&["arg1: i64, arg2: f64, arg3: String"]),
        ],
        vec![strings(&["arg1"]), strings(&["i64"]), strings(&["&"]), strings(&["arg1: &i64"])],
        vec![
            strings(&["arg1", "arg2"]),
            strings(&["i64", "f64"]),
            strings(&["&", "&mut "]),
            strings(&["arg1: &i64, arg2: &mut f64"]),
        ],
        vec![
            strings(&["arg1", "arg2", "arg3"]),
            strings(&["i64", "f64", "String"]),
            strings(&["&", "&mut ", "mut "]),
            strings(&["arg1: &i64, arg2: &mut f64, arg3: mut String"]),
        ],
    ];
    for test in test_case_passes {
        let argnames = &test[0];
        let argtypes = &test[1];
        let argmodifiers = &test[2];
        let output = &test[3][0];
        assert_eq!(
            &get_formatted_argname_argtype_pairs(argnames, argtypes, argmodifiers),
            output
        );
    }
}

#[test]
fn test_name() {
    let mut c: Compiler = Default::default();
    c.file.filecontents = "".to_string();
    match c.run_main_tasks(false) {
        Ok(_) => {
            assert_eq!(&c.ast.output, "fn main() {\r\n}\r\n");
        }
        Err(_e) => assert!(false, "error should not exist"),
    }
}

#[test]
fn test_ast_walk() {
    let el1: Element = (ElementInfo::CommentSingleLine("1".to_string()), vec![]);
    let el2: Element = (ElementInfo::CommentSingleLine("2".to_string()), vec![]);
    let el3: Element = (ElementInfo::CommentSingleLine("3".to_string()), vec![4, 5]);
    let el4: Element = (ElementInfo::CommentSingleLine("4".to_string()), vec![]);
    let el5: Element = (ElementInfo::CommentSingleLine("5".to_string()), vec![6, 7]);
    let el6: Element = (ElementInfo::CommentSingleLine("6".to_string()), vec![]);
    let el7: Element = (ElementInfo::CommentSingleLine("7".to_string()), vec![]);
    let el8: Element = (ElementInfo::CommentSingleLine("8".to_string()), vec![]);
    let mut ast: Ast = Ast::new(false);
    append::append(&mut ast, el1);
    append::append(&mut ast, el2);
    append::append(&mut ast, el3);
    parents::indent::indent(&mut ast);
    append::append(&mut ast, el4);
    append::append(&mut ast, el5);
    parents::indent::indent(&mut ast);
    append::append(&mut ast, el6);
    append::append(&mut ast, el7);
    parents::indent::indent(&mut ast);
    parents::indent::indent(&mut ast);
    append::append(&mut ast, el8);
    assert!(true);
}

#[test]
fn test_is_integer() {
    let test_case_passes = [
        "1",
        "123",
        "1234567890",
        "9223372036854775807",
        "-1",
        "-123",
        "-1234567890",
        "-9223372036854775808",
    ];
    for test in test_case_passes {
        let input = &test.to_string();
        assert!(is_integer(input));
    }
    let test_case_fails = ["1a", "9223372036854775808", "-1a", "-9223372036854775809"];
    for test in test_case_fails {
        let input = &test.to_string();
        assert!(!is_integer(input));
    }
}

#[test]
fn test_is_float() {
    let test_case_passes = [
        "1.1",
        "123.123",
        "1234567890.123456789",
        "1.7976931348623157E+308",
        "-1.1",
        "-123.123",
        "-1234567890.123456789",
        "-1.7976931348623157E+308",
    ];
    for test in test_case_passes {
        let input = &test.to_string();
        assert!(is_float(input));
    }
    let test_case_fails = [
        "123",
        "-123",
        "1.1.1",
        "1.7976931348623157E+309",
        "-1.7976931348623157E+309",
        "1.797693134E+8623157E+309",
        "-1.79769313E+48623157E+309",
    ];
    for test in test_case_fails {
        let input = &test.to_string();
        assert!(!is_float(input));
    }
}

#[test]
fn test_is_string() {
    let test_case_passes = [
        "\"1\"",
        "\"123\"",
        "\"1234567890\"",
        "\"9223372036854775807\"",
        "\"-1\"",
        "\"-123\"",
        "\"-1234567890\"",
        "\"-9223372036854775808\"",
    ];
    for test in test_case_passes {
        let input = &test.to_string();
        assert!(is_string(input));
    }
    let test_case_fails = ["\"1a", "9223372036854775808\"", "'-1a'", ""];
    for test in test_case_fails {
        let input = &test.to_string();
        assert!(!is_string(input));
    }
}

#[test]
fn test_get_args_from_dyn_fn() {
    let test_cases = ["()", "(i64", "(i64, i64)"];
    let test_case_passes = [0, 1, 2];
    for t in 0..test_case_passes.len() as usize {
        let input = &test_cases[t].to_string();
        let output = test_case_passes[t] as usize;
        assert_eq!(get_args_from_dyn_fn(input), output);
    }
}

fn tok(s: &str, end: usize) -> (String, usize, usize, usize) {
    (s.to_string(), 0, 0, end)
}

#[test]
fn test_concatenate_vec_strings() {
    let test_cases = [
        vec![tok("1", 0)],
        vec![tok("1 2 3", 4)],
        vec![tok("1", 0), tok("1", 0)],
        vec![tok("1 2 3", 4), tok("1 2 3", 4)],
        vec![tok("1 2 3", 4), tok(" 1 2 3", 5), tok(" 1 2 3", 5), tok(" 1 2 3", 5)],
        vec![tok("               \r\n1", 17), tok("               \r\n1", 17)],
        vec![tok("               \r\n1 2 3", 21), tok("               \r\n1 2 3", 21)],
    ];
    let test_case_passes = [
        "1",
        "1 2 3",
        "11",
        "1 2 31 2 3",
        "1 2 3 1 2 3 1 2 3 1 2 3",
        "               \r\n1               \r\n1",
        "               \r\n1 2 3               \r\n1 2 3",
    ];
    for t in 0..test_case_passes.len() as usize {
        let input = &test_cases[t];
        let output = (&test_case_passes[t]).to_string();
        assert_eq!(concatenate_vec_strings(input), output);
    }
}

#[test]
fn test_strip_leading_whitespace() {
    let test_case_passes = [
        ["1", "1"],
        ["1 2 3", "1 2 3"],
        [" 1", "1"],
        [" 1 2 3", "1 2 3"],
        ["               \r\n1", "1"],
        ["               \r\n1 2 3", "1 2 3"],
    ];
    for test in test_case_passes {
        let input = &test[0].to_string();
        let output = (&test[1]).to_string();
        assert_eq!(strip_leading_whitespace(input), output);
    }
}

#[test]
fn test_strip_trailing_whitespace() {
    let test_case_passes = [
        ["1", "1"],
        ["1 2 3", "1 2 3"],
        ["1 ", "1"],
        ["1 2 3 ", "1 2 3"],
        ["1               \r\n", "1"],
        ["1 2 3               \r\n", "1 2 3"],
    ];
    for test in test_case_passes {
        let input = &test[0].to_string();
        let output = (&test[1]).to_string();
        assert_eq!(strip_trailing_whitespace(input), output);
    }
}
