use toylang::ast::elements::append;
use toylang::ast::elements::{get_infered_type_of_constant_element, ArgModifier, Element, ElementInfo};
use toylang::ast::output;
use toylang::ast::parents;
use toylang::ast::Ast;
use toylang::debug::{
    debug_flat_usize_array, left_pad, num_digits, rem_first_and_last, DebugElements,
    DebugErrorStack, DebugLinesOfChars, DebugLinesOfTokens, DebugLogs, ElementsVec,
};
use toylang::debugger::MyData;
use toylang::errors;
use toylang::example_tests::ExampleTests;
use toylang::file::{DebugFileContents, File, SaveDecision};
use toylang::parse::{strip_leading_whitespace, strip_trailing_whitespace};
use toylang::text::split_crlf;
use toylang::Compiler;

fn compile(input: &str) -> Compiler {
    let mut c: Compiler = Default::default();
    c.file.filecontents = input.to_string();
    assert!(c.run_main_tasks(false).is_ok());
    c
}

#[test]
fn test_outdent_undoes_indent() {
    let mut c: Compiler = Default::default();
    let before = c.ast.parents.clone();
    parents::indent::indent(&mut c.ast);
    assert_eq!(c.ast.parents.len(), before.len() + 1);
    parents::outdent::outdent(&mut c);
    assert_eq!(c.ast.parents, before);
}

#[test]
fn test_outdent_keeps_the_root() {
    let mut c: Compiler = Default::default();
    parents::outdent::outdent(&mut c);
    assert_eq!(c.ast.parents, vec![0]);
}

#[test]
fn test_written_program_is_wrapped_in_main() {
    let c = compile("@ 1\r\n= a 2");
    assert_eq!(c.error_stack.len(), 0);
    assert!(c.ast.output.starts_with("fn main() {\r\n"));
    assert!(c.ast.output.ends_with("}\r\n"));
    assert_eq!(c.ast.output, "fn main() {\r\n    println!(\"{}\", 1);\r\n    let a: i64 = 2;\r\n}\r\n");
}

#[test]
fn test_struct_definition_comes_before_main() {
    let c = compile("= newstruct { = firstname \"firstname\" }");
    assert_eq!(c.error_stack.len(), 0);
    assert!(c.ast.output.starts_with(&c.ast.premain_output));
    assert!(c.ast.premain_output.starts_with("#[derive(Clone, Debug)]\r\npub struct Newstruct {"));
    assert!(c.ast.output.contains("fn main() {\r\n"));
}

#[test]
fn test_an_error_stops_the_output() {
    let c = compile("= a 1\r\n= a 2\r\n= b 3");
    assert_eq!(c.error_stack.len(), 1);
    assert_eq!(c.ast.output, "");
    assert!(c.error_stack[0].0.ends_with(errors::CONSTANTS_ARE_IMMUTABLE));
    assert_eq!(c.error_stack[0].1, ("a".to_string(), 1, 2, 2));
}

#[test]
fn test_the_first_error_ends_parsing() {
    let c = compile("1a\r\n2b");
    assert_eq!(c.error_stack.len(), 1);
    assert!(c.error_stack[0].0.ends_with(errors::INT));
    assert_eq!(c.error_stack[0].1.1, 0);
}

#[test]
fn test_error_text_shows_the_line_and_an_arrow() {
    let c = compile("= monkey monkeys");
    assert_eq!(c.error_stack.len(), 1);
    let text = &c.error_stack[0].0;
    assert!(text.starts_with("----------\r\n./src/:1:0\r\n= monkey monkeys\r\n"), "{:?}", text);
    assert!(text.contains("\r\n         ^ Invalid Constant Definition"), "{:?}", text);
    assert!(text.ends_with(errors::CONSTANT_UNDEFINED));
}

#[test]
fn test_tokens_are_slices_of_their_line() {
    let c = compile("   = a   + 1 \"x y\"  ");
    let line: String = c.lines_of_chars[0].iter().map(|p| p.0).collect();
    let stripped = strip_trailing_whitespace(&strip_leading_whitespace(&line));
    let chars: Vec<char> = stripped.chars().collect();
    for t in &c.lines_of_tokens[0] {
        assert_eq!(t.1, 0);
        let slice: String = chars[t.2..t.3 + 1].iter().collect();
        assert_eq!(t.0, slice);
    }
    let texts: Vec<&str> = c.lines_of_tokens[0].iter().map(|t| t.0.as_str()).collect();
    assert_eq!(texts, vec!["=", "a", "", "", "+", "1", "\"x y\""]);
}

#[test]
fn test_char_positions_match_the_file() {
    let input = "= a 1\r\n= b \\ i64 i64 x => + x 1\n@ b 2";
    let c = compile(input);
    let chars: Vec<char> = input.chars().collect();
    assert_eq!(c.lines_of_chars.len(), 4);
    for line in &c.lines_of_chars {
        for (j, p) in line.iter().enumerate() {
            assert_eq!(chars[p.1], p.0);
            assert_eq!(p.1, line[0].1 + j);
        }
    }
    let second: String = c.lines_of_chars[1].iter().map(|p| p.0).collect();
    assert_eq!(second, "= b \\ i64 i64 x =>");
}

#[test]
fn test_stripping_is_idempotent() {
    for s in ["  a b  ", "\t\r\n", "", "x", " \r\n x \r\n "] {
        let once = strip_trailing_whitespace(&strip_leading_whitespace(&s.to_string()));
        let twice = strip_trailing_whitespace(&strip_leading_whitespace(&once));
        assert_eq!(once, twice);
        assert!(once.is_empty() || (!once.starts_with(char::is_whitespace) && !once.ends_with(char::is_whitespace)));
    }
    assert_eq!(strip_leading_whitespace(&" \t\r\n ".to_string()), "");
    assert_eq!(strip_trailing_whitespace(&" \t\r\n ".to_string()), "");
}

#[test]
fn test_types_keep_the_tree() {
    let c = compile("= a + 1 2\r\n= b - a 3.0");
    let mut ast = c.ast.clone();
    let before: Vec<Vec<usize>> = ast.elements.iter().map(|e| e.1.clone()).collect();
    output::replace_any_unknown_types(&mut ast);
    let after: Vec<Vec<usize>> = ast.elements.iter().map(|e| e.1.clone()).collect();
    assert_eq!(before, after);
}

#[test]
fn test_inferred_types_fill_in_alternatives() {
    let c = compile("= a + 1 2\r\n= f + 1.1 2.2");
    assert_eq!(c.error_stack.len(), 0);
    assert_eq!(c.ast.output, "fn main() {\r\n    let a: i64 = 1 + 2;\r\n    let f: f64 = 1.1 + 2.2;\r\n}\r\n");
}

#[test]
fn test_list_function_name_is_lowercased_for_duplicate() {
    let c = compile("= list [ 1 ]\r\n= mapfn \\ i64 i64 i => * i 100\r\n= mapped List::map list ( mapfn )");
    assert_eq!(c.error_stack.len(), 0);
    assert!(c.ast.output.contains("fn mapfn_for_list_map(i: &i64) -> i64 {"));
    assert!(c.ast.output.contains(".map(mapfn_for_list_map.clone())"));
}

#[test]
fn test_struct_name_starts_upper_case() {
    let c = compile("= my_struct { = x 1 }");
    assert_eq!(c.error_stack.len(), 0);
    assert!(c.ast.premain_output.contains("pub struct Mystruct {"));
}

#[test]
fn test_rustcode_lines_are_refused() {
    let c = compile("##println!(\"{}\", 1);");
    assert_eq!(c.error_stack.len(), 1);
    assert!(c.error_stack[0].0.ends_with(errors::RUSTCODE));
}

#[test]
fn test_struct_edits_are_refused() {
    let c = compile("= s { = x 1 }\r\n= s.x 2");
    assert_eq!(c.error_stack.len(), 1);
    assert!(c.error_stack[0].0.ends_with(errors::STRUCT_EDIT));
}

#[test]
fn test_empty_struct_and_list_errors() {
    let c = compile("{x");
    assert!(c.error_stack[0].0.ends_with(errors::A_STRUCT));
    let c = compile("[x");
    assert!(c.error_stack[0].0.ends_with(errors::LIST));
    let c = compile("= s { }");
    assert_eq!(c.error_stack.len(), 1);
    assert!(c.error_stack[0].0.ends_with(errors::A_STRUCT));
}

#[test]
fn test_readme_hello_world() {
    let c = compile("// print\r\n@ \"Hello, world!\"\r\n@ 1\r\n@ 1.23\r\n\r\n\r\n");
    assert_eq!(c.error_stack.len(), 0);
    assert_eq!(
        c.ast.output,
        "fn main() {\r\n    // print\r\n    println!(\"{}\", \"Hello, world!\".to_string());\r\n    println!(\"{}\", 1);\r\n    println!(\"{}\", 1.23);\r\n}\r\n"
    );
}

#[test]
fn test_compiler_new() {
    let c = Compiler::new("a.toy".to_string(), true, Some("out".to_string()), true, false).unwrap();
    assert_eq!(c.filepath, "a.toy");
    assert_eq!(c.outputdir, "out");
    assert!(c.debug);
    assert!(c.file.nosave);
    assert_eq!(c.ast.parents, vec![0]);
    assert_eq!(c.ast.elements.len(), 23);
    let d = Compiler::new("b".to_string(), false, None, false, false).unwrap();
    assert_eq!(d.outputdir, "");
}

#[test]
fn test_debug_steps() {
    let mut c = Compiler::new("p.toy".to_string(), true, None, true, false).unwrap();
    c.file.filepath = "p.toy".to_string();
    c.file.filecontents = "= a 1\r\n@ a".to_string();
    assert_eq!(c.debug_step(1), 1);
    assert_eq!(c.debug_step(2), 2);
    assert_eq!(c.lines_of_chars.len(), 2);
    assert_eq!(c.debug_step(3), 3);
    assert_eq!(c.lines_of_tokens.len(), 2);
    assert_eq!(c.debug_step(4), 3);
    assert_eq!(c.debug_line, 1);
    assert_eq!(c.debug_step(4), 4);
    assert_eq!(c.debug_line, 2);
    assert_eq!(c.debug_step(5), 5);
    assert_eq!(c.ast.output, "fn main() {\r\n    let a: i64 = 1;\r\n    println!(\"{}\", a.clone());\r\n}\r\n");
    assert_eq!(c.debug_step, 5);
}

#[test]
fn test_inferred_type_of_constant() {
    let c = compile("= a 1.5");
    let float_index = c
        .ast
        .elements
        .iter()
        .position(|e| matches!(e.0, ElementInfo::Float(_)))
        .unwrap();
    let el: Element = (ElementInfo::Constant("b".to_string(), "Undefined".to_string()), vec![float_index]);
    assert_eq!(get_infered_type_of_constant_element(&c.ast, &el), "f64");
    let none: Element = (ElementInfo::Constant("b".to_string(), "Undefined".to_string()), vec![]);
    assert_eq!(get_infered_type_of_constant_element(&c.ast, &none), "Undefined");
    let int: Element = (ElementInfo::Int("1".to_string()), vec![]);
    assert_eq!(get_infered_type_of_constant_element(&c.ast, &int), "Undefined");
}

#[test]
fn test_num_digits_and_left_pad() {
    assert_eq!(num_digits(0), 1);
    assert_eq!(num_digits(9), 1);
    assert_eq!(num_digits(10), 2);
    assert_eq!(num_digits(12345), 5);
    assert_eq!(num_digits(usize::MAX), usize::MAX.to_string().len());
    assert_eq!(left_pad(100, 5), "  ");
    assert_eq!(left_pad(10, 10), "");
}

#[test]
fn test_rem_first_and_last() {
    assert_eq!(rem_first_and_last("\"abc\""), "abc");
    assert_eq!(rem_first_and_last("ab"), "");
    assert_eq!(rem_first_and_last("a"), "");
    assert_eq!(rem_first_and_last(""), "");
}

#[test]
fn test_debug_flat_usize_array() {
    assert_eq!(debug_flat_usize_array(&vec![]), "[ ]");
    assert_eq!(debug_flat_usize_array(&vec![1, 22]), "[ 1, 22, ]");
}

#[test]
fn test_element_info_debug_text() {
    assert_eq!(ElementInfo::Root.debug_text(), "Root");
    assert_eq!(ElementInfo::Int("12".to_string()).debug_text(), "Int: 12");
    assert_eq!(
        ElementInfo::Constant("a".to_string(), "i64".to_string()).debug_text(),
        "Constant: a (i64)"
    );
    assert_eq!(
        ElementInfo::ConstantRef("a".to_string(), "i64".to_string(), "a".to_string()).debug_text(),
        "ConstantRef: a (i64) for \"a\""
    );
    assert_eq!(
        ElementInfo::Arg("x".to_string(), 3, ArgModifier::Plain, "i64".to_string()).debug_text(),
        "Arg: x scope:3 argmodifier:(None) (i64)"
    );
    assert_eq!(
        ElementInfo::Arg("x".to_string(), 3, ArgModifier::FnArg(vec!["&".to_string()]), "i64".to_string()).debug_text(),
        "Arg: x scope:3 argmodifier:(FnArg([\"&\"])) (i64)"
    );
    assert_eq!(
        ElementInfo::FunctionDef("f".to_string(), vec!["a".to_string()], vec!["i64".to_string()], "bool".to_string()).debug_text(),
        "FunctionDef: f (a: i64) -> (bool)"
    );
    assert_eq!(
        ElementInfo::Struct("s".to_string(), vec!["k".to_string()], vec!["i64".to_string()]).debug_text(),
        "Struct: s keys: [\"k\"] keytypes: [\"i64\"]"
    );
    assert_eq!(ElementInfo::LoopForRange("i".to_string(), 1, 10).debug_text(), "Loop For i in 1 to 10");
    let ast = Ast::new(false);
    assert_eq!(
        ast.elements[5].0.debug_text(),
        "InbuiltFunctionDef: \"+\" argtypes([\"i64|f64\", \"i64|f64\"]) argmodifiers([None, None]) -> (i64|f64)"
    );
}

#[test]
fn test_debug_elements_and_tree() {
    let mut ast = Ast::new(false);
    let n = ast.elements.len();
    append::append(&mut ast, (ElementInfo::Int("1".to_string()), vec![]));
    let els = vec![ast.elements[0].clone(), (ElementInfo::Int("1".to_string()), vec![])];
    let text = DebugElements(&els).text();
    assert_eq!(text, format!("Custom Debug of Elements [\r\nElements:\r\n 0: Root [ {}, ]\r\n 1: Int: 1 [ ]\r\n\r\n]", n));
    let tree = ElementsVec(vec![
        (ElementInfo::Root, vec![1, 2]),
        (ElementInfo::Int("1".to_string()), vec![]),
        (ElementInfo::Indent, vec![]),
    ])
    .text();
    assert_eq!(tree, "Root {\n  Int: 1\n  ...\n}\n");
    let debug = ast.debug_text();
    assert!(debug.starts_with("Custom Debug of Ast [\r\nElements:\r\n 0: Root [ "));
    assert!(debug.ends_with("Parents: [ 0, ]\r\nOutput_stack: []\r\nOutput: \r\n\"\"\r\n]"));
}

#[test]
fn test_log_records_only_in_debug_mode() {
    let mut ast = Ast::new(false);
    ast.log("x".to_string());
    assert_eq!(ast.logs.len(), 0);
    let mut ast = Ast::new(true);
    ast.log("step".to_string());
    assert_eq!(ast.logs.len(), 1);
    assert_eq!(ast.logs[0], ("step".to_string(), ("".to_string(), 0, 0, 0)));
    assert_eq!(ast.debug_compiler_history.len(), 1);
    assert!(ast.debug_compiler_history[0].starts_with("Custom Debug of Elements [\r\nElements:\r\n"));
    assert!(ast.debug_compiler_history[0].ends_with("\r\n\r\nParents:\r\n[0]\r\n\r\nOutput_stack:\r\n[]\r\n\r\nPre-main Output:\r\n\"\"r\n\r\nOutput:\r\n\"\""));
}

#[test]
fn test_debug_error_stack_and_logs() {
    let errors: Vec<(String, (String, usize, usize, usize))> = (0..11)
        .map(|i| (format!("'e{}'", i), ("t".to_string(), 0, 0, 0)))
        .collect();
    let text = DebugErrorStack(&errors).text();
    assert!(text.starts_with("Custom Debug of ErrorStack [\r\n   0: e0,\r\n   1: e1,"));
    assert!(text.ends_with("\r\n  10: e10,\r\n]"));
    let logs = vec![("a".to_string(), ("".to_string(), 0, 0, 0))];
    assert_eq!(DebugLogs(&logs).text(), "Custom Debug of Logs\r\n\r\n  0: a,");
}

#[test]
fn test_debug_lines() {
    let c = compile("@ \"a\"");
    assert_eq!(
        DebugLinesOfChars(&c.lines_of_chars).text(),
        "Custom Debug of LinesOfChars [\r\n  0: [('@', 0), (' ', 1), ('\"', 2), ('a', 3), ('\"', 4)],\r\n]"
    );
    assert_eq!(
        DebugLinesOfTokens(&c.lines_of_tokens).text(),
        "Custom Debug of LinesOfTokens [\r\n  0: [(\"@\", 0, 0, 0), (\"\\\"a\\\"\", 0, 2, 4)],\r\n]"
    );
    assert_eq!(c.lines_of_tokens_json(), "[[[\"@\", 0, 0, 0], [\"\\\"a\\\"\", 0, 2, 4]]]");
}

#[test]
fn test_debug_file_contents() {
    let contents = "a\r\nb\r\n".to_string();
    assert_eq!(DebugFileContents(&contents).text(), "Custom Debug of FileContents\r\n  0: a,\r\n  1: b,\r\n  2: ,\r\n");
    assert_eq!(split_crlf(&"x\ry\r\n\r\nz".to_string()), vec!["x\ry", "", "z"]);
    assert_eq!(split_crlf(&"".to_string()), vec![""]);
}

#[test]
fn test_my_data_updates() {
    let mut d = MyData::default();
    d.step_update(3);
    d.step_max_update(5);
    d.step_is_running_update(true);
    d.step_is_resetting_update(true);
    d.history_max_update("h".to_string());
    d.history_update(&vec!["a".to_string(), "b".to_string()]);
    assert_eq!(d.step, 3);
    assert_eq!(d.step_max, 5);
    assert!(d.step_is_running);
    assert!(d.step_is_resetting);
    assert_eq!(d.history_max, "h");
    assert_eq!(d.history, vec!["a".to_string(), "b".to_string()]);
}

#[test]
fn test_example_tests() {
    let e = ExampleTests::new();
    assert_eq!(e.tests.len(), 4);
    let (name, code, rust) = &e.tests[0];
    assert_eq!(name, "test_pass_empty_file");
    let c = compile(code);
    assert_eq!(&c.ast.output, rust);
}

fn assert_refused_with(input: &str, message: &str) {
    let c = compile(input);
    assert_eq!(c.error_stack.len(), 1, "errors: {:?}", c.error_stack);
    assert!(c.error_stack[0].0.ends_with(message), "error: {:?}", c.error_stack[0].0);
    assert_eq!(c.ast.output, "");
}

#[test]
fn test_loop_for_range() {
    let c = compile(".. b 0 100\r\n@ b\r\n.");
    assert_eq!(c.error_stack.len(), 0);
    assert_eq!(
        c.ast.output,
        "fn main() {\r\n    For b in 0..100 {\r\n        println!(\"{}\", b.clone());\r\n;\r\n    }}\r\n"
    );
}

#[test]
fn test_more_error_variants() {
    assert_refused_with(".", errors::LOOPFOR_END_BUT_NO_START);
    assert_refused_with(".. b 0\r\n.", errors::LOOPFOR_MALFORMED);
    assert_refused_with("=a", errors::ASSIGN);
    assert_refused_with(".x", errors::LOOP_FOR);
    assert_refused_with("= f \\ => 1", errors::FUNCDEF_ARGS);
    assert_refused_with("@ = a 1", errors::IMPOSSIBLE_ERROR);
    assert_refused_with("!", errors::UNKNOWN);
    assert_refused_with("= x 1.2.3", errors::INT);
}

#[test]
fn test_function_without_arguments() {
    let c = compile("= f \\ i64 => 1");
    assert_eq!(c.error_stack.len(), 0);
    assert_eq!(c.ast.output, "fn main() {\r\n    fn f() -> i64 {\r\n        1 as i64\r\n    }\r\n}\r\n");
}

#[test]
fn test_flattening_keeps_every_entry() {
    let depths = vec![vec![1, 2], vec![5, 4], vec![9]];
    let flat = output::get_depths_flattened(&depths);
    assert_eq!(flat, vec![9, 5, 4, 1, 2]);
    for level in &depths {
        for x in level {
            assert!(flat.contains(x));
        }
    }
    assert_eq!(flat.len(), 5);
}

#[test]
fn test_append_as_nth_child_places_the_child() {
    let mut ast = Ast::new(false);
    append::append(&mut ast, (ElementInfo::Int("1".to_string()), vec![]));
    assert_eq!(ast.elements[0].1, vec![23]);
    let idx = append::append_as_nth_child_of_elindex(&mut ast, (ElementInfo::Int("2".to_string()), vec![]), 0, 1);
    assert_eq!(idx, 24);
    assert!(matches!(&ast.elements[24].0, ElementInfo::Int(v) if v == "2"));
    assert_eq!(ast.elements[0].1, vec![23, 24]);
    let idx = append::append_as_nth_child_of_elindex(&mut ast, (ElementInfo::Int("3".to_string()), vec![]), 0, 0);
    assert_eq!(idx, 25);
    assert_eq!(ast.elements[0].1, vec![23, 25, 24]);
    let idx = append::append_as_nth_child_of_elindex(&mut ast, (ElementInfo::Int("4".to_string()), vec![]), 0, 9);
    assert_eq!(ast.elements[0].1, vec![23, 25, 24, idx]);
}

#[test]
fn test_after_step_decides_the_next_step() {
    let mut d = MyData::default();
    d.step = 1;
    d.step_max = 5;
    d.step_is_running = true;
    d.after_step(1);
    assert_eq!(d.step, 2);
    assert!(d.step_is_running);
    d.after_step(3);
    assert_eq!(d.step, 4);
    d.after_step(4);
    assert_eq!(d.step, 5);
    d.after_step(5);
    assert_eq!(d.step, 0);
    assert!(!d.step_is_running);
    let mut e = MyData::default();
    e.step = 2;
    e.step_max = 2;
    e.step_is_running = true;
    e.after_step(2);
    assert_eq!(e.step, 2);
    assert!(!e.step_is_running);
    let mut f = MyData::default();
    f.step = 3;
    f.step_max = 3;
    f.step_is_running = true;
    f.after_step(4);
    assert_eq!(f.step, 3);
    assert!(f.step_is_running);
    f.after_step(0);
    assert_eq!(f.step, 3);
    assert!(f.step_is_running);
}

#[test]
fn test_stripping_any_text() {
    assert_eq!(strip_trailing_whitespace(&"é  ".to_string()), "é");
    assert_eq!(strip_trailing_whitespace(&"é".to_string()), "é");
    assert_eq!(strip_leading_whitespace(&"\u{3000} a é".to_string()), "a é");
    assert_eq!(strip_trailing_whitespace(&"a\u{85}".to_string()), "a");
}

#[test]
fn test_a_name_stays_under_its_parent() {
    let c = compile("= a 1\r\n@ a");
    assert_eq!(c.error_stack.len(), 0);
    let k = c
        .ast
        .elements
        .iter()
        .position(|e| matches!(&e.0, ElementInfo::ConstantRef(n, t, r) if n == "a" && t == "i64" && r == "a"))
        .unwrap();
    assert!(c.ast.elements[k].1.is_empty());
    let p = c.ast.elements.iter().position(|e| matches!(e.0, ElementInfo::Println)).unwrap();
    assert!(c.ast.elements[p].1.contains(&k));
    let d = compile("b");
    let k = d
        .ast
        .elements
        .iter()
        .position(|e| matches!(&e.0, ElementInfo::Constant(n, _) if n == "b"))
        .unwrap();
    assert!(d.ast.elements.iter().any(|e| e.1.contains(&k)));
}

#[test]
fn test_outdenting_returns_to_the_root() {
    let c = compile("= a 1\r\n@ a");
    assert_eq!(c.ast.parents, vec![0]);
}

#[test]
fn test_a_line_ends_with_a_seol() {
    let c = compile("@ 1");
    let n = c.ast.elements.len();
    assert!(matches!(c.ast.elements[n - 1].0, ElementInfo::Seol));
    assert!(c.ast.elements[0].1.contains(&(n - 1)));
    let d = compile("= f \\ i64 => 1");
    assert!(!d.ast.elements.iter().any(|e| matches!(e.0, ElementInfo::Seol)));
}

#[test]
fn test_loop_end_rewrites_only_its_loop() {
    let c = compile(".. b 0 100\r\n@ b\r\n.");
    let w = c
        .ast
        .elements
        .iter()
        .position(|e| matches!(&e.0, ElementInfo::LoopForRange(n, 0, 100) if n == "b"))
        .unwrap();
    assert!(!c.ast.elements.iter().any(|e| matches!(e.0, ElementInfo::LoopForRangeWIP)));
    assert!(c.ast.elements[w].1.iter().any(|&i| matches!(c.ast.elements[i].0, ElementInfo::Println)));
    let d = compile(".");
    assert!(!d.ast.elements.iter().any(|e| matches!(e.0, ElementInfo::LoopForRange(..))));
    assert_eq!(d.error_stack.len(), 1);
}

fn token(s: &str, line: usize, start: usize, end: usize) -> (String, usize, usize, usize) {
    (s.to_string(), line, start, end)
}

#[test]
fn test_function_call_needs_no_line_of_characters() {
    let mut c: Compiler = Default::default();
    c.lines_of_tokens = vec![vec![token("a", 0, 0, 0), token("1", 0, 2, 2)]];
    c.current_line = 0;
    c.current_line_token = 0;
    let r = append::function_ref_or_call(&mut c, &"a".to_string(), 1, &"i64".to_string());
    assert_eq!(r, Ok(()));
    assert_eq!(c.ast.elements.len(), 25);
    assert!(matches!(c.ast.elements[23].0, ElementInfo::Indent));
    assert!(c.ast.elements[23].1.is_empty());
    assert!(matches!(&c.ast.elements[24].0, ElementInfo::FunctionCall(n, t) if n == "a" && t == "i64"));
    assert!(c.ast.elements[24].1.is_empty());
    assert_eq!(c.ast.elements[0].1, vec![23, 24]);
    assert_eq!(c.ast.parents, vec![0, 24]);
    assert!(c.error_stack.is_empty());
}

#[test]
fn test_function_reference_needs_no_line_of_characters() {
    let mut c: Compiler = Default::default();
    c.lines_of_tokens = vec![vec![token("(", 0, 0, 0), token("mapfn", 0, 2, 6), token(")", 0, 8, 8)]];
    c.current_line_token = 1;
    append::append(
        &mut c.ast,
        (
            ElementInfo::FunctionDef("mapfn".to_string(), vec!["i".to_string()], vec!["i64".to_string()], "i64".to_string()),
            vec![],
        ),
    );
    append::append(&mut c.ast, (ElementInfo::InbuiltFunctionCall("List::map".to_string(), 10, "Vec<i64>".to_string()), vec![]));
    parents::indent::indent(&mut c.ast);
    append::append(
        &mut c.ast,
        (ElementInfo::ConstantRef("list".to_string(), "Vec<i64>".to_string(), "list".to_string()), vec![]),
    );
    append::append(&mut c.ast, (ElementInfo::Parens, vec![]));
    parents::indent::indent(&mut c.ast);
    let r = append::function_ref_or_call(&mut c, &"mapfn".to_string(), 1, &"i64".to_string());
    assert_eq!(r, Ok(()));
    assert_eq!(c.ast.elements.len(), 28);
    assert!(matches!(&c.ast.elements[26].0,
        ElementInfo::ConstantRef(a, b, d) if a == "mapfn_for_list_map" && b == "i64" && d == "mapfn_for_list_map"));
    assert!(c.ast.elements[26].1.is_empty());
    assert!(matches!(&c.ast.elements[27].0,
        ElementInfo::FunctionDef(n, names, types, rt) if n == "mapfn_for_list_map" && names == &vec!["i".to_string()]
            && types == &vec!["&i64".to_string()] && rt == "i64"));
    assert!(c.ast.elements[0].1.contains(&27));
    assert_eq!(c.ast.parents, vec![0, 24, 26]);
}

#[test]
fn test_whitespace_alone_strips_to_empty() {
    assert_eq!(strip_trailing_whitespace(&"   \r\n".to_string()), "");
    assert_eq!(strip_trailing_whitespace(&"".to_string()), "");
}

#[test]
fn test_save_decision() {
    let f = File::new(true);
    assert_eq!(f.save_decision(false), SaveDecision::NoSave);
    assert_eq!(f.save_decision(true), SaveDecision::NoSave);
    let g = File::new(false);
    assert_eq!(g.save_decision(true), SaveDecision::Errors);
    assert_eq!(g.save_decision(false), SaveDecision::Save);
}
