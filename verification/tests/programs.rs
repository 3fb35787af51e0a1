use toylang::Compiler;

fn compile(input: &str) -> Compiler {
    let mut c: Compiler = Default::default();
    c.file.filecontents = input.to_string();
    assert!(c.run_main_tasks(false).is_ok());
    c
}

fn assert_compiles_to(input: &str, expected: &str) {
    let c = compile(input);
    assert_eq!(c.error_stack.len(), 0, "unexpected errors: {:?}", c.error_stack);
    assert_eq!(c.ast.output, expected);
}

#[test]
fn test_pass_empty_file() {
    assert_compiles_to("", "fn main() {\r\n}\r\n");
}

#[test]
fn test_pass_comment_singleline() {
    assert_compiles_to("//comment", "fn main() {\r\n    //comment\r\n}\r\n");
}

#[test]
fn test_pass_comment_singleline_with_space() {
    assert_compiles_to("    //    comment    ", "fn main() {\r\n    //    comment\r\n}\r\n");
}

#[test]
fn test_pass_comment_singleline_fn_no_longer_breaks() {
    assert_compiles_to("//= a \\ i64 => 123", "fn main() {\r\n    //= a \\ i64 => 123\r\n}\r\n");
}

#[test]
fn test_pass_boolean_true() {
    assert_compiles_to("true", "fn main() {\r\n    true;\r\n}\r\n");
}

#[test]
fn test_pass_boolean_false() {
    assert_compiles_to("false", "fn main() {\r\n    false;\r\n}\r\n");
}

#[test]
fn test_pass_boolean_eq_equality_true() {
    assert_compiles_to("== 1 1", "fn main() {\r\n    1 == 1;\r\n}\r\n");
}

#[test]
fn test_pass_boolean_eq_equality_false() {
    assert_compiles_to("== 1 2", "fn main() {\r\n    1 == 2;\r\n}\r\n");
}

#[test]
fn test_pass_boolean_neq_non_equality_true() {
    assert_compiles_to("!= 1 2", "fn main() {\r\n    1 != 2;\r\n}\r\n");
}

#[test]
fn test_pass_boolean_neq_non_equality_false() {
    assert_compiles_to("!= 1 1", "fn main() {\r\n    1 != 1;\r\n}\r\n");
}

#[test]
fn test_pass_boolean_gt_greater_than_true() {
    assert_compiles_to("> 2 1", "fn main() {\r\n    2 > 1;\r\n}\r\n");
}

#[test]
fn test_pass_boolean_gt_greater_than_false() {
    assert_compiles_to("> 1 2", "fn main() {\r\n    1 > 2;\r\n}\r\n");
}

#[test]
fn test_pass_boolean_lt_less_than_true() {
    assert_compiles_to("< 1 2", "fn main() {\r\n    1 < 2;\r\n}\r\n");
}

#[test]
fn test_pass_boolean_lt_less_than_false() {
    assert_compiles_to("< 2 1", "fn main() {\r\n    2 < 1;\r\n}\r\n");
}

#[test]
fn test_pass_boolean_gte_greater_than_equal_true() {
    assert_compiles_to(">= 3 2", "fn main() {\r\n    3 >= 2;\r\n}\r\n");
}

#[test]
fn test_pass_boolean_gte_greater_than_equal_true2() {
    assert_compiles_to(">= 2 2", "fn main() {\r\n    2 >= 2;\r\n}\r\n");
}

#[test]
fn test_pass_boolean_gte_greater_than_equal_false() {
    assert_compiles_to(">= 1 2", "fn main() {\r\n    1 >= 2;\r\n}\r\n");
}

#[test]
fn test_pass_boolean_lte_less_than_equal_true() {
    assert_compiles_to("<= 2 3", "fn main() {\r\n    2 <= 3;\r\n}\r\n");
}

#[test]
fn test_pass_boolean_lte_less_than_equal_true2() {
    assert_compiles_to("<= 2 2", "fn main() {\r\n    2 <= 2;\r\n}\r\n");
}

#[test]
fn test_pass_boolean_lte_less_than_equal_false() {
    assert_compiles_to("<= 3 2", "fn main() {\r\n    3 <= 2;\r\n}\r\n");
}

#[test]
fn test_pass_string() {
    assert_compiles_to("\"string\"", "fn main() {\r\n    \"string\".to_string();\r\n}\r\n");
}

#[test]
fn test_pass_string_escaped_quote() {
    assert_compiles_to("\"\"", "fn main() {\r\n    \"\".to_string();\r\n}\r\n");
}

#[test]
fn test_pass_int() {
    assert_compiles_to("1", "fn main() {\r\n    1 as i64;\r\n}\r\n");
}

#[test]
fn test_pass_int_longer() {
    assert_compiles_to("123", "fn main() {\r\n    123 as i64;\r\n}\r\n");
}

#[test]
fn test_pass_int_space_before() {
    assert_compiles_to("    123    ", "fn main() {\r\n    123 as i64;\r\n}\r\n");
}

#[test]
fn test_pass_int_max() {
    assert_compiles_to("9223372036854775807", "fn main() {\r\n    9223372036854775807 as i64;\r\n}\r\n");
}

#[test]
fn test_pass_int_neg() {
    assert_compiles_to("-1", "fn main() {\r\n    -1 as i64;\r\n}\r\n");
}

#[test]
fn test_pass_int_longer_neg() {
    assert_compiles_to("-123", "fn main() {\r\n    -123 as i64;\r\n}\r\n");
}

#[test]
fn test_pass_int_space_before_neg() {
    assert_compiles_to("    -123    ", "fn main() {\r\n    -123 as i64;\r\n}\r\n");
}

#[test]
fn test_pass_int_max_neg() {
    assert_compiles_to("-9223372036854775808", "fn main() {\r\n    -9223372036854775808 as i64;\r\n}\r\n");
}

#[test]
fn test_pass_float() {
    assert_compiles_to("1.1", "fn main() {\r\n    1.1;\r\n}\r\n");
}

#[test]
fn test_pass_float_longer() {
    assert_compiles_to("123.123", "fn main() {\r\n    123.123;\r\n}\r\n");
}

#[test]
fn test_pass_float_space_before() {
    assert_compiles_to("    123.123    ", "fn main() {\r\n    123.123;\r\n}\r\n");
}

#[test]
fn test_pass_float_max1() {
    assert_compiles_to("1234567890.123456789", "fn main() {\r\n    1234567890.123456789;\r\n}\r\n");
}

#[test]
fn test_pass_float_max2() {
    assert_compiles_to("1.7976931348623157E+308", "fn main() {\r\n    1.7976931348623157E+308;\r\n}\r\n");
}

#[test]
fn test_pass_float_neg() {
    assert_compiles_to("-1.1", "fn main() {\r\n    -1.1;\r\n}\r\n");
}

#[test]
fn test_pass_float_longer_neg() {
    assert_compiles_to("-123.123", "fn main() {\r\n    -123.123;\r\n}\r\n");
}

#[test]
fn test_pass_float_space_before_neg() {
    assert_compiles_to("    -123.123    ", "fn main() {\r\n    -123.123;\r\n}\r\n");
}

#[test]
fn test_pass_float_max1_neg() {
    assert_compiles_to("-1234567890.123456789", "fn main() {\r\n    -1234567890.123456789;\r\n}\r\n");
}

#[test]
fn test_pass_float_max2_neg() {
    assert_compiles_to("-1.7976931348623157E+308", "fn main() {\r\n    -1.7976931348623157E+308;\r\n}\r\n");
}

#[test]
fn test_pass_list_empty_string() {
    assert_compiles_to("[ String ]", "fn main() {\r\n    Vec::<String>::new();\r\n}\r\n");
}

#[test]
fn test_pass_list_empty_int() {
    assert_compiles_to("[ i64 ]", "fn main() {\r\n    Vec::<i64>::new();\r\n}\r\n");
}

#[test]
fn test_pass_list_empty_float() {
    assert_compiles_to("[ f64 ]", "fn main() {\r\n    Vec::<f64>::new();\r\n}\r\n");
}

#[test]
fn test_pass_list_int() {
    assert_compiles_to("[ 1 ]", "fn main() {\r\n    vec![ 1 ];\r\n}\r\n");
}

#[test]
fn test_pass_list_int2() {
    assert_compiles_to("[ 1 2 3 4 5 ]", "fn main() {\r\n    vec![ 1, 2, 3, 4, 5 ];\r\n}\r\n");
}

#[test]
fn test_pass_list_float() {
    assert_compiles_to("[ 1.1 2.2 3.3 4.4 5.5 ]", "fn main() {\r\n    vec![ 1.1, 2.2, 3.3, 4.4, 5.5 ];\r\n}\r\n");
}

#[test]
fn test_pass_list_string() {
    assert_compiles_to("[ \"1.1\" \"2.2\" \"3.3\" \"4.4\" \"5.5\" ]", "fn main() {\r\n    vec![ \"1.1\".to_string(), \"2.2\".to_string(), \"3.3\".to_string(), \"4.4\".to_string(), \"5.5\".to_string() ];\r\n}\r\n");
}

#[test]
fn test_pass_list_int_assign() {
    assert_compiles_to("= x [ 1 2 3 4 5 ]", "fn main() {\r\n    let x: Vec<i64> = vec![ 1, 2, 3, 4, 5 ];\r\n}\r\n");
}

#[test]
fn test_pass_list_float_assign() {
    assert_compiles_to("= x [ 1.1 2.2 3.3 4.4 5.5 ]", "fn main() {\r\n    let x: Vec<f64> = vec![ 1.1, 2.2, 3.3, 4.4, 5.5 ];\r\n}\r\n");
}

#[test]
fn test_pass_list_string_assign() {
    assert_compiles_to("= x [ \"1.1\" \"2.2\" \"3.3\" \"4.4\" \"5.5\" ]", "fn main() {\r\n    let x: Vec<String> = vec![ \"1.1\".to_string(), \"2.2\".to_string(), \"3.3\".to_string(), \"4.4\".to_string(), \"5.5\".to_string() ];\r\n}\r\n");
}

#[test]
fn test_pass_list_append() {
    assert_compiles_to("= list1 [ 1 ]\r\n= list2 [ 2 3 ]\r\n= appended List::append list1 list2", "fn main() {\r\n    let list1: Vec<i64> = vec![ 1 ];\r\n    let list2: Vec<i64> = vec![ 2, 3 ];\r\n    let appended: Vec<i64> = list1.clone().iter().cloned().chain(list2.clone().iter().cloned()).collect();\r\n}\r\n");
}

#[test]
fn test_pass_list_len() {
    assert_compiles_to("= list [ 1 2 3 ]\r\n= len List::len list", "fn main() {\r\n    let list: Vec<i64> = vec![ 1, 2, 3 ];\r\n    let len: i64 = list.clone().len() as i64;\r\n}\r\n");
}

#[test]
fn test_pass_list_map() {
    assert_compiles_to("= list [ 1 ]\r\n= mapfn \\ i64 i64 i => * i 100\r\n= mapped List::map list ( mapfn )", "fn main() {\r\n    let list: Vec<i64> = vec![ 1 ];\r\n    fn mapfn(i: i64) -> i64 {\r\n        i.clone() * 100\r\n    }\r\n    fn mapfn_for_list_map(i: &i64) -> i64 {\r\n        i.clone() * 100\r\n    }\r\nlet mapped: Vec<i64> = list.clone().iter().map(mapfn_for_list_map.clone()).collect();\r\n}\r\n");
}

#[test]
fn test_pass_list_reverse() {
    assert_compiles_to("= list [ 1 2 3 ]\r\n= reversed List::reverse list", "fn main() {\r\n    let list: Vec<i64> = vec![ 1, 2, 3 ];\r\n    let reversed: Vec<i64> = list.clone().into_iter().rev().collect();\r\n}\r\n");
}

#[test]
fn test_pass_list_reverse_float() {
    assert_compiles_to("= list [ 1.1 2.1 3.1 ]\r\n= reversed List::reverse list", "fn main() {\r\n    let list: Vec<f64> = vec![ 1.1, 2.1, 3.1 ];\r\n    let reversed: Vec<f64> = list.clone().into_iter().rev().collect();\r\n}\r\n");
}

#[test]
fn test_pass_internal_function_calls_plus() {
    assert_compiles_to("+ 1 2", "fn main() {\r\n    1 + 2;\r\n}\r\n");
}

#[test]
fn test_pass_internal_function_calls_negative() {
    assert_compiles_to("- 1.1 2.2", "fn main() {\r\n    1.1 - 2.2;\r\n}\r\n");
}

#[test]
fn test_pass_internal_function_calls_multiply() {
    assert_compiles_to("* 3 4", "fn main() {\r\n    3 * 4;\r\n}\r\n");
}

#[test]
fn test_pass_internal_function_calls_divide() {
    assert_compiles_to("/ 9 3", "fn main() {\r\n    9 / 3;\r\n}\r\n");
}

#[test]
fn test_pass_assign_type_inf_plus_int() {
    assert_compiles_to("= a + 1 2", "fn main() {\r\n    let a: i64 = 1 + 2;\r\n}\r\n");
}

#[test]
fn test_pass_assign_type_inf_plus_float() {
    assert_compiles_to("= a + 1.1 2.2", "fn main() {\r\n    let a: f64 = 1.1 + 2.2;\r\n}\r\n");
}

#[test]
fn test_pass_assign_type_inf_plus_minus_int() {
    assert_compiles_to("= a - 1 2", "fn main() {\r\n    let a: i64 = 1 - 2;\r\n}\r\n");
}

#[test]
fn test_pass_assign_type_inf_minus_float() {
    assert_compiles_to("= a - 1.1 2.2", "fn main() {\r\n    let a: f64 = 1.1 - 2.2;\r\n}\r\n");
}

#[test]
fn test_pass_assign_type_inf_multiply_int() {
    assert_compiles_to("= a * 1 2", "fn main() {\r\n    let a: i64 = 1 * 2;\r\n}\r\n");
}

#[test]
fn test_pass_assign_type_inf_multiply_float() {
    assert_compiles_to("= a * 1.1 2.2", "fn main() {\r\n    let a: f64 = 1.1 * 2.2;\r\n}\r\n");
}

#[test]
fn test_pass_assign_type_inf_divide_int() {
    assert_compiles_to("= a / 1 2", "fn main() {\r\n    let a: i64 = 1 / 2;\r\n}\r\n");
}

#[test]
fn test_pass_assign_type_inf_divide_float() {
    assert_compiles_to("= a / 1.1 2.2", "fn main() {\r\n    let a: f64 = 1.1 / 2.2;\r\n}\r\n");
}

#[test]
fn test_pass_assign_type_inf_modulo_int() {
    assert_compiles_to("= a % 1 2", "fn main() {\r\n    let a: i64 = 1 % 2;\r\n}\r\n");
}

#[test]
fn test_pass_assign_type_inf_modulo_float() {
    assert_compiles_to("= a % 1.1 2.2", "fn main() {\r\n    let a: f64 = 1.1 % 2.2;\r\n}\r\n");
}

#[test]
fn test_pass_constant() {
    assert_compiles_to("= a 123\r\na", "fn main() {\r\n    let a: i64 = 123;\r\n    a.clone();\r\n}\r\n");
}

#[test]
fn test_pass_assignment_string() {
    assert_compiles_to("= a \"string\"", "fn main() {\r\n    let a: String = \"string\".to_string();\r\n}\r\n");
}

#[test]
fn test_pass_assignment_int() {
    assert_compiles_to("= a 1", "fn main() {\r\n    let a: i64 = 1;\r\n}\r\n");
}

#[test]
fn test_pass_assignment_float() {
    assert_compiles_to("= a 1.1", "fn main() {\r\n    let a: f64 = 1.1;\r\n}\r\n");
}

#[test]
fn test_pass_assignment_float_neg() {
    assert_compiles_to("= a -1.7976931348623157E+308", "fn main() {\r\n    let a: f64 = -1.7976931348623157E+308;\r\n}\r\n");
}

#[test]
fn test_pass_assignment_arithmetic() {
    assert_compiles_to("= a + 1 2", "fn main() {\r\n    let a: i64 = 1 + 2;\r\n}\r\n");
}

#[test]
fn test_pass_assignment_internal_function_calls_with_references() {
    assert_compiles_to("= a + 1 2\r\n= b - 3 a", "fn main() {\r\n    let a: i64 = 1 + 2;\r\n    let b: i64 = 3 - a.clone();\r\n}\r\n");
}

#[test]
fn test_pass_nested_internal_function_call1() {
    assert_compiles_to("= a - + 1 2 3", "fn main() {\r\n    let a: i64 = 1 + 2 - 3;\r\n}\r\n");
}

#[test]
fn test_pass_nested_internal_function_call2() {
    assert_compiles_to("= a / * - + 1 2 3 4 5", "fn main() {\r\n    let a: i64 = 1 + 2 - 3 * 4 / 5;\r\n}\r\n");
}

#[test]
fn test_pass_nested_internal_function_call3() {
    assert_compiles_to("= a + 1 * 3 2", "fn main() {\r\n    let a: i64 = 1 + 3 * 2;\r\n}\r\n");
}

#[test]
fn test_pass_func_def_singleline1() {
    assert_compiles_to("= a \\ i64 => 123", "fn main() {\r\n    fn a() -> i64 {\r\n        123 as i64\r\n    }\r\n}\r\n");
}

#[test]
fn test_pass_func_def_singleline2() {
    assert_compiles_to("= a \\ i64 i64 arg1 => + 123 arg1", "fn main() {\r\n    fn a(arg1: i64) -> i64 {\r\n        123 + arg1.clone()\r\n    }\r\n}\r\n");
}

#[test]
fn test_pass_func_def_singleline_list() {
    assert_compiles_to("= a \\ [ i64 ] => [ 1 2 3 ]", "fn main() {\r\n    fn a() -> Vec<i64> {\r\n        vec![ 1, 2, 3 ]\r\n    }\r\n}\r\n");
}

#[test]
fn test_pass_func_def_singleline_nested_list() {
    assert_compiles_to("= a \\ [ [ i64 ] ] => [ [ 1 2 3 ] [ 4 5 6 ] ]", "fn main() {\r\n    fn a() -> Vec<Vec<i64>> {\r\n        vec![ vec![ 1, 2, 3 ], vec![ 4, 5, 6 ] ]\r\n    }\r\n}\r\n");
}

#[test]
fn test_pass_func_def_multiline1() {
    assert_compiles_to("= a \\ i64 i64 i64 arg1 arg2 =>\r\n+ arg1 arg2", "fn main() {\r\n    fn a(arg1: i64, arg2: i64) -> i64 {\r\n        arg1.clone() + arg2.clone()\r\n    }\r\n}\r\n");
}

#[test]
fn test_pass_func_def_multiline2() {
    assert_compiles_to("= a \\ i64 i64 i64 i64 arg1 arg2 arg3 =>\r\n= x + arg1 arg2\r\n+ x arg3", "fn main() {\r\n    fn a(arg1: i64, arg2: i64, arg3: i64) -> i64 {\r\n        let x: i64 = arg1.clone() + arg2.clone();\r\n        x.clone() + arg3.clone()\r\n    }\r\n}\r\n");
}

#[test]
fn test_pass_func_def_multiline_nested() {
    assert_compiles_to("= a \\ i64 i64 i64 i64 arg1 arg2 arg3 =>\r\n + arg1 + arg2 arg3", "fn main() {\r\n    fn a(arg1: i64, arg2: i64, arg3: i64) -> i64 {\r\n        arg1.clone() + arg2.clone() + arg3.clone()\r\n    }\r\n}\r\n");
}

#[test]
fn test_pass_func_def_multiline_const_assign_nested() {
    assert_compiles_to("= a \\ i64 i64 i64 arg1 arg2 =>\r\n= arg3 + arg2 123\r\n+ arg3 arg1", "fn main() {\r\n    fn a(arg1: i64, arg2: i64) -> i64 {\r\n        let arg3: i64 = arg2.clone() + 123;\r\n        arg3.clone() + arg1.clone()\r\n    }\r\n}\r\n");
}

#[test]
fn test_pass_func_def_multiline_several_semicolon_and_return() {
    assert_compiles_to("= a \\ i64 i64 i64 arg1 arg2 =>\r\n= b + arg1 123\r\n= c - b arg2\r\n= z * c 10\r\nz", "fn main() {\r\n    fn a(arg1: i64, arg2: i64) -> i64 {\r\n        let b: i64 = arg1.clone() + 123;\r\n        let c: i64 = b.clone() - arg2.clone();\r\n        let z: i64 = c.clone() * 10;\r\n        z.clone()\r\n    }\r\n}\r\n");
}

#[test]
fn test_pass_passing_func_as_args() {
    assert_compiles_to("= a \\ ( i64 i64 ) i64 i64 arg1 arg2 =>\r\n arg1 arg2\r\n= b \\ i64 i64 arg3 => + 123 arg3\r\n= c a ( b ) 456", "fn main() {\r\n    fn a(arg1: &dyn Fn(i64) -> i64, arg2: i64) -> i64 {\r\n        arg1(arg2.clone())\r\n    }\r\n    fn b(arg3: i64) -> i64 {\r\n        123 + arg3.clone()\r\n    }\r\n    let c: i64 = a(&b.clone(), 456);\r\n}\r\n");
}

#[test]
fn test_pass_define_struct() {
    assert_compiles_to("= newstruct { = firstname \"firstname\" = surname \"surname\" = age 21 }", "#[derive(Clone, Debug)]\r\npub struct Newstruct {\r\n    pub firstname: String,\r\n    pub surname: String,\r\n    pub age: i64,\r\n}\r\n\r\nimpl Newstruct {\r\n    pub fn new(\r\n        firstname: String,\r\n        surname: String,\r\n        age: i64,\r\n) -> Newstruct {\r\n        Newstruct {\r\n            firstname,\r\n            surname,\r\n            age,\r\n        }\r\n    }\r\n}\r\n\r\nfn main() {\r\n    let mut newstruct: Newstruct = Newstruct::new(\"firstname\".to_string(), \"surname\".to_string(), 21);\r\n}\r\n");
}

#[test]
fn test_pass_define_struct_debug_print() {
    assert_compiles_to("= newstruct { = firstname \"firstname\" = surname \"surname\" = age 21 }\r\n@ newstruct", "#[derive(Clone, Debug)]\r\npub struct Newstruct {\r\n    pub firstname: String,\r\n    pub surname: String,\r\n    pub age: i64,\r\n}\r\n\r\nimpl Newstruct {\r\n    pub fn new(\r\n        firstname: String,\r\n        surname: String,\r\n        age: i64,\r\n) -> Newstruct {\r\n        Newstruct {\r\n            firstname,\r\n            surname,\r\n            age,\r\n        }\r\n    }\r\n}\r\n\r\nfn main() {\r\n    let mut newstruct: Newstruct = Newstruct::new(\"firstname\".to_string(), \"surname\".to_string(), 21);\r\n    println!(\"{:?}\", &newstruct.clone());\r\n}\r\n");
}

#[test]
fn test_pass_type_inference_assign_to_constref() {
    assert_compiles_to("= a 123\r\n= aa a\r\n= aaa aa\r\n= aaaa aaa", "fn main() {\r\n    let a: i64 = 123;\r\n    let aa: i64 = a.clone();\r\n    let aaa: i64 = aa.clone();\r\n    let aaaa: i64 = aaa.clone();\r\n}\r\n");
}

#[test]
fn test_pass_type_inference_assign_to_funccall() {
    assert_compiles_to("= a + 1 2", "fn main() {\r\n    let a: i64 = 1 + 2;\r\n}\r\n");
}

#[test]
fn test_pass_type_inference_assign_to_constref_of_funccall() {
    assert_compiles_to("= a + 1 2\r\n= aa a\r\n= aaa aa\r\n= aaaa aaa", "fn main() {\r\n    let a: i64 = 1 + 2;\r\n    let aa: i64 = a.clone();\r\n    let aaa: i64 = aa.clone();\r\n    let aaaa: i64 = aaa.clone();\r\n}\r\n");
}

#[test]
fn test_pass_fndef_return_statement() {
    assert_compiles_to("= a \\ i64 => ? == 1 1 1 0\r\na", "fn main() {\r\n    fn a() -> i64 {\r\n        if 1 == 1 {\r\n            1\r\n        } else {\r\n            0\r\n        }\r\n    }\r\n    a();\r\n}\r\n");
}

#[test]
fn test_pass_funccall_zero_args() {
    assert_compiles_to("//define function\r\n= a \\ i64 =>\r\n123\r\n\r\n//call function\r\na", "fn main() {\r\n    //define function\r\n    fn a() -> i64 {\r\n        123 as i64\r\n    }\r\n    //call function\r\n    a();\r\n}\r\n");
}

#[test]
fn test_pass_funccall_one_arg() {
    assert_compiles_to("//define function\r\n= a \\ i64 i64 arg1 =>\r\narg1\r\n\r\n//call function\r\na 123", "fn main() {\r\n    //define function\r\n    fn a(arg1: i64) -> i64 {\r\n        arg1.clone()\r\n    }\r\n    //call function\r\n    a(123);\r\n}\r\n");
}

#[test]
fn test_pass_funccall_two_args_eval_internal_func_call() {
    assert_compiles_to("//define function\r\n= a \\ i64 i64 i64 arg1 arg2 =>\r\n+ arg1 arg2\r\n\r\n//call function\r\na + 123 456 789", "fn main() {\r\n    //define function\r\n    fn a(arg1: i64, arg2: i64) -> i64 {\r\n        arg1.clone() + arg2.clone()\r\n    }\r\n    //call function\r\n    a(123 + 456, 789);\r\n}\r\n");
}

#[test]
fn test_pass_println_int() {
    assert_compiles_to("@ 1", "fn main() {\r\n    println!(\"{}\", 1);\r\n}\r\n");
}

#[test]
fn test_pass_println_float() {
    assert_compiles_to("@ 1.23", "fn main() {\r\n    println!(\"{}\", 1.23);\r\n}\r\n");
}

#[test]
fn test_pass_println_string() {
    assert_compiles_to("@ \"Hello, world\"", "fn main() {\r\n    println!(\"{}\", \"Hello, world\".to_string());\r\n}\r\n");
}

#[test]
fn test_pass_println_fn_call() {
    assert_compiles_to("@ + 1 2", "fn main() {\r\n    println!(\"{}\", 1 + 2);\r\n}\r\n");
}

#[test]
fn test_pass_println_constantref() {
    assert_compiles_to("= a 1\r\n@ a", "fn main() {\r\n    let a: i64 = 1;\r\n    println!(\"{}\", a.clone());\r\n}\r\n");
}

#[test]
fn test_pass_println_constantref_twice() {
    assert_compiles_to("= a 1\r\n= b a\r\n@ b", "fn main() {\r\n    let a: i64 = 1;\r\n    let b: i64 = a.clone();\r\n    println!(\"{}\", b.clone());\r\n}\r\n");
}

#[test]
fn test_pass_println_from_fn_def() {
    assert_compiles_to("= a \\ i64 => 1\r\n@ a", "fn main() {\r\n    fn a() -> i64 {\r\n        1 as i64\r\n    }\r\n    println!(\"{}\", a());\r\n}\r\n");
}

#[test]
fn test_pass_if() {
    assert_compiles_to("? true 1 0", "fn main() {\r\n    if true {\r\n        1\r\n    } else {\r\n        0\r\n    };\r\n}\r\n");
}

#[test]
fn test_pass_if_assignment() {
    assert_compiles_to("= get_true \\ bool => true\r\n? get_true 1 0", "fn main() {\r\n    fn get_true() -> bool {\r\n        true\r\n    }\r\n    if get_true() {\r\n        1\r\n    } else {\r\n        0\r\n    };\r\n}\r\n");
}

#[test]
fn test_pass_if_fn_assignment() {
    assert_compiles_to("= get_truer \\ i64 bool arg1 => > arg1 5\r\n? get_truer 10 1 0", "fn main() {\r\n    fn get_truer(arg1: i64) -> bool {\r\n        arg1.clone() > 5\r\n    }\r\n    if get_truer(10) {\r\n        1\r\n    } else {\r\n        0\r\n    };\r\n}\r\n");
}

#[test]
fn test_pass_if_assignment_with_if_expr() {
    assert_compiles_to("= a ? true 1 0", "fn main() {\r\n    let a: i64 =             if true {\r\n                1\r\n            } else {\r\n                0\r\n            };\r\n}\r\n");
}

#[test]
fn test_pass_example_fibonacci() {
    assert_compiles_to("= fibonacci \\ i64 i64 n => ? < n 2 1 + fibonacci - n 1 fibonacci - n 2\r\n@ fibonacci 10", "fn main() {\r\n    fn fibonacci(n: i64) -> i64 {\r\n        if n.clone() < 2 {\r\n            1\r\n        } else {\r\n            fibonacci(n.clone() - 1) + fibonacci(n.clone() - 2)\r\n        }\r\n    }\r\n    println!(\"{}\", fibonacci(10));\r\n}\r\n");
}
