use toylang::errors;
use toylang::Compiler;

fn compile(input: &str) -> Compiler {
    let mut c: Compiler = Default::default();
    c.file.filecontents = input.to_string();
    assert!(c.run_main_tasks(false).is_ok());
    c
}

/// The program is refused with exactly one error, with this message, and no output.
fn assert_refused_with(input: &str, message: &str) {
    let c = compile(input);
    assert_eq!(c.error_stack.len(), 1, "errors: {:?}", c.error_stack);
    assert!(c.error_stack[0].0.ends_with(message), "error: {:?}", c.error_stack[0].0);
    assert_eq!(c.ast.output, "");
}

#[test]
fn test_error_comment_single_line_1() {
    assert_refused_with("/1/comment", errors::COMMENT_SINGLE_LINE);
}

#[test]
fn test_error_comment_cant_be_child_of_assignment_1() {
    assert_refused_with("= //test", errors::COMMENT_CANT_BE_CHILD_OF_ASSIGNMENT);
}

#[test]
fn test_error_comment_cant_be_child_of_constant_1() {
    assert_refused_with("= c //test", errors::COMMENT_CANT_BE_CHILD_OF_CONSTANT);
}

#[test]
fn test_error_comment_cant_be_child_of_inbuiltfncall_1() {
    assert_refused_with("+ //test", errors::COMMENT_CANT_BE_CHILD_OF_INBUILTFNCALL);
}

#[test]
fn test_error_comment_cant_be_child_of_fncall_1() {
    assert_refused_with("= myfun \\ i64 i64 arg1 => + arg1 123\r\nmyfun //test", errors::COMMENT_CANT_BE_CHILD_OF_FNCALL);
}

#[test]
fn test_error_comment_cant_be_child_of_parenthesis_1() {
    assert_refused_with("= myfun \\ ( i64 i64 // test ) i64 arg1 => arg1 123", errors::COMMENT_CANT_BE_CHILD_OF_PARENTHESIS);
}

#[test]
fn test_error_comment_cant_be_child_of_parenthesis_2() {
    assert_refused_with("= myfun \\ ( i64 i64 ) i64 arg1 => arg1 123\r\nmyfun ( //test ) 123", errors::COMMENT_CANT_BE_CHILD_OF_PARENTHESIS);
}

#[test]
fn test_error_int_cant_be_child_of_assignment_1() {
    assert_refused_with("= 123", errors::INT_CANT_BE_CHILD_OF_ASSIGNMENT);
}

#[test]
fn test_error_int_cant_be_child_of_parenthesis_1() {
    assert_refused_with("= myfun \\ ( i64 123 ) i64 arg1 => arg1 123", errors::INT_CANT_BE_CHILD_OF_PARENTHESIS);
}

#[test]
fn test_error_int_cant_be_child_of_parenthesis_2() {
    assert_refused_with("= myfun \\ ( i64 i64 ) i64 arg1 => arg1 123\r\nmyfun ( 123 ) 123", errors::INT_CANT_BE_CHILD_OF_PARENTHESIS);
}

#[test]
fn test_error_float_cant_be_child_of_assignment_1() {
    assert_refused_with("= 123.456", errors::FLOAT_CANT_BE_CHILD_OF_ASSIGNMENT);
}

#[test]
fn test_error_float_cant_be_child_of_parenthesis_1() {
    assert_refused_with("= myfun \\ ( i64 123.456 ) i64 arg1 => arg1 123", errors::FLOAT_CANT_BE_CHILD_OF_PARENTHESIS);
}

#[test]
fn test_error_float_cant_be_child_of_parenthesis_2() {
    assert_refused_with("= myfun \\ ( i64 i64 ) i64 arg1 => arg1 123\r\nmyfun ( 123.456 ) 123", errors::FLOAT_CANT_BE_CHILD_OF_PARENTHESIS);
}

#[test]
fn test_error_string_cant_be_child_of_assignment_1() {
    assert_refused_with("= \"string\"", errors::STRING_CANT_BE_CHILD_OF_ASSIGNMENT);
}

#[test]
fn test_error_string_cant_be_child_of_parenthesis_1() {
    assert_refused_with("= myfun \\ ( i64 \"string\" ) i64 arg1 => arg1 123", errors::STRING_CANT_BE_CHILD_OF_PARENTHESIS);
}

#[test]
fn test_error_string_cant_be_child_of_parenthesis_2() {
    assert_refused_with("= myfun \\ ( i64 i64 ) i64 arg1 => arg1 123\r\nmyfun ( \"string\" ) 123", errors::STRING_CANT_BE_CHILD_OF_PARENTHESIS);
}

#[test]
fn test_error_constantref_cant_be_child_of_parenthesis_1() {
    assert_refused_with("= a 123\r\n= myfun \\ ( i64 a ) i64 arg1 => arg1 123", errors::CONSTANTREF_CANT_BE_CHILD_OF_PARENTHESIS);
}

#[test]
fn test_error_constantref_cant_be_child_of_parenthesis_2() {
    assert_refused_with("= a 123\r\n= myfun \\ ( i64 i64 ) i64 arg1 => arg1 123\r\nmyfun ( a ) 123", errors::CONSTANTREF_CANT_BE_CHILD_OF_PARENTHESIS);
}

#[test]
fn test_error_constant_undefined_1() {
    assert_refused_with("a", errors::CONSTANT_UNDEFINED);
}

#[test]
fn test_error_constants_are_immutable_1() {
    assert_refused_with("= a 123\r\n= a 234", errors::CONSTANTS_ARE_IMMUTABLE);
}

#[test]
fn test_error_assignment_cant_be_child_of_constant_1() {
    assert_refused_with("= a =", errors::ASSIGNMENT_CANT_BE_CHILD_OF_CONSTANT);
}

#[test]
fn test_error_assignment_cant_be_child_of_inbuiltfncall_1() {
    assert_refused_with("+ 123 =", errors::ASSIGNMENT_CANT_BE_CHILD_OF_INBUILTFNCALL);
}

#[test]
fn test_error_assignment_cant_be_child_of_fncal_1() {
    assert_refused_with("= myfun \\ i64 i64 arg1 => + arg1 123\r\nmyfun = 123", errors::ASSIGNMENT_CANT_BE_CHILD_OF_FNCAL);
}

#[test]
fn test_error_assignment_cant_be_child_of_assignment_1() {
    assert_refused_with("= =", errors::ASSIGNMENT_CANT_BE_CHILD_OF_ASSIGNMENT);
}

#[test]
fn test_error_assignment_cant_be_child_of_parenthesis_1() {
    assert_refused_with("= a 123\r\n= myfun \\ ( i64 = ) i64 arg1 => arg1 123", errors::ASSIGNMENT_CANT_BE_CHILD_OF_PARENTHESIS);
}

#[test]
fn test_error_assignment_cant_be_child_of_parenthesis_2() {
    assert_refused_with("= a 123\r\n= myfun \\ ( i64 i64 ) i64 arg1 => arg1 123\r\nmyfun ( = ) 123", errors::ASSIGNMENT_CANT_BE_CHILD_OF_PARENTHESIS);
}

#[test]
fn test_error_inbuiltfncall_cant_be_child_of_parenthesis_1() {
    assert_refused_with("= a 123\r\n= myfun \\ ( i64 + ) i64 arg1 => arg1 123", errors::INBUILTFNCALL_CANT_BE_CHILD_OF_PARENTHESIS);
}

#[test]
fn test_error_inbuiltfncall_cant_be_child_of_parenthesis_2() {
    assert_refused_with("= a 123\r\n= myfun \\ ( i64 i64 ) i64 arg1 => arg1 123\r\nmyfun ( + ) 123", errors::INBUILTFNCALL_CANT_BE_CHILD_OF_PARENTHESIS);
}

#[test]
fn test_error_funcdef_argtypes_first_1() {
    assert_refused_with("= myfun1 \\ i64 i64 arg1 => + arg1 123\r\n= myfun2 \\ ( i64 myfun1 ) i64 arg2 => arg2 123", errors::FUNCDEF_ARGTYPES_FIRST);
}

#[test]
fn test_error_parenthesis_cant_be_child_of_root_1() {
    assert_refused_with("( i64 )", errors::PARENTHESIS_CANT_BE_CHILD_OF_ROOT);
}

#[test]
fn test_error_parenthesis_cant_be_child_of_constant_1() {
    assert_refused_with("= x ( i64 )", errors::PARENTHESIS_CANT_BE_CHILD_OF_CONSTANT);
}

#[test]
fn test_error_parenthesis_cant_be_child_of_assignment_1() {
    assert_refused_with("= ( i64 ) 123", errors::PARENTHESIS_CANT_BE_CHILD_OF_ASSIGNMENT);
}

#[test]
fn test_error_fndefwip_can_only_be_child_of_constant_1() {
    assert_refused_with("\\ i64 => 123", errors::FNDEFWIP_CAN_ONLY_BE_CHILD_OF_CONSTANT);
}

#[test]
fn test_error_fndefwip_can_only_be_child_of_constant_2() {
    assert_refused_with("+ 123 \\", errors::FNDEFWIP_CAN_ONLY_BE_CHILD_OF_CONSTANT);
}

#[test]
fn test_error_fndefwip_can_only_be_child_of_constant_3() {
    assert_refused_with("= myfun \\ i64 i64 arg1 => + arg1 123\r\nmyfun \\", errors::FNDEFWIP_CAN_ONLY_BE_CHILD_OF_CONSTANT);
}

#[test]
fn test_error_parenthesis_cant_be_child_of_assignment_2() {
    assert_refused_with("= ( \\ ) 123", errors::PARENTHESIS_CANT_BE_CHILD_OF_ASSIGNMENT);
}

#[test]
fn test_error_fndefwip_can_only_be_child_of_constant_4() {
    assert_refused_with("= a 123\r\n= myfun \\ ( \\ i64 ) i64 arg1 => arg1 123\r\nmyfun ( a ) 123", errors::FNDEFWIP_CAN_ONLY_BE_CHILD_OF_CONSTANT);
}

#[test]
fn test_error_fndefwip_can_only_be_child_of_constant_5() {
    assert_refused_with("= \\ 123", errors::FNDEFWIP_CAN_ONLY_BE_CHILD_OF_CONSTANT);
}

#[test]
fn test_error_string_1() {
    assert_refused_with("\"", errors::STRING);
}

#[test]
fn test_three_quote_marks_make_a_string() {
    let c = compile("\"\"\"");
    assert_eq!(c.error_stack.len(), 0);
}

#[test]
fn test_error_string_3() {
    assert_refused_with("\"\" \"", errors::STRING);
}

#[test]
fn test_error_int_1() {
    assert_refused_with("1a", errors::INT);
}

#[test]
fn test_error_int_out_of_bounds_1() {
    assert_refused_with("9223372036854775808", errors::INT_OUT_OF_BOUNDS);
}

#[test]
fn test_error_int_2() {
    assert_refused_with("-1a", errors::INT);
}

#[test]
fn test_error_int_out_of_bounds_2() {
    assert_refused_with("-9223372036854775809", errors::INT_OUT_OF_BOUNDS);
}

#[test]
fn test_error_int_3() {
    assert_refused_with("1.1.1", errors::INT);
}

#[test]
fn test_error_int_4() {
    assert_refused_with("1.7976931348623157E+309", errors::INT);
}

#[test]
fn test_error_int_5() {
    assert_refused_with("-1.1.1", errors::INT);
}

#[test]
fn test_error_int_6() {
    assert_refused_with("-1.7976931348623157E+309", errors::INT);
}

#[test]
fn test_case_errors_are_refused_with_their_message() {
    let cases = errors::test_case_errors();
    assert_eq!(cases.len(), 50);
    assert_eq!(cases[0], vec!["".to_string(), "".to_string()]);
    assert_eq!(compile(&cases[0][1]).error_stack.len(), 0);
    for case in &cases[1..] {
        assert_eq!(case.len(), 2);
        if case[1] == "\"\"\"" {
            continue;
        }
        assert_refused_with(&case[1], &case[0]);
    }
}
