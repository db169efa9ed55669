use c1_parser::{C1Parser, C1Token};

#[test]
fn parse_empty_program() {
    assert_eq!(C1Parser::parse(""), Ok(()));
    assert_eq!(C1Parser::parse("   "), Ok(()));
    assert_eq!(C1Parser::parse("// This is a valid comment!"), Ok(()));
    assert_eq!(C1Parser::parse("/* This is a valid comment!\nIn two lines!*/\n"), Ok(()));
    assert_eq!(C1Parser::parse("  \n "), Ok(()));
}

#[test]
fn fail_invalid_program() {
    assert!(C1Parser::parse("  bool  ").is_err());
    assert!(C1Parser::parse("int x = 0;").is_err());
    assert!(C1Parser::parse("// A valid comment\nInvalid line.").is_err());
}

#[test]
fn valid_function() {
    assert!(C1Parser::parse("  void foo() {}  ").is_ok());
    assert!(C1Parser::parse("int bar() {return 0;}").is_ok());
    assert!(C1Parser::parse(
        "float calc() {\n\
        x = 1.0;
        y = 2.2;
        return x + y;
        \n\
        }",
    )
    .is_ok());
}

#[test]
fn fail_invalid_function() {
    assert!(C1Parser::parse("  void foo()) {}  ").is_err());
    assert!(C1Parser::parse("const bar() {return 0;}").is_err());
    assert!(C1Parser::parse(
        "int bar() {
            return 0;
        int foo() {}",
    )
    .is_err());
    assert!(C1Parser::parse(
        "float calc(int invalid) {\n\
        int x = 1.0;
        int y = 2.2;
        return x + y;
        \n\
        }",
    )
    .is_err());
}

#[test]
fn fail_nested_function_definition() {
    assert!(C1Parser::parse("int bar() { return 0; int foo() {} }").is_err());
}

#[test]
fn valid_function_call() {
    assert!(C1Parser::initialize_parser("foo()").function_call().is_ok());
    assert!(C1Parser::initialize_parser("foo( )").function_call().is_ok());
    assert!(C1Parser::initialize_parser("bar23( )").function_call().is_ok());
}

#[test]
fn fail_invalid_function_call() {
    assert!(C1Parser::initialize_parser("foo)").function_call().is_err());
    assert!(C1Parser::initialize_parser("foo{ )").function_call().is_err());
    assert!(C1Parser::initialize_parser("bar _foo( )").function_call().is_err());
}

#[test]
fn valid_statement_list() {
    assert!(C1Parser::initialize_parser("x = 4;").statement_list().is_ok());
    assert!(C1Parser::initialize_parser(
        "x = 4;\n\
        y = 2.1;"
    )
    .statement_list()
    .is_ok());
    assert!(C1Parser::initialize_parser(
        "x = 4;\n\
        {\
        foo();\n\
        }"
    )
    .statement_list()
    .is_ok());
    assert!(C1Parser::initialize_parser("{x = 4;}\ny = 1;\nfoo();\n{}").statement_list().is_ok());
}

#[test]
fn fail_invalid_statement_list() {
    assert!(C1Parser::initialize_parser(
        "x = 4\n\
        y = 2.1;"
    )
    .statement_list()
    .is_err());
    assert!(C1Parser::initialize_parser(
        "x = 4;\n\
        {\
        foo();"
    )
    .statement_list()
    .is_err());
    assert!(C1Parser::initialize_parser("{x = 4;\ny = 1;\nfoo;\n{}").statement_list().is_err());
}

#[test]
fn valid_if_statement() {
    assert!(C1Parser::initialize_parser("if(x == 1) {}").if_statement().is_ok());
    assert!(C1Parser::initialize_parser("if(x == y) {}").if_statement().is_ok());
    assert!(C1Parser::initialize_parser("if(z) {}").if_statement().is_ok());
    assert!(C1Parser::initialize_parser("if(true) {}").if_statement().is_ok());
    assert!(C1Parser::initialize_parser("if(false) {}").if_statement().is_ok());
}

#[test]
fn fail_invalid_if_statement() {
    assert!(C1Parser::initialize_parser("if(x == ) {}").if_statement().is_err());
    assert!(C1Parser::initialize_parser("if( == y) {}").if_statement().is_err());
    assert!(C1Parser::initialize_parser("if(> z) {}").if_statement().is_err());
    assert!(C1Parser::initialize_parser("if( {}").if_statement().is_err());
    assert!(C1Parser::initialize_parser("if(false) }").if_statement().is_err());
}

#[test]
fn valid_return_statement() {
    assert!(C1Parser::initialize_parser("return x").return_statement().is_ok());
    assert!(C1Parser::initialize_parser("return 1").return_statement().is_ok());
    assert!(C1Parser::initialize_parser("return").return_statement().is_ok());
}

#[test]
fn fail_invalid_return_statement() {
    assert!(C1Parser::initialize_parser("1").return_statement().is_err());
}

#[test]
fn valid_printf_statement() {
    assert!(C1Parser::initialize_parser(" printf(a+b)").printf().is_ok());
    assert!(C1Parser::initialize_parser("printf( 1)").printf().is_ok());
    assert!(C1Parser::initialize_parser("printf(a - c)").printf().is_ok());
}

#[test]
fn fail_invalid_printf_statement() {
    assert!(C1Parser::initialize_parser("printf( ").printf().is_err());
    assert!(C1Parser::initialize_parser("printf(printf)").printf().is_err());
    assert!(C1Parser::initialize_parser("Printf()").printf().is_err());
}

#[test]
fn valid_return_type() {
    assert!(C1Parser::initialize_parser("void").return_type().is_ok());
    assert!(C1Parser::initialize_parser("bool").return_type().is_ok());
    assert!(C1Parser::initialize_parser("int").return_type().is_ok());
    assert!(C1Parser::initialize_parser("float").return_type().is_ok());
}

#[test]
fn valid_assignment() {
    assert!(C1Parser::initialize_parser("x = y").assignment().is_ok());
    assert!(C1Parser::initialize_parser("x =y").assignment().is_ok());
    assert!(C1Parser::initialize_parser("1 + 2").assignment().is_ok());
}

#[test]
fn valid_stat_assignment() {
    assert!(C1Parser::initialize_parser("x = y").stat_assignment().is_ok());
    assert!(C1Parser::initialize_parser("x =y").stat_assignment().is_ok());
    assert!(C1Parser::initialize_parser("x =y + t").stat_assignment().is_ok());
}

#[test]
fn valid_factor() {
    assert!(C1Parser::initialize_parser("4").factor().is_ok());
    assert!(C1Parser::initialize_parser("1.2").factor().is_ok());
    assert!(C1Parser::initialize_parser("true").factor().is_ok());
    assert!(C1Parser::initialize_parser("foo()").factor().is_ok());
    assert!(C1Parser::initialize_parser("x").factor().is_ok());
    assert!(C1Parser::initialize_parser("(x + y)").factor().is_ok());
}

#[test]
fn fail_invalid_factor() {
    assert!(C1Parser::initialize_parser("if").factor().is_err());
    assert!(C1Parser::initialize_parser("(4").factor().is_err());
    assert!(C1Parser::initialize_parser("bool").factor().is_err());
}

#[test]
fn multiple_functions() {
    assert!(C1Parser::parse("void main() { hello();}\nfloat bar() {return 1.0;}").is_ok());
}

#[test]
fn identifier_lookahead_selects_assignment_or_call() {
    assert!(C1Parser::initialize_parser("x = 1;").statement().is_ok());
    assert!(C1Parser::initialize_parser("foo();").statement().is_ok());
    assert!(C1Parser::initialize_parser("x + 1;").statement().is_err());
    assert!(C1Parser::initialize_parser("x;").statement().is_err());
}

#[test]
fn if_statement_takes_no_semicolon_others_require_one() {
    assert!(C1Parser::initialize_parser("if(x) {}").statement().is_ok());
    assert!(C1Parser::initialize_parser("return 0;").statement().is_ok());
    assert!(C1Parser::initialize_parser("return 0").statement().is_err());
    assert!(C1Parser::initialize_parser("printf(1)").statement().is_err());
    assert!(C1Parser::initialize_parser("foo()").statement().is_err());
}

#[test]
fn error_message_cites_line_and_text() {
    let r = C1Parser::parse("void foo()) {}");
    assert_eq!(
        r,
        Err(String::from("Expected '{' after function name at line 1 with text: ')'"))
    );
}

#[test]
fn error_message_cites_later_line() {
    let r = C1Parser::parse("void foo() {\n@\n}");
    assert_eq!(r, Err(String::from("Invalid statement list at line 2 with text: '@'")));
}

#[test]
fn error_message_at_end_of_input() {
    let r = C1Parser::parse("void foo(");
    assert_eq!(r, Err(String::from("Expected ')' after function parameters. Reached EOF")));
}

#[test]
fn inner_failures_propagate_unmodified() {
    let mut p = C1Parser::initialize_parser("if(x == ) {}");
    assert_eq!(
        p.if_statement(),
        Err(String::from("Invalid factor at line 1 with text: ')'"))
    );
    assert_eq!(
        C1Parser::parse("int bar() { return 0; int foo() {} }"),
        Err(String::from("Invalid statement list at line 1 with text: 'int'"))
    );
}

#[test]
fn relational_operators_do_not_chain() {
    assert!(C1Parser::parse("int f() { if(a < b) {} return 0; }").is_ok());
    assert!(C1Parser::parse("int f() { if(a < b < c) {} return 0; }").is_err());
}

#[test]
fn unary_minus_appears_at_most_once() {
    assert!(C1Parser::parse("int f() { x = -1; return x; }").is_ok());
    assert!(C1Parser::parse("int f() { x = - - 1; return x; }").is_err());
}

#[test]
fn operators_associate_by_level() {
    assert!(C1Parser::parse("int f() { x = 1 + 2 - 3 * 4 / 5; return x || y && z; }").is_ok());
    assert!(C1Parser::parse("bool g() { return a == b; }").is_ok());
}

#[test]
fn unknown_character_is_rejected() {
    assert!(C1Parser::parse("void foo() { x = $; }").is_err());
    assert!(C1Parser::parse("int f() { x = 12.; }").is_err());
}

#[test]
fn check_and_eat_tokens_walks_the_whole_slice() {
    let mut p = C1Parser::initialize_parser("foo (");
    assert!(p
        .check_and_eat_tokens(&[C1Token::Identifier, C1Token::LeftParenthesis], "mismatch")
        .is_ok());
    assert_eq!(p.current_token(), None);

    let mut q = C1Parser::initialize_parser("( )");
    let r = q.check_and_eat_tokens(&[C1Token::Identifier, C1Token::LeftParenthesis], "mismatch");
    assert!(r.is_err());
    assert_eq!(q.current_token(), Some(C1Token::RightParenthesis));
}

#[test]
fn parsing_twice_gives_the_same_result() {
    let accepted = "float calc() { x = 1.0; y = 2.2; return x + y; }";
    assert_eq!(C1Parser::parse(accepted), C1Parser::parse(accepted));
    let rejected = "void foo()) {}";
    assert_eq!(C1Parser::parse(rejected), C1Parser::parse(rejected));
}

#[test]
fn comment_only_input_is_an_empty_program() {
    assert!(C1Parser::parse("// just a comment").is_ok());
    assert!(C1Parser::parse("/* block */ // line").is_ok());
    assert!(C1Parser::parse("/* a block comment that never closes").is_ok());
}

#[test]
fn error_messages_follow_the_cursor() {
    let p = C1Parser::initialize_parser("a b");
    assert_eq!(p.error_message_current("Oops"), String::from("Oops at line 1 with text: 'a'"));
    assert_eq!(p.error_message_peek("Oops"), String::from("Oops at line 1 with text: 'b'"));
    let q = C1Parser::initialize_parser("");
    assert_eq!(q.error_message_current("Oops"), String::from("Oops. Reached EOF"));
}

#[test]
fn error_message_renders_multi_digit_line_numbers() {
    let text = "\n\n\n\n\n\n\n\n\n\n\nvoid foo() { @ }";
    let r = C1Parser::parse(text);
    assert_eq!(r, Err(String::from("Invalid statement list at line 12 with text: '@'")));
}

#[test]
fn token_match_helpers_compare_by_variant() {
    let p = C1Parser::initialize_parser("x = 1;");
    assert!(p.current_matches(&C1Token::Identifier));
    assert!(!p.current_matches(&C1Token::ConstInt));
    assert!(p.next_matches(&C1Token::Assign));
    assert!(!p.next_matches(&C1Token::Semicolon));
}

#[test]
fn any_match_helpers_look_at_the_current_token() {
    let mut p = C1Parser::initialize_parser("+ 1");
    assert!(p.any_match_current(&[C1Token::Plus, C1Token::Minus, C1Token::Or]));
    assert!(!p.any_match_current(&[C1Token::Asterisk, C1Token::Slash]));
    let msg = String::from("expected an additive operator");
    assert!(p.any_match_and_eat(&[C1Token::Plus, C1Token::Minus], &msg).is_ok());
    assert_eq!(p.current_token(), Some(C1Token::ConstInt));
    let r = p.any_match_and_eat(&[C1Token::Plus, C1Token::Minus], &msg);
    assert_eq!(r, Err(msg));
}
