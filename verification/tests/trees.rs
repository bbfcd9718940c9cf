//! The parser, by the trees it builds.

use rlox::ast::{AstPrinter, Expr};
use rlox::errors::Error;
use rlox::grammar::{FunctionKind, Rule, SyntaxError};
use rlox::parser::{message, Parser};
use rlox::scanner::Scanner;
use rlox::statement::{Stmt, Visitor};
use rlox::tokens::{Literal, Token, TokenType};

fn parser(source: &str) -> Parser {
    let mut scanner = Scanner::new(source.to_string());
    let tokens = scanner.scan_tokens();
    assert!(scanner.errors().is_empty());
    Parser::new(tokens)
}

fn parse(source: &str) -> Vec<Stmt> {
    parser(source).parse().expect("the source parses")
}

fn errors(source: &str) -> Vec<SyntaxError> {
    let mut parser = parser(source);
    assert!(matches!(parser.parse(), Err(Error::Parse)));
    parser.errors().clone()
}

/// The prefix form of the expression statement that `source` is.
fn shape(source: &str) -> String {
    let statements = parse(source);
    assert_eq!(statements.len(), 1);
    match &statements[0] {
        Stmt::Expression(expr) => AstPrinter {}.print(expr),
        other => panic!("expected an expression statement, got {:?}", other),
    }
}

#[test]
fn test_ast() {
    let expr = Expr::Binary {
        left: Box::new(Expr::Unary {
            operator: Token::new(TokenType::MINUS, "-".to_string(), Literal::Nil, 1),
            right: Box::new(Expr::Literal { value: Literal::Number("123".to_string()) }),
        }),
        operator: Token::new(TokenType::STAR, "*".to_string(), Literal::Nil, 1),
        right: Box::new(Expr::Grouping {
            expression: Box::new(Expr::Literal { value: Literal::Number("45.67".to_string()) }),
        }),
    };
    let printer = AstPrinter {};
    assert_eq!(printer.print(&expr), "(* (- 123) (group 45.67))");
    assert_eq!(expr.accept(&printer).unwrap(), "(* (- 123) (group 45.67))");
}

#[test]
fn the_printer_writes_every_kind_of_expression() {
    assert_eq!(shape("a = f(1, \"two\", nil, true).g or !false;"), "(= a (or (. (call f 1 two nil true) g) (! false)))");
    assert_eq!(shape("f();"), "(call f)");
}

#[test]
fn factors_bind_tighter_than_terms() {
    assert_eq!(shape("1 + 2 * 3;"), "(+ 1 (* 2 3))");
    assert_eq!(shape("1 * 2 + 3;"), "(+ (* 1 2) 3)");
    assert_eq!(shape("1 - 2 / 3 - 4;"), "(- (- 1 (/ 2 3)) 4)");
}

#[test]
fn binary_operators_associate_to_the_left() {
    assert_eq!(shape("1 - 2 - 3;"), "(- (- 1 2) 3)");
    assert_eq!(shape("8 / 4 / 2;"), "(/ (/ 8 4) 2)");
    assert_eq!(shape("a == b != c;"), "(!= (== a b) c)");
    assert_eq!(shape("a < b <= c;"), "(<= (< a b) c)");
}

#[test]
fn the_levels_of_precedence() {
    assert_eq!(shape("a or b and c == d < e + f * -g;"), "(or a (and b (== c (< d (+ e (* f (- g)))))))");
    assert_eq!(shape("1 < 2 == 3 > 4;"), "(== (< 1 2) (> 3 4))");
    assert_eq!(shape("a and b or c and d;"), "(or (and a b) (and c d))");
}

#[test]
fn assignment_associates_to_the_right() {
    assert_eq!(shape("a = b = c;"), "(= a (= b c))");
    assert_eq!(shape("a = b or c;"), "(= a (or b c))");
}

#[test]
fn unary_operators_nest() {
    assert_eq!(shape("!!a;"), "(! (! a))");
    assert_eq!(shape("-!-a;"), "(- (! (- a)))");
    assert_eq!(shape("-a.b;"), "(- (. a b))");
    assert_eq!(shape("-f(1);"), "(- (call f 1))");
}

#[test]
fn grouping_is_kept_in_the_tree() {
    assert_eq!(shape("(1 + 2) * 3;"), "(* (group (+ 1 2)) 3)");
    assert_eq!(shape("((a));"), "(group (group a))");
}

#[test]
fn calls_and_property_accesses_chain() {
    assert_eq!(shape("f(1, 2)(3).g.h(4);"), "(call (. (. (call (call f 1 2) 3) g) h) 4)");
}

#[test]
fn the_closing_parenthesis_of_a_call_is_kept() {
    let statements = parse("f(a,\n b\n);");
    match &statements[0] {
        Stmt::Expression(Expr::Call { paren, arguments, .. }) => {
            assert_eq!(paren.token_type, TokenType::RIGHT_PAREN);
            assert_eq!(paren.line, 3);
            assert_eq!(arguments.len(), 2);
        }
        other => panic!("expected a call, got {:?}", other),
    }
}

#[test]
fn a_for_loop_becomes_a_block_with_a_while_loop() {
    let statements = parse("for (var i = 0; i < 3; i = i + 1) print i;");
    assert_eq!(statements.len(), 1);
    let Stmt::Block { statements: outer } = &statements[0] else {
        panic!("expected a block");
    };
    assert_eq!(outer.len(), 2);
    assert!(matches!(&outer[0], Stmt::Variable { name, initializer: Some(_) } if name.lexeme == "i"));
    let Stmt::While { condition, body } = &outer[1] else {
        panic!("expected a while loop");
    };
    assert_eq!(AstPrinter {}.print(condition), "(< i 3)");
    let Stmt::Block { statements: inner } = &**body else {
        panic!("expected a block as body");
    };
    assert_eq!(inner.len(), 2);
    assert!(matches!(&inner[0], Stmt::Print(_)));
    match &inner[1] {
        Stmt::Expression(step) => assert_eq!(AstPrinter {}.print(step), "(= i (+ i 1))"),
        other => panic!("expected the increment, got {:?}", other),
    }
}

#[test]
fn a_for_loop_without_clauses_is_a_bare_while_true() {
    let statements = parse("for (;;) print 1;");
    let Stmt::While { condition, body } = &statements[0] else {
        panic!("expected a while loop");
    };
    assert!(matches!(condition, Expr::Literal { value: Literal::Boolean(true) }));
    assert!(matches!(&**body, Stmt::Print(_)));
}

#[test]
fn a_for_loop_with_only_a_condition() {
    let statements = parse("for (; a < 1;) print a;");
    let Stmt::While { condition, body } = &statements[0] else {
        panic!("expected a while loop");
    };
    assert_eq!(AstPrinter {}.print(condition), "(< a 1)");
    assert!(matches!(&**body, Stmt::Print(_)));
}

#[test]
fn a_for_loop_with_an_expression_as_initializer() {
    let statements = parse("for (i = 0; ; i = i + 1) {}");
    let Stmt::Block { statements: outer } = &statements[0] else {
        panic!("expected a block");
    };
    assert!(matches!(&outer[0], Stmt::Expression(Expr::Assign { .. })));
    let Stmt::While { condition, body } = &outer[1] else {
        panic!("expected a while loop");
    };
    assert!(matches!(condition, Expr::Literal { value: Literal::Boolean(true) }));
    let Stmt::Block { statements: inner } = &**body else {
        panic!("expected a block as body");
    };
    assert!(matches!(&inner[0], Stmt::Block { statements } if statements.is_empty()));
    assert!(matches!(&inner[1], Stmt::Expression(Expr::Assign { .. })));
}

#[test]
fn statements_of_every_kind() {
    let statements = parse(
        "print 1; 2; var a; var b = 3; { a; } if (a) b; if (a) b; else a; while (a) b; \
         fun f(x, y) { return x; } return; class C { m() {} n(z) { return z; } }",
    );
    assert!(matches!(&statements[0], Stmt::Print(_)));
    assert!(matches!(&statements[1], Stmt::Expression(_)));
    assert!(matches!(&statements[2], Stmt::Variable { initializer: None, .. }));
    assert!(matches!(&statements[3], Stmt::Variable { initializer: Some(_), .. }));
    assert!(matches!(&statements[4], Stmt::Block { statements } if statements.len() == 1));
    assert!(matches!(&statements[5], Stmt::If { else_branch: None, .. }));
    assert!(matches!(&statements[6], Stmt::If { else_branch: Some(_), .. }));
    assert!(matches!(&statements[7], Stmt::While { .. }));
    match &statements[8] {
        Stmt::Function { name, params, body } => {
            assert_eq!(name.lexeme, "f");
            assert_eq!(params.iter().map(|p| p.lexeme.as_str()).collect::<Vec<_>>(), vec!["x", "y"]);
            assert!(matches!(&body[0], Stmt::Return { value: Some(_), .. }));
        }
        other => panic!("expected a function, got {:?}", other),
    }
    assert!(matches!(&statements[9], Stmt::Return { value: None, keyword } if keyword.lexeme == "return"));
    match &statements[10] {
        Stmt::Class { name, methods } => {
            assert_eq!(name.lexeme, "C");
            assert_eq!(methods.len(), 2);
            assert!(matches!(&*methods[1], Stmt::Function { name, params, .. } if name.lexeme == "n" && params.len() == 1));
        }
        other => panic!("expected a class, got {:?}", other),
    }
    assert_eq!(statements.len(), 11);
}

#[test]
fn an_else_belongs_to_the_nearest_if() {
    let statements = parse("if (a) if (b) c; else d;");
    let Stmt::If { then_branch, else_branch, .. } = &statements[0] else {
        panic!("expected an if");
    };
    assert!(else_branch.is_none());
    assert!(matches!(&**then_branch, Stmt::If { else_branch: Some(_), .. }));
}

#[test]
fn an_empty_token_list_parses_to_nothing() {
    assert!(parse("").is_empty());
    assert!(parse("// nothing\n").is_empty());
}

#[test]
fn each_broken_rule_is_reported_where_it_broke() {
    let cases: Vec<(&str, usize, Rule)> = vec![
        ("print ;", 1, Rule::ExpectExpression),
        ("(1;", 2, Rule::ExpectParenAfterExpression),
        ("f(1;", 3, Rule::ExpectParenAfterArguments),
        ("a.1;", 2, Rule::ExpectPropertyName),
        ("1 = 2;", 1, Rule::InvalidAssignmentTarget),
        ("print 1", 2, Rule::ExpectSemicolonAfterValue),
        ("1", 1, Rule::ExpectSemicolonAfterExpression),
        ("var a = 1", 4, Rule::ExpectSemicolonAfterDeclaration),
        ("var a 1;", 2, Rule::ExpectSemicolonAfterDeclaration),
        ("fun f() { return 1 }", 7, Rule::ExpectSemicolonAfterReturn),
        ("for (;a) b;", 4, Rule::ExpectSemicolonAfterLoopCondition),
        ("var 1;", 1, Rule::ExpectVariableName),
        ("while a) b;", 1, Rule::ExpectParenAfterWhile),
        ("while (a b;", 3, Rule::ExpectParenAfterCondition),
        ("for a;;) b;", 1, Rule::ExpectParenAfterFor),
        ("for (;;a b;", 5, Rule::ExpectParenAfterClauses),
        ("if a) b;", 1, Rule::ExpectParenAfterIf),
        ("if (a b;", 3, Rule::ExpectParenAfterIfCondition),
        ("{ a;", 3, Rule::ExpectBraceAfterBlock),
        ("class 1 {}", 1, Rule::ExpectClassName),
        ("class A }", 2, Rule::ExpectBraceBeforeClassBody),
        ("class A { m() {}", 8, Rule::ExpectBraceAfterClassBody),
        ("fun 1() {}", 1, Rule::ExpectName(FunctionKind::Function)),
        ("class A { 1() {} }", 3, Rule::ExpectName(FunctionKind::Method)),
        ("fun f {}", 2, Rule::ExpectParenAfterName(FunctionKind::Function)),
        ("class A { m {} }", 4, Rule::ExpectParenAfterName(FunctionKind::Method)),
        ("fun f() 1;", 4, Rule::ExpectBraceBeforeBody(FunctionKind::Function)),
        ("class A { m() 1; }", 6, Rule::ExpectBraceBeforeBody(FunctionKind::Method)),
        ("fun f(1) {}", 3, Rule::ExpectParameterName),
        ("fun f(a b) {}", 4, Rule::ExpectParenAfterParameters),
    ];
    for (source, position, rule) in cases {
        let found = errors(source);
        assert_eq!(found[0], SyntaxError { position, rule }, "in {:?}", source);
    }
}

#[test]
fn recovery_resumes_after_a_semicolon_or_before_a_keyword() {
    let found = errors("var 1 2 3; var 4; print (; a b c print ); var ok = 1;");
    assert_eq!(
        found,
        vec![
            SyntaxError { position: 1, rule: Rule::ExpectVariableName },
            SyntaxError { position: 6, rule: Rule::ExpectVariableName },
            SyntaxError { position: 10, rule: Rule::ExpectExpression },
            SyntaxError { position: 12, rule: Rule::ExpectSemicolonAfterExpression },
            SyntaxError { position: 15, rule: Rule::ExpectExpression },
        ]
    );
}

#[test]
fn recovery_inside_a_block_stays_inside_the_block() {
    let mut parser = parser("{ var 1; print 2; } print 3;");
    assert!(matches!(parser.parse(), Err(Error::Parse)));
    assert_eq!(parser.errors().clone(), vec![SyntaxError { position: 2, rule: Rule::ExpectVariableName }]);
}

#[test]
fn a_second_parse_finds_nothing_more() {
    let mut parser = parser("print 1;");
    assert_eq!(parser.parse().unwrap().len(), 1);
    assert!(parser.parse().unwrap().is_empty());
}

#[test]
fn errors_are_described_with_line_and_token() {
    let mut parser = parser("print 1;\nprint (2;\nprint");
    assert!(parser.parse().is_err());
    let lines: Vec<String> = parser.errors().iter().map(|error| parser.describe(*error)).collect();
    assert_eq!(
        lines,
        vec![
            "[line 2] Error at ';': Expect ')' after expression.".to_string(),
            "[line 3] Error at end: Expect expression.".to_string(),
        ]
    );
    let far = SyntaxError { position: 1000, rule: Rule::ExpectClassName };
    assert_eq!(parser.describe(far), "[line 3] Error at end: Expect class name.");
}

#[test]
fn every_rule_has_its_message() {
    assert_eq!(message(Rule::TooManyArguments), "Can't have more than 255 arguments.");
    assert_eq!(message(Rule::TooManyParameters), "Can't have more than 255 parameters.");
    assert_eq!(message(Rule::ExpectName(FunctionKind::Method)), "Expect method name.");
    assert_eq!(message(Rule::ExpectName(FunctionKind::Function)), "Expect function name.");
    assert_eq!(message(Rule::ExpectBraceBeforeBody(FunctionKind::Function)), "Expect '{' before function body.");
    assert_eq!(message(Rule::ExpectParenAfterName(FunctionKind::Method)), "Expect '(' after method name.");
    assert_eq!(message(Rule::InvalidAssignmentTarget), "Invalid assignment target.");
}

/// The prefix forms of the statements that `source` is.
fn forms(source: &str) -> Vec<String> {
    parse(source).iter().map(|statement| AstPrinter {}.print_statement(statement)).collect()
}

#[test]
fn the_printer_writes_every_kind_of_statement() {
    assert_eq!(
        forms(
            "print 1; 2; var a; var b = 3; { a; b; } {} if (a) b; if (a) b; else a; \
             while (a) b; fun f() {} fun g(x, y) { return x; return; } class C {} \
             class D { m() {} n(z) { return z; } }"
        ),
        vec![
            "(print 1)",
            "(; 2)",
            "(var a)",
            "(var b = 3)",
            "(block (; a) (; b))",
            "(block)",
            "(if a (; b))",
            "(if a (; b) (; a))",
            "(while a (; b))",
            "(fun f())",
            "(fun g(x y) (return x) (return))",
            "(class C)",
            "(class D (fun m()) (fun n(z) (return z)))",
        ]
    );
}

#[test]
fn a_for_loop_in_prefix_form() {
    assert_eq!(
        forms("for (var i = 0; i < 3; i = i + 1) print i;"),
        vec!["(block (var i = 0) (while (< i 3) (block (print i) (; (= i (+ i 1))))))"]
    );
    assert_eq!(forms("for (;;) print 1;"), vec!["(while true (print 1))"]);
    assert_eq!(forms("for (a; b; ) c;"), vec!["(block (; a) (while b (; c)))"]);
    assert_eq!(forms("for (; ; a) c;"), vec!["(while true (block (; c) (; a)))"]);
}

#[test]
fn statements_are_handed_to_the_printer() {
    let statements = parse("{ print 1; } while (a) { b = 2; }");
    let mut printer = AstPrinter {};
    assert_eq!(statements[0].accept(&mut printer).unwrap(), "(block (print 1))");
    assert_eq!(statements[1].accept(&mut printer).unwrap(), "(while a (block (; (= b 2))))");
    let Stmt::Block { statements: inner } = &statements[0] else {
        panic!("expected a block");
    };
    assert_eq!(printer.visit_block_statement(inner).unwrap(), "(block (print 1))");
}
