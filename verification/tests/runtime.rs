//! The parts of the runtime, one by one.

use rlox::class::{Class, Instance};
use rlox::environment::{Bindings, Environment};
use rlox::errors::{report_at, Error};
use rlox::function::{Function, Native};
use rlox::interpreter::Interpreter;
use rlox::machine::{Action, Event, Request};
use rlox::numbers;
use rlox::object::{Object, Text};
use rlox::resolver::Resolver;
use rlox::statement::Stmt;
use rlox::ast::Expr;
use rlox::text::{characters, push_decimal, push_text, slice};
use rlox::tokens::{Literal, Token, TokenType};
use rlox::wrap::parse_comment;

fn name(lexeme: &str) -> Token {
    Token::new(TokenType::IDENTIFIER, lexeme.to_string(), Literal::Nil, 1)
}

fn number(value: f64) -> Object<'static> {
    Object::Number(value.to_bits())
}

fn as_number(value: &Object) -> f64 {
    match value {
        Object::Number(bits) => f64::from_bits(*bits),
        other => panic!("expected a number, got {:?}", other),
    }
}

fn runtime_text(error: Error) -> String {
    match error {
        Error::Runtime(text) => text,
        other => panic!("expected a runtime error, got {:?}", other),
    }
}

fn leak<T>(value: T) -> &'static T {
    Box::leak(Box::new(value))
}

const DOUBLES: [f64; 17] = [
    0.0,
    -0.0,
    1.0,
    -1.0,
    0.5,
    -0.5,
    2.0,
    1e300,
    -1e300,
    5e-324,
    -5e-324,
    f64::MAX,
    f64::MIN,
    f64::INFINITY,
    f64::NEG_INFINITY,
    f64::NAN,
    f64::EPSILON,
];

#[test]
fn doubles_compare_by_their_bits_as_the_hardware_does() {
    for a in DOUBLES {
        for b in DOUBLES {
            assert_eq!(numbers::eq(a.to_bits(), b.to_bits()), a == b, "{} == {}", a, b);
            assert_eq!(numbers::lt(a.to_bits(), b.to_bits()), a < b, "{} < {}", a, b);
            assert_eq!(numbers::le(a.to_bits(), b.to_bits()), a <= b, "{} <= {}", a, b);
        }
    }
}

#[test]
fn doubles_negate_by_their_sign_bit() {
    for a in DOUBLES {
        assert_eq!(numbers::neg(a.to_bits()), (-a).to_bits());
        assert_eq!(numbers::nan(a.to_bits()), a.is_nan());
    }
    assert!(numbers::nan((-f64::NAN).to_bits()));
    assert!(numbers::nan(0x7ff0_0000_0000_0001));
    assert!(!numbers::nan(0x7ff0_0000_0000_0000));
}

#[test]
fn doubles_have_their_place_in_the_order() {
    assert_eq!(numbers::key(0f64.to_bits()), 0);
    assert_eq!(numbers::key((-0f64).to_bits()), 0);
    assert_eq!(numbers::key(1f64.to_bits()), 0x3ff0_0000_0000_0000);
    assert_eq!(numbers::key((-1f64).to_bits()), -0x3ff0_0000_0000_0000);
}

#[test]
fn decimal_numerals() {
    for (n, expected) in [
        (0usize, "0"),
        (7, "7"),
        (10, "10"),
        (99, "99"),
        (100, "100"),
        (12345, "12345"),
        (usize::MAX, "18446744073709551615"),
    ] {
        let mut text = String::from("n=");
        push_decimal(&mut text, n);
        assert_eq!(text, format!("n={}", expected));
    }
}

#[test]
fn text_is_taken_apart_and_put_together() {
    let chars = characters("h\u{e9}llo");
    assert_eq!(chars, vec!['h', '\u{e9}', 'l', 'l', 'o']);
    assert_eq!(slice(&chars, 1, 4), "\u{e9}ll");
    assert_eq!(slice(&chars, 2, 2), "");
    assert_eq!(slice(&chars, 0, 5), "h\u{e9}llo");
    let mut text = String::from("ab");
    push_text(&mut text, &"cd".to_string());
    assert_eq!(text, "abcd");
    assert!(characters("").is_empty());
}

#[test]
fn a_comment_tells_what_is_expected() {
    assert_eq!(parse_comment("// expect: 3"), "3");
    assert_eq!(parse_comment("print 1; // expect: 1 2"), "1 2");
    assert_eq!(parse_comment("// expect: a expect: b"), "a expect: b");
    assert_eq!(parse_comment("// expect:"), "");
    assert_eq!(parse_comment("// expected: 3"), "");
    assert_eq!(parse_comment("expect: "), "");
    assert_eq!(parse_comment(""), "");
    assert_eq!(parse_comment("// Expect: 3"), "");
    assert_eq!(parse_comment("expect: \u{e9}"), "\u{e9}");
}

#[test]
fn reports_name_line_and_place() {
    let token = Token::new(TokenType::IDENTIFIER, "x".to_string(), Literal::Nil, 12);
    assert_eq!(report_at(&token, "Bad."), "[line 12] Error at 'x': Bad.");
    let end = Token::new(TokenType::EOF, String::new(), Literal::Nil, 3);
    assert_eq!(report_at(&end, "Bad."), "[line 3] Error at end: Bad.");
}

#[test]
fn errors_say_what_they_are() {
    assert_eq!(Error::Runtime("a".to_string()).message(), "a");
    assert_eq!(Error::Syntax("b".to_string()).message(), "b");
    assert_eq!(Error::Parse.message(), "The program has syntax errors.");
    assert_eq!(Error::Scanner.message(), "The program has lexical errors.");
    assert_eq!(runtime_text(Error::undefined_variable(&"v".to_string())), "Undefined variable 'v'.");
    assert_eq!(runtime_text(Error::undefined_property(&"p".to_string())), "Undefined property 'p'.");
    assert_eq!(runtime_text(Error::runtime("text")), "text");
}

#[test]
fn truthiness_of_values() {
    let interpreter = Interpreter::new();
    assert!(!interpreter.is_truthy(&Object::Nil));
    assert!(!interpreter.is_truthy(&Object::Boolean(false)));
    assert!(interpreter.is_truthy(&Object::Boolean(true)));
    assert!(interpreter.is_truthy(&number(0.0)));
    assert!(interpreter.is_truthy(&number(f64::NAN)));
    assert!(interpreter.is_truthy(&Object::String(String::new())));
    assert!(interpreter.is_truthy(&Object::Class(Class::new("A".to_string()))));
    assert!(Object::String("x".to_string()).is_truthy());
    assert!(!Object::Nil.is_truthy());
}

#[test]
fn equality_of_objects() {
    let values: Vec<Object> = vec![
        Object::Nil,
        Object::Boolean(true),
        Object::Boolean(false),
        number(1.0),
        number(0.0),
        Object::String("a".to_string()),
        Object::String(String::new()),
        Object::Class(Class::new("A".to_string())),
        Object::Instance(Instance::new(Class::new("A".to_string()), 0)),
        Object::Instance(Instance::new(Class::new("A".to_string()), 1)),
        Object::Callable(Function::Native { body: Native::Clock, arity: 0 }),
    ];
    for (i, a) in values.iter().enumerate() {
        for (j, b) in values.iter().enumerate() {
            assert_eq!(a.equals(b), i == j, "{:?} == {:?}", a, b);
            assert_eq!(a.equals(b), b.equals(a));
        }
    }
    assert!(number(0.0).equals(&number(-0.0)));
    assert!(!number(f64::NAN).equals(&number(f64::NAN)));
    assert!(Object::Class(Class::new("A".to_string())).equals(&Object::Class(Class::new("A".to_string()))));
}

#[test]
fn functions_are_the_same_by_declaration_and_scope() {
    let f = leak(name("f").with_offset(4));
    let g = leak(name("f").with_offset(40));
    let params = leak(Vec::<Token>::new());
    let body = leak(Vec::<Stmt>::new());
    let one = Function::User { name: f, params, body, closure: 0 };
    let same = Function::User { name: f, params, body, closure: 0 };
    let other_scope = Function::User { name: f, params, body, closure: 1 };
    let other_place = Function::User { name: g, params, body, closure: 0 };
    assert!(one.same(&same));
    assert!(!one.same(&other_scope));
    assert!(!one.same(&other_place));
    assert!(!one.same(&Function::Native { body: Native::Clock, arity: 0 }));
    assert_eq!(one.arity(), 0);
    let two = leak(vec![name("a"), name("b")]);
    assert_eq!(Function::User { name: f, params: two, body, closure: 0 }.arity(), 2);
    assert_eq!(Function::Native { body: Native::Clock, arity: 3 }.arity(), 3);
}

#[test]
fn what_print_writes_for_each_kind() {
    let text = |value: Object| match value.text() {
        Text::Plain(text) => text,
        Text::Number(bits) => format!("#{}", f64::from_bits(bits)),
    };
    assert_eq!(text(Object::Nil), "nil");
    assert_eq!(text(Object::Boolean(true)), "true");
    assert_eq!(text(Object::Boolean(false)), "false");
    assert_eq!(text(Object::String("as is".to_string())), "as is");
    assert_eq!(text(number(2.5)), "#2.5");
    assert_eq!(text(Object::Class(Class::new("Bagel".to_string()))), "Bagel");
    assert_eq!(text(Object::Instance(Instance::new(Class::new("Bagel".to_string()), 3))), "Bagel instance");
    assert_eq!(text(Object::Callable(Function::Native { body: Native::Clock, arity: 0 })), "<native fn>");
    let f = leak(name("add"));
    let params = leak(Vec::<Token>::new());
    let body = leak(Vec::<Stmt>::new());
    assert_eq!(text(Object::Callable(Function::User { name: f, params, body, closure: 0 })), "<fn add>");
}

#[test]
fn classes_and_instances() {
    let class = Class::new("Bagel".to_string());
    assert_eq!(class.name(), "Bagel");
    assert_eq!(Class::arity(), 0);
    let instance = Instance::new(class.clone(), 5);
    assert_eq!(instance.id(), 5);
    assert_eq!(instance.class().name(), "Bagel");
    let mut interpreter = Interpreter::new();
    let first = class.clone().call(&mut interpreter, &Vec::new());
    let second = class.call(&mut interpreter, &vec![number(1.0)]);
    assert_eq!(first.id(), 0);
    assert_eq!(second.id(), 1);
    assert_eq!(second.class().name(), "Bagel");
    assert_eq!(
        runtime_text(first.get(&interpreter, &name("x")).unwrap_err()),
        "Undefined property 'x'."
    );
    let stranger = Instance::new(Class::new("Other".to_string()), 99);
    assert_eq!(
        runtime_text(stranger.get(&interpreter, &name("y")).unwrap_err()),
        "Undefined property 'y'."
    );
}

#[test]
fn bindings_replace_and_keep() {
    let mut bindings = Bindings::new();
    assert!(!bindings.contains(&"a".to_string()));
    assert!(bindings.get(&"a".to_string()).is_none());
    bindings.set("a".to_string(), number(1.0));
    bindings.set("b".to_string(), number(2.0));
    bindings.set("a".to_string(), number(3.0));
    assert!(bindings.contains(&"a".to_string()));
    assert_eq!(as_number(&bindings.get(&"a".to_string()).unwrap()), 3.0);
    assert_eq!(as_number(&bindings.get(&"b".to_string()).unwrap()), 2.0);
    assert!(bindings.get(&"c".to_string()).is_none());
}

#[test]
fn scopes_form_chains() {
    let mut environment = Environment::new();
    assert_eq!(environment.len(), 1);
    let inner = environment.enclose(0).unwrap();
    let innermost = environment.enclose(inner).unwrap();
    let sibling = environment.enclose(0).unwrap();
    assert_eq!((inner, innermost, sibling), (1, 2, 3));
    assert_eq!(environment.len(), 4);
    assert!(environment.enclose(4).is_none());
    assert_eq!(environment.len(), 4);
    assert_eq!(environment.ancestor(innermost, 0), Some(2));
    assert_eq!(environment.ancestor(innermost, 1), Some(1));
    assert_eq!(environment.ancestor(innermost, 2), Some(0));
    assert_eq!(environment.ancestor(innermost, 3), None);
    assert_eq!(environment.ancestor(sibling, 1), Some(0));
    assert_eq!(environment.ancestor(9, 0), None);
    assert_eq!(environment.ancestor(9, 1), None);
}

#[test]
fn names_are_found_in_the_nearest_scope() {
    let mut environment = Environment::new();
    let inner = environment.enclose(0).unwrap();
    let innermost = environment.enclose(inner).unwrap();
    let sibling = environment.enclose(0).unwrap();
    environment.define(0, "a".to_string(), number(1.0));
    environment.define(0, "b".to_string(), number(2.0));
    environment.define(inner, "a".to_string(), number(10.0));
    environment.define(9, "a".to_string(), number(99.0));
    let a = name("a");
    let b = name("b");
    let c = name("c");
    assert_eq!(as_number(&environment.get(innermost, &a).unwrap()), 10.0);
    assert_eq!(as_number(&environment.get(inner, &a).unwrap()), 10.0);
    assert_eq!(as_number(&environment.get(sibling, &a).unwrap()), 1.0);
    assert_eq!(as_number(&environment.get(0, &a).unwrap()), 1.0);
    assert_eq!(as_number(&environment.get(innermost, &b).unwrap()), 2.0);
    assert_eq!(runtime_text(environment.get(innermost, &c).unwrap_err()), "Undefined variable 'c'.");
    assert_eq!(runtime_text(environment.get(9, &a).unwrap_err()), "Undefined variable 'a'.");
    assert_eq!(environment.holder(innermost, &"a".to_string()), Some(inner));
    assert_eq!(environment.holder(innermost, &"b".to_string()), Some(0));
    assert_eq!(environment.holder(innermost, &"c".to_string()), None);
}

#[test]
fn names_are_read_at_a_distance_in_one_scope_only() {
    let mut environment = Environment::new();
    let inner = environment.enclose(0).unwrap();
    let innermost = environment.enclose(inner).unwrap();
    environment.define(0, "a".to_string(), number(1.0));
    environment.define(inner, "a".to_string(), number(10.0));
    let a = name("a");
    assert_eq!(as_number(&environment.get_at(innermost, 1, &a).unwrap()), 10.0);
    assert_eq!(as_number(&environment.get_at(innermost, 2, &a).unwrap()), 1.0);
    assert_eq!(as_number(&environment.get_at(inner, 0, &a).unwrap()), 10.0);
    assert_eq!(runtime_text(environment.get_at(innermost, 0, &a).unwrap_err()), "Undefined variable 'a'.");
    assert_eq!(runtime_text(environment.get_at(innermost, 3, &a).unwrap_err()), "Undefined variable 'a'.");
}

#[test]
fn assignment_changes_the_nearest_binding() {
    let mut environment = Environment::new();
    let inner = environment.enclose(0).unwrap();
    let innermost = environment.enclose(inner).unwrap();
    environment.define(0, "a".to_string(), number(1.0));
    environment.define(inner, "a".to_string(), number(10.0));
    environment.define(0, "b".to_string(), number(2.0));
    let a = name("a");
    let b = name("b");
    let c = name("c");
    assert_eq!(as_number(&environment.assign(innermost, &a, number(11.0)).unwrap()), 11.0);
    assert_eq!(as_number(&environment.get(inner, &a).unwrap()), 11.0);
    assert_eq!(as_number(&environment.get(0, &a).unwrap()), 1.0);
    assert_eq!(as_number(&environment.assign(innermost, &b, number(3.0)).unwrap()), 3.0);
    assert_eq!(as_number(&environment.get(0, &b).unwrap()), 3.0);
    assert_eq!(
        runtime_text(environment.assign(innermost, &c, number(0.0)).unwrap_err()),
        "Undefined variable 'c'."
    );
    assert!(environment.get(0, &c).is_err());
}

#[test]
fn assignment_at_a_distance_binds_in_that_scope() {
    let mut environment = Environment::new();
    let inner = environment.enclose(0).unwrap();
    let innermost = environment.enclose(inner).unwrap();
    let a = name("a");
    assert_eq!(as_number(&environment.assign_at(innermost, 1, &a, number(5.0)).unwrap()), 5.0);
    assert_eq!(as_number(&environment.get_at(inner, 0, &a).unwrap()), 5.0);
    assert!(environment.get(0, &a).is_err());
    assert_eq!(as_number(&environment.assign_at(innermost, 1, &a, number(6.0)).unwrap()), 6.0);
    assert_eq!(as_number(&environment.get(innermost, &a).unwrap()), 6.0);
    assert_eq!(
        runtime_text(environment.assign_at(innermost, 3, &a, number(7.0)).unwrap_err()),
        "Undefined variable 'a'."
    );
}

fn answer(request: &Request) -> u64 {
    match request {
        Request::Arithmetic { operator, left, right } => {
            let a = f64::from_bits(*left);
            let b = f64::from_bits(*right);
            let result = match operator {
                TokenType::PLUS => a + b,
                TokenType::MINUS => a - b,
                TokenType::STAR => a * b,
                TokenType::SLASH => a / b,
                _ => unreachable!(),
            };
            result.to_bits()
        }
        Request::Decode(numeral) => numeral.parse::<f64>().unwrap().to_bits(),
        Request::Clock => 42f64.to_bits(),
    }
}

/// Steps until the run ends; gives the lines printed and the last action.
fn finish<'a>(interpreter: &mut Interpreter<'a>) -> (Vec<String>, Action<'a>) {
    let mut printed = Vec::new();
    let mut event = Event::Resume;
    for _ in 0..100_000 {
        match interpreter.step(event) {
            Action::Continue => event = Event::Resume,
            Action::Request(request) => event = Event::Number(answer(&request)),
            Action::Print(Text::Plain(text)) => {
                printed.push(text);
                event = Event::Resume;
            }
            Action::Print(Text::Number(bits)) => {
                printed.push(format!("{}", f64::from_bits(bits)));
                event = Event::Resume;
            }
            last => return (printed, last),
        }
    }
    panic!("the run does not end");
}

fn literal(numeral: &str) -> Expr {
    Expr::Literal { value: Literal::Number(numeral.to_string()) }
}

fn operator(kind: TokenType, lexeme: &str) -> Token {
    Token::new(kind, lexeme.to_string(), Literal::Nil, 1)
}

#[test]
fn an_idle_interpreter_finishes_with_nil() {
    let mut interpreter = Interpreter::new();
    assert_eq!(interpreter.globals(), 0);
    assert!(matches!(interpreter.step(Event::Resume), Action::Finished(Object::Nil)));
    assert!(matches!(interpreter.step(Event::Number(1)), Action::Finished(Object::Nil)));
}

#[test]
fn an_expression_is_evaluated_to_its_value() {
    let expr = leak(Expr::Binary {
        left: Box::new(literal("1.5")),
        operator: operator(TokenType::PLUS, "+"),
        right: Box::new(Expr::Grouping {
            expression: Box::new(Expr::Unary {
                operator: operator(TokenType::MINUS, "-"),
                right: Box::new(literal("4")),
            }),
        }),
    });
    let mut interpreter = Interpreter::new();
    interpreter.evaluate(expr);
    let (printed, last) = finish(&mut interpreter);
    assert!(printed.is_empty());
    match last {
        Action::Finished(value) => assert_eq!(as_number(&value), -2.5),
        other => panic!("expected a value, got {:?}", other),
    }
    assert!(matches!(interpreter.step(Event::Resume), Action::Finished(Object::Nil)));
}

#[test]
fn a_request_is_repeated_until_it_is_answered() {
    let expr = leak(literal("2.5"));
    let mut interpreter = Interpreter::new();
    interpreter.evaluate(expr);
    assert!(matches!(interpreter.step(Event::Resume), Action::Request(Request::Decode(numeral)) if numeral == "2.5"));
    assert!(matches!(interpreter.step(Event::Resume), Action::Request(Request::Decode(numeral)) if numeral == "2.5"));
    assert!(matches!(interpreter.step(Event::Number(2.5f64.to_bits())), Action::Continue));
    match interpreter.step(Event::Resume) {
        Action::Finished(value) => assert_eq!(as_number(&value), 2.5),
        other => panic!("expected a value, got {:?}", other),
    }
}

#[test]
fn arithmetic_is_asked_of_the_caller() {
    let expr = leak(Expr::Binary {
        left: Box::new(literal("6")),
        operator: operator(TokenType::SLASH, "/"),
        right: Box::new(literal("3")),
    });
    let mut interpreter = Interpreter::new();
    interpreter.evaluate(expr);
    let mut requests = Vec::new();
    let mut event = Event::Resume;
    let value = loop {
        match interpreter.step(event) {
            Action::Request(request) => {
                event = Event::Number(answer(&request));
                requests.push(request);
            }
            Action::Continue => event = Event::Resume,
            Action::Finished(value) => break value,
            other => panic!("unexpected {:?}", other),
        }
    };
    assert_eq!(as_number(&value), 2.0);
    assert_eq!(requests.len(), 3);
    assert!(matches!(&requests[0], Request::Decode(numeral) if numeral == "6"));
    assert!(matches!(&requests[1], Request::Decode(numeral) if numeral == "3"));
    assert!(matches!(
        &requests[2],
        Request::Arithmetic { operator: TokenType::SLASH, left, right }
            if f64::from_bits(*left) == 6.0 && f64::from_bits(*right) == 3.0
    ));
}

#[test]
fn a_statement_is_executed() {
    let statement = leak(Stmt::Print(Expr::Literal { value: Literal::String("hi".to_string()) }));
    let mut interpreter = Interpreter::new();
    interpreter.execute(statement);
    let (printed, last) = finish(&mut interpreter);
    assert_eq!(printed, vec!["hi"]);
    assert!(matches!(last, Action::Finished(Object::Nil)));
}

#[test]
fn statements_are_interpreted_in_order() {
    let statements = leak(vec![
        Stmt::Variable { name: name("a"), initializer: Some(literal("1")) },
        Stmt::Print(Expr::Variable { name: name("a") }),
        Stmt::Print(Expr::Literal { value: Literal::Boolean(false) }),
    ]);
    let mut interpreter = Interpreter::new();
    interpreter.interpret(statements);
    let (printed, last) = finish(&mut interpreter);
    assert_eq!(printed, vec!["1", "false"]);
    assert!(matches!(last, Action::Finished(Object::Nil)));
}

#[test]
fn a_block_runs_in_the_scope_it_is_given() {
    let setup = leak(vec![Stmt::Variable { name: name("a"), initializer: Some(literal("1")) }]);
    let block = leak(vec![
        Stmt::Variable { name: name("b"), initializer: Some(literal("2")) },
        Stmt::Print(Expr::Variable { name: name("a") }),
        Stmt::Print(Expr::Variable { name: name("b") }),
    ]);
    let after = leak(vec![Stmt::Print(Expr::Variable { name: name("b") })]);
    let mut interpreter = Interpreter::new();
    interpreter.interpret(setup);
    finish(&mut interpreter);
    assert!(!interpreter.execute_block(block, 7));
    assert!(interpreter.execute_block(block, 0));
    let (printed, last) = finish(&mut interpreter);
    assert_eq!(printed, vec!["1", "2"]);
    assert!(matches!(last, Action::Finished(Object::Nil)));
    interpreter.interpret(after);
    let (printed, _) = finish(&mut interpreter);
    assert_eq!(printed, vec!["2"]);
}

#[test]
fn a_resolved_use_is_read_at_its_depth() {
    let shadow = leak(name("a").with_offset(100));
    let statements = leak(vec![
        Stmt::Variable { name: name("a"), initializer: Some(literal("1")) },
        Stmt::Block {
            statements: vec![
                Stmt::Variable { name: name("a"), initializer: Some(literal("2")) },
                Stmt::Block {
                    statements: vec![Stmt::Print(Expr::Variable { name: shadow.clone() })],
                },
            ],
        },
    ]);
    let mut interpreter = Interpreter::new();
    interpreter.interpret(statements);
    let (printed, _) = finish(&mut interpreter);
    assert_eq!(printed, vec!["1"], "an unresolved use is global");
    interpreter.resolve(shadow, 1);
    interpreter.interpret(statements);
    let (printed, _) = finish(&mut interpreter);
    assert_eq!(printed, vec!["2"]);
    interpreter.resolve(shadow, 5);
    interpreter.interpret(statements);
    let (printed, last) = finish(&mut interpreter);
    assert!(printed.is_empty());
    assert!(matches!(last, Action::Failed(Error::Runtime(text)) if text == "Undefined variable 'a'."));
}

#[test]
fn the_resolver_notes_depths_in_the_interpreter() {
    let use_in_block = name("a").with_offset(10);
    let use_at_top = name("a").with_offset(20);
    let statements = leak(vec![
        Stmt::Variable { name: name("a"), initializer: Some(literal("1")) },
        Stmt::Block {
            statements: vec![
                Stmt::Variable { name: name("a").with_offset(5), initializer: Some(literal("2")) },
                Stmt::Block {
                    statements: vec![Stmt::Print(Expr::Variable { name: use_in_block })],
                },
            ],
        },
        Stmt::Print(Expr::Variable { name: use_at_top }),
    ]);
    let mut interpreter = Interpreter::new();
    let mut resolver = Resolver::new();
    resolver.resolve_statements(&mut interpreter, statements).unwrap();
    interpreter.interpret(statements);
    let (printed, _) = finish(&mut interpreter);
    assert_eq!(printed, vec!["2", "1"]);
}

#[test]
fn a_function_is_called_through_the_machine() {
    let f = leak(name("f"));
    let params = leak(vec![name("x")]);
    let body = leak(vec![
        Stmt::Print(Expr::Variable { name: name("x") }),
        Stmt::Return { keyword: operator(TokenType::RETURN, "return"), value: Some(literal("9")) },
        Stmt::Print(Expr::Variable { name: name("x") }),
    ]);
    let function = Function::User { name: f, params, body, closure: 0 };
    let mut interpreter = Interpreter::new();
    let program = leak(vec![Stmt::Variable { name: name("x"), initializer: None }]);
    interpreter.interpret(program);
    finish(&mut interpreter);
    assert!(matches!(function.call(&mut interpreter, vec![number(3.0)]), Action::Continue));
    let (printed, last) = finish(&mut interpreter);
    assert_eq!(printed, vec!["nil"], "the parameter is bound in a scope of its own");
    match last {
        Action::Finished(value) => assert_eq!(as_number(&value), 9.0),
        other => panic!("expected a value, got {:?}", other),
    }
    match function.call(&mut interpreter, Vec::new()) {
        Action::Failed(Error::Runtime(text)) => assert_eq!(text, "Expected 1 arguments but got 0."),
        other => panic!("expected a failure, got {:?}", other),
    }
    let gone = Function::User { name: f, params, body, closure: 1000 };
    match gone.call(&mut interpreter, vec![number(3.0)]) {
        Action::Failed(Error::Runtime(text)) => assert_eq!(text, "The scope of the function is gone."),
        other => panic!("expected a failure, got {:?}", other),
    }
    let clock = Function::Native { body: Native::Clock, arity: 0 };
    assert!(matches!(clock.call(&mut interpreter, Vec::new()), Action::Request(Request::Clock)));
    match finish(&mut interpreter).1 {
        Action::Finished(value) => assert_eq!(as_number(&value), 42.0),
        other => panic!("expected a value, got {:?}", other),
    }
}

fn step_to_the_end<'a>(interpreter: &mut Interpreter<'a>) -> Action<'a> {
    finish(interpreter).1
}

#[test]
fn a_return_that_leaves_a_block_restores_the_scope_around_it() {
    let f = leak(name("f"));
    let none = leak(Vec::<Token>::new());
    let empty = leak(Vec::<Stmt>::new());
    let function = Function::User { name: f, params: none, body: empty, closure: 0 };
    let mut interpreter = Interpreter::new();
    assert!(matches!(function.call(&mut interpreter, Vec::new()), Action::Continue));
    assert_eq!(interpreter.environment(), 1);
    assert!(matches!(step_to_the_end(&mut interpreter), Action::Finished(Object::Nil)));
    assert_eq!(interpreter.environment(), 0);
    let block = leak(vec![Stmt::Return {
        keyword: operator(TokenType::RETURN, "return"),
        value: None,
    }]);
    assert!(interpreter.execute_block(block, 1));
    assert_eq!(interpreter.environment(), 1);
    assert!(matches!(step_to_the_end(&mut interpreter), Action::Finished(Object::Nil)));
    assert_eq!(interpreter.environment(), 0);
}

#[test]
fn a_return_through_nested_blocks_ends_in_the_scope_it_began_in() {
    let statements = leak(vec![
        Stmt::Variable { name: name("a"), initializer: Some(literal("1")) },
        Stmt::Block {
            statements: vec![Stmt::Block {
                statements: vec![
                    Stmt::Print(literal("1")),
                    Stmt::Return {
                        keyword: operator(TokenType::RETURN, "return"),
                        value: Some(literal("7")),
                    },
                    Stmt::Print(literal("2")),
                ],
            }],
        },
    ]);
    let mut interpreter = Interpreter::new();
    let outer = {
        let f = leak(name("f"));
        let none = leak(Vec::<Token>::new());
        let empty = leak(Vec::<Stmt>::new());
        let function = Function::User { name: f, params: none, body: empty, closure: 0 };
        function.call(&mut interpreter, Vec::new());
        step_to_the_end(&mut interpreter);
        1
    };
    assert!(interpreter.execute_block(statements, outer));
    let (printed, last) = finish(&mut interpreter);
    assert_eq!(printed, vec!["1"]);
    match last {
        Action::Finished(value) => assert_eq!(as_number(&value), 7.0),
        other => panic!("expected a value, got {:?}", other),
    }
    assert_eq!(interpreter.environment(), 0);
}

#[test]
fn a_block_that_ends_restores_the_scope_around_it() {
    let block = leak(vec![Stmt::Block { statements: vec![Stmt::Print(literal("1"))] }]);
    let mut interpreter = Interpreter::new();
    interpreter.interpret(block);
    let (printed, _) = finish(&mut interpreter);
    assert_eq!(printed, vec!["1"]);
    assert_eq!(interpreter.environment(), 0);
}

#[test]
fn a_failure_ends_the_run_in_the_global_scope() {
    let block = leak(vec![Stmt::Block {
        statements: vec![Stmt::Print(Expr::Variable { name: name("missing") })],
    }]);
    let mut interpreter = Interpreter::new();
    interpreter.interpret(block);
    let (_, last) = finish(&mut interpreter);
    assert!(matches!(last, Action::Failed(Error::Runtime(_))));
    assert_eq!(interpreter.environment(), 0);
}
