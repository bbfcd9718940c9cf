//! Whole programs, run from source text to their output.

use rlox::ast::Expr;
use rlox::errors::Error;
use rlox::lox::Lox;
use rlox::machine::{Action, Event, Request};
use rlox::object::Text;
use rlox::statement::Stmt;
use rlox::tokens::TokenType;

/// What a run of a program gave: the lines it printed, and how it ended.
struct Outcome {
    printed: Vec<String>,
    reports: Vec<String>,
    failure: Option<Error>,
}

fn answer(request: &Request) -> u64 {
    match request {
        Request::Arithmetic { operator, left, right } => {
            let a = f64::from_bits(*left);
            let b = f64::from_bits(*right);
            let result = match operator {
                TokenType::PLUS => a + b,
                TokenType::MINUS => a - b,
                TokenType::STAR => a * b,
                TokenType::SLASH => a / b,
                _ => unreachable!(),
            };
            result.to_bits()
        }
        Request::Decode(numeral) => numeral.parse::<f64>().unwrap().to_bits(),
        Request::Clock => 1234.5f64.to_bits(),
    }
}

fn run_in(lox: &mut Lox<'static>, source: &str) -> Outcome {
    let mut outcome = Outcome { printed: Vec::new(), reports: Vec::new(), failure: None };
    let statements = match lox.compile(source) {
        Ok(statements) => statements,
        Err((error, lines)) => {
            outcome.reports = lines;
            outcome.failure = Some(error);
            return outcome;
        }
    };
    let program: &'static Vec<Stmt> = Box::leak(Box::new(statements));
    if let Err(error) = lox.run(program) {
        outcome.failure = Some(error);
        return outcome;
    }
    let mut event = Event::Resume;
    let mut steps: u64 = 0;
    loop {
        steps += 1;
        assert!(steps < 10_000_000, "the program does not end");
        match lox.step(event) {
            Action::Continue => event = Event::Resume,
            Action::Request(request) => event = Event::Number(answer(&request)),
            Action::Print(Text::Plain(text)) => {
                outcome.printed.push(text);
                event = Event::Resume;
            }
            Action::Print(Text::Number(bits)) => {
                outcome.printed.push(format!("{}", f64::from_bits(bits)));
                event = Event::Resume;
            }
            Action::Finished(_) => return outcome,
            Action::Failed(error) => {
                outcome.failure = Some(error);
                return outcome;
            }
        }
    }
}

fn run(source: &str) -> Outcome {
    let mut lox = Lox::new();
    run_in(&mut lox, source)
}

fn prints(source: &str, expected: &[&str]) {
    let outcome = run(source);
    assert!(outcome.failure.is_none(), "failed: {:?} {:?}", outcome.failure, outcome.reports);
    assert_eq!(outcome.printed, expected);
}

fn runtime_error(source: &str) -> String {
    let outcome = run(source);
    match outcome.failure {
        Some(Error::Runtime(text)) => text,
        other => panic!("expected a runtime error, got {:?}", other),
    }
}

fn resolve_error(source: &str) -> String {
    let outcome = run(source);
    assert!(outcome.printed.is_empty());
    match outcome.failure {
        Some(Error::Syntax(text)) => text,
        other => panic!("expected a resolution error, got {:?}", other),
    }
}

#[test]
fn empty_program_prints_nothing_and_succeeds() {
    let outcome = run("");
    assert!(outcome.failure.is_none());
    assert!(outcome.printed.is_empty());
    assert!(outcome.reports.is_empty());
}

#[test]
fn closure_keeps_its_counter() {
    prints(
        "fun makeCounter(){var i=0; fun count(){i=i+1; print i;} return count;} \
         var c=makeCounter(); c(); c();",
        &["1", "2"],
    );
}

#[test]
fn two_counters_do_not_share_state() {
    prints(
        "fun makeCounter(){var i=0; fun count(){i=i+1; print i;} return count;} \
         var a=makeCounter(); var b=makeCounter(); a(); a(); b();",
        &["1", "2", "1"],
    );
}

#[test]
fn resolution_is_stable_under_shadowing() {
    prints(
        "var a=\"global\"; { fun show(){print a;} show(); var a=\"local\"; show(); }",
        &["global", "global"],
    );
}

#[test]
fn or_skips_its_right_operand_when_left_is_truthy() {
    prints(
        "fun t(){print \"t\"; return true;} fun f(){print \"f\"; return false;} \
         print t() or f(); print f() or t();",
        &["t", "true", "f", "t", "true"],
    );
}

#[test]
fn and_skips_its_right_operand_when_left_is_falsey() {
    prints(
        "fun t(){print \"t\"; return true;} fun f(){print \"f\"; return false;} \
         print f() and t(); print t() and f();",
        &["f", "false", "t", "f", "false"],
    );
}

#[test]
fn logical_operators_return_an_operand() {
    prints(
        "print nil or \"yes\"; print 1 and 2; print false and 1; print \"a\" or \"b\";",
        &["yes", "2", "false", "a"],
    );
}

#[test]
fn double_negation_is_truthiness() {
    prints(
        "print !!nil; print !!false; print !!true; print !!0; print !!\"\"; print !!\"x\";",
        &["false", "false", "true", "true", "true", "true"],
    );
}

#[test]
fn negation_of_a_value() {
    prints("print !nil; print !1; print !false;", &["true", "false", "true"]);
}

#[test]
fn equality_of_values() {
    prints(
        "print nil==nil; print 1==1; print 1==2; print \"a\"==\"a\"; print \"a\"==\"b\"; \
         print true==true; print true==false;",
        &["true", "true", "false", "true", "false", "true", "false"],
    );
}

#[test]
fn values_of_different_kinds_are_never_equal() {
    prints(
        "print 1==\"1\"; print nil==false; print 0==false; print \"\"==nil; print 1!=\"1\";",
        &["false", "false", "false", "false", "true"],
    );
}

#[test]
fn nan_is_not_equal_to_itself() {
    prints("var n = 0/0; print n==n; print n!=n;", &["false", "true"]);
}

#[test]
fn zero_equals_negative_zero() {
    prints("print 0 == -0; print -0 < 0; print 0 <= -0;", &["true", "false", "true"]);
}

#[test]
fn a_function_equals_itself() {
    prints(
        "fun f(){} fun g(){} var h = f; print f==h; print f==g; print clock==clock;",
        &["true", "false", "true"],
    );
}

#[test]
fn instances_are_equal_only_to_themselves() {
    prints(
        "class A {} var a = A(); var b = A(); var c = a; print a==c; print a==b; print A==A;",
        &["true", "false", "true"],
    );
}

#[test]
fn parser_recovers_and_reports_later_errors_too() {
    let outcome = run("print 1;\nvar = 2;\nprint 3;\nprint (4;\nprint 5;");
    assert!(matches!(outcome.failure, Some(Error::Parse)));
    assert!(outcome.printed.is_empty());
    assert_eq!(
        outcome.reports,
        vec![
            "[line 2] Error at '=': Expect variable name.".to_string(),
            "[line 4] Error at ';': Expect ')' after expression.".to_string(),
        ]
    );
}

#[test]
fn a_syntax_error_suppresses_execution() {
    let outcome = run("print \"before\"; print ; print \"after\";");
    assert!(outcome.printed.is_empty());
    assert_eq!(outcome.reports, vec!["[line 1] Error at ';': Expect expression.".to_string()]);
}

#[test]
fn for_loop_counts_and_hides_its_variable() {
    let outcome = run("for(var i=0;i<3;i=i+1) print i; print i;");
    assert_eq!(outcome.printed, vec!["0", "1", "2"]);
    match outcome.failure {
        Some(Error::Runtime(text)) => assert_eq!(text, "Undefined variable 'i'."),
        other => panic!("expected a runtime error, got {:?}", other),
    }
}

#[test]
fn for_loop_without_clauses_runs_until_return() {
    prints("fun f(){ var i = 0; for(;;){ i = i + 1; if (i == 4) return i; } } print f();", &["4"]);
}

#[test]
fn for_loop_with_expression_initializer() {
    prints("var i; for(i=1;i<=2;i=i+1) print i; print i;", &["1", "2", "3"]);
}

#[test]
fn return_unwinds_out_of_a_loop() {
    prints(
        "fun f(){ for(var i=0;i<5;i=i+1){ if(i==2) return i; } return -1;} print f();",
        &["2"],
    );
}

#[test]
fn a_function_without_return_gives_nil() {
    prints("fun f(){} print f();", &["nil"]);
}

#[test]
fn return_restores_the_scope_of_the_caller() {
    prints(
        "var a = \"outer\"; fun f(){ var a = \"inner\"; { { return a; } } } print f(); print a;",
        &["inner", "outer"],
    );
}

#[test]
fn calling_with_too_few_arguments_names_both_counts() {
    assert_eq!(runtime_error("fun f(a, b){} f(1);"), "Expected 2 arguments but got 1.");
}

#[test]
fn calling_with_too_many_arguments_names_both_counts() {
    assert_eq!(runtime_error("fun f(){} f(1, 2, 3);"), "Expected 0 arguments but got 3.");
}

#[test]
fn calling_what_is_no_function_fails() {
    assert_eq!(runtime_error("\"text\"();"), "Can only call functions and classes.");
}

#[test]
fn arithmetic_on_numbers() {
    prints(
        "print 1+2; print 7-10; print 3*4; print 1/4; print -3; print (1+2)*3; print 1+2*3;",
        &["3", "-3", "12", "0.25", "-3", "9", "7"],
    );
}

#[test]
fn division_by_zero_follows_the_doubles() {
    prints("print 1/0; print -1/0;", &["inf", "-inf"]);
}

#[test]
fn number_literals_with_fractions() {
    prints("print 12.5; print 0.1+0.2; print 100;", &["12.5", "0.30000000000000004", "100"]);
}

#[test]
fn comparison_of_numbers() {
    prints(
        "print 1<2; print 2<1; print 2<=2; print 3>2; print 2>=3; print -1<1; print -2<-1;",
        &["true", "false", "true", "true", "false", "true", "true"],
    );
}

#[test]
fn comparison_with_nan_is_false() {
    prints("var n=0/0; print n<1; print n>1; print n<=n; print n>=n;", &[
        "false", "false", "false", "false",
    ]);
}

#[test]
fn strings_concatenate() {
    prints("print \"foo\" + \"bar\"; print \"\" + \"x\";", &["foobar", "x"]);
}

#[test]
fn adding_a_number_to_a_string_fails() {
    assert_eq!(runtime_error("print 1 + \"a\";"), "Operands must be two numbers or two strings.");
}

#[test]
fn subtracting_strings_fails() {
    assert_eq!(runtime_error("print \"a\" - \"b\";"), "Operands must be numbers.");
}

#[test]
fn comparing_strings_fails() {
    assert_eq!(runtime_error("print \"a\" < \"b\";"), "Operands must be numbers.");
}

#[test]
fn negating_a_string_fails() {
    assert_eq!(runtime_error("print -\"a\";"), "Operand must be a number.");
}

#[test]
fn operands_are_evaluated_left_to_right() {
    prints(
        "fun a(){print \"a\"; return 1;} fun b(){print \"b\"; return 2;} print a() - b();",
        &["a", "b", "-1"],
    );
}

#[test]
fn arguments_are_evaluated_left_to_right() {
    prints(
        "fun a(){print \"a\"; return 1;} fun b(){print \"b\"; return 2;} \
         fun f(x, y){ return x * 10 + y; } print f(a(), b());",
        &["a", "b", "12"],
    );
}

#[test]
fn reading_an_undefined_variable_fails() {
    assert_eq!(runtime_error("print missing;"), "Undefined variable 'missing'.");
}

#[test]
fn assigning_to_an_undefined_global_fails() {
    assert_eq!(runtime_error("missing = 1;"), "Undefined variable 'missing'.");
}

#[test]
fn a_runtime_error_stops_the_run() {
    let outcome = run("print 1; print missing; print 2;");
    assert_eq!(outcome.printed, vec!["1"]);
    assert!(matches!(outcome.failure, Some(Error::Runtime(_))));
}

#[test]
fn assignment_is_an_expression() {
    prints("var a; var b; a = b = 3; print a; print b; print a = 5;", &["3", "3", "5"]);
}

#[test]
fn variables_without_initializer_are_nil() {
    prints("var a; print a;", &["nil"]);
}

#[test]
fn blocks_shadow_and_restore() {
    prints(
        "var a = 1; { var a = 2; print a; { var a = 3; print a; } print a; } print a;",
        &["2", "3", "2", "1"],
    );
}

#[test]
fn blocks_assign_to_enclosing_variables() {
    prints("var a = 1; { a = 2; { a = a + 1; } } print a;", &["3"]);
}

#[test]
fn globals_may_be_declared_twice() {
    prints("var a = 1; var a = 2; print a;", &["2"]);
}

#[test]
fn if_and_else_branch_on_truthiness() {
    prints(
        "if (1) print \"then\"; else print \"else\"; if (nil) print \"then\"; else print \"else\"; \
         if (false) print \"never\";",
        &["then", "else"],
    );
}

#[test]
fn while_loops_until_the_condition_fails() {
    prints("var i = 0; while (i < 3) { print i; i = i + 1; } print \"done\";", &[
        "0", "1", "2", "done",
    ]);
}

#[test]
fn recursion_works() {
    prints(
        "fun fib(n){ if (n < 2) return n; return fib(n-1) + fib(n-2); } print fib(15);",
        &["610"],
    );
}

#[test]
fn a_global_function_can_call_itself_through_the_globals() {
    prints("fun down(n){ if (n > 0) { print n; down(n - 1); } } down(3);", &["3", "2", "1"]);
}

#[test]
fn functions_are_printed_by_name() {
    prints("fun f(){} print f; print clock;", &["<fn f>", "<native fn>"]);
}

#[test]
fn clock_gives_a_number() {
    prints("print clock(); print clock() >= 0;", &["1234.5", "true"]);
}

#[test]
fn clock_takes_no_arguments() {
    assert_eq!(runtime_error("clock(1);"), "Expected 0 arguments but got 1.");
}

#[test]
fn calling_a_class_makes_an_instance() {
    prints("class Bagel { eat() { print 1; } } var b = Bagel(); print Bagel; print b;", &[
        "Bagel",
        "Bagel instance",
    ]);
}

#[test]
fn an_instance_has_no_property_at_first() {
    assert_eq!(runtime_error("class A {} var a = A(); print a.x;"), "Undefined property 'x'.");
}

#[test]
fn only_instances_have_properties() {
    assert_eq!(runtime_error("var a = \"text\"; print a.x;"), "Only instances have properties.");
}

#[test]
fn reading_a_variable_in_its_own_initializer_is_rejected() {
    assert_eq!(
        resolve_error("var a = 1; { var a = a; }"),
        "[line 1] Error at 'a': Can't read local variable in its own initializer."
    );
}

#[test]
fn declaring_a_local_twice_is_rejected() {
    assert_eq!(
        resolve_error("{ var a = 1;\n var a = 2; }"),
        "[line 2] Error at 'a': Already a variable with this name in this scope."
    );
}

#[test]
fn two_parameters_of_one_name_are_rejected() {
    assert_eq!(
        resolve_error("fun f(a, a) {}"),
        "[line 1] Error at 'a': Already a variable with this name in this scope."
    );
}

#[test]
fn return_outside_a_function_is_rejected() {
    assert_eq!(
        resolve_error("print 1; return 2;"),
        "[line 1] Error at 'return': Can't return from top-level code."
    );
}

#[test]
fn a_lone_semicolon_is_no_statement() {
    let outcome = run(";");
    assert_eq!(outcome.reports, vec!["[line 1] Error at ';': Expect expression.".to_string()]);
}

#[test]
fn invalid_assignment_target_is_reported() {
    let outcome = run("var a; var b; a + b = 3;");
    assert_eq!(outcome.reports, vec!["[line 1] Error at '=': Invalid assignment target.".to_string()]);
}

#[test]
fn an_error_at_the_end_is_reported_there() {
    let outcome = run("print 1");
    assert_eq!(outcome.reports, vec!["[line 1] Error at end: Expect ';' after value.".to_string()]);
}

#[test]
fn lexical_errors_are_reported_and_scanning_goes_on() {
    let outcome = run("var a = 1 @ 2;\nprint \"open");
    assert!(outcome.printed.is_empty());
    assert!(matches!(outcome.failure, Some(Error::Scanner)));
    assert_eq!(outcome.reports[0], "[line 1] Error: Unexpected character.");
    assert_eq!(outcome.reports[1], "[line 2] Error: Unterminated string.");
    assert!(outcome.reports.len() >= 2);
}

fn function_with_parameters(count: usize) -> String {
    let mut source = String::from("fun f(");
    for i in 0..count {
        if i > 0 {
            source.push_str(", ");
        }
        source.push_str(&format!("p{}", i));
    }
    source.push_str(") { return p0; } print 7;");
    source
}

#[test]
fn a_function_may_have_255_parameters() {
    prints(&function_with_parameters(255), &["7"]);
}

#[test]
fn a_256th_parameter_is_rejected() {
    let outcome = run(&function_with_parameters(256));
    assert!(outcome.printed.is_empty());
    assert_eq!(
        outcome.reports[0],
        "[line 1] Error at 'p255': Can't have more than 255 parameters."
    );
}

fn call_with_arguments(count: usize) -> String {
    let mut source = String::from("fun f() {} f(");
    for i in 0..count {
        if i > 0 {
            source.push_str(", ");
        }
        source.push_str("1");
    }
    source.push_str(");");
    source
}

#[test]
fn a_call_may_have_255_arguments() {
    assert_eq!(runtime_error(&call_with_arguments(255)), "Expected 0 arguments but got 255.");
}

#[test]
fn a_256th_argument_is_rejected() {
    let outcome = run(&call_with_arguments(256));
    assert_eq!(outcome.reports[0], "[line 1] Error at '1': Can't have more than 255 arguments.");
}

#[test]
fn a_session_keeps_its_globals_and_closures() {
    let mut lox = Lox::new();
    let first = run_in(&mut lox, "var a = 1; fun next(){ a = a + 1; return a; }");
    assert!(first.failure.is_none());
    let second = run_in(&mut lox, "print next(); print next();");
    assert_eq!(second.printed, vec!["2", "3"]);
}

#[test]
fn a_session_goes_on_after_an_error() {
    let mut lox = Lox::new();
    let first = run_in(&mut lox, "var a = 1; { var b = 2; print missing; }");
    assert!(matches!(first.failure, Some(Error::Runtime(_))));
    assert!(lox.had_error());
    lox.clear_error();
    assert!(!lox.had_error());
    let second = run_in(&mut lox, "print a; { var b = 3; print b; }");
    assert_eq!(second.printed, vec!["1", "3"]);
}

#[test]
fn locals_of_one_line_do_not_disturb_the_next() {
    let mut lox = Lox::new();
    let first = run_in(&mut lox, "var x = \"global\"; fun show(){ { var y = x; print y; } }");
    assert!(first.failure.is_none());
    let second = run_in(&mut lox, "{ var x = \"local\"; var y = 0; show(); print x; }");
    assert_eq!(second.printed, vec!["global", "local"]);
}

#[test]
fn exit_codes_follow_the_kind_of_error() {
    assert_eq!(Lox::exit_code(&Error::Parse), 65);
    assert_eq!(Lox::exit_code(&Error::Scanner), 65);
    assert_eq!(Lox::exit_code(&Error::Syntax("x".to_string())), 65);
    assert_eq!(Lox::exit_code(&Error::Runtime("x".to_string())), 70);
}

#[test]
fn error_lines_name_the_line() {
    assert_eq!(Lox::error(12, "Something."), "[line 12] Error: Something.");
    assert_eq!(Lox::error(0, ""), "[line 0] Error: ");
}

#[test]
fn recursion_may_go_deep() {
    prints(
        "fun depth(n){ if (n == 0) return 0; return 1 + depth(n - 1); } print depth(20000);",
        &["20000"],
    );
}

#[test]
fn a_long_loop_ends() {
    prints("var i = 0; var sum = 0; while (i < 20000) { sum = sum + i; i = i + 1; } print sum;", &[
        "199990000",
    ]);
}

#[test]
fn closures_outlive_the_call_that_made_them() {
    prints(
        "fun adder(n){ fun add(m){ return n + m; } return add; } \
         var add2 = adder(2); var add5 = adder(5); print add2(1); print add5(1); print add2(10);",
        &["3", "6", "12"],
    );
}

#[test]
fn a_closure_sees_later_assignments_to_what_it_captured() {
    prints(
        "var get; var set; { var a = 1; fun g(){ return a; } fun s(v){ a = v; } get = g; set = s; } \
         print get(); set(7); print get();",
        &["1", "7"],
    );
}

#[test]
fn comments_and_blank_lines_are_skipped() {
    prints("// first\n\nprint 1; // trailing\n// last", &["1"]);
}

#[test]
fn runtime_errors_leave_later_texts_of_a_session_working() {
    let mut lox = Lox::new();
    let first = run_in(&mut lox, "fun f(){ { var x = 1; x(); } } f();");
    assert!(matches!(first.failure, Some(Error::Runtime(_))));
    let second = run_in(&mut lox, "var y = 2; print y;");
    assert_eq!(second.printed, vec!["2"]);
    assert!(second.failure.is_none());
}

#[test]
fn the_texts_of_a_session_have_offsets_of_their_own() {
    let mut lox = Lox::new();
    let offset_of = |statements: &Vec<Stmt>| match &statements[0] {
        Stmt::Expression(Expr::Variable { name }) => name.offset,
        other => panic!("expected a variable, got {:?}", other),
    };
    let first = lox.compile("a;").unwrap();
    assert_eq!(offset_of(&first), 0);
    let second = lox.compile("  b;").unwrap();
    assert_eq!(offset_of(&second), 5);
    assert!(lox.compile("@").is_err());
    let fourth = lox.compile("c;").unwrap();
    assert_eq!(offset_of(&fourth), 10);
}
