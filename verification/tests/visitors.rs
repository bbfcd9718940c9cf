//! Dispatch of trees to visitors.

use rlox::ast::{Expr, Visitor as ExprVisitor};
use rlox::errors::Error;
use rlox::statement::{Stmt, Visitor as StmtVisitor};
use rlox::tokens::{Literal, Token, TokenType};

fn token(kind: TokenType, lexeme: &str) -> Token {
    Token::new(kind, lexeme.to_string(), Literal::Nil, 1)
}

fn number(numeral: &str) -> Expr {
    Expr::Literal { value: Literal::Number(numeral.to_string()) }
}

/// Names the kind of the expression it is handed.
struct Namer;

impl ExprVisitor<String> for Namer {
    fn visit_binary_expr(&self, _: &Expr, operator: &Token, _: &Expr) -> Result<String, Error> {
        Ok(format!("binary {}", operator.lexeme))
    }

    fn visit_unary_expr(&self, operator: &Token, _: &Expr) -> Result<String, Error> {
        Ok(format!("unary {}", operator.lexeme))
    }

    fn visit_grouping_expr(&self, _: &Expr) -> Result<String, Error> {
        Ok("grouping".to_string())
    }

    fn visit_literal_expr(&self, value: &Literal) -> Result<String, Error> {
        Ok(format!("literal {:?}", value))
    }

    fn visit_variable_expr(&self, name: &Token) -> Result<String, Error> {
        Ok(format!("variable {}", name.lexeme))
    }

    fn visit_variable_assignment_expr(&self, _: &Expr) -> Result<String, Error> {
        Ok("assign".to_string())
    }

    fn visit_logical_expr(&self, _: &Expr) -> Result<String, Error> {
        Ok("logical".to_string())
    }

    fn visit_call_expr(&self, _: &Expr) -> Result<String, Error> {
        Err(Error::Runtime("no calls".to_string()))
    }

    fn visit_get_expr(&self, _: &Expr) -> Result<String, Error> {
        Ok("get".to_string())
    }
}

#[test]
fn an_expression_goes_to_the_method_for_its_kind() {
    let namer = Namer;
    let one = || Box::new(number("1"));
    let name = || token(TokenType::IDENTIFIER, "a");
    assert_eq!(
        Expr::Binary { left: one(), operator: token(TokenType::PLUS, "+"), right: one() }
            .accept(&namer)
            .unwrap(),
        "binary +"
    );
    assert_eq!(
        Expr::Unary { operator: token(TokenType::BANG, "!"), right: one() }.accept(&namer).unwrap(),
        "unary !"
    );
    assert_eq!(Expr::Grouping { expression: one() }.accept(&namer).unwrap(), "grouping");
    assert_eq!(number("1").accept(&namer).unwrap(), "literal Number(\"1\")");
    assert_eq!(Expr::Variable { name: name() }.accept(&namer).unwrap(), "variable a");
    assert_eq!(Expr::Assign { name: name(), value: one() }.accept(&namer).unwrap(), "assign");
    assert_eq!(
        Expr::Logical { left: one(), operator: token(TokenType::OR, "or"), right: one() }
            .accept(&namer)
            .unwrap(),
        "logical"
    );
    assert_eq!(Expr::Get { object: one(), name: name() }.accept(&namer).unwrap(), "get");
    let call = Expr::Call {
        callee: one(),
        paren: token(TokenType::RIGHT_PAREN, ")"),
        arguments: Vec::new(),
    };
    assert!(matches!(call.accept(&namer), Err(Error::Runtime(text)) if text == "no calls"));
}

/// Counts the statements it is handed, by kind.
#[derive(Default)]
struct Counter {
    seen: Vec<&'static str>,
}

impl Counter {
    fn note(&mut self, kind: &'static str) -> Result<usize, Error> {
        self.seen.push(kind);
        Ok(self.seen.len())
    }
}

impl StmtVisitor<usize> for Counter {
    fn visit_print_statement(&mut self, _: &Stmt) -> Result<usize, Error> {
        self.note("print")
    }

    fn visit_expression_statement(&mut self, _: &Stmt) -> Result<usize, Error> {
        self.note("expression")
    }

    fn visit_variable_statement(&mut self, _: &Stmt) -> Result<usize, Error> {
        self.note("variable")
    }

    fn visit_block_statement(&mut self, statements: &Vec<Stmt>) -> Result<usize, Error> {
        for statement in statements {
            statement.accept(self)?;
        }
        self.note("block")
    }

    fn visit_if_statement(&mut self, _: &Stmt) -> Result<usize, Error> {
        self.note("if")
    }

    fn visit_while_statement(&mut self, _: &Stmt) -> Result<usize, Error> {
        self.note("while")
    }

    fn visit_function_statement(&mut self, _: &Stmt) -> Result<usize, Error> {
        self.note("function")
    }

    fn visit_return_statement(&mut self, _: &Stmt) -> Result<usize, Error> {
        self.note("return")
    }

    fn visit_class_statement(&mut self, _: &Stmt) -> Result<usize, Error> {
        self.note("class")
    }
}

#[test]
fn a_statement_goes_to_the_method_for_its_kind() {
    let name = || token(TokenType::IDENTIFIER, "a");
    let block = Stmt::Block {
        statements: vec![
            Stmt::Print(number("1")),
            Stmt::Expression(number("2")),
            Stmt::Variable { name: name(), initializer: None },
            Stmt::If {
                condition: number("3"),
                then_branch: Box::new(Stmt::Print(number("4"))),
                else_branch: None,
            },
            Stmt::While { condition: number("5"), body: Box::new(Stmt::Print(number("6"))) },
            Stmt::Function { name: name(), params: Vec::new(), body: Vec::new() },
            Stmt::Return { keyword: token(TokenType::RETURN, "return"), value: None },
            Stmt::Class { name: name(), methods: Vec::new() },
        ],
    };
    let mut counter = Counter::default();
    assert_eq!(block.accept(&mut counter).unwrap(), 9);
    assert_eq!(
        counter.seen,
        vec!["print", "expression", "variable", "if", "while", "function", "return", "class", "block"]
    );
}
