//! Monkey programs from source text to the value they leave behind. The front end here is just
//! large enough for these programs.

use std::rc::Rc;

use monkey_vm::code::{Bytecode, OpCode};
use monkey_vm::object::{CompiledFunction, HashKey, Object};
use monkey_vm::vm::Vm;

// Source text to tokens.

#[derive(Clone, Debug, PartialEq)]
enum Token {
    Word(String),
    Number(i64),
    Text(String),
    Symbol(String),
}

fn tokenize(source: &str) -> Vec<Token> {
    let chars: Vec<char> = source.chars().collect();
    let mut tokens = Vec::new();
    let mut at: usize = 0;
    while at < chars.len() {
        let c = chars[at];
        if c.is_whitespace() {
            at += 1;
        } else if c.is_ascii_digit() {
            let start: usize = at;
            while at < chars.len() && chars[at].is_ascii_digit() {
                at += 1;
            }
            let digits: String = chars[start..at].iter().collect();
            tokens.push(Token::Number(digits.parse().unwrap()));
        } else if c.is_alphabetic() {
            let start: usize = at;
            while at < chars.len() && chars[at].is_alphanumeric() {
                at += 1;
            }
            tokens.push(Token::Word(chars[start..at].iter().collect()));
        } else if c == '"' {
            let start: usize = at + 1;
            at = start;
            while chars[at] != '"' {
                at += 1;
            }
            tokens.push(Token::Text(chars[start..at].iter().collect()));
            at += 1;
        } else {
            let two: String = chars[at..].iter().take(2).collect();
            if two == "==" || two == "!=" {
                tokens.push(Token::Symbol(two));
                at += 2;
            } else {
                tokens.push(Token::Symbol(c.to_string()));
                at += 1;
            }
        }
    }
    tokens
}

// Tokens to a tree.

enum Statement {
    Let(String, Expression),
    Return(Expression),
    Expression(Expression),
}

enum Expression {
    Number(i64),
    Boolean(bool),
    Text(String),
    Name(String),
    Prefix(String, Box<Expression>),
    Infix(String, Box<Expression>, Box<Expression>),
    If(Box<Expression>, Vec<Statement>, Option<Vec<Statement>>),
    Function(Vec<Statement>),
    Call(Box<Expression>),
    Array(Vec<Expression>),
    Hash(Vec<(Expression, Expression)>),
    Index(Box<Expression>, Box<Expression>),
}

struct Parser {
    tokens: Vec<Token>,
    at: usize,
}

impl Parser {
    fn sees(&self, symbol: &str) -> bool {
        self.tokens.get(self.at) == Some(&Token::Symbol(symbol.to_string()))
    }

    fn sees_word(&self, word: &str) -> bool {
        self.tokens.get(self.at) == Some(&Token::Word(word.to_string()))
    }

    fn accept(&mut self, symbol: &str) -> bool {
        let seen = self.sees(symbol);
        if seen {
            self.at += 1;
        }
        seen
    }

    fn expect(&mut self, symbol: &str) {
        assert!(self.accept(symbol), "expected {} at token {}", symbol, self.at);
    }

    fn advance(&mut self) -> Token {
        self.at += 1;
        self.tokens[self.at - 1].clone()
    }

    fn statements(&mut self) -> Vec<Statement> {
        let mut statements = Vec::new();
        while self.at < self.tokens.len() && !self.sees("}") {
            statements.push(self.statement());
        }
        statements
    }

    fn block(&mut self) -> Vec<Statement> {
        self.expect("{");
        let statements = self.statements();
        self.expect("}");
        statements
    }

    fn statement(&mut self) -> Statement {
        let statement = if self.sees_word("let") {
            self.at += 1;
            let name = match self.advance() {
                Token::Word(name) => name,
                other => panic!("expected a name, got {:?}", other),
            };
            self.expect("=");
            Statement::Let(name, self.expression(0))
        } else if self.sees_word("return") {
            self.at += 1;
            Statement::Return(self.expression(0))
        } else {
            Statement::Expression(self.expression(0))
        };
        self.accept(";");
        statement
    }

    fn binding_power(&self) -> u8 {
        match self.tokens.get(self.at) {
            Some(Token::Symbol(symbol)) => match symbol.as_str() {
                "==" | "!=" => 1,
                "<" | ">" => 2,
                "+" | "-" => 3,
                "*" | "/" => 4,
                "(" => 6,
                "[" => 7,
                _ => 0,
            },
            _ => 0,
        }
    }

    fn expression(&mut self, minimum: u8) -> Expression {
        let mut left = self.operand();
        while self.binding_power() > minimum {
            let power: u8 = self.binding_power();
            let symbol = match self.advance() {
                Token::Symbol(symbol) => symbol,
                other => panic!("expected an operator, got {:?}", other),
            };
            left = match symbol.as_str() {
                "(" => {
                    self.expect(")");
                    Expression::Call(Box::new(left))
                }
                "[" => {
                    let index = self.expression(0);
                    self.expect("]");
                    Expression::Index(Box::new(left), Box::new(index))
                }
                _ => {
                    let right = self.expression(power);
                    Expression::Infix(symbol, Box::new(left), Box::new(right))
                }
            };
        }
        left
    }

    fn operand(&mut self) -> Expression {
        match self.advance() {
            Token::Number(value) => Expression::Number(value),
            Token::Text(value) => Expression::Text(value),
            Token::Word(word) => match word.as_str() {
                "true" => Expression::Boolean(true),
                "false" => Expression::Boolean(false),
                "if" => {
                    self.expect("(");
                    let condition = self.expression(0);
                    self.expect(")");
                    let consequence = self.block();
                    let alternative = if self.sees_word("else") {
                        self.at += 1;
                        Some(self.block())
                    } else {
                        None
                    };
                    Expression::If(Box::new(condition), consequence, alternative)
                }
                "fn" => {
                    self.expect("(");
                    self.expect(")");
                    Expression::Function(self.block())
                }
                _ => Expression::Name(word),
            },
            Token::Symbol(symbol) => match symbol.as_str() {
                "-" | "!" => Expression::Prefix(symbol, Box::new(self.expression(5))),
                "(" => {
                    let inner = self.expression(0);
                    self.expect(")");
                    inner
                }
                "[" => {
                    let mut items = Vec::new();
                    while !self.accept("]") {
                        items.push(self.expression(0));
                        self.accept(",");
                    }
                    Expression::Array(items)
                }
                "{" => {
                    let mut pairs = Vec::new();
                    while !self.accept("}") {
                        let key = self.expression(0);
                        self.expect(":");
                        pairs.push((key, self.expression(0)));
                        self.accept(",");
                    }
                    Expression::Hash(pairs)
                }
                _ => panic!("unexpected {}", symbol),
            },
        }
    }
}

// The tree to bytecode.

struct Scope {
    code: Vec<u8>,
    last: Option<OpCode>,
    names: Vec<String>,
}

struct Compiler {
    constants: Vec<Rc<Object>>,
    scopes: Vec<Scope>,
}

impl Compiler {
    fn scope(&mut self) -> &mut Scope {
        self.scopes.last_mut().unwrap()
    }

    fn emit(&mut self, op_code: OpCode) {
        let scope = self.scope();
        scope.code.push(op_code.to_byte());
        scope.last = Some(op_code);
    }

    fn emit_wide(&mut self, op_code: OpCode, operand: usize) -> usize {
        self.emit(op_code);
        let code = &mut self.scope().code;
        code.push((operand / 256) as u8);
        code.push((operand % 256) as u8);
        code.len() - 2
    }

    fn emit_narrow(&mut self, op_code: OpCode, operand: usize) {
        self.emit(op_code);
        self.scope().code.push(operand as u8);
    }

    fn patch(&mut self, at: usize) {
        let scope = self.scope();
        let target: usize = scope.code.len();
        scope.code[at] = (target / 256) as u8;
        scope.code[at + 1] = (target % 256) as u8;
        scope.last = None;
    }

    fn constant(&mut self, object: Object) {
        self.constants.push(Rc::new(object));
        let index: usize = self.constants.len() - 1;
        self.emit_wide(OpCode::Constant, index);
    }

    fn drop_last_pop(&mut self) {
        let scope = self.scope();
        if scope.last == Some(OpCode::Pop) {
            scope.code.pop();
            scope.last = None;
        }
    }

    fn statements(&mut self, statements: &[Statement]) {
        for statement in statements {
            match statement {
                Statement::Let(name, value) => {
                    self.expression(value);
                    let global = self.scopes.len() == 1;
                    let names = &mut self.scope().names;
                    let index: usize = match names.iter().position(|known| known == name) {
                        Some(index) => index,
                        None => {
                            names.push(name.clone());
                            names.len() - 1
                        }
                    };
                    if global {
                        self.emit_wide(OpCode::SetGlobal, index);
                    } else {
                        self.emit_narrow(OpCode::SetLocal, index);
                    }
                }
                Statement::Return(value) => {
                    self.expression(value);
                    self.emit(OpCode::ReturnValue);
                }
                Statement::Expression(value) => {
                    self.expression(value);
                    self.emit(OpCode::Pop);
                }
            }
        }
    }

    fn expression(&mut self, expression: &Expression) {
        match expression {
            Expression::Number(value) => self.constant(Object::Integer(*value)),
            Expression::Text(value) => self.constant(Object::String(value.clone())),
            Expression::Boolean(true) => self.emit(OpCode::True),
            Expression::Boolean(false) => self.emit(OpCode::False),
            Expression::Name(name) => {
                let local = self.scope().names.iter().position(|known| known == name);
                match local {
                    Some(index) if self.scopes.len() > 1 => {
                        self.emit_narrow(OpCode::GetLocal, index)
                    }
                    _ => {
                        let names = &self.scopes[0].names;
                        let index: usize = names.iter().position(|known| known == name).unwrap();
                        self.emit_wide(OpCode::GetGlobal, index);
                    }
                }
            }
            Expression::Prefix(symbol, right) => {
                self.expression(right);
                self.emit(if symbol == "-" { OpCode::Minus } else { OpCode::Bang });
            }
            Expression::Infix(symbol, left, right) => {
                if symbol == "<" {
                    self.expression(right);
                    self.expression(left);
                } else {
                    self.expression(left);
                    self.expression(right);
                }
                self.emit(match symbol.as_str() {
                    "+" => OpCode::Add,
                    "-" => OpCode::Sub,
                    "*" => OpCode::Mul,
                    "/" => OpCode::Div,
                    "==" => OpCode::Equal,
                    "!=" => OpCode::NotEqual,
                    _ => OpCode::GreaterThan,
                });
            }
            Expression::If(condition, consequence, alternative) => {
                self.expression(condition);
                let over: usize = self.emit_wide(OpCode::JumpIfNotTruthy, 0);
                self.statements(consequence);
                self.drop_last_pop();
                let behind: usize = self.emit_wide(OpCode::Jump, 0);
                self.patch(over);
                match alternative {
                    Some(statements) => {
                        self.statements(statements);
                        self.drop_last_pop();
                    }
                    None => self.emit(OpCode::Null),
                }
                self.patch(behind);
            }
            Expression::Function(body) => {
                self.scopes.push(Scope { code: Vec::new(), last: None, names: Vec::new() });
                self.statements(body);
                if self.scope().last == Some(OpCode::Pop) {
                    self.drop_last_pop();
                    self.emit(OpCode::ReturnValue);
                }
                if self.scope().last != Some(OpCode::ReturnValue) {
                    self.emit(OpCode::Return);
                }
                let scope = self.scopes.pop().unwrap();
                self.constant(Object::CompiledFunction(CompiledFunction {
                    instructions: scope.code,
                    num_locals: scope.names.len() as u8,
                }));
            }
            Expression::Call(function) => {
                self.expression(function);
                self.emit(OpCode::Call);
            }
            Expression::Array(items) => {
                for item in items {
                    self.expression(item);
                }
                self.emit_wide(OpCode::Array, items.len());
            }
            Expression::Hash(pairs) => {
                for (key, value) in pairs {
                    self.expression(key);
                    self.expression(value);
                }
                self.emit_wide(OpCode::Hash, pairs.len());
            }
            Expression::Index(object, index) => {
                self.expression(object);
                self.expression(index);
                self.emit(OpCode::Index);
            }
        }
    }
}

fn compile(source: &str, globals: Vec<String>) -> (Bytecode, Vec<String>) {
    let mut parser = Parser { tokens: tokenize(source), at: 0 };
    let program = parser.statements();
    assert_eq!(parser.at, parser.tokens.len(), "for `{}`", source);
    let mut compiler = Compiler {
        constants: Vec::new(),
        scopes: vec![Scope { code: Vec::new(), last: None, names: globals }],
    };
    compiler.statements(&program);
    let main = compiler.scopes.pop().unwrap();
    (Bytecode { instructions: main.code, constants: compiler.constants }, main.names)
}

// Values to text.

fn show_key(key: &HashKey) -> String {
    match key {
        HashKey::Integer(value) => value.to_string(),
        HashKey::String(value) => format!("\"{}\"", value),
        HashKey::Boolean(value) => value.to_string(),
    }
}

fn show(object: &Object) -> String {
    match object {
        Object::Null => "null".to_string(),
        Object::Integer(value) => value.to_string(),
        Object::Boolean(value) => value.to_string(),
        Object::String(value) => format!("\"{}\"", value),
        Object::Array(items) => {
            let items: Vec<String> = items.iter().map(show).collect();
            format!("[{}]", items.join(", "))
        }
        Object::Hash(pairs) => {
            let mut items: Vec<String> = pairs
                .entries()
                .iter()
                .map(|(key, value)| format!("{}: {}", show_key(key), show(value)))
                .collect();
            items.sort();
            format!("{{{}}}", items.join(", "))
        }
        Object::CompiledFunction(_) => "fn".to_string(),
    }
}

fn test_vm(tests: Vec<(&str, &str)>) {
    for (input, expected) in tests {
        let (bytecode, _) = compile(input, Vec::new());
        let mut vm = Vm::new(bytecode);
        if let Err(err) = vm.run() {
            panic!("error on vm for `{}`: {}", input, err.to_string());
        }
        if let Some(obj) = vm.last_popped_stack_elem() {
            assert_eq!(&show(&obj), expected, "for `{}` {:?}", input, vm);
        } else {
            panic!("no stack top on vm for `{} {:?}`", input, vm);
        }
    }
}

#[test]
fn integer() {
    test_vm(vec![
        ("1", "1"),
        ("2", "2"),
        ("1 + 2", "3"),
        ("1 - 2", "-1"),
        ("2 * 3", "6"),
        ("4 / 2", "2"),
        ("50 / 2 * 2 + 10 - 5", "55"),
        ("5 * (2 + 10)", "60"),
        ("5 + 5 + 5 + 5 - 10", "10"),
        ("2 * 2 * 2 * 2 * 2", "32"),
        ("5 * 2 + 10", "20"),
        ("5 + 2 * 10", "25"),
        ("1 == 1", "true"),
        ("1 == 2", "false"),
        ("1 != 1", "false"),
        ("1 != 2", "true"),
        ("1 > 2", "false"),
        ("2 > 1", "true"),
        ("1 < 2", "true"),
        ("2 < 1", "false"),
    ]);
}

#[test]
fn boolean() {
    test_vm(vec![
        ("true", "true"),
        ("false", "false"),
        ("true == true", "true"),
        ("false == false", "true"),
        ("true == false", "false"),
        ("true != true", "false"),
        ("false != false", "false"),
        ("true != false", "true"),
    ]);
}

#[test]
fn prefix_minus() {
    test_vm(vec![
        ("-123", "-123"),
        ("-(1 + 3)", "-4"),
        ("-(10 - 23)", "13"),
    ]);
}

#[test]
fn prefix_bang() {
    test_vm(vec![
        ("!true", "false"),
        ("!false", "true"),
        ("!0", "false"),
        ("!123", "false"),
        ("!-123", "false"),
        ("!!true", "true"),
        ("!!false", "false"),
        ("!!0", "true"),
        ("!!123", "true"),
        ("!!-123", "true"),
        ("!(if (false) { 10 })", "true"),
    ]);
}

#[test]
fn if_expression() {
    test_vm(vec![
        ("if (true) { 10 }", "10"),
        ("if (true) { 10 } else { 20 }", "10"),
        ("if (false) { 10 } else { 20 }", "20"),
        ("if (1) { 10 }", "10"),
        ("if (1 < 2) { 10 }", "10"),
        ("if (1 < 2) { 10 } else { 20 }", "10"),
        ("if (1 > 2) { 10 } else { 20 }", "20"),
        ("if (false) { 10 }", "null"),
        ("if (1 > 2) { 10 }", "null"),
        ("if (if (false) { 10 }) { 10 }", "null"),
        ("if (if (false) { 10 }) { 10 } else { 20 }", "20"),
    ]);
}

#[test]
fn global_let_statements() {
    test_vm(vec![
        ("let one = 1; one", "1"),
        ("let one = 1; let two = 2; one + two", "3"),
        ("let one = 1; let two = one + one; one + two", "3"),
    ]);
}

#[test]
fn string_expressions() {
    test_vm(vec![
        (r#""hello""#, r#""hello""#),
        (r#""hello" + " world""#, r#""hello world""#),
        (r#""foo" + "bar" + "baz""#, r#""foobarbaz""#),
    ]);
}

#[test]
fn array_literals() {
    test_vm(vec![
        ("[1, 2, 3]", "[1, 2, 3]"),
        ("[1, 2 + 3, 4 + 5 + 6]", "[1, 5, 15]"),
    ]);
}

#[test]
fn hash_literals() {
    test_vm(vec![
        ("{}", "{}"),
        ("{1: 2, 2: 3}", "{1: 2, 2: 3}"),
        ("{1 + 1: 2 * 2, 3 + 3: 4 * 4}", "{2: 4, 6: 16}"),
    ]);
}

#[test]
fn index_expression() {
    test_vm(vec![
        ("[][1]", "null"),
        ("[1, 2][-1]", "null"),
        ("[1, 2][0]", "1"),
        (r#"{}["foo"]"#, "null"),
        (r#"{"foo": 1 + 2, "bar": 3 + 4}["bar"]"#, "7"),
    ]);
}

#[test]
fn function_call_without_arguments() {
    test_vm(vec![
        (
            "let fivePlusTen = fn() { 5 + 10; };
                 fivePlusTen();",
            "15",
        ),
        (
            "let one = fn() { 1 };
                 let two = fn() { 2 };
                 one() + two()",
            "3",
        ),
        (
            "let a = fn() { 1 };
                 let b = fn() { a() + 2 };
                 let c = fn() { b() + 3 };
                 c();",
            "6",
        ),
        (
            "let earlyExit = fn() { return 99; 100 };
                 earlyExit();",
            "99",
        ),
    ]);
}

#[test]
fn function_call_without_return_value() {
    test_vm(vec![(
        "let noReturn = fn() {};
             noReturn();",
        "null",
    )]);
}

#[test]
fn first_call_function() {
    test_vm(vec![(
        "let returnsOne = fn() { 1 };
             let returnsOneReturner = fn() { returnsOne };
             returnsOneReturner()();",
        "1",
    )]);
}

#[test]
fn calling_functions_with_bindings() {
    test_vm(vec![
        ("let one = fn() { let one = 1; one }; one();", "1"),
        (
            "let oneAndTwo = fn() { let one = 1; let two = 2; one + two; };
                 oneAndTwo();",
            "3",
        ),
        (
            "let oneAndTwo = fn() { let one = 1; let two = 2; one + two; };
                 let threeAndFour = fn() { let three = 3; let four = 4; three + four; };
                 oneAndTwo() + threeAndFour();",
            "10",
        ),
        (
            "let firstFoobar = fn() { let foobar = 50; foobar; };
                 let secondFoobar = fn() { let foobar = 100; foobar; };
                 firstFoobar() + secondFoobar();",
            "150",
        ),
        (
            "let globalSeed = 50;
                 let minusOne = fn() { let num = 1; globalSeed - num; };
                 let minusTwo = fn() { let num = 2; globalSeed - num; };
                 minusOne() + minusTwo();",
            "97",
        ),
    ]);
}

#[test]
fn globals_carry_over_to_another_machine() {
    let (bytecode, names) = compile("let one = 1; let two = 2;", Vec::new());
    let mut first = Vm::new(bytecode);
    assert!(first.run().is_ok());
    let globals = first.into_globals();
    assert_eq!(globals.len(), 2);

    let (bytecode, _) = compile("let one = 10; one + two", names);
    let mut second = Vm::new_with_globals_store(bytecode, globals);
    assert!(second.run().is_ok());
    assert_eq!(show(&second.last_popped_stack_elem().unwrap()), "12");
    assert_eq!(show(&second.globals[0]), "10");
    assert_eq!(show(&second.globals[1]), "2");
}

#[test]
fn later_pair_replaces_earlier_one() {
    test_vm(vec![
        ("{1: 2, 1: 3}", "{1: 3}"),
        ("{1: 2, 1: 3}[1]", "3"),
        ("{true: 1, false: 2}[false]", "2"),
        ("{1: 2}[true]", "null"),
    ]);
}

#[test]
fn quotient_rounds_toward_zero() {
    test_vm(vec![
        ("7 / 2", "3"),
        ("-7 / 2", "-3"),
        ("7 / -2", "-3"),
        ("-7 / -2", "3"),
        ("0 / -3", "0"),
    ]);
}

#[test]
fn calls_leave_the_stack_as_they_found_it() {
    test_vm(vec![
        ("let f = fn() { let a = 2; a * 3 }; [1, f(), 4]", "[1, 6, 4]"),
        ("let f = fn() { if (true) { return 1; } return 2; }; f() + 10 * f()", "11"),
        ("let f = fn() {}; {1: f()}", "{1: null}"),
    ]);
}
