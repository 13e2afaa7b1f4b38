use swiftpp::compiler::analyzer::SemanticAnalyzer;
use swiftpp::compiler::ast::{BinaryOp, Expression, Statement, Type};
use swiftpp::compiler::lexer::{Lexer, TokenType};
use swiftpp::compiler::parser::Parser;
use swiftpp::compiler::Compiler;

fn tokens_of(source: &str) -> Vec<swiftpp::compiler::lexer::Token> {
    let mut lexer = Lexer::new(source);
    let mut tokens = Vec::new();
    loop {
        let token = lexer.next_token();
        if token.token_type == TokenType::EOF {
            break;
        }
        tokens.push(token);
    }
    tokens
}

#[test]
fn test_lexer() {
    let source = r#"
        fn main() -> i32 {
            let x: i32 = 42;
            return x;
        }
    "#;

    let tokens = tokens_of(source);

    // fn, main, (, ), ->, i32, {, let, x, :, i32, =, 42, ;, return, x, ;, }
    assert_eq!(tokens.len(), 18);
    let kinds: Vec<TokenType> = tokens.into_iter().map(|t| t.token_type).collect();
    assert_eq!(
        kinds,
        vec![
            TokenType::Fn,
            TokenType::Identifier("main".to_string()),
            TokenType::LeftParen,
            TokenType::RightParen,
            TokenType::Arrow,
            TokenType::Identifier("i32".to_string()),
            TokenType::LeftBrace,
            TokenType::Let,
            TokenType::Identifier("x".to_string()),
            TokenType::Colon,
            TokenType::Identifier("i32".to_string()),
            TokenType::Assign,
            TokenType::Integer(42),
            TokenType::Semicolon,
            TokenType::Return,
            TokenType::Identifier("x".to_string()),
            TokenType::Semicolon,
            TokenType::RightBrace,
        ]
    );
}

#[test]
fn test_parser() {
    let source = r#"
        fn add(a: i32, b: i32) -> i32 {
            return a + b;
        }
    "#;

    let tokens = tokens_of(source);
    let mut parser = Parser::new(tokens);
    let ast = parser.parse().expect("Failed to parse");

    match &ast.statements[0] {
        Statement::Function { name, params, return_type, .. } => {
            assert_eq!(name, "add");
            assert_eq!(params.len(), 2);
            assert!(return_type.is_some());
        }
        _ => panic!("Expected function definition"),
    }
}

#[test]
fn test_type_checker() {
    let source = r#"
        fn main() -> i32 {
            let x: i32 = 42;
            let y: f64 = 3.14;
            let z: i32 = x + y; // Type error
            return x;
        }
    "#;

    let tokens = tokens_of(source);
    let mut parser = Parser::new(tokens);
    let ast = parser.parse().expect("Failed to parse");

    let mut analyzer = SemanticAnalyzer::new();
    let result = analyzer.analyze(&ast);
    assert!(result.is_err()); // Should fail due to type mismatch
}

#[test]
fn test_optimization() {
    let source = r#"
        fn factorial(n: i32) -> i32 {
            if n <= 1 {
                return 1;
            }
            return n * factorial(n - 1);
        }
    "#;

    let compiler = Compiler::new(source.to_string(), "test.o".to_string());
    let result = compiler.compile();
    assert!(result.is_ok());
}

#[test]
fn test_end_to_end() {
    let source = r#"
        fn fibonacci(n: i32) -> i32 {
            if n <= 1 {
                return n;
            }
            return fibonacci(n - 1) + fibonacci(n - 2);
        }

        fn main() -> i32 {
            return fibonacci(10);
        }
    "#;

    let compiler = Compiler::new(source.to_string(), "test_fib.o".to_string());
    assert!(compiler.compile().is_ok());
}

#[test]
fn lexer_positions_and_kinds() {
    let tokens = tokens_of("let x = 42;\n  y -> z");
    assert_eq!(tokens.len(), 8);
    assert_eq!(tokens[0].token_type, TokenType::Let);
    assert_eq!((tokens[0].line, tokens[0].column), (1, 1));
    assert_eq!(tokens[1].token_type, TokenType::Identifier("x".to_string()));
    assert_eq!((tokens[1].line, tokens[1].column), (1, 5));
    assert_eq!(tokens[2].token_type, TokenType::Assign);
    assert_eq!(tokens[3].token_type, TokenType::Integer(42));
    assert_eq!(tokens[4].token_type, TokenType::Semicolon);
    assert_eq!(tokens[5].token_type, TokenType::Identifier("y".to_string()));
    assert_eq!((tokens[5].line, tokens[5].column), (2, 3));
    assert_eq!(tokens[6].token_type, TokenType::Arrow);
    assert_eq!(tokens[7].token_type, TokenType::Identifier("z".to_string()));
}

#[test]
fn lexer_operators_numbers_and_comments() {
    let tokens = tokens_of("a <= b >= c != d == e < f > g // rest\n3.14 1.2.3 99999999999999999999 #");
    let kinds: Vec<TokenType> = tokens.into_iter().map(|t| t.token_type).collect();
    assert_eq!(kinds[1], TokenType::LessEqual);
    assert_eq!(kinds[3], TokenType::GreaterEqual);
    assert_eq!(kinds[5], TokenType::NotEqual);
    assert_eq!(kinds[7], TokenType::Equal);
    assert_eq!(kinds[9], TokenType::Less);
    assert_eq!(kinds[11], TokenType::Greater);
    assert_eq!(kinds[13], TokenType::Float("3.14".to_string()));
    assert_eq!(kinds[14], TokenType::Malformed("1.2.3".to_string()));
    assert_eq!(kinds[15], TokenType::Malformed("99999999999999999999".to_string()));
    assert_eq!(kinds[16], TokenType::Unexpected('#'));
    assert_eq!(kinds.len(), 17);
}

#[test]
fn lexer_largest_integer() {
    let tokens = tokens_of("9223372036854775807 9223372036854775808");
    assert_eq!(tokens[0].token_type, TokenType::Integer(i64::MAX));
    assert_eq!(tokens[1].token_type, TokenType::Malformed("9223372036854775808".to_string()));
}

#[test]
fn lexer_end_is_repeated() {
    let mut lexer = Lexer::new("  ");
    assert_eq!(lexer.next_token().token_type, TokenType::EOF);
    assert_eq!(lexer.next_token().token_type, TokenType::EOF);
}

#[test]
fn parser_groups_from_the_left() {
    let mut parser = Parser::new(tokens_of("1 + 2 * 3"));
    let expression = parser.parse_expression().expect("expression");
    match expression {
        Expression::Binary { left, operator, right } => {
            assert_eq!(operator, BinaryOp::Multiply);
            assert!(matches!(*right, Expression::Integer(3)));
            match *left {
                Expression::Binary { left, operator, right } => {
                    assert_eq!(operator, BinaryOp::Add);
                    assert!(matches!(*left, Expression::Integer(1)));
                    assert!(matches!(*right, Expression::Integer(2)));
                }
                _ => panic!("expected a binary expression on the left"),
            }
        }
        _ => panic!("expected a binary expression"),
    }
}

#[test]
fn parser_reports_errors() {
    let mut parser = Parser::new(tokens_of("let = 3;"));
    assert_eq!(parser.parse().err(), Some("Expected identifier".to_string()));
    let mut parser = Parser::new(tokens_of("let x = ;"));
    assert_eq!(parser.parse().err(), Some("Expected expression".to_string()));
    let mut parser = Parser::new(tokens_of("fn f( { }"));
    assert!(parser.parse().is_err());
}

#[test]
fn analyzer_accepts_and_rejects() {
    let mut parser = Parser::new(tokens_of("let x: i32 = 1; let y: i32 = x + 2;"));
    let program = parser.parse().expect("parse");
    let mut analyzer = SemanticAnalyzer::new();
    assert!(analyzer.analyze(&program).is_ok());

    let mut parser = Parser::new(tokens_of("let x: i32 = y;"));
    let program = parser.parse().expect("parse");
    let mut analyzer = SemanticAnalyzer::new();
    let errors = analyzer.analyze(&program).expect_err("undefined variable");
    assert_eq!(errors, vec!["Undefined variable: y".to_string()]);

    let mut parser = Parser::new(tokens_of("let x: bool = 1;"));
    let program = parser.parse().expect("parse");
    let mut analyzer = SemanticAnalyzer::new();
    let errors = analyzer.analyze(&program).expect_err("mismatch");
    assert_eq!(errors, vec!["Type mismatch: expected bool, found i32".to_string()]);
}

#[test]
fn types_match_is_structural() {
    let analyzer = SemanticAnalyzer::new();
    let a = Type::Function(vec![Type::Int, Type::Custom("P".to_string())], Box::new(Type::Array(Box::new(Type::Bool))));
    let b = Type::Function(vec![Type::Int, Type::Custom("P".to_string())], Box::new(Type::Array(Box::new(Type::Bool))));
    let c = Type::Function(vec![Type::Int, Type::Custom("Q".to_string())], Box::new(Type::Array(Box::new(Type::Bool))));
    let d = Type::Function(vec![Type::Int], Box::new(Type::Array(Box::new(Type::Bool))));
    assert!(analyzer.types_match(&a, &b));
    assert!(!analyzer.types_match(&a, &c));
    assert!(!analyzer.types_match(&a, &d));
    assert!(!analyzer.types_match(&Type::Int, &Type::Float));
    assert!(analyzer.types_match(&a.duplicate(), &a));
}

#[test]
fn compile_reports_the_first_error() {
    let compiler = Compiler::new("let x: i32 = y;".to_string(), "out.o".to_string());
    assert_eq!(compiler.compile(), Err("Undefined variable: y".to_string()));
    let compiler = Compiler::new("let x = ;".to_string(), "out.o".to_string());
    assert_eq!(compiler.compile(), Err("Expected expression".to_string()));
}

#[test]
fn operator_symbols() {
    assert_eq!(BinaryOp::Add.symbol(), "+");
    assert_eq!(BinaryOp::LessEqual.symbol(), "<=");
    assert_eq!(BinaryOp::NotEqual.symbol(), "!=");
    assert!(BinaryOp::Equal.is_comparison());
    assert!(!BinaryOp::Divide.is_comparison());
}

#[test]
fn tokens_after_comments_have_their_places() {
    let tokens = tokens_of("// first\n  x // second\n\n\ty");
    assert_eq!(tokens.len(), 2);
    assert_eq!(tokens[0].token_type, TokenType::Identifier("x".to_string()));
    assert_eq!((tokens[0].line, tokens[0].column), (2, 3));
    assert_eq!(tokens[1].token_type, TokenType::Identifier("y".to_string()));
    assert_eq!((tokens[1].line, tokens[1].column), (4, 2));
    // a slash alone is an operator, and a comment may end the text
    let tokens = tokens_of("a / b // c");
    assert_eq!(tokens.len(), 3);
    assert_eq!(tokens[1].token_type, TokenType::Divide);
}

#[test]
fn strings_and_keywords() {
    let tokens = tokens_of("let lets \"a b\" \"open");
    assert_eq!(tokens[0].token_type, TokenType::Let);
    assert_eq!(tokens[1].token_type, TokenType::Identifier("lets".to_string()));
    assert_eq!(tokens[2].token_type, TokenType::String("a b".to_string()));
    assert_eq!(tokens[3].token_type, TokenType::Malformed("open".to_string()));
    assert_eq!(tokens.len(), 4);
    let kinds: Vec<TokenType> =
        tokens_of("fn return if else while for struct enum match async await move own ref _x1")
            .into_iter()
            .map(|t| t.token_type)
            .collect();
    assert_eq!(
        kinds,
        vec![
            TokenType::Fn,
            TokenType::Return,
            TokenType::If,
            TokenType::Else,
            TokenType::While,
            TokenType::For,
            TokenType::Struct,
            TokenType::Enum,
            TokenType::Match,
            TokenType::Async,
            TokenType::Await,
            TokenType::Move,
            TokenType::Own,
            TokenType::Ref,
            TokenType::Identifier("_x1".to_string()),
        ]
    );
}

#[test]
fn analyzer_messages() {
    let check = |source: &str| {
        let mut parser = Parser::new(tokens_of(source));
        let program = parser.parse().expect("parse");
        SemanticAnalyzer::new().analyze(&program)
    };
    assert_eq!(check("fn f(a: i32) -> bool { return a == 1; } f(1);"), Ok(()));
    assert_eq!(
        check("fn f(a: i32) -> bool { return a == 1; } f(1, 2);"),
        Err(vec!["Wrong number of arguments: expected 1, found 2".to_string()])
    );
    assert_eq!(
        check("fn f(a: i32) -> bool { return a == 1; } f(1.5);"),
        Err(vec!["Argument type mismatch: expected i32, found f64".to_string()])
    );
    assert_eq!(check("g(1);"), Err(vec!["Undefined function: g".to_string()]));
    assert_eq!(
        check("let a = 1 + \"x\";"),
        Err(vec!["Binary operation type mismatch: i32, found string".to_string()])
    );
    assert_eq!(
        check("if 1 { } while 2 { }"),
        Err(vec!["If condition must be a boolean".to_string()])
    );
    assert_eq!(
        check("fn f() { if 1 { } while 2 { } }"),
        Err(vec![
            "If condition must be a boolean".to_string(),
            "While condition must be a boolean".to_string()
        ])
    );
    // what a function declares is known in its body only
    assert_eq!(
        check("fn f(a: i32) { let b = a; } let c = b;"),
        Err(vec!["Undefined variable: b".to_string()])
    );
    // the later variable of a name holds
    assert_eq!(check("let a = 1; let a = true; if a { }"), Ok(()));
    // a function may be called before it is declared
    assert_eq!(check("let a: i32 = f(); fn f() -> i32 { return 1; }"), Ok(()));
    assert_eq!(check("let a: Point = 1;"), Err(vec!["Type mismatch: expected Point, found i32".to_string()]));
}

#[test]
fn statements_of_every_kind() {
    let mut parser = Parser::new(tokens_of(
        "struct P { x: i32, y: f64 } fn f(p: P) { while true { return; } if false { } else { g(p, (1)) } } let s: string = \"t\"; 7",
    ));
    let program = parser.parse().expect("parse");
    assert_eq!(program.statements.len(), 4);
    assert!(matches!(&program.statements[0], Statement::Struct { fields, .. } if fields.len() == 2));
    match &program.statements[1] {
        Statement::Function { params, return_type, body, .. } => {
            assert_eq!(params.len(), 1);
            assert!(return_type.is_none());
            assert_eq!(body.len(), 2);
            assert!(matches!(&body[0], Statement::While { body, .. } if matches!(body[0], Statement::Return(None))));
            assert!(matches!(&body[1], Statement::If { else_branch: Some(e), .. } if e.len() == 1));
        }
        _ => panic!("a function"),
    }
    assert!(matches!(&program.statements[2], Statement::Let { type_annotation: Some(Type::String), .. }));
    assert!(matches!(&program.statements[3], Statement::Expression(Expression::Integer(7))));
    for bad in ["fn", "fn f", "fn f(", "fn f() {", "let x 1;", "let x = 1", "return 1", "if x", "struct P { x }", "f(1", "(1", "1 +", ")"] {
        let mut parser = Parser::new(tokens_of(bad));
        assert!(parser.parse().is_err(), "{:?}", bad);
    }
}
