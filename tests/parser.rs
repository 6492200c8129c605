use rift::ast::AST;
use rift::error::RiftError;
use rift::lexer::tokenize;
use rift::parser::parse;

fn parse_text(text: &str) -> Result<AST, RiftError> {
    parse(&tokenize(text).unwrap())
}

fn statements(text: &str) -> Vec<AST> {
    match parse_text(text).unwrap() {
        AST::Program(v) => v,
        _ => panic!("a program was expected"),
    }
}

fn parse_error(text: &str) -> String {
    match parse_text(text) {
        Err(RiftError::ParseError(m)) => m,
        other => panic!("expected a parse error, got {:?}", other),
    }
}

#[test]
fn parses_rift_with_fuse() {
    let v = statements("@rift hello { @fuse \"python\" { \"print('Hello, World!')\" } }");
    assert_eq!(v.len(), 1);
    match &v[0] {
        AST::Rift(name, body) => {
            assert_eq!(name, "hello");
            assert!(matches!(&body[..], [AST::Fuse(l, c)] if l == "python" && c == "print('Hello, World!')"));
        }
        _ => panic!("rift expected"),
    }
}

#[test]
fn parses_task_with_call_arguments() {
    let v = statements("@task opt { @target \"rust\" call optimize with hello; }\ncall opt;");
    assert_eq!(v.len(), 2);
    match &v[0] {
        AST::Task(name, body) => {
            assert_eq!(name, "opt");
            assert!(matches!(&body[0], AST::Target(l) if l == "rust"));
            match &body[1] {
                AST::Call(n, args) => {
                    assert_eq!(n, "optimize");
                    assert!(matches!(&args[..], [AST::Identifier(a)] if a == "hello"));
                }
                _ => panic!("call expected"),
            }
        }
        _ => panic!("task expected"),
    }
    assert!(matches!(&v[1], AST::Call(n, a) if n == "opt" && a.is_empty()));
}

#[test]
fn parses_control_flow_and_lets() {
    let v = statements("let x = 5; // note\nif 1 { let y = \"s\"; } else { call f with 1, z; }\nwhile 0 { }");
    assert_eq!(v.len(), 3);
    assert!(matches!(&v[0], AST::Let(n, e) if n == "x" && matches!(**e, AST::Number(5))));
    match &v[1] {
        AST::If(c, t, e) => {
            assert!(matches!(**c, AST::Number(1)));
            assert_eq!(t.len(), 1);
            assert!(matches!(&e[0], AST::Call(n, a) if n == "f" && a.len() == 2));
        }
        _ => panic!("if expected"),
    }
    assert!(matches!(&v[2], AST::While(c, b) if matches!(**c, AST::Number(0)) && b.is_empty()));
}

#[test]
fn parses_deploy_config() {
    let v = statements("@deploy \"aws\" { region = \"us-east-1\", bucket = \"b\"; function = f }");
    match &v[0] {
        AST::Deploy(t, cfg) => {
            assert_eq!(t, "aws");
            assert_eq!(
                cfg,
                &vec![
                    ("region".to_string(), "us-east-1".to_string()),
                    ("bucket".to_string(), "b".to_string()),
                    ("function".to_string(), "f".to_string()),
                ]
            );
        }
        _ => panic!("deploy expected"),
    }
}

#[test]
fn reports_parse_errors() {
    assert_eq!(parse_error("let x 5;"), "Expected '=' after variable name");
    assert_eq!(parse_error("foo"), "Unexpected token: 'foo' at line 1, column 1");
    assert_eq!(parse_error("let x = 45.67;"), "Invalid number");
    assert_eq!(parse_error("let x = 99999999999;"), "Invalid number");
    assert_eq!(parse_error("@rift a {"), "Expected '}' to close block");
    assert_eq!(parse_error("call f"), "Expected ';' after call statement");
    assert_eq!(parse_error("@fuse python"), "Expected language string after @fuse");
}

#[test]
fn empty_program() {
    assert!(statements("").is_empty());
    assert!(statements("// only a comment").is_empty());
}
