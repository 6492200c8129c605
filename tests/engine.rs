use rift::ast::AST;
use rift::deploy::{plan_deployment, select_sinks, Retry, RetryStep, Sink};
use rift::digest::content_hash;
use rift::environment::{compile_rift, compress_artifact, evaluate_condition, evaluate_expression, Environment};
use rift::error::RiftError;
use rift::interpreter::{optimize_code, Action, Interpreter, MAX_ITERATIONS};
use rift::resolver::{resolve_deps, SyntaxNode};
use rift::transform::{translate, transform_php_to_rust};

fn s(x: &str) -> String {
    x.to_string()
}

fn fuse(lang: &str, code: &str) -> AST {
    AST::Fuse(s(lang), s(code))
}

/// Runs a program to its end; snippets "run" by echoing their code, and every
/// deployment job succeeds. Returns the outcome, the number of snippet runs and
/// the number of steps.
fn run(env: Environment, program: AST) -> (Environment, Result<(), RiftError>, usize, usize) {
    let mut it = Interpreter::new(env, program);
    let mut executions = 0;
    let mut steps = 0;
    let outcome = loop {
        steps += 1;
        let mut action = it.step();
        loop {
            match action {
                Action::Execute { code, .. } => {
                    executions += 1;
                    action = it.finish_execution(Ok(format!("ran {}", code)));
                }
                Action::Deploy(_jobs) => {
                    action = it.finish_deployment(Vec::new());
                }
                _ => break,
            }
        }
        match action {
            Action::Continue => {}
            Action::Finished => break Ok(()),
            Action::Failed(e) => break Err(e),
            _ => unreachable!(),
        }
    };
    (it.env, outcome, executions, steps)
}

fn hash_of(code: &str) -> String {
    content_hash(code)
}

#[test]
fn content_hash_is_sha256_hex() {
    assert_eq!(hash_of("abc"), "ba7816bf8f01cfea414140de5dae2223b00361a396177a9cb410ff61f20015ad");
    assert_eq!(hash_of(""), "e3b0c44298fc1c149afbf4c8996fb92427ae41e4649b934ca495991b7852b855");
}

#[test]
fn hashes_are_deterministic_and_distinct_on_corpus() {
    let corpus = ["print('a')", "print('b')", "console.log(1)", "", " ", "print('a') "];
    for c in corpus {
        assert_eq!(hash_of(c), hash_of(c));
    }
    for (i, a) in corpus.iter().enumerate() {
        for b in corpus.iter().skip(i + 1) {
            assert_ne!(hash_of(a), hash_of(b));
        }
    }
}

#[test]
fn identical_snippet_runs_once() {
    let program = AST::Program(vec![fuse("python", "print(1)"), fuse("javascript", "print(1)"), fuse("python", "print(1)")]);
    let (env, outcome, executions, _) = run(Environment::new(), program);
    assert!(outcome.is_ok());
    assert_eq!(executions, 1);
    assert_eq!(env.artifact_cache.len(), 1);
    assert_eq!(env.artifact_cache.get(&hash_of("print(1)")).unwrap(), "ran print(1)");
}

#[test]
fn cached_snippet_is_not_executed() {
    let mut env = Environment::new();
    env.artifact_cache.insert(hash_of("x"), s("cached"));
    let (_, outcome, executions, _) = run(env, fuse("go", "x"));
    assert!(outcome.is_ok());
    assert_eq!(executions, 0);
}

#[test]
fn failed_execution_stops_the_run() {
    let mut it = Interpreter::new(Environment::new(), AST::Program(vec![fuse("php", "boom"), AST::Target(s("go"))]));
    let mut action = it.step();
    while let Action::Continue = action {
        action = it.step();
    }
    assert!(matches!(action, Action::Execute { .. }));
    let after = it.finish_execution(Err(RiftError::ToolchainNotFound(s("php"))));
    assert!(matches!(after, Action::Failed(RiftError::ToolchainNotFound(_))));
    assert!(matches!(it.step(), Action::Finished));
    assert!(it.env.target_lang.is_none());
    assert_eq!(it.env.artifact_cache.len(), 0);
}

#[test]
fn while_true_stops_after_ceiling() {
    let program = AST::While(Box::new(AST::Number(1)), vec![]);
    let (_, outcome, _, steps) = run(Environment::new(), program);
    assert!(matches!(outcome, Err(RiftError::IterationLimitExceeded)));
    // one step enters the loop, each round takes two, the last one fails
    assert_eq!(steps, 1 + 2 * MAX_ITERATIONS as usize + 1);
    assert_eq!(MAX_ITERATIONS, 10000);
}

#[test]
fn while_false_and_bad_condition() {
    let (_, ok, _, _) = run(Environment::new(), AST::While(Box::new(AST::Number(0)), vec![AST::Target(s("x"))]));
    assert!(ok.is_ok());
    let (_, bad, _, _) = run(Environment::new(), AST::While(Box::new(AST::String(s("1"))), vec![]));
    assert!(matches!(bad, Err(RiftError::UnsupportedOperation)));
}

#[test]
fn call_to_unknown_name_fails() {
    let (_, outcome, _, _) = run(Environment::new(), AST::Call(s("nothing"), vec![]));
    match outcome {
        Err(RiftError::FunctionNotFound(n)) => assert_eq!(n, "nothing"),
        _ => panic!("expected FunctionNotFound"),
    }
}

#[test]
fn rift_takes_precedence_over_task() {
    let program = AST::Program(vec![
        AST::Task(s("x"), vec![AST::Target(s("from_task"))]),
        AST::Rift(s("x"), vec![AST::Target(s("from_rift"))]),
        AST::Call(s("x"), vec![]),
    ]);
    let (env, outcome, _, _) = run(Environment::new(), program);
    assert!(outcome.is_ok());
    assert_eq!(env.target_lang.unwrap(), "from_rift");
}

#[test]
fn task_runs_when_no_rift() {
    let program = AST::Program(vec![AST::Task(s("t"), vec![AST::Target(s("java"))]), AST::Call(s("t"), vec![])]);
    let (env, outcome, _, _) = run(Environment::new(), program);
    assert!(outcome.is_ok());
    assert_eq!(env.target_lang.unwrap(), "java");
}

#[test]
fn if_runs_one_branch() {
    let program = AST::If(Box::new(AST::Number(0)), vec![AST::Target(s("then"))], vec![AST::Target(s("else"))]);
    let (env, _, _, _) = run(Environment::new(), program);
    assert_eq!(env.target_lang.unwrap(), "else");
    let program = AST::If(Box::new(AST::Number(-3)), vec![AST::Target(s("then"))], vec![AST::Target(s("else"))]);
    let (env, _, _, _) = run(Environment::new(), program);
    assert_eq!(env.target_lang.unwrap(), "then");
}

#[test]
fn two_lets_leave_one_value() {
    let program = AST::Program(vec![
        AST::Let(s("x"), Box::new(AST::Number(1))),
        AST::Let(s("x"), Box::new(AST::Number(2))),
    ]);
    let (env, outcome, _, _) = run(Environment::new(), program);
    assert!(outcome.is_ok());
    assert_eq!(env.variables.len(), 1);
    match env.variables.get("x").unwrap() {
        AST::Number(n) => assert!(*n == 1 || *n == 2),
        _ => panic!("x should hold a number"),
    }
}

#[test]
fn let_reads_variables() {
    let program = AST::Program(vec![
        AST::Let(s("a"), Box::new(AST::String(s("hi")))),
        AST::Let(s("b"), Box::new(AST::Identifier(s("a")))),
    ]);
    let (env, outcome, _, _) = run(Environment::new(), program);
    assert!(outcome.is_ok());
    assert!(matches!(env.variables.get("b").unwrap(), AST::String(v) if v == "hi"));
    let (_, missing, _, _) = run(Environment::new(), AST::Let(s("c"), Box::new(AST::Identifier(s("nope")))));
    assert!(matches!(missing, Err(RiftError::VariableNotFound(n)) if n == "nope"));
}

#[test]
fn bare_literal_is_unsupported() {
    let (_, outcome, _, _) = run(Environment::new(), AST::Number(5));
    assert!(matches!(outcome, Err(RiftError::UnsupportedOperation)));
}

#[test]
fn expressions_and_conditions() {
    let env = Environment::new();
    assert!(matches!(evaluate_expression(&AST::Number(7), &env), Ok(AST::Number(7))));
    assert!(matches!(evaluate_expression(&AST::Target(s("x")), &env), Err(RiftError::UnsupportedOperation)));
    assert!(matches!(evaluate_condition(&AST::Number(2), &env), Ok(true)));
    assert!(matches!(evaluate_condition(&AST::Number(0), &env), Ok(false)));
    assert!(evaluate_condition(&AST::Identifier(s("x")), &env).is_err());
    assert_eq!(compress_artifact("payload").unwrap(), "payload");
}

#[test]
fn payload_lists_snippets_in_rift_order() {
    let mut env = Environment::new();
    env.rifts.insert(s("a"), vec![fuse("python", "p1"), AST::Target(s("go")), fuse("go", "g1")]);
    env.rifts.insert(s("b"), vec![fuse("php", "x")]);
    env.artifact_cache.insert(hash_of("g1"), s("G-OUT"));
    assert_eq!(compile_rift(&env), "python: p1\nG-OUT\nphp: x");
    assert_eq!(compile_rift(&Environment::new()), "");
}

fn full_config() -> Vec<(String, String)> {
    ["api_key", "contract", "rpc_url", "program_id", "region", "bucket", "function", "role"]
        .iter()
        .map(|k| (s(k), format!("{}-value", k)))
        .collect()
}

#[test]
fn all_selects_every_sink() {
    assert_eq!(select_sinks("all"), vec![Sink::Ethereum, Sink::Solana, Sink::Aws, Sink::Local]);
    let plan = plan_deployment("all", &full_config(), "payload");
    assert_eq!(plan.jobs.len(), 4);
    assert!(plan.rejected.is_empty());
    assert_eq!(plan.jobs[2].settings, vec![s("region-value"), s("bucket-value"), s("function-value"), s("role-value")]);
    assert_eq!(plan.jobs[3].payload, "payload");
}

#[test]
fn aws_selects_only_aws() {
    assert_eq!(select_sinks("aws"), vec![Sink::Aws]);
    assert_eq!(select_sinks("aws+local"), vec![Sink::Aws, Sink::Local]);
    assert_eq!(select_sinks("none"), Vec::<Sink>::new());
    let plan = plan_deployment("aws", &full_config(), "p");
    assert_eq!(plan.jobs.len(), 1);
    assert_eq!(plan.jobs[0].sink, Sink::Aws);
}

#[test]
fn missing_key_rejects_sink_without_job() {
    let config: Vec<(String, String)> = vec![(s("api_key"), s("k"))];
    let plan = plan_deployment("ethereum local", &config, "p");
    assert_eq!(plan.jobs.len(), 1);
    assert_eq!(plan.jobs[0].sink, Sink::Local);
    match &plan.rejected[..] {
        [RiftError::DeployConfigMissing { target, key }] => {
            assert_eq!(target, "ethereum");
            assert_eq!(key, "contract");
        }
        _ => panic!("expected one rejected sink"),
    }
}

#[test]
fn later_config_pair_wins() {
    let config = vec![(s("rpc_url"), s("old")), (s("program_id"), s("p")), (s("rpc_url"), s("new"))];
    let plan = plan_deployment("solana", &config, "x");
    assert_eq!(plan.jobs[0].settings, vec![s("new"), s("p")]);
}

#[test]
fn deployment_failures_are_all_reported() {
    let program = AST::Deploy(s("all"), vec![(s("api_key"), s("k"))]);
    let mut it = Interpreter::new(Environment::new(), program);
    let mut action = it.step();
    while let Action::Continue = action {
        action = it.step();
    }
    let jobs = match action {
        Action::Deploy(jobs) => jobs,
        _ => panic!("expected a deployment"),
    };
    assert_eq!(jobs.len(), 1);
    assert_eq!(jobs[0].sink, Sink::Local);
    let after = it.finish_deployment(vec![RiftError::DeployFailed { target: s("local"), attempts: 4 }]);
    match after {
        Action::Failed(RiftError::DeployFailures(all)) => assert_eq!(all.len(), 4),
        _ => panic!("expected every failure"),
    }
}

#[test]
fn retry_backs_off_then_succeeds() {
    let mut r = Retry::new(Sink::Aws);
    assert!(matches!(r.record(false), RetryStep::RetryAfter(200)));
    assert!(matches!(r.record(false), RetryStep::RetryAfter(400)));
    assert!(matches!(r.record(true), RetryStep::Done));
    assert_eq!(r.attempts, 2);
}

#[test]
fn retry_gives_up_after_four_attempts() {
    let mut r = Retry::new(Sink::Solana);
    assert!(matches!(r.record(false), RetryStep::RetryAfter(200)));
    assert!(matches!(r.record(false), RetryStep::RetryAfter(400)));
    assert!(matches!(r.record(false), RetryStep::RetryAfter(800)));
    match r.record(false) {
        RetryStep::GiveUp(RiftError::DeployFailed { target, attempts }) => {
            assert_eq!(target, "solana");
            assert_eq!(attempts, 4);
        }
        _ => panic!("expected to give up"),
    }
}

#[test]
fn optimize_php_rift_for_rust() {
    let php = "<?php uploadFile('input.txt'); ?>";
    let mut env = Environment::new();
    env.target_lang = Some(s("rust"));
    let rift = AST::Rift(s("site"), vec![fuse("php", php)]);
    env.rifts.insert(s("site"), vec![fuse("php", php)]);
    optimize_code(&rift, &mut env).unwrap();
    let optimized = env.rifts.get("optimized_site").unwrap();
    assert_eq!(optimized.len(), 1);
    match &optimized[0] {
        AST::Fuse(l, c) => {
            assert_eq!(l, "rust");
            assert_eq!(*c, transform_php_to_rust(php));
            assert!(c.starts_with("use std::fs;\nfn main() {\n"));
            assert!(c.contains("uploads/input.txt"));
        }
        _ => panic!("expected a snippet"),
    }
    match &env.rifts.get("site").unwrap()[0] {
        AST::Fuse(l, c) => {
            assert_eq!(l, "php");
            assert_eq!(c, php);
        }
        _ => panic!("original changed"),
    }
}

#[test]
fn optimize_through_call_keeps_unmapped_snippets() {
    let body = vec![fuse("rust", "fn main(){}"), fuse("go", "log.Println(1)"), AST::Target(s("t"))];
    let program = AST::Call(s("optimize"), vec![AST::Rift(s("r"), body)]);
    let (env, outcome, _, _) = run(Environment::new(), program);
    assert!(outcome.is_ok());
    let optimized = env.rifts.get("optimized_r").unwrap();
    assert_eq!(optimized.len(), 3);
    assert!(matches!(&optimized[0], AST::Fuse(l, c) if l == "rust" && c == "fn main(){}"));
    assert!(matches!(&optimized[1], AST::Fuse(l, c) if l == "rust" && c == "fn main() {\n    println!(\"Kubernetes node started\");\n}\n"));
    let (_, bad, _, _) = run(Environment::new(), AST::Call(s("optimize"), vec![AST::Number(1)]));
    assert!(matches!(bad, Err(RiftError::UnsupportedOperation)));
}

#[test]
fn translation_pairs() {
    assert_eq!(translate("go", "javascript", "x").unwrap(), "console.log(\"Kubernetes node started\");\n");
    assert!(translate("go", "python", "x").is_none());
    assert!(translate("js", "rust", "x").is_none());
    assert_eq!(translate("go", "rust", "nothing").unwrap(), "fn main() {\n}\n");
}

#[test]
fn dependencies_in_preorder_with_duplicates() {
    let leaf = |kind: &str, name: Option<&str>| SyntaxNode { kind: s(kind), name: name.map(s), children: vec![] };
    let tree = SyntaxNode {
        kind: s("module"),
        name: None,
        children: vec![
            SyntaxNode { kind: s("import_statement"), name: Some(s("os")), children: vec![leaf("import_statement", Some("inner"))] },
            leaf("expression", Some("ignored")),
            leaf("import_declaration", Some("fmt")),
            leaf("import_statement", Some("os")),
            leaf("import_statement", None),
        ],
    };
    let deps = resolve_deps("go", &tree).unwrap();
    assert_eq!(deps, vec![s("os"), s("inner"), s("fmt"), s("os")]);
    match resolve_deps("cobol", &tree) {
        Err(RiftError::UnsupportedLanguage(l)) => assert_eq!(l, "cobol"),
        _ => panic!("expected UnsupportedLanguage"),
    }
}

#[test]
fn environment_clear() {
    let mut env = Environment::new();
    env.rifts.insert(s("a"), vec![]);
    env.target_lang = Some(s("go"));
    env.clear();
    assert_eq!(env.rifts.len(), 0);
    assert!(env.target_lang.is_none());
}
