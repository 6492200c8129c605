use vstd::prelude::*;
use vstd::string::*;
use crate::ast::{AST, AstV, body_view, copy_ast, copy_body};
use crate::deploy::{SinkJob, SinkJobV, deploy_plan, plan_deployment};
use crate::digest::{content_hash, sha256_hex};
use crate::environment::{
    EnvV, Environment, compile_rift, compress_artifact, eval_condition, eval_expr, evaluate_condition,
    evaluate_expression, lemma_body_deep, payload,
};
use crate::error::{ErrorV, RiftError, errors_view};
use crate::table::{assign, lemma_deep_assign, lemma_deep_index_of, lookup};
use crate::text::same_text;
use crate::transform::{translate, translation};

verus! {

broadcast use vstd::std_specs::vec::group_vec_axioms;

/// How many times a `while` body may run before the loop is stopped.
pub const MAX_ITERATIONS: u32 = 10000;

// ---------------------------------------------------------------------------
// Optimize

/// A snippet rewritten for `target` when the transformation service knows the
/// pair; any other statement as it is.
pub open spec fn optimize_node(n: AstV, target: Seq<char>) -> AstV {
    match n {
        AstV::Fuse(l, c) => match translation(l, target, c) {
            Some(t) => AstV::Fuse(target, t),
            None => n,
        },
        _ => n,
    }
}

pub open spec fn optimized_body(body: Seq<AstV>, target: Seq<char>) -> Seq<AstV> {
    body.map_values(|n: AstV| optimize_node(n, target))
}

/// The language that optimization aims at: the session's target, else rust.
pub open spec fn target_or_default(env: EnvV) -> Seq<char> {
    match env.target {
        Some(t) => t,
        None => "rust"@,
    }
}

/// The name under which the optimized copy of a rift is stored.
pub open spec fn optimized_name(name: Seq<char>) -> Seq<char> {
    "optimized_"@ + name
}

/// Optimizing a rift adds its rewritten copy and changes nothing else.
pub open spec fn optimize_spec(env: EnvV, a: AstV) -> Result<EnvV, ErrorV> {
    match a {
        AstV::Rift(name, body) => Ok(
            EnvV {
                variables: env.variables,
                rifts: assign(env.rifts, optimized_name(name), optimized_body(body, target_or_default(env))),
                tasks: env.tasks,
                cache: env.cache,
                target: env.target,
            },
        ),
        _ => Err(ErrorV::UnsupportedOperation),
    }
}

/// Stores under `optimized_<name>` a copy of the rift whose snippets are
/// rewritten for the target language where a transformation exists.
pub fn optimize_code(ast: &AST, env: &mut Environment) -> (r: Result<(), RiftError>)
    ensures
        optimize_spec(old(env)@, ast@) matches Ok(e) ==> r is Ok && final(env)@ == e,
        optimize_spec(old(env)@, ast@) matches Err(err) ==> r matches Err(x) && x@ == err && final(env)@
            == old(env)@,
{
    match ast {
        AST::Rift(name, body) => {
            let target = match &env.target_lang {
                Some(t) => t.clone(),
                None => String::from_str("rust"),
            };
            assert(target@ == target_or_default(env@));
            let mut optimized: Vec<AST> = Vec::new();
            let mut i: usize = 0;
            while i < body.len()
                invariant
                    i <= body.len(),
                    optimized.len() == i,
                    forall|j: int|
                        0 <= j < i ==> ast_view_eq(&optimized[j], optimize_node(body[j]@, target@)),
                decreases body.len() - i,
            {
                let n = match &body[i] {
                    AST::Fuse(l, c) => match translate(l.as_str(), target.as_str(), c.as_str()) {
                        Some(t) => AST::Fuse(target.clone(), t),
                        None => copy_ast(&body[i]),
                    },
                    _ => copy_ast(&body[i]),
                };
                optimized.push(n);
                i = i + 1;
            }
            let mut new_name = String::from_str("optimized_");
            new_name.append(name.as_str());
            proof {
                assert(body_view(&optimized) =~= optimized_body(body_view(body), target@));
                lemma_body_deep(&optimized);
                lemma_deep_assign(env.rifts.keyed(), new_name@, optimized);
            }
            env.rifts.insert(new_name, optimized);
            Ok(())
        },
        _ => Err(RiftError::UnsupportedOperation),
    }
}

/// Whether the tree `a` is, as a value, `v`.
pub open spec fn ast_view_eq(a: &AST, v: AstV) -> bool {
    a@ == v
}

// ---------------------------------------------------------------------------
// The stepping interpreter

/// A unit of pending work on the interpreter's stack.
pub enum Frame {
    /// Statements run in order; `next` is the one to run next.
    Block { body: Vec<AST>, next: usize },
    /// A `while` loop, with the number of times its body has been started.
    Loop { cond: AST, body: Vec<AST>, iterations: u32 },
}

pub enum FrameV {
    Block { body: Seq<AstV>, next: int },
    Loop { cond: AstV, body: Seq<AstV>, iterations: int },
}

impl View for Frame {
    type V = FrameV;

    open spec fn view(&self) -> FrameV {
        match self {
            Frame::Block { body, next } => FrameV::Block { body: body_view(body), next: *next as int },
            Frame::Loop { cond, body, iterations } => FrameV::Loop {
                cond: cond@,
                body: body_view(body),
                iterations: *iterations as int,
            },
        }
    }
}

/// What the interpreter waits for from outside.
pub enum Pending {
    Idle,
    /// The output of the snippet whose content hash is `hash`.
    Execution { hash: String },
    /// The failures of the deployment jobs; `rejected` are the sinks already
    /// turned away for missing configuration.
    Deployment { rejected: Vec<RiftError> },
}

pub enum PendingV {
    Idle,
    Execution { hash: Seq<char> },
    Deployment { rejected: Seq<ErrorV> },
}

impl View for Pending {
    type V = PendingV;

    open spec fn view(&self) -> PendingV {
        match self {
            Pending::Idle => PendingV::Idle,
            Pending::Execution { hash } => PendingV::Execution { hash: hash@ },
            Pending::Deployment { rejected } => PendingV::Deployment { rejected: errors_view(rejected) },
        }
    }
}

/// What the caller is asked to do after a step.
pub enum Action {
    /// Step again.
    Continue,
    /// Nothing is left to run.
    Finished,
    /// The run stopped on this error; the work left was dropped.
    Failed(RiftError),
    /// Run this snippet and report its output with `finish_execution`.
    Execute { language: String, code: String, hash: String },
    /// Run these deployment jobs, each with its own retries, and report every
    /// failure with `finish_deployment`.
    Deploy(Vec<SinkJob>),
}

pub enum ActionV {
    Continue,
    Finished,
    Failed(ErrorV),
    Execute { language: Seq<char>, code: Seq<char>, hash: Seq<char> },
    Deploy(Seq<SinkJobV>),
}

impl View for Action {
    type V = ActionV;

    open spec fn view(&self) -> ActionV {
        match self {
            Action::Continue => ActionV::Continue,
            Action::Finished => ActionV::Finished,
            Action::Failed(e) => ActionV::Failed(e@),
            Action::Execute { language, code, hash } => ActionV::Execute {
                language: language@,
                code: code@,
                hash: hash@,
            },
            Action::Deploy(jobs) => ActionV::Deploy(jobs@.map_values(|j: SinkJob| j@)),
        }
    }
}

/// Runs statements one step at a time against an environment, handing the work
/// that needs the outside world (running a snippet, deploying) to its caller.
///
/// The children of a program run one after another, in order. That is one of
/// the schedules that running them concurrently against one shared environment
/// allows, so when two of them write the same name the later write wins; the
/// first error stops the run and keeps the changes made before it.
pub struct Interpreter {
    pub env: Environment,
    pub frames: Vec<Frame>,
    pub pending: Pending,
}

pub struct MachineV {
    pub env: EnvV,
    pub frames: Seq<FrameV>,
    pub pending: PendingV,
}

pub open spec fn frames_view(fs: Seq<Frame>) -> Seq<FrameV> {
    fs.map_values(|f: Frame| f@)
}

impl View for Interpreter {
    type V = MachineV;

    open spec fn view(&self) -> MachineV {
        MachineV { env: self.env@, frames: frames_view(self.frames@), pending: self.pending@ }
    }
}

pub open spec fn block(body: Seq<AstV>) -> FrameV {
    FrameV::Block { body, next: 0 }
}

/// Go on with `env` and `frames`.
pub open spec fn proceed(env: EnvV, frames: Seq<FrameV>) -> (MachineV, ActionV) {
    (MachineV { env, frames, pending: PendingV::Idle }, ActionV::Continue)
}

/// Stop with `e`: the work left is dropped and the environment kept as it is.
pub open spec fn fail(env: EnvV, e: ErrorV) -> (MachineV, ActionV) {
    (MachineV { env, frames: seq![], pending: PendingV::Idle }, ActionV::Failed(e))
}

pub open spec fn with_rifts(env: EnvV, rifts: Seq<(Seq<char>, Seq<AstV>)>) -> EnvV {
    EnvV { variables: env.variables, rifts, tasks: env.tasks, cache: env.cache, target: env.target }
}

pub open spec fn with_tasks(env: EnvV, tasks: Seq<(Seq<char>, Seq<AstV>)>) -> EnvV {
    EnvV { variables: env.variables, rifts: env.rifts, tasks, cache: env.cache, target: env.target }
}

pub open spec fn with_variables(env: EnvV, variables: Seq<(Seq<char>, AstV)>) -> EnvV {
    EnvV { variables, rifts: env.rifts, tasks: env.tasks, cache: env.cache, target: env.target }
}

pub open spec fn with_cache(env: EnvV, cache: Seq<(Seq<char>, Seq<char>)>) -> EnvV {
    EnvV { variables: env.variables, rifts: env.rifts, tasks: env.tasks, cache, target: env.target }
}

pub open spec fn with_target(env: EnvV, target: Seq<char>) -> EnvV {
    EnvV { variables: env.variables, rifts: env.rifts, tasks: env.tasks, cache: env.cache, target: Some(target) }
}

/// A call runs the body of the rift of that name, else of the task of that name.
pub open spec fn call_spec(env: EnvV, frames: Seq<FrameV>, name: Seq<char>, args: Seq<AstV>) -> (MachineV, ActionV) {
    if name == "optimize"@ {
        if args.len() == 0 {
            fail(env, ErrorV::UnsupportedOperation)
        } else {
            match optimize_spec(env, args[0]) {
                Ok(e) => proceed(e, frames),
                Err(err) => fail(env, err),
            }
        }
    } else {
        match lookup(env.rifts, name) {
            Some(b) => proceed(env, frames.push(block(b))),
            None => match lookup(env.tasks, name) {
                Some(b) => proceed(env, frames.push(block(b))),
                None => fail(env, ErrorV::FunctionNotFound(name)),
            },
        }
    }
}

/// The effect of one statement, `frames` being the work after it.
pub open spec fn statement_spec(env: EnvV, frames: Seq<FrameV>, s: AstV) -> (MachineV, ActionV) {
    match s {
        AstV::Program(nodes) => proceed(env, frames.push(block(nodes))),
        AstV::Rift(n, b) => proceed(with_rifts(env, assign(env.rifts, n, b)), frames),
        AstV::Task(n, b) => proceed(with_tasks(env, assign(env.tasks, n, b)), frames),
        AstV::Target(l) => proceed(with_target(env, l), frames),
        AstV::Fuse(l, c) => if lookup(env.cache, sha256_hex(c)) is Some {
            proceed(env, frames)
        } else {
            (
                MachineV { env, frames, pending: PendingV::Execution { hash: sha256_hex(c) } },
                ActionV::Execute { language: l, code: c, hash: sha256_hex(c) },
            )
        },
        AstV::Deploy(sel, cfg) => {
            let plan = deploy_plan(sel, cfg, payload(env));
            (
                MachineV { env, frames, pending: PendingV::Deployment { rejected: plan.rejected } },
                ActionV::Deploy(plan.jobs),
            )
        },
        AstV::Let(n, e) => match eval_expr(*e, env) {
            Ok(v) => proceed(with_variables(env, assign(env.variables, n, v)), frames),
            Err(err) => fail(env, err),
        },
        AstV::Call(n, args) => call_spec(env, frames, n, args),
        AstV::If(c, t, e) => match eval_condition(*c) {
            Ok(b) => proceed(env, frames.push(block(if b { t } else { e }))),
            Err(err) => fail(env, err),
        },
        AstV::While(c, b) => proceed(env, frames.push(FrameV::Loop { cond: *c, body: b, iterations: 0 })),
        _ => fail(env, ErrorV::UnsupportedOperation),
    }
}

/// One step of an idle interpreter.
pub open spec fn step_spec(m: MachineV) -> (MachineV, ActionV) {
    if m.frames.len() == 0 {
        (m, ActionV::Finished)
    } else {
        let rest = m.frames.drop_last();
        match m.frames.last() {
            FrameV::Block { body, next } => if next < 0 || next >= body.len() {
                proceed(m.env, rest)
            } else {
                statement_spec(m.env, rest.push(FrameV::Block { body, next: next + 1 }), body[next])
            },
            FrameV::Loop { cond, body, iterations } => match eval_condition(cond) {
                Err(e) => fail(m.env, e),
                Ok(false) => proceed(m.env, rest),
                Ok(true) => if iterations >= MAX_ITERATIONS {
                    fail(m.env, ErrorV::IterationLimitExceeded)
                } else {
                    proceed(
                        m.env,
                        rest.push(FrameV::Loop { cond, body, iterations: iterations + 1 }).push(block(body)),
                    )
                },
            },
        }
    }
}

/// The machine once a snippet's outcome is in: a success is cached under the
/// snippet's hash, a failure stops the run.
pub open spec fn execution_spec(m: MachineV, outcome: Result<Seq<char>, ErrorV>) -> (MachineV, ActionV) {
    match outcome {
        Ok(out) => proceed(with_cache(m.env, assign(m.env.cache, m.pending->Execution_hash, out)), m.frames),
        Err(e) => fail(m.env, e),
    }
}

/// The machine once the deployment jobs are done: it goes on only when no sink
/// failed, and otherwise reports every failure.
pub open spec fn deployment_spec(m: MachineV, failures: Seq<ErrorV>) -> (MachineV, ActionV) {
    let all = m.pending->Deployment_rejected + failures;
    if all.len() == 0 {
        proceed(m.env, m.frames)
    } else {
        fail(m.env, ErrorV::DeployFailures(all))
    }
}

pub open spec fn outcome_view(o: Result<String, RiftError>) -> Result<Seq<char>, ErrorV> {
    match o {
        Ok(s) => Ok(s@),
        Err(e) => Err(e@),
    }
}

impl Interpreter {
    /// An interpreter about to run `program` against `env`.
    pub fn new(env: Environment, program: AST) -> (r: Interpreter)
        ensures
            r@.env == env@,
            r@.frames == seq![block(seq![program@])],
            r@.pending == PendingV::Idle,
    {
        let mut body: Vec<AST> = Vec::new();
        body.push(program);
        let mut frames: Vec<Frame> = Vec::new();
        frames.push(Frame::Block { body, next: 0 });
        let r = Interpreter { env, frames, pending: Pending::Idle };
        assert(body_view(&frames@[0]->Block_body) =~= seq![program@]);
        assert(r@.frames =~= seq![block(seq![program@])]);
        r
    }

    pub fn is_idle(&self) -> (r: bool)
        ensures
            r == (self@.pending == PendingV::Idle),
    {
        match self.pending {
            Pending::Idle => true,
            _ => false,
        }
    }

    fn push_frame(&mut self, f: Frame)
        ensures
            final(self)@ == (MachineV { frames: old(self)@.frames.push(f@), ..old(self)@ }),
    {
        self.frames.push(f);
        assert(frames_view(self.frames@) =~= frames_view(old(self).frames@).push(f@));
    }

    fn abort(&mut self, e: RiftError) -> (r: Action)
        ensures
            (final(self)@, r@) == fail(old(self)@.env, e@),
    {
        self.frames = Vec::new();
        self.pending = Pending::Idle;
        assert(frames_view(self.frames@) =~= seq![]);
        Action::Failed(e)
    }

    /// Runs one statement; the frames already hold the work after it.
    fn run_statement(&mut self, s: &AST) -> (r: Action)
        requires
            old(self)@.pending == PendingV::Idle,
        ensures
            (final(self)@, r@) == statement_spec(old(self)@.env, old(self)@.frames, s@),
    {
        let ghost old_env = self@.env;
        let ghost old_frames = self@.frames;
        let r = match s {
            AST::Program(nodes) => {
                self.push_frame(Frame::Block { body: copy_body(nodes), next: 0 });
                Action::Continue
            },
            AST::Rift(name, body) => {
                let b = copy_body(body);
                proof {
                    lemma_body_deep(&b);
                    lemma_deep_assign(self.env.rifts.keyed(), name@, b);
                }
                self.env.rifts.insert(name.clone(), b);
                Action::Continue
            },
            AST::Task(name, body) => {
                let b = copy_body(body);
                proof {
                    lemma_body_deep(&b);
                    lemma_deep_assign(self.env.tasks.keyed(), name@, b);
                }
                self.env.tasks.insert(name.clone(), b);
                Action::Continue
            },
            AST::Target(lang) => {
                self.env.target_lang = Some(lang.clone());
                Action::Continue
            },
            AST::Fuse(lang, code) => {
                let hash = content_hash(code.as_str());
                proof {
                    lemma_deep_index_of(self.env.artifact_cache.keyed(), hash@);
                }
                if self.env.artifact_cache.get(hash.as_str()).is_some() {
                    Action::Continue
                } else {
                    self.pending = Pending::Execution { hash: hash.clone() };
                    let a = Action::Execute { language: lang.clone(), code: code.clone(), hash };
                    assert((self@, a@) == statement_spec(old_env, old_frames, s@));
                    a
                }
            },
            AST::Deploy(selector, config) => {
                let artifact = compile_rift(&self.env);
                match compress_artifact(artifact.as_str()) {
                    Ok(compressed) => {
                        let plan = plan_deployment(selector.as_str(), config, compressed.as_str());
                        self.pending = Pending::Deployment { rejected: plan.rejected };
                        Action::Deploy(plan.jobs)
                    },
                    Err(e) => {
                        let a = self.abort(e);
                        assert((self@, a@) == statement_spec(old_env, old_frames, s@));
                        a
                    },
                }
            },
            AST::Let(name, e) => {
                match evaluate_expression(e, &self.env) {
                    Ok(v) => {
                        proof {
                            lemma_deep_assign(self.env.variables.keyed(), name@, v);
                        }
                        self.env.variables.insert(name.clone(), v);
                        Action::Continue
                    },
                    Err(err) => {
                        let a = self.abort(err);
                        assert((self@, a@) == statement_spec(old_env, old_frames, s@));
                        a
                    },
                }
            },
            AST::Call(name, args) => {
                if same_text(name.as_str(), "optimize") {
                    if args.len() == 0 {
                        self.abort(RiftError::UnsupportedOperation)
                    } else {
                        assert(body_view(args)[0] == args[0]@);
                        match optimize_code(&args[0], &mut self.env) {
                            Ok(()) => Action::Continue,
                            Err(e) => {
                                let a = self.abort(e);
                                assert((self@, a@) == statement_spec(old_env, old_frames, s@));
                                a
                            },
                        }
                    }
                } else {
                    proof {
                        lemma_deep_index_of(self.env.rifts.keyed(), name@);
                        lemma_deep_index_of(self.env.tasks.keyed(), name@);
                    }
                    match self.env.rifts.get(name.as_str()) {
                        Some(b) => {
                            let body = copy_body(b);
                            proof {
                                lemma_body_deep(b);
                            }
                            self.push_frame(Frame::Block { body, next: 0 });
                            Action::Continue
                        },
                        None => match self.env.tasks.get(name.as_str()) {
                            Some(b) => {
                                let body = copy_body(b);
                                proof {
                                    lemma_body_deep(b);
                                }
                                self.push_frame(Frame::Block { body, next: 0 });
                                Action::Continue
                            },
                            None => {
                                let a = self.abort(RiftError::FunctionNotFound(name.clone()));
                                assert((self@, a@) == statement_spec(old_env, old_frames, s@));
                                a
                            },
                        },
                    }
                }
            },
            AST::If(c, then_body, else_body) => {
                match evaluate_condition(c, &self.env) {
                    Ok(b) => {
                        let body = if b { copy_body(then_body) } else { copy_body(else_body) };
                        self.push_frame(Frame::Block { body, next: 0 });
                        Action::Continue
                    },
                    Err(err) => {
                        let a = self.abort(err);
                        assert((self@, a@) == statement_spec(old_env, old_frames, s@));
                        a
                    },
                }
            },
            AST::While(c, body) => {
                self.push_frame(Frame::Loop { cond: copy_ast(c), body: copy_body(body), iterations: 0 });
                Action::Continue
            },
            _ => self.abort(RiftError::UnsupportedOperation),
        };
        assert((self@, r@) == statement_spec(old_env, old_frames, s@));
        r
    }

    /// Takes one step: runs the next statement, checks a loop's condition, or
    /// finishes a block.
    pub fn step(&mut self) -> (r: Action)
        requires
            old(self)@.pending == PendingV::Idle,
        ensures
            (final(self)@, r@) == step_spec(old(self)@),
    {
        if self.frames.len() == 0 {
            return Action::Finished;
        }
        let ghost before = self@;
        let top = self.frames.pop().unwrap();
        assert(frames_view(self.frames@) =~= before.frames.drop_last());
        match top {
            Frame::Block { body, next } => {
                if next >= body.len() {
                    return Action::Continue;
                }
                let stmt = copy_ast(&body[next]);
                assert(body_view(&body)[next as int] == stmt@);
                self.push_frame(Frame::Block { body, next: next + 1 });
                self.run_statement(&stmt)
            },
            Frame::Loop { cond, body, iterations } => {
                match evaluate_condition(&cond, &self.env) {
                    Err(e) => self.abort(e),
                    Ok(false) => Action::Continue,
                    Ok(true) => {
                        if iterations >= MAX_ITERATIONS {
                            self.abort(RiftError::IterationLimitExceeded)
                        } else {
                            let b = copy_body(&body);
                            self.push_frame(Frame::Loop { cond, body, iterations: iterations + 1 });
                            self.push_frame(Frame::Block { body: b, next: 0 });
                            Action::Continue
                        }
                    },
                }
            },
        }
    }

    /// Reports the outcome of the snippet that the last `Execute` asked for.
    pub fn finish_execution(&mut self, outcome: Result<String, RiftError>) -> (r: Action)
        requires
            old(self)@.pending is Execution,
        ensures
            (final(self)@, r@) == execution_spec(old(self)@, outcome_view(outcome)),
    {
        let ghost before = self@;
        let mut pending = Pending::Idle;
        core::mem::swap(&mut pending, &mut self.pending);
        match pending {
            Pending::Execution { hash } => match outcome {
                Ok(out) => {
                    proof {
                        lemma_deep_assign(self.env.artifact_cache.keyed(), hash@, out);
                    }
                    self.env.artifact_cache.insert(hash, out);
                    Action::Continue
                },
                Err(e) => self.abort(e),
            },
            _ => self.abort(RiftError::UnsupportedOperation),
        }
    }

    /// Reports the failures of the jobs that the last `Deploy` asked for.
    pub fn finish_deployment(&mut self, failures: Vec<RiftError>) -> (r: Action)
        requires
            old(self)@.pending is Deployment,
        ensures
            (final(self)@, r@) == deployment_spec(old(self)@, errors_view(&failures)),
    {
        let mut pending = Pending::Idle;
        core::mem::swap(&mut pending, &mut self.pending);
        match pending {
            Pending::Deployment { rejected } => {
                let mut all = rejected;
                let ghost first = errors_view(&all);
                let mut failures = failures;
                let ghost second = errors_view(&failures);
                all.append(&mut failures);
                assert(errors_view(&all) =~= first + second);
                if all.len() == 0 {
                    Action::Continue
                } else {
                    self.abort(RiftError::DeployFailures(all))
                }
            },
            _ => self.abort(RiftError::UnsupportedOperation),
        }
    }
}

} // verus!
