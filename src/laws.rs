use vstd::prelude::*;
use crate::ast::AstV;
use crate::deploy::{Sink, deploy_plan, job_for, plan_for, required_keys, selected_sinks, settings_for};
use crate::digest::sha256_hex;
use crate::environment::{EnvV, eval_condition};
use crate::error::ErrorV;
use crate::interpreter::{
    FrameV, MachineV, PendingV, MAX_ITERATIONS, block, execution_spec, fail, optimize_spec, optimized_body,
    optimized_name, proceed, statement_spec, step_spec, target_or_default,
};
use crate::table::{lemma_lookup_assign, lookup};

verus! {

/// The machine after `n` steps.
pub open spec fn run_steps(m: MachineV, n: nat) -> MachineV
    decreases n,
{
    if n == 0 {
        m
    } else {
        run_steps(step_spec(m).0, (n - 1) as nat)
    }
}

/// No step changes the artifact cache, and recording a snippet's output keeps
/// every other cached output.
pub proof fn law_cache_kept(m: MachineV, out: Seq<char>, h: Seq<char>)
    ensures
        m.pending == PendingV::Idle ==> step_spec(m).0.env.cache == m.env.cache,
        m.pending is Execution && h != m.pending->Execution_hash ==> lookup(
            execution_spec(m, Ok(out)).0.env.cache,
            h,
        ) == lookup(m.env.cache, h),
{
    lemma_lookup_assign(m.env.cache, m.pending->Execution_hash, out, h);
}

/// Once the output of some code is recorded, a snippet with the same code, in
/// any language, is answered from the cache: it asks for no execution.
pub proof fn law_recorded_snippet_not_rerun(
    m: MachineV,
    out: Seq<char>,
    language: Seq<char>,
    code: Seq<char>,
    frames: Seq<FrameV>,
)
    requires
        m.pending == (PendingV::Execution { hash: sha256_hex(code) }),
    ensures
        ({
            let env = execution_spec(m, Ok(out)).0.env;
            statement_spec(env, frames, AstV::Fuse(language, code)) == proceed(env, frames)
        }),
{
    lemma_lookup_assign(m.env.cache, sha256_hex(code), out, sha256_hex(code));
}

/// A loop whose condition holds starts its body again while it has started it
/// fewer than `MAX_ITERATIONS` times, and then fails with
/// `IterationLimitExceeded`.
pub proof fn law_loop_ceiling(env: EnvV, rest: Seq<FrameV>, cond: AstV, body: Seq<AstV>, iterations: int)
    requires
        eval_condition(cond) == Ok::<bool, ErrorV>(true),
        0 <= iterations <= MAX_ITERATIONS,
    ensures
        ({
            let m = MachineV {
                env,
                frames: rest.push(FrameV::Loop { cond, body, iterations }),
                pending: PendingV::Idle,
            };
            &&& iterations < MAX_ITERATIONS ==> step_spec(m) == proceed(
                env,
                rest.push(FrameV::Loop { cond, body, iterations: iterations + 1 }).push(block(body)),
            )
            &&& iterations == MAX_ITERATIONS ==> step_spec(m) == fail(env, ErrorV::IterationLimitExceeded)
        }),
{
    let m = MachineV { env, frames: rest.push(FrameV::Loop { cond, body, iterations }), pending: PendingV::Idle };
    assert(m.frames.drop_last() =~= rest);
}

/// The state of `while <number> {}` once its body has run `k` times.
pub open spec fn empty_loop_state(env: EnvV, c: i32, k: int) -> MachineV {
    MachineV {
        env,
        frames: seq![
            FrameV::Block { body: seq![AstV::While(Box::new(AstV::Number(c)), seq![])], next: 1 },
            FrameV::Loop { cond: AstV::Number(c), body: seq![], iterations: k },
        ],
        pending: PendingV::Idle,
    }
}

proof fn lemma_empty_loop_rounds(env: EnvV, c: i32, k: int)
    requires
        c != 0,
        0 <= k <= MAX_ITERATIONS,
    ensures
        run_steps(empty_loop_state(env, c, k), (2 * (MAX_ITERATIONS - k)) as nat) == empty_loop_state(
            env,
            c,
            MAX_ITERATIONS as int,
        ),
    decreases MAX_ITERATIONS - k,
{
    if k < MAX_ITERATIONS {
        let m = empty_loop_state(env, c, k);
        let m1 = step_spec(m).0;
        assert(m.frames.drop_last() =~= seq![m.frames[0]]);
        assert(m1.frames.drop_last() =~= empty_loop_state(env, c, k + 1).frames);
        assert(step_spec(m1).0 == empty_loop_state(env, c, k + 1));
        lemma_empty_loop_rounds(env, c, k + 1);
        assert(run_steps(m, (2 * (MAX_ITERATIONS - k)) as nat) == run_steps(
            m1,
            (2 * (MAX_ITERATIONS - k) - 1) as nat,
        ));
    }
}

/// `while` on a condition that always holds, with an empty body, runs its body
/// exactly `MAX_ITERATIONS` times: after one step to enter the loop and two
/// steps per round, the next step fails with `IterationLimitExceeded`.
pub proof fn law_while_true_stops(env: EnvV, c: i32)
    requires
        c != 0,
    ensures
        ({
            let m0 = MachineV {
                env,
                frames: seq![block(seq![AstV::While(Box::new(AstV::Number(c)), seq![])])],
                pending: PendingV::Idle,
            };
            let before_last = run_steps(m0, (1 + 2 * MAX_ITERATIONS) as nat);
            &&& before_last == empty_loop_state(env, c, MAX_ITERATIONS as int)
            &&& step_spec(before_last) == fail(env, ErrorV::IterationLimitExceeded)
        }),
{
    let m0 = MachineV {
        env,
        frames: seq![block(seq![AstV::While(Box::new(AstV::Number(c)), seq![])])],
        pending: PendingV::Idle,
    };
    assert(m0.frames.drop_last() =~= seq![]);
    assert(step_spec(m0).0.frames =~= empty_loop_state(env, c, 0).frames);
    lemma_empty_loop_rounds(env, c, 0);
    let last = empty_loop_state(env, c, MAX_ITERATIONS as int);
    assert(last.frames.drop_last() =~= seq![last.frames[0]]);
}

/// A call to a name that is neither a rift nor a task fails with
/// `FunctionNotFound`; a rift's body runs even when a task has the same name.
pub proof fn law_call_resolution(env: EnvV, frames: Seq<FrameV>, name: Seq<char>, args: Seq<AstV>)
    requires
        name != "optimize"@,
    ensures
        lookup(env.rifts, name) is None && lookup(env.tasks, name) is None ==> statement_spec(
            env,
            frames,
            AstV::Call(name, args),
        ) == fail(env, ErrorV::FunctionNotFound(name)),
        lookup(env.rifts, name) matches Some(b) ==> statement_spec(env, frames, AstV::Call(name, args))
            == proceed(env, frames.push(block(b))),
{
}

/// Defining a rift and then calling its name runs the rift's body, whatever
/// task has that name too.
pub proof fn law_rift_precedence(
    env: EnvV,
    frames: Seq<FrameV>,
    name: Seq<char>,
    body: Seq<AstV>,
    task_body: Seq<AstV>,
    args: Seq<AstV>,
)
    requires
        name != "optimize"@,
    ensures
        ({
            let e1 = statement_spec(env, frames, AstV::Rift(name, body)).0.env;
            let e2 = statement_spec(e1, frames, AstV::Task(name, task_body)).0.env;
            statement_spec(e2, frames, AstV::Call(name, args)) == proceed(e2, frames.push(block(body)))
        }),
{
    lemma_lookup_assign(env.rifts, name, body, name);
}

/// Once a key is missing, the settings of any longer key list are missing too.
proof fn lemma_settings_missing(keys: Seq<Seq<char>>, config: Seq<(Seq<char>, Seq<char>)>, i: int)
    requires
        0 <= i < keys.len(),
        lookup(config, keys[i]) is None,
    ensures
        settings_for(keys, config) is Err,
    decreases keys.len(),
{
    if i < keys.len() - 1 {
        lemma_settings_missing(keys.drop_last(), config, i);
    }
}

proof fn lemma_plan_skips(sinks: Seq<Sink>, config: Seq<(Seq<char>, Seq<char>)>, payload: Seq<char>, s: Sink)
    requires
        job_for(s, config, payload) is Err,
    ensures
        forall|j: int| 0 <= j < plan_for(sinks, config, payload).jobs.len() ==> plan_for(sinks, config, payload).jobs[j].sink != s,
        sinks.contains(s) ==> plan_for(sinks, config, payload).rejected.contains(job_for(s, config, payload)->Err_0),
    decreases sinks.len(),
{
    if sinks.len() > 0 {
        lemma_plan_skips(sinks.drop_last(), config, payload, s);
        let p = plan_for(sinks.drop_last(), config, payload);
        if sinks.contains(s) && sinks.last() != s {
            let k = choose|k: int| 0 <= k < sinks.len() && sinks[k] == s;
            assert(sinks.drop_last()[k] == s);
        }
        if sinks.last() == s {
            assert(plan_for(sinks, config, payload).rejected.last() == job_for(s, config, payload)->Err_0);
        } else if p.rejected.contains(job_for(s, config, payload)->Err_0) && sinks.contains(s) {
            let k = choose|k: int| 0 <= k < p.rejected.len() && p.rejected[k] == job_for(s, config, payload)->Err_0;
            assert(plan_for(sinks, config, payload).rejected[k] == job_for(s, config, payload)->Err_0);
        }
    }
}

/// A selected sink that lacks one of its required configuration keys gets no
/// job, so its client is never called, and its missing configuration is reported.
pub proof fn law_missing_key_never_contacted(
    selector: Seq<char>,
    config: Seq<(Seq<char>, Seq<char>)>,
    payload: Seq<char>,
    s: Sink,
    key: Seq<char>,
)
    requires
        selected_sinks(selector).contains(s),
        required_keys(s).contains(key),
        lookup(config, key) is None,
    ensures
        forall|j: int|
            0 <= j < deploy_plan(selector, config, payload).jobs.len() ==> deploy_plan(
                selector,
                config,
                payload,
            ).jobs[j].sink != s,
        exists|k: int|
            0 <= k < deploy_plan(selector, config, payload).rejected.len() && deploy_plan(
                selector,
                config,
                payload,
            ).rejected[k] is DeployConfigMissing,
{
    let i = choose|i: int| 0 <= i < required_keys(s).len() && required_keys(s)[i] == key;
    lemma_settings_missing(required_keys(s), config, i);
    lemma_plan_skips(selected_sinks(selector), config, payload, s);
    let p = deploy_plan(selector, config, payload);
    let e = job_for(s, config, payload)->Err_0;
    let k = choose|k: int| 0 <= k < p.rejected.len() && p.rejected[k] == e;
    assert(p.rejected[k] is DeployConfigMissing);
}

/// Optimizing a rift stores its rewritten copy under `optimized_<name>` and
/// leaves every other rift, the original included, as it was.
pub proof fn law_optimize_keeps_original(env: EnvV, name: Seq<char>, body: Seq<AstV>, other: Seq<char>)
    requires
        other != optimized_name(name),
    ensures
        optimize_spec(env, AstV::Rift(name, body)) matches Ok(e) && lookup(e.rifts, other) == lookup(
            env.rifts,
            other,
        ) && lookup(e.rifts, optimized_name(name)) == Some(optimized_body(body, target_or_default(env))),
{
    lemma_lookup_assign(env.rifts, optimized_name(name), optimized_body(body, target_or_default(env)), other);
}

/// Two assignments to the same variable, run one after the other as the
/// children of a program may be, leave it holding one of the two values.
pub proof fn law_two_lets(env: EnvV, rest: Seq<FrameV>, x: Seq<char>, a: i32, b: i32)
    ensures
        ({
            let m0 = MachineV {
                env,
                frames: rest.push(
                    block(
                        seq![
                            AstV::Let(x, Box::new(AstV::Number(a))),
                            AstV::Let(x, Box::new(AstV::Number(b))),
                        ],
                    ),
                ),
                pending: PendingV::Idle,
            };
            let v = lookup(run_steps(m0, 2).env.variables, x);
            v == Some(AstV::Number(a)) || v == Some(AstV::Number(b))
        }),
{
    let body = seq![AstV::Let(x, Box::new(AstV::Number(a))), AstV::Let(x, Box::new(AstV::Number(b)))];
    let m0 = MachineV { env, frames: rest.push(block(body)), pending: PendingV::Idle };
    assert(m0.frames.drop_last() =~= rest);
    let m1 = step_spec(m0).0;
    assert(m1.frames.drop_last() =~= rest);
    let m2 = step_spec(m1).0;
    lemma_lookup_assign(m1.env.variables, x, AstV::Number(b), x);
    assert(run_steps(m2, 0) == m2);
    assert(run_steps(m1, 1) == run_steps(m2, 0));
    assert(run_steps(m0, 2) == run_steps(m1, 1));
}

} // verus!
