use vstd::prelude::*;
use vstd::string::*;
use crate::ast::pairs_view;
use crate::error::{ErrorV, RiftError, errors_view};
use crate::table::{lookup, index_of};
use crate::text::{contains_text, occurs_in, same_text};

verus! {

broadcast use vstd::std_specs::vec::group_vec_axioms;

/// The deployment destinations the engine knows.
#[derive(Debug, Clone, Copy, PartialEq, Eq, Structural)]
pub enum Sink {
    Ethereum,
    Solana,
    Aws,
    Local,
}

/// How many times a failed sink is tried again.
pub const MAX_RETRIES: u32 = 3;

/// The delay unit of the exponential backoff, in milliseconds.
pub const BASE_DELAY_MS: u64 = 100;

pub open spec fn sink_name(s: Sink) -> Seq<char> {
    match s {
        Sink::Ethereum => "ethereum"@,
        Sink::Solana => "solana"@,
        Sink::Aws => "aws"@,
        Sink::Local => "local"@,
    }
}

/// The configuration keys a sink cannot do without, in the order it reads them.
pub open spec fn required_keys(s: Sink) -> Seq<Seq<char>> {
    match s {
        Sink::Ethereum => seq!["api_key"@, "contract"@],
        Sink::Solana => seq!["rpc_url"@, "program_id"@],
        Sink::Aws => seq!["region"@, "bucket"@, "function"@, "role"@],
        Sink::Local => seq![],
    }
}

/// A sink takes part when the selector is `all` or holds the sink's name.
pub open spec fn is_selected(selector: Seq<char>, s: Sink) -> bool {
    selector == "all"@ || occurs_in(selector, sink_name(s))
}

pub open spec fn keep(selector: Seq<char>, s: Sink) -> Seq<Sink> {
    if is_selected(selector, s) { seq![s] } else { seq![] }
}

/// The selected sinks, in the fixed order ethereum, solana, aws, local.
pub open spec fn selected_sinks(selector: Seq<char>) -> Seq<Sink> {
    keep(selector, Sink::Ethereum) + keep(selector, Sink::Solana) + keep(selector, Sink::Aws) + keep(
        selector,
        Sink::Local,
    )
}

/// The values of `keys` in `config`, or the first key that has none.
pub open spec fn settings_for(keys: Seq<Seq<char>>, config: Seq<(Seq<char>, Seq<char>)>) -> Result<
    Seq<Seq<char>>,
    Seq<char>,
>
    decreases keys.len(),
{
    if keys.len() == 0 {
        Ok(seq![])
    } else {
        match settings_for(keys.drop_last(), config) {
            Err(k) => Err(k),
            Ok(vals) => match lookup(config, keys.last()) {
                Some(v) => Ok(vals.push(v)),
                None => Err(keys.last()),
            },
        }
    }
}

/// What one sink is handed: its required settings, in order, and the payload.
pub struct SinkJob {
    pub sink: Sink,
    pub settings: Vec<String>,
    pub payload: String,
}

pub struct SinkJobV {
    pub sink: Sink,
    pub settings: Seq<Seq<char>>,
    pub payload: Seq<char>,
}

impl View for SinkJob {
    type V = SinkJobV;

    open spec fn view(&self) -> SinkJobV {
        SinkJobV { sink: self.sink, settings: self.settings@.map_values(|s: String| s@), payload: self.payload@ }
    }
}

/// The job for one sink, or the error for the first missing configuration key.
pub open spec fn job_for(s: Sink, config: Seq<(Seq<char>, Seq<char>)>, payload: Seq<char>) -> Result<SinkJobV, ErrorV> {
    match settings_for(required_keys(s), config) {
        Ok(vals) => Ok(SinkJobV { sink: s, settings: vals, payload }),
        Err(k) => Err(ErrorV::DeployConfigMissing { target: sink_name(s), key: k }),
    }
}

/// The sinks to contact and the sinks turned away for missing configuration.
pub struct DeployPlan {
    pub jobs: Vec<SinkJob>,
    pub rejected: Vec<RiftError>,
}

pub struct DeployPlanV {
    pub jobs: Seq<SinkJobV>,
    pub rejected: Seq<ErrorV>,
}

impl View for DeployPlan {
    type V = DeployPlanV;

    open spec fn view(&self) -> DeployPlanV {
        DeployPlanV { jobs: self.jobs@.map_values(|j: SinkJob| j@), rejected: errors_view(&self.rejected) }
    }
}

/// The plan for the sinks `sinks`, each checked against `config` on its own.
pub open spec fn plan_for(sinks: Seq<Sink>, config: Seq<(Seq<char>, Seq<char>)>, payload: Seq<char>) -> DeployPlanV
    decreases sinks.len(),
{
    if sinks.len() == 0 {
        DeployPlanV { jobs: seq![], rejected: seq![] }
    } else {
        let p = plan_for(sinks.drop_last(), config, payload);
        match job_for(sinks.last(), config, payload) {
            Ok(j) => DeployPlanV { jobs: p.jobs.push(j), rejected: p.rejected },
            Err(e) => DeployPlanV { jobs: p.jobs, rejected: p.rejected.push(e) },
        }
    }
}

/// The plan of a deployment: every selected sink, with the same configuration
/// and the same payload.
pub open spec fn deploy_plan(selector: Seq<char>, config: Seq<(Seq<char>, Seq<char>)>, payload: Seq<char>) -> DeployPlanV {
    plan_for(selected_sinks(selector), config, payload)
}

impl Sink {
    pub fn name(&self) -> (r: &'static str)
        ensures
            r@ == sink_name(*self),
    {
        match self {
            Sink::Ethereum => "ethereum",
            Sink::Solana => "solana",
            Sink::Aws => "aws",
            Sink::Local => "local",
        }
    }

    pub fn required_keys(&self) -> (r: Vec<&'static str>)
        ensures
            r@.map_values(|k: &'static str| k@) == required_keys(*self),
    {
        let r = match self {
            Sink::Ethereum => vec!["api_key", "contract"],
            Sink::Solana => vec!["rpc_url", "program_id"],
            Sink::Aws => vec!["region", "bucket", "function", "role"],
            Sink::Local => vec![],
        };
        assert(r@.map_values(|k: &'static str| k@) =~= required_keys(*self));
        r
    }
}

/// Whether the selector picks the sink.
pub fn selects(selector: &str, sink: Sink) -> (r: bool)
    ensures
        r == is_selected(selector@, sink),
{
    same_text(selector, "all") || contains_text(selector, sink.name())
}

/// The selected sinks, in the fixed order.
pub fn select_sinks(selector: &str) -> (r: Vec<Sink>)
    ensures
        r@ == selected_sinks(selector@),
{
    let mut r: Vec<Sink> = Vec::new();
    if selects(selector, Sink::Ethereum) {
        r.push(Sink::Ethereum);
    }
    if selects(selector, Sink::Solana) {
        r.push(Sink::Solana);
    }
    if selects(selector, Sink::Aws) {
        r.push(Sink::Aws);
    }
    if selects(selector, Sink::Local) {
        r.push(Sink::Local);
    }
    assert(r@ =~= selected_sinks(selector@));
    r
}

/// The value of `key` in a configuration list; a later pair overrides an earlier one.
pub fn config_value<'a>(config: &'a Vec<(String, String)>, key: &str) -> (r: Option<&'a String>)
    ensures
        r matches Some(v) ==> lookup(pairs_view(config@), key@) == Some(v@),
        r is None ==> lookup(pairs_view(config@), key@) is None,
{
    let ghost t = pairs_view(config@);
    let mut j: usize = config.len();
    assert(t.subrange(0, j as int) =~= t);
    while j > 0
        invariant
            j <= config.len(),
            t == pairs_view(config@),
            index_of(t, key@) == index_of(t.subrange(0, j as int), key@),
        decreases j,
    {
        assert(t.subrange(0, j as int).drop_last() =~= t.subrange(0, j - 1));
        if same_text(config[j - 1].0.as_str(), key) {
            return Some(&config[j - 1].1);
        }
        j = j - 1;
    }
    None
}

/// Checks a sink's configuration and, when nothing is missing, prepares its job.
pub fn prepare_job(sink: Sink, config: &Vec<(String, String)>, payload: &str) -> (r: Result<SinkJob, RiftError>)
    ensures
        r matches Ok(j) ==> job_for(sink, pairs_view(config@), payload@) == Ok::<SinkJobV, ErrorV>(j@),
        r matches Err(e) ==> job_for(sink, pairs_view(config@), payload@) == Err::<SinkJobV, ErrorV>(e@),
{
    let keys = sink.required_keys();
    let ghost ks = required_keys(sink);
    let mut settings: Vec<String> = Vec::new();
    let mut i: usize = 0;
    assert(ks.subrange(0, 0) =~= seq![]);
    assert(settings@.map_values(|s: String| s@) =~= seq![]);
    while i < keys.len()
        invariant
            keys@.map_values(|k: &'static str| k@) == ks,
            ks == required_keys(sink),
            i <= keys.len(),
            settings_for(ks.subrange(0, i as int), pairs_view(config@)) == Ok::<Seq<Seq<char>>, Seq<char>>(
                settings@.map_values(|s: String| s@),
            ),
        decreases keys.len() - i,
    {
        let key = keys[i];
        assert(ks.subrange(0, i + 1).drop_last() =~= ks.subrange(0, i as int));
        assert(ks[i as int] == key@);
        let ghost prev = settings@.map_values(|s: String| s@);
        match config_value(config, key) {
            Some(v) => {
                settings.push(v.clone());
                assert(settings@.map_values(|s: String| s@) =~= prev.push(v@));
            },
            None => {
                proof {
                    lemma_settings_stop(ks, i as int, pairs_view(config@));
                }
                return Err(RiftError::DeployConfigMissing { target: String::from_str(sink.name()), key: String::from_str(key) });
            },
        }
        i = i + 1;
    }
    assert(ks.subrange(0, i as int) =~= ks);
    Ok(SinkJob { sink, settings, payload: String::from_str(payload) })
}

/// Once a key is missing, the rest of the keys do not change the outcome.
pub proof fn lemma_settings_stop(ks: Seq<Seq<char>>, i: int, config: Seq<(Seq<char>, Seq<char>)>)
    requires
        0 <= i < ks.len(),
        settings_for(ks.subrange(0, i + 1), config) is Err,
    ensures
        settings_for(ks, config) == settings_for(ks.subrange(0, i + 1), config),
    decreases ks.len(),
{
    if ks.len() > i + 1 {
        assert(ks.drop_last().subrange(0, i + 1) =~= ks.subrange(0, i + 1));
        lemma_settings_stop(ks.drop_last(), i, config);
    } else {
        assert(ks.subrange(0, i + 1) =~= ks);
    }
}

/// Selects the sinks and checks each one's configuration.
pub fn plan_deployment(selector: &str, config: &Vec<(String, String)>, payload: &str) -> (r: DeployPlan)
    ensures
        r@ == deploy_plan(selector@, pairs_view(config@), payload@),
{
    let sinks = select_sinks(selector);
    let ghost ss = sinks@;
    let ghost cfg = pairs_view(config@);
    let mut jobs: Vec<SinkJob> = Vec::new();
    let mut rejected: Vec<RiftError> = Vec::new();
    let mut i: usize = 0;
    assert(ss.subrange(0, 0) =~= seq![]);
    assert(jobs@.map_values(|j: SinkJob| j@) =~= seq![]);
    assert(errors_view(&rejected) =~= seq![]);
    while i < sinks.len()
        invariant
            ss == sinks@,
            cfg == pairs_view(config@),
            ss == selected_sinks(selector@),
            i <= sinks.len(),
            plan_for(ss.subrange(0, i as int), cfg, payload@) == (DeployPlanV {
                jobs: jobs@.map_values(|j: SinkJob| j@),
                rejected: errors_view(&rejected),
            }),
        decreases sinks.len() - i,
    {
        assert(ss.subrange(0, i + 1).drop_last() =~= ss.subrange(0, i as int));
        let ghost prev_jobs = jobs@.map_values(|j: SinkJob| j@);
        let ghost prev_rejected = errors_view(&rejected);
        match prepare_job(sinks[i], config, payload) {
            Ok(j) => {
                let ghost jv = j@;
                jobs.push(j);
                assert(jobs@.map_values(|j: SinkJob| j@) =~= prev_jobs.push(jv));
                assert(errors_view(&rejected) =~= prev_rejected);
            },
            Err(e) => {
                let ghost ev = e@;
                rejected.push(e);
                assert(jobs@.map_values(|j: SinkJob| j@) =~= prev_jobs);
                assert(errors_view(&rejected) =~= prev_rejected.push(ev));
            },
        }
        i = i + 1;
    }
    assert(ss.subrange(0, i as int) =~= ss);
    DeployPlan { jobs, rejected }
}

/// Two to the power `k`.
pub open spec fn two_pow(k: nat) -> nat
    decreases k,
{
    if k == 0 { 1 } else { 2 * two_pow((k - 1) as nat) }
}

/// The pause before the next attempt once `attempts` attempts have failed.
pub open spec fn backoff_ms(attempts: nat) -> nat {
    (BASE_DELAY_MS * two_pow(attempts)) as nat
}

/// The error of a sink whose every attempt failed.
pub open spec fn exhausted(s: Sink, attempts: u32) -> ErrorV {
    ErrorV::DeployFailed { target: sink_name(s), attempts }
}

/// What a sink does after an attempt.
pub enum RetryStep {
    /// The attempt succeeded.
    Done,
    /// Try again after this many milliseconds.
    RetryAfter(u64),
    /// Every attempt failed.
    GiveUp(RiftError),
}

/// The retry state of one sink: how many of its attempts have failed.
pub struct Retry {
    pub sink: Sink,
    pub attempts: u32,
}

impl Retry {
    pub fn new(sink: Sink) -> (r: Retry)
        ensures
            r.sink == sink,
            r.attempts == 0,
    {
        Retry { sink, attempts: 0 }
    }

    /// Records the outcome of an attempt and says what comes next. A failure is
    /// retried with exponential backoff until `MAX_RETRIES` retries have failed.
    pub fn record(&mut self, succeeded: bool) -> (r: RetryStep)
        requires
            old(self).attempts <= MAX_RETRIES,
        ensures
            final(self).sink == old(self).sink,
            succeeded ==> r is Done && final(self).attempts == old(self).attempts,
            !succeeded ==> final(self).attempts == old(self).attempts + 1,
            !succeeded && final(self).attempts <= MAX_RETRIES ==> r == RetryStep::RetryAfter(
                backoff_ms(final(self).attempts as nat) as u64,
            ),
            !succeeded && final(self).attempts > MAX_RETRIES ==> r is GiveUp && r->GiveUp_0@ == exhausted(
                old(self).sink,
                final(self).attempts,
            ),
    {
        if succeeded {
            return RetryStep::Done;
        }
        self.attempts = self.attempts + 1;
        if self.attempts > MAX_RETRIES {
            return RetryStep::GiveUp(RiftError::DeployFailed { target: String::from_str(self.sink.name()), attempts: self.attempts });
        }
        let mut delay: u64 = BASE_DELAY_MS;
        let mut k: u32 = 0;
        while k < self.attempts
            invariant
                k <= self.attempts <= MAX_RETRIES,
                delay == BASE_DELAY_MS * two_pow(k as nat),
            decreases self.attempts - k,
        {
            assert(two_pow((k + 1) as nat) == 2 * two_pow(k as nat));
            assert(two_pow(k as nat) <= 4) by {
                assert(two_pow(0) == 1);
                assert(two_pow(1) == 2);
                assert(two_pow(2) == 4);
            }
            delay = delay * 2;
            k = k + 1;
        }
        RetryStep::RetryAfter(delay)
    }
}

} // verus!
