//! The sampling mode: Bayesian inference with Markov Chain Monte Carlo.
//!
//! This is the richest option tree: a flat record of iteration counts, a
//! warmup-adaptation sub-record, and a two-armed algorithm choice whose
//! HMC arm nests an engine choice and a metric choice.

use vstd::prelude::*;

use crate::arg_paths::{ArgPath, ArgReadablePath};
use crate::fixed::{fx, fx_exec, Fixed};
use crate::render::{bool_str, dec_nat};
use crate::stan_command::arg_tree::{
    arg_if_not_default_bool, arg_if_not_default_fixed, arg_if_not_default_rpath,
    arg_if_not_default_u32, kv, lemma_concat_assoc, lemma_contains_concat, lemma_contains_single,
    lemma_contains_tok_if, push_keyword, tok_if,
};
use crate::stan_command::{token_views, ArgError, ArgSink, ArgThrough, ArgType, WithDefaultArg};

verus! {

/// Engine for Hamiltonian Monte Carlo.  The default is the No-U-Turn
/// sampler with maximum tree depth 10.
#[derive(Debug, Clone, Copy, PartialEq, Eq, Structural)]
pub enum ArgSampleEngine {
    /// Static integration time.  Default integration time: `6.28319`.
    Static(Fixed),
    /// The No-U-Turn Sampler, with its maximum tree depth.
    Nuts(u32),
}

/// Geometry of the base manifold.  The default is the diagonal metric.
#[derive(Debug, Clone, Copy, PartialEq, Eq, Structural)]
pub enum ArgSampleMetric {
    /// Euclidean manifold with unit metric.
    UnitE,
    /// Euclidean manifold with diagonal metric (the default).
    DiagE,
    /// Euclidean manifold with dense metric.
    DenseE,
}

/// Hamiltonian Monte Carlo options.
#[derive(Debug, Clone, PartialEq, Eq)]
pub struct ArgSampleHmc {
    /// Engine for Hamiltonian Monte Carlo.  Default: NUTS.
    pub engine: ArgSampleEngine,
    /// Geometry of the base manifold.  Default: diagonal.
    pub metric: ArgSampleMetric,
    /// Input file with a precomputed Euclidean metric.  Default: the
    /// empty path.
    pub metric_file: ArgReadablePath,
    /// Step size for discrete evolution.  Default: `1`.
    pub stepsize: Fixed,
    /// Uniformly random jitter of the stepsize, as a fraction.
    /// Default: `0`.
    pub stepsize_jitter: Fixed,
}

/// Sampling algorithm.  The default arm is HMC with all-default options.
#[derive(Debug, Clone, PartialEq, Eq)]
pub enum ArgSampleAlgorithm {
    /// Hamiltonian Monte Carlo.
    Hmc(ArgSampleHmc),
    /// Fixed parameter sampler.
    FixedParam,
}

/// Warmup adaptation.
#[derive(Debug, Clone, Copy, PartialEq, Eq, Structural)]
pub struct ArgSampleAdapt {
    /// Adaptation engaged?  Default: `true`.
    pub engaged: bool,
    /// Adaptation regularization scale.  Default: `0.05`.
    pub gamma: Fixed,
    /// Adaptation target acceptance statistic.  Default: `0.8`.
    pub delta: Fixed,
    /// Adaptation relaxation exponent.  Default: `0.75`.
    pub kappa: Fixed,
    /// Adaptation iteration offset.  Default: `10`.
    pub t0: Fixed,
    /// Width of the initial fast adaptation interval.  Default: `75`.
    pub init_buffer: u32,
    /// Width of the final fast adaptation interval.  Default: `50`.
    pub term_buffer: u32,
    /// Initial width of the slow adaptation interval.  Default: `25`.
    pub window: u32,
    /// Save the metric as JSON?  Default: `false`.
    pub save_metric: bool,
}

/// Bayesian inference with Markov Chain Monte Carlo.
#[derive(Debug, Clone, PartialEq, Eq)]
pub struct ArgSample {
    /// Number of sampling iterations.  Default: `1000`.
    pub num_samples: u32,
    /// Number of warmup iterations.  Default: `1000`.
    pub num_warmup: u32,
    /// Stream warmup samples to output?  Default: `false`.
    pub save_warmup: bool,
    /// Period between saved samples.  Default: `1`.
    pub thin: u32,
    /// Warmup adaptation.
    pub adapt: ArgSampleAdapt,
    /// Sampling algorithm.
    pub algorithm: ArgSampleAlgorithm,
    /// Number of chains.  Default: `1`.
    pub num_chains: u32,
}

impl WithDefaultArg for ArgSampleEngine {
    open spec fn spec_is_default(&self) -> bool {
        self matches ArgSampleEngine::Nuts(x) && x == 10
    }

    fn arg_default() -> (r: Self) {
        ArgSampleEngine::Nuts(10)
    }

    fn is_default(&self) -> (r: bool) {
        match self {
            ArgSampleEngine::Nuts(x) => *x == 10,
            _ => false,
        }
    }
}

impl WithDefaultArg for ArgSampleMetric {
    open spec fn spec_is_default(&self) -> bool {
        self matches ArgSampleMetric::DiagE
    }

    fn arg_default() -> (r: Self) {
        ArgSampleMetric::DiagE
    }

    fn is_default(&self) -> (r: bool) {
        matches!(self, ArgSampleMetric::DiagE)
    }
}

impl WithDefaultArg for ArgSampleHmc {
    open spec fn spec_is_default(&self) -> bool {
        &&& self.engine.spec_is_default()
        &&& self.metric.spec_is_default()
        &&& self.metric_file.spec_is_default()
        &&& self.stepsize == fx(1_000_000_000_000)
        &&& self.stepsize_jitter == fx(0)
    }

    fn arg_default() -> (r: Self) {
        ArgSampleHmc {
            engine: ArgSampleEngine::Nuts(10),
            metric: ArgSampleMetric::DiagE,
            metric_file: ArgReadablePath::arg_default(),
            stepsize: fx_exec(1_000_000_000_000),
            stepsize_jitter: fx_exec(0),
        }
    }

    fn is_default(&self) -> (r: bool) {
        self.engine.is_default() && self.metric.is_default() && self.metric_file.is_default()
            && self.stepsize == fx_exec(1_000_000_000_000) && self.stepsize_jitter == fx_exec(0)
    }
}

impl WithDefaultArg for ArgSampleAlgorithm {
    open spec fn spec_is_default(&self) -> bool {
        self matches ArgSampleAlgorithm::Hmc(h) && h.spec_is_default()
    }

    fn arg_default() -> (r: Self) {
        ArgSampleAlgorithm::Hmc(ArgSampleHmc::arg_default())
    }

    fn is_default(&self) -> (r: bool) {
        match self {
            ArgSampleAlgorithm::Hmc(h) => h.is_default(),
            ArgSampleAlgorithm::FixedParam => false,
        }
    }
}

impl WithDefaultArg for ArgSampleAdapt {
    open spec fn spec_is_default(&self) -> bool {
        &&& self.engaged == true
        &&& self.gamma == fx(50_000_000_000)
        &&& self.delta == fx(800_000_000_000)
        &&& self.kappa == fx(750_000_000_000)
        &&& self.t0 == fx(10_000_000_000_000)
        &&& self.init_buffer == 75
        &&& self.term_buffer == 50
        &&& self.window == 25
        &&& self.save_metric == false
    }

    fn arg_default() -> (r: Self) {
        ArgSampleAdapt {
            engaged: true,
            gamma: fx_exec(50_000_000_000),
            delta: fx_exec(800_000_000_000),
            kappa: fx_exec(750_000_000_000),
            t0: fx_exec(10_000_000_000_000),
            init_buffer: 75,
            term_buffer: 50,
            window: 25,
            save_metric: false,
        }
    }

    fn is_default(&self) -> (r: bool) {
        self.engaged == true && self.gamma == fx_exec(50_000_000_000) && self.delta == fx_exec(
            800_000_000_000,
        ) && self.kappa == fx_exec(750_000_000_000) && self.t0 == fx_exec(10_000_000_000_000)
            && self.init_buffer == 75 && self.term_buffer == 50 && self.window == 25
            && self.save_metric == false
    }
}

impl WithDefaultArg for ArgSample {
    open spec fn spec_is_default(&self) -> bool {
        &&& self.num_samples == 1000
        &&& self.num_warmup == 1000
        &&& self.save_warmup == false
        &&& self.thin == 1
        &&& self.adapt.spec_is_default()
        &&& self.algorithm.spec_is_default()
        &&& self.num_chains == 1
    }

    fn arg_default() -> (r: Self) {
        ArgSample {
            num_samples: 1000,
            num_warmup: 1000,
            save_warmup: false,
            thin: 1,
            adapt: ArgSampleAdapt::arg_default(),
            algorithm: ArgSampleAlgorithm::arg_default(),
            num_chains: 1,
        }
    }

    fn is_default(&self) -> (r: bool) {
        self.num_samples == 1000 && self.num_warmup == 1000 && self.save_warmup == false
            && self.thin == 1 && self.adapt.is_default() && self.algorithm.is_default()
            && self.num_chains == 1
    }
}

impl ArgSampleEngine {
    /// The engine's tokens.  A static engine always announces itself
    /// and adds the integration time when it is not the default; the
    /// NUTS engine emits nothing at its default depth and otherwise
    /// announces itself together with the depth.
    pub open spec fn spec_group_tokens(&self) -> Seq<Seq<char>> {
        match self {
            ArgSampleEngine::Static(x) => seq!["engine=static"@] + tok_if(
                x != fx(6_283_190_000_000),
                kv("int_time"@, x.spec_text()),
            ),
            ArgSampleEngine::Nuts(x) => if x != 10 {
                seq!["engine=nuts"@, kv("max_depth"@, dec_nat(x as nat))]
            } else {
                Seq::<Seq<char>>::empty()
            },
        }
    }

    /// Emits the engine's tokens.
    pub fn emit(&self, sink: &mut ArgSink)
        ensures
            token_views(final(sink).tokens@) == token_views(old(sink).tokens@)
                + self.spec_group_tokens(),
            final(sink).side_files@ == old(sink).side_files@,
    {
        let ghost base = token_views(old(sink).tokens@);
        match self {
            ArgSampleEngine::Static(x) => {
                push_keyword(sink, "engine=static");
                arg_if_not_default_fixed(sink, "int_time", *x, fx_exec(6_283_190_000_000));
                proof {
                    lemma_concat_assoc(
                        base,
                        seq!["engine=static"@],
                        tok_if(*x != fx(6_283_190_000_000), kv("int_time"@, x.spec_text())),
                    );
                }
            },
            ArgSampleEngine::Nuts(x) => {
                if *x != 10 {
                    push_keyword(sink, "engine=nuts");
                    arg_if_not_default_u32(sink, "max_depth", *x, 10);
                    assert(token_views(sink.tokens@) =~= base + self.spec_group_tokens());
                } else {
                    assert(token_views(sink.tokens@) =~= base + self.spec_group_tokens());
                }
            },
        }
    }

    /// The all-default engine.
    pub fn new() -> (r: Self)
        ensures
            r.spec_is_default(),
    {
        Self::arg_default()
    }

    /// Switches to the static engine at its default integration time.
    pub fn set_static_engine(&mut self)
        ensures
            *final(self) == ArgSampleEngine::Static(fx(6_283_190_000_000)),
    {
        *self = ArgSampleEngine::Static(fx_exec(6_283_190_000_000));
    }

    /// Switches to the static engine with the given integration time;
    /// values not strictly positive are rejected, leaving the engine
    /// unchanged.
    pub fn set_static_int_time(&mut self, int_time: Fixed) -> (r: Result<(), ArgError>)
        ensures
            int_time.units() > 0 ==> (r is Ok && *final(self) == ArgSampleEngine::Static(int_time)),
            int_time.units() <= 0 ==> (r matches Err(e) && e matches ArgError::BadArgumentValue(m) && m@ == "Sample: set_static_int_time expected int_time>0, found "@ + int_time.spec_text()
                && *final(self) == *old(self)),
    {
        if !int_time.is_positive() {
            let mut m = String::from_str("Sample: set_static_int_time expected int_time>0, found ");
            let t = int_time.to_text();
            m.append(t.as_str());
            return Err(ArgError::BadArgumentValue(m));
        }
        *self = ArgSampleEngine::Static(int_time);
        Ok(())
    }

    /// Switches to the NUTS engine at its default depth.
    pub fn set_nuts_engine(&mut self)
        ensures
            *final(self) == ArgSampleEngine::Nuts(10),
    {
        *self = ArgSampleEngine::Nuts(10);
    }

    /// Switches to the NUTS engine with the given maximum tree depth;
    /// zero is rejected, leaving the engine unchanged.
    pub fn set_nuts_max_depth(&mut self, max_depth: u32) -> (r: Result<(), ArgError>)
        ensures
            max_depth > 0 ==> (r is Ok && *final(self) == ArgSampleEngine::Nuts(max_depth)),
            max_depth == 0 ==> (r matches Err(e) && e matches ArgError::BadArgumentValue(m) && m@ == "sample: max_depth of set_nuts_max_depth could not be 0"@
                && *final(self) == *old(self)),
    {
        if max_depth == 0 {
            return Err(
                ArgError::BadArgumentValue(
                    String::from_str("sample: max_depth of set_nuts_max_depth could not be 0"),
                ),
            );
        }
        *self = ArgSampleEngine::Nuts(max_depth);
        Ok(())
    }

    /// The static engine's integration time; `None` for NUTS.
    pub fn get_int_time(&self) -> (r: Option<Fixed>)
        ensures
            match self {
                ArgSampleEngine::Static(x) => r == Some(*x),
                _ => r is None,
            },
    {
        match self {
            ArgSampleEngine::Static(x) => Some(*x),
            _ => None,
        }
    }

    /// The NUTS engine's maximum tree depth; `None` for static.
    pub fn get_max_depth(&self) -> (r: Option<u32>)
        ensures
            match self {
                ArgSampleEngine::Nuts(x) => r == Some(*x),
                _ => r is None,
            },
    {
        match self {
            ArgSampleEngine::Nuts(x) => Some(*x),
            _ => None,
        }
    }
}

impl ArgSampleMetric {
    /// The metric's token: nothing for the default diagonal metric.
    pub open spec fn spec_group_tokens(&self) -> Seq<Seq<char>> {
        match self {
            ArgSampleMetric::UnitE => seq!["metric=unit_e"@],
            ArgSampleMetric::DiagE => Seq::<Seq<char>>::empty(),
            ArgSampleMetric::DenseE => seq!["metric=dense_e"@],
        }
    }

    /// Emits the metric's token.
    pub fn emit(&self, sink: &mut ArgSink)
        ensures
            token_views(final(sink).tokens@) == token_views(old(sink).tokens@)
                + self.spec_group_tokens(),
            final(sink).side_files@ == old(sink).side_files@,
    {
        let ghost base = token_views(old(sink).tokens@);
        match self {
            ArgSampleMetric::UnitE => {
                push_keyword(sink, "metric=unit_e");
            },
            ArgSampleMetric::DiagE => {
                assert(token_views(sink.tokens@) =~= base + self.spec_group_tokens());
            },
            ArgSampleMetric::DenseE => {
                push_keyword(sink, "metric=dense_e");
            },
        }
    }

    /// The all-default metric.
    pub fn new() -> (r: Self)
        ensures
            r.spec_is_default(),
    {
        Self::arg_default()
    }

    /// Switches to the unit metric.
    pub fn set_unit_e(&mut self)
        ensures
            *final(self) == ArgSampleMetric::UnitE,
    {
        *self = ArgSampleMetric::UnitE;
    }

    /// Switches to the diagonal metric.
    pub fn set_diag_e(&mut self)
        ensures
            *final(self) == ArgSampleMetric::DiagE,
    {
        *self = ArgSampleMetric::DiagE;
    }

    /// Switches to the dense metric.
    pub fn set_dense_e(&mut self)
        ensures
            *final(self) == ArgSampleMetric::DenseE,
    {
        *self = ArgSampleMetric::DenseE;
    }
}

impl ArgSampleHmc {
    /// The HMC options' tokens: engine, metric, then the remaining
    /// fields in declaration order.
    pub open spec fn spec_group_tokens(&self) -> Seq<Seq<char>> {
        self.engine.spec_group_tokens() + self.metric.spec_group_tokens() + tok_if(
            !self.metric_file.spec_is_default(),
            kv("metric_file"@, self.metric_file.spec_text()),
        ) + tok_if(
            self.stepsize != fx(1_000_000_000_000),
            kv("stepsize"@, self.stepsize.spec_text()),
        ) + tok_if(
            self.stepsize_jitter != fx(0),
            kv("stepsize_jitter"@, self.stepsize_jitter.spec_text()),
        )
    }

    /// Emits the HMC options.
    pub fn emit(&self, sink: &mut ArgSink)
        ensures
            token_views(final(sink).tokens@) == token_views(old(sink).tokens@)
                + self.spec_group_tokens(),
            final(sink).side_files@ == old(sink).side_files@,
    {
        let ghost base = token_views(old(sink).tokens@);
        self.engine.emit(sink);
        let ghost mut acc: Seq<Seq<char>> = self.engine.spec_group_tokens();
        self.metric.emit(sink);
        proof {
            let d = self.metric.spec_group_tokens();
            lemma_concat_assoc(base, acc, d);
            acc = acc + d;
        }
        arg_if_not_default_rpath(sink, "metric_file", &self.metric_file);
        proof {
            let d = tok_if(
                !self.metric_file.spec_is_default(),
                kv("metric_file"@, self.metric_file.spec_text()),
            );
            lemma_concat_assoc(base, acc, d);
            acc = acc + d;
        }
        arg_if_not_default_fixed(sink, "stepsize", self.stepsize, fx_exec(1_000_000_000_000));
        proof {
            let d = tok_if(
                self.stepsize != fx(1_000_000_000_000),
                kv("stepsize"@, self.stepsize.spec_text()),
            );
            lemma_concat_assoc(base, acc, d);
            acc = acc + d;
        }
        arg_if_not_default_fixed(sink, "stepsize_jitter", self.stepsize_jitter, fx_exec(0));
        proof {
            let d = tok_if(
                self.stepsize_jitter != fx(0),
                kv("stepsize_jitter"@, self.stepsize_jitter.spec_text()),
            );
            lemma_concat_assoc(base, acc, d);
            acc = acc + d;
            assert(acc == self.spec_group_tokens());
        }
    }

    /// The all-default options.
    pub fn new() -> (r: Self)
        ensures
            r.spec_is_default(),
    {
        Self::arg_default()
    }

    /// Sets the engine choice.
    pub fn set_engine(&mut self, engine: ArgSampleEngine)
        ensures
            *final(self) == (ArgSampleHmc { engine, ..*old(self) }),
    {
        self.engine = engine;
    }

    /// Sets the engine choice from a borrowed value.
    pub fn set_engine_clone(&mut self, engine: &ArgSampleEngine)
        ensures
            *final(self) == (ArgSampleHmc { engine: *engine, ..*old(self) }),
    {
        self.engine = *engine;
    }

    /// Sets the metric choice.
    pub fn set_metric(&mut self, metric: ArgSampleMetric)
        ensures
            *final(self) == (ArgSampleHmc { metric, ..*old(self) }),
    {
        self.metric = metric;
    }

    /// Sets the metric choice from a borrowed value.
    pub fn set_metric_clone(&mut self, metric: &ArgSampleMetric)
        ensures
            *final(self) == (ArgSampleHmc { metric: *metric, ..*old(self) }),
    {
        self.metric = *metric;
    }

    /// Switches the metric to unit.
    pub fn set_metric_unit_e(&mut self)
        ensures
            *final(self) == (ArgSampleHmc { metric: ArgSampleMetric::UnitE, ..*old(self) }),
    {
        self.metric = ArgSampleMetric::UnitE;
    }

    /// Switches the metric to diagonal.
    pub fn set_metric_diag_e(&mut self)
        ensures
            *final(self) == (ArgSampleHmc { metric: ArgSampleMetric::DiagE, ..*old(self) }),
    {
        self.metric = ArgSampleMetric::DiagE;
    }

    /// Switches the metric to dense.
    pub fn set_metric_dense_e(&mut self)
        ensures
            *final(self) == (ArgSampleHmc { metric: ArgSampleMetric::DenseE, ..*old(self) }),
    {
        self.metric = ArgSampleMetric::DenseE;
    }

    /// Sets the precomputed-metric input file.  Every path is accepted.
    pub fn set_metric_file(&mut self, file: ArgReadablePath) -> (r: Result<(), ArgError>)
        ensures
            r is Ok,
            *final(self) == (ArgSampleHmc { metric_file: file, ..*old(self) }),
    {
        self.metric_file = file;
        Ok(())
    }

    /// Sets the step size; values not strictly positive are rejected,
    /// leaving the record unchanged.
    pub fn set_stepsize(&mut self, stepsize: Fixed) -> (r: Result<(), ArgError>)
        ensures
            stepsize.units() > 0 ==> (r is Ok && *final(self) == (ArgSampleHmc {
                stepsize,
                ..*old(self)
            })),
            stepsize.units() <= 0 ==> (r matches Err(e) && e matches ArgError::BadArgumentValue(m) && m@ == "Sample: set_stepsize expected stepsize>0, found "@ + stepsize.spec_text()
                && *final(self) == *old(self)),
    {
        if !stepsize.is_positive() {
            let mut m = String::from_str("Sample: set_stepsize expected stepsize>0, found ");
            let t = stepsize.to_text();
            m.append(t.as_str());
            return Err(ArgError::BadArgumentValue(m));
        }
        self.stepsize = stepsize;
        Ok(())
    }

    /// Sets the stepsize jitter; values outside `[0, 1]` are rejected,
    /// leaving the record unchanged.
    pub fn set_stepsize_jitter(&mut self, stepsize_jitter: Fixed) -> (r: Result<(), ArgError>)
        ensures
            (0 <= stepsize_jitter.units() <= 1_000_000_000_000) ==> (r is Ok && *final(self) == (
            ArgSampleHmc { stepsize_jitter, ..*old(self) })),
            !(0 <= stepsize_jitter.units() <= 1_000_000_000_000) ==> (r matches Err(e)
                && e matches ArgError::BadArgumentValue(m) && m@ == "Sample: set_stepsize_jitter expected jitter in [0,1], found "@ + stepsize_jitter.spec_text() && *final(self) == *old(self)),
    {
        let lo = fx_exec(0);
        let hi = fx_exec(1_000_000_000_000);
        if !(lo.le(&stepsize_jitter) && stepsize_jitter.le(&hi)) {
            let mut m = String::from_str("Sample: set_stepsize_jitter expected jitter in [0,1], found ");
            let t = stepsize_jitter.to_text();
            m.append(t.as_str());
            return Err(ArgError::BadArgumentValue(m));
        }
        self.stepsize_jitter = stepsize_jitter;
        Ok(())
    }
}

impl ArgSampleAlgorithm {
    /// The algorithm's tokens: nothing when the choice is the default
    /// HMC; otherwise the arm's discriminant and, for HMC, its options.
    pub open spec fn spec_group_tokens(&self) -> Seq<Seq<char>> {
        if self.spec_is_default() {
            Seq::<Seq<char>>::empty()
        } else {
            match self {
                ArgSampleAlgorithm::FixedParam => seq!["algorithm=fixed_param"@],
                ArgSampleAlgorithm::Hmc(h) => seq!["algorithm=hmc"@] + h.spec_group_tokens(),
            }
        }
    }

    /// Emits the algorithm's tokens.
    pub fn emit(&self, sink: &mut ArgSink)
        ensures
            token_views(final(sink).tokens@) == token_views(old(sink).tokens@)
                + self.spec_group_tokens(),
            final(sink).side_files@ == old(sink).side_files@,
    {
        let ghost base = token_views(old(sink).tokens@);
        if self.is_default() {
            assert(token_views(sink.tokens@) =~= base + self.spec_group_tokens());
            return ;
        }
        match self {
            ArgSampleAlgorithm::FixedParam => {
                push_keyword(sink, "algorithm=fixed_param");
                assert(token_views(sink.tokens@) =~= base + self.spec_group_tokens());
            },
            ArgSampleAlgorithm::Hmc(h) => {
                push_keyword(sink, "algorithm=hmc");
                h.emit(sink);
                proof {
                    lemma_concat_assoc(base, seq!["algorithm=hmc"@], h.spec_group_tokens());
                }
            },
        }
    }

    /// The all-default choice.
    pub fn new() -> (r: Self)
        ensures
            r.spec_is_default(),
    {
        Self::arg_default()
    }

    /// Switches to the fixed-parameter sampler.
    pub fn set_to_fixed_param(&mut self)
        ensures
            *final(self) == ArgSampleAlgorithm::FixedParam,
    {
        *self = ArgSampleAlgorithm::FixedParam;
    }

    /// Switches to HMC with the given options.
    pub fn set_hmc(&mut self, hmc: ArgSampleHmc)
        ensures
            *final(self) == ArgSampleAlgorithm::Hmc(hmc),
    {
        *self = ArgSampleAlgorithm::Hmc(hmc);
    }

    /// Switches to HMC with a copy of the given options.
    pub fn set_hmc_clone(&mut self, hmc: &ArgSampleHmc)
        ensures
            *final(self) == ArgSampleAlgorithm::Hmc(*hmc),
    {
        *self = ArgSampleAlgorithm::Hmc(
            ArgSampleHmc {
                engine: hmc.engine,
                metric: hmc.metric,
                metric_file: hmc.metric_file.duplicate(),
                stepsize: hmc.stepsize,
                stepsize_jitter: hmc.stepsize_jitter,
            },
        );
    }


    /// The HMC options for in-place modification, when that arm is
    /// chosen.
    pub fn get_mut_hmc(&mut self) -> (r: Option<&mut ArgSampleHmc>)
        ensures
            match *old(self) {
                ArgSampleAlgorithm::Hmc(h) => r matches Some(m) && *m == h && *final(self)
                    == ArgSampleAlgorithm::Hmc(*final(m)),
                ArgSampleAlgorithm::FixedParam => r is None && *final(self)
                    == ArgSampleAlgorithm::FixedParam,
            },
    {
        match self {
            ArgSampleAlgorithm::Hmc(h) => Some(h),
            ArgSampleAlgorithm::FixedParam => None,
        }
    }

    /// The HMC options, when that arm is chosen.
    pub fn get_hmc(&self) -> (r: Option<&ArgSampleHmc>)
        ensures
            match self {
                ArgSampleAlgorithm::Hmc(h) => r == Some(h),
                ArgSampleAlgorithm::FixedParam => r is None,
            },
    {
        match self {
            ArgSampleAlgorithm::Hmc(h) => Some(h),
            ArgSampleAlgorithm::FixedParam => None,
        }
    }
}

impl ArgSampleAdapt {
    /// The adaptation group's tokens: nothing when all-default, else
    /// the group keyword and the non-default fields in declaration
    /// order.
    pub open spec fn spec_group_tokens(&self) -> Seq<Seq<char>> {
        if self.spec_is_default() {
            Seq::<Seq<char>>::empty()
        } else {
            seq!["adapt"@] + self.spec_fields_a() + self.spec_fields_b()
        }
    }

    /// The tokens of the engagement and schedule-shape fields.
    pub open spec fn spec_fields_a(&self) -> Seq<Seq<char>> {
        tok_if(self.engaged != true, kv("engaged"@, bool_str(self.engaged))) + tok_if(
            self.gamma != fx(50_000_000_000),
            kv("gamma"@, self.gamma.spec_text()),
        ) + tok_if(self.delta != fx(800_000_000_000), kv("delta"@, self.delta.spec_text()))
            + tok_if(self.kappa != fx(750_000_000_000), kv("kappa"@, self.kappa.spec_text()))
            + tok_if(self.t0 != fx(10_000_000_000_000), kv("t0"@, self.t0.spec_text()))
    }

    /// The tokens of the buffer-width fields.
    pub open spec fn spec_fields_b(&self) -> Seq<Seq<char>> {
        tok_if(self.init_buffer != 75, kv("init_buffer"@, dec_nat(self.init_buffer as nat)))
            + tok_if(self.term_buffer != 50, kv("term_buffer"@, dec_nat(self.term_buffer as nat)))
            + tok_if(self.window != 25, kv("window"@, dec_nat(self.window as nat))) + tok_if(
            self.save_metric != false,
            kv("save_metric"@, bool_str(self.save_metric)),
        )
    }

    /// Emits the engagement and schedule-shape fields.
    fn emit_fields_a(&self, sink: &mut ArgSink)
        ensures
            token_views(final(sink).tokens@) == token_views(old(sink).tokens@)
                + self.spec_fields_a(),
            final(sink).side_files@ == old(sink).side_files@,
    {
        let ghost base = token_views(old(sink).tokens@);
        arg_if_not_default_bool(sink, "engaged", self.engaged, true);
        let ghost mut acc: Seq<Seq<char>> = tok_if(
            self.engaged != true,
            kv("engaged"@, bool_str(self.engaged)),
        );
        arg_if_not_default_fixed(sink, "gamma", self.gamma, fx_exec(50_000_000_000));
        proof {
            let d = tok_if(self.gamma != fx(50_000_000_000), kv("gamma"@, self.gamma.spec_text()));
            lemma_concat_assoc(base, acc, d);
            acc = acc + d;
        }
        arg_if_not_default_fixed(sink, "delta", self.delta, fx_exec(800_000_000_000));
        proof {
            let d = tok_if(self.delta != fx(800_000_000_000), kv("delta"@, self.delta.spec_text()));
            lemma_concat_assoc(base, acc, d);
            acc = acc + d;
        }
        arg_if_not_default_fixed(sink, "kappa", self.kappa, fx_exec(750_000_000_000));
        proof {
            let d = tok_if(self.kappa != fx(750_000_000_000), kv("kappa"@, self.kappa.spec_text()));
            lemma_concat_assoc(base, acc, d);
            acc = acc + d;
        }
        arg_if_not_default_fixed(sink, "t0", self.t0, fx_exec(10_000_000_000_000));
        proof {
            let d = tok_if(self.t0 != fx(10_000_000_000_000), kv("t0"@, self.t0.spec_text()));
            lemma_concat_assoc(base, acc, d);
            acc = acc + d;
            assert(acc == self.spec_fields_a());
        }
    }

    /// Emits the buffer-width fields.
    fn emit_fields_b(&self, sink: &mut ArgSink)
        ensures
            token_views(final(sink).tokens@) == token_views(old(sink).tokens@)
                + self.spec_fields_b(),
            final(sink).side_files@ == old(sink).side_files@,
    {
        let ghost base = token_views(old(sink).tokens@);
        arg_if_not_default_u32(sink, "init_buffer", self.init_buffer, 75);
        let ghost mut acc: Seq<Seq<char>> = tok_if(
            self.init_buffer != 75,
            kv("init_buffer"@, dec_nat(self.init_buffer as nat)),
        );
        arg_if_not_default_u32(sink, "term_buffer", self.term_buffer, 50);
        proof {
            let d = tok_if(
                self.term_buffer != 50,
                kv("term_buffer"@, dec_nat(self.term_buffer as nat)),
            );
            lemma_concat_assoc(base, acc, d);
            acc = acc + d;
        }
        arg_if_not_default_u32(sink, "window", self.window, 25);
        proof {
            let d = tok_if(self.window != 25, kv("window"@, dec_nat(self.window as nat)));
            lemma_concat_assoc(base, acc, d);
            acc = acc + d;
        }
        arg_if_not_default_bool(sink, "save_metric", self.save_metric, false);
        proof {
            let d = tok_if(
                self.save_metric != false,
                kv("save_metric"@, bool_str(self.save_metric)),
            );
            lemma_concat_assoc(base, acc, d);
            acc = acc + d;
            assert(acc == self.spec_fields_b());
        }
    }

    /// Emits the adaptation group.
    pub fn emit(&self, sink: &mut ArgSink)
        ensures
            token_views(final(sink).tokens@) == token_views(old(sink).tokens@)
                + self.spec_group_tokens(),
            final(sink).side_files@ == old(sink).side_files@,
    {
        let ghost base = token_views(old(sink).tokens@);
        if !self.is_default() {
            push_keyword(sink, "adapt");
            self.emit_fields_a(sink);
            proof {
                lemma_concat_assoc(base, seq!["adapt"@], self.spec_fields_a());
            }
            self.emit_fields_b(sink);
            proof {
                lemma_concat_assoc(
                    base,
                    seq!["adapt"@] + self.spec_fields_a(),
                    self.spec_fields_b(),
                );
            }
        } else {
            assert(token_views(sink.tokens@) =~= base + self.spec_group_tokens());
        }
    }

    /// The round trip of the default-diffing rule over the adaptation
    /// group: the group keyword stands among its tokens exactly when
    /// some field is overridden, and each field's token exactly when
    /// that field differs from its default, so the overridden names can
    /// be re-derived from the emitted tokens.
    #[verifier::rlimit(100)]
    #[verifier::spinoff_prover]
    pub proof fn lemma_roundtrip_group_tokens(t: ArgSampleAdapt)
        ensures
            t.spec_group_tokens().contains("adapt"@) <==> !t.spec_is_default(),
            t.spec_group_tokens().contains(kv("engaged"@, bool_str(t.engaged))) <==> t.engaged != true,
            t.spec_group_tokens().contains(kv("gamma"@, t.gamma.spec_text())) <==> t.gamma != fx(50_000_000_000),
            t.spec_group_tokens().contains(kv("delta"@, t.delta.spec_text())) <==> t.delta != fx(800_000_000_000),
            t.spec_group_tokens().contains(kv("kappa"@, t.kappa.spec_text())) <==> t.kappa != fx(750_000_000_000),
            t.spec_group_tokens().contains(kv("t0"@, t.t0.spec_text())) <==> t.t0 != fx(10_000_000_000_000),
            t.spec_group_tokens().contains(kv("init_buffer"@, dec_nat(t.init_buffer as nat))) <==> t.init_buffer != 75,
            t.spec_group_tokens().contains(kv("term_buffer"@, dec_nat(t.term_buffer as nat))) <==> t.term_buffer != 50,
            t.spec_group_tokens().contains(kv("window"@, dec_nat(t.window as nat))) <==> t.window != 25,
            t.spec_group_tokens().contains(kv("save_metric"@, bool_str(t.save_metric))) <==> t.save_metric != false,
    {
        reveal_strlit("adapt");
        reveal_strlit("engaged");
        reveal_strlit("gamma");
        reveal_strlit("delta");
        reveal_strlit("kappa");
        reveal_strlit("t0");
        reveal_strlit("init_buffer");
        reveal_strlit("term_buffer");
        reveal_strlit("window");
        reveal_strlit("save_metric");
        let kw = "adapt"@;
        let k1 = kv("engaged"@, bool_str(t.engaged));
        let k2 = kv("gamma"@, t.gamma.spec_text());
        let k3 = kv("delta"@, t.delta.spec_text());
        let k4 = kv("kappa"@, t.kappa.spec_text());
        let k5 = kv("t0"@, t.t0.spec_text());
        let k6 = kv("init_buffer"@, dec_nat(t.init_buffer as nat));
        let k7 = kv("term_buffer"@, dec_nat(t.term_buffer as nat));
        let k8 = kv("window"@, dec_nat(t.window as nat));
        let k9 = kv("save_metric"@, bool_str(t.save_metric));
        // the keyword and the nine field names differ pairwise at an
        // early position, so no token can be mistaken for another's
        assert(kw != k1) by {
            assert(kw[0] == 'a' && k1[0] == 'e');
        }
        assert(kw != k2) by {
            assert(kw[0] == 'a' && k2[0] == 'g');
        }
        assert(kw != k3) by {
            assert(kw[0] == 'a' && k3[0] == 'd');
        }
        assert(kw != k4) by {
            assert(kw[0] == 'a' && k4[0] == 'k');
        }
        assert(kw != k5) by {
            assert(kw[0] == 'a' && k5[0] == 't');
        }
        assert(kw != k6) by {
            assert(kw[0] == 'a' && k6[0] == 'i');
        }
        assert(kw != k7) by {
            assert(kw[0] == 'a' && k7[0] == 't');
        }
        assert(kw != k8) by {
            assert(kw[0] == 'a' && k8[0] == 'w');
        }
        assert(kw != k9) by {
            assert(kw[0] == 'a' && k9[0] == 's');
        }
        assert(k1 != k2) by {
            assert(k1[0] == 'e' && k2[0] == 'g');
        }
        assert(k1 != k3) by {
            assert(k1[0] == 'e' && k3[0] == 'd');
        }
        assert(k1 != k4) by {
            assert(k1[0] == 'e' && k4[0] == 'k');
        }
        assert(k1 != k5) by {
            assert(k1[0] == 'e' && k5[0] == 't');
        }
        assert(k1 != k6) by {
            assert(k1[0] == 'e' && k6[0] == 'i');
        }
        assert(k1 != k7) by {
            assert(k1[0] == 'e' && k7[0] == 't');
        }
        assert(k1 != k8) by {
            assert(k1[0] == 'e' && k8[0] == 'w');
        }
        assert(k1 != k9) by {
            assert(k1[0] == 'e' && k9[0] == 's');
        }
        assert(k2 != k3) by {
            assert(k2[0] == 'g' && k3[0] == 'd');
        }
        assert(k2 != k4) by {
            assert(k2[0] == 'g' && k4[0] == 'k');
        }
        assert(k2 != k5) by {
            assert(k2[0] == 'g' && k5[0] == 't');
        }
        assert(k2 != k6) by {
            assert(k2[0] == 'g' && k6[0] == 'i');
        }
        assert(k2 != k7) by {
            assert(k2[0] == 'g' && k7[0] == 't');
        }
        assert(k2 != k8) by {
            assert(k2[0] == 'g' && k8[0] == 'w');
        }
        assert(k2 != k9) by {
            assert(k2[0] == 'g' && k9[0] == 's');
        }
        assert(k3 != k4) by {
            assert(k3[0] == 'd' && k4[0] == 'k');
        }
        assert(k3 != k5) by {
            assert(k3[0] == 'd' && k5[0] == 't');
        }
        assert(k3 != k6) by {
            assert(k3[0] == 'd' && k6[0] == 'i');
        }
        assert(k3 != k7) by {
            assert(k3[0] == 'd' && k7[0] == 't');
        }
        assert(k3 != k8) by {
            assert(k3[0] == 'd' && k8[0] == 'w');
        }
        assert(k3 != k9) by {
            assert(k3[0] == 'd' && k9[0] == 's');
        }
        assert(k4 != k5) by {
            assert(k4[0] == 'k' && k5[0] == 't');
        }
        assert(k4 != k6) by {
            assert(k4[0] == 'k' && k6[0] == 'i');
        }
        assert(k4 != k7) by {
            assert(k4[0] == 'k' && k7[0] == 't');
        }
        assert(k4 != k8) by {
            assert(k4[0] == 'k' && k8[0] == 'w');
        }
        assert(k4 != k9) by {
            assert(k4[0] == 'k' && k9[0] == 's');
        }
        assert(k5 != k6) by {
            assert(k5[0] == 't' && k6[0] == 'i');
        }
        assert(k5 != k7) by {
            assert(k5[1] == '0' && k7[1] == 'e');
        }
        assert(k5 != k8) by {
            assert(k5[0] == 't' && k8[0] == 'w');
        }
        assert(k5 != k9) by {
            assert(k5[0] == 't' && k9[0] == 's');
        }
        assert(k6 != k7) by {
            assert(k6[0] == 'i' && k7[0] == 't');
        }
        assert(k6 != k8) by {
            assert(k6[0] == 'i' && k8[0] == 'w');
        }
        assert(k6 != k9) by {
            assert(k6[0] == 'i' && k9[0] == 's');
        }
        assert(k7 != k8) by {
            assert(k7[0] == 't' && k8[0] == 'w');
        }
        assert(k7 != k9) by {
            assert(k7[0] == 't' && k9[0] == 's');
        }
        assert(k8 != k9) by {
            assert(k8[0] == 'w' && k9[0] == 's');
        }
        lemma_adapt_token_shapes(t);
    }

    /// The all-default adaptation.
    pub fn new() -> (r: Self)
        ensures
            r.spec_is_default(),
    {
        Self::arg_default()
    }

    /// Sets the engagement flag.
    pub fn set_engaged(&mut self, engaged: bool)
        ensures
            *final(self) == (ArgSampleAdapt { engaged, ..*old(self) }),
    {
        self.engaged = engaged;
    }

    /// Sets the regularization scale; values not strictly positive are
    /// rejected, leaving the record unchanged.
    pub fn set_gamma(&mut self, gamma: Fixed) -> (r: Result<(), ArgError>)
        ensures
            gamma.units() > 0 ==> (r is Ok && *final(self) == (ArgSampleAdapt {
                gamma,
                ..*old(self)
            })),
            gamma.units() <= 0 ==> (r matches Err(e) && e matches ArgError::BadArgumentValue(m) && m@ == "Sample: set_gamma expected gamma>0, found "@ + gamma.spec_text()
                && *final(self) == *old(self)),
    {
        if !gamma.is_positive() {
            let mut m = String::from_str("Sample: set_gamma expected gamma>0, found ");
            let t = gamma.to_text();
            m.append(t.as_str());
            return Err(ArgError::BadArgumentValue(m));
        }
        self.gamma = gamma;
        Ok(())
    }

    /// Sets the target acceptance statistic; values outside
    /// `[0.1, 1]` are rejected, leaving the record unchanged.
    pub fn set_delta(&mut self, delta: Fixed) -> (r: Result<(), ArgError>)
        ensures
            (100_000_000_000 <= delta.units() <= 1_000_000_000_000) ==> (r is Ok && *final(self)
                == (ArgSampleAdapt { delta, ..*old(self) })),
            !(100_000_000_000 <= delta.units() <= 1_000_000_000_000) ==> (r matches Err(e)
                && e matches ArgError::BadArgumentValue(m) && m@ == "Sample: set_delta expected delta in [0.1,1.0], found "@ + delta.spec_text() && *final(self) == *old(self)),
    {
        let lo = fx_exec(100_000_000_000);
        let hi = fx_exec(1_000_000_000_000);
        if !(lo.le(&delta) && delta.le(&hi)) {
            let mut m = String::from_str("Sample: set_delta expected delta in [0.1,1.0], found ");
            let t = delta.to_text();
            m.append(t.as_str());
            return Err(ArgError::BadArgumentValue(m));
        }
        self.delta = delta;
        Ok(())
    }

    /// Sets the relaxation exponent; values not strictly positive are
    /// rejected, leaving the record unchanged.
    pub fn set_kappa(&mut self, kappa: Fixed) -> (r: Result<(), ArgError>)
        ensures
            kappa.units() > 0 ==> (r is Ok && *final(self) == (ArgSampleAdapt {
                kappa,
                ..*old(self)
            })),
            kappa.units() <= 0 ==> (r matches Err(e) && e matches ArgError::BadArgumentValue(m) && m@ == "Sample: set_kappa expected kappa>0, found "@ + kappa.spec_text()
                && *final(self) == *old(self)),
    {
        if !kappa.is_positive() {
            let mut m = String::from_str("Sample: set_kappa expected kappa>0, found ");
            let t = kappa.to_text();
            m.append(t.as_str());
            return Err(ArgError::BadArgumentValue(m));
        }
        self.kappa = kappa;
        Ok(())
    }

    /// Sets the iteration offset; values not strictly positive are
    /// rejected, leaving the record unchanged.
    pub fn set_t0(&mut self, t0: Fixed) -> (r: Result<(), ArgError>)
        ensures
            t0.units() > 0 ==> (r is Ok && *final(self) == (ArgSampleAdapt { t0, ..*old(self) })),
            t0.units() <= 0 ==> (r matches Err(e) && e matches ArgError::BadArgumentValue(m) && m@ == "Sample: set_t0 expected t0>0, found "@ + t0.spec_text()
                && *final(self) == *old(self)),
    {
        if !t0.is_positive() {
            let mut m = String::from_str("Sample: set_t0 expected t0>0, found ");
            let t = t0.to_text();
            m.append(t.as_str());
            return Err(ArgError::BadArgumentValue(m));
        }
        self.t0 = t0;
        Ok(())
    }

    /// Sets the initial fast-interval width; zero is rejected, leaving
    /// the record unchanged.
    pub fn set_init_buffer(&mut self, init_buffer: u32) -> (r: Result<(), ArgError>)
        ensures
            init_buffer > 0 ==> (r is Ok && *final(self) == (ArgSampleAdapt {
                init_buffer,
                ..*old(self)
            })),
            init_buffer == 0 ==> (r matches Err(e) && e matches ArgError::BadArgumentValue(m) && m@ == "Sample: set_init_buffer expected init_buffer>0, found "@ + dec_nat(init_buffer as nat)
                && *final(self) == *old(self)),
    {
        if init_buffer == 0 {
            let mut m = String::from_str("Sample: set_init_buffer expected init_buffer>0, found ");
            crate::render::append_u64(&mut m, init_buffer as u64);
            return Err(ArgError::BadArgumentValue(m));
        }
        self.init_buffer = init_buffer;
        Ok(())
    }

    /// Sets the final fast-interval width; zero is rejected, leaving
    /// the record unchanged.
    pub fn set_term_buffer(&mut self, term_buffer: u32) -> (r: Result<(), ArgError>)
        ensures
            term_buffer > 0 ==> (r is Ok && *final(self) == (ArgSampleAdapt {
                term_buffer,
                ..*old(self)
            })),
            term_buffer == 0 ==> (r matches Err(e) && e matches ArgError::BadArgumentValue(m) && m@ == "Sample: set_term_buffer expected term_buffer>0, found "@ + dec_nat(term_buffer as nat)
                && *final(self) == *old(self)),
    {
        if term_buffer == 0 {
            let mut m = String::from_str("Sample: set_term_buffer expected term_buffer>0, found ");
            crate::render::append_u64(&mut m, term_buffer as u64);
            return Err(ArgError::BadArgumentValue(m));
        }
        self.term_buffer = term_buffer;
        Ok(())
    }

    /// Sets the initial slow-interval width; zero is rejected, leaving
    /// the record unchanged.
    pub fn set_window(&mut self, window: u32) -> (r: Result<(), ArgError>)
        ensures
            window > 0 ==> (r is Ok && *final(self) == (ArgSampleAdapt { window, ..*old(self) })),
            window == 0 ==> (r matches Err(e) && e matches ArgError::BadArgumentValue(m) && m@ == "Sample: set_window expected window>0, found "@ + dec_nat(window as nat)
                && *final(self) == *old(self)),
    {
        if window == 0 {
            let mut m = String::from_str("Sample: set_window expected window>0, found ");
            crate::render::append_u64(&mut m, window as u64);
            return Err(ArgError::BadArgumentValue(m));
        }
        self.window = window;
        Ok(())
    }

    /// Sets the save-metric flag.
    pub fn set_save_metric(&mut self, save_metric: bool)
        ensures
            *final(self) == (ArgSampleAdapt { save_metric, ..*old(self) }),
    {
        self.save_metric = save_metric;
    }
}

impl ArgThrough for ArgSample {
    open spec fn spec_arg_type(&self) -> Option<ArgType> {
        Some(ArgType::Sample)
    }

    open spec fn spec_tokens(&self) -> Seq<Seq<char>> {
        seq!["sample"@] + self.spec_field_tokens() + self.adapt.spec_group_tokens()
            + self.algorithm.spec_group_tokens()
    }

    open spec fn spec_side_files(&self) -> Seq<(Seq<char>, Seq<char>)> {
        Seq::<(Seq<char>, Seq<char>)>::empty()
    }

    open spec fn spec_output_path(&self) -> Option<Seq<char>> {
        None
    }

    fn arg_type(&self) -> (r: Result<ArgType, ArgError>) {
        Ok(ArgType::Sample)
    }

    fn arg_through(&self, sink: &mut ArgSink) -> (r: Result<(), ArgError>) {
        let ghost base = token_views(old(sink).tokens@);
        push_keyword(sink, "sample");
        self.emit_fields(sink);
        proof {
            lemma_concat_assoc(base, seq!["sample"@], self.spec_field_tokens());
        }
        self.adapt.emit(sink);
        proof {
            lemma_concat_assoc(
                base,
                seq!["sample"@] + self.spec_field_tokens(),
                self.adapt.spec_group_tokens(),
            );
        }
        self.algorithm.emit(sink);
        proof {
            lemma_concat_assoc(
                base,
                seq!["sample"@] + self.spec_field_tokens() + self.adapt.spec_group_tokens(),
                self.algorithm.spec_group_tokens(),
            );
        }
        Ok(())
    }

    fn get_output_path(&self) -> (r: Result<ArgPath, ArgError>) {
        Err(ArgError::NotValidArgTreeType(String::from_str(
            "no ArgOutput found in arg_tree; wrap the mode tree in WithCommonArgs or implement get_output_path",
        )))
    }
}

impl ArgSample {
    /// The tokens of the iteration-count fields, in declaration order.
    pub open spec fn spec_field_tokens(&self) -> Seq<Seq<char>> {
        tok_if(self.num_samples != 1000, kv("num_samples"@, dec_nat(self.num_samples as nat)))
            + tok_if(self.num_warmup != 1000, kv("num_warmup"@, dec_nat(self.num_warmup as nat)))
            + tok_if(self.save_warmup != false, kv("save_warmup"@, bool_str(self.save_warmup)))
            + tok_if(self.thin != 1, kv("thin"@, dec_nat(self.thin as nat))) + tok_if(
            self.num_chains != 1,
            kv("num_chains"@, dec_nat(self.num_chains as nat)),
        )
    }

    /// Emits the iteration-count fields.
    fn emit_fields(&self, sink: &mut ArgSink)
        ensures
            token_views(final(sink).tokens@) == token_views(old(sink).tokens@)
                + self.spec_field_tokens(),
            final(sink).side_files@ == old(sink).side_files@,
    {
        let ghost base = token_views(old(sink).tokens@);
        arg_if_not_default_u32(sink, "num_samples", self.num_samples, 1000);
        let ghost mut acc: Seq<Seq<char>> = tok_if(
            self.num_samples != 1000,
            kv("num_samples"@, dec_nat(self.num_samples as nat)),
        );
        arg_if_not_default_u32(sink, "num_warmup", self.num_warmup, 1000);
        proof {
            let d = tok_if(
                self.num_warmup != 1000,
                kv("num_warmup"@, dec_nat(self.num_warmup as nat)),
            );
            lemma_concat_assoc(base, acc, d);
            acc = acc + d;
        }
        arg_if_not_default_bool(sink, "save_warmup", self.save_warmup, false);
        proof {
            let d = tok_if(
                self.save_warmup != false,
                kv("save_warmup"@, bool_str(self.save_warmup)),
            );
            lemma_concat_assoc(base, acc, d);
            acc = acc + d;
        }
        arg_if_not_default_u32(sink, "thin", self.thin, 1);
        proof {
            let d = tok_if(self.thin != 1, kv("thin"@, dec_nat(self.thin as nat)));
            lemma_concat_assoc(base, acc, d);
            acc = acc + d;
        }
        arg_if_not_default_u32(sink, "num_chains", self.num_chains, 1);
        proof {
            let d = tok_if(
                self.num_chains != 1,
                kv("num_chains"@, dec_nat(self.num_chains as nat)),
            );
            lemma_concat_assoc(base, acc, d);
            acc = acc + d;
            assert(acc == self.spec_field_tokens());
        }
    }

    /// The all-default tree.
    pub fn new() -> (r: Self)
        ensures
            r.spec_is_default(),
    {
        Self::arg_default()
    }

    /// A default tree serializes to the bare mode keyword alone.
    pub proof fn lemma_default_tokens(&self)
        requires
            self.spec_is_default(),
        ensures
            self.spec_tokens() =~= seq!["sample"@],
    {
    }


    /// The round trip of the default-diffing rule: a field's token
    /// stands among the serialized field tokens exactly when that field
    /// differs from its default, so the set of overridden field names
    /// can be re-derived from the emitted tokens.
    pub proof fn lemma_roundtrip_field_tokens(t: ArgSample)
        ensures
            t.spec_field_tokens().contains(
                kv("num_samples"@, dec_nat(t.num_samples as nat)),
            ) <==> t.num_samples != 1000,
            t.spec_field_tokens().contains(
                kv("num_warmup"@, dec_nat(t.num_warmup as nat)),
            ) <==> t.num_warmup != 1000,
            t.spec_field_tokens().contains(kv("save_warmup"@, bool_str(t.save_warmup)))
                <==> t.save_warmup != false,
            t.spec_field_tokens().contains(kv("thin"@, dec_nat(t.thin as nat))) <==> t.thin != 1,
            t.spec_field_tokens().contains(kv("num_chains"@, dec_nat(t.num_chains as nat)))
                <==> t.num_chains != 1,
    {
        reveal_strlit("num_samples");
        reveal_strlit("num_warmup");
        reveal_strlit("save_warmup");
        reveal_strlit("thin");
        reveal_strlit("num_chains");
        let a = tok_if(t.num_samples != 1000, kv("num_samples"@, dec_nat(t.num_samples as nat)));
        let b = tok_if(t.num_warmup != 1000, kv("num_warmup"@, dec_nat(t.num_warmup as nat)));
        let c = tok_if(t.save_warmup != false, kv("save_warmup"@, bool_str(t.save_warmup)));
        let d = tok_if(t.thin != 1, kv("thin"@, dec_nat(t.thin as nat)));
        let e = tok_if(t.num_chains != 1, kv("num_chains"@, dec_nat(t.num_chains as nat)));
        // the five field names differ pairwise at some position, so no
        // field's token can be mistaken for another's
        let k1 = kv("num_samples"@, dec_nat(t.num_samples as nat));
        let k2 = kv("num_warmup"@, dec_nat(t.num_warmup as nat));
        let k3 = kv("save_warmup"@, bool_str(t.save_warmup));
        let k4 = kv("thin"@, dec_nat(t.thin as nat));
        let k5 = kv("num_chains"@, dec_nat(t.num_chains as nat));
        assert(k1 != k2) by {
            assert(k1[4] == 's' && k2[4] == 'w');
        }
        assert(k1 != k3) by {
            assert(k1[0] == 'n' && k3[0] == 's');
        }
        assert(k1 != k4) by {
            assert(k1[0] == 'n' && k4[0] == 't');
        }
        assert(k1 != k5) by {
            assert(k1[4] == 's' && k5[4] == 'c');
        }
        assert(k2 != k3) by {
            assert(k2[0] == 'n' && k3[0] == 's');
        }
        assert(k2 != k4) by {
            assert(k2[0] == 'n' && k4[0] == 't');
        }
        assert(k2 != k5) by {
            assert(k2[4] == 'w' && k5[4] == 'c');
        }
        assert(k3 != k4) by {
            assert(k3[0] == 's' && k4[0] == 't');
        }
        assert(k3 != k5) by {
            assert(k3[0] == 's' && k5[0] == 'n');
        }
        assert(k4 != k5) by {
            assert(k4[0] == 't' && k5[0] == 'n');
        }
        let toks = t.spec_field_tokens();
        lemma_contains_helper(a, b, c, d, e, k1);
        lemma_contains_tok_if(t.num_samples != 1000, kv("num_samples"@, dec_nat(t.num_samples as nat)), k1);
        lemma_contains_tok_if(t.num_warmup != 1000, kv("num_warmup"@, dec_nat(t.num_warmup as nat)), k1);
        lemma_contains_tok_if(t.save_warmup != false, kv("save_warmup"@, bool_str(t.save_warmup)), k1);
        lemma_contains_tok_if(t.thin != 1, kv("thin"@, dec_nat(t.thin as nat)), k1);
        lemma_contains_tok_if(t.num_chains != 1, kv("num_chains"@, dec_nat(t.num_chains as nat)), k1);
        lemma_contains_helper(a, b, c, d, e, k2);
        lemma_contains_tok_if(t.num_samples != 1000, kv("num_samples"@, dec_nat(t.num_samples as nat)), k2);
        lemma_contains_tok_if(t.num_warmup != 1000, kv("num_warmup"@, dec_nat(t.num_warmup as nat)), k2);
        lemma_contains_tok_if(t.save_warmup != false, kv("save_warmup"@, bool_str(t.save_warmup)), k2);
        lemma_contains_tok_if(t.thin != 1, kv("thin"@, dec_nat(t.thin as nat)), k2);
        lemma_contains_tok_if(t.num_chains != 1, kv("num_chains"@, dec_nat(t.num_chains as nat)), k2);
        lemma_contains_helper(a, b, c, d, e, k3);
        lemma_contains_tok_if(t.num_samples != 1000, kv("num_samples"@, dec_nat(t.num_samples as nat)), k3);
        lemma_contains_tok_if(t.num_warmup != 1000, kv("num_warmup"@, dec_nat(t.num_warmup as nat)), k3);
        lemma_contains_tok_if(t.save_warmup != false, kv("save_warmup"@, bool_str(t.save_warmup)), k3);
        lemma_contains_tok_if(t.thin != 1, kv("thin"@, dec_nat(t.thin as nat)), k3);
        lemma_contains_tok_if(t.num_chains != 1, kv("num_chains"@, dec_nat(t.num_chains as nat)), k3);
        lemma_contains_helper(a, b, c, d, e, k4);
        lemma_contains_tok_if(t.num_samples != 1000, kv("num_samples"@, dec_nat(t.num_samples as nat)), k4);
        lemma_contains_tok_if(t.num_warmup != 1000, kv("num_warmup"@, dec_nat(t.num_warmup as nat)), k4);
        lemma_contains_tok_if(t.save_warmup != false, kv("save_warmup"@, bool_str(t.save_warmup)), k4);
        lemma_contains_tok_if(t.thin != 1, kv("thin"@, dec_nat(t.thin as nat)), k4);
        lemma_contains_tok_if(t.num_chains != 1, kv("num_chains"@, dec_nat(t.num_chains as nat)), k4);
        lemma_contains_helper(a, b, c, d, e, k5);
        lemma_contains_tok_if(t.num_samples != 1000, kv("num_samples"@, dec_nat(t.num_samples as nat)), k5);
        lemma_contains_tok_if(t.num_warmup != 1000, kv("num_warmup"@, dec_nat(t.num_warmup as nat)), k5);
        lemma_contains_tok_if(t.save_warmup != false, kv("save_warmup"@, bool_str(t.save_warmup)), k5);
        lemma_contains_tok_if(t.thin != 1, kv("thin"@, dec_nat(t.thin as nat)), k5);
        lemma_contains_tok_if(t.num_chains != 1, kv("num_chains"@, dec_nat(t.num_chains as nat)), k5);
    }

    /// Sets the number of sampling iterations; zero is rejected,
    /// leaving the tree unchanged.
    pub fn set_num_samples(&mut self, num_samples: u32) -> (r: Result<(), ArgError>)
        ensures
            num_samples > 0 ==> (r is Ok && *final(self) == (ArgSample {
                num_samples,
                ..*old(self)
            })),
            num_samples == 0 ==> (r matches Err(e) && e matches ArgError::BadArgumentValue(m) && m@ == "Sample: num_samples could not be 0"@
                && *final(self) == *old(self)),
    {
        if num_samples == 0 {
            return Err(
                ArgError::BadArgumentValue(String::from_str("Sample: num_samples could not be 0")),
            );
        }
        self.num_samples = num_samples;
        Ok(())
    }

    /// Sets the number of warmup iterations; zero is rejected, leaving
    /// the tree unchanged.
    pub fn set_num_warmup(&mut self, num_warmup: u32) -> (r: Result<(), ArgError>)
        ensures
            num_warmup > 0 ==> (r is Ok && *final(self) == (ArgSample {
                num_warmup,
                ..*old(self)
            })),
            num_warmup == 0 ==> (r matches Err(e) && e matches ArgError::BadArgumentValue(m) && m@ == "Sample: num_warmup could not be 0"@
                && *final(self) == *old(self)),
    {
        if num_warmup == 0 {
            return Err(
                ArgError::BadArgumentValue(String::from_str("Sample: num_warmup could not be 0")),
            );
        }
        self.num_warmup = num_warmup;
        Ok(())
    }

    /// Sets the warmup-streaming flag.
    pub fn set_save_warmup(&mut self, save_warmup: bool)
        ensures
            *final(self) == (ArgSample { save_warmup, ..*old(self) }),
    {
        self.save_warmup = save_warmup;
    }

    /// Sets the thinning period; zero is rejected, leaving the tree
    /// unchanged.
    pub fn set_thin(&mut self, thin: u32) -> (r: Result<(), ArgError>)
        ensures
            thin > 0 ==> (r is Ok && *final(self) == (ArgSample { thin, ..*old(self) })),
            thin == 0 ==> (r matches Err(e) && e matches ArgError::BadArgumentValue(m) && m@ == "Sample: period between saved samples could not be 0"@
                && *final(self) == *old(self)),
    {
        if thin == 0 {
            return Err(
                ArgError::BadArgumentValue(
                    String::from_str("Sample: period between saved samples could not be 0"),
                ),
            );
        }
        self.thin = thin;
        Ok(())
    }

    /// Sets the warmup adaptation.
    pub fn set_adapt(&mut self, adapt: ArgSampleAdapt)
        ensures
            *final(self) == (ArgSample { adapt, ..*old(self) }),
    {
        self.adapt = adapt;
    }

    /// Sets the algorithm choice.
    pub fn set_algorithm(&mut self, algorithm: ArgSampleAlgorithm)
        ensures
            *final(self) == (ArgSample { algorithm, ..*old(self) }),
    {
        self.algorithm = algorithm;
    }

    /// Sets the number of chains; zero is rejected, leaving the tree
    /// unchanged.
    pub fn set_num_chains(&mut self, num_chains: u32) -> (r: Result<(), ArgError>)
        ensures
            num_chains > 0 ==> (r is Ok && *final(self) == (ArgSample {
                num_chains,
                ..*old(self)
            })),
            num_chains == 0 ==> (r matches Err(e) && e matches ArgError::BadArgumentValue(m) && m@ == "Sample: num of chains could not be 0"@
                && *final(self) == *old(self)),
    {
        if num_chains == 0 {
            return Err(
                ArgError::BadArgumentValue(String::from_str("Sample: num of chains could not be 0")),
            );
        }
        self.num_chains = num_chains;
        Ok(())
    }

    /// Consuming form of `set_num_samples`.
    pub fn with_num_samples(self, num_samples: u32) -> (r: Result<Self, ArgError>)
        ensures
            num_samples > 0 ==> (r matches Ok(t) && t == (ArgSample { num_samples, ..self })),
            num_samples == 0 ==> (r matches Err(e) && e matches ArgError::BadArgumentValue(m) && m@ == "Sample: num_samples could not be 0"@),
    {
        let mut t = self;
        match t.set_num_samples(num_samples) {
            Ok(()) => Ok(t),
            Err(e) => Err(e),
        }
    }

    /// Consuming form of `set_num_warmup`.
    pub fn with_num_warmup(self, num_warmup: u32) -> (r: Result<Self, ArgError>)
        ensures
            num_warmup > 0 ==> (r matches Ok(t) && t == (ArgSample { num_warmup, ..self })),
            num_warmup == 0 ==> (r matches Err(e) && e matches ArgError::BadArgumentValue(m) && m@ == "Sample: num_warmup could not be 0"@),
    {
        let mut t = self;
        match t.set_num_warmup(num_warmup) {
            Ok(()) => Ok(t),
            Err(e) => Err(e),
        }
    }

    /// Consuming form of `set_save_warmup`.
    pub fn with_save_warmup(self, save_warmup: bool) -> (r: Self)
        ensures
            r == (ArgSample { save_warmup, ..self }),
    {
        ArgSample { save_warmup, ..self }
    }

    /// Consuming form of `set_thin`.
    pub fn with_thin(self, thin: u32) -> (r: Result<Self, ArgError>)
        ensures
            thin > 0 ==> (r matches Ok(t) && t == (ArgSample { thin, ..self })),
            thin == 0 ==> (r matches Err(e) && e matches ArgError::BadArgumentValue(m) && m@ == "Sample: period between saved samples could not be 0"@),
    {
        let mut t = self;
        match t.set_thin(thin) {
            Ok(()) => Ok(t),
            Err(e) => Err(e),
        }
    }

    /// Consuming form of `set_adapt`.
    pub fn with_adapt(self, adapt: ArgSampleAdapt) -> (r: Self)
        ensures
            r == (ArgSample { adapt, ..self }),
    {
        ArgSample { adapt, ..self }
    }

    /// Consuming form of `set_algorithm`.
    pub fn with_algorithm(self, algorithm: ArgSampleAlgorithm) -> (r: Self)
        ensures
            r == (ArgSample { algorithm, ..self }),
    {
        ArgSample { algorithm, ..self }
    }

    /// Consuming form of `set_num_chains`.
    pub fn with_num_chains(self, num_chains: u32) -> (r: Result<Self, ArgError>)
        ensures
            num_chains > 0 ==> (r matches Ok(t) && t == (ArgSample { num_chains, ..self })),
            num_chains == 0 ==> (r matches Err(e) && e matches ArgError::BadArgumentValue(m) && m@ == "Sample: num of chains could not be 0"@),
    {
        let mut t = self;
        match t.set_num_chains(num_chains) {
            Ok(()) => Ok(t),
            Err(e) => Err(e),
        }
    }
}


/// The token forms the engine choice can emit, and when.
pub open spec fn engine_token_shape(e: ArgSampleEngine, x: Seq<char>) -> bool {
    match e {
        ArgSampleEngine::Static(v) => x == "engine=static"@ || (v != fx(6_283_190_000_000) && x
            == kv("int_time"@, v.spec_text())),
        ArgSampleEngine::Nuts(d) => d != 10 && (x == "engine=nuts"@ || x == kv(
            "max_depth"@,
            dec_nat(d as nat),
        )),
    }
}

/// The token forms the metric choice can emit, and when.
pub open spec fn metric_token_shape(m: ArgSampleMetric, x: Seq<char>) -> bool {
    match m {
        ArgSampleMetric::UnitE => x == "metric=unit_e"@,
        ArgSampleMetric::DiagE => false,
        ArgSampleMetric::DenseE => x == "metric=dense_e"@,
    }
}

/// The token forms the HMC options can emit, and when.
pub open spec fn hmc_token_shape(h: ArgSampleHmc, x: Seq<char>) -> bool {
    ||| engine_token_shape(h.engine, x)
    ||| metric_token_shape(h.metric, x)
    ||| (!h.metric_file.spec_is_default() && x == kv("metric_file"@, h.metric_file.spec_text()))
    ||| (h.stepsize != fx(1_000_000_000_000) && x == kv("stepsize"@, h.stepsize.spec_text()))
    ||| (h.stepsize_jitter != fx(0) && x == kv("stepsize_jitter"@, h.stepsize_jitter.spec_text()))
}

/// The token forms the algorithm choice can emit, and when.
pub open spec fn algorithm_token_shape(alg: ArgSampleAlgorithm, x: Seq<char>) -> bool {
    !alg.spec_is_default() && match alg {
        ArgSampleAlgorithm::FixedParam => x == "algorithm=fixed_param"@,
        ArgSampleAlgorithm::Hmc(h) => x == "algorithm=hmc"@ || hmc_token_shape(h, x),
    }
}

/// Exactly which tokens the engine choice can hold, and when.
proof fn lemma_engine_token_shapes(e: ArgSampleEngine)
    ensures
        forall|x: Seq<char>|
            #![trigger e.spec_group_tokens().contains(x)]
            e.spec_group_tokens().contains(x) <==> engine_token_shape(e, x),
{
    match e {
        ArgSampleEngine::Static(v) => {
            let d = tok_if(v != fx(6_283_190_000_000), kv("int_time"@, v.spec_text()));
            assert forall|x: Seq<char>|
                e.spec_group_tokens().contains(x) <==> engine_token_shape(e, x) by {
                lemma_contains_concat(seq!["engine=static"@], d, x);
                lemma_contains_single("engine=static"@, x);
                lemma_contains_tok_if(
                    v != fx(6_283_190_000_000),
                    kv("int_time"@, v.spec_text()),
                    x,
                );
            }
        },
        ArgSampleEngine::Nuts(dep) => {
            assert forall|x: Seq<char>|
                e.spec_group_tokens().contains(x) <==> engine_token_shape(e, x) by {
                if dep != 10 {
                    if e.spec_group_tokens().contains(x) {
                        let i = choose|i: int|
                            0 <= i < e.spec_group_tokens().len() && e.spec_group_tokens()[i] == x;
                        assert(i == 0 || i == 1);
                    }
                    if x == "engine=nuts"@ {
                        assert(e.spec_group_tokens()[0] == x);
                    }
                    if x == kv("max_depth"@, dec_nat(dep as nat)) {
                        assert(e.spec_group_tokens()[1] == x);
                    }
                }
            }
        },
    }
}

/// Exactly which tokens the metric choice can hold, and when.
proof fn lemma_metric_token_shapes(m: ArgSampleMetric)
    ensures
        forall|x: Seq<char>|
            #![trigger m.spec_group_tokens().contains(x)]
            m.spec_group_tokens().contains(x) <==> metric_token_shape(m, x),
{
    assert forall|x: Seq<char>|
        m.spec_group_tokens().contains(x) <==> metric_token_shape(m, x) by {
        match m {
            ArgSampleMetric::UnitE => {
                lemma_contains_single("metric=unit_e"@, x);
            },
            ArgSampleMetric::DiagE => {},
            ArgSampleMetric::DenseE => {
                lemma_contains_single("metric=dense_e"@, x);
            },
        }
    }
}

/// Exactly which tokens the HMC options can hold, and when.
proof fn lemma_hmc_token_shapes(h: ArgSampleHmc)
    ensures
        forall|x: Seq<char>|
            #![trigger h.spec_group_tokens().contains(x)]
            h.spec_group_tokens().contains(x) <==> hmc_token_shape(h, x),
{
    lemma_engine_token_shapes(h.engine);
    lemma_metric_token_shapes(h.metric);
    let e = h.engine.spec_group_tokens();
    let m = h.metric.spec_group_tokens();
    let f1 = tok_if(
        !h.metric_file.spec_is_default(),
        kv("metric_file"@, h.metric_file.spec_text()),
    );
    let f2 = tok_if(h.stepsize != fx(1_000_000_000_000), kv("stepsize"@, h.stepsize.spec_text()));
    let f3 = tok_if(
        h.stepsize_jitter != fx(0),
        kv("stepsize_jitter"@, h.stepsize_jitter.spec_text()),
    );
    assert forall|x: Seq<char>|
        h.spec_group_tokens().contains(x) <==> hmc_token_shape(h, x) by {
        lemma_contains_concat(e + m + f1 + f2, f3, x);
        lemma_contains_concat(e + m + f1, f2, x);
        lemma_contains_concat(e + m, f1, x);
        lemma_contains_concat(e, m, x);
        lemma_contains_tok_if(
            !h.metric_file.spec_is_default(),
            kv("metric_file"@, h.metric_file.spec_text()),
            x,
        );
        lemma_contains_tok_if(
            h.stepsize != fx(1_000_000_000_000),
            kv("stepsize"@, h.stepsize.spec_text()),
            x,
        );
        lemma_contains_tok_if(
            h.stepsize_jitter != fx(0),
            kv("stepsize_jitter"@, h.stepsize_jitter.spec_text()),
            x,
        );
    }
}

/// Exactly which tokens the algorithm choice can hold, and when.
proof fn lemma_algorithm_token_shapes(alg: ArgSampleAlgorithm)
    ensures
        forall|x: Seq<char>|
            #![trigger alg.spec_group_tokens().contains(x)]
            alg.spec_group_tokens().contains(x) <==> algorithm_token_shape(alg, x),
{
    if alg.spec_is_default() {
        assert forall|x: Seq<char>| !alg.spec_group_tokens().contains(x) by {}
    } else {
        match alg {
            ArgSampleAlgorithm::FixedParam => {
                assert forall|x: Seq<char>|
                    alg.spec_group_tokens().contains(x) <==> algorithm_token_shape(alg, x) by {
                    lemma_contains_single("algorithm=fixed_param"@, x);
                }
            },
            ArgSampleAlgorithm::Hmc(h) => {
                lemma_hmc_token_shapes(h);
                assert forall|x: Seq<char>|
                    alg.spec_group_tokens().contains(x) <==> algorithm_token_shape(alg, x) by {
                    lemma_contains_concat(seq!["algorithm=hmc"@], h.spec_group_tokens(), x);
                    lemma_contains_single("algorithm=hmc"@, x);
                }
            },
        }
    }
}

/// The token forms a whole sampling tree can emit, and when: the mode
/// keyword always; each flat field's token exactly when that field is
/// overridden; the adaptation group's keyword and fields per the
/// default-diffing rule; and the algorithm group's discriminants and
/// nested engine, metric, and step options likewise.
pub open spec fn sample_token_shape(t: ArgSample, x: Seq<char>) -> bool {
    ||| x == "sample"@
    ||| (t.num_samples != 1000 && x == kv("num_samples"@, dec_nat(t.num_samples as nat)))
    ||| (t.num_warmup != 1000 && x == kv("num_warmup"@, dec_nat(t.num_warmup as nat)))
    ||| (t.save_warmup != false && x == kv("save_warmup"@, bool_str(t.save_warmup)))
    ||| (t.thin != 1 && x == kv("thin"@, dec_nat(t.thin as nat)))
    ||| (t.num_chains != 1 && x == kv("num_chains"@, dec_nat(t.num_chains as nat)))
    ||| adapt_token_shape(t.adapt, x)
    ||| algorithm_token_shape(t.algorithm, x)
}

impl ArgSample {
    /// The round trip of the default-diffing rule over the whole
    /// sampling tree, every nested leaf included: a token stands in the
    /// serialized output exactly when [`sample_token_shape`] admits it,
    /// so the set of overridden fields (and chosen variant arms) can be
    /// re-derived from the emitted tokens.
    pub proof fn lemma_roundtrip_tokens(t: ArgSample)
        ensures
            forall|x: Seq<char>|
                #![trigger t.spec_tokens().contains(x)]
                t.spec_tokens().contains(x) <==> sample_token_shape(t, x),
    {
        lemma_adapt_token_shapes(t.adapt);
        lemma_algorithm_token_shapes(t.algorithm);
        let b = tok_if(t.num_samples != 1000, kv("num_samples"@, dec_nat(t.num_samples as nat)));
        let c = tok_if(t.num_warmup != 1000, kv("num_warmup"@, dec_nat(t.num_warmup as nat)));
        let d = tok_if(t.save_warmup != false, kv("save_warmup"@, bool_str(t.save_warmup)));
        let e = tok_if(t.thin != 1, kv("thin"@, dec_nat(t.thin as nat)));
        let f = tok_if(t.num_chains != 1, kv("num_chains"@, dec_nat(t.num_chains as nat)));
        assert forall|x: Seq<char>|
            t.spec_tokens().contains(x) <==> sample_token_shape(t, x) by {
            lemma_contains_concat(
                seq!["sample"@] + t.spec_field_tokens() + t.adapt.spec_group_tokens(),
                t.algorithm.spec_group_tokens(),
                x,
            );
            lemma_contains_concat(
                seq!["sample"@] + t.spec_field_tokens(),
                t.adapt.spec_group_tokens(),
                x,
            );
            lemma_contains_concat(seq!["sample"@], t.spec_field_tokens(), x);
            lemma_contains_single("sample"@, x);
            lemma_contains_concat(b + c + d + e, f, x);
            lemma_contains_concat(b + c + d, e, x);
            lemma_contains_concat(b + c, d, x);
            lemma_contains_concat(b, c, x);
            lemma_contains_tok_if(
                t.num_samples != 1000,
                kv("num_samples"@, dec_nat(t.num_samples as nat)),
                x,
            );
            lemma_contains_tok_if(
                t.num_warmup != 1000,
                kv("num_warmup"@, dec_nat(t.num_warmup as nat)),
                x,
            );
            lemma_contains_tok_if(
                t.save_warmup != false,
                kv("save_warmup"@, bool_str(t.save_warmup)),
                x,
            );
            lemma_contains_tok_if(t.thin != 1, kv("thin"@, dec_nat(t.thin as nat)), x);
            lemma_contains_tok_if(
                t.num_chains != 1,
                kv("num_chains"@, dec_nat(t.num_chains as nat)),
                x,
            );
        }
    }
}

/// Membership in the five-part field-token concatenation is membership
/// in one of the parts.
proof fn lemma_contains_helper(
    a: Seq<Seq<char>>,
    b: Seq<Seq<char>>,
    c: Seq<Seq<char>>,
    d: Seq<Seq<char>>,
    e: Seq<Seq<char>>,
    x: Seq<char>,
)
    ensures
        (a + b + c + d + e).contains(x) <==> (a.contains(x) || b.contains(x) || c.contains(x)
            || d.contains(x) || e.contains(x)),
{
    lemma_contains_concat(a + b + c + d, e, x);
    lemma_contains_concat(a + b + c, d, x);
    lemma_contains_concat(a + b, c, x);
    lemma_contains_concat(a, b, x);
}


/// The token forms the adaptation group can emit, and when.
pub open spec fn adapt_token_shape(a: ArgSampleAdapt, x: Seq<char>) -> bool {
    ||| (!a.spec_is_default() && x == "adapt"@)
    ||| (a.engaged != true && x == kv("engaged"@, bool_str(a.engaged)))
    ||| (a.gamma != fx(50_000_000_000) && x == kv("gamma"@, a.gamma.spec_text()))
    ||| (a.delta != fx(800_000_000_000) && x == kv("delta"@, a.delta.spec_text()))
    ||| (a.kappa != fx(750_000_000_000) && x == kv("kappa"@, a.kappa.spec_text()))
    ||| (a.t0 != fx(10_000_000_000_000) && x == kv("t0"@, a.t0.spec_text()))
    ||| (a.init_buffer != 75 && x == kv("init_buffer"@, dec_nat(a.init_buffer as nat)))
    ||| (a.term_buffer != 50 && x == kv("term_buffer"@, dec_nat(a.term_buffer as nat)))
    ||| (a.window != 25 && x == kv("window"@, dec_nat(a.window as nat)))
    ||| (a.save_metric != false && x == kv("save_metric"@, bool_str(a.save_metric)))
}

/// Exactly which tokens the adaptation group can hold, and when.
proof fn lemma_adapt_token_shapes(t: ArgSampleAdapt)
    ensures
        forall|x: Seq<char>|
            #![trigger t.spec_group_tokens().contains(x)]
            t.spec_group_tokens().contains(x) <==> adapt_token_shape(t, x),
{
    if t.spec_is_default() {
        assert forall|x: Seq<char>| !t.spec_group_tokens().contains(x) by {}
    } else {
        let b = tok_if(t.engaged != true, kv("engaged"@, bool_str(t.engaged)));
        let c = tok_if(t.gamma != fx(50_000_000_000), kv("gamma"@, t.gamma.spec_text()));
        let d = tok_if(t.delta != fx(800_000_000_000), kv("delta"@, t.delta.spec_text()));
        let e = tok_if(t.kappa != fx(750_000_000_000), kv("kappa"@, t.kappa.spec_text()));
        let f = tok_if(t.t0 != fx(10_000_000_000_000), kv("t0"@, t.t0.spec_text()));
        let g = tok_if(t.init_buffer != 75, kv("init_buffer"@, dec_nat(t.init_buffer as nat)));
        let h = tok_if(t.term_buffer != 50, kv("term_buffer"@, dec_nat(t.term_buffer as nat)));
        let i = tok_if(t.window != 25, kv("window"@, dec_nat(t.window as nat)));
        let j = tok_if(t.save_metric != false, kv("save_metric"@, bool_str(t.save_metric)));
        assert forall|x: Seq<char>|
            t.spec_group_tokens().contains(x) <==> ((!t.spec_is_default() && x == "adapt"@)
                    || (t.engaged != true && x == kv("engaged"@, bool_str(t.engaged)))
                    || (t.gamma != fx(50_000_000_000) && x == kv("gamma"@, t.gamma.spec_text()))
                    || (t.delta != fx(800_000_000_000) && x == kv("delta"@, t.delta.spec_text()))
                    || (t.kappa != fx(750_000_000_000) && x == kv("kappa"@, t.kappa.spec_text()))
                    || (t.t0 != fx(10_000_000_000_000) && x == kv("t0"@, t.t0.spec_text()))
                    || (t.init_buffer != 75 && x == kv("init_buffer"@, dec_nat(t.init_buffer as nat)))
                    || (t.term_buffer != 50 && x == kv("term_buffer"@, dec_nat(t.term_buffer as nat)))
                    || (t.window != 25 && x == kv("window"@, dec_nat(t.window as nat)))
                    || (t.save_metric != false && x == kv("save_metric"@, bool_str(t.save_metric)))) by {
            lemma_contains_concat(seq!["adapt"@] + t.spec_fields_a(), t.spec_fields_b(), x);
            lemma_contains_concat(seq!["adapt"@], t.spec_fields_a(), x);
            lemma_contains_single("adapt"@, x);
            lemma_contains_concat(b + c + d + e, f, x);
            lemma_contains_concat(b + c + d, e, x);
            lemma_contains_concat(b + c, d, x);
            lemma_contains_concat(b, c, x);
            lemma_contains_concat(g + h + i, j, x);
            lemma_contains_concat(g + h, i, x);
            lemma_contains_concat(g, h, x);
            lemma_contains_tok_if(t.engaged != true, kv("engaged"@, bool_str(t.engaged)), x);
            lemma_contains_tok_if(t.gamma != fx(50_000_000_000), kv("gamma"@, t.gamma.spec_text()), x);
            lemma_contains_tok_if(t.delta != fx(800_000_000_000), kv("delta"@, t.delta.spec_text()), x);
            lemma_contains_tok_if(t.kappa != fx(750_000_000_000), kv("kappa"@, t.kappa.spec_text()), x);
            lemma_contains_tok_if(t.t0 != fx(10_000_000_000_000), kv("t0"@, t.t0.spec_text()), x);
            lemma_contains_tok_if(t.init_buffer != 75, kv("init_buffer"@, dec_nat(t.init_buffer as nat)), x);
            lemma_contains_tok_if(t.term_buffer != 50, kv("term_buffer"@, dec_nat(t.term_buffer as nat)), x);
            lemma_contains_tok_if(t.window != 25, kv("window"@, dec_nat(t.window as nat)), x);
            lemma_contains_tok_if(t.save_metric != false, kv("save_metric"@, bool_str(t.save_metric)), x);
        }
    }
}



} // verus!
