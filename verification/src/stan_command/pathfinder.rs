//! The pathfinder mode: variational inference via L-BFGS trajectories.

use vstd::prelude::*;

use crate::arg_paths::ArgPath;
use crate::fixed::{fx, fx_exec, Fixed};
use crate::render::{bool_str, dec_nat};
use crate::stan_command::arg_tree::{
    lemma_concat_assoc,
    arg_if_not_default_bool, arg_if_not_default_fixed, arg_if_not_default_u32, kv, push_keyword,
    tok_if,
};
use crate::stan_command::{token_views, ArgError, ArgSink, ArgThrough, ArgType, WithDefaultArg};

verus! {

/// Pathfinder algorithm.
#[derive(Debug, Clone, PartialEq, Eq, Structural)]
pub struct ArgPathfinder {
    /// Line search step size for first iteration.  Default: `0.001`.
    pub init_alpha: Fixed,
    /// Convergence tolerance on absolute changes in objective function
    /// value.  Default: `1e-12`.
    pub tol_obj: Fixed,
    /// Convergence tolerance on relative changes in objective function
    /// value.  Default: `10000`.
    pub tol_rel_obj: Fixed,
    /// Convergence tolerance on the norm of the gradient.
    /// Default: `1e-8`.
    pub tol_grad: Fixed,
    /// Convergence tolerance on the relative norm of the gradient.
    /// Default: `1e7`.
    pub tol_rel_grad: Fixed,
    /// Convergence tolerance on changes in parameter value.
    /// Default: `1e-8`.
    pub tol_param: Fixed,
    /// Amount of history to keep for L-BFGS.  Default: `5`.
    pub history_size: u32,
    /// Number of draws from the PSIS sample.  Default: `1000`.
    pub num_psis_draws: u32,
    /// Number of single pathfinders.  Default: `4`.
    pub num_paths: u32,
    /// Output single-path pathfinder draws as CSV.  Default: `false`.
    pub save_single_paths: bool,
    /// If true, perform PSIS resampling on the samples returned from
    /// individual pathfinders.  Default: `true`.
    pub psis_resample: bool,
    /// If true, individual pathfinders' log-probability values are
    /// calculated and returned with the output.  Default: `true`.
    pub calculate_lp: bool,
    /// Maximum number of L-BFGS iterations.  Default: `1000`.
    pub max_lbfgs_iters: u32,
    /// Number of approximate posterior draws.  Default: `1000`.
    pub num_draws: u32,
    /// Number of Monte Carlo draws to evaluate the ELBO.  Default: `25`.
    pub num_elbo_draws: u32,
}

impl WithDefaultArg for ArgPathfinder {
    open spec fn spec_is_default(&self) -> bool {
        &&& self.init_alpha == fx(1_000_000_000)
        &&& self.tol_obj == fx(1)
        &&& self.tol_rel_obj == fx(10_000_000_000_000_000)
        &&& self.tol_grad == fx(10_000)
        &&& self.tol_rel_grad == fx(10_000_000_000_000_000_000)
        &&& self.tol_param == fx(10_000)
        &&& self.history_size == 5
        &&& self.num_psis_draws == 1000
        &&& self.num_paths == 4
        &&& self.save_single_paths == false
        &&& self.psis_resample == true
        &&& self.calculate_lp == true
        &&& self.max_lbfgs_iters == 1000
        &&& self.num_draws == 1000
        &&& self.num_elbo_draws == 25
    }

    fn arg_default() -> (r: Self) {
        ArgPathfinder {
            init_alpha: fx_exec(1_000_000_000),
            tol_obj: fx_exec(1),
            tol_rel_obj: fx_exec(10_000_000_000_000_000),
            tol_grad: fx_exec(10_000),
            tol_rel_grad: fx_exec(10_000_000_000_000_000_000),
            tol_param: fx_exec(10_000),
            history_size: 5,
            num_psis_draws: 1000,
            num_paths: 4,
            save_single_paths: false,
            psis_resample: true,
            calculate_lp: true,
            max_lbfgs_iters: 1000,
            num_draws: 1000,
            num_elbo_draws: 25,
        }
    }

    fn is_default(&self) -> (r: bool) {
        self.init_alpha == fx_exec(1_000_000_000) && self.tol_obj == fx_exec(1)
            && self.tol_rel_obj == fx_exec(10_000_000_000_000_000) && self.tol_grad == fx_exec(
            10_000,
        ) && self.tol_rel_grad == fx_exec(10_000_000_000_000_000_000) && self.tol_param == fx_exec(
            10_000,
        ) && self.history_size == 5 && self.num_psis_draws == 1000 && self.num_paths == 4
            && self.save_single_paths == false && self.psis_resample == true && self.calculate_lp
            == true && self.max_lbfgs_iters == 1000 && self.num_draws == 1000
            && self.num_elbo_draws == 25
    }
}

impl ArgThrough for ArgPathfinder {
    open spec fn spec_arg_type(&self) -> Option<ArgType> {
        Some(ArgType::Pathfinder)
    }

    open spec fn spec_tokens(&self) -> Seq<Seq<char>> {
        seq!["pathfinder"@] + self.spec_tokens_head() + self.spec_tokens_tail()
    }

    open spec fn spec_side_files(&self) -> Seq<(Seq<char>, Seq<char>)> {
        Seq::<(Seq<char>, Seq<char>)>::empty()
    }

    open spec fn spec_output_path(&self) -> Option<Seq<char>> {
        None
    }

    fn arg_type(&self) -> (r: Result<ArgType, ArgError>) {
        Ok(ArgType::Pathfinder)
    }

    fn arg_through(&self, sink: &mut ArgSink) -> (r: Result<(), ArgError>) {
        let ghost base = token_views(old(sink).tokens@);
        push_keyword(sink, "pathfinder");
        self.emit_tolerances(sink);
        proof {
            lemma_concat_assoc(base, seq!["pathfinder"@], self.spec_tokens_head());
        }
        self.emit_draw_counts(sink);
        proof {
            lemma_concat_assoc(
                base,
                seq!["pathfinder"@] + self.spec_tokens_head(),
                self.spec_tokens_tail(),
            );
        }
        Ok(())
    }

    fn get_output_path(&self) -> (r: Result<ArgPath, ArgError>) {
        Err(ArgError::NotValidArgTreeType(String::from_str(
            "no ArgOutput found in arg_tree; wrap the mode tree in WithCommonArgs or implement get_output_path",
        )))
    }
}

impl ArgPathfinder {
    /// The tokens of the line-search and tolerance options.
    pub open spec fn spec_tokens_head(&self) -> Seq<Seq<char>> {
        tok_if(
            self.init_alpha != fx(1_000_000_000),
            kv("init_alpha"@, self.init_alpha.spec_text()),
        ) + tok_if(self.tol_obj != fx(1), kv("tol_obj"@, self.tol_obj.spec_text())) + tok_if(
            self.tol_rel_obj != fx(10_000_000_000_000_000),
            kv("tol_rel_obj"@, self.tol_rel_obj.spec_text()),
        ) + tok_if(self.tol_grad != fx(10_000), kv("tol_grad"@, self.tol_grad.spec_text()))
            + tok_if(
            self.tol_rel_grad != fx(10_000_000_000_000_000_000),
            kv("tol_rel_grad"@, self.tol_rel_grad.spec_text()),
        ) + tok_if(self.tol_param != fx(10_000), kv("tol_param"@, self.tol_param.spec_text()))
            + tok_if(self.history_size != 5, kv("history_size"@, dec_nat(self.history_size as nat)))
    }

    /// The tokens of the draw-count and resampling options.
    pub open spec fn spec_tokens_tail(&self) -> Seq<Seq<char>> {
        tok_if(
            self.num_psis_draws != 1000,
            kv("num_psis_draws"@, dec_nat(self.num_psis_draws as nat)),
        ) + tok_if(self.num_paths != 4, kv("num_paths"@, dec_nat(self.num_paths as nat))) + tok_if(
            self.save_single_paths != false,
            kv("save_single_paths"@, bool_str(self.save_single_paths)),
        ) + tok_if(
            self.psis_resample != true,
            kv("psis_resample"@, bool_str(self.psis_resample)),
        ) + tok_if(self.calculate_lp != true, kv("calculate_lp"@, bool_str(self.calculate_lp)))
            + tok_if(
            self.max_lbfgs_iters != 1000,
            kv("max_lbfgs_iters"@, dec_nat(self.max_lbfgs_iters as nat)),
        ) + tok_if(self.num_draws != 1000, kv("num_draws"@, dec_nat(self.num_draws as nat)))
            + tok_if(
            self.num_elbo_draws != 25,
            kv("num_elbo_draws"@, dec_nat(self.num_elbo_draws as nat)),
        )
    }

    /// Emits the line-search and tolerance tokens.
    fn emit_tolerances(&self, sink: &mut ArgSink)
        ensures
            token_views(final(sink).tokens@) == token_views(old(sink).tokens@)
                + self.spec_tokens_head(),
            final(sink).side_files@ == old(sink).side_files@,
    {
        let ghost base = token_views(old(sink).tokens@);
        arg_if_not_default_fixed(sink, "init_alpha", self.init_alpha, fx_exec(1_000_000_000));
        let ghost mut acc: Seq<Seq<char>> = tok_if(
            self.init_alpha != fx(1_000_000_000),
            kv("init_alpha"@, self.init_alpha.spec_text()),
        );
        arg_if_not_default_fixed(sink, "tol_obj", self.tol_obj, fx_exec(1));
        proof {
            let d = tok_if(self.tol_obj != fx(1), kv("tol_obj"@, self.tol_obj.spec_text()));
            lemma_concat_assoc(base, acc, d);
            acc = acc + d;
        }
        arg_if_not_default_fixed(
            sink,
            "tol_rel_obj",
            self.tol_rel_obj,
            fx_exec(10_000_000_000_000_000),
        );
        proof {
            let d = tok_if(
                self.tol_rel_obj != fx(10_000_000_000_000_000),
                kv("tol_rel_obj"@, self.tol_rel_obj.spec_text()),
            );
            lemma_concat_assoc(base, acc, d);
            acc = acc + d;
        }
        arg_if_not_default_fixed(sink, "tol_grad", self.tol_grad, fx_exec(10_000));
        proof {
            let d = tok_if(self.tol_grad != fx(10_000), kv("tol_grad"@, self.tol_grad.spec_text()));
            lemma_concat_assoc(base, acc, d);
            acc = acc + d;
        }
        arg_if_not_default_fixed(
            sink,
            "tol_rel_grad",
            self.tol_rel_grad,
            fx_exec(10_000_000_000_000_000_000),
        );
        proof {
            let d = tok_if(
                self.tol_rel_grad != fx(10_000_000_000_000_000_000),
                kv("tol_rel_grad"@, self.tol_rel_grad.spec_text()),
            );
            lemma_concat_assoc(base, acc, d);
            acc = acc + d;
        }
        arg_if_not_default_fixed(sink, "tol_param", self.tol_param, fx_exec(10_000));
        proof {
            let d = tok_if(
                self.tol_param != fx(10_000),
                kv("tol_param"@, self.tol_param.spec_text()),
            );
            lemma_concat_assoc(base, acc, d);
            acc = acc + d;
        }
        arg_if_not_default_u32(sink, "history_size", self.history_size, 5);
        proof {
            let d = tok_if(
                self.history_size != 5,
                kv("history_size"@, dec_nat(self.history_size as nat)),
            );
            lemma_concat_assoc(base, acc, d);
            acc = acc + d;
            assert(acc == self.spec_tokens_head());
        }
    }

    /// Emits the draw-count and resampling tokens.
    fn emit_draw_counts(&self, sink: &mut ArgSink)
        ensures
            token_views(final(sink).tokens@) == token_views(old(sink).tokens@)
                + self.spec_tokens_tail(),
            final(sink).side_files@ == old(sink).side_files@,
    {
        let ghost base = token_views(old(sink).tokens@);
        arg_if_not_default_u32(sink, "num_psis_draws", self.num_psis_draws, 1000);
        let ghost mut acc: Seq<Seq<char>> = tok_if(
            self.num_psis_draws != 1000,
            kv("num_psis_draws"@, dec_nat(self.num_psis_draws as nat)),
        );
        arg_if_not_default_u32(sink, "num_paths", self.num_paths, 4);
        proof {
            let d = tok_if(self.num_paths != 4, kv("num_paths"@, dec_nat(self.num_paths as nat)));
            lemma_concat_assoc(base, acc, d);
            acc = acc + d;
        }
        arg_if_not_default_bool(sink, "save_single_paths", self.save_single_paths, false);
        proof {
            let d = tok_if(
                self.save_single_paths != false,
                kv("save_single_paths"@, bool_str(self.save_single_paths)),
            );
            lemma_concat_assoc(base, acc, d);
            acc = acc + d;
        }
        arg_if_not_default_bool(sink, "psis_resample", self.psis_resample, true);
        proof {
            let d = tok_if(
                self.psis_resample != true,
                kv("psis_resample"@, bool_str(self.psis_resample)),
            );
            lemma_concat_assoc(base, acc, d);
            acc = acc + d;
        }
        arg_if_not_default_bool(sink, "calculate_lp", self.calculate_lp, true);
        proof {
            let d = tok_if(
                self.calculate_lp != true,
                kv("calculate_lp"@, bool_str(self.calculate_lp)),
            );
            lemma_concat_assoc(base, acc, d);
            acc = acc + d;
        }
        arg_if_not_default_u32(sink, "max_lbfgs_iters", self.max_lbfgs_iters, 1000);
        proof {
            let d = tok_if(
                self.max_lbfgs_iters != 1000,
                kv("max_lbfgs_iters"@, dec_nat(self.max_lbfgs_iters as nat)),
            );
            lemma_concat_assoc(base, acc, d);
            acc = acc + d;
        }
        arg_if_not_default_u32(sink, "num_draws", self.num_draws, 1000);
        proof {
            let d = tok_if(self.num_draws != 1000, kv("num_draws"@, dec_nat(self.num_draws as nat)));
            lemma_concat_assoc(base, acc, d);
            acc = acc + d;
        }
        arg_if_not_default_u32(sink, "num_elbo_draws", self.num_elbo_draws, 25);
        proof {
            let d = tok_if(
                self.num_elbo_draws != 25,
                kv("num_elbo_draws"@, dec_nat(self.num_elbo_draws as nat)),
            );
            lemma_concat_assoc(base, acc, d);
            acc = acc + d;
            assert(acc == self.spec_tokens_tail());
        }
    }

    /// The all-default tree.
    pub fn new() -> (r: Self)
        ensures
            r.spec_is_default(),
    {
        Self::arg_default()
    }

    /// A default tree serializes to the bare mode keyword alone.
    pub proof fn lemma_default_tokens(&self)
        requires
            self.spec_is_default(),
        ensures
            self.spec_tokens() =~= seq!["pathfinder"@],
    {
    }

    /// Sets the first-iteration line-search step size; values not
    /// strictly positive are rejected, leaving the tree unchanged.
    pub fn set_init_alpha(&mut self, init_alpha: Fixed) -> (r: Result<(), ArgError>)
        ensures
            init_alpha.units() > 0 ==> (r is Ok && *final(self) == (ArgPathfinder {
                init_alpha,
                ..*old(self)
            })),
            init_alpha.units() <= 0 ==> (r matches Err(e) && e matches
                ArgError::BadArgumentValue(m) && m@ == "Pathfinder: expected init_alpha>0, found "@ + init_alpha.spec_text() && *final(self) == *old(self)),
    {
        if !init_alpha.is_positive() {
            let mut m = String::from_str("Pathfinder: expected init_alpha>0, found ");
            let t = init_alpha.to_text();
            m.append(t.as_str());
            return Err(ArgError::BadArgumentValue(m));
        }
        self.init_alpha = init_alpha;
        Ok(())
    }

    /// Sets the absolute objective-change tolerance; values not strictly
    /// positive are rejected, leaving the tree unchanged.
    pub fn set_tol_obj(&mut self, tol_obj: Fixed) -> (r: Result<(), ArgError>)
        ensures
            tol_obj.units() > 0 ==> (r is Ok && *final(self) == (ArgPathfinder {
                tol_obj,
                ..*old(self)
            })),
            tol_obj.units() <= 0 ==> (r matches Err(e) && e matches ArgError::BadArgumentValue(m) && m@ == "Pathfinder: expected tol_obj>0, found "@ + tol_obj.spec_text()
                && *final(self) == *old(self)),
    {
        if !tol_obj.is_positive() {
            let mut m = String::from_str("Pathfinder: expected tol_obj>0, found ");
            let t = tol_obj.to_text();
            m.append(t.as_str());
            return Err(ArgError::BadArgumentValue(m));
        }
        self.tol_obj = tol_obj;
        Ok(())
    }

    /// Sets the relative objective-change tolerance; values not strictly
    /// positive are rejected, leaving the tree unchanged.
    pub fn set_tol_rel_obj(&mut self, tol_rel_obj: Fixed) -> (r: Result<(), ArgError>)
        ensures
            tol_rel_obj.units() > 0 ==> (r is Ok && *final(self) == (ArgPathfinder {
                tol_rel_obj,
                ..*old(self)
            })),
            tol_rel_obj.units() <= 0 ==> (r matches Err(e) && e matches
                ArgError::BadArgumentValue(m) && m@ == "Pathfinder: expected tol_rel_obj>0, found "@ + tol_rel_obj.spec_text() && *final(self) == *old(self)),
    {
        if !tol_rel_obj.is_positive() {
            let mut m = String::from_str("Pathfinder: expected tol_rel_obj>0, found ");
            let t = tol_rel_obj.to_text();
            m.append(t.as_str());
            return Err(ArgError::BadArgumentValue(m));
        }
        self.tol_rel_obj = tol_rel_obj;
        Ok(())
    }

    /// Sets the gradient-norm tolerance; values not strictly positive
    /// are rejected, leaving the tree unchanged.
    pub fn set_tol_grad(&mut self, tol_grad: Fixed) -> (r: Result<(), ArgError>)
        ensures
            tol_grad.units() > 0 ==> (r is Ok && *final(self) == (ArgPathfinder {
                tol_grad,
                ..*old(self)
            })),
            tol_grad.units() <= 0 ==> (r matches Err(e) && e matches ArgError::BadArgumentValue(m) && m@ == "Pathfinder: expected tol_grad>0, found "@ + tol_grad.spec_text()
                && *final(self) == *old(self)),
    {
        if !tol_grad.is_positive() {
            let mut m = String::from_str("Pathfinder: expected tol_grad>0, found ");
            let t = tol_grad.to_text();
            m.append(t.as_str());
            return Err(ArgError::BadArgumentValue(m));
        }
        self.tol_grad = tol_grad;
        Ok(())
    }

    /// Sets the relative gradient-norm tolerance; values not strictly
    /// positive are rejected, leaving the tree unchanged.
    pub fn set_tol_rel_grad(&mut self, tol_rel_grad: Fixed) -> (r: Result<(), ArgError>)
        ensures
            tol_rel_grad.units() > 0 ==> (r is Ok && *final(self) == (ArgPathfinder {
                tol_rel_grad,
                ..*old(self)
            })),
            tol_rel_grad.units() <= 0 ==> (r matches Err(e) && e matches
                ArgError::BadArgumentValue(m) && m@ == "Pathfinder: expected tol_rel_grad>0, found "@ + tol_rel_grad.spec_text() && *final(self) == *old(self)),
    {
        if !tol_rel_grad.is_positive() {
            let mut m = String::from_str("Pathfinder: expected tol_rel_grad>0, found ");
            let t = tol_rel_grad.to_text();
            m.append(t.as_str());
            return Err(ArgError::BadArgumentValue(m));
        }
        self.tol_rel_grad = tol_rel_grad;
        Ok(())
    }

    /// Sets the parameter-change tolerance; values not strictly positive
    /// are rejected, leaving the tree unchanged.
    pub fn set_tol_param(&mut self, tol_param: Fixed) -> (r: Result<(), ArgError>)
        ensures
            tol_param.units() > 0 ==> (r is Ok && *final(self) == (ArgPathfinder {
                tol_param,
                ..*old(self)
            })),
            tol_param.units() <= 0 ==> (r matches Err(e) && e matches ArgError::BadArgumentValue(m) && m@ == "Pathfinder: expected tol_param>0, found "@ + tol_param.spec_text()
                && *final(self) == *old(self)),
    {
        if !tol_param.is_positive() {
            let mut m = String::from_str("Pathfinder: expected tol_param>0, found ");
            let t = tol_param.to_text();
            m.append(t.as_str());
            return Err(ArgError::BadArgumentValue(m));
        }
        self.tol_param = tol_param;
        Ok(())
    }

    /// Sets the L-BFGS history size; zero is rejected, leaving the tree
    /// unchanged.
    pub fn set_history_size(&mut self, history_size: u32) -> (r: Result<(), ArgError>)
        ensures
            history_size > 0 ==> (r is Ok && *final(self) == (ArgPathfinder {
                history_size,
                ..*old(self)
            })),
            history_size == 0 ==> (r matches Err(e) && e matches ArgError::BadArgumentValue(m) && m@ == "Pathfinder: history_size cannot be 0"@
                && *final(self) == *old(self)),
    {
        if history_size == 0 {
            return Err(
                ArgError::BadArgumentValue(
                    String::from_str("Pathfinder: history_size cannot be 0"),
                ),
            );
        }
        self.history_size = history_size;
        Ok(())
    }

    /// Sets the number of PSIS draws; zero is rejected, leaving the tree
    /// unchanged.
    pub fn set_num_psis_draws(&mut self, num_psis_draws: u32) -> (r: Result<(), ArgError>)
        ensures
            num_psis_draws > 0 ==> (r is Ok && *final(self) == (ArgPathfinder {
                num_psis_draws,
                ..*old(self)
            })),
            num_psis_draws == 0 ==> (r matches Err(e) && e matches ArgError::BadArgumentValue(m) && m@ == "Pathfinder: num_psis_draws cannot be 0"@
                && *final(self) == *old(self)),
    {
        if num_psis_draws == 0 {
            return Err(
                ArgError::BadArgumentValue(
                    String::from_str("Pathfinder: num_psis_draws cannot be 0"),
                ),
            );
        }
        self.num_psis_draws = num_psis_draws;
        Ok(())
    }

    /// Sets the number of single pathfinders; zero is rejected, leaving
    /// the tree unchanged.
    pub fn set_num_paths(&mut self, num_paths: u32) -> (r: Result<(), ArgError>)
        ensures
            num_paths > 0 ==> (r is Ok && *final(self) == (ArgPathfinder {
                num_paths,
                ..*old(self)
            })),
            num_paths == 0 ==> (r matches Err(e) && e matches ArgError::BadArgumentValue(m) && m@ == "Pathfinder: num_paths cannot be 0"@
                && *final(self) == *old(self)),
    {
        if num_paths == 0 {
            return Err(
                ArgError::BadArgumentValue(String::from_str("Pathfinder: num_paths cannot be 0")),
            );
        }
        self.num_paths = num_paths;
        Ok(())
    }

    /// Sets the maximum number of L-BFGS iterations; zero is rejected,
    /// leaving the tree unchanged.
    pub fn set_max_lbfgs_iters(&mut self, max_lbfgs_iters: u32) -> (r: Result<(), ArgError>)
        ensures
            max_lbfgs_iters > 0 ==> (r is Ok && *final(self) == (ArgPathfinder {
                max_lbfgs_iters,
                ..*old(self)
            })),
            max_lbfgs_iters == 0 ==> (r matches Err(e) && e matches ArgError::BadArgumentValue(m) && m@ == "Pathfinder: max_lbfgs_iters cannot be 0"@
                && *final(self) == *old(self)),
    {
        if max_lbfgs_iters == 0 {
            return Err(
                ArgError::BadArgumentValue(
                    String::from_str("Pathfinder: max_lbfgs_iters cannot be 0"),
                ),
            );
        }
        self.max_lbfgs_iters = max_lbfgs_iters;
        Ok(())
    }

    /// Sets the number of approximate posterior draws; zero is rejected,
    /// leaving the tree unchanged.
    pub fn set_num_draws(&mut self, num_draws: u32) -> (r: Result<(), ArgError>)
        ensures
            num_draws > 0 ==> (r is Ok && *final(self) == (ArgPathfinder {
                num_draws,
                ..*old(self)
            })),
            num_draws == 0 ==> (r matches Err(e) && e matches ArgError::BadArgumentValue(m) && m@ == "Pathfinder: num_draws cannot be 0"@
                && *final(self) == *old(self)),
    {
        if num_draws == 0 {
            return Err(
                ArgError::BadArgumentValue(String::from_str("Pathfinder: num_draws cannot be 0")),
            );
        }
        self.num_draws = num_draws;
        Ok(())
    }

    /// Sets the number of ELBO evaluation draws; zero is rejected,
    /// leaving the tree unchanged.
    pub fn set_num_elbo_draws(&mut self, num_elbo_draws: u32) -> (r: Result<(), ArgError>)
        ensures
            num_elbo_draws > 0 ==> (r is Ok && *final(self) == (ArgPathfinder {
                num_elbo_draws,
                ..*old(self)
            })),
            num_elbo_draws == 0 ==> (r matches Err(e) && e matches ArgError::BadArgumentValue(m) && m@ == "Pathfinder: num_elbo_draws cannot be 0"@
                && *final(self) == *old(self)),
    {
        if num_elbo_draws == 0 {
            return Err(
                ArgError::BadArgumentValue(
                    String::from_str("Pathfinder: num_elbo_draws cannot be 0"),
                ),
            );
        }
        self.num_elbo_draws = num_elbo_draws;
        Ok(())
    }

    /// Sets whether single-path draws are written as CSV.
    pub fn set_save_single_paths(&mut self, save_single_paths: bool)
        ensures
            *final(self) == (ArgPathfinder { save_single_paths, ..*old(self) }),
    {
        self.save_single_paths = save_single_paths;
    }

    /// Sets whether PSIS resampling is performed.
    pub fn set_psis_resample(&mut self, psis_resample: bool)
        ensures
            *final(self) == (ArgPathfinder { psis_resample, ..*old(self) }),
    {
        self.psis_resample = psis_resample;
    }

    /// Sets whether per-draw log-probability values are calculated.
    pub fn set_calculate_lp(&mut self, calculate_lp: bool)
        ensures
            *final(self) == (ArgPathfinder { calculate_lp, ..*old(self) }),
    {
        self.calculate_lp = calculate_lp;
    }
}

} // verus!
