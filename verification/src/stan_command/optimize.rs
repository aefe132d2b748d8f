//! The point-estimation mode, with its three-armed algorithm choice:
//! Newton, BFGS, or L-BFGS with a history size.

use vstd::prelude::*;

use crate::arg_paths::ArgPath;
use crate::fixed::{fx, fx_exec, Fixed};
use crate::render::{bool_str, dec_nat};
use crate::stan_command::arg_tree::{
    arg_if_not_default_bool, arg_if_not_default_fixed, arg_if_not_default_u32, kv,
    lemma_concat_assoc, push_keyword, tok_if,
};
use crate::stan_command::{token_views, ArgError, ArgSink, ArgThrough, ArgType, WithDefaultArg};

verus! {

/// The six convergence and line-search options shared by BFGS and
/// L-BFGS.
#[derive(Debug, Clone, Copy, PartialEq, Eq, Structural)]
pub struct ArgOptimizeBfgs {
    /// Line search step size for first iteration.  Default: `0.001`.
    pub init_alpha: Fixed,
    /// Convergence tolerance on absolute changes in objective function
    /// value.  Default: `1e-12`.
    pub tol_obj: Fixed,
    /// Convergence tolerance on relative changes in objective function
    /// value.  Default: `10000`.
    pub tol_rel_obj: Fixed,
    /// Convergence tolerance on the norm of the gradient.
    /// Default: `1e-8`.
    pub tol_grad: Fixed,
    /// Convergence tolerance on the relative norm of the gradient.
    /// Default: `1e7`.
    pub tol_rel_grad: Fixed,
    /// Convergence tolerance on changes in parameter value.
    /// Default: `1e-8`.
    pub tol_param: Fixed,
}

/// Optimization algorithm.  The default arm is L-BFGS with history
/// size 5.
#[derive(Debug, Clone, Copy, PartialEq, Eq, Structural)]
pub enum ArgOptimizeAlgorithm {
    /// BFGS with linesearch.
    Bfgs(ArgOptimizeBfgs),
    /// L-BFGS with linesearch and a history size.
    LBfgs(ArgOptimizeBfgs, u32),
    /// Newton's method.
    Newton,
}

/// Point estimation.
#[derive(Debug, Clone, PartialEq, Eq, Structural)]
pub struct ArgOptimize {
    /// Optimization algorithm.  Default: L-BFGS with history size 5.
    pub algorithm: ArgOptimizeAlgorithm,
    /// When true, include the change-of-variables adjustment for
    /// constraining parameter transforms.  Default: `false`.
    pub jacobian: bool,
    /// Total number of iterations.  Default: `2000`.
    pub iter: u32,
    /// Stream optimization progress to output?  Default: `false`.
    pub save_iterations: bool,
}

impl WithDefaultArg for ArgOptimizeBfgs {
    open spec fn spec_is_default(&self) -> bool {
        &&& self.init_alpha == fx(1_000_000_000)
        &&& self.tol_obj == fx(1)
        &&& self.tol_rel_obj == fx(10_000_000_000_000_000)
        &&& self.tol_grad == fx(10_000)
        &&& self.tol_rel_grad == fx(10_000_000_000_000_000_000)
        &&& self.tol_param == fx(10_000)
    }

    fn arg_default() -> (r: Self) {
        ArgOptimizeBfgs {
            init_alpha: fx_exec(1_000_000_000),
            tol_obj: fx_exec(1),
            tol_rel_obj: fx_exec(10_000_000_000_000_000),
            tol_grad: fx_exec(10_000),
            tol_rel_grad: fx_exec(10_000_000_000_000_000_000),
            tol_param: fx_exec(10_000),
        }
    }

    fn is_default(&self) -> (r: bool) {
        self.init_alpha == fx_exec(1_000_000_000) && self.tol_obj == fx_exec(1)
            && self.tol_rel_obj == fx_exec(10_000_000_000_000_000) && self.tol_grad == fx_exec(
            10_000,
        ) && self.tol_rel_grad == fx_exec(10_000_000_000_000_000_000) && self.tol_param == fx_exec(
            10_000,
        )
    }
}

impl WithDefaultArg for ArgOptimizeAlgorithm {
    open spec fn spec_is_default(&self) -> bool {
        self matches ArgOptimizeAlgorithm::LBfgs(b, h) && b.spec_is_default() && h == 5
    }

    fn arg_default() -> (r: Self) {
        ArgOptimizeAlgorithm::LBfgs(ArgOptimizeBfgs::arg_default(), 5)
    }

    fn is_default(&self) -> (r: bool) {
        match self {
            ArgOptimizeAlgorithm::LBfgs(b, h) => b.is_default() && *h == 5,
            _ => false,
        }
    }
}

impl WithDefaultArg for ArgOptimize {
    open spec fn spec_is_default(&self) -> bool {
        &&& self.algorithm.spec_is_default()
        &&& self.jacobian == false
        &&& self.iter == 2000
        &&& self.save_iterations == false
    }

    fn arg_default() -> (r: Self) {
        ArgOptimize {
            algorithm: ArgOptimizeAlgorithm::arg_default(),
            jacobian: false,
            iter: 2000,
            save_iterations: false,
        }
    }

    fn is_default(&self) -> (r: bool) {
        self.algorithm.is_default() && self.jacobian == false && self.iter == 2000
            && self.save_iterations == false
    }
}

impl ArgOptimizeBfgs {
    /// The tokens of the shared convergence options, in declaration
    /// order.
    pub open spec fn spec_group_tokens(&self) -> Seq<Seq<char>> {
        tok_if(
            self.init_alpha != fx(1_000_000_000),
            kv("init_alpha"@, self.init_alpha.spec_text()),
        ) + tok_if(self.tol_obj != fx(1), kv("tol_obj"@, self.tol_obj.spec_text())) + tok_if(
            self.tol_rel_obj != fx(10_000_000_000_000_000),
            kv("tol_rel_obj"@, self.tol_rel_obj.spec_text()),
        ) + tok_if(self.tol_grad != fx(10_000), kv("tol_grad"@, self.tol_grad.spec_text()))
            + tok_if(
            self.tol_rel_grad != fx(10_000_000_000_000_000_000),
            kv("tol_rel_grad"@, self.tol_rel_grad.spec_text()),
        ) + tok_if(self.tol_param != fx(10_000), kv("tol_param"@, self.tol_param.spec_text()))
    }

    /// Emits the shared convergence options.
    pub fn emit(&self, sink: &mut ArgSink)
        ensures
            token_views(final(sink).tokens@) == token_views(old(sink).tokens@)
                + self.spec_group_tokens(),
            final(sink).side_files@ == old(sink).side_files@,
    {
        let ghost base = token_views(old(sink).tokens@);
        arg_if_not_default_fixed(sink, "init_alpha", self.init_alpha, fx_exec(1_000_000_000));
        let ghost mut acc: Seq<Seq<char>> = tok_if(
            self.init_alpha != fx(1_000_000_000),
            kv("init_alpha"@, self.init_alpha.spec_text()),
        );
        arg_if_not_default_fixed(sink, "tol_obj", self.tol_obj, fx_exec(1));
        proof {
            let d = tok_if(self.tol_obj != fx(1), kv("tol_obj"@, self.tol_obj.spec_text()));
            lemma_concat_assoc(base, acc, d);
            acc = acc + d;
        }
        arg_if_not_default_fixed(
            sink,
            "tol_rel_obj",
            self.tol_rel_obj,
            fx_exec(10_000_000_000_000_000),
        );
        proof {
            let d = tok_if(
                self.tol_rel_obj != fx(10_000_000_000_000_000),
                kv("tol_rel_obj"@, self.tol_rel_obj.spec_text()),
            );
            lemma_concat_assoc(base, acc, d);
            acc = acc + d;
        }
        arg_if_not_default_fixed(sink, "tol_grad", self.tol_grad, fx_exec(10_000));
        proof {
            let d = tok_if(self.tol_grad != fx(10_000), kv("tol_grad"@, self.tol_grad.spec_text()));
            lemma_concat_assoc(base, acc, d);
            acc = acc + d;
        }
        arg_if_not_default_fixed(
            sink,
            "tol_rel_grad",
            self.tol_rel_grad,
            fx_exec(10_000_000_000_000_000_000),
        );
        proof {
            let d = tok_if(
                self.tol_rel_grad != fx(10_000_000_000_000_000_000),
                kv("tol_rel_grad"@, self.tol_rel_grad.spec_text()),
            );
            lemma_concat_assoc(base, acc, d);
            acc = acc + d;
        }
        arg_if_not_default_fixed(sink, "tol_param", self.tol_param, fx_exec(10_000));
        proof {
            let d = tok_if(
                self.tol_param != fx(10_000),
                kv("tol_param"@, self.tol_param.spec_text()),
            );
            lemma_concat_assoc(base, acc, d);
            acc = acc + d;
            assert(acc == self.spec_group_tokens());
        }
    }

    /// The all-default options.
    pub fn new() -> (r: Self)
        ensures
            r.spec_is_default(),
    {
        Self::arg_default()
    }

    /// Sets the first-iteration line-search step size; values not
    /// strictly positive are rejected, leaving the record unchanged.
    pub fn set_init_alpha(&mut self, init_alpha: Fixed) -> (r: Result<(), ArgError>)
        ensures
            init_alpha.units() > 0 ==> (r is Ok && *final(self) == (ArgOptimizeBfgs {
                init_alpha,
                ..*old(self)
            })),
            init_alpha.units() <= 0 ==> (r matches Err(e) && e matches
                ArgError::BadArgumentValue(m) && m@ == "Optimize: except init_alpha > 0, found "@ + init_alpha.spec_text() && *final(self) == *old(self)),
    {
        if !init_alpha.is_positive() {
            let mut m = String::from_str("Optimize: except init_alpha > 0, found ");
            let t = init_alpha.to_text();
            m.append(t.as_str());
            return Err(ArgError::BadArgumentValue(m));
        }
        self.init_alpha = init_alpha;
        Ok(())
    }

    /// Sets the absolute objective-change tolerance; values not
    /// strictly positive are rejected, leaving the record unchanged.
    pub fn set_tol_obj(&mut self, tol_obj: Fixed) -> (r: Result<(), ArgError>)
        ensures
            tol_obj.units() > 0 ==> (r is Ok && *final(self) == (ArgOptimizeBfgs {
                tol_obj,
                ..*old(self)
            })),
            tol_obj.units() <= 0 ==> (r matches Err(e) && e matches ArgError::BadArgumentValue(m) && m@ == "Optimize: except tol_obj > 0, found "@ + tol_obj.spec_text()
                && *final(self) == *old(self)),
    {
        if !tol_obj.is_positive() {
            let mut m = String::from_str("Optimize: except tol_obj > 0, found ");
            let t = tol_obj.to_text();
            m.append(t.as_str());
            return Err(ArgError::BadArgumentValue(m));
        }
        self.tol_obj = tol_obj;
        Ok(())
    }

    /// Sets the relative objective-change tolerance; values not
    /// strictly positive are rejected, leaving the record unchanged.
    pub fn set_tol_rel_obj(&mut self, tol_rel_obj: Fixed) -> (r: Result<(), ArgError>)
        ensures
            tol_rel_obj.units() > 0 ==> (r is Ok && *final(self) == (ArgOptimizeBfgs {
                tol_rel_obj,
                ..*old(self)
            })),
            tol_rel_obj.units() <= 0 ==> (r matches Err(e) && e matches
                ArgError::BadArgumentValue(m) && m@ == "Optimize: except tol_rel_obj > 0, found "@ + tol_rel_obj.spec_text() && *final(self) == *old(self)),
    {
        if !tol_rel_obj.is_positive() {
            let mut m = String::from_str("Optimize: except tol_rel_obj > 0, found ");
            let t = tol_rel_obj.to_text();
            m.append(t.as_str());
            return Err(ArgError::BadArgumentValue(m));
        }
        self.tol_rel_obj = tol_rel_obj;
        Ok(())
    }

    /// Sets the gradient-norm tolerance; values not strictly positive
    /// are rejected, leaving the record unchanged.
    pub fn set_tol_grad(&mut self, tol_grad: Fixed) -> (r: Result<(), ArgError>)
        ensures
            tol_grad.units() > 0 ==> (r is Ok && *final(self) == (ArgOptimizeBfgs {
                tol_grad,
                ..*old(self)
            })),
            tol_grad.units() <= 0 ==> (r matches Err(e) && e matches ArgError::BadArgumentValue(m) && m@ == "Optimize: except tol_grad > 0, found "@ + tol_grad.spec_text()
                && *final(self) == *old(self)),
    {
        if !tol_grad.is_positive() {
            let mut m = String::from_str("Optimize: except tol_grad > 0, found ");
            let t = tol_grad.to_text();
            m.append(t.as_str());
            return Err(ArgError::BadArgumentValue(m));
        }
        self.tol_grad = tol_grad;
        Ok(())
    }

    /// Sets the relative gradient-norm tolerance; values not strictly
    /// positive are rejected, leaving the record unchanged.
    pub fn set_tol_rel_grad(&mut self, tol_rel_grad: Fixed) -> (r: Result<(), ArgError>)
        ensures
            tol_rel_grad.units() > 0 ==> (r is Ok && *final(self) == (ArgOptimizeBfgs {
                tol_rel_grad,
                ..*old(self)
            })),
            tol_rel_grad.units() <= 0 ==> (r matches Err(e) && e matches
                ArgError::BadArgumentValue(m) && m@ == "Optimize: except tol_rel_grad > 0, found "@ + tol_rel_grad.spec_text() && *final(self) == *old(self)),
    {
        if !tol_rel_grad.is_positive() {
            let mut m = String::from_str("Optimize: except tol_rel_grad > 0, found ");
            let t = tol_rel_grad.to_text();
            m.append(t.as_str());
            return Err(ArgError::BadArgumentValue(m));
        }
        self.tol_rel_grad = tol_rel_grad;
        Ok(())
    }

    /// Sets the parameter-change tolerance; values not strictly
    /// positive are rejected, leaving the record unchanged.
    pub fn set_tol_param(&mut self, tol_param: Fixed) -> (r: Result<(), ArgError>)
        ensures
            tol_param.units() > 0 ==> (r is Ok && *final(self) == (ArgOptimizeBfgs {
                tol_param,
                ..*old(self)
            })),
            tol_param.units() <= 0 ==> (r matches Err(e) && e matches ArgError::BadArgumentValue(m) && m@ == "Optimize: except tol_param > 0, found "@ + tol_param.spec_text()
                && *final(self) == *old(self)),
    {
        if !tol_param.is_positive() {
            let mut m = String::from_str("Optimize: except tol_param > 0, found ");
            let t = tol_param.to_text();
            m.append(t.as_str());
            return Err(ArgError::BadArgumentValue(m));
        }
        self.tol_param = tol_param;
        Ok(())
    }
}

impl ArgOptimizeAlgorithm {
    /// The algorithm's tokens: nothing when the choice is the default
    /// L-BFGS; otherwise the arm's discriminant, the history size when
    /// it is an L-BFGS with a non-default one, and the shared
    /// convergence options for the BFGS family.
    pub open spec fn spec_group_tokens(&self) -> Seq<Seq<char>> {
        if self.spec_is_default() {
            Seq::<Seq<char>>::empty()
        } else {
            match self {
                ArgOptimizeAlgorithm::Newton => seq!["algorithm=newton"@],
                ArgOptimizeAlgorithm::Bfgs(b) => seq!["algorithm=bfgs"@] + b.spec_group_tokens(),
                ArgOptimizeAlgorithm::LBfgs(b, h) => seq!["algorithm=lbfgs"@] + tok_if(
                    h != 5,
                    kv("history_size"@, dec_nat(h as nat)),
                ) + b.spec_group_tokens(),
            }
        }
    }

    /// Emits the algorithm's tokens.
    pub fn emit(&self, sink: &mut ArgSink)
        ensures
            token_views(final(sink).tokens@) == token_views(old(sink).tokens@)
                + self.spec_group_tokens(),
            final(sink).side_files@ == old(sink).side_files@,
    {
        let ghost base = token_views(old(sink).tokens@);
        if self.is_default() {
            assert(token_views(sink.tokens@) =~= base + self.spec_group_tokens());
            return ;
        }
        match self {
            ArgOptimizeAlgorithm::Newton => {
                push_keyword(sink, "algorithm=newton");
                assert(token_views(sink.tokens@) =~= base + self.spec_group_tokens());
            },
            ArgOptimizeAlgorithm::Bfgs(b) => {
                push_keyword(sink, "algorithm=bfgs");
                b.emit(sink);
                proof {
                    lemma_concat_assoc(base, seq!["algorithm=bfgs"@], b.spec_group_tokens());
                }
            },
            ArgOptimizeAlgorithm::LBfgs(b, h) => {
                push_keyword(sink, "algorithm=lbfgs");
                arg_if_not_default_u32(sink, "history_size", *h, 5);
                proof {
                    lemma_concat_assoc(
                        base,
                        seq!["algorithm=lbfgs"@],
                        tok_if(*h != 5, kv("history_size"@, dec_nat(*h as nat))),
                    );
                }
                b.emit(sink);
                proof {
                    lemma_concat_assoc(
                        base,
                        seq!["algorithm=lbfgs"@] + tok_if(
                            *h != 5,
                            kv("history_size"@, dec_nat(*h as nat)),
                        ),
                        b.spec_group_tokens(),
                    );
                }
            },
        }
    }

    /// The all-default choice.
    pub fn new() -> (r: Self)
        ensures
            r.spec_is_default(),
    {
        Self::arg_default()
    }

    /// The shared convergence options, when the arm carries them;
    /// `None` for Newton.
    pub fn get_bfgs(&self) -> (r: Option<&ArgOptimizeBfgs>)
        ensures
            match self {
                ArgOptimizeAlgorithm::Bfgs(b) => r == Some(b),
                ArgOptimizeAlgorithm::LBfgs(b, _) => r == Some(b),
                ArgOptimizeAlgorithm::Newton => r is None,
            },
    {
        match self {
            ArgOptimizeAlgorithm::Bfgs(b) => Some(b),
            ArgOptimizeAlgorithm::LBfgs(b, _) => Some(b),
            ArgOptimizeAlgorithm::Newton => None,
        }
    }


    /// The shared convergence options for in-place modification, when
    /// the arm carries them; `None` for Newton.
    pub fn get_bfgs_mut(&mut self) -> (r: Option<&mut ArgOptimizeBfgs>)
        ensures
            match *old(self) {
                ArgOptimizeAlgorithm::Bfgs(b) => r matches Some(m) && *m == b && *final(self)
                    == ArgOptimizeAlgorithm::Bfgs(*final(m)),
                ArgOptimizeAlgorithm::LBfgs(b, h) => r matches Some(m) && *m == b && *final(self)
                    == ArgOptimizeAlgorithm::LBfgs(*final(m), h),
                ArgOptimizeAlgorithm::Newton => r is None && *final(self)
                    == ArgOptimizeAlgorithm::Newton,
            },
    {
        match self {
            ArgOptimizeAlgorithm::Bfgs(b) => Some(b),
            ArgOptimizeAlgorithm::LBfgs(b, _) => Some(b),
            ArgOptimizeAlgorithm::Newton => None,
        }
    }

    /// Replaces the shared convergence options.  A BFGS arm keeps its
    /// arm, an L-BFGS arm keeps its history size, and Newton switches
    /// to BFGS with the given options.
    pub fn set_bfgs(&mut self, bfgs: ArgOptimizeBfgs)
        ensures
            *final(self) == (match *old(self) {
                ArgOptimizeAlgorithm::Bfgs(_) => ArgOptimizeAlgorithm::Bfgs(bfgs),
                ArgOptimizeAlgorithm::LBfgs(_, h) => ArgOptimizeAlgorithm::LBfgs(bfgs, h),
                ArgOptimizeAlgorithm::Newton => ArgOptimizeAlgorithm::Bfgs(bfgs),
            }),
    {
        *self = match self {
            ArgOptimizeAlgorithm::Bfgs(_) => ArgOptimizeAlgorithm::Bfgs(bfgs),
            ArgOptimizeAlgorithm::LBfgs(_, h) => ArgOptimizeAlgorithm::LBfgs(bfgs, *h),
            ArgOptimizeAlgorithm::Newton => ArgOptimizeAlgorithm::Bfgs(bfgs),
        };
    }

    /// Consuming form of `set_bfgs`.
    pub fn with_bfgs(self, bfgs: ArgOptimizeBfgs) -> (r: Self)
        ensures
            r == (match self {
                ArgOptimizeAlgorithm::Bfgs(_) => ArgOptimizeAlgorithm::Bfgs(bfgs),
                ArgOptimizeAlgorithm::LBfgs(_, h) => ArgOptimizeAlgorithm::LBfgs(bfgs, h),
                ArgOptimizeAlgorithm::Newton => ArgOptimizeAlgorithm::Bfgs(bfgs),
            }),
    {
        match self {
            ArgOptimizeAlgorithm::Bfgs(_) => ArgOptimizeAlgorithm::Bfgs(bfgs),
            ArgOptimizeAlgorithm::LBfgs(_, h) => ArgOptimizeAlgorithm::LBfgs(bfgs, h),
            ArgOptimizeAlgorithm::Newton => ArgOptimizeAlgorithm::Bfgs(bfgs),
        }
    }

    /// The L-BFGS history size; `None` when the arm is not L-BFGS.
    pub fn get_history_size(&self) -> (r: Option<u32>)
        ensures
            match self {
                ArgOptimizeAlgorithm::LBfgs(_, h) => r == Some(*h),
                _ => r is None,
            },
    {
        match self {
            ArgOptimizeAlgorithm::LBfgs(_, h) => Some(*h),
            _ => None,
        }
    }

    /// Sets the amount of history to keep for L-BFGS; zero is rejected,
    /// leaving the choice unchanged.  A BFGS arm becomes L-BFGS with
    /// its options kept; Newton becomes L-BFGS with default options.
    pub fn set_history_size(&mut self, history_size: u32) -> (r: Result<(), ArgError>)
        ensures
            history_size > 0 ==> (r is Ok && *final(self) == (match *old(self) {
                ArgOptimizeAlgorithm::Bfgs(b) => ArgOptimizeAlgorithm::LBfgs(b, history_size),
                ArgOptimizeAlgorithm::LBfgs(b, _) => ArgOptimizeAlgorithm::LBfgs(b, history_size),
                ArgOptimizeAlgorithm::Newton => ArgOptimizeAlgorithm::LBfgs(
                    ArgOptimizeBfgs {
                        init_alpha: fx(1_000_000_000),
                        tol_obj: fx(1),
                        tol_rel_obj: fx(10_000_000_000_000_000),
                        tol_grad: fx(10_000),
                        tol_rel_grad: fx(10_000_000_000_000_000_000),
                        tol_param: fx(10_000),
                    },
                    history_size,
                ),
            })),
            history_size == 0 ==> (r matches Err(e) && e matches ArgError::BadArgumentValue(m) && m@ == "Optimize: history_size cannot be 0"@
                && *final(self) == *old(self)),
    {
        if history_size == 0 {
            return Err(
                ArgError::BadArgumentValue(String::from_str("Optimize: history_size cannot be 0")),
            );
        }
        *self = match self {
            ArgOptimizeAlgorithm::Bfgs(b) => ArgOptimizeAlgorithm::LBfgs(*b, history_size),
            ArgOptimizeAlgorithm::LBfgs(b, _) => ArgOptimizeAlgorithm::LBfgs(*b, history_size),
            ArgOptimizeAlgorithm::Newton => ArgOptimizeAlgorithm::LBfgs(
                ArgOptimizeBfgs::arg_default(),
                history_size,
            ),
        };
        Ok(())
    }

    /// Consuming form of `set_history_size`.
    pub fn with_history_size(self, history_size: u32) -> (r: Result<Self, ArgError>)
        ensures
            history_size > 0 ==> (r matches Ok(t) && t == (match self {
                ArgOptimizeAlgorithm::Bfgs(b) => ArgOptimizeAlgorithm::LBfgs(b, history_size),
                ArgOptimizeAlgorithm::LBfgs(b, _) => ArgOptimizeAlgorithm::LBfgs(b, history_size),
                ArgOptimizeAlgorithm::Newton => ArgOptimizeAlgorithm::LBfgs(
                    ArgOptimizeBfgs {
                        init_alpha: fx(1_000_000_000),
                        tol_obj: fx(1),
                        tol_rel_obj: fx(10_000_000_000_000_000),
                        tol_grad: fx(10_000),
                        tol_rel_grad: fx(10_000_000_000_000_000_000),
                        tol_param: fx(10_000),
                    },
                    history_size,
                ),
            })),
            history_size == 0 ==> (r matches Err(e) && e matches ArgError::BadArgumentValue(m) && m@ == "Optimize: history_size cannot be 0"@),
    {
        let mut t = self;
        match t.set_history_size(history_size) {
            Ok(()) => Ok(t),
            Err(e) => Err(e),
        }
    }

    /// Drops the history size, turning the choice into plain BFGS; the
    /// shared options are kept, and Newton gets the default options.
    /// The history size itself is not preserved anywhere.
    pub fn drop_history_size(&mut self)
        ensures
            *final(self) == (match *old(self) {
                ArgOptimizeAlgorithm::Bfgs(b) => ArgOptimizeAlgorithm::Bfgs(b),
                ArgOptimizeAlgorithm::LBfgs(b, _) => ArgOptimizeAlgorithm::Bfgs(b),
                ArgOptimizeAlgorithm::Newton => ArgOptimizeAlgorithm::Bfgs(
                    ArgOptimizeBfgs {
                        init_alpha: fx(1_000_000_000),
                        tol_obj: fx(1),
                        tol_rel_obj: fx(10_000_000_000_000_000),
                        tol_grad: fx(10_000),
                        tol_rel_grad: fx(10_000_000_000_000_000_000),
                        tol_param: fx(10_000),
                    },
                ),
            }),
    {
        match self {
            ArgOptimizeAlgorithm::LBfgs(b, _) => {
                *self = ArgOptimizeAlgorithm::Bfgs(*b);
            },
            ArgOptimizeAlgorithm::Newton => {
                *self = ArgOptimizeAlgorithm::Bfgs(ArgOptimizeBfgs::arg_default());
            },
            _ => {},
        }
    }

    /// Consuming form of `drop_history_size`.
    pub fn without_history_size(self) -> (r: Self)
        ensures
            r == (match self {
                ArgOptimizeAlgorithm::Bfgs(b) => ArgOptimizeAlgorithm::Bfgs(b),
                ArgOptimizeAlgorithm::LBfgs(b, _) => ArgOptimizeAlgorithm::Bfgs(b),
                ArgOptimizeAlgorithm::Newton => ArgOptimizeAlgorithm::Bfgs(
                    ArgOptimizeBfgs {
                        init_alpha: fx(1_000_000_000),
                        tol_obj: fx(1),
                        tol_rel_obj: fx(10_000_000_000_000_000),
                        tol_grad: fx(10_000),
                        tol_rel_grad: fx(10_000_000_000_000_000_000),
                        tol_param: fx(10_000),
                    },
                ),
            }),
    {
        match self {
            ArgOptimizeAlgorithm::Bfgs(b) => ArgOptimizeAlgorithm::Bfgs(b),
            ArgOptimizeAlgorithm::LBfgs(b, _) => ArgOptimizeAlgorithm::Bfgs(b),
            ArgOptimizeAlgorithm::Newton => ArgOptimizeAlgorithm::Bfgs(
                ArgOptimizeBfgs::arg_default(),
            ),
        }
    }

    /// Switches to Newton's method, discarding any BFGS options.
    pub fn set_newton(&mut self)
        ensures
            *final(self) == ArgOptimizeAlgorithm::Newton,
    {
        *self = ArgOptimizeAlgorithm::Newton;
    }

    /// Consuming form of `set_newton`.
    pub fn with_newton(self) -> (r: Self)
        ensures
            r == ArgOptimizeAlgorithm::Newton,
    {
        ArgOptimizeAlgorithm::Newton
    }

    /// Switching an L-BFGS choice to BFGS and then asking for L-BFGS
    /// history again does not bring the old history size back: the
    /// conversion is non-preserving, and only the newly given size (or,
    /// through the default arm, 5) can appear.
    pub proof fn lemma_history_size_not_preserved(b: ArgOptimizeBfgs, h: u32, h2: u32)
        requires
            h2 > 0,
        ensures
            (match ArgOptimizeAlgorithm::LBfgs(b, h) {
                ArgOptimizeAlgorithm::Bfgs(x) => ArgOptimizeAlgorithm::Bfgs(x),
                ArgOptimizeAlgorithm::LBfgs(x, _) => ArgOptimizeAlgorithm::Bfgs(x),
                ArgOptimizeAlgorithm::Newton => ArgOptimizeAlgorithm::Newton,
            }) == ArgOptimizeAlgorithm::Bfgs(b),
            (match ArgOptimizeAlgorithm::Bfgs(b) {
                ArgOptimizeAlgorithm::Bfgs(x) => ArgOptimizeAlgorithm::LBfgs(x, h2),
                ArgOptimizeAlgorithm::LBfgs(x, _) => ArgOptimizeAlgorithm::LBfgs(x, h2),
                ArgOptimizeAlgorithm::Newton => ArgOptimizeAlgorithm::Newton,
            }) == ArgOptimizeAlgorithm::LBfgs(b, h2),
    {
    }
}

impl ArgThrough for ArgOptimize {
    open spec fn spec_arg_type(&self) -> Option<ArgType> {
        Some(ArgType::Optimize)
    }

    open spec fn spec_tokens(&self) -> Seq<Seq<char>> {
        seq!["optimize"@] + self.algorithm.spec_group_tokens() + self.spec_field_tokens()
    }

    open spec fn spec_side_files(&self) -> Seq<(Seq<char>, Seq<char>)> {
        Seq::<(Seq<char>, Seq<char>)>::empty()
    }

    open spec fn spec_output_path(&self) -> Option<Seq<char>> {
        None
    }

    fn arg_type(&self) -> (r: Result<ArgType, ArgError>) {
        Ok(ArgType::Optimize)
    }

    fn arg_through(&self, sink: &mut ArgSink) -> (r: Result<(), ArgError>) {
        let ghost base = token_views(old(sink).tokens@);
        push_keyword(sink, "optimize");
        self.algorithm.emit(sink);
        proof {
            lemma_concat_assoc(base, seq!["optimize"@], self.algorithm.spec_group_tokens());
        }
        self.emit_fields(sink);
        proof {
            lemma_concat_assoc(
                base,
                seq!["optimize"@] + self.algorithm.spec_group_tokens(),
                self.spec_field_tokens(),
            );
        }
        Ok(())
    }

    fn get_output_path(&self) -> (r: Result<ArgPath, ArgError>) {
        Err(ArgError::NotValidArgTreeType(String::from_str(
            "no ArgOutput found in arg_tree; wrap the mode tree in WithCommonArgs or implement get_output_path",
        )))
    }
}

impl ArgOptimize {
    /// The tokens of the plain option fields, in declaration order.
    pub open spec fn spec_field_tokens(&self) -> Seq<Seq<char>> {
        tok_if(self.jacobian != false, kv("jacobian"@, bool_str(self.jacobian))) + tok_if(
            self.iter != 2000,
            kv("iter"@, dec_nat(self.iter as nat)),
        ) + tok_if(
            self.save_iterations != false,
            kv("save_iterations"@, bool_str(self.save_iterations)),
        )
    }

    /// Emits the plain option fields.
    fn emit_fields(&self, sink: &mut ArgSink)
        ensures
            token_views(final(sink).tokens@) == token_views(old(sink).tokens@)
                + self.spec_field_tokens(),
            final(sink).side_files@ == old(sink).side_files@,
    {
        arg_if_not_default_bool(sink, "jacobian", self.jacobian, false);
        arg_if_not_default_u32(sink, "iter", self.iter, 2000);
        arg_if_not_default_bool(sink, "save_iterations", self.save_iterations, false);
        assert(token_views(sink.tokens@) =~= token_views(old(sink).tokens@)
            + self.spec_field_tokens());
    }

    /// The all-default tree.
    pub fn new() -> (r: Self)
        ensures
            r.spec_is_default(),
    {
        Self::arg_default()
    }

    /// A default tree serializes to the bare mode keyword alone.
    pub proof fn lemma_default_tokens(&self)
        requires
            self.spec_is_default(),
        ensures
            self.spec_tokens() =~= seq!["optimize"@],
    {
    }

    /// Sets the algorithm choice.
    pub fn set_algorithm(&mut self, algorithm: ArgOptimizeAlgorithm)
        ensures
            *final(self) == (ArgOptimize { algorithm, ..*old(self) }),
    {
        self.algorithm = algorithm;
    }

    /// Sets the algorithm choice from a borrowed value.
    pub fn set_algorithm_clone(&mut self, algorithm: &ArgOptimizeAlgorithm)
        ensures
            *final(self) == (ArgOptimize { algorithm: *algorithm, ..*old(self) }),
    {
        self.algorithm = algorithm.clone();
        proof {
            assert(*final(self) == (ArgOptimize { algorithm: *algorithm, ..*old(self) }));
        }
    }

    /// Consuming form of `set_algorithm_clone`.
    pub fn with_algorithm_clone(self, algorithm: &ArgOptimizeAlgorithm) -> (r: Self)
        ensures
            r == (ArgOptimize { algorithm: *algorithm, ..self }),
    {
        let mut t = self;
        t.set_algorithm_clone(algorithm);
        t
    }

    /// Sets the Jacobian-adjustment flag.
    pub fn set_jacobian(&mut self, jacobian: bool)
        ensures
            *final(self) == (ArgOptimize { jacobian, ..*old(self) }),
    {
        self.jacobian = jacobian;
    }

    /// Sets the total number of iterations; zero is rejected, leaving
    /// the tree unchanged.
    pub fn set_iter(&mut self, iter: u32) -> (r: Result<(), ArgError>)
        ensures
            iter > 0 ==> (r is Ok && *final(self) == (ArgOptimize { iter, ..*old(self) })),
            iter == 0 ==> (r matches Err(e) && e matches ArgError::BadArgumentValue(m) && m@ == "Optimize: iter cannot be 0"@
                && *final(self) == *old(self)),
    {
        if iter == 0 {
            return Err(ArgError::BadArgumentValue(String::from_str("Optimize: iter cannot be 0")));
        }
        self.iter = iter;
        Ok(())
    }

    /// Sets the progress-streaming flag.
    pub fn set_save_iterations(&mut self, save_iterations: bool)
        ensures
            *final(self) == (ArgOptimize { save_iterations, ..*old(self) }),
    {
        self.save_iterations = save_iterations;
    }
}

} // verus!
