//! The variational-inference mode (ADVI).

use vstd::prelude::*;

use crate::arg_paths::ArgPath;
use crate::fixed::{fx, fx_exec, Fixed};
use crate::render::{bool_str, dec_nat};
use crate::stan_command::arg_tree::{
    arg_if_not_default_bool, arg_if_not_default_fixed, arg_if_not_default_u32, kv,
    lemma_concat_assoc, push_keyword, tok_if,
};
use crate::stan_command::{token_views, ArgError, ArgSink, ArgThrough, ArgType, WithDefaultArg};

verus! {

/// Variational inference algorithm.
#[derive(Debug, Clone, PartialEq, Eq, Structural)]
pub enum ArgVariationalAlgorithm {
    /// Mean-field approximation (the default).
    Meanfield,
    /// Full-rank covariance.
    Fullrank,
}

/// Eta adaptation for variational inference.
#[derive(Debug, Clone, PartialEq, Eq, Structural)]
pub struct ArgVariationalAdapt {
    /// Boolean flag for eta adaptation.  Default: `true`.
    pub engaged: bool,
    /// Number of iterations for eta adaptation.  Default: `50`.
    pub iter: u32,
}

/// Variational inference.
#[derive(Debug, Clone, PartialEq, Eq)]
pub struct ArgVariational {
    /// Variational inference algorithm.  Default: mean-field.
    pub algorithm: ArgVariationalAlgorithm,
    /// Maximum number of ADVI iterations.  Default: `10000`.
    pub iter: u32,
    /// Number of Monte Carlo draws for computing the gradient.
    /// Default: `1`.
    pub grad_samples: u32,
    /// Number of Monte Carlo draws for the estimate of the ELBO.
    /// Default: `100`.
    pub elbo_samples: u32,
    /// Stepsize scaling parameter.  Default: `1`.
    pub eta: Fixed,
    /// Eta adaptation.  Default: engaged, 50 iterations.
    pub adapt: ArgVariationalAdapt,
    /// Relative tolerance parameter for convergence.  Default: `0.01`.
    pub tol_rel_obj: Fixed,
    /// Number of iterations between ELBO evaluations.  Default: `100`.
    pub eval_elbo: u32,
    /// Number of approximate posterior output draws to save.
    /// Default: `1000`.
    pub output_samples: u32,
}

impl WithDefaultArg for ArgVariationalAlgorithm {
    open spec fn spec_is_default(&self) -> bool {
        self matches ArgVariationalAlgorithm::Meanfield
    }

    fn arg_default() -> (r: Self) {
        ArgVariationalAlgorithm::Meanfield
    }

    fn is_default(&self) -> (r: bool) {
        matches!(self, ArgVariationalAlgorithm::Meanfield)
    }
}

impl WithDefaultArg for ArgVariationalAdapt {
    open spec fn spec_is_default(&self) -> bool {
        &&& self.engaged == true
        &&& self.iter == 50
    }

    fn arg_default() -> (r: Self) {
        ArgVariationalAdapt { engaged: true, iter: 50 }
    }

    fn is_default(&self) -> (r: bool) {
        self.engaged == true && self.iter == 50
    }
}

impl WithDefaultArg for ArgVariational {
    open spec fn spec_is_default(&self) -> bool {
        &&& self.algorithm.spec_is_default()
        &&& self.iter == 10000
        &&& self.grad_samples == 1
        &&& self.elbo_samples == 100
        &&& self.eta == fx(1_000_000_000_000)
        &&& self.adapt.spec_is_default()
        &&& self.tol_rel_obj == fx(10_000_000_000)
        &&& self.eval_elbo == 100
        &&& self.output_samples == 1000
    }

    fn arg_default() -> (r: Self) {
        ArgVariational {
            algorithm: ArgVariationalAlgorithm::Meanfield,
            iter: 10000,
            grad_samples: 1,
            elbo_samples: 100,
            eta: fx_exec(1_000_000_000_000),
            adapt: ArgVariationalAdapt::arg_default(),
            tol_rel_obj: fx_exec(10_000_000_000),
            eval_elbo: 100,
            output_samples: 1000,
        }
    }

    fn is_default(&self) -> (r: bool) {
        self.algorithm.is_default() && self.iter == 10000 && self.grad_samples == 1
            && self.elbo_samples == 100 && self.eta == fx_exec(1_000_000_000_000)
            && self.adapt.is_default() && self.tol_rel_obj == fx_exec(10_000_000_000)
            && self.eval_elbo == 100 && self.output_samples == 1000
    }
}

impl ArgVariationalAlgorithm {
    /// The all-default choice.
    pub fn new() -> (r: Self)
        ensures
            r.spec_is_default(),
    {
        Self::arg_default()
    }

    /// Whether the mean-field approximation is chosen.
    pub fn is_manifile(&self) -> (r: bool)
        ensures
            r == (self matches ArgVariationalAlgorithm::Meanfield),
    {
        matches!(self, ArgVariationalAlgorithm::Meanfield)
    }

    /// Whether the full-rank covariance is chosen.
    pub fn is_fullrank(&self) -> (r: bool)
        ensures
            r == (self matches ArgVariationalAlgorithm::Fullrank),
    {
        !self.is_manifile()
    }

    /// The algorithm token: the non-default arm's discriminant alone.
    pub open spec fn spec_group_tokens(&self) -> Seq<Seq<char>> {
        tok_if(!self.spec_is_default(), "algorithm=fullrank"@)
    }
}

impl ArgVariationalAdapt {
    /// The all-default adaptation.
    pub fn new() -> (r: Self)
        ensures
            r.spec_is_default(),
    {
        Self::arg_default()
    }

    /// Sets the eta-adaptation flag.
    pub fn set_engaged(&mut self, engaged: bool)
        ensures
            *final(self) == (ArgVariationalAdapt { engaged, ..*old(self) }),
    {
        self.engaged = engaged;
    }

    /// Sets the number of adaptation iterations; zero is rejected,
    /// leaving the record unchanged.
    pub fn set_iter(&mut self, iter: u32) -> (r: Result<(), ArgError>)
        ensures
            iter > 0 ==> (r is Ok && *final(self) == (ArgVariationalAdapt { iter, ..*old(self) })),
            iter == 0 ==> (r matches Err(e) && e matches ArgError::BadArgumentValue(m) && m@ == "Variational: adapt.iter cannot be 0"@
                && *final(self) == *old(self)),
    {
        if iter == 0 {
            return Err(
                ArgError::BadArgumentValue(String::from_str("Variational: adapt.iter cannot be 0")),
            );
        }
        self.iter = iter;
        Ok(())
    }

    /// The adaptation group's tokens: nothing when all-default, else the
    /// group keyword and the non-default fields.
    pub open spec fn spec_group_tokens(&self) -> Seq<Seq<char>> {
        if self.spec_is_default() {
            Seq::<Seq<char>>::empty()
        } else {
            seq!["adapt"@] + tok_if(self.engaged != true, kv("engaged"@, bool_str(self.engaged)))
                + tok_if(self.iter != 50, kv("iter"@, dec_nat(self.iter as nat)))
        }
    }

    /// Emits the adaptation group.
    pub fn emit(&self, sink: &mut ArgSink)
        ensures
            token_views(final(sink).tokens@) == token_views(old(sink).tokens@)
                + self.spec_group_tokens(),
            final(sink).side_files@ == old(sink).side_files@,
    {
        if !self.is_default() {
            push_keyword(sink, "adapt");
            arg_if_not_default_bool(sink, "engaged", self.engaged, true);
            arg_if_not_default_u32(sink, "iter", self.iter, 50);
            assert(token_views(sink.tokens@) =~= token_views(old(sink).tokens@)
                + self.spec_group_tokens());
        } else {
            assert(token_views(sink.tokens@) =~= token_views(old(sink).tokens@)
                + self.spec_group_tokens());
        }
    }
}

impl ArgThrough for ArgVariational {
    open spec fn spec_arg_type(&self) -> Option<ArgType> {
        Some(ArgType::Variational)
    }

    open spec fn spec_tokens(&self) -> Seq<Seq<char>> {
        seq!["variational"@] + self.algorithm.spec_group_tokens() + self.adapt.spec_group_tokens()
            + self.spec_field_tokens()
    }

    open spec fn spec_side_files(&self) -> Seq<(Seq<char>, Seq<char>)> {
        Seq::<(Seq<char>, Seq<char>)>::empty()
    }

    open spec fn spec_output_path(&self) -> Option<Seq<char>> {
        None
    }

    fn arg_type(&self) -> (r: Result<ArgType, ArgError>) {
        Ok(ArgType::Variational)
    }

    fn arg_through(&self, sink: &mut ArgSink) -> (r: Result<(), ArgError>) {
        let ghost base = token_views(old(sink).tokens@);
        push_keyword(sink, "variational");
        if !self.algorithm.is_default() {
            push_keyword(sink, "algorithm=fullrank");
        }
        proof {
            assert(token_views(sink.tokens@) =~= base + (seq!["variational"@]
                + self.algorithm.spec_group_tokens()));
        }
        self.adapt.emit(sink);
        proof {
            lemma_concat_assoc(
                base,
                seq!["variational"@] + self.algorithm.spec_group_tokens(),
                self.adapt.spec_group_tokens(),
            );
        }
        self.emit_fields(sink);
        proof {
            lemma_concat_assoc(
                base,
                seq!["variational"@] + self.algorithm.spec_group_tokens()
                    + self.adapt.spec_group_tokens(),
                self.spec_field_tokens(),
            );
        }
        Ok(())
    }

    fn get_output_path(&self) -> (r: Result<ArgPath, ArgError>) {
        Err(ArgError::NotValidArgTreeType(String::from_str(
            "no ArgOutput found in arg_tree; wrap the mode tree in WithCommonArgs or implement get_output_path",
        )))
    }
}

impl ArgVariational {
    /// The tokens of the plain option fields, in declaration order.
    pub open spec fn spec_field_tokens(&self) -> Seq<Seq<char>> {
        tok_if(self.iter != 10000, kv("iter"@, dec_nat(self.iter as nat))) + tok_if(
            self.grad_samples != 1,
            kv("grad_samples"@, dec_nat(self.grad_samples as nat)),
        ) + tok_if(
            self.elbo_samples != 100,
            kv("elbo_samples"@, dec_nat(self.elbo_samples as nat)),
        ) + tok_if(self.eta != fx(1_000_000_000_000), kv("eta"@, self.eta.spec_text())) + tok_if(
            self.tol_rel_obj != fx(10_000_000_000),
            kv("tol_rel_obj"@, self.tol_rel_obj.spec_text()),
        ) + tok_if(self.eval_elbo != 100, kv("eval_elbo"@, dec_nat(self.eval_elbo as nat)))
            + tok_if(
            self.output_samples != 1000,
            kv("output_samples"@, dec_nat(self.output_samples as nat)),
        )
    }

    /// Emits the plain option fields.
    fn emit_fields(&self, sink: &mut ArgSink)
        ensures
            token_views(final(sink).tokens@) == token_views(old(sink).tokens@)
                + self.spec_field_tokens(),
            final(sink).side_files@ == old(sink).side_files@,
    {
        let ghost base = token_views(old(sink).tokens@);
        arg_if_not_default_u32(sink, "iter", self.iter, 10000);
        let ghost mut acc: Seq<Seq<char>> = tok_if(
            self.iter != 10000,
            kv("iter"@, dec_nat(self.iter as nat)),
        );
        arg_if_not_default_u32(sink, "grad_samples", self.grad_samples, 1);
        proof {
            let d = tok_if(
                self.grad_samples != 1,
                kv("grad_samples"@, dec_nat(self.grad_samples as nat)),
            );
            lemma_concat_assoc(base, acc, d);
            acc = acc + d;
        }
        arg_if_not_default_u32(sink, "elbo_samples", self.elbo_samples, 100);
        proof {
            let d = tok_if(
                self.elbo_samples != 100,
                kv("elbo_samples"@, dec_nat(self.elbo_samples as nat)),
            );
            lemma_concat_assoc(base, acc, d);
            acc = acc + d;
        }
        arg_if_not_default_fixed(sink, "eta", self.eta, fx_exec(1_000_000_000_000));
        proof {
            let d = tok_if(self.eta != fx(1_000_000_000_000), kv("eta"@, self.eta.spec_text()));
            lemma_concat_assoc(base, acc, d);
            acc = acc + d;
        }
        arg_if_not_default_fixed(sink, "tol_rel_obj", self.tol_rel_obj, fx_exec(10_000_000_000));
        proof {
            let d = tok_if(
                self.tol_rel_obj != fx(10_000_000_000),
                kv("tol_rel_obj"@, self.tol_rel_obj.spec_text()),
            );
            lemma_concat_assoc(base, acc, d);
            acc = acc + d;
        }
        arg_if_not_default_u32(sink, "eval_elbo", self.eval_elbo, 100);
        proof {
            let d = tok_if(self.eval_elbo != 100, kv("eval_elbo"@, dec_nat(self.eval_elbo as nat)));
            lemma_concat_assoc(base, acc, d);
            acc = acc + d;
        }
        arg_if_not_default_u32(sink, "output_samples", self.output_samples, 1000);
        proof {
            let d = tok_if(
                self.output_samples != 1000,
                kv("output_samples"@, dec_nat(self.output_samples as nat)),
            );
            lemma_concat_assoc(base, acc, d);
            acc = acc + d;
            assert(acc == self.spec_field_tokens());
        }
    }

    /// The all-default tree.
    pub fn new() -> (r: Self)
        ensures
            r.spec_is_default(),
    {
        Self::arg_default()
    }

    /// A default tree serializes to the bare mode keyword alone.
    pub proof fn lemma_default_tokens(&self)
        requires
            self.spec_is_default(),
        ensures
            self.spec_tokens() =~= seq!["variational"@],
    {
    }

    /// Sets the algorithm choice.
    pub fn set_algorithm(&mut self, algorithm: ArgVariationalAlgorithm)
        ensures
            *final(self) == (ArgVariational { algorithm, ..*old(self) }),
    {
        self.algorithm = algorithm;
    }

    /// Sets the eta adaptation.
    pub fn set_adapt(&mut self, adapt: ArgVariationalAdapt)
        ensures
            *final(self) == (ArgVariational { adapt, ..*old(self) }),
    {
        self.adapt = adapt;
    }

    /// Sets the maximum number of ADVI iterations; zero is rejected,
    /// leaving the tree unchanged.
    pub fn set_iter(&mut self, iter: u32) -> (r: Result<(), ArgError>)
        ensures
            iter > 0 ==> (r is Ok && *final(self) == (ArgVariational { iter, ..*old(self) })),
            iter == 0 ==> (r matches Err(e) && e matches ArgError::BadArgumentValue(m) && m@ == "Variational: iter cannot be 0"@
                && *final(self) == *old(self)),
    {
        if iter == 0 {
            return Err(
                ArgError::BadArgumentValue(String::from_str("Variational: iter cannot be 0")),
            );
        }
        self.iter = iter;
        Ok(())
    }

    /// Sets the number of gradient draws; zero is rejected, leaving the
    /// tree unchanged.
    pub fn set_grad_samples(&mut self, grad_samples: u32) -> (r: Result<(), ArgError>)
        ensures
            grad_samples > 0 ==> (r is Ok && *final(self) == (ArgVariational {
                grad_samples,
                ..*old(self)
            })),
            grad_samples == 0 ==> (r matches Err(e) && e matches ArgError::BadArgumentValue(m) && m@ == "Variational: grad_samples cannot be 0"@
                && *final(self) == *old(self)),
    {
        if grad_samples == 0 {
            return Err(
                ArgError::BadArgumentValue(
                    String::from_str("Variational: grad_samples cannot be 0"),
                ),
            );
        }
        self.grad_samples = grad_samples;
        Ok(())
    }

    /// Sets the stepsize scaling parameter; values not strictly
    /// positive are rejected, leaving the tree unchanged.
    pub fn set_eta(&mut self, eta: Fixed) -> (r: Result<(), ArgError>)
        ensures
            eta.units() > 0 ==> (r is Ok && *final(self) == (ArgVariational {
                eta,
                ..*old(self)
            })),
            eta.units() <= 0 ==> (r matches Err(e) && e matches ArgError::BadArgumentValue(m) && m@ == "Variational: expected eta>0, found "@ + eta.spec_text()
                && *final(self) == *old(self)),
    {
        if !eta.is_positive() {
            let mut m = String::from_str("Variational: expected eta>0, found ");
            let t = eta.to_text();
            m.append(t.as_str());
            return Err(ArgError::BadArgumentValue(m));
        }
        self.eta = eta;
        Ok(())
    }

    /// Sets the relative convergence tolerance; values not strictly
    /// positive are rejected, leaving the tree unchanged.
    pub fn set_tol_rel_obj(&mut self, tol_rel_obj: Fixed) -> (r: Result<(), ArgError>)
        ensures
            tol_rel_obj.units() > 0 ==> (r is Ok && *final(self) == (ArgVariational {
                tol_rel_obj,
                ..*old(self)
            })),
            tol_rel_obj.units() <= 0 ==> (r matches Err(e) && e matches
                ArgError::BadArgumentValue(m) && m@ == "Variational: expected tol_rel_obj>0, found "@ + tol_rel_obj.spec_text() && *final(self) == *old(self)),
    {
        if !tol_rel_obj.is_positive() {
            let mut m = String::from_str("Variational: expected tol_rel_obj>0, found ");
            let t = tol_rel_obj.to_text();
            m.append(t.as_str());
            return Err(ArgError::BadArgumentValue(m));
        }
        self.tol_rel_obj = tol_rel_obj;
        Ok(())
    }

    /// Sets the ELBO evaluation period; zero is rejected, leaving the
    /// tree unchanged.
    pub fn set_eval_elbo(&mut self, eval_elbo: u32) -> (r: Result<(), ArgError>)
        ensures
            eval_elbo > 0 ==> (r is Ok && *final(self) == (ArgVariational {
                eval_elbo,
                ..*old(self)
            })),
            eval_elbo == 0 ==> (r matches Err(e) && e matches ArgError::BadArgumentValue(m) && m@ == "Variational: eval_elbo cannot be 0"@
                && *final(self) == *old(self)),
    {
        if eval_elbo == 0 {
            return Err(
                ArgError::BadArgumentValue(String::from_str("Variational: eval_elbo cannot be 0")),
            );
        }
        self.eval_elbo = eval_elbo;
        Ok(())
    }

    /// Sets the number of output draws; zero is rejected, leaving the
    /// tree unchanged.
    pub fn set_output_samples(&mut self, output_samples: u32) -> (r: Result<(), ArgError>)
        ensures
            output_samples > 0 ==> (r is Ok && *final(self) == (ArgVariational {
                output_samples,
                ..*old(self)
            })),
            output_samples == 0 ==> (r matches Err(e) && e matches ArgError::BadArgumentValue(m) && m@ == "Variational: output_samples cannot be 0"@
                && *final(self) == *old(self)),
    {
        if output_samples == 0 {
            return Err(
                ArgError::BadArgumentValue(
                    String::from_str("Variational: output_samples cannot be 0"),
                ),
            );
        }
        self.output_samples = output_samples;
        Ok(())
    }
}

} // verus!
