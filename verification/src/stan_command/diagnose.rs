//! The diagnostic mode: checking the model gradient against finite
//! differences.

use vstd::prelude::*;

use crate::arg_paths::ArgPath;
use crate::fixed::{fx, fx_exec, Fixed};
use crate::stan_command::arg_tree::{arg_if_not_default_fixed, kv, push_keyword, tok_if};
use crate::stan_command::{token_views, ArgError, ArgSink, ArgThrough, ArgType, WithDefaultArg};

verus! {

/// Check the model gradient against finite differences.
#[derive(Debug, Clone, PartialEq, Eq, Structural)]
pub struct ArgDiagnoseGradient {
    /// Finite difference step size.  Default: `1e-6`.
    pub epsilon: Fixed,
    /// Error threshold.  Default: `1e-6`.
    pub error: Fixed,
}

/// Model diagnostics.  The diagnostic test is a one-armed choice whose
/// only (and default) arm is the gradient test.
#[derive(Debug, Clone, PartialEq, Eq, Structural)]
pub enum ArgDiagnose {
    Gradient(ArgDiagnoseGradient),
}

impl WithDefaultArg for ArgDiagnoseGradient {
    open spec fn spec_is_default(&self) -> bool {
        &&& self.epsilon == fx(1_000_000)
        &&& self.error == fx(1_000_000)
    }

    fn arg_default() -> (r: Self) {
        ArgDiagnoseGradient { epsilon: fx_exec(1_000_000), error: fx_exec(1_000_000) }
    }

    fn is_default(&self) -> (r: bool) {
        self.epsilon == fx_exec(1_000_000) && self.error == fx_exec(1_000_000)
    }
}

impl WithDefaultArg for ArgDiagnose {
    open spec fn spec_is_default(&self) -> bool {
        self matches ArgDiagnose::Gradient(g) && g.spec_is_default()
    }

    fn arg_default() -> (r: Self) {
        ArgDiagnose::Gradient(ArgDiagnoseGradient::arg_default())
    }

    fn is_default(&self) -> (r: bool) {
        match self {
            ArgDiagnose::Gradient(g) => g.is_default(),
        }
    }
}

impl ArgDiagnoseGradient {
    /// The tokens of the gradient test: nothing when all-default, per
    /// the default-diffing rule; otherwise its discriminant, then the
    /// non-default thresholds.
    pub open spec fn spec_group_tokens(&self) -> Seq<Seq<char>> {
        tok_if(!self.spec_is_default(), "test=gradient"@) + tok_if(
            self.epsilon != fx(1_000_000),
            kv("epsilon"@, self.epsilon.spec_text()),
        ) + tok_if(self.error != fx(1_000_000), kv("error"@, self.error.spec_text()))
    }

    /// Emits the gradient test's tokens.
    pub fn emit(&self, sink: &mut ArgSink)
        ensures
            token_views(final(sink).tokens@) == token_views(old(sink).tokens@)
                + self.spec_group_tokens(),
            final(sink).side_files@ == old(sink).side_files@,
    {
        if !self.is_default() {
            push_keyword(sink, "test=gradient");
        }
        arg_if_not_default_fixed(sink, "epsilon", self.epsilon, fx_exec(1_000_000));
        arg_if_not_default_fixed(sink, "error", self.error, fx_exec(1_000_000));
        assert(token_views(sink.tokens@) =~= token_views(old(sink).tokens@)
            + self.spec_group_tokens());
    }

    /// The all-default test.
    pub fn new() -> (r: Self)
        ensures
            r.spec_is_default(),
    {
        Self::arg_default()
    }

    /// Sets the finite-difference step size; values not strictly
    /// positive are rejected, leaving the record unchanged.
    pub fn set_epsilon(&mut self, epsilon: Fixed) -> (r: Result<(), ArgError>)
        ensures
            epsilon.units() > 0 ==> (r is Ok && *final(self) == (ArgDiagnoseGradient {
                epsilon,
                ..*old(self)
            })),
            epsilon.units() <= 0 ==> (r matches Err(e) && e matches ArgError::BadArgumentValue(m) && m@ == "Diagnose: expected epsilon>0, found "@ + epsilon.spec_text()
                && *final(self) == *old(self)),
    {
        if !epsilon.is_positive() {
            let mut m = String::from_str("Diagnose: expected epsilon>0, found ");
            let t = epsilon.to_text();
            m.append(t.as_str());
            return Err(ArgError::BadArgumentValue(m));
        }
        self.epsilon = epsilon;
        Ok(())
    }

    /// Sets the error threshold; values not strictly positive are
    /// rejected, leaving the record unchanged.
    pub fn set_error(&mut self, error: Fixed) -> (r: Result<(), ArgError>)
        ensures
            error.units() > 0 ==> (r is Ok && *final(self) == (ArgDiagnoseGradient {
                error,
                ..*old(self)
            })),
            error.units() <= 0 ==> (r matches Err(e) && e matches ArgError::BadArgumentValue(m) && m@ == "Diagnose: expected error>0, found "@ + error.spec_text()
                && *final(self) == *old(self)),
    {
        if !error.is_positive() {
            let mut m = String::from_str("Diagnose: expected error>0, found ");
            let t = error.to_text();
            m.append(t.as_str());
            return Err(ArgError::BadArgumentValue(m));
        }
        self.error = error;
        Ok(())
    }

    /// Consuming form of `set_epsilon`.
    pub fn with_epsilon(self, epsilon: Fixed) -> (r: Result<Self, ArgError>)
        ensures
            epsilon.units() > 0 ==> (r matches Ok(t) && t == (ArgDiagnoseGradient {
                epsilon,
                ..self
            })),
            epsilon.units() <= 0 ==> (r matches Err(e) && e matches ArgError::BadArgumentValue(m) && m@ == "Diagnose: expected epsilon>0, found "@ + epsilon.spec_text()),
    {
        let mut t = self;
        match t.set_epsilon(epsilon) {
            Ok(()) => Ok(t),
            Err(e) => Err(e),
        }
    }

    /// Consuming form of `set_error`.
    pub fn with_error(self, error: Fixed) -> (r: Result<Self, ArgError>)
        ensures
            error.units() > 0 ==> (r matches Ok(t) && t == (ArgDiagnoseGradient { error, ..self })),
            error.units() <= 0 ==> (r matches Err(e) && e matches ArgError::BadArgumentValue(m) && m@ == "Diagnose: expected error>0, found "@ + error.spec_text()),
    {
        let mut t = self;
        match t.set_error(error) {
            Ok(()) => Ok(t),
            Err(e) => Err(e),
        }
    }
}

impl ArgThrough for ArgDiagnose {
    open spec fn spec_arg_type(&self) -> Option<ArgType> {
        Some(ArgType::Diagnose)
    }

    open spec fn spec_tokens(&self) -> Seq<Seq<char>> {
        seq!["diagnose"@] + match self {
            ArgDiagnose::Gradient(g) => g.spec_group_tokens(),
        }
    }

    open spec fn spec_side_files(&self) -> Seq<(Seq<char>, Seq<char>)> {
        Seq::<(Seq<char>, Seq<char>)>::empty()
    }

    open spec fn spec_output_path(&self) -> Option<Seq<char>> {
        None
    }

    fn arg_type(&self) -> (r: Result<ArgType, ArgError>) {
        Ok(ArgType::Diagnose)
    }

    fn arg_through(&self, sink: &mut ArgSink) -> (r: Result<(), ArgError>) {
        push_keyword(sink, "diagnose");
        match self {
            ArgDiagnose::Gradient(g) => {
                g.emit(sink);
            },
        }
        assert(token_views(sink.tokens@) =~= token_views(old(sink).tokens@) + self.spec_tokens());
        Ok(())
    }

    fn get_output_path(&self) -> (r: Result<ArgPath, ArgError>) {
        Err(ArgError::NotValidArgTreeType(String::from_str(
            "no ArgOutput found in arg_tree; wrap the mode tree in WithCommonArgs or implement get_output_path",
        )))
    }
}

impl ArgDiagnose {
    /// The all-default tree.
    pub fn new() -> (r: Self)
        ensures
            r.spec_is_default(),
    {
        Self::arg_default()
    }

    /// A default tree serializes to the bare mode keyword alone.
    pub proof fn lemma_default_tokens(&self)
        requires
            self.spec_is_default(),
        ensures
            self.spec_tokens() =~= seq!["diagnose"@],
    {
    }

    /// Replaces the gradient test.
    pub fn set_gradient(&mut self, gradient: ArgDiagnoseGradient)
        ensures
            *final(self) == ArgDiagnose::Gradient(gradient),
    {
        *self = ArgDiagnose::Gradient(gradient);
    }

    /// A fresh tree holding the given gradient test.
    pub fn with_gradient(&mut self, gradient: ArgDiagnoseGradient) -> (r: Self)
        ensures
            r == ArgDiagnose::Gradient(gradient),
            *final(self) == *old(self),
    {
        ArgDiagnose::Gradient(gradient)
    }

    /// The current gradient test, for in-place modification.
    pub fn get_mut_gradient(&mut self) -> (r: &mut ArgDiagnoseGradient)
        ensures
            *r == (match *old(self) {
                ArgDiagnose::Gradient(g) => g,
            }),
            *final(self) == ArgDiagnose::Gradient(*final(r)),
    {
        match self {
            ArgDiagnose::Gradient(g) => g,
        }
    }

    /// The current gradient test.
    pub fn get_gradient(&self) -> (r: &ArgDiagnoseGradient)
        ensures
            *self == ArgDiagnose::Gradient(*r),
    {
        match self {
            ArgDiagnose::Gradient(g) => g,
        }
    }
}

} // verus!
