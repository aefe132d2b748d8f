//! The log-probability mode: the log density up to a constant and its
//! gradients, for supplied parameter values.

use vstd::prelude::*;

use crate::arg_paths::{ArgPath, ArgReadablePath};
use crate::render::bool_str;
use crate::stan_command::arg_tree::{
    arg_if_not_default_bool, arg_if_not_default_rpath, kv, push_keyword, tok_if,
};
use crate::stan_command::{token_views, ArgError, ArgSink, ArgThrough, ArgType, WithDefaultArg};

verus! {

/// Return the log density up to a constant and its gradients, given
/// supplied parameters.
#[derive(Debug, Clone, PartialEq, Eq)]
pub struct ArgLogProb {
    /// Input file of parameter values on the unconstrained scale.
    /// Default: the empty path.
    pub unconstrained_params: ArgReadablePath,
    /// Input file of parameter values on the constrained scale.
    /// Default: the empty path.
    pub constrained_params: ArgReadablePath,
    /// When true, include the change-of-variables adjustment for
    /// constraining parameter transforms.  Default: `true`.
    pub jacobian: bool,
}

impl WithDefaultArg for ArgLogProb {
    open spec fn spec_is_default(&self) -> bool {
        &&& self.unconstrained_params.spec_is_default()
        &&& self.constrained_params.spec_is_default()
        &&& self.jacobian == true
    }

    fn arg_default() -> (r: Self) {
        ArgLogProb {
            unconstrained_params: ArgReadablePath::arg_default(),
            constrained_params: ArgReadablePath::arg_default(),
            jacobian: true,
        }
    }

    fn is_default(&self) -> (r: bool) {
        self.unconstrained_params.is_default() && self.constrained_params.is_default()
            && self.jacobian == true
    }
}

impl ArgThrough for ArgLogProb {
    open spec fn spec_arg_type(&self) -> Option<ArgType> {
        Some(ArgType::LogProb)
    }

    open spec fn spec_tokens(&self) -> Seq<Seq<char>> {
        seq!["log_prob"@] + tok_if(
            !self.unconstrained_params.spec_is_default(),
            kv("unconstrained_params"@, self.unconstrained_params.spec_text()),
        ) + tok_if(
            !self.constrained_params.spec_is_default(),
            kv("constrained_params"@, self.constrained_params.spec_text()),
        ) + tok_if(self.jacobian != true, kv("jacobian"@, bool_str(self.jacobian)))
    }

    open spec fn spec_side_files(&self) -> Seq<(Seq<char>, Seq<char>)> {
        Seq::<(Seq<char>, Seq<char>)>::empty()
    }

    open spec fn spec_output_path(&self) -> Option<Seq<char>> {
        None
    }

    fn arg_type(&self) -> (r: Result<ArgType, ArgError>) {
        Ok(ArgType::LogProb)
    }

    fn arg_through(&self, sink: &mut ArgSink) -> (r: Result<(), ArgError>) {
        push_keyword(sink, "log_prob");
        arg_if_not_default_rpath(sink, "unconstrained_params", &self.unconstrained_params);
        arg_if_not_default_rpath(sink, "constrained_params", &self.constrained_params);
        arg_if_not_default_bool(sink, "jacobian", self.jacobian, true);
        assert(token_views(sink.tokens@) =~= token_views(old(sink).tokens@) + self.spec_tokens());
        Ok(())
    }

    fn get_output_path(&self) -> (r: Result<ArgPath, ArgError>) {
        Err(ArgError::NotValidArgTreeType(String::from_str(
            "no ArgOutput found in arg_tree; wrap the mode tree in WithCommonArgs or implement get_output_path",
        )))
    }
}

impl ArgLogProb {
    /// The all-default tree.
    pub fn new() -> (r: Self)
        ensures
            r.spec_is_default(),
    {
        Self::arg_default()
    }

    /// A default tree serializes to the bare mode keyword alone.
    pub proof fn lemma_default_tokens(&self)
        requires
            self.spec_is_default(),
        ensures
            self.spec_tokens() =~= seq!["log_prob"@],
    {
    }

    /// Sets the unconstrained-parameters input file.
    pub fn set_unconstrained_params(&mut self, unconstrained_params: ArgReadablePath)
        ensures
            *final(self) == (ArgLogProb { unconstrained_params, ..*old(self) }),
    {
        self.unconstrained_params = unconstrained_params;
    }

    /// Sets the constrained-parameters input file.
    pub fn set_constrained_params(&mut self, constrained_params: ArgReadablePath)
        ensures
            *final(self) == (ArgLogProb { constrained_params, ..*old(self) }),
    {
        self.constrained_params = constrained_params;
    }

    /// Sets the Jacobian-adjustment flag.
    pub fn set_jacobian(&mut self, jacobian: bool)
        ensures
            *final(self) == (ArgLogProb { jacobian, ..*old(self) }),
    {
        self.jacobian = jacobian;
    }

    /// Consuming form of `set_unconstrained_params`.
    pub fn with_unconstrained_params(self, unconstrained_params: ArgReadablePath) -> (r: Self)
        ensures
            r == (ArgLogProb { unconstrained_params, ..self }),
    {
        ArgLogProb { unconstrained_params, ..self }
    }

    /// Consuming form of `set_constrained_params`.
    pub fn with_constrained_params(self, constrained_params: ArgReadablePath) -> (r: Self)
        ensures
            r == (ArgLogProb { constrained_params, ..self }),
    {
        ArgLogProb { constrained_params, ..self }
    }

    /// Consuming form of `set_jacobian`.
    pub fn with_jacobian(self, jacobian: bool) -> (r: Self)
        ensures
            r == (ArgLogProb { jacobian, ..self }),
    {
        ArgLogProb { jacobian, ..self }
    }
}

} // verus!
