//! The quantity-generation mode: quantities of interest from a sample of
//! fitted parameter values.

use vstd::prelude::*;

use crate::arg_paths::{ArgPath, ArgReadablePath};
use crate::render::dec_nat;
use crate::stan_command::arg_tree::{
    arg_if_not_default_rpath, arg_if_not_default_u32, kv, push_keyword, tok_if,
};
use crate::stan_command::{token_views, ArgError, ArgSink, ArgThrough, ArgType, WithDefaultArg};

verus! {

/// Generate quantities of interest.
#[derive(Debug, Clone, PartialEq, Eq)]
pub struct ArgGenerate {
    /// Input file of a sample of fitted parameter values for the model
    /// conditioned on data.  Default: the empty path.
    pub fitted_params: ArgReadablePath,
    /// Number of chains.  Default: `1`.
    pub num_chains: u32,
}

impl WithDefaultArg for ArgGenerate {
    open spec fn spec_is_default(&self) -> bool {
        &&& self.fitted_params.spec_is_default()
        &&& self.num_chains == 1
    }

    fn arg_default() -> (r: Self) {
        ArgGenerate { fitted_params: ArgReadablePath::arg_default(), num_chains: 1 }
    }

    fn is_default(&self) -> (r: bool) {
        self.fitted_params.is_default() && self.num_chains == 1
    }
}

impl ArgThrough for ArgGenerate {
    open spec fn spec_arg_type(&self) -> Option<ArgType> {
        Some(ArgType::GenerateQuantities)
    }

    open spec fn spec_tokens(&self) -> Seq<Seq<char>> {
        seq!["generate_quantities"@] + tok_if(
            self.num_chains != 1,
            kv("num_chains"@, dec_nat(self.num_chains as nat)),
        ) + tok_if(
            !self.fitted_params.spec_is_default(),
            kv("fitted_params"@, self.fitted_params.spec_text()),
        )
    }

    open spec fn spec_side_files(&self) -> Seq<(Seq<char>, Seq<char>)> {
        Seq::<(Seq<char>, Seq<char>)>::empty()
    }

    open spec fn spec_output_path(&self) -> Option<Seq<char>> {
        None
    }

    fn arg_type(&self) -> (r: Result<ArgType, ArgError>) {
        Ok(ArgType::GenerateQuantities)
    }

    fn arg_through(&self, sink: &mut ArgSink) -> (r: Result<(), ArgError>) {
        push_keyword(sink, "generate_quantities");
        arg_if_not_default_u32(sink, "num_chains", self.num_chains, 1);
        arg_if_not_default_rpath(sink, "fitted_params", &self.fitted_params);
        assert(token_views(sink.tokens@) =~= token_views(old(sink).tokens@) + self.spec_tokens());
        Ok(())
    }

    fn get_output_path(&self) -> (r: Result<ArgPath, ArgError>) {
        Err(ArgError::NotValidArgTreeType(String::from_str(
            "no ArgOutput found in arg_tree; wrap the mode tree in WithCommonArgs or implement get_output_path",
        )))
    }
}

impl ArgGenerate {
    /// The all-default tree.
    pub fn new() -> (r: Self)
        ensures
            r.spec_is_default(),
    {
        Self::arg_default()
    }

    /// A default tree serializes to the bare mode keyword alone.
    pub proof fn lemma_default_tokens(&self)
        requires
            self.spec_is_default(),
        ensures
            self.spec_tokens() =~= seq!["generate_quantities"@],
    {
    }

    /// Sets the number of chains; zero is rejected, leaving the tree
    /// unchanged.
    pub fn set_num_chains(&mut self, num_chains: u32) -> (r: Result<(), ArgError>)
        ensures
            num_chains > 0 ==> (r is Ok && *final(self) == (ArgGenerate {
                num_chains,
                ..*old(self)
            })),
            num_chains == 0 ==> (r matches Err(e) && e matches ArgError::BadArgumentValue(m) && m@ == "Generate: num_chains cannot be 0"@
                && *final(self) == *old(self)),
    {
        if num_chains == 0 {
            return Err(
                ArgError::BadArgumentValue(String::from_str("Generate: num_chains cannot be 0")),
            );
        }
        self.num_chains = num_chains;
        Ok(())
    }

    /// Sets the fitted-parameters input file.
    pub fn set_fitted_params(&mut self, fitted_params: ArgReadablePath)
        ensures
            *final(self) == (ArgGenerate { fitted_params, ..*old(self) }),
    {
        self.fitted_params = fitted_params;
    }

    /// Consuming form of `set_num_chains`.
    pub fn with_num_chains(self, num_chains: u32) -> (r: Result<Self, ArgError>)
        ensures
            num_chains > 0 ==> (r matches Ok(t) && t == (ArgGenerate { num_chains, ..self })),
            num_chains == 0 ==> (r matches Err(e) && e matches ArgError::BadArgumentValue(m) && m@ == "Generate: num_chains cannot be 0"@),
    {
        let mut t = self;
        match t.set_num_chains(num_chains) {
            Ok(()) => Ok(t),
            Err(e) => Err(e),
        }
    }

    /// Consuming form of `set_fitted_params`.
    pub fn with_fitted_params(self, fitted_params: ArgReadablePath) -> (r: Self)
        ensures
            r == (ArgGenerate { fitted_params, ..self }),
    {
        ArgGenerate { fitted_params, ..self }
    }
}

} // verus!
