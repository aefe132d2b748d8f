//! The Laplace-sampling mode: draws from a Laplace approximation around
//! a supplied mode.

use vstd::prelude::*;

use crate::arg_paths::{ArgPath, ArgReadablePath};
use crate::render::{bool_str, dec_nat};
use crate::stan_command::arg_tree::{
    arg_if_not_default_bool, arg_if_not_default_rpath, arg_if_not_default_u32, kv,
    lemma_contains_concat, lemma_contains_tok_if, push_keyword, tok_if,
};
use crate::stan_command::{token_views, ArgError, ArgSink, ArgThrough, ArgType, WithDefaultArg};

verus! {

/// Sample from a Laplace approximation.
#[derive(Debug, Clone, PartialEq, Eq)]
pub struct ArgLaplace {
    /// A specification of a mode on the constrained scale for all model
    /// parameters.  Default: the empty path.
    pub mode: ArgReadablePath,
    /// When true, include the change-of-variables adjustment for
    /// constraining parameter transforms.  Default: `true`.
    pub jacobian: bool,
    /// Number of draws from the Laplace approximation.  Default: `1000`.
    pub draws: u32,
    /// If true, calculate the log probability of the model at each draw.
    /// Default: `true`.
    pub calculate_lp: bool,
}

impl WithDefaultArg for ArgLaplace {
    open spec fn spec_is_default(&self) -> bool {
        &&& self.mode.spec_is_default()
        &&& self.jacobian == true
        &&& self.draws == 1000
        &&& self.calculate_lp == true
    }

    fn arg_default() -> (r: Self) {
        ArgLaplace {
            mode: ArgReadablePath::arg_default(),
            jacobian: true,
            draws: 1000,
            calculate_lp: true,
        }
    }

    fn is_default(&self) -> (r: bool) {
        self.mode.is_default() && self.jacobian == true && self.draws == 1000
            && self.calculate_lp == true
    }
}

impl ArgThrough for ArgLaplace {
    open spec fn spec_arg_type(&self) -> Option<ArgType> {
        Some(ArgType::Laplace)
    }

    open spec fn spec_tokens(&self) -> Seq<Seq<char>> {
        seq!["laplace"@] + tok_if(!self.mode.spec_is_default(), kv("mode"@, self.mode.spec_text()))
            + tok_if(self.jacobian != true, kv("jacobian"@, bool_str(self.jacobian))) + tok_if(
            self.draws != 1000,
            kv("draws"@, dec_nat(self.draws as nat)),
        ) + tok_if(self.calculate_lp != true, kv("calculate_lp"@, bool_str(self.calculate_lp)))
    }

    open spec fn spec_side_files(&self) -> Seq<(Seq<char>, Seq<char>)> {
        Seq::<(Seq<char>, Seq<char>)>::empty()
    }

    open spec fn spec_output_path(&self) -> Option<Seq<char>> {
        None
    }

    fn arg_type(&self) -> (r: Result<ArgType, ArgError>) {
        Ok(ArgType::Laplace)
    }

    fn arg_through(&self, sink: &mut ArgSink) -> (r: Result<(), ArgError>) {
        push_keyword(sink, "laplace");
        arg_if_not_default_rpath(sink, "mode", &self.mode);
        arg_if_not_default_bool(sink, "jacobian", self.jacobian, true);
        arg_if_not_default_u32(sink, "draws", self.draws, 1000);
        arg_if_not_default_bool(sink, "calculate_lp", self.calculate_lp, true);
        assert(token_views(sink.tokens@) =~= token_views(old(sink).tokens@) + self.spec_tokens());
        Ok(())
    }

    fn get_output_path(&self) -> (r: Result<ArgPath, ArgError>) {
        Err(ArgError::NotValidArgTreeType(String::from_str(
            "no ArgOutput found in arg_tree; wrap the mode tree in WithCommonArgs or implement get_output_path",
        )))
    }
}

impl ArgLaplace {
    /// The all-default tree.
    pub fn new() -> (r: Self)
        ensures
            r.spec_is_default(),
    {
        Self::arg_default()
    }

    /// A default tree serializes to the bare mode keyword alone.
    pub proof fn lemma_default_tokens(&self)
        requires
            self.spec_is_default(),
        ensures
            self.spec_tokens() =~= seq!["laplace"@],
    {
    }

    /// The round trip of the default-diffing rule over the whole tree:
    /// the mode keyword always stands in the output, and each field's
    /// token stands there exactly when that field differs from its
    /// default, so the set of overridden field names can be re-derived
    /// from the emitted tokens.
    pub proof fn lemma_roundtrip_tokens(t: ArgLaplace)
        ensures
            t.spec_tokens().contains("laplace"@),
            t.spec_tokens().contains(kv("mode"@, t.mode.spec_text())) <==> !t.mode.spec_is_default(),
            t.spec_tokens().contains(kv("jacobian"@, bool_str(t.jacobian))) <==> t.jacobian
                != true,
            t.spec_tokens().contains(kv("draws"@, dec_nat(t.draws as nat))) <==> t.draws != 1000,
            t.spec_tokens().contains(kv("calculate_lp"@, bool_str(t.calculate_lp)))
                <==> t.calculate_lp != true,
    {
        reveal_strlit("laplace");
        reveal_strlit("mode");
        reveal_strlit("jacobian");
        reveal_strlit("draws");
        reveal_strlit("calculate_lp");
        let kw = "laplace"@;
        let k1 = kv("mode"@, t.mode.spec_text());
        let k2 = kv("jacobian"@, bool_str(t.jacobian));
        let k3 = kv("draws"@, dec_nat(t.draws as nat));
        let k4 = kv("calculate_lp"@, bool_str(t.calculate_lp));
        // the keyword and the four field names differ pairwise at their
        // first character, so no token can be mistaken for another's
        assert(k1 != kw && k2 != kw && k3 != kw && k4 != kw) by {
            assert(k1[0] == 'm' && k2[0] == 'j' && k3[0] == 'd' && k4[0] == 'c' && kw[0] == 'l');
        }
        assert(k1 != k2 && k1 != k3 && k1 != k4 && k2 != k3 && k2 != k4 && k3 != k4) by {
            assert(k1[0] == 'm' && k2[0] == 'j' && k3[0] == 'd' && k4[0] == 'c');
        }
        let a = seq![kw];
        let b = tok_if(!t.mode.spec_is_default(), k1);
        let c = tok_if(t.jacobian != true, k2);
        let d = tok_if(t.draws != 1000, k3);
        let e = tok_if(t.calculate_lp != true, k4);
        lemma_roundtrip_parts(a, b, c, d, e, kw);
        lemma_roundtrip_parts(a, b, c, d, e, k1);
        lemma_roundtrip_parts(a, b, c, d, e, k2);
        lemma_roundtrip_parts(a, b, c, d, e, k3);
        lemma_roundtrip_parts(a, b, c, d, e, k4);
        lemma_contains_tok_if(!t.mode.spec_is_default(), k1, k1);
        lemma_contains_tok_if(t.jacobian != true, k2, k2);
        lemma_contains_tok_if(t.draws != 1000, k3, k3);
        lemma_contains_tok_if(t.calculate_lp != true, k4, k4);
        assert(a.contains(kw)) by {
            assert(a[0] == kw);
        }
        assert forall|x: Seq<char>| b.contains(x) implies x == k1 by {
            lemma_contains_tok_if(!t.mode.spec_is_default(), k1, x);
        }
        assert forall|x: Seq<char>| c.contains(x) implies x == k2 by {
            lemma_contains_tok_if(t.jacobian != true, k2, x);
        }
        assert forall|x: Seq<char>| d.contains(x) implies x == k3 by {
            lemma_contains_tok_if(t.draws != 1000, k3, x);
        }
        assert forall|x: Seq<char>| e.contains(x) implies x == k4 by {
            lemma_contains_tok_if(t.calculate_lp != true, k4, x);
        }
    }

    /// Sets the mode-specification path.
    pub fn set_mode(&mut self, mode: ArgReadablePath)
        ensures
            *final(self) == (ArgLaplace { mode, ..*old(self) }),
    {
        self.mode = mode;
    }

    /// Sets the Jacobian-adjustment flag.
    pub fn set_jacobian(&mut self, jacobian: bool)
        ensures
            *final(self) == (ArgLaplace { jacobian, ..*old(self) }),
    {
        self.jacobian = jacobian;
    }

    /// Sets the number of draws; zero is outside the valid domain and is
    /// rejected, leaving the tree unchanged.
    pub fn set_draws(&mut self, draws: u32) -> (r: Result<(), ArgError>)
        ensures
            draws > 0 ==> (r is Ok && *final(self) == (ArgLaplace { draws, ..*old(self) })),
            draws == 0 ==> (r matches Err(e) && e matches ArgError::BadArgumentValue(m) && m@ == "Laplace: draws cannot be 0"@
                && *final(self) == *old(self)),
    {
        if draws == 0 {
            return Err(ArgError::BadArgumentValue(String::from_str("Laplace: draws cannot be 0")));
        }
        self.draws = draws;
        Ok(())
    }

    /// Sets the log-probability flag.
    pub fn set_calculate_lp(&mut self, calculate_lp: bool)
        ensures
            *final(self) == (ArgLaplace { calculate_lp, ..*old(self) }),
    {
        self.calculate_lp = calculate_lp;
    }

    /// Consuming form of `set_mode`.
    pub fn with_mode(self, mode: ArgReadablePath) -> (r: Self)
        ensures
            r == (ArgLaplace { mode, ..self }),
    {
        ArgLaplace { mode, ..self }
    }

    /// Consuming form of `set_jacobian`.
    pub fn with_jacobian(self, jacobian: bool) -> (r: Self)
        ensures
            r == (ArgLaplace { jacobian, ..self }),
    {
        ArgLaplace { jacobian, ..self }
    }

    /// Consuming form of `set_draws`.
    pub fn with_draws(self, draws: u32) -> (r: Result<Self, ArgError>)
        ensures
            draws > 0 ==> (r matches Ok(t) && t == (ArgLaplace { draws, ..self })),
            draws == 0 ==> (r matches Err(e) && e matches ArgError::BadArgumentValue(m) && m@ == "Laplace: draws cannot be 0"@),
    {
        let mut t = self;
        match t.set_draws(draws) {
            Ok(()) => Ok(t),
            Err(e) => Err(e),
        }
    }

    /// Consuming form of `set_calculate_lp`.
    pub fn with_calculate_lp(self, calculate_lp: bool) -> (r: Self)
        ensures
            r == (ArgLaplace { calculate_lp, ..self }),
    {
        ArgLaplace { calculate_lp, ..self }
    }
}

/// Membership in the five-part token concatenation is membership in
/// one of the parts.
proof fn lemma_roundtrip_parts(
    a: Seq<Seq<char>>,
    b: Seq<Seq<char>>,
    c: Seq<Seq<char>>,
    d: Seq<Seq<char>>,
    e: Seq<Seq<char>>,
    x: Seq<char>,
)
    ensures
        (a + b + c + d + e).contains(x) <==> (a.contains(x) || b.contains(x) || c.contains(x)
            || d.contains(x) || e.contains(x)),
{
    lemma_contains_concat(a + b + c + d, e, x);
    lemma_contains_concat(a + b + c, d, x);
    lemma_contains_concat(a + b, c, x);
    lemma_contains_concat(a, b, x);
}


} // verus!
