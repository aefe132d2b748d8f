//! The cross-cutting option groups shared by every mode, and the
//! composite wrapper that attaches them to a mode tree.
//!
//! A [`WithCommonArgs`] serializes its root mode first, then the six
//! side groups in the fixed order: id, data, initializer, random seed,
//! output targets, thread count.  Mode identity comes solely from the
//! root; the side groups are not valid roots of their own.

use vstd::prelude::*;

use crate::arg_paths::{ArgPath, ArgReadablePath, ArgWritablePath};
use crate::data_entries::{spec_param_at, stan_data_text, DataEntries, DataEntry};
use crate::fixed::{fx, fx_exec, Fixed};
use crate::render::dec_nat;
use crate::stan_command::arg_tree::{
    arg_if_not_default_bool, arg_if_not_default_i32, arg_if_not_default_u32, args_combine, kv,
    lemma_concat_assoc, push_keyword, tok_if,
};
use crate::stan_command::{
    side_views, token_views, ArgError, ArgSink, ArgThrough, ArgType, WithDefaultArg,
};
use crate::StanData;

verus! {

/// Unique process identifier.
#[derive(Debug, Clone, Copy, PartialEq, Eq, Structural)]
pub struct ArgID {
    /// Unique process identifier.  Default: `1`.
    pub id: u32,
}

/// Input data options.
#[derive(Debug, Clone, PartialEq, Eq)]
pub struct ArgData {
    /// Input data file.  Default: the empty path.
    pub file: ArgReadablePath,
}

/// The initialization strategy for model parameters.
#[derive(Debug, PartialEq, Eq)]
pub enum ArgInit {
    /// Draw initial values uniformly from `[-r, r]`.  Default: `2`.
    Range(Fixed),
    /// Read initial values from a file.
    Path(ArgReadablePath),
    /// Inline initial parameter values, materialized as a JSON side
    /// file at the given path before the engine runs.
    ParamValue(DataEntries, ArgWritablePath),
}

/// Random number generator options.
#[derive(Debug, Clone, Copy, PartialEq, Eq, Structural)]
pub struct ArgRandom {
    /// Random number generator seed.  Default: none (engine chooses).
    pub seed: Option<u32>,
}

/// Number of threads.
#[derive(Debug, Clone, Copy, PartialEq, Eq, Structural)]
pub struct ArgNumThreads {
    /// Number of threads.  Default: `1`.
    pub threads: u32,
}

/// File output options.
#[derive(Debug, Clone, PartialEq, Eq)]
pub struct ArgOutput {
    /// Output file.  Default: `output.csv`.
    pub file: ArgWritablePath,
    /// Auxiliary output file for diagnostic information.  Default: the
    /// empty path.
    pub diagnostic_file: ArgWritablePath,
    /// Number of iterations between screen updates.  Default: `100`.
    pub refresh: u32,
    /// The number of significant figures used for the output CSV files;
    /// `-1` leaves the engine's own default in force.
    pub sig_figs: i32,
    /// File to store profiling information.  Default: the empty path.
    pub profile_file: ArgWritablePath,
    /// Save the engine's config output?  Default: `false`.
    pub save_cmdstan_config: bool,
}

/// A mode tree wrapped with the six common option groups.
#[derive(Debug)]
pub struct WithCommonArgs<T: ArgThrough> {
    pub root: T,
    pub id: ArgID,
    pub data: ArgData,
    pub init: ArgInit,
    pub random: ArgRandom,
    pub output: ArgOutput,
    pub num_threads: ArgNumThreads,
}

impl WithDefaultArg for ArgID {
    open spec fn spec_is_default(&self) -> bool {
        self.id == 1
    }

    fn arg_default() -> (r: Self) {
        ArgID { id: 1 }
    }

    fn is_default(&self) -> (r: bool) {
        self.id == 1
    }
}

impl WithDefaultArg for ArgData {
    open spec fn spec_is_default(&self) -> bool {
        self.file.spec_is_default()
    }

    fn arg_default() -> (r: Self) {
        ArgData { file: ArgReadablePath::arg_default() }
    }

    fn is_default(&self) -> (r: bool) {
        self.file.is_default()
    }
}

impl WithDefaultArg for ArgInit {
    open spec fn spec_is_default(&self) -> bool {
        self matches ArgInit::Range(v) && v == fx(2_000_000_000_000)
    }

    fn arg_default() -> (r: Self) {
        ArgInit::Range(fx_exec(2_000_000_000_000))
    }

    fn is_default(&self) -> (r: bool) {
        match self {
            ArgInit::Range(v) => *v == fx_exec(2_000_000_000_000),
            _ => false,
        }
    }
}

impl WithDefaultArg for ArgRandom {
    open spec fn spec_is_default(&self) -> bool {
        self.seed is None
    }

    fn arg_default() -> (r: Self) {
        ArgRandom { seed: None }
    }

    fn is_default(&self) -> (r: bool) {
        match self.seed {
            None => true,
            Some(_) => false,
        }
    }
}

impl WithDefaultArg for ArgNumThreads {
    open spec fn spec_is_default(&self) -> bool {
        self.threads == 1
    }

    fn arg_default() -> (r: Self) {
        ArgNumThreads { threads: 1 }
    }

    fn is_default(&self) -> (r: bool) {
        self.threads == 1
    }
}

impl WithDefaultArg for ArgOutput {
    open spec fn spec_is_default(&self) -> bool {
        &&& (self.file matches ArgWritablePath::Borrowed(s) && s@ == "output.csv"@)
        &&& self.diagnostic_file.spec_is_default()
        &&& self.refresh == 100
        &&& self.sig_figs == -1
        &&& self.profile_file.spec_is_default()
        &&& self.save_cmdstan_config == false
    }

    fn arg_default() -> (r: Self) {
        ArgOutput {
            file: ArgWritablePath::Borrowed("output.csv"),
            diagnostic_file: ArgWritablePath::arg_default(),
            refresh: 100,
            sig_figs: -1,
            profile_file: ArgWritablePath::arg_default(),
            save_cmdstan_config: false,
        }
    }

    fn is_default(&self) -> (r: bool) {
        self.file.is_borrowed_lit("output.csv") && self.diagnostic_file.is_default()
            && self.refresh == 100 && self.sig_figs == -1 && self.profile_file.is_default()
            && self.save_cmdstan_config == false
    }
}

impl ArgThrough for ArgID {
    open spec fn spec_arg_type(&self) -> Option<ArgType> {
        None
    }

    open spec fn spec_tokens(&self) -> Seq<Seq<char>> {
        tok_if(self.id != 1, kv("id"@, dec_nat(self.id as nat)))
    }

    open spec fn spec_side_files(&self) -> Seq<(Seq<char>, Seq<char>)> {
        Seq::<(Seq<char>, Seq<char>)>::empty()
    }

    open spec fn spec_output_path(&self) -> Option<Seq<char>> {
        None
    }

    fn arg_type(&self) -> (r: Result<ArgType, ArgError>) {
        Err(ArgError::NotValidArgTreeType(String::from_str("ArgID is not a valid root arg")))
    }

    fn arg_through(&self, sink: &mut ArgSink) -> (r: Result<(), ArgError>) {
        arg_if_not_default_u32(sink, "id", self.id, 1);
        Ok(())
    }

    fn get_output_path(&self) -> (r: Result<ArgPath, ArgError>) {
        Err(ArgError::NotValidArgTreeType(String::from_str("ArgID carries no output path")))
    }
}

impl ArgThrough for ArgData {
    open spec fn spec_arg_type(&self) -> Option<ArgType> {
        None
    }

    open spec fn spec_tokens(&self) -> Seq<Seq<char>> {
        if self.file.spec_is_default() {
            Seq::<Seq<char>>::empty()
        } else {
            seq!["data"@, kv("file"@, self.file.spec_text())]
        }
    }

    open spec fn spec_side_files(&self) -> Seq<(Seq<char>, Seq<char>)> {
        Seq::<(Seq<char>, Seq<char>)>::empty()
    }

    open spec fn spec_output_path(&self) -> Option<Seq<char>> {
        None
    }

    fn arg_type(&self) -> (r: Result<ArgType, ArgError>) {
        Err(ArgError::NotValidArgTreeType(String::from_str("ArgData is not a valid root arg")))
    }

    fn arg_through(&self, sink: &mut ArgSink) -> (r: Result<(), ArgError>) {
        if !self.file.is_default() {
            push_keyword(sink, "data");
            let t = args_combine("file", self.file.as_path());
            sink.push_token(t);
            assert(token_views(sink.tokens@) =~= token_views(old(sink).tokens@)
                + self.spec_tokens());
        } else {
            assert(token_views(sink.tokens@) =~= token_views(old(sink).tokens@)
                + self.spec_tokens());
        }
        Ok(())
    }

    fn get_output_path(&self) -> (r: Result<ArgPath, ArgError>) {
        Err(ArgError::NotValidArgTreeType(String::from_str("ArgData carries no output path")))
    }
}

impl ArgThrough for ArgInit {
    open spec fn spec_arg_type(&self) -> Option<ArgType> {
        None
    }

    open spec fn spec_tokens(&self) -> Seq<Seq<char>> {
        if self.spec_is_default() {
            Seq::<Seq<char>>::empty()
        } else {
            match self {
                ArgInit::Range(v) => seq![kv("init"@, v.spec_text())],
                ArgInit::Path(p) => seq![kv("init"@, p.spec_text())],
                ArgInit::ParamValue(_, file) => seq![kv("init"@, file.spec_text())],
            }
        }
    }

    open spec fn spec_side_files(&self) -> Seq<(Seq<char>, Seq<char>)> {
        match self {
            ArgInit::ParamValue(params, file) => seq![
                (file.spec_text(), stan_data_text(params.datas@)),
            ],
            _ => Seq::<(Seq<char>, Seq<char>)>::empty(),
        }
    }

    open spec fn spec_output_path(&self) -> Option<Seq<char>> {
        None
    }

    fn arg_type(&self) -> (r: Result<ArgType, ArgError>) {
        Err(ArgError::NotValidArgTreeType(String::from_str("ArgInit is not a valid root arg")))
    }

    fn arg_through(&self, sink: &mut ArgSink) -> (r: Result<(), ArgError>) {
        if self.is_default() {
            assert(token_views(sink.tokens@) =~= token_views(old(sink).tokens@)
                + self.spec_tokens());
            assert(side_views(sink.side_files@) =~= side_views(old(sink).side_files@)
                + self.spec_side_files());
            return Ok(());
        }
        match self {
            ArgInit::Range(v) => {
                let t = v.to_text();
                let tok = args_combine("init", t.as_str());
                sink.push_token(tok);
                assert(token_views(sink.tokens@) =~= token_views(old(sink).tokens@)
                    + self.spec_tokens());
                assert(side_views(sink.side_files@) =~= side_views(old(sink).side_files@)
                    + self.spec_side_files());
            },
            ArgInit::Path(p) => {
                let tok = args_combine("init", p.as_path());
                sink.push_token(tok);
                assert(token_views(sink.tokens@) =~= token_views(old(sink).tokens@)
                    + self.spec_tokens());
                assert(side_views(sink.side_files@) =~= side_views(old(sink).side_files@)
                    + self.spec_side_files());
            },
            ArgInit::ParamValue(params, file) => {
                let content = params.write_as_stan_data();
                sink.push_side_file(file.duplicate(), content);
                let tok = args_combine("init", file.as_path());
                sink.push_token(tok);
                assert(token_views(sink.tokens@) =~= token_views(old(sink).tokens@)
                    + self.spec_tokens());
                assert(side_views(sink.side_files@) =~= side_views(old(sink).side_files@)
                    + self.spec_side_files());
            },
        }
        Ok(())
    }

    fn get_output_path(&self) -> (r: Result<ArgPath, ArgError>) {
        Err(ArgError::NotValidArgTreeType(String::from_str("ArgInit carries no output path")))
    }
}

impl ArgThrough for ArgRandom {
    open spec fn spec_arg_type(&self) -> Option<ArgType> {
        None
    }

    open spec fn spec_tokens(&self) -> Seq<Seq<char>> {
        match self.seed {
            Some(x) => seq!["random"@, kv("seed"@, dec_nat(x as nat))],
            None => Seq::<Seq<char>>::empty(),
        }
    }

    open spec fn spec_side_files(&self) -> Seq<(Seq<char>, Seq<char>)> {
        Seq::<(Seq<char>, Seq<char>)>::empty()
    }

    open spec fn spec_output_path(&self) -> Option<Seq<char>> {
        None
    }

    fn arg_type(&self) -> (r: Result<ArgType, ArgError>) {
        Err(ArgError::NotValidArgTreeType(String::from_str("ArgRandom is not a valid root arg")))
    }

    fn arg_through(&self, sink: &mut ArgSink) -> (r: Result<(), ArgError>) {
        match self.seed {
            Some(x) => {
                push_keyword(sink, "random");
                let v = crate::render::u64_string(x as u64);
                let t = args_combine("seed", v.as_str());
                sink.push_token(t);
                assert(token_views(sink.tokens@) =~= token_views(old(sink).tokens@)
                    + self.spec_tokens());
            },
            None => {
                assert(token_views(sink.tokens@) =~= token_views(old(sink).tokens@)
                    + self.spec_tokens());
            },
        }
        Ok(())
    }

    fn get_output_path(&self) -> (r: Result<ArgPath, ArgError>) {
        Err(ArgError::NotValidArgTreeType(String::from_str("ArgRandom carries no output path")))
    }
}

impl ArgThrough for ArgNumThreads {
    open spec fn spec_arg_type(&self) -> Option<ArgType> {
        None
    }

    open spec fn spec_tokens(&self) -> Seq<Seq<char>> {
        tok_if(self.threads != 1, kv("num_threads"@, dec_nat(self.threads as nat)))
    }

    open spec fn spec_side_files(&self) -> Seq<(Seq<char>, Seq<char>)> {
        Seq::<(Seq<char>, Seq<char>)>::empty()
    }

    open spec fn spec_output_path(&self) -> Option<Seq<char>> {
        None
    }

    fn arg_type(&self) -> (r: Result<ArgType, ArgError>) {
        Err(
            ArgError::NotValidArgTreeType(
                String::from_str("ArgNumThreads is not a valid root arg"),
            ),
        )
    }

    fn arg_through(&self, sink: &mut ArgSink) -> (r: Result<(), ArgError>) {
        arg_if_not_default_u32(sink, "num_threads", self.threads, 1);
        Ok(())
    }

    fn get_output_path(&self) -> (r: Result<ArgPath, ArgError>) {
        Err(ArgError::NotValidArgTreeType(String::from_str("ArgNumThreads carries no output path")))
    }
}

impl ArgThrough for ArgOutput {
    open spec fn spec_arg_type(&self) -> Option<ArgType> {
        None
    }

    open spec fn spec_tokens(&self) -> Seq<Seq<char>> {
        if self.spec_is_default() {
            Seq::<Seq<char>>::empty()
        } else {
            seq!["output"@] + tok_if(
                !(self.file matches ArgWritablePath::Borrowed(s) && s@ == "output.csv"@),
                kv("file"@, self.file.spec_text()),
            ) + tok_if(
                !self.diagnostic_file.spec_is_default(),
                kv("diagnostic_file"@, self.diagnostic_file.spec_text()),
            ) + tok_if(self.refresh != 100, kv("refresh"@, dec_nat(self.refresh as nat))) + tok_if(
                self.sig_figs != -1,
                kv("sig_figs"@, crate::render::dec_int(self.sig_figs as int)),
            ) + tok_if(
                !self.profile_file.spec_is_default(),
                kv("profile_file"@, self.profile_file.spec_text()),
            ) + tok_if(
                self.save_cmdstan_config != false,
                kv("save_cmdstan_config"@, crate::render::bool_str(self.save_cmdstan_config)),
            )
        }
    }

    open spec fn spec_side_files(&self) -> Seq<(Seq<char>, Seq<char>)> {
        Seq::<(Seq<char>, Seq<char>)>::empty()
    }

    open spec fn spec_output_path(&self) -> Option<Seq<char>> {
        Some(self.file.spec_text())
    }

    fn arg_type(&self) -> (r: Result<ArgType, ArgError>) {
        Err(ArgError::NotValidArgTreeType(String::from_str("ArgOutput is not a valid root arg")))
    }

    fn arg_through(&self, sink: &mut ArgSink) -> (r: Result<(), ArgError>) {
        let ghost base = token_views(old(sink).tokens@);
        if self.is_default() {
            assert(token_views(sink.tokens@) =~= base + self.spec_tokens());
            return Ok(());
        }
        push_keyword(sink, "output");
        let ghost mut acc: Seq<Seq<char>> = seq!["output"@];
        if !self.file.is_borrowed_lit("output.csv") {
            let t = args_combine("file", self.file.as_path());
            sink.push_token(t);
        }
        proof {
            let d = tok_if(
                !(self.file matches ArgWritablePath::Borrowed(s) && s@ == "output.csv"@),
                kv("file"@, self.file.spec_text()),
            );
            assert(token_views(sink.tokens@) =~= base + acc + d);
            lemma_concat_assoc(base, acc, d);
            acc = acc + d;
        }
        crate::stan_command::arg_tree::arg_if_not_default_wpath(
            sink,
            "diagnostic_file",
            &self.diagnostic_file,
        );
        proof {
            let d = tok_if(
                !self.diagnostic_file.spec_is_default(),
                kv("diagnostic_file"@, self.diagnostic_file.spec_text()),
            );
            lemma_concat_assoc(base, acc, d);
            acc = acc + d;
        }
        arg_if_not_default_u32(sink, "refresh", self.refresh, 100);
        proof {
            let d = tok_if(self.refresh != 100, kv("refresh"@, dec_nat(self.refresh as nat)));
            lemma_concat_assoc(base, acc, d);
            acc = acc + d;
        }
        arg_if_not_default_i32(sink, "sig_figs", self.sig_figs, -1);
        proof {
            let d = tok_if(
                self.sig_figs != -1,
                kv("sig_figs"@, crate::render::dec_int(self.sig_figs as int)),
            );
            lemma_concat_assoc(base, acc, d);
            acc = acc + d;
        }
        crate::stan_command::arg_tree::arg_if_not_default_wpath(
            sink,
            "profile_file",
            &self.profile_file,
        );
        proof {
            let d = tok_if(
                !self.profile_file.spec_is_default(),
                kv("profile_file"@, self.profile_file.spec_text()),
            );
            lemma_concat_assoc(base, acc, d);
            acc = acc + d;
        }
        arg_if_not_default_bool(sink, "save_cmdstan_config", self.save_cmdstan_config, false);
        proof {
            let d = tok_if(
                self.save_cmdstan_config != false,
                kv("save_cmdstan_config"@, crate::render::bool_str(self.save_cmdstan_config)),
            );
            lemma_concat_assoc(base, acc, d);
            acc = acc + d;
            assert(acc == self.spec_tokens());
        }
        Ok(())
    }

    fn get_output_path(&self) -> (r: Result<ArgPath, ArgError>) {
        match &self.file {
            ArgWritablePath::Borrowed(p) => Ok(ArgPath::Borrowed(p)),
            ArgWritablePath::Owned(p) => Ok(ArgPath::Owned(p.clone())),
        }
    }
}

impl ArgID {
    /// The all-default group.
    pub fn new() -> (r: Self)
        ensures
            r.spec_is_default(),
    {
        Self::arg_default()
    }

    /// Sets the process identifier.
    pub fn set_id(&mut self, id: u32)
        ensures
            *final(self) == (ArgID { id }),
    {
        self.id = id;
    }
}

impl ArgData {
    /// The all-default group.
    pub fn new() -> (r: Self)
        ensures
            r.spec_is_default(),
    {
        Self::arg_default()
    }

    /// Sets the input data file.
    pub fn set_file(&mut self, file: ArgReadablePath)
        ensures
            *final(self) == (ArgData { file }),
    {
        self.file = file;
    }
}

impl ArgInit {
    /// The all-default strategy.
    pub fn new() -> (r: Self)
        ensures
            r.spec_is_default(),
    {
        Self::arg_default()
    }

    /// Switches to uniform initialization over `[-r, r]`.
    pub fn set_init_by_range(&mut self, r: Fixed)
        ensures
            *final(self) == ArgInit::Range(r),
    {
        *self = ArgInit::Range(r);
    }

    /// Switches to initialization from a file.
    pub fn set_init_by_path(&mut self, file: ArgReadablePath) -> (r: Result<(), ArgError>)
        ensures
            r is Ok,
            *final(self) == ArgInit::Path(file),
    {
        *self = ArgInit::Path(file);
        Ok(())
    }

    /// Sets one inline initial parameter value.  An existing inline map
    /// is updated in place (its target path kept); any other strategy is
    /// replaced by a fresh map targeting the conventional side-file
    /// name.
    pub fn set_init_by_param(&mut self, param: &str, val: DataEntry)
        ensures
            (*old(self) matches ArgInit::ParamValue(params, file) ==> (*final(self) matches
                ArgInit::ParamValue(p2, f2) && f2 == file && ({
                let j = spec_param_at(params.datas@, param@);
                if j >= 0 {
                    p2.datas@.len() == params.datas@.len() && p2.datas@[j].0 == params.datas@[j].0
                        && p2.datas@[j].1 == val && (forall|k: int|
                        0 <= k < params.datas@.len() && k != j ==> p2.datas@[k] == params.datas@[k])
                } else {
                    p2.datas@.len() == params.datas@.len() + 1 && (forall|k: int|
                        0 <= k < params.datas@.len() ==> p2.datas@[k] == params.datas@[k])
                        && p2.datas@.last().0@ == param@ && p2.datas@.last().1 == val
                }
            }))),
            (!(*old(self) matches ArgInit::ParamValue(_, _)) ==> (*final(self) matches
                ArgInit::ParamValue(p2, f2) && (f2 matches ArgWritablePath::Borrowed(s) && s@
                == "init_params_setup.json"@) && p2.datas@.len() == 1 && p2.datas@[0].0@ == param@
                && p2.datas@[0].1 == val)),
    {
        match self {
            ArgInit::ParamValue(params, _) => {
                params.upsert_entry(param, val);
            },
            _ => {
                let mut par = DataEntries::new();
                par.add_entry(param, val);
                proof {
                    assert(par.datas@[0] == par.datas@.last());
                }
                *self = ArgInit::ParamValue(
                    par,
                    ArgWritablePath::Borrowed("init_params_setup.json"),
                );
            },
        }
    }

    /// Retargets the inline map's side file, keeping the map; any other
    /// strategy is replaced by an empty map targeting the given file.
    pub fn target_init_by_param_path(&mut self, file: ArgWritablePath)
        ensures
            (*old(self) matches ArgInit::ParamValue(params, _) ==> *final(self)
                == ArgInit::ParamValue(params, file)),
            (!(*old(self) matches ArgInit::ParamValue(_, _)) ==> (*final(self) matches
                ArgInit::ParamValue(p2, f2) && f2 == file && p2.datas@.len() == 0)),
    {
        match self {
            ArgInit::ParamValue(_, f) => {
                *f = file;
            },
            _ => {
                *self = ArgInit::ParamValue(DataEntries::new(), file);
            },
        }
    }
}

impl ArgRandom {
    /// The all-default group.
    pub fn new() -> (r: Self)
        ensures
            r.spec_is_default(),
    {
        Self::arg_default()
    }

    /// Sets or clears the seed.
    pub fn set_seed(&mut self, seed: Option<u32>)
        ensures
            *final(self) == (ArgRandom { seed }),
    {
        self.seed = seed;
    }
}

impl ArgNumThreads {
    /// The all-default group.
    pub fn new() -> (r: Self)
        ensures
            r.spec_is_default(),
    {
        Self::arg_default()
    }

    /// Sets the thread count.
    pub fn set_threads(&mut self, threads: u32)
        ensures
            *final(self) == (ArgNumThreads { threads }),
    {
        self.threads = threads;
    }
}

impl ArgOutput {
    /// The all-default group.
    pub fn new() -> (r: Self)
        ensures
            r.spec_is_default(),
    {
        Self::arg_default()
    }

    /// Sets the output file.
    pub fn set_file(&mut self, file: ArgWritablePath)
        ensures
            *final(self) == (ArgOutput { file, ..*old(self) }),
    {
        self.file = file;
    }

    /// Sets the diagnostic output file.
    pub fn set_diagnostic_file(&mut self, diagnostic_file: ArgWritablePath)
        ensures
            *final(self) == (ArgOutput { diagnostic_file, ..*old(self) }),
    {
        self.diagnostic_file = diagnostic_file;
    }

    /// Sets the screen-update period.
    pub fn set_refresh(&mut self, refresh: u32)
        ensures
            *final(self) == (ArgOutput { refresh, ..*old(self) }),
    {
        self.refresh = refresh;
    }

    /// Sets the number of significant figures for the output files;
    /// values outside `0..=18` other than `-1` are rejected, leaving the
    /// group unchanged.
    pub fn set_sig_figs(&mut self, sig_figs: i32) -> (r: Result<(), ArgError>)
        ensures
            (sig_figs == -1 || 0 <= sig_figs <= 18) ==> (r is Ok && *final(self) == (ArgOutput {
                sig_figs,
                ..*old(self)
            })),
            !(sig_figs == -1 || 0 <= sig_figs <= 18) ==> (r matches Err(e) && e matches
                ArgError::BadArgumentValue(m) && m@ == "argument output->sig_figs requires 0 <= integer <= 18 or -1, received "@ + crate::render::dec_int(sig_figs as int) && *final(self) == *old(self)),
    {
        if !(0 <= sig_figs && sig_figs <= 18) && sig_figs != -1 {
            let mut m = String::from_str("argument output->sig_figs requires 0 <= integer <= 18 or -1, received ");
            crate::render::append_i64(&mut m, sig_figs as i64);
            return Err(ArgError::BadArgumentValue(m));
        }
        self.sig_figs = sig_figs;
        Ok(())
    }

    /// Sets the profiling output file.
    pub fn set_profile_file(&mut self, profile_file: ArgWritablePath)
        ensures
            *final(self) == (ArgOutput { profile_file, ..*old(self) }),
    {
        self.profile_file = profile_file;
    }

    /// Sets the config-saving flag.
    pub fn set_save_cmdstan_config(&mut self, save_cmdstan_config: bool)
        ensures
            *final(self) == (ArgOutput { save_cmdstan_config, ..*old(self) }),
    {
        self.save_cmdstan_config = save_cmdstan_config;
    }
}

impl<T: ArgThrough> WithCommonArgs<T> {
    /// Wraps a mode tree with all-default common groups.
    pub fn new(root: T) -> (r: Self)
        ensures
            r.root == root,
            r.id.spec_is_default(),
            r.data.spec_is_default(),
            r.init.spec_is_default(),
            r.random.spec_is_default(),
            r.output.spec_is_default(),
            r.num_threads.spec_is_default(),
    {
        WithCommonArgs {
            root,
            id: ArgID::arg_default(),
            data: ArgData::arg_default(),
            init: ArgInit::arg_default(),
            random: ArgRandom::arg_default(),
            output: ArgOutput::arg_default(),
            num_threads: ArgNumThreads::arg_default(),
        }
    }

    /// A wrapper whose groups are all default serializes to its root's
    /// tokens alone.
    pub proof fn lemma_default_common_tokens(&self)
        requires
            self.id.spec_is_default(),
            self.data.spec_is_default(),
            self.init.spec_is_default(),
            self.random.spec_is_default(),
            self.output.spec_is_default(),
            self.num_threads.spec_is_default(),
        ensures
            self.spec_tokens() =~= self.root.spec_tokens(),
            self.spec_side_files() =~= self.root.spec_side_files(),
    {
    }
}


impl<T: ArgThrough + WithDefaultArg> WithDefaultArg for WithCommonArgs<T> {
    open spec fn spec_is_default(&self) -> bool {
        &&& self.root.spec_is_default()
        &&& self.id.spec_is_default()
        &&& self.data.spec_is_default()
        &&& self.init.spec_is_default()
        &&& self.random.spec_is_default()
        &&& self.output.spec_is_default()
        &&& self.num_threads.spec_is_default()
    }

    fn arg_default() -> (r: Self) {
        WithCommonArgs {
            root: T::arg_default(),
            id: ArgID::arg_default(),
            data: ArgData::arg_default(),
            init: ArgInit::arg_default(),
            random: ArgRandom::arg_default(),
            output: ArgOutput::arg_default(),
            num_threads: ArgNumThreads::arg_default(),
        }
    }

    fn is_default(&self) -> (r: bool) {
        self.root.is_default() && self.id.is_default() && self.data.is_default()
            && self.init.is_default() && self.random.is_default() && self.output.is_default()
            && self.num_threads.is_default()
    }
}

impl<T: ArgThrough> ArgThrough for WithCommonArgs<T> {
    open spec fn spec_arg_type(&self) -> Option<ArgType> {
        self.root.spec_arg_type()
    }

    open spec fn spec_tokens(&self) -> Seq<Seq<char>> {
        self.root.spec_tokens() + self.id.spec_tokens() + self.data.spec_tokens()
            + self.init.spec_tokens() + self.random.spec_tokens() + self.output.spec_tokens()
            + self.num_threads.spec_tokens()
    }

    open spec fn spec_side_files(&self) -> Seq<(Seq<char>, Seq<char>)> {
        self.root.spec_side_files() + self.id.spec_side_files() + self.data.spec_side_files()
            + self.init.spec_side_files() + self.random.spec_side_files()
            + self.output.spec_side_files() + self.num_threads.spec_side_files()
    }

    open spec fn spec_output_path(&self) -> Option<Seq<char>> {
        Some(self.output.file.spec_text())
    }

    fn arg_type(&self) -> (r: Result<ArgType, ArgError>) {
        self.root.arg_type()
    }

    fn arg_through(&self, sink: &mut ArgSink) -> (r: Result<(), ArgError>) {
        let ghost tbase = token_views(old(sink).tokens@);
        let ghost sbase = side_views(old(sink).side_files@);
        let r0 = self.root.arg_through(sink);
        let ghost mut tacc = self.root.spec_tokens();
        let ghost mut sacc = self.root.spec_side_files();
        let r1 = self.id.arg_through(sink);
        proof {
            lemma_concat_assoc(tbase, tacc, self.id.spec_tokens());
            lemma_concat_assoc(sbase, sacc, self.id.spec_side_files());
            tacc = tacc + self.id.spec_tokens();
            sacc = sacc + self.id.spec_side_files();
        }
        let r2 = self.data.arg_through(sink);
        proof {
            lemma_concat_assoc(tbase, tacc, self.data.spec_tokens());
            lemma_concat_assoc(sbase, sacc, self.data.spec_side_files());
            tacc = tacc + self.data.spec_tokens();
            sacc = sacc + self.data.spec_side_files();
        }
        let r3 = self.init.arg_through(sink);
        proof {
            lemma_concat_assoc(tbase, tacc, self.init.spec_tokens());
            lemma_concat_assoc(sbase, sacc, self.init.spec_side_files());
            tacc = tacc + self.init.spec_tokens();
            sacc = sacc + self.init.spec_side_files();
        }
        let r4 = self.random.arg_through(sink);
        proof {
            lemma_concat_assoc(tbase, tacc, self.random.spec_tokens());
            lemma_concat_assoc(sbase, sacc, self.random.spec_side_files());
            tacc = tacc + self.random.spec_tokens();
            sacc = sacc + self.random.spec_side_files();
        }
        let r5 = self.output.arg_through(sink);
        proof {
            lemma_concat_assoc(tbase, tacc, self.output.spec_tokens());
            lemma_concat_assoc(sbase, sacc, self.output.spec_side_files());
            tacc = tacc + self.output.spec_tokens();
            sacc = sacc + self.output.spec_side_files();
        }
        let r6 = self.num_threads.arg_through(sink);
        proof {
            lemma_concat_assoc(tbase, tacc, self.num_threads.spec_tokens());
            lemma_concat_assoc(sbase, sacc, self.num_threads.spec_side_files());
            tacc = tacc + self.num_threads.spec_tokens();
            sacc = sacc + self.num_threads.spec_side_files();
            assert(tacc == self.spec_tokens());
            assert(sacc == self.spec_side_files());
        }
        Ok(())
    }

    fn get_output_path(&self) -> (r: Result<ArgPath, ArgError>) {
        match &self.output.file {
            ArgWritablePath::Borrowed(p) => Ok(ArgPath::Borrowed(p)),
            ArgWritablePath::Owned(p) => Ok(ArgPath::Owned(p.clone())),
        }
    }
}

} // verus!
