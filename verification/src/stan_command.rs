//! The option-tree serialization protocol.
//!
//! Every inference mode of the external engine is one option tree.  A tree
//! serializes itself into an [`ArgSink`]: a flat token list for the
//! engine's argument vector, plus any side files whose content must exist
//! on disk before the engine reads them (the sink only records those; the
//! caller writes them).
//!
//! The protocol is default-diffing: a token is emitted only when the
//! option's value differs from the engine's built-in default, so a freshly
//! built tree serializes to nothing but its mode keyword.  Each tree's
//! exact token sequence is pinned by the `spec_tokens` function of its
//! [`ArgThrough`] impl.

use vstd::prelude::*;

use crate::arg_paths::{ArgPath, ArgReadablePath, ArgWritablePath};

pub mod arg_tree;
pub mod common_arg;
pub mod diagnose;
pub mod generate_quantities;
pub mod laplace;
pub mod log_prob;
pub mod optimize;
pub mod pathfinder;
pub mod sample;
pub mod variational;

verus! {

/// The mode a root option tree stands for.
#[non_exhaustive]
#[derive(Debug, Clone, Copy, PartialEq, Eq, Structural)]
pub enum ArgType {
    Sample,
    Optimize,
    Variational,
    Diagnose,
    GenerateQuantities,
    Pathfinder,
    LogProb,
    Laplace,
}

/// A failure of serialization or of a validated setter.
#[derive(Debug, Clone, PartialEq, Eq)]
pub enum ArgError {
    /// Serialization was invoked on a tree fragment that carries no mode
    /// identity of its own.
    NotValidArgTreeType(String),
    /// A validated setter received a value outside its documented domain.
    BadArgumentValue(String),
    /// An I/O failure, reported by the caller that performed the I/O.
    FileSystemError(String),
}

/// A file that must be materialized before the engine runs: the target
/// path and the content to write there.
pub struct SideFile {
    pub path: ArgWritablePath,
    pub content: String,
}

/// The serialization target: argument tokens in order, and the side
/// files the tokens refer to.
pub struct ArgSink {
    pub tokens: Vec<String>,
    pub side_files: Vec<SideFile>,
}

/// The texts of a token list.
pub open spec fn token_views(ts: Seq<String>) -> Seq<Seq<char>> {
    ts.map_values(|t: String| t@)
}

/// The (path text, content text) pairs of a side-file list.
pub open spec fn side_views(ss: Seq<SideFile>) -> Seq<(Seq<char>, Seq<char>)> {
    ss.map_values(|sf: SideFile| (sf.path.spec_text(), sf.content@))
}

pub broadcast proof fn lemma_token_views_push(ts: Seq<String>, t: String)
    ensures
        #[trigger] token_views(ts.push(t)) == token_views(ts).push(t@),
{
    assert(token_views(ts.push(t)) =~= token_views(ts).push(t@));
}

pub broadcast proof fn lemma_side_views_push(ss: Seq<SideFile>, path: ArgWritablePath, content: String)
    ensures
        #[trigger] side_views(ss.push(SideFile { path, content })) == side_views(ss).push(
            (path.spec_text(), content@),
        ),
{
    assert(side_views(ss.push(SideFile { path, content })) =~= side_views(ss).push(
        (path.spec_text(), content@),
    ));
}

impl ArgSink {
    /// An empty sink.
    pub fn new() -> (r: ArgSink)
        ensures
            token_views(r.tokens@) == Seq::<Seq<char>>::empty(),
            side_views(r.side_files@) == Seq::<(Seq<char>, Seq<char>)>::empty(),
    {
        let r = ArgSink { tokens: Vec::new(), side_files: Vec::new() };
        assert(token_views(r.tokens@) =~= Seq::<Seq<char>>::empty());
        assert(side_views(r.side_files@) =~= Seq::<(Seq<char>, Seq<char>)>::empty());
        r
    }

    /// Appends one argument token.
    pub fn push_token(&mut self, t: String)
        ensures
            token_views(final(self).tokens@) == token_views(old(self).tokens@).push(t@),
            final(self).side_files@ == old(self).side_files@,
    {
        proof {
            lemma_token_views_push(self.tokens@, t);
        }
        self.tokens.push(t);
    }

    /// Records one side file to be written before the engine runs.
    pub fn push_side_file(&mut self, path: ArgWritablePath, content: String)
        ensures
            final(self).tokens@ == old(self).tokens@,
            side_views(final(self).side_files@) == side_views(old(self).side_files@).push(
                (path.spec_text(), content@),
            ),
    {
        proof {
            lemma_side_views_push(self.side_files@, path, content);
        }
        self.side_files.push(SideFile { path, content });
    }
}

/// A value with one designated default and an equality-based test for
/// it.  `arg_default` must construct the default, and `is_default` must
/// agree with the type's `spec_is_default` predicate; so
/// `arg_default().is_default()` holds for every implementing type.
pub trait WithDefaultArg: Sized {
    /// What it means for a value to be the default.
    spec fn spec_is_default(&self) -> bool;

    /// The all-default value.
    fn arg_default() -> (r: Self)
        ensures
            r.spec_is_default(),
    ;

    /// Whether this value is the default.
    fn is_default(&self) -> (r: bool)
        ensures
            r == self.spec_is_default(),
    ;
}

/// A tree that serializes itself into an [`ArgSink`].
///
/// `spec_tokens` and `spec_side_files` pin exactly what `arg_through`
/// appends; `spec_arg_type` is the mode identity, `None` for fragments
/// that are not a valid root.
pub trait ArgThrough: Sized {
    /// The mode this tree stands for, if it is a valid root.
    spec fn spec_arg_type(&self) -> Option<ArgType>;

    /// The exact token texts this tree serializes to.
    spec fn spec_tokens(&self) -> Seq<Seq<char>>;

    /// The exact (path, content) side files this tree serializes to.
    spec fn spec_side_files(&self) -> Seq<(Seq<char>, Seq<char>)>;

    /// The output path configured on this tree, if it carries one.
    spec fn spec_output_path(&self) -> Option<Seq<char>>;

    /// The mode identity; an error for trees that are not a valid root.
    fn arg_type(&self) -> (r: Result<ArgType, ArgError>)
        ensures
            match self.spec_arg_type() {
                Some(t) => r == Ok::<ArgType, ArgError>(t),
                None => r matches Err(e) && e matches ArgError::NotValidArgTreeType(_),
            },
    ;

    /// Serializes this tree: appends exactly `spec_tokens` to the sink's
    /// tokens and `spec_side_files` to its side files.
    fn arg_through(&self, sink: &mut ArgSink) -> (r: Result<(), ArgError>)
        ensures
            r is Ok,
            token_views(final(sink).tokens@) == token_views(old(sink).tokens@)
                + self.spec_tokens(),
            side_views(final(sink).side_files@) == side_views(old(sink).side_files@)
                + self.spec_side_files(),
    ;

    /// The output path of this tree; an error where none is configured.
    fn get_output_path(&self) -> (r: Result<ArgPath, ArgError>)
        ensures
            match self.spec_output_path() {
                Some(p) => r matches Ok(q) && q.spec_text() == p,
                None => r matches Err(e) && e matches ArgError::NotValidArgTreeType(_),
            },
    ;
}

/// What the external engine's run produced.
pub struct ProcessOutput {
    pub success: bool,
    pub stdout: String,
    pub stderr: String,
}

/// The bundle one invocation produces: the tree used, the verified
/// output path, and the engine's captured output.
pub struct StanResult<T: ArgThrough> {
    pub arg_tree: T,
    pub output_path: ArgReadablePath,
    pub output: ProcessOutput,
}

/// Serializes a whole tree into a fresh sink.
pub fn arg_vector<T: ArgThrough>(tree: &T) -> (r: Result<ArgSink, ArgError>)
    ensures
        r matches Ok(sink) && token_views(sink.tokens@) == tree.spec_tokens() && side_views(
            sink.side_files@,
        ) == tree.spec_side_files(),
{
    let mut sink = ArgSink::new();
    let through = tree.arg_through(&mut sink);
    proof {
        assert(token_views(sink.tokens@) =~= tree.spec_tokens());
        assert(side_views(sink.side_files@) =~= tree.spec_side_files());
    }
    match through {
        Ok(()) => Ok(sink),
        Err(e) => Err(e),
    }
}

} // verus!
