//! Model-side traits and the model wrapper.
//!
//! A user's model type describes its named parameters through
//! [`WithParam`]; the ingestion layer uses that to populate one record
//! per CSV data row.

use vstd::prelude::*;

use crate::arg_paths::{
    ext_dot_at, join_path, last_ext_dot, last_sep, lemma_ext_dot_equiv, spec_has_ext, spec_joined,
    spec_with_ext, with_ext, ArgPath,
};
use crate::result_analyzer::ParamError;
use crate::StanData;

verus! {

/// A record with named parameters that can be read and written by
/// name.  `spec_set_param` is the functional model of `set_param_value`:
/// `None` stands for a value-parse failure; an unknown name maps the
/// record to itself (the implementation may report it, but must not
/// change the record).
pub trait WithParam: Sized {
    /// The parameter names, in order.
    spec fn spec_param_names(&self) -> Seq<Seq<char>>;

    /// The current value text of a parameter, if the name is known.
    spec fn spec_get_param(&self, name: Seq<char>) -> Option<Seq<char>>;

    /// What setting a parameter does: the updated record, or `None` for
    /// a value-parse failure.
    spec fn spec_set_param(pre: Self, name: Seq<char>, value: Seq<char>) -> Option<Self>;

    /// The record every ingested row starts from.
    spec fn spec_param_default() -> Self;

    /// Builds the all-default record.
    fn param_default() -> (r: Self)
        ensures
            r == Self::spec_param_default(),
    ;

    /// The parameter names, in order.
    fn get_param_name(&self) -> (r: Vec<String>)
        ensures
            r@.map_values(|s: String| s@) == self.spec_param_names(),
    ;

    /// Reads a parameter's current value text.
    fn get_param_value(&self, name: &str) -> (r: Option<String>)
        ensures
            match self.spec_get_param(name@) {
                Some(t) => r matches Some(s) && s@ == t,
                None => r is None,
            },
    ;

    /// Writes a parameter.  A value-parse failure is reported and
    /// leaves the record unchanged; an unknown name may be reported but
    /// leaves the record unchanged as well.
    fn set_param_value(&mut self, name: &str, value: &str) -> (r: Result<(), ParamError>)
        ensures
            match Self::spec_set_param(*old(self), name@, value@) {
                Some(t) => *final(self) == t && (r is Ok || (r matches Err(e) && e matches
                    ParamError::ParamNotFound(_))),
                None => r matches Err(e) && e matches ParamError::ParseError(_) && *final(self)
                    == *old(self),
            },
    ;
}

/// The position of the first pair with the given name, or `-1`.
pub open spec fn pair_at<V>(s: Seq<(String, V)>, name: Seq<char>) -> int
    decreases s.len(),
{
    if s.len() == 0 {
        -1
    } else if s[0].0@ == name {
        0
    } else {
        let r = pair_at(s.skip(1), name);
        if r < 0 {
            -1
        } else {
            r + 1
        }
    }
}

/// Skipping a prefix without the name shifts the first position by the
/// prefix length.
pub proof fn lemma_pair_at_from<V>(s: Seq<(String, V)>, name: Seq<char>, i: int)
    requires
        0 <= i <= s.len(),
        forall|j: int| 0 <= j < i ==> s[j].0@ != name,
    ensures
        pair_at(s, name) == (if pair_at(s.skip(i), name) < 0 {
            -1
        } else {
            i + pair_at(s.skip(i), name)
        }),
    decreases i,
{
    if i == 0 {
        assert(s.skip(0) =~= s);
    } else {
        assert(s[0].0@ != name);
        assert(s.skip(1).skip(i - 1) =~= s.skip(i));
        assert(forall|j: int| 0 <= j < i - 1 ==> s.skip(1)[j].0@ != name);
        lemma_pair_at_from(s.skip(1), name, i - 1);
    }
}

/// A value that knows where its model source lives: a workspace
/// directory and a model name, from which the `.stan` source path is
/// derived.
pub trait WithPath {
    /// The workspace directory's text.
    spec fn spec_workspace_path(&self) -> Seq<char>;

    /// The model's name.
    spec fn spec_model_name(&self) -> Seq<char>;

    /// The workspace directory.
    fn get_workspace_path(&self) -> (r: ArgPath)
        ensures
            r.spec_text() == self.spec_workspace_path(),
    ;

    /// The model's name.
    fn get_model_name(&self) -> (r: String)
        ensures
            r@ == self.spec_model_name(),
    ;

    /// The model source path: the name joined onto the workspace, with
    /// a `.stan` extension.
    fn get_model_path(&self) -> (r: ArgPath)
        ensures
            r.spec_text() == spec_with_ext(
                spec_joined(self.spec_workspace_path(), self.spec_model_name()),
                "stan"@,
            ),
    ;
}

/// A model artifact with its workspace, name, optional data, and
/// compile state.  The filesystem and process work around it (build
/// and data-file writes) happens outside this library.
#[derive(Debug)]
pub struct CmdStanModel<T, D: StanData> {
    pub model: T,
    pub workspace_path: ArgPath,
    pub model_name: String,
    pub data_path: Option<ArgPath>,
    pub data: Option<D>,
    pub compiled: bool,
}

impl<T, D: StanData> CmdStanModel<T, D> {
    /// The engine-built executable's path: the model name joined onto
    /// the workspace.  Any platform-specific suffix is the caller's
    /// concern.
    pub fn executable_name(&self) -> (r: ArgPath)
        ensures
            r.spec_text() == spec_joined(self.workspace_path.spec_text(), self.model_name@),
    {
        ArgPath::Owned(join_path(self.workspace_path.as_path(), self.model_name.as_str()))
    }

    /// Marks the model as already compiled.
    pub fn set_compiled(&mut self)
        ensures
            final(self).compiled == true,
            final(self).model == old(self).model,
            final(self).workspace_path == old(self).workspace_path,
            final(self).model_name == old(self).model_name,
            final(self).data_path == old(self).data_path,
            final(self).data == old(self).data,
    {
        self.compiled = true;
    }

    /// Sets the data file path.
    pub fn set_data_path(&mut self, path: ArgPath)
        ensures
            final(self).data_path == Some(path),
            final(self).model == old(self).model,
            final(self).workspace_path == old(self).workspace_path,
            final(self).model_name == old(self).model_name,
            final(self).data == old(self).data,
            final(self).compiled == old(self).compiled,
    {
        self.data_path = Some(path);
    }

    /// Sets the data value to be written before the run.
    pub fn set_data(&mut self, data: D)
        ensures
            final(self).data == Some(data),
            final(self).model == old(self).model,
            final(self).workspace_path == old(self).workspace_path,
            final(self).model_name == old(self).model_name,
            final(self).data_path == old(self).data_path,
            final(self).compiled == old(self).compiled,
    {
        self.data = Some(data);
    }

    /// The data file's path: the configured one, or the conventional
    /// `<workspace>/<name>.data.json`.
    pub fn data_file_name(&self) -> (r: ArgPath)
        ensures
            r.spec_text() == (match self.data_path {
                Some(p) => p.spec_text(),
                None => spec_with_ext(
                    spec_joined(self.workspace_path.spec_text(), self.model_name@),
                    "data.json"@,
                ),
            }),
    {
        match &self.data_path {
            Some(p) => p.duplicate(),
            None => {
                let joined = join_path(self.workspace_path.as_path(), self.model_name.as_str());
                ArgPath::Owned(with_ext(joined.as_str(), "data.json"))
            },
        }
    }

    /// Fixes the data file path to the conventional one when none was
    /// configured.
    pub fn set_default_data_path(&mut self)
        ensures
            final(self).data_path matches Some(p) && p.spec_text() == (match old(self).data_path {
                Some(q) => q.spec_text(),
                None => spec_with_ext(
                    spec_joined(old(self).workspace_path.spec_text(), old(self).model_name@),
                    "data.json"@,
                ),
            }),
            final(self).model == old(self).model,
            final(self).workspace_path == old(self).workspace_path,
            final(self).model_name == old(self).model_name,
            final(self).data == old(self).data,
            final(self).compiled == old(self).compiled,
    {
        let p = self.data_file_name();
        self.data_path = Some(p);
    }
}


impl<T: WithParam, D: StanData> CmdStanModel<T, D> {
    /// The wrapped model's parameter names.
    ///
    /// Parameter access delegates to the wrapped model; the wrapper
    /// does not implement [`WithParam`] itself, since that trait's
    /// functional default-record model cannot denote a wrapper value
    /// carrying an owned name buffer.
    pub fn get_param_name(&self) -> (r: Vec<String>)
        ensures
            r@.map_values(|s: String| s@) == self.model.spec_param_names(),
    {
        self.model.get_param_name()
    }

    /// Reads a parameter of the wrapped model.
    pub fn get_param_value(&self, name: &str) -> (r: Option<String>)
        ensures
            match self.model.spec_get_param(name@) {
                Some(t) => r matches Some(s) && s@ == t,
                None => r is None,
            },
    {
        self.model.get_param_value(name)
    }

    /// Writes a parameter of the wrapped model; everything else about
    /// the wrapper stays as it was.
    pub fn set_param_value(&mut self, name: &str, value: &str) -> (r: Result<(), ParamError>)
        ensures
            match T::spec_set_param(old(self).model, name@, value@) {
                Some(t) => final(self).model == t && (r is Ok || (r matches Err(e) && e matches
                    ParamError::ParamNotFound(_))),
                None => r matches Err(e) && e matches ParamError::ParseError(_)
                    && final(self).model == old(self).model,
            },
            final(self).workspace_path == old(self).workspace_path,
            final(self).model_name == old(self).model_name,
            final(self).data_path == old(self).data_path,
            final(self).data == old(self).data,
            final(self).compiled == old(self).compiled,
    {
        self.model.set_param_value(name, value)
    }
}

impl<T, D: StanData> WithPath for CmdStanModel<T, D> {
    open spec fn spec_workspace_path(&self) -> Seq<char> {
        self.workspace_path.spec_text()
    }

    open spec fn spec_model_name(&self) -> Seq<char> {
        self.model_name@
    }

    fn get_workspace_path(&self) -> (r: ArgPath) {
        self.workspace_path.duplicate()
    }

    fn get_model_name(&self) -> (r: String) {
        self.model_name.clone()
    }

    fn get_model_path(&self) -> (r: ArgPath) {
        let joined = join_path(self.workspace_path.as_path(), self.model_name.as_str());
        ArgPath::Owned(with_ext(joined.as_str(), "stan"))
    }
}

/// The path the builder settles on: on Windows a path without an
/// extension gets `.exe` appended first.
pub open spec fn builder_final_path(p: Seq<char>, windows: bool) -> Seq<char> {
    if windows && !spec_has_ext(p) {
        spec_with_ext(p, "exe"@)
    } else {
        p
    }
}

/// Whether the path names an already-built artifact: no extension, or
/// the `exe` extension.
pub open spec fn builder_compiled(p: Seq<char>) -> bool {
    !spec_has_ext(p) || p.skip(last_ext_dot(p) + 1) == "exe"@
}

/// A staged constructor for [`CmdStanModel`]: collects the workspace,
/// name, data, and compile arguments, then builds the wrapper.  The
/// compile step itself (driving the engine's build tool) happens
/// outside this library; `build` records its outcome.
#[derive(Debug)]
pub struct CmdStanModelBuilder<T, D: StanData> {
    pub model: T,
    pub workspace_path: ArgPath,
    pub model_name: String,
    pub data_path: Option<ArgPath>,
    pub data: Option<D>,
    pub compiled: bool,
    pub complie_arg: Vec<(String, String)>,
}

impl<T, D: StanData> CmdStanModelBuilder<T, D> {
    /// A fresh builder around a model value.
    pub fn new_with_model(model: T) -> (r: Self)
        ensures
            r.model == model,
            r.workspace_path.spec_text() == Seq::<char>::empty(),
            r.model_name@ == Seq::<char>::empty(),
            r.data_path is None,
            r.data is None,
            r.compiled == false,
            r.complie_arg@.len() == 0,
    {
        proof {
            reveal_strlit("");
        }
        CmdStanModelBuilder {
            model,
            workspace_path: ArgPath::Borrowed(""),
            model_name: String::new(),
            data_path: None,
            data: None,
            compiled: false,
            complie_arg: Vec::new(),
        }
    }

    /// Takes the model's location from one path: the last component
    /// becomes the name, the rest the workspace.  On Windows a path
    /// without an extension gets `.exe` appended first; a path that
    /// carries no extension or the `exe` one is taken as already
    /// compiled.  Components are read from the text alone, so a path
    /// ending in a separator has an empty last component and is
    /// rejected.
    pub fn with_path(self, model_path: &str, windows: bool) -> (r: Result<
        Self,
        crate::result_analyzer::FileError,
    >)
        ensures
            ({
                let fp = builder_final_path(model_path@, windows);
                let sep = last_sep(fp);
                if sep + 1 < fp.len() {
                    r matches Ok(b) && b.model == self.model && b.model_name@ == fp.skip(sep + 1)
                        && b.workspace_path.spec_text() == (if sep < 0 {
                        Seq::<char>::empty()
                    } else {
                        fp.take(sep)
                    }) && b.compiled == (self.compiled || builder_compiled(fp)) && b.data_path
                        == self.data_path && b.data == self.data && b.complie_arg
                        == self.complie_arg
                } else {
                    r matches Err(e) && e matches crate::result_analyzer::FileError::InvalidPath(
                        _,
                        _,
                    )
                }
            }),
    {
        proof {
            lemma_ext_dot_equiv(model_path@);
        }
        let has_ext_before = crate::arg_paths::has_extension(model_path);
        let fp: String = if windows && !has_ext_before {
            with_ext(model_path, "exe")
        } else {
            String::from_str(model_path)
        };
        proof {
            assert(fp@ == builder_final_path(model_path@, windows));
            lemma_ext_dot_equiv(fp@);
        }
        let compiled_here: bool = if !crate::arg_paths::has_extension(fp.as_str()) {
            true
        } else {
            let d = crate::arg_paths::find_ext_dot(fp.as_str());
            match d {
                Some(dot) => {
                    proof {
                        assert(ext_dot_at(fp@, dot as int));
                    }
                    let n2 = fp.as_str().unicode_len();
                    let ext = fp.as_str().substring_char(dot + 1, n2);
                    let exe = String::from_str("exe");
                    proof {
                        assert(ext@ =~= fp@.skip(dot + 1));
                    }
                    String::from_str(ext) == exe
                },
                None => {
                    proof {
                        assert(false);
                    }
                    true
                },
            }
        };
        let sep = crate::arg_paths::find_last_sep(fp.as_str());
        let n = fp.as_str().unicode_len();
        let (name, ws): (String, String) = match sep {
            Some(d) => {
                let name = String::from_str(fp.as_str().substring_char(d + 1, n));
                let ws = String::from_str(fp.as_str().substring_char(0, d));
                proof {
                    assert(name@ =~= fp@.skip(d + 1));
                    assert(ws@ =~= fp@.take(d as int));
                }
                (name, ws)
            },
            None => {
                proof {
                    reveal_strlit("");
                    assert(fp@.skip(0) =~= fp@);
                }
                (fp, String::from_str(""))
            },
        };
        if name.as_str().unicode_len() == 0 {
            return Err(
                crate::result_analyzer::FileError::InvalidPath(
                    String::from_str("No file name founded"),
                    name,
                ),
            );
        }
        Ok(
            CmdStanModelBuilder {
                model: self.model,
                workspace_path: ArgPath::Owned(ws),
                model_name: name,
                data_path: self.data_path,
                data: self.data,
                compiled: self.compiled || compiled_here,
                complie_arg: self.complie_arg,
            },
        )
    }

    /// Sets or replaces one compile argument for the engine's build
    /// tool.
    pub fn with_complie_arg(self, arg: &str, argv: &str) -> (r: Self)
        ensures
            r.model == self.model,
            r.workspace_path == self.workspace_path,
            r.model_name == self.model_name,
            r.data_path == self.data_path,
            r.data == self.data,
            r.compiled == self.compiled,
            ({
                let j = pair_at(self.complie_arg@, arg@);
                if j >= 0 {
                    r.complie_arg@.len() == self.complie_arg@.len() && r.complie_arg@[j].0
                        == self.complie_arg@[j].0 && r.complie_arg@[j].1@ == argv@ && (forall|
                        k: int,
                    |
                        0 <= k < self.complie_arg@.len() && k != j ==> r.complie_arg@[k]
                            == self.complie_arg@[k])
                } else {
                    r.complie_arg@.len() == self.complie_arg@.len() + 1 && (forall|k: int|
                        0 <= k < self.complie_arg@.len() ==> r.complie_arg@[k]
                            == self.complie_arg@[k]) && r.complie_arg@.last().0@ == arg@
                        && r.complie_arg@.last().1@ == argv@
                }
            }),
    {
        let mut b = self;
        let key = String::from_str(arg);
        let n = b.complie_arg.len();
        let mut i: usize = 0;
        while i < n
            invariant
                i <= n,
                n == b.complie_arg@.len(),
                key@ == arg@,
                b == (CmdStanModelBuilder { complie_arg: b.complie_arg, ..self }),
                b.complie_arg@ == self.complie_arg@,
                forall|j: int| 0 <= j < i ==> b.complie_arg@[j].0@ != arg@,
            decreases n - i,
        {
            if b.complie_arg[i].0 == key {
                proof {
                    lemma_pair_at_from(b.complie_arg@, arg@, i as int);
                    assert(b.complie_arg@.skip(i as int)[0] == b.complie_arg@[i as int]);
                    assert(pair_at(b.complie_arg@.skip(i as int), arg@) == 0);
                }
                b.complie_arg[i].1 = String::from_str(argv);
                return b;
            }
            i = i + 1;
        }
        proof {
            lemma_pair_at_from(b.complie_arg@, arg@, n as int);
            assert(b.complie_arg@.skip(n as int) =~= Seq::<(String, String)>::empty());
        }
        b.complie_arg.push((key, String::from_str(argv)));
        b
    }

    /// Sets the data file path.
    pub fn with_data_path(self, data_path: &str) -> (r: Self)
        ensures
            r.data_path matches Some(p) && p.spec_text() == data_path@,
            r.model == self.model,
            r.workspace_path == self.workspace_path,
            r.model_name == self.model_name,
            r.data == self.data,
            r.compiled == self.compiled,
            r.complie_arg == self.complie_arg,
    {
        let mut b = self;
        b.data_path = Some(ArgPath::Owned(String::from_str(data_path)));
        b
    }

    /// Sets the data value.
    pub fn with_data(self, data: D) -> (r: Self)
        ensures
            r.data == Some(data),
            r.model == self.model,
            r.workspace_path == self.workspace_path,
            r.model_name == self.model_name,
            r.data_path == self.data_path,
            r.compiled == self.compiled,
            r.complie_arg == self.complie_arg,
    {
        let mut b = self;
        b.data = Some(data);
        b
    }

    /// Sets the model name.
    pub fn with_model_name(self, name: &str) -> (r: Self)
        ensures
            r.model_name@ == name@,
            r.model == self.model,
            r.workspace_path == self.workspace_path,
            r.data_path == self.data_path,
            r.data == self.data,
            r.compiled == self.compiled,
            r.complie_arg == self.complie_arg,
    {
        let mut b = self;
        b.model_name = String::from_str(name);
        b
    }

    /// Sets the workspace directory.
    pub fn with_workspace_path(self, workspace_path: &str) -> (r: Self)
        ensures
            r.workspace_path.spec_text() == workspace_path@,
            r.model == self.model,
            r.model_name == self.model_name,
            r.data_path == self.data_path,
            r.data == self.data,
            r.compiled == self.compiled,
            r.complie_arg == self.complie_arg,
    {
        let mut b = self;
        b.workspace_path = ArgPath::Owned(String::from_str(workspace_path));
        b
    }

    /// The engine-built executable's path.
    pub fn executable_name(&self) -> (r: ArgPath)
        ensures
            r.spec_text() == spec_joined(self.workspace_path.spec_text(), self.model_name@),
    {
        ArgPath::Owned(join_path(self.workspace_path.as_path(), self.model_name.as_str()))
    }

    /// The `key=value` tokens of the collected compile arguments, for
    /// the engine's build tool.
    pub fn compile_arg_tokens(&self) -> (r: Vec<String>)
        ensures
            r@.len() == self.complie_arg@.len(),
            forall|i: int|
                0 <= i < r@.len() ==> (#[trigger] r@[i])@ == crate::stan_command::arg_tree::kv(
                    self.complie_arg@[i].0@,
                    self.complie_arg@[i].1@,
                ),
    {
        let mut out: Vec<String> = Vec::new();
        let n = self.complie_arg.len();
        let mut i: usize = 0;
        while i < n
            invariant
                i <= n,
                n == self.complie_arg@.len(),
                out@.len() == i,
                forall|j: int|
                    0 <= j < i ==> (#[trigger] out@[j])@ == crate::stan_command::arg_tree::kv(
                        self.complie_arg@[j].0@,
                        self.complie_arg@[j].1@,
                    ),
            decreases n - i,
        {
            let t = crate::stan_command::arg_tree::args_combine(
                self.complie_arg[i].0.as_str(),
                self.complie_arg[i].1.as_str(),
            );
            out.push(t);
            i = i + 1;
        }
        out
    }

    /// Finishes the wrapper.  The caller reports whether it ran the
    /// engine's build tool successfully; the wrapper is compiled when
    /// the builder already was, or that run succeeded.
    pub fn build(self, compiled_by_make: bool) -> (r: CmdStanModel<T, D>)
        ensures
            r.model == self.model,
            r.workspace_path == self.workspace_path,
            r.model_name == self.model_name,
            r.data_path == self.data_path,
            r.data == self.data,
            r.compiled == (self.compiled || compiled_by_make),
    {
        CmdStanModel {
            model: self.model,
            workspace_path: self.workspace_path,
            model_name: self.model_name,
            data_path: self.data_path,
            data: self.data,
            compiled: self.compiled || compiled_by_make,
        }
    }
}

} // verus!
