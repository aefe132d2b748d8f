//! Path handles with capability typing.
//!
//! A path starts life as an unverified [`ArgPath`] and is promoted to a
//! read- or write-capability handle by an explicit, fallible step.  The
//! filesystem probe itself happens outside this library; the promotion
//! functions take the probe's outcome and are verified to hand the same
//! path text on, or to report the failure, and to do nothing else.
//!
//! Paths are plain text here.  A handle either borrows a static string or
//! owns a buffer; copies are value-semantic either way.

use vstd::prelude::*;

use crate::StanError;

verus! {

/// Whether position `i` of `p` is a dot that makes an extension: it is
/// not the first character of the path's last `/`-separated component.
pub open spec fn ext_dot_at(p: Seq<char>, i: int) -> bool {
    &&& 1 <= i < p.len()
    &&& p[i] == '.'
    &&& p[i - 1] != '/'
    &&& forall|l: int| i < l < p.len() ==> p[l] != '/'
}

/// The extension heuristic: a path names a file (rather than a
/// directory) when its last component holds a dot after its first
/// character.  The component is read from the text alone: a trailing
/// separator means an empty last component (a directory), and a
/// component such as `..` counts as carrying an extension.
pub open spec fn spec_has_ext(p: Seq<char>) -> bool {
    exists|i: int| ext_dot_at(p, i)
}

/// The text after appending `name` to the directory path `p`: `p` itself
/// when it already carries an extension; `name` alone when `name` is
/// absolute or `p` is empty; otherwise the two joined with a separator.
pub open spec fn spec_extended(p: Seq<char>, name: Seq<char>) -> Seq<char> {
    if spec_has_ext(p) {
        p
    } else if name.len() > 0 && name[0] == '/' {
        name
    } else if p.len() == 0 {
        name
    } else if p[p.len() - 1] == '/' {
        p + name
    } else {
        p + seq!['/'] + name
    }
}

/// Whether the last component of `p` holds a dot after its first
/// character, so that `p` is treated as a file name.
pub fn has_extension(p: &str) -> (r: bool)
    ensures
        r == spec_has_ext(p@),
{
    let n = p.unicode_len();
    let mut i = n;
    while i > 0
        invariant
            i <= n,
            n == p@.len(),
            forall|j: int| i <= j < n ==> p@[j] != '/',
            forall|j: int| i <= j < n ==> !ext_dot_at(p@, j),
        decreases i,
    {
        let c = p.get_char(i - 1);
        if c == '/' {
            assert forall|j: int| 0 <= j < n implies !ext_dot_at(p@, j) by {
                if j < i - 1 {
                    assert(p@[i - 1] == '/');
                }
            }
            return false;
        }
        if c == '.' && i >= 2 && p.get_char(i - 2) != '/' {
            assert(ext_dot_at(p@, i - 1));
            return true;
        }
        i = i - 1;
    }
    assert forall|j: int| 0 <= j < n implies !ext_dot_at(p@, j) by {}
    false
}

/// An unverified path: no capability has been checked for it yet.
#[derive(Debug, Clone, PartialEq, Eq)]
pub enum ArgPath {
    Borrowed(&'static str),
    Owned(String),
}

/// A path whose readability was checked at promotion time.
#[derive(Debug, Clone, PartialEq, Eq)]
pub enum ArgReadablePath {
    Borrowed(&'static str),
    Owned(String),
}

/// A path whose writability was checked at promotion time.
#[derive(Debug, Clone, PartialEq, Eq)]
pub enum ArgWritablePath {
    Borrowed(&'static str),
    Owned(String),
}

impl ArgPath {
    /// The path text.
    pub open spec fn spec_text(&self) -> Seq<char> {
        match self {
            ArgPath::Borrowed(p) => p@,
            ArgPath::Owned(p) => p@,
        }
    }

    /// The path text as a string slice.
    pub fn as_path(&self) -> (r: &str)
        ensures
            r@ == self.spec_text(),
    {
        match self {
            ArgPath::Borrowed(p) => p,
            ArgPath::Owned(p) => p.as_str(),
        }
    }

    /// An equal, independent copy of this handle.
    pub fn duplicate(&self) -> (r: ArgPath)
        ensures
            r == *self,
    {
        match self {
            ArgPath::Borrowed(p) => ArgPath::Borrowed(p),
            ArgPath::Owned(p) => ArgPath::Owned(p.clone()),
        }
    }

    /// Promotes to a read-capability handle.  The caller probes the
    /// filesystem (outside this library) and passes the outcome; on
    /// success the handle keeps its path text and its ownership arm,
    /// only the capability type changes.
    pub fn into_readable(self, probe: Result<(), String>) -> (r: Result<
        ArgReadablePath,
        StanError,
    >)
        ensures
            match probe {
                Ok(()) => r matches Ok(p) && p.spec_text() == self.spec_text() && ((self matches
                    ArgPath::Borrowed(_)) <==> (p matches ArgReadablePath::Borrowed(_))),
                Err(e) => r == Err::<ArgReadablePath, StanError>(StanError::IoError(e)),
            },
    {
        match probe {
            Ok(()) => match self {
                ArgPath::Borrowed(p) => Ok(ArgReadablePath::Borrowed(p)),
                ArgPath::Owned(p) => Ok(ArgReadablePath::Owned(p)),
            },
            Err(e) => Err(StanError::IoError(e)),
        }
    }

    /// Promotes to a write-capability handle, like `into_readable`.
    pub fn into_writeable(self, probe: Result<(), String>) -> (r: Result<
        ArgWritablePath,
        StanError,
    >)
        ensures
            match probe {
                Ok(()) => r matches Ok(p) && p.spec_text() == self.spec_text() && ((self matches
                    ArgPath::Borrowed(_)) <==> (p matches ArgWritablePath::Borrowed(_))),
                Err(e) => r == Err::<ArgWritablePath, StanError>(StanError::IoError(e)),
            },
    {
        match probe {
            Ok(()) => match self {
                ArgPath::Borrowed(p) => Ok(ArgWritablePath::Borrowed(p)),
                ArgPath::Owned(p) => Ok(ArgWritablePath::Owned(p)),
            },
            Err(e) => Err(StanError::IoError(e)),
        }
    }

    /// When the path looks like a directory (no extension), appends
    /// `default_name`; otherwise leaves it unchanged.
    pub fn extend_default_file(&mut self, default_name: &str)
        ensures
            final(self).spec_text() == spec_extended(old(self).spec_text(), default_name@),
    {
        proof {
            reveal_strlit("/");
        }
        if has_extension(self.as_path()) {
            return ;
        }
        let name_len = default_name.unicode_len();
        if name_len > 0 && default_name.get_char(0) == '/' {
            *self = ArgPath::Owned(String::from_str(default_name));
            return ;
        }
        let mut s = String::from_str(self.as_path());
        let n = s.as_str().unicode_len();
        if n > 0 && s.as_str().get_char(n - 1) != '/' {
            s.append("/");
            assert(s@ =~= old(self).spec_text() + seq!['/']);
        }
        s.append(default_name);
        assert(s@ =~= spec_extended(old(self).spec_text(), default_name@));
        *self = ArgPath::Owned(s);
    }
}

impl ArgReadablePath {
    /// The path text.
    pub open spec fn spec_text(&self) -> Seq<char> {
        match self {
            ArgReadablePath::Borrowed(p) => p@,
            ArgReadablePath::Owned(p) => p@,
        }
    }

    /// An equal, independent copy of this handle.
    pub fn duplicate(&self) -> (r: ArgReadablePath)
        ensures
            r == *self,
    {
        match self {
            ArgReadablePath::Borrowed(p) => ArgReadablePath::Borrowed(p),
            ArgReadablePath::Owned(p) => ArgReadablePath::Owned(p.clone()),
        }
    }

    /// The path text as a string slice.
    pub fn as_path(&self) -> (r: &str)
        ensures
            r@ == self.spec_text(),
    {
        match self {
            ArgReadablePath::Borrowed(p) => p,
            ArgReadablePath::Owned(p) => p.as_str(),
        }
    }
}

impl ArgWritablePath {
    /// The path text.
    pub open spec fn spec_text(&self) -> Seq<char> {
        match self {
            ArgWritablePath::Borrowed(p) => p@,
            ArgWritablePath::Owned(p) => p@,
        }
    }


    /// Whether this handle borrows a static string with exactly the
    /// given text.
    pub fn is_borrowed_lit(&self, lit: &str) -> (r: bool)
        ensures
            r == (self matches ArgWritablePath::Borrowed(s) && s@ == lit@),
    {
        match self {
            ArgWritablePath::Borrowed(s) => {
                let a = String::from_str(s);
                let b = String::from_str(lit);
                a == b
            },
            ArgWritablePath::Owned(_) => false,
        }
    }

    /// An equal, independent copy of this handle.
    pub fn duplicate(&self) -> (r: ArgWritablePath)
        ensures
            r == *self,
    {
        match self {
            ArgWritablePath::Borrowed(p) => ArgWritablePath::Borrowed(p),
            ArgWritablePath::Owned(p) => ArgWritablePath::Owned(p.clone()),
        }
    }

    /// The path text as a string slice.
    pub fn as_path(&self) -> (r: &str)
        ensures
            r@ == self.spec_text(),
    {
        match self {
            ArgWritablePath::Borrowed(p) => p,
            ArgWritablePath::Owned(p) => p.as_str(),
        }
    }
}

impl crate::stan_command::WithDefaultArg for ArgPath {
    open spec fn spec_is_default(&self) -> bool {
        self matches ArgPath::Borrowed(s) && s@ == Seq::<char>::empty()
    }

    fn arg_default() -> (r: Self) {
        proof {
            reveal_strlit("");
        }
        let r = ArgPath::Borrowed("");
        assert(""@ =~= Seq::<char>::empty());
        r
    }

    fn is_default(&self) -> (r: bool) {
        match self {
            ArgPath::Borrowed(s) => {
                let n = s.unicode_len();
                proof {
                    if n == 0 {
                        assert(s@ =~= Seq::<char>::empty());
                    }
                }
                n == 0
            },
            ArgPath::Owned(_) => false,
        }
    }
}

impl crate::stan_command::WithDefaultArg for ArgReadablePath {
    open spec fn spec_is_default(&self) -> bool {
        self matches ArgReadablePath::Borrowed(s) && s@ == Seq::<char>::empty()
    }

    fn arg_default() -> (r: Self) {
        proof {
            reveal_strlit("");
        }
        let r = ArgReadablePath::Borrowed("");
        assert(""@ =~= Seq::<char>::empty());
        r
    }

    fn is_default(&self) -> (r: bool) {
        match self {
            ArgReadablePath::Borrowed(s) => {
                let n = s.unicode_len();
                proof {
                    if n == 0 {
                        assert(s@ =~= Seq::<char>::empty());
                    }
                }
                n == 0
            },
            ArgReadablePath::Owned(_) => false,
        }
    }
}

impl crate::stan_command::WithDefaultArg for ArgWritablePath {
    open spec fn spec_is_default(&self) -> bool {
        self matches ArgWritablePath::Borrowed(s) && s@ == Seq::<char>::empty()
    }

    fn arg_default() -> (r: Self) {
        proof {
            reveal_strlit("");
        }
        let r = ArgWritablePath::Borrowed("");
        assert(""@ =~= Seq::<char>::empty());
        r
    }

    fn is_default(&self) -> (r: bool) {
        match self {
            ArgWritablePath::Borrowed(s) => {
                let n = s.unicode_len();
                proof {
                    if n == 0 {
                        assert(s@ =~= Seq::<char>::empty());
                    }
                }
                n == 0
            },
            ArgWritablePath::Owned(_) => false,
        }
    }
}

impl From<ArgReadablePath> for ArgWritablePath {
    fn from(path: ArgReadablePath) -> (r: ArgWritablePath) {
        match path {
            ArgReadablePath::Borrowed(p) => ArgWritablePath::Borrowed(p),
            ArgReadablePath::Owned(p) => ArgWritablePath::Owned(p),
        }
    }
}

impl vstd::std_specs::convert::FromSpecImpl<ArgReadablePath> for ArgWritablePath {
    open spec fn obeys_from_spec() -> bool {
        true
    }

    open spec fn from_spec(t: ArgReadablePath) -> ArgWritablePath {
        match t {
            ArgReadablePath::Borrowed(p) => ArgWritablePath::Borrowed(p),
            ArgReadablePath::Owned(p) => ArgWritablePath::Owned(p),
        }
    }
}

/// The text of `p` with `name` appended as a further component:
/// `name` alone when it is absolute or `p` is empty; otherwise the two
/// joined with a separator.
pub open spec fn spec_joined(p: Seq<char>, name: Seq<char>) -> Seq<char> {
    if name.len() > 0 && name[0] == '/' {
        name
    } else if p.len() == 0 {
        name
    } else if p[p.len() - 1] == '/' {
        p + name
    } else {
        p + seq!['/'] + name
    }
}

/// Joins a directory path and a component.
pub fn join_path(p: &str, name: &str) -> (r: String)
    ensures
        r@ == spec_joined(p@, name@),
{
    proof {
        reveal_strlit("/");
    }
    let name_len = name.unicode_len();
    if name_len > 0 && name.get_char(0) == '/' {
        return String::from_str(name);
    }
    let n = p.unicode_len();
    if n == 0 {
        return String::from_str(name);
    }
    let mut s = String::from_str(p);
    if p.get_char(n - 1) != '/' {
        s.append("/");
        assert(s@ =~= p@ + seq!['/']);
    }
    s.append(name);
    assert(s@ =~= spec_joined(p@, name@));
    s
}

/// The position of the extension dot: the last dot of the last
/// component, provided it is not the component's first character;
/// `-1` when the path has no extension.
pub open spec fn last_ext_dot(p: Seq<char>) -> int
    decreases p.len(),
{
    if p.len() == 0 {
        -1
    } else if p.last() == '/' {
        -1
    } else if p.last() == '.' {
        if p.len() >= 2 && p[p.len() - 2] != '/' {
            p.len() - 1
        } else {
            -1
        }
    } else {
        last_ext_dot(p.drop_last())
    }
}

/// The extension heuristic and the extension-dot position agree.
pub proof fn lemma_ext_dot_equiv(p: Seq<char>)
    ensures
        spec_has_ext(p) <==> last_ext_dot(p) >= 0,
        last_ext_dot(p) >= 0 ==> ext_dot_at(p, last_ext_dot(p)),
    decreases p.len(),
{
    if p.len() == 0 {
        assert forall|i: int| !ext_dot_at(p, i) by {}
    } else if p.last() == '/' {
        assert forall|i: int| !ext_dot_at(p, i) by {
            if ext_dot_at(p, i) {
                if i < p.len() - 1 {
                    assert(p[p.len() - 1] != '/');
                }
                assert(false);
            }
        }
    } else if p.last() == '.' {
        if p.len() >= 2 && p[p.len() - 2] != '/' {
            assert(ext_dot_at(p, p.len() - 1));
        } else {
            assert forall|i: int| !ext_dot_at(p, i) by {
                if ext_dot_at(p, i) {
                    assert(p.len() >= 2);
                    if i == p.len() - 1 {
                        assert(p[i - 1] != '/');
                    } else if i < p.len() - 2 {
                        assert(p[p.len() - 2] != '/');
                    }
                    assert(false);
                }
            }
        }
    } else {
        lemma_ext_dot_equiv(p.drop_last());
        assert forall|i: int| ext_dot_at(p, i) implies ext_dot_at(p.drop_last(), i) by {
            assert(i < p.len() - 1);
            assert(p.drop_last()[i] == p[i]);
            assert(p.drop_last()[i - 1] == p[i - 1]);
            assert forall|l: int| i < l < p.len() - 1 implies p.drop_last()[l] != '/' by {
                assert(p.drop_last()[l] == p[l]);
            }
        }
        assert forall|i: int| ext_dot_at(p.drop_last(), i) implies ext_dot_at(p, i) by {
            assert(p.drop_last()[i] == p[i]);
            assert(p.drop_last()[i - 1] == p[i - 1]);
            assert forall|l: int| i < l < p.len() implies p[l] != '/' by {
                if l < p.len() - 1 {
                    assert(p.drop_last()[l] == p[l]);
                }
            }
        }
        if last_ext_dot(p) >= 0 {
            assert(last_ext_dot(p) == last_ext_dot(p.drop_last()));
            assert(ext_dot_at(p.drop_last(), last_ext_dot(p.drop_last())));
            assert(ext_dot_at(p, last_ext_dot(p)));
            assert(spec_has_ext(p));
        }
        if spec_has_ext(p) {
            let w = choose|i: int| ext_dot_at(p, i);
            assert(ext_dot_at(p, w));
            assert(ext_dot_at(p.drop_last(), w));
            assert(spec_has_ext(p.drop_last()));
            assert(last_ext_dot(p.drop_last()) >= 0);
            assert(last_ext_dot(p) >= 0);
        }
        assert(spec_has_ext(p) <==> last_ext_dot(p) >= 0);
    }
}

/// The position of the extension dot, if the path has one.
pub fn find_ext_dot(p: &str) -> (r: Option<usize>)
    ensures
        match r {
            Some(d) => last_ext_dot(p@) == d && d < p@.len(),
            None => last_ext_dot(p@) == -1,
        },
{
    let n = p.unicode_len();
    let mut i = n;
    proof {
        assert(p@.take(n as int) =~= p@);
    }
    while i > 0
        invariant
            i <= n,
            n == p@.len(),
            last_ext_dot(p@) == last_ext_dot(p@.take(i as int)),
        decreases i,
    {
        let ghost cur = p@.take(i as int);
        proof {
            assert(cur.last() == p@[i - 1]);
            assert(cur.drop_last() =~= p@.take(i - 1));
        }
        let c = p.get_char(i - 1);
        if c == '/' {
            return None;
        }
        if c == '.' {
            if i >= 2 && p.get_char(i - 2) != '/' {
                proof {
                    assert(cur[i - 2] == p@[i - 2]);
                }
                return Some(i - 1);
            }
            proof {
                if i >= 2 {
                    assert(cur[i - 2] == p@[i - 2]);
                }
            }
            return None;
        }
        i = i - 1;
    }
    proof {
        assert(p@.take(0) =~= Seq::<char>::empty());
    }
    None
}

/// The text of `p` with its extension replaced by (or, lacking one,
/// extended with) `.e`.
pub open spec fn spec_with_ext(p: Seq<char>, e: Seq<char>) -> Seq<char> {
    let d = last_ext_dot(p);
    if d >= 0 {
        p.take(d) + seq!['.'] + e
    } else {
        p + seq!['.'] + e
    }
}

/// Replaces (or adds) the path's extension.
pub fn with_ext(p: &str, e: &str) -> (r: String)
    ensures
        r@ == spec_with_ext(p@, e@),
{
    proof {
        reveal_strlit(".");
        lemma_ext_dot_equiv(p@);
    }
    let d = find_ext_dot(p);
    let mut s = match d {
        Some(dot) => {
            proof {
                assert(ext_dot_at(p@, dot as int));
            }
            String::from_str(p.substring_char(0, dot))
        },
        None => String::from_str(p),
    };
    s.append(".");
    s.append(e);
    assert(s@ =~= spec_with_ext(p@, e@));
    s
}

/// The position of the last separator, or `-1` when there is none.
pub open spec fn last_sep(p: Seq<char>) -> int
    decreases p.len(),
{
    if p.len() == 0 {
        -1
    } else if p.last() == '/' {
        p.len() - 1
    } else {
        last_sep(p.drop_last())
    }
}

/// The position after the last separator, if any.
pub fn find_last_sep(p: &str) -> (r: Option<usize>)
    ensures
        match r {
            Some(d) => last_sep(p@) == d && d < p@.len(),
            None => last_sep(p@) == -1,
        },
{
    let n = p.unicode_len();
    let mut i = n;
    proof {
        assert(p@.take(n as int) =~= p@);
    }
    while i > 0
        invariant
            i <= n,
            n == p@.len(),
            last_sep(p@) == last_sep(p@.take(i as int)),
        decreases i,
    {
        let ghost cur = p@.take(i as int);
        proof {
            assert(cur.last() == p@[i - 1]);
            assert(cur.drop_last() =~= p@.take(i - 1));
        }
        if p.get_char(i - 1) == '/' {
            return Some(i - 1);
        }
        i = i - 1;
    }
    proof {
        assert(p@.take(0) =~= Seq::<char>::empty());
    }
    None
}

} // verus!
