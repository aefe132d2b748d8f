//! Token builders shared by every option tree.
//!
//! A token is either a bare group keyword or `name=value` with the value
//! in its canonical text.  The helpers here build those tokens and append
//! them to a sink only when the value differs from its default, which is
//! the whole serialization rule.

use vstd::prelude::*;

use crate::arg_paths::{ArgReadablePath, ArgWritablePath};
use crate::fixed::Fixed;
use crate::render::{append_bool, append_i64, append_u64, bool_str, dec_int, dec_nat};
use crate::stan_command::{token_views, ArgSink, WithDefaultArg};

verus! {

/// The text `name=val`.
pub open spec fn kv(name: Seq<char>, val: Seq<char>) -> Seq<char> {
    name + seq!['='] + val
}

/// One token under a condition: the serialization engine emits nothing
/// for a defaulted option.
pub open spec fn tok_if(cond: bool, t: Seq<char>) -> Seq<Seq<char>> {
    if cond {
        seq![t]
    } else {
        Seq::<Seq<char>>::empty()
    }
}

/// Concatenation of sequences is associative; serialization proofs use
/// this to fold one emitted group at a time into the whole.
pub proof fn lemma_concat_assoc<T>(a: Seq<T>, b: Seq<T>, c: Seq<T>)
    ensures
        (a + b) + c == a + (b + c),
{
    assert((a + b) + c =~= a + (b + c));
}

/// Membership in a concatenation is membership in either part.
pub proof fn lemma_contains_concat<T>(a: Seq<T>, b: Seq<T>, x: T)
    ensures
        (a + b).contains(x) <==> (a.contains(x) || b.contains(x)),
{
    if (a + b).contains(x) {
        let i = choose|i: int| 0 <= i < (a + b).len() && (a + b)[i] == x;
        if i < a.len() {
            assert(a[i] == x);
        } else {
            assert(b[i - a.len()] == x);
        }
    }
    if a.contains(x) {
        let i = choose|i: int| 0 <= i < a.len() && a[i] == x;
        assert((a + b)[i] == x);
    }
    if b.contains(x) {
        let i = choose|i: int| 0 <= i < b.len() && b[i] == x;
        assert((a + b)[a.len() + i] == x);
    }
}

/// A one-token sequence holds exactly that token.
pub proof fn lemma_contains_single<T>(t: T, x: T)
    ensures
        seq![t].contains(x) <==> x == t,
{
    if seq![t].contains(x) {
        let i = choose|i: int| 0 <= i < seq![t].len() && seq![t][i] == x;
        assert(seq![t][0] == x);
    }
    if x == t {
        assert(seq![t][0] == x);
    }
}

/// A conditional token holds exactly the token, when its condition
/// holds.
pub proof fn lemma_contains_tok_if(cond: bool, t: Seq<char>, x: Seq<char>)
    ensures
        tok_if(cond, t).contains(x) <==> (cond && x == t),
{
    if cond {
        assert(tok_if(cond, t)[0] == t);
    }
}

/// Builds the token `name=val`.
pub fn args_combine(name: &str, val: &str) -> (r: String)
    ensures
        r@ == kv(name@, val@),
{
    proof {
        reveal_strlit("=");
    }
    let mut s = String::from_str(name);
    s.append("=");
    s.append(val);
    assert(s@ =~= kv(name@, val@));
    s
}

/// Appends the bare keyword `k` as one token.
pub fn push_keyword(sink: &mut ArgSink, k: &str)
    ensures
        token_views(final(sink).tokens@) == token_views(old(sink).tokens@) + seq![k@],
        final(sink).side_files@ == old(sink).side_files@,
{
    sink.push_token(String::from_str(k));
    assert(token_views(sink.tokens@) =~= token_views(old(sink).tokens@) + seq![k@]);
}

/// Appends `name=v` when `v` differs from `dflt`.
pub fn arg_if_not_default_u32(sink: &mut ArgSink, name: &str, v: u32, dflt: u32)
    ensures
        token_views(final(sink).tokens@) == token_views(old(sink).tokens@) + tok_if(
            v != dflt,
            kv(name@, dec_nat(v as nat)),
        ),
        final(sink).side_files@ == old(sink).side_files@,
{
    if v != dflt {
        proof {
            reveal_strlit("=");
        }
        let mut s = String::from_str(name);
        s.append("=");
        append_u64(&mut s, v as u64);
        assert(s@ =~= kv(name@, dec_nat(v as nat)));
        sink.push_token(s);
        assert(token_views(sink.tokens@) =~= token_views(old(sink).tokens@) + tok_if(
            v != dflt,
            kv(name@, dec_nat(v as nat)),
        ));
    } else {
        assert(token_views(sink.tokens@) =~= token_views(old(sink).tokens@) + tok_if(
            v != dflt,
            kv(name@, dec_nat(v as nat)),
        ));
    }
}

/// Appends `name=v` when `v` differs from `dflt`.
pub fn arg_if_not_default_i32(sink: &mut ArgSink, name: &str, v: i32, dflt: i32)
    ensures
        token_views(final(sink).tokens@) == token_views(old(sink).tokens@) + tok_if(
            v != dflt,
            kv(name@, dec_int(v as int)),
        ),
        final(sink).side_files@ == old(sink).side_files@,
{
    if v != dflt {
        proof {
            reveal_strlit("=");
        }
        let mut s = String::from_str(name);
        s.append("=");
        append_i64(&mut s, v as i64);
        assert(s@ =~= kv(name@, dec_int(v as int)));
        sink.push_token(s);
        assert(token_views(sink.tokens@) =~= token_views(old(sink).tokens@) + tok_if(
            v != dflt,
            kv(name@, dec_int(v as int)),
        ));
    } else {
        assert(token_views(sink.tokens@) =~= token_views(old(sink).tokens@) + tok_if(
            v != dflt,
            kv(name@, dec_int(v as int)),
        ));
    }
}

/// Appends `name=v` (`true`/`false`) when `v` differs from `dflt`.
pub fn arg_if_not_default_bool(sink: &mut ArgSink, name: &str, v: bool, dflt: bool)
    ensures
        token_views(final(sink).tokens@) == token_views(old(sink).tokens@) + tok_if(
            v != dflt,
            kv(name@, bool_str(v)),
        ),
        final(sink).side_files@ == old(sink).side_files@,
{
    if v != dflt {
        proof {
            reveal_strlit("=");
        }
        let mut s = String::from_str(name);
        s.append("=");
        append_bool(&mut s, v);
        assert(s@ =~= kv(name@, bool_str(v)));
        sink.push_token(s);
        assert(token_views(sink.tokens@) =~= token_views(old(sink).tokens@) + tok_if(
            v != dflt,
            kv(name@, bool_str(v)),
        ));
    } else {
        assert(token_views(sink.tokens@) =~= token_views(old(sink).tokens@) + tok_if(
            v != dflt,
            kv(name@, bool_str(v)),
        ));
    }
}

/// Appends `name=v` in canonical decimal text when `v` differs from
/// `dflt`.
pub fn arg_if_not_default_fixed(sink: &mut ArgSink, name: &str, v: Fixed, dflt: Fixed)
    ensures
        token_views(final(sink).tokens@) == token_views(old(sink).tokens@) + tok_if(
            v != dflt,
            kv(name@, v.spec_text()),
        ),
        final(sink).side_files@ == old(sink).side_files@,
{
    if v != dflt {
        proof {
            reveal_strlit("=");
        }
        let mut s = String::from_str(name);
        s.append("=");
        let t = v.to_text();
        s.append(t.as_str());
        assert(s@ =~= kv(name@, v.spec_text()));
        sink.push_token(s);
        assert(token_views(sink.tokens@) =~= token_views(old(sink).tokens@) + tok_if(
            v != dflt,
            kv(name@, v.spec_text()),
        ));
    } else {
        assert(token_views(sink.tokens@) =~= token_views(old(sink).tokens@) + tok_if(
            v != dflt,
            kv(name@, v.spec_text()),
        ));
    }
}

/// Appends `name=path` when the path is not the empty default.
pub fn arg_if_not_default_rpath(sink: &mut ArgSink, name: &str, v: &ArgReadablePath)
    ensures
        token_views(final(sink).tokens@) == token_views(old(sink).tokens@) + tok_if(
            !v.spec_is_default(),
            kv(name@, v.spec_text()),
        ),
        final(sink).side_files@ == old(sink).side_files@,
{
    if !v.is_default() {
        let s = args_combine(name, v.as_path());
        sink.push_token(s);
        assert(token_views(sink.tokens@) =~= token_views(old(sink).tokens@) + tok_if(
            !v.spec_is_default(),
            kv(name@, v.spec_text()),
        ));
    } else {
        assert(token_views(sink.tokens@) =~= token_views(old(sink).tokens@) + tok_if(
            !v.spec_is_default(),
            kv(name@, v.spec_text()),
        ));
    }
}

/// Appends `name=path` when the path is not the empty default.
pub fn arg_if_not_default_wpath(sink: &mut ArgSink, name: &str, v: &ArgWritablePath)
    ensures
        token_views(final(sink).tokens@) == token_views(old(sink).tokens@) + tok_if(
            !v.spec_is_default(),
            kv(name@, v.spec_text()),
        ),
        final(sink).side_files@ == old(sink).side_files@,
{
    if !v.is_default() {
        let s = args_combine(name, v.as_path());
        sink.push_token(s);
        assert(token_views(sink.tokens@) =~= token_views(old(sink).tokens@) + tok_if(
            !v.spec_is_default(),
            kv(name@, v.spec_text()),
        ));
    } else {
        assert(token_views(sink.tokens@) =~= token_views(old(sink).tokens@) + tok_if(
            !v.spec_is_default(),
            kv(name@, v.spec_text()),
        ));
    }
}

} // verus!
