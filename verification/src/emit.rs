//! Rendering of one shim's declaration and definition text.
//!
//! The shim for member `m` of class `C` is a free function
//! `vwrap_C_<token>`, where the token is the member's source identifier, or
//! `constructor`/`destructor` for those kinds. Its first parameter is an
//! explicit receiver `C *thiz`; the member's own parameters follow, each
//! reproduced verbatim from the header's bytes so that default arguments,
//! qualifiers and spacing stay exactly as authored. The definition's body
//! placement-constructs into `thiz` for a constructor and dispatches through
//! `thiz->` otherwise, forwarding the arguments by their display names, with
//! `return` prefixed unless the result type is `void`.

use vstd::prelude::*;
use vstd::string::StringExecFns;

use crate::model::{MemberDecl, MemberKind, MemberView, ParamView, Parameter};

verus! {

/// Every name the emitter prints is present: the member's own, and each
/// parameter's display name.
pub open spec fn member_named(m: MemberView) -> bool {
    &&& m.name is Some
    &&& forall|k: int| 0 <= k < m.params.len() ==> (#[trigger] m.params[k].name) is Some
}

/// The name token of the shim: the synthetic `constructor`/`destructor`, or
/// the method's source identifier.
pub open spec fn member_token(m: MemberView) -> Seq<char> {
    match m.kind {
        MemberKind::Constructor => "constructor"@,
        MemberKind::Destructor => "destructor"@,
        _ => m.name->0,
    }
}

/// Verbatim source text of the parameters from index `j` on, each preceded
/// by a comma that separates it from the receiver or the parameter before.
pub open spec fn params_src_from(ps: Seq<ParamView>, j: int) -> Seq<char>
    decreases ps.len() - j,
{
    if j < 0 || j >= ps.len() {
        Seq::empty()
    } else {
        ", "@ + ps[j].source_text + params_src_from(ps, j + 1)
    }
}

/// The call-site argument names from index `j` on, each preceded by a
/// separating comma.
pub open spec fn fwd_tail(ps: Seq<ParamView>, j: int) -> Seq<char>
    decreases ps.len() - j,
{
    if j < 0 || j >= ps.len() {
        Seq::empty()
    } else {
        ", "@ + ps[j].name->0 + fwd_tail(ps, j + 1)
    }
}

/// The comma-separated argument names forwarded at the call site.
pub open spec fn fwd_args(ps: Seq<ParamView>) -> Seq<char> {
    if ps.len() == 0 {
        Seq::empty()
    } else {
        ps[0].name->0 + fwd_tail(ps, 1)
    }
}

/// The shim's signature: result type, generated name, explicit receiver,
/// then the original parameters verbatim.
pub open spec fn sig_text(cls: Seq<char>, m: MemberView) -> Seq<char> {
    m.result_type + " vwrap_"@ + cls + "_"@ + member_token(m) + "("@ + cls + " *thiz"@
        + params_src_from(m.params, 0) + ")"@
}

/// The declaration line written to the header.
pub open spec fn decl_text(cls: Seq<char>, m: MemberView) -> Seq<char> {
    sig_text(cls, m) + ";\n"@
}

/// The statement inside the definition's braces: an optional `return `, then
/// placement construction or pointer dispatch, forwarding the arguments by
/// name.
pub open spec fn body_text(m: MemberView) -> Seq<char> {
    (if m.result_is_void {
        Seq::<char>::empty()
    } else {
        "return "@
    }) + (if m.kind is Constructor {
        "new(thiz) "@
    } else {
        "thiz->"@
    }) + m.name->0 + "("@ + fwd_args(m.params) + ");\n"@
}

/// The definition written to the source file.
pub open spec fn def_text(cls: Seq<char>, m: MemberView) -> Seq<char> {
    sig_text(cls, m) + " {\n    "@ + body_text(m) + "}\n"@
}

/// Appends the verbatim parameter texts, each after a separating comma.
fn push_params_src(out: &mut String, params: &Vec<Parameter>)
    ensures
        final(out)@ == old(out)@ + params_src_from(params.deep_view(), 0),
{
    let ghost psv = params.deep_view();
    let n = params.len();
    let mut j: usize = 0;
    while j < n
        invariant
            psv == params.deep_view(),
            n == params.len(),
            j <= n,
            out@ + params_src_from(psv, j as int) == old(out)@ + params_src_from(psv, 0),
        decreases n - j,
    {
        let ghost before = out@;
        out.append(", ");
        out.append(params[j].source_text.as_str());
        proof {
            assert(out@ + params_src_from(psv, j + 1) =~= before + params_src_from(psv, j as int));
        }
        j += 1;
    }
    proof {
        assert(out@ + params_src_from(psv, n as int) =~= out@);
    }
}

/// Appends the comma-separated forwarded argument names.
fn push_fwd_args(out: &mut String, params: &Vec<Parameter>)
    requires
        forall|k: int|
            0 <= k < params.deep_view().len() ==> (#[trigger] params.deep_view()[k].name) is Some,
    ensures
        final(out)@ == old(out)@ + fwd_args(params.deep_view()),
{
    let ghost psv = params.deep_view();
    let n = params.len();
    if n == 0 {
        proof {
            assert(out@ + fwd_args(psv) =~= out@);
        }
        return ;
    }
    proof {
        assert(psv[0] == params@[0].deep_view());
    }
    out.append(params[0].name.as_ref().unwrap().as_str());
    let mut j: usize = 1;
    while j < n
        invariant
            psv == params.deep_view(),
            n == params.len(),
            1 <= j <= n,
            forall|k: int| 0 <= k < psv.len() ==> (#[trigger] psv[k].name) is Some,
            out@ + fwd_tail(psv, j as int) == old(out)@ + fwd_args(psv),
        decreases n - j,
    {
        let ghost before = out@;
        out.append(", ");
        proof {
            assert(psv[j as int] == params@[j as int].deep_view());
        }
        out.append(params[j].name.as_ref().unwrap().as_str());
        proof {
            assert(out@ + fwd_tail(psv, j + 1) =~= before + fwd_tail(psv, j as int));
        }
        j += 1;
    }
    proof {
        assert(out@ + fwd_tail(psv, n as int) =~= out@);
    }
}

/// Appends the shim's signature.
fn push_sig(out: &mut String, cls: &String, m: &MemberDecl)
    requires
        member_named(m@),
    ensures
        final(out)@ == old(out)@ + sig_text(cls@, m@),
{
    out.append(m.result_type.as_str());
    out.append(" vwrap_");
    out.append(cls.as_str());
    out.append("_");
    match m.kind {
        MemberKind::Constructor => out.append("constructor"),
        MemberKind::Destructor => out.append("destructor"),
        MemberKind::Method { .. } | MemberKind::Other => out.append(
            m.name.as_ref().unwrap().as_str(),
        ),
    }
    out.append("(");
    out.append(cls.as_str());
    out.append(" *thiz");
    push_params_src(out, &m.params);
    out.append(")");
    proof {
        assert(out@ =~= old(out)@ + sig_text(cls@, m@));
    }
}

/// Appends the declaration line of the shim for `m`, owned by class `cls`.
pub fn push_decl(out: &mut String, cls: &String, m: &MemberDecl)
    requires
        member_named(m@),
    ensures
        final(out)@ == old(out)@ + decl_text(cls@, m@),
{
    push_sig(out, cls, m);
    out.append(";\n");
    proof {
        assert(out@ =~= old(out)@ + decl_text(cls@, m@));
    }
}

/// Appends the definition of the shim for `m`, owned by class `cls`.
pub fn push_def(out: &mut String, cls: &String, m: &MemberDecl)
    requires
        member_named(m@),
    ensures
        final(out)@ == old(out)@ + def_text(cls@, m@),
{
    push_sig(out, cls, m);
    out.append(" {\n    ");
    if !m.result_is_void {
        out.append("return ");
    }
    match m.kind {
        MemberKind::Constructor => out.append("new(thiz) "),
        MemberKind::Destructor | MemberKind::Method { .. } | MemberKind::Other => out.append(
            "thiz->",
        ),
    }
    out.append(m.name.as_ref().unwrap().as_str());
    out.append("(");
    push_fwd_args(out, &m.params);
    out.append(");\n");
    out.append("}\n");
    proof {
        assert(out@ =~= old(out)@ + def_text(cls@, m@));
    }
}

} // verus!
