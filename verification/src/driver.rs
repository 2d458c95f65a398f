//! The whole generation run over one translation unit's class table: per
//! class, resolve its hierarchy set, filter every (declaring class, member)
//! pair through the eligibility rule, and append the eligible shims'
//! declaration lines to the header text and their definitions to the source
//! text, a blank line after each class's block.
//!
//! Any failure aborts the run with no output: a base-class name that no
//! class of the table carries (`LookupFailure`), or an anonymous declaration
//! where a name is structurally required — an eligible member or parameter
//! without one (`MissingName`). Nothing is retried: partial output could
//! silently compile into a broken hierarchy.

use vstd::prelude::*;
use vstd::string::StringExecFns;

use crate::eligibility::{eligible_spec, is_eligible};
use crate::emit::{decl_text, def_text, member_named, push_decl, push_def};
use crate::hierarchy::{
    all_bases_resolve, idx_seq, lemma_hierarchy_closed, lemma_hierarchy_wf, lemma_resolve_total,
    resolve_hierarchy, resolve_spec, valid_idxs,
};
use crate::model::{ClassTable, ClassView, MemberDecl, MemberView};

verus! {

/// Why a generation run aborted.
#[derive(Debug)]
pub enum GenError {
    /// A base-class name that resolves to no class of the table.
    LookupFailure(String),
    /// An anonymous declaration where a name was structurally required.
    MissingName,
}

/// Mathematical image of a `GenError`.
pub ghost enum GenErrorView {
    LookupFailure { name: Seq<char> },
    MissingName,
}

impl View for GenError {
    type V = GenErrorView;

    open spec fn view(&self) -> GenErrorView {
        match self {
            GenError::LookupFailure(n) => GenErrorView::LookupFailure { name: n@ },
            GenError::MissingName => GenErrorView::MissingName,
        }
    }
}

/// Header and source text of the shims of the members `ms[j..]` of one
/// declaring class, seen from the owning class named `cls`; the first
/// eligible member that misses a name (its own or a parameter's) aborts.
pub open spec fn emit_members_from(
    cls: Seq<char>,
    same_class: bool,
    owning_is_abstract: bool,
    ms: Seq<MemberView>,
    j: int,
) -> Result<(Seq<char>, Seq<char>), GenErrorView>
    decreases ms.len() - j,
{
    if j < 0 || j >= ms.len() {
        Ok((Seq::empty(), Seq::empty()))
    } else {
        let m = ms[j];
        if eligible_spec(same_class, owning_is_abstract, m) {
            if !member_named(m) {
                Err(GenErrorView::MissingName)
            } else {
                match emit_members_from(cls, same_class, owning_is_abstract, ms, j + 1) {
                    Err(e) => Err(e),
                    Ok(rest) => Ok((decl_text(cls, m) + rest.0, def_text(cls, m) + rest.1)),
                }
            }
        } else {
            emit_members_from(cls, same_class, owning_is_abstract, ms, j + 1)
        }
    }
}

/// Header and source text of the shims the owning class `owning` draws from
/// the classes `h[j..]` of its hierarchy set, in resolver order.
pub open spec fn emit_hier_from(t: Seq<ClassView>, owning: int, h: Seq<int>, j: int) -> Result<
    (Seq<char>, Seq<char>),
    GenErrorView,
>
    decreases h.len() - j,
{
    if j < 0 || j >= h.len() {
        Ok((Seq::empty(), Seq::empty()))
    } else {
        match emit_members_from(
            t[owning].name,
            h[j] == owning,
            t[owning].is_abstract,
            t[h[j]].members,
            0,
        ) {
            Err(e) => Err(e),
            Ok(p) => match emit_hier_from(t, owning, h, j + 1) {
                Err(e) => Err(e),
                Ok(q) => Ok((p.0 + q.0, p.1 + q.1)),
            },
        }
    }
}

/// One owning class's whole block: hierarchy resolution, then its shims; the
/// source block ends with a separating blank line.
pub open spec fn emit_class_spec(t: Seq<ClassView>, c: int) -> Result<
    (Seq<char>, Seq<char>),
    GenErrorView,
> {
    match resolve_spec(t, c) {
        Err(nm) => Err(GenErrorView::LookupFailure { name: nm }),
        Ok(h) => match emit_hier_from(t, c, h, 0) {
            Err(e) => Err(e),
            Ok(p) => Ok((p.0, p.1 + "\n"@)),
        },
    }
}

/// The blocks of the classes `t[c..]`, in table order.
pub open spec fn emit_all_from(t: Seq<ClassView>, c: int) -> Result<
    (Seq<char>, Seq<char>),
    GenErrorView,
>
    decreases t.len() - c,
{
    if c < 0 || c >= t.len() {
        Ok((Seq::empty(), Seq::empty()))
    } else {
        match emit_class_spec(t, c) {
            Err(e) => Err(e),
            Ok(p) => match emit_all_from(t, c + 1) {
                Err(e) => Err(e),
                Ok(q) => Ok((p.0 + q.0, p.1 + q.1)),
            },
        }
    }
}

/// First lines of the generated header: the pragma and the include of the
/// original header.
pub open spec fn hdr_prelude(input_header_path: Seq<char>) -> Seq<char> {
    "#pragma once\n#include \""@ + input_header_path + "\"\n"@
}

/// First lines of the generated source: the include of the generated header,
/// and of `<new>` for placement construction.
pub open spec fn src_prelude(output_header_path: Seq<char>) -> Seq<char> {
    "#include \""@ + output_header_path + "\"\n#include <new>\n"@
}

/// The complete generated header and source text, or the error that aborted
/// the run.
pub open spec fn generate_spec(
    t: Seq<ClassView>,
    input_header_path: Seq<char>,
    output_header_path: Seq<char>,
) -> Result<(Seq<char>, Seq<char>), GenErrorView> {
    match emit_all_from(t, 0) {
        Err(e) => Err(e),
        Ok(p) => Ok((hdr_prelude(input_header_path) + p.0, src_prelude(output_header_path) + p.1)),
    }
}

/// Every member of class `c` that the eligibility rule selects — out of any
/// declaring class of `c`'s hierarchy set — carries every name the emitter
/// prints.
pub open spec fn class_shims_named(t: Seq<ClassView>, c: int) -> bool {
    match resolve_spec(t, c) {
        Err(_) => true,
        Ok(h) => forall|p: int, k: int|
            0 <= p < h.len() && 0 <= k < t[h[p]].members.len() && eligible_spec(
                h[p] == c,
                t[c].is_abstract,
                #[trigger] t[h[p]].members[k],
            ) ==> member_named(t[h[p]].members[k]),
    }
}

/// `class_shims_named`, for every class of the table.
pub open spec fn all_shims_named(t: Seq<ClassView>) -> bool {
    forall|c: int| 0 <= c < t.len() ==> #[trigger] class_shims_named(t, c)
}

proof fn lemma_members_ok_iff(
    cls: Seq<char>,
    same_class: bool,
    owning_is_abstract: bool,
    ms: Seq<MemberView>,
    j: int,
)
    requires
        0 <= j,
    ensures
        emit_members_from(cls, same_class, owning_is_abstract, ms, j) is Ok <==> (forall|k: int|
            j <= k < ms.len() && eligible_spec(same_class, owning_is_abstract, #[trigger] ms[k])
                ==> member_named(ms[k])),
    decreases ms.len() - j,
{
    if j < ms.len() {
        lemma_members_ok_iff(cls, same_class, owning_is_abstract, ms, j + 1);
    }
}

proof fn lemma_hier_ok_iff(t: Seq<ClassView>, c: int, h: Seq<int>, j: int)
    requires
        0 <= j,
        0 <= c < t.len(),
    ensures
        emit_hier_from(t, c, h, j) is Ok <==> (forall|p: int, k: int|
            j <= p < h.len() && 0 <= k < t[h[p]].members.len() && eligible_spec(
                h[p] == c,
                t[c].is_abstract,
                #[trigger] t[h[p]].members[k],
            ) ==> member_named(t[h[p]].members[k])),
    decreases h.len() - j,
{
    if j < h.len() {
        lemma_members_ok_iff(t[c].name, h[j] == c, t[c].is_abstract, t[h[j]].members, 0);
        lemma_hier_ok_iff(t, c, h, j + 1);
    }
}

proof fn lemma_class_ok_iff(t: Seq<ClassView>, c: int)
    requires
        0 <= c < t.len(),
    ensures
        emit_class_spec(t, c) is Ok <==> resolve_spec(t, c) is Ok && class_shims_named(t, c),
{
    match resolve_spec(t, c) {
        Err(_) => {},
        Ok(h) => {
            lemma_hier_ok_iff(t, c, h, 0);
        },
    }
}

proof fn lemma_emit_all_ok_iff(t: Seq<ClassView>, c: int)
    requires
        0 <= c,
    ensures
        emit_all_from(t, c) is Ok <==> (forall|d: int|
            c <= d < t.len() ==> (#[trigger] emit_class_spec(t, d)) is Ok),
    decreases t.len() - c,
{
    if c < t.len() {
        lemma_emit_all_ok_iff(t, c + 1);
    }
}

/// A generation run succeeds if and only if every base-class edge of the
/// table resolves and every member the eligibility rule selects carries
/// every name the emitter prints; otherwise it aborts with a
/// `LookupFailure` or a `MissingName`.
pub proof fn lemma_generate_ok_iff(
    t: Seq<ClassView>,
    input_header_path: Seq<char>,
    output_header_path: Seq<char>,
)
    ensures
        generate_spec(t, input_header_path, output_header_path) is Ok <==> all_bases_resolve(t)
            && all_shims_named(t),
{
    lemma_emit_all_ok_iff(t, 0);
    if generate_spec(t, input_header_path, output_header_path) is Ok {
        assert forall|c: int, b: int|
            0 <= c < t.len() && 0 <= b < t[c].bases.len() implies (#[trigger] crate::model::lookup_spec(
            t,
            t[c].bases[b],
        )) is Some by {
            lemma_class_ok_iff(t, c);
            match resolve_spec(t, c) {
                Err(_) => {},
                Ok(h) => {
                    lemma_hierarchy_wf(t, c, h);
                    lemma_hierarchy_closed(t, c, h);
                    assert(t[h[0]].bases == t[c].bases);
                },
            }
        }
        assert forall|c: int| 0 <= c < t.len() implies #[trigger] class_shims_named(t, c) by {
            lemma_class_ok_iff(t, c);
        }
    }
    if all_bases_resolve(t) && all_shims_named(t) {
        assert forall|d: int| 0 <= d < t.len() implies (#[trigger] emit_class_spec(t, d)) is Ok by {
            lemma_resolve_total(t, d);
            lemma_class_ok_iff(t, d);
        }
    }
}

/// Whether the member and all of its parameters carry a name.
fn member_named_exec(m: &MemberDecl) -> (r: bool)
    ensures
        r == member_named(m@),
{
    if m.name.is_none() {
        return false;
    }
    let n = m.params.len();
    let mut j: usize = 0;
    while j < n
        invariant
            n == m.params.len(),
            forall|k: int| 0 <= k < j ==> (#[trigger] m.params.deep_view()[k].name) is Some,
        decreases n - j,
    {
        proof {
            assert(m.params.deep_view()[j as int] == m.params@[j as int].deep_view());
        }
        if m.params[j].name.is_none() {
            return false;
        }
        j += 1;
    }
    true
}

/// Renders the shims of one declaring class's members, seen from the owning
/// class named `cls`, into fresh header and source text.
fn emit_members_exec(
    cls: &String,
    same_class: bool,
    owning_is_abstract: bool,
    ms: &Vec<MemberDecl>,
) -> (r: Result<(String, String), GenError>)
    ensures
        match r {
            Ok(p) => emit_members_from(cls@, same_class, owning_is_abstract, ms.deep_view(), 0)
                == Ok::<(Seq<char>, Seq<char>), GenErrorView>((p.0@, p.1@)),
            Err(e) => emit_members_from(cls@, same_class, owning_is_abstract, ms.deep_view(), 0)
                == Err::<(Seq<char>, Seq<char>), GenErrorView>(e@),
        },
{
    let ghost msv = ms.deep_view();
    let ghost cv = cls@;
    let mut h = String::new();
    let mut s = String::new();
    let n = ms.len();
    let mut j: usize = 0;
    while j < n
        invariant
            msv == ms.deep_view(),
            cv == cls@,
            n == ms.len(),
            j <= n,
            (match emit_members_from(cv, same_class, owning_is_abstract, msv, j as int) {
                Ok(rest) => emit_members_from(cv, same_class, owning_is_abstract, msv, 0)
                    == Ok::<(Seq<char>, Seq<char>), GenErrorView>((h@ + rest.0, s@ + rest.1)),
                Err(e) => emit_members_from(cv, same_class, owning_is_abstract, msv, 0)
                    == Err::<(Seq<char>, Seq<char>), GenErrorView>(e),
            }),
        decreases n - j,
    {
        let m = &ms[j];
        proof {
            assert(msv[j as int] == ms@[j as int]@);
        }
        if is_eligible(same_class, owning_is_abstract, m) {
            if !member_named_exec(m) {
                return Err(GenError::MissingName);
            }
            let ghost h0 = h@;
            let ghost s0 = s@;
            push_decl(&mut h, cls, m);
            push_def(&mut s, cls, m);
            proof {
                match emit_members_from(cv, same_class, owning_is_abstract, msv, j + 1) {
                    Ok(rest) => {
                        assert(h@ + rest.0 =~= h0 + (decl_text(cv, msv[j as int]) + rest.0));
                        assert(s@ + rest.1 =~= s0 + (def_text(cv, msv[j as int]) + rest.1));
                    },
                    Err(_) => {},
                }
            }
        }
        j += 1;
    }
    proof {
        assert(h@ + Seq::<char>::empty() =~= h@);
        assert(s@ + Seq::<char>::empty() =~= s@);
    }
    Ok((h, s))
}

/// Renders one owning class's whole block into fresh header and source text:
/// resolves its hierarchy set, then walks it in resolver order.
fn emit_class_exec(table: &ClassTable, c: usize) -> (r: Result<(String, String), GenError>)
    requires
        (c as int) < table@.len(),
    ensures
        match r {
            Ok(p) => emit_class_spec(table@, c as int) == Ok::<(Seq<char>, Seq<char>),
                GenErrorView,
            >((p.0@, p.1@)),
            Err(e) => emit_class_spec(table@, c as int) == Err::<(Seq<char>, Seq<char>),
                GenErrorView,
            >(e@),
        },
{
    let ghost t = table@;
    let hier = match resolve_hierarchy(table, c) {
        Err(nm) => {
            return Err(GenError::LookupFailure(nm));
        },
        Ok(v) => v,
    };
    let ghost hs = idx_seq(hier@);
    proof {
        lemma_hierarchy_wf(t, c as int, hs);
    }
    let owning = table.class_at(c);
    let mut h = String::new();
    let mut s = String::new();
    let n = hier.len();
    let mut j: usize = 0;
    while j < n
        invariant
            t == table@,
            (c as int) < t.len(),
            hs == idx_seq(hier@),
            resolve_spec(t, c as int) == Ok::<Seq<int>, Seq<char>>(hs),
            valid_idxs(t, hs),
            owning@ == t[c as int],
            n == hier@.len(),
            j <= n,
            (match emit_hier_from(t, c as int, hs, j as int) {
                Ok(rest) => emit_hier_from(t, c as int, hs, 0) == Ok::<(Seq<char>, Seq<char>),
                    GenErrorView,
                >((h@ + rest.0, s@ + rest.1)),
                Err(e) => emit_hier_from(t, c as int, hs, 0) == Err::<(Seq<char>, Seq<char>),
                    GenErrorView,
                >(e),
            }),
        decreases n - j,
    {
        proof {
            assert(hs[j as int] == hier@[j as int] as int);
        }
        let di = hier[j];
        let declaring = table.class_at(di);
        let same_class = di == c;
        proof {
            assert(declaring@.members == declaring.members.deep_view());
            assert(owning@.name == owning.name@);
        }
        match emit_members_exec(&owning.name, same_class, owning.is_abstract, &declaring.members) {
            Ok(p) => {
                let ghost h0 = h@;
                let ghost s0 = s@;
                h.append(p.0.as_str());
                s.append(p.1.as_str());
                proof {
                    match emit_hier_from(t, c as int, hs, j + 1) {
                        Ok(rest) => {
                            assert(h@ + rest.0 =~= h0 + (p.0@ + rest.0));
                            assert(s@ + rest.1 =~= s0 + (p.1@ + rest.1));
                        },
                        Err(_) => {},
                    }
                }
            },
            Err(e) => {
                proof {
                    assert(declaring@ == t[hs[j as int]]);
                    assert((di == c) == (hs[j as int] == c as int));
                    assert(emit_hier_from(t, c as int, hs, j as int)
                        == Err::<(Seq<char>, Seq<char>), GenErrorView>(e@));
                }
                return Err(e);
            },
        }
        j += 1;
    }
    let ghost s_body = s@;
    s.append("\n");
    proof {
        assert(h@ + Seq::<char>::empty() =~= h@);
        assert(s_body + Seq::<char>::empty() =~= s_body);
    }
    Ok((h, s))
}

/// Generates the complete text of the shim header and the shim source for
/// the classes of `table`: the header's prelude, then one declaration line
/// per eligible (owning class, member) pair; the source's prelude, then the
/// definitions, class blocks separated by blank lines. Aborts with the first
/// failure — a base-class name absent from the table, or an eligible member
/// or parameter without a name — and then no output escapes.
pub fn generate_text(
    table: &ClassTable,
    input_header_path: &str,
    output_header_path: &str,
) -> (r: Result<(String, String), GenError>)
    ensures
        match r {
            Ok(p) => generate_spec(table@, input_header_path@, output_header_path@) == Ok::<
                (Seq<char>, Seq<char>),
                GenErrorView,
            >((p.0@, p.1@)),
            Err(e) => generate_spec(table@, input_header_path@, output_header_path@) == Err::<
                (Seq<char>, Seq<char>),
                GenErrorView,
            >(e@),
        },
{
    let ghost t = table@;
    let mut bh = String::new();
    let mut bs = String::new();
    let n = table.len();
    let mut c: usize = 0;
    while c < n
        invariant
            t == table@,
            n == t.len(),
            c <= n,
            (match emit_all_from(t, c as int) {
                Ok(rest) => emit_all_from(t, 0) == Ok::<(Seq<char>, Seq<char>), GenErrorView>(
                    (bh@ + rest.0, bs@ + rest.1),
                ),
                Err(e) => emit_all_from(t, 0) == Err::<(Seq<char>, Seq<char>), GenErrorView>(e),
            }),
        decreases n - c,
    {
        match emit_class_exec(table, c) {
            Ok(p) => {
                let ghost h0 = bh@;
                let ghost s0 = bs@;
                bh.append(p.0.as_str());
                bs.append(p.1.as_str());
                proof {
                    match emit_all_from(t, c + 1) {
                        Ok(rest) => {
                            assert(bh@ + rest.0 =~= h0 + (p.0@ + rest.0));
                            assert(bs@ + rest.1 =~= s0 + (p.1@ + rest.1));
                        },
                        Err(_) => {},
                    }
                }
            },
            Err(e) => {
                return Err(e);
            },
        }
        c += 1;
    }
    proof {
        assert(bh@ + Seq::<char>::empty() =~= bh@);
        assert(bs@ + Seq::<char>::empty() =~= bs@);
    }
    let mut hdr = String::new();
    hdr.append("#pragma once\n#include \"");
    hdr.append(input_header_path);
    hdr.append("\"\n");
    hdr.append(bh.as_str());
    let mut src = String::new();
    src.append("#include \"");
    src.append(output_header_path);
    src.append("\"\n#include <new>\n");
    src.append(bs.as_str());
    proof {
        assert(hdr@ =~= hdr_prelude(input_header_path@) + bh@);
        assert(src@ =~= src_prelude(output_header_path@) + bs@);
    }
    Ok((hdr, src))
}

} // verus!
