//! The rule that decides, for a member seen from an owning class's
//! perspective, whether a shim must be emitted for it.
//!
//! `same_class` says whether the class declaring the member is the owning
//! class itself; `owning_is_abstract` is the owning class's abstractness.
//! The first matching skip rule wins:
//! - a method is skipped when it is the owning class's own and neither
//!   virtual nor inline (an ordinary binding reaches it without a shim), when
//!   it overrides some base virtual method (the introducing declaration alone
//!   gets the shim), or when it is not public;
//! - a constructor or destructor is skipped when declared by a base class,
//!   when the owning class is abstract, or when it is not public;
//! - any other member kind never gets a shim.

use vstd::prelude::*;

use crate::Accessibility;
use crate::model::{MemberKind, MemberView, MemberDecl};

verus! {

/// Whether a shim is emitted for `m`, declared by the owning class itself
/// (`same_class`) or by one of its bases, the owning class being abstract or
/// not.
pub open spec fn eligible_spec(same_class: bool, owning_is_abstract: bool, m: MemberView) -> bool {
    match m.kind {
        MemberKind::Method { is_virtual, is_inline, overrides } => {
            &&& !(same_class && !is_virtual && !is_inline)
            &&& !overrides
            &&& m.access == Accessibility::Public
        },
        MemberKind::Constructor | MemberKind::Destructor => {
            &&& same_class
            &&& !owning_is_abstract
            &&& m.access == Accessibility::Public
        },
        MemberKind::Other => false,
    }
}

/// Decides whether `m` gets a shim when the owning class processes the
/// declaring class of `m` out of its hierarchy set.
pub fn is_eligible(same_class: bool, owning_is_abstract: bool, m: &MemberDecl) -> (r: bool)
    ensures
        r == eligible_spec(same_class, owning_is_abstract, m@),
{
    match m.kind {
        MemberKind::Method { is_virtual, is_inline, overrides } => {
            if same_class && !is_virtual && !is_inline {
                false
            } else if overrides {
                false
            } else {
                matches!(m.access, Accessibility::Public)
            }
        }
        MemberKind::Constructor | MemberKind::Destructor => {
            if !same_class {
                false
            } else if owning_is_abstract {
                false
            } else {
                matches!(m.access, Accessibility::Public)
            }
        }
        MemberKind::Other => false,
    }
}

/// A method that overrides some base virtual method never gets a shim, from
/// any owning class: the introducing declaration alone is responsible for
/// the one dispatching shim.
pub proof fn lemma_override_never_eligible(same_class: bool, owning_is_abstract: bool, m: MemberView)
    requires
        m.kind matches MemberKind::Method { overrides, .. } && overrides,
    ensures
        !eligible_spec(same_class, owning_is_abstract, m),
{
}

/// A public virtual method that overrides nothing (an introducing
/// declaration) gets a shim from every owning class whose hierarchy holds
/// its declaring class, abstract or not.
pub proof fn lemma_introducing_virtual_eligible(
    same_class: bool,
    owning_is_abstract: bool,
    m: MemberView,
)
    requires
        m.kind matches MemberKind::Method { is_virtual, overrides, .. } && is_virtual && !overrides,
        m.access == Accessibility::Public,
    ensures
        eligible_spec(same_class, owning_is_abstract, m),
{
}

/// A plain public method (neither virtual nor inline, overriding nothing)
/// gets no shim from its own class, but does get one from every class that
/// inherits it.
pub proof fn lemma_plain_method_inherited_only(owning_is_abstract: bool, m: MemberView)
    requires
        m.kind matches MemberKind::Method { is_virtual, is_inline, overrides }
            && !is_virtual && !is_inline && !overrides,
        m.access == Accessibility::Public,
    ensures
        !eligible_spec(true, owning_is_abstract, m),
        eligible_spec(false, owning_is_abstract, m),
{
}

/// An abstract class gets no constructor or destructor shim; whether one of
/// its methods gets a shim never depends on its abstractness.
pub proof fn lemma_abstract_class(same_class: bool, m: MemberView)
    ensures
        m.kind is Constructor || m.kind is Destructor ==> !eligible_spec(same_class, true, m),
        m.kind is Method ==> eligible_spec(same_class, true, m) == eligible_spec(
            same_class,
            false,
            m,
        ),
{
}

/// A member that is not public never gets a shim, whatever its kind, flags,
/// or declaring class.
pub proof fn lemma_non_public_never_eligible(
    same_class: bool,
    owning_is_abstract: bool,
    m: MemberView,
)
    requires
        m.access != Accessibility::Public,
    ensures
        !eligible_spec(same_class, owning_is_abstract, m),
{
}

} // verus!
