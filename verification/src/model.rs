//! In-memory model of the class declarations of one translation unit.
//!
//! The front end that parses the header hands the caller a resolved
//! declaration tree; the caller copies out of it the plain facts this
//! library's rules read (names, flags, accessibility, parameter text) into
//! these types. `ClassTable` is the name-keyed registry of all classes found,
//! in insertion order; inserting a class under an already-present name
//! replaces the earlier entry, as a map keyed by display name would.

use vstd::prelude::*;

use crate::Accessibility;

verus! {

/// Kind of a class member, with the method-only flags.
///
/// `overrides` says whether the method itself overrides some base-class
/// virtual method (its override back-reference set is non-empty).
#[derive(Clone, Copy, PartialEq, Eq, Structural, Debug)]
pub enum MemberKind {
    Constructor,
    Destructor,
    Method { is_virtual: bool, is_inline: bool, overrides: bool },
    Other,
}

/// One parameter of a member.
pub struct Parameter {
    /// Display name of the parameter; `None` when the parameter is unnamed.
    pub name: Option<String>,
    /// The parameter's declaration text (type, name, default value), copied
    /// verbatim from the original header bytes.
    pub source_text: String,
}

/// Mathematical image of a `Parameter`.
#[verifier::ext_equal]
pub ghost struct ParamView {
    pub name: Option<Seq<char>>,
    pub source_text: Seq<char>,
}

impl View for Parameter {
    type V = ParamView;

    open spec fn view(&self) -> ParamView {
        ParamView { name: self.name.deep_view(), source_text: self.source_text@ }
    }
}

impl DeepView for Parameter {
    type V = ParamView;

    open spec fn deep_view(&self) -> ParamView {
        self.view()
    }
}

/// One member of a class: a constructor, destructor or method.
pub struct MemberDecl {
    pub kind: MemberKind,
    /// Source identifier of the member (the class name for a constructor,
    /// `~Name` for a destructor); `None` when the declaration is anonymous.
    pub name: Option<String>,
    /// Display name of the member's result type.
    pub result_type: String,
    /// Whether the result type is the `void` type.
    pub result_is_void: bool,
    pub access: Accessibility,
    pub params: Vec<Parameter>,
}

/// Mathematical image of a `MemberDecl`.
#[verifier::ext_equal]
pub ghost struct MemberView {
    pub kind: MemberKind,
    pub name: Option<Seq<char>>,
    pub result_type: Seq<char>,
    pub result_is_void: bool,
    pub access: Accessibility,
    pub params: Seq<ParamView>,
}

impl View for MemberDecl {
    type V = MemberView;

    open spec fn view(&self) -> MemberView {
        MemberView {
            kind: self.kind,
            name: self.name.deep_view(),
            result_type: self.result_type@,
            result_is_void: self.result_is_void,
            access: self.access,
            params: self.params.deep_view(),
        }
    }
}

impl DeepView for MemberDecl {
    type V = MemberView;

    open spec fn deep_view(&self) -> MemberView {
        self.view()
    }
}

/// One class (or struct) declaration.
pub struct ClassDecl {
    /// Display name of the class's type.
    pub name: String,
    /// Whether the class is abstract (declares or inherits a pure-virtual
    /// method left unimplemented).
    pub is_abstract: bool,
    /// Display names of the direct base classes, in declaration order.
    pub bases: Vec<String>,
    /// The class's own members, in declaration order.
    pub members: Vec<MemberDecl>,
}

/// Mathematical image of a `ClassDecl`.
#[verifier::ext_equal]
pub ghost struct ClassView {
    pub name: Seq<char>,
    pub is_abstract: bool,
    pub bases: Seq<Seq<char>>,
    pub members: Seq<MemberView>,
}

impl View for ClassDecl {
    type V = ClassView;

    open spec fn view(&self) -> ClassView {
        ClassView {
            name: self.name@,
            is_abstract: self.is_abstract,
            bases: self.bases.deep_view(),
            members: self.members.deep_view(),
        }
    }
}

impl DeepView for ClassDecl {
    type V = ClassView;

    open spec fn deep_view(&self) -> ClassView {
        self.view()
    }
}

/// Index of the first class named `name` in `t`, if any.
pub open spec fn lookup_from(t: Seq<ClassView>, j: int, name: Seq<char>) -> Option<int>
    decreases t.len() - j,
{
    if j < 0 || j >= t.len() {
        None
    } else if t[j].name == name {
        Some(j)
    } else {
        lookup_from(t, j + 1, name)
    }
}

/// Index of the class named `name` in `t`, if any.
pub open spec fn lookup_spec(t: Seq<ClassView>, name: Seq<char>) -> Option<int> {
    lookup_from(t, 0, name)
}

/// A found index points at a class of the looked-up name, inside the table.
pub proof fn lemma_lookup_found(t: Seq<ClassView>, j: int, name: Seq<char>)
    requires
        lookup_from(t, j, name) is Some,
    ensures
        lookup_from(t, j, name)->0 < t.len(),
        j <= lookup_from(t, j, name)->0,
        t[lookup_from(t, j, name)->0].name == name,
    decreases t.len() - j,
{
    if !(j < 0 || j >= t.len()) && t[j].name != name {
        lemma_lookup_found(t, j + 1, name);
    }
}

/// The classes of one translation unit, keyed by display name.
///
/// Well-formedness (`wf`): no two entries share a name. `insert` keeps it by
/// replacing the entry of an already-present name in place.
pub struct ClassTable {
    classes: Vec<ClassDecl>,
}

impl View for ClassTable {
    type V = Seq<ClassView>;

    closed spec fn view(&self) -> Seq<ClassView> {
        self.classes.deep_view()
    }
}

impl ClassTable {
    /// No two classes in the table have the same name.
    pub open spec fn wf(&self) -> bool {
        forall|j: int, k: int|
            0 <= j < k < self@.len() ==> self@[j].name != self@[k].name
    }

    pub fn new() -> (r: ClassTable)
        ensures
            r@ == Seq::<ClassView>::empty(),
            r.wf(),
    {
        let r = ClassTable { classes: Vec::new() };
        proof {
            assert(r@ =~= Seq::<ClassView>::empty());
        }
        r
    }

    pub fn len(&self) -> (n: usize)
        ensures
            n == self@.len(),
    {
        self.classes.len()
    }

    pub fn class_at(&self, j: usize) -> (r: &ClassDecl)
        requires
            j < self@.len(),
        ensures
            r@ == self@[j as int],
    {
        &self.classes[j]
    }

    /// Index of the class named `name`, if the table holds one.
    pub fn lookup(&self, name: &String) -> (r: Option<usize>)
        ensures
            match r {
                Some(j) => lookup_spec(self@, name@) == Some(j as int),
                None => lookup_spec(self@, name@) is None,
            },
    {
        let n = self.classes.len();
        let mut j: usize = 0;
        while j < n
            invariant
                n == self@.len(),
                j <= n,
                lookup_spec(self@, name@) == lookup_from(self@, j as int, name@),
            decreases n - j,
        {
            if self.classes[j].name == *name {
                return Some(j);
            }
            j += 1;
        }
        None
    }

    /// Registers `c`: replaces the entry of the same name if one is present,
    /// otherwise appends `c` at the end.
    pub fn insert(&mut self, c: ClassDecl)
        requires
            old(self).wf(),
        ensures
            final(self).wf(),
            final(self)@ == (match lookup_spec(old(self)@, c@.name) {
                Some(j) => old(self)@.update(j, c@),
                None => old(self)@.push(c@),
            }),
    {
        let found = self.lookup(&c.name);
        match found {
            Some(j) => {
                proof {
                    lemma_lookup_found(old(self)@, 0, c@.name);
                }
                self.classes[j] = c;
                proof {
                    assert(self@ =~= old(self)@.update(j as int, c@));
                }
            }
            None => {
                self.classes.push(c);
                proof {
                    assert(self@ =~= old(self)@.push(c@));
                    lemma_insert_push_wf(old(self)@, c@);
                }
            }
        }
    }
}

/// Appending a class whose name is absent keeps the names unique.
proof fn lemma_insert_push_wf(t: Seq<ClassView>, c: ClassView)
    requires
        lookup_spec(t, c.name) is None,
        forall|j: int, k: int| 0 <= j < k < t.len() ==> t[j].name != t[k].name,
    ensures
        forall|j: int, k: int|
            0 <= j < k < t.push(c).len() ==> t.push(c)[j].name != t.push(c)[k].name,
{
    assert forall|j: int, k: int|
        0 <= j < k < t.push(c).len() implies t.push(c)[j].name != t.push(c)[k].name by {
        if k == t.len() {
            lemma_lookup_absent(t, 0, c.name);
        }
    }
}

/// A name on which lookup fails names no class at or after `j`.
proof fn lemma_lookup_absent(t: Seq<ClassView>, j: int, name: Seq<char>)
    requires
        0 <= j,
        lookup_from(t, j, name) is None,
    ensures
        forall|k: int| j <= k < t.len() ==> t[k].name != name,
    decreases t.len() - j,
{
    if !(j < 0 || j >= t.len()) {
        lemma_lookup_absent(t, j + 1, name);
    }
}

} // verus!
