use vwrap::Accessibility;
use vwrap::driver::{generate_text, GenError};
use vwrap::eligibility::is_eligible;
use vwrap::hierarchy::resolve_hierarchy;
use vwrap::model::{ClassDecl, ClassTable, MemberDecl, MemberKind, Parameter};

fn param(name: &str, source_text: &str) -> Parameter {
    Parameter { name: Some(name.to_string()), source_text: source_text.to_string() }
}

fn method(name: &str, is_virtual: bool, is_inline: bool, overrides: bool) -> MemberDecl {
    MemberDecl {
        kind: MemberKind::Method { is_virtual, is_inline, overrides },
        name: Some(name.to_string()),
        result_type: "void".to_string(),
        result_is_void: true,
        access: Accessibility::Public,
        params: Vec::new(),
    }
}

fn ctor(class_name: &str) -> MemberDecl {
    MemberDecl {
        kind: MemberKind::Constructor,
        name: Some(class_name.to_string()),
        result_type: "void".to_string(),
        result_is_void: true,
        access: Accessibility::Public,
        params: Vec::new(),
    }
}

fn dtor(class_name: &str) -> MemberDecl {
    MemberDecl {
        kind: MemberKind::Destructor,
        name: Some(format!("~{}", class_name)),
        result_type: "void".to_string(),
        result_is_void: true,
        access: Accessibility::Public,
        params: Vec::new(),
    }
}

fn class(name: &str, is_abstract: bool, bases: &[&str], members: Vec<MemberDecl>) -> ClassDecl {
    ClassDecl {
        name: name.to_string(),
        is_abstract,
        bases: bases.iter().map(|b| b.to_string()).collect(),
        members,
    }
}

fn table(classes: Vec<ClassDecl>) -> ClassTable {
    let mut t = ClassTable::new();
    for c in classes {
        t.insert(c);
    }
    t
}

fn generate(t: &ClassTable) -> (String, String) {
    generate_text(t, "in.h", "out.h").unwrap()
}

#[test]
fn single_class_full_output() {
    let t = table(vec![class(
        "B",
        false,
        &[],
        vec![ctor("B"), dtor("B"), method("m", true, false, false)],
    )]);
    let (hdr, src) = generate(&t);
    assert_eq!(
        hdr,
        "#pragma once\n\
         #include \"in.h\"\n\
         void vwrap_B_constructor(B *thiz);\n\
         void vwrap_B_destructor(B *thiz);\n\
         void vwrap_B_m(B *thiz);\n"
    );
    assert_eq!(
        src,
        "#include \"out.h\"\n\
         #include <new>\n\
         void vwrap_B_constructor(B *thiz) {\n    new(thiz) B();\n}\n\
         void vwrap_B_destructor(B *thiz) {\n    thiz->~B();\n}\n\
         void vwrap_B_m(B *thiz) {\n    thiz->m();\n}\n\
         \n"
    );
}

#[test]
fn override_site_never_emits_dispatch_shim() {
    // B introduces virtual m; D overrides it. The override declaration never
    // yields a shim: B's introducing declaration alone is dispatched through,
    // once under each owning class's name.
    let t = table(vec![
        class("B", false, &[], vec![method("m", true, false, false)]),
        class("D", false, &["B"], vec![method("m", true, false, true)]),
    ]);
    let (hdr, src) = generate(&t);
    assert_eq!(hdr.matches("vwrap_B_m(").count(), 1);
    // D's shim comes from B's introducing declaration (declaring class B,
    // owning class D), not from the override in D's member list.
    assert_eq!(hdr.matches("vwrap_D_m(").count(), 1);
    assert!(src.contains("void vwrap_D_m(D *thiz) {\n    thiz->m();\n}\n"));
}

#[test]
fn inherited_plain_method_emitted_for_derived_only() {
    // Plain public non-virtual, non-inline n on B: no shim when B is its own
    // owning class, one when D inherits it.
    let t = table(vec![
        class("B", false, &[], vec![method("n", false, false, false)]),
        class("D", false, &["B"], Vec::new()),
    ]);
    let (hdr, _src) = generate(&t);
    assert_eq!(hdr.matches("vwrap_B_n(").count(), 0);
    assert_eq!(hdr.matches("vwrap_D_n(").count(), 1);
}

#[test]
fn own_plain_method_excluded() {
    let t = table(vec![class("X", false, &[], vec![method("p", false, false, false)])]);
    let (hdr, src) = generate(&t);
    assert!(!hdr.contains("vwrap_X_p"));
    assert!(!src.contains("vwrap_X_p"));
}

#[test]
fn own_virtual_and_inline_methods_included() {
    let t = table(vec![class(
        "X",
        false,
        &[],
        vec![method("v", true, false, false), method("i", false, true, false)],
    )]);
    let (hdr, _src) = generate(&t);
    assert!(hdr.contains("void vwrap_X_v(X *thiz);\n"));
    assert!(hdr.contains("void vwrap_X_i(X *thiz);\n"));
}

#[test]
fn abstract_class_has_no_ctor_dtor_shim_but_method_shims() {
    let t = table(vec![class(
        "A",
        true,
        &[],
        vec![ctor("A"), dtor("A"), method("m", true, false, false)],
    )]);
    let (hdr, _src) = generate(&t);
    assert!(!hdr.contains("vwrap_A_constructor"));
    assert!(!hdr.contains("vwrap_A_destructor"));
    assert!(hdr.contains("void vwrap_A_m(A *thiz);\n"));
}

#[test]
fn non_public_members_never_emit() {
    let mut prot_virtual = method("pv", true, false, false);
    prot_virtual.access = Accessibility::Protected;
    let mut priv_ctor = ctor("X");
    priv_ctor.access = Accessibility::Private;
    let mut priv_dtor = dtor("X");
    priv_dtor.access = Accessibility::Private;
    let t = table(vec![class("X", false, &[], vec![priv_ctor, priv_dtor, prot_virtual])]);
    let (hdr, src) = generate(&t);
    assert!(!hdr.contains("vwrap_X"));
    assert!(!src.contains("vwrap_X"));
}

#[test]
fn constructors_not_inherited() {
    let t = table(vec![
        class("B", false, &[], vec![ctor("B"), dtor("B")]),
        class("D", false, &["B"], Vec::new()),
    ]);
    let (hdr, _src) = generate(&t);
    assert!(hdr.contains("vwrap_B_constructor"));
    assert!(!hdr.contains("vwrap_D_constructor"));
    assert!(!hdr.contains("vwrap_D_destructor"));
}

#[test]
fn parameter_fidelity_verbatim_and_forwarded_by_name() {
    let mut f = method("f", true, false, false);
    f.params = vec![param("x", "int x = 3"), param("y", "const Foo& y")];
    let t = table(vec![class("X", false, &[], vec![f])]);
    let (hdr, src) = generate(&t);
    assert!(hdr.contains("void vwrap_X_f(X *thiz, int x = 3, const Foo& y);\n"));
    assert!(src.contains("void vwrap_X_f(X *thiz, int x = 3, const Foo& y) {\n    thiz->f(x, y);\n}\n"));
}

#[test]
fn non_void_result_gets_return() {
    let mut g = method("g", true, false, false);
    g.result_type = "int".to_string();
    g.result_is_void = false;
    let t = table(vec![class("X", false, &[], vec![g])]);
    let (hdr, src) = generate(&t);
    assert!(hdr.contains("int vwrap_X_g(X *thiz);\n"));
    assert!(src.contains("int vwrap_X_g(X *thiz) {\n    return thiz->g();\n}\n"));
}

#[test]
fn constructor_with_arguments_placement_constructs() {
    let mut c = ctor("X");
    c.params = vec![param("n", "int n"), param("s", "char const *s")];
    let t = table(vec![class("X", false, &[], vec![c])]);
    let (hdr, src) = generate(&t);
    assert!(hdr.contains("void vwrap_X_constructor(X *thiz, int n, char const *s);\n"));
    assert!(src.contains(
        "void vwrap_X_constructor(X *thiz, int n, char const *s) {\n    new(thiz) X(n, s);\n}\n"
    ));
}

#[test]
fn deep_chain_resolves_every_ancestor_once() {
    let t = table(vec![
        class("A0", false, &[], vec![method("f0", false, false, false)]),
        class("A1", false, &["A0"], Vec::new()),
        class("A2", false, &["A1"], Vec::new()),
        class("A3", false, &["A2"], Vec::new()),
    ]);
    let h = resolve_hierarchy(&t, 3).unwrap();
    assert_eq!(h, vec![3, 2, 1, 0]);
    // the inherited plain method reaches every derived class, transitively
    let (hdr, _src) = generate(&t);
    assert!(!hdr.contains("vwrap_A0_f0"));
    assert_eq!(hdr.matches("vwrap_A1_f0(").count(), 1);
    assert_eq!(hdr.matches("vwrap_A2_f0(").count(), 1);
    assert_eq!(hdr.matches("vwrap_A3_f0(").count(), 1);
}

#[test]
fn diamond_hierarchy_holds_shared_base_once() {
    let t = table(vec![
        class("A", false, &[], vec![method("f", false, false, false)]),
        class("B", false, &["A"], Vec::new()),
        class("C", false, &["A"], Vec::new()),
        class("D", false, &["B", "C"], Vec::new()),
    ]);
    let h = resolve_hierarchy(&t, 3).unwrap();
    assert_eq!(h, vec![3, 1, 2, 0]);
    let (hdr, _src) = generate(&t);
    // A's inherited f produces exactly one shim for D, not one per branch
    assert_eq!(hdr.matches("vwrap_D_f(").count(), 1);
}

#[test]
fn self_inheritance_cycle_terminates() {
    // a malformed edge pointing back at the class itself must not loop
    let t = table(vec![class("X", false, &["X"], vec![method("v", true, false, false)])]);
    let h = resolve_hierarchy(&t, 0).unwrap();
    assert_eq!(h, vec![0]);
    let (hdr, _src) = generate(&t);
    assert_eq!(hdr.matches("vwrap_X_v(").count(), 1);
}

#[test]
fn unknown_base_name_is_lookup_failure() {
    let t = table(vec![class("D", false, &["Missing"], Vec::new())]);
    let e = generate_text(&t, "in.h", "out.h").unwrap_err();
    match e {
        GenError::LookupFailure(name) => assert_eq!(name, "Missing"),
        GenError::MissingName => panic!("expected a lookup failure"),
    }
}

#[test]
fn unnamed_eligible_member_is_missing_name() {
    let mut m = method("m", true, false, false);
    m.name = None;
    let t = table(vec![class("X", false, &[], vec![m])]);
    let e = generate_text(&t, "in.h", "out.h").unwrap_err();
    assert!(matches!(e, GenError::MissingName));
}

#[test]
fn unnamed_parameter_of_eligible_member_is_missing_name() {
    let mut m = method("m", true, false, false);
    m.params = vec![Parameter { name: None, source_text: "int".to_string() }];
    let t = table(vec![class("X", false, &[], vec![m])]);
    let e = generate_text(&t, "in.h", "out.h").unwrap_err();
    assert!(matches!(e, GenError::MissingName));
}

#[test]
fn unnamed_ineligible_member_is_skipped_silently() {
    // the name of a member no rule selects is never read
    let mut m = method("m", false, false, false);
    m.name = None;
    let t = table(vec![class("X", false, &[], vec![m])]);
    let (hdr, _src) = generate(&t);
    assert!(!hdr.contains("vwrap_X"));
}

#[test]
fn insert_replaces_class_of_same_name() {
    // as in a map keyed by display name, the later declaration wins
    let mut t = ClassTable::new();
    t.insert(class("X", false, &[], vec![method("old_m", true, false, false)]));
    t.insert(class("X", false, &[], vec![method("new_m", true, false, false)]));
    assert_eq!(t.len(), 1);
    let (hdr, _src) = generate(&t);
    assert!(!hdr.contains("vwrap_X_old_m"));
    assert!(hdr.contains("vwrap_X_new_m"));
}

#[test]
fn eligibility_rule_table() {
    // methods: (same_class, virtual, inline, overrides) -> eligible
    let cases: Vec<(bool, bool, bool, bool, bool)> = vec![
        (true, false, false, false, false),  // own plain method: skipped
        (true, true, false, false, true),    // own virtual
        (true, false, true, false, true),    // own inline
        (false, false, false, false, true),  // inherited plain method
        (false, true, false, true, false),   // override never
        (true, true, false, true, false),    // override never, even virtual
    ];
    for (same, virt, inl, ovr, expect) in cases {
        let m = method("m", virt, inl, ovr);
        assert_eq!(is_eligible(same, false, &m), expect);
    }
    // constructors: never inherited, never on an abstract class
    assert!(is_eligible(true, false, &ctor("X")));
    assert!(!is_eligible(false, false, &ctor("X")));
    assert!(!is_eligible(true, true, &ctor("X")));
    let mut prot = ctor("X");
    prot.access = Accessibility::Protected;
    assert!(!is_eligible(true, false, &prot));
    // any other member kind never gets a shim
    let other = MemberDecl {
        kind: MemberKind::Other,
        name: Some("field".to_string()),
        result_type: "int".to_string(),
        result_is_void: false,
        access: Accessibility::Public,
        params: Vec::new(),
    };
    assert!(!is_eligible(true, false, &other));
    assert!(!is_eligible(false, false, &other));
}

#[test]
fn empty_table_produces_only_preludes() {
    let t = ClassTable::new();
    let (hdr, src) = generate(&t);
    assert_eq!(hdr, "#pragma once\n#include \"in.h\"\n");
    assert_eq!(src, "#include \"out.h\"\n#include <new>\n");
}
