use deslop_recipes::recipes::branch::{factoring_variants, ArmNode, BranchParts, FactoringKind};

fn node(kind: &str, text: &str) -> ArmNode {
    ArmNode { kind: kind.into(), text: text.into() }
}

fn parts(then_nodes: Vec<ArmNode>, else_nodes: Vec<ArmNode>, then_body: &str) -> BranchParts {
    BranchParts { condition: "flag".into(), then_nodes, else_nodes, then_body: then_body.into() }
}

#[test]
fn equivalent_arms_keep_the_condition_and_one_body() {
    let arm = || vec![node("expression_statement", "side();"), node("integer_literal", "1")];
    let variants = factoring_variants(&parts(arm(), arm(), "side(); 1"));
    assert_eq!(variants.len(), 1);
    assert_eq!(variants[0].0, FactoringKind::EquivalentArms);
    assert_eq!(variants[0].1, "{ if flag {} else {}; side(); 1 }");
    assert_eq!(variants[0].0.name(), "equivalent-arms");
}

#[test]
fn common_prefix_binds_the_condition_once() {
    let variants = factoring_variants(&parts(
        vec![node("expression_statement", "side();"), node("call_expression", "left()")],
        vec![node("expression_statement", "side();"), node("call_expression", "right()")],
        "side(); left()",
    ));
    assert_eq!(variants.len(), 1);
    assert_eq!(variants[0].0, FactoringKind::CommonPrefix);
    assert_eq!(
        variants[0].1,
        "{ let __deslop_m5_condition = flag; side(); if __deslop_m5_condition { left() } else { right() } }"
    );
}

#[test]
fn common_suffix_follows_the_branch() {
    let variants = factoring_variants(&parts(
        vec![node("expression_statement", "left();"), node("call_expression", "shared()")],
        vec![node("expression_statement", "right();"), node("call_expression", "shared()")],
        "left(); shared()",
    ));
    assert_eq!(variants.len(), 1);
    assert_eq!(variants[0].0, FactoringKind::CommonSuffix);
    assert_eq!(variants[0].1, "{ if flag { left(); } else { right(); }; shared() }");
}

#[test]
fn reordered_arms_admit_no_factoring() {
    let variants = factoring_variants(&parts(
        vec![
            node("expression_statement", "side();"),
            node("expression_statement", "shared();"),
            node("call_expression", "left()"),
        ],
        vec![
            node("expression_statement", "shared();"),
            node("expression_statement", "side();"),
            node("call_expression", "right()"),
        ],
        "side(); shared(); left()",
    ));
    assert!(variants.is_empty());
}

#[test]
fn prefix_and_suffix_never_overlap() {
    let variants = factoring_variants(&parts(
        vec![node("e", "a;"), node("e", "b;")],
        vec![node("e", "a;"), node("e", "c;"), node("e", "b;")],
        "a; b;",
    ));
    assert_eq!(variants.len(), 2);
    assert_eq!(variants[0].0, FactoringKind::CommonPrefix);
    assert_eq!(variants[1].0, FactoringKind::CommonSuffix);
    assert_eq!(variants[1].1, "{ if flag { a; } else { a; c; }; b; }");
}
