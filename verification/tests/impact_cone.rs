use deslop_recipes::evidence::ImpactDirection;
use deslop_recipes::impact::{program_dependence_impact_cone, DependenceEdge, DependenceGraph, ImpactQueryError};
use deslop_recipes::model::GraphEvidenceLayer;

fn edge(from: &str, to: &str) -> DependenceEdge {
    DependenceEdge { key: format!("e_{from}_{to}"), from: from.into(), to: to.into(), flow: true }
}

/// a -> b -> c -> d, and e -> b.
fn graph() -> Vec<DependenceGraph> {
    vec![
        DependenceGraph { key: "other".into(), nodes: vec!["z".into()], edges: vec![] },
        DependenceGraph {
            key: "pdg".into(),
            nodes: vec!["a".into(), "b".into(), "c".into(), "d".into(), "e".into()],
            edges: vec![edge("a", "b"), edge("b", "c"), edge("c", "d"), edge("e", "b")],
        },
    ]
}

fn entities(graphs: &[DependenceGraph], root: &str, direction: ImpactDirection, depth: u32) -> (Vec<String>, bool) {
    let cone = program_dependence_impact_cone(&graphs.to_vec(), "pdg", root, direction, depth).unwrap();
    assert_eq!(cone.query.roots.len(), 1);
    assert_eq!(cone.query.roots[0].entity, root);
    assert_eq!(cone.query.layers, vec![GraphEvidenceLayer::ProgramDependence]);
    assert_eq!(cone.query.maximum_depth, depth);
    for entity in &cone.entities {
        assert_eq!(entity.layer, GraphEvidenceLayer::ProgramDependence);
        assert_eq!(entity.graph, "pdg");
    }
    (cone.entities.iter().map(|entity| entity.entity.clone()).collect(), cone.truncated)
}

#[test]
fn impact_cone_walks_exact_pdg_edges_in_both_directions() {
    let graphs = graph();
    assert_eq!(entities(&graphs, "b", ImpactDirection::Outgoing, 8), (vec!["b".into(), "c".into(), "d".into()], false));
    assert_eq!(entities(&graphs, "b", ImpactDirection::Incoming, 8), (vec!["a".into(), "b".into(), "e".into()], false));
    assert_eq!(
        entities(&graphs, "b", ImpactDirection::Bidirectional, 8),
        (vec!["a".into(), "b".into(), "c".into(), "d".into(), "e".into()], false)
    );
}

#[test]
fn depth_bound_truncates_exactly_when_a_node_lies_beyond_it() {
    let graphs = graph();
    assert_eq!(entities(&graphs, "a", ImpactDirection::Outgoing, 1), (vec!["a".into(), "b".into()], true));
    assert_eq!(entities(&graphs, "a", ImpactDirection::Outgoing, 2), (vec!["a".into(), "b".into(), "c".into()], true));
    assert_eq!(
        entities(&graphs, "a", ImpactDirection::Outgoing, 3),
        (vec!["a".into(), "b".into(), "c".into(), "d".into()], false)
    );
    assert_eq!(entities(&graphs, "d", ImpactDirection::Outgoing, 1), (vec!["d".into()], false));
}

#[test]
fn deeper_cones_contain_shallower_ones_and_root_is_always_present() {
    let graphs = graph();
    for depth in 1..6 {
        let (shallow, _) = entities(&graphs, "c", ImpactDirection::Bidirectional, depth);
        let (deep, _) = entities(&graphs, "c", ImpactDirection::Bidirectional, depth + 1);
        assert!(shallow.contains(&"c".to_string()));
        assert!(shallow.iter().all(|node| deep.contains(node)));
    }
}

#[test]
fn impact_query_errors_name_what_is_missing() {
    let graphs = graph();
    assert_eq!(
        program_dependence_impact_cone(&graphs, "pdg", "a", ImpactDirection::Outgoing, 0).unwrap_err(),
        ImpactQueryError::ZeroDepth
    );
    assert_eq!(
        program_dependence_impact_cone(&graphs, "missing", "a", ImpactDirection::Outgoing, 1).unwrap_err(),
        ImpactQueryError::MissingGraph("missing".into())
    );
    assert_eq!(
        program_dependence_impact_cone(&graphs, "pdg", "zz", ImpactDirection::Outgoing, 1).unwrap_err(),
        ImpactQueryError::MissingNode("zz".into())
    );
    assert_eq!(
        ImpactQueryError::MissingGraph("g".into()).message(),
        "impact query references missing program-dependence graph g"
    );
    assert_eq!(
        ImpactQueryError::MissingNode("n".into()).message(),
        "impact query references missing program-dependence node n"
    );
}

#[test]
fn cycles_terminate_and_self_loops_add_nothing() {
    let graphs = vec![DependenceGraph {
        key: "pdg".into(),
        nodes: vec!["x".into(), "y".into()],
        edges: vec![edge("x", "y"), edge("y", "x"), edge("x", "x")],
    }];
    assert_eq!(entities(&graphs, "x", ImpactDirection::Outgoing, 4294967295), (vec!["x".into(), "y".into()], false));
}
