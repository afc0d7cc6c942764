use coco_analysis::class_graph::{ClassGraph, ClassNode};
use coco_analysis::coco_struct::{ClassInfo, MemberInfo};

fn record(name: &str, file: &str, parents: &[&str]) -> ClassInfo {
    let mut r = ClassInfo::new(name);
    r.source_file = file.to_string();
    r.parents = parents.iter().map(|p| p.to_string()).collect();
    r
}

fn same_node(a: &ClassNode, b: &ClassNode) -> bool {
    a.id == b.id && a.name == b.name && a.source_file == b.source_file
        && a.resolved_parents == b.resolved_parents
        && a.unresolved_parents == b.unresolved_parents
        && a.members.len() == b.members.len() && a.methods.len() == b.methods.len()
}

#[test]
fn ids_are_assigned_in_first_occurrence_order() {
    let records = vec![
        record("A", "A.java", &[]),
        record("B", "B.java", &[]),
        record("C", "C.java", &[]),
    ];
    let g = ClassGraph::build(&records);
    assert_eq!(3, g.nodes.len());
    assert_eq!(0, g.nodes[0].id);
    assert_eq!("A", g.nodes[0].name);
    assert_eq!(1, g.nodes[1].id);
    assert_eq!("B", g.nodes[1].name);
    assert_eq!(2, g.nodes[2].id);
    assert_eq!("C", g.nodes[2].name);
}

#[test]
fn known_parent_is_resolved_to_its_node_id() {
    let records = vec![record("A", "A.java", &[]), record("B", "B.java", &["A"])];
    let g = ClassGraph::build(&records);
    assert_eq!(2, g.nodes.len());
    assert_eq!(vec![0usize], g.nodes[1].resolved_parents);
    assert_eq!(0, g.nodes[1].unresolved_parents.len());
    assert_eq!(0, g.nodes[0].resolved_parents.len());
    assert_eq!(0, g.nodes[0].unresolved_parents.len());
}

#[test]
fn unknown_parent_is_recorded_verbatim_as_unresolved() {
    let records = vec![record("B", "B.java", &["Z"])];
    let g = ClassGraph::build(&records);
    assert_eq!(1, g.nodes.len());
    assert_eq!(0, g.nodes[0].resolved_parents.len());
    assert_eq!(vec!["Z".to_string()], g.nodes[0].unresolved_parents);
}

#[test]
fn qualified_parent_resolves_by_short_name() {
    let records = vec![
        record("EventBus", "EventBus.java", &[]),
        record("AsyncEventBus", "AsyncEventBus.java", &["com::google::EventBus"]),
    ];
    let g = ClassGraph::build(&records);
    assert_eq!(vec![0usize], g.nodes[1].resolved_parents);
    assert_eq!(0, g.nodes[1].unresolved_parents.len());
}

#[test]
fn redeclaration_merges_into_one_node() {
    let mut first = record("A", "A.java", &[]);
    first.members.push(MemberInfo {
        name: "x".to_string(),
        access: "private".to_string(),
        data_type: "int".to_string(),
    });
    let mut second = record("A", "A.groovy", &["Base"]);
    second.members.push(MemberInfo {
        name: "y".to_string(),
        access: "public".to_string(),
        data_type: "String".to_string(),
    });
    let records = vec![first, second];
    let g = ClassGraph::build(&records);
    assert_eq!(1, g.nodes.len());
    assert_eq!("A", g.nodes[0].name);
    // the first declaration's source file wins
    assert_eq!("A.java", g.nodes[0].source_file);
    assert_eq!(2, g.nodes[0].members.len());
    assert_eq!("x", g.nodes[0].members[0].name);
    assert_eq!("y", g.nodes[0].members[1].name);
    assert_eq!(vec!["Base".to_string()], g.nodes[0].unresolved_parents);
}

#[test]
fn duplicate_parent_references_are_deduplicated() {
    let records = vec![
        record("A", "A.java", &[]),
        record("B", "B.java", &["A", "A", "Z", "Z"]),
    ];
    let g = ClassGraph::build(&records);
    assert_eq!(vec![0usize], g.nodes[1].resolved_parents);
    assert_eq!(vec!["Z".to_string()], g.nodes[1].unresolved_parents);
}

#[test]
fn cycles_are_kept_not_rejected() {
    let records = vec![record("A", "A.java", &["B"]), record("B", "B.java", &["A"])];
    let g = ClassGraph::build(&records);
    assert_eq!(2, g.nodes.len());
    assert_eq!(vec![1usize], g.nodes[0].resolved_parents);
    assert_eq!(vec![0usize], g.nodes[1].resolved_parents);
}

#[test]
fn building_twice_yields_identical_graphs() {
    let records = vec![
        record("A", "A.java", &[]),
        record("B", "B.java", &["A", "Z"]),
        record("A", "A2.java", &["other::Q"]),
        record("C", "C.java", &["B"]),
    ];
    let g1 = ClassGraph::build(&records);
    let g2 = ClassGraph::build(&records);
    assert_eq!(g1.nodes.len(), g2.nodes.len());
    for (a, b) in g1.nodes.iter().zip(g2.nodes.iter()) {
        assert!(same_node(a, b));
    }
}

#[test]
fn empty_record_sequence_yields_empty_graph() {
    let g = ClassGraph::build(&Vec::new());
    assert_eq!(0, g.nodes.len());
}
