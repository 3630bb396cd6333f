use osm_renderer::data::RelationMemberType::{Node, Relation, Way};
use osm_renderer::data::{NodeData, RelationData, RelationMember, RelationMemberType, WayData};
use osm_renderer::extractor::{
    mark_way, mark_ways, relation_is_complete, retain_complete_relations,
};
use std::collections::HashMap;

fn node(nid: i64) -> (i64, NodeData) {
    (nid, NodeData { nid, lat: nid as i32, lon: -(nid as i32), tags: vec![("n".into(), nid.to_string())], way: None })
}

fn way(wid: i64, refs: Vec<i64>) -> WayData {
    WayData::new(wid, vec![], refs).unwrap()
}

fn relation(rid: i64, members: Vec<RelationMemberType>) -> (i64, RelationData) {
    let members = members
        .into_iter()
        .map(|member| RelationMember { member, role: String::new() })
        .collect();
    (rid, RelationData { rid, tags: vec![], members })
}

fn ways_of(nodes: &HashMap<i64, NodeData>) -> Vec<(i64, Option<i64>)> {
    let mut ways: Vec<(i64, Option<i64>)> = nodes.values().map(|node| (node.nid, node.way)).collect();
    ways.sort();
    ways
}

#[test]
fn nodes_learn_their_way() {
    let mut nodes: HashMap<i64, NodeData> = HashMap::from([node(1), node(2), node(3), node(4)]);
    assert_eq!(mark_way(&mut nodes, &way(10, vec![1, 2, 1])), Ok(()));
    assert_eq!(ways_of(&nodes), vec![(1, Some(10)), (2, Some(10)), (3, None), (4, None)]);
    // the rest of the node stays as it was
    assert_eq!(nodes[&2].lat, 2);
    assert_eq!(nodes[&2].lon, -2);
    assert_eq!(nodes[&2].tags, vec![("n".to_string(), "2".to_string())]);

    // a node of several ways belongs to the last
    assert_eq!(mark_ways(&mut nodes, &vec![way(11, vec![2, 3]), way(12, vec![3, 4])]), Ok(()));
    assert_eq!(ways_of(&nodes), vec![(1, Some(10)), (2, Some(11)), (3, Some(12)), (4, Some(12))]);
    assert_eq!(mark_ways(&mut nodes, &vec![]), Ok(()));
}

#[test]
fn missing_node_is_reported() {
    let mut nodes: HashMap<i64, NodeData> = HashMap::from([node(1), node(2)]);
    assert_eq!(mark_way(&mut nodes, &way(10, vec![1, 7, 2, 8])), Err(7));
    // nothing was marked
    assert_eq!(ways_of(&nodes), vec![(1, None), (2, None)]);
    assert_eq!(
        mark_ways(&mut nodes, &vec![way(10, vec![1, 2]), way(11, vec![2, 9, 8]), way(12, vec![7, 1])]),
        Err((11, 9))
    );
    assert_eq!(nodes[&1].way, Some(10));
}

#[test]
fn relations_with_missing_members_are_left_out() {
    let nodes: HashMap<i64, NodeData> = HashMap::from([node(1), node(2)]);
    let ways: HashMap<i64, WayData> = HashMap::from([(10, way(10, vec![1, 2]))]);
    let mut relations: HashMap<i64, RelationData> = HashMap::from([
        relation(100, vec![]),
        relation(101, vec![Node(1), Way(10), Relation(100), Node(2)]),
        relation(102, vec![Node(1), Node(3)]),
        relation(103, vec![Way(1)]),
        relation(104, vec![Relation(10)]),
        // a member that is a relation counts even if that relation is left out itself
        relation(105, vec![Relation(102), Relation(105)]),
    ]);
    assert!(relation_is_complete(&relations[&101], &nodes, &ways, &relations));
    assert!(!relation_is_complete(&relations[&102], &nodes, &ways, &relations));
    retain_complete_relations(&mut relations, &nodes, &ways);
    let mut kept: Vec<i64> = relations.keys().copied().collect();
    kept.sort();
    assert_eq!(kept, vec![100, 101, 105]);
    assert_eq!(relations[&101].members.len(), 4);

    let mut none: HashMap<i64, RelationData> = HashMap::new();
    retain_complete_relations(&mut none, &nodes, &ways);
    assert!(none.is_empty());
}
