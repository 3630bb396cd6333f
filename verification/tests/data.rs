use osm_renderer::data::{
    clone_tags, contains_key, contains_tag, DataError, ElementData, ElementID, NodeData,
    RelationData, RelationMember, RelationMemberType, WayData,
};
use osm_renderer::element::canvas::CanvasElement;
use osm_renderer::{round_up_to};

fn tag(key: &str, value: &str) -> (String, String) {
    (key.to_string(), value.to_string())
}

#[test]
fn way_construction_fails_for_fewer_than_two_refs() {
    assert_eq!(WayData::new(1, vec![], vec![]).err(), Some(DataError::MalformedWay));
    assert_eq!(WayData::new(1, vec![tag("area", "yes")], vec![5]).err(), Some(DataError::MalformedWay));
    assert!(WayData::new(1, vec![], vec![5, 5]).is_ok());
}

#[test]
fn way_is_closed_when_it_ends_where_it_starts() {
    let way = WayData::new(3, vec![], vec![5, 7, 5]).unwrap();
    assert!(way.has_closed_path());
    assert_eq!(way.way_id(), 3);
    assert_eq!(way.refs(), &vec![5, 7, 5]);
    assert_eq!(way.id(), ElementID::Way(3));
}

#[test]
fn way_is_closed_when_tagged_as_area() {
    let way = WayData::new(3, vec![tag("name", "x"), tag("area", "yes")], vec![5, 7, 9]).unwrap();
    assert!(way.has_closed_path());
    assert_eq!(way.tags(), &[tag("name", "x"), tag("area", "yes")]);
}

#[test]
fn way_is_open_with_neither() {
    assert!(!WayData::new(3, vec![], vec![5, 7, 9]).unwrap().has_closed_path());
    for tags in [
        vec![tag("area", "no")],
        vec![tag("area", "yes ")],
        vec![tag("Area", "yes")],
        vec![tag("yes", "area")],
        vec![tag("area", ""), tag("", "yes")],
    ] {
        assert!(!WayData::new(3, tags, vec![5, 7, 9]).unwrap().has_closed_path());
    }
}

#[test]
fn way_clone_keeps_everything() {
    let way = WayData::new(3, vec![tag("area", "yes")], vec![5, 7, 9]).unwrap();
    let copy = way.clone();
    assert_eq!(copy.way_id(), 3);
    assert_eq!(copy.refs(), way.refs());
    assert_eq!(copy.tags(), way.tags());
    assert!(copy.has_closed_path());
    assert_eq!(clone_tags(&vec![tag("a", "b")]), vec![tag("a", "b")]);
}

#[test]
fn element_ids_and_flags() {
    let node = NodeData { nid: 4, lat: 1, lon: 2, tags: vec![tag("a", "b")], way: None };
    let relation = RelationData {
        rid: 6,
        tags: vec![],
        members: vec![RelationMember { member: RelationMemberType::Node(4), role: "stop".into() }],
    };
    assert_eq!(node.id(), ElementID::Node(4));
    assert_eq!(ElementID::from(&node), ElementID::Node(4));
    assert!(!node.has_closed_path());
    assert_eq!(node.tags(), &[tag("a", "b")]);
    assert_eq!(relation.id(), ElementID::Relation(6));
    assert_eq!(ElementID::from(&relation), ElementID::Relation(6));
    assert!(!relation.has_closed_path());
    assert_eq!(CanvasElement {}.id(), ElementID::Canvas);
    assert_eq!(ElementID::from(CanvasElement {}), ElementID::Canvas);
    assert!(CanvasElement {}.tags().is_empty());
    assert!(!CanvasElement {}.has_closed_path());
    assert_eq!(ElementID::from(WayData::new(9, vec![], vec![1, 2]).unwrap()), ElementID::Way(9));
}

#[test]
fn tag_lookup_is_exact() {
    let tags = vec![tag("a", "1"), tag("b", "2"), tag("a", "3")];
    assert!(contains_key(&tags, &"a".to_string()));
    assert!(!contains_key(&tags, &"c".to_string()));
    assert!(!contains_key(&[], &"a".to_string()));
    assert!(contains_tag(&tags, &"a".to_string(), &"3".to_string()));
    assert!(!contains_tag(&tags, &"b".to_string(), &"3".to_string()));
}

#[test]
fn round_up_to_gives_the_next_multiple() {
    assert_eq!(round_up_to(1025, 1024), 2048);
    assert_eq!(round_up_to(1024, 1024), 1024);
    assert_eq!(round_up_to(0, 64), 0);
    assert_eq!(round_up_to(1, 64), 64);
    assert_eq!(round_up_to(63, 64), 64);
    assert_eq!(round_up_to(65, 64), 128);
    assert_eq!(round_up_to(7, 1), 7);
    assert_eq!(round_up_to(4_294_967_232, 64), 4_294_967_232);
    for n in 0..200u32 {
        for m in 1..20u32 {
            let rounded = round_up_to(n, m);
            assert!(rounded >= n && rounded % m == 0 && rounded - n < m);
            if n % m == 0 {
                assert_eq!(rounded, n);
            }
        }
    }
}
