//! What is checked and completed after the elements of a data set were read:
//! nodes learn which way they belong to, and relations with missing members
//! are left out.

use crate::data::{NodeData, RelationData, RelationMemberType, WayData};
use std::collections::HashMap;
use vstd::prelude::*;
use vstd::std_specs::iter::IteratorSpec;

verus! {

/// Whether what a relation member refers to is there.
pub open spec fn member_exists(
    member: RelationMemberType,
    nodes: Set<i64>,
    ways: Set<i64>,
    relations: Set<i64>,
) -> bool {
    match member {
        RelationMemberType::Way(wid) => ways.contains(wid),
        RelationMemberType::Relation(rid) => relations.contains(rid),
        RelationMemberType::Node(nid) => nodes.contains(nid),
    }
}

/// Whether all members of a relation are there.
pub open spec fn is_complete(
    relation: RelationData,
    nodes: Set<i64>,
    ways: Set<i64>,
    relations: Set<i64>,
) -> bool {
    forall|i: int|
        0 <= i < relation.members@.len() ==> member_exists(
            (#[trigger] relation.members@[i]).member,
            nodes,
            ways,
            relations,
        )
}

/// The ids of the relations that are complete.
pub open spec fn complete_relations(
    relations: Map<i64, RelationData>,
    nodes: Set<i64>,
    ways: Set<i64>,
) -> Set<i64> {
    Set::new(
        |rid: i64|
            relations.contains_key(rid) && is_complete(relations[rid], nodes, ways, relations.dom()),
    )
}

/// A node with the way it belongs to set.
pub open spec fn node_of_way(node: NodeData, way: i64) -> NodeData {
    NodeData { way: Some(way), ..node }
}

/// The nodes after those that a way refers to learned that they belong to it.
pub open spec fn way_marked(nodes: Map<i64, NodeData>, way: i64, refs: Seq<i64>) -> Map<
    i64,
    NodeData,
> {
    Map::new(
        |nid: i64| nodes.contains_key(nid),
        |nid: i64|
            if refs.contains(nid) {
                node_of_way(nodes[nid], way)
            } else {
                nodes[nid]
            },
    )
}

/// The nodes after the first `count` ways were marked on them, one after the
/// other.
pub open spec fn ways_marked(nodes: Map<i64, NodeData>, ways: Seq<WayData>, count: int) -> Map<
    i64,
    NodeData,
>
    decreases count,
{
    if count <= 0 {
        nodes
    } else {
        way_marked(
            ways_marked(nodes, ways, count - 1),
            ways[count - 1].id_spec(),
            ways[count - 1].refs_spec(),
        )
    }
}

/// Whether node reference `j` of way `i` is the first that names a missing
/// node.
pub open spec fn first_missing_at(nodes: Set<i64>, ways: Seq<WayData>, i: int, j: int) -> bool {
    &&& 0 <= i < ways.len()
    &&& 0 <= j < ways[i].refs_spec().len()
    &&& !nodes.contains(ways[i].refs_spec()[j])
    &&& forall|b: int| 0 <= b < j ==> nodes.contains(#[trigger] ways[i].refs_spec()[b])
    &&& forall|a: int, b: int|
        0 <= a < i && 0 <= b < ways[a].refs_spec().len() ==> nodes.contains(
            #[trigger] ways[a].refs_spec()[b],
        )
}

/// Tells each node that a way refers to that it belongs to the way. A
/// reference to a missing node leaves the nodes as they are and gives the
/// missing node's id.
pub fn mark_way(nodes: &mut HashMap<i64, NodeData>, way: &WayData) -> (marked: Result<(), i64>)
    ensures
        match marked {
            Ok(()) => {
                &&& forall|j: int|
                    0 <= j < way.refs_spec().len() ==> old(nodes)@.contains_key(
                        #[trigger] way.refs_spec()[j],
                    )
                &&& final(nodes)@ == way_marked(old(nodes)@, way.id_spec(), way.refs_spec())
            },
            Err(missing) => {
                &&& exists|j: int|
                    0 <= j < way.refs_spec().len() && way.refs_spec()[j] == missing && !old(
                        nodes,
                    )@.contains_key(missing) && forall|b: int|
                        0 <= b < j ==> old(nodes)@.contains_key(#[trigger] way.refs_spec()[b])
                &&& final(nodes)@ == old(nodes)@
            },
        },
{
    broadcast use vstd::std_specs::hash::group_hash_axioms;

    let refs = way.refs();
    let wid = way.way_id();
    let mut j: usize = 0;
    while j < refs.len()
        invariant
            j <= refs.len(),
            refs@ == way.refs_spec(),
            nodes@ == old(nodes)@,
            forall|b: int| 0 <= b < j ==> nodes@.contains_key(#[trigger] refs@[b]),
        decreases refs.len() - j,
    {
        if !nodes.contains_key(&refs[j]) {
            assert(way.refs_spec()[j as int] == refs@[j as int]);
            return Err(refs[j]);
        }
        j = j + 1;
    }
    let mut j: usize = 0;
    proof {
        assert(refs@.take(0) =~= Seq::<i64>::empty());
        assert(nodes@ =~= way_marked(old(nodes)@, wid, refs@.take(0)));
    }
    while j < refs.len()
        invariant
            j <= refs.len(),
            forall|b: int| 0 <= b < refs.len() ==> old(nodes)@.contains_key(#[trigger] refs@[b]),
            nodes@ == way_marked(old(nodes)@, wid, refs@.take(j as int)),
        decreases refs.len() - j,
    {
        let nid = refs[j];
        assert(old(nodes)@.contains_key(refs@[j as int]));
        match nodes.remove(&nid) {
            Some(mut node) => {
                node.way = Some(wid);
                nodes.insert(nid, node);
            },
            None => {},
        }
        proof {
            let before = refs@.take(j as int);
            let after = refs@.take(j + 1);
            assert(after =~= before.push(nid));
            assert forall|id: i64| after.contains(id) <==> (before.contains(id) || id == nid) by {
                if before.contains(id) {
                    let k = choose|k: int| 0 <= k < before.len() && before[k] == id;
                    assert(after[k] == id);
                }
                if after.contains(id) && id != nid {
                    let k = choose|k: int| 0 <= k < after.len() && after[k] == id;
                    assert(before[k] == id);
                }
                assert(after[j as int] == nid);
            }
            assert(nodes@ =~= way_marked(old(nodes)@, wid, after));
        }
        j = j + 1;
    }
    assert(refs@.take(refs@.len() as int) =~= refs@);
    Ok(())
}

/// Tells the nodes which way they belong to, way after way; a node of several
/// ways belongs to the last of them. A way that refers to a missing node ends
/// this with the ids of the way and of the node.
pub fn mark_ways(nodes: &mut HashMap<i64, NodeData>, ways: &Vec<WayData>) -> (marked: Result<
    (),
    (i64, i64),
>)
    ensures
        match marked {
            Ok(()) => {
                &&& forall|a: int, b: int|
                    0 <= a < ways@.len() && 0 <= b < ways@[a].refs_spec().len() ==> old(
                        nodes,
                    )@.contains_key(#[trigger] ways@[a].refs_spec()[b])
                &&& final(nodes)@ == ways_marked(old(nodes)@, ways@, ways@.len() as int)
            },
            Err((way, node)) => exists|i: int, j: int|
                #[trigger] first_missing_at(old(nodes)@.dom(), ways@, i, j) && way
                    == ways@[i].id_spec() && node == ways@[i].refs_spec()[j],
        },
{
    let mut i: usize = 0;
    while i < ways.len()
        invariant
            i <= ways.len(),
            nodes@ == ways_marked(old(nodes)@, ways@, i as int),
            nodes@.dom() == old(nodes)@.dom(),
            forall|a: int, b: int|
                0 <= a < i && 0 <= b < ways@[a].refs_spec().len() ==> old(nodes)@.contains_key(
                    #[trigger] ways@[a].refs_spec()[b],
                ),
        decreases ways.len() - i,
    {
        let ghost before = nodes@;
        match mark_way(nodes, &ways[i]) {
            Ok(()) => {
                proof {
                    assert(nodes@.dom() =~= before.dom());
                    assert forall|b: int| 0 <= b < ways@[i as int].refs_spec().len() implies old(
                        nodes,
                    )@.contains_key(#[trigger] ways@[i as int].refs_spec()[b]) by {
                        assert(before.dom().contains(ways@[i as int].refs_spec()[b]));
                    }
                }
            },
            Err(missing) => {
                proof {
                    let j = choose|j: int|
                        0 <= j < ways@[i as int].refs_spec().len() && ways@[i as int].refs_spec()[j]
                            == missing && !before.contains_key(missing) && forall|b: int|
                            0 <= b < j ==> before.contains_key(
                                #[trigger] ways@[i as int].refs_spec()[b],
                            );
                    assert forall|b: int| 0 <= b < j implies old(nodes)@.dom().contains(
                        #[trigger] ways@[i as int].refs_spec()[b],
                    ) by {
                        assert(before.dom().contains(ways@[i as int].refs_spec()[b]));
                    }
                    assert(!old(nodes)@.dom().contains(missing));
                    assert(first_missing_at(old(nodes)@.dom(), ways@, i as int, j));
                }
                return Err((ways[i].way_id(), missing));
            },
        }
        i = i + 1;
    }
    Ok(())
}

/// Whether all members of a relation are there.
pub fn relation_is_complete(
    relation: &RelationData,
    nodes: &HashMap<i64, NodeData>,
    ways: &HashMap<i64, WayData>,
    relations: &HashMap<i64, RelationData>,
) -> (complete: bool)
    ensures
        complete == is_complete(*relation, nodes@.dom(), ways@.dom(), relations@.dom()),
{
    broadcast use vstd::std_specs::hash::group_hash_axioms;

    let mut i: usize = 0;
    while i < relation.members.len()
        invariant
            i <= relation.members.len(),
            forall|k: int|
                0 <= k < i ==> member_exists(
                    (#[trigger] relation.members@[k]).member,
                    nodes@.dom(),
                    ways@.dom(),
                    relations@.dom(),
                ),
        decreases relation.members.len() - i,
    {
        let entry_exists = match relation.members[i].member {
            RelationMemberType::Way(wid) => ways.contains_key(&wid),
            RelationMemberType::Relation(rid) => relations.contains_key(&rid),
            RelationMemberType::Node(nid) => nodes.contains_key(&nid),
        };
        if !entry_exists {
            return false;
        }
        i = i + 1;
    }
    true
}

/// Leaves out every relation of which a member is missing. A member that is a
/// relation counts as present if the relation was read, whether or not it is
/// complete itself.
pub fn retain_complete_relations(
    relations: &mut HashMap<i64, RelationData>,
    nodes: &HashMap<i64, NodeData>,
    ways: &HashMap<i64, WayData>,
)
    ensures
        final(relations)@ == old(relations)@.restrict(
            complete_relations(old(relations)@, nodes@.dom(), ways@.dom()),
        ),
{
    broadcast use vstd::std_specs::hash::group_hash_axioms;

    let ghost before = relations@;
    let ghost complete = complete_relations(before, nodes@.dom(), ways@.dom());
    let mut incomplete: Vec<i64> = Vec::new();
    let iter = relations.iter();
    let ghost all = iter.remaining();
    for (rid, relation) in it: iter
        invariant
            it.seq() == all,
            all == vstd::std_specs::hash::spec_hash_map_iter(relations).remaining(),
            relations@ == before,
            complete == complete_relations(before, nodes@.dom(), ways@.dom()),
            forall|k: int|
                0 <= k < incomplete@.len() ==> before.contains_key(#[trigger] incomplete@[k])
                    && !complete.contains(incomplete@[k]),
            forall|j: int|
                0 <= j < it.index() ==> complete.contains(*(#[trigger] all[j]).0)
                    || incomplete@.contains(*all[j].0),
    {
        let ghost here = it.index() as int;
        let ghost listed = incomplete@;
        assert(all[here] == (rid, relation));
        assert(before.contains_key(*rid) && before[*rid] == *relation);
        if !relation_is_complete(relation, nodes, ways, relations) {
            incomplete.push(*rid);
            proof {
                assert(incomplete@[incomplete@.len() - 1] == *rid);
                assert forall|j: int| 0 <= j < here implies complete.contains(
                    *(#[trigger] all[j]).0,
                ) || incomplete@.contains(*all[j].0) by {
                    if listed.contains(*all[j].0) {
                        let k = choose|k: int| 0 <= k < listed.len() && listed[k] == *all[j].0;
                        assert(incomplete@[k] == *all[j].0);
                    }
                }
            }
        }
    }
    let mut i: usize = 0;
    proof {
        assert forall|rid: i64| #[trigger]
            before.contains_key(rid) implies complete.contains(rid) || incomplete@.contains(rid) by {
            assert(all.contains((&rid, &before[rid])));
            let j = choose|j: int| 0 <= j < all.len() && all[j] == (&rid, &before[rid]);
            assert(*all[j].0 == rid);
        }
        assert(relations@ =~= before.remove_keys(incomplete@.take(0).to_set()));
    }
    while i < incomplete.len()
        invariant
            i <= incomplete.len(),
            relations@ == before.remove_keys(incomplete@.take(i as int).to_set()),
        decreases incomplete.len() - i,
    {
        relations.remove(&incomplete[i]);
        proof {
            let done = incomplete@.take(i as int);
            assert(incomplete@.take(i + 1) =~= done.push(incomplete@[i as int]));
            done.lemma_push_to_set_commute(incomplete@[i as int]);
            assert(relations@ =~= before.remove_keys(incomplete@.take(i + 1).to_set()));
        }
        i = i + 1;
    }
    proof {
        assert(incomplete@.take(incomplete@.len() as int) =~= incomplete@);
        assert(relations@ =~= before.restrict(complete));
    }
}

} // verus!
