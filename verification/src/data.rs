//! The element model: nodes, ways and relations with their tags.

use vstd::prelude::*;

verus! {

/// Identifies an element; the key under which its style is looked up.
#[derive(Debug, Clone, Copy, PartialEq, Eq, Hash, Structural)]
pub enum ElementID {
    Canvas,
    Relation(i64),
    Node(i64),
    Way(i64),
}

/// What a relation member refers to.
#[derive(Debug, Clone, Copy, PartialEq, Eq, Structural)]
pub enum RelationMemberType {
    Relation(i64),
    Node(i64),
    Way(i64),
}

#[derive(Debug, Clone)]
pub struct RelationMember {
    pub member: RelationMemberType,
    pub role: String,
}

/// A relation. Its tags take part in style resolution; its geometry is never drawn.
#[derive(Debug, Clone)]
pub struct RelationData {
    pub rid: i64,
    pub tags: Vec<(String, String)>,
    pub members: Vec<RelationMember>,
}

/// A node. `lat` and `lon` are held in units of a ten-millionth of a degree.
#[derive(Debug, Clone)]
pub struct NodeData {
    pub nid: i64,
    pub lat: i32,
    pub lon: i32,
    pub tags: Vec<(String, String)>,
    pub way: Option<i64>,
}

/// Why an element could not be built.
#[derive(Debug, Clone, Copy, PartialEq, Eq, Structural)]
pub enum DataError {
    /// A way needs at least two node references.
    MalformedWay,
}

/// A way: an ordered list of at least two node ids, with tags.
#[derive(Debug)]
pub struct WayData {
    wid: i64,
    /// true if this way encloses an area: its first and last node are the same,
    /// or it is tagged `area=yes`
    is_closed: bool,
    tags: Vec<(String, String)>,
    refs: Vec<i64>,
}

/// What style resolution sees of an element.
pub ghost struct ElementModel {
    pub id: ElementID,
    pub closed: bool,
    pub tags: Seq<(Seq<char>, Seq<char>)>,
}

/// Tags as pairs of character sequences.
pub open spec fn tag_model(tags: Seq<(String, String)>) -> Seq<(Seq<char>, Seq<char>)> {
    Seq::new(tags.len(), |i: int| (tags[i].0@, tags[i].1@))
}

/// Whether one of `tags` is `key=value`.
pub open spec fn has_tag_value(
    tags: Seq<(Seq<char>, Seq<char>)>,
    key: Seq<char>,
    value: Seq<char>,
) -> bool {
    exists|i: int| 0 <= i < tags.len() && #[trigger] tags[i] == (key, value)
}

/// Whether one of `tags` has the key `key`.
pub open spec fn has_tag(tags: Seq<(Seq<char>, Seq<char>)>, key: Seq<char>) -> bool {
    exists|i: int| 0 <= i < tags.len() && (#[trigger] tags[i]).0 == key
}

/// Whether a way with these tags and node references is a closed path: it ends
/// where it starts, or it is tagged `area=yes`.
pub open spec fn closed_path(tags: Seq<(Seq<char>, Seq<char>)>, refs: Seq<i64>) -> bool {
    (refs.len() > 0 && refs.first() == refs.last()) || has_tag_value(tags, "area"@, "yes"@)
}

/// Looks for the tag `key=value` by a linear scan.
pub fn contains_tag(tags: &[(String, String)], key: &String, value: &String) -> (found: bool)
    ensures
        found == has_tag_value(tag_model(tags@), key@, value@),
{
    let mut i: usize = 0;
    while i < tags.len()
        invariant
            i <= tags.len(),
            forall|j: int| 0 <= j < i ==> tag_model(tags@)[j] != (key@, value@),
        decreases tags.len() - i,
    {
        if tags[i].0 == *key && tags[i].1 == *value {
            assert(tag_model(tags@)[i as int] == (key@, value@));
            return true;
        }
        i = i + 1;
    }
    false
}

/// Looks for a tag with the key `key` by a linear scan.
pub fn contains_key(tags: &[(String, String)], key: &String) -> (found: bool)
    ensures
        found == has_tag(tag_model(tags@), key@),
{
    let mut i: usize = 0;
    while i < tags.len()
        invariant
            i <= tags.len(),
            forall|j: int| 0 <= j < i ==> tag_model(tags@)[j].0 != key@,
        decreases tags.len() - i,
    {
        if tags[i].0 == *key {
            assert(tag_model(tags@)[i as int].0 == key@);
            return true;
        }
        i = i + 1;
    }
    false
}

/// A copy of `tags`.
pub fn clone_tags(tags: &Vec<(String, String)>) -> (copy: Vec<(String, String)>)
    ensures
        copy@ == tags@,
{
    let mut copy: Vec<(String, String)> = Vec::new();
    let mut i: usize = 0;
    while i < tags.len()
        invariant
            i <= tags.len(),
            copy@ == tags@.take(i as int),
        decreases tags.len() - i,
    {
        copy.push((tags[i].0.clone(), tags[i].1.clone()));
        assert(tags@.take(i + 1) =~= tags@.take(i as int).push(tags@[i as int]));
        i = i + 1;
    }
    assert(tags@.take(tags@.len() as int) =~= tags@);
    copy
}

impl Clone for WayData {
    fn clone(&self) -> (copy: Self)
        ensures
            copy.id_spec() == self.id_spec(),
            copy.tags_spec() == self.tags_spec(),
            copy.refs_spec() == self.refs_spec(),
            copy.closed_spec() == self.closed_spec(),
    {
        proof {
            use_type_invariant(self);
        }
        let mut refs: Vec<i64> = Vec::new();
        let mut i: usize = 0;
        while i < self.refs.len()
            invariant
                i <= self.refs.len(),
                refs@ == self.refs@.take(i as int),
            decreases self.refs.len() - i,
        {
            refs.push(self.refs[i]);
            assert(self.refs@.take(i + 1) =~= self.refs@.take(i as int).push(self.refs@[i as int]));
            i = i + 1;
        }
        assert(self.refs@.take(self.refs@.len() as int) =~= self.refs@);
        WayData { wid: self.wid, is_closed: self.is_closed, tags: clone_tags(&self.tags), refs }
    }
}

impl WayData {
    #[verifier::type_invariant]
    spec fn well_formed(&self) -> bool {
        &&& self.refs@.len() >= 2
        &&& self.is_closed == closed_path(tag_model(self.tags@), self.refs@)
    }

    /// The way's id.
    pub closed spec fn id_spec(&self) -> i64 {
        self.wid
    }

    /// The way's node references, in order.
    pub closed spec fn refs_spec(&self) -> Seq<i64> {
        self.refs@
    }

    /// The way's tags, in order.
    pub closed spec fn tags_spec(&self) -> Seq<(String, String)> {
        self.tags@
    }

    /// Whether the way is a closed path; fixed when the way is built.
    pub closed spec fn closed_spec(&self) -> bool {
        self.is_closed
    }

    /// Builds a way. Fewer than two node references are refused; the closed
    /// flag is computed here and never changes afterwards.
    pub fn new(wid: i64, tags: Vec<(String, String)>, refs: Vec<i64>) -> (way: Result<WayData, DataError>)
        ensures
            way is Err <==> refs@.len() < 2,
            way matches Err(e) ==> e == DataError::MalformedWay,
            way matches Ok(w) ==> {
                &&& w.id_spec() == wid
                &&& w.tags_spec() == tags@
                &&& w.refs_spec() == refs@
                &&& w.closed_spec() == closed_path(tag_model(tags@), refs@)
            },
    {
        if refs.len() < 2 {
            return Err(DataError::MalformedWay);
        }
        let area = "area".to_owned();
        let yes = "yes".to_owned();
        let is_closed = refs[0] == refs[refs.len() - 1] || contains_tag(
            tags.as_slice(),
            &area,
            &yes,
        );
        Ok(WayData { wid, is_closed, tags, refs })
    }

    pub fn way_id(&self) -> (wid: i64)
        ensures
            wid == self.id_spec(),
    {
        self.wid
    }

    pub fn refs(&self) -> (refs: &Vec<i64>)
        ensures
            refs@ == self.refs_spec(),
            refs@.len() >= 2,
    {
        proof {
            use_type_invariant(self);
        }
        &self.refs
    }
}

/// What every kind of element offers to style resolution.
pub trait ElementData {
    /// The element as style resolution sees it.
    spec fn model(&self) -> ElementModel;

    fn tags(&self) -> (tags: &[(String, String)])
        ensures
            tag_model(tags@) == self.model().tags,
    ;

    fn id(&self) -> (id: ElementID)
        ensures
            id == self.model().id,
    ;

    fn has_closed_path(&self) -> (closed: bool)
        ensures
            closed == self.model().closed,
    ;
}

impl ElementData for WayData {
    open spec fn model(&self) -> ElementModel {
        ElementModel {
            id: ElementID::Way(self.id_spec()),
            closed: self.closed_spec(),
            tags: tag_model(self.tags_spec()),
        }
    }

    fn tags(&self) -> (tags: &[(String, String)]) {
        self.tags.as_slice()
    }

    fn id(&self) -> (id: ElementID) {
        ElementID::Way(self.wid)
    }

    fn has_closed_path(&self) -> (closed: bool) {
        self.is_closed
    }
}

impl ElementData for NodeData {
    open spec fn model(&self) -> ElementModel {
        ElementModel { id: ElementID::Node(self.nid), closed: false, tags: tag_model(self.tags@) }
    }

    fn tags(&self) -> (tags: &[(String, String)]) {
        self.tags.as_slice()
    }

    fn id(&self) -> (id: ElementID) {
        ElementID::Node(self.nid)
    }

    fn has_closed_path(&self) -> (closed: bool) {
        false
    }
}

impl ElementData for RelationData {
    open spec fn model(&self) -> ElementModel {
        ElementModel {
            id: ElementID::Relation(self.rid),
            closed: false,
            tags: tag_model(self.tags@),
        }
    }

    fn tags(&self) -> (tags: &[(String, String)]) {
        self.tags.as_slice()
    }

    fn id(&self) -> (id: ElementID) {
        ElementID::Relation(self.rid)
    }

    /// A relation's geometry is not interpreted: it never counts as a closed path.
    fn has_closed_path(&self) -> (closed: bool) {
        false
    }
}

impl<'a> From<&'a NodeData> for ElementID {
    fn from(val: &'a NodeData) -> (id: Self) {
        ElementID::Node(val.nid)
    }
}

impl<'a> vstd::std_specs::convert::FromSpecImpl<&'a NodeData> for ElementID {
    open spec fn obeys_from_spec() -> bool {
        true
    }

    open spec fn from_spec(val: &'a NodeData) -> Self {
        ElementID::Node(val.nid)
    }
}

impl From<WayData> for ElementID {
    fn from(val: WayData) -> (id: Self) {
        ElementID::Way(val.wid)
    }
}

impl vstd::std_specs::convert::FromSpecImpl<WayData> for ElementID {
    open spec fn obeys_from_spec() -> bool {
        true
    }

    open spec fn from_spec(val: WayData) -> Self {
        ElementID::Way(val.id_spec())
    }
}

impl<'a> From<&'a RelationData> for ElementID {
    fn from(val: &'a RelationData) -> (id: Self) {
        ElementID::Relation(val.rid)
    }
}

impl<'a> vstd::std_specs::convert::FromSpecImpl<&'a RelationData> for ElementID {
    open spec fn obeys_from_spec() -> bool {
        true
    }

    open spec fn from_spec(val: &'a RelationData) -> Self {
        ElementID::Relation(val.rid)
    }
}

} // verus!
