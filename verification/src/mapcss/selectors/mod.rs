//! Selectors: which kind of element a rule is for, and under which conditions.

use std::rc::Rc;
use vstd::prelude::*;

verus! {

/// A condition that an element must meet for a rule to apply.
#[derive(Debug, PartialEq, Eq, Hash)]
pub enum SelectorCondition {
    /// No condition: holds of every element.
    No,
    ExactZoomLevel(u8),
    MinZoomLevel(u8),
    RangeZoomLevel(u8, u8),
    MaxZoomLevel(u8),
    Not(Rc<Selector>),
    HasDescendant(Rc<Selector>),
    GenericPseudoClass(String),
    HasTag(String),
    HasExactTagValue(String, String),
    HasNotTagValue(String, String),
    ValueGreaterThan(String, isize),
    ValueGreaterThanEqual(String, isize),
    ValueLessThan(String, isize),
    ValueLessThanEqual(String, isize),
    ClosedPath,
    /// All of the listed conditions, in order.
    List(Vec<SelectorCondition>),
}

/// A kind of element together with the conditions on it.
#[derive(Debug, PartialEq, Eq, Hash)]
pub struct Selector {
    pub selector_type: SelectorType,
    pub conditions: SelectorCondition,
}

/// The kind of element that a selector names.
#[derive(Debug, PartialEq, Eq, Hash, PartialOrd, Ord, Clone, Copy, Structural)]
pub enum SelectorType {
    Any,
    Meta,
    Node,
    Way,
    Relation,
    Area,
    Line,
    Canvas,
}

/// A condition as a mathematical value: text as character sequences, lists as sequences.
pub ghost enum SelectorConditionView {
    No,
    ExactZoomLevel(u8),
    MinZoomLevel(u8),
    RangeZoomLevel(u8, u8),
    MaxZoomLevel(u8),
    Not(Box<SelectorView>),
    HasDescendant(Box<SelectorView>),
    GenericPseudoClass(Seq<char>),
    HasTag(Seq<char>),
    HasExactTagValue(Seq<char>, Seq<char>),
    HasNotTagValue(Seq<char>, Seq<char>),
    ValueGreaterThan(Seq<char>, int),
    ValueGreaterThanEqual(Seq<char>, int),
    ValueLessThan(Seq<char>, int),
    ValueLessThanEqual(Seq<char>, int),
    ClosedPath,
    List(Seq<SelectorConditionView>),
}

/// A selector as a mathematical value.
pub ghost struct SelectorView {
    pub selector_type: SelectorType,
    pub conditions: SelectorConditionView,
}

/// The mathematical value of a condition.
pub open spec fn condition_view(condition: SelectorCondition) -> SelectorConditionView
    decreases condition,
{
    match condition {
        SelectorCondition::No => SelectorConditionView::No,
        SelectorCondition::ExactZoomLevel(z) => SelectorConditionView::ExactZoomLevel(z),
        SelectorCondition::MinZoomLevel(z) => SelectorConditionView::MinZoomLevel(z),
        SelectorCondition::RangeZoomLevel(a, b) => SelectorConditionView::RangeZoomLevel(a, b),
        SelectorCondition::MaxZoomLevel(z) => SelectorConditionView::MaxZoomLevel(z),
        SelectorCondition::Not(s) => SelectorConditionView::Not(
            Box::new(
                SelectorView {
                    selector_type: s.selector_type,
                    conditions: condition_view(s.conditions),
                },
            ),
        ),
        SelectorCondition::HasDescendant(s) => SelectorConditionView::HasDescendant(
            Box::new(
                SelectorView {
                    selector_type: s.selector_type,
                    conditions: condition_view(s.conditions),
                },
            ),
        ),
        SelectorCondition::GenericPseudoClass(name) => SelectorConditionView::GenericPseudoClass(
            name@,
        ),
        SelectorCondition::HasTag(key) => SelectorConditionView::HasTag(key@),
        SelectorCondition::HasExactTagValue(key, value) => SelectorConditionView::HasExactTagValue(
            key@,
            value@,
        ),
        SelectorCondition::HasNotTagValue(key, value) => SelectorConditionView::HasNotTagValue(
            key@,
            value@,
        ),
        SelectorCondition::ValueGreaterThan(key, n) => SelectorConditionView::ValueGreaterThan(
            key@,
            n as int,
        ),
        SelectorCondition::ValueGreaterThanEqual(
            key,
            n,
        ) => SelectorConditionView::ValueGreaterThanEqual(key@, n as int),
        SelectorCondition::ValueLessThan(key, n) => SelectorConditionView::ValueLessThan(
            key@,
            n as int,
        ),
        SelectorCondition::ValueLessThanEqual(key, n) => SelectorConditionView::ValueLessThanEqual(
            key@,
            n as int,
        ),
        SelectorCondition::ClosedPath => SelectorConditionView::ClosedPath,
        SelectorCondition::List(list) => SelectorConditionView::List(condition_views(list@)),
    }
}

/// The mathematical values of a sequence of conditions, one for one.
pub open spec fn condition_views(conditions: Seq<SelectorCondition>) -> Seq<SelectorConditionView>
    decreases conditions,
{
    if conditions.len() == 0 {
        Seq::empty()
    } else {
        condition_views(conditions.drop_last()).push(condition_view(conditions.last()))
    }
}

/// `condition_views` keeps the length and maps each condition to its value.
pub proof fn lemma_condition_views(conditions: Seq<SelectorCondition>)
    ensures
        condition_views(conditions).len() == conditions.len(),
        forall|i: int|
            0 <= i < conditions.len() ==> #[trigger] condition_views(conditions)[i]
                == condition_view(conditions[i]),
    decreases conditions.len(),
{
    if conditions.len() > 0 {
        lemma_condition_views(conditions.drop_last());
    }
}

/// The values of two sequences joined are the two sequences of values joined.
pub proof fn lemma_condition_views_concat(a: Seq<SelectorCondition>, b: Seq<SelectorCondition>)
    ensures
        condition_views(a + b) == condition_views(a) + condition_views(b),
{
    lemma_condition_views(a);
    lemma_condition_views(b);
    lemma_condition_views(a + b);
    assert(condition_views(a + b) =~= condition_views(a) + condition_views(b));
}

impl View for SelectorCondition {
    type V = SelectorConditionView;

    open spec fn view(&self) -> SelectorConditionView {
        condition_view(*self)
    }
}

impl View for Selector {
    type V = SelectorView;

    open spec fn view(&self) -> SelectorView {
        SelectorView { selector_type: self.selector_type, conditions: self.conditions@ }
    }
}

/// Two conditions merged into one that holds when both hold.
///
/// Merging with `No` changes nothing; lists are joined rather than nested.
pub open spec fn merged_conditions(
    first: SelectorConditionView,
    second: SelectorConditionView,
) -> SelectorConditionView {
    if second is No {
        first
    } else {
        match first {
            SelectorConditionView::List(conditions) => match second {
                SelectorConditionView::List(more) => SelectorConditionView::List(conditions + more),
                _ => SelectorConditionView::List(conditions.push(second)),
            },
            SelectorConditionView::No => second,
            _ => SelectorConditionView::List(seq![first, second]),
        }
    }
}

/// A copy of `condition`.
pub fn clone_condition(condition: &SelectorCondition) -> (copy: SelectorCondition)
    ensures
        copy@ == condition@,
    decreases condition,
{
    match condition {
        SelectorCondition::No => SelectorCondition::No,
        SelectorCondition::ExactZoomLevel(z) => SelectorCondition::ExactZoomLevel(*z),
        SelectorCondition::MinZoomLevel(z) => SelectorCondition::MinZoomLevel(*z),
        SelectorCondition::RangeZoomLevel(a, b) => SelectorCondition::RangeZoomLevel(*a, *b),
        SelectorCondition::MaxZoomLevel(z) => SelectorCondition::MaxZoomLevel(*z),
        SelectorCondition::Not(s) => SelectorCondition::Not(
            Rc::new(
                Selector {
                    selector_type: s.selector_type,
                    conditions: clone_condition(&s.conditions),
                },
            ),
        ),
        SelectorCondition::HasDescendant(s) => SelectorCondition::HasDescendant(
            Rc::new(
                Selector {
                    selector_type: s.selector_type,
                    conditions: clone_condition(&s.conditions),
                },
            ),
        ),
        SelectorCondition::GenericPseudoClass(name) => SelectorCondition::GenericPseudoClass(
            name.clone(),
        ),
        SelectorCondition::HasTag(key) => SelectorCondition::HasTag(key.clone()),
        SelectorCondition::HasExactTagValue(key, value) => SelectorCondition::HasExactTagValue(
            key.clone(),
            value.clone(),
        ),
        SelectorCondition::HasNotTagValue(key, value) => SelectorCondition::HasNotTagValue(
            key.clone(),
            value.clone(),
        ),
        SelectorCondition::ValueGreaterThan(key, n) => SelectorCondition::ValueGreaterThan(
            key.clone(),
            *n,
        ),
        SelectorCondition::ValueGreaterThanEqual(key, n) => SelectorCondition::ValueGreaterThanEqual(
            key.clone(),
            *n,
        ),
        SelectorCondition::ValueLessThan(key, n) => SelectorCondition::ValueLessThan(
            key.clone(),
            *n,
        ),
        SelectorCondition::ValueLessThanEqual(key, n) => SelectorCondition::ValueLessThanEqual(
            key.clone(),
            *n,
        ),
        SelectorCondition::ClosedPath => SelectorCondition::ClosedPath,
        SelectorCondition::List(list) => {
            let mut copies: Vec<SelectorCondition> = Vec::new();
            let mut i: usize = 0;
            while i < list.len()
                invariant
                    i <= list.len(),
                    copies.len() == i,
                    condition == SelectorCondition::List(*list),
                    forall|j: int| 0 <= j < i ==> copies@[j]@ == list@[j]@,
                decreases list.len() - i,
            {
                assert(decreases_to!(list => list[i as int]));
                assert(decreases_to!(*condition => condition->List_0));
                copies.push(clone_condition(&list[i]));
                i = i + 1;
            }
            let copy = SelectorCondition::List(copies);
            proof {
                lemma_condition_views(copies@);
                lemma_condition_views(list@);
                assert(copy@->List_0 =~= condition@->List_0);
            }
            copy
        },
    }
}

/// Whether two conditions are the same condition.
pub fn same_condition(a: &SelectorCondition, b: &SelectorCondition) -> (same: bool)
    ensures
        same == (a@ == b@),
    decreases a,
{
    match a {
        SelectorCondition::No => match b {
            SelectorCondition::No => true,
            _ => false,
        },
        SelectorCondition::ExactZoomLevel(x) => match b {
            SelectorCondition::ExactZoomLevel(y) => *x == *y,
            _ => false,
        },
        SelectorCondition::MinZoomLevel(x) => match b {
            SelectorCondition::MinZoomLevel(y) => *x == *y,
            _ => false,
        },
        SelectorCondition::RangeZoomLevel(x1, x2) => match b {
            SelectorCondition::RangeZoomLevel(y1, y2) => *x1 == *y1 && *x2 == *y2,
            _ => false,
        },
        SelectorCondition::MaxZoomLevel(x) => match b {
            SelectorCondition::MaxZoomLevel(y) => *x == *y,
            _ => false,
        },
        SelectorCondition::Not(x) => match b {
            SelectorCondition::Not(y) => x.selector_type == y.selector_type && same_condition(
                &x.conditions,
                &y.conditions,
            ),
            _ => false,
        },
        SelectorCondition::HasDescendant(x) => match b {
            SelectorCondition::HasDescendant(y) => x.selector_type == y.selector_type
                && same_condition(&x.conditions, &y.conditions),
            _ => false,
        },
        SelectorCondition::GenericPseudoClass(x) => match b {
            SelectorCondition::GenericPseudoClass(y) => *x == *y,
            _ => false,
        },
        SelectorCondition::HasTag(x) => match b {
            SelectorCondition::HasTag(y) => *x == *y,
            _ => false,
        },
        SelectorCondition::HasExactTagValue(x1, x2) => match b {
            SelectorCondition::HasExactTagValue(y1, y2) => *x1 == *y1 && *x2 == *y2,
            _ => false,
        },
        SelectorCondition::HasNotTagValue(x1, x2) => match b {
            SelectorCondition::HasNotTagValue(y1, y2) => *x1 == *y1 && *x2 == *y2,
            _ => false,
        },
        SelectorCondition::ValueGreaterThan(x, n) => match b {
            SelectorCondition::ValueGreaterThan(y, m) => *x == *y && *n == *m,
            _ => false,
        },
        SelectorCondition::ValueGreaterThanEqual(x, n) => match b {
            SelectorCondition::ValueGreaterThanEqual(y, m) => *x == *y && *n == *m,
            _ => false,
        },
        SelectorCondition::ValueLessThan(x, n) => match b {
            SelectorCondition::ValueLessThan(y, m) => *x == *y && *n == *m,
            _ => false,
        },
        SelectorCondition::ValueLessThanEqual(x, n) => match b {
            SelectorCondition::ValueLessThanEqual(y, m) => *x == *y && *n == *m,
            _ => false,
        },
        SelectorCondition::ClosedPath => match b {
            SelectorCondition::ClosedPath => true,
            _ => false,
        },
        SelectorCondition::List(x) => match b {
            SelectorCondition::List(y) => {
                proof {
                    lemma_condition_views(x@);
                    lemma_condition_views(y@);
                }
                if x.len() != y.len() {
                    return false;
                }
                let mut i: usize = 0;
                while i < x.len()
                    invariant
                        0 <= i <= x.len(),
                        x.len() == y.len(),
                        a == SelectorCondition::List(*x),
                        b == SelectorCondition::List(*y),
                        forall|j: int| 0 <= j < i ==> x@[j]@ == y@[j]@,
                    decreases x.len() - i,
                {
                    assert(decreases_to!(x => x[i as int]));
                    assert(decreases_to!(*a => a->List_0));
                    if !same_condition(&x[i], &y[i]) {
                        proof {
                            lemma_condition_views(x@);
                            lemma_condition_views(y@);
                            assert(a@->List_0[i as int] == x@[i as int]@);
                            assert(b@->List_0[i as int] == y@[i as int]@);
                        }
                        return false;
                    }
                    i = i + 1;
                }
                proof {
                    assert(a@->List_0 =~= b@->List_0);
                }
                true
            },
            _ => false,
        },
    }
}

impl Clone for SelectorCondition {
    fn clone(&self) -> (copy: Self)
        ensures
            copy@ == self@,
    {
        clone_condition(self)
    }
}

impl Clone for Selector {
    fn clone(&self) -> (copy: Self)
        ensures
            copy@ == self@,
    {
        Selector { selector_type: self.selector_type, conditions: clone_condition(&self.conditions) }
    }
}

impl Default for SelectorCondition {
    fn default() -> (condition: Self)
        ensures
            condition@ == SelectorConditionView::No,
    {
        SelectorCondition::No
    }
}

impl SelectorCondition {
    /// Merges two conditions into one that holds when both hold.
    pub fn add_condition(self, new: SelectorCondition) -> (merged: SelectorCondition)
        ensures
            merged@ == merged_conditions(self@, new@),
    {
        if let SelectorCondition::No = new {
            return self;
        }
        match self {
            // join lists instead of nesting them
            SelectorCondition::List(mut conditions) => {
                let ghost before = conditions@;
                match new {
                    SelectorCondition::List(mut new_conditions) => {
                        proof {
                            lemma_condition_views_concat(before, new_conditions@);
                        }
                        conditions.append(&mut new_conditions);
                    },
                    other => {
                        proof {
                            lemma_condition_views_concat(before, seq![other]);
                            lemma_condition_views(seq![other]);
                            assert(condition_views(seq![other]) =~= seq![other@]);
                            assert(before + seq![other] =~= before.push(other));
                            assert(condition_views(before) + seq![other@] =~= condition_views(
                                before,
                            ).push(other@));
                        }
                        conditions.push(other);
                    },
                }
                SelectorCondition::List(conditions)
            },
            SelectorCondition::No => new,
            first => {
                proof {
                    lemma_condition_views(seq![first, new]);
                    assert(condition_views(seq![first, new]) =~= seq![first@, new@]);
                }
                let mut both: Vec<SelectorCondition> = Vec::new();
                both.push(first);
                both.push(new);
                assert(both@ =~= seq![first, new]);
                SelectorCondition::List(both)
            },
        }
    }
}

impl Selector {
    pub fn new(selector_type: SelectorType, conditions: SelectorCondition) -> (selector: Selector)
        ensures
            selector@ == (SelectorView { selector_type, conditions: conditions@ }),
    {
        Selector { selector_type, conditions }
    }

    pub fn set_conditions(&mut self, conditions: SelectorCondition)
        ensures
            final(self)@ == (SelectorView {
                selector_type: old(self)@.selector_type,
                conditions: conditions@,
            }),
    {
        self.conditions = conditions;
    }

    pub fn conditions(&self) -> (conditions: &SelectorCondition)
        ensures
            conditions@ == self@.conditions,
    {
        &self.conditions
    }

    pub fn selector_type(&self) -> (selector_type: SelectorType)
        ensures
            selector_type == self@.selector_type,
    {
        self.selector_type
    }
}

} // verus!
