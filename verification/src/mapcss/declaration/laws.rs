//! Laws of the cascade: what resolution guarantees whatever the stylesheet.

use crate::data::ElementModel;
use crate::mapcss::declaration::{
    applicable_types, cascade, cascade_or, condition_holds, group_value, last_value,
    resolve_in_type, resolve_in_types, sets_property, unsupported_for, DeclarationGroupView,
    MapCssDeclarationProperty, MapCssDeclarationValueView, MapCssDeclarationView, RenderSession,
};
use crate::mapcss::selectors::SelectorType;
use vstd::prelude::*;

verus! {

/// Whether the group at index `i` applies to the element under one of the
/// selector types and sets the property.
pub open spec fn rule_sets(
    groups: Seq<DeclarationGroupView>,
    element: ElementModel,
    property: MapCssDeclarationProperty,
    selector_types: Seq<SelectorType>,
    i: int,
) -> bool {
    &&& 0 <= i < groups.len()
    &&& selector_types.contains(groups[i].selector_type)
    &&& condition_holds(element, groups[i].condition)
    &&& sets_property(groups[i].declarations, property)
}

/// What one resolution leaves behind: the value found, and the session after it.
pub open spec fn resolution(
    groups: Seq<DeclarationGroupView>,
    element: ElementModel,
    property: MapCssDeclarationProperty,
    session: RenderSession,
) -> (Option<MapCssDeclarationValueView>, RenderSession) {
    (cascade(groups, element, property), session.join(unsupported_for(groups, element)))
}

/// A list of declarations gives a value for a property exactly if one of them
/// sets it.
pub proof fn lemma_last_value_some(
    declarations: Seq<MapCssDeclarationView>,
    property: MapCssDeclarationProperty,
)
    ensures
        last_value(declarations, property) is Some <==> sets_property(declarations, property),
    decreases declarations.len(),
{
    if declarations.len() > 0 {
        let shorter = declarations.drop_last();
        lemma_last_value_some(shorter, property);
        if declarations.last().0 == property {
            assert(declarations[declarations.len() - 1].0 == property);
        } else if sets_property(declarations, property) {
            let i = choose|i: int|
                0 <= i < declarations.len() && (#[trigger] declarations[i]).0 == property;
            assert(shorter[i].0 == property);
        } else if sets_property(shorter, property) {
            let i = choose|i: int| 0 <= i < shorter.len() && (#[trigger] shorter[i]).0 == property;
            assert(declarations[i].0 == property);
        }
    }
}

/// The rules of one selector type give a value exactly if one of them applies
/// and sets the property.
pub proof fn lemma_resolve_in_type_some(
    groups: Seq<DeclarationGroupView>,
    element: ElementModel,
    property: MapCssDeclarationProperty,
    selector_type: SelectorType,
)
    ensures
        resolve_in_type(groups, element, property, selector_type) is Some <==> exists|i: int|
            #[trigger] rule_sets(groups, element, property, seq![selector_type], i),
    decreases groups.len(),
{
    let types = seq![selector_type];
    assert(forall|t: SelectorType| types.contains(t) <==> t == selector_type) by {
        assert(types[0] == selector_type);
    }
    if groups.len() > 0 {
        let shorter = groups.drop_last();
        let last = groups.len() - 1;
        lemma_resolve_in_type_some(shorter, element, property, selector_type);
        lemma_last_value_some(groups.last().declarations, property);
        if group_value(groups.last(), element, property, selector_type) is Some {
            assert(rule_sets(groups, element, property, types, last));
        } else {
            if exists|i: int| #[trigger] rule_sets(groups, element, property, types, i) {
                let i = choose|i: int| #[trigger] rule_sets(groups, element, property, types, i);
                assert(i != last);
                assert(rule_sets(shorter, element, property, types, i));
            }
            if exists|i: int| #[trigger] rule_sets(shorter, element, property, types, i) {
                let i = choose|i: int| #[trigger] rule_sets(shorter, element, property, types, i);
                assert(rule_sets(groups, element, property, types, i));
            }
        }
    } else {
        assert(!exists|i: int| #[trigger] rule_sets(groups, element, property, types, i));
    }
}

/// Going through selector types gives a value exactly if a rule of one of the
/// types applies and sets the property.
pub proof fn lemma_resolve_in_types_some(
    groups: Seq<DeclarationGroupView>,
    element: ElementModel,
    property: MapCssDeclarationProperty,
    selector_types: Seq<SelectorType>,
)
    ensures
        resolve_in_types(groups, element, property, selector_types) is Some <==> exists|i: int|
            #[trigger] rule_sets(groups, element, property, selector_types, i),
    decreases selector_types.len(),
{
    if selector_types.len() > 0 {
        let shorter = selector_types.drop_last();
        let last = selector_types.last();
        lemma_resolve_in_types_some(groups, element, property, shorter);
        lemma_resolve_in_type_some(groups, element, property, last);
        let one = seq![last];
        assert(forall|t: SelectorType| one.contains(t) <==> t == last) by {
            assert(one[0] == last);
        }
        assert(forall|t: SelectorType|
            selector_types.contains(t) <==> (shorter.contains(t) || t == last)) by {
            assert forall|t: SelectorType| selector_types.contains(t) implies (shorter.contains(t)
                || t == last) by {
                let k = choose|k: int| 0 <= k < selector_types.len() && selector_types[k] == t;
                if k < shorter.len() {
                    assert(shorter[k] == t);
                }
            }
            assert forall|t: SelectorType| shorter.contains(t) implies selector_types.contains(
                t,
            ) by {
                let k = choose|k: int| 0 <= k < shorter.len() && shorter[k] == t;
                assert(selector_types[k] == t);
            }
            assert(selector_types[selector_types.len() - 1] == last);
        }
        if exists|i: int| #[trigger] rule_sets(groups, element, property, selector_types, i) {
            let i = choose|i: int| #[trigger] rule_sets(groups, element, property, selector_types, i);
            if groups[i].selector_type == last {
                assert(rule_sets(groups, element, property, one, i));
            } else {
                assert(rule_sets(groups, element, property, shorter, i));
            }
        }
        if exists|i: int| #[trigger] rule_sets(groups, element, property, one, i) {
            let i = choose|i: int| #[trigger] rule_sets(groups, element, property, one, i);
            assert(rule_sets(groups, element, property, selector_types, i));
        }
        if exists|i: int| #[trigger] rule_sets(groups, element, property, shorter, i) {
            let i = choose|i: int| #[trigger] rule_sets(groups, element, property, shorter, i);
            assert(rule_sets(groups, element, property, selector_types, i));
        }
    } else {
        assert(!exists|i: int| #[trigger] rule_sets(groups, element, property, selector_types, i));
    }
}

/// Resolution finds a value exactly if some rule under a selector type that
/// applies to the element matches it and sets the property. So where no such
/// rule exists, resolving with a default gives exactly the default.
pub proof fn law_default_exactly_when_unset(
    groups: Seq<DeclarationGroupView>,
    element: ElementModel,
    property: MapCssDeclarationProperty,
    default: MapCssDeclarationValueView,
)
    ensures
        cascade(groups, element, property) is Some <==> exists|i: int|
            #[trigger] rule_sets(groups, element, property, applicable_types(element), i),
        !(exists|i: int|
            #[trigger] rule_sets(groups, element, property, applicable_types(element), i))
            ==> cascade_or(groups, element, property, default) == default,
{
    lemma_resolve_in_types_some(groups, element, property, applicable_types(element));
}

/// The most specific selector type wins: where a rule of the last applicable
/// type matches and sets the property, the value comes from the rules of that
/// type, whatever less specific rules say and wherever they stand.
pub proof fn law_most_specific_type_wins(
    groups: Seq<DeclarationGroupView>,
    element: ElementModel,
    property: MapCssDeclarationProperty,
)
    requires
        resolve_in_type(groups, element, property, applicable_types(element).last()) is Some,
    ensures
        cascade(groups, element, property) == resolve_in_type(
            groups,
            element,
            property,
            applicable_types(element).last(),
        ),
{
}

/// On a closed way, a rule under `area` beats a rule under `way` that sets the
/// same property, in whichever order the stylesheet gives the two.
pub proof fn law_area_beats_way(
    way_rule: DeclarationGroupView,
    area_rule: DeclarationGroupView,
    element: ElementModel,
    property: MapCssDeclarationProperty,
)
    requires
        element.id is Way,
        element.closed,
        way_rule.selector_type == SelectorType::Way,
        area_rule.selector_type == SelectorType::Area,
        condition_holds(element, way_rule.condition),
        condition_holds(element, area_rule.condition),
        sets_property(way_rule.declarations, property),
        sets_property(area_rule.declarations, property),
    ensures
        cascade(seq![way_rule, area_rule], element, property) == last_value(
            area_rule.declarations,
            property,
        ),
        cascade(seq![area_rule, way_rule], element, property) == last_value(
            area_rule.declarations,
            property,
        ),
{
    lemma_last_value_some(area_rule.declarations, property);
    assert(applicable_types(element).last() == SelectorType::Area);
    let first = seq![way_rule, area_rule];
    assert(first.drop_last() =~= seq![way_rule]);
    assert(first.last() == area_rule);
    assert(resolve_in_type(first, element, property, SelectorType::Area) == last_value(
        area_rule.declarations,
        property,
    ));
    let second = seq![area_rule, way_rule];
    assert(second.drop_last() =~= seq![area_rule]);
    assert(second.last() == way_rule);
    assert(seq![area_rule].drop_last() =~= Seq::<DeclarationGroupView>::empty());
    assert(seq![area_rule].last() == area_rule);
    assert(resolve_in_type(seq![area_rule], element, property, SelectorType::Area) == last_value(
        area_rule.declarations,
        property,
    ));
    assert(resolve_in_type(second, element, property, SelectorType::Area) == last_value(
        area_rule.declarations,
        property,
    ));
    law_most_specific_type_wins(first, element, property);
    law_most_specific_type_wins(second, element, property);
}

/// Resolution is idempotent: a second resolution of the same property of the
/// same element against the same stylesheet finds the same value, and leaves
/// the session as the first one left it.
pub proof fn law_resolution_idempotent(
    groups: Seq<DeclarationGroupView>,
    element: ElementModel,
    property: MapCssDeclarationProperty,
    session: RenderSession,
)
    ensures
        resolution(groups, element, property, resolution(groups, element, property, session).1)
            == resolution(groups, element, property, session),
{
}

} // verus!
