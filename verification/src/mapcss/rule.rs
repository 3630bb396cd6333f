//! A rule as the stylesheet gives it: one selector with its declarations.

use crate::mapcss::declaration::MapCssDeclaration;
use crate::mapcss::selectors::Selector;
use vstd::prelude::*;

verus! {

#[derive(Debug)]
pub struct MapCssRule {
    pub source_order: usize,
    pub selector: Selector,
    pub rules: Vec<MapCssDeclaration>,
}

impl MapCssRule {
    pub fn new(source_order: usize, selector: Selector, rules: Vec<MapCssDeclaration>) -> (rule:
        MapCssRule)
        ensures
            rule.source_order == source_order,
            rule.selector == selector,
            rule.rules == rules,
    {
        MapCssRule { source_order, selector, rules }
    }
}

} // verus!
