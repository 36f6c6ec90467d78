//! The order of values: numbers whose units go together are ordered by
//! their fractions, and nothing else is ordered.
use crate::arith::comparable;
use crate::value::{Value, ValueView};
use core::cmp::Ordering;
use vstd::prelude::*;
use vstd::std_specs::cmp::PartialOrdSpecImpl;

verus! {

/// The order of two values, if they have one: that of their fractions, for
/// two numbers with the same unit or of which one has no unit.
pub open spec fn order(a: ValueView, b: ValueView) -> Option<Ordering> {
    match (a, b) {
        (ValueView::Numeric(x, au, _, _), ValueView::Numeric(y, bu, _, _)) => {
            if comparable(au, bu) {
                Some(
                    if x.lt(y) {
                        Ordering::Less
                    } else if y.lt(x) {
                        Ordering::Greater
                    } else {
                        Ordering::Equal
                    },
                )
            } else {
                None
            }
        },
        _ => None,
    }
}

impl Value {
    /// The order of two values, if they have one: see [`order`].
    pub fn compare(&self, other: &Value) -> (r: Option<Ordering>)
        ensures
            r == order(self@, other@),
    {
        match (self, other) {
            (Value::Numeric(x, au, _, _), Value::Numeric(y, bu, _, _)) => {
                if au.same(bu) || au.is_none() || bu.is_none() {
                    Some(
                        if x.lt(y) {
                            Ordering::Less
                        } else if y.lt(x) {
                            Ordering::Greater
                        } else {
                            Ordering::Equal
                        },
                    )
                } else {
                    None
                }
            },
            _ => None,
        }
    }
}

impl PartialOrd for Value {
    fn partial_cmp(&self, other: &Value) -> (r: Option<Ordering>) {
        self.compare(other)
    }
}

impl PartialOrdSpecImpl for Value {
    open spec fn obeys_partial_cmp_spec() -> bool {
        true
    }

    open spec fn partial_cmp_spec(&self, other: &Value) -> Option<Ordering> {
        order(self@, other@)
    }
}

} // verus!
