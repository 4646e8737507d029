//! The shape of a parsed JSON value, and how many elements it holds.

use vstd::prelude::*;
use crate::utils::cap;

verus! {

/// A parsed JSON value, reduced to its shape: a scalar (null, boolean,
/// number or string), an array of values, or an object with its member
/// values in order (member names are not elements).
pub enum JsonNode {
    Scalar,
    Array(Vec<JsonNode>),
    Object(Vec<JsonNode>),
}

/// Elements in a value: one for the value itself, plus the elements of
/// every item or member value it contains.
pub open spec fn element_count(v: JsonNode) -> nat
    decreases v, 0nat,
{
    match v {
        JsonNode::Scalar => 1,
        JsonNode::Array(items) => 1 + elements_in(items@, items@.len() as int),
        JsonNode::Object(items) => 1 + elements_in(items@, items@.len() as int),
    }
}

/// Elements in the first `k` values of `s`.
pub open spec fn elements_in(s: Seq<JsonNode>, k: int) -> nat
    decreases s, k,
{
    if k <= 0 || k > s.len() {
        0
    } else {
        elements_in(s, k - 1) + element_count(s[k - 1])
    }
}

/// One plus the elements of the values in `items`, counted on from
/// nothing (saturating at `u64::MAX`).
fn count_items(items: &Vec<JsonNode>) -> (r: u64)
    ensures
        r == cap(1 + elements_in(items@, items@.len() as int)),
    decreases items, 0nat,
{
    let mut total: u64 = 1;
    let mut i: usize = 0;
    while i < items.len()
        invariant
            i <= items@.len(),
            total == cap(1 + elements_in(items@, i as int)),
        decreases items@.len() - i,
    {
        proof {
            broadcast use vstd::std_specs::vec::axiom_vec_index_decreases;

            assert(decreases_to!(*items => items[i as int]));
        }
        let sub = count_elements(&items[i]);
        total = total.saturating_add(sub);
        i += 1;
    }
    total
}

/// Counts the elements of a value (saturating at `u64::MAX`).
pub fn count_elements(v: &JsonNode) -> (r: u64)
    ensures
        r == cap(element_count(*v)),
    decreases v, 1nat,
{
    match v {
        JsonNode::Scalar => 1,
        JsonNode::Array(items) => {
            assert(*v == JsonNode::Array(*items));
            count_items(items)
        },
        JsonNode::Object(items) => {
            assert(*v == JsonNode::Object(*items));
            count_items(items)
        },
    }
}

} // verus!
