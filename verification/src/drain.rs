//! Taking trees apart without recursion.
//!
//! Dropping a `JsonValue` recurses once per level of nesting. A tree that a
//! caller built can be far deeper than the stack allows, so every subtree the
//! scan throws away goes through [`discard_all`], which frees it level by
//! level from a worklist.

use vstd::prelude::*;

use crate::json::{
    items_model, items_size, lemma_items_push, lemma_members_push, members_model, members_size,
    model, size, JsonValue,
};

verus! {

/// Frees every tree in `work`, one node at a time.
pub fn discard_all(work: Vec<JsonValue>) {
    let mut work = work;
    while work.len() > 0
        decreases items_size(items_model(work@)),
    {
        let ghost before = work@;
        let x = work.pop().unwrap();
        proof {
            assert(before =~= work@.push(x));
            lemma_items_push(work@, x);
        }
        let ghost bound = items_size(items_model(before));
        match x {
            JsonValue::Array(items) => {
                let mut items = items;
                while items.len() > 0
                    invariant
                        items_size(items_model(work@)) + items_size(items_model(items@)) < bound,
                    decreases items.len(),
                {
                    let ghost rest = items@;
                    let y = items.pop().unwrap();
                    proof {
                        assert(rest =~= items@.push(y));
                        lemma_items_push(items@, y);
                        lemma_items_push(work@, y);
                    }
                    work.push(y);
                }
            },
            JsonValue::Object(members) => {
                let mut members = members;
                while members.len() > 0
                    invariant
                        items_size(items_model(work@)) + members_size(members_model(members@))
                            < bound,
                    decreases members.len(),
                {
                    let ghost rest = members@;
                    let (_, y) = members.pop().unwrap();
                    proof {
                        assert(rest =~= members@.push((rest.last().0, y)));
                        lemma_members_push(members@, (rest.last().0, y));
                        lemma_items_push(work@, y);
                    }
                    work.push(y);
                }
            },
            _ => {},
        }
    }
}

/// Frees one tree.
pub fn discard(v: JsonValue) {
    let mut work: Vec<JsonValue> = Vec::new();
    work.push(v);
    discard_all(work);
}

/// Frees the values of some object members.
pub fn discard_members(members: Vec<(String, JsonValue)>) {
    let mut members = members;
    let mut work: Vec<JsonValue> = Vec::new();
    while members.len() > 0
        decreases members.len(),
    {
        let (_, y) = members.pop().unwrap();
        work.push(y);
    }
    discard_all(work);
}

} // verus!
