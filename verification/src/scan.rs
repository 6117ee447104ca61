//! The walk that detects, removes, or rejects forbidden keys.

use vstd::prelude::*;

use crate::drain::{discard, discard_all, discard_members};
use crate::error::Error;
use crate::json::{
    items_model, items_size, lemma_items_push, lemma_members_push, members_model, members_size,
    size, Json, JsonValue,
};
use crate::options::{Action, Options};
use crate::policy::{
    cleaned, cleaned_items, cleaned_members, constructor_found, constructor_key,
    constructor_violation, has_key, holds_prototype, hits, items_hit, kept, lemma_any_item_hits,
    lemma_cleaned_well_formed, lemma_ignore_both, lemma_items_hit_push, lemma_items_hit_reverse, lemma_kept_cleaned,
    lemma_kept_hit, lemma_members_hit_push, lemma_members_hit_reverse, members_hit,
    object_rejects, proto_found, proto_key, prototype_key, scan_gives, well_formed,
};

verus! {

/// The three keys the checks look for.
struct Keys {
    proto: String,
    constructor: String,
    prototype: String,
}

impl Keys {
    spec fn wf(&self) -> bool {
        &&& self.proto@ == proto_key()
        &&& self.constructor@ == constructor_key()
        &&& self.prototype@ == prototype_key()
    }

    fn new() -> (k: Keys)
        ensures
            k.wf(),
    {
        Keys {
            proto: "__proto__".to_owned(),
            constructor: "constructor".to_owned(),
            prototype: "prototype".to_owned(),
        }
    }
}

/// Whether some member has key `key`.
fn has_member(members: &Vec<(String, JsonValue)>, key: &String) -> (b: bool)
    ensures
        b == has_key(members_model(members@), key@),
{
    let ghost mm = members_model(members@);
    let mut i: usize = 0;
    while i < members.len()
        invariant
            0 <= i <= members.len(),
            mm == members_model(members@),
            forall|j: int| 0 <= j < i ==> #[trigger] mm[j].0 != key@,
        decreases members.len() - i,
    {
        if members[i].0 == *key {
            assert(mm[i as int].0 == key@);
            return true;
        }
        i += 1;
    }
    false
}

/// Whether some member named `constructor` is an object holding a
/// `prototype` key.
fn is_constructor_violation(members: &Vec<(String, JsonValue)>, keys: &Keys) -> (b: bool)
    requires
        keys.wf(),
    ensures
        b == constructor_violation(members_model(members@)),
{
    let ghost mm = members_model(members@);
    let mut i: usize = 0;
    while i < members.len()
        invariant
            0 <= i <= members.len(),
            keys.wf(),
            mm == members_model(members@),
            forall|j: int|
                0 <= j < i ==> !(mm[j].0 == constructor_key() && #[trigger] holds_prototype(
                    mm[j].1,
                )),
        decreases members.len() - i,
    {
        if members[i].0 == keys.constructor {
            if let JsonValue::Object(inner) = &members[i].1 {
                if has_member(inner, &keys.prototype) {
                    assert(mm[i as int].0 == constructor_key() && holds_prototype(mm[i as int].1));
                    return true;
                }
            }
        }
        i += 1;
    }
    false
}

/// The values of `items`, last first.
fn reversed(items: Vec<JsonValue>) -> (r: Vec<JsonValue>)
    ensures
        r@ == items@.reverse(),
        items_size(items_model(r@)) == items_size(items_model(items@)),
{
    let ghost orig = items@;
    let ghost n = orig.len();
    let mut items = items;
    let mut r: Vec<JsonValue> = Vec::new();
    while items.len() > 0
        invariant
            n == orig.len(),
            items@ == orig.subrange(0, n - r@.len()),
            r@.len() <= n,
            forall|i: int| 0 <= i < r@.len() ==> #[trigger] r@[i] == orig[n - 1 - i],
            items_size(items_model(items@)) + items_size(items_model(r@)) == items_size(
                items_model(orig),
            ),
        decreases items.len(),
    {
        let ghost before = items@;
        let x = items.pop().unwrap();
        proof {
            assert(before =~= items@.push(x));
            lemma_items_push(items@, x);
            lemma_items_push(r@, x);
        }
        r.push(x);
    }
    assert(r@ =~= orig.reverse());
    r
}

/// Checks one object and keeps the members the walk goes on into.
///
/// Gives `None` when the object stops the scan. Otherwise gives the kept
/// members, last first; the dropped ones are freed.
fn prepare_object(members: Vec<(String, JsonValue)>, o: &Options, keys: &Keys) -> (r: Option<
    Vec<(String, JsonValue)>,
>)
    requires
        keys.wf(),
    ensures
        r is None <==> object_rejects(*o, members_model(members@)),
        r matches Some(t) ==> {
            let mm = members_model(members@);
            &&& members_model(t@).reverse() == kept(
                mm,
                proto_found(*o, mm),
                constructor_found(*o, mm),
            )
            &&& members_size(members_model(t@)) <= members_size(mm)
        },
{
    let ghost mm = members_model(members@);
    let ghost n = mm.len();
    let p = o.proto_action != Action::Ignore && has_member(&members, &keys.proto);
    if p && (o.safe || o.proto_action == Action::Error) {
        discard_members(members);
        return None;
    }
    let c = o.constructor_action != Action::Ignore && is_constructor_violation(&members, keys);
    if c && (o.safe || o.constructor_action == Action::Error) {
        discard_members(members);
        return None;
    }
    assert(p == proto_found(*o, mm));
    assert(c == constructor_found(*o, mm));
    let mut members = members;
    let mut todo: Vec<(String, JsonValue)> = Vec::new();
    assert(members_model(todo@).reverse() =~= kept(mm.subrange(n as int, n as int), p, c));
    assert(members_model(members@) =~= mm.subrange(0, n as int));
    while members.len() > 0
        invariant
            keys.wf(),
            n == mm.len(),
            members@.len() <= n,
            members_model(members@) == mm.subrange(0, members@.len() as int),
            members_model(todo@).reverse() == kept(
                mm.subrange(members@.len() as int, n as int),
                p,
                c,
            ),
            members_size(members_model(members@)) + members_size(members_model(todo@))
                <= members_size(mm),
        decreases members.len(),
    {
        let ghost before = members@;
        let ghost j = members@.len() - 1;
        let (k, x) = members.pop().unwrap();
        proof {
            assert(before =~= members@.push((k, x)));
            lemma_members_push(members@, (k, x));
            assert(members_model(members@) =~= mm.subrange(0, j));
            assert(mm[j] == (k@, x@));
            assert(mm.subrange(j, n as int).drop_first() =~= mm.subrange(j + 1, n as int));
        }
        if (p && k == keys.proto) || (c && k == keys.constructor) {
            discard(x);
        } else {
            proof {
                lemma_members_push(todo@, (k, x));
                assert(members_model(todo@.push((k, x))).reverse() =~= seq![(k@, x@)]
                    + members_model(todo@).reverse());
            }
            todo.push((k, x));
        }
    }
    Some(todo)
}

/// An array or object the walk is inside of.
///
/// `done` (`finished`) holds the children already walked, cleaned; `todo`
/// (`pending`) the children still to walk, last first. The child being
/// walked sits between them.
enum Frame {
    Items { done: Vec<JsonValue>, todo: Vec<JsonValue> },
    Members {
        finished: Vec<(String, JsonValue)>,
        key: String,
        pending: Vec<(String, JsonValue)>,
    },
}

/// Where the walk is: about to enter a value, or leaving one it has cleaned.
enum Step {
    Down(JsonValue),
    Up(JsonValue),
}

/// The cleaned value of the container of `f`, once its current child is `c`.
spec fn close(f: Frame, c: Json, o: Options) -> Json {
    match f {
        Frame::Items { done, todo } => Json::Array(
            items_model(done@).push(c) + cleaned_items(items_model(todo@).reverse(), o),
        ),
        Frame::Members { finished: done, key, pending: todo } => Json::Object(
            members_model(done@).push((key@, c)) + cleaned_members(
                members_model(todo@).reverse(),
                o,
            ),
        ),
    }
}

/// The cleaned value of the whole tree, once the current value is `c`.
spec fn unwind(stack: Seq<Frame>, c: Json, o: Options) -> Json
    decreases stack.len(),
{
    if stack.len() == 0 {
        c
    } else {
        unwind(stack.drop_last(), close(stack.last(), c, o), o)
    }
}

/// Whether a child of `f` still to walk hits.
spec fn frame_hits(f: Frame, o: Options) -> bool {
    match f {
        Frame::Items { todo, .. } => items_hit(items_model(todo@), o),
        Frame::Members { pending: todo, .. } => members_hit(members_model(todo@), o),
    }
}

spec fn stack_hits(stack: Seq<Frame>, o: Options) -> bool {
    exists|j: int| 0 <= j < stack.len() && #[trigger] frame_hits(stack[j], o)
}

spec fn frame_weight(f: Frame) -> nat {
    match f {
        Frame::Items { todo, .. } => 2 * items_size(items_model(todo@)) + 1,
        Frame::Members { pending: todo, .. } => 2 * members_size(members_model(todo@)) + 1,
    }
}

spec fn stack_weight(stack: Seq<Frame>) -> nat
    decreases stack.len(),
{
    if stack.len() == 0 {
        0
    } else {
        stack_weight(stack.drop_last()) + frame_weight(stack.last())
    }
}

/// The work left to the walk.
spec fn step_weight(stack: Seq<Frame>, step: Step) -> nat {
    stack_weight(stack) + match step {
        Step::Down(v) => 2 * size(v@),
        Step::Up(_) => 1,
    }
}

/// What the walk keeps true of the tree `orig` it walks.
spec fn step_inv(stack: Seq<Frame>, step: Step, orig: Json, o: Options) -> bool {
    match step {
        Step::Down(v) => {
            &&& hits(orig, o) == (hits(v@, o) || stack_hits(stack, o))
            &&& cleaned(orig, o) == unwind(stack, cleaned(v@, o), o)
        },
        Step::Up(c) => {
            &&& hits(orig, o) == stack_hits(stack, o)
            &&& cleaned(orig, o) == unwind(stack, c@, o)
        },
    }
}

proof fn lemma_stack_push(stack: Seq<Frame>, f: Frame, c: Json, o: Options)
    ensures
        unwind(stack.push(f), c, o) == unwind(stack, close(f, c, o), o),
        stack_hits(stack.push(f), o) == (stack_hits(stack, o) || frame_hits(f, o)),
        stack_weight(stack.push(f)) == stack_weight(stack) + frame_weight(f),
{
    let t = stack.push(f);
    assert(t.drop_last() =~= stack);
    if stack_hits(t, o) {
        let j = choose|j: int| 0 <= j < t.len() && #[trigger] frame_hits(t[j], o);
        if j < stack.len() {
            assert(stack[j] == t[j]);
        }
    }
    if stack_hits(stack, o) {
        let j = choose|j: int| 0 <= j < stack.len() && #[trigger] frame_hits(stack[j], o);
        assert(t[j] == stack[j]);
    }
    if frame_hits(f, o) {
        assert(t[stack.len() as int] == f);
    }
}

/// Frees everything the walk holds.
fn discard_frames(stack: Vec<Frame>) {
    let mut stack = stack;
    while stack.len() > 0
        decreases stack.len(),
    {
        match stack.pop().unwrap() {
            Frame::Items { done, todo } => {
                discard_all(done);
                discard_all(todo);
            },
            Frame::Members { finished: done, key: _, pending: todo } => {
                discard_members(done);
                discard_members(todo);
            },
        }
    }
}

/// Walks `value`, removing or rejecting what `o` asks for, without recursion.
///
/// Gives `None` when some object stops the scan, and the cleaned value
/// otherwise.
fn walk(value: JsonValue, o: &Options, keys: &Keys) -> (r: Option<JsonValue>)
    requires
        keys.wf(),
    ensures
        r is None <==> hits(value@, *o),
        r matches Some(c) ==> c@ == cleaned(value@, *o),
{
    let ghost orig = value@;
    let mut stack: Vec<Frame> = Vec::new();
    let mut step = Step::Down(value);
    assert(stack_hits(stack@, *o) == false);
    #[verifier::loop_isolation(false)]
    loop
        invariant
            keys.wf(),
            step_inv(stack@, step, orig, *o),
        decreases step_weight(stack@, step),
    {
        let ghost old_stack = stack@;
        match step {
            Step::Down(v) => {
                match v {
                    JsonValue::Array(items) => {
                        let ghost im = items_model(items@);
                        if items.len() == 0 {
                            proof {
                                assert(cleaned_items(im, *o) =~= im);
                            }
                            step = Step::Up(JsonValue::Array(items));
                        } else {
                            let mut todo = reversed(items);
                            let ghost full = todo@;
                            let x = todo.pop().unwrap();
                            let f = Frame::Items { done: Vec::new(), todo };
                            proof {
                                assert(full =~= todo@.push(x));
                                lemma_items_push(todo@, x);
                                assert(items_model(full) =~= im.reverse());
                                lemma_items_hit_reverse(im, *o);
                                lemma_any_item_hits(im, *o);
                                lemma_items_hit_push(items_model(todo@), x@, *o);
                                lemma_stack_push(stack@, f, cleaned(x@, *o), *o);
                                assert(items_model(todo@).reverse() =~= im.drop_first());
                                assert(items_model(Seq::<JsonValue>::empty()).push(
                                    cleaned(x@, *o),
                                ) + cleaned_items(im.drop_first(), *o) =~= cleaned_items(im, *o));
                            }
                            stack.push(f);
                            step = Step::Down(x);
                        }
                    },
                    JsonValue::Object(members) => {
                        let ghost mm = members_model(members@);
                        let ghost dp = proto_found(*o, mm);
                        let ghost dc = constructor_found(*o, mm);
                        match prepare_object(members, o, keys) {
                            None => {
                                assert(hits(v@, *o)) by {
                                    assert(v@ == Json::Object(mm));
                                }
                                discard_frames(stack);
                                return None;
                            },
                            Some(todo) => {
                                let mut todo = todo;
                                proof {
                                    lemma_kept_cleaned(mm, dp, dc, *o);
                                    lemma_kept_hit(mm, dp, dc, *o);
                                    lemma_members_hit_reverse(members_model(todo@), *o);
                                }
                                if todo.len() == 0 {
                                    proof {
                                        assert(members_model(todo@).reverse() =~= Seq::empty());
                                        assert(cleaned_members(Seq::empty(), *o) =~= members_model(
                                            todo@,
                                        ));
                                    }
                                    step = Step::Up(JsonValue::Object(todo));
                                } else {
                                    let ghost full = todo@;
                                    let (k, x) = todo.pop().unwrap();
                                    let f = Frame::Members { finished: Vec::new(), key: k, pending: todo };
                                    proof {
                                        assert(full =~= todo@.push((k, x)));
                                        lemma_members_push(todo@, (k, x));
                                        lemma_members_hit_push(members_model(todo@), (k@, x@), *o);
                                        lemma_stack_push(stack@, f, cleaned(x@, *o), *o);
                                        let rest = members_model(todo@).reverse();
                                        assert(members_model(full).reverse() =~= seq![(k@, x@)]
                                            + rest);
                                        assert(members_model(Seq::<(String, JsonValue)>::empty()).push(
                                            (k@, cleaned(x@, *o)),
                                        ) + cleaned_members(rest, *o) =~= cleaned_members(
                                            seq![(k@, x@)] + rest,
                                            *o,
                                        ));
                                    }
                                    stack.push(f);
                                    step = Step::Down(x);
                                }
                            },
                        }
                    },
                    other => {
                        step = Step::Up(other);
                    },
                }
            },
            Step::Up(c) => {
                match stack.pop() {
                    None => {
                        assert(stack@.len() == 0);
                        assert(!stack_hits(stack@, *o));
                        assert(unwind(stack@, c@, *o) == c@);
                        return Some(c);
                    },
                    Some(Frame::Items { done, todo }) => {
                        let mut done = done;
                        let mut todo = todo;
                        let ghost f = Frame::Items { done, todo };
                        proof {
                            assert(old_stack =~= stack@.push(f));
                            lemma_stack_push(stack@, f, c@, *o);
                            lemma_items_push(done@, c);
                        }
                        done.push(c);
                        if todo.len() == 0 {
                            proof {
                                assert(items_model(todo@).reverse() =~= Seq::empty());
                                assert(items_model(done@) =~= items_model(done@) + cleaned_items(
                                    Seq::empty(),
                                    *o,
                                ));
                            }
                            step = Step::Up(JsonValue::Array(done));
                        } else {
                            let ghost full = todo@;
                            let x = todo.pop().unwrap();
                            let g = Frame::Items { done, todo };
                            proof {
                                assert(full =~= todo@.push(x));
                                lemma_items_push(todo@, x);
                                lemma_items_hit_push(items_model(todo@), x@, *o);
                                lemma_stack_push(stack@, g, cleaned(x@, *o), *o);
                                let rest = items_model(todo@).reverse();
                                assert(items_model(full).reverse() =~= seq![x@] + rest);
                                assert(items_model(done@).push(cleaned(x@, *o)) + cleaned_items(
                                    rest,
                                    *o,
                                ) =~= items_model(done@) + cleaned_items(seq![x@] + rest, *o));
                            }
                            stack.push(g);
                            step = Step::Down(x);
                        }
                    },
                    Some(Frame::Members { finished: done, key, pending: todo }) => {
                        let mut done = done;
                        let mut todo = todo;
                        let ghost f = Frame::Members { finished: done, key, pending: todo };
                        proof {
                            assert(old_stack =~= stack@.push(f));
                            lemma_stack_push(stack@, f, c@, *o);
                            lemma_members_push(done@, (key, c));
                        }
                        done.push((key, c));
                        if todo.len() == 0 {
                            proof {
                                assert(members_model(todo@).reverse() =~= Seq::empty());
                                assert(members_model(done@) =~= members_model(done@)
                                    + cleaned_members(Seq::empty(), *o));
                            }
                            step = Step::Up(JsonValue::Object(done));
                        } else {
                            let ghost full = todo@;
                            let (k, x) = todo.pop().unwrap();
                            let g = Frame::Members { finished: done, key: k, pending: todo };
                            proof {
                                assert(full =~= todo@.push((k, x)));
                                lemma_members_push(todo@, (k, x));
                                lemma_members_hit_push(members_model(todo@), (k@, x@), *o);
                                lemma_stack_push(stack@, g, cleaned(x@, *o), *o);
                                let rest = members_model(todo@).reverse();
                                assert(members_model(full).reverse() =~= seq![(k@, x@)] + rest);
                                assert(members_model(done@).push((k@, cleaned(x@, *o)))
                                    + cleaned_members(rest, *o) =~= members_model(done@)
                                    + cleaned_members(seq![(k@, x@)] + rest, *o));
                            }
                            stack.push(g);
                            step = Step::Down(x);
                        }
                    },
                }
            },
        }
    }
}

/// Walks a parsed value and applies the prototype-poisoning checks.
///
/// Scalars and `null` are returned unchanged; arrays and objects are walked
/// at every depth, without recursion. Returns `Ok(Some(value))` when nothing
/// stops the scan, with every found key whose action is [`Action::Remove`]
/// removed; `Ok(None)` when a violation is found and `safe` is on; and
/// [`Error::ForbiddenProperty`] when one is found under [`Action::Error`]
/// with `safe` off. With both actions [`Action::Ignore`] the value is
/// returned as it is, unwalked.
pub fn scan(value: JsonValue, options: &Options) -> (res: Result<Option<JsonValue>, Error>)
    ensures
        scan_gives(value@, *options, res),
        well_formed(value@) ==> (res matches Ok(Some(out)) ==> well_formed(out@)),
{
    proof {
        if well_formed(value@) {
            lemma_cleaned_well_formed(value@, *options);
        }
    }
    if options.proto_action == Action::Ignore && options.constructor_action == Action::Ignore {
        proof {
            lemma_ignore_both(value@, *options);
        }
        return Ok(Some(value));
    }
    let keys = Keys::new();
    match walk(value, options, &keys) {
        Some(cleaned_value) => Ok(Some(cleaned_value)),
        None => {
            if options.safe {
                Ok(None)
            } else {
                Err(Error::ForbiddenProperty)
            }
        },
    }
}

} // verus!
