//! What a scan decides, stated over the model of a JSON value.
//!
//! An object *rejects* when one of its forbidden keys is found and the
//! action for it is [`Action::Error`], or `safe` is on. Otherwise the found
//! keys are dropped (their action is [`Action::Remove`]) and the walk goes on
//! into the members that are kept. A value *hits* when some object in it,
//! among those the walk reaches, rejects.

use vstd::prelude::*;

use crate::error::Error;
use crate::json::{Json, JsonValue};
use crate::options::{Action, Options};

verus! {

/// The key that reaches an object's prototype.
pub open spec fn proto_key() -> Seq<char> {
    "__proto__"@
}

/// The key that names an object's constructor.
pub open spec fn constructor_key() -> Seq<char> {
    "constructor"@
}

/// The key that, under `constructor`, reaches the prototype.
pub open spec fn prototype_key() -> Seq<char> {
    "prototype"@
}

/// Whether some member of `m` has key `k`.
pub open spec fn has_key(m: Seq<(Seq<char>, Json)>, k: Seq<char>) -> bool {
    exists|i: int| 0 <= i < m.len() && #[trigger] m[i].0 == k
}

/// Whether `v` is an object holding a `prototype` key.
pub open spec fn holds_prototype(v: Json) -> bool {
    match v {
        Json::Object(inner) => has_key(inner, prototype_key()),
        _ => false,
    }
}

/// Whether some member of `m` has key `constructor` and a value that is an
/// object holding a `prototype` key.
pub open spec fn constructor_violation(m: Seq<(Seq<char>, Json)>) -> bool {
    exists|i: int|
        0 <= i < m.len() && m[i].0 == constructor_key() && #[trigger] holds_prototype(m[i].1)
}

/// Whether the `__proto__` check is on and finds the key in `m`.
pub open spec fn proto_found(o: Options, m: Seq<(Seq<char>, Json)>) -> bool {
    o.proto_action != Action::Ignore && has_key(m, proto_key())
}

/// Whether the `constructor` check is on and finds a violation in `m`.
pub open spec fn constructor_found(o: Options, m: Seq<(Seq<char>, Json)>) -> bool {
    o.constructor_action != Action::Ignore && constructor_violation(m)
}

/// Whether a finding under action `a` stops the scan.
pub open spec fn stops(o: Options, a: Action) -> bool {
    o.safe || a == Action::Error
}

/// Whether the object with members `m` stops the scan.
pub open spec fn object_rejects(o: Options, m: Seq<(Seq<char>, Json)>) -> bool {
    ||| proto_found(o, m) && stops(o, o.proto_action)
    ||| constructor_found(o, m) && stops(o, o.constructor_action)
}

/// Whether a member with key `k` is dropped, given what was found.
pub open spec fn is_dropped(k: Seq<char>, drop_proto: bool, drop_constructor: bool) -> bool {
    (drop_proto && k == proto_key()) || (drop_constructor && k == constructor_key())
}

/// The members of `s` that are not dropped, in order.
pub open spec fn kept(
    s: Seq<(Seq<char>, Json)>,
    drop_proto: bool,
    drop_constructor: bool,
) -> Seq<(Seq<char>, Json)>
    decreases s.len(),
{
    if s.len() == 0 {
        s
    } else {
        let rest = kept(s.drop_first(), drop_proto, drop_constructor);
        if is_dropped(s[0].0, drop_proto, drop_constructor) {
            rest
        } else {
            seq![s[0]] + rest
        }
    }
}

/// Whether the walk of `v` under `o` meets an object that stops the scan.
pub open spec fn hits(v: Json, o: Options) -> bool
    decreases v,
{
    match v {
        Json::Array(items) => any_item_hits(items, o),
        Json::Object(m) => {
            ||| object_rejects(o, m)
            ||| any_kept_member_hits(m, proto_found(o, m), constructor_found(o, m), o)
        },
        _ => false,
    }
}

/// Whether some value of `s` hits.
pub open spec fn any_item_hits(s: Seq<Json>, o: Options) -> bool
    decreases s,
{
    if s.len() == 0 {
        false
    } else {
        hits(s[0], o) || any_item_hits(s.drop_first(), o)
    }
}

/// Whether some member of `s` that is not dropped has a value that hits.
pub open spec fn any_kept_member_hits(
    s: Seq<(Seq<char>, Json)>,
    drop_proto: bool,
    drop_constructor: bool,
    o: Options,
) -> bool
    decreases s,
{
    if s.len() == 0 {
        false
    } else {
        (!is_dropped(s[0].0, drop_proto, drop_constructor) && hits(s[0].1, o))
            || any_kept_member_hits(s.drop_first(), drop_proto, drop_constructor, o)
    }
}

/// `v` with every found forbidden member removed, at every depth.
pub open spec fn cleaned(v: Json, o: Options) -> Json
    decreases v,
{
    match v {
        Json::Array(items) => Json::Array(cleaned_items(items, o)),
        Json::Object(m) => Json::Object(
            kept(cleaned_members(m, o), proto_found(o, m), constructor_found(o, m)),
        ),
        _ => v,
    }
}

/// Each value of `s`, cleaned.
pub open spec fn cleaned_items(s: Seq<Json>, o: Options) -> Seq<Json>
    decreases s,
{
    Seq::new(
        s.len(),
        |i: int|
            if 0 <= i < s.len() {
                cleaned(s[i], o)
            } else {
                Json::Null
            },
    )
}

/// Each member of `s`, its value cleaned.
pub open spec fn cleaned_members(s: Seq<(Seq<char>, Json)>, o: Options) -> Seq<(Seq<char>, Json)>
    decreases s,
{
    Seq::new(
        s.len(),
        |i: int|
            if 0 <= i < s.len() {
                (s[i].0, cleaned(s[i].1, o))
            } else {
                (Seq::empty(), Json::Null)
            },
    )
}

} // verus!

verus! {

/// Whether some value among the members `s` hits.
pub open spec fn members_hit(s: Seq<(Seq<char>, Json)>, o: Options) -> bool {
    exists|j: int| 0 <= j < s.len() && #[trigger] hits(s[j].1, o)
}

/// Whether some value among `s` hits.
pub open spec fn items_hit(s: Seq<Json>, o: Options) -> bool {
    exists|j: int| 0 <= j < s.len() && #[trigger] hits(s[j], o)
}

/// Cleaning values and dropping members can be done in either order.
pub proof fn lemma_kept_cleaned(
    s: Seq<(Seq<char>, Json)>,
    drop_proto: bool,
    drop_constructor: bool,
    o: Options,
)
    ensures
        kept(cleaned_members(s, o), drop_proto, drop_constructor) == cleaned_members(
            kept(s, drop_proto, drop_constructor),
            o,
        ),
    decreases s.len(),
{
    let c = cleaned_members(s, o);
    if s.len() == 0 {
        assert(cleaned_members(kept(s, drop_proto, drop_constructor), o) =~= c);
    } else {
        let t = s.drop_first();
        lemma_kept_cleaned(t, drop_proto, drop_constructor, o);
        assert(c.drop_first() =~= cleaned_members(t, o));
        let kt = kept(t, drop_proto, drop_constructor);
        if !is_dropped(s[0].0, drop_proto, drop_constructor) {
            assert(cleaned_members(seq![s[0]] + kt, o) =~= seq![c[0]] + cleaned_members(kt, o));
        }
    }
}

/// The kept members that hit are exactly the members that are kept and hit.
pub proof fn lemma_kept_hit(
    s: Seq<(Seq<char>, Json)>,
    drop_proto: bool,
    drop_constructor: bool,
    o: Options,
)
    ensures
        any_kept_member_hits(s, drop_proto, drop_constructor, o) == members_hit(
            kept(s, drop_proto, drop_constructor),
            o,
        ),
    decreases s.len(),
{
    if s.len() > 0 {
        let t = s.drop_first();
        lemma_kept_hit(t, drop_proto, drop_constructor, o);
        let kt = kept(t, drop_proto, drop_constructor);
        let k = kept(s, drop_proto, drop_constructor);
        if !is_dropped(s[0].0, drop_proto, drop_constructor) {
            assert(k == seq![s[0]] + kt);
            lemma_members_hit_cons(s[0], kt, o);
        }
    }
}

/// A value hits among `x` and `s` exactly when it hits in one of them.
pub proof fn lemma_members_hit_cons(x: (Seq<char>, Json), s: Seq<(Seq<char>, Json)>, o: Options)
    ensures
        members_hit(seq![x] + s, o) == (hits(x.1, o) || members_hit(s, o)),
{
    let k = seq![x] + s;
    if members_hit(k, o) {
        let j = choose|j: int| 0 <= j < k.len() && #[trigger] hits(k[j].1, o);
        if j > 0 {
            assert(s[j - 1] == k[j]);
        }
    }
    if members_hit(s, o) {
        let j = choose|j: int| 0 <= j < s.len() && #[trigger] hits(s[j].1, o);
        assert(k[j + 1] == s[j]);
    }
    if hits(x.1, o) {
        assert(k[0] == x);
    }
}

/// An array hits exactly when one of its items does.
pub proof fn lemma_any_item_hits(s: Seq<Json>, o: Options)
    ensures
        any_item_hits(s, o) == items_hit(s, o),
    decreases s.len(),
{
    if s.len() > 0 {
        let t = s.drop_first();
        lemma_any_item_hits(t, o);
        if items_hit(s, o) {
            let j = choose|j: int| 0 <= j < s.len() && #[trigger] hits(s[j], o);
            if j > 0 {
                assert(t[j - 1] == s[j]);
            }
        }
        if items_hit(t, o) {
            let j = choose|j: int| 0 <= j < t.len() && #[trigger] hits(t[j], o);
            assert(s[j + 1] == t[j]);
        }
        if hits(s[0], o) {
            assert(items_hit(s, o));
        }
    }
}

/// Dropping nothing keeps every member.
pub proof fn lemma_kept_all(s: Seq<(Seq<char>, Json)>)
    ensures
        kept(s, false, false) == s,
    decreases s.len(),
{
    if s.len() > 0 {
        lemma_kept_all(s.drop_first());
        assert(seq![s[0]] + s.drop_first() =~= s);
    }
}

/// With both checks off, nothing hits and cleaning changes nothing.
pub proof fn lemma_ignore_both(v: Json, o: Options)
    requires
        o.proto_action == Action::Ignore,
        o.constructor_action == Action::Ignore,
    ensures
        !hits(v, o),
        cleaned(v, o) == v,
    decreases v,
{
    match v {
        Json::Array(items) => {
            assert forall|i: int| 0 <= i < items.len() implies !hits(items[i], o) && cleaned(
                items[i],
                o,
            ) == items[i] by {
                lemma_ignore_both(items[i], o);
            }
            assert(cleaned_items(items, o) =~= items);
            lemma_any_item_hits(items, o);
        },
        Json::Object(m) => {
            assert forall|i: int| 0 <= i < m.len() implies !hits(m[i].1, o) && cleaned(
                m[i].1,
                o,
            ) == m[i].1 by {
                lemma_ignore_both(m[i].1, o);
            }
            assert(cleaned_members(m, o) =~= m);
            lemma_kept_all(cleaned_members(m, o));
            lemma_kept_all(m);
            lemma_kept_hit(m, false, false, o);
        },
        _ => {},
    }
}

} // verus!

verus! {

/// A value hits among `s` and `x` exactly when it hits in one of them.
pub proof fn lemma_items_hit_push(s: Seq<Json>, x: Json, o: Options)
    ensures
        items_hit(s.push(x), o) == (items_hit(s, o) || hits(x, o)),
{
    let t = s.push(x);
    if items_hit(t, o) {
        let j = choose|j: int| 0 <= j < t.len() && #[trigger] hits(t[j], o);
        if j < s.len() {
            assert(s[j] == t[j]);
        }
    }
    if items_hit(s, o) {
        let j = choose|j: int| 0 <= j < s.len() && #[trigger] hits(s[j], o);
        assert(t[j] == s[j]);
    }
    if hits(x, o) {
        assert(t[s.len() as int] == x);
    }
}

/// Order does not matter to whether a value among `s` hits.
pub proof fn lemma_items_hit_reverse(s: Seq<Json>, o: Options)
    ensures
        items_hit(s.reverse(), o) == items_hit(s, o),
{
    let r = s.reverse();
    if items_hit(r, o) {
        let j = choose|j: int| 0 <= j < r.len() && #[trigger] hits(r[j], o);
        assert(s[s.len() - 1 - j] == r[j]);
    }
    if items_hit(s, o) {
        let j = choose|j: int| 0 <= j < s.len() && #[trigger] hits(s[j], o);
        assert(r[s.len() - 1 - j] == s[j]);
    }
}

/// A member value hits among `s` and `x` exactly when it hits in one of them.
pub proof fn lemma_members_hit_push(s: Seq<(Seq<char>, Json)>, x: (Seq<char>, Json), o: Options)
    ensures
        members_hit(s.push(x), o) == (members_hit(s, o) || hits(x.1, o)),
{
    let t = s.push(x);
    if members_hit(t, o) {
        let j = choose|j: int| 0 <= j < t.len() && #[trigger] hits(t[j].1, o);
        if j < s.len() {
            assert(s[j] == t[j]);
        }
    }
    if members_hit(s, o) {
        let j = choose|j: int| 0 <= j < s.len() && #[trigger] hits(s[j].1, o);
        assert(t[j] == s[j]);
    }
    if hits(x.1, o) {
        assert(t[s.len() as int] == x);
    }
}

/// Order does not matter to whether a member value among `s` hits.
pub proof fn lemma_members_hit_reverse(s: Seq<(Seq<char>, Json)>, o: Options)
    ensures
        members_hit(s.reverse(), o) == members_hit(s, o),
{
    let r = s.reverse();
    if members_hit(r, o) {
        let j = choose|j: int| 0 <= j < r.len() && #[trigger] hits(r[j].1, o);
        assert(s[s.len() - 1 - j] == r[j]);
    }
    if members_hit(s, o) {
        let j = choose|j: int| 0 <= j < s.len() && #[trigger] hits(s[j].1, o);
        assert(r[s.len() - 1 - j] == s[j]);
    }
}

} // verus!


verus! {

/// Whether `res` is what a scan of `v` under `o` gives: the cleaned value
/// when nothing stops the scan, and otherwise `Ok(None)` under `safe` and
/// [`Error::ForbiddenProperty`] without it.
pub open spec fn scan_gives(v: Json, o: Options, res: Result<Option<JsonValue>, Error>) -> bool {
    match res {
        Ok(Some(out)) => !hits(v, o) && out@ == cleaned(v, o),
        Ok(None) => hits(v, o) && o.safe,
        Err(e) => hits(v, o) && !o.safe && e is ForbiddenProperty,
    }
}

/// Whether neither action removes keys.
pub open spec fn removes_nothing(o: Options) -> bool {
    o.safe || (o.proto_action != Action::Remove && o.constructor_action != Action::Remove)
}

/// When no action removes keys and nothing stops the scan, cleaning changes
/// nothing.
pub proof fn lemma_clean_without_removal(v: Json, o: Options)
    requires
        removes_nothing(o),
        !hits(v, o),
    ensures
        cleaned(v, o) == v,
    decreases v,
{
    match v {
        Json::Array(items) => {
            lemma_any_item_hits(items, o);
            assert forall|i: int| 0 <= i < items.len() implies cleaned(items[i], o) == items[i] by {
                if hits(items[i], o) {
                    assert(items_hit(items, o));
                }
                lemma_clean_without_removal(items[i], o);
            }
            assert(cleaned_items(items, o) =~= items);
        },
        Json::Object(m) => {
            assert(!proto_found(o, m));
            assert(!constructor_found(o, m));
            lemma_kept_all(m);
            lemma_kept_hit(m, false, false, o);
            assert forall|i: int| 0 <= i < m.len() implies cleaned(m[i].1, o) == m[i].1 by {
                if hits(m[i].1, o) {
                    assert(members_hit(m, o));
                }
                lemma_clean_without_removal(m[i].1, o);
            }
            assert(cleaned_members(m, o) =~= m);
            lemma_kept_all(cleaned_members(m, o));
        },
        _ => {},
    }
}

} // verus!

verus! {

/// Cleaning member values keeps every key where it was.
pub proof fn lemma_cleaned_members_keys(m: Seq<(Seq<char>, Json)>, o: Options, k: Seq<char>)
    ensures
        has_key(cleaned_members(m, o), k) == has_key(m, k),
{
    let c = cleaned_members(m, o);
    if has_key(c, k) {
        let i = choose|i: int| 0 <= i < c.len() && #[trigger] c[i].0 == k;
        assert(m[i].0 == k);
    }
    if has_key(m, k) {
        let i = choose|i: int| 0 <= i < m.len() && #[trigger] m[i].0 == k;
        assert(c[i].0 == k);
    }
}

/// A kept member is a member of the input that is not dropped.
pub proof fn lemma_kept_keys(
    s: Seq<(Seq<char>, Json)>,
    drop_proto: bool,
    drop_constructor: bool,
    k: Seq<char>,
)
    ensures
        has_key(kept(s, drop_proto, drop_constructor), k) ==> has_key(s, k) && !is_dropped(
            k,
            drop_proto,
            drop_constructor,
        ),
    decreases s.len(),
{
    if s.len() > 0 {
        let t = s.drop_first();
        lemma_kept_keys(t, drop_proto, drop_constructor, k);
        let kt = kept(t, drop_proto, drop_constructor);
        let ks = kept(s, drop_proto, drop_constructor);
        if has_key(t, k) {
            let i = choose|i: int| 0 <= i < t.len() && #[trigger] t[i].0 == k;
            assert(s[i + 1].0 == k);
        }
        if !is_dropped(s[0].0, drop_proto, drop_constructor) {
            assert(ks == seq![s[0]] + kt);
            assert(ks.drop_first() =~= kt);
            if has_key(ks, k) {
                let j = choose|j: int| 0 <= j < ks.len() && #[trigger] ks[j].0 == k;
                if j > 0 {
                    assert(kt[j - 1].0 == k);
                }
            }
        }
    } else {
        assert(kept(s, drop_proto, drop_constructor) =~= s);
    }
}

} // verus!

verus! {

/// Every kept member is a member of the input that is not dropped.
pub proof fn lemma_kept_elements(s: Seq<(Seq<char>, Json)>, drop_proto: bool, drop_constructor: bool)
    ensures
        forall|j: int|
            0 <= j < kept(s, drop_proto, drop_constructor).len() ==> !is_dropped(
                kept(s, drop_proto, drop_constructor)[j].0,
                drop_proto,
                drop_constructor,
            ) && exists|i: int|
                0 <= i < s.len() && s[i] == #[trigger] kept(s, drop_proto, drop_constructor)[j],
    decreases s.len(),
{
    if s.len() > 0 {
        let t = s.drop_first();
        lemma_kept_elements(t, drop_proto, drop_constructor);
        let kt = kept(t, drop_proto, drop_constructor);
        let ks = kept(s, drop_proto, drop_constructor);
        assert forall|j: int| 0 <= j < ks.len() implies !is_dropped(
            ks[j].0,
            drop_proto,
            drop_constructor,
        ) && exists|i: int| 0 <= i < s.len() && s[i] == #[trigger] ks[j] by {
            if is_dropped(s[0].0, drop_proto, drop_constructor) {
                let i = choose|i: int| 0 <= i < t.len() && t[i] == #[trigger] kt[j];
                assert(s[i + 1] == ks[j]);
            } else if j == 0 {
                assert(s[0] == ks[j]);
            } else {
                assert(ks[j] == kt[j - 1]);
                let i = choose|i: int| 0 <= i < t.len() && t[i] == #[trigger] kt[j - 1];
                assert(s[i + 1] == ks[j]);
            }
        }
    }
}

/// Every member of the input that is not dropped is kept.
pub proof fn lemma_kept_contains(s: Seq<(Seq<char>, Json)>, drop_proto: bool, drop_constructor: bool)
    ensures
        forall|i: int|
            0 <= i < s.len() && !is_dropped(s[i].0, drop_proto, drop_constructor) ==> exists|j: int|
                0 <= j < kept(s, drop_proto, drop_constructor).len() && kept(
                    s,
                    drop_proto,
                    drop_constructor,
                )[j] == #[trigger] s[i],
    decreases s.len(),
{
    if s.len() > 0 {
        let t = s.drop_first();
        lemma_kept_contains(t, drop_proto, drop_constructor);
        let kt = kept(t, drop_proto, drop_constructor);
        let ks = kept(s, drop_proto, drop_constructor);
        assert forall|i: int|
            0 <= i < s.len() && !is_dropped(s[i].0, drop_proto, drop_constructor) implies exists|j: int|
            0 <= j < ks.len() && ks[j] == #[trigger] s[i] by {
            if i == 0 {
                assert(ks[0] == s[0]);
            } else {
                assert(t[i - 1] == s[i]);
                let j = choose|j: int| 0 <= j < kt.len() && kt[j] == #[trigger] t[i - 1];
                if is_dropped(s[0].0, drop_proto, drop_constructor) {
                    assert(ks[j] == s[i]);
                } else {
                    assert(ks[j + 1] == s[i]);
                }
            }
        }
    }
}

/// Cleaning never makes a value an object holding `prototype`.
pub proof fn lemma_cleaned_holds_prototype(x: Json, o: Options)
    ensures
        holds_prototype(cleaned(x, o)) ==> holds_prototype(x),
{
    if let Json::Object(inner) = x {
        let dpi = proto_found(o, inner);
        let dci = constructor_found(o, inner);
        lemma_kept_keys(cleaned_members(inner, o), dpi, dci, prototype_key());
        lemma_cleaned_members_keys(inner, o, prototype_key());
    }
}

/// The two forbidden keys differ.
pub proof fn lemma_keys_differ()
    ensures
        proto_key() != constructor_key(),
        proto_key() != prototype_key(),
        constructor_key() != prototype_key(),
{
    reveal_strlit("__proto__");
    reveal_strlit("constructor");
    reveal_strlit("prototype");
    assert(proto_key()[0] != constructor_key()[0]);
    assert(proto_key()[0] != prototype_key()[0]);
    assert(constructor_key().len() != prototype_key().len());
}

/// The options that reject, without `safe`, every key whose check `o`
/// turns on.
pub open spec fn hardened(o: Options) -> Options {
    Options {
        proto_action: if o.proto_action == Action::Ignore {
            Action::Ignore
        } else {
            Action::Error
        },
        constructor_action: if o.constructor_action == Action::Ignore {
            Action::Ignore
        } else {
            Action::Error
        },
        safe: false,
    }
}

} // verus!

verus! {

/// What a scan that goes through leaves holds no key that any check turned
/// on would find, at any depth.
pub proof fn lemma_cleaned_is_clean(v: Json, o: Options)
    requires
        !hits(v, o),
    ensures
        !hits(cleaned(v, o), hardened(o)),
    decreases v,
{
    let h = hardened(o);
    match v {
        Json::Array(items) => {
            let ci = cleaned_items(items, o);
            lemma_any_item_hits(items, o);
            lemma_any_item_hits(ci, h);
            assert forall|j: int| 0 <= j < ci.len() implies !hits(ci[j], h) by {
                if hits(items[j], o) {
                    assert(items_hit(items, o));
                }
                lemma_cleaned_is_clean(items[j], o);
            }
        },
        Json::Object(m) => {
            let dp = proto_found(o, m);
            let dc = constructor_found(o, m);
            let cm = cleaned_members(m, o);
            let km = kept(m, dp, dc);
            let k = kept(cm, dp, dc);
            lemma_kept_cleaned(m, dp, dc, o);
            lemma_keys_differ();
            lemma_kept_keys(cm, dp, dc, proto_key());
            lemma_cleaned_members_keys(m, o, proto_key());
            assert(!proto_found(h, k));
            lemma_kept_elements(cm, dp, dc);
            assert(!constructor_found(h, k)) by {
                if constructor_found(h, k) {
                    let j = choose|j: int|
                        0 <= j < k.len() && k[j].0 == constructor_key() && #[trigger] holds_prototype(
                            k[j].1,
                        );
                    let i = choose|i: int| 0 <= i < cm.len() && cm[i] == #[trigger] k[j];
                    lemma_cleaned_holds_prototype(m[i].1, o);
                    assert(m[i].0 == constructor_key() && holds_prototype(m[i].1));
                    assert(constructor_violation(m));
                }
            }
            lemma_kept_hit(m, dp, dc, o);
            lemma_kept_hit(k, false, false, h);
            lemma_kept_all(k);
            lemma_kept_elements(m, dp, dc);
            assert forall|j: int| 0 <= j < k.len() implies !hits(k[j].1, h) by {
                let i = choose|i: int| 0 <= i < m.len() && m[i] == #[trigger] km[j];
                if hits(km[j].1, o) {
                    assert(members_hit(km, o));
                }
                lemma_cleaned_is_clean(m[i].1, o);
            }
        },
        _ => {},
    }
}

} // verus!

verus! {

/// A value in which no check turned on by `o` finds anything goes through a
/// scan under `o` unchanged.
pub proof fn lemma_clean_is_fixed(v: Json, o: Options)
    requires
        !hits(v, hardened(o)),
    ensures
        !hits(v, o),
        cleaned(v, o) == v,
    decreases v,
{
    let h = hardened(o);
    match v {
        Json::Array(items) => {
            lemma_any_item_hits(items, o);
            lemma_any_item_hits(items, h);
            assert forall|i: int| 0 <= i < items.len() implies !hits(items[i], o) && cleaned(
                items[i],
                o,
            ) == items[i] by {
                if hits(items[i], h) {
                    assert(items_hit(items, h));
                }
                lemma_clean_is_fixed(items[i], o);
            }
            assert(cleaned_items(items, o) =~= items);
        },
        Json::Object(m) => {
            assert(!proto_found(o, m));
            assert(!constructor_found(o, m));
            lemma_kept_all(m);
            lemma_kept_hit(m, false, false, o);
            lemma_kept_hit(m, false, false, h);
            assert forall|i: int| 0 <= i < m.len() implies !hits(m[i].1, o) && cleaned(
                m[i].1,
                o,
            ) == m[i].1 by {
                if hits(m[i].1, h) {
                    assert(members_hit(m, h));
                }
                lemma_clean_is_fixed(m[i].1, o);
            }
            assert(cleaned_members(m, o) =~= m);
            lemma_kept_all(cleaned_members(m, o));
        },
        _ => {},
    }
}

/// Without `safe` and with no [`Action::Error`], no object stops the scan.
pub proof fn lemma_no_error_never_hits(v: Json, o: Options)
    requires
        !o.safe,
        o.proto_action != Action::Error,
        o.constructor_action != Action::Error,
    ensures
        !hits(v, o),
    decreases v,
{
    match v {
        Json::Array(items) => {
            lemma_any_item_hits(items, o);
            assert forall|i: int| 0 <= i < items.len() implies !hits(items[i], o) by {
                lemma_no_error_never_hits(items[i], o);
            }
        },
        Json::Object(m) => {
            let dp = proto_found(o, m);
            let dc = constructor_found(o, m);
            let km = kept(m, dp, dc);
            lemma_kept_hit(m, dp, dc, o);
            lemma_kept_elements(m, dp, dc);
            assert forall|j: int| 0 <= j < km.len() implies !hits(km[j].1, o) by {
                let i = choose|i: int| 0 <= i < m.len() && m[i] == #[trigger] km[j];
                lemma_no_error_never_hits(m[i].1, o);
            }
        },
        _ => {},
    }
}

} // verus!

verus! {

/// Whether no key occurs twice among the members `m`.
pub open spec fn keys_unique(m: Seq<(Seq<char>, Json)>) -> bool {
    forall|i: int, j: int| 0 <= i < j < m.len() ==> #[trigger] m[i].0 != #[trigger] m[j].0
}

/// Whether no object anywhere in `v` holds a key twice, as in what a JSON
/// parser builds.
pub open spec fn well_formed(v: Json) -> bool
    decreases v,
{
    match v {
        Json::Array(items) => all_well_formed(items),
        Json::Object(m) => keys_unique(m) && all_members_well_formed(m),
        _ => true,
    }
}

/// Whether every value of `s` is well formed.
pub open spec fn all_well_formed(s: Seq<Json>) -> bool
    decreases s,
{
    s.len() == 0 || (well_formed(s[0]) && all_well_formed(s.drop_first()))
}

/// Whether every member value of `s` is well formed.
pub open spec fn all_members_well_formed(s: Seq<(Seq<char>, Json)>) -> bool
    decreases s,
{
    s.len() == 0 || (well_formed(s[0].1) && all_members_well_formed(s.drop_first()))
}

proof fn lemma_all_well_formed(s: Seq<Json>)
    ensures
        all_well_formed(s) <==> forall|i: int| 0 <= i < s.len() ==> #[trigger] well_formed(s[i]),
    decreases s.len(),
{
    if s.len() > 0 {
        let t = s.drop_first();
        lemma_all_well_formed(t);
        if forall|i: int| 0 <= i < s.len() ==> #[trigger] well_formed(s[i]) {
            assert forall|i: int| 0 <= i < t.len() implies #[trigger] well_formed(t[i]) by {
                assert(t[i] == s[i + 1]);
            }
            assert(well_formed(s[0]));
        }
        if all_well_formed(s) {
            assert forall|i: int| 0 <= i < s.len() implies #[trigger] well_formed(s[i]) by {
                if i > 0 {
                    assert(t[i - 1] == s[i]);
                }
            }
        }
    }
}

proof fn lemma_all_members_well_formed(s: Seq<(Seq<char>, Json)>)
    ensures
        all_members_well_formed(s) <==> forall|i: int|
            0 <= i < s.len() ==> #[trigger] well_formed(s[i].1),
    decreases s.len(),
{
    if s.len() > 0 {
        let t = s.drop_first();
        lemma_all_members_well_formed(t);
        if forall|i: int| 0 <= i < s.len() ==> #[trigger] well_formed(s[i].1) {
            assert forall|i: int| 0 <= i < t.len() implies #[trigger] well_formed(t[i].1) by {
                assert(t[i] == s[i + 1]);
            }
            assert(well_formed(s[0].1));
        }
        if all_members_well_formed(s) {
            assert forall|i: int| 0 <= i < s.len() implies #[trigger] well_formed(s[i].1) by {
                if i > 0 {
                    assert(t[i - 1] == s[i]);
                }
            }
        }
    }
}

/// Dropping members keeps the keys unique.
proof fn lemma_kept_unique(s: Seq<(Seq<char>, Json)>, drop_proto: bool, drop_constructor: bool)
    requires
        keys_unique(s),
    ensures
        keys_unique(kept(s, drop_proto, drop_constructor)),
    decreases s.len(),
{
    if s.len() > 0 {
        let t = s.drop_first();
        assert(keys_unique(t)) by {
            assert forall|i: int, j: int| 0 <= i < j < t.len() implies #[trigger] t[i].0
                != #[trigger] t[j].0 by {
                assert(t[i] == s[i + 1] && t[j] == s[j + 1]);
            }
        }
        lemma_kept_unique(t, drop_proto, drop_constructor);
        let kt = kept(t, drop_proto, drop_constructor);
        let ks = kept(s, drop_proto, drop_constructor);
        if !is_dropped(s[0].0, drop_proto, drop_constructor) {
            assert(ks == seq![s[0]] + kt);
            lemma_kept_keys(t, drop_proto, drop_constructor, s[0].0);
            assert(!has_key(t, s[0].0)) by {
                if has_key(t, s[0].0) {
                    let i = choose|i: int| 0 <= i < t.len() && #[trigger] t[i].0 == s[0].0;
                    assert(s[i + 1].0 == s[0].0);
                }
            }
            assert forall|i: int, j: int| 0 <= i < j < ks.len() implies #[trigger] ks[i].0
                != #[trigger] ks[j].0 by {
                if i == 0 {
                    assert(kt[j - 1] == ks[j]);
                    if ks[j].0 == s[0].0 {
                        assert(has_key(kt, s[0].0));
                    }
                } else {
                    assert(kt[i - 1] == ks[i] && kt[j - 1] == ks[j]);
                }
            }
        }
    }
}

/// Scanning keeps a value well formed.
pub proof fn lemma_cleaned_well_formed(v: Json, o: Options)
    requires
        well_formed(v),
    ensures
        well_formed(cleaned(v, o)),
    decreases v,
{
    match v {
        Json::Array(items) => {
            let ci = cleaned_items(items, o);
            lemma_all_well_formed(items);
            lemma_all_well_formed(ci);
            assert forall|i: int| 0 <= i < ci.len() implies #[trigger] well_formed(ci[i]) by {
                lemma_cleaned_well_formed(items[i], o);
            }
        },
        Json::Object(m) => {
            let dp = proto_found(o, m);
            let dc = constructor_found(o, m);
            let km = kept(m, dp, dc);
            let k = cleaned_members(km, o);
            lemma_kept_cleaned(m, dp, dc, o);
            lemma_kept_unique(m, dp, dc);
            lemma_all_members_well_formed(m);
            lemma_all_members_well_formed(k);
            lemma_kept_elements(m, dp, dc);
            assert forall|j: int| 0 <= j < k.len() implies #[trigger] well_formed(k[j].1) by {
                let i = choose|i: int| 0 <= i < m.len() && m[i] == #[trigger] km[j];
                lemma_cleaned_well_formed(m[i].1, o);
            }
            assert forall|i: int, j: int| 0 <= i < j < k.len() implies #[trigger] k[i].0
                != #[trigger] k[j].0 by {
                assert(k[i].0 == km[i].0 && k[j].0 == km[j].0);
            }
        },
        _ => {},
    }
}

} // verus!

verus! {

/// Without [`Action::Remove`], the `safe` flag changes what a violation
/// answers, not where one is found.
pub proof fn lemma_safe_finds_the_same(v: Json, o: Options)
    requires
        o.proto_action != Action::Remove,
        o.constructor_action != Action::Remove,
    ensures
        hits(v, Options { safe: true, ..o }) == hits(v, Options { safe: false, ..o }),
    decreases v,
{
    let on = Options { safe: true, ..o };
    let off = Options { safe: false, ..o };
    match v {
        Json::Array(items) => {
            lemma_any_item_hits(items, on);
            lemma_any_item_hits(items, off);
            assert forall|i: int| 0 <= i < items.len() implies hits(items[i], on) == hits(
                items[i],
                off,
            ) by {
                lemma_safe_finds_the_same(items[i], o);
            }
            if items_hit(items, on) {
                let i = choose|i: int| 0 <= i < items.len() && #[trigger] hits(items[i], on);
                assert(hits(items[i], off));
            }
            if items_hit(items, off) {
                let i = choose|i: int| 0 <= i < items.len() && #[trigger] hits(items[i], off);
                assert(hits(items[i], on));
            }
        },
        Json::Object(m) => {
            let dp = proto_found(o, m);
            let dc = constructor_found(o, m);
            let km = kept(m, dp, dc);
            lemma_kept_hit(m, dp, dc, on);
            lemma_kept_hit(m, dp, dc, off);
            lemma_kept_elements(m, dp, dc);
            assert forall|j: int| 0 <= j < km.len() implies hits(km[j].1, on) == hits(
                km[j].1,
                off,
            ) by {
                let i = choose|i: int| 0 <= i < m.len() && m[i] == #[trigger] km[j];
                lemma_safe_finds_the_same(m[i].1, o);
            }
            if members_hit(km, on) {
                let j = choose|j: int| 0 <= j < km.len() && #[trigger] hits(km[j].1, on);
                assert(hits(km[j].1, off));
            }
            if members_hit(km, off) {
                let j = choose|j: int| 0 <= j < km.len() && #[trigger] hits(km[j].1, off);
                assert(hits(km[j].1, on));
            }
        },
        _ => {},
    }
}

} // verus!
