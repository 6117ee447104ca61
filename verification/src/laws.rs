//! What holds of the library as a whole.
//!
//! Each law is stated over the spec functions that the public functions'
//! contracts use: [`hits`] and [`cleaned`] for [`scan`](crate::scan) (and
//! through it [`parse`](crate::parse)), and [`without_bom`] and
//! [`without_byte_bom`] for what the parsers hand to `serde_json`.

use vstd::prelude::*;

use crate::json::Json;
use crate::options::{Action, Options};
use crate::parse::{
    bom, lemma_bom_encoding, safe_options, starts_with_bom, without_bom, without_byte_bom,
};
use vstd::utf8::encode_utf8;
use crate::policy::{
    any_item_hits, any_kept_member_hits, cleaned, cleaned_items, cleaned_members,
    constructor_key, constructor_violation, hardened, has_key, hits, holds_prototype, kept,
    lemma_clean_is_fixed, lemma_clean_without_removal, lemma_cleaned_is_clean,
    lemma_cleaned_well_formed, lemma_ignore_both, lemma_keys_differ, lemma_kept_all,
    lemma_kept_contains, lemma_kept_elements, lemma_no_error_never_hits,
    lemma_safe_finds_the_same, members_hit, proto_found, constructor_found, lemma_kept_hit,
    lemma_kept_keys, proto_key, removes_nothing, well_formed,
};

verus! {

/// With both actions [`Action::Ignore`], a scan finds nothing and gives the
/// value back unchanged.
pub proof fn law_ignore_both_returns_the_value(v: Json, o: Options)
    requires
        o.proto_action == Action::Ignore,
        o.constructor_action == Action::Ignore,
    ensures
        !hits(v, o),
        cleaned(v, o) == v,
{
    lemma_ignore_both(v, o);
}

/// Scalars and `null` skip scanning: they are returned as they are.
pub proof fn law_scalars_pass_unchanged(v: Json, o: Options)
    requires
        !(v is Array),
        !(v is Object),
    ensures
        !hits(v, o),
        cleaned(v, o) == v,
{
}

/// What a scan that goes through gives back holds, at any depth, no
/// `__proto__` key if that check is on and no `constructor.prototype`
/// nesting if that check is on: scanning it again with those checks set to
/// [`Action::Error`] and `safe` off finds nothing.
pub proof fn law_scan_output_holds_no_forbidden_key(v: Json, o: Options)
    requires
        !hits(v, o),
    ensures
        !hits(cleaned(v, o), hardened(o)),
{
    lemma_cleaned_is_clean(v, o);
}

/// Scanning is idempotent: a value a scan gave back goes through the same
/// scan again, unchanged.
pub proof fn law_scan_is_idempotent(v: Json, o: Options)
    requires
        !hits(v, o),
    ensures
        !hits(cleaned(v, o), o),
        cleaned(cleaned(v, o), o) == cleaned(v, o),
{
    lemma_cleaned_is_clean(v, o);
    lemma_clean_is_fixed(cleaned(v, o), o);
}

/// Without `safe` and with no [`Action::Error`], a scan never rejects: every
/// violation is removed or ignored.
pub proof fn law_removal_never_rejects(v: Json, o: Options)
    requires
        !o.safe,
        o.proto_action != Action::Error,
        o.constructor_action != Action::Error,
    ensures
        !hits(v, o),
{
    lemma_no_error_never_hits(v, o);
}

/// When no action removes keys (no [`Action::Remove`], or `safe` on), a scan
/// that goes through gives the value back unchanged.
pub proof fn law_no_removal_keeps_the_value(v: Json, o: Options)
    requires
        removes_nothing(o),
        !hits(v, o),
    ensures
        cleaned(v, o) == v,
{
    lemma_clean_without_removal(v, o);
}

/// A scan never makes a key occur twice in an object.
pub proof fn law_scan_keeps_well_formed(v: Json, o: Options)
    requires
        well_formed(v),
    ensures
        well_formed(cleaned(v, o)),
{
    lemma_cleaned_well_formed(v, o);
}

/// Without [`Action::Remove`], `safe` changes only the answer to a
/// violation, not where one is found. In particular the safe parsers report a
/// violation exactly where a parse with the default options fails with
/// [`Error::ForbiddenProperty`](crate::Error::ForbiddenProperty).
pub proof fn law_safe_finds_what_strict_rejects(v: Json, o: Options)
    requires
        o.proto_action != Action::Remove,
        o.constructor_action != Action::Remove,
    ensures
        hits(v, Options { safe: true, ..o }) == hits(v, Options { safe: false, ..o }),
        hits(v, safe_options()) == hits(v, Options { safe: false, ..safe_options() }),
{
    lemma_safe_finds_the_same(v, o);
    lemma_safe_finds_the_same(v, safe_options());
}

/// Removing the `__proto__` members of an object does not change whether it
/// holds a `constructor.prototype` nesting: checking the two patterns on the
/// object as given is the same as checking them in turn, `__proto__` first.
pub proof fn law_constructor_check_ignores_proto_removal(m: Seq<(Seq<char>, Json)>)
    ensures
        constructor_violation(kept(m, true, false)) == constructor_violation(m),
{
    let k = kept(m, true, false);
    lemma_keys_differ();
    lemma_kept_elements(m, true, false);
    lemma_kept_contains(m, true, false);
    if constructor_violation(k) {
        let j = choose|j: int|
            0 <= j < k.len() && k[j].0 == constructor_key() && #[trigger] holds_prototype(k[j].1);
        let i = choose|i: int| 0 <= i < m.len() && m[i] == #[trigger] k[j];
        assert(m[i].0 == constructor_key() && holds_prototype(m[i].1));
    }
    if constructor_violation(m) {
        let i = choose|i: int|
            0 <= i < m.len() && m[i].0 == constructor_key() && #[trigger] holds_prototype(m[i].1);
        let j = choose|j: int| 0 <= j < k.len() && k[j] == #[trigger] m[i];
        assert(k[j].0 == constructor_key() && holds_prototype(k[j].1));
    }
}

/// Wrapping a value in a one-element array changes neither what a scan finds
/// nor what it removes: the scan of `[v]` gives `[w]` where the scan of `v`
/// gives `w`, and stops where that one stops.
pub proof fn law_scan_sees_through_arrays(v: Json, o: Options)
    ensures
        hits(Json::Array(seq![v]), o) == hits(v, o),
        cleaned(Json::Array(seq![v]), o) == Json::Array(seq![cleaned(v, o)]),
{
    let s = seq![v];
    assert(s.drop_first() =~= Seq::<Json>::empty());
    assert(any_item_hits(s, o) == (hits(v, o) || any_item_hits(s.drop_first(), o)));
    assert(cleaned_items(s, o) =~= seq![cleaned(v, o)]);
}

/// Wrapping a value as the one member of an object, under a key that is
/// neither `__proto__` nor a `constructor` over a `prototype` holder, changes
/// neither what a scan finds nor what it removes.
pub proof fn law_scan_sees_through_objects(key: Seq<char>, v: Json, o: Options)
    requires
        key != proto_key(),
        !(key == constructor_key() && holds_prototype(v)),
    ensures
        hits(Json::Object(seq![(key, v)]), o) == hits(v, o),
        cleaned(Json::Object(seq![(key, v)]), o) == Json::Object(seq![(key, cleaned(v, o))]),
{
    let m = seq![(key, v)];
    assert(!has_key(m, proto_key()));
    assert(!constructor_violation(m));
    assert(m.drop_first() =~= Seq::<(Seq<char>, Json)>::empty());
    assert(any_kept_member_hits(m, false, false, o) == (hits(v, o) || any_kept_member_hits(
        m.drop_first(),
        false,
        false,
        o,
    )));
    assert(cleaned_members(m, o) =~= seq![(key, cleaned(v, o))]);
    lemma_kept_all(cleaned_members(m, o));
}

/// A leading byte order mark does not change what text parses to.
pub proof fn law_leading_bom_is_ignored(text: Seq<char>)
    requires
        !(text.len() > 0 && text[0] == bom()),
    ensures
        without_bom(seq![bom()] + text) == text,
        without_bom(text) == text,
{
    assert((seq![bom()] + text).drop_first() =~= text);
}

/// A leading UTF-8 byte order mark does not change what bytes parse to.
pub proof fn law_leading_byte_bom_is_ignored(bytes: Seq<u8>)
    requires
        !starts_with_bom(bytes),
    ensures
        without_byte_bom(seq![0xEFu8, 0xBBu8, 0xBFu8] + bytes) == bytes,
        without_byte_bom(bytes) == bytes,
{
    let b = seq![0xEFu8, 0xBBu8, 0xBFu8] + bytes;
    assert(b.subrange(3, b.len() as int) =~= bytes);
}

/// Dropping a byte order mark from a text and from its UTF-8 encoding agree:
/// the bytes parsers see the encoding of what the text parsers see, which is
/// why [`parse_bytes`](crate::parse_bytes) and
/// [`safe_parse_bytes`](crate::safe_parse_bytes) give, on the bytes of a
/// text, what [`parse`](crate::parse) and [`safe_parse`](crate::safe_parse)
/// give on the text (stated in their contracts).
pub proof fn law_bom_stripping_matches_on_bytes(text: Seq<char>)
    ensures
        without_byte_bom(encode_utf8(text)) == encode_utf8(without_bom(text)),
{
    lemma_bom_encoding(text);
}

/// Whether a key is neither `__proto__` nor `constructor`.
pub open spec fn is_ordinary_key(k: Seq<char>) -> bool {
    k != "__proto__"@ && k != "constructor"@
}

/// Whether a member's key is neither `__proto__` nor `constructor`.
pub open spec fn ordinary_member() -> spec_fn((Seq<char>, Json)) -> bool {
    |e: (Seq<char>, Json)| is_ordinary_key(e.0)
}

/// The members of `s` whose keys are neither `__proto__` nor `constructor`,
/// in order.
pub open spec fn ordinary(s: Seq<(Seq<char>, Json)>) -> Seq<(Seq<char>, Json)> {
    s.filter(ordinary_member())
}

/// An object with a `__proto__` member is found whatever its other members:
/// under [`Action::Error`] or `safe` the scan stops at it (so it never gives
/// `Ok(Some(_))`), and what the scan gives back of it holds no `__proto__`
/// member.
pub proof fn law_proto_member_is_found(m: Seq<(Seq<char>, Json)>, o: Options)
    requires
        o.proto_action != Action::Ignore,
        exists|i: int| 0 <= i < m.len() && m[i].0 == "__proto__"@,
    ensures
        o.safe || o.proto_action == Action::Error ==> hits(Json::Object(m), o),
        cleaned(Json::Object(m), o) matches Json::Object(c) && forall|j: int|
            0 <= j < c.len() ==> c[j].0 != "__proto__"@,
{
    let i = choose|i: int| 0 <= i < m.len() && m[i].0 == "__proto__"@;
    assert(m[i].0 == proto_key());
    assert(proto_found(o, m));
    let dc = constructor_found(o, m);
    let cm = cleaned_members(m, o);
    let c = kept(cm, true, dc);
    lemma_kept_keys(cm, true, dc, proto_key());
    assert forall|j: int| 0 <= j < c.len() implies c[j].0 != "__proto__"@ by {
        if c[j].0 == "__proto__"@ {
            assert(has_key(c, proto_key()));
        }
    }
}

/// An object with a `constructor` member whose value is an object holding a
/// `prototype` key is found whatever the other keys of either: under
/// [`Action::Error`] or `safe` the scan stops at it, and what the scan gives
/// back of it holds no `constructor` member.
pub proof fn law_constructor_prototype_is_found(
    m: Seq<(Seq<char>, Json)>,
    inner: Seq<(Seq<char>, Json)>,
    o: Options,
)
    requires
        o.constructor_action != Action::Ignore,
        exists|i: int| 0 <= i < m.len() && m[i].0 == "constructor"@ && m[i].1 == Json::Object(inner),
        exists|j: int| 0 <= j < inner.len() && inner[j].0 == "prototype"@,
    ensures
        o.safe || o.constructor_action == Action::Error ==> hits(Json::Object(m), o),
        cleaned(Json::Object(m), o) matches Json::Object(c) && forall|j: int|
            0 <= j < c.len() ==> c[j].0 != "constructor"@,
{
    let i = choose|i: int|
        0 <= i < m.len() && m[i].0 == "constructor"@ && m[i].1 == Json::Object(inner);
    let j = choose|j: int| 0 <= j < inner.len() && inner[j].0 == "prototype"@;
    assert(inner[j].0 == crate::policy::prototype_key());
    assert(holds_prototype(m[i].1));
    assert(m[i].0 == constructor_key());
    assert(constructor_violation(m));
    assert(constructor_found(o, m));
    let dp = proto_found(o, m);
    let cm = cleaned_members(m, o);
    let c = kept(cm, dp, true);
    lemma_kept_keys(cm, dp, true, constructor_key());
    assert forall|j: int| 0 <= j < c.len() implies c[j].0 != "constructor"@ by {
        if c[j].0 == "constructor"@ {
            assert(has_key(c, constructor_key()));
        }
    }
}

/// An object with no `__proto__` member and no `constructor` member over an
/// object holding `prototype` keeps every member, in order, each value
/// scanned in turn, and hits exactly when one of its values does.
pub proof fn law_plain_object_keeps_every_member(m: Seq<(Seq<char>, Json)>, o: Options)
    requires
        forall|i: int| 0 <= i < m.len() ==> m[i].0 != "__proto__"@,
        forall|i: int, inner: Seq<(Seq<char>, Json)>|
            0 <= i < m.len() && m[i].0 == "constructor"@ && m[i].1 == Json::Object(inner)
                ==> forall|j: int| 0 <= j < inner.len() ==> inner[j].0 != "prototype"@,
    ensures
        hits(Json::Object(m), o) == exists|i: int| 0 <= i < m.len() && hits(m[i].1, o),
        cleaned(Json::Object(m), o) == Json::Object(
            Seq::new(m.len(), |i: int| (m[i].0, cleaned(m[i].1, o))),
        ),
{
    assert(!has_key(m, proto_key())) by {
        if has_key(m, proto_key()) {
            let i = choose|i: int| 0 <= i < m.len() && #[trigger] m[i].0 == proto_key();
            assert(m[i].0 == "__proto__"@);
        }
    }
    assert(!constructor_violation(m)) by {
        if constructor_violation(m) {
            let i = choose|i: int|
                0 <= i < m.len() && m[i].0 == constructor_key() && #[trigger] holds_prototype(
                    m[i].1,
                );
            if let Json::Object(inner) = m[i].1 {
                let j = choose|j: int|
                    0 <= j < inner.len() && #[trigger] inner[j].0 == crate::policy::prototype_key();
                assert(inner[j].0 == "prototype"@);
            }
        }
    }
    lemma_kept_all(m);
    lemma_kept_all(cleaned_members(m, o));
    lemma_kept_hit(m, false, false, o);
    if members_hit(m, o) {
        let i = choose|i: int| 0 <= i < m.len() && #[trigger] hits(m[i].1, o);
        assert(exists|i: int| 0 <= i < m.len() && hits(m[i].1, o));
    }
    assert(cleaned_members(m, o) =~= Seq::new(m.len(), |i: int| (m[i].0, cleaned(m[i].1, o))));
}

proof fn lemma_ordinary_prepend(x: (Seq<char>, Json), s: Seq<(Seq<char>, Json)>)
    ensures
        ordinary(seq![x] + s) == if is_ordinary_key(x.0) {
            seq![x] + ordinary(s)
        } else {
            ordinary(s)
        },
{
    s.lemma_filter_prepend(x, ordinary_member());
    if is_ordinary_key(x.0) {
        assert(ordinary(seq![x] + s) =~= seq![x] + ordinary(s));
    } else {
        assert(ordinary(seq![x] + s) =~= ordinary(s));
    }
}

proof fn lemma_ordinary_kept(s: Seq<(Seq<char>, Json)>, drop_proto: bool, drop_constructor: bool)
    ensures
        ordinary(kept(s, drop_proto, drop_constructor)) == ordinary(s),
    decreases s.len(),
{
    if s.len() == 0 {
        assert(kept(s, drop_proto, drop_constructor) =~= s);
    } else {
        let t = s.drop_first();
        lemma_ordinary_kept(t, drop_proto, drop_constructor);
        assert(s =~= seq![s[0]] + t);
        lemma_ordinary_prepend(s[0], t);
        lemma_ordinary_prepend(s[0], kept(t, drop_proto, drop_constructor));
    }
}

proof fn lemma_ordinary_cleaned(m: Seq<(Seq<char>, Json)>, o: Options)
    ensures
        ordinary(cleaned_members(m, o)) == cleaned_members(ordinary(m), o),
    decreases m.len(),
{
    if m.len() == 0 {
        assert(cleaned_members(m, o) =~= m);
        assert(ordinary(m) =~= m);
        assert(cleaned_members(ordinary(m), o) =~= m);
    } else {
        let t = m.drop_first();
        lemma_ordinary_cleaned(t, o);
        let c0 = (m[0].0, cleaned(m[0].1, o));
        assert(m =~= seq![m[0]] + t);
        assert(cleaned_members(m, o) =~= seq![c0] + cleaned_members(t, o));
        lemma_ordinary_prepend(m[0], t);
        lemma_ordinary_prepend(c0, cleaned_members(t, o));
        if is_ordinary_key(m[0].0) {
            assert(cleaned_members(seq![m[0]] + ordinary(t), o) =~= seq![c0] + cleaned_members(
                ordinary(t),
                o,
            ));
        }
    }
}

/// Removal deletes only forbidden members: every member whose key is neither
/// `__proto__` nor `constructor` is still there after a scan, in the same
/// order, with its value scanned in turn.
pub proof fn law_removal_keeps_other_members(m: Seq<(Seq<char>, Json)>, o: Options)
    ensures
        cleaned(Json::Object(m), o) matches Json::Object(c) && ordinary(c).len() == ordinary(
            m,
        ).len() && forall|i: int|
            0 <= i < ordinary(m).len() ==> ordinary(c)[i] == (
                ordinary(m)[i].0,
                cleaned(ordinary(m)[i].1, o),
            ),
{
    let dp = proto_found(o, m);
    let dc = constructor_found(o, m);
    let cm = cleaned_members(m, o);
    lemma_ordinary_kept(cm, dp, dc);
    lemma_ordinary_cleaned(m, o);
}

} // verus!
