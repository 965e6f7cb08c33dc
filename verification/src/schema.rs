//! The schema sanitizer.
//!
//! Tool parameter schemas are JSON-Schema-shaped documents. The target
//! ecosystem rejects the `"format": "uri"` keyword, so before a tool
//! definition is forwarded that member is stripped from the schema: at the
//! current object level directly, below every value under `properties`,
//! and below `items`. No other keyword is touched, and a non-object input
//! passes through unchanged.

use vstd::prelude::*;
use crate::json::{
    Json,
    JsonV,
    json_members_view,
    json_view,
    lemma_json_members_view_drop_first,
    lemma_json_members_view_index,
    lemma_json_members_view_push,
    str_is,
};

verus! {

/// The sanitized form of a schema value.
pub open spec fn spec_clean(v: JsonV) -> JsonV
    decreases v, 1int,
{
    match v {
        JsonV::Obj(ms) => JsonV::Obj(spec_clean_members(ms)),
        _ => v,
    }
}

/// The sanitized members of a schema object: a `"format": "uri"` member is
/// dropped, the value of `properties` has each of its own members
/// sanitized, the value of `items` is sanitized, everything else is kept.
pub open spec fn spec_clean_members(ms: Seq<(Seq<char>, JsonV)>) -> Seq<(Seq<char>, JsonV)>
    decreases ms, 0int,
{
    if ms.len() == 0 {
        Seq::empty()
    } else {
        let head = ms[0];
        let rest = spec_clean_members(ms.drop_first());
        if head.0 == "format"@ && head.1 == JsonV::Str("uri"@) {
            rest
        } else if head.0 == "properties"@ {
            seq![(head.0, spec_clean_props(head.1))] + rest
        } else if head.0 == "items"@ {
            seq![(head.0, spec_clean(head.1))] + rest
        } else {
            seq![head] + rest
        }
    }
}

/// The value of a `properties` member with each property schema sanitized.
pub open spec fn spec_clean_props(v: JsonV) -> JsonV
    decreases v, 1int,
{
    match v {
        JsonV::Obj(ms) => JsonV::Obj(spec_clean_each(ms)),
        _ => v,
    }
}

/// Each member value sanitized, keys and order untouched.
pub open spec fn spec_clean_each(ms: Seq<(Seq<char>, JsonV)>) -> Seq<(Seq<char>, JsonV)>
    decreases ms, 0int,
{
    if ms.len() == 0 {
        Seq::empty()
    } else {
        seq![(ms[0].0, spec_clean(ms[0].1))] + spec_clean_each(ms.drop_first())
    }
}

/// Whether a schema value holds a `"format": "uri"` member anywhere the
/// sanitizer looks: at the top object level, below a value under
/// `properties`, or below `items`.
pub open spec fn spec_has_uri_format(v: JsonV) -> bool
    decreases v, 1int,
{
    match v {
        JsonV::Obj(ms) => spec_has_uri_members(ms),
        _ => false,
    }
}

/// Whether any member of a schema object carries a `uri` format where the
/// sanitizer looks.
pub open spec fn spec_has_uri_members(ms: Seq<(Seq<char>, JsonV)>) -> bool
    decreases ms, 0int,
{
    if ms.len() == 0 {
        false
    } else {
        let head = ms[0];
        (head.0 == "format"@ && head.1 == JsonV::Str("uri"@)) || (head.0 == "properties"@
            && spec_has_uri_props(head.1)) || (head.0 == "items"@ && spec_has_uri_format(head.1))
            || spec_has_uri_members(ms.drop_first())
    }
}

/// Whether any property schema under a `properties` value carries a `uri`
/// format.
pub open spec fn spec_has_uri_props(v: JsonV) -> bool
    decreases v, 1int,
{
    match v {
        JsonV::Obj(ms) => spec_has_uri_each(ms),
        _ => false,
    }
}

pub open spec fn spec_has_uri_each(ms: Seq<(Seq<char>, JsonV)>) -> bool
    decreases ms, 0int,
{
    if ms.len() == 0 {
        false
    } else {
        spec_has_uri_format(ms[0].1) || spec_has_uri_each(ms.drop_first())
    }
}

/// The sanitizer is idempotent: sanitizing a value twice yields exactly
/// what sanitizing it once yields.
pub proof fn lemma_clean_idempotent(v: JsonV)
    ensures
        spec_clean(spec_clean(v)) == spec_clean(v),
    decreases v, 1int,
{
    match v {
        JsonV::Obj(ms) => {
            lemma_clean_members_idempotent(ms);
        },
        _ => {
        },
    }
}

proof fn lemma_clean_members_idempotent(ms: Seq<(Seq<char>, JsonV)>)
    ensures
        spec_clean_members(spec_clean_members(ms)) == spec_clean_members(ms),
    decreases ms, 0int,
{
    reveal_strlit("format");
    reveal_strlit("properties");
    reveal_strlit("items");
    if ms.len() == 0 {
        assert(spec_clean_members(ms) =~= Seq::<(Seq<char>, JsonV)>::empty());
    } else {
        let head = ms[0];
        let rest = ms.drop_first();
        lemma_clean_members_idempotent(rest);
        let cr = spec_clean_members(rest);
        if head.0 == "format"@ && head.1 == JsonV::Str("uri"@) {
        } else if head.0 == "properties"@ {
            lemma_clean_props_idempotent(head.1);
            let h2 = (head.0, spec_clean_props(head.1));
            let once = seq![h2] + cr;
            assert(once[0] == h2);
            assert(once.drop_first() =~= cr);
        } else if head.0 == "items"@ {
            lemma_clean_idempotent(head.1);
            let h2 = (head.0, spec_clean(head.1));
            let once = seq![h2] + cr;
            assert(once[0] == h2);
            assert(once.drop_first() =~= cr);
        } else {
            let once = seq![head] + cr;
            assert(once[0] == head);
            assert(once.drop_first() =~= cr);
        }
    }
}

proof fn lemma_clean_props_idempotent(v: JsonV)
    ensures
        spec_clean_props(spec_clean_props(v)) == spec_clean_props(v),
    decreases v, 1int,
{
    match v {
        JsonV::Obj(ms) => {
            lemma_clean_each_idempotent(ms);
        },
        _ => {
        },
    }
}

proof fn lemma_clean_each_idempotent(ms: Seq<(Seq<char>, JsonV)>)
    ensures
        spec_clean_each(spec_clean_each(ms)) == spec_clean_each(ms),
    decreases ms, 0int,
{
    if ms.len() == 0 {
        assert(spec_clean_each(ms) =~= Seq::<(Seq<char>, JsonV)>::empty());
    } else {
        let head = ms[0];
        let rest = ms.drop_first();
        lemma_clean_each_idempotent(rest);
        lemma_clean_idempotent(head.1);
        let h2 = (head.0, spec_clean(head.1));
        let once = seq![h2] + spec_clean_each(rest);
        assert(once[0] == h2);
        assert(once.drop_first() =~= spec_clean_each(rest));
    }
}

/// The sanitizer never alters a schema that carries no `uri` format
/// anywhere it looks.
pub proof fn lemma_clean_no_uri_unchanged(v: JsonV)
    requires
        !spec_has_uri_format(v),
    ensures
        spec_clean(v) == v,
    decreases v, 1int,
{
    match v {
        JsonV::Obj(ms) => {
            lemma_clean_members_no_uri(ms);
        },
        _ => {
        },
    }
}

proof fn lemma_clean_members_no_uri(ms: Seq<(Seq<char>, JsonV)>)
    requires
        !spec_has_uri_members(ms),
    ensures
        spec_clean_members(ms) == ms,
    decreases ms, 0int,
{
    if ms.len() == 0 {
        assert(spec_clean_members(ms) =~= ms);
    } else {
        let head = ms[0];
        let rest = ms.drop_first();
        lemma_clean_members_no_uri(rest);
        if head.0 == "properties"@ {
            lemma_clean_props_no_uri(head.1);
        } else if head.0 == "items"@ {
            lemma_clean_no_uri_unchanged(head.1);
        }
        assert(seq![head] + rest =~= ms);
        assert(spec_clean_members(ms) =~= ms);
    }
}

proof fn lemma_clean_props_no_uri(v: JsonV)
    requires
        !spec_has_uri_props(v),
    ensures
        spec_clean_props(v) == v,
    decreases v, 1int,
{
    match v {
        JsonV::Obj(ms) => {
            lemma_clean_each_no_uri(ms);
        },
        _ => {
        },
    }
}

proof fn lemma_clean_each_no_uri(ms: Seq<(Seq<char>, JsonV)>)
    requires
        !spec_has_uri_each(ms),
    ensures
        spec_clean_each(ms) == ms,
    decreases ms, 0int,
{
    if ms.len() == 0 {
        assert(spec_clean_each(ms) =~= ms);
    } else {
        let head = ms[0];
        let rest = ms.drop_first();
        lemma_clean_each_no_uri(rest);
        lemma_clean_no_uri_unchanged(head.1);
        assert(seq![(head.0, spec_clean(head.1))] + rest =~= ms);
        assert(spec_clean_each(ms) =~= ms);
    }
}

/// Tests whether a value is the string `"uri"`.
fn is_uri_str(j: &Json) -> (r: bool)
    ensures
        r == (j@ == JsonV::Str("uri"@)),
{
    match j {
        Json::Str(s) => str_is(s, "uri"),
        _ => false,
    }
}

/// Strips the target-incompatible `"format": "uri"` keyword from a
/// JSON-Schema-shaped value, as [`spec_clean`] says: at the current object
/// level, below every value under `properties`, and below `items`. A
/// non-object input passes through unchanged.
pub fn clean_schema(j: Json) -> (r: Json)
    ensures
        r@ == spec_clean(j@),
    decreases j,
{
    let ghost j0 = j;
    match j {
        Json::Obj(members) => {
            let ghost vec0 = members;
            let ghost ms0 = json_members_view(members@);
            let mut rest = members;
            let mut out: Vec<(String, Json)> = Vec::new();
            proof {
                assert(rest@ =~= vec0@.subrange(
                    vec0@.len() - rest@.len(),
                    vec0@.len() as int,
                ));
            }
            while rest.len() > 0
                invariant
                    j == j0,
                    j0 == Json::Obj(vec0),
                    ms0 == json_members_view(vec0@),
                    rest@.len() <= vec0@.len(),
                    rest@ =~= vec0@.subrange(vec0@.len() - rest@.len(), vec0@.len() as int),
                    spec_clean_members(ms0) == json_members_view(out@) + spec_clean_members(
                        json_members_view(rest@),
                    ),
                decreases rest@.len(),
            {
                let ghost rest0 = rest@;
                let ghost rv = json_members_view(rest0);
                proof {
                    assert(rest0 =~= vec0@.subrange(
                        vec0@.len() - rest0.len(),
                        vec0@.len() as int,
                    ));
                    lemma_json_members_view_index(rest0);
                    lemma_json_members_view_drop_first(rest0);
                }
                let pair = rest.remove(0);
                proof {
                    assert(rest@ =~= rest0.drop_first());
                    assert(rest@ =~= vec0@.subrange(
                        vec0@.len() - rest@.len(),
                        vec0@.len() as int,
                    ));
                    assert(rv[0] == (pair.0@, json_view(pair.1)));
                    assert(decreases_to!(j0 => j0->Obj_0));
                    assert(decreases_to!(j0->Obj_0 => j0->Obj_0@));
                    let idx = vec0@.len() - rest0.len();
                    assert(vec0@[idx] == rest0[0]);
                    assert(decreases_to!(j0->Obj_0@ => j0->Obj_0@[idx]));
                    assert(decreases_to!(j0->Obj_0@[idx] => j0->Obj_0@[idx].1));
                    assert(j0->Obj_0@[idx].1 == pair.1);
                }
                let ghost out0 = out@;
                if str_is(&pair.0, "format") && is_uri_str(&pair.1) {
                    proof {
                        assert(spec_clean_members(rv) == spec_clean_members(rv.drop_first()));
                    }
                } else if str_is(&pair.0, "properties") {
                    let cleaned = clean_props(pair.1);
                    let ghost p = (pair.0, cleaned);
                    out.push((pair.0, cleaned));
                    proof {
                        lemma_json_members_view_push(out0, p);
                        assert(spec_clean_members(rv) =~= seq![
                            (p.0@, spec_clean_props(rv[0].1)),
                        ] + spec_clean_members(rv.drop_first()));
                        assert(json_members_view(out@) + spec_clean_members(
                            json_members_view(rest@),
                        ) =~= json_members_view(out0) + spec_clean_members(rv));
                    }
                } else if str_is(&pair.0, "items") {
                    let cleaned = clean_schema(pair.1);
                    let ghost p = (pair.0, cleaned);
                    out.push((pair.0, cleaned));
                    proof {
                        lemma_json_members_view_push(out0, p);
                        assert(spec_clean_members(rv) =~= seq![(p.0@, spec_clean(rv[0].1))]
                            + spec_clean_members(rv.drop_first()));
                        assert(json_members_view(out@) + spec_clean_members(
                            json_members_view(rest@),
                        ) =~= json_members_view(out0) + spec_clean_members(rv));
                    }
                } else {
                    let ghost p = pair;
                    out.push(pair);
                    proof {
                        lemma_json_members_view_push(out0, p);
                        assert(spec_clean_members(rv) =~= seq![rv[0]] + spec_clean_members(
                            rv.drop_first(),
                        ));
                        assert(json_members_view(out@) + spec_clean_members(
                            json_members_view(rest@),
                        ) =~= json_members_view(out0) + spec_clean_members(rv));
                    }
                }
            }
            proof {
                assert(json_members_view(rest@).len() == 0) by {
                    lemma_json_members_view_index(rest@);
                }
                assert(spec_clean_members(ms0) =~= json_members_view(out@));
            }
            Json::Obj(out)
        },
        _ => j,
    }
}

/// Sanitizes each member value of a `properties` object, as
/// [`spec_clean_props`] says.
fn clean_props(j: Json) -> (r: Json)
    ensures
        r@ == spec_clean_props(j@),
    decreases j,
{
    let ghost j0 = j;
    match j {
        Json::Obj(members) => {
            let ghost vec0 = members;
            let ghost ms0 = json_members_view(members@);
            let mut rest = members;
            let mut out: Vec<(String, Json)> = Vec::new();
            proof {
                assert(rest@ =~= vec0@.subrange(
                    vec0@.len() - rest@.len(),
                    vec0@.len() as int,
                ));
            }
            while rest.len() > 0
                invariant
                    j == j0,
                    j0 == Json::Obj(vec0),
                    ms0 == json_members_view(vec0@),
                    rest@.len() <= vec0@.len(),
                    rest@ =~= vec0@.subrange(vec0@.len() - rest@.len(), vec0@.len() as int),
                    spec_clean_each(ms0) == json_members_view(out@) + spec_clean_each(
                        json_members_view(rest@),
                    ),
                decreases rest@.len(),
            {
                let ghost rest0 = rest@;
                let ghost rv = json_members_view(rest0);
                proof {
                    assert(rest0 =~= vec0@.subrange(
                        vec0@.len() - rest0.len(),
                        vec0@.len() as int,
                    ));
                    lemma_json_members_view_index(rest0);
                    lemma_json_members_view_drop_first(rest0);
                }
                let pair = rest.remove(0);
                proof {
                    assert(rest@ =~= rest0.drop_first());
                    assert(rest@ =~= vec0@.subrange(
                        vec0@.len() - rest@.len(),
                        vec0@.len() as int,
                    ));
                    assert(rv[0] == (pair.0@, json_view(pair.1)));
                    assert(decreases_to!(j0 => j0->Obj_0));
                    assert(decreases_to!(j0->Obj_0 => j0->Obj_0@));
                    let idx = vec0@.len() - rest0.len();
                    assert(vec0@[idx] == rest0[0]);
                    assert(decreases_to!(j0->Obj_0@ => j0->Obj_0@[idx]));
                    assert(decreases_to!(j0->Obj_0@[idx] => j0->Obj_0@[idx].1));
                    assert(j0->Obj_0@[idx].1 == pair.1);
                }
                let ghost out0 = out@;
                let cleaned = clean_schema(pair.1);
                let ghost p = (pair.0, cleaned);
                out.push((pair.0, cleaned));
                proof {
                    lemma_json_members_view_push(out0, p);
                    assert(spec_clean_each(rv) =~= seq![(p.0@, spec_clean(rv[0].1))]
                        + spec_clean_each(rv.drop_first()));
                    assert(json_members_view(out@) + spec_clean_each(
                        json_members_view(rest@),
                    ) =~= json_members_view(out0) + spec_clean_each(rv));
                }
            }
            proof {
                assert(json_members_view(rest@).len() == 0) by {
                    lemma_json_members_view_index(rest@);
                }
                assert(spec_clean_each(ms0) =~= json_members_view(out@));
            }
            Json::Obj(out)
        },
        _ => j,
    }
}

} // verus!
