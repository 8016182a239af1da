use vstd::prelude::*;

use crate::compile::meta_array;
use crate::compile::meta_numeric;
use crate::compile::meta_object;
use crate::compile::meta_spec;
use crate::compile::meta_string;
use crate::compile::obj_find;
use crate::compile::read_len_bound;
use crate::compile::read_num_bound;
use crate::compile::read_policy;
use crate::compile::read_required;
use crate::json::Json;
use crate::json::JsonV;
use crate::json::json_view;
use crate::json::json_view_pairs;
use crate::json::json_view_seq;
use crate::json::key_is;
use crate::json::lemma_json_view_pairs;
use crate::json::lemma_json_view_seq;
use crate::patterns::regex_pattern_ok;

verus! {

broadcast use vstd::std_specs::vec::group_vec_axioms;

/// The aggregated outcome of a failed meta-validation: one entry for each
/// problem the walk found, never empty.
#[derive(Debug)]
pub struct MetaSchemaError {
    pub problems: Vec<String>,
}

/// Whether every key of the object is exactly `key`.
#[verifier::loop_isolation(false)]
fn keys_all(pairs: &Vec<(String, Json)>, key: &str) -> (r: bool)
    ensures
        r == (forall|m: int|
            0 <= m < json_view_pairs(pairs@).len() ==> (#[trigger] json_view_pairs(
                pairs@,
            )[m]).0 == key@),
{
    proof {
        lemma_json_view_pairs(pairs@);
    }
    let ghost pv = json_view_pairs(pairs@);
    let mut ok = true;
    for m in 0..pairs.len()
        invariant
            ok == (forall|j: int| 0 <= j < m ==> (#[trigger] pv[j]).0 == key@),
    {
        proof {
            assert(pv[m as int] == (pairs@[m as int].0@, json_view(pairs@[m as int].1)));
        }
        let e = key_is(&pairs[m].0, key);
        ok = ok && e;
    }
    ok
}

/// Whether every key of the object is one of four allowed keywords.
#[verifier::loop_isolation(false)]
fn keys_among(
    pairs: &Vec<(String, Json)>,
    k1: &str,
    k2: &str,
    k3: &str,
    k4: &str,
) -> (r: bool)
    ensures
        r == (forall|m: int|
            0 <= m < json_view_pairs(pairs@).len() ==> {
                let k = (#[trigger] json_view_pairs(pairs@)[m]).0;
                k == k1@ || k == k2@ || k == k3@ || k == k4@
            }),
{
    proof {
        lemma_json_view_pairs(pairs@);
    }
    let ghost pv = json_view_pairs(pairs@);
    let mut ok = true;
    for m in 0..pairs.len()
        invariant
            ok == (forall|j: int|
                0 <= j < m ==> {
                    let k = (#[trigger] pv[j]).0;
                    k == k1@ || k == k2@ || k == k3@ || k == k4@
                }),
    {
        proof {
            assert(pv[m as int] == (pairs@[m as int].0@, json_view(pairs@[m as int].1)));
        }
        let e = key_is(&pairs[m].0, k1) || key_is(&pairs[m].0, k2) || key_is(&pairs[m].0, k3)
            || key_is(&pairs[m].0, k4);
        ok = ok && e;
    }
    ok
}

/// Checks one node of a raw schema document against the meta-schema.
#[verifier::loop_isolation(false)]
#[verifier::rlimit(100)]
fn meta_node_ok(d: &Json) -> (r: bool)
    ensures
        r == meta_spec(json_view(*d)),
    decreases *d, 4int,
{
    let ghost dv = json_view(*d);
    match d {
        Json::Obj(pairs) => {
            proof {
                lemma_json_view_pairs(pairs@);
            }
            let ghost pv = json_view_pairs(pairs@);
            let e_found = obj_find(pairs, "enum");
            let a_found = obj_find(pairs, "anyOf");
            let t_found = obj_find(pairs, "type");
            let mut kinds: u32 = 0;
            if e_found.is_some() {
                kinds = kinds + 1;
            }
            if a_found.is_some() {
                kinds = kinds + 1;
            }
            if t_found.is_some() {
                kinds = kinds + 1;
            }
            if kinds != 1 {
                return false;
            }
            if let Option::Some(ei) = e_found {
                let keys_ok = keys_all(pairs, "enum");
                let val_ok = match &pairs[ei].1 {
                    Json::Arr(vals) => vals.len() >= 1,
                    _ => false,
                };
                keys_ok && val_ok
            } else if let Option::Some(ai) = a_found {
                let keys_ok = keys_all(pairs, "anyOf");
                match &pairs[ai].1 {
                    Json::Arr(alts) => {
                        proof {
                            lemma_json_view_seq(alts@);
                        }
                        let ghost alts_v = json_view_seq(alts@);
                        if alts.len() == 0 {
                            false
                        } else {
                            let mut all = true;
                            for k in 0..alts.len()
                                invariant
                                    all == (forall|j: int|
                                        0 <= j < k ==> meta_spec(#[trigger] alts_v[j])),
                            {
                                proof {
                                    assert(alts_v[k as int] == json_view(alts@[k as int]));
                                }
                                let e = meta_node_ok(&alts[k]);
                                all = all && e;
                            }
                            keys_ok && all
                        }
                    },
                    _ => false,
                }
            } else if let Option::Some(ti) = t_found {
                match &pairs[ti].1 {
                    Json::Str(t) => {
                        if key_is(t, "object") {
                            meta_object_ok(pairs)
                        } else if key_is(t, "array") {
                            meta_array_ok(pairs)
                        } else if key_is(t, "string") {
                            meta_string_ok(pairs)
                        } else if key_is(t, "number") {
                            meta_numeric_ok(pairs)
                        } else if key_is(t, "integer") {
                            meta_numeric_ok(pairs)
                        } else if key_is(t, "boolean") {
                            keys_all(pairs, "type")
                        } else {
                            false
                        }
                    },
                    _ => false,
                }
            } else {
                proof {
                    assert(false);
                }
                false
            }
        },
        _ => false,
    }
}

#[verifier::loop_isolation(false)]
#[verifier::rlimit(100)]
fn meta_object_ok(pairs: &Vec<(String, Json)>) -> (r: bool)
    ensures
        r == meta_object(json_view_pairs(pairs@)),
    decreases pairs@, 3int,
{
    proof {
        lemma_json_view_pairs(pairs@);
    }
    let ghost pv = json_view_pairs(pairs@);
    let keys_ok = keys_among(pairs, "type", "properties", "required", "additionalProperties");
    let props_ok = match obj_find(pairs, "properties") {
        Option::Some(pi) => {
            proof {
                assert(pv[pi as int] == (pairs@[pi as int].0@, json_view(pairs@[pi as int].1)));
            }
            match &pairs[pi].1 {
            Json::Obj(props) => {
                proof {
                    lemma_json_view_pairs(props@);
                }
                let ghost props_v = json_view_pairs(props@);
                let mut all = true;
                for k in 0..props.len()
                    invariant
                        all == (forall|j: int|
                            0 <= j < k ==> meta_spec((#[trigger] props_v[j]).1)),
                {
                    proof {
                        assert(props_v[k as int] == (
                            props@[k as int].0@,
                            json_view(props@[k as int].1),
                        ));
                    }
                    let e = meta_node_ok(&props[k].1);
                    all = all && e;
                }
                proof {
                    match pv[pi as int].1 {
                        JsonV::Obj(ps) => {
                            assert(ps == props_v);
                            if all {
                                assert forall|m: int|
                                    0 <= m < ps.len() implies meta_spec(
                                    (#[trigger] ps[m]).1,
                                ) by {
                                    assert(ps[m] == props_v[m]);
                                    assert(meta_spec(props_v[m].1));
                                }
                            } else {
                                let w = choose|j: int|
                                    0 <= j < props_v.len() && !meta_spec(
                                        (#[trigger] props_v[j]).1,
                                    );
                                assert(ps[w] == props_v[w]);
                                assert(!meta_spec(ps[w].1));
                            }
                        },
                        _ => {
                            assert(false);
                        },
                    }
                }
                all
            },
            _ => false,
            }
        },
        Option::None => true,
    };
    let required_ok = read_required(pairs).is_ok();
    let policy_ok = read_policy(pairs).is_ok();
    keys_ok && props_ok && required_ok && policy_ok
}

#[verifier::loop_isolation(false)]
#[verifier::rlimit(100)]
fn meta_array_ok(pairs: &Vec<(String, Json)>) -> (r: bool)
    ensures
        r == meta_array(json_view_pairs(pairs@)),
    decreases pairs@, 3int,
{
    proof {
        lemma_json_view_pairs(pairs@);
    }
    let keys_ok = keys_among(pairs, "type", "items", "minItems", "maxItems");
    let items_ok = match obj_find(pairs, "items") {
        Option::Some(ii) => meta_node_ok(&pairs[ii].1),
        Option::None => false,
    };
    let min_ok = read_len_bound(pairs, "minItems").is_ok();
    let max_ok = read_len_bound(pairs, "maxItems").is_ok();
    keys_ok && items_ok && min_ok && max_ok
}

#[verifier::loop_isolation(false)]
fn meta_string_ok(pairs: &Vec<(String, Json)>) -> (r: bool)
    ensures
        r == meta_string(json_view_pairs(pairs@)),
{
    proof {
        lemma_json_view_pairs(pairs@);
    }
    let keys_ok = keys_among(pairs, "type", "format", "pattern", "type");
    let format_ok = match obj_find(pairs, "format") {
        Option::Some(i) => matches!(&pairs[i].1, Json::Str(_)),
        Option::None => true,
    };
    let pattern_ok = match obj_find(pairs, "pattern") {
        Option::Some(i) => match &pairs[i].1 {
            Json::Str(p) => regex_pattern_ok(p.as_str()),
            _ => false,
        },
        Option::None => true,
    };
    keys_ok && format_ok && pattern_ok
}

#[verifier::loop_isolation(false)]
fn meta_numeric_ok(pairs: &Vec<(String, Json)>) -> (r: bool)
    ensures
        r == meta_numeric(json_view_pairs(pairs@)),
{
    proof {
        lemma_json_view_pairs(pairs@);
    }
    let keys_ok = keys_among(pairs, "type", "minimum", "maximum", "type");
    let min_ok = read_num_bound(pairs, "minimum").is_ok();
    let max_ok = read_num_bound(pairs, "maximum").is_ok();
    keys_ok && min_ok && max_ok
}

/// Best-effort description of why a node fails the meta-schema; one line per
/// problem found at this node, then the sub-schemas in turn.
#[verifier::loop_isolation(false)]
fn meta_problems(d: &Json, out: &mut Vec<String>)
    decreases *d, 4int,
{
    match d {
        Json::Obj(pairs) => {
            if !meta_node_ok(d) {
                out.push("schema node violates the meta-schema".to_owned());
            }
            for k in 0..pairs.len() {
                match &pairs[k].1 {
                    Json::Obj(_) => {
                        meta_problems(&pairs[k].1, out);
                    },
                    Json::Arr(items) => {
                        for m in 0..items.len() {
                            match &items[m] {
                                Json::Obj(_) => {
                                    meta_problems(&items[m], out);
                                },
                                _ => {},
                            }
                        }
                    },
                    _ => {},
                }
            }
        },
        _ => {
            out.push("schema document is not an object".to_owned());
        },
    }
}

/// Checks that a raw schema document conforms to the meta-schema, before any
/// compilation. Returns every violated meta-constraint the walk could name,
/// aggregated in one error.
pub fn validate_schema(doc: &Json) -> (r: Result<(), MetaSchemaError>)
    ensures
        (r is Ok) == meta_spec(json_view(*doc)),
        r is Err ==> r->Err_0.problems@.len() > 0,
{
    if meta_node_ok(doc) {
        Result::Ok(())
    } else {
        let mut problems: Vec<String> = Vec::new();
        meta_problems(doc, &mut problems);
        if problems.len() == 0 {
            problems.push("schema document violates the meta-schema".to_owned());
        }
        Result::Err(MetaSchemaError { problems })
    }
}

} // verus!
