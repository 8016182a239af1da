use vstd::prelude::*;

verus! {

broadcast use vstd::std_specs::vec::group_vec_axioms;

/// Scale factor of `Number`: values are held exactly as a signed count of
/// billionths, so nine decimal places are representable.
pub const NANOS_PER_UNIT: i128 = 1_000_000_000;

/// A JSON-style decimal number, held exactly as `nanos` billionths of a unit.
/// The mathematical value is `nanos / 1_000_000_000`.
#[derive(Clone, Copy, Debug, PartialEq, Eq, Structural)]
pub struct Number {
    pub nanos: i128,
}

/// True when the number's value is a whole integer.
pub open spec fn num_is_integer(nanos: int) -> bool {
    nanos % (NANOS_PER_UNIT as int) == 0
}

impl Number {
    /// The number with integer value `i`.
    pub fn from_int(i: i64) -> (n: Number)
        ensures
            n.nanos == i * NANOS_PER_UNIT,
            num_is_integer(n.nanos as int),
    {
        let n = Number { nanos: (i as i128) * NANOS_PER_UNIT };
        proof {
            assert(num_is_integer(n.nanos as int)) by (nonlinear_arith)
                requires
                    n.nanos == i * NANOS_PER_UNIT,
            ;
        }
        n
    }

    /// The number `whole.billionths`, negated when `negative` is set.
    pub fn from_decimal(negative: bool, whole: u64, billionths: u32) -> (n: Number)
        requires
            billionths < NANOS_PER_UNIT,
        ensures
            n.nanos == if negative {
                -(whole * NANOS_PER_UNIT + billionths)
            } else {
                whole * NANOS_PER_UNIT + billionths
            },
    {
        let magnitude: i128 = (whole as i128) * NANOS_PER_UNIT + (billionths as i128);
        if negative {
            Number { nanos: -magnitude }
        } else {
            Number { nanos: magnitude }
        }
    }

    /// Whether the value is a whole integer.
    pub fn is_integer(&self) -> (r: bool)
        ensures
            r == num_is_integer(self.nanos as int),
    {
        self.nanos % NANOS_PER_UNIT == 0
    }
}

/// A tree of JSON-like values: the candidate-document and raw-schema model.
#[derive(Debug)]
pub enum Json {
    Null,
    Bool(bool),
    Num(Number),
    Str(String),
    Arr(Vec<Json>),
    Obj(Vec<(String, Json)>),
}

/// The mathematical model of a `Json` tree.
#[verifier::ext_equal]
pub enum JsonV {
    Null,
    Bool(bool),
    Num(int),
    Str(Seq<char>),
    Arr(Seq<JsonV>),
    Obj(Seq<(Seq<char>, JsonV)>),
}

pub open spec fn json_view(j: Json) -> JsonV
    decreases j,
{
    match j {
        Json::Null => JsonV::Null,
        Json::Bool(b) => JsonV::Bool(b),
        Json::Num(n) => JsonV::Num(n.nanos as int),
        Json::Str(s) => JsonV::Str(s@),
        Json::Arr(items) => JsonV::Arr(json_view_seq(items@)),
        Json::Obj(pairs) => JsonV::Obj(json_view_pairs(pairs@)),
    }
}

pub open spec fn json_view_seq(s: Seq<Json>) -> Seq<JsonV>
    decreases s,
{
    if s.len() == 0 {
        Seq::empty()
    } else {
        json_view_seq(s.drop_last()).push(json_view(s.last()))
    }
}

pub open spec fn json_view_pairs(s: Seq<(String, Json)>) -> Seq<(Seq<char>, JsonV)>
    decreases s,
{
    if s.len() == 0 {
        Seq::empty()
    } else {
        json_view_pairs(s.drop_last()).push((s.last().0@, json_view(s.last().1)))
    }
}

impl View for Json {
    type V = JsonV;

    open spec fn view(&self) -> JsonV {
        json_view(*self)
    }
}

pub broadcast proof fn lemma_json_view_seq(s: Seq<Json>)
    ensures
        (#[trigger] json_view_seq(s)).len() == s.len(),
        forall|i: int| 0 <= i < s.len() ==> json_view_seq(s)[i] == json_view(s[i]),
    decreases s,
{
    if s.len() > 0 {
        lemma_json_view_seq(s.drop_last());
    }
}

pub broadcast proof fn lemma_json_view_pairs(s: Seq<(String, Json)>)
    ensures
        (#[trigger] json_view_pairs(s)).len() == s.len(),
        forall|i: int|
            0 <= i < s.len() ==> json_view_pairs(s)[i] == (s[i].0@, json_view(s[i].1)),
    decreases s,
{
    if s.len() > 0 {
        lemma_json_view_pairs(s.drop_last());
    }
}

pub broadcast proof fn lemma_json_view_seq_push(s: Seq<Json>, v: Json)
    ensures
        #[trigger] json_view_seq(s.push(v)) == json_view_seq(s).push(json_view(v)),
{
    assert(s.push(v).drop_last() =~= s);
    assert(s.push(v).last() == v);
}

pub broadcast proof fn lemma_json_view_pairs_push(s: Seq<(String, Json)>, p: (String, Json))
    ensures
        #[trigger] json_view_pairs(s.push(p)) == json_view_pairs(s).push((p.0@, json_view(p.1))),
{
    assert(s.push(p).drop_last() =~= s);
    assert(s.push(p).last() == p);
}

/// True when `k` reads as the same character sequence as `lit`.
pub fn key_is(k: &String, lit: &str) -> (r: bool)
    ensures
        r == (k@ == lit@),
{
    let owned: String = lit.to_owned();
    *k == owned
}

/// The value under the first occurrence of `key` among `pairs`, if any.
pub open spec fn obj_get(pairs: Seq<(Seq<char>, JsonV)>, key: Seq<char>) -> Option<JsonV>
    decreases pairs.len(),
{
    if pairs.len() == 0 {
        Option::None
    } else if pairs[0].0 == key {
        Option::Some(pairs[0].1)
    } else {
        obj_get(pairs.drop_first(), key)
    }
}

/// First-match lookup of `key` in an object's pair list.
pub fn obj_lookup<'a>(pairs: &'a Vec<(String, Json)>, key: &str) -> (r: Option<&'a Json>)
    ensures
        match r {
            Option::Some(v) => obj_get(json_view_pairs(pairs@), key@) == Option::Some(json_view(*v)),
            Option::None => obj_get(json_view_pairs(pairs@), key@) is None,
        },
{
    proof {
        lemma_json_view_pairs(pairs@);
        assert(json_view_pairs(pairs@).skip(0) =~= json_view_pairs(pairs@));
    }
    let ghost all: Seq<(Seq<char>, JsonV)> = json_view_pairs(pairs@);
    for i in 0..pairs.len()
        invariant
            all == json_view_pairs(pairs@),
            all.len() == pairs@.len(),
            forall|j: int| 0 <= j < pairs@.len() ==> all[j] == (pairs@[j].0@, json_view(pairs@[j].1)),
            obj_get(all, key@) == obj_get(all.skip(i as int), key@),
    {
        proof {
            assert(all.skip(i as int)[0] == all[i as int]);
        }
        if key_is(&pairs[i].0, key) {
            return Option::Some(&pairs[i].1);
        }
        proof {
            assert(all.skip(i as int).drop_first() =~= all.skip(i + 1));
        }
    }
    proof {
        assert(all.skip(pairs@.len() as int).len() == 0);
    }
    Option::None
}

/// Structural value equality of two JSON trees, numbers compared by value.
#[verifier::loop_isolation(false)]
pub fn json_eq(a: &Json, b: &Json) -> (r: bool)
    ensures
        r == (json_view(*a) == json_view(*b)),
    decreases a,
{
    match a {
        Json::Null => matches!(b, Json::Null),
        Json::Bool(x) => match b {
            Json::Bool(y) => *x == *y,
            _ => false,
        },
        Json::Num(x) => match b {
            Json::Num(y) => x.nanos == y.nanos,
            _ => false,
        },
        Json::Str(x) => match b {
            Json::Str(y) => *x == *y,
            _ => false,
        },
        Json::Arr(x) => match b {
            Json::Arr(y) => {
                proof {
                    lemma_json_view_seq(x@);
                    lemma_json_view_seq(y@);
                }
                if x.len() != y.len() {
                    false
                } else {
                    let mut all_eq = true;
                    for i in 0..x.len()
                        invariant
                            x@.len() == y@.len(),
                            json_view_seq(x@).len() == x@.len(),
                            json_view_seq(y@).len() == y@.len(),
                            forall|j: int|
                                0 <= j < x@.len() ==> json_view_seq(x@)[j] == json_view(x@[j]),
                            forall|j: int|
                                0 <= j < y@.len() ==> json_view_seq(y@)[j] == json_view(y@[j]),
                            all_eq == (forall|j: int|
                                0 <= j < i ==> json_view(x@[j]) == json_view(y@[j])),
                        decreases x@.len() - i,
                    {
                        let e = json_eq(&x[i], &y[i]);
                        all_eq = all_eq && e;
                    }
                    proof {
                        if all_eq {
                            assert(json_view_seq(x@) =~= json_view_seq(y@));
                        } else {
                            let j = choose|j: int|
                                0 <= j < x@.len() && json_view(x@[j]) != json_view(y@[j]);
                            assert(json_view_seq(x@)[j] != json_view_seq(y@)[j]);
                        }
                    }
                    all_eq
                }
            },
            _ => false,
        },
        Json::Obj(x) => match b {
            Json::Obj(y) => {
                proof {
                    lemma_json_view_pairs(x@);
                    lemma_json_view_pairs(y@);
                }
                if x.len() != y.len() {
                    false
                } else {
                    let mut all_eq = true;
                    for i in 0..x.len()
                        invariant
                            x@.len() == y@.len(),
                            json_view_pairs(x@).len() == x@.len(),
                            json_view_pairs(y@).len() == y@.len(),
                            forall|j: int|
                                0 <= j < x@.len() ==> json_view_pairs(x@)[j] == (
                                x@[j].0@,
                                json_view(x@[j].1),
                                ),
                            forall|j: int|
                                0 <= j < y@.len() ==> json_view_pairs(y@)[j] == (
                                y@[j].0@,
                                json_view(y@[j].1),
                                ),
                            all_eq == (forall|j: int|
                                0 <= j < i ==> json_view_pairs(x@)[j] == json_view_pairs(y@)[j]),
                        decreases x@.len() - i,
                    {
                        let keys_eq = x[i].0 == y[i].0;
                        let vals_eq = json_eq(&x[i].1, &y[i].1);
                        proof {
                            if keys_eq && vals_eq {
                                assert((x@[i as int].0@, json_view(x@[i as int].1)) == (
                                y@[i as int].0@,
                                json_view(y@[i as int].1),
                                ));
                                assert(json_view_pairs(x@)[i as int] == json_view_pairs(y@)[
                                    i as int
                                ]);
                            } else {
                                assert(json_view_pairs(x@)[i as int] != json_view_pairs(y@)[
                                    i as int
                                ]);
                            }
                        }
                        all_eq = all_eq && keys_eq && vals_eq;
                    }
                    proof {
                        if all_eq {
                            assert(json_view_pairs(x@) =~= json_view_pairs(y@));
                        } else {
                            let j = choose|j: int|
                                0 <= j < x@.len() && json_view_pairs(x@)[j] != json_view_pairs(
                                    y@,
                                )[j];
                            assert(json_view_pairs(x@)[j] != json_view_pairs(y@)[j]);
                        }
                    }
                    all_eq
                }
            },
            _ => false,
        },
    }
}

} // verus!
