use vstd::prelude::*;

use crate::json::Json;
use crate::json::JsonV;
use crate::json::Number;
use crate::json::NANOS_PER_UNIT;
use crate::json::json_view;
use crate::json::json_view_pairs;
use crate::json::json_view_seq;
use crate::json::key_is;
use crate::json::lemma_json_view_pairs;
use crate::json::lemma_json_view_seq;
use crate::json::num_is_integer;
use crate::json::obj_get;
use crate::patterns::pattern_valid;
use crate::patterns::regex_pattern_ok;
use crate::schema::FormatId;
use crate::schema::SchemaNode;
use crate::schema::SchemaV;
use crate::schema::UnknownPolicy;
use crate::schema::lemma_schema_view_props;
use crate::schema::lemma_schema_view_seq;
use crate::schema::lemma_strs_view;
use crate::schema::opt_num_view;
use crate::schema::opt_u64_view;
use crate::schema::schema_view;
use crate::schema::schema_view_props;
use crate::schema::schema_view_seq;
use crate::schema::schema_wf;
use crate::schema::strs_view;
use crate::validate::CompiledValidator;
use crate::validate::spec_valid;
use crate::validate::spec_violations;

verus! {

broadcast use vstd::std_specs::vec::group_vec_axioms, crate::json::lemma_json_view_seq_push,
    crate::json::lemma_json_view_pairs_push, crate::schema::lemma_strs_view_push,
    crate::schema::lemma_schema_view_props_push, crate::schema::lemma_schema_view_seq_push;

/// Why a raw schema document could not be compiled.
#[derive(Clone, Copy, Debug, PartialEq, Eq, Structural)]
pub enum CompileError {
    /// A `format` keyword names a checker that is not registered.
    UnknownFormat,
    /// A `pattern` keyword holds text that is not a valid regular expression.
    InvalidPattern,
    /// The document does not have the shape of a schema node.
    Malformed,
}

/// Index of the first pair carrying `key`, or -1.
pub open spec fn obj_idx(pairs: Seq<(Seq<char>, JsonV)>, key: Seq<char>) -> int
    decreases pairs.len(),
{
    if pairs.len() == 0 {
        -1
    } else if pairs[0].0 == key {
        0
    } else {
        let r = obj_idx(pairs.drop_first(), key);
        if r < 0 {
            -1
        } else {
            r + 1
        }
    }
}

pub proof fn lemma_obj_idx(pairs: Seq<(Seq<char>, JsonV)>, key: Seq<char>)
    ensures
        obj_idx(pairs, key) >= 0 ==> {
            &&& 0 <= obj_idx(pairs, key) < pairs.len()
            &&& pairs[obj_idx(pairs, key)].0 == key
            &&& obj_get(pairs, key) == Option::Some(pairs[obj_idx(pairs, key)].1)
        },
        obj_idx(pairs, key) < 0 ==> obj_get(pairs, key) is None,
    decreases pairs.len(),
{
    if pairs.len() > 0 && pairs[0].0 != key {
        lemma_obj_idx(pairs.drop_first(), key);
    }
}

/// The value of an optional numeric bound keyword: `Some(None)` when absent,
/// `Some(Some(n))` for a number, `None` for anything else.
pub open spec fn num_bound_at(pairs: Seq<(Seq<char>, JsonV)>, key: Seq<char>) -> Option<
    Option<int>,
> {
    let i = obj_idx(pairs, key);
    if i < 0 {
        Option::Some(Option::None)
    } else if i < pairs.len() {
        match pairs[i].1 {
            JsonV::Num(n) => Option::Some(Option::Some(n)),
            _ => Option::None,
        }
    } else {
        Option::Some(Option::None)
    }
}

/// The value of an optional array-length bound keyword: it must be a
/// non-negative whole number that fits the machine bound.
pub open spec fn len_bound_at(pairs: Seq<(Seq<char>, JsonV)>, key: Seq<char>) -> Option<
    Option<int>,
> {
    let i = obj_idx(pairs, key);
    if i < 0 {
        Option::Some(Option::None)
    } else if i < pairs.len() {
        match pairs[i].1 {
            JsonV::Num(n) => if num_is_integer(n) && n >= 0 && n / (NANOS_PER_UNIT as int)
                <= u64::MAX {
                Option::Some(Option::Some(n / (NANOS_PER_UNIT as int)))
            } else {
                Option::None
            },
            _ => Option::None,
        }
    } else {
        Option::Some(Option::None)
    }
}

/// The resolved `format` keyword: `Some(None)` when absent, `Some(Some(f))`
/// for a registered name, `None` for an unregistered name or a non-string.
pub open spec fn format_at(pairs: Seq<(Seq<char>, JsonV)>) -> Option<Option<FormatId>> {
    let i = obj_idx(pairs, "format"@);
    if i < 0 {
        Option::Some(Option::None)
    } else if i < pairs.len() {
        match pairs[i].1 {
            JsonV::Str(t) => if t == "variant-id"@ {
                Option::Some(Option::Some(FormatId::VariantId))
            } else if t == "ensembl-gene-id"@ {
                Option::Some(Option::Some(FormatId::EnsemblGeneId))
            } else {
                Option::None
            },
            _ => Option::None,
        }
    } else {
        Option::Some(Option::None)
    }
}

/// Whether the `format` keyword, if present, holds a string at all.
pub open spec fn format_is_string(pairs: Seq<(Seq<char>, JsonV)>) -> bool {
    let i = obj_idx(pairs, "format"@);
    i < 0 || (i < pairs.len() && pairs[i].1 is Str)
}

/// The `pattern` keyword: `Some(None)` when absent, `Some(Some(p))` for a
/// valid regular expression, `None` otherwise.
pub open spec fn pattern_at(pairs: Seq<(Seq<char>, JsonV)>) -> Option<Option<Seq<char>>> {
    let i = obj_idx(pairs, "pattern"@);
    if i < 0 {
        Option::Some(Option::None)
    } else if i < pairs.len() {
        match pairs[i].1 {
            JsonV::Str(p) => if pattern_valid(p) {
                Option::Some(Option::Some(p))
            } else {
                Option::None
            },
            _ => Option::None,
        }
    } else {
        Option::Some(Option::None)
    }
}

/// The first `i` items read as strings, or nothing if one is not a string.
pub open spec fn str_names(items: Seq<JsonV>, i: int) -> Option<Seq<Seq<char>>>
    decreases i,
{
    if i <= 0 {
        Option::Some(Seq::empty())
    } else {
        match str_names(items, i - 1) {
            Option::Some(acc) => match items[i - 1] {
                JsonV::Str(t) => Option::Some(acc.push(t)),
                _ => Option::None,
            },
            Option::None => Option::None,
        }
    }
}

/// The `required` keyword: `Some(empty)` when absent, the names when it is an
/// array of strings, `None` otherwise.
pub open spec fn required_at(pairs: Seq<(Seq<char>, JsonV)>) -> Option<Seq<Seq<char>>> {
    let i = obj_idx(pairs, "required"@);
    if i < 0 {
        Option::Some(Seq::empty())
    } else if i < pairs.len() {
        match pairs[i].1 {
            JsonV::Arr(items) => str_names(items, items.len() as int),
            _ => Option::None,
        }
    } else {
        Option::Some(Seq::empty())
    }
}

/// The `additionalProperties` keyword: absent means unknown properties are
/// ignored; `true` allows them, `false` rejects them.
pub open spec fn policy_at(pairs: Seq<(Seq<char>, JsonV)>) -> Option<UnknownPolicy> {
    let i = obj_idx(pairs, "additionalProperties"@);
    if i < 0 {
        Option::Some(UnknownPolicy::Ignore)
    } else if i < pairs.len() {
        match pairs[i].1 {
            JsonV::Bool(b) => if b {
                Option::Some(UnknownPolicy::Allow)
            } else {
                Option::Some(UnknownPolicy::Reject)
            },
            _ => Option::None,
        }
    } else {
        Option::Some(UnknownPolicy::Ignore)
    }
}

/// Compilation of the first `i` property sub-schemas.
pub open spec fn compile_props(props: Seq<(Seq<char>, JsonV)>, i: int) -> Option<
    Seq<(Seq<char>, SchemaV)>,
>
    decreases props, (if i <= 0 {
        0int
    } else {
        i
    }),
{
    if i <= 0 || i > props.len() {
        Option::Some(Seq::empty())
    } else {
        match (compile_props(props, i - 1), compile_spec(props[i - 1].1)) {
            (Option::Some(acc), Option::Some(c)) => Option::Some(acc.push((props[i - 1].0, c))),
            _ => Option::None,
        }
    }
}

/// Compilation of the first `i` alternatives.
pub open spec fn compile_alts(alts: Seq<JsonV>, i: int) -> Option<Seq<SchemaV>>
    decreases alts, (if i <= 0 {
        0int
    } else {
        i
    }),
{
    if i <= 0 || i > alts.len() {
        Option::Some(Seq::empty())
    } else {
        match (compile_alts(alts, i - 1), compile_spec(alts[i - 1])) {
            (Option::Some(acc), Option::Some(c)) => Option::Some(acc.push(c)),
            _ => Option::None,
        }
    }
}

pub open spec fn compile_object(pairs: Seq<(Seq<char>, JsonV)>) -> Option<SchemaV>
    decreases pairs, 3int,
{
    let pi = obj_idx(pairs, "properties"@);
    let props_opt: Option<Seq<(Seq<char>, SchemaV)>> = if pi < 0 {
        Option::Some(Seq::empty())
    } else if pi < pairs.len() {
        match pairs[pi].1 {
            JsonV::Obj(props) => compile_props(props, props.len() as int),
            _ => Option::None,
        }
    } else {
        Option::Some(Seq::empty())
    };
    match (props_opt, required_at(pairs), policy_at(pairs)) {
        (Option::Some(p), Option::Some(r), Option::Some(u)) => Option::Some(
            SchemaV::Object { properties: p, required: r, unknown: u },
        ),
        _ => Option::None,
    }
}

pub open spec fn compile_array(pairs: Seq<(Seq<char>, JsonV)>) -> Option<SchemaV>
    decreases pairs, 3int,
{
    let ii = obj_idx(pairs, "items"@);
    let item_opt: Option<SchemaV> = if 0 <= ii < pairs.len() {
        compile_spec(pairs[ii].1)
    } else {
        Option::None
    };
    match (item_opt, len_bound_at(pairs, "minItems"@), len_bound_at(pairs, "maxItems"@)) {
        (Option::Some(item), Option::Some(lo), Option::Some(hi)) => Option::Some(
            SchemaV::Array { item: Box::new(item), min_items: lo, max_items: hi },
        ),
        _ => Option::None,
    }
}

pub open spec fn compile_string(pairs: Seq<(Seq<char>, JsonV)>) -> Option<SchemaV> {
    match (format_at(pairs), pattern_at(pairs)) {
        (Option::Some(f), Option::Some(p)) => Option::Some(SchemaV::Str { format: f, pattern: p }),
        _ => Option::None,
    }
}

/// The deterministic meaning of compilation: the compiled schema tree, or
/// nothing when the document is not a compilable schema node.
pub open spec fn compile_spec(d: JsonV) -> Option<SchemaV>
    decreases d, 4int,
{
    match d {
        JsonV::Obj(pairs) => {
            let ei = obj_idx(pairs, "enum"@);
            let ai = obj_idx(pairs, "anyOf"@);
            let ti = obj_idx(pairs, "type"@);
            if 0 <= ei < pairs.len() {
                match pairs[ei].1 {
                    JsonV::Arr(vals) => if vals.len() >= 1 {
                        Option::Some(SchemaV::Enumeration { allowed: vals })
                    } else {
                        Option::None
                    },
                    _ => Option::None,
                }
            } else if 0 <= ai < pairs.len() {
                match pairs[ai].1 {
                    JsonV::Arr(alts) => if alts.len() >= 1 {
                        match compile_alts(alts, alts.len() as int) {
                            Option::Some(cs) => Option::Some(SchemaV::AnyOf { alternatives: cs }),
                            Option::None => Option::None,
                        }
                    } else {
                        Option::None
                    },
                    _ => Option::None,
                }
            } else if 0 <= ti < pairs.len() {
                match pairs[ti].1 {
                    JsonV::Str(t) => if t == "object"@ {
                        compile_object(pairs)
                    } else if t == "array"@ {
                        compile_array(pairs)
                    } else if t == "string"@ {
                        compile_string(pairs)
                    } else if t == "number"@ {
                        match (num_bound_at(pairs, "minimum"@), num_bound_at(pairs, "maximum"@)) {
                            (Option::Some(lo), Option::Some(hi)) => Option::Some(
                                SchemaV::Num { minimum: lo, maximum: hi },
                            ),
                            _ => Option::None,
                        }
                    } else if t == "integer"@ {
                        match (num_bound_at(pairs, "minimum"@), num_bound_at(pairs, "maximum"@)) {
                            (Option::Some(lo), Option::Some(hi)) => Option::Some(
                                SchemaV::Int { minimum: lo, maximum: hi },
                            ),
                            _ => Option::None,
                        }
                    } else if t == "boolean"@ {
                        Option::Some(SchemaV::Boolean)
                    } else {
                        Option::None
                    },
                    _ => Option::None,
                }
            } else {
                Option::None
            }
        },
        _ => Option::None,
    }
}

/// A compiled schema tree is always well-formed: every pattern that survives
/// compilation is a valid regular expression.
pub proof fn lemma_compile_wf(d: JsonV)
    requires
        compile_spec(d) is Some,
    ensures
        schema_wf(compile_spec(d)->Some_0),
    decreases d, 5int,
{
    match d {
        JsonV::Obj(pairs) => {
            let ei = obj_idx(pairs, "enum"@);
            let ai = obj_idx(pairs, "anyOf"@);
            let ti = obj_idx(pairs, "type"@);
            if 0 <= ei < pairs.len() {
            } else if 0 <= ai < pairs.len() {
                match pairs[ai].1 {
                    JsonV::Arr(alts) => {
                        lemma_compile_alts_wf(alts, alts.len() as int);
                    },
                    _ => {},
                }
            } else if 0 <= ti < pairs.len() {
                match pairs[ti].1 {
                    JsonV::Str(t) => {
                        if t == "object"@ {
                            let pi = obj_idx(pairs, "properties"@);
                            if 0 <= pi < pairs.len() {
                                match pairs[pi].1 {
                                    JsonV::Obj(props) => {
                                        lemma_compile_props_wf(props, props.len() as int);
                                    },
                                    _ => {},
                                }
                            }
                        } else if t == "array"@ {
                            let ii = obj_idx(pairs, "items"@);
                            if 0 <= ii < pairs.len() {
                                lemma_compile_wf(pairs[ii].1);
                            }
                        }
                    },
                    _ => {},
                }
            }
        },
        _ => {},
    }
}

proof fn lemma_compile_props_wf(props: Seq<(Seq<char>, JsonV)>, i: int)
    requires
        compile_props(props, i) is Some,
    ensures
        forall|m: int|
            0 <= m < compile_props(props, i)->Some_0.len() ==> schema_wf(
                (#[trigger] compile_props(props, i)->Some_0[m]).1,
            ),
    decreases props, (if i <= 0 {
        0int
    } else {
        i
    }), 6int,
{
    if 0 < i <= props.len() {
        lemma_compile_props_wf(props, i - 1);
        lemma_compile_wf(props[i - 1].1);
    }
}

proof fn lemma_compile_alts_wf(alts: Seq<JsonV>, i: int)
    requires
        compile_alts(alts, i) is Some,
    ensures
        forall|m: int|
            0 <= m < compile_alts(alts, i)->Some_0.len() ==> schema_wf(
                #[trigger] compile_alts(alts, i)->Some_0[m],
            ),
    decreases alts, (if i <= 0 {
        0int
    } else {
        i
    }), 6int,
{
    if 0 < i <= alts.len() {
        lemma_compile_alts_wf(alts, i - 1);
        lemma_compile_wf(alts[i - 1]);
    }
}

/// Compiling the same schema document twice gives equal validators, which
/// accept and reject exactly the same documents.
///
/// Law: compilation is deterministic; two compilations of one schema document
/// agree on the findings for every document.
pub proof fn lemma_recompile_equivalent(doc: JsonV, r1: SchemaV, r2: SchemaV)
    requires
        compile_spec(doc) == Option::Some(r1),
        compile_spec(doc) == Option::Some(r2),
    ensures
        r1 == r2,
        forall|d: JsonV| spec_valid(r1, d) == spec_valid(r2, d),
        forall|d: JsonV, path: Seq<crate::validate::PathSegV>|
            spec_violations(r1, d, path) == spec_violations(r2, d, path),
{
}


/// Every key of an enumeration node.
pub open spec fn key_of_enum(k: Seq<char>) -> bool {
    k == "enum"@
}

pub open spec fn key_of_anyof(k: Seq<char>) -> bool {
    k == "anyOf"@
}

pub open spec fn key_of_object(k: Seq<char>) -> bool {
    k == "type"@ || k == "properties"@ || k == "required"@ || k == "additionalProperties"@
}

pub open spec fn key_of_array(k: Seq<char>) -> bool {
    k == "type"@ || k == "items"@ || k == "minItems"@ || k == "maxItems"@
}

pub open spec fn key_of_string(k: Seq<char>) -> bool {
    k == "type"@ || k == "format"@ || k == "pattern"@
}

pub open spec fn key_of_numeric(k: Seq<char>) -> bool {
    k == "type"@ || k == "minimum"@ || k == "maximum"@
}

pub open spec fn meta_object(pairs: Seq<(Seq<char>, JsonV)>) -> bool
    decreases pairs, 3int,
{
    &&& forall|m: int| 0 <= m < pairs.len() ==> key_of_object((#[trigger] pairs[m]).0)
    &&& {
        let pi = obj_idx(pairs, "properties"@);
        pi < 0 || (pi < pairs.len() && match pairs[pi].1 {
            JsonV::Obj(props) => forall|m: int|
                0 <= m < props.len() ==> meta_spec((#[trigger] props[m]).1),
            _ => false,
        })
    }
    &&& required_at(pairs) is Some
    &&& policy_at(pairs) is Some
}

pub open spec fn meta_array(pairs: Seq<(Seq<char>, JsonV)>) -> bool
    decreases pairs, 3int,
{
    &&& forall|m: int| 0 <= m < pairs.len() ==> key_of_array((#[trigger] pairs[m]).0)
    &&& {
        let ii = obj_idx(pairs, "items"@);
        0 <= ii < pairs.len() && meta_spec(pairs[ii].1)
    }
    &&& len_bound_at(pairs, "minItems"@) is Some
    &&& len_bound_at(pairs, "maxItems"@) is Some
}

pub open spec fn meta_string(pairs: Seq<(Seq<char>, JsonV)>) -> bool {
    &&& forall|m: int| 0 <= m < pairs.len() ==> key_of_string((#[trigger] pairs[m]).0)
    &&& format_is_string(pairs)
    &&& pattern_at(pairs) is Some
}

pub open spec fn meta_numeric(pairs: Seq<(Seq<char>, JsonV)>) -> bool {
    &&& forall|m: int| 0 <= m < pairs.len() ==> key_of_numeric((#[trigger] pairs[m]).0)
    &&& num_bound_at(pairs, "minimum"@) is Some
    &&& num_bound_at(pairs, "maximum"@) is Some
}

/// The meta-schema: what a raw schema document must look like. A node is an
/// object carrying exactly one of `enum`, `anyOf` or `type`, only the keywords
/// of its shape, with each keyword value of the required kind, every pattern a
/// valid regular expression, and every sub-schema a valid node in turn.
/// Format names need only be strings here: unregistered names are the
/// compiler's concern.
pub open spec fn meta_spec(d: JsonV) -> bool
    decreases d, 4int,
{
    match d {
        JsonV::Obj(pairs) => {
            let ei = obj_idx(pairs, "enum"@);
            let ai = obj_idx(pairs, "anyOf"@);
            let ti = obj_idx(pairs, "type"@);
            let kinds = (if ei >= 0 { 1int } else { 0int }) + (if ai >= 0 { 1int } else { 0int })
                + (if ti >= 0 { 1int } else { 0int });
            &&& kinds == 1
            &&& if 0 <= ei < pairs.len() {
                &&& forall|m: int| 0 <= m < pairs.len() ==> key_of_enum((#[trigger] pairs[m]).0)
                &&& match pairs[ei].1 {
                    JsonV::Arr(vals) => vals.len() >= 1,
                    _ => false,
                }
            } else if 0 <= ai < pairs.len() {
                &&& forall|m: int| 0 <= m < pairs.len() ==> key_of_anyof((#[trigger] pairs[m]).0)
                &&& match pairs[ai].1 {
                    JsonV::Arr(alts) => alts.len() >= 1 && forall|m: int|
                        0 <= m < alts.len() ==> meta_spec(#[trigger] alts[m]),
                    _ => false,
                }
            } else if 0 <= ti < pairs.len() {
                match pairs[ti].1 {
                    JsonV::Str(t) => if t == "object"@ {
                        meta_object(pairs)
                    } else if t == "array"@ {
                        meta_array(pairs)
                    } else if t == "string"@ {
                        meta_string(pairs)
                    } else if t == "number"@ || t == "integer"@ {
                        meta_numeric(pairs)
                    } else if t == "boolean"@ {
                        forall|m: int| 0 <= m < pairs.len() ==> (#[trigger] pairs[m]).0 == "type"@
                    } else {
                        false
                    },
                    _ => false,
                }
            } else {
                false
            }
        },
        _ => false,
    }
}

/// Every `format` keyword in the document names a registered checker.
pub open spec fn formats_known(d: JsonV) -> bool
    decreases d, 4int,
{
    match d {
        JsonV::Obj(pairs) => {
            let ei = obj_idx(pairs, "enum"@);
            let ai = obj_idx(pairs, "anyOf"@);
            let ti = obj_idx(pairs, "type"@);
            if 0 <= ei < pairs.len() {
                true
            } else if 0 <= ai < pairs.len() {
                match pairs[ai].1 {
                    JsonV::Arr(alts) => forall|m: int|
                        0 <= m < alts.len() ==> formats_known(#[trigger] alts[m]),
                    _ => true,
                }
            } else if 0 <= ti < pairs.len() {
                match pairs[ti].1 {
                    JsonV::Str(t) => if t == "object"@ {
                        let pi = obj_idx(pairs, "properties"@);
                        !(0 <= pi < pairs.len()) || match pairs[pi].1 {
                            JsonV::Obj(props) => forall|m: int|
                                0 <= m < props.len() ==> formats_known((#[trigger] props[m]).1),
                            _ => true,
                        }
                    } else if t == "array"@ {
                        let ii = obj_idx(pairs, "items"@);
                        !(0 <= ii < pairs.len()) || formats_known(pairs[ii].1)
                    } else if t == "string"@ {
                        format_at(pairs) is Some
                    } else {
                        true
                    },
                    _ => true,
                }
            } else {
                true
            }
        },
        _ => true,
    }
}

proof fn lemma_str_names_none(items: Seq<JsonV>, i: int, j: int)
    requires
        str_names(items, i) is None,
        i <= j,
    ensures
        str_names(items, j) is None,
    decreases j - i,
{
    if j > i {
        lemma_str_names_none(items, i, j - 1);
    }
}

proof fn lemma_compile_props_none(props: Seq<(Seq<char>, JsonV)>, i: int, j: int)
    requires
        compile_props(props, i) is None,
        i <= j <= props.len(),
    ensures
        compile_props(props, j) is None,
    decreases j - i,
{
    if j > i {
        lemma_compile_props_none(props, i, j - 1);
    }
}

proof fn lemma_compile_alts_none(alts: Seq<JsonV>, i: int, j: int)
    requires
        compile_alts(alts, i) is None,
        i <= j <= alts.len(),
    ensures
        compile_alts(alts, j) is None,
    decreases j - i,
{
    if j > i {
        lemma_compile_alts_none(alts, i, j - 1);
    }
}

proof fn lemma_compile_props_some(props: Seq<(Seq<char>, JsonV)>, i: int)
    requires
        forall|m: int| 0 <= m < i ==> compile_spec((#[trigger] props[m]).1) is Some,
    ensures
        compile_props(props, i) is Some,
    decreases (if i <= 0 {
        0int
    } else {
        i
    }),
{
    if 0 < i <= props.len() {
        lemma_compile_props_some(props, i - 1);
    }
}

proof fn lemma_compile_alts_some(alts: Seq<JsonV>, i: int)
    requires
        forall|m: int| 0 <= m < i ==> compile_spec(#[trigger] alts[m]) is Some,
    ensures
        compile_alts(alts, i) is Some,
    decreases (if i <= 0 {
        0int
    } else {
        i
    }),
{
    if 0 < i <= alts.len() {
        lemma_compile_alts_some(alts, i - 1);
    }
}

/// A schema document that passes the meta-schema compiles whenever every
/// format name it references is registered.
///
/// Law: meta-validation plus registered formats guarantee compilation.
pub proof fn lemma_meta_then_compile(d: JsonV)
    requires
        meta_spec(d),
        formats_known(d),
    ensures
        compile_spec(d) is Some,
    decreases d, 5int,
{
    match d {
        JsonV::Obj(pairs) => {
            let ei = obj_idx(pairs, "enum"@);
            let ai = obj_idx(pairs, "anyOf"@);
            let ti = obj_idx(pairs, "type"@);
            if 0 <= ei < pairs.len() {
            } else if 0 <= ai < pairs.len() {
                match pairs[ai].1 {
                    JsonV::Arr(alts) => {
                        assert forall|m: int|
                            0 <= m < alts.len() implies compile_spec(#[trigger] alts[m]) is Some by {
                            lemma_meta_then_compile(alts[m]);
                        }
                        lemma_compile_alts_some(alts, alts.len() as int);
                    },
                    _ => {},
                }
            } else if 0 <= ti < pairs.len() {
                match pairs[ti].1 {
                    JsonV::Str(t) => {
                        if t == "object"@ {
                            assert(meta_object(pairs));
                            let pi = obj_idx(pairs, "properties"@);
                            if 0 <= pi < pairs.len() {
                                match pairs[pi].1 {
                                    JsonV::Obj(props) => {
                                        assert forall|m: int|
                                            0 <= m < props.len() implies compile_spec(
                                            (#[trigger] props[m]).1,
                                        ) is Some by {
                                            assert(meta_spec(props[m].1));
                                            assert(formats_known(props[m].1));
                                            lemma_meta_then_compile(props[m].1);
                                        }
                                        lemma_compile_props_some(props, props.len() as int);
                                    },
                                    _ => {},
                                }
                            }
                        } else if t == "array"@ {
                            assert(meta_array(pairs));
                            let ii = obj_idx(pairs, "items"@);
                            assert(0 <= ii < pairs.len());
                            lemma_meta_then_compile(pairs[ii].1);
                        }
                    },
                    _ => {},
                }
            }
        },
        _ => {},
    }
}


/// Index of the first pair named `key`, scanning in order.
#[verifier::loop_isolation(false)]
pub(crate) fn obj_find(pairs: &Vec<(String, Json)>, key: &str) -> (r: Option<usize>)
    ensures
        match r {
            Option::Some(i) => 0 <= i < pairs@.len() && obj_idx(json_view_pairs(pairs@), key@)
                == i as int,
            Option::None => obj_idx(json_view_pairs(pairs@), key@) == -1,
        },
{
    proof {
        lemma_json_view_pairs(pairs@);
    }
    let ghost pv = json_view_pairs(pairs@);
    for i in 0..pairs.len()
        invariant
            forall|m: int| 0 <= m < i ==> (#[trigger] pv[m]).0 != key@,
    {
        if key_is(&pairs[i].0, key) {
            proof {
                lemma_obj_idx_first(pv, key@, i as int);
            }
            return Option::Some(i);
        }
    }
    proof {
        lemma_obj_idx_none(pv, key@);
    }
    Option::None
}

proof fn lemma_obj_idx_first(pairs: Seq<(Seq<char>, JsonV)>, key: Seq<char>, i: int)
    requires
        0 <= i < pairs.len(),
        pairs[i].0 == key,
        forall|m: int| 0 <= m < i ==> (#[trigger] pairs[m]).0 != key,
    ensures
        obj_idx(pairs, key) == i,
    decreases i,
{
    if i > 0 {
        assert forall|m: int| 0 <= m < i - 1 implies (#[trigger] pairs.drop_first()[m]).0
            != key by {
            assert(pairs.drop_first()[m] == pairs[m + 1]);
        }
        assert(pairs.drop_first()[i - 1] == pairs[i]);
        lemma_obj_idx_first(pairs.drop_first(), key, i - 1);
    }
}

proof fn lemma_obj_idx_none(pairs: Seq<(Seq<char>, JsonV)>, key: Seq<char>)
    requires
        forall|m: int| 0 <= m < pairs.len() ==> (#[trigger] pairs[m]).0 != key,
    ensures
        obj_idx(pairs, key) == -1,
    decreases pairs.len(),
{
    if pairs.len() > 0 {
        assert forall|m: int|
            0 <= m < pairs.drop_first().len() implies (#[trigger] pairs.drop_first()[m]).0
            != key by {
            assert(pairs.drop_first()[m] == pairs[m + 1]);
        }
        lemma_obj_idx_none(pairs.drop_first(), key);
    }
}

/// Reads an optional numeric bound keyword.
pub(crate) fn read_num_bound(pairs: &Vec<(String, Json)>, key: &str) -> (r: Result<
    Option<Number>,
    CompileError,
>)
    ensures
        match r {
            Result::Ok(b) => num_bound_at(json_view_pairs(pairs@), key@) == Option::Some(
                opt_num_view(b),
            ),
            Result::Err(_) => num_bound_at(json_view_pairs(pairs@), key@) is None,
        },
{
    proof {
        lemma_json_view_pairs(pairs@);
    }
    match obj_find(pairs, key) {
        Option::Some(i) => match &pairs[i].1 {
            Json::Num(n) => Result::Ok(Option::Some(*n)),
            _ => Result::Err(CompileError::Malformed),
        },
        Option::None => Result::Ok(Option::None),
    }
}

/// Reads an optional array-length bound keyword.
pub(crate) fn read_len_bound(pairs: &Vec<(String, Json)>, key: &str) -> (r: Result<
    Option<u64>,
    CompileError,
>)
    ensures
        match r {
            Result::Ok(b) => len_bound_at(json_view_pairs(pairs@), key@) == Option::Some(
                opt_u64_view(b),
            ),
            Result::Err(_) => len_bound_at(json_view_pairs(pairs@), key@) is None,
        },
{
    proof {
        lemma_json_view_pairs(pairs@);
    }
    match obj_find(pairs, key) {
        Option::Some(i) => match &pairs[i].1 {
            Json::Num(n) => {
                if n.is_integer() && n.nanos >= 0 {
                    let units: i128 = n.nanos / NANOS_PER_UNIT;
                    if units <= u64::MAX as i128 {
                        Result::Ok(Option::Some(units as u64))
                    } else {
                        Result::Err(CompileError::Malformed)
                    }
                } else {
                    Result::Err(CompileError::Malformed)
                }
            },
            _ => Result::Err(CompileError::Malformed),
        },
        Option::None => Result::Ok(Option::None),
    }
}

/// Reads the `required` keyword as a list of property names.
#[verifier::loop_isolation(false)]
pub(crate) fn read_required(pairs: &Vec<(String, Json)>) -> (r: Result<Vec<String>, CompileError>)
    ensures
        match r {
            Result::Ok(names) => required_at(json_view_pairs(pairs@)) == Option::Some(
                strs_view(names@),
            ),
            Result::Err(_) => required_at(json_view_pairs(pairs@)) is None,
        },
{
    proof {
        lemma_json_view_pairs(pairs@);
    }
    match obj_find(pairs, "required") {
        Option::Some(i) => match &pairs[i].1 {
            Json::Arr(items) => {
                proof {
                    lemma_json_view_seq(items@);
                }
                let ghost items_v = json_view_seq(items@);
                let mut names: Vec<String> = Vec::new();
                for k in 0..items.len()
                    invariant
                        str_names(items_v, k as int) == Option::Some(strs_view(names@)),
                        names@.len() == k,
                {
                    let ghost before = strs_view(names@);
                    match &items[k] {
                        Json::Str(s) => {
                            names.push(s.clone());
                            proof {
                                lemma_strs_view(names@);
                                assert(names@.drop_last() =~= names@.subrange(
                                    0,
                                    names@.len() - 1,
                                ));
                                assert(strs_view(names@) =~= before.push(s@));
                            }
                        },
                        _ => {
                            proof {
                                assert(str_names(items_v, k + 1) is None);
                                lemma_str_names_none(items_v, k + 1, items@.len() as int);
                            }
                            return Result::Err(CompileError::Malformed);
                        },
                    }
                }
                Result::Ok(names)
            },
            _ => Result::Err(CompileError::Malformed),
        },
        Option::None => {
            let names: Vec<String> = Vec::new();
            proof {
                assert(strs_view(names@) =~= Seq::<Seq<char>>::empty());
            }
            Result::Ok(names)
        },
    }
}

/// Reads the `additionalProperties` keyword as an unknown-property policy.
pub(crate) fn read_policy(pairs: &Vec<(String, Json)>) -> (r: Result<UnknownPolicy, CompileError>)
    ensures
        match r {
            Result::Ok(u) => policy_at(json_view_pairs(pairs@)) == Option::Some(u),
            Result::Err(_) => policy_at(json_view_pairs(pairs@)) is None,
        },
{
    proof {
        lemma_json_view_pairs(pairs@);
    }
    match obj_find(pairs, "additionalProperties") {
        Option::Some(i) => match &pairs[i].1 {
            Json::Bool(b) => if *b {
                Result::Ok(UnknownPolicy::Allow)
            } else {
                Result::Ok(UnknownPolicy::Reject)
            },
            _ => Result::Err(CompileError::Malformed),
        },
        Option::None => Result::Ok(UnknownPolicy::Ignore),
    }
}

/// Compiles the `format` and `pattern` constraints of a string node.
fn compile_string_node(pairs: &Vec<(String, Json)>) -> (r: Result<SchemaNode, CompileError>)
    ensures
        match r {
            Result::Ok(node) => compile_string(json_view_pairs(pairs@)) == Option::Some(
                schema_view(node),
            ),
            Result::Err(_) => compile_string(json_view_pairs(pairs@)) is None,
        },
{
    proof {
        lemma_json_view_pairs(pairs@);
    }
    let format: Option<FormatId> = match obj_find(pairs, "format") {
        Option::Some(i) => match &pairs[i].1 {
            Json::Str(t) => {
                if key_is(t, "variant-id") {
                    Option::Some(FormatId::VariantId)
                } else if key_is(t, "ensembl-gene-id") {
                    Option::Some(FormatId::EnsemblGeneId)
                } else {
                    return Result::Err(CompileError::UnknownFormat);
                }
            },
            _ => {
                return Result::Err(CompileError::Malformed);
            },
        },
        Option::None => Option::None,
    };
    let pattern: Option<String> = match obj_find(pairs, "pattern") {
        Option::Some(i) => match &pairs[i].1 {
            Json::Str(p) => {
                if regex_pattern_ok(p.as_str()) {
                    Option::Some(p.clone())
                } else {
                    return Result::Err(CompileError::InvalidPattern);
                }
            },
            _ => {
                return Result::Err(CompileError::Malformed);
            },
        },
        Option::None => Option::None,
    };
    Result::Ok(SchemaNode::Str { format, pattern })
}

/// Compiles one raw schema node into its executable form, rejecting unknown
/// format names, invalid patterns and malformed keyword values.
#[verifier::loop_isolation(false)]
#[verifier::rlimit(100)]
fn compile_node(d: &Json) -> (r: Result<SchemaNode, CompileError>)
    ensures
        match r {
            Result::Ok(node) => compile_spec(json_view(*d)) == Option::Some(schema_view(node)),
            Result::Err(_) => compile_spec(json_view(*d)) is None,
        },
    decreases *d, 4int,
{
    let ghost dv = json_view(*d);
    match d {
        Json::Obj(pairs) => {
            proof {
                lemma_json_view_pairs(pairs@);
            }
            let ghost pv = json_view_pairs(pairs@);
            if let Option::Some(ei) = obj_find(pairs, "enum") {
                match &pairs[ei].1 {
                    Json::Arr(vals) => {
                        proof {
                            lemma_json_view_seq(vals@);
                        }
                        if vals.len() >= 1 {
                            let mut allowed: Vec<Json> = Vec::new();
                            for k in 0..vals.len()
                                invariant
                                    json_view_seq(allowed@) =~= json_view_seq(vals@).subrange(
                                        0,
                                        k as int,
                                    ),
                                    allowed@.len() == k,
                            {
                                let ghost before = json_view_seq(allowed@);
                                allowed.push(json_dup(&vals[k]));
                                proof {
                                    lemma_json_view_seq(allowed@);
                                    assert(json_view_seq(allowed@) =~= json_view_seq(
                                        vals@,
                                    ).subrange(0, k + 1));
                                }
                            }
                            proof {
                                assert(json_view_seq(allowed@) =~= json_view_seq(vals@));
                            }
                            Result::Ok(SchemaNode::Enumeration { allowed })
                        } else {
                            Result::Err(CompileError::Malformed)
                        }
                    },
                    _ => Result::Err(CompileError::Malformed),
                }
            } else if let Option::Some(ai) = obj_find(pairs, "anyOf") {
                match &pairs[ai].1 {
                    Json::Arr(alts) => {
                        proof {
                            lemma_json_view_seq(alts@);
                        }
                        let ghost alts_v = json_view_seq(alts@);
                        if alts.len() >= 1 {
                            let mut compiled: Vec<SchemaNode> = Vec::new();
                            for k in 0..alts.len()
                                invariant
                                    compile_alts(alts_v, k as int) == Option::Some(
                                        schema_view_seq(compiled@),
                                    ),
                                    compiled@.len() == k,
                            {
                                let ghost before = schema_view_seq(compiled@);
                                match compile_node(&alts[k]) {
                                    Result::Ok(node) => {
                                        compiled.push(node);
                                        proof {
                                            lemma_schema_view_seq(compiled@);
                                            assert(schema_view_seq(compiled@) =~= before.push(
                                                compile_spec(alts_v[k as int])->Some_0,
                                            ));
                                        }
                                    },
                                    Result::Err(e) => {
                                        proof {
                                            assert(compile_alts(alts_v, k + 1) is None);
                                            lemma_compile_alts_none(
                                                alts_v,
                                                k + 1,
                                                alts@.len() as int,
                                            );
                                        }
                                        return Result::Err(e);
                                    },
                                }
                            }
                            Result::Ok(SchemaNode::AnyOf { alternatives: compiled })
                        } else {
                            Result::Err(CompileError::Malformed)
                        }
                    },
                    _ => Result::Err(CompileError::Malformed),
                }
            } else if let Option::Some(ti) = obj_find(pairs, "type") {
                match &pairs[ti].1 {
                    Json::Str(t) => {
                        if key_is(t, "object") {
                            let props_vec: Vec<(String, SchemaNode)> = match obj_find(
                                pairs,
                                "properties",
                            ) {
                                Option::Some(pi) => match &pairs[pi].1 {
                                    Json::Obj(props) => {
                                        proof {
                                            lemma_json_view_pairs(props@);
                                        }
                                        let ghost props_v = json_view_pairs(props@);
                                        let mut acc: Vec<(String, SchemaNode)> = Vec::new();
                                        for k in 0..props.len()
                                            invariant
                                                compile_props(props_v, k as int) == Option::Some(
                                                    schema_view_props(acc@),
                                                ),
                                                acc@.len() == k,
                                        {
                                            let ghost before = schema_view_props(acc@);
                                            match compile_node(&props[k].1) {
                                                Result::Ok(node) => {
                                                    acc.push((props[k].0.clone(), node));
                                                    proof {
                                                        lemma_schema_view_props(acc@);
                                                        assert(schema_view_props(acc@)
                                                            =~= before.push(
                                                            (
                                                                props_v[k as int].0,
                                                                compile_spec(
                                                                    props_v[k as int].1,
                                                                )->Some_0,
                                                            ),
                                                        ));
                                                    }
                                                },
                                                Result::Err(e) => {
                                                    proof {
                                                        assert(compile_props(
                                                            props_v,
                                                            k + 1,
                                                        ) is None);
                                                        lemma_compile_props_none(
                                                            props_v,
                                                            k + 1,
                                                            props@.len() as int,
                                                        );
                                                    }
                                                    return Result::Err(e);
                                                },
                                            }
                                        }
                                        acc
                                    },
                                    _ => {
                                        return Result::Err(CompileError::Malformed);
                                    },
                                },
                                Option::None => {
                                    let acc: Vec<(String, SchemaNode)> = Vec::new();
                                    proof {
                                        assert(schema_view_props(acc@) =~= Seq::<
                                            (Seq<char>, SchemaV),
                                        >::empty());
                                    }
                                    acc
                                },
                            };
                            let required = match read_required(pairs) {
                                Result::Ok(names) => names,
                                Result::Err(e) => {
                                    return Result::Err(e);
                                },
                            };
                            let unknown = match read_policy(pairs) {
                                Result::Ok(u) => u,
                                Result::Err(e) => {
                                    return Result::Err(e);
                                },
                            };
                            Result::Ok(
                                SchemaNode::Object { properties: props_vec, required, unknown },
                            )
                        } else if key_is(t, "array") {
                            let item = match obj_find(pairs, "items") {
                                Option::Some(ii) => match compile_node(&pairs[ii].1) {
                                    Result::Ok(node) => node,
                                    Result::Err(e) => {
                                        return Result::Err(e);
                                    },
                                },
                                Option::None => {
                                    return Result::Err(CompileError::Malformed);
                                },
                            };
                            let min_items = match read_len_bound(pairs, "minItems") {
                                Result::Ok(b) => b,
                                Result::Err(e) => {
                                    return Result::Err(e);
                                },
                            };
                            let max_items = match read_len_bound(pairs, "maxItems") {
                                Result::Ok(b) => b,
                                Result::Err(e) => {
                                    return Result::Err(e);
                                },
                            };
                            Result::Ok(
                                SchemaNode::Array { item: Box::new(item), min_items, max_items },
                            )
                        } else if key_is(t, "string") {
                            compile_string_node(pairs)
                        } else if key_is(t, "number") {
                            let minimum = match read_num_bound(pairs, "minimum") {
                                Result::Ok(b) => b,
                                Result::Err(e) => {
                                    return Result::Err(e);
                                },
                            };
                            let maximum = match read_num_bound(pairs, "maximum") {
                                Result::Ok(b) => b,
                                Result::Err(e) => {
                                    return Result::Err(e);
                                },
                            };
                            Result::Ok(SchemaNode::Num { minimum, maximum })
                        } else if key_is(t, "integer") {
                            let minimum = match read_num_bound(pairs, "minimum") {
                                Result::Ok(b) => b,
                                Result::Err(e) => {
                                    return Result::Err(e);
                                },
                            };
                            let maximum = match read_num_bound(pairs, "maximum") {
                                Result::Ok(b) => b,
                                Result::Err(e) => {
                                    return Result::Err(e);
                                },
                            };
                            Result::Ok(SchemaNode::Int { minimum, maximum })
                        } else if key_is(t, "boolean") {
                            Result::Ok(SchemaNode::Boolean)
                        } else {
                            Result::Err(CompileError::Malformed)
                        }
                    },
                    _ => Result::Err(CompileError::Malformed),
                }
            } else {
                Result::Err(CompileError::Malformed)
            }
        },
        _ => Result::Err(CompileError::Malformed),
    }
}

/// A deep copy of a JSON value.
#[verifier::loop_isolation(false)]
fn json_dup(d: &Json) -> (r: Json)
    ensures
        json_view(r) == json_view(*d),
    decreases *d,
{
    match d {
        Json::Null => Json::Null,
        Json::Bool(b) => Json::Bool(*b),
        Json::Num(n) => Json::Num(*n),
        Json::Str(s) => Json::Str(s.clone()),
        Json::Arr(items) => {
            proof {
                lemma_json_view_seq(items@);
            }
            let mut out: Vec<Json> = Vec::new();
            for k in 0..items.len()
                invariant
                    json_view_seq(out@) =~= json_view_seq(items@).subrange(0, k as int),
                    out@.len() == k,
            {
                out.push(json_dup(&items[k]));
                proof {
                    lemma_json_view_seq(out@);
                    assert(json_view_seq(out@) =~= json_view_seq(items@).subrange(0, k + 1));
                }
            }
            proof {
                assert(json_view_seq(out@) =~= json_view_seq(items@));
            }
            Json::Arr(out)
        },
        Json::Obj(pairs) => {
            proof {
                lemma_json_view_pairs(pairs@);
            }
            let mut out: Vec<(String, Json)> = Vec::new();
            for k in 0..pairs.len()
                invariant
                    json_view_pairs(out@) =~= json_view_pairs(pairs@).subrange(0, k as int),
                    out@.len() == k,
            {
                out.push((pairs[k].0.clone(), json_dup(&pairs[k].1)));
                proof {
                    lemma_json_view_pairs(out@);
                    assert(json_view_pairs(out@) =~= json_view_pairs(pairs@).subrange(0, k + 1));
                }
            }
            proof {
                assert(json_view_pairs(out@) =~= json_view_pairs(pairs@));
            }
            Json::Obj(out)
        },
    }
}

/// Compiles a raw schema document into a reusable validator. Deterministic:
/// the result is a function of the document alone.
pub fn compile(doc: &Json) -> (r: Result<CompiledValidator, CompileError>)
    ensures
        match r {
            Result::Ok(c) => compile_spec(json_view(*doc)) == Option::Some(c.root_view()),
            Result::Err(_) => compile_spec(json_view(*doc)) is None,
        },
        r is Err ==> !(meta_spec(json_view(*doc)) && formats_known(json_view(*doc))),
{
    match compile_node(doc) {
        Result::Ok(node) => {
            proof {
                lemma_compile_wf(json_view(*doc));
            }
            Result::Ok(CompiledValidator::from_root(node))
        },
        Result::Err(e) => {
            proof {
                if meta_spec(json_view(*doc)) && formats_known(json_view(*doc)) {
                    lemma_meta_then_compile(json_view(*doc));
                }
            }
            Result::Err(e)
        },
    }
}

} // verus!
