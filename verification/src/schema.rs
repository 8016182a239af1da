use vstd::prelude::*;

use crate::json::Json;
use crate::json::JsonV;
use crate::json::Number;
use crate::json::json_view_seq;
use crate::patterns::pattern_valid;

verus! {

/// Policy for document object properties that have no schema entry.
#[derive(Clone, Copy, Debug, PartialEq, Eq, Structural)]
pub enum UnknownPolicy {
    Reject,
    Allow,
    Ignore,
}

/// A named format constraint, resolved to its checker at compile time.
#[derive(Clone, Copy, Debug, PartialEq, Eq, Structural)]
pub enum FormatId {
    VariantId,
    EnsemblGeneId,
}

/// One node of a compiled schema tree.
#[derive(Debug)]
pub enum SchemaNode {
    Object {
        properties: Vec<(String, SchemaNode)>,
        required: Vec<String>,
        unknown: UnknownPolicy,
    },
    Array { item: Box<SchemaNode>, min_items: Option<u64>, max_items: Option<u64> },
    Str { format: Option<FormatId>, pattern: Option<String> },
    Num { minimum: Option<Number>, maximum: Option<Number> },
    Int { minimum: Option<Number>, maximum: Option<Number> },
    Boolean,
    Enumeration { allowed: Vec<Json> },
    AnyOf { alternatives: Vec<SchemaNode> },
}

/// The mathematical model of a schema node. Numeric bounds are held in
/// billionths, as in `Number`.
#[verifier::ext_equal]
pub enum SchemaV {
    Object {
        properties: Seq<(Seq<char>, SchemaV)>,
        required: Seq<Seq<char>>,
        unknown: UnknownPolicy,
    },
    Array { item: Box<SchemaV>, min_items: Option<int>, max_items: Option<int> },
    Str { format: Option<FormatId>, pattern: Option<Seq<char>> },
    Num { minimum: Option<int>, maximum: Option<int> },
    Int { minimum: Option<int>, maximum: Option<int> },
    Boolean,
    Enumeration { allowed: Seq<JsonV> },
    AnyOf { alternatives: Seq<SchemaV> },
}

pub open spec fn opt_u64_view(o: Option<u64>) -> Option<int> {
    match o {
        Option::Some(v) => Option::Some(v as int),
        Option::None => Option::None,
    }
}

pub open spec fn opt_num_view(o: Option<Number>) -> Option<int> {
    match o {
        Option::Some(n) => Option::Some(n.nanos as int),
        Option::None => Option::None,
    }
}

pub open spec fn opt_str_view(o: Option<String>) -> Option<Seq<char>> {
    match o {
        Option::Some(s) => Option::Some(s@),
        Option::None => Option::None,
    }
}

pub open spec fn strs_view(s: Seq<String>) -> Seq<Seq<char>>
    decreases s,
{
    if s.len() == 0 {
        Seq::empty()
    } else {
        strs_view(s.drop_last()).push(s.last()@)
    }
}

pub open spec fn schema_view(s: SchemaNode) -> SchemaV
    decreases s,
{
    match s {
        SchemaNode::Object { properties, required, unknown } => SchemaV::Object {
            properties: schema_view_props(properties@),
            required: strs_view(required@),
            unknown,
        },
        SchemaNode::Array { item, min_items, max_items } => SchemaV::Array {
            item: Box::new(schema_view(*item)),
            min_items: opt_u64_view(min_items),
            max_items: opt_u64_view(max_items),
        },
        SchemaNode::Str { format, pattern } => SchemaV::Str {
            format,
            pattern: opt_str_view(pattern),
        },
        SchemaNode::Num { minimum, maximum } => SchemaV::Num {
            minimum: opt_num_view(minimum),
            maximum: opt_num_view(maximum),
        },
        SchemaNode::Int { minimum, maximum } => SchemaV::Int {
            minimum: opt_num_view(minimum),
            maximum: opt_num_view(maximum),
        },
        SchemaNode::Boolean => SchemaV::Boolean,
        SchemaNode::Enumeration { allowed } => SchemaV::Enumeration {
            allowed: json_view_seq(allowed@),
        },
        SchemaNode::AnyOf { alternatives } => SchemaV::AnyOf {
            alternatives: schema_view_seq(alternatives@),
        },
    }
}

pub open spec fn schema_view_props(s: Seq<(String, SchemaNode)>) -> Seq<(Seq<char>, SchemaV)>
    decreases s,
{
    if s.len() == 0 {
        Seq::empty()
    } else {
        schema_view_props(s.drop_last()).push((s.last().0@, schema_view(s.last().1)))
    }
}

pub open spec fn schema_view_seq(s: Seq<SchemaNode>) -> Seq<SchemaV>
    decreases s,
{
    if s.len() == 0 {
        Seq::empty()
    } else {
        schema_view_seq(s.drop_last()).push(schema_view(s.last()))
    }
}

impl View for SchemaNode {
    type V = SchemaV;

    open spec fn view(&self) -> SchemaV {
        schema_view(*self)
    }
}

pub broadcast proof fn lemma_strs_view(s: Seq<String>)
    ensures
        (#[trigger] strs_view(s)).len() == s.len(),
        forall|i: int| 0 <= i < s.len() ==> strs_view(s)[i] == s[i]@,
    decreases s,
{
    if s.len() > 0 {
        lemma_strs_view(s.drop_last());
    }
}

pub broadcast proof fn lemma_schema_view_props(s: Seq<(String, SchemaNode)>)
    ensures
        (#[trigger] schema_view_props(s)).len() == s.len(),
        forall|i: int|
            0 <= i < s.len() ==> schema_view_props(s)[i] == (s[i].0@, schema_view(s[i].1)),
    decreases s,
{
    if s.len() > 0 {
        lemma_schema_view_props(s.drop_last());
    }
}

pub broadcast proof fn lemma_schema_view_seq(s: Seq<SchemaNode>)
    ensures
        (#[trigger] schema_view_seq(s)).len() == s.len(),
        forall|i: int| 0 <= i < s.len() ==> schema_view_seq(s)[i] == schema_view(s[i]),
    decreases s,
{
    if s.len() > 0 {
        lemma_schema_view_seq(s.drop_last());
    }
}

pub broadcast proof fn lemma_strs_view_push(s: Seq<String>, x: String)
    ensures
        #[trigger] strs_view(s.push(x)) == strs_view(s).push(x@),
{
    assert(s.push(x).drop_last() =~= s);
    assert(s.push(x).last() == x);
}

pub broadcast proof fn lemma_schema_view_props_push(
    s: Seq<(String, SchemaNode)>,
    p: (String, SchemaNode),
)
    ensures
        #[trigger] schema_view_props(s.push(p)) == schema_view_props(s).push(
            (p.0@, schema_view(p.1)),
        ),
{
    assert(s.push(p).drop_last() =~= s);
    assert(s.push(p).last() == p);
}

pub broadcast proof fn lemma_schema_view_seq_push(s: Seq<SchemaNode>, x: SchemaNode)
    ensures
        #[trigger] schema_view_seq(s.push(x)) == schema_view_seq(s).push(schema_view(x)),
{
    assert(s.push(x).drop_last() =~= s);
    assert(s.push(x).last() == x);
}

/// Well-formedness of a schema tree: every pattern constraint holds a valid
/// regular expression.
pub open spec fn schema_wf(s: SchemaV) -> bool
    decreases s,
{
    match s {
        SchemaV::Object { properties, .. } => forall|i: int|
            0 <= i < properties.len() ==> schema_wf((#[trigger] properties[i]).1),
        SchemaV::Array { item, .. } => schema_wf(*item),
        SchemaV::Str { pattern, .. } => match pattern {
            Option::Some(p) => pattern_valid(p),
            Option::None => true,
        },
        SchemaV::Num { .. } => true,
        SchemaV::Int { .. } => true,
        SchemaV::Boolean => true,
        SchemaV::Enumeration { .. } => true,
        SchemaV::AnyOf { alternatives } => forall|i: int|
            0 <= i < alternatives.len() ==> schema_wf(#[trigger] alternatives[i]),
    }
}

} // verus!
