use vstd::prelude::*;

use crate::formats::check_ensembl_gene_id;
use crate::formats::check_variant_id;
use crate::formats::is_ensembl_gene_id;
use crate::formats::is_variant_id;
use crate::json::Json;
use crate::json::JsonV;
use crate::json::json_eq;
use crate::json::json_view;
use crate::json::json_view_pairs;
use crate::json::json_view_seq;
use crate::json::lemma_json_view_pairs;
use crate::json::lemma_json_view_seq;
use crate::json::num_is_integer;
use crate::json::obj_get;
use crate::json::obj_lookup;
use crate::patterns::pattern_match;
use crate::patterns::regex_is_match;
use crate::schema::FormatId;
use crate::schema::SchemaNode;
use crate::schema::SchemaV;
use crate::schema::UnknownPolicy;
use crate::schema::lemma_schema_view_props;
use crate::schema::opt_str_view;
use crate::schema::opt_u64_view;
use crate::schema::lemma_schema_view_seq;
use crate::schema::lemma_strs_view;
use crate::schema::schema_view;
use crate::schema::schema_view_props;
use crate::schema::schema_view_seq;
use crate::schema::schema_wf;
use crate::schema::strs_view;

verus! {

broadcast use vstd::std_specs::vec::group_vec_axioms;

/// One step of a violation path: a property name or an array index.
#[derive(Debug, PartialEq, Eq)]
pub enum PathSeg {
    Prop(String),
    Index(usize),
}

/// The mathematical model of a path step.
pub enum PathSegV {
    Prop(Seq<char>),
    Index(int),
}

pub open spec fn seg_view(s: PathSeg) -> PathSegV {
    match s {
        PathSeg::Prop(name) => PathSegV::Prop(name@),
        PathSeg::Index(i) => PathSegV::Index(i as int),
    }
}

impl View for PathSeg {
    type V = PathSegV;

    open spec fn view(&self) -> PathSegV {
        seg_view(*self)
    }
}

pub open spec fn segs_view(s: Seq<PathSeg>) -> Seq<PathSegV>
    decreases s.len(),
{
    if s.len() == 0 {
        Seq::empty()
    } else {
        segs_view(s.drop_last()).push(seg_view(s.last()))
    }
}

pub broadcast proof fn lemma_segs_view(s: Seq<PathSeg>)
    ensures
        (#[trigger] segs_view(s)).len() == s.len(),
        forall|i: int| 0 <= i < s.len() ==> segs_view(s)[i] == seg_view(s[i]),
    decreases s.len(),
{
    if s.len() > 0 {
        lemma_segs_view(s.drop_last());
    }
}

/// The classification of one validation finding.
#[derive(Clone, Copy, Debug, PartialEq, Eq, Structural)]
pub enum ViolationKind {
    TypeMismatch,
    MissingRequired,
    UnexpectedProperty,
    LengthOutOfRange,
    PatternMismatch,
    FormatViolation,
    RangeViolation,
    EnumViolation,
    NoAlternativeMatched,
}

/// One validation finding: where it was found, what it is, a short message,
/// and, for an alternation that matched nothing, the findings of the closest
/// alternative.
#[derive(Debug, PartialEq, Eq)]
pub struct Violation {
    pub path: Vec<PathSeg>,
    pub kind: ViolationKind,
    pub message: String,
    pub sub: Vec<Violation>,
}

/// The mathematical model of a violation record.
#[verifier::ext_equal]
pub struct VioV {
    pub path: Seq<PathSegV>,
    pub kind: ViolationKind,
    pub message: Seq<char>,
    pub sub: Seq<VioV>,
}

pub open spec fn vio_view(v: Violation) -> VioV
    decreases v,
{
    VioV { path: segs_view(v.path@), kind: v.kind, message: v.message@, sub: vios_view(v.sub@) }
}

pub open spec fn vios_view(s: Seq<Violation>) -> Seq<VioV>
    decreases s,
{
    if s.len() == 0 {
        Seq::empty()
    } else {
        vios_view(s.drop_last()).push(vio_view(s.last()))
    }
}

impl View for Violation {
    type V = VioV;

    open spec fn view(&self) -> VioV {
        vio_view(*self)
    }
}

pub broadcast proof fn lemma_vios_view(s: Seq<Violation>)
    ensures
        (#[trigger] vios_view(s)).len() == s.len(),
        forall|i: int| 0 <= i < s.len() ==> vios_view(s)[i] == vio_view(s[i]),
    decreases s,
{
    if s.len() > 0 {
        lemma_vios_view(s.drop_last());
    }
}

/// The fixed message text of each violation kind.
pub open spec fn msg_for(kind: ViolationKind) -> Seq<char> {
    match kind {
        ViolationKind::TypeMismatch => "value has wrong type"@,
        ViolationKind::MissingRequired => "missing required property"@,
        ViolationKind::UnexpectedProperty => "unexpected property"@,
        ViolationKind::LengthOutOfRange => "array length out of range"@,
        ViolationKind::PatternMismatch => "string does not match pattern"@,
        ViolationKind::FormatViolation => "string does not match format"@,
        ViolationKind::RangeViolation => "number out of range"@,
        ViolationKind::EnumViolation => "value not among allowed values"@,
        ViolationKind::NoAlternativeMatched => "no alternative matched"@,
    }
}

/// A violation without sub-findings at a given path.
pub open spec fn mk_vio(path: Seq<PathSegV>, kind: ViolationKind) -> VioV {
    VioV { path, kind, message: msg_for(kind), sub: Seq::empty() }
}

/// Whether an object's pair list carries `key`.
pub open spec fn obj_has(pairs: Seq<(Seq<char>, JsonV)>, key: Seq<char>) -> bool {
    exists|m: int| 0 <= m < pairs.len() && (#[trigger] pairs[m]).0 == key
}

/// Whether a property list carries an entry for `key`.
pub open spec fn props_has(props: Seq<(Seq<char>, SchemaV)>, key: Seq<char>) -> bool {
    exists|m: int| 0 <= m < props.len() && (#[trigger] props[m]).0 == key
}

/// Whether a value equals one of the allowed enumeration values.
pub open spec fn enum_matches(allowed: Seq<JsonV>, d: JsonV) -> bool {
    exists|m: int| 0 <= m < allowed.len() && #[trigger] allowed[m] == d
}

/// What the named format checker accepts.
pub open spec fn format_ok(f: FormatId, t: Seq<char>) -> bool {
    match f {
        FormatId::VariantId => is_variant_id(t),
        FormatId::EnsemblGeneId => is_ensembl_gene_id(t),
    }
}

/// Inclusive bounds check on a number value (in billionths).
pub open spec fn bounds_ok(minimum: Option<int>, maximum: Option<int>, n: int) -> bool {
    &&& match minimum {
        Option::Some(m) => m <= n,
        Option::None => true,
    }
    &&& match maximum {
        Option::Some(m) => n <= m,
        Option::None => true,
    }
}

/// The document value conforms to the schema node.
pub open spec fn spec_valid(s: SchemaV, d: JsonV) -> bool
    decreases s,
{
    match s {
        SchemaV::Object { properties, required, unknown } => match d {
            JsonV::Obj(pairs) => {
                &&& forall|m: int|
                    0 <= m < required.len() ==> obj_has(pairs, #[trigger] required[m])
                &&& forall|m: int|
                    0 <= m < properties.len() ==> match obj_get(
                        pairs,
                        (#[trigger] properties[m]).0,
                    ) {
                        Option::Some(v) => spec_valid(properties[m].1, v),
                        Option::None => true,
                    }
                &&& (unknown == UnknownPolicy::Reject ==> forall|m: int|
                    0 <= m < pairs.len() ==> props_has(properties, (#[trigger] pairs[m]).0))
            },
            _ => false,
        },
        SchemaV::Array { item, min_items, max_items } => match d {
            JsonV::Arr(elems) => {
                &&& bounds_ok(min_items, max_items, elems.len() as int)
                &&& forall|m: int| 0 <= m < elems.len() ==> spec_valid(*item, #[trigger] elems[m])
            },
            _ => false,
        },
        SchemaV::Str { format, pattern } => match d {
            JsonV::Str(t) => match format {
                Option::Some(f) => format_ok(f, t),
                Option::None => match pattern {
                    Option::Some(p) => pattern_match(p, t),
                    Option::None => true,
                },
            },
            _ => false,
        },
        SchemaV::Num { minimum, maximum } => match d {
            JsonV::Num(n) => bounds_ok(minimum, maximum, n),
            _ => false,
        },
        SchemaV::Int { minimum, maximum } => match d {
            JsonV::Num(n) => num_is_integer(n) && bounds_ok(minimum, maximum, n),
            _ => false,
        },
        SchemaV::Boolean => d is Bool,
        SchemaV::Enumeration { allowed } => enum_matches(allowed, d),
        SchemaV::AnyOf { alternatives } => exists|m: int|
            0 <= m < alternatives.len() && spec_valid(#[trigger] alternatives[m], d),
    }
}

/// The `MissingRequired` findings for the first `i` required names.
pub open spec fn vio_required(
    required: Seq<Seq<char>>,
    i: int,
    pairs: Seq<(Seq<char>, JsonV)>,
    path: Seq<PathSegV>,
) -> Seq<VioV>
    decreases i,
{
    if i <= 0 {
        Seq::empty()
    } else {
        vio_required(required, i - 1, pairs, path) + (if obj_has(pairs, required[i - 1]) {
            Seq::empty()
        } else {
            seq![
                mk_vio(path.push(PathSegV::Prop(required[i - 1])), ViolationKind::MissingRequired),
            ]
        })
    }
}

/// The findings of the first `i` property sub-schemas against the object.
pub open spec fn vio_props(
    props: Seq<(Seq<char>, SchemaV)>,
    i: int,
    pairs: Seq<(Seq<char>, JsonV)>,
    path: Seq<PathSegV>,
) -> Seq<VioV>
    decreases props, (if i <= 0 {
        0int
    } else {
        i
    }),
{
    if i <= 0 || i > props.len() {
        Seq::empty()
    } else {
        vio_props(props, i - 1, pairs, path) + (match obj_get(pairs, props[i - 1].0) {
            Option::Some(v) => spec_violations(
                props[i - 1].1,
                v,
                path.push(PathSegV::Prop(props[i - 1].0)),
            ),
            Option::None => Seq::empty(),
        })
    }
}

/// The `UnexpectedProperty` findings for the first `i` document pairs.
pub open spec fn vio_unknown(
    props: Seq<(Seq<char>, SchemaV)>,
    pairs: Seq<(Seq<char>, JsonV)>,
    i: int,
    path: Seq<PathSegV>,
) -> Seq<VioV>
    decreases i,
{
    if i <= 0 {
        Seq::empty()
    } else {
        vio_unknown(props, pairs, i - 1, path) + (if props_has(props, pairs[i - 1].0) {
            Seq::empty()
        } else {
            seq![
                mk_vio(
                    path.push(PathSegV::Prop(pairs[i - 1].0)),
                    ViolationKind::UnexpectedProperty,
                ),
            ]
        })
    }
}

/// The findings of the item schema against the first `i` array elements.
pub open spec fn vio_items(
    item: SchemaV,
    elems: Seq<JsonV>,
    i: int,
    path: Seq<PathSegV>,
) -> Seq<VioV>
    decreases item, (if i <= 0 {
        0int
    } else {
        i
    }),
{
    if i <= 0 || i > elems.len() {
        Seq::empty()
    } else {
        vio_items(item, elems, i - 1, path) + spec_violations(
            item,
            elems[i - 1],
            path.push(PathSegV::Index(i - 1)),
        )
    }
}

/// The findings of the first `i` alternatives, each evaluated independently.
pub open spec fn anyof_results(
    alts: Seq<SchemaV>,
    i: int,
    d: JsonV,
    path: Seq<PathSegV>,
) -> Seq<Seq<VioV>>
    decreases alts, (if i <= 0 {
        0int
    } else {
        i
    }),
{
    if i <= 0 || i > alts.len() {
        Seq::empty()
    } else {
        anyof_results(alts, i - 1, d, path).push(spec_violations(alts[i - 1], d, path))
    }
}

/// The index of the first alternative with the fewest findings.
pub open spec fn best_idx(results: Seq<Seq<VioV>>) -> int
    decreases results.len(),
{
    if results.len() <= 1 {
        0
    } else {
        let b = best_idx(results.drop_last());
        if results.last().len() < results[b].len() {
            results.len() - 1
        } else {
            b
        }
    }
}

/// The sub-findings attached to a failed alternation: those of the first
/// alternative with the fewest findings.
pub open spec fn anyof_sub(results: Seq<Seq<VioV>>) -> Seq<VioV> {
    if results.len() == 0 {
        Seq::empty()
    } else {
        results[best_idx(results)]
    }
}

/// All findings of the schema node against the document value, in traversal
/// order: required names first, then property sub-schemas in schema order,
/// then unexpected properties in document order.
pub open spec fn spec_violations(s: SchemaV, d: JsonV, path: Seq<PathSegV>) -> Seq<VioV>
    decreases s, 0int,
{
    match s {
        SchemaV::Object { properties, required, unknown } => match d {
            JsonV::Obj(pairs) => vio_required(required, required.len() as int, pairs, path)
                + vio_props(properties, properties.len() as int, pairs, path) + (if unknown
                == UnknownPolicy::Reject {
                vio_unknown(properties, pairs, pairs.len() as int, path)
            } else {
                Seq::empty()
            }),
            _ => seq![mk_vio(path, ViolationKind::TypeMismatch)],
        },
        SchemaV::Array { item, min_items, max_items } => match d {
            JsonV::Arr(elems) => {
                if !bounds_ok(min_items, max_items, elems.len() as int) {
                    seq![mk_vio(path, ViolationKind::LengthOutOfRange)]
                } else {
                    vio_items(*item, elems, elems.len() as int, path)
                }
            },
            _ => seq![mk_vio(path, ViolationKind::TypeMismatch)],
        },
        SchemaV::Str { format, pattern } => match d {
            JsonV::Str(t) => match format {
                Option::Some(f) => if format_ok(f, t) {
                    Seq::empty()
                } else {
                    seq![mk_vio(path, ViolationKind::FormatViolation)]
                },
                Option::None => match pattern {
                    Option::Some(p) => if pattern_match(p, t) {
                        Seq::empty()
                    } else {
                        seq![mk_vio(path, ViolationKind::PatternMismatch)]
                    },
                    Option::None => Seq::empty(),
                },
            },
            _ => seq![mk_vio(path, ViolationKind::TypeMismatch)],
        },
        SchemaV::Num { minimum, maximum } => match d {
            JsonV::Num(n) => if bounds_ok(minimum, maximum, n) {
                Seq::empty()
            } else {
                seq![mk_vio(path, ViolationKind::RangeViolation)]
            },
            _ => seq![mk_vio(path, ViolationKind::TypeMismatch)],
        },
        SchemaV::Int { minimum, maximum } => match d {
            JsonV::Num(n) => if !num_is_integer(n) {
                seq![mk_vio(path, ViolationKind::TypeMismatch)]
            } else if bounds_ok(minimum, maximum, n) {
                Seq::empty()
            } else {
                seq![mk_vio(path, ViolationKind::RangeViolation)]
            },
            _ => seq![mk_vio(path, ViolationKind::TypeMismatch)],
        },
        SchemaV::Boolean => if d is Bool {
            Seq::empty()
        } else {
            seq![mk_vio(path, ViolationKind::TypeMismatch)]
        },
        SchemaV::Enumeration { allowed } => if enum_matches(allowed, d) {
            Seq::empty()
        } else {
            seq![mk_vio(path, ViolationKind::EnumViolation)]
        },
        SchemaV::AnyOf { alternatives } => {
            let results = anyof_results(alternatives, alternatives.len() as int, d, path);
            if exists|m: int| 0 <= m < results.len() && (#[trigger] results[m]).len() == 0 {
                Seq::empty()
            } else {
                seq![
                    VioV {
                        path,
                        kind: ViolationKind::NoAlternativeMatched,
                        message: msg_for(ViolationKind::NoAlternativeMatched),
                        sub: anyof_sub(results),
                    },
                ]
            }
        },
    }
}

proof fn lemma_vio_required_empty(
    required: Seq<Seq<char>>,
    i: int,
    pairs: Seq<(Seq<char>, JsonV)>,
    path: Seq<PathSegV>,
)
    ensures
        (vio_required(required, i, pairs, path).len() == 0) == (forall|m: int|
            0 <= m < i ==> obj_has(pairs, #[trigger] required[m])),
    decreases i,
{
    if i > 0 {
        lemma_vio_required_empty(required, i - 1, pairs, path);
    }
}

proof fn lemma_vio_unknown_empty(
    props: Seq<(Seq<char>, SchemaV)>,
    pairs: Seq<(Seq<char>, JsonV)>,
    i: int,
    path: Seq<PathSegV>,
)
    ensures
        (vio_unknown(props, pairs, i, path).len() == 0) == (forall|m: int|
            0 <= m < i ==> props_has(props, (#[trigger] pairs[m]).0)),
    decreases i,
{
    if i > 0 {
        lemma_vio_unknown_empty(props, pairs, i - 1, path);
    }
}

proof fn lemma_vio_props_empty(
    props: Seq<(Seq<char>, SchemaV)>,
    i: int,
    pairs: Seq<(Seq<char>, JsonV)>,
    path: Seq<PathSegV>,
)
    requires
        i <= props.len(),
    ensures
        (vio_props(props, i, pairs, path).len() == 0) == (forall|m: int|
            0 <= m < i ==> match obj_get(pairs, (#[trigger] props[m]).0) {
                Option::Some(v) => spec_valid(props[m].1, v),
                Option::None => true,
            }),
    decreases props, (if i <= 0 {
        0int
    } else {
        i
    }), 1int,
{
    if i > 0 {
        lemma_vio_props_empty(props, i - 1, pairs, path);
        match obj_get(pairs, props[i - 1].0) {
            Option::Some(v) => {
                lemma_violations_empty(props[i - 1].1, v, path.push(PathSegV::Prop(props[i - 1].0)));
            },
            Option::None => {},
        }
    }
}

proof fn lemma_vio_items_empty(item: SchemaV, elems: Seq<JsonV>, i: int, path: Seq<PathSegV>)
    requires
        i <= elems.len(),
    ensures
        (vio_items(item, elems, i, path).len() == 0) == (forall|m: int|
            0 <= m < i ==> spec_valid(item, #[trigger] elems[m])),
    decreases item, (if i <= 0 {
        0int
    } else {
        i
    }), 1int,
{
    if i > 0 {
        lemma_vio_items_empty(item, elems, i - 1, path);
        lemma_violations_empty(item, elems[i - 1], path.push(PathSegV::Index(i - 1)));
    }
}

proof fn lemma_anyof_results(alts: Seq<SchemaV>, i: int, d: JsonV, path: Seq<PathSegV>)
    requires
        i <= alts.len(),
    ensures
        anyof_results(alts, i, d, path).len() == (if i <= 0 {
            0int
        } else {
            i
        }),
        forall|m: int|
            0 <= m < i ==> anyof_results(alts, i, d, path)[m] == spec_violations(
                #[trigger] alts[m],
                d,
                path,
            ),
    decreases (if i <= 0 {
        0int
    } else {
        i
    }),
{
    if i > 0 {
        lemma_anyof_results(alts, i - 1, d, path);
    }
}

/// A document passes with no findings exactly when it conforms.
///
/// Law: the findings list of a validation is empty if and only if the document
/// conforms to the schema.
pub proof fn lemma_violations_empty(s: SchemaV, d: JsonV, path: Seq<PathSegV>)
    ensures
        (spec_violations(s, d, path).len() == 0) == spec_valid(s, d),
    decreases s, 0int, 0int,
{
    match s {
        SchemaV::Object { properties, required, unknown } => match d {
            JsonV::Obj(pairs) => {
                lemma_vio_required_empty(required, required.len() as int, pairs, path);
                lemma_vio_props_empty(properties, properties.len() as int, pairs, path);
                lemma_vio_unknown_empty(properties, pairs, pairs.len() as int, path);
            },
            _ => {},
        },
        SchemaV::Array { item, min_items, max_items } => match d {
            JsonV::Arr(elems) => {
                if bounds_ok(min_items, max_items, elems.len() as int) {
                    lemma_vio_items_empty(*item, elems, elems.len() as int, path);
                }
            },
            _ => {},
        },
        SchemaV::AnyOf { alternatives } => {
            let results = anyof_results(alternatives, alternatives.len() as int, d, path);
            lemma_anyof_results(alternatives, alternatives.len() as int, d, path);
            assert forall|m: int| 0 <= m < alternatives.len() implies ((#[trigger] results[m]).len()
                == 0) == spec_valid(alternatives[m], d) by {
                lemma_violations_empty(alternatives[m], d, path);
            }
        },
        _ => {},
    }
}

/// A key is present exactly when first-match lookup finds a value.
proof fn lemma_obj_get_has(pairs: Seq<(Seq<char>, JsonV)>, key: Seq<char>)
    ensures
        (obj_get(pairs, key) is Some) == obj_has(pairs, key),
    decreases pairs.len(),
{
    if pairs.len() > 0 {
        if pairs[0].0 == key {
        } else {
            lemma_obj_get_has(pairs.drop_first(), key);
            assert forall|m: int|
                0 <= m < pairs.len() && (#[trigger] pairs[m]).0 == key implies obj_has(
                pairs.drop_first(),
                key,
            ) by {
                assert(pairs.drop_first()[m - 1] == pairs[m]);
            }
            if obj_has(pairs.drop_first(), key) {
                let m = choose|m: int|
                    0 <= m < pairs.drop_first().len() && (#[trigger] pairs.drop_first()[m]).0
                        == key;
                assert(pairs[m + 1] == pairs.drop_first()[m]);
            }
        }
    }
}

pub broadcast proof fn lemma_vios_view_push(s: Seq<Violation>, v: Violation)
    ensures
        #[trigger] vios_view(s.push(v)) == vios_view(s).push(vio_view(v)),
{
    assert(s.push(v).drop_last() =~= s);
    assert(s.push(v).last() == v);
}

proof fn lemma_concat_push<A>(a: Seq<A>, b: Seq<A>, x: A)
    ensures
        (a + b).push(x) == a + b.push(x),
{
    assert((a + b).push(x) =~= a + b.push(x));
}

pub open spec fn vecvios_view(s: Seq<Vec<Violation>>) -> Seq<Seq<VioV>>
    decreases s,
{
    if s.len() == 0 {
        Seq::empty()
    } else {
        vecvios_view(s.drop_last()).push(vios_view(s.last()@))
    }
}

pub broadcast proof fn lemma_vecvios_view(s: Seq<Vec<Violation>>)
    ensures
        (#[trigger] vecvios_view(s)).len() == s.len(),
        forall|i: int| 0 <= i < s.len() ==> vecvios_view(s)[i] == vios_view(s[i]@),
    decreases s,
{
    if s.len() > 0 {
        lemma_vecvios_view(s.drop_last());
    }
}

pub broadcast proof fn lemma_vecvios_view_push(s: Seq<Vec<Violation>>, v: Vec<Violation>)
    ensures
        #[trigger] vecvios_view(s.push(v)) == vecvios_view(s).push(vios_view(v@)),
{
    assert(s.push(v).drop_last() =~= s);
    assert(s.push(v).last() == v);
}

/// The message text of a violation kind.
pub fn message_for(kind: ViolationKind) -> (m: String)
    ensures
        m@ == msg_for(kind),
{
    match kind {
        ViolationKind::TypeMismatch => "value has wrong type".to_owned(),
        ViolationKind::MissingRequired => "missing required property".to_owned(),
        ViolationKind::UnexpectedProperty => "unexpected property".to_owned(),
        ViolationKind::LengthOutOfRange => "array length out of range".to_owned(),
        ViolationKind::PatternMismatch => "string does not match pattern".to_owned(),
        ViolationKind::FormatViolation => "string does not match format".to_owned(),
        ViolationKind::RangeViolation => "number out of range".to_owned(),
        ViolationKind::EnumViolation => "value not among allowed values".to_owned(),
        ViolationKind::NoAlternativeMatched => "no alternative matched".to_owned(),
    }
}

fn seg_dup(s: &PathSeg) -> (r: PathSeg)
    ensures
        seg_view(r) == seg_view(*s),
{
    match s {
        PathSeg::Prop(name) => PathSeg::Prop(name.clone()),
        PathSeg::Index(i) => PathSeg::Index(*i),
    }
}

fn clone_path(p: &Vec<PathSeg>) -> (r: Vec<PathSeg>)
    ensures
        segs_view(r@) == segs_view(p@),
{
    proof {
        lemma_segs_view(p@);
    }
    let mut r: Vec<PathSeg> = Vec::new();
    for i in 0..p.len()
        invariant
            r@.len() == i,
            forall|j: int| 0 <= j < i ==> seg_view(r@[j]) == seg_view(p@[j]),
    {
        r.push(seg_dup(&p[i]));
    }
    proof {
        lemma_segs_view(r@);
        assert(segs_view(r@) =~= segs_view(p@));
    }
    r
}

/// The path extended by one step.
fn path_with(p: &Vec<PathSeg>, seg: PathSeg) -> (r: Vec<PathSeg>)
    ensures
        segs_view(r@) == segs_view(p@).push(seg_view(seg)),
{
    let ghost seg_v = seg_view(seg);
    let mut r = clone_path(p);
    let ghost before = r@;
    r.push(seg);
    proof {
        lemma_segs_view(r@);
        lemma_segs_view(before);
        assert(segs_view(r@) =~= segs_view(p@).push(seg_v));
    }
    r
}

/// A violation record without sub-findings, at the given path.
fn mk_violation(p: &Vec<PathSeg>, kind: ViolationKind) -> (v: Violation)
    ensures
        vio_view(v) == mk_vio(segs_view(p@), kind),
{
    let v = Violation { path: clone_path(p), kind, message: message_for(kind), sub: Vec::new() };
    proof {
        assert(vios_view(v.sub@) =~= Seq::empty());
        assert(vio_view(v) =~= mk_vio(segs_view(p@), kind));
    }
    v
}

/// A violation record without sub-findings, one step below the given path.
fn mk_violation_at(p: &Vec<PathSeg>, seg: PathSeg, kind: ViolationKind) -> (v: Violation)
    ensures
        vio_view(v) == mk_vio(segs_view(p@).push(seg_view(seg)), kind),
{
    let v = Violation { path: path_with(p, seg), kind, message: message_for(kind), sub: Vec::new() };
    proof {
        assert(vios_view(v.sub@) =~= Seq::empty());
        assert(vio_view(v) =~= mk_vio(segs_view(p@).push(seg_view(seg)), kind));
    }
    v
}

/// Whether the property list carries an entry named `key`.
fn props_contains(properties: &Vec<(String, SchemaNode)>, key: &String) -> (r: bool)
    ensures
        r == props_has(schema_view_props(properties@), key@),
{
    proof {
        lemma_schema_view_props(properties@);
    }
    let ghost props_v = schema_view_props(properties@);
    for i in 0..properties.len()
        invariant
            props_v == schema_view_props(properties@),
            props_v.len() == properties@.len(),
            forall|j: int|
                0 <= j < properties@.len() ==> props_v[j] == (
                properties@[j].0@,
                schema_view(properties@[j].1),
                ),
            forall|j: int| 0 <= j < i ==> (#[trigger] props_v[j]).0 != key@,
    {
        if properties[i].0 == *key {
            proof {
                assert(props_v[i as int].0 == key@);
            }
            return true;
        }
    }
    false
}

/// Evaluates an object node's constraints against an object's pairs.
#[verifier::loop_isolation(false)]
#[verifier::rlimit(60)]
fn check_object(
    properties: &Vec<(String, SchemaNode)>,
    required: &Vec<String>,
    unknown: UnknownPolicy,
    pairs: &Vec<(String, Json)>,
    path: &Vec<PathSeg>,
    out: &mut Vec<Violation>,
)
    requires
        forall|j: int|
            0 <= j < schema_view_props(properties@).len() ==> schema_wf(
                (#[trigger] schema_view_props(properties@)[j]).1,
            ),
    ensures
        vios_view(final(out)@) == vios_view(old(out)@) + spec_violations(
            SchemaV::Object {
                properties: schema_view_props(properties@),
                required: strs_view(required@),
                unknown,
            },
            JsonV::Obj(json_view_pairs(pairs@)),
            segs_view(path@),
        ),
    decreases properties@, 1int,
{
    broadcast use lemma_vios_view_push;

    let ghost base = vios_view(old(out)@);
    let ghost pv = segs_view(path@);
    let ghost sv = (SchemaV::Object {
        properties: schema_view_props(properties@),
        required: strs_view(required@),
        unknown,
    });
    let ghost dv = JsonV::Obj(json_view_pairs(pairs@));
    proof {
        lemma_strs_view(required@);
        lemma_json_view_pairs(pairs@);
        lemma_schema_view_props(properties@);
    }
    let ghost pairs_v = json_view_pairs(pairs@);
    let ghost req_v = strs_view(required@);
    let ghost props_v = schema_view_props(properties@);
    for i in 0..required.len()
        invariant
            vios_view(out@) == base + vio_required(req_v, i as int, pairs_v, pv),
    {
        let found = obj_lookup(pairs, required[i].as_str());
        proof {
            lemma_obj_get_has(pairs_v, req_v[i as int]);
        }
        if found.is_none() {
            let v = mk_violation_at(
                path,
                PathSeg::Prop(required[i].clone()),
                ViolationKind::MissingRequired,
            );
            out.push(v);
            proof {
                assert(vios_view(out@) =~= base + vio_required(req_v, i + 1, pairs_v, pv));
            }
        } else {
            proof {
                assert(vio_required(req_v, i + 1, pairs_v, pv) =~= vio_required(
                    req_v,
                    i as int,
                    pairs_v,
                    pv,
                ));
            }
        }
    }
    let ghost all_req = vio_required(req_v, req_v.len() as int, pairs_v, pv);
    for i in 0..properties.len()
        invariant
            vios_view(out@) == base + all_req + vio_props(props_v, i as int, pairs_v, pv),
    {
        let ghost before_props = vio_props(props_v, i as int, pairs_v, pv);
        match obj_lookup(pairs, properties[i].0.as_str()) {
            Option::Some(value) => {
                let child_path = path_with(path, PathSeg::Prop(properties[i].0.clone()));
                proof {
                    assert(schema_wf(props_v[i as int].1));
                }
                check_node(&properties[i].1, value, &child_path, out);
                proof {
                    assert(vios_view(out@) =~= base + all_req + vio_props(
                        props_v,
                        i + 1,
                        pairs_v,
                        pv,
                    ));
                }
            },
            Option::None => {
                proof {
                    assert(vio_props(props_v, i + 1, pairs_v, pv) =~= before_props);
                }
            },
        }
    }
    let ghost all_props = vio_props(props_v, props_v.len() as int, pairs_v, pv);
    let reject = matches!(unknown, UnknownPolicy::Reject);
    if reject {
        for i in 0..pairs.len()
            invariant
                vios_view(out@) == base + all_req + all_props + vio_unknown(
                    props_v,
                    pairs_v,
                    i as int,
                    pv,
                ),
        {
            let ghost before_unknown = vio_unknown(props_v, pairs_v, i as int, pv);
            if !props_contains(properties, &pairs[i].0) {
                let v = mk_violation_at(
                    path,
                    PathSeg::Prop(pairs[i].0.clone()),
                    ViolationKind::UnexpectedProperty,
                );
                out.push(v);
                proof {
                    assert(vios_view(out@) =~= base + all_req + all_props + vio_unknown(
                        props_v,
                        pairs_v,
                        i + 1,
                        pv,
                    ));
                }
            } else {
                proof {
                    assert(vio_unknown(props_v, pairs_v, i + 1, pv) =~= before_unknown);
                }
            }
        }
        proof {
            assert(base + all_req + all_props + vio_unknown(props_v, pairs_v, pairs_v.len() as int, pv)
                =~= base + (all_req + all_props + vio_unknown(
                props_v,
                pairs_v,
                pairs_v.len() as int,
                pv,
            )));
        }
    } else {
        proof {
            assert(base + all_req + all_props =~= base + (all_req + all_props
                + Seq::<VioV>::empty()));
        }
    }
}

/// Evaluates an array node against an array's elements.
#[verifier::loop_isolation(false)]
#[verifier::rlimit(60)]
fn check_array(
    item: &SchemaNode,
    min_items: Option<u64>,
    max_items: Option<u64>,
    elems: &Vec<Json>,
    path: &Vec<PathSeg>,
    out: &mut Vec<Violation>,
)
    requires
        schema_wf(schema_view(*item)),
    ensures
        vios_view(final(out)@) == vios_view(old(out)@) + spec_violations(
            SchemaV::Array {
                item: Box::new(schema_view(*item)),
                min_items: opt_u64_view(min_items),
                max_items: opt_u64_view(max_items),
            },
            JsonV::Arr(json_view_seq(elems@)),
            segs_view(path@),
        ),
    decreases *item, 1int,
{
    broadcast use lemma_vios_view_push;

    let ghost base = vios_view(old(out)@);
    let ghost pv = segs_view(path@);
    proof {
        lemma_json_view_seq(elems@);
    }
    let ghost elems_v = json_view_seq(elems@);
    let len64 = elems.len() as u64;
    let low_bad = match min_items {
        Option::Some(m) => len64 < m,
        Option::None => false,
    };
    let high_bad = match max_items {
        Option::Some(m) => len64 > m,
        Option::None => false,
    };
    if low_bad || high_bad {
        let v = mk_violation(path, ViolationKind::LengthOutOfRange);
        out.push(v);
        proof {
            assert(vios_view(out@) =~= base + seq![
                mk_vio(pv, ViolationKind::LengthOutOfRange),
            ]);
        }
    } else {
        for i in 0..elems.len()
            invariant
                vios_view(out@) == base + vio_items(schema_view(*item), elems_v, i as int, pv),
        {
            let child_path = path_with(path, PathSeg::Index(i));
            check_node(item, &elems[i], &child_path, out);
            proof {
                assert(vios_view(out@) =~= base + vio_items(
                    schema_view(*item),
                    elems_v,
                    i + 1,
                    pv,
                ));
            }
        }
    }
}

/// Evaluates a string node's format or pattern constraint against a string.
fn check_string(
    format: Option<FormatId>,
    pattern: &Option<String>,
    t: &String,
    path: &Vec<PathSeg>,
    out: &mut Vec<Violation>,
)
    requires
        schema_wf(SchemaV::Str { format, pattern: opt_str_view(*pattern) }),
    ensures
        vios_view(final(out)@) == vios_view(old(out)@) + spec_violations(
            SchemaV::Str { format, pattern: opt_str_view(*pattern) },
            JsonV::Str(t@),
            segs_view(path@),
        ),
{
    broadcast use lemma_vios_view_push;

    let ghost base = vios_view(old(out)@);
    let ghost pv = segs_view(path@);
    let bad_kind: Option<ViolationKind> = match format {
        Option::Some(f) => {
            let ok = match f {
                FormatId::VariantId => check_variant_id(t.as_str()),
                FormatId::EnsemblGeneId => check_ensembl_gene_id(t.as_str()),
            };
            if ok {
                Option::None
            } else {
                Option::Some(ViolationKind::FormatViolation)
            }
        },
        Option::None => match pattern {
            Option::Some(p) => {
                let ok = regex_is_match(p.as_str(), t.as_str());
                if ok {
                    Option::None
                } else {
                    Option::Some(ViolationKind::PatternMismatch)
                }
            },
            Option::None => Option::None,
        },
    };
    match bad_kind {
        Option::Some(kind) => {
            let v = mk_violation(path, kind);
            out.push(v);
            proof {
                assert(vios_view(out@) =~= base + seq![mk_vio(pv, kind)]);
            }
        },
        Option::None => {
            proof {
                assert(vios_view(out@) =~= base + Seq::<VioV>::empty());
            }
        },
    }
}

/// Evaluates an enumeration node: the value must equal one allowed value.
#[verifier::loop_isolation(false)]
fn check_enum(allowed: &Vec<Json>, d: &Json, path: &Vec<PathSeg>, out: &mut Vec<Violation>)
    ensures
        vios_view(final(out)@) == vios_view(old(out)@) + spec_violations(
            SchemaV::Enumeration { allowed: json_view_seq(allowed@) },
            json_view(*d),
            segs_view(path@),
        ),
{
    broadcast use lemma_vios_view_push;

    let ghost base = vios_view(old(out)@);
    let ghost pv = segs_view(path@);
    let ghost dv = json_view(*d);
    proof {
        lemma_json_view_seq(allowed@);
    }
    let ghost allowed_v = json_view_seq(allowed@);
    let mut found = false;
    for i in 0..allowed.len()
        invariant
            found == exists|m: int| 0 <= m < i && #[trigger] allowed_v[m] == dv,
    {
        let e = json_eq(&allowed[i], d);
        proof {
            assert(allowed_v[i as int] == json_view(allowed@[i as int]));
        }
        found = found || e;
    }
    if !found {
        proof {
            assert(!enum_matches(allowed_v, dv)) by {
                if enum_matches(allowed_v, dv) {
                    let w = choose|m: int|
                        0 <= m < allowed_v.len() && #[trigger] allowed_v[m] == dv;
                    assert(false);
                }
            }
        }
        let v = mk_violation(path, ViolationKind::EnumViolation);
        out.push(v);
        proof {
            assert(vios_view(out@) =~= base + seq![mk_vio(pv, ViolationKind::EnumViolation)]);
        }
    } else {
        proof {
            let w = choose|m: int|
                0 <= m < allowed@.len() && #[trigger] allowed_v[m] == dv;
            assert(0 <= w < allowed_v.len() && allowed_v[w] == dv);
            assert(enum_matches(allowed_v, dv));
            assert(vios_view(out@) =~= base + Seq::<VioV>::empty());
        }
    }
}

/// Evaluates an alternation node: the value must match one alternative; when
/// none matches, the findings of the closest alternative are attached.
#[verifier::loop_isolation(false)]
#[verifier::rlimit(60)]
fn check_anyof(alternatives: &Vec<SchemaNode>, d: &Json, path: &Vec<PathSeg>, out: &mut Vec<Violation>)
    requires
        forall|j: int|
            0 <= j < schema_view_seq(alternatives@).len() ==> schema_wf(
                #[trigger] schema_view_seq(alternatives@)[j],
            ),
    ensures
        vios_view(final(out)@) == vios_view(old(out)@) + spec_violations(
            SchemaV::AnyOf { alternatives: schema_view_seq(alternatives@) },
            json_view(*d),
            segs_view(path@),
        ),
    decreases alternatives@, 1int,
{
    broadcast use lemma_vios_view_push, lemma_vecvios_view_push;

    let ghost base = vios_view(old(out)@);
    let ghost pv = segs_view(path@);
    let ghost dv = json_view(*d);
    proof {
        lemma_schema_view_seq(alternatives@);
    }
    let ghost alts_v = schema_view_seq(alternatives@);
    let mut results: Vec<Vec<Violation>> = Vec::new();
    for i in 0..alternatives.len()
        invariant
            vecvios_view(results@) == anyof_results(alts_v, i as int, dv, pv),
            results@.len() == i,
            out@ == old(out)@,
    {
        let mut tmp: Vec<Violation> = Vec::new();
        proof {
            assert(schema_wf(alts_v[i as int]));
            assert(vios_view(tmp@) =~= Seq::<VioV>::empty());
        }
        check_node(&alternatives[i], d, path, &mut tmp);
        proof {
            assert(vios_view(tmp@) =~= spec_violations(alts_v[i as int], dv, pv));
        }
        results.push(tmp);
    }
    let ghost results_v = anyof_results(alts_v, alts_v.len() as int, dv, pv);
    proof {
        lemma_anyof_results(alts_v, alts_v.len() as int, dv, pv);
        lemma_vecvios_view(results@);
        assert forall|j: int| 0 <= j < results_v.len() implies (#[trigger] results_v[j]).len()
            == results@[j]@.len() by {
            lemma_vios_view(results@[j]@);
        }
    }
    let mut any_empty = false;
    let mut best: usize = 0;
    for i in 0..results.len()
        invariant
            any_empty == exists|m: int| 0 <= m < i && (#[trigger] results_v[m]).len() == 0,
            i == 0 ==> best == 0,
            i > 0 ==> best < i && best as int == best_idx(results_v.subrange(0, i as int)),
    {
        if results[i].len() == 0 {
            any_empty = true;
        }
        let ghost prefix = results_v.subrange(0, i as int);
        let ghost grown = results_v.subrange(0, i + 1);
        proof {
            assert(grown.drop_last() =~= prefix);
            assert(grown.last() == results_v[i as int]);
        }
        if i == 0 {
            best = 0;
            proof {
                assert(best_idx(grown) == 0);
            }
        } else if results[i].len() < results[best].len() {
            best = i;
        } else {
            proof {
                assert(best_idx(grown) == best_idx(prefix));
            }
        }
    }
    if !any_empty {
        proof {
            assert(results_v.subrange(0, results_v.len() as int) =~= results_v);
        }
        let sub: Vec<Violation> = if results.len() > 0 {
            let s = results.swap_remove(best);
            proof {
                assert(vios_view(s@) == anyof_sub(results_v));
            }
            s
        } else {
            let empty_sub: Vec<Violation> = Vec::new();
            proof {
                assert(anyof_sub(results_v) =~= Seq::<VioV>::empty());
                assert(vios_view(empty_sub@) =~= Seq::<VioV>::empty());
            }
            empty_sub
        };
        let v = Violation {
            path: clone_path(path),
            kind: ViolationKind::NoAlternativeMatched,
            message: message_for(ViolationKind::NoAlternativeMatched),
            sub,
        };
        proof {
            assert(vio_view(v) =~= VioV {
                path: pv,
                kind: ViolationKind::NoAlternativeMatched,
                message: msg_for(ViolationKind::NoAlternativeMatched),
                sub: anyof_sub(results_v),
            });
        }
        out.push(v);
        proof {
            assert(vios_view(out@) =~= base + spec_violations(
                SchemaV::AnyOf { alternatives: alts_v },
                dv,
                pv,
            ));
        }
    } else {
        proof {
            assert(vios_view(out@) =~= base + spec_violations(
                SchemaV::AnyOf { alternatives: alts_v },
                dv,
                pv,
            ));
        }
    }
}

/// Appends a single `TypeMismatch` finding at `path`.
fn emit_type_mismatch(path: &Vec<PathSeg>, out: &mut Vec<Violation>)
    ensures
        vios_view(final(out)@) == vios_view(old(out)@) + seq![
            mk_vio(segs_view(path@), ViolationKind::TypeMismatch),
        ],
{
    broadcast use lemma_vios_view_push;

    let v = mk_violation(path, ViolationKind::TypeMismatch);
    let ghost base = vios_view(out@);
    out.push(v);
    proof {
        assert(vios_view(out@) =~= base + seq![
            mk_vio(segs_view(path@), ViolationKind::TypeMismatch),
        ]);
    }
}

/// Evaluates the schema node against the document value at `path`, appending
/// every finding, in traversal order, to `out`.
#[verifier::rlimit(60)]
fn check_node(s: &SchemaNode, d: &Json, path: &Vec<PathSeg>, out: &mut Vec<Violation>)
    requires
        schema_wf(schema_view(*s)),
    ensures
        vios_view(final(out)@) == vios_view(old(out)@) + spec_violations(
            schema_view(*s),
            json_view(*d),
            segs_view(path@),
        ),
    decreases *s, 0int,
{
    broadcast use lemma_vios_view_push;

    let ghost base = vios_view(old(out)@);
    let ghost pv = segs_view(path@);
    let ghost sv = schema_view(*s);
    let ghost dv = json_view(*d);
    match s {
        SchemaNode::Object { properties, required, unknown } => {
            match d {
                Json::Obj(pairs) => {
                    proof {
                        match sv {
                            SchemaV::Object { properties: pr, required: rq, unknown: un } => {
                                assert(pr == schema_view_props(properties@));
                                assert forall|j: int|
                                    0 <= j < schema_view_props(properties@).len() implies schema_wf(
                                    (#[trigger] schema_view_props(properties@)[j]).1,
                                ) by {
                                    assert(pr[j] == schema_view_props(properties@)[j]);
                                    assert(schema_wf((pr[j]).1));
                                }
                            },
                            _ => {
                                assert(false);
                            },
                        }
                    }
                    check_object(properties, required, *unknown, pairs, path, out);
                },
                _ => {
                    emit_type_mismatch(path, out);
                },
            }
        },
        SchemaNode::Array { item, min_items, max_items } => {
            match d {
                Json::Arr(elems) => {
                    check_array(item, *min_items, *max_items, elems, path, out);
                },
                _ => {
                    emit_type_mismatch(path, out);
                },
            }
        },
        SchemaNode::Str { format, pattern } => {
            match d {
                Json::Str(t) => {
                    check_string(*format, pattern, t, path, out);
                },
                _ => {
                    emit_type_mismatch(path, out);
                },
            }
        },
        SchemaNode::Num { minimum, maximum } => {
            match d {
                Json::Num(n) => {
                    let low_ok = match minimum {
                        Option::Some(m) => m.nanos <= n.nanos,
                        Option::None => true,
                    };
                    let high_ok = match maximum {
                        Option::Some(m) => n.nanos <= m.nanos,
                        Option::None => true,
                    };
                    if !(low_ok && high_ok) {
                        let v = mk_violation(path, ViolationKind::RangeViolation);
                        out.push(v);
                    }
                    proof {
                        assert(vios_view(out@) =~= base + spec_violations(sv, dv, pv));
                    }
                },
                _ => {
                    emit_type_mismatch(path, out);
                },
            }
        },
        SchemaNode::Int { minimum, maximum } => {
            match d {
                Json::Num(n) => {
                    if !n.is_integer() {
                        let v = mk_violation(path, ViolationKind::TypeMismatch);
                        out.push(v);
                    } else {
                        let low_ok = match minimum {
                            Option::Some(m) => m.nanos <= n.nanos,
                            Option::None => true,
                        };
                        let high_ok = match maximum {
                            Option::Some(m) => n.nanos <= m.nanos,
                            Option::None => true,
                        };
                        if !(low_ok && high_ok) {
                            let v = mk_violation(path, ViolationKind::RangeViolation);
                            out.push(v);
                        }
                    }
                    proof {
                        assert(vios_view(out@) =~= base + spec_violations(sv, dv, pv));
                    }
                },
                _ => {
                    emit_type_mismatch(path, out);
                },
            }
        },
        SchemaNode::Boolean => {
            match d {
                Json::Bool(_) => {
                    proof {
                        assert(vios_view(out@) =~= base + spec_violations(sv, dv, pv));
                    }
                },
                _ => {
                    emit_type_mismatch(path, out);
                },
            }
        },
        SchemaNode::Enumeration { allowed } => {
            check_enum(allowed, d, path, out);
        },
        SchemaNode::AnyOf { alternatives } => {
            proof {
                match sv {
                    SchemaV::AnyOf { alternatives: alts } => {
                        assert(alts == schema_view_seq(alternatives@));
                        assert forall|j: int|
                            0 <= j < schema_view_seq(alternatives@).len() implies schema_wf(
                            #[trigger] schema_view_seq(alternatives@)[j],
                        ) by {
                            assert(alts[j] == schema_view_seq(alternatives@)[j]);
                            assert(schema_wf(alts[j]));
                        }
                    },
                    _ => {
                        assert(false);
                    },
                }
            }
            check_anyof(alternatives, d, path, out);
        },
    }
}

/// A string node with a format constraint, applied to a string that fails the
/// format, yields exactly one finding: a format violation at that path.
///
/// Law: for every string failing a declared format, validation of that node
/// reports one `FormatViolation` and nothing else.
pub proof fn lemma_bad_format_single_violation(f: FormatId, t: Seq<char>, path: Seq<PathSegV>)
    requires
        !format_ok(f, t),
    ensures
        spec_violations(
            SchemaV::Str { format: Option::Some(f), pattern: Option::None },
            JsonV::Str(t),
            path,
        ) =~= seq![mk_vio(path, ViolationKind::FormatViolation)],
{
}

/// Validating the same document twice against the same compiled schema gives
/// identical finding sequences.
///
/// Law: validation is a function of the compiled schema and the document.
pub proof fn lemma_validate_repeatable(
    c: CompiledValidator,
    doc: JsonV,
    out1: Seq<VioV>,
    out2: Seq<VioV>,
)
    requires
        out1 == spec_violations(c.root_view(), doc, Seq::empty()),
        out2 == spec_violations(c.root_view(), doc, Seq::empty()),
    ensures
        out1 == out2,
{
}

/// A compiled schema: the root node, immutable and reusable across many
/// validation calls. Always well-formed.
#[derive(Debug)]
pub struct CompiledValidator {
    pub(crate) root: SchemaNode,
}

impl CompiledValidator {
    /// Every compiled validator holds a well-formed schema tree.
    #[verifier::type_invariant]
    pub closed spec fn wf(self) -> bool {
        schema_wf(schema_view(self.root))
    }

    /// The model of the compiled schema tree.
    pub closed spec fn root_view(self) -> SchemaV {
        schema_view(self.root)
    }

    /// Wraps a well-formed schema tree.
    pub(crate) fn from_root(root: SchemaNode) -> (c: CompiledValidator)
        requires
            schema_wf(schema_view(root)),
        ensures
            c.root_view() == schema_view(root),
    {
        CompiledValidator { root }
    }

    /// All findings of the document against the compiled schema, in traversal
    /// order; empty exactly when the document conforms.
    pub fn validate(&self, doc: &Json) -> (out: Vec<Violation>)
        ensures
            vios_view(out@) == spec_violations(
                self.root_view(),
                json_view(*doc),
                Seq::empty(),
            ),
            (out@.len() == 0) == spec_valid(self.root_view(), json_view(*doc)),
    {
        proof {
            use_type_invariant(&*self);
        }
        let path: Vec<PathSeg> = Vec::new();
        let mut out: Vec<Violation> = Vec::new();
        proof {
            assert(segs_view(path@) =~= Seq::<PathSegV>::empty());
            assert(vios_view(out@) =~= Seq::<VioV>::empty());
        }
        check_node(&self.root, doc, &path, &mut out);
        proof {
            assert(vios_view(out@) =~= spec_violations(
                self.root_view(),
                json_view(*doc),
                Seq::empty(),
            ));
            lemma_vios_view(out@);
            lemma_violations_empty(self.root_view(), json_view(*doc), Seq::empty());
        }
        out
    }

    /// Whether the document conforms to the compiled schema.
    pub fn is_valid(&self, doc: &Json) -> (r: bool)
        ensures
            r == spec_valid(self.root_view(), json_view(*doc)),
    {
        let vs = self.validate(doc);
        vs.len() == 0
    }
}

} // verus!
