use gnomad_lite::CompiledValidator;
use gnomad_lite::Json;
use gnomad_lite::Number;
use gnomad_lite::PathSeg;
use gnomad_lite::ViolationKind;
use gnomad_lite::compile;
use gnomad_lite::validate_schema;

fn s(x: &str) -> Json {
    Json::Str(x.to_string())
}

fn num_int(i: i64) -> Json {
    Json::Num(Number::from_int(i))
}

fn num_dec(negative: bool, whole: u64, billionths: u32) -> Json {
    Json::Num(Number::from_decimal(negative, whole, billionths))
}

fn obj(pairs: Vec<(&str, Json)>) -> Json {
    Json::Obj(pairs.into_iter().map(|(k, v)| (k.to_string(), v)).collect())
}

fn arr(items: Vec<Json>) -> Json {
    Json::Arr(items)
}

fn string_schema() -> Json {
    obj(vec![("type", s("string"))])
}

fn string_array_schema() -> Json {
    obj(vec![("type", s("array")), ("items", string_schema())])
}

fn format_schema(format: &str) -> Json {
    obj(vec![("type", s("string")), ("format", s(format))])
}

fn seq_type_schema() -> Json {
    obj(vec![
        ("type", s("object")),
        (
            "properties",
            obj(vec![
                ("ac", obj(vec![("type", s("integer")), ("minimum", num_int(0))])),
                ("an", obj(vec![("type", s("integer")), ("minimum", num_int(0))])),
                (
                    "af",
                    obj(vec![
                        ("type", s("number")),
                        ("minimum", num_int(0)),
                        ("maximum", num_int(1)),
                    ]),
                ),
                ("flags", string_array_schema()),
                ("filters", string_array_schema()),
            ]),
        ),
        (
            "required",
            arr(vec![s("ac"), s("an"), s("af"), s("flags"), s("filters")]),
        ),
        ("additionalProperties", Json::Bool(false)),
    ])
}

fn nullable(inner: Json) -> Json {
    obj(vec![("anyOf", arr(vec![inner, obj(vec![("enum", arr(vec![Json::Null]))])]))])
}

fn chrom_enum_schema() -> Json {
    let mut names: Vec<Json> = Vec::new();
    for i in 1..=22u32 {
        names.push(s(&format!("{}", i)));
    }
    names.push(s("X"));
    names.push(s("Y"));
    names.push(s("M"));
    obj(vec![("enum", arr(names))])
}

fn variant_schema() -> Json {
    obj(vec![
        ("type", s("object")),
        (
            "properties",
            obj(vec![
                ("id", format_schema("variant-id")),
                ("exome", nullable(seq_type_schema())),
                ("genome", nullable(seq_type_schema())),
            ]),
        ),
        ("required", arr(vec![s("id")])),
        ("additionalProperties", Json::Bool(false)),
    ])
}

fn gene_schema() -> Json {
    obj(vec![
        ("type", s("object")),
        (
            "properties",
            obj(vec![
                ("symbol", string_schema()),
                ("ensembl_id", format_schema("ensembl-gene-id")),
                ("chrom", chrom_enum_schema()),
                ("start", obj(vec![("type", s("integer")), ("minimum", num_int(0))])),
                ("stop", obj(vec![("type", s("integer")), ("minimum", num_int(0))])),
                ("flags", string_array_schema()),
                ("filters", string_array_schema()),
                (
                    "variant_ids",
                    obj(vec![("type", s("array")), ("items", format_schema("variant-id"))]),
                ),
            ]),
        ),
        (
            "required",
            arr(vec![
                s("symbol"),
                s("ensembl_id"),
                s("chrom"),
                s("start"),
                s("stop"),
                s("flags"),
                s("filters"),
                s("variant_ids"),
            ]),
        ),
        ("additionalProperties", Json::Bool(false)),
    ])
}

fn gnomad_lite_schema() -> Json {
    obj(vec![
        ("type", s("object")),
        (
            "properties",
            obj(vec![
                ("variants", obj(vec![("type", s("array")), ("items", variant_schema())])),
                ("genes", obj(vec![("type", s("array")), ("items", gene_schema())])),
            ]),
        ),
        ("required", arr(vec![s("variants"), s("genes")])),
        ("additionalProperties", Json::Bool(false)),
    ])
}

fn build_validator() -> CompiledValidator {
    let schema = gnomad_lite_schema();
    assert!(validate_schema(&schema).is_ok());
    compile(&schema).unwrap()
}

fn variant_doc(id: &str) -> Json {
    obj(vec![("id", s(id)), ("exome", Json::Null), ("genome", Json::Null)])
}

fn default_gene() -> Json {
    obj(vec![
        ("symbol", s("BRCA1")),
        ("ensembl_id", s("ENSG00000012048")),
        ("chrom", s("17")),
        ("start", num_int(43044295)),
        ("stop", num_int(43170245)),
        ("flags", arr(vec![])),
        ("filters", arr(vec![])),
        ("variant_ids", arr(vec![])),
    ])
}

fn gene_with_ensembl(ensembl_id: &str) -> Json {
    obj(vec![
        ("symbol", s("BRCA1")),
        ("ensembl_id", s(ensembl_id)),
        ("chrom", s("17")),
        ("start", num_int(43044295)),
        ("stop", num_int(43170245)),
        ("flags", arr(vec![])),
        ("filters", arr(vec![])),
        ("variant_ids", arr(vec![])),
    ])
}

#[test]
fn variant_ids() {
    let validator = build_validator();
    let valid_chroms = vec!["1", "10", "11", "20", "21", "X"];
    let valid_poses = vec!["1", "10", "19", "20", "100", "555"];
    let valid_refs = vec!["A", "C", "G", "T", "AA", "AC", "CA", "CC"];
    let valid_alts = vec!["A", "C", "G", "T", "AA", "AC", "CA", "CC"];
    let n_combinations =
        valid_chroms.len() * valid_poses.len() * valid_refs.len() * valid_alts.len();
    let mut validation_failures = Vec::with_capacity(n_combinations);
    let mut documents = Vec::with_capacity(n_combinations);

    for valid_chrom in &valid_chroms {
        for valid_pos in &valid_poses {
            for valid_ref in &valid_refs {
                for valid_alt in &valid_alts {
                    let valid_id =
                        format!("{}-{}-{}-{}", valid_chrom, valid_pos, valid_ref, valid_alt);
                    documents.push(obj(vec![
                        ("variants", arr(vec![variant_doc(&valid_id)])),
                        ("genes", arr(vec![])),
                    ]));
                }
            }
        }
    }
    for document in &documents {
        let violations = validator.validate(document);
        if violations.len() > 0 {
            validation_failures.push(violations);
        }
    }
    assert_eq!(validation_failures.len(), 0);
}

#[test]
fn ensembl_ids() {
    let good_document = obj(vec![
        ("variants", arr(vec![])),
        ("genes", arr(vec![default_gene()])),
    ]);
    let bad_document = obj(vec![
        ("variants", arr(vec![])),
        ("genes", arr(vec![gene_with_ensembl("ENSQ0101010101")])),
    ]);
    let validator = build_validator();
    assert_eq!(validator.is_valid(&good_document), true);
    assert_eq!(validator.is_valid(&bad_document), false);
}

#[test]
fn bad_ensembl_is_single_format_violation() {
    let bad_document = obj(vec![
        ("variants", arr(vec![])),
        ("genes", arr(vec![gene_with_ensembl("ENSQ0101010101")])),
    ]);
    let validator = build_validator();
    let violations = validator.validate(&bad_document);
    assert_eq!(violations.len(), 1);
    assert_eq!(violations[0].kind, ViolationKind::FormatViolation);
    assert_eq!(
        violations[0].path,
        vec![
            PathSeg::Prop("genes".to_string()),
            PathSeg::Index(0),
            PathSeg::Prop("ensembl_id".to_string()),
        ]
    );
}

#[test]
fn two_independent_defects_give_two_violations() {
    let defective_exome = obj(vec![
        ("an", num_int(456)),
        ("af", num_dec(false, 0, 269_700_000)),
        ("flags", arr(vec![])),
        ("filters", arr(vec![])),
    ]);
    let document = obj(vec![
        (
            "variants",
            arr(vec![obj(vec![
                ("id", s("99-234-A-C")),
                ("exome", defective_exome),
                ("genome", Json::Null),
            ])]),
        ),
        ("genes", arr(vec![])),
    ]);
    let validator = build_validator();
    let violations = validator.validate(&document);
    assert_eq!(violations.len(), 2);
    assert_eq!(violations[0].kind, ViolationKind::FormatViolation);
    assert_eq!(
        violations[0].path,
        vec![
            PathSeg::Prop("variants".to_string()),
            PathSeg::Index(0),
            PathSeg::Prop("id".to_string()),
        ]
    );
    assert_eq!(violations[1].kind, ViolationKind::NoAlternativeMatched);
    assert_eq!(
        violations[1].path,
        vec![
            PathSeg::Prop("variants".to_string()),
            PathSeg::Index(0),
            PathSeg::Prop("exome".to_string()),
        ]
    );
    assert_eq!(violations[1].sub.len(), 1);
    assert_eq!(violations[1].sub[0].kind, ViolationKind::MissingRequired);
    assert_eq!(
        violations[1].sub[0].path,
        vec![
            PathSeg::Prop("variants".to_string()),
            PathSeg::Index(0),
            PathSeg::Prop("exome".to_string()),
            PathSeg::Prop("ac".to_string()),
        ]
    );
}

#[test]
fn af_boundaries() {
    let schema = obj(vec![
        ("type", s("number")),
        ("minimum", num_int(0)),
        ("maximum", num_int(1)),
    ]);
    assert!(validate_schema(&schema).is_ok());
    let validator = compile(&schema).unwrap();
    assert!(validator.is_valid(&num_dec(false, 0, 0)));
    assert!(validator.is_valid(&num_dec(false, 1, 0)));
    let low = validator.validate(&num_dec(true, 0, 100_000));
    assert_eq!(low.len(), 1);
    assert_eq!(low[0].kind, ViolationKind::RangeViolation);
    let high = validator.validate(&num_dec(false, 1, 100_000));
    assert_eq!(high.len(), 1);
    assert_eq!(high[0].kind, ViolationKind::RangeViolation);
}

#[test]
fn validation_is_idempotent() {
    let document = obj(vec![
        ("variants", arr(vec![variant_doc("bogus"), variant_doc("1-2-A-T")])),
        ("genes", arr(vec![gene_with_ensembl("nope")])),
    ]);
    let validator = build_validator();
    let first = validator.validate(&document);
    let second = validator.validate(&document);
    assert_eq!(first, second);
    assert_eq!(first.len(), 2);
}

#[test]
fn recompiling_gives_equivalent_validator() {
    let schema = gnomad_lite_schema();
    let v1 = compile(&schema).unwrap();
    let v2 = compile(&schema).unwrap();
    let samples = vec![
        obj(vec![("variants", arr(vec![])), ("genes", arr(vec![default_gene()]))]),
        obj(vec![
            ("variants", arr(vec![variant_doc("1-234-A-C")])),
            ("genes", arr(vec![])),
        ]),
        obj(vec![
            ("variants", arr(vec![variant_doc("zzz")])),
            ("genes", arr(vec![gene_with_ensembl("ENSQ0101010101")])),
        ]),
        obj(vec![("variants", arr(vec![]))]),
        Json::Null,
    ];
    for sample in &samples {
        assert_eq!(v1.is_valid(sample), v2.is_valid(sample));
        assert_eq!(v1.validate(sample), v2.validate(sample));
    }
}

#[test]
fn meta_validated_schema_compiles() {
    let schema = gnomad_lite_schema();
    assert!(validate_schema(&schema).is_ok());
    assert!(compile(&schema).is_ok());
}

#[test]
fn meta_rejects_bad_required() {
    let schema = obj(vec![("type", s("object")), ("required", s("nope"))]);
    let err = validate_schema(&schema).unwrap_err();
    assert!(err.problems.len() > 0);
}

#[test]
fn meta_rejects_unknown_keyword() {
    let schema = obj(vec![("type", s("string")), ("formatting", s("variant-id"))]);
    assert!(validate_schema(&schema).is_err());
}

#[test]
fn unknown_format_fails_compilation_not_meta() {
    let schema = obj(vec![("type", s("string")), ("format", s("bogus"))]);
    assert!(validate_schema(&schema).is_ok());
    assert_eq!(compile(&schema).unwrap_err(), gnomad_lite::CompileError::UnknownFormat);
}

#[test]
fn invalid_pattern_fails_meta_and_compilation() {
    let schema = obj(vec![("type", s("string")), ("pattern", s("("))]);
    assert!(validate_schema(&schema).is_err());
    assert_eq!(compile(&schema).unwrap_err(), gnomad_lite::CompileError::InvalidPattern);
}

#[test]
fn pattern_constraint_is_applied() {
    let schema = obj(vec![("type", s("string")), ("pattern", s("^ab+c$"))]);
    let validator = compile(&schema).unwrap();
    assert!(validator.is_valid(&s("abbc")));
    let bad = validator.validate(&s("zzz"));
    assert_eq!(bad.len(), 1);
    assert_eq!(bad[0].kind, ViolationKind::PatternMismatch);
}

#[test]
fn array_length_bounds() {
    let schema = obj(vec![
        ("type", s("array")),
        ("items", string_schema()),
        ("minItems", num_int(1)),
        ("maxItems", num_int(2)),
    ]);
    assert!(validate_schema(&schema).is_ok());
    let validator = compile(&schema).unwrap();
    let empty = validator.validate(&arr(vec![]));
    assert_eq!(empty.len(), 1);
    assert_eq!(empty[0].kind, ViolationKind::LengthOutOfRange);
    assert!(validator.is_valid(&arr(vec![s("a")])));
    assert!(validator.is_valid(&arr(vec![s("a"), s("b")])));
    let long = validator.validate(&arr(vec![s("a"), s("b"), s("c")]));
    assert_eq!(long.len(), 1);
    assert_eq!(long[0].kind, ViolationKind::LengthOutOfRange);
}

#[test]
fn unexpected_property_is_rejected() {
    let validator = build_validator();
    let document = obj(vec![
        ("variants", arr(vec![])),
        ("genes", arr(vec![])),
        ("extra", Json::Bool(true)),
    ]);
    let violations = validator.validate(&document);
    assert_eq!(violations.len(), 1);
    assert_eq!(violations[0].kind, ViolationKind::UnexpectedProperty);
    assert_eq!(violations[0].path, vec![PathSeg::Prop("extra".to_string())]);
}

#[test]
fn integer_node_rejects_fractions() {
    let schema = obj(vec![("type", s("integer")), ("minimum", num_int(0))]);
    let validator = compile(&schema).unwrap();
    assert!(validator.is_valid(&num_int(3)));
    let frac = validator.validate(&num_dec(false, 1, 500_000_000));
    assert_eq!(frac.len(), 1);
    assert_eq!(frac[0].kind, ViolationKind::TypeMismatch);
    let neg = validator.validate(&num_int(-1));
    assert_eq!(neg.len(), 1);
    assert_eq!(neg[0].kind, ViolationKind::RangeViolation);
}

#[test]
fn enum_chrom_is_checked() {
    let validator = build_validator();
    let document = obj(vec![
        ("variants", arr(vec![])),
        (
            "genes",
            arr(vec![obj(vec![
                ("symbol", s("BRCA1")),
                ("ensembl_id", s("ENSG00000012048")),
                ("chrom", s("Q")),
                ("start", num_int(1)),
                ("stop", num_int(2)),
                ("flags", arr(vec![])),
                ("filters", arr(vec![])),
                ("variant_ids", arr(vec![])),
            ])]),
        ),
    ]);
    let violations = validator.validate(&document);
    assert_eq!(violations.len(), 1);
    assert_eq!(violations[0].kind, ViolationKind::EnumViolation);
}

#[test]
fn missing_required_top_level_key() {
    let validator = build_validator();
    let document = obj(vec![("variants", arr(vec![]))]);
    let violations = validator.validate(&document);
    assert_eq!(violations.len(), 1);
    assert_eq!(violations[0].kind, ViolationKind::MissingRequired);
    assert_eq!(violations[0].path, vec![PathSeg::Prop("genes".to_string())]);
}

#[test]
fn type_mismatch_on_non_object_document() {
    let validator = build_validator();
    let violations = validator.validate(&Json::Null);
    assert_eq!(violations.len(), 1);
    assert_eq!(violations[0].kind, ViolationKind::TypeMismatch);
    assert_eq!(violations[0].path, Vec::<PathSeg>::new());
}

#[test]
fn full_sequencing_record_validates() {
    let validator = build_validator();
    let exome = obj(vec![
        ("ac", num_int(123)),
        ("an", num_int(456)),
        ("af", num_dec(false, 0, 269_700_000)),
        ("flags", arr(vec![s("lcr")])),
        ("filters", arr(vec![])),
    ]);
    let document = obj(vec![
        (
            "variants",
            arr(vec![obj(vec![
                ("id", s("1-234-A-C")),
                ("exome", exome),
                ("genome", Json::Null),
            ])]),
        ),
        ("genes", arr(vec![])),
    ]);
    assert!(validator.is_valid(&document));
}

#[test]
fn format_takes_precedence_over_pattern() {
    let schema = obj(vec![
        ("type", s("string")),
        ("format", s("variant-id")),
        ("pattern", s("^z$")),
    ]);
    assert!(validate_schema(&schema).is_ok());
    let validator = compile(&schema).unwrap();
    assert!(validator.is_valid(&s("1-2-A-C")));
    let bad = validator.validate(&s("zzz"));
    assert_eq!(bad.len(), 1);
    assert_eq!(bad[0].kind, ViolationKind::FormatViolation);
}

#[test]
fn boolean_node_checks_type() {
    let schema = obj(vec![("type", s("boolean"))]);
    let validator = compile(&schema).unwrap();
    assert!(validator.is_valid(&Json::Bool(true)));
    let bad = validator.validate(&s("true"));
    assert_eq!(bad.len(), 1);
    assert_eq!(bad[0].kind, ViolationKind::TypeMismatch);
}

#[test]
fn duplicate_keys_use_first_occurrence() {
    let validator = build_validator();
    let document = Json::Obj(vec![
        ("variants".to_string(), arr(vec![])),
        ("genes".to_string(), arr(vec![])),
        ("variants".to_string(), Json::Bool(false)),
    ]);
    assert!(validator.is_valid(&document));
}

#[test]
fn meta_rejects_mixed_node_kinds() {
    let schema = obj(vec![("type", s("string")), ("enum", arr(vec![s("a")]))]);
    assert!(validate_schema(&schema).is_err());
}

#[test]
fn non_object_schema_is_malformed() {
    assert!(validate_schema(&Json::Null).is_err());
    assert_eq!(compile(&Json::Null).unwrap_err(), gnomad_lite::CompileError::Malformed);
    assert_eq!(
        compile(&obj(vec![("minimum", num_int(0))])).unwrap_err(),
        gnomad_lite::CompileError::Malformed
    );
}

#[test]
fn anyof_picks_closest_alternative_for_diagnosis() {
    let schema = obj(vec![(
        "anyOf",
        arr(vec![
            seq_type_schema(),
            obj(vec![("type", s("string"))]),
        ]),
    )]);
    let validator = compile(&schema).unwrap();
    let nearly = obj(vec![
        ("ac", num_int(1)),
        ("an", num_int(2)),
        ("af", num_dec(false, 0, 5)),
        ("flags", arr(vec![])),
    ]);
    let violations = validator.validate(&nearly);
    assert_eq!(violations.len(), 1);
    assert_eq!(violations[0].kind, ViolationKind::NoAlternativeMatched);
    assert_eq!(violations[0].sub.len(), 1);
    assert_eq!(violations[0].sub[0].kind, ViolationKind::MissingRequired);
}
