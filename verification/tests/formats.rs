use gnomad_lite::Number;
use gnomad_lite::check_ensembl_gene_id;
use gnomad_lite::check_variant_id;

#[test]
fn variant_id_accepts_valid_shapes() {
    assert!(check_variant_id("1-234-A-C"));
    assert!(check_variant_id("22-1-T-G"));
    assert!(check_variant_id("X-5-ACGT-T"));
    assert!(check_variant_id("Y-100-G-GA"));
    assert!(check_variant_id("M-1-A-C"));
    assert!(check_variant_id("1-010-A-C"));
}

#[test]
fn variant_id_rejects_bad_chromosomes() {
    assert!(!check_variant_id("0-1-A-C"));
    assert!(!check_variant_id("23-1-A-C"));
    assert!(!check_variant_id("Z-1-A-C"));
    assert!(!check_variant_id("01-1-A-C"));
    assert!(!check_variant_id("-1-A-C"));
}

#[test]
fn variant_id_rejects_bad_positions() {
    assert!(!check_variant_id("1-0-A-C"));
    assert!(!check_variant_id("1-00-A-C"));
    assert!(!check_variant_id("1--A-C"));
    assert!(!check_variant_id("1-x1-A-C"));
}

#[test]
fn variant_id_rejects_bad_bases_and_shapes() {
    assert!(!check_variant_id("1-1-Z-C"));
    assert!(!check_variant_id("1-1-A-"));
    assert!(!check_variant_id("1-1--C"));
    assert!(!check_variant_id("1-1-A-C-G"));
    assert!(!check_variant_id("1-1-A"));
    assert!(!check_variant_id(""));
    assert!(!check_variant_id("1-1-a-c"));
}

#[test]
fn ensembl_id_shape() {
    assert!(check_ensembl_gene_id("ENSG00000012048"));
    assert!(check_ensembl_gene_id("ENSG99999999999"));
    assert!(!check_ensembl_gene_id("ENSQ0101010101"));
    assert!(!check_ensembl_gene_id("ENSG0000001204"));
    assert!(!check_ensembl_gene_id("ENSG000000120488"));
    assert!(!check_ensembl_gene_id("ENSG0000001204X"));
    assert!(!check_ensembl_gene_id("ensg00000012048"));
    assert!(!check_ensembl_gene_id(""));
}

#[test]
fn number_model_is_exact() {
    let zero = Number::from_int(0);
    assert_eq!(zero.nanos, 0);
    assert!(zero.is_integer());
    let one = Number::from_int(1);
    assert_eq!(one.nanos, 1_000_000_000);
    let third = Number::from_decimal(false, 0, 269_700_000);
    assert_eq!(third.nanos, 269_700_000);
    assert!(!third.is_integer());
    let tiny_negative = Number::from_decimal(true, 0, 100_000);
    assert_eq!(tiny_negative.nanos, -100_000);
    let negative_int = Number::from_int(-5);
    assert_eq!(negative_int.nanos, -5_000_000_000);
    assert!(negative_int.is_integer());
}
