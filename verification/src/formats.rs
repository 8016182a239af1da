use vstd::prelude::*;
use vstd::string::StrSliceExecFns;

verus! {

/// `c` is a decimal digit.
pub open spec fn is_digit(c: char) -> bool {
    '0' <= c && c <= '9'
}

pub open spec fn all_digits(s: Seq<char>) -> bool {
    forall|i: int| 0 <= i < s.len() ==> is_digit(#[trigger] s[i])
}

/// Decimal digits spelling a positive integer: nonempty, and not all zeros.
pub open spec fn is_positive_digits(s: Seq<char>) -> bool {
    &&& s.len() >= 1
    &&& all_digits(s)
    &&& exists|i: int| 0 <= i < s.len() && #[trigger] s[i] != '0'
}

/// `c` is a nucleotide base letter.
pub open spec fn is_base(c: char) -> bool {
    c == 'A' || c == 'C' || c == 'G' || c == 'T'
}

pub open spec fn is_base_string(s: Seq<char>) -> bool {
    s.len() >= 1 && forall|i: int| 0 <= i < s.len() ==> is_base(#[trigger] s[i])
}

/// A chromosome name: `1` through `22`, `X`, `Y` or `M`.
pub open spec fn is_chrom(s: Seq<char>) -> bool {
    ||| (s.len() == 1 && (s[0] == 'X' || s[0] == 'Y' || s[0] == 'M' || ('1' <= s[0] && s[0]
        <= '9')))
    ||| (s.len() == 2 && ((s[0] == '1' && is_digit(s[1])) || (s[0] == '2' && '0' <= s[1] && s[1]
        <= '2')))
}

/// The `chrom-pos-ref-alt` variant identifier shape: the three dashes split the
/// string into a chromosome, a positive decimal position, and two base strings.
pub open spec fn is_variant_id(s: Seq<char>) -> bool {
    exists|i: int, j: int, k: int|
        {
            &&& 0 <= i < j < k < s.len()
            &&& #[trigger] s[i] == '-'
            &&& #[trigger] s[j] == '-'
            &&& #[trigger] s[k] == '-'
            &&& is_chrom(s.subrange(0, i))
            &&& is_positive_digits(s.subrange(i + 1, j))
            &&& is_base_string(s.subrange(j + 1, k))
            &&& is_base_string(s.subrange(k + 1, s.len() as int))
        }
}

/// The Ensembl gene identifier shape: literal `ENSG` then exactly 11 digits.
pub open spec fn is_ensembl_gene_id(s: Seq<char>) -> bool {
    &&& s.len() == 15
    &&& s[0] == 'E'
    &&& s[1] == 'N'
    &&& s[2] == 'S'
    &&& s[3] == 'G'
    &&& forall|i: int| 4 <= i < 15 ==> is_digit(#[trigger] s[i])
}

/// In a well-shaped variant id the only dashes are the three separators.
proof fn lemma_variant_id_dashes_only(s: Seq<char>, i: int, j: int, k: int)
    requires
        0 <= i < j < k < s.len(),
        is_chrom(s.subrange(0, i)),
        is_positive_digits(s.subrange(i + 1, j)),
        is_base_string(s.subrange(j + 1, k)),
        is_base_string(s.subrange(k + 1, s.len() as int)),
    ensures
        forall|m: int| 0 <= m < s.len() && #[trigger] s[m] == '-' ==> (m == i || m == j || m == k),
{
    assert forall|m: int|
        0 <= m < s.len() && #[trigger] s[m] == '-' implies (m == i || m == j || m == k) by {
        if m < i {
            assert(s.subrange(0, i)[m] == s[m]);
        } else if i < m < j {
            assert(s.subrange(i + 1, j)[m - (i + 1)] == s[m]);
        } else if j < m < k {
            assert(s.subrange(j + 1, k)[m - (j + 1)] == s[m]);
        } else if k < m {
            assert(s.subrange(k + 1, s.len() as int)[m - (k + 1)] == s[m]);
        }
    }
}

/// The characters of `s`, in order.
fn chars_of(s: &str) -> (v: Vec<char>)
    ensures
        v@ == s@,
{
    let n = s.unicode_len();
    let mut v: Vec<char> = Vec::new();
    for i in 0..n
        invariant
            n == s@.len(),
            v@ == s@.subrange(0, i as int),
    {
        v.push(s.get_char(i));
        proof {
            assert(v@ =~= s@.subrange(0, i + 1));
        }
    }
    proof {
        assert(v@ =~= s@);
    }
    v
}

/// Whether the characters `from..to` of `cs` form a chromosome name.
fn seg_is_chrom(cs: &Vec<char>, from: usize, to: usize) -> (r: bool)
    requires
        from <= to <= cs@.len(),
    ensures
        r == is_chrom(cs@.subrange(from as int, to as int)),
{
    let ghost sub = cs@.subrange(from as int, to as int);
    let len = to - from;
    if len == 1 {
        let c = cs[from];
        proof {
            assert(sub[0] == cs@[from as int]);
        }
        c == 'X' || c == 'Y' || c == 'M' || ('1' <= c && c <= '9')
    } else if len == 2 {
        let c0 = cs[from];
        let c1 = cs[from + 1];
        proof {
            assert(sub[0] == cs@[from as int]);
            assert(sub[1] == cs@[from + 1]);
        }
        (c0 == '1' && '0' <= c1 && c1 <= '9') || (c0 == '2' && '0' <= c1 && c1 <= '2')
    } else {
        false
    }
}

/// Whether the characters `from..to` of `cs` spell a positive decimal integer.
#[verifier::loop_isolation(false)]
fn seg_is_positive_digits(cs: &Vec<char>, from: usize, to: usize) -> (r: bool)
    requires
        from <= to <= cs@.len(),
    ensures
        r == is_positive_digits(cs@.subrange(from as int, to as int)),
{
    let ghost sub = cs@.subrange(from as int, to as int);
    if to == from {
        return false;
    }
    let mut digits = true;
    let mut nonzero = false;
    for p in from..to
        invariant
            digits == (forall|m: int| from <= m < p ==> is_digit(#[trigger] cs@[m])),
            nonzero == (exists|m: int| from <= m < p && #[trigger] cs@[m] != '0'),
    {
        let c = cs[p];
        digits = digits && ('0' <= c && c <= '9');
        nonzero = nonzero || c != '0';
    }
    proof {
        assert(forall|m: int| 0 <= m < sub.len() ==> sub[m] == cs@[from + m]);
        if digits && nonzero {
            let w = choose|m: int| from <= m < to && #[trigger] cs@[m] != '0';
            assert(sub[w - from] != '0');
            assert(is_positive_digits(sub));
        }
        if !digits {
            let w = choose|m: int| from <= m < to && !is_digit(#[trigger] cs@[m]);
            assert(!is_digit(sub[w - from]));
        }
        if !nonzero {
            assert(forall|m: int| 0 <= m < sub.len() ==> #[trigger] sub[m] == cs@[from + m] && sub[m]
                == '0');
        }
    }
    digits && nonzero
}

/// Whether the characters `from..to` of `cs` are all nucleotide bases.
#[verifier::loop_isolation(false)]
fn seg_is_bases(cs: &Vec<char>, from: usize, to: usize) -> (r: bool)
    requires
        from <= to <= cs@.len(),
    ensures
        r == is_base_string(cs@.subrange(from as int, to as int)),
{
    let ghost sub = cs@.subrange(from as int, to as int);
    if to == from {
        return false;
    }
    let mut bases = true;
    for p in from..to
        invariant
            bases == (forall|m: int| from <= m < p ==> is_base(#[trigger] cs@[m])),
    {
        let c = cs[p];
        bases = bases && (c == 'A' || c == 'C' || c == 'G' || c == 'T');
    }
    proof {
        assert(forall|m: int| 0 <= m < sub.len() ==> sub[m] == cs@[from + m]);
        if !bases {
            let w = choose|m: int| from <= m < to && !is_base(#[trigger] cs@[m]);
            assert(!is_base(sub[w - from]));
        }
    }
    bases
}

/// Checks a string against the `variant-id` format.
#[verifier::loop_isolation(false)]
pub fn check_variant_id(s: &str) -> (r: bool)
    ensures
        r == is_variant_id(s@),
{
    let cs = chars_of(s);
    let n = cs.len();
    let mut count: usize = 0;
    let mut p1: usize = 0;
    let mut p2: usize = 0;
    let mut p3: usize = 0;
    for i in 0..n
        invariant
            count <= 3,
            count >= 1 ==> p1 < i && cs@[p1 as int] == '-',
            count >= 2 ==> p1 < p2 < i && cs@[p2 as int] == '-',
            count == 3 ==> p2 < p3 < i && cs@[p3 as int] == '-',
            forall|m: int|
                0 <= m < i && #[trigger] cs@[m] == '-' ==> ((count >= 1 && m == p1) || (count >= 2
                    && m == p2) || (count == 3 && m == p3)),
    {
        if cs[i] == '-' {
            if count == 0 {
                p1 = i;
                count = 1;
            } else if count == 1 {
                p2 = i;
                count = 2;
            } else if count == 2 {
                p3 = i;
                count = 3;
            } else {
                proof {
                    if is_variant_id(s@) {
                        let (wi, wj, wk) = choose|wi: int, wj: int, wk: int|
                            {
                                &&& 0 <= wi < wj < wk < s@.len()
                                &&& #[trigger] s@[wi] == '-'
                                &&& #[trigger] s@[wj] == '-'
                                &&& #[trigger] s@[wk] == '-'
                                &&& is_chrom(s@.subrange(0, wi))
                                &&& is_positive_digits(s@.subrange(wi + 1, wj))
                                &&& is_base_string(s@.subrange(wj + 1, wk))
                                &&& is_base_string(s@.subrange(wk + 1, s@.len() as int))
                            };
                        lemma_variant_id_dashes_only(s@, wi, wj, wk);
                        assert(false);
                    }
                }
                return false;
            }
        }
    }
    if count != 3 {
        proof {
            if is_variant_id(s@) {
                let (wi, wj, wk) = choose|wi: int, wj: int, wk: int|
                    {
                        &&& 0 <= wi < wj < wk < s@.len()
                        &&& #[trigger] s@[wi] == '-'
                        &&& #[trigger] s@[wj] == '-'
                        &&& #[trigger] s@[wk] == '-'
                        &&& is_chrom(s@.subrange(0, wi))
                        &&& is_positive_digits(s@.subrange(wi + 1, wj))
                        &&& is_base_string(s@.subrange(wj + 1, wk))
                        &&& is_base_string(s@.subrange(wk + 1, s@.len() as int))
                    };
                assert(false);
            }
        }
        return false;
    }
    let chrom_ok = seg_is_chrom(&cs, 0, p1);
    let pos_ok = seg_is_positive_digits(&cs, p1 + 1, p2);
    let ref_ok = seg_is_bases(&cs, p2 + 1, p3);
    let alt_ok = seg_is_bases(&cs, p3 + 1, n);
    let r = chrom_ok && pos_ok && ref_ok && alt_ok;
    proof {
        if r {
            assert(is_variant_id(s@)) by {
                assert(s@[p1 as int] == '-' && s@[p2 as int] == '-' && s@[p3 as int] == '-');
            }
        } else {
            if is_variant_id(s@) {
                let (wi, wj, wk) = choose|wi: int, wj: int, wk: int|
                    {
                        &&& 0 <= wi < wj < wk < s@.len()
                        &&& #[trigger] s@[wi] == '-'
                        &&& #[trigger] s@[wj] == '-'
                        &&& #[trigger] s@[wk] == '-'
                        &&& is_chrom(s@.subrange(0, wi))
                        &&& is_positive_digits(s@.subrange(wi + 1, wj))
                        &&& is_base_string(s@.subrange(wj + 1, wk))
                        &&& is_base_string(s@.subrange(wk + 1, s@.len() as int))
                    };
                lemma_variant_id_dashes_only(s@, wi, wj, wk);
                assert(wi == p1 && wj == p2 && wk == p3);
                assert(false);
            }
        }
    }
    r
}

/// Checks a string against the `ensembl-gene-id` format.
#[verifier::loop_isolation(false)]
pub fn check_ensembl_gene_id(s: &str) -> (r: bool)
    ensures
        r == is_ensembl_gene_id(s@),
{
    let cs = chars_of(s);
    if cs.len() != 15 {
        return false;
    }
    if !(cs[0] == 'E' && cs[1] == 'N' && cs[2] == 'S' && cs[3] == 'G') {
        return false;
    }
    let mut digits = true;
    for i in 4..15usize
        invariant
            digits == (forall|m: int| 4 <= m < i ==> is_digit(#[trigger] cs@[m])),
    {
        let c = cs[i];
        digits = digits && ('0' <= c && c <= '9');
    }
    digits
}

/// Any well-formed `chrom-pos-ref-alt` combination yields a valid variant id.
///
/// Law: for every valid chromosome, positive decimal position, and nonempty
/// ref and alt base strings, the dash-joined identifier passes the
/// `variant-id` format check.
pub proof fn lemma_variant_id_of_parts(c: Seq<char>, p: Seq<char>, r: Seq<char>, a: Seq<char>)
    requires
        is_chrom(c),
        is_positive_digits(p),
        is_base_string(r),
        is_base_string(a),
    ensures
        is_variant_id(c + seq!['-'] + p + seq!['-'] + r + seq!['-'] + a),
{
    let s = c + seq!['-'] + p + seq!['-'] + r + seq!['-'] + a;
    let i = c.len() as int;
    let j = i + 1 + p.len();
    let k = j + 1 + r.len();
    assert(s[i] == '-');
    assert(s[j] == '-');
    assert(s[k] == '-');
    assert(s.subrange(0, i) =~= c);
    assert(s.subrange(i + 1, j) =~= p);
    assert(s.subrange(j + 1, k) =~= r);
    assert(s.subrange(k + 1, s.len() as int) =~= a);
}

} // verus!
