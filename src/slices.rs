//! What the `nom` crate and std offer on plain byte slices: comparison of a
//! slice against a tag, and lexicographic order.
use core::cmp::Ordering;
use nom::CompareResult;
use vstd::prelude::*;

verus! {

#[verifier::external_type_specification]
pub struct ExCompareResult(nom::CompareResult);

/// `a` and `b` differ at some index that both have.
pub open spec fn differ_where_both(a: Seq<u8>, b: Seq<u8>) -> bool {
    exists|i: int| 0 <= i < a.len() && i < b.len() && a[i] != b[i]
}

/// The result of comparing `a` against the tag `b`: `Error` where they
/// differ on a shared index; else `Ok` where `a` is at least as long as
/// `b` (so `b` is a prefix of `a`); else `Incomplete` (`a` is a proper prefix
/// of `b`).
pub open spec fn compare_spec(a: Seq<u8>, b: Seq<u8>) -> CompareResult {
    if differ_where_both(a, b) {
        CompareResult::Error
    } else if a.len() >= b.len() {
        CompareResult::Ok
    } else {
        CompareResult::Incomplete
    }
}

/// ASCII upper-case letters mapped to lower case; other bytes unchanged.
pub open spec fn lowercase_byte(c: u8) -> u8 {
    if 65 <= c <= 90 {
        (c + 32) as u8
    } else {
        c
    }
}

/// Every byte of `s` through [`lowercase_byte`].
pub open spec fn lowercase(s: Seq<u8>) -> Seq<u8> {
    s.map_values(|c: u8| lowercase_byte(c))
}

/// As [`compare_spec`], with ASCII letters compared regardless of case.
pub open spec fn compare_no_case_spec(a: Seq<u8>, b: Seq<u8>) -> CompareResult {
    compare_spec(lowercase(a), lowercase(b))
}

/// Comparing against a tag is a prefix test on the bytes: `Ok` exactly
/// where the tag is a prefix of the input, `Incomplete` exactly where the
/// input is a proper prefix of the tag, `Error` in every other case. The
/// same holds without regard to case, on the lower-cased bytes.
pub proof fn lemma_compare_is_prefix_test(a: Seq<u8>, b: Seq<u8>)
    ensures
        compare_spec(a, b) == CompareResult::Ok <==> (b.len() <= a.len() && a.take(
            b.len() as int,
        ) == b),
        compare_spec(a, b) == CompareResult::Incomplete <==> (a.len() < b.len() && b.take(
            a.len() as int,
        ) == a),
        compare_no_case_spec(a, b) == CompareResult::Ok <==> (b.len() <= a.len() && lowercase(
            a,
        ).take(b.len() as int) == lowercase(b)),
        compare_no_case_spec(a, b) == CompareResult::Incomplete <==> (a.len() < b.len()
            && lowercase(b).take(a.len() as int) == lowercase(a)),
{
    lemma_prefix_test(a, b);
    lemma_prefix_test(lowercase(a), lowercase(b));
}

proof fn lemma_prefix_test(a: Seq<u8>, b: Seq<u8>)
    ensures
        compare_spec(a, b) == CompareResult::Ok <==> (b.len() <= a.len() && a.take(
            b.len() as int,
        ) == b),
        compare_spec(a, b) == CompareResult::Incomplete <==> (a.len() < b.len() && b.take(
            a.len() as int,
        ) == a),
{
    if b.len() <= a.len() && a.take(b.len() as int) == b {
        assert forall|i: int| 0 <= i < a.len() && i < b.len() implies a[i] == b[i] by {
            assert(a.take(b.len() as int)[i] == a[i]);
        }
    }
    if a.len() < b.len() && b.take(a.len() as int) == a {
        assert forall|i: int| 0 <= i < a.len() && i < b.len() implies a[i] == b[i] by {
            assert(b.take(a.len() as int)[i] == b[i]);
        }
    }
    if !differ_where_both(a, b) {
        if b.len() <= a.len() {
            assert(a.take(b.len() as int) =~= b);
        } else {
            assert(b.take(a.len() as int) =~= a);
        }
    }
}

/// Relies on nom's `Compare<&[u8]> for &[u8]`: `Error` at the first
/// differing byte of the shared length, else `Ok` or `Incomplete` by length.
#[verifier::external_body]
pub(crate) fn slice_compare(a: &[u8], b: &[u8]) -> (r: CompareResult)
    ensures
        r == compare_spec(a@, b@),
{
    <&[u8] as nom::Compare<&[u8]>>::compare(&a, b)
}

/// Relies on nom's `Compare<&[u8]> for &[u8]`, `compare_no_case`: as
/// `compare`, after mapping ASCII upper-case letters to lower case.
#[verifier::external_body]
pub(crate) fn slice_compare_no_case(a: &[u8], b: &[u8]) -> (r: CompareResult)
    ensures
        r == compare_no_case_spec(a@, b@),
{
    <&[u8] as nom::Compare<&[u8]>>::compare_no_case(&a, b)
}

/// Byte-wise lexicographic order: the first differing byte decides; where
/// one sequence is a prefix of the other, the shorter comes first.
pub open spec fn lex_cmp(a: Seq<u8>, b: Seq<u8>) -> Ordering
    decreases a.len(),
{
    if a.len() == 0 {
        if b.len() == 0 {
            Ordering::Equal
        } else {
            Ordering::Less
        }
    } else if b.len() == 0 {
        Ordering::Greater
    } else if a[0] < b[0] {
        Ordering::Less
    } else if a[0] > b[0] {
        Ordering::Greater
    } else {
        lex_cmp(a.drop_first(), b.drop_first())
    }
}

/// Relies on `Ord for [u8]` (`cmp`): slices are ordered lexicographically.
#[verifier::external_body]
pub(crate) fn slice_cmp(a: &[u8], b: &[u8]) -> (r: Ordering)
    ensures
        r == lex_cmp(a@, b@),
{
    a.cmp(b)
}

} // verus!
