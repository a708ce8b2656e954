//! Accession identifier decoding: validate and split the fixed-width
//! identifier `FFFFFFFFFF-YY-NNNNNN` into filer, year and sequence.

use vstd::prelude::*;
use vstd::string::StringSliceAdditionalSpecFns;

verus! {

/// A decoded accession identifier.
pub struct DecodedAccession {
    /// Filer identifier: the ten leading ASCII digits, leading zeros kept.
    pub filer: String,
    /// Two-digit year of filing, reported raw (no century heuristic).
    pub year: u8,
    /// Sequence number within the year, from the six trailing digits.
    pub sequence: u32,
}

/// ASCII decimal digit.
pub open spec fn is_digit(b: u8) -> bool {
    48 <= b <= 57
}

/// The accession layout: exactly 20 bytes, ten digits, `-`, two digits,
/// `-`, six digits (the pattern `[0-9]{10}-[0-9]{2}-[0-9]{6}`).
pub open spec fn accession_well_formed(s: Seq<u8>) -> bool {
    &&& s.len() == 20
    &&& s[10] == 45
    &&& s[13] == 45
    &&& forall|i: int| 0 <= i < 20 && i != 10 && i != 13 ==> is_digit(#[trigger] s[i])
}

/// Numeric value of a run of ASCII digits, most significant first.
pub open spec fn digits_value(s: Seq<u8>) -> int
    decreases s.len(),
{
    if s.len() == 0 {
        0
    } else {
        10 * digits_value(s.drop_last()) + (s.last() - 48)
    }
}

/// Ten to the power `n`.
pub open spec fn pow10(n: nat) -> int
    decreases n,
{
    if n == 0 {
        1
    } else {
        10 * pow10((n - 1) as nat)
    }
}

/// A run of `n` ASCII digits has a value in `0 .. pow10(n)`.
pub proof fn lemma_digits_value_bound(s: Seq<u8>)
    requires
        forall|i: int| 0 <= i < s.len() ==> is_digit(#[trigger] s[i]),
    ensures
        0 <= digits_value(s) < pow10(s.len()),
    decreases s.len(),
{
    if s.len() > 0 {
        lemma_digits_value_bound(s.drop_last());
    }
}

/// The filer field: the first ten bytes, read as characters.
pub open spec fn spec_filer_chars(s: Seq<u8>) -> Seq<char> {
    Seq::new(10, |i: int| s[i] as char)
}

/// The year field: the value of the two digits at positions 11 and 12.
pub open spec fn spec_year(s: Seq<u8>) -> int {
    10 * (s[11] - 48) + (s[12] - 48)
}

/// The sequence field: the value of the six digits at positions 14..20.
pub open spec fn spec_sequence(s: Seq<u8>) -> int {
    digits_value(s.subrange(14, 20))
}

/// What decoding returns for an input whose byte form is `s`: the
/// decoded fields exactly when `s` is well-formed, `None` otherwise.
pub open spec fn decode_result_matches(s: Seq<u8>, r: Option<DecodedAccession>) -> bool {
    match r {
        None => !accession_well_formed(s),
        Some(d) => {
            &&& accession_well_formed(s)
            &&& d.filer@ == spec_filer_chars(s)
            &&& d.year == spec_year(s)
            &&& d.sequence == spec_sequence(s)
        },
    }
}

/// Decoding is determined by the byte form alone: any two results for
/// the same bytes agree, presence and field by field.  In particular a
/// batch decode and an element-wise decode of the same inputs agree at
/// every position.
pub proof fn lemma_decode_result_determined(
    s: Seq<u8>,
    r1: Option<DecodedAccession>,
    r2: Option<DecodedAccession>,
)
    requires
        decode_result_matches(s, r1),
        decode_result_matches(s, r2),
    ensures
        r1 is Some <==> r2 is Some,
        r1 is Some ==> {
            &&& r1->Some_0.filer@ == r2->Some_0.filer@
            &&& r1->Some_0.year == r2->Some_0.year
            &&& r1->Some_0.sequence == r2->Some_0.sequence
        },
{
}

/// Relies on String::push: appends the given character to the end of
/// the string.
#[verifier::external_body]
fn push_char(s: &mut String, c: char)
    ensures
        final(s)@ == old(s)@.push(c),
{
    s.push(c);
}

/// Decode an accession identifier.  Returns the decoded triple exactly
/// when the input matches the pattern `[0-9]{10}-[0-9]{2}-[0-9]{6}`,
/// and `None` on any other input.
pub fn decode_accession(acc: &str) -> (r: Option<DecodedAccession>)
    ensures
        decode_result_matches(acc.spec_bytes(), r),
        r is Some <==> accession_well_formed(acc.spec_bytes()),
        r is Some ==> r->Some_0.year <= 99 && r->Some_0.sequence <= 999999,
{
    let bytes = acc.as_bytes();
    if bytes.len() != 20 {
        return None;
    }
    // Separators: 45 is ASCII '-'.
    if bytes[10] != 45 || bytes[13] != 45 {
        return None;
    }
    // All remaining positions must be ASCII digits.
    let mut i: usize = 0;
    while i < 20
        invariant
            i <= 20,
            bytes@.len() == 20,
            bytes@ == acc.spec_bytes(),
            forall|k: int| 0 <= k < i && k != 10 && k != 13 ==> is_digit(#[trigger] bytes@[k]),
        decreases 20 - i,
    {
        if i != 10 && i != 13 {
            let b = bytes[i];
            if b < 48 || b > 57 {
                return None;
            }
        }
        i = i + 1;
    }
    // The filer identifier is copied verbatim, leading zeros kept.
    let mut filer = String::new();
    let mut j: usize = 0;
    while j < 10
        invariant
            j <= 10,
            bytes@.len() == 20,
            filer@.len() == j,
            forall|k: int| 0 <= k < j ==> filer@[k] == bytes@[k] as char,
        decreases 10 - j,
    {
        push_char(&mut filer, bytes[j] as char);
        j = j + 1;
    }
    proof {
        assert(filer@ =~= spec_filer_chars(acc.spec_bytes()));
    }
    // Year, directly from the two digits: no century heuristic.
    let year: u8 = (bytes[11] - 48) * 10 + (bytes[12] - 48);
    // Sequence, from the six digits at 14..20.
    let mut sequence: u32 = 0;
    let mut k: usize = 14;
    while k < 20
        invariant
            14 <= k <= 20,
            bytes@.len() == 20,
            bytes@ == acc.spec_bytes(),
            forall|m: int| 0 <= m < 20 && m != 10 && m != 13 ==> is_digit(#[trigger] bytes@[m]),
            sequence == digits_value(bytes@.subrange(14, k as int)),
            sequence <= 999999,
        decreases 20 - k,
    {
        let d = bytes[k] - 48;
        proof {
            let pre = bytes@.subrange(14, k as int);
            let post = bytes@.subrange(14, k + 1);
            assert(post.drop_last() =~= pre);
            assert(forall|m: int| 0 <= m < pre.len() ==> is_digit(#[trigger] pre[m]));
            lemma_digits_value_bound(pre);
            assert(pre.len() <= 5);
            assert(pow10(5) == 100000) by {
                reveal_with_fuel(pow10, 6);
            }
            assert(pow10(pre.len()) <= pow10(5)) by {
                lemma_pow10_le(pre.len(), 5);
            }
        }
        sequence = sequence * 10 + d as u32;
        k = k + 1;
    }
    Some(DecodedAccession { filer, year, sequence })
}

/// `pow10` is monotone in the exponent.
pub proof fn lemma_pow10_le(m: nat, n: nat)
    requires
        m <= n,
    ensures
        pow10(m) <= pow10(n),
    decreases n,
{
    if m < n {
        lemma_pow10_le(m, (n - 1) as nat);
        lemma_pow10_pos(m);
    }
}

/// `pow10` is positive.
pub proof fn lemma_pow10_pos(n: nat)
    ensures
        pow10(n) >= 1,
    decreases n,
{
    if n > 0 {
        lemma_pow10_pos((n - 1) as nat);
    }
}

} // verus!
