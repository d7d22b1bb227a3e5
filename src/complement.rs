//! Base complements and reverse complements, IUPAC ambiguity codes included.
use vstd::prelude::*;

use vstd::string::StringSliceAdditionalSpecFns;
use vstd::utf8::{encode_utf8, is_ascii_chars, is_ascii_chars_encode_utf8};

use crate::text::{all_ascii, ascii_chars, ascii_string};

verus! {

/// The pairing partner of a base, in upper case, whatever the case of the
/// input; `N` for any byte that is not a base or an ambiguity code.
pub open spec fn complement(b: u8) -> u8 {
    if b == 'A' as u8 || b == 'a' as u8 { 'T' as u8 }
    else if b == 'T' as u8 || b == 't' as u8 { 'A' as u8 }
    else if b == 'G' as u8 || b == 'g' as u8 { 'C' as u8 }
    else if b == 'C' as u8 || b == 'c' as u8 { 'G' as u8 }
    else if b == 'R' as u8 || b == 'r' as u8 { 'Y' as u8 }
    else if b == 'Y' as u8 || b == 'y' as u8 { 'R' as u8 }
    else if b == 'M' as u8 || b == 'm' as u8 { 'K' as u8 }
    else if b == 'K' as u8 || b == 'k' as u8 { 'M' as u8 }
    else if b == 'S' as u8 || b == 's' as u8 { 'S' as u8 }
    else if b == 'W' as u8 || b == 'w' as u8 { 'W' as u8 }
    else if b == 'B' as u8 || b == 'b' as u8 { 'V' as u8 }
    else if b == 'V' as u8 || b == 'v' as u8 { 'B' as u8 }
    else if b == 'D' as u8 || b == 'd' as u8 { 'H' as u8 }
    else if b == 'H' as u8 || b == 'h' as u8 { 'D' as u8 }
    else { 'N' as u8 }
}

/// The reverse complement: the bytes in reverse order, each complemented.
pub open spec fn revcomp(s: Seq<u8>) -> Seq<u8> {
    Seq::new(s.len(), |i: int| complement(s[s.len() - 1 - i]))
}

/// One of the upper-case bases A, C, G, T.
pub open spec fn is_acgt(b: u8) -> bool {
    b == 'A' as u8 || b == 'C' as u8 || b == 'G' as u8 || b == 'T' as u8
}

/// The pairing partner of a base (see `complement`).
pub fn complement_base(base: u8) -> (r: u8)
    ensures
        r == complement(base),
{
    if base == 'A' as u8 || base == 'a' as u8 { 'T' as u8 }
    else if base == 'T' as u8 || base == 't' as u8 { 'A' as u8 }
    else if base == 'G' as u8 || base == 'g' as u8 { 'C' as u8 }
    else if base == 'C' as u8 || base == 'c' as u8 { 'G' as u8 }
    else if base == 'R' as u8 || base == 'r' as u8 { 'Y' as u8 }
    else if base == 'Y' as u8 || base == 'y' as u8 { 'R' as u8 }
    else if base == 'M' as u8 || base == 'm' as u8 { 'K' as u8 }
    else if base == 'K' as u8 || base == 'k' as u8 { 'M' as u8 }
    else if base == 'S' as u8 || base == 's' as u8 { 'S' as u8 }
    else if base == 'W' as u8 || base == 'w' as u8 { 'W' as u8 }
    else if base == 'B' as u8 || base == 'b' as u8 { 'V' as u8 }
    else if base == 'V' as u8 || base == 'v' as u8 { 'B' as u8 }
    else if base == 'D' as u8 || base == 'd' as u8 { 'H' as u8 }
    else if base == 'H' as u8 || base == 'h' as u8 { 'D' as u8 }
    else { 'N' as u8 }
}

/// The reverse complement of a byte sequence.
pub fn reverse_complement_bytes(seq: &[u8]) -> (r: Vec<u8>)
    ensures
        r@ == revcomp(seq@),
        r@.len() == seq@.len(),
{
    let n = seq.len();
    let mut r: Vec<u8> = Vec::with_capacity(n);
    let mut i: usize = 0;
    while i < n
        invariant
            n == seq@.len(),
            i <= n,
            r@.len() == i,
            forall|j: int| 0 <= j < i ==> r@[j] == complement(seq@[n - 1 - j]),
        decreases n - i,
    {
        r.push(complement_base(seq[n - 1 - i]));
        i = i + 1;
    }
    assert(r@ =~= revcomp(seq@));
    r
}

/// The reverse complement of a DNA sequence, read byte by byte.
pub fn reverse_complement(sequence: &str) -> (r: String)
    ensures
        r@ == ascii_chars(revcomp(sequence.spec_bytes())),
        r@.len() == sequence.spec_bytes().len(),
{
    let rc = reverse_complement_bytes(sequence.as_bytes());
    proof {
        lemma_revcomp_ascii(sequence.spec_bytes());
    }
    ascii_string(rc)
}

/// A complement is always an upper-case ASCII letter.
proof fn lemma_revcomp_ascii(s: Seq<u8>)
    ensures
        all_ascii(revcomp(s)),
{
}

/// Taking the reverse complement twice gives back a sequence over A, C, G, T.
pub proof fn lemma_revcomp_involutive(s: Seq<u8>)
    requires
        forall|i: int| 0 <= i < s.len() ==> is_acgt(#[trigger] s[i]),
    ensures
        revcomp(revcomp(s)) == s,
{
    assert forall|i: int| 0 <= i < s.len() implies #[trigger] revcomp(revcomp(s))[i] == s[i] by {
        assert(is_acgt(s[i]));
    }
    assert(revcomp(revcomp(s)) =~= s);
}

/// Taking the reverse complement of a string twice gives back a string over
/// A, C, G, T: `reverse_complement(&reverse_complement(s)) == s`.
pub proof fn lemma_reverse_complement_str_involutive(s: Seq<char>)
    requires
        forall|i: int|
            0 <= i < s.len() ==> (#[trigger] s[i] == 'A' || s[i] == 'C' || s[i] == 'G' || s[i]
                == 'T'),
    ensures
        ascii_chars(revcomp(encode_utf8(ascii_chars(revcomp(encode_utf8(s)))))) == s,
{
    is_ascii_chars_encode_utf8(s);
    let b = encode_utf8(s);
    assert forall|i: int| 0 <= i < b.len() implies is_acgt(#[trigger] b[i]) by {
        assert(s[i] as u8 == b[i]);
    }
    lemma_revcomp_ascii(b);
    let once = ascii_chars(revcomp(b));
    assert(is_ascii_chars(once));
    is_ascii_chars_encode_utf8(once);
    assert(encode_utf8(once) =~= revcomp(b));
    lemma_revcomp_involutive(b);
    assert(ascii_chars(b) =~= s);
}

} // verus!
