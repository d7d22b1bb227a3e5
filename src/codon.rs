//! Genetic codes and the codon tables that implement them.
use vstd::prelude::*;

use crate::TranslateError;

verus! {

/// The amino acids of the standard genetic code, indexed by codon.
///
/// A codon's index is `16 * i0 + 4 * i1 + i2`, where each `i` is the rank of
/// a base in the order T, C, A, G.
pub open spec fn standard_table() -> Seq<u8> {
    seq![
        'F' as u8, 'F' as u8, 'L' as u8, 'L' as u8, 'S' as u8, 'S' as u8, 'S' as u8, 'S' as u8,
        'Y' as u8, 'Y' as u8, '*' as u8, '*' as u8, 'C' as u8, 'C' as u8, '*' as u8, 'W' as u8,
        'L' as u8, 'L' as u8, 'L' as u8, 'L' as u8, 'P' as u8, 'P' as u8, 'P' as u8, 'P' as u8,
        'H' as u8, 'H' as u8, 'Q' as u8, 'Q' as u8, 'R' as u8, 'R' as u8, 'R' as u8, 'R' as u8,
        'I' as u8, 'I' as u8, 'I' as u8, 'M' as u8, 'T' as u8, 'T' as u8, 'T' as u8, 'T' as u8,
        'N' as u8, 'N' as u8, 'K' as u8, 'K' as u8, 'S' as u8, 'S' as u8, 'R' as u8, 'R' as u8,
        'V' as u8, 'V' as u8, 'V' as u8, 'V' as u8, 'A' as u8, 'A' as u8, 'A' as u8, 'A' as u8,
        'D' as u8, 'D' as u8, 'E' as u8, 'E' as u8, 'G' as u8, 'G' as u8, 'G' as u8, 'G' as u8
    ]
}

fn build_standard() -> (r: Vec<u8>)
    ensures
        r@ == standard_table(),
{
    let r: Vec<u8> = vec![
        'F' as u8, 'F' as u8, 'L' as u8, 'L' as u8, 'S' as u8, 'S' as u8, 'S' as u8, 'S' as u8,
        'Y' as u8, 'Y' as u8, '*' as u8, '*' as u8, 'C' as u8, 'C' as u8, '*' as u8, 'W' as u8,
        'L' as u8, 'L' as u8, 'L' as u8, 'L' as u8, 'P' as u8, 'P' as u8, 'P' as u8, 'P' as u8,
        'H' as u8, 'H' as u8, 'Q' as u8, 'Q' as u8, 'R' as u8, 'R' as u8, 'R' as u8, 'R' as u8,
        'I' as u8, 'I' as u8, 'I' as u8, 'M' as u8, 'T' as u8, 'T' as u8, 'T' as u8, 'T' as u8,
        'N' as u8, 'N' as u8, 'K' as u8, 'K' as u8, 'S' as u8, 'S' as u8, 'R' as u8, 'R' as u8,
        'V' as u8, 'V' as u8, 'V' as u8, 'V' as u8, 'A' as u8, 'A' as u8, 'A' as u8, 'A' as u8,
        'D' as u8, 'D' as u8, 'E' as u8, 'E' as u8, 'G' as u8, 'G' as u8, 'G' as u8, 'G' as u8
    ];
    assert(r@ =~= standard_table());
    r
}

/// The rank of an upper-case base in the order T, C, A, G; `None` for any
/// other byte.
pub open spec fn base_rank(b: u8) -> Option<int> {
    if b == 'T' as u8 {
        Some(0)
    } else if b == 'C' as u8 {
        Some(1)
    } else if b == 'A' as u8 {
        Some(2)
    } else if b == 'G' as u8 {
        Some(3)
    } else {
        None
    }
}

/// The amino acid that `table` gives to the codon `a b c`, or `X` where the
/// codon is not one of the 64 made of upper-case A, C, G and T.
pub open spec fn codon_amino(table: Seq<u8>, a: u8, b: u8, c: u8) -> u8 {
    match (base_rank(a), base_rank(b), base_rank(c)) {
        (Some(i), Some(j), Some(k)) => table[16 * i + 4 * j + k],
        _ => 'X' as u8,
    }
}

/// A variant of the genetic code, numbered as in NCBI's `transl_table`.
#[derive(Clone, Copy, Debug, PartialEq, Eq, Structural)]
pub enum GeneticCode {
    Standard,
    Vertebrate,
    Yeast,
    MoldProt,
    Invertebrate,
    Ciliate,
    Echinoderm,
    Euplotid,
    Bacterial,
    AltYeast,
    Ascidian,
    AltFlatWorm,
    Chlorophycean,
    Trematode,
    Scenedesmus,
    Thraustochytrium,
    Pterobranchia,
    CandidateDivision,
    Pachysolen,
}

impl GeneticCode {
    /// The NCBI identifier of the code.
    pub open spec fn spec_id(&self) -> usize {
        match self {
            GeneticCode::Standard => 1,
            GeneticCode::Vertebrate => 2,
            GeneticCode::Yeast => 3,
            GeneticCode::MoldProt => 4,
            GeneticCode::Invertebrate => 5,
            GeneticCode::Ciliate => 6,
            GeneticCode::Echinoderm => 9,
            GeneticCode::Euplotid => 10,
            GeneticCode::Bacterial => 11,
            GeneticCode::AltYeast => 12,
            GeneticCode::Ascidian => 13,
            GeneticCode::AltFlatWorm => 14,
            GeneticCode::Chlorophycean => 16,
            GeneticCode::Trematode => 21,
            GeneticCode::Scenedesmus => 22,
            GeneticCode::Thraustochytrium => 23,
            GeneticCode::Pterobranchia => 24,
            GeneticCode::CandidateDivision => 25,
            GeneticCode::Pachysolen => 26,
        }
    }

    /// The codon table of the code, for the codes that have one.
    pub open spec fn spec_table(&self) -> Option<Seq<u8>> {
        match self {
            GeneticCode::Standard => Some(standard_table()),
            GeneticCode::Bacterial => Some(standard_table()),
            _ => None,
        }
    }

    /// The NCBI identifier of the code.
    #[verifier::when_used_as_spec(spec_id)]
    pub fn id(&self) -> (r: usize)
        ensures
            r == self.spec_id(),
    {
        match self {
            GeneticCode::Standard => 1,
            GeneticCode::Vertebrate => 2,
            GeneticCode::Yeast => 3,
            GeneticCode::MoldProt => 4,
            GeneticCode::Invertebrate => 5,
            GeneticCode::Ciliate => 6,
            GeneticCode::Echinoderm => 9,
            GeneticCode::Euplotid => 10,
            GeneticCode::Bacterial => 11,
            GeneticCode::AltYeast => 12,
            GeneticCode::Ascidian => 13,
            GeneticCode::AltFlatWorm => 14,
            GeneticCode::Chlorophycean => 16,
            GeneticCode::Trematode => 21,
            GeneticCode::Scenedesmus => 22,
            GeneticCode::Thraustochytrium => 23,
            GeneticCode::Pterobranchia => 24,
            GeneticCode::CandidateDivision => 25,
            GeneticCode::Pachysolen => 26,
        }
    }

    /// The code with NCBI identifier `id`, if there is one.
    pub open spec fn spec_from_id(id: usize) -> Option<GeneticCode> {
        if id == 1 { Some(GeneticCode::Standard) }
        else if id == 2 { Some(GeneticCode::Vertebrate) }
        else if id == 3 { Some(GeneticCode::Yeast) }
        else if id == 4 { Some(GeneticCode::MoldProt) }
        else if id == 5 { Some(GeneticCode::Invertebrate) }
        else if id == 6 { Some(GeneticCode::Ciliate) }
        else if id == 9 { Some(GeneticCode::Echinoderm) }
        else if id == 10 { Some(GeneticCode::Euplotid) }
        else if id == 11 { Some(GeneticCode::Bacterial) }
        else if id == 12 { Some(GeneticCode::AltYeast) }
        else if id == 13 { Some(GeneticCode::Ascidian) }
        else if id == 14 { Some(GeneticCode::AltFlatWorm) }
        else if id == 16 { Some(GeneticCode::Chlorophycean) }
        else if id == 21 { Some(GeneticCode::Trematode) }
        else if id == 22 { Some(GeneticCode::Scenedesmus) }
        else if id == 23 { Some(GeneticCode::Thraustochytrium) }
        else if id == 24 { Some(GeneticCode::Pterobranchia) }
        else if id == 25 { Some(GeneticCode::CandidateDivision) }
        else if id == 26 { Some(GeneticCode::Pachysolen) }
        else { None }
    }

    /// The code with NCBI identifier `id`, if there is one.
    pub fn from_id(id: usize) -> (r: Option<GeneticCode>)
        ensures
            r == Self::spec_from_id(id),
            r matches Some(c) ==> c.spec_id() == id,
    {
        match id {
            1 => Some(GeneticCode::Standard),
            2 => Some(GeneticCode::Vertebrate),
            3 => Some(GeneticCode::Yeast),
            4 => Some(GeneticCode::MoldProt),
            5 => Some(GeneticCode::Invertebrate),
            6 => Some(GeneticCode::Ciliate),
            9 => Some(GeneticCode::Echinoderm),
            10 => Some(GeneticCode::Euplotid),
            11 => Some(GeneticCode::Bacterial),
            12 => Some(GeneticCode::AltYeast),
            13 => Some(GeneticCode::Ascidian),
            14 => Some(GeneticCode::AltFlatWorm),
            16 => Some(GeneticCode::Chlorophycean),
            21 => Some(GeneticCode::Trematode),
            22 => Some(GeneticCode::Scenedesmus),
            23 => Some(GeneticCode::Thraustochytrium),
            24 => Some(GeneticCode::Pterobranchia),
            25 => Some(GeneticCode::CandidateDivision),
            26 => Some(GeneticCode::Pachysolen),
            _ => None,
        }
    }

    /// The codon table of this code; a code that has none is refused, never
    /// replaced by another.
    pub fn get_translation_table(&self) -> (r: Result<CodonTable, TranslateError>)
        ensures
            match self.spec_table() {
                Some(t) => r matches Ok(table) && table.wf() && table@ == t
                    && table.spec_code() == *self,
                None => r == Err::<CodonTable, TranslateError>(
                    TranslateError::UnsupportedGeneticCode(self.spec_id()),
                ),
            },
    {
        match self {
            GeneticCode::Standard | GeneticCode::Bacterial => Ok(
                CodonTable { code: *self, amino: build_standard() },
            ),
            _ => Err(TranslateError::UnsupportedGeneticCode(self.id())),
        }
    }
}

/// The mapping from codons to amino acids of one genetic code.
pub struct CodonTable {
    code: GeneticCode,
    amino: Vec<u8>,
}

impl View for CodonTable {
    type V = Seq<u8>;

    /// The amino acid of each codon, indexed as in `standard_table`.
    closed spec fn view(&self) -> Seq<u8> {
        self.amino@
    }
}

impl CodonTable {
    /// The genetic code the table was built for.
    pub closed spec fn spec_code(&self) -> GeneticCode {
        self.code
    }

    /// The genetic code the table was built for.
    pub fn code(&self) -> (r: GeneticCode)
        ensures
            r == self.spec_code(),
    {
        self.code
    }

    /// The table holds the 64 entries of the code it was built for.
    pub open spec fn wf(&self) -> bool {
        self.spec_code().spec_table() == Some(self@)
    }

    /// The table of the code with NCBI identifier `code_id`. Only the
    /// standard code (1) and the bacterial code (11) are implemented.
    pub fn resolve(code_id: usize) -> (r: Result<CodonTable, TranslateError>)
        ensures
            (code_id == 1 || code_id == 11) <==> r is Ok,
            r matches Ok(t) ==> t.wf() && t@ == standard_table() && t.spec_code().spec_id() == code_id,
            r matches Err(e) ==> e == TranslateError::UnsupportedGeneticCode(code_id),
    {
        match GeneticCode::from_id(code_id) {
            Some(code) => code.get_translation_table(),
            None => Err(TranslateError::UnsupportedGeneticCode(code_id)),
        }
    }

    /// The amino acid of the codon `a b c` (upper case), or `X` for any
    /// triplet that is not a codon.
    pub fn translate(&self, a: u8, b: u8, c: u8) -> (r: u8)
        requires
            self.wf(),
        ensures
            r == codon_amino(self@, a, b, c),
    {
        let i = rank(a);
        let j = rank(b);
        let k = rank(c);
        if i < 4 && j < 4 && k < 4 {
            self.amino[16 * i + 4 * j + k]
        } else {
            'X' as u8
        }
    }
}

/// The rank of an upper-case base in the order T, C, A, G, or 4 for any other
/// byte.
fn rank(b: u8) -> (r: usize)
    ensures
        match base_rank(b) {
            Some(i) => r == i,
            None => r == 4,
        },
{
    if b == 'T' as u8 {
        0
    } else if b == 'C' as u8 {
        1
    } else if b == 'A' as u8 {
        2
    } else if b == 'G' as u8 {
        3
    } else {
        4
    }
}

/// Every triplet over A, C, G and T has an amino acid or the stop marker in
/// the standard code, never the fallback `X`.
pub proof fn lemma_standard_complete(a: u8, b: u8, c: u8)
    requires
        base_rank(a) is Some,
        base_rank(b) is Some,
        base_rank(c) is Some,
    ensures
        codon_amino(standard_table(), a, b, c) != 'X' as u8,
        codon_amino(standard_table(), a, b, c) == '*' as u8
            || ('A' as u8 <= codon_amino(standard_table(), a, b, c) <= 'Z' as u8),
{
    let t = standard_table();
    assert forall|n: int| 0 <= n < 64 implies t[n] != 'X' as u8 && (t[n] == '*' as u8
        || ('A' as u8 <= t[n] <= 'Z' as u8)) by {
        assert(t.len() == 64);
    }
}

} // verus!
