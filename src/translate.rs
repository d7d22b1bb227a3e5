//! Translation of one reading frame, of all six frames, and of batches.
use vstd::prelude::*;
use vstd::string::StringSliceAdditionalSpecFns;
use vstd::utf8::encode_utf8;

use crate::codon::{codon_amino, standard_table, CodonTable};
use crate::complement::{reverse_complement_bytes, revcomp};
use crate::text::{all_ascii, ascii_chars, ascii_string, to_upper, to_upper_bytes, upper, upper_seq};
use crate::TranslateError;

verus! {

/// One of the six reading frames: 1, 2, 3 on the given strand, -1, -2, -3 on
/// its reverse complement.
pub open spec fn is_frame(f: int) -> bool {
    f == 1 || f == 2 || f == 3 || f == -1 || f == -2 || f == -3
}

/// The offset of the first codon of frame `f` within its strand.
pub open spec fn frame_start(f: int) -> int {
    (if f < 0 { -f } else { f } - 1) % 3
}

/// The strand that frame `f` reads: the sequence itself, or its reverse
/// complement for a negative frame.
pub open spec fn strand(s: Seq<u8>, f: int) -> Seq<u8> {
    if f < 0 { revcomp(s) } else { s }
}

/// The number of whole codons in `s` from offset `start` on.
pub open spec fn codon_count(len: int, start: int) -> int {
    if len >= start { (len - start) / 3 } else { 0 }
}

/// The protein read in frame `f` of `s` with `table`: one amino acid for each
/// whole codon from the frame's offset on, a codon being read in upper case;
/// one or two bytes left at the end are dropped.
pub open spec fn translate_seq(s: Seq<u8>, f: int, table: Seq<u8>) -> Seq<u8> {
    let w = strand(s, f);
    let st = frame_start(f);
    Seq::new(
        codon_count(w.len() as int, st) as nat,
        |j: int|
            codon_amino(
                table,
                upper(w[st + 3 * j]),
                upper(w[st + 3 * j + 1]),
                upper(w[st + 3 * j + 2]),
            ),
    )
}

/// The protein of frame `f` has one amino acid for each whole codon from
/// the frame's offset on: `(len(s) - start) / 3` of them, rounded down,
/// wherever the sequence reaches that offset.
pub proof fn lemma_frame_length(s: Seq<u8>, f: int, table: Seq<u8>)
    requires
        is_frame(f),
        s.len() >= frame_start(f),
    ensures
        translate_seq(s, f, table).len() == (s.len() - frame_start(f)) / 3,
{
    assert(strand(s, f).len() == s.len());
}

/// The protein of frame `frame` of `seq`, read with `table`.
pub fn translate_frame(seq: &[u8], frame: i32, table: &CodonTable) -> (r: Vec<u8>)
    requires
        table.wf(),
        is_frame(frame as int),
    ensures
        r@ == translate_seq(seq@, frame as int, table@),
        r@.len() == codon_count(seq@.len() as int, frame_start(frame as int)),
{
    let rc: Vec<u8> = if frame < 0 {
        reverse_complement_bytes(seq)
    } else {
        Vec::new()
    };
    let working: &[u8] = if frame < 0 {
        rc.as_slice()
    } else {
        seq
    };
    let start: usize = if frame < 0 {
        ((-frame - 1) % 3) as usize
    } else {
        ((frame - 1) % 3) as usize
    };
    assert(working@ == strand(seq@, frame as int));
    assert(start == frame_start(frame as int));
    let ghost expected = translate_seq(seq@, frame as int, table@);
    let mut protein: Vec<u8> = Vec::new();
    let mut i: usize = start;
    let n = working.len();
    while i < n && n - i > 2
        invariant
            table.wf(),
            n == working@.len(),
            start == frame_start(frame as int),
            working@ == strand(seq@, frame as int),
            expected == translate_seq(seq@, frame as int, table@),
            start <= i,
            i == start + 3 * protein@.len(),
            protein@.len() <= expected.len(),
            protein@ == expected.subrange(0, protein@.len() as int),
        decreases n - i,
    {
        let aa = table.translate(
            to_upper(working[i]),
            to_upper(working[i + 1]),
            to_upper(working[i + 2]),
        );
        protein.push(aa);
        i = i + 3;
        assert(protein@ =~= expected.subrange(0, protein@.len() as int));
    }
    assert(protein@ =~= expected);
    protein
}

/// The accepted DNA alphabet: the four bases and the IUPAC ambiguity codes,
/// in upper case.
pub open spec fn dna_symbols() -> Seq<u8> {
    seq![
        'A' as u8, 'C' as u8, 'G' as u8, 'T' as u8, 'R' as u8, 'Y' as u8, 'S' as u8, 'W' as u8,
        'K' as u8, 'M' as u8, 'B' as u8, 'D' as u8, 'H' as u8, 'V' as u8, 'N' as u8
    ]
}

/// Every byte of `s` is in the accepted DNA alphabet.
pub open spec fn is_dna(s: Seq<u8>) -> bool {
    forall|i: int| 0 <= i < s.len() ==> dna_symbols().contains(#[trigger] s[i])
}

fn dna_alphabet() -> (r: Vec<u8>)
    ensures
        r@ == dna_symbols(),
{
    let r: Vec<u8> = vec![
        'A' as u8, 'C' as u8, 'G' as u8, 'T' as u8, 'R' as u8, 'Y' as u8, 'S' as u8, 'W' as u8,
        'K' as u8, 'M' as u8, 'B' as u8, 'D' as u8, 'H' as u8, 'V' as u8, 'N' as u8
    ];
    assert(r@ =~= dna_symbols());
    r
}

/// Relies on `bio::alphabets::Alphabet::new`, which builds the set of the given
/// symbols, and `Alphabet::is_word`, true exactly when every byte of the text
/// is in that set.
#[verifier::external_body]
fn is_word_over(symbols: &[u8], text: &[u8]) -> (r: bool)
    ensures
        r == (forall|i: int| 0 <= i < text@.len() ==> symbols@.contains(#[trigger] text@[i])),
{
    bio::alphabets::Alphabet::new(symbols).is_word(text)
}

/// Whether every byte of `seq` is in the accepted DNA alphabet.
pub fn is_dna_sequence(seq: &[u8]) -> (r: bool)
    ensures
        r == is_dna(seq@),
{
    let symbols = dna_alphabet();
    is_word_over(symbols.as_slice(), seq)
}

/// The six frames in their canonical order: 1, 2, 3, -1, -2, -3.
pub open spec fn frame_of(k: int) -> int {
    if k < 3 { k + 1 } else { 2 - k }
}

/// The label of frame `f`: `frame_` and the signed frame number.
pub open spec fn frame_label(f: int) -> Seq<u8> {
    let prefix = seq!['f' as u8, 'r' as u8, 'a' as u8, 'm' as u8, 'e' as u8, '_' as u8];
    let digit = ('0' as int + if f < 0 { -f } else { f }) as u8;
    if f < 0 {
        prefix + seq!['-' as u8, digit]
    } else {
        prefix + seq![digit]
    }
}

/// The six labels in canonical order:
/// `frame_1, frame_2, frame_3, frame_-1, frame_-2, frame_-3`.
pub open spec fn six_labels() -> Seq<Seq<char>> {
    Seq::new(6, |k: int| ascii_chars(frame_label(frame_of(k))))
}

/// The six-frame translation of `s` with `table`: for each frame in canonical
/// order, its label and its protein.
pub open spec fn six_frame_view(s: Seq<u8>, table: Seq<u8>) -> Seq<(Seq<char>, Seq<char>)> {
    Seq::new(
        6,
        |k: int|
            (ascii_chars(frame_label(frame_of(k))), ascii_chars(translate_seq(s, frame_of(k), table))),
    )
}

/// The label of a frame, as bytes.
fn label_bytes(frame: i32) -> (r: Vec<u8>)
    requires
        is_frame(frame as int),
    ensures
        r@ == frame_label(frame as int),
        all_ascii(r@),
{
    let mut r: Vec<u8> = vec!['f' as u8, 'r' as u8, 'a' as u8, 'm' as u8, 'e' as u8, '_' as u8];
    let m: i32 = if frame < 0 {
        r.push('-' as u8);
        -frame
    } else {
        frame
    };
    r.push(('0' as u8) + (m as u8));
    assert(r@ =~= frame_label(frame as int));
    r
}

/// A mapping from frame labels to proteins, in the order the frames were
/// translated.
pub struct TranslationResult {
    entries: Vec<(String, String)>,
}

impl View for TranslationResult {
    type V = Seq<(Seq<char>, Seq<char>)>;

    closed spec fn view(&self) -> Seq<(Seq<char>, Seq<char>)> {
        self.entries@.map_values(|e: (String, String)| (e.0@, e.1@))
    }
}

/// The labels of a translation result, in order.
pub open spec fn labels(v: Seq<(Seq<char>, Seq<char>)>) -> Seq<Seq<char>> {
    v.map_values(|e: (Seq<char>, Seq<char>)| e.0)
}

impl TranslationResult {
    /// The mapping with no entries.
    pub fn empty() -> (r: TranslationResult)
        ensures
            r@.len() == 0,
    {
        let r = TranslationResult { entries: Vec::new() };
        assert(r@ =~= Seq::<(Seq<char>, Seq<char>)>::empty());
        r
    }

    /// The number of entries.
    pub fn len(&self) -> (r: usize)
        ensures
            r == self@.len(),
    {
        self.entries.len()
    }

    /// Whether the mapping has no entries.
    pub fn is_empty(&self) -> (r: bool)
        ensures
            r == (self@.len() == 0),
    {
        self.entries.len() == 0
    }

    /// The protein stored under `key`, if any (the first, were there two).
    pub fn get(&self, key: &str) -> (r: Option<String>)
        ensures
            r is None <==> (forall|i: int| 0 <= i < self@.len() ==> self@[i].0 != key@),
            r matches Some(p) ==> exists|i: int|
                0 <= i < self@.len() && self@[i].0 == key@ && self@[i].1 == p@
                && forall|j: int| 0 <= j < i ==> self@[j].0 != key@,
    {
        let k = key.to_owned();
        let mut i: usize = 0;
        while i < self.entries.len()
            invariant
                k@ == key@,
                i <= self@.len(),
                self@.len() == self.entries@.len(),
                forall|j: int| 0 <= j < i ==> self@[j].0 != key@,
            decreases self.entries@.len() - i,
        {
            assert(self@[i as int] == (self.entries@[i as int].0@, self.entries@[i as int].1@));
            if self.entries[i].0 == k {
                let p = self.entries[i].1.clone();
                assert(self@[i as int].0 == key@ && self@[i as int].1 == p@);
                return Some(p);
            }
            i = i + 1;
        }
        None
    }

    /// The labels, in order.
    pub fn keys(&self) -> (r: Vec<String>)
        ensures
            r@.map_values(|s: String| s@) == labels(self@),
    {
        let mut r: Vec<String> = Vec::new();
        let mut i: usize = 0;
        while i < self.entries.len()
            invariant
                i <= self@.len(),
                self@.len() == self.entries@.len(),
                r@.len() == i,
                forall|j: int| 0 <= j < i ==> (#[trigger] r@[j])@ == self@[j].0,
            decreases self.entries@.len() - i,
        {
            assert(self@[i as int] == (self.entries@[i as int].0@, self.entries@[i as int].1@));
            r.push(self.entries[i].0.clone());
            i = i + 1;
        }
        assert(r@.map_values(|s: String| s@) =~= labels(self@));
        r
    }
}

/// The translations of all six frames of `seq`, under their labels, in
/// canonical order. Bytes outside the DNA alphabet are not refused: they read
/// as `N` when complemented and give `X` when translated.
pub fn six_frame(seq: &[u8], table: &CodonTable) -> (r: TranslationResult)
    requires
        table.wf(),
    ensures
        r@ == six_frame_view(seq@, table@),
{
    let frames: [i32; 6] = [1, 2, 3, -1, -2, -3];
    let ghost expected = six_frame_view(seq@, table@);
    let mut entries: Vec<(String, String)> = Vec::new();
    let mut k: usize = 0;
    assert(forall|j: int| 0 <= j < 6 ==> frames@[j] as int == frame_of(j));
    while k < 6
        invariant
            table.wf(),
            k <= 6,
            frames@.len() == 6,
            forall|j: int| 0 <= j < 6 ==> frames@[j] as int == frame_of(j),
            expected == six_frame_view(seq@, table@),
            entries@.len() == k,
            forall|j: int| 0 <= j < k ==> (#[trigger] entries@[j].0@, entries@[j].1@) == expected[j],
        decreases 6 - k,
    {
        let frame = frames[k];
        assert(frame as int == frame_of(k as int));
        let protein = translate_frame(seq, frame, table);
        proof {
            lemma_translation_ascii(seq@, frame as int, table@);
        }
        let label = label_bytes(frame);
        let label_s = ascii_string(label);
        let protein_s = ascii_string(protein);
        assert(expected[k as int] == (label_s@, protein_s@));
        entries.push((label_s, protein_s));
        k = k + 1;
    }
    let r = TranslationResult { entries };
    assert(r@ =~= expected);
    r
}

/// A translation holds ASCII bytes only.
proof fn lemma_translation_ascii(s: Seq<u8>, f: int, table: Seq<u8>)
    requires
        table == standard_table(),
    ensures
        all_ascii(translate_seq(s, f, table)),
{
    let t = translate_seq(s, f, table);
    assert forall|j: int| 0 <= j < t.len() implies t[j] < 128 by {
        assert(table.len() == 64);
        assert(forall|n: int| 0 <= n < 64 ==> table[n] < 128);
    }
}

/// The genetic-code identifiers that have a table; none asks for the standard
/// code.
pub open spec fn code_supported(id: Option<usize>) -> bool {
    match id {
        None => true,
        Some(n) => n == 1 || n == 11,
    }
}

/// The table of the genetic code `genetic_code_id`, the standard code when it
/// is `None`; an identifier without a table is refused.
pub fn resolve_code(genetic_code_id: Option<usize>) -> (r: Result<CodonTable, TranslateError>)
    ensures
        code_supported(genetic_code_id) <==> r is Ok,
        r matches Ok(t) ==> t.wf() && t@ == standard_table(),
        r matches Err(e) ==> (genetic_code_id matches Some(n)
            && e == TranslateError::UnsupportedGeneticCode(n)),
{
    match genetic_code_id {
        None => CodonTable::resolve(1),
        Some(n) => CodonTable::resolve(n),
    }
}

/// What the lenient entry points give for one sequence: its six frames when,
/// upper-cased, it is over the DNA alphabet, else no entry at all.
pub open spec fn lenient_view(s: Seq<u8>, table: Seq<u8>) -> Seq<(Seq<char>, Seq<char>)> {
    if is_dna(upper_seq(s)) {
        six_frame_view(upper_seq(s), table)
    } else {
        Seq::empty()
    }
}

/// The six frames of `seq` (upper-cased) under their labels, or an empty
/// mapping when `seq` holds a byte outside the DNA alphabet.
pub fn six_frame_or_empty(seq: &str, table: &CodonTable) -> (r: TranslationResult)
    requires
        table.wf(),
    ensures
        r@ == lenient_view(seq.spec_bytes(), table@),
{
    let upper = to_upper_bytes(seq.as_bytes());
    if is_dna_sequence(upper.as_slice()) {
        six_frame(upper.as_slice(), table)
    } else {
        TranslationResult::empty()
    }
}

/// The six frames of `seq`, upper-cased, under the labels `frame_1` to
/// `frame_-3`. A sequence with a byte outside the DNA alphabet is refused
/// first, then a genetic code without a table.
pub fn translate_six_frame(seq: &str, genetic_code_id: Option<usize>) -> (r: Result<
    TranslationResult,
    TranslateError,
>)
    ensures
        !is_dna(upper_seq(seq.spec_bytes())) <==> r == Err::<TranslationResult, TranslateError>(
            TranslateError::InvalidSequence,
        ),
        is_dna(upper_seq(seq.spec_bytes())) && !code_supported(genetic_code_id) ==> r
            == Err::<TranslationResult, TranslateError>(
            TranslateError::UnsupportedGeneticCode(genetic_code_id->Some_0),
        ),
        is_dna(upper_seq(seq.spec_bytes())) && code_supported(genetic_code_id) ==> (r matches Ok(t)
            && t@ == six_frame_view(upper_seq(seq.spec_bytes()), standard_table())),
        r matches Ok(t) ==> labels(t@) == six_labels(),
{
    let upper = to_upper_bytes(seq.as_bytes());
    if !is_dna_sequence(upper.as_slice()) {
        return Err(TranslateError::InvalidSequence);
    }
    let table = match resolve_code(genetic_code_id) {
        Ok(t) => t,
        Err(e) => {
            return Err(e);
        },
    };
    let r = six_frame(upper.as_slice(), &table);
    proof {
        lemma_six_labels(upper@, table@);
    }
    Ok(r)
}

/// A six-frame translation has exactly the six labels, in canonical order.
pub proof fn lemma_six_labels(s: Seq<u8>, table: Seq<u8>)
    ensures
        labels(six_frame_view(s, table)) == six_labels(),
{
    assert(labels(six_frame_view(s, table)) =~= six_labels());
}

/// The six-frame translation of each sequence, at the same position as the
/// sequence; a sequence outside the DNA alphabet gets an empty mapping and does
/// not stop the others. A genetic code without a table is refused.
pub fn translate_six_frame_batch(seqs: Vec<String>, genetic_code_id: Option<usize>) -> (r: Result<
    Vec<TranslationResult>,
    TranslateError,
>)
    ensures
        code_supported(genetic_code_id) <==> r is Ok,
        r matches Err(e) ==> e == TranslateError::UnsupportedGeneticCode(genetic_code_id->Some_0),
        r matches Ok(v) ==> v@.len() == seqs@.len() && forall|i: int|
            0 <= i < seqs@.len() ==> (#[trigger] v@[i])@ == lenient_view(
                encode_utf8(seqs@[i]@),
                standard_table(),
            ),
{
    let table = match resolve_code(genetic_code_id) {
        Ok(t) => t,
        Err(e) => {
            return Err(e);
        },
    };
    let mut out: Vec<TranslationResult> = Vec::new();
    let mut i: usize = 0;
    while i < seqs.len()
        invariant
            table.wf(),
            table@ == standard_table(),
            i <= seqs@.len(),
            out@.len() == i,
            forall|j: int|
                0 <= j < i ==> (#[trigger] out@[j])@ == lenient_view(
                    encode_utf8(seqs@[j]@),
                    standard_table(),
                ),
        decreases seqs@.len() - i,
    {
        let s: &str = seqs[i].as_str();
        out.push(six_frame_or_empty(s, &table));
        i = i + 1;
    }
    Ok(out)
}

} // verus!
