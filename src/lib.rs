//! Six-frame translation of nucleotide sequences into protein sequences.
use vstd::prelude::*;

pub mod codon;
pub mod complement;
pub mod fasta;
pub mod text;
pub mod translate;

verus! {

/// What can go wrong when translating.
#[derive(Clone, Copy, Debug, PartialEq, Eq, Structural)]
pub enum TranslateError {
    /// The genetic code with this identifier has no table.
    UnsupportedGeneticCode(usize),
    /// The sequence holds a byte outside the accepted DNA alphabet.
    InvalidSequence,
}

} // verus!
