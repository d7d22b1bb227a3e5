use rolypoly::codon::{CodonTable, GeneticCode};
use rolypoly::complement::{complement_base, reverse_complement, reverse_complement_bytes};
use rolypoly::fasta::{
    parse_fasta, record_frames, reformat_fasta, render_fasta, translate_fasta, FastaRecord,
};
use rolypoly::translate::{
    is_dna_sequence, six_frame_or_empty, translate_frame, translate_six_frame,
    translate_six_frame_batch,
};
use rolypoly::TranslateError;

fn standard() -> CodonTable {
    CodonTable::resolve(1).unwrap()
}

fn protein(seq: &str, frame: i32) -> String {
    String::from_utf8(translate_frame(seq.as_bytes(), frame, &standard())).unwrap()
}

#[test]
fn reverse_complement_of_atgc() {
    assert_eq!(reverse_complement("ATGC"), "GCAT");
}

#[test]
fn reverse_complement_twice_restores_acgt() {
    let s = "GATTACACCGTTAGC";
    assert_eq!(reverse_complement(&reverse_complement(s)), s);
}

#[test]
fn reverse_complement_is_lossy_on_unknown_bytes() {
    assert_eq!(reverse_complement("AZ"), "NT");
    assert_eq!(reverse_complement(&reverse_complement("AZ")), "AN");
}

#[test]
fn reverse_complement_handles_case_and_ambiguity_codes() {
    assert_eq!(reverse_complement("acgtRYMKSWBVDHN"), "NDHBVWSMKRYACGT");
    assert_eq!(reverse_complement(""), "");
}

#[test]
fn complement_of_each_code() {
    let pairs = [
        (b'A', b'T'), (b'T', b'A'), (b'G', b'C'), (b'C', b'G'), (b'R', b'Y'), (b'Y', b'R'),
        (b'M', b'K'), (b'K', b'M'), (b'S', b'S'), (b'W', b'W'), (b'B', b'V'), (b'V', b'B'),
        (b'D', b'H'), (b'H', b'D'), (b'g', b'C'), (b'x', b'N'), (b'-', b'N'),
    ];
    for (b, c) in pairs {
        assert_eq!(complement_base(b), c);
    }
    assert_eq!(reverse_complement_bytes(b"AAC"), b"GTT".to_vec());
}

#[test]
fn frame_lengths_follow_the_offset() {
    let s = "ATGAAATAGC";
    assert_eq!(protein(s, 1).len(), 3);
    assert_eq!(protein(s, 2).len(), 3);
    assert_eq!(protein(s, 3).len(), 2);
    assert_eq!(protein(s, -1).len(), 3);
    assert_eq!(protein(s, -3).len(), 2);
    assert_eq!(protein("A", 3), "");
    assert_eq!(protein("", 1), "");
}

#[test]
fn frames_of_atgaaatag() {
    let s = "ATGAAATAG";
    assert_eq!(protein(s, 1), "MK*");
    assert_eq!(protein(s, 2), "*N");
    assert_eq!(protein(s, 3), "EI");
    assert_eq!(protein(s, -1), "LFH");
    assert_eq!(protein(s, -2), "YF");
    assert_eq!(protein(s, -3), "IS");
}

#[test]
fn frame_reads_lower_case_and_degrades_unknown_codons() {
    assert_eq!(protein("atgNNNaaa", 1), "MXK");
    assert_eq!(protein("ATGRAA", 1), "MX");
}

#[test]
fn six_frame_of_atgaaatag() {
    let r = translate_six_frame("ATGAAATAG", Some(1)).unwrap();
    assert_eq!(r.get("frame_1"), Some("MK*".to_string()));
    assert_eq!(r.get("frame_-1"), Some("LFH".to_string()));
    assert_eq!(r.get("frame_4"), None);
}

#[test]
fn six_frame_has_exactly_six_keys() {
    let expected = ["frame_1", "frame_2", "frame_3", "frame_-1", "frame_-2", "frame_-3"];
    for s in ["ATGAAATAG", "", "AC", "acgtn"] {
        let r = translate_six_frame(s, None).unwrap();
        assert_eq!(r.len(), 6);
        assert_eq!(r.keys(), expected.iter().map(|k| k.to_string()).collect::<Vec<_>>());
    }
}

#[test]
fn six_frame_rejects_invalid_symbol() {
    assert!(matches!(translate_six_frame("ATGAAATAGZ", Some(1)), Err(TranslateError::InvalidSequence)));
    assert!(matches!(translate_six_frame("ATG U", None), Err(TranslateError::InvalidSequence)));
}

#[test]
fn six_frame_accepts_lower_case_and_ambiguity_codes() {
    let r = translate_six_frame("atgRYN", Some(11)).unwrap();
    assert_eq!(r.get("frame_1"), Some("MX".to_string()));
}

#[test]
fn six_frame_rejects_unsupported_code() {
    assert_eq!(
        translate_six_frame("ATG", Some(2)).err(),
        Some(TranslateError::UnsupportedGeneticCode(2))
    );
    assert_eq!(translate_six_frame("ATGZ", Some(2)).err(), Some(TranslateError::InvalidSequence));
}

#[test]
fn batch_keeps_positions_and_empties_invalid() {
    let r = translate_six_frame_batch(vec!["ATGAAATAG".to_string(), "ZZZ".to_string()], Some(1))
        .unwrap();
    assert_eq!(r.len(), 2);
    assert!(!r[0].is_empty());
    assert_eq!(r[0].get("frame_1"), Some("MK*".to_string()));
    assert!(r[1].is_empty());
}

#[test]
fn batch_rejects_unsupported_code() {
    assert_eq!(
        translate_six_frame_batch(vec!["ATG".to_string()], Some(5)).err(),
        Some(TranslateError::UnsupportedGeneticCode(5))
    );
    assert_eq!(translate_six_frame_batch(Vec::new(), None).unwrap().len(), 0);
}

#[test]
fn lenient_element() {
    let t = standard();
    assert_eq!(six_frame_or_empty("aaa", &t).get("frame_1"), Some("K".to_string()));
    assert!(six_frame_or_empty("AAX", &t).is_empty());
}

#[test]
fn alphabet_check() {
    assert!(is_dna_sequence(b"ACGTRYSWKMBDHVN"));
    assert!(is_dna_sequence(b""));
    assert!(!is_dna_sequence(b"ACGZ"));
    assert!(!is_dna_sequence(b"acgt"));
}

#[test]
fn standard_code_is_complete() {
    let t = standard();
    let bases = [b'A', b'C', b'G', b'T'];
    let mut n = 0;
    for a in bases {
        for b in bases {
            for c in bases {
                let aa = t.translate(a, b, c);
                assert!(aa == b'*' || aa.is_ascii_uppercase());
                assert_ne!(aa, b'X');
                n += 1;
            }
        }
    }
    assert_eq!(n, 64);
    assert_eq!(t.translate(b'A', b'T', b'G'), b'M');
    assert_eq!(t.translate(b'T', b'G', b'A'), b'*');
    assert_eq!(t.translate(b'N', b'T', b'G'), b'X');
}

#[test]
fn genetic_codes_resolve() {
    assert_eq!(CodonTable::resolve(11).unwrap().code(), GeneticCode::Bacterial);
    assert_eq!(CodonTable::resolve(1).unwrap().code(), GeneticCode::Standard);
    assert_eq!(CodonTable::resolve(3).err(), Some(TranslateError::UnsupportedGeneticCode(3)));
    assert_eq!(CodonTable::resolve(7).err(), Some(TranslateError::UnsupportedGeneticCode(7)));
    assert_eq!(GeneticCode::from_id(26), Some(GeneticCode::Pachysolen));
    assert_eq!(GeneticCode::from_id(7), None);
    assert_eq!(GeneticCode::Echinoderm.id(), 9);
    assert!(GeneticCode::Vertebrate.get_translation_table().is_err());
}

#[test]
fn file_text_translation() {
    let out = translate_fasta(b">seq1\nATGAAATAG\n", None).unwrap();
    let out = String::from_utf8(out).unwrap();
    let expected = ">seq1_frame_1_forward\nMK*\n>seq1_frame_2_forward\n*N\n>seq1_frame_3_forward\nEI\n\
>seq1_frame_1_reverse\nLFH\n>seq1_frame_2_reverse\nYF\n>seq1_frame_3_reverse\nIS\n";
    assert_eq!(out, expected);
}

#[test]
fn file_text_omits_empty_frames() {
    let out = String::from_utf8(translate_fasta(b">a\nATGA\n>b\nAT\n", Some(11)).unwrap()).unwrap();
    assert_eq!(
        out,
        ">a_frame_1_forward\nM\n>a_frame_2_forward\n*\n>a_frame_1_reverse\nS\n>a_frame_2_reverse\nH\n"
    );
}

#[test]
fn file_text_is_lenient_and_refuses_code() {
    let out = String::from_utf8(translate_fasta(b">z\nZZZ", None).unwrap()).unwrap();
    assert!(out.starts_with(">z_frame_1_forward\nX\n>z_frame_1_reverse\nX\n"));
    assert_eq!(
        translate_fasta(b">a\nATG\n", Some(4)).err(),
        Some(TranslateError::UnsupportedGeneticCode(4))
    );
}

#[test]
fn parse_joins_lines_and_skips_empty_headers() {
    let recs = parse_fasta(b"AC\n> one \nGG T \r\n tt\n>\nCC\n>two\n\n>three");
    assert_eq!(recs.len(), 3);
    assert_eq!(recs[0].header, b"one".to_vec());
    assert_eq!(recs[0].sequence, b"GG Ttt".to_vec());
    assert_eq!(recs[1].header, b"two".to_vec());
    assert!(recs[1].sequence.is_empty());
    assert_eq!(recs[2].header, b"three".to_vec());
    assert!(recs[2].sequence.is_empty());
    assert!(parse_fasta(b"").is_empty());
    assert!(parse_fasta(b"ACGT\n").is_empty());
}

#[test]
fn file_text_drops_lines_before_first_header() {
    let out = String::from_utf8(translate_fasta(b"ACGT\n>s1\nATG\n", None).unwrap()).unwrap();
    assert_eq!(out, ">s1_frame_1_forward\nM\n>s1_frame_1_reverse\nH\n");
}

#[test]
fn render_wraps_long_sequences() {
    let rec = FastaRecord { header: b"h".to_vec(), sequence: vec![b'A'; 130] };
    let out = String::from_utf8(render_fasta(&vec![rec], 60)).unwrap();
    let a60 = "A".repeat(60);
    assert_eq!(out, format!(">h\n{}\n{}\n{}\n", a60, a60, "A".repeat(10)));
    let empty = FastaRecord { header: b"e".to_vec(), sequence: Vec::new() };
    assert_eq!(render_fasta(&vec![empty], 3), b">e\n".to_vec());
}

#[test]
fn record_frames_of_short_sequence() {
    let rec = FastaRecord { header: b"r".to_vec(), sequence: b"atg".to_vec() };
    let frames = record_frames(&rec, &standard());
    assert_eq!(frames.len(), 2);
    assert_eq!(frames[0].header, b"r_frame_1_forward".to_vec());
    assert_eq!(frames[0].sequence, b"M".to_vec());
    assert_eq!(frames[1].header, b"r_frame_1_reverse".to_vec());
    assert_eq!(frames[1].sequence, b"H".to_vec());
}

#[test]
fn reformat_drops_orphan_lines_and_rewraps() {
    let out = reformat_fasta(b"XX\n>a\nACGTA\nCG\n>\nTT\n>b\n", 3);
    assert_eq!(out, b">a\nACG\nTAC\nG\n>b\n".to_vec());
    assert!(reformat_fasta(b"", 60).is_empty());
}
