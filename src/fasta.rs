//! FASTA text: parsing into records, six-frame translation of records, and
//! rendering with wrapped sequence lines.
use vstd::prelude::*;

use crate::codon::{standard_table, CodonTable};
use crate::text::{to_upper_bytes, upper_seq};
use crate::translate::{
    code_supported, frame_of, is_frame, resolve_code, translate_frame, translate_seq,
};
use crate::TranslateError;

verus! {

/// A header and its sequence, both as bytes, without the leading `>`.
pub struct FastaRecord {
    pub header: Vec<u8>,
    pub sequence: Vec<u8>,
}

/// The header and the sequence of each record.
pub open spec fn records_view(v: Seq<FastaRecord>) -> Seq<(Seq<u8>, Seq<u8>)> {
    v.map_values(|r: FastaRecord| (r.header@, r.sequence@))
}

/// ASCII white space, as `str::trim` removes it.
pub open spec fn is_space(b: u8) -> bool {
    b == 32 || (9 <= b && b <= 13)
}

/// `s` without its leading white space.
pub open spec fn trim_start(s: Seq<u8>) -> Seq<u8>
    decreases s.len(),
{
    if s.len() > 0 && is_space(s[0]) {
        trim_start(s.drop_first())
    } else {
        s
    }
}

/// `s` without its trailing white space.
pub open spec fn trim_end(s: Seq<u8>) -> Seq<u8>
    decreases s.len(),
{
    if s.len() > 0 && is_space(s.last()) {
        trim_end(s.drop_last())
    } else {
        s
    }
}

/// `s` without leading or trailing white space.
pub open spec fn trim(s: Seq<u8>) -> Seq<u8> {
    trim_end(trim_start(s))
}

/// The state of a parse: the records so far, the pending header (empty when
/// there is none), and the sequence lines read since the last record.
pub type ParseState = (Seq<(Seq<u8>, Seq<u8>)>, Seq<u8>, Seq<u8>);

/// The effect of one line. A header line (`>` first) closes the pending
/// record, which is emitted only if its header is not empty, and opens a new
/// one with an empty sequence; any other line adds its trimmed text to the
/// pending sequence. So the lines before the first header, and those under a
/// header that trims to empty, belong to no emitted record.
pub open spec fn step_line(st: ParseState, line: Seq<u8>) -> ParseState {
    if line.len() > 0 && line[0] == '>' as u8 {
        if st.1.len() > 0 {
            (st.0.push((st.1, st.2)), trim(line.drop_first()), Seq::empty())
        } else {
            (st.0, trim(line.drop_first()), Seq::empty())
        }
    } else {
        (st.0, st.1, st.2 + trim(line))
    }
}

/// The parse state after the complete lines of `text`, and the text of the
/// line that is still open.
pub open spec fn scan(text: Seq<u8>) -> (ParseState, Seq<u8>)
    decreases text.len(),
{
    if text.len() == 0 {
        ((Seq::empty(), Seq::empty(), Seq::empty()), Seq::empty())
    } else {
        let (st, line) = scan(text.drop_last());
        if text.last() == '\n' as u8 {
            (step_line(st, line), Seq::empty())
        } else {
            (st, line.push(text.last()))
        }
    }
}

/// The records of a state at the end of the input: the pending record is
/// emitted when its header is not empty.
pub open spec fn finish(st: ParseState) -> Seq<(Seq<u8>, Seq<u8>)> {
    if st.1.len() > 0 {
        st.0.push((st.1, st.2))
    } else {
        st.0
    }
}

/// The records of a FASTA text, in order: each non-empty header with the
/// trimmed lines that follow it, up to the next header.
pub open spec fn parse_spec(text: Seq<u8>) -> Seq<(Seq<u8>, Seq<u8>)> {
    let (st, line) = scan(text);
    finish(step_line(st, line))
}

/// The bounds of the trimmed part of `text[start..end]`.
fn trim_bounds(text: &[u8], start: usize, end: usize) -> (r: (usize, usize))
    requires
        start <= end <= text@.len(),
    ensures
        start <= r.0 <= r.1 <= end,
        text@.subrange(r.0 as int, r.1 as int) == trim(text@.subrange(start as int, end as int)),
{
    let ghost s = text@.subrange(start as int, end as int);
    let mut a: usize = start;
    while a < end && (text[a] == 32 || (9 <= text[a] && text[a] <= 13))
        invariant
            start <= a <= end <= text@.len(),
            s == text@.subrange(start as int, end as int),
            trim_start(s) == trim_start(text@.subrange(a as int, end as int)),
        decreases end - a,
    {
        assert(text@.subrange(a as int, end as int).drop_first() =~= text@.subrange(
            a + 1,
            end as int,
        ));
        a = a + 1;
    }
    assert(trim_start(s) == text@.subrange(a as int, end as int));
    let mut b: usize = end;
    while b > a && (text[b - 1] == 32 || (9 <= text[b - 1] && text[b - 1] <= 13))
        invariant
            start <= a <= b <= end <= text@.len(),
            trim(s) == trim_end(text@.subrange(a as int, b as int)),
        decreases b - a,
    {
        assert(text@.subrange(a as int, b as int).drop_last() =~= text@.subrange(
            a as int,
            b - 1,
        ));
        b = b - 1;
    }
    (a, b)
}

/// Appends `text[start..end]` to `out`.
fn push_range(out: &mut Vec<u8>, text: &[u8], start: usize, end: usize)
    requires
        start <= end <= text@.len(),
    ensures
        final(out)@ == old(out)@ + text@.subrange(start as int, end as int),
{
    let mut i: usize = start;
    while i < end
        invariant
            start <= i <= end <= text@.len(),
            out@ == old(out)@ + text@.subrange(start as int, i as int),
        decreases end - i,
    {
        out.push(text[i]);
        i = i + 1;
        assert(out@ =~= old(out)@ + text@.subrange(start as int, i as int));
    }
}

/// Applies the line `text[start..end]` to the parse state.
fn take_line(
    records: &mut Vec<FastaRecord>,
    header: &mut Vec<u8>,
    body: &mut Vec<u8>,
    text: &[u8],
    start: usize,
    end: usize,
)
    requires
        start <= end <= text@.len(),
    ensures
        (records_view(final(records)@), final(header)@, final(body)@) == step_line(
            (records_view(old(records)@), old(header)@, old(body)@),
            text@.subrange(start as int, end as int),
        ),
        final(records)@.len() >= old(records)@.len(),
        forall|j: int| 0 <= j < old(records)@.len() ==> final(records)@[j] == old(records)@[j],
        forall|j: int|
            old(records)@.len() <= j < final(records)@.len() ==> (#[trigger] final(records)@[j]).header@.len()
                > 0,
{
    let ghost line = text@.subrange(start as int, end as int);
    if start < end && text[start] == '>' as u8 {
        assert(line.drop_first() =~= text@.subrange(start + 1, end as int));
        let (a, b) = trim_bounds(text, start + 1, end);
        let mut h: Vec<u8> = Vec::new();
        push_range(&mut h, text, a, b);
        assert(h@ =~= trim(line.drop_first()));
        if header.len() > 0 {
            let mut seq: Vec<u8> = Vec::new();
            core::mem::swap(&mut seq, body);
            let mut head: Vec<u8> = h;
            core::mem::swap(&mut head, header);
            let ghost before = records@;
            records.push(FastaRecord { header: head, sequence: seq });
            assert(records_view(records@) =~= records_view(before).push((head@, seq@)));
        } else {
            *header = h;
            body.clear();
        }
    } else {
        let (a, b) = trim_bounds(text, start, end);
        push_range(body, text, a, b);
    }
}

/// The records of a FASTA text, in order: each non-empty header with the
/// trimmed lines that follow it. A record with an empty header is never
/// emitted, and the lines before the first header, or under an empty header,
/// are dropped.
pub fn parse_fasta(text: &[u8]) -> (r: Vec<FastaRecord>)
    ensures
        records_view(r@) == parse_spec(text@),
        forall|i: int| 0 <= i < r@.len() ==> (#[trigger] r@[i]).header@.len() > 0,
{
    let mut records: Vec<FastaRecord> = Vec::new();
    let mut header: Vec<u8> = Vec::new();
    let mut body: Vec<u8> = Vec::new();
    let mut line_start: usize = 0;
    let mut i: usize = 0;
    while i < text.len()
        invariant
            line_start <= i <= text@.len(),
            scan(text@.subrange(0, i as int)) == (
                (records_view(records@), header@, body@),
                text@.subrange(line_start as int, i as int),
            ),
            forall|j: int| 0 <= j < records@.len() ==> (#[trigger] records@[j]).header@.len() > 0,
        decreases text@.len() - i,
    {
        assert(text@.subrange(0, i + 1).drop_last() =~= text@.subrange(0, i as int));
        if text[i] == '\n' as u8 {
            take_line(&mut records, &mut header, &mut body, text, line_start, i);
            line_start = i + 1;
            assert(text@.subrange(line_start as int, i + 1) =~= Seq::<u8>::empty());
        } else {
            assert(text@.subrange(line_start as int, i + 1) =~= text@.subrange(
                line_start as int,
                i as int,
            ).push(text@[i as int]));
        }
        i = i + 1;
    }
    assert(text@.subrange(0, i as int) =~= text@);
    take_line(&mut records, &mut header, &mut body, text, line_start, i);
    if header.len() > 0 {
        let ghost before = records@;
        records.push(FastaRecord { header, sequence: body });
        assert(forall|j: int| 0 <= j < before.len() ==> records@[j] == before[j]);
        assert(records_view(records@) =~= records_view(before).push((header@, body@)));
    }
    records
}

/// The width of the sequence lines that the translation of a FASTA text
/// writes.
pub const TRANSLATION_LINE_WIDTH: usize = 60;

/// The suffix of the header derived for frame `f`:
/// `_frame_<|f|>_forward` or `_frame_<|f|>_reverse`.
pub open spec fn frame_suffix(f: int) -> Seq<u8> {
    let digit = ('0' as int + if f < 0 { -f } else { f }) as u8;
    let head = seq!['_' as u8, 'f' as u8, 'r' as u8, 'a' as u8, 'm' as u8, 'e' as u8, '_' as u8, digit, '_' as u8];
    if f > 0 {
        head + seq!['f' as u8, 'o' as u8, 'r' as u8, 'w' as u8, 'a' as u8, 'r' as u8, 'd' as u8]
    } else {
        head + seq!['r' as u8, 'e' as u8, 'v' as u8, 'e' as u8, 'r' as u8, 's' as u8, 'e' as u8]
    }
}

/// The derived records of the first `k` canonical frames of a record with
/// header `h` and sequence `s` (upper-cased): one for each frame whose
/// translation is not empty, under the header `h` with the frame's suffix.
pub open spec fn frame_records_upto(h: Seq<u8>, s: Seq<u8>, table: Seq<u8>, k: int) -> Seq<
    (Seq<u8>, Seq<u8>),
>
    decreases k,
{
    if k <= 0 {
        Seq::empty()
    } else {
        let prev = frame_records_upto(h, s, table, k - 1);
        let t = translate_seq(upper_seq(s), frame_of(k - 1), table);
        if t.len() > 0 {
            prev.push((h + frame_suffix(frame_of(k - 1)), t))
        } else {
            prev
        }
    }
}

/// The derived records of all six frames of one record.
pub open spec fn frame_records(h: Seq<u8>, s: Seq<u8>, table: Seq<u8>) -> Seq<(Seq<u8>, Seq<u8>)> {
    frame_records_upto(h, s, table, 6)
}

/// The derived records of each record in turn.
pub open spec fn translate_all(recs: Seq<(Seq<u8>, Seq<u8>)>, table: Seq<u8>) -> Seq<
    (Seq<u8>, Seq<u8>),
>
    decreases recs.len(),
{
    if recs.len() == 0 {
        Seq::empty()
    } else {
        translate_all(recs.drop_last(), table) + frame_records(
            recs.last().0,
            recs.last().1,
            table,
        )
    }
}

/// `s` cut into lines of `w` bytes (the last may be shorter), each ended by a
/// newline; nothing for an empty `s`.
pub open spec fn wrap(s: Seq<u8>, w: nat) -> Seq<u8>
    decreases s.len(),
{
    if s.len() == 0 || w == 0 {
        Seq::empty()
    } else if s.len() <= w {
        s.push('\n' as u8)
    } else {
        s.take(w as int).push('\n' as u8) + wrap(s.skip(w as int), w)
    }
}

/// The text of one record: the header line, then the wrapped sequence.
pub open spec fn record_text(h: Seq<u8>, s: Seq<u8>, w: nat) -> Seq<u8> {
    seq!['>' as u8] + h + seq!['\n' as u8] + wrap(s, w)
}

/// The text of all records, in order.
pub open spec fn render(recs: Seq<(Seq<u8>, Seq<u8>)>, w: nat) -> Seq<u8>
    decreases recs.len(),
{
    if recs.len() == 0 {
        Seq::empty()
    } else {
        render(recs.drop_last(), w) + record_text(recs.last().0, recs.last().1, w)
    }
}

/// Appends the suffix of the header derived for `frame`.
fn push_frame_suffix(out: &mut Vec<u8>, frame: i32)
    requires
        is_frame(frame as int),
    ensures
        final(out)@ == old(out)@ + frame_suffix(frame as int),
{
    let m: i32 = if frame < 0 { -frame } else { frame };
    out.push('_' as u8);
    out.push('f' as u8);
    out.push('r' as u8);
    out.push('a' as u8);
    out.push('m' as u8);
    out.push('e' as u8);
    out.push('_' as u8);
    out.push(('0' as u8) + (m as u8));
    out.push('_' as u8);
    if frame > 0 {
        out.push('f' as u8);
        out.push('o' as u8);
        out.push('r' as u8);
        out.push('w' as u8);
        out.push('a' as u8);
        out.push('r' as u8);
        out.push('d' as u8);
    } else {
        out.push('r' as u8);
        out.push('e' as u8);
        out.push('v' as u8);
        out.push('e' as u8);
        out.push('r' as u8);
        out.push('s' as u8);
        out.push('e' as u8);
    }
    assert(final(out)@ =~= old(out)@ + frame_suffix(frame as int));
}

/// The derived records of the six frames of `record`, in canonical order;
/// a frame whose translation is empty gives none. The sequence is read
/// upper-cased and is not checked against the DNA alphabet.
pub fn record_frames(record: &FastaRecord, table: &CodonTable) -> (r: Vec<FastaRecord>)
    requires
        table.wf(),
    ensures
        records_view(r@) == frame_records(record.header@, record.sequence@, table@),
{
    let upper = to_upper_bytes(record.sequence.as_slice());
    let frames: [i32; 6] = [1, 2, 3, -1, -2, -3];
    assert(forall|j: int| 0 <= j < 6 ==> frames@[j] as int == frame_of(j));
    let mut out: Vec<FastaRecord> = Vec::new();
    let mut k: usize = 0;
    while k < 6
        invariant
            table.wf(),
            k <= 6,
            upper@ == upper_seq(record.sequence@),
            frames@.len() == 6,
            forall|j: int| 0 <= j < 6 ==> frames@[j] as int == frame_of(j),
            records_view(out@) == frame_records_upto(
                record.header@,
                record.sequence@,
                table@,
                k as int,
            ),
        decreases 6 - k,
    {
        let frame = frames[k];
        assert(frame as int == frame_of(k as int));
        let protein = translate_frame(upper.as_slice(), frame, table);
        if protein.len() > 0 {
            let mut h: Vec<u8> = Vec::new();
            push_range(&mut h, record.header.as_slice(), 0, record.header.len());
            assert(record.header@.subrange(0, record.header@.len() as int) =~= record.header@);
            push_frame_suffix(&mut h, frame);
            let ghost before = out@;
            out.push(FastaRecord { header: h, sequence: protein });
            assert(records_view(out@) =~= records_view(before).push((h@, protein@)));
        }
        k = k + 1;
    }
    out
}

/// The derived records of every record, in order of the records, each
/// record's frames together and in canonical order.
pub fn translate_records(records: &Vec<FastaRecord>, table: &CodonTable) -> (r: Vec<FastaRecord>)
    requires
        table.wf(),
    ensures
        records_view(r@) == translate_all(records_view(records@), table@),
{
    let mut out: Vec<FastaRecord> = Vec::new();
    let mut i: usize = 0;
    while i < records.len()
        invariant
            table.wf(),
            i <= records@.len(),
            records_view(out@) == translate_all(records_view(records@.subrange(0, i as int)), table@),
        decreases records@.len() - i,
    {
        let mut frames = record_frames(&records[i], table);
        let ghost before = out@;
        let ghost added = frames@;
        out.append(&mut frames);
        assert(records_view(records@.subrange(0, i + 1)).drop_last() =~= records_view(
            records@.subrange(0, i as int),
        ));
        assert(records_view(out@) =~= records_view(before) + records_view(added));
        i = i + 1;
    }
    assert(records@.subrange(0, i as int) =~= records@);
    out
}

/// Appends `s` wrapped at `width` bytes a line.
fn push_wrapped(out: &mut Vec<u8>, s: &[u8], width: usize)
    requires
        width > 0,
    ensures
        final(out)@ == old(out)@ + wrap(s@, width as nat),
{
    let n = s.len();
    let mut pos: usize = 0;
    assert(s@.subrange(0, n as int) =~= s@);
    while pos < n
        invariant
            width > 0,
            n == s@.len(),
            pos <= n,
            out@ + wrap(s@.subrange(pos as int, n as int), width as nat) == old(out)@ + wrap(
                s@,
                width as nat,
            ),
        decreases n - pos,
    {
        let ghost rest = s@.subrange(pos as int, n as int);
        let ghost before = out@;
        let e: usize = if n - pos <= width { n } else { pos + width };
        push_range(out, s, pos, e);
        out.push('\n' as u8);
        if n - pos <= width {
            assert(rest.push('\n' as u8) =~= s@.subrange(pos as int, e as int).push('\n' as u8));
            assert(s@.subrange(e as int, n as int) =~= Seq::<u8>::empty());
            assert(out@ + wrap(s@.subrange(e as int, n as int), width as nat) =~= before + wrap(rest, width as nat));
        } else {
            assert(rest.take(width as int) =~= s@.subrange(pos as int, e as int));
            assert(rest.skip(width as int) =~= s@.subrange(e as int, n as int));
            assert(out@ + wrap(s@.subrange(e as int, n as int), width as nat) =~= before + wrap(rest, width as nat));
        }
        pos = e;
    }
    assert(s@.subrange(n as int, n as int) =~= Seq::<u8>::empty());
    assert(s@.subrange(0, n as int) =~= s@);
    assert(out@ + Seq::<u8>::empty() =~= out@);
}

/// The FASTA text of `records`: for each, a `>` header line and its sequence
/// wrapped at `width` bytes a line.
pub fn render_fasta(records: &Vec<FastaRecord>, width: usize) -> (r: Vec<u8>)
    requires
        width > 0,
    ensures
        r@ == render(records_view(records@), width as nat),
{
    let mut out: Vec<u8> = Vec::new();
    let mut i: usize = 0;
    while i < records.len()
        invariant
            width > 0,
            i <= records@.len(),
            out@ == render(records_view(records@.subrange(0, i as int)), width as nat),
        decreases records@.len() - i,
    {
        let ghost before = out@;
        let rec = &records[i];
        out.push('>' as u8);
        push_range(&mut out, rec.header.as_slice(), 0, rec.header.len());
        out.push('\n' as u8);
        push_wrapped(&mut out, rec.sequence.as_slice(), width);
        assert(rec.header@.subrange(0, rec.header@.len() as int) =~= rec.header@);
        assert(records_view(records@.subrange(0, i + 1)).drop_last() =~= records_view(
            records@.subrange(0, i as int),
        ));
        assert(records_view(records@.subrange(0, i + 1)).last() == (rec.header@, rec.sequence@));
        assert(out@ =~= before + record_text(rec.header@, rec.sequence@, width as nat));
        i = i + 1;
    }
    assert(records@.subrange(0, i as int) =~= records@);
    out
}

/// The six-frame translation of a FASTA text, as FASTA text: the records are
/// parsed as in `parse_fasta` (lines outside any emitted record are dropped),
/// each record's frames translated without checking the alphabet,
/// and the derived records written with 60-byte sequence lines. A genetic
/// code without a table is refused.
pub fn translate_fasta(text: &[u8], genetic_code_id: Option<usize>) -> (r: Result<
    Vec<u8>,
    TranslateError,
>)
    ensures
        code_supported(genetic_code_id) <==> r is Ok,
        r matches Err(e) ==> e == TranslateError::UnsupportedGeneticCode(genetic_code_id->Some_0),
        r matches Ok(out) ==> out@ == render(
            translate_all(parse_spec(text@), standard_table()),
            TRANSLATION_LINE_WIDTH as nat,
        ),
{
    let table = match resolve_code(genetic_code_id) {
        Ok(t) => t,
        Err(e) => {
            return Err(e);
        },
    };
    let records = parse_fasta(text);
    let derived = translate_records(&records, &table);
    Ok(render_fasta(&derived, TRANSLATION_LINE_WIDTH))
}

/// A FASTA text written again with its sequences wrapped at `line_width`
/// bytes a line. Lines before the first header, and the lines of a record
/// whose header is empty, are dropped, as in `parse_fasta`.
pub fn reformat_fasta(text: &[u8], line_width: usize) -> (r: Vec<u8>)
    requires
        line_width > 0,
    ensures
        r@ == render(parse_spec(text@), line_width as nat),
{
    let records = parse_fasta(text);
    render_fasta(&records, line_width)
}

} // verus!
