//! Local alignment of a read against the reference, and the gapped rows the
//! conversion caller reads.
use crate::calling::{call_of, process_alignment_matches, AlignmentCall, AlignmentCallModel};
use crate::scoring::quma_score;
use bio::alignment::pairwise::Aligner;
use bio::alignment::AlignmentOperation;
use vstd::prelude::*;

verus! {

/// One step of an alignment path. `Ins` consumes a reference symbol only,
/// `Del` a query symbol only; clips only occur in clipped alignment modes.
#[derive(Clone, Copy, PartialEq, Eq, Structural, Debug)]
pub enum AlignOp {
    Match,
    Subst,
    Del,
    Ins,
    Xclip(usize),
    Yclip(usize),
}

/// A local alignment: the window `xstart..xend` of the reference and
/// `ystart..yend` of the query, and the path through them.
pub struct LocalAlignment {
    pub xstart: usize,
    pub xend: usize,
    pub ystart: usize,
    pub yend: usize,
    pub ops: Vec<AlignOp>,
}

pub ghost struct LocalAlignmentModel {
    pub xstart: int,
    pub xend: int,
    pub ystart: int,
    pub yend: int,
    pub ops: Seq<AlignOp>,
}

impl View for LocalAlignment {
    type V = LocalAlignmentModel;

    open spec fn view(&self) -> LocalAlignmentModel {
        LocalAlignmentModel {
            xstart: self.xstart as int,
            xend: self.xend as int,
            ystart: self.ystart as int,
            yend: self.yend as int,
            ops: self.ops@,
        }
    }
}

pub open spec fn consumes_reference(op: AlignOp) -> bool {
    op == AlignOp::Match || op == AlignOp::Subst || op == AlignOp::Ins
}

pub open spec fn consumes_query(op: AlignOp) -> bool {
    op == AlignOp::Match || op == AlignOp::Subst || op == AlignOp::Del
}

pub open spec fn is_clip(op: AlignOp) -> bool {
    op is Xclip || op is Yclip
}

/// Reference symbols consumed by `ops`.
pub open spec fn reference_steps(ops: Seq<AlignOp>) -> int
    decreases ops.len(),
{
    if ops.len() == 0 {
        0
    } else {
        reference_steps(ops.drop_last()) + if consumes_reference(ops.last()) { 1int } else { 0int }
    }
}

/// Query symbols consumed by `ops`.
pub open spec fn query_steps(ops: Seq<AlignOp>) -> int
    decreases ops.len(),
{
    if ops.len() == 0 {
        0
    } else {
        query_steps(ops.drop_last()) + if consumes_query(ops.last()) { 1int } else { 0int }
    }
}

/// The path of `a` walks its windows exactly, and the windows lie within a
/// reference of `xlen` and a query of `ylen` symbols.
pub open spec fn alignment_fits(a: LocalAlignmentModel, xlen: int, ylen: int) -> bool {
    &&& forall|k: int| 0 <= k < a.ops.len() ==> !is_clip(#[trigger] a.ops[k])
    &&& 0 <= a.xstart && a.xstart + reference_steps(a.ops) == a.xend && a.xend <= xlen
    &&& 0 <= a.ystart && a.ystart + query_steps(a.ops) == a.yend && a.yend <= ylen
}

/// Lowest gap penalty the aligner accepts.
pub const MIN_GAP_PENALTY: i32 = -1_000_000;

/// Most symbols, reference and query together, that one alignment covers.
pub const MAX_ALIGNED_SYMBOLS: usize = 100_000_000;

/// Gap penalties lie in `MIN_GAP_PENALTY..=0`.
pub open spec fn penalties_in_range(gap_open: i32, gap_extend: i32) -> bool {
    MIN_GAP_PENALTY <= gap_open <= 0 && MIN_GAP_PENALTY <= gap_extend <= 0
}

/// The aligner's scores stay well inside `i32` for sequences of `xlen` and
/// `ylen` symbols: the penalty of one gap over both sequences is above
/// -1_000_000_000, and no cell scores more than five per symbol.
pub open spec fn scores_fit(gap_open: i32, gap_extend: i32, xlen: int, ylen: int) -> bool {
    &&& penalties_in_range(gap_open, gap_extend)
    &&& xlen + ylen <= MAX_ALIGNED_SYMBOLS
    &&& gap_open + gap_extend * (xlen + ylen + 1) >= -1_000_000_000
}

/// The optimal local alignment that bio's aligner finds for these byte
/// sequences and gap penalties, scoring substitutions with `quma_score`.
pub uninterp spec fn local_alignment_of(reference: Seq<u8>, query: Seq<u8>, gap_open: i32, gap_extend: i32) -> LocalAlignmentModel;

/// Relies on `bio::alignment::pairwise::Aligner::local` with the substitution
/// score `quma_score`: the alignment depends on its inputs alone, its path has
/// its clips filtered out and walks the windows, which lie within the inputs.
/// The bounds keep every score the aligner adds up in `i32`.
#[verifier::external_body]
fn local_align(reference: &[u8], query: &[u8], gap_open: i32, gap_extend: i32) -> (r: LocalAlignment)
    requires
        scores_fit(gap_open, gap_extend, reference@.len() as int, query@.len() as int),
    ensures
        r@ == local_alignment_of(reference@, query@, gap_open, gap_extend),
        alignment_fits(r@, reference@.len() as int, query@.len() as int),
{
    let mut aligner = Aligner::new(gap_open, gap_extend, |a: u8, b: u8| quma_score(a, b));
    let al = aligner.local(reference, query);
    let ops = al.operations.iter().map(|op| match op {
        AlignmentOperation::Match => AlignOp::Match,
        AlignmentOperation::Subst => AlignOp::Subst,
        AlignmentOperation::Del => AlignOp::Del,
        AlignmentOperation::Ins => AlignOp::Ins,
        AlignmentOperation::Xclip(n) => AlignOp::Xclip(*n),
        AlignmentOperation::Yclip(n) => AlignOp::Yclip(*n),
    }).collect();
    LocalAlignment { xstart: al.xstart, xend: al.xend, ystart: al.ystart, yend: al.yend, ops }
}

/// Byte handed to the aligner for a character: itself when ASCII, else `N`.
pub open spec fn symbol_byte(c: char) -> u8 {
    if (c as u32) < 128 { (c as u32) as u8 } else { 78u8 }
}

pub open spec fn symbols(s: Seq<char>) -> Seq<u8> {
    s.map_values(|c: char| symbol_byte(c))
}

pub fn symbols_of(s: &[char]) -> (r: Vec<u8>)
    ensures
        r@ == symbols(s@),
{
    let mut out: Vec<u8> = Vec::new();
    let mut i: usize = 0;
    while i < s.len()
        invariant
            i <= s@.len(),
            out@ == symbols(s@.take(i as int)),
        decreases s@.len() - i,
    {
        let u = s[i] as u32;
        let b: u8 = if u < 128 { u as u8 } else { 78u8 };
        out.push(b);
        i = i + 1;
        assert(out@ =~= symbols(s@.take(i as int)));
    }
    assert(s@.take(s@.len() as int) =~= s@);
    out
}

/// Reference row of the alignment: the reference symbol of each column that
/// consumes one, `-` in the others.
pub open spec fn reference_row(a: LocalAlignmentModel, reference: Seq<char>) -> Seq<char> {
    Seq::new(
        a.ops.len(),
        |k: int|
            if consumes_reference(a.ops[k]) {
                reference[a.xstart + reference_steps(a.ops.take(k))]
            } else {
                '-'
            },
    )
}

/// Query row of the alignment, built like the reference row.
pub open spec fn query_row(a: LocalAlignmentModel, query: Seq<char>) -> Seq<char> {
    Seq::new(
        a.ops.len(),
        |k: int|
            if consumes_query(a.ops[k]) {
                query[a.ystart + query_steps(a.ops.take(k))]
            } else {
                '-'
            },
    )
}

proof fn lemma_steps_prefix(ops: Seq<AlignOp>, k: int)
    requires
        0 <= k <= ops.len(),
    ensures
        0 <= reference_steps(ops.take(k)) <= reference_steps(ops),
        0 <= query_steps(ops.take(k)) <= query_steps(ops),
    decreases ops.len(),
{
    if k == ops.len() {
        assert(ops.take(k) =~= ops);
        lemma_steps_nonneg(ops);
    } else {
        assert(ops.drop_last().take(k) =~= ops.take(k));
        lemma_steps_prefix(ops.drop_last(), k);
    }
}

proof fn lemma_steps_nonneg(ops: Seq<AlignOp>)
    ensures
        0 <= reference_steps(ops),
        0 <= query_steps(ops),
    decreases ops.len(),
{
    if ops.len() > 0 {
        lemma_steps_nonneg(ops.drop_last());
    }
}

proof fn lemma_steps_cover_path(ops: Seq<AlignOp>)
    requires
        forall|k: int| 0 <= k < ops.len() ==> !is_clip(#[trigger] ops[k]),
    ensures
        ops.len() <= reference_steps(ops) + query_steps(ops),
    decreases ops.len(),
{
    if ops.len() > 0 {
        lemma_steps_cover_path(ops.drop_last());
        assert(!is_clip(ops[ops.len() - 1]));
    }
}

/// The query and reference rows of an alignment, in that order.
pub fn matching_substrings(a: &LocalAlignment, reference: &[char], query: &[char]) -> (r: (Vec<char>, Vec<char>))
    requires
        alignment_fits(a@, reference@.len() as int, query@.len() as int),
    ensures
        r.0@ == query_row(a@, query@),
        r.1@ == reference_row(a@, reference@),
{
    let mut q_row: Vec<char> = Vec::new();
    let mut g_row: Vec<char> = Vec::new();
    let mut x: usize = a.xstart;
    let mut y: usize = a.ystart;
    let mut k: usize = 0;
    assert(a@.ops.take(0) =~= Seq::<AlignOp>::empty());
    while k < a.ops.len()
        invariant
            alignment_fits(a@, reference@.len() as int, query@.len() as int),
            k <= a@.ops.len(),
            x == a@.xstart + reference_steps(a@.ops.take(k as int)),
            y == a@.ystart + query_steps(a@.ops.take(k as int)),
            q_row@.len() == k,
            g_row@.len() == k,
            forall|j: int| 0 <= j < k ==> #[trigger] q_row@[j] == query_row(a@, query@)[j],
            forall|j: int| 0 <= j < k ==> #[trigger] g_row@[j] == reference_row(a@, reference@)[j],
        decreases a@.ops.len() - k,
    {
        let op = a.ops[k];
        proof {
            assert(a@.ops.take(k + 1).drop_last() =~= a@.ops.take(k as int));
            lemma_steps_prefix(a@.ops, k + 1);
        }
        if op == AlignOp::Match || op == AlignOp::Subst || op == AlignOp::Ins {
            g_row.push(reference[x]);
            x = x + 1;
        } else {
            g_row.push('-');
        }
        if op == AlignOp::Match || op == AlignOp::Subst || op == AlignOp::Del {
            q_row.push(query[y]);
            y = y + 1;
        } else {
            q_row.push('-');
        }
        k = k + 1;
    }
    assert(q_row@ =~= query_row(a@, query@));
    assert(g_row@ =~= reference_row(a@, reference@));
    (q_row, g_row)
}

/// Whether the aligner is run on `query` and `reference`: both must be
/// non-empty, and short enough that its scores fit.
pub open spec fn alignable(query: Seq<char>, reference: Seq<char>, gap_open: i32, gap_extend: i32) -> bool {
    query.len() > 0 && reference.len() > 0 && scores_fit(gap_open, gap_extend, reference.len() as int, query.len() as int)
}

/// Rows of the alignment of `query` against `reference`, empty when the pair
/// is not alignable.
pub open spec fn aligned_rows(query: Seq<char>, reference: Seq<char>, gap_open: i32, gap_extend: i32) -> (Seq<char>, Seq<char>) {
    if alignable(query, reference, gap_open, gap_extend) {
        let a = local_alignment_of(symbols(reference), symbols(query), gap_open, gap_extend);
        (query_row(a, query), reference_row(a, reference))
    } else {
        (Seq::empty(), Seq::empty())
    }
}

/// Call of `query` aligned against `reference`.
pub open spec fn alignment_call_of(query: Seq<char>, reference: Seq<char>, gap_open: i32, gap_extend: i32) -> AlignmentCallModel {
    let rows = aligned_rows(query, reference, gap_open, gap_extend);
    call_of(rows.0, rows.1)
}

/// Aligns `query` locally against `reference` and calls the result. A pair
/// that is not alignable gives the empty alignment, with no columns.
pub fn align_seq_and_generate_stats(query: &[char], reference: &[char], gap_open: i32, gap_extend: i32) -> (r: AlignmentCall)
    requires
        penalties_in_range(gap_open, gap_extend),
    ensures
        r@ == alignment_call_of(query@, reference@, gap_open, gap_extend),
{
    if query.len() == 0 || reference.len() == 0 || reference.len() > MAX_ALIGNED_SYMBOLS
        || query.len() > MAX_ALIGNED_SYMBOLS - reference.len() {
        let empty: Vec<char> = Vec::new();
        return process_alignment_matches(empty.as_slice(), empty.as_slice());
    }
    let span: i64 = (reference.len() + query.len() + 1) as i64;
    let extend: i64 = gap_extend as i64;
    proof {
        assert(-100_000_001_000_000 <= extend * span <= 0) by (nonlinear_arith)
            requires
                -1_000_000 <= extend <= 0,
                0 <= span <= 100_000_001,
        ;
    }
    if (gap_open as i64) + extend * span < -1_000_000_000 {
        let empty: Vec<char> = Vec::new();
        return process_alignment_matches(empty.as_slice(), empty.as_slice());
    }
    let ref_bytes = symbols_of(reference);
    let query_bytes = symbols_of(query);
    let a = local_align(ref_bytes.as_slice(), query_bytes.as_slice(), gap_open, gap_extend);
    let (q_row, g_row) = matching_substrings(&a, reference, query);
    proof {
        lemma_steps_cover_path(a@.ops);
    }
    process_alignment_matches(q_row.as_slice(), g_row.as_slice())
}

/// The two rows of every alignment call have the call's aligned length.
pub proof fn lemma_aligned_rows_equal_length(query: Seq<char>, reference: Seq<char>, gap_open: i32, gap_extend: i32)
    ensures
        ({
            let c = alignment_call_of(query, reference, gap_open, gap_extend);
            c.query_aligned.len() == c.aligned_length && c.reference_aligned.len() == c.aligned_length
        }),
{
}

} // verus!
