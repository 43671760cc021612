//! One analysis run: the reference and query texts in, the per-read records
//! and the report out.
use crate::align::lemma_aligned_rows_equal_length;
use crate::fasta::{
    lemma_reads_in_input_order, parse_biseq, positions_dense, reads_of, Read, ReadModel,
};
use crate::pipeline::{
    aligned_sequence, config_error, process_fasta_output, record_of, AnalysisConfig, ConfigError,
    ReadRecord, ReadRecordModel,
};
use crate::report::{format_output, report_of};
use crate::sequence::{normalized_reference, parse_genome, reverse_complement_of};
use crate::text::{chars_of, string_clone};
use vstd::prelude::*;

verus! {

/// Result of one analysis: the normalized reference, a record per read in
/// input order, and the report text.
pub struct Quma {
    pub reference_sequence: String,
    pub records: Vec<ReadRecord>,
    pub values: String,
}

pub ghost struct QumaModel {
    pub reference_sequence: Seq<char>,
    pub records: Seq<ReadRecordModel>,
    pub values: Seq<char>,
}

impl View for Quma {
    type V = QumaModel;

    open spec fn view(&self) -> QumaModel {
        QumaModel {
            reference_sequence: self.reference_sequence@,
            records: self.records@.map_values(|x: ReadRecord| x@),
            values: self.values@,
        }
    }
}

/// Records of the reads of `query_text` against the reference sequence `reference`.
pub open spec fn records_of(reference: Seq<char>, query_text: Seq<char>, cfg: AnalysisConfig) -> Seq<ReadRecordModel> {
    reads_of(query_text).map_values(|r: ReadModel| record_of(r, reference, cfg))
}

/// Everything an analysis of these texts under `cfg` produces.
pub open spec fn analysis_of(reference_text: Seq<char>, query_text: Seq<char>, cfg: AnalysisConfig) -> QumaModel {
    let reference = normalized_reference(reference_text);
    let records = records_of(reference, query_text, cfg);
    QumaModel { reference_sequence: reference, records, values: report_of(reference, records) }
}

fn analyze(reference_text: &str, query_text: &str, cfg: AnalysisConfig) -> (r: Quma)
    requires
        config_error(cfg) is None,
    ensures
        r@ == analysis_of(reference_text@, query_text@, cfg),
{
    let reference_sequence = parse_genome(reference_text);
    let reference = chars_of(reference_sequence.as_str());
    let reads = parse_biseq(query_text);
    let records = process_fasta_output(&reads, reference.as_slice(), &cfg);
    let values = format_output(reference_sequence.as_str(), records.as_slice());
    proof {
        let refseq = normalized_reference(reference_text@);
        assert(reads@.map_values(|x: Read| record_of(x@, refseq, cfg)) =~= records_of(
            refseq,
            query_text@,
            cfg,
        )) by {
            assert forall|k: int| 0 <= k < reads@.len() implies reads@[k]@ == reads_of(
                query_text@,
            )[k] by {
                assert(reads@.map_values(|x: Read| x@)[k] == reads@[k]@);
            }
        }
    }
    Quma { reference_sequence, records, values }
}

impl Quma {
    /// Analyzes the reads of `query_text` against the reference of
    /// `reference_text` under `cfg`, which is checked first.
    pub fn with_config(reference_text: &str, query_text: &str, cfg: AnalysisConfig) -> (r: Result<Quma, ConfigError>)
        ensures
            match r {
                Ok(q) => config_error(cfg) is None && q@ == analysis_of(reference_text@, query_text@, cfg),
                Err(e) => config_error(cfg) == Some(e),
            },
    {
        match cfg.validate() {
            Err(e) => Err(e),
            Ok(()) => Ok(analyze(reference_text, query_text, cfg)),
        }
    }

    /// Analyzes with the standard configuration.
    pub fn new(reference_text: &str, query_text: &str) -> (r: Quma)
        ensures
            r@ == analysis_of(reference_text@, query_text@, AnalysisConfig::standard_spec()),
    {
        analyze(reference_text, query_text, AnalysisConfig::standard())
    }

    /// The report text.
    pub fn get_values(&self) -> (r: String)
        ensures
            r@ == self.values@,
    {
        string_clone(&self.values)
    }

    /// The per-read records, in input order.
    pub fn get_data(&self) -> (r: Vec<ReadRecord>)
        ensures
            r@.map_values(|x: ReadRecord| x@) == self@.records,
    {
        let mut out: Vec<ReadRecord> = Vec::new();
        let mut i: usize = 0;
        while i < self.records.len()
            invariant
                i <= self.records@.len(),
                out@.map_values(|x: ReadRecord| x@) == self.records@.take(i as int).map_values(
                    |x: ReadRecord| x@,
                ),
            decreases self.records@.len() - i,
        {
            let ghost prev = out@;
            out.push(self.records[i].clone());
            proof {
                assert(out@.map_values(|x: ReadRecord| x@) =~= prev.map_values(|x: ReadRecord| x@).push(
                    self.records@[i as int]@,
                ));
            }
            i = i + 1;
            assert(out@.map_values(|x: ReadRecord| x@) =~= self.records@.take(i as int).map_values(
                |x: ReadRecord| x@,
            ));
        }
        assert(self.records@.take(self.records@.len() as int) =~= self.records@);
        out
    }
}

/// The record at index `i` of an analysis belongs to the read at position
/// `i + 1` of the query text.
pub proof fn lemma_records_in_input_order(reference_text: Seq<char>, query_text: Seq<char>, cfg: AnalysisConfig)
    ensures
        forall|i: int| 0 <= i < analysis_of(reference_text, query_text, cfg).records.len()
            ==> #[trigger] analysis_of(reference_text, query_text, cfg).records[i].read.position == i + 1,
{
    lemma_reads_in_input_order(query_text);
    assert(positions_dense(reads_of(query_text)));
}

/// In every record of an analysis, both aligned rows have the aligned length,
/// and matches and mismatches add up to it.
pub proof fn lemma_records_consistent(reference_text: Seq<char>, query_text: Seq<char>, cfg: AnalysisConfig)
    ensures
        forall|i: int| 0 <= i < analysis_of(reference_text, query_text, cfg).records.len() ==> {
            let c = #[trigger] analysis_of(reference_text, query_text, cfg).records[i].call;
            &&& c.query_aligned.len() == c.aligned_length
            &&& c.reference_aligned.len() == c.aligned_length
            &&& c.match_count + c.mismatch_count == c.aligned_length
        },
{
    let reference = normalized_reference(reference_text);
    let records = analysis_of(reference_text, query_text, cfg).records;
    assert forall|i: int| 0 <= i < records.len() implies {
        let c = #[trigger] records[i].call;
        &&& c.query_aligned.len() == c.aligned_length
        &&& c.reference_aligned.len() == c.aligned_length
        &&& c.match_count + c.mismatch_count == c.aligned_length
    } by {
        let seq = aligned_sequence(reads_of(query_text)[i]);
        lemma_aligned_rows_equal_length(seq, reference, cfg.gap_open, cfg.gap_extend);
        lemma_aligned_rows_equal_length(reverse_complement_of(seq), reference, cfg.gap_open, cfg.gap_extend);
    }
}

} // verus!
