//! Per-read pipeline: both orientations aligned, the better one kept, and the
//! record flagged by the exclusion thresholds.
use crate::align::{align_seq_and_generate_stats, alignment_call_of, MIN_GAP_PENALTY};
use crate::calling::{is_percent_above, percent_above, AlignmentCall, AlignmentCallModel};
use crate::fasta::{Read, ReadModel};
use crate::sequence::{rev_comp, reverse_complement_of};
use crate::text::{chars_of, drop_digits_and_blanks, without_digits_or_blanks};
use vstd::prelude::*;

verus! {

/// Scoring parameters and exclusion thresholds of an analysis.
#[derive(Clone, Copy, PartialEq, Eq, Structural, Debug)]
pub struct AnalysisConfig {
    pub gap_open: i32,
    pub gap_extend: i32,
    /// A read with more unconverted CpG sites is excluded.
    pub max_unconverted: usize,
    /// A read with a higher percent conversion is excluded.
    pub max_conversion_percent: u32,
    /// A read with more mismatches is excluded.
    pub max_mismatches: isize,
    /// A read with a higher percent identity is excluded.
    pub max_identity_percent: u32,
}

/// Why a configuration is refused.
#[derive(Clone, Copy, PartialEq, Eq, Structural, Debug)]
pub enum ConfigError {
    /// The gap-open penalty is above zero.
    PositiveGapOpen,
    /// The gap-extend penalty is above zero.
    PositiveGapExtend,
    /// A gap penalty is below `MIN_GAP_PENALTY`.
    GapPenaltyBelowFloor,
    /// A percentage threshold is above 100.
    PercentAboveHundred,
}

pub open spec fn config_error(c: AnalysisConfig) -> Option<ConfigError> {
    if c.gap_open > 0 {
        Some(ConfigError::PositiveGapOpen)
    } else if c.gap_extend > 0 {
        Some(ConfigError::PositiveGapExtend)
    } else if c.gap_open < MIN_GAP_PENALTY || c.gap_extend < MIN_GAP_PENALTY {
        Some(ConfigError::GapPenaltyBelowFloor)
    } else if c.max_conversion_percent > 100 || c.max_identity_percent > 100 {
        Some(ConfigError::PercentAboveHundred)
    } else {
        None
    }
}

impl AnalysisConfig {
    pub open spec fn standard_spec() -> AnalysisConfig {
        AnalysisConfig {
            gap_open: -10i32,
            gap_extend: -1i32,
            max_unconverted: 5usize,
            max_conversion_percent: 95u32,
            max_mismatches: 10isize,
            max_identity_percent: 90u32,
        }
    }

    /// Gap open -10, gap extend -1; a read is excluded above 5 unconverted
    /// sites, 95 percent conversion, 10 mismatches or 90 percent identity.
    pub fn standard() -> (r: AnalysisConfig)
        ensures
            r == AnalysisConfig::standard_spec(),
    {
        AnalysisConfig {
            gap_open: -10,
            gap_extend: -1,
            max_unconverted: 5,
            max_conversion_percent: 95,
            max_mismatches: 10,
            max_identity_percent: 90,
        }
    }

    /// Checks the configuration before any read is processed.
    pub fn validate(&self) -> (r: Result<(), ConfigError>)
        ensures
            r is Ok <==> config_error(*self) is None,
            r is Err ==> config_error(*self) == Some(r->Err_0),
    {
        if self.gap_open > 0 {
            Err(ConfigError::PositiveGapOpen)
        } else if self.gap_extend > 0 {
            Err(ConfigError::PositiveGapExtend)
        } else if self.gap_open < MIN_GAP_PENALTY || self.gap_extend < MIN_GAP_PENALTY {
            Err(ConfigError::GapPenaltyBelowFloor)
        } else if self.max_conversion_percent > 100 || self.max_identity_percent > 100 {
            Err(ConfigError::PercentAboveHundred)
        } else {
            Ok(())
        }
    }
}

/// Orientation of a read against the reference.
#[derive(Clone, Copy, PartialEq, Eq, Structural, Debug)]
pub enum Orientation {
    Forward,
    Reverse,
}

impl Orientation {
    pub open spec fn spec_tag(self) -> int {
        match self {
            Orientation::Forward => 1,
            Orientation::Reverse => -1,
        }
    }

    /// `1` for forward, `-1` for reverse.
    pub fn tag(&self) -> (r: i8)
        ensures
            r == self.spec_tag(),
    {
        match self {
            Orientation::Forward => 1,
            Orientation::Reverse => -1,
        }
    }
}

/// Result for one read: its call in the chosen orientation and whether the
/// exclusion thresholds reject it.
pub struct ReadRecord {
    pub read: Read,
    pub call: AlignmentCall,
    pub orientation: Orientation,
    pub reference_orientation: Orientation,
    pub excluded: bool,
}

pub ghost struct ReadRecordModel {
    pub read: ReadModel,
    pub call: AlignmentCallModel,
    pub orientation: Orientation,
    pub reference_orientation: Orientation,
    pub excluded: bool,
}

impl View for ReadRecord {
    type V = ReadRecordModel;

    open spec fn view(&self) -> ReadRecordModel {
        ReadRecordModel {
            read: self.read@,
            call: self.call@,
            orientation: self.orientation,
            reference_orientation: self.reference_orientation,
            excluded: self.excluded,
        }
    }
}

impl Clone for ReadRecord {
    fn clone(&self) -> (r: ReadRecord)
        ensures
            r@ == self@,
    {
        ReadRecord {
            read: self.read.clone(),
            call: self.call.clone(),
            orientation: self.orientation,
            reference_orientation: self.reference_orientation,
            excluded: self.excluded,
        }
    }
}

/// Whether a call fails any of the thresholds of `cfg`.
pub open spec fn is_excluded(c: AlignmentCallModel, cfg: AnalysisConfig) -> bool {
    c.unconverted_count > cfg.max_unconverted
        || percent_above(c.percent_conversion, cfg.max_conversion_percent as int)
        || c.mismatch_count > cfg.max_mismatches
        || percent_above(c.percent_identity, cfg.max_identity_percent as int)
}

/// The forward call wins only when its alignment is strictly longer.
pub open spec fn best_of(fwd: AlignmentCallModel, rev: AlignmentCallModel) -> (AlignmentCallModel, Orientation) {
    if fwd.aligned_length > rev.aligned_length {
        (fwd, Orientation::Forward)
    } else {
        (rev, Orientation::Reverse)
    }
}

/// Read sequence as aligned: digits and blanks removed.
pub open spec fn aligned_sequence(read: ReadModel) -> Seq<char> {
    without_digits_or_blanks(read.sequence)
}

/// Record of one read against `reference`.
pub open spec fn record_of(read: ReadModel, reference: Seq<char>, cfg: AnalysisConfig) -> ReadRecordModel {
    let seq = aligned_sequence(read);
    let fwd = alignment_call_of(seq, reference, cfg.gap_open, cfg.gap_extend);
    let rev = alignment_call_of(reverse_complement_of(seq), reference, cfg.gap_open, cfg.gap_extend);
    let best = best_of(fwd, rev);
    ReadRecordModel {
        read,
        call: best.0,
        orientation: best.1,
        reference_orientation: Orientation::Forward,
        excluded: is_excluded(best.0, cfg),
    }
}

/// Keeps the forward call if its alignment is strictly longer, else the
/// reverse one.
pub fn find_best_dataset(fwd: AlignmentCall, rev: AlignmentCall) -> (r: (AlignmentCall, Orientation))
    ensures
        (r.0@, r.1) == best_of(fwd@, rev@),
{
    if fwd.aligned_length > rev.aligned_length {
        (fwd, Orientation::Forward)
    } else {
        (rev, Orientation::Reverse)
    }
}

/// Whether `call` fails a threshold of `cfg`.
pub fn exclusion_check(call: &AlignmentCall, cfg: &AnalysisConfig) -> (r: bool)
    ensures
        r == is_excluded(call@, *cfg),
{
    call.unconverted_count > cfg.max_unconverted
        || is_percent_above(call.percent_conversion, cfg.max_conversion_percent)
        || call.mismatch_count > cfg.max_mismatches
        || is_percent_above(call.percent_identity, cfg.max_identity_percent)
}

/// Aligns one read in both orientations and builds its record.
pub fn process_read(read: &Read, reference: &[char], cfg: &AnalysisConfig) -> (r: ReadRecord)
    requires
        config_error(*cfg) is None,
    ensures
        r@ == record_of(read@, reference@, *cfg),
{
    let clean = drop_digits_and_blanks(read.sequence.as_str());
    let forward = chars_of(clean.as_str());
    let reversed_text = rev_comp(clean.as_str());
    let reversed = chars_of(reversed_text.as_str());
    let fwd = align_seq_and_generate_stats(forward.as_slice(), reference, cfg.gap_open, cfg.gap_extend);
    let rev = align_seq_and_generate_stats(reversed.as_slice(), reference, cfg.gap_open, cfg.gap_extend);
    let (call, orientation) = find_best_dataset(fwd, rev);
    let excluded = exclusion_check(&call, cfg);
    ReadRecord {
        read: read.clone(),
        call,
        orientation,
        reference_orientation: Orientation::Forward,
        excluded,
    }
}

/// Records of all reads, in input order.
pub fn process_fasta_output(reads: &Vec<Read>, reference: &[char], cfg: &AnalysisConfig) -> (r: Vec<ReadRecord>)
    requires
        config_error(*cfg) is None,
    ensures
        r@.map_values(|x: ReadRecord| x@) == reads@.map_values(|x: Read| record_of(x@, reference@, *cfg)),
{
    let mut out: Vec<ReadRecord> = Vec::new();
    let mut i: usize = 0;
    while i < reads.len()
        invariant
            config_error(*cfg) is None,
            i <= reads@.len(),
            out@.map_values(|x: ReadRecord| x@) == reads@.take(i as int).map_values(
                |x: Read| record_of(x@, reference@, *cfg),
            ),
        decreases reads@.len() - i,
    {
        let rec = process_read(&reads[i], reference, cfg);
        let ghost prev = out@;
        out.push(rec);
        proof {
            assert(out@.map_values(|x: ReadRecord| x@) =~= prev.map_values(|x: ReadRecord| x@).push(
                record_of(reads@[i as int]@, reference@, *cfg),
            ));
            assert(reads@.take(i + 1).map_values(|x: Read| record_of(x@, reference@, *cfg))
                =~= reads@.take(i as int).map_values(|x: Read| record_of(x@, reference@, *cfg)).push(
                record_of(reads@[i as int]@, reference@, *cfg),
            ));
        }
        i = i + 1;
        assert(out@.map_values(|x: ReadRecord| x@) =~= reads@.take(i as int).map_values(
            |x: Read| record_of(x@, reference@, *cfg),
        ));
    }
    assert(reads@.take(reads@.len() as int) =~= reads@);
    out
}

/// Strand selection depends on the read, the reference and the
/// configuration alone: two runs on the same input choose the same
/// orientation and build the same record.
pub proof fn lemma_strand_selection_deterministic(
    a: ReadRecordModel,
    b: ReadRecordModel,
    read: ReadModel,
    reference: Seq<char>,
    cfg: AnalysisConfig,
)
    requires
        a == record_of(read, reference, cfg),
        b == record_of(read, reference, cfg),
    ensures
        a.orientation == b.orientation,
        a == b,
{
}

} // verus!
