use rust_quma::pipeline::{AnalysisConfig, ConfigError, Orientation};
use rust_quma::Quma;

#[test]
fn scenario_single_read_with_cpg_sites() {
    let q = Quma::new("ACGCGT", ">r1\nACGTGT");
    assert_eq!(q.records.len(), 1);
    let rec = &q.records[0];
    assert_eq!(rec.read.name, "r1");
    assert_eq!(rec.read.position, 1);
    assert!(rec.call.aligned_length > 0);
    assert!(rec.call.converted_count + rec.call.unconverted_count >= 1);
    assert!(q.get_values().contains("r1"));
}

#[test]
fn scenario_single_read_exact_record() {
    // Both orientations align over all six columns; the tie goes to the
    // reverse complement ACACGT.
    let q = Quma::new("ACGCGT", ">r1\nACGTGT");
    let rec = &q.records[0];
    assert_eq!(rec.orientation, Orientation::Reverse);
    assert_eq!(rec.reference_orientation, Orientation::Forward);
    assert_eq!(rec.call.query_aligned, "ACACGT");
    assert_eq!(rec.call.reference_aligned, "ACGCGT");
    assert_eq!(rec.call.aligned_length, 6);
    assert_eq!(rec.call.match_count, 5);
    assert_eq!(rec.call.mismatch_count, 1);
    assert_eq!(rec.call.cpg_count, 2);
    assert_eq!(rec.call.converted_count, 2);
    assert_eq!(rec.call.unconverted_count, 0);
    assert_eq!(rec.call.menum, 2);
    assert_eq!(rec.call.site_calls, "11");
    assert_eq!(rec.call.gap_count, 0);
    // percent conversion 100 is above the standard 95
    assert!(rec.excluded);
    assert_eq!(
        q.get_values(),
        "genome\t0\tACGCGT\t1\t0\n1\tr1\tACGTGT\tACACGT\tACGCGT\t6\t1\t83.3333\t0\t2\t0\t2\t100\t11\t-1\t1\t\n"
    );
}

#[test]
fn scenario_empty_query_text() {
    let q = Quma::new("ACGCGT", "");
    assert!(q.records.is_empty());
    assert!(q.get_data().is_empty());
    assert_eq!(q.get_values(), "genome\t0\tACGCGT\t1\t0\n");
}

#[test]
fn scenario_blank_reference_text() {
    let q = Quma::new("  \n\t\r\n ", ">r1\nACGT");
    assert_eq!(q.reference_sequence, "");
    assert!(q.get_values().starts_with("genome\t0\t\t1\t0\n"));
    assert_eq!(q.records.len(), 1);
    assert_eq!(q.records[0].call.aligned_length, 0);
    assert_eq!(q.records[0].call.site_calls, "-");
    assert!(!q.records[0].excluded);
}

#[test]
fn scenario_reverse_complement_aligns_longer() {
    let q = Quma::new("AAAAAAAAAA", ">rev\nTTTTTTTTTT");
    let rec = &q.records[0];
    assert_eq!(rec.orientation, Orientation::Reverse);
    assert_eq!(rec.orientation.tag(), -1);
    assert_eq!(rec.call.query_aligned, "AAAAAAAAAA");
    assert_eq!(rec.call.aligned_length, 10);
    assert!(q.get_values().ends_with("\t-1\t1\t\n"));
}

#[test]
fn forward_read_keeps_forward_orientation() {
    let q = Quma::new("AAAAAAAAAA", ">fwd\nAAAAAAAAAA");
    assert_eq!(q.records[0].orientation, Orientation::Forward);
    assert_eq!(q.records[0].orientation.tag(), 1);
}

#[test]
fn running_twice_gives_identical_records() {
    let reference = ">chr\nACGCGTTACGGATCGA";
    let reads = ">a\nACGTGTTACG\n>b\nTCGATCCGTA\n>c\nGGGG";
    let first = Quma::new(reference, reads);
    let second = Quma::new(reference, reads);
    assert_eq!(first.get_values(), second.get_values());
    assert_eq!(first.records.len(), second.records.len());
    for (a, b) in first.records.iter().zip(second.records.iter()) {
        assert_eq!(a.orientation, b.orientation);
        assert_eq!(a.call.query_aligned, b.call.query_aligned);
        assert_eq!(a.call.reference_aligned, b.call.reference_aligned);
        assert_eq!(a.excluded, b.excluded);
    }
}

#[test]
fn records_follow_input_order() {
    let q = Quma::new("ACGT", ">x\nAC\n>y\nGT\n>z\nTT");
    let positions: Vec<usize> = q.records.iter().map(|r| r.read.position).collect();
    assert_eq!(positions, vec![1, 2, 3]);
    let names: Vec<&str> = q.records.iter().map(|r| r.read.name.as_str()).collect();
    assert_eq!(names, vec!["x", "y", "z"]);
}

#[test]
fn every_record_has_rows_of_aligned_length() {
    let q = Quma::new("ACGCGTTACGGATCGA", ">a\nACGTGTTACG\n>b\nTCGATCCGTA\n>c\nGAT\n>d\nCCCC");
    for rec in &q.records {
        let c = &rec.call;
        assert_eq!(c.query_aligned.chars().count(), c.aligned_length);
        assert_eq!(c.reference_aligned.chars().count(), c.aligned_length);
        assert_eq!(c.match_count as isize + c.mismatch_count, c.aligned_length as isize);
    }
}

#[test]
fn digits_and_blanks_are_dropped_before_alignment() {
    let q = Quma::new("AAAAAAAAAA", ">r\nAAAA 12AAAA");
    let rec = &q.records[0];
    assert_eq!(rec.read.sequence, "AAAA 12AAAA");
    assert_eq!(rec.call.query_aligned, "AAAAAAAA");
    assert_eq!(rec.call.aligned_length, 8);
}

#[test]
fn lenient_thresholds_keep_the_read() {
    let mut cfg = AnalysisConfig::standard();
    cfg.max_conversion_percent = 100;
    let q = Quma::with_config("ACGCGT", ">r1\nACGTGT", cfg).unwrap();
    assert!(!q.records[0].excluded);
}

#[test]
fn positive_gap_open_is_refused() {
    let mut cfg = AnalysisConfig::standard();
    cfg.gap_open = 3;
    assert!(matches!(Quma::with_config("ACGT", ">r\nACGT", cfg), Err(ConfigError::PositiveGapOpen)));
}

#[test]
fn positive_gap_extend_is_refused() {
    let mut cfg = AnalysisConfig::standard();
    cfg.gap_extend = 1;
    assert!(matches!(cfg.validate(), Err(ConfigError::PositiveGapExtend)));
}

#[test]
fn percent_threshold_above_hundred_is_refused() {
    let mut cfg = AnalysisConfig::standard();
    cfg.max_identity_percent = 101;
    assert!(matches!(cfg.validate(), Err(ConfigError::PercentAboveHundred)));
    assert!(AnalysisConfig::standard().validate().is_ok());
}

#[test]
fn gap_penalty_below_floor_is_refused() {
    let mut cfg = AnalysisConfig::standard();
    cfg.gap_open = i32::MIN;
    assert!(matches!(Quma::with_config("ACGT", ">r\nACGT", cfg), Err(ConfigError::GapPenaltyBelowFloor)));
    let mut cfg = AnalysisConfig::standard();
    cfg.gap_extend = -1_000_001;
    assert!(matches!(cfg.validate(), Err(ConfigError::GapPenaltyBelowFloor)));
    cfg.gap_extend = -1_000_000;
    assert!(cfg.validate().is_ok());
}
