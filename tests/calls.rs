use rust_quma::align::{align_seq_and_generate_stats, matching_substrings, AlignOp, LocalAlignment};
use rust_quma::calling::{find_subsequence, percentage, process_alignment_matches, Percent, PercentKind};
use rust_quma::pipeline::{exclusion_check, find_best_dataset, AnalysisConfig, Orientation};
use rust_quma::report::format_output;

fn chars(s: &str) -> Vec<char> {
    s.chars().collect()
}

#[test]
fn conversion_calls_of_an_aligned_pair() {
    let c = process_alignment_matches(&chars("ACGTGT"), &chars("ACGCGT"));
    assert_eq!(c.aligned_length, 6);
    assert_eq!(c.cpg_count, 2);
    assert_eq!(c.site_calls, "10");
    assert_eq!(c.converted_count, 1);
    assert_eq!(c.unconverted_count, 1);
    assert_eq!(c.menum, 1);
    // six matching columns and one more for the T at a CpG site
    assert_eq!(c.match_count, 7);
    assert_eq!(c.mismatch_count, -1);
    assert_eq!(c.percent_identity, Percent { numerator: 7, denominator: 6 });
    assert_eq!(c.percent_conversion, Percent { numerator: 1, denominator: 2 });
}

#[test]
fn no_cpg_site_gives_a_dash() {
    let c = process_alignment_matches(&chars("ATTA"), &chars("ATTA"));
    assert_eq!(c.site_calls, "-");
    assert_eq!(c.cpg_count, 0);
    assert_eq!(c.percent_conversion, Percent { numerator: 0, denominator: 0 });
}

#[test]
fn gap_facing_a_site_is_written_as_is() {
    let c = process_alignment_matches(&chars("AC-G"), &chars("A-CG"));
    assert_eq!(c.gap_count, 1);
    assert_eq!(c.cpg_count, 1);
    assert_eq!(c.site_calls, "-");
    let c = process_alignment_matches(&chars("ANG--"), &chars("ACG-C"));
    assert_eq!(c.gap_count, 2);
    assert_eq!(c.site_calls, "N");
}

#[test]
fn empty_pair_has_no_columns() {
    let c = process_alignment_matches(&[], &[]);
    assert_eq!(c.aligned_length, 0);
    assert_eq!(c.match_count, 0);
    assert_eq!(c.mismatch_count, 0);
    assert_eq!(c.site_calls, "-");
    assert_eq!(c.percent_identity.denominator, 0);
}

#[test]
fn next_cpg_site_is_found_from_the_cursor() {
    let g = chars("ACGCGT");
    assert_eq!(find_subsequence(&g, 0), Some(1));
    assert_eq!(find_subsequence(&g, 2), Some(3));
    assert_eq!(find_subsequence(&g, 4), None);
    assert_eq!(find_subsequence(&g, 6), None);
}

#[test]
fn percentages_of_sum_and_total() {
    assert_eq!(percentage(3, 1, PercentKind::OfSum), Percent { numerator: 3, denominator: 4 });
    assert_eq!(percentage(3, 4, PercentKind::OfTotal), Percent { numerator: 3, denominator: 4 });
}

#[test]
fn gapped_rows_follow_the_path() {
    let a = LocalAlignment {
        xstart: 0,
        xend: 4,
        ystart: 0,
        yend: 3,
        ops: vec![AlignOp::Match, AlignOp::Ins, AlignOp::Match, AlignOp::Match],
    };
    let (q, g) = matching_substrings(&a, &chars("ACGT"), &chars("AGT"));
    assert_eq!(q, chars("A-GT"));
    assert_eq!(g, chars("ACGT"));
    let a = LocalAlignment { xstart: 1, xend: 2, ystart: 0, yend: 2, ops: vec![AlignOp::Del, AlignOp::Subst] };
    let (q, g) = matching_substrings(&a, &chars("ACGT"), &chars("TT"));
    assert_eq!(q, chars("TT"));
    assert_eq!(g, chars("-C"));
}

#[test]
fn local_alignment_keeps_the_best_window() {
    let c = align_seq_and_generate_stats(&chars("GGGACGTGGG"), &chars("TTTTACGTTTTT"), -10, -1);
    assert_eq!(c.query_aligned, "ACGT");
    assert_eq!(c.reference_aligned, "ACGT");
    assert_eq!(c.site_calls, "1");
}

#[test]
fn empty_sequences_are_not_aligned() {
    let c = align_seq_and_generate_stats(&[], &chars("ACGT"), -10, -1);
    assert_eq!(c.aligned_length, 0);
    let c = align_seq_and_generate_stats(&chars("ACGT"), &[], -10, -1);
    assert_eq!(c.aligned_length, 0);
    assert_eq!(c.site_calls, "-");
}

#[test]
fn forward_wins_only_when_strictly_longer() {
    let long = process_alignment_matches(&chars("ACGT"), &chars("ACGT"));
    let short = process_alignment_matches(&chars("AC"), &chars("AC"));
    let (c, o) = find_best_dataset(long, short);
    assert_eq!((c.aligned_length, o), (4, Orientation::Forward));
    let a = process_alignment_matches(&chars("ACGT"), &chars("ACGT"));
    let b = process_alignment_matches(&chars("TTTT"), &chars("TTTT"));
    let (c, o) = find_best_dataset(a, b);
    assert_eq!(o, Orientation::Reverse);
    assert_eq!(c.query_aligned, "TTTT");
}

#[test]
fn exclusion_thresholds() {
    let cfg = AnalysisConfig::standard();
    // identity 100 percent is above 90
    let c = process_alignment_matches(&chars("ATTA"), &chars("ATTA"));
    assert!(exclusion_check(&c, &cfg));
    // identity 50 percent, no sites
    let c = process_alignment_matches(&chars("ATGG"), &chars("ATCC"));
    assert!(!exclusion_check(&c, &cfg));
    // six unconverted sites
    let c = process_alignment_matches(&chars("TGTGTGTGTGTGAAAAAAAAAAAAAAAAAAAAAAAAAA"), &chars("CGCGCGCGCGCGTTTTTTTTTTTTTTTTTTTTTTTTTT"));
    assert_eq!(c.unconverted_count, 6);
    assert!(exclusion_check(&c, &cfg));
    // eleven mismatches
    let c = process_alignment_matches(&chars("AAAAAAAAAAAAAAAAAAAAAA"), &chars("AAAAAAAAAAAGGGGGGGGGGG"));
    assert_eq!(c.mismatch_count, 11);
    assert!(exclusion_check(&c, &cfg));
}

#[test]
fn report_renders_percentages_and_signs() {
    let q = rust_quma::Quma::new("ACGCGT", "");
    assert_eq!(format_output("ACGCGT", &q.records), "genome\t0\tACGCGT\t1\t0\n");
    let q = rust_quma::Quma::new("AAAAAAAACCCC", ">s\nAAAAAAAA");
    let line = q.get_values().lines().nth(1).unwrap().to_string();
    let fields: Vec<&str> = line.split('\t').collect();
    assert_eq!(fields.len(), 17);
    assert_eq!(fields[0], "1");
    assert_eq!(fields[5], "8");
    assert_eq!(fields[6], "0");
    assert_eq!(fields[7], "100");
    assert_eq!(fields[12], "0");
    assert_eq!(fields[13], "-");
    assert_eq!(fields[14], "1");
    assert_eq!(fields[15], "1");
    assert_eq!(fields[16], "");
}

#[test]
fn pair_too_costly_to_score_is_not_aligned() {
    let long = chars(&"A".repeat(600));
    let c = align_seq_and_generate_stats(&long, &long, -1_000_000, -1_000_000);
    assert_eq!(c.aligned_length, 0);
    assert_eq!(c.site_calls, "-");
    let c = align_seq_and_generate_stats(&long, &long, -10, -1);
    assert_eq!(c.aligned_length, 600);
}
