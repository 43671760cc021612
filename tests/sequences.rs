use rust_quma::fasta::{parse_biseq, scrub_whitespace};
use rust_quma::scoring::{lookup, quma_score};
use rust_quma::sequence::{check_char_in_allowed, parse_genome, parse_seq, rev_comp};

#[test]
fn reverse_complement_of_bases() {
    assert_eq!(rev_comp("ACGTU"), "AACGT");
    assert_eq!(rev_comp("acgtn"), "nacgt");
    assert_eq!(rev_comp("RYMKDHBVWS"), "SWBVDHMKRY");
    assert_eq!(rev_comp("AXC"), "GXT");
    assert_eq!(rev_comp(""), "");
}

#[test]
fn reverse_complement_twice_is_identity() {
    for s in ["ACGTRYMKWSBDHVN", "acgtrymkwsbdhvn", "GATTACA", ""] {
        assert_eq!(rev_comp(&rev_comp(s)), s);
    }
    // U pairs with A, whose complement is T
    assert_eq!(rev_comp(&rev_comp("U")), "T");
}

#[test]
fn genome_text_is_normalized() {
    assert_eq!(parse_genome(">chr1\nacgt\r\nNNxx12\n\n"), "ACGTNN");
    assert_eq!(parse_genome("  acg t  "), "ACGT");
    assert_eq!(parse_genome(""), "");
    assert_eq!(parse_genome(" \r\n\t "), "");
}

#[test]
fn header_needs_a_line_break_to_be_dropped() {
    assert_eq!(parse_seq(">ACGT\nTT"), "TT");
    assert_eq!(parse_seq(">ACGT"), "ACGT");
}

#[test]
fn only_alphabet_characters_are_kept() {
    let kept = check_char_in_allowed(&['A', '1', 'c', ' ', 'Z', 'u', '\n']);
    assert_eq!(kept, vec!['A', 'c', 'u']);
}

#[test]
fn whitespace_is_scrubbed() {
    assert_eq!(scrub_whitespace("  a\r\n\r\nb\rc\n\n\nd  \n"), "a\nb\nc\nd");
}

#[test]
fn reads_are_paired_with_their_first_sequence_line() {
    let reads = parse_biseq(">r1 \nACGT\n>r2\n\n\nGGCC\nTTTT\n>r3\n");
    assert_eq!(reads.len(), 2);
    assert_eq!(reads[0].name, "r1");
    assert_eq!(reads[0].position, 1);
    assert_eq!(reads[0].sequence, "ACGT");
    assert_eq!(reads[1].name, "r2");
    assert_eq!(reads[1].position, 2);
    assert_eq!(reads[1].sequence, "GGCC");
}

#[test]
fn stray_lines_and_orphan_headers_are_dropped() {
    let reads = parse_biseq("ACGT\n>r1\n>r2\nGG\n   \nTT");
    assert_eq!(reads.len(), 1);
    assert_eq!(reads[0].name, "r2");
    assert_eq!(reads[0].sequence, "GG");
    assert!(parse_biseq("").is_empty());
    assert!(parse_biseq("\n\n  \n").is_empty());
}

#[test]
fn substitution_scores() {
    assert_eq!(quma_score(b'A', b'A'), 5);
    assert_eq!(quma_score(b'a', b'A'), 5);
    assert_eq!(quma_score(b'A', b'G'), -4);
    assert_eq!(quma_score(b'C', b'T'), 1);
    assert_eq!(quma_score(b'T', b'C'), 1);
    assert_eq!(quma_score(b'T', b'U'), 5);
    assert_eq!(quma_score(b'X', b'A'), -2);
    assert_eq!(quma_score(b'N', b'N'), -1);
}

#[test]
fn substitution_scores_are_symmetric() {
    let symbols = b"ATGCSWRYKMBVHDNUx?";
    for &a in symbols.iter() {
        for &b in symbols.iter() {
            assert_eq!(quma_score(a, b), quma_score(b, a));
        }
    }
}

#[test]
fn symbol_ranks() {
    assert_eq!(lookup(b'A'), 0);
    assert_eq!(lookup(b'c'), 3);
    assert_eq!(lookup(b'U'), 15);
    assert_eq!(lookup(b'N'), 14);
    assert_eq!(lookup(b'x'), 14);
}

#[test]
fn unicode_white_space_is_trimmed() {
    let reads = parse_biseq("\u{3000}>r1\u{a0} \nACGT\u{2009}");
    assert_eq!(reads.len(), 1);
    assert_eq!(reads[0].name, "r1");
    assert_eq!(reads[0].sequence, "ACGT");
    assert_eq!(parse_genome("\u{2028}acgt\u{85}"), "ACGT");
}
