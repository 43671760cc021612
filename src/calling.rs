//! CpG conversion calling on an aligned (query, reference) pair, and the
//! per-read statistics derived from it.
use crate::text::{string_clone, string_of};
use vstd::prelude::*;

verus! {

/// A percentage held exactly: `100 * numerator / denominator`, and 0 when the
/// denominator is 0.
#[derive(Clone, Copy, PartialEq, Eq, Structural, Debug)]
pub struct Percent {
    pub numerator: usize,
    pub denominator: usize,
}

/// How `percentage` relates its two counts.
#[derive(Clone, Copy, PartialEq, Eq, Structural, Debug)]
pub enum PercentKind {
    /// `a` as a share of `a + b`.
    OfSum,
    /// `a` as a share of `b`.
    OfTotal,
}

/// Whether the percentage `p` lies strictly above `bound` percent.
pub open spec fn percent_above(p: Percent, bound: int) -> bool {
    p.denominator > 0 && 100 * p.numerator > bound * p.denominator
}

/// The percentage of `a` within `a + b` or within `b`.
pub fn percentage(a: usize, b: usize, kind: PercentKind) -> (r: Percent)
    requires
        kind == PercentKind::OfSum ==> a + b <= usize::MAX,
    ensures
        r.numerator == a,
        kind == PercentKind::OfSum ==> r.denominator == a + b,
        kind == PercentKind::OfTotal ==> r.denominator == b,
{
    match kind {
        PercentKind::OfSum => Percent { numerator: a, denominator: a + b },
        PercentKind::OfTotal => Percent { numerator: a, denominator: b },
    }
}

/// Whether `p` is strictly above `bound` percent.
pub fn is_percent_above(p: Percent, bound: u32) -> (r: bool)
    ensures
        r == percent_above(p, bound as int),
{
    let whole: u128 = p.denominator as u128;
    let b: u128 = bound as u128;
    proof {
        assert(b * whole <= 0xffff_ffffu128 * 0xffff_ffff_ffff_ffffu128) by (nonlinear_arith)
            requires
                b <= 0xffff_ffff,
                whole <= 0xffff_ffff_ffff_ffff,
        ;
    }
    p.denominator > 0 && 100 * (p.numerator as u128) > b * whole
}

/// Outcome of calling one aligned pair.
pub struct AlignmentCall {
    pub query_aligned: String,
    pub reference_aligned: String,
    /// One character per CpG site of the reference: `0` for a `T` in the
    /// query, `1` for a `C`, else the query character; `-` when there is none.
    pub site_calls: String,
    pub percent_identity: Percent,
    pub percent_conversion: Percent,
    pub gap_count: usize,
    pub cpg_count: usize,
    pub menum: usize,
    pub unconverted_count: usize,
    pub converted_count: usize,
    pub match_count: usize,
    pub mismatch_count: isize,
    pub aligned_length: usize,
}

pub ghost struct AlignmentCallModel {
    pub query_aligned: Seq<char>,
    pub reference_aligned: Seq<char>,
    pub site_calls: Seq<char>,
    pub percent_identity: Percent,
    pub percent_conversion: Percent,
    pub gap_count: int,
    pub cpg_count: int,
    pub menum: int,
    pub unconverted_count: int,
    pub converted_count: int,
    pub match_count: int,
    pub mismatch_count: int,
    pub aligned_length: int,
}

impl View for AlignmentCall {
    type V = AlignmentCallModel;

    open spec fn view(&self) -> AlignmentCallModel {
        AlignmentCallModel {
            query_aligned: self.query_aligned@,
            reference_aligned: self.reference_aligned@,
            site_calls: self.site_calls@,
            percent_identity: self.percent_identity,
            percent_conversion: self.percent_conversion,
            gap_count: self.gap_count as int,
            cpg_count: self.cpg_count as int,
            menum: self.menum as int,
            unconverted_count: self.unconverted_count as int,
            converted_count: self.converted_count as int,
            match_count: self.match_count as int,
            mismatch_count: self.mismatch_count as int,
            aligned_length: self.aligned_length as int,
        }
    }
}

impl Clone for AlignmentCall {
    fn clone(&self) -> (r: AlignmentCall)
        ensures
            r@ == self@,
    {
        AlignmentCall {
            query_aligned: string_clone(&self.query_aligned),
            reference_aligned: string_clone(&self.reference_aligned),
            site_calls: string_clone(&self.site_calls),
            percent_identity: self.percent_identity,
            percent_conversion: self.percent_conversion,
            gap_count: self.gap_count,
            cpg_count: self.cpg_count,
            menum: self.menum,
            unconverted_count: self.unconverted_count,
            converted_count: self.converted_count,
            match_count: self.match_count,
            mismatch_count: self.mismatch_count,
            aligned_length: self.aligned_length,
        }
    }
}

/// Column `i` counts as a match: equal characters, or a `T` read against a `C`.
pub open spec fn column_matches(q: Seq<char>, g: Seq<char>, i: int) -> bool {
    q[i] == g[i] || (q[i] == 'T' && g[i] == 'C')
}

/// Matching columns among the first `n`.
pub open spec fn matches_upto(q: Seq<char>, g: Seq<char>, n: int) -> int
    decreases n,
{
    if n <= 0 {
        0
    } else {
        matches_upto(q, g, n - 1) + if column_matches(q, g, n - 1) { 1int } else { 0int }
    }
}

/// Number of `-` among the first `n` characters of `s`.
pub open spec fn gaps_upto(s: Seq<char>, n: int) -> int
    decreases n,
{
    if n <= 0 {
        0
    } else {
        gaps_upto(s, n - 1) + if s[n - 1] == '-' { 1int } else { 0int }
    }
}

/// A CpG site of the reference row starts at `p`.
pub open spec fn is_cpg(g: Seq<char>, p: int) -> bool {
    0 <= p && p + 1 < g.len() && g[p] == 'C' && g[p + 1] == 'G'
}

/// Call written for a CpG site whose query character is `c`.
pub open spec fn site_call(c: char) -> char {
    if c == 'T' {
        '0'
    } else if c == 'C' {
        '1'
    } else {
        c
    }
}

/// Calls of the CpG sites starting before `n`, in order.
pub open spec fn calls_upto(q: Seq<char>, g: Seq<char>, n: int) -> Seq<char>
    decreases n,
{
    if n <= 0 {
        Seq::empty()
    } else if is_cpg(g, n - 1) {
        calls_upto(q, g, n - 1).push(site_call(q[n - 1]))
    } else {
        calls_upto(q, g, n - 1)
    }
}

/// Number of CpG sites starting before `n` whose query character is `c`.
pub open spec fn sites_with_upto(q: Seq<char>, g: Seq<char>, n: int, c: char) -> int
    decreases n,
{
    if n <= 0 {
        0
    } else {
        sites_with_upto(q, g, n - 1, c) + if is_cpg(g, n - 1) && q[n - 1] == c { 1int } else { 0int }
    }
}

pub open spec fn max(a: int, b: int) -> int {
    if a >= b { a } else { b }
}

/// Everything called from the query row `q` and the reference row `g`.
pub open spec fn call_of(q: Seq<char>, g: Seq<char>) -> AlignmentCallModel {
    let n = q.len() as int;
    let unconverted = sites_with_upto(q, g, n, 'T');
    let converted = sites_with_upto(q, g, n, 'C');
    let matched = matches_upto(q, g, n) + unconverted;
    let calls = calls_upto(q, g, n);
    AlignmentCallModel {
        query_aligned: q,
        reference_aligned: g,
        site_calls: if calls.len() == 0 { seq!['-'] } else { calls },
        percent_identity: Percent { numerator: matched as usize, denominator: n as usize },
        percent_conversion: Percent {
            numerator: converted as usize,
            denominator: (converted + unconverted) as usize,
        },
        gap_count: max(gaps_upto(g, n), gaps_upto(q, n)),
        cpg_count: calls.len() as int,
        menum: converted,
        unconverted_count: unconverted,
        converted_count: converted,
        match_count: matched,
        mismatch_count: n - matched,
        aligned_length: n,
    }
}

proof fn lemma_counts_bounded(q: Seq<char>, g: Seq<char>, n: int)
    requires
        0 <= n,
    ensures
        0 <= matches_upto(q, g, n) <= n,
        0 <= gaps_upto(q, n) <= n,
        0 <= gaps_upto(g, n) <= n,
        0 <= sites_with_upto(q, g, n, 'T'),
        0 <= sites_with_upto(q, g, n, 'C'),
        sites_with_upto(q, g, n, 'T') + sites_with_upto(q, g, n, 'C') <= calls_upto(q, g, n).len() <= n,
    decreases n,
{
    if n > 0 {
        lemma_counts_bounded(q, g, n - 1);
    }
}

proof fn lemma_no_sites_between(q: Seq<char>, g: Seq<char>, i: int, p: int)
    requires
        0 <= i <= p,
        forall|k: int| i <= k < p ==> !is_cpg(g, k),
    ensures
        calls_upto(q, g, p) == calls_upto(q, g, i),
        sites_with_upto(q, g, p, 'T') == sites_with_upto(q, g, i, 'T'),
        sites_with_upto(q, g, p, 'C') == sites_with_upto(q, g, i, 'C'),
    decreases p - i,
{
    if p > i {
        lemma_no_sites_between(q, g, i, p - 1);
    }
}

/// Start of the first CpG site of `g` at or after `from`.
pub fn find_subsequence(g: &[char], from: usize) -> (r: Option<usize>)
    requires
        from <= g@.len(),
    ensures
        match r {
            Some(p) => from <= p && is_cpg(g@, p as int) && forall|k: int| from <= k < p ==> !is_cpg(g@, k),
            None => forall|k: int| from <= k ==> !is_cpg(g@, k),
        },
{
    let mut k: usize = from;
    while k < g.len()
        invariant
            from <= k <= g@.len(),
            forall|j: int| from <= j < k ==> !is_cpg(g@, j),
        decreases g@.len() - k,
    {
        if k + 1 < g.len() && g[k] == 'C' && g[k + 1] == 'G' {
            return Some(k);
        }
        k = k + 1;
    }
    None
}

/// Percent identity, percent conversion and mismatch count of a call.
pub fn generate_summary_stats(matched: usize, aligned_length: usize, converted: usize, unconverted: usize) -> (r: (Percent, Percent, isize))
    requires
        aligned_length <= isize::MAX,
        matched <= 2 * aligned_length,
        converted + unconverted <= aligned_length,
    ensures
        r.0 == (Percent { numerator: matched, denominator: aligned_length }),
        r.1 == (Percent { numerator: converted, denominator: (converted + unconverted) as usize }),
        r.2 == aligned_length - matched,
{
    let identity = percentage(matched, aligned_length, PercentKind::OfTotal);
    let conversion = percentage(converted, unconverted, PercentKind::OfSum);
    let mismatches: isize = if matched <= aligned_length {
        (aligned_length - matched) as isize
    } else {
        -((matched - aligned_length) as isize)
    };
    (identity, conversion, mismatches)
}

/// Calls every CpG site of an aligned pair and counts matches, gaps and
/// conversions. `q` is the query row and `g` the reference row, of equal
/// length, with `-` in gap columns.
pub fn process_alignment_matches(q: &[char], g: &[char]) -> (r: AlignmentCall)
    requires
        q@.len() == g@.len(),
        q@.len() <= isize::MAX,
    ensures
        r@ == call_of(q@, g@),
        r.query_aligned@.len() == r.aligned_length,
        r.reference_aligned@.len() == r.aligned_length,
        r.match_count + r.mismatch_count == r.aligned_length,
        forall|i: int| 0 <= i < r.site_calls@.len() ==> {
            let c = #[trigger] r.site_calls@[i];
            c == '0' || c == '1' || c == '-' || (c != 'T' && c != 'C' && exists|p: int|
                0 <= p < q@.len() && q@[p] == c)
        },
        calls_upto(q@, g@, q@.len() as int) != seq!['-'] ==> (r.site_calls@ == seq!['-'] <==> forall|p: int| !is_cpg(g@, p)),
{
    proof {
        lemma_site_calls_alphabet(q@, g@);
        lemma_site_calls_dash_iff_no_site_when(q@, g@);
    }
    let n = q.len();
    let mut matched: usize = 0;
    let mut q_gaps: usize = 0;
    let mut g_gaps: usize = 0;
    let mut i: usize = 0;
    while i < n
        invariant
            n == q@.len(),
            n == g@.len(),
            i <= n,
            matched == matches_upto(q@, g@, i as int),
            q_gaps == gaps_upto(q@, i as int),
            g_gaps == gaps_upto(g@, i as int),
        decreases n - i,
    {
        proof {
            lemma_counts_bounded(q@, g@, i as int);
        }
        if q[i] == g[i] || (q[i] == 'T' && g[i] == 'C') {
            matched = matched + 1;
        }
        if q[i] == '-' {
            q_gaps = q_gaps + 1;
        }
        if g[i] == '-' {
            g_gaps = g_gaps + 1;
        }
        i = i + 1;
    }
    let mut calls: Vec<char> = Vec::new();
    let mut unconverted: usize = 0;
    let mut converted: usize = 0;
    let mut cursor: usize = 0;
    let mut scanning = true;
    while scanning
        invariant
            n == q@.len(),
            n == g@.len(),
            cursor <= n,
            scanning ==> calls@ == calls_upto(q@, g@, cursor as int),
            scanning ==> unconverted == sites_with_upto(q@, g@, cursor as int, 'T'),
            scanning ==> converted == sites_with_upto(q@, g@, cursor as int, 'C'),
            !scanning ==> calls@ == calls_upto(q@, g@, n as int),
            !scanning ==> unconverted == sites_with_upto(q@, g@, n as int, 'T'),
            !scanning ==> converted == sites_with_upto(q@, g@, n as int, 'C'),
        decreases n - cursor + if scanning { 1int } else { 0int },
    {
        match find_subsequence(g, cursor) {
            Some(p) => {
                proof {
                    lemma_no_sites_between(q@, g@, cursor as int, p as int);
                    lemma_counts_bounded(q@, g@, p as int);
                }
                let c = q[p];
                if c == 'T' {
                    unconverted = unconverted + 1;
                    calls.push('0');
                } else if c == 'C' {
                    converted = converted + 1;
                    calls.push('1');
                } else {
                    calls.push(c);
                }
                cursor = p + 1;
            },
            None => {
                proof {
                    lemma_no_sites_between(q@, g@, cursor as int, n as int);
                }
                scanning = false;
            },
        }
    }
    proof {
        lemma_counts_bounded(q@, g@, n as int);
    }
    let cpg_count = calls.len();
    if calls.len() == 0 {
        calls.push('-');
        assert(calls@ =~= seq!['-']);
    }
    assert(calls@ == call_of(q@, g@).site_calls);
    let total_matched = matched + unconverted;
    let (identity, conversion, mismatches) = generate_summary_stats(total_matched, n, converted, unconverted);
    let gap_count = if g_gaps >= q_gaps { g_gaps } else { q_gaps };
    AlignmentCall {
        query_aligned: string_of(q),
        reference_aligned: string_of(g),
        site_calls: string_of(calls.as_slice()),
        percent_identity: identity,
        percent_conversion: conversion,
        gap_count,
        cpg_count,
        menum: converted,
        unconverted_count: unconverted,
        converted_count: converted,
        match_count: total_matched,
        mismatch_count: mismatches,
        aligned_length: n,
    }
}

/// Matches and mismatches together make up the aligned length.
pub proof fn lemma_matches_and_mismatches(q: Seq<char>, g: Seq<char>)
    ensures
        call_of(q, g).match_count + call_of(q, g).mismatch_count == call_of(q, g).aligned_length,
{
}

/// The two rows of a call and its aligned length agree.
pub proof fn lemma_rows_have_aligned_length(q: Seq<char>, g: Seq<char>)
    requires
        q.len() == g.len(),
    ensures
        call_of(q, g).query_aligned.len() == call_of(q, g).aligned_length,
        call_of(q, g).reference_aligned.len() == call_of(q, g).aligned_length,
{
}

proof fn lemma_calls_come_from_sites(q: Seq<char>, g: Seq<char>, n: int)
    requires
        0 <= n,
    ensures
        forall|i: int| 0 <= i < calls_upto(q, g, n).len() ==> exists|p: int|
            0 <= p < n && is_cpg(g, p) && #[trigger] calls_upto(q, g, n)[i] == site_call(q[p]),
        calls_upto(q, g, n).len() == 0 <==> forall|p: int| 0 <= p < n ==> !is_cpg(g, p),
    decreases n,
{
    if n > 0 {
        lemma_calls_come_from_sites(q, g, n - 1);
        let prev = calls_upto(q, g, n - 1);
        let cur = calls_upto(q, g, n);
        assert forall|i: int| 0 <= i < cur.len() implies exists|p: int|
            0 <= p < n && is_cpg(g, p) && #[trigger] cur[i] == site_call(q[p]) by {
            if i < prev.len() {
                assert(cur[i] == prev[i]);
                let p = choose|p: int| 0 <= p < n - 1 && is_cpg(g, p) && prev[i] == site_call(q[p]);
                assert(0 <= p < n && is_cpg(g, p) && cur[i] == site_call(q[p]));
            } else {
                assert(is_cpg(g, n - 1) && cur[i] == site_call(q[n - 1]));
            }
        }
        if cur.len() == 0 {
            assert(!is_cpg(g, n - 1));
        }
    }
}

/// Every site call is `0`, `1`, `-`, or a character of the query row other
/// than `T` and `C`.
pub proof fn lemma_site_calls_alphabet(q: Seq<char>, g: Seq<char>)
    ensures
        forall|i: int| 0 <= i < call_of(q, g).site_calls.len() ==> {
            let c = #[trigger] call_of(q, g).site_calls[i];
            c == '0' || c == '1' || c == '-' || (c != 'T' && c != 'C' && exists|p: int|
                0 <= p < q.len() && q[p] == c)
        },
{
    let n = q.len() as int;
    lemma_calls_come_from_sites(q, g, n);
    let calls = calls_upto(q, g, n);
    assert forall|i: int| 0 <= i < call_of(q, g).site_calls.len() implies {
        let c = #[trigger] call_of(q, g).site_calls[i];
        c == '0' || c == '1' || c == '-' || (c != 'T' && c != 'C' && exists|p: int|
            0 <= p < q.len() && q[p] == c)
    } by {
        if calls.len() > 0 {
            let p = choose|p: int| 0 <= p < n && is_cpg(g, p) && calls[i] == site_call(q[p]);
            assert(q[p] == q[p]);
        }
    }
}

/// The site calls are exactly `-` when the reference row holds no CpG site,
/// for every pair but one whose only site faces `-` in the query row, which is
/// called `-` as well.
pub proof fn lemma_site_calls_dash_iff_no_site(q: Seq<char>, g: Seq<char>)
    requires
        q.len() == g.len(),
        calls_upto(q, g, q.len() as int) != seq!['-'],
    ensures
        call_of(q, g).site_calls == seq!['-'] <==> forall|p: int| !is_cpg(g, p),
{
    lemma_site_calls_dash_iff_no_site_when(q, g);
}

proof fn lemma_site_calls_dash_iff_no_site_when(q: Seq<char>, g: Seq<char>)
    requires
        q.len() == g.len(),
    ensures
        calls_upto(q, g, q.len() as int) != seq!['-'] ==> (call_of(q, g).site_calls == seq!['-'] <==> forall|p: int| !is_cpg(g, p)),
{
    let n = q.len() as int;
    lemma_calls_come_from_sites(q, g, n);
}

} // verus!
