//! Nucleotide sequences: alphabet restriction, normalization of a reference
//! text, and reverse complementation.
use crate::text::{
    chars_of, drop_header_line, squeeze_breaks, squeeze_line_breaks, string_of, strip_header,
    trim_text, trimmed, upper_case, upper_of,
};
use vstd::prelude::*;

verus! {

/// The accepted nucleotide alphabet: `ACGTURYMWSKDHBVN` in either case.
pub open spec fn is_nucleotide(c: char) -> bool {
    c == 'A' || c == 'C' || c == 'G' || c == 'T' || c == 'U' || c == 'R' || c == 'Y' || c == 'M'
        || c == 'W' || c == 'S' || c == 'K' || c == 'D' || c == 'H' || c == 'B' || c == 'V'
        || c == 'N' || c == 'a' || c == 'c' || c == 'g' || c == 't' || c == 'u' || c == 'r'
        || c == 'y' || c == 'm' || c == 'w' || c == 's' || c == 'k' || c == 'd' || c == 'h'
        || c == 'b' || c == 'v' || c == 'n'
}

/// The nucleotide characters of `s`, in order.
pub open spec fn keep_nucleotides(s: Seq<char>) -> Seq<char>
    decreases s.len(),
{
    if s.len() == 0 {
        s
    } else if is_nucleotide(s.last()) {
        keep_nucleotides(s.drop_last()).push(s.last())
    } else {
        keep_nucleotides(s.drop_last())
    }
}

/// Sequence of an upper-cased reference text: the header line dropped, then
/// every character outside the alphabet.
pub open spec fn reference_sequence_of(upper: Seq<char>) -> Seq<char> {
    keep_nucleotides(strip_header(upper))
}

/// Normalized reference sequence of a raw reference text.
pub open spec fn normalized_reference(text: Seq<char>) -> Seq<char> {
    reference_sequence_of(upper_of(squeeze_line_breaks(trimmed(text))))
}

/// Watson-Crick complement over the IUPAC codes, case preserved; `U` pairs
/// with `A`, and characters outside the alphabet are kept.
pub open spec fn complement(c: char) -> char {
    if c == 'A' { 'T' }
    else if c == 'C' { 'G' }
    else if c == 'G' { 'C' }
    else if c == 'T' { 'A' }
    else if c == 'U' { 'A' }
    else if c == 'R' { 'Y' }
    else if c == 'Y' { 'R' }
    else if c == 'M' { 'K' }
    else if c == 'K' { 'M' }
    else if c == 'D' { 'H' }
    else if c == 'H' { 'D' }
    else if c == 'B' { 'V' }
    else if c == 'V' { 'B' }
    else if c == 'a' { 't' }
    else if c == 'c' { 'g' }
    else if c == 'g' { 'c' }
    else if c == 't' { 'a' }
    else if c == 'u' { 'a' }
    else if c == 'r' { 'y' }
    else if c == 'y' { 'r' }
    else if c == 'm' { 'k' }
    else if c == 'k' { 'm' }
    else if c == 'd' { 'h' }
    else if c == 'h' { 'd' }
    else if c == 'b' { 'v' }
    else if c == 'v' { 'b' }
    else { c }  // W, S, N and their lower-case forms pair with themselves
}

/// `s` read backwards with each character complemented.
pub open spec fn reverse_complement_of(s: Seq<char>) -> Seq<char> {
    Seq::new(s.len(), |i: int| complement(s[s.len() - 1 - i]))
}

pub fn complement_char(c: char) -> (r: char)
    ensures
        r == complement(c),
{
    if c == 'A' { 'T' }
    else if c == 'C' { 'G' }
    else if c == 'G' { 'C' }
    else if c == 'T' { 'A' }
    else if c == 'U' { 'A' }
    else if c == 'R' { 'Y' }
    else if c == 'Y' { 'R' }
    else if c == 'M' { 'K' }
    else if c == 'K' { 'M' }
    else if c == 'D' { 'H' }
    else if c == 'H' { 'D' }
    else if c == 'B' { 'V' }
    else if c == 'V' { 'B' }
    else if c == 'a' { 't' }
    else if c == 'c' { 'g' }
    else if c == 'g' { 'c' }
    else if c == 't' { 'a' }
    else if c == 'u' { 'a' }
    else if c == 'r' { 'y' }
    else if c == 'y' { 'r' }
    else if c == 'm' { 'k' }
    else if c == 'k' { 'm' }
    else if c == 'd' { 'h' }
    else if c == 'h' { 'd' }
    else if c == 'b' { 'v' }
    else if c == 'v' { 'b' }
    else { c }
}

pub fn is_nucleotide_char(c: char) -> (r: bool)
    ensures
        r == is_nucleotide(c),
{
    c == 'A' || c == 'C' || c == 'G' || c == 'T' || c == 'U' || c == 'R' || c == 'Y' || c == 'M'
        || c == 'W' || c == 'S' || c == 'K' || c == 'D' || c == 'H' || c == 'B' || c == 'V'
        || c == 'N' || c == 'a' || c == 'c' || c == 'g' || c == 't' || c == 'u' || c == 'r'
        || c == 'y' || c == 'm' || c == 'w' || c == 's' || c == 'k' || c == 'd' || c == 'h'
        || c == 'b' || c == 'v' || c == 'n'
}

/// Keeps the characters of `seq` that belong to the nucleotide alphabet.
pub fn check_char_in_allowed(seq: &[char]) -> (r: Vec<char>)
    ensures
        r@ == keep_nucleotides(seq@),
{
    let mut out: Vec<char> = Vec::new();
    let mut i: usize = 0;
    while i < seq.len()
        invariant
            i <= seq@.len(),
            out@ == keep_nucleotides(seq@.take(i as int)),
        decreases seq@.len() - i,
    {
        let c = seq[i];
        assert(seq@.take(i + 1).drop_last() =~= seq@.take(i as int));
        if is_nucleotide_char(c) {
            out.push(c);
        }
        i = i + 1;
    }
    assert(seq@.take(seq@.len() as int) =~= seq@);
    out
}

/// Sequence of an upper-cased reference text: a leading `>` header line is
/// dropped, then everything outside the nucleotide alphabet.
pub fn parse_seq(upper: &str) -> (r: String)
    ensures
        r@ == reference_sequence_of(upper@),
{
    let body = drop_header_line(upper);
    let chars = chars_of(body.as_str());
    let kept = check_char_in_allowed(chars.as_slice());
    string_of(kept.as_slice())
}

/// Normalizes a raw reference text into one contiguous sequence: white space
/// trimmed, line-break runs collapsed, upper-cased, header line dropped and
/// the alphabet enforced. An empty or blank text gives the empty sequence.
pub fn parse_genome(text: &str) -> (r: String)
    ensures
        r@ == normalized_reference(text@),
        trimmed(text@).len() == 0 ==> r@.len() == 0,
{
    let trimmed_text = trim_text(text);
    let squeezed = squeeze_breaks(trimmed_text.as_str());
    let upper = upper_case(squeezed.as_str());
    proof {
        if trimmed(text@).len() == 0 {
            assert(squeeze_line_breaks(trimmed(text@)).len() == 0);
            assert(strip_header(upper@) == upper@);
            assert(upper@ =~= Seq::<char>::empty());
        }
    }
    parse_seq(upper.as_str())
}

/// Reverse complement of a sequence: reversed, each character complemented.
pub fn rev_comp(seq: &str) -> (r: String)
    ensures
        r@ == reverse_complement_of(seq@),
{
    let chars = chars_of(seq);
    let n = chars.len();
    let mut out: Vec<char> = Vec::new();
    let mut i: usize = 0;
    while i < n
        invariant
            n == chars@.len(),
            chars@ == seq@,
            i <= n,
            out@.len() == i,
            forall|k: int| 0 <= k < i ==> out@[k] == complement(chars@[n - 1 - k]),
        decreases n - i,
    {
        out.push(complement_char(chars[n - 1 - i]));
        i = i + 1;
    }
    assert(out@ =~= reverse_complement_of(seq@));
    string_of(out.as_slice())
}

/// Taking the reverse complement twice gives back the sequence, for every
/// sequence without `U`: `U` pairs with `A`, whose complement is `T`.
pub proof fn lemma_reverse_complement_involution(s: Seq<char>)
    requires
        forall|i: int| 0 <= i < s.len() ==> s[i] != 'U' && s[i] != 'u',
    ensures
        reverse_complement_of(reverse_complement_of(s)) == s,
{
    let r = reverse_complement_of(reverse_complement_of(s));
    assert forall|i: int| 0 <= i < s.len() implies r[i] == s[i] by {
        assert(s[s.len() - 1 - (s.len() - 1 - i)] == s[i]);
    }
    assert(r =~= s);
}

} // verus!
