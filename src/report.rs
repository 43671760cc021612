//! Tab-separated report of an analysis: a header line for the reference and
//! one line of sixteen fields per read.
use crate::calling::Percent;
use crate::pipeline::{ReadRecord, ReadRecordModel};
use crate::text::{chars_of, string_of};
use vstd::prelude::*;

verus! {

pub open spec fn digit_char(d: int) -> char {
    if d == 0 { '0' }
    else if d == 1 { '1' }
    else if d == 2 { '2' }
    else if d == 3 { '3' }
    else if d == 4 { '4' }
    else if d == 5 { '5' }
    else if d == 6 { '6' }
    else if d == 7 { '7' }
    else if d == 8 { '8' }
    else { '9' }
}

/// Decimal digits of `n`, without leading zeros.
pub open spec fn decimal(n: nat) -> Seq<char>
    decreases n,
{
    if n < 10 {
        seq![digit_char(n as int)]
    } else {
        decimal(n / 10).push(digit_char((n % 10) as int))
    }
}

/// Decimal text of a signed number.
pub open spec fn signed_decimal(n: int) -> Seq<char> {
    if n < 0 {
        seq!['-'] + decimal((-n) as nat)
    } else {
        decimal(n as nat)
    }
}

/// The last `w` decimal digits of `f`, zero-padded.
pub open spec fn padded(f: nat, w: nat) -> Seq<char>
    decreases w,
{
    if w == 0 {
        Seq::empty()
    } else {
        padded(f / 10, (w - 1) as nat).push(digit_char((f % 10) as int))
    }
}

/// The `w`-digit fraction `f` without its trailing zeros.
pub open spec fn fraction(f: nat, w: nat) -> Seq<char>
    decreases w,
{
    if w > 1 && f % 10 == 0 {
        fraction(f / 10, (w - 1) as nat)
    } else {
        padded(f, w)
    }
}

/// The percentage in ten-thousandths, rounded half up.
pub open spec fn percent_scaled(p: Percent) -> nat {
    ((2 * 1_000_000 * p.numerator + p.denominator) / (2 * p.denominator)) as nat
}

/// Text of a percentage: rounded to four decimal places, trailing zeros and a
/// bare decimal point dropped; `0` when its denominator is 0.
pub open spec fn percent_text(p: Percent) -> Seq<char> {
    if p.denominator == 0 {
        seq!['0']
    } else {
        let s = percent_scaled(p);
        if s % 10000 == 0 {
            decimal(s / 10000)
        } else {
            decimal(s / 10000) + seq!['.'] + fraction(s % 10000, 4)
        }
    }
}

pub open spec fn field(s: Seq<char>) -> Seq<char> {
    s.push('\t')
}

/// First eight fields of a record's line: position, name, read sequence, the
/// two aligned rows, aligned length, mismatches and percent identity.
pub open spec fn record_head(r: ReadRecordModel) -> Seq<char> {
    field(decimal(r.read.position)) + field(r.read.name) + field(r.read.sequence) + field(
        r.call.query_aligned,
    ) + field(r.call.reference_aligned) + field(decimal(r.call.aligned_length as nat)) + field(
        signed_decimal(r.call.mismatch_count),
    ) + field(percent_text(r.call.percent_identity))
}

/// Last eight fields of a record's line and its line feed: gaps, methylation
/// events, unconverted and converted sites, percent conversion, site calls and
/// the two orientation tags.
pub open spec fn record_tail(r: ReadRecordModel) -> Seq<char> {
    field(decimal(r.call.gap_count as nat)) + field(decimal(r.call.menum as nat)) + field(
        decimal(r.call.unconverted_count as nat),
    ) + field(decimal(r.call.converted_count as nat)) + field(percent_text(r.call.percent_conversion))
        + field(r.call.site_calls) + field(signed_decimal(r.orientation.spec_tag())) + field(
        signed_decimal(r.reference_orientation.spec_tag()),
    ) + seq!['\n']
}

/// Report line of one record: sixteen fields, each followed by a tab.
pub open spec fn record_line(r: ReadRecordModel) -> Seq<char> {
    record_head(r) + record_tail(r)
}

pub open spec fn header_line(reference: Seq<char>) -> Seq<char> {
    seq!['g', 'e', 'n', 'o', 'm', 'e', '\t', '0', '\t'] + reference + seq!['\t', '1', '\t', '0', '\n']
}

pub open spec fn records_text(records: Seq<ReadRecordModel>) -> Seq<char>
    decreases records.len(),
{
    if records.len() == 0 {
        Seq::empty()
    } else {
        records_text(records.drop_last()) + record_line(records.last())
    }
}

/// The whole report: the header line, then one line per record.
pub open spec fn report_of(reference: Seq<char>, records: Seq<ReadRecordModel>) -> Seq<char> {
    header_line(reference) + records_text(records)
}

fn digit_of(d: u128) -> (r: char)
    requires
        d < 10,
    ensures
        r == digit_char(d as int),
{
    if d == 0 { '0' }
    else if d == 1 { '1' }
    else if d == 2 { '2' }
    else if d == 3 { '3' }
    else if d == 4 { '4' }
    else if d == 5 { '5' }
    else if d == 6 { '6' }
    else if d == 7 { '7' }
    else if d == 8 { '8' }
    else { '9' }
}

fn push_decimal(out: &mut Vec<char>, n: u128)
    ensures
        final(out)@ == old(out)@ + decimal(n as nat),
    decreases n,
{
    if n >= 10 {
        push_decimal(out, n / 10);
    }
    out.push(digit_of(n % 10));
    proof {
        if n >= 10 {
            assert(old(out)@ + decimal(n as nat) =~= old(out)@ + decimal((n / 10) as nat) + seq![
                digit_char((n % 10) as int),
            ]);
        }
    }
    assert(final(out)@ =~= old(out)@ + decimal(n as nat));
}

fn push_signed(out: &mut Vec<char>, n: isize)
    ensures
        final(out)@ == old(out)@ + signed_decimal(n as int),
{
    if n < 0 {
        out.push('-');
        let magnitude: u128 = (-(n as i128)) as u128;
        push_decimal(out, magnitude);
        assert(final(out)@ =~= old(out)@ + signed_decimal(n as int));
    } else {
        push_decimal(out, n as u128);
    }
}

fn push_padded(out: &mut Vec<char>, f: u128, w: u32)
    ensures
        final(out)@ == old(out)@ + padded(f as nat, w as nat),
    decreases w,
{
    if w > 0 {
        push_padded(out, f / 10, w - 1);
        out.push(digit_of(f % 10));
    }
    assert(final(out)@ =~= old(out)@ + padded(f as nat, w as nat));
}

fn push_fraction(out: &mut Vec<char>, f: u128, w: u32)
    ensures
        final(out)@ == old(out)@ + fraction(f as nat, w as nat),
    decreases w,
{
    if w > 1 && f % 10 == 0 {
        push_fraction(out, f / 10, w - 1);
    } else {
        push_padded(out, f, w);
    }
}

fn push_percent(out: &mut Vec<char>, p: Percent)
    ensures
        final(out)@ == old(out)@ + percent_text(p),
{
    if p.denominator == 0 {
        out.push('0');
        assert(final(out)@ =~= old(out)@ + seq!['0']);
    } else {
        let num: u128 = p.numerator as u128;
        let den: u128 = p.denominator as u128;
        proof {
            assert(2 * 1_000_000 * num + den <= 2_000_001 * 0xffff_ffff_ffff_ffffu128) by (nonlinear_arith)
                requires
                    num <= 0xffff_ffff_ffff_ffff,
                    den <= 0xffff_ffff_ffff_ffff,
            ;
        }
        let scaled: u128 = (2 * 1_000_000 * num + den) / (2 * den);
        assert(scaled == percent_scaled(p));
        push_decimal(out, scaled / 10000);
        if scaled % 10000 != 0 {
            out.push('.');
            push_fraction(out, scaled % 10000, 4);
            assert(final(out)@ =~= old(out)@ + percent_text(p));
        }
    }
}

fn push_text(out: &mut Vec<char>, s: &str)
    ensures
        final(out)@ == old(out)@ + s@,
{
    let chars = chars_of(s);
    let mut i: usize = 0;
    while i < chars.len()
        invariant
            i <= chars@.len(),
            chars@ == s@,
            out@ == old(out)@ + chars@.take(i as int),
        decreases chars@.len() - i,
    {
        out.push(chars[i]);
        i = i + 1;
        assert(out@ =~= old(out)@ + chars@.take(i as int));
    }
    assert(chars@.take(chars@.len() as int) =~= chars@);
}

fn push_field_text(out: &mut Vec<char>, s: &str)
    ensures
        final(out)@ == old(out)@ + field(s@),
{
    push_text(out, s);
    out.push('\t');
    assert(final(out)@ =~= old(out)@ + field(s@));
}

fn push_field_decimal(out: &mut Vec<char>, n: usize)
    ensures
        final(out)@ == old(out)@ + field(decimal(n as nat)),
{
    push_decimal(out, n as u128);
    out.push('\t');
    assert(final(out)@ =~= old(out)@ + field(decimal(n as nat)));
}

fn push_field_signed(out: &mut Vec<char>, n: isize)
    ensures
        final(out)@ == old(out)@ + field(signed_decimal(n as int)),
{
    push_signed(out, n);
    out.push('\t');
    assert(final(out)@ =~= old(out)@ + field(signed_decimal(n as int)));
}

fn push_field_percent(out: &mut Vec<char>, p: Percent)
    ensures
        final(out)@ == old(out)@ + field(percent_text(p)),
{
    push_percent(out, p);
    out.push('\t');
    assert(final(out)@ =~= old(out)@ + field(percent_text(p)));
}

fn push_record_head(out: &mut Vec<char>, r: &ReadRecord)
    ensures
        final(out)@ == old(out)@ + record_head(r@),
{
    let ghost s0 = out@;
    push_field_decimal(out, r.read.position);
    push_field_text(out, r.read.name.as_str());
    push_field_text(out, r.read.sequence.as_str());
    push_field_text(out, r.call.query_aligned.as_str());
    push_field_text(out, r.call.reference_aligned.as_str());
    push_field_decimal(out, r.call.aligned_length);
    push_field_signed(out, r.call.mismatch_count);
    push_field_percent(out, r.call.percent_identity);
    assert(out@ =~= s0 + record_head(r@));
}

fn push_record_tail(out: &mut Vec<char>, r: &ReadRecord)
    ensures
        final(out)@ == old(out)@ + record_tail(r@),
{
    let ghost s0 = out@;
    push_field_decimal(out, r.call.gap_count);
    push_field_decimal(out, r.call.menum);
    push_field_decimal(out, r.call.unconverted_count);
    push_field_decimal(out, r.call.converted_count);
    push_field_percent(out, r.call.percent_conversion);
    push_field_text(out, r.call.site_calls.as_str());
    push_field_signed(out, r.orientation.tag() as isize);
    push_field_signed(out, r.reference_orientation.tag() as isize);
    out.push('\n');
    assert(out@ =~= s0 + record_tail(r@));
}

fn push_record_line(out: &mut Vec<char>, r: &ReadRecord)
    ensures
        final(out)@ == old(out)@ + record_line(r@),
{
    push_record_head(out, r);
    push_record_tail(out, r);
    assert(final(out)@ =~= old(out)@ + record_line(r@));
}

/// Renders the report: `genome\t0\t<reference>\t1\t0\n`, then one line per
/// record.
pub fn format_output(reference: &str, records: &[ReadRecord]) -> (r: String)
    ensures
        r@ == report_of(reference@, records@.map_values(|x: ReadRecord| x@)),
{
    let mut out: Vec<char> = Vec::new();
    out.push('g');
    out.push('e');
    out.push('n');
    out.push('o');
    out.push('m');
    out.push('e');
    out.push('\t');
    out.push('0');
    out.push('\t');
    push_text(&mut out, reference);
    out.push('\t');
    out.push('1');
    out.push('\t');
    out.push('0');
    out.push('\n');
    assert(out@ =~= header_line(reference@));
    let ghost views = records@.map_values(|x: ReadRecord| x@);
    let mut i: usize = 0;
    assert(views.take(0) =~= Seq::<ReadRecordModel>::empty());
    assert(out@ =~= header_line(reference@) + records_text(views.take(0)));
    while i < records.len()
        invariant
            views == records@.map_values(|x: ReadRecord| x@),
            i <= records@.len(),
            out@ == header_line(reference@) + records_text(views.take(i as int)),
        decreases records@.len() - i,
    {
        push_record_line(&mut out, &records[i]);
        assert(views.take(i + 1).drop_last() =~= views.take(i as int));
        i = i + 1;
        assert(out@ =~= header_line(reference@) + records_text(views.take(i as int)));
    }
    assert(views.take(records@.len() as int) =~= views);
    string_of(out.as_slice())
}

} // verus!
