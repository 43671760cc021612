//! Multi-record FASTA parsing of the query text into ordered reads.
use crate::text::{
    chars_of, first_index, is_white_space, is_white_space_char, squeeze_breaks,
    squeeze_line_breaks, string_clone, string_of, trim_end, trim_end_text, trim_text, trimmed,
};
use vstd::prelude::*;

verus! {

/// One sequencing read: its name, its 1-based place in the input, and its
/// sequence as written.
pub struct Read {
    pub name: String,
    pub position: usize,
    pub sequence: String,
}

pub ghost struct ReadModel {
    pub name: Seq<char>,
    pub position: nat,
    pub sequence: Seq<char>,
}

impl View for Read {
    type V = ReadModel;

    open spec fn view(&self) -> ReadModel {
        ReadModel { name: self.name@, position: self.position as nat, sequence: self.sequence@ }
    }
}

impl Clone for Read {
    fn clone(&self) -> (r: Read)
        ensures
            r@ == self@,
    {
        Read {
            name: string_clone(&self.name),
            position: self.position,
            sequence: string_clone(&self.sequence),
        }
    }
}

proof fn lemma_first_index_bounds(s: Seq<char>, c: char)
    ensures
        0 <= first_index(s, c) <= s.len(),
        first_index(s, c) < s.len() ==> s[first_index(s, c)] == c,
        forall|k: int| 0 <= k < first_index(s, c) ==> s[k] != c,
    decreases s.len(),
{
    if s.len() > 0 && s[0] != c {
        lemma_first_index_bounds(s.drop_first(), c);
        assert forall|k: int| 0 <= k < first_index(s, c) implies s[k] != c by {
            if k > 0 {
                assert(s[k] == s.drop_first()[k - 1]);
            }
        }
    }
}

#[via_fn]
proof fn lines_of_decreases(s: Seq<char>) {
    lemma_first_index_bounds(s, '\n');
}

/// The lines of `s`, split at each `\n`; a final `\n` opens no further line.
pub open spec fn lines_of(s: Seq<char>) -> Seq<Seq<char>>
    decreases s.len(),
    via lines_of_decreases
{
    let k = first_index(s, '\n');
    if s.len() == 0 {
        Seq::empty()
    } else if k < s.len() {
        seq![s.take(k)] + lines_of(s.skip(k + 1))
    } else {
        seq![s]
    }
}

/// The query text after trimming and collapsing its line-break runs.
pub open spec fn scrubbed(text: Seq<char>) -> Seq<char> {
    squeeze_line_breaks(trimmed(text))
}

pub open spec fn is_header(line: Seq<char>) -> bool {
    line.len() > 0 && line[0] == '>'
}

pub open spec fn is_blank(line: Seq<char>) -> bool {
    forall|i: int| 0 <= i < line.len() ==> is_white_space(line[i])
}

/// Record name carried by a header line: the text after `>`, trailing white
/// space removed.
pub open spec fn header_name(line: Seq<char>) -> Seq<char> {
    trim_end(line.drop_first())
}

/// Reads made from `lines` by a parser that already emitted `done` and holds
/// the name of an open header in `pending`. A header opens a record (replacing
/// an open one that got no sequence); the first non-blank line after it is the
/// record's sequence; other lines are dropped.
pub open spec fn parse_lines(lines: Seq<Seq<char>>, pending: Option<Seq<char>>, done: Seq<ReadModel>) -> Seq<ReadModel>
    decreases lines.len(),
{
    if lines.len() == 0 {
        done
    } else {
        let line = lines[0];
        let rest = lines.drop_first();
        if is_header(line) {
            parse_lines(rest, Some(header_name(line)), done)
        } else if is_blank(line) {
            parse_lines(rest, pending, done)
        } else if pending is Some {
            let read = ReadModel { name: pending->0, position: done.len() + 1, sequence: line };
            parse_lines(rest, None, done.push(read))
        } else {
            parse_lines(rest, None, done)
        }
    }
}

/// The reads of a query text.
pub open spec fn reads_of(text: Seq<char>) -> Seq<ReadModel> {
    parse_lines(lines_of(scrubbed(text)), None, Seq::empty())
}

pub open spec fn positions_dense(reads: Seq<ReadModel>) -> bool {
    forall|i: int| 0 <= i < reads.len() ==> #[trigger] reads[i].position == i + 1
}

/// Trims the text and turns every run of line breaks into a single `\n`.
pub fn scrub_whitespace(text: &str) -> (r: String)
    ensures
        r@ == scrubbed(text@),
{
    let t = trim_text(text);
    squeeze_breaks(t.as_str())
}

proof fn lemma_first_index_append(a: Seq<char>, b: Seq<char>, c: char)
    requires
        forall|k: int| 0 <= k < a.len() ==> a[k] != c,
    ensures
        first_index(a + b, c) == a.len() + first_index(b, c),
    decreases a.len(),
{
    if a.len() > 0 {
        assert((a + b).drop_first() =~= a.drop_first() + b);
        lemma_first_index_append(a.drop_first(), b, c);
    } else {
        assert(a + b =~= b);
    }
}

/// Splits `s` at each `\n`.
pub fn split_lines(s: &[char]) -> (r: Vec<Vec<char>>)
    ensures
        r@.map_values(|l: Vec<char>| l@) == lines_of(s@),
{
    let mut out: Vec<Vec<char>> = Vec::new();
    let mut cur: Vec<char> = Vec::new();
    let mut i: usize = 0;
    assert(cur@ + s@.skip(0) =~= s@);
    assert(out@.map_values(|l: Vec<char>| l@) + lines_of(s@) =~= lines_of(s@));
    while i < s.len()
        invariant
            i <= s@.len(),
            forall|k: int| 0 <= k < cur@.len() ==> cur@[k] != '\n',
            lines_of(s@) == out@.map_values(|l: Vec<char>| l@) + lines_of(cur@ + s@.skip(i as int)),
        decreases s@.len() - i,
    {
        let c = s[i];
        let ghost rest = s@.skip(i as int);
        assert(rest[0] == c);
        if c == '\n' {
            proof {
                lemma_first_index_append(cur@, rest, '\n');
                let whole = cur@ + rest;
                assert(whole.take(cur@.len() as int) =~= cur@);
                assert(whole.skip(cur@.len() as int + 1) =~= s@.skip(i + 1));
                assert(lines_of(whole) == seq![cur@] + lines_of(s@.skip(i + 1)));
            }
            let ghost before = out@.map_values(|l: Vec<char>| l@);
            let ghost line_v = cur@;
            out.push(cur);
            cur = Vec::new();
            proof {
                assert(out@.map_values(|l: Vec<char>| l@) =~= before.push(line_v));
                assert(before.push(line_v) + lines_of(s@.skip(i + 1)) =~= before + (seq![line_v]
                    + lines_of(s@.skip(i + 1))));
                assert(cur@ + s@.skip(i + 1) =~= s@.skip(i + 1));
                }
        } else {
            let ghost before_cur = cur@;
            cur.push(c);
            assert(before_cur + rest =~= cur@ + s@.skip(i + 1));
        }
        i = i + 1;
    }
    assert(cur@ + s@.skip(i as int) =~= cur@);
    let ghost before = out@.map_values(|l: Vec<char>| l@);
    if cur.len() > 0 {
        proof {
            lemma_first_index_append(cur@, Seq::<char>::empty(), '\n');
            assert(cur@ + Seq::<char>::empty() =~= cur@);
        }
        let ghost line_v = cur@;
        out.push(cur);
        assert(out@.map_values(|l: Vec<char>| l@) =~= before.push(line_v));
        assert(before.push(line_v) =~= before + seq![line_v]);
    } else {
        assert(before + Seq::<Seq<char>>::empty() =~= before);
    }
    out
}

pub open spec fn name_view(o: Option<String>) -> Option<Seq<char>> {
    match o {
        Some(n) => Some(n@),
        None => None,
    }
}

fn header_name_of(line: &Vec<char>) -> (r: String)
    requires
        line@.len() > 0,
    ensures
        r@ == header_name(line@),
{
    let mut tail: Vec<char> = Vec::new();
    let mut k: usize = 1;
    while k < line.len()
        invariant
            1 <= k <= line@.len(),
            tail@ == line@.subrange(1, k as int),
        decreases line@.len() - k,
    {
        tail.push(line[k]);
        k = k + 1;
        assert(tail@ =~= line@.subrange(1, k as int));
    }
    assert(tail@ =~= line@.drop_first());
    let joined = string_of(tail.as_slice());
    trim_end_text(joined.as_str())
}

fn is_blank_line(line: &Vec<char>) -> (r: bool)
    ensures
        r == is_blank(line@),
{
    let mut k: usize = 0;
    while k < line.len()
        invariant
            k <= line@.len(),
            forall|j: int| 0 <= j < k ==> is_white_space(line@[j]),
        decreases line@.len() - k,
    {
        if !is_white_space_char(line[k]) {
            return false;
        }
        k = k + 1;
    }
    true
}

/// Parses a query text into its reads, in input order, numbered from 1.
/// Headers without a sequence line and sequence lines without a header are
/// dropped; an empty text gives no reads.
pub fn parse_biseq(text: &str) -> (r: Vec<Read>)
    ensures
        r@.map_values(|x: Read| x@) == reads_of(text@),
        positions_dense(r@.map_values(|x: Read| x@)),
{
    let clean = scrub_whitespace(text);
    let chars = chars_of(clean.as_str());
    let lines = split_lines(chars.as_slice());
    let ghost all = lines@.map_values(|l: Vec<char>| l@);
    let mut out: Vec<Read> = Vec::new();
    let mut pending: Option<String> = None;
    let mut i: usize = 0;
    assert(all.skip(0) =~= all);
    assert(out@.map_values(|x: Read| x@) =~= Seq::<ReadModel>::empty());
    while i < lines.len()
        invariant
            all == lines@.map_values(|l: Vec<char>| l@),
            i <= lines@.len(),
            out@.len() <= i,
            parse_lines(all, None, Seq::empty()) == parse_lines(
                all.skip(i as int),
                name_view(pending),
                out@.map_values(|x: Read| x@),
            ),
        decreases lines@.len() - i,
    {
        let line = &lines[i];
        let ghost before = out@.map_values(|x: Read| x@);
        assert(all.skip(i as int)[0] == line@);
        assert(all.skip(i as int).drop_first() =~= all.skip(i + 1));
        if line.len() > 0 && line[0] == '>' {
            pending = Some(header_name_of(line));
        } else if is_blank_line(line) {
        } else {
            match pending {
                Some(name) => {
                    let read = Read {
                        name,
                        position: out.len() + 1,
                        sequence: string_of(line.as_slice()),
                    };
                    out.push(read);
                    assert(out@.map_values(|x: Read| x@) =~= before.push(
                        ReadModel { name: name@, position: before.len() + 1, sequence: line@ },
                    ));
                },
                None => {},
            }
            pending = None;
        }
        i = i + 1;
    }
    assert(all.skip(i as int) =~= Seq::<Seq<char>>::empty());
    proof {
        lemma_parse_positions(all, None, Seq::empty());
    }
    out
}

proof fn lemma_parse_positions(lines: Seq<Seq<char>>, pending: Option<Seq<char>>, done: Seq<ReadModel>)
    requires
        positions_dense(done),
    ensures
        positions_dense(parse_lines(lines, pending, done)),
    decreases lines.len(),
{
    if lines.len() > 0 {
        let line = lines[0];
        let rest = lines.drop_first();
        if is_header(line) {
            lemma_parse_positions(rest, Some(header_name(line)), done);
        } else if is_blank(line) {
            lemma_parse_positions(rest, pending, done);
        } else if pending is Some {
            let read = ReadModel { name: pending->0, position: done.len() + 1, sequence: line };
            assert(positions_dense(done.push(read))) by {
                assert forall|i: int| 0 <= i < done.len() + 1 implies #[trigger] done.push(read)[i].position == i + 1 by {
                    if i < done.len() {
                        assert(done.push(read)[i] == done[i]);
                    }
                }
            }
            lemma_parse_positions(rest, None, done.push(read));
        } else {
            lemma_parse_positions(rest, None, done);
        }
    }
}

/// Reads are numbered by their order in the query text: the read at index `i`
/// has position `i + 1`.
pub proof fn lemma_reads_in_input_order(text: Seq<char>)
    ensures
        positions_dense(reads_of(text)),
{
    lemma_parse_positions(lines_of(scrubbed(text)), None, Seq::empty());
}

} // verus!
