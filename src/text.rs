//! Text primitives: conversions between strings and characters, and the
//! whitespace and line-break rewriting the normalizer is built from.
use regex::Regex;
use vstd::prelude::*;

verus! {

/// Unicode `White_Space` characters, which `str::trim` removes.
pub open spec fn is_white_space(c: char) -> bool {
    let u = c as u32;
    (9 <= u <= 13) || u == 0x20 || u == 0x85 || u == 0xa0 || u == 0x1680 || (0x2000 <= u <= 0x200a)
        || u == 0x2028 || u == 0x2029 || u == 0x202f || u == 0x205f || u == 0x3000
}

pub open spec fn trim_start(s: Seq<char>) -> Seq<char>
    decreases s.len(),
{
    if s.len() > 0 && is_white_space(s[0]) {
        trim_start(s.drop_first())
    } else {
        s
    }
}

pub open spec fn trim_end(s: Seq<char>) -> Seq<char>
    decreases s.len(),
{
    if s.len() > 0 && is_white_space(s.last()) {
        trim_end(s.drop_last())
    } else {
        s
    }
}

/// `s` without leading and trailing white space.
pub open spec fn trimmed(s: Seq<char>) -> Seq<char> {
    trim_end(trim_start(s))
}

pub open spec fn is_line_break(c: char) -> bool {
    c == '\n' || c == '\r'
}

/// Every maximal run of `\r` and `\n` characters replaced by a single `\n`.
pub open spec fn squeeze_line_breaks(s: Seq<char>) -> Seq<char>
    decreases s.len(),
{
    if s.len() == 0 {
        s
    } else if is_line_break(s[0]) && s.len() > 1 && is_line_break(s[1]) {
        squeeze_line_breaks(s.drop_first())
    } else {
        seq![if is_line_break(s[0]) { '\n' } else { s[0] }] + squeeze_line_breaks(s.drop_first())
    }
}

/// Index of the first `c` in `s`, or `s.len()` when there is none.
pub open spec fn first_index(s: Seq<char>, c: char) -> int
    decreases s.len(),
{
    if s.len() == 0 {
        0
    } else if s[0] == c {
        0
    } else {
        1 + first_index(s.drop_first(), c)
    }
}

/// `s` without its first line when that line is a `>` header ended by `\n`.
pub open spec fn strip_header(s: Seq<char>) -> Seq<char> {
    if s.len() > 0 && s[0] == '>' && first_index(s, '\n') < s.len() {
        s.skip(first_index(s, '\n') + 1)
    } else {
        s
    }
}

/// Characters dropped from a read before it is aligned: digits, space, tab,
/// line feed, carriage return and form feed.
pub open spec fn is_digit_or_blank(c: char) -> bool {
    ('0' <= c && c <= '9') || c == ' ' || c == '\t' || c == '\n' || c == '\r' || c == '\x0c'
}

pub open spec fn without_digits_or_blanks(s: Seq<char>) -> Seq<char> {
    s.filter(|c: char| !is_digit_or_blank(c))
}

/// What `str::to_uppercase` makes of a text.
pub uninterp spec fn upper_of(s: Seq<char>) -> Seq<char>;

/// Relies on `str::chars`: the characters of the text, in order.
#[verifier::external_body]
pub(crate) fn chars_of(s: &str) -> (r: Vec<char>)
    ensures
        r@ == s@,
{
    s.chars().collect()
}

/// Relies on `FromIterator<&char>` for `String`: the text made of these characters.
#[verifier::external_body]
pub(crate) fn string_of(v: &[char]) -> (r: String)
    ensures
        r@ == v@,
{
    v.iter().collect()
}

/// Relies on `str::to_uppercase`: the result depends on the text alone, and an
/// empty text stays empty.
#[verifier::external_body]
pub(crate) fn upper_case(s: &str) -> (r: String)
    ensures
        r@ == upper_of(s@),
        s@.len() == 0 ==> r@.len() == 0,
{
    s.to_uppercase()
}

/// Relies on `regex::Regex::replace_all` with the pattern `[\r\n]+` and the
/// replacement `\n`: each run of line breaks becomes one line feed.
#[verifier::external_body]
pub(crate) fn squeeze_breaks(s: &str) -> (r: String)
    ensures
        r@ == squeeze_line_breaks(s@),
{
    Regex::new(r"[\r\n]+").unwrap().replace_all(s, "\n").into_owned()
}

/// Relies on `regex::Regex::replace_all` with the pattern `^>[^\n]*\n` and an
/// empty replacement: a leading header line is removed.
#[verifier::external_body]
pub(crate) fn drop_header_line(s: &str) -> (r: String)
    ensures
        r@ == strip_header(s@),
{
    Regex::new(r"^>[^\n]*\n").unwrap().replace_all(s, "").into_owned()
}

/// Relies on `regex::Regex::replace_all` with the pattern `[0-9]| |\t|\n|\r|\f`
/// and an empty replacement: digits and blanks are removed.
#[verifier::external_body]
pub(crate) fn drop_digits_and_blanks(s: &str) -> (r: String)
    ensures
        r@ == without_digits_or_blanks(s@),
{
    Regex::new(r"[0-9]| |\t|\n|\r|\f").unwrap().replace_all(s, "").into_owned()
}

pub(crate) fn string_clone(s: &String) -> (r: String)
    ensures
        r@ == s@,
{
    s.clone()
}

pub fn is_white_space_char(c: char) -> (r: bool)
    ensures
        r == is_white_space(c),
{
    let u = c as u32;
    (9 <= u && u <= 13) || u == 0x20 || u == 0x85 || u == 0xa0 || u == 0x1680 || (0x2000 <= u
        && u <= 0x200a) || u == 0x2028 || u == 0x2029 || u == 0x202f || u == 0x205f || u == 0x3000
}

proof fn lemma_trim_start_skip(s: Seq<char>, k: int)
    requires
        0 <= k <= s.len(),
        forall|i: int| 0 <= i < k ==> is_white_space(s[i]),
        k == s.len() || !is_white_space(s[k]),
    ensures
        trim_start(s) == s.skip(k),
    decreases k,
{
    if k > 0 {
        assert(s.drop_first().skip(k - 1) =~= s.skip(k));
        lemma_trim_start_skip(s.drop_first(), k - 1);
    } else {
        assert(s.skip(0) =~= s);
    }
}

proof fn lemma_trim_end_take(s: Seq<char>, j: int)
    requires
        0 <= j <= s.len(),
        forall|i: int| j <= i < s.len() ==> is_white_space(s[i]),
        j == 0 || !is_white_space(s[j - 1]),
    ensures
        trim_end(s) == s.take(j),
    decreases s.len(),
{
    if s.len() > j {
        assert(s.drop_last().take(j) =~= s.take(j));
        lemma_trim_end_take(s.drop_last(), j);
    } else {
        assert(s.take(j) =~= s);
    }
}

fn copy_range(v: &Vec<char>, lo: usize, hi: usize) -> (r: Vec<char>)
    requires
        lo <= hi <= v@.len(),
    ensures
        r@ == v@.subrange(lo as int, hi as int),
{
    let mut out: Vec<char> = Vec::new();
    let mut k: usize = lo;
    while k < hi
        invariant
            lo <= k <= hi,
            hi <= v@.len(),
            out@ == v@.subrange(lo as int, k as int),
        decreases hi - k,
    {
        out.push(v[k]);
        k = k + 1;
        assert(out@ =~= v@.subrange(lo as int, k as int));
    }
    out
}

/// `s` without leading and trailing white space.
pub fn trim_text(s: &str) -> (r: String)
    ensures
        r@ == trimmed(s@),
{
    let chars = chars_of(s);
    let n = chars.len();
    let mut k: usize = 0;
    while k < n && is_white_space_char(chars[k])
        invariant
            n == chars@.len(),
            k <= n,
            forall|i: int| 0 <= i < k ==> is_white_space(chars@[i]),
        decreases n - k,
    {
        k = k + 1;
    }
    let mut j: usize = n;
    while j > k && is_white_space_char(chars[j - 1])
        invariant
            n == chars@.len(),
            k <= j <= n,
            forall|i: int| j <= i < n ==> is_white_space(chars@[i]),
        decreases j,
    {
        j = j - 1;
    }
    proof {
        lemma_trim_start_skip(chars@, k as int);
        let t = chars@.skip(k as int);
        lemma_trim_end_take(t, j - k);
        assert(t.take(j - k) =~= chars@.subrange(k as int, j as int));
    }
    let kept = copy_range(&chars, k, j);
    string_of(kept.as_slice())
}

/// `s` without trailing white space.
pub fn trim_end_text(s: &str) -> (r: String)
    ensures
        r@ == trim_end(s@),
{
    let chars = chars_of(s);
    let n = chars.len();
    let mut j: usize = n;
    while j > 0 && is_white_space_char(chars[j - 1])
        invariant
            n == chars@.len(),
            j <= n,
            forall|i: int| j <= i < n ==> is_white_space(chars@[i]),
        decreases j,
    {
        j = j - 1;
    }
    proof {
        lemma_trim_end_take(chars@, j as int);
        assert(chars@.take(j as int) =~= chars@.subrange(0, j as int));
    }
    let kept = copy_range(&chars, 0, j);
    string_of(kept.as_slice())
}

} // verus!
