//! Quote files: their format, encoding and category, and the corpus built from them.

use vstd::prelude::*;
use vstd::string::StringSliceAdditionalSpecFns;

verus! {

/// The coarse content class of a quote file, taken from its name.
#[derive(Debug, Default, Clone, Copy, PartialEq, Eq, Structural)]
pub enum QuoteCategory {
    #[default]
    Decorous,
    Offensive,
}

/// ASCII codes of the letters that bound the two halves of each alphabet.
pub const UPPER_A: u8 = 65;
pub const UPPER_M: u8 = 77;
pub const UPPER_N: u8 = 78;
pub const UPPER_Z: u8 = 90;
pub const LOWER_A: u8 = 97;
pub const LOWER_M: u8 = 109;
pub const LOWER_N: u8 = 110;
pub const LOWER_Z: u8 = 122;

/// Whether an ASCII letter lies in the first half of its alphabet.
pub open spec fn in_first_half(c: u8) -> bool {
    (UPPER_A <= c && c <= UPPER_M) || (LOWER_A <= c && c <= LOWER_M)
}

/// Whether an ASCII letter lies in the second half of its alphabet.
pub open spec fn in_second_half(c: u8) -> bool {
    (UPPER_N <= c && c <= UPPER_Z) || (LOWER_N <= c && c <= LOWER_Z)
}

/// Rot13 of one byte: letters move 13 places within their case, all else stays.
pub open spec fn rot13_spec(c: u8) -> u8 {
    if in_first_half(c) {
        (c + 13) as u8
    } else if in_second_half(c) {
        (c - 13) as u8
    } else {
        c
    }
}

/// Rot13 of a byte sequence, byte by byte.
pub open spec fn rot13_seq(s: Seq<u8>) -> Seq<u8> {
    s.map_values(|c: u8| rot13_spec(c))
}

/// Rot13 of one byte.
pub fn rot13_byte(c: u8) -> (r: u8)
    ensures
        r == rot13_spec(c),
{
    if (UPPER_A <= c && c <= UPPER_M) || (LOWER_A <= c && c <= LOWER_M) {
        c + 13
    } else if (UPPER_N <= c && c <= UPPER_Z) || (LOWER_N <= c && c <= LOWER_Z) {
        c - 13
    } else {
        c
    }
}

/// Applies rot13 to every byte of `text` in place.
pub fn rot13(text: &mut Vec<u8>)
    ensures
        final(text)@ == rot13_seq(old(text)@),
{
    let n = text.len();
    let mut i: usize = 0;
    while i < n
        invariant
            n == text.len(),
            n == old(text)@.len(),
            i <= n,
            forall|k: int| 0 <= k < i ==> text@[k] == rot13_spec(old(text)@[k]),
            forall|k: int| i <= k < n ==> text@[k] == old(text)@[k],
        decreases n - i,
    {
        let c = rot13_byte(text[i]);
        text.set(i, c);
        i = i + 1;
    }
    assert(text@ =~= rot13_seq(old(text)@));
}

/// Rot13 undoes itself: applying it twice to any byte sequence gives the
/// sequence back, and one application leaves every non-letter byte as it was.
pub proof fn lemma_rot13_involution(s: Seq<u8>)
    ensures
        rot13_seq(rot13_seq(s)) == s,
        forall|k: int|
            0 <= k < s.len() && !in_first_half(s[k]) && !in_second_half(s[k])
                ==> rot13_seq(s)[k] == s[k],
{
    assert(rot13_seq(rot13_seq(s)) =~= s);
}

/// How the letters of a quote file are stored.
#[derive(Debug, Default, Clone, Copy, PartialEq, Eq, Structural)]
pub enum FileEncoding {
    #[default]
    Plain,
    Rot13,
}

/// Where one quote lies in its file: `length` bytes from `offset`.
#[derive(Debug, Default, Clone, Copy, PartialEq, Eq, Structural)]
pub struct QuoteIndex {
    pub offset: u64,
    pub length: usize,
}

/// `%`: a line that starts with it bounds quotes.
pub const DELIMITER: u8 = 37;

/// `\n`: ends a line.
pub const NEWLINE: u8 = 10;

/// The marker `$SerrOFQ$` of a file stored in rot13.
pub open spec fn rot13_marker() -> Seq<u8> {
    seq![36u8, 83u8, 101u8, 114u8, 114u8, 79u8, 70u8, 81u8, 36u8]
}

/// The marker `$FreeBSD$` of a file stored plain.
pub open spec fn plain_marker() -> Seq<u8> {
    seq![36u8, 70u8, 114u8, 101u8, 101u8, 66u8, 83u8, 68u8, 36u8]
}

/// The end of the line that holds position `i`: just past its newline, or the
/// end of the text for a last line without one.
pub open spec fn line_end(s: Seq<u8>, i: int) -> int
    decreases s.len() - i,
{
    if i < 0 || i >= s.len() {
        s.len() as int
    } else if s[i] == NEWLINE {
        i + 1
    } else {
        line_end(s, i + 1)
    }
}

/// Whether `tok` occurs in `s` within `[start, end)`.
pub open spec fn has_token_in(s: Seq<u8>, start: int, end: int, tok: Seq<u8>) -> bool {
    exists|k: int| start <= k && k + tok.len() <= end && #[trigger] s.subrange(k, k + tok.len()) == tok
}

/// The quotes of `s` from the line that starts at `pos` on. `open` is where
/// the text after the last delimiter line seen so far begins, if one was seen.
/// What lies between two delimiter lines is a quote when it is not empty; text
/// before the first delimiter line or after the last one is none. (A line
/// always ends past its start and within the text, `lemma_line_end_bounds`;
/// the first test only makes the recursion's end plain.)
pub open spec fn spans_from(s: Seq<u8>, pos: int, open: Option<usize>) -> Seq<QuoteIndex>
    decreases s.len() - pos,
{
    if pos < 0 || pos >= s.len() || line_end(s, pos) <= pos || line_end(s, pos) > s.len() {
        seq![]
    } else if s[pos] == DELIMITER {
        let e = line_end(s, pos);
        let here = match open {
            Some(o) => if (o as int) < pos {
                seq![QuoteIndex { offset: o as u64, length: (pos - o) as usize }]
            } else {
                seq![]
            },
            None => seq![],
        };
        here + spans_from(s, e, Some(e as usize))
    } else {
        spans_from(s, line_end(s, pos), open)
    }
}

/// The quotes of a whole file, in file order.
pub open spec fn spans_of(s: Seq<u8>) -> Seq<QuoteIndex> {
    spans_from(s, 0, None)
}

/// The encoding of `s` from the line at `pos` on: decided by the first line
/// that holds a marker, rot13's checked first; plain where no line holds one.
/// (The first test never holds of a line start, as for `spans_from`.)
pub open spec fn encoding_from(s: Seq<u8>, pos: int) -> FileEncoding
    decreases s.len() - pos,
{
    if pos < 0 || pos >= s.len() || line_end(s, pos) <= pos || line_end(s, pos) > s.len() {
        FileEncoding::Plain
    } else if has_token_in(s, pos, line_end(s, pos), rot13_marker()) {
        FileEncoding::Rot13
    } else if has_token_in(s, pos, line_end(s, pos), plain_marker()) {
        FileEncoding::Plain
    } else {
        encoding_from(s, line_end(s, pos))
    }
}

/// The encoding of a whole file.
pub open spec fn encoding_of(s: Seq<u8>) -> FileEncoding {
    encoding_from(s, 0)
}

/// A line ends after where it starts, and no later than the text.
pub proof fn lemma_line_end_bounds(s: Seq<u8>, i: int)
    requires
        0 <= i < s.len(),
    ensures
        i < line_end(s, i) <= s.len(),
        line_end(s, i) < s.len() ==> s[line_end(s, i) - 1] == NEWLINE,
    decreases s.len() - i,
{
    if s[i] != NEWLINE {
        if i + 1 < s.len() {
            lemma_line_end_bounds(s, i + 1);
        } else {
            assert(line_end(s, i + 1) == s.len());
        }
    }
}

/// A line ends no later than the start of any later line.
proof fn lemma_line_end_before(s: Seq<u8>, i: int, p: int)
    requires
        0 <= i < p < s.len(),
        s[p - 1] == NEWLINE,
    ensures
        line_end(s, i) <= p,
    decreases p - i,
{
    if s[i] != NEWLINE {
        lemma_line_end_before(s, i + 1, p);
    }
}

/// Whether a line of `s` starts at `p`.
pub open spec fn is_line_start(s: Seq<u8>, p: int) -> bool {
    0 <= p < s.len() && (p == 0 || s[p - 1] == NEWLINE)
}

/// Whether the line of `s` that starts at `p` holds `tok`.
pub open spec fn line_has(s: Seq<u8>, p: int, tok: Seq<u8>) -> bool {
    has_token_in(s, p, line_end(s, p), tok)
}

/// Whether the line of `s` that starts at `p` holds either marker.
pub open spec fn line_has_marker(s: Seq<u8>, p: int) -> bool {
    line_has(s, p, rot13_marker()) || line_has(s, p, plain_marker())
}

/// Lines without a marker before `p` leave the encoding to what follows.
proof fn lemma_encoding_skips_unmarked(s: Seq<u8>, pos: int, p: int)
    requires
        is_line_start(s, pos),
        is_line_start(s, p),
        pos <= p,
        forall|q: int| 0 <= q < p && is_line_start(s, q) ==> !line_has_marker(s, q),
    ensures
        encoding_from(s, pos) == encoding_from(s, p),
    decreases p - pos,
{
    if pos < p {
        lemma_line_end_bounds(s, pos);
        lemma_line_end_before(s, pos, p);
        let e = line_end(s, pos);
        assert(!line_has_marker(s, pos));
        assert(is_line_start(s, e));
        lemma_encoding_skips_unmarked(s, e, p);
    }
}

/// The first line that holds a marker decides the encoding of a file: rot13
/// where that line holds the rot13 marker, plain where it holds only the plain
/// one. So a rot13 marker on a line before any plain marker means rot13, and a
/// plain marker on a line before any rot13 marker means plain.
pub proof fn lemma_first_marker_decides(s: Seq<u8>, p: int)
    requires
        is_line_start(s, p),
        line_has_marker(s, p),
        forall|q: int| 0 <= q < p && is_line_start(s, q) ==> !line_has_marker(s, q),
    ensures
        encoding_of(s) == (if line_has(s, p, rot13_marker()) {
            FileEncoding::Rot13
        } else {
            FileEncoding::Plain
        }),
{
    lemma_encoding_skips_unmarked(s, 0, p);
    lemma_line_end_bounds(s, p);
}

/// Whether a delimiter line of `s` starts at `p`.
pub open spec fn is_delimiter_line(s: Seq<u8>, p: int) -> bool {
    is_line_start(s, p) && s[p] == DELIMITER
}

/// No newline stands inside a line before its end.
proof fn lemma_line_has_no_inner_newline(s: Seq<u8>, i: int, q: int)
    requires
        0 <= i <= q < line_end(s, i) - 1,
        line_end(s, i) <= s.len(),
    ensures
        s[q] != NEWLINE,
    decreases q - i,
{
    if i < q {
        lemma_line_has_no_inner_newline(s, i + 1, q);
    }
}

/// The quotes found from `pos` on lie within `s`, are not empty, and hold no
/// delimiter line, given that none stands between `open` and `pos`.
proof fn lemma_spans_from_avoid_delimiters(s: Seq<u8>, pos: int, open: Option<usize>)
    requires
        0 <= pos,
        s.len() <= usize::MAX,
        pos < s.len() ==> is_line_start(s, pos),
        pos <= s.len(),
        open matches Some(o) ==> o <= pos && forall|p: int|
            o <= p < pos ==> !is_delimiter_line(s, p),
    ensures
        forall|i: int, p: int|
            #![trigger spans_from(s, pos, open)[i], is_delimiter_line(s, p)]
            0 <= i < spans_from(s, pos, open).len() && spans_from(s, pos, open)[i].offset <= p
                < spans_from(s, pos, open)[i].offset + spans_from(s, pos, open)[i].length
                ==> !is_delimiter_line(s, p),
        forall|i: int|
            0 <= i < spans_from(s, pos, open).len() ==> spans_from(s, pos, open)[i].length > 0
                && spans_from(s, pos, open)[i].offset + spans_from(s, pos, open)[i].length
                <= s.len(),
    decreases s.len() - pos,
{
    if pos < s.len() {
        lemma_line_end_bounds(s, pos);
        let e = line_end(s, pos);
        assert forall|p: int| pos < p < e implies !is_line_start(s, p) by {
            lemma_line_has_no_inner_newline(s, pos, p - 1);
        }
        if s[pos] == DELIMITER {
            lemma_spans_from_avoid_delimiters(s, e, Some(e as usize));
            let rest = spans_from(s, e, Some(e as usize));
            let all = spans_from(s, pos, open);
            let here: Seq<QuoteIndex> = match open {
                Some(o) => if (o as int) < pos {
                    seq![QuoteIndex { offset: o as u64, length: (pos - o) as usize }]
                } else {
                    seq![]
                },
                None => seq![],
            };
            assert(all == here + rest);
            assert forall|i: int, p: int|
                #![trigger all[i], is_delimiter_line(s, p)]
                0 <= i < all.len() && all[i].offset <= p < all[i].offset + all[i].length
                    implies !is_delimiter_line(s, p) by {
                if i >= here.len() {
                    assert(all[i] == rest[i - here.len()]);
                }
            }
            assert forall|i: int| 0 <= i < all.len() implies all[i].length > 0 && all[i].offset
                + all[i].length <= s.len() by {
                if i >= here.len() {
                    assert(all[i] == rest[i - here.len()]);
                }
            }
        } else {
            lemma_spans_from_avoid_delimiters(s, e, open);
            assert(spans_from(s, pos, open) == spans_from(s, e, open));
        }
    }
}

/// Every quote of a file is a non-empty range of it that holds no line
/// starting with the delimiter.
pub proof fn lemma_quotes_hold_no_delimiter_line(s: Seq<u8>)
    requires
        s.len() <= usize::MAX,
    ensures
        forall|i: int, p: int|
            #![trigger spans_of(s)[i], is_delimiter_line(s, p)]
            0 <= i < spans_of(s).len() && spans_of(s)[i].offset <= p < spans_of(s)[i].offset
                + spans_of(s)[i].length ==> !is_delimiter_line(s, p),
        forall|i: int|
            0 <= i < spans_of(s).len() ==> spans_of(s)[i].length > 0 && spans_of(s)[i].offset
                + spans_of(s)[i].length <= s.len(),
{
    lemma_spans_from_avoid_delimiters(s, 0, None);
}

fn rot13_marker_bytes() -> (r: Vec<u8>)
    ensures
        r@ == rot13_marker(),
{
    let r: Vec<u8> = vec![36u8, 83u8, 101u8, 114u8, 114u8, 79u8, 70u8, 81u8, 36u8];
    assert(r@ =~= rot13_marker());
    r
}

fn plain_marker_bytes() -> (r: Vec<u8>)
    ensures
        r@ == plain_marker(),
{
    let r: Vec<u8> = vec![36u8, 70u8, 114u8, 101u8, 101u8, 66u8, 83u8, 68u8, 36u8];
    assert(r@ =~= plain_marker());
    r
}

/// The end of the line that starts at `start`.
fn find_line_end(content: &[u8], start: usize) -> (e: usize)
    requires
        start < content@.len(),
    ensures
        e as int == line_end(content@, start as int),
        start < e <= content@.len(),
{
    let mut j: usize = start;
    while j < content.len() && content[j] != NEWLINE
        invariant
            start <= j <= content@.len(),
            line_end(content@, start as int) == line_end(content@, j as int),
        decreases content@.len() - j,
    {
        j = j + 1;
    }
    if j < content.len() {
        j + 1
    } else {
        j
    }
}

/// Whether `tok` stands in `content` at `k`.
fn token_at(content: &[u8], k: usize, tok: &Vec<u8>) -> (r: bool)
    requires
        k + tok@.len() <= content@.len(),
    ensures
        r == (content@.subrange(k as int, k + tok@.len()) == tok@),
{
    let n = tok.len();
    let m = content.len();
    let mut i: usize = 0;
    while i < n
        invariant
            n == tok@.len(),
            m == content@.len(),
            i <= n,
            k + n <= content@.len(),
            forall|j: int| 0 <= j < i ==> content@[k + j] == tok@[j],
        decreases n - i,
    {
        if content[k + i] != tok[i] {
            assert(content@.subrange(k as int, k + n)[i as int] != tok@[i as int]);
            return false;
        }
        i = i + 1;
    }
    assert(content@.subrange(k as int, k + n) =~= tok@);
    true
}

/// Whether `tok` occurs in `content` within `[start, end)`.
fn has_token(content: &[u8], start: usize, end: usize, tok: &Vec<u8>) -> (r: bool)
    requires
        start <= end <= content@.len(),
    ensures
        r == has_token_in(content@, start as int, end as int, tok@),
{
    let n = tok.len();
    if n > end - start {
        return false;
    }
    if n == 0 {
        assert(content@.subrange(start as int, start as int + tok@.len()) =~= tok@);
        return true;
    }
    let mut k: usize = start;
    while k <= end - n
        invariant
            start <= k,
            1 <= n <= end - start,
            end <= content@.len(),
            n == tok@.len(),
            forall|j: int|
                start <= j < k ==> #[trigger] content@.subrange(j, j + n) != tok@,
        decreases end - k + 1,
    {
        if token_at(content, k, tok) {
            return true;
        }
        k = k + 1;
    }
    assert forall|j: int| start <= j && j + n <= end implies #[trigger] content@.subrange(j, j + n) != tok@ by {
        assert(j < k);
    }
    false
}

/// Finds the quotes of a file's text and the encoding it declares.
pub fn index_content(content: &[u8]) -> (r: (Vec<QuoteIndex>, FileEncoding))
    ensures
        r.0@ == spans_of(content@),
        r.1 == encoding_of(content@),
{
    let rot_marker = rot13_marker_bytes();
    let plain = plain_marker_bytes();
    let n = content.len();
    let mut quotes: Vec<QuoteIndex> = Vec::new();
    let mut encoding = FileEncoding::Plain;
    let mut encoding_found = false;
    let mut open: Option<usize> = None;
    let mut pos: usize = 0;
    while pos < n
        invariant
            n == content@.len(),
            pos <= n,
            rot_marker@ == rot13_marker(),
            plain@ == plain_marker(),
            spans_of(content@) == quotes@ + spans_from(content@, pos as int, open),
            encoding_found ==> encoding == encoding_of(content@),
            !encoding_found ==> encoding == FileEncoding::Plain,
            !encoding_found ==> encoding_of(content@) == encoding_from(content@, pos as int),
            open matches Some(o) ==> o <= pos,
        decreases n - pos,
    {
        let e = find_line_end(content, pos);
        if !encoding_found {
            if has_token(content, pos, e, &rot_marker) {
                encoding = FileEncoding::Rot13;
                encoding_found = true;
            } else if has_token(content, pos, e, &plain) {
                encoding_found = true;
            }
        }
        if content[pos] == DELIMITER {
            let ghost before = quotes@;
            if let Some(o) = open {
                if o < pos {
                    quotes.push(QuoteIndex { offset: o as u64, length: pos - o });
                }
            }
            proof {
                assert(before + spans_from(content@, pos as int, open) =~= quotes@ + spans_from(
                    content@,
                    e as int,
                    Some(e),
                ));
            }
            open = Some(e);
        }
        pos = e;
    }
    (quotes, encoding)
}

/// `-`
pub const HYPHEN: u8 = 45;

/// `o`
pub const LOWER_O: u8 = 111;

/// Whether a name ends with the offensive suffix `-o`.
pub open spec fn has_offensive_suffix(name: Seq<u8>) -> bool {
    name.len() >= 2 && name[name.len() - 2] == HYPHEN && name[name.len() - 1] == LOWER_O
}

/// The category of a file from its path: offensive where the path ends with
/// `-o`, or where it could not be read as text; decorous otherwise.
pub open spec fn category_spec(path: Option<&str>) -> QuoteCategory {
    match path {
        Some(p) => if has_offensive_suffix(p.spec_bytes()) {
            QuoteCategory::Offensive
        } else {
            QuoteCategory::Decorous
        },
        None => QuoteCategory::Offensive,
    }
}

/// The category of a file from its path.
pub fn category_of_path(path: Option<&str>) -> (r: QuoteCategory)
    ensures
        r == category_spec(path),
{
    match path {
        None => QuoteCategory::Offensive,
        Some(p) => {
            let b = p.as_bytes();
            let n = b.len();
            if n >= 2 && b[n - 2] == HYPHEN && b[n - 1] == LOWER_O {
                QuoteCategory::Offensive
            } else {
                QuoteCategory::Decorous
            }
        },
    }
}

/// One indexed quote file: where its quotes lie, how they are stored, and its
/// category.
#[derive(Debug)]
pub struct QuoteFile {
    pub quotes: Vec<QuoteIndex>,
    pub encoding: FileEncoding,
    pub category: QuoteCategory,
}

impl QuoteFile {
    /// Indexes a file from its path (`None` where the path is not text) and
    /// its contents.
    pub fn index(path: Option<&str>, content: &[u8]) -> (r: QuoteFile)
        ensures
            r.quotes@ == spans_of(content@),
            r.encoding == encoding_of(content@),
            r.category == category_spec(path),
    {
        let category = category_of_path(path);
        let (quotes, encoding) = index_content(content);
        QuoteFile { quotes, encoding, category }
    }
}

} // verus!
