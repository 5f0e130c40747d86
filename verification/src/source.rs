//! The source text of one lexing session: the raw bytes plus the filename,
//! and the mapping from byte offsets to 1-based line numbers and columns.
//!
//! Lines are delimited by `\n`; a `\r` counts as ordinary line content. Every
//! line but possibly the last carries its terminating `\n`. After a final
//! `\n` the text has one more, empty, line, so that every offset up to and
//! including the text's length falls on some line.

use vstd::prelude::*;
use vstd::utf8::{decode_utf8, valid_utf8};

use crate::B_NL;

verus! {

/// The raw text being lexed, together with the name it is reported under in
/// diagnostics. The content is treated as immutable after construction.
pub struct Source {
    pub filename: String,
    pub content: Vec<u8>,
}

/// 1-based line number of the byte offset `off`: one more than the number of
/// `\n` bytes strictly before `off`.
pub open spec fn line_of(c: Seq<u8>, off: int) -> int
    decreases off,
{
    if off <= 0 {
        1
    } else {
        line_of(c, off - 1) + if c[off - 1] == B_NL {
            1int
        } else {
            0int
        }
    }
}

/// Column of the byte offset `off` within its line: the distance back to the
/// nearest preceding `\n` (or to the start of the text).
pub open spec fn col_of(c: Seq<u8>, off: int) -> int
    decreases off,
{
    if off <= 0 {
        0
    } else if c[off - 1] == B_NL {
        0
    } else {
        col_of(c, off - 1) + 1
    }
}

/// Number of lines of the text: the line that its very end falls on.
pub open spec fn line_count(c: Seq<u8>) -> int {
    line_of(c, c.len() as int)
}

/// Offset just past the line that starts at offset `i`: past the next `\n`,
/// or the end of the text if no `\n` follows.
pub open spec fn line_end_from(c: Seq<u8>, i: int) -> int
    decreases c.len() - i,
{
    if i < 0 || i >= c.len() {
        c.len() as int
    } else if c[i] == B_NL {
        i + 1
    } else {
        line_end_from(c, i + 1)
    }
}

/// Offset at which the 1-based line `k` starts.
pub open spec fn line_start(c: Seq<u8>, k: int) -> int
    decreases k,
{
    if k <= 1 {
        0
    } else {
        line_end_from(c, line_start(c, k - 1))
    }
}

/// The bytes of the 1-based line `k`, its `\n` terminator included.
pub open spec fn line_seq(c: Seq<u8>, k: int) -> Seq<u8> {
    c.subrange(line_start(c, k), line_end_from(c, line_start(c, k)))
}

impl Source {
    /// A copy of this source text.
    pub fn duplicate(&self) -> (r: Source)
        ensures
            r.filename@ == self.filename@,
            r.content@ == self.content@,
    {
        let content = slice_bytes(&self.content, 0, self.content.len());
        proof {
            assert(content@ =~= self.content@);
        }
        Source { filename: self.filename.clone(), content }
    }

    /// Walks the content byte by byte, counting `\n` bytes, until the given
    /// offset is reached; returns the 1-based line number of the offset and
    /// its column within that line.
    ///
    /// Offsets beyond the content length are a caller error and ruled out.
    pub fn lineno_from_offset(&self, offset: usize) -> (r: (usize, usize))
        requires
            offset <= self.content@.len(),
            offset < usize::MAX,
        ensures
            r.0 == line_of(self.content@, offset as int),
            r.1 == col_of(self.content@, offset as int),
    {
        let mut line: usize = 1;
        let mut col: usize = 0;
        let mut i: usize = 0;
        while i < offset
            invariant
                i <= offset <= self.content@.len(),
                offset < usize::MAX,
                line == line_of(self.content@, i as int),
                col == col_of(self.content@, i as int),
                1 <= line <= i + 1,
                col <= i,
            decreases offset - i,
        {
            if self.content[i] == B_NL {
                line = line + 1;
                col = 0;
            } else {
                col = col + 1;
            }
            i = i + 1;
        }
        (line, col)
    }

    /// Offset just past the line that starts at `from`: past the next `\n`,
    /// or the end of the content if no `\n` follows.
    pub fn line_end(&self, from: usize) -> (r: usize)
        requires
            from <= self.content@.len(),
        ensures
            r == line_end_from(self.content@, from as int),
            from <= r <= self.content@.len(),
    {
        let mut i: usize = from;
        loop
            invariant
                from <= i <= self.content@.len(),
                line_end_from(self.content@, from as int) == line_end_from(
                    self.content@,
                    i as int,
                ),
            decreases self.content@.len() - i,
        {
            if i == self.content.len() {
                return i;
            }
            if self.content[i] == B_NL {
                return i + 1;
            }
            i = i + 1;
        }
    }

    /// Start and end offsets of the 1-based line `k`. The end is just past
    /// the line's `\n` terminator, or the end of the content for the last
    /// line.
    pub fn line_span(&self, k: usize) -> (r: (usize, usize))
        requires
            1 <= k <= line_count(self.content@),
        ensures
            r.0 == line_start(self.content@, k as int),
            r.1 == line_end_from(self.content@, r.0 as int),
            r.0 <= r.1 <= self.content@.len(),
    {
        proof {
            lemma_line_start_in_range(self.content@, k as int);
        }
        let mut line: usize = 1;
        let mut s: usize = 0;
        while line < k
            invariant
                1 <= line <= k <= line_count(self.content@),
                s == line_start(self.content@, line as int),
                s <= self.content@.len(),
            decreases k - line,
        {
            s = self.line_end(s);
            line = line + 1;
            proof {
                lemma_line_start_in_range(self.content@, line as int);
            }
        }
        let e = self.line_end(s);
        (s, e)
    }

    /// Every line whose 1-based number lies in `[first, last]`, in order,
    /// each line carrying its own `\n` terminator. The result is never empty
    /// for a valid range; an empty result would mean an invalid range, which
    /// is ruled out here as a caller error.
    pub fn lines_from_linenos(&self, first: usize, last: usize) -> (r: Vec<String>)
        requires
            1 <= first <= last <= line_count(self.content@),
        ensures
            r@.len() == last - first + 1,
            forall|i: int|
                0 <= i < r@.len() ==> valid_utf8(line_seq(self.content@, first + i)) ==> r@[i]@
                    == decode_utf8(line_seq(self.content@, first + i)),
    {
        let mut lines: Vec<String> = Vec::new();
        let mut k: usize = first;
        let (mut s, mut e) = self.line_span(first);
        while k < last
            invariant
                1 <= first <= k <= last <= line_count(self.content@),
                s == line_start(self.content@, k as int),
                e == line_end_from(self.content@, s as int),
                s <= e <= self.content@.len(),
                lines@.len() == k - first,
                forall|i: int|
                    0 <= i < lines@.len() ==> valid_utf8(line_seq(self.content@, first + i))
                        ==> lines@[i]@ == decode_utf8(line_seq(self.content@, first + i)),
            decreases last - k,
        {
            let bytes = slice_bytes(&self.content, s, e);
            proof {
                assert(bytes@ == line_seq(self.content@, k as int));
            }
            lines.push(bytes_to_string_lossy(&bytes));
            k = k + 1;
            proof {
                lemma_line_start_in_range(self.content@, k as int);
                lemma_line_start_unfold(self.content@, k as int);
            }
            s = e;
            e = self.line_end(s);
        }
        let bytes = slice_bytes(&self.content, s, e);
        proof {
            assert(bytes@ == line_seq(self.content@, k as int));
        }
        lines.push(bytes_to_string_lossy(&bytes));
        lines
    }
}

/// The bytes of `v` from offset `s` up to, not including, offset `e`.
pub fn slice_bytes(v: &Vec<u8>, s: usize, e: usize) -> (r: Vec<u8>)
    requires
        s <= e <= v@.len(),
    ensures
        r@ == v@.subrange(s as int, e as int),
{
    let mut out: Vec<u8> = Vec::new();
    let mut i: usize = s;
    while i < e
        invariant
            s <= i <= e <= v@.len(),
            out@ == v@.subrange(s as int, i as int),
        decreases e - i,
    {
        let b = v[i];
        out.push(b);
        i = i + 1;
        proof {
            assert(out@ =~= v@.subrange(s as int, i as int));
        }
    }
    out
}

/// Relies on `String::from_utf8_lossy`: bytes that are valid UTF-8 decode to
/// exactly the characters they encode.
#[verifier::external_body]
fn bytes_to_string_lossy(v: &Vec<u8>) -> (r: String)
    ensures
        valid_utf8(v@) ==> r@ == decode_utf8(v@),
{
    String::from_utf8_lossy(v).into_owned()
}

/// The start of a valid line number lies within the content, and one
/// `line_end_from` step from it lands on the start of the next line.
pub proof fn lemma_line_start_in_range(c: Seq<u8>, k: int)
    requires
        1 <= k <= line_count(c),
    ensures
        0 <= line_start(c, k) <= c.len(),
    decreases k,
{
    if k > 1 {
        lemma_line_start_in_range(c, k - 1);
        lemma_line_end_bounds(c, line_start(c, k - 1));
    }
}

/// One `line_end_from` step from the start of a line lands on the start of
/// the next line.
pub proof fn lemma_line_start_unfold(c: Seq<u8>, k: int)
    requires
        k >= 2,
    ensures
        line_start(c, k) == line_end_from(c, line_start(c, k - 1)),
{
}

/// Line starts never lie before the start of the content.
pub proof fn lemma_line_start_nonneg(c: Seq<u8>, k: int)
    ensures
        line_start(c, k) >= 0,
    decreases k,
{
    if k > 1 {
        lemma_line_start_nonneg(c, k - 1);
        let s = line_start(c, k - 1);
        if s <= c.len() {
            lemma_line_end_bounds(c, s);
        }
    }
}

/// `line_end_from` stays within the content and never moves backwards.
pub proof fn lemma_line_end_bounds(c: Seq<u8>, i: int)
    requires
        0 <= i <= c.len(),
    ensures
        i <= line_end_from(c, i) <= c.len(),
    decreases c.len() - i,
{
    if i < c.len() && c[i] != B_NL {
        lemma_line_end_bounds(c, i + 1);
    }
}

} // verus!

verus! {

/// `line_end_from` is unchanged by skipping over bytes that are not `\n`.
pub proof fn lemma_line_end_skip(c: Seq<u8>, i: int, j: int)
    requires
        0 <= i <= j <= c.len(),
        forall|m: int| i <= m < j ==> c[m] != B_NL,
    ensures
        line_end_from(c, i) == line_end_from(c, j),
    decreases j - i,
{
    if i < j {
        lemma_line_end_skip(c, i + 1, j);
    }
}

/// Line numbers never decrease as the offset grows.
pub proof fn lemma_line_of_monotone(c: Seq<u8>, a: int, b: int)
    requires
        a <= b,
    ensures
        line_of(c, a) <= line_of(c, b),
    decreases b - a,
{
    if a < b {
        lemma_line_of_monotone(c, a, b - 1);
    }
}

/// An offset lies on its line: the line of `off` starts exactly `col_of`
/// bytes before it, and no `\n` stands between that start and `off`.
pub proof fn lemma_offset_in_line(c: Seq<u8>, off: int)
    requires
        0 <= off <= c.len(),
    ensures
        0 <= col_of(c, off) <= off,
        1 <= line_of(c, off),
        line_start(c, line_of(c, off)) == off - col_of(c, off),
        forall|j: int| off - col_of(c, off) <= j < off ==> c[j] != B_NL,
    decreases off,
{
    if off > 0 {
        lemma_offset_in_line(c, off - 1);
        let lp = line_of(c, off - 1);
        let sp = line_start(c, lp);
        if c[off - 1] == B_NL {
            lemma_line_end_skip(c, sp, off - 1);
            assert(line_end_from(c, off - 1) == off);
            lemma_line_start_unfold(c, lp + 1);
        }
    }
}

/// The whole of an offset's line lies within the content, and the offset
/// lies before its line's end.
pub proof fn lemma_offset_line_end(c: Seq<u8>, off: int)
    requires
        0 <= off <= c.len(),
    ensures
        off <= line_end_from(c, off - col_of(c, off)) <= c.len(),
{
    lemma_offset_in_line(c, off);
    lemma_line_end_skip(c, off - col_of(c, off), off);
    lemma_line_end_bounds(c, off);
}

} // verus!
