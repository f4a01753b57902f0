//! Source positions: byte spans and 1-based line/column positions.

use vstd::prelude::*;
use vstd::string::StringSliceAdditionalSpecFns;

verus! {

/// A byte range `[start, end)` of a source text.
#[derive(Clone, Copy, Debug, PartialEq, Eq, Structural)]
pub struct Span {
    pub start: u32,
    pub end: u32,
}

/// A 1-based line and column.
#[derive(Clone, Copy, Debug, PartialEq, Eq, Structural)]
pub struct Position {
    pub line: usize,
    pub column: usize,
}

/// The number of newline bytes in `b`.
pub open spec fn count_newlines(b: Seq<u8>) -> nat
    decreases b.len(),
{
    if b.len() == 0 {
        0
    } else {
        count_newlines(b.drop_last()) + if b.last() == 10u8 { 1nat } else { 0nat }
    }
}

/// The offset just past the last newline byte of `b` (0 where there is none).
pub open spec fn last_line_start(b: Seq<u8>) -> nat
    decreases b.len(),
{
    if b.len() == 0 {
        0
    } else if b.last() == 10u8 {
        b.len()
    } else {
        last_line_start(b.drop_last())
    }
}

/// The position of byte offset `o` (at most `b.len()`) in `b`: lines and columns count from 1,
/// columns in bytes.
pub open spec fn position_at(b: Seq<u8>, o: nat) -> Position
    recommends
        o <= b.len(),
{
    let prefix = b.take(o as int);
    Position {
        line: (1 + count_newlines(prefix)) as usize,
        column: (o - last_line_start(prefix) + 1) as usize,
    }
}

/// The number of lines of a text, as `str::lines` counts them: every newline ends a line, and
/// a last line without a newline counts when it is not empty.
pub open spec fn line_count(b: Seq<u8>) -> nat {
    count_newlines(b) + if last_line_start(b) < b.len() { 1nat } else { 0nat }
}

pub proof fn lemma_last_line_start_le(b: Seq<u8>)
    ensures
        last_line_start(b) <= b.len(),
        count_newlines(b) <= b.len(),
    decreases b.len(),
{
    if b.len() > 0 {
        lemma_last_line_start_le(b.drop_last());
    }
}

/// Maps byte offsets of one source text to lines and columns.
pub struct LineIndex {
    bytes: Vec<u8>,
}

impl LineIndex {
    #[verifier::type_invariant]
    closed spec fn fits(&self) -> bool {
        self.bytes@.len() < usize::MAX
    }

    /// The bytes of the text this index was built from.
    pub closed spec fn source(&self) -> Seq<u8> {
        self.bytes@
    }

    /// Builds the index of `source`.
    pub fn new(source: &str) -> (r: Self)
        requires
            source.spec_bytes().len() < usize::MAX,
        ensures
            r.source() == source.spec_bytes(),
    {
        let b = source.as_bytes();
        let mut bytes: Vec<u8> = Vec::new();
        let n = b.len();
        let mut i: usize = 0;
        while i < n
            invariant
                n == b@.len(),
                0 <= i <= n,
                bytes@ == b@.take(i as int),
            decreases n - i,
        {
            bytes.push(b[i]);
            i += 1;
            proof {
                assert(bytes@ =~= b@.take(i as int));
            }
        }
        proof {
            assert(bytes@ =~= b@);
        }
        LineIndex { bytes }
    }

    /// The position of byte offset `offset`; an offset past the end is taken as the end.
    pub fn position_at_offset(&self, offset: usize) -> (r: Position)
        ensures
            r == position_at(self.source(), if offset <= self.source().len() { offset as nat } else { self.source().len() }),
    {
        proof {
            use_type_invariant(self);
        }
        let n = self.bytes.len();
        let end = if offset <= n { offset } else { n };
        let mut line: usize = 1;
        let mut start: usize = 0;
        let mut i: usize = 0;
        while i < end
            invariant
                n == self.bytes@.len(),
                n < usize::MAX,
                end <= n,
                0 <= i <= end,
                line == 1 + count_newlines(self.bytes@.take(i as int)),
                start == last_line_start(self.bytes@.take(i as int)),
                start <= i,
                line <= i + 1,
            decreases end - i,
        {
            proof {
                assert(self.bytes@.take(i as int + 1).drop_last() =~= self.bytes@.take(i as int));
            }
            if self.bytes[i] == 10u8 {
                line = line + 1;
                start = i + 1;
            }
            i += 1;
        }
        proof {
            lemma_last_line_start_le(self.bytes@.take(end as int));
        }
        Position { line, column: end - start + 1 }
    }

    /// The position where `span` starts.
    pub fn position_for(&self, span: Span) -> (r: Position)
        ensures
            r == position_at(self.source(), if span.start as nat <= self.source().len() { span.start as nat } else { self.source().len() }),
    {
        self.position_at_offset(span.start as usize)
    }
}

/// The position where `span` starts in the text of `index` (its end where the span starts
/// beyond it).
pub open spec fn span_position(index: LineIndex, span: Span) -> Position {
    position_at(index.source(), if span.start as nat <= index.source().len() { span.start as nat } else { index.source().len() })
}

/// Lines and columns count from 1: every offset within a text has a line and a column of at
/// least 1, and an offset on the first line has line 1.
pub proof fn lemma_position_one_based(b: Seq<u8>, o: nat)
    requires
        o <= b.len(),
        b.len() < usize::MAX,
    ensures
        position_at(b, o).line >= 1,
        position_at(b, o).column >= 1,
        count_newlines(b.take(o as int)) == 0 ==> position_at(b, o).line == 1,
{
    lemma_last_line_start_le(b.take(o as int));
}

} // verus!
