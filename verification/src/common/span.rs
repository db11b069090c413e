use vstd::prelude::*;
use crate::text::{decimal, push_char, push_decimal};
use vstd::string::StringSliceAdditionalSpecFns;

verus! {

/// A line/column position in the source, both counted from 1.
#[derive(Debug, Clone, Copy, PartialEq, Eq, Structural)]
pub struct Pos {
    pub line: u32,
    pub column: u32,
}

/// A source region; `end` is exclusive.
#[derive(Debug, Clone, Copy, PartialEq, Eq, Structural)]
pub struct Span {
    pub start: Pos,
    pub end: Pos,
}

/// `line:column`
pub open spec fn pos_text(p: Pos) -> Seq<char> {
    decimal(p.line as nat) + seq![':'] + decimal(p.column as nat)
}

/// `line:column-column` for a span on one line, `line:column-line:column` otherwise.
pub open spec fn span_text(s: Span) -> Seq<char> {
    if s.start.line == s.end.line {
        pos_text(s.start) + seq!['-'] + decimal(s.end.column as nat)
    } else {
        pos_text(s.start) + seq!['-'] + pos_text(s.end)
    }
}

impl Pos {
    /// Renders the position as `line:column`.
    pub fn to_text(&self) -> (r: String)
        ensures
            r@ == pos_text(*self),
    {
        let mut s = String::new();
        self.push_text(&mut s);
        assert(s@ == pos_text(*self));
        s
    }

    fn push_text(&self, s: &mut String)
        ensures
            final(s)@ == old(s)@ + pos_text(*self),
    {
        push_decimal(s, self.line as u64);
        push_char(s, ':');
        push_decimal(s, self.column as u64);
        assert(final(s)@ == old(s)@ + pos_text(*self));
    }
}

impl Span {
    /// The span from the start of `self` to the end of `other`.
    pub fn to(self, other: Span) -> (r: Span)
        ensures
            r.start == self.start,
            r.end == other.end,
    {
        Span { start: self.start, end: other.end }
    }

    /// Renders the span as `line:column-column` when it stays on one line,
    /// `line:column-line:column` otherwise.
    pub fn to_text(&self) -> (r: String)
        ensures
            r@ == span_text(*self),
    {
        let mut s = String::new();
        self.start.push_text(&mut s);
        push_char(&mut s, '-');
        if self.start.line == self.end.line {
            push_decimal(&mut s, self.end.column as u64);
        } else {
            self.end.push_text(&mut s);
        }
        s
    }
}

/// The byte offsets at which the lines of `bytes` start: 0, and one past each `\n`.
pub open spec fn line_starts_of(bytes: Seq<u8>) -> Seq<usize>
    decreases bytes.len(),
{
    if bytes.len() == 0 {
        seq![0usize]
    } else if bytes.last() == 10 {
        line_starts_of(bytes.drop_last()).push(bytes.len() as usize)
    } else {
        line_starts_of(bytes.drop_last())
    }
}

/// How many of the line starts lie at or before `byte`.
pub open spec fn count_at_or_before(starts: Seq<usize>, byte: int) -> nat
    decreases starts.len(),
{
    if starts.len() == 0 {
        0
    } else {
        count_at_or_before(starts.drop_last(), byte) + if starts.last() <= byte { 1nat } else { 0nat }
    }
}

/// Line starts are well formed: the first is 0 and they strictly increase.
pub open spec fn starts_wf(starts: Seq<usize>) -> bool {
    &&& starts.len() > 0
    &&& starts[0] == 0
    &&& forall|i: int, j: int| 0 <= i < j < starts.len() ==> starts[i] < starts[j]
}

/// Index (from 0) of the line holding `byte`.
pub open spec fn line_index(starts: Seq<usize>, byte: int) -> int {
    count_at_or_before(starts, byte) - 1
}

/// The position of byte offset `byte`, given the line starts.
pub open spec fn pos_at(starts: Seq<usize>, byte: int) -> Pos {
    let k = line_index(starts, byte);
    Pos { line: (k + 1) as u32, column: (byte - starts[k] + 1) as u32 }
}

/// Converts byte offsets into line/column positions.
pub struct LineMap {
    line_starts: Vec<usize>,
}

impl View for LineMap {
    type V = Seq<usize>;

    closed spec fn view(&self) -> Seq<usize> {
        self.line_starts@
    }
}

proof fn lemma_line_starts_wf(bytes: Seq<u8>)
    requires
        bytes.len() <= usize::MAX,
    ensures
        starts_wf(line_starts_of(bytes)),
        forall|i: int| 0 <= i < line_starts_of(bytes).len() ==> line_starts_of(bytes)[i] <= bytes.len(),
    decreases bytes.len(),
{
    if bytes.len() > 0 {
        let prev = line_starts_of(bytes.drop_last());
        lemma_line_starts_wf(bytes.drop_last());
        if bytes.last() == 10 {
            let cur = prev.push(bytes.len() as usize);
            assert forall|i: int, j: int| 0 <= i < j < cur.len() implies cur[i] < cur[j] by {
                if j == cur.len() - 1 {
                    assert(cur[i] == prev[i]);
                }
            }
        }
    }
}

/// When the starts up to `m` are at or before `byte` and the rest after it,
/// exactly `m` of them are at or before it.
proof fn lemma_count_boundary(starts: Seq<usize>, byte: int, m: int)
    requires
        0 <= m <= starts.len(),
        forall|j: int| 0 <= j < m ==> starts[j] <= byte,
        forall|j: int| m <= j < starts.len() ==> starts[j] > byte,
    ensures
        count_at_or_before(starts, byte) == m,
    decreases starts.len(),
{
    if starts.len() > 0 {
        if m == starts.len() {
            lemma_count_boundary(starts.drop_last(), byte, m - 1);
        } else {
            lemma_count_boundary(starts.drop_last(), byte, m);
        }
    }
}

/// In well-formed line starts, the starts at or before `byte` come first.
proof fn lemma_count_prefix(starts: Seq<usize>, byte: int)
    requires
        forall|i: int, j: int| 0 <= i < j < starts.len() ==> starts[i] < starts[j],
    ensures
        count_at_or_before(starts, byte) <= starts.len(),
        forall|j: int| 0 <= j < count_at_or_before(starts, byte) ==> starts[j] <= byte,
        forall|j: int| count_at_or_before(starts, byte) <= j < starts.len() ==> starts[j] > byte,
    decreases starts.len(),
{
    if starts.len() > 0 {
        let s2 = starts.drop_last();
        lemma_count_prefix(s2, byte);
        let c = count_at_or_before(s2, byte);
        assert(forall|j: int| 0 <= j < s2.len() ==> s2[j] == starts[j]);
        if starts.last() <= byte {
            if c < s2.len() {
                assert(s2[c as int] < starts[starts.len() - 1]);
            }
            assert(c == s2.len());
        }
    }
}

/// The line of a byte offset exists, starts at or before it, and the next line starts after it.
pub proof fn lemma_line_index(starts: Seq<usize>, byte: int)
    requires
        starts_wf(starts),
        byte >= 0,
    ensures
        0 <= line_index(starts, byte) < starts.len(),
        starts[line_index(starts, byte)] <= byte,
        line_index(starts, byte) + 1 < starts.len() ==> byte < starts[line_index(starts, byte) + 1],
{
    lemma_count_prefix(starts, byte);
    assert(starts[0] <= byte);
}

impl LineMap {
    /// The line starts are well formed.
    pub open spec fn wf(&self) -> bool {
        starts_wf(self@)
    }

    /// Builds the line map of `src`.
    pub fn new(src: &str) -> (r: Self)
        ensures
            r@ == line_starts_of(src.spec_bytes()),
            r.wf(),
    {
        let bytes = src.as_bytes();
        let mut line_starts: Vec<usize> = Vec::new();
        line_starts.push(0);
        let mut i: usize = 0;
        while i < bytes.len()
            invariant
                i <= bytes@.len(),
                bytes@ == src.spec_bytes(),
                line_starts@ == line_starts_of(bytes@.subrange(0, i as int)),
            decreases bytes@.len() - i,
        {
            assert(bytes@.subrange(0, i + 1).drop_last() == bytes@.subrange(0, i as int));
            if bytes[i] == 10u8 {
                line_starts.push(i + 1);
            }
            i = i + 1;
        }
        assert(bytes@.subrange(0, i as int) == bytes@);
        proof { lemma_line_starts_wf(bytes@); }
        LineMap { line_starts }
    }

    /// The line and column of byte offset `byte`.
    pub fn pos(&self, byte: usize) -> (p: Pos)
        requires
            self.wf(),
            byte - self@[line_index(self@, byte as int)] < usize::MAX,
        ensures
            p == pos_at(self@, byte as int),
            0 <= line_index(self@, byte as int) < self@.len(),
            self@[line_index(self@, byte as int)] <= byte,
            line_index(self@, byte as int) + 1 < self@.len() ==> byte < self@[line_index(self@, byte as int) + 1],
    {
        let starts = &self.line_starts;
        // invariant: starts[..lo] <= byte < starts[hi..]
        let mut lo: usize = 1;
        let mut hi: usize = starts.len();
        while lo < hi
            invariant
                starts_wf(starts@),
                1 <= lo <= hi <= starts@.len(),
                forall|j: int| 0 <= j < lo ==> starts@[j] <= byte,
                forall|j: int| hi <= j < starts@.len() ==> starts@[j] > byte,
            decreases hi - lo,
        {
            let mid = lo + (hi - lo) / 2;
            if starts[mid] <= byte {
                lo = mid + 1;
            } else {
                hi = mid;
            }
        }
        proof { lemma_count_boundary(starts@, byte as int, lo as int); }
        let line = lo - 1;
        Pos { line: (line + 1) as u32, column: (byte - starts[line] + 1) as u32 }
    }

    /// The positions of the start and end of a byte range.
    pub fn span(&self, range: std::ops::Range<usize>) -> (s: Span)
        requires
            self.wf(),
            range.start - self@[line_index(self@, range.start as int)] < usize::MAX,
            range.end - self@[line_index(self@, range.end as int)] < usize::MAX,
        ensures
            s.start == pos_at(self@, range.start as int),
            s.end == pos_at(self@, range.end as int),
    {
        Span { start: self.pos(range.start), end: self.pos(range.end) }
    }
}

} // verus!
