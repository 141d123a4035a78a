//! Conversion of flat character offsets into line/column positions over a
//! document's text, through a line-start index so that a query costs
//! O(log n) instead of a rescan of the whole document.

use vstd::prelude::*;

verus! {

/// A line/column position in a document, both zero-based. The column counts
/// characters from the start of the line.
#[derive(Clone, Copy, PartialEq, Eq, Structural, Debug)]
pub struct Position {
    pub line: usize,
    pub character: usize,
}

/// The offsets at which lines begin: offset 0, and the offset after every
/// newline character.
pub open spec fn spec_line_starts(text: Seq<char>) -> Seq<int>
    decreases text.len(),
{
    if text.len() == 0 {
        seq![0]
    } else if text.last() == '\n' {
        spec_line_starts(text.drop_last()) + seq![text.len() as int]
    } else {
        spec_line_starts(text.drop_last())
    }
}

/// The line that holds an offset: the largest index whose line start does
/// not exceed the offset.
pub open spec fn spec_line_of(starts: Seq<int>, off: int) -> int
    decreases starts.len(),
{
    if starts.len() <= 1 {
        0
    } else if starts.last() <= off {
        starts.len() - 1
    } else {
        spec_line_of(starts.drop_last(), off)
    }
}

/// What converting an offset yields: the containing line and the character
/// count from that line's start, or nothing when the offset lies beyond the
/// text's character range.
pub open spec fn spec_offset_to_position(text: Seq<char>, off: int) -> Option<Position> {
    if 0 <= off <= text.len() {
        let starts = spec_line_starts(text);
        let l = spec_line_of(starts, off);
        Some(Position { line: l as usize, character: (off - starts[l]) as usize })
    } else {
        None
    }
}

/// Line starts are non-empty, begin at 0, stay within the text, and increase
/// strictly.
pub proof fn lemma_line_starts_props(text: Seq<char>)
    ensures
        spec_line_starts(text).len() >= 1,
        spec_line_starts(text)[0] == 0,
        forall|j: int|
            0 <= j < spec_line_starts(text).len() ==> 0 <= #[trigger] spec_line_starts(text)[j]
                <= text.len(),
        forall|j1: int, j2: int|
            0 <= j1 < j2 < spec_line_starts(text).len() ==> spec_line_starts(text)[j1]
                < spec_line_starts(text)[j2],
    decreases text.len(),
{
    if text.len() == 0 {
    } else {
        lemma_line_starts_props(text.drop_last());
        assert(text.drop_last().len() == text.len() - 1);
    }
}

/// The largest index whose start does not exceed the offset is unique: any
/// index that bounds the offset from below, and whose successor (if any)
/// exceeds it, is the line of the offset.
pub proof fn lemma_line_of_unique(starts: Seq<int>, off: int, l: int)
    requires
        forall|j1: int, j2: int|
            0 <= j1 < j2 < starts.len() ==> starts[j1] < starts[j2],
        0 <= l < starts.len(),
        starts[l] <= off,
        l == starts.len() - 1 || starts[l + 1] > off,
    ensures
        l == spec_line_of(starts, off),
    decreases starts.len(),
{
    if starts.len() <= 1 {
    } else if starts.last() <= off {
        if l < starts.len() - 1 {
            assert(starts[l + 1] <= starts[starts.len() - 1]);
        }
    } else {
        assert(l != starts.len() - 1);
        lemma_line_of_unique(starts.drop_last(), off, l);
    }
}

/// A line-start index over one snapshot of a document's text.
pub struct LineIndex {
    /// The offsets at which lines begin, in increasing order.
    pub starts: Vec<usize>,
    /// The character length of the indexed text.
    pub text_len: usize,
    /// The indexed text itself, kept only for specification.
    pub text: Ghost<Seq<char>>,
}

impl LineIndex {
    /// The index matches the text it claims to index.
    pub open spec fn wf(self) -> bool {
        &&& self.text_len as int == self.text@.len()
        &&& self.starts@.len() == spec_line_starts(self.text@).len()
        &&& forall|j: int|
            0 <= j < self.starts@.len() ==> self.starts@[j] as int == #[trigger] spec_line_starts(
                self.text@,
            )[j]
    }

    /// Builds the line-start index of a text.
    pub fn new(text: &str) -> (r: LineIndex)
        ensures
            r.wf(),
            r.text@ == text@,
    {
        let n = text.unicode_len();
        let mut starts: Vec<usize> = Vec::new();
        starts.push(0);
        assert(text@.take(0) =~= Seq::<char>::empty());
        let mut i: usize = 0;
        while i < n
            invariant
                n as int == text@.len(),
                i <= n,
                starts@.len() == spec_line_starts(text@.take(i as int)).len(),
                forall|j: int|
                    0 <= j < starts@.len() ==> starts@[j] as int == #[trigger] spec_line_starts(
                        text@.take(i as int),
                    )[j],
            decreases n - i,
        {
            let c = text.get_char(i);
            proof {
                assert(text@.take(i + 1).drop_last() =~= text@.take(i as int));
                assert(text@.take(i + 1).last() == text@[i as int]);
            }
            if c == '\n' {
                starts.push(i + 1);
            }
            i = i + 1;
        }
        proof {
            assert(text@.take(n as int) =~= text@);
        }
        LineIndex { starts, text_len: n, text: Ghost(text@) }
    }

    /// The offset at which a line begins, or nothing when the text has no
    /// such line.
    pub fn line_to_offset(&self, line: usize) -> (r: Option<usize>)
        requires
            self.wf(),
        ensures
            match r {
                Some(o) => line < spec_line_starts(self.text@).len() && o as int
                    == spec_line_starts(self.text@)[line as int],
                None => line >= spec_line_starts(self.text@).len(),
            },
    {
        if line < self.starts.len() {
            Some(self.starts[line])
        } else {
            None
        }
    }

    /// Converts a flat character offset into a line/column position, or
    /// yields nothing when the offset lies beyond the indexed text.
    pub fn offset_to_position(&self, offset: usize) -> (r: Option<Position>)
        requires
            self.wf(),
        ensures
            r == spec_offset_to_position(self.text@, offset as int),
    {
        if offset > self.text_len {
            return None;
        }
        proof {
            lemma_line_starts_props(self.text@);
        }
        let ghost sstarts = spec_line_starts(self.text@);
        let mut lo: usize = 0;
        let mut hi: usize = self.starts.len() - 1;
        while lo < hi
            invariant
                self.wf(),
                sstarts == spec_line_starts(self.text@),
                self.starts@.len() == sstarts.len(),
                0 <= lo <= hi < self.starts@.len(),
                self.starts@[lo as int] <= offset,
                hi == self.starts@.len() - 1 || self.starts@[hi + 1] > offset,
            decreases hi - lo,
        {
            let mid = lo + 1 + (hi - lo - 1) / 2;
            if self.starts[mid] <= offset {
                lo = mid;
            } else {
                hi = mid - 1;
            }
        }
        proof {
            lemma_line_of_unique(sstarts, offset as int, lo as int);
        }
        let start = self.starts[lo];
        Some(Position { line: lo, character: offset - start })
    }
}

} // verus!
