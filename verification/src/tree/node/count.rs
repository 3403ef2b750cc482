//! Text-line counting.
//!
//! A line is what `str::lines` would yield: lines are separated by `'\n'`,
//! and a trailing newline does not open a further, empty line. Since the
//! newline byte never occurs inside a multi-byte UTF-8 sequence, the count
//! can be taken over raw bytes.

use vstd::prelude::*;

verus! {

/// The newline byte.
pub const NEWLINE: u8 = 10;

/// How many newline bytes `s` holds.
pub open spec fn newline_count(s: Seq<u8>) -> int
    decreases s.len(),
{
    if s.len() == 0 {
        0
    } else {
        newline_count(s.drop_last()) + if s.last() == NEWLINE { 1int } else { 0int }
    }
}

/// How many text lines `s` holds: one per newline byte, plus one for a
/// final fragment not closed by a newline. The empty input has no lines.
pub open spec fn line_count_of(s: Seq<u8>) -> int {
    newline_count(s) + if s.len() > 0 && s.last() != NEWLINE { 1int } else { 0int }
}

/// A sequence cannot hold more newline bytes than its length.
proof fn lemma_newline_count_le(s: Seq<u8>)
    ensures
        0 <= newline_count(s) <= s.len(),
    decreases s.len(),
{
    if s.len() > 0 {
        lemma_newline_count_le(s.drop_last());
    }
}

/// Counts the text lines of `data`, as `str::lines` counts them on the
/// decoded text.
pub fn count_lines(data: &[u8]) -> (r: u64)
    ensures
        r == line_count_of(data@),
{
    let mut newlines: u64 = 0;
    let mut i: usize = 0;
    proof {
        assert(data@.take(0) =~= Seq::<u8>::empty());
    }
    while i < data.len()
        invariant
            0 <= i <= data@.len(),
            newlines == newline_count(data@.take(i as int)),
            newlines <= i,
        decreases data@.len() - i,
    {
        if data[i] == NEWLINE {
            newlines = newlines + 1;
        }
        i = i + 1;
        proof {
            assert(data@.take(i as int).drop_last() =~= data@.take(i as int - 1));
        }
    }
    proof {
        assert(data@.take(data@.len() as int) =~= data@);
    }
    if data.len() > 0 && data[data.len() - 1] != NEWLINE {
        proof {
            lemma_newline_count_le(data@.drop_last());
        }
        newlines + 1
    } else {
        newlines
    }
}

} // verus!
