//! Assembling a line of input from the chunks of bytes that were read.

use vstd::prelude::*;

verus! {

/// The byte that ends a line.
pub const NEWLINE: u8 = 10;

/// Number of bytes of `chunk` before its first newline; its length where it
/// holds none.
pub open spec fn before_newline(chunk: Seq<u8>) -> nat
    decreases chunk.len(),
{
    if chunk.len() > 0 && chunk[0] != NEWLINE {
        1 + before_newline(chunk.drop_first())
    } else {
        0
    }
}

/// Where the reading of a line stands after a chunk.
#[derive(Clone, Copy, Debug, PartialEq, Eq)]
pub enum Reading {
    /// The line goes on: read another chunk.
    More,
    /// The line is complete.
    Line,
    /// The input ended before any byte of a line.
    End,
}

/// Where the reading stands after `chunk` was read, `line` being the bytes of
/// the line that came before it. An empty chunk is the end of the input: it
/// completes a line that has begun. A newline completes the line, and what
/// follows it in the chunk is dropped.
pub open spec fn reading(line: Seq<u8>, chunk: Seq<u8>) -> Reading {
    if chunk.len() == 0 {
        if line.len() == 0 {
            Reading::End
        } else {
            Reading::Line
        }
    } else if before_newline(chunk) < chunk.len() {
        Reading::Line
    } else {
        Reading::More
    }
}

/// The count of bytes before the first newline is the position of that
/// newline.
proof fn lemma_before_newline(chunk: Seq<u8>, n: int)
    requires
        0 <= n <= chunk.len(),
        forall|k: int| 0 <= k < n ==> #[trigger] chunk[k] != NEWLINE,
        n == chunk.len() || chunk[n] == NEWLINE,
    ensures
        before_newline(chunk) == n,
    decreases n,
{
    if n > 0 {
        let rest = chunk.drop_first();
        assert forall|k: int| 0 <= k < n - 1 implies #[trigger] rest[k] != NEWLINE by {
            assert(rest[k] == chunk[k + 1]);
        }
        lemma_before_newline(rest, n - 1);
    }
}

/// Takes in one chunk of a line that is being read: appends to `line` the
/// bytes of `chunk` up to its first newline, and says where the reading
/// stands.
pub fn read_line_from_fd(line: &mut Vec<u8>, chunk: &[u8]) -> (r: Reading)
    ensures
        final(line)@ == old(line)@ + chunk@.take(before_newline(chunk@) as int),
        r == reading(old(line)@, chunk@),
{
    if chunk.len() == 0 {
        assert(chunk@.take(0) == Seq::<u8>::empty());
        assert(line@ + Seq::<u8>::empty() == line@);
        return if line.len() == 0 {
            Reading::End
        } else {
            Reading::Line
        };
    }
    let mut i: usize = 0;
    while i < chunk.len() && chunk[i] != NEWLINE
        invariant
            i <= chunk.len(),
            forall|k: int| 0 <= k < i ==> #[trigger] chunk@[k] != NEWLINE,
            line@ == old(line)@ + chunk@.take(i as int),
        decreases chunk.len() - i,
    {
        line.push(chunk[i]);
        assert(chunk@.take(i + 1) == chunk@.take(i as int).push(chunk@[i as int]));
        i += 1;
    }
    proof {
        lemma_before_newline(chunk@, i as int);
    }
    if i < chunk.len() {
        Reading::Line
    } else {
        Reading::More
    }
}

} // verus!
