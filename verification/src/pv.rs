//! Principal variation of a search node: its best line, built by prefixing a
//! move to the line of the child it leads to.

use vstd::prelude::*;
use vstd::slice::slice_subrange;
use crate::chess::ChessMove;

verus! {

/// Longest line a table holds.
pub const MAX_PLY: usize = 128;

/// A principal variation: a line of at most `MAX_PLY` moves.
pub struct PvTable {
    moves: Vec<Option<ChessMove>>,
    len: usize,
}

impl PvTable {
    /// All `MAX_PLY` move slots, including those past the end of the line.
    pub closed spec fn slots(&self) -> Seq<Option<ChessMove>> {
        self.moves@
    }

    /// Length of the line.
    pub closed spec fn spec_len(&self) -> nat {
        self.len as nat
    }

    /// The line.
    pub open spec fn spec_line(&self) -> Seq<Option<ChessMove>> {
        self.slots().subrange(0, self.spec_len() as int)
    }

    /// The table invariant: `MAX_PLY` slots and a line no longer than that.
    pub open spec fn wf(&self) -> bool {
        self.slots().len() == MAX_PLY && self.spec_len() <= MAX_PLY
    }

    /// An empty line.
    pub fn new() -> (r: PvTable)
        ensures
            r.wf(),
            r.spec_len() == 0,
            forall|i: int| 0 <= i < MAX_PLY ==> r.slots()[i] is None,
    {
        let mut moves: Vec<Option<ChessMove>> = Vec::new();
        let mut i: usize = 0;
        while i < MAX_PLY
            invariant
                i <= MAX_PLY,
                moves@.len() == i,
                forall|j: int| 0 <= j < i ==> moves@[j] is None,
            decreases MAX_PLY - i,
        {
            moves.push(None);
            i += 1;
        }
        PvTable { moves, len: 0 }
    }

    /// Empties the line (the slots keep their moves).
    pub fn clear(&mut self)
        ensures
            final(self).spec_len() == 0,
            final(self).slots() == old(self).slots(),
    {
        self.len = 0;
    }

    /// Makes this line `mv` followed by the child's line.
    pub fn add_child_to_parent(&mut self, mv: ChessMove, child: &PvTable)
        requires
            old(self).wf(),
            child.wf(),
            child.spec_len() < MAX_PLY,
        ensures
            final(self).wf(),
            final(self).spec_line() == seq![Some(mv)] + child.spec_line(),
            final(self).slots()[0] == Some(mv),
    {
        self.moves.set(0, Some(mv));
        let n = child.len;
        let mut i: usize = 0;
        while i < n
            invariant
                n == child.spec_len(),
                n < MAX_PLY,
                child.wf(),
                i <= n,
                self.moves@.len() == MAX_PLY,
                self.moves@[0] == Some(mv),
                forall|j: int| 0 <= j < i ==> self.moves@[j + 1] == child.slots()[j],
            decreases n - i,
        {
            self.moves.set(i + 1, child.moves[i]);
            i += 1;
        }
        self.len = n + 1;
        assert(self.spec_line() =~= seq![Some(mv)] + child.spec_line());
    }

    /// First move of the line (the first slot, whatever the line's length).
    pub fn best_move(&self) -> (r: Option<ChessMove>)
        requires
            self.wf(),
        ensures
            r == self.slots()[0],
    {
        self.moves[0]
    }

    /// The line.
    pub fn line(&self) -> (r: &[Option<ChessMove>])
        requires
            self.wf(),
        ensures
            r@ == self.spec_line(),
    {
        slice_subrange(self.moves.as_slice(), 0, self.len)
    }

    /// Length of the line.
    pub fn _len(&self) -> (r: usize)
        ensures
            r == self.spec_len(),
    {
        self.len
    }
}

} // verus!
