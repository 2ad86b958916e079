//! Relative pointers: the position-independent half of a Reference.
//!
//! A `RelPtr` stores the signed distance in bytes from its own position to
//! its target's position. Because the distance is relative, the target
//! computation depends only on the pointer's own position and the stored
//! offset, never on where the surrounding buffer lives: relocating the whole
//! buffer leaves every `RelPtr` valid.

use vstd::prelude::*;

verus! {

/// A signed byte offset from the place a reference stands to its payload.
#[derive(Clone, Copy, Debug, Hash, PartialEq, Eq, Structural)]
pub struct RelPtr {
    pub offset: i64,
}

impl RelPtr {
    /// The stored relative offset.
    pub open spec fn spec_offset(&self) -> int {
        self.offset as int
    }

    /// The pointer holding `offset`, for use in specifications.
    pub open spec fn spec_make(offset: int) -> RelPtr {
        RelPtr { offset: offset as i64 }
    }

    /// The position this pointer targets when it stands at `pos`.
    pub open spec fn spec_target(&self, pos: int) -> int {
        pos + self.spec_offset()
    }

    /// Builds the pointer embedded at `from_pos` that targets `to_pos`.
    pub fn make(from_pos: usize, to_pos: usize) -> (r: RelPtr)
        requires
            from_pos <= i64::MAX,
            to_pos <= i64::MAX,
        ensures
            r.spec_offset() == to_pos - from_pos,
            r.spec_target(from_pos as int) == to_pos,
    {
        RelPtr { offset: to_pos as i64 - from_pos as i64 }
    }

    /// Recomputes the target position from the pointer's own position.
    pub fn target(&self, pos: usize) -> (t: usize)
        requires
            0 <= self.spec_target(pos as int) <= usize::MAX,
            i64::MIN < self.spec_offset(),
        ensures
            t == self.spec_target(pos as int),
    {
        if self.offset >= 0 {
            pos + (self.offset as usize)
        } else {
            pos - ((-self.offset) as usize)
        }
    }
}

/// A relative pointer is valid under relocation: made from `from_pos` to
/// `to_pos`, it resolves to `to_pos` again from any copy of the buffer,
/// since its target is a function of its own position and offset alone.
pub proof fn lemma_rel_ptr_position_independent(r: RelPtr, from_pos: usize, to_pos: usize)
    requires
        r.spec_offset() == to_pos - from_pos,
    ensures
        r.spec_target(from_pos as int) == to_pos,
{
}

} // verus!
