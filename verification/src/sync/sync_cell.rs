use vstd::prelude::*;

verus! {

/// The bit of the counter that marks a writer.
pub const BORROW_MUT_FLAG: u8 = 0x80;

/// The counter of a cell that many readers or one writer may borrow: the
/// number of readers in the low seven bits and the mark of a writer in the
/// top bit. The cell itself keeps the counter in an atomic and applies
/// these steps to it.
#[derive(Debug, Clone, Copy, PartialEq, Eq, Structural)]
pub struct SyncCellState {
    pub count: u8,
}

impl SyncCellState {
    /// Whether nobody holds the cell.
    pub open spec fn spec_is_free(self) -> bool {
        self.count == 0
    }

    /// Whether a writer is marked.
    pub open spec fn writer_marked(self) -> bool {
        self.count >= BORROW_MUT_FLAG
    }

    /// The number in the low seven bits.
    pub open spec fn readers(self) -> int {
        if self.count >= BORROW_MUT_FLAG {
            self.count - BORROW_MUT_FLAG
        } else {
            self.count as int
        }
    }

    /// The counter of a cell that nobody holds.
    pub fn new() -> (r: Self)
        ensures
            r.spec_is_free(),
    {
        SyncCellState { count: 0 }
    }

    /// Whether nobody holds the cell, so that its value may be taken out
    /// or reached without a borrow.
    #[verifier::when_used_as_spec(spec_is_free)]
    pub fn is_free(self) -> (r: bool)
        ensures
            r == self.spec_is_free(),
    {
        self.count == 0
    }

    /// A reader asks: the counter goes up by one, round the range of a
    /// byte, and the reader is let in if no writer was marked. A reader
    /// that is refused has still been counted.
    pub fn borrow(&mut self) -> (granted: bool)
        ensures
            granted == !old(self).writer_marked(),
            final(self).count == (if old(self).count == u8::MAX {
                0
            } else {
                old(self).count + 1
            }),
    {
        let before: u8 = self.count;
        self.count = if before == u8::MAX {
            0
        } else {
            before + 1
        };
        before < BORROW_MUT_FLAG
    }

    /// A writer asks: the mark is set, and the writer is let in if nobody
    /// held the cell. A writer that is refused leaves the mark behind.
    pub fn borrow_mut(&mut self) -> (granted: bool)
        ensures
            granted == old(self).spec_is_free(),
            final(self).writer_marked(),
            final(self).readers() == old(self).readers(),
    {
        let before: u8 = self.count;
        self.count = if before >= BORROW_MUT_FLAG {
            before
        } else {
            before + BORROW_MUT_FLAG
        };
        before == 0
    }

    /// A reader leaves: the counter goes down by one, round the range of a
    /// byte.
    pub fn release(&mut self)
        ensures
            final(self).count == (if old(self).count == 0 {
                u8::MAX
            } else {
                (old(self).count - 1) as u8
            }),
    {
        self.count = if self.count == 0 {
            u8::MAX
        } else {
            self.count - 1
        };
    }

    /// The writer leaves: nobody holds the cell.
    pub fn release_mut(&mut self)
        ensures
            final(self).spec_is_free(),
    {
        self.count = 0;
    }
}

} // verus!
