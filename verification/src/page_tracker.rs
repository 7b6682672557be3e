//! Bit-per-page used/free tracking over physical RAM. Bit `i` is true exactly
//! when page `i` is allocated or reserved.
use vstd::prelude::*;
use crate::bits::BitSet;
use crate::bits::spec_bits;

verus! {

#[derive(Clone, Copy, Debug)]
pub enum PageTrackerError {
    NotFound,
    TrackerSizeCannotBeShrunk,
}

/// A window of `count` pages starting at `i` that are all free in `s`.
pub open spec fn spec_window_free(s: Seq<bool>, i: int, count: int) -> bool {
    &&& i + count <= s.len()
    &&& forall|j: int| i <= j < i + count ==> !s[j]
}

/// A growable bit sequence indexed by page number.
pub struct PageTracker {
    data: BitSet,
}

impl View for PageTracker {
    type V = Seq<bool>;

    closed spec fn view(&self) -> Seq<bool> {
        spec_bits(self.data)
    }
}

impl PageTracker {
    /// A tracker covering `length` pages, all initially free.
    pub fn new(length: usize) -> (r: PageTracker)
        ensures
            r@.len() == length,
            forall|i: int| 0 <= i < length ==> !r@[i],
    {
        let mut data = BitSet::new();
        data.resize(length, false);
        PageTracker { data }
    }

    /// How many pages the tracker covers.
    pub fn len(&self) -> (r: usize)
        ensures
            r == self@.len(),
    {
        self.data.len()
    }

    /// Grow-only resize; new pages start free. Shrinking is refused and
    /// leaves the tracker untouched.
    pub fn resize(&mut self, length: usize) -> (r: Result<(), PageTrackerError>)
        ensures
            match r {
                Ok(()) => {
                    &&& length >= old(self)@.len()
                    &&& final(self)@.len() == length
                    &&& forall|i: int| 0 <= i < old(self)@.len() ==> final(self)@[i] == old(self)@[i]
                    &&& forall|i: int| old(self)@.len() <= i < length ==> !final(self)@[i]
                },
                Err(PageTrackerError::TrackerSizeCannotBeShrunk) => {
                    &&& length < old(self)@.len()
                    &&& final(self)@ == old(self)@
                },
                Err(PageTrackerError::NotFound) => false,
            },
    {
        if length < self.data.len() {
            return Err(PageTrackerError::TrackerSizeCannotBeShrunk);
        } else if length == self.data.len() {
            return Ok(());
        }
        self.data.resize(length, false);
        Ok(())
    }

    /// Whether page `index` is allocated or reserved. Pages beyond the
    /// tracked length read as free.
    pub fn is_used(&self, index: usize) -> (r: bool)
        ensures
            r == (index < self@.len() && self@[index as int]),
    {
        self.data.len() > index && self.data.get(index)
    }

    /// Set the used bit of page `index`; fails on pages out of range.
    pub fn set_state(&mut self, index: usize, state: bool) -> (r: Result<(), PageTrackerError>)
        ensures
            match r {
                Ok(()) => {
                    &&& index < old(self)@.len()
                    &&& final(self)@ == old(self)@.update(index as int, state)
                },
                Err(PageTrackerError::NotFound) => {
                    &&& index >= old(self)@.len()
                    &&& final(self)@ == old(self)@
                },
                Err(PageTrackerError::TrackerSizeCannotBeShrunk) => false,
            },
    {
        if self.data.len() <= index {
            return Err(PageTrackerError::NotFound);
        }
        self.data.set(index, state);
        Ok(())
    }

    /// Mark page `index` allocated-or-reserved.
    pub fn reserve(&mut self, index: usize) -> (r: Result<(), PageTrackerError>)
        ensures
            match r {
                Ok(()) => {
                    &&& index < old(self)@.len()
                    &&& final(self)@ == old(self)@.update(index as int, true)
                },
                Err(PageTrackerError::NotFound) => {
                    &&& index >= old(self)@.len()
                    &&& final(self)@ == old(self)@
                },
                Err(PageTrackerError::TrackerSizeCannotBeShrunk) => false,
            },
    {
        self.set_state(index, true)
    }

    /// Mark page `index` free.
    pub fn free(&mut self, index: usize) -> (r: Result<(), PageTrackerError>)
        ensures
            match r {
                Ok(()) => {
                    &&& index < old(self)@.len()
                    &&& final(self)@ == old(self)@.update(index as int, false)
                },
                Err(PageTrackerError::NotFound) => {
                    &&& index >= old(self)@.len()
                    &&& final(self)@ == old(self)@
                },
                Err(PageTrackerError::TrackerSizeCannotBeShrunk) => false,
            },
    {
        self.set_state(index, false)
    }

    /// Mark pages `[index, index + count)` allocated-or-reserved. Fails when
    /// the range runs past the tracked length; the pages up to that length
    /// have then already been marked, as in-order marking leaves them.
    pub fn reserve_range(&mut self, index: usize, count: usize) -> (r: Result<
        (),
        PageTrackerError,
    >)
        requires
            index + count <= usize::MAX,
        ensures
            final(self)@.len() == old(self)@.len(),
            forall|j: int|
                0 <= j < final(self)@.len() ==> final(self)@[j] == (old(self)@[j] || (index <= j
                    < index + count)),
            r is Ok <==> (count == 0 || index + count <= old(self)@.len()),
            r is Err ==> r == Err::<(), PageTrackerError>(PageTrackerError::NotFound),
    {
        let mut i: usize = index;
        while i < index + count
            invariant
                index <= i <= index + count,
                index + count <= usize::MAX,
                self@.len() == old(self)@.len(),
                forall|j: int|
                    0 <= j < old(self)@.len() ==> self@[j] == (old(self)@[j] || (index <= j < i)),
                i > index ==> i <= old(self)@.len(),
            decreases index + count - i,
        {
            match self.reserve(i) {
                Ok(()) => {},
                Err(e) => {
                    return Err(e);
                },
            }
            i = i + 1;
        }
        Ok(())
    }

    /// Mark pages `[index, index + count)` free. Fails when the range runs
    /// past the tracked length; the pages up to that length have then
    /// already been freed.
    pub fn free_range(&mut self, index: usize, count: usize) -> (r: Result<(), PageTrackerError>)
        requires
            index + count <= usize::MAX,
        ensures
            final(self)@.len() == old(self)@.len(),
            forall|j: int|
                0 <= j < final(self)@.len() ==> final(self)@[j] == (old(self)@[j] && !(index <= j
                    < index + count)),
            r is Ok <==> (count == 0 || index + count <= old(self)@.len()),
            r is Err ==> r == Err::<(), PageTrackerError>(PageTrackerError::NotFound),
    {
        let mut i: usize = index;
        while i < index + count
            invariant
                index <= i <= index + count,
                index + count <= usize::MAX,
                self@.len() == old(self)@.len(),
                forall|j: int|
                    0 <= j < old(self)@.len() ==> self@[j] == (old(self)@[j] && !(index <= j < i)),
                i > index ==> i <= old(self)@.len(),
            decreases index + count - i,
        {
            match self.free(i) {
                Ok(()) => {},
                Err(e) => {
                    return Err(e);
                },
            }
            i = i + 1;
        }
        Ok(())
    }

    /// Find the lowest start of `count` consecutive free pages at or after
    /// `start_index`. The scan begins at the first free page and, on hitting
    /// a used page inside a window, restarts the window past it, never
    /// backtracking.
    pub fn find_free_range(&self, start_index: usize, count: usize) -> (r: Result<
        usize,
        PageTrackerError,
    >)
        ensures
            match r {
                Ok(i) => {
                    &&& start_index <= i
                    &&& i <= start_index || i < self@.len()
                    &&& count > 0 ==> spec_window_free(self@, i as int, count as int)
                    &&& count > 0 ==> forall|i2: int|
                        start_index <= i2 < i ==> !spec_window_free(self@, i2, count as int)
                },
                Err(PageTrackerError::NotFound) => {
                    &&& count > 0 ==> forall|i2: int|
                        i2 >= start_index ==> !spec_window_free(self@, i2, count as int)
                    &&& count == 0 ==> forall|j: int| 0 <= j < self@.len() ==> self@[j]
                },
                Err(PageTrackerError::TrackerSizeCannotBeShrunk) => false,
            },
    {
        let len = self.data.len();
        let first_zero = match self.data.first_zero() {
            Some(idx) => idx,
            None => {
                proof {
                    assert forall|i2: int| count > 0 && i2 >= start_index implies !spec_window_free(
                        self@,
                        i2,
                        count as int,
                    ) by {
                        if spec_window_free(self@, i2, count as int) {
                            assert(!self@[i2]);
                        }
                    }
                }
                return Err(PageTrackerError::NotFound);
            },
        };
        let mut start: usize = if first_zero > start_index {
            first_zero
        } else {
            start_index
        };
        let ghost lower = start as int;
        proof {
            // Every window starting before `start` overlaps the all-used
            // prefix below the first free page.
            assert forall|i2: int| count > 0 && start_index <= i2 < lower implies !spec_window_free(
                self@,
                i2,
                count as int,
            ) by {
                if spec_window_free(self@, i2, count as int) {
                    assert(!self@[i2]);
                }
            }
        }
        let mut end: usize = start;
        while start < len && end < len && (end - start) < count
            invariant
                len == self@.len(),
                start_index <= start,
                lower <= start,
                lower <= start_index || lower < len,
                count == 0 ==> start == lower,
                start <= end,
                end <= len || end == start,
                end - start <= count,
                forall|j: int| start <= j < end ==> !self@[j],
                count > 0 ==> forall|i2: int|
                    start_index <= i2 < start ==> !spec_window_free(self@, i2, count as int),
            decreases 2 * len - end - start,
        {
            if self.data.get(end) || self.data.get(start) {
                proof {
                    // A used page at `end` (or at a one-page window's start)
                    // kills every window that begins in `[start, end]`.
                    assert forall|i2: int| count > 0 && start <= i2 <= end implies !spec_window_free(
                        self@,
                        i2,
                        count as int,
                    ) by {
                        if spec_window_free(self@, i2, count as int) {
                            if self@[end as int] {
                                assert(i2 <= end < i2 + count);
                                assert(!self@[end as int]);
                            } else {
                                assert(self@[start as int]);
                                if start < end {
                                    assert(!self@[start as int]);
                                }
                                assert(i2 == start);
                                assert(!self@[i2]);
                            }
                        }
                    }
                }
                end = end + 1;
                start = end;
            } else {
                end = end + 1;
            }
        }

        if end - start < count {
            proof {
                assert forall|i2: int| count > 0 && i2 >= start_index implies !spec_window_free(
                    self@,
                    i2,
                    count as int,
                ) by {
                    if spec_window_free(self@, i2, count as int) {
                        if i2 >= start {
                            // Any window from `start` on would run past the
                            // tracked length: the loop stopped with fewer
                            // than `count` clean pages before `len`.
                            assert(i2 + count > end);
                            assert(i2 + count > len);
                        }
                    }
                }
            }
            return Err(PageTrackerError::NotFound);
        }
        Ok(start)
    }

    /// Find the lowest free page at or after `start_index`.
    pub fn find_free(&self, start_index: usize) -> (r: Result<usize, PageTrackerError>)
        ensures
            match r {
                Ok(i) => {
                    &&& start_index <= i < self@.len()
                    &&& !self@[i as int]
                    &&& forall|j: int| start_index <= j < i ==> self@[j]
                },
                Err(PageTrackerError::NotFound) => forall|j: int|
                    start_index <= j < self@.len() ==> self@[j],
                Err(PageTrackerError::TrackerSizeCannotBeShrunk) => false,
            },
    {
        let len = self.data.len();
        let first_zero = match self.data.first_zero() {
            Some(idx) => idx,
            None => {
                return Err(PageTrackerError::NotFound);
            },
        };
        let mut start: usize = if first_zero > start_index {
            first_zero
        } else {
            start_index
        };
        while start < len
            invariant
                len == self@.len(),
                start_index <= start,
                forall|j: int| start_index <= j < start ==> self@[j],
            decreases len - start,
        {
            if !self.data.get(start) {
                return Ok(start);
            }
            start = start + 1;
        }
        Err(PageTrackerError::NotFound)
    }
}

} // verus!
