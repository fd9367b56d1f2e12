//! The frame buffer: one contiguous byte arena cut into equal frames.
//!
//! The buffer knows nothing of pages; it hands out and overwrites the bytes
//! of a frame by its index.

use core::ops::Range;
use vstd::prelude::*;

use crate::definitions::PoolError;

verus! {

/// The byte that fills every frame of a new buffer.
pub const DEFAULT_BYTE: u8 = 0x00u8;

/// `frame` with the bytes from `offset` on replaced by `data`.
pub open spec fn splice(frame: Seq<u8>, offset: int, data: Seq<u8>) -> Seq<u8> {
    Seq::new(
        frame.len(),
        |i: int|
            if offset <= i < offset + data.len() {
                data[i - offset]
            } else {
                frame[i]
            },
    )
}

/// A frame of `size` bytes, each the default byte.
pub open spec fn blank_frame(size: nat) -> Seq<u8> {
    Seq::new(size, |i: int| DEFAULT_BYTE)
}

/// `count` blank frames of `size` bytes.
pub open spec fn blank_frames(size: nat, count: nat) -> Seq<Seq<u8>> {
    Seq::new(count, |i: int| blank_frame(size))
}

/// Where frame `index` lies in an arena of `count` frames of `size` bytes.
pub proof fn lemma_frame_span(index: int, count: int, size: int)
    requires
        0 <= index < count,
        0 < size,
    ensures
        0 <= index * size,
        (index + 1) * size == index * size + size,
        (index + 1) * size <= count * size,
{
    assert(0 <= index * size) by (nonlinear_arith)
        requires
            0 <= index,
            0 < size,
    ;
    assert((index + 1) * size == index * size + size) by (nonlinear_arith);
    assert((index + 1) * size <= count * size) by (nonlinear_arith)
        requires
            index + 1 <= count,
            0 < size,
    ;
}

/// Two different frames share no byte.
pub proof fn lemma_frames_apart(lower: int, upper: int, size: int)
    requires
        0 <= lower < upper,
        0 < size,
    ensures
        (lower + 1) * size <= upper * size,
{
    assert((lower + 1) * size <= upper * size) by (nonlinear_arith)
        requires
            lower + 1 <= upper,
            0 < size,
    ;
}

/// A fixed number of frames of one size, stored back to back.
#[derive(Debug)]
pub struct FrameBuffer {
    page_size: usize,
    entries_count: usize,
    buffer: Vec<u8>,
}

impl View for FrameBuffer {
    type V = Seq<Seq<u8>>;

    /// The frames in order of their index, each as its bytes.
    closed spec fn view(&self) -> Seq<Seq<u8>> {
        Seq::new(self.entries_count as nat, |i: int| self.frame_at(i))
    }
}

impl FrameBuffer {
    spec fn frame_at(&self, index: int) -> Seq<u8> {
        self.buffer@.subrange(index * self.page_size, (index + 1) * self.page_size)
    }

    /// The arena holds exactly `entries_count` frames of `page_size` bytes,
    /// and both numbers are positive.
    pub closed spec fn wf(&self) -> bool {
        &&& self.page_size > 0
        &&& self.entries_count > 0
        &&& self.entries_count * self.page_size <= usize::MAX
        &&& self.buffer@.len() == self.entries_count * self.page_size
    }

    /// Bytes per frame.
    pub closed spec fn spec_page_size(&self) -> usize {
        self.page_size
    }

    /// Number of frames.
    pub closed spec fn spec_entries_count(&self) -> usize {
        self.entries_count
    }

    /// Bytes per frame.
    #[verifier::when_used_as_spec(spec_page_size)]
    pub fn page_size(&self) -> (size: usize)
        ensures
            size == self.spec_page_size(),
    {
        self.page_size
    }

    /// Number of frames.
    #[verifier::when_used_as_spec(spec_entries_count)]
    pub fn entries_count(&self) -> (count: usize)
        ensures
            count == self.spec_entries_count(),
    {
        self.entries_count
    }

    /// The shape of a well-formed buffer's view.
    pub proof fn lemma_shape(&self)
        requires
            self.wf(),
        ensures
            self.page_size() > 0,
            self.entries_count() > 0,
            self@.len() == self.entries_count(),
            forall|i: int| 0 <= i < self@.len() ==> (#[trigger] self@[i]).len() == self.page_size(),
    {
        assert forall|i: int| 0 <= i < self@.len() implies (#[trigger] self@[i]).len()
            == self.page_size() by {
            lemma_frame_span(i, self.entries_count as int, self.page_size as int);
        }
    }

    /// A buffer of `entries_count` frames of `page_size` bytes, all blank.
    pub fn new(page_size: usize, entries_count: usize) -> (buffer: Self)
        requires
            page_size > 0,
            entries_count > 0,
            page_size * entries_count <= usize::MAX,
        ensures
            buffer.wf(),
            buffer.page_size() == page_size,
            buffer.entries_count() == entries_count,
            buffer@ == blank_frames(page_size as nat, entries_count as nat),
    {
        assert(entries_count * page_size == page_size * entries_count) by (nonlinear_arith);
        let total: usize = entries_count * page_size;
        let mut bytes: Vec<u8> = Vec::with_capacity(total);
        let mut filled: usize = 0;
        while filled < total
            invariant
                filled <= total,
                bytes@.len() == filled,
                forall|i: int| 0 <= i < filled ==> bytes@[i] == DEFAULT_BYTE,
            decreases total - filled,
        {
            bytes.push(DEFAULT_BYTE);
            filled = filled + 1;
        }
        let buffer = Self { page_size, entries_count, buffer: bytes };
        proof {
            assert forall|i: int| 0 <= i < entries_count implies #[trigger] buffer@[i]
                == blank_frame(page_size as nat) by {
                lemma_frame_span(i, entries_count as int, page_size as int);
            }
        }
        buffer
    }

    /// The byte range of frame `index` within the arena.
    pub fn get_range_to_next(&self, index: usize) -> (range: Range<usize>)
        requires
            self.wf(),
            index < self.entries_count(),
        ensures
            range.start == index * self.page_size(),
            range.end == (index + 1) * self.page_size(),
            range.start <= range.end,
            range.end <= self.entries_count() * self.page_size(),
    {
        proof {
            lemma_frame_span(index as int, self.entries_count as int, self.page_size as int);
        }
        (index * self.page_size)..((index + 1) * self.page_size)
    }

    /// The byte range of frame `index` from `offset` within the frame to the
    /// frame's end.
    pub fn get_frame_range(&self, index: usize, offset: usize) -> (range: Range<usize>)
        requires
            self.wf(),
            index < self.entries_count(),
            offset <= self.page_size(),
        ensures
            range.start == index * self.page_size() + offset,
            range.end == (index + 1) * self.page_size(),
            range.start <= range.end,
            range.end <= self.entries_count() * self.page_size(),
    {
        proof {
            lemma_frame_span(index as int, self.entries_count as int, self.page_size as int);
        }
        (index * self.page_size + offset)..((index + 1) * self.page_size)
    }

    /// The bytes of a frame that is known to exist.
    pub(crate) fn frame(&self, index: usize) -> (bytes: &[u8])
        requires
            self.wf(),
            index < self.entries_count(),
        ensures
            bytes@ == self@[index as int],
    {
        let range: Range<usize> = self.get_range_to_next(index);
        vstd::slice::slice_subrange(self.buffer.as_slice(), range.start, range.end)
    }

    /// The bytes of frame `index`.
    pub fn get_frame(&self, index: usize) -> (frame: Result<&[u8], PoolError>)
        requires
            self.wf(),
        ensures
            match frame {
                Ok(bytes) => index < self.entries_count() && bytes@ == self@[index as int],
                Err(error) => index >= self.entries_count() && error == PoolError::OutOfBounds,
            },
    {
        if index >= self.entries_count {
            return Err(PoolError::OutOfBounds);
        }
        Ok(self.frame(index))
    }

    /// The bytes of frame `index`, to be overwritten in place. As long as
    /// the frame keeps its length, which no write through the slice can
    /// change, the buffer stays well-formed and only this frame changes.
    pub fn get_frame_mut(&mut self, index: usize) -> (frame: Result<&mut [u8], PoolError>)
        requires
            old(self).wf(),
        ensures
            match frame {
                Ok(bytes) => {
                    &&& index < old(self).entries_count()
                    &&& bytes@ == old(self)@[index as int]
                    &&& final(bytes)@.len() == bytes@.len() ==> {
                        &&& final(self).wf()
                        &&& final(self).page_size() == old(self).page_size()
                        &&& final(self).entries_count() == old(self).entries_count()
                        &&& final(self)@ == old(self)@.update(index as int, final(bytes)@)
                    }
                },
                Err(error) => {
                    &&& index >= old(self).entries_count()
                    &&& error == PoolError::OutOfBounds
                    &&& *final(self) == *old(self)
                },
            },
    {
        if index >= self.entries_count {
            return Err(PoolError::OutOfBounds);
        }
        let range: Range<usize> = self.get_range_to_next(index);
        let size: usize = self.page_size;
        let ghost count = self.entries_count as int;
        proof {
            lemma_frame_span(index as int, count, size as int);
        }
        let (_, rest) = self.buffer.as_mut_slice().split_at_mut(range.start);
        let (frame, _) = rest.split_at_mut(size);
        proof {
            let renewed = FrameBuffer {
                page_size: size,
                entries_count: old(self).entries_count,
                buffer: after_borrow(self.buffer),
            };
            assert forall|i: int|
                final(frame)@.len() == frame@.len() && 0 <= i < count implies #[trigger] renewed@[i]
                == old(self)@.update(index as int, final(frame)@)[i] by {
                lemma_frame_span(i, count, size as int);
                if i < index {
                    lemma_frames_apart(i, index as int, size as int);
                } else if i > index {
                    lemma_frames_apart(index as int, i, size as int);
                }
            }
        }
        Ok(frame)
    }

    /// Overwrites bytes of a frame that is known to exist and to have room
    /// for them.
    pub(crate) fn store(&mut self, index: usize, offset: usize, data: &[u8])
        requires
            old(self).wf(),
            index < old(self).entries_count(),
            offset + data@.len() <= old(self).page_size(),
        ensures
            final(self).wf(),
            final(self).page_size() == old(self).page_size(),
            final(self).entries_count() == old(self).entries_count(),
            final(self)@ == old(self)@.update(
                index as int,
                splice(old(self)@[index as int], offset as int, data@),
            ),
    {
        let range: Range<usize> = self.get_frame_range(index, offset);
        let start: usize = range.start;
        let length: usize = data.len();
        let mut copied: usize = 0;
        proof {
            lemma_frame_span(index as int, self.entries_count as int, self.page_size as int);
        }
        while copied < length
            invariant
                copied <= length,
                length == data@.len(),
                start + length <= self.buffer@.len() <= usize::MAX,
                self.buffer@.len() == old(self).buffer@.len(),
                self.page_size == old(self).page_size,
                self.entries_count == old(self).entries_count,
                forall|i: int|
                    0 <= i < self.buffer@.len() ==> self.buffer@[i] == (if start <= i < start
                        + copied {
                        data@[i - start]
                    } else {
                        old(self).buffer@[i]
                    }),
            decreases length - copied,
        {
            self.buffer.set(start + copied, data[copied]);
            copied = copied + 1;
        }
        proof {
            let size = self.page_size as int;
            let count = self.entries_count as int;
            let target = splice(old(self)@[index as int], offset as int, data@);
            assert forall|i: int| 0 <= i < count implies #[trigger] self@[i] == old(self)@.update(
                index as int,
                target,
            )[i] by {
                lemma_frame_span(i, count, size);
                if i < index {
                    lemma_frames_apart(i, index as int, size);
                } else if i > index {
                    lemma_frames_apart(index as int, i, size);
                }
            }
        }
    }

    /// Overwrites the bytes of frame `index` from `offset` on with `data`.
    /// Nothing is written unless the frame exists and the bytes fit it.
    pub fn write_frame(&mut self, index: usize, offset: usize, data: &[u8]) -> (outcome: Result<
        (),
        PoolError,
    >)
        requires
            old(self).wf(),
        ensures
            final(self).wf(),
            final(self).page_size() == old(self).page_size(),
            final(self).entries_count() == old(self).entries_count(),
            match outcome {
                Ok(()) => {
                    &&& index < old(self).entries_count()
                    &&& offset + data@.len() <= old(self).page_size()
                    &&& final(self)@ == old(self)@.update(
                        index as int,
                        splice(old(self)@[index as int], offset as int, data@),
                    )
                },
                Err(error) => {
                    &&& final(self)@ == old(self)@
                    &&& index >= old(self).entries_count() || offset + data@.len() > old(
                        self,
                    ).page_size()
                    &&& error == (if index >= old(self).entries_count() {
                        PoolError::OutOfBounds
                    } else {
                        PoolError::OutOfRange
                    })
                },
            },
    {
        if index >= self.entries_count {
            return Err(PoolError::OutOfBounds);
        }
        if offset > self.page_size || data.len() > self.page_size - offset {
            return Err(PoolError::OutOfRange);
        }
        self.store(index, offset, data);
        Ok(())
    }

    /// Replaces the whole of frame `index` by `data`, which must be exactly
    /// one page long.
    pub fn safe_load_page(&mut self, index: usize, data: &[u8]) -> (outcome: Result<(), PoolError>)
        requires
            old(self).wf(),
        ensures
            final(self).wf(),
            final(self).page_size() == old(self).page_size(),
            final(self).entries_count() == old(self).entries_count(),
            match outcome {
                Ok(()) => {
                    &&& index < old(self).entries_count()
                    &&& data@.len() == old(self).page_size()
                    &&& final(self)@ == old(self)@.update(index as int, data@)
                },
                Err(error) => {
                    &&& final(self)@ == old(self)@
                    &&& index >= old(self).entries_count() || data@.len() != old(self).page_size()
                    &&& error == (if index >= old(self).entries_count() {
                        PoolError::OutOfBounds
                    } else {
                        PoolError::OutOfRange
                    })
                },
            },
    {
        if index >= self.entries_count {
            return Err(PoolError::OutOfBounds);
        }
        if data.len() != self.page_size {
            return Err(PoolError::OutOfRange);
        }
        proof {
            self.lemma_shape();
            assert(splice(self@[index as int], 0, data@) =~= data@);
        }
        self.store(index, 0, data);
        Ok(())
    }

    /// Resets every byte of frame `index` to the default byte.
    pub fn clear_page(&mut self, index: usize) -> (outcome: Result<(), PoolError>)
        requires
            old(self).wf(),
        ensures
            final(self).wf(),
            final(self).page_size() == old(self).page_size(),
            final(self).entries_count() == old(self).entries_count(),
            match outcome {
                Ok(()) => {
                    &&& index < old(self).entries_count()
                    &&& final(self)@ == old(self)@.update(
                        index as int,
                        blank_frame(old(self).page_size() as nat),
                    )
                },
                Err(error) => {
                    &&& final(self)@ == old(self)@
                    &&& index >= old(self).entries_count()
                    &&& error == PoolError::OutOfBounds
                },
            },
    {
        if index >= self.entries_count {
            return Err(PoolError::OutOfBounds);
        }
        let range: Range<usize> = self.get_range_to_next(index);
        let start: usize = range.start;
        let end: usize = range.end;
        let mut at: usize = start;
        while at < end
            invariant
                start <= at <= end,
                end <= self.buffer@.len(),
                self.buffer@.len() == old(self).buffer@.len(),
                self.page_size == old(self).page_size,
                self.entries_count == old(self).entries_count,
                forall|i: int|
                    0 <= i < self.buffer@.len() ==> self.buffer@[i] == (if start <= i < at {
                        DEFAULT_BYTE
                    } else {
                        old(self).buffer@[i]
                    }),
            decreases end - at,
        {
            self.buffer.set(at, DEFAULT_BYTE);
            at = at + 1;
        }
        proof {
            let size = self.page_size as int;
            let count = self.entries_count as int;
            let target = blank_frame(self.page_size as nat);
            assert forall|i: int| 0 <= i < count implies #[trigger] self@[i] == old(self)@.update(
                index as int,
                target,
            )[i] by {
                lemma_frame_span(i, count, size);
                if i < index {
                    lemma_frames_apart(i, index as int, size);
                } else if i > index {
                    lemma_frames_apart(index as int, i, size);
                }
            }
        }
        Ok(())
    }
}

} // verus!
