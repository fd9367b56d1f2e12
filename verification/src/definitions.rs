//! Identifiers, the read-only page view and the outcomes shared by every
//! component.

use vstd::prelude::*;

verus! {

/// Opaque name of a table (and of the file that backs it).
#[derive(PartialEq, Eq, Hash, Debug)]
pub struct TableId(pub String);

/// Number of a page within its table.
#[derive(Clone, Copy, PartialEq, Eq, Hash, Debug)]
pub struct PageId(pub usize);

/// A page of a table: what a pool is asked for.
pub type BufferPoolKey = (TableId, PageId);

/// A page key as contracts see it: the table's name and the page number.
pub type PageKeyView = (Seq<char>, usize);

impl View for TableId {
    type V = Seq<char>;

    open spec fn view(&self) -> Seq<char> {
        self.0@
    }
}

impl View for PageId {
    type V = usize;

    open spec fn view(&self) -> usize {
        self.0
    }
}

impl Clone for TableId {
    fn clone(&self) -> (copy: Self)
        ensures
            copy == *self,
    {
        TableId(self.0.clone())
    }
}

impl TableId {
    /// Whether two identifiers name the same table.
    pub fn same_table(&self, other: &TableId) -> (same: bool)
        ensures
            same == (self@ == other@),
    {
        self.0 == other.0
    }
}

/// An independent copy of a page key.
pub fn clone_key(id: &BufferPoolKey) -> (copy: BufferPoolKey)
    ensures
        copy == *id,
{
    (id.0.clone(), id.1)
}

/// Whether a cached page has been changed since it was last persisted.
#[derive(Clone, Copy, PartialEq, Eq, Debug, Structural)]
pub enum PageState {
    Clean,
    Dirty,
}

/// Why a pool operation did not take place. The pool is left as it was
/// whenever one of these is returned.
#[derive(Clone, Copy, PartialEq, Eq, Debug, Structural)]
pub enum PoolError {
    /// The page is not cached.
    NotResident,
    /// The page is not cached and storage has never held it.
    NotFound,
    /// A byte range does not fit the page.
    OutOfRange,
    /// A frame index is not below the number of frames.
    OutOfBounds,
    /// A count that is already zero was to be decremented.
    Underflow,
    /// A count that is already at the largest machine value was to be
    /// incremented.
    Overflow,
    /// Every cached page is pinned, so no frame can be reclaimed.
    PoolExhausted,
    /// The frame is held by readers or pinned; the caller is to wait until
    /// they have let go and try again.
    Busy,
    /// The storage handler failed to persist a dirty page.
    IoFailure,
}

/// Why a manager operation did not take place.
#[derive(Clone, Copy, PartialEq, Eq, Debug, Structural)]
pub enum ManagerError {
    /// A pool is already registered for the table.
    CreateConflict,
    /// No pool is registered for the table and none serves as default.
    NotFound,
}

/// Bytes of one page, borrowed from whoever holds them.
#[derive(Debug)]
pub struct Page<'a> {
    pub size: usize,
    pub data: &'a [u8],
}

impl<'a> View for Page<'a> {
    type V = Seq<u8>;

    open spec fn view(&self) -> Seq<u8> {
        self.data@
    }
}

impl<'a> Page<'a> {
    /// A page holds exactly `size` bytes, and at least one.
    pub open spec fn wf(&self) -> bool {
        &&& self.size > 0
        &&& self.data@.len() == self.size
    }

    /// A page over `data`, which must hold exactly `size` bytes, and at
    /// least one.
    pub fn new(size: usize, data: &'a [u8]) -> (page: Self)
        requires
            size > 0,
            data@.len() == size,
        ensures
            page.wf(),
            page.size == size,
            page@ == data@,
    {
        Self { size, data }
    }

    /// The byte at `index`, or nothing at or beyond the page's size.
    pub fn index(&self, index: usize) -> (byte: Option<u8>)
        requires
            self.wf(),
        ensures
            byte == (if index < self.size {
                Some(self@[index as int])
            } else {
                None
            }),
    {
        if index >= self.size {
            None
        } else {
            Some(self.data[index])
        }
    }

    /// A cursor that yields the page's bytes from the first to the last.
    pub fn iter(&self) -> (cursor: PageIterator<'_>)
        requires
            self.wf(),
        ensures
            cursor.wf(),
            cursor.position() == 0,
            cursor.bytes() == self@,
    {
        PageIterator { current: 0, page: self }
    }
}

/// A cursor over the bytes of a page.
#[derive(Debug)]
pub struct PageIterator<'a> {
    current: usize,
    page: &'a Page<'a>,
}

impl<'a> PageIterator<'a> {
    /// The cursor stands within its page or at its end.
    pub closed spec fn wf(&self) -> bool {
        &&& self.page.wf()
        &&& self.current <= self.page.size
    }

    /// How many bytes have been yielded.
    pub closed spec fn position(&self) -> nat {
        self.current as nat
    }

    /// The bytes of the page that the cursor walks.
    pub closed spec fn bytes(&self) -> Seq<u8> {
        self.page@
    }

    /// The next byte, or nothing once every byte has been yielded.
    pub fn next(&mut self) -> (byte: Option<u8>)
        requires
            old(self).wf(),
        ensures
            final(self).wf(),
            final(self).bytes() == old(self).bytes(),
            byte == (if old(self).position() < old(self).bytes().len() {
                Some(old(self).bytes()[old(self).position() as int])
            } else {
                None
            }),
            final(self).position() == (if old(self).position() < old(self).bytes().len() {
                old(self).position() + 1
            } else {
                old(self).position()
            }),
    {
        if self.current >= self.page.size {
            None
        } else {
            let value: Option<u8> = self.page.index(self.current);
            self.current = self.current + 1;
            value
        }
    }

    /// How many bytes are still to come.
    pub fn len(&self) -> (remaining: usize)
        requires
            self.wf(),
        ensures
            remaining == self.bytes().len() - self.position(),
    {
        self.page.size - self.current
    }
}

} // verus!
