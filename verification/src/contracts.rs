//! What the page cache asks of the layer that persists pages.

use vstd::prelude::*;

use crate::definitions::{Page, PageId, TableId};

verus! {

/// Why the storage handler could not read or write a page.
#[derive(Clone, Copy, PartialEq, Eq, Debug, Structural)]
pub enum StorageError {
    /// The disk failed.
    IoError,
    /// The page was never written.
    NotFound,
}

/// The disk-facing side of the cache. Both operations return only when the
/// whole page has been transferred or the transfer has failed; the cache
/// relies on nothing else, and checks the length of what is read.
pub trait StorageHandler {
    /// The bytes of a page as last written; they should be as many as the
    /// table's page size.
    fn read_page(&self, table_id: TableId, page_id: PageId) -> Result<Vec<u8>, StorageError>;

    /// Persists the bytes of a page.
    fn write_page(&self, table_id: TableId, page_id: PageId, page: Page<'_>) -> Result<
        (),
        StorageError,
    >
        requires
            page.wf(),
    ;
}

} // verus!
