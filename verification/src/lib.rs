//! Page allocation with a bucketed pool of reusable mappings.
//!
//! The library decides; its caller talks to the operating system. An operation
//! that needs the host is a value that says which call to make next and that
//! takes in what the call returned: an [`Invocation`] for a single guarded call,
//! an [`Allocation`] or a [`Release`] for memory that comes out of a
//! [`BucketedFreeList`] or goes back to it.

pub mod classes;
pub mod host;
pub mod laws;
pub mod pages;
pub mod pool;
pub mod session;
pub mod syscall;
pub mod text;

pub use classes::{BUCKET_COUNT, BUCKET_MAX, BUCKET_MIN};
pub use host::{Host, UnixHost, WindowsHost};
pub use pages::{
    allocate_pages, free_pages, get_system_page_size, madvise, page_size_query, protect_pages,
    round_to_page_size, Advice, PagePermissions, PageSizeQuery, PageSizeReply,
};
pub use pool::{allocate_pages_pooled, free_pages_pooled, BucketedFreeList, FreeList};
pub use session::{Allocation, Answer, Demand, Release, MADV_DONTNEED_THRESHOLD};
pub use syscall::{EbpfError, Failure, Invocation, Reply, SystemCall, RETRY_COUNT};
