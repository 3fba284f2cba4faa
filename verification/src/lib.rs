//! Arrays over a C-style allocator, with the allocator given as an explicit,
//! verified model: every allocation is an opaque [`Handle`] whose liveness
//! and byte size the [`Allocator`] tracks, and every operation that acquires
//! or releases memory takes the allocator and proves what it does to that
//! state.  The proofs rule out releasing a handle twice, releasing a handle
//! nobody owns, and reading a slot that was never initialised.
//!
//! [`HeapArray`] owns one contiguous allocation and governs its lifecycle;
//! [`InitIter`] walks a raw array's slots and initialises each exactly once;
//! [`IntoIter`] consumes an array, yields its elements in order and releases
//! the allocation exactly once, drained or abandoned; [`Store`] and
//! [`DynStore`] own many single-value allocations and release each exactly
//! once.  Byte views, byte imports and the `reinterpret` operations work
//! through the [`Pod`] codec, which fixes each plain-data element type's
//! byte image.

pub mod allocator;
pub mod array;
pub mod init;
pub mod iter;
pub mod pod;
pub mod reinterpret;
pub mod store;

pub use allocator::null;
pub use allocator::Allocator;
pub use allocator::Error;
pub use allocator::Handle;
pub use array::HeapArray;
pub use array::Slot;
pub use init::InitIter;
pub use init::InitIterExt;
pub use iter::IntoIter;
pub use pod::Pod;
pub use store::DynStore;
pub use store::Store;
