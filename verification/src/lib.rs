//! A dual-region bump allocator for the earliest stage of boot.
//!
//! One contiguous span of memory serves two kinds of request: blocks of
//! bytes, carved forward from the low end, and runs of pages, carved
//! backward from the high end. The whole state is five integers.
//!
//! ```text
//! [ bytes-used | available | pages-used ]
//! |            | -->    <-- |           |
//! start       b_pos        p_pos       end
//! ```
//!
//! [`model`] holds the mathematical description of that state and of every
//! operation on it, [`early`] the executable allocator, proved to follow the
//! model step by step, and [`laws`] what follows for whole histories of
//! operations. [`random`] is apart from the rest: the keys and the hasher
//! that hash tables are seeded with.

pub mod early;
pub mod error;
pub mod laws;
pub mod model;
pub mod random;

pub use early::EarlyAllocator;
pub use error::AllocError;
pub use model::{BumpState, Op};
pub use random::{DefaultHasher, RandomState};
