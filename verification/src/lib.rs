//! Composable memory allocators over an abstract address space.
//!
//! Every allocator here is a small state machine that hands out address
//! ranges. None of them touches the bytes behind an address: what has to
//! happen to the memory (a copy after a block moved) is reported in the
//! result, and is carried out by the caller.
//!
//! The contract that all of them keep is the trait [`Allocator`]; the trait
//! [`Fallbackable`] adds what it takes to route requests in a chain. The
//! building blocks are the bump arena ([`stacked`]), the free-list
//! ([`freelist`]), the size limiter ([`limited_up_to`], [`up_to`]), the
//! fallback pair ([`fallbacked`]) and the two ends of a chain
//! ([`NonWorking`], [`Impossible`]). The [`tower`] is a ready-made chain of
//! size classes. The modules [`posix`] and [`winapi`] hold what is decided
//! around the calls of a platform's heap, and [`as_global`] is the shape of
//! a global allocator around any of the above. The module [`history`]
//! speaks of sequences of operations, for the laws that hold of every state
//! an allocator can reach.

pub mod as_global;
pub mod base;
pub mod fallbacked;
pub mod freelist;
pub mod history;
pub mod impossible;
pub mod layout;
pub mod limited_up_to;
pub mod non_working;
pub mod posix;
pub mod stacked;
pub mod tower;
pub mod up_to;
pub mod winapi;

pub use as_global::AsGlobal;
pub use base::{Allocator, Fallbackable};
pub use impossible::Impossible;
pub use layout::{AllocError, Block, Layout, LayoutError, Resized};
pub use non_working::NonWorking;
