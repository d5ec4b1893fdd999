//! The allocator that cannot exist.

use vstd::prelude::*;
use core::convert::Infallible;
use crate::base::{Allocator, Fallbackable};
use crate::history::Op;
use crate::layout::{AllocError, Block, Layout, Resized};

verus! {

/// An allocator of which there is no value. It ends a chain of fallbacks
/// where running out of allocators must not happen.
///
/// No state of it is well formed, so none of its operations can be called:
/// their bodies never run.
#[derive(Copy, Clone)]
pub struct Impossible(pub Infallible);

impl View for Impossible {
    type V = ();

    open spec fn view(&self) -> () {
        ()
    }
}

impl Allocator for Impossible {
    open spec fn wf(&self) -> bool {
        false
    }

    open spec fn accepts_model(v: (), addr: usize, layout: Layout) -> bool {
        false
    }

    open spec fn resizes_model(v: (), addr: usize, layout: Layout) -> bool {
        false
    }

    proof fn lemma_accepted_resizes(v: (), addr: usize, layout: Layout) {
    }

    open spec fn allocate_model(v: (), layout: Layout) -> ((), Result<Block, AllocError>) {
        ((), Err(AllocError))
    }

    open spec fn deallocate_model(v: (), addr: usize, layout: Layout) -> () {
        ()
    }

    open spec fn grow_model(v: (), addr: usize, old_layout: Layout, new_layout: Layout) -> (
        (),
        Result<Resized, AllocError>,
    ) {
        ((), Err(AllocError))
    }

    open spec fn shrink_model(v: (), addr: usize, old_layout: Layout, new_layout: Layout) -> (
        (),
        Result<Resized, AllocError>,
    ) {
        ((), Err(AllocError))
    }

    proof fn lemma_failure_changes_nothing(
        v: (),
        addr: usize,
        old_layout: Layout,
        new_layout: Layout,
    ) {
    }

    fn accepts(&self, addr: usize, layout: Layout) -> (r: bool) {
        false
    }

    fn allocate(&mut self, layout: Layout) -> (r: Result<Block, AllocError>) {
        Err(AllocError)
    }

    fn deallocate(&mut self, addr: usize, layout: Layout) {
    }

    fn grow(&mut self, addr: usize, old_layout: Layout, new_layout: Layout) -> (r: Result<
        Resized,
        AllocError,
    >) {
        Err(AllocError)
    }

    fn shrink(&mut self, addr: usize, old_layout: Layout, new_layout: Layout) -> (r: Result<
        Resized,
        AllocError,
    >) {
        Err(AllocError)
    }
}

impl Fallbackable for Impossible {
    open spec fn has_allocated_model(v: (), addr: usize, layout: Layout) -> bool {
        true
    }

    open spec fn allows_fallback_model(v: (), layout: Layout) -> bool {
        false
    }

    fn has_allocated(&self, addr: usize, layout: Layout) -> (r: bool) {
        true
    }

    fn allows_fallback(&self, layout: Layout) -> (r: bool) {
        false
    }

    proof fn lemma_fallback_is_settled(v: (), op: Op, layout: Layout) {
    }

    proof fn lemma_refusal_claims(v: (), addr: usize, layout: Layout) {
    }
}

} // verus!
