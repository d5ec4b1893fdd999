//! The allocator that never hands out anything.

use vstd::prelude::*;
use crate::base::{Allocator, Fallbackable};
use crate::history::Op;
use crate::layout::{AllocError, Block, Layout, Resized};

verus! {

/// An allocator that fails every request. It ends a chain of fallbacks
/// where running out of allocators is an ordinary failure.
///
/// Since it hands out no block, there is none that it would take back; an
/// attempt to resize a block fails like any other request.
#[derive(Debug, Copy, Clone)]
pub struct NonWorking;

impl View for NonWorking {
    type V = ();

    open spec fn view(&self) -> () {
        ()
    }
}

impl Default for NonWorking {
    fn default() -> (r: Self)
        ensures
            r.wf(),
    {
        NonWorking
    }
}

impl Allocator for NonWorking {
    open spec fn wf(&self) -> bool {
        true
    }

    open spec fn accepts_model(v: (), addr: usize, layout: Layout) -> bool {
        false
    }

    open spec fn resizes_model(v: (), addr: usize, layout: Layout) -> bool {
        true
    }

    proof fn lemma_accepted_resizes(v: (), addr: usize, layout: Layout) {
    }

    open spec fn allocate_model(v: (), layout: Layout) -> ((), Result<Block, AllocError>) {
        ((), Err(AllocError))
    }

    open spec fn deallocate_model(v: (), addr: usize, layout: Layout) -> () {
        ()
    }

    open spec fn grow_model(v: (), addr: usize, old_layout: Layout, new_layout: Layout) -> (
        (),
        Result<Resized, AllocError>,
    ) {
        ((), Err(AllocError))
    }

    open spec fn shrink_model(v: (), addr: usize, old_layout: Layout, new_layout: Layout) -> (
        (),
        Result<Resized, AllocError>,
    ) {
        ((), Err(AllocError))
    }

    proof fn lemma_failure_changes_nothing(
        v: (),
        addr: usize,
        old_layout: Layout,
        new_layout: Layout,
    ) {
    }

    fn accepts(&self, addr: usize, layout: Layout) -> (r: bool) {
        false
    }

    fn allocate(&mut self, layout: Layout) -> (r: Result<Block, AllocError>) {
        Err(AllocError)
    }

    fn deallocate(&mut self, addr: usize, layout: Layout) {
    }

    fn grow(&mut self, addr: usize, old_layout: Layout, new_layout: Layout) -> (r: Result<
        Resized,
        AllocError,
    >) {
        Err(AllocError)
    }

    fn shrink(&mut self, addr: usize, old_layout: Layout, new_layout: Layout) -> (r: Result<
        Resized,
        AllocError,
    >) {
        Err(AllocError)
    }
}

impl Fallbackable for NonWorking {
    open spec fn has_allocated_model(v: (), addr: usize, layout: Layout) -> bool {
        false
    }

    open spec fn allows_fallback_model(v: (), layout: Layout) -> bool {
        true
    }

    fn has_allocated(&self, addr: usize, layout: Layout) -> (r: bool) {
        false
    }

    fn allows_fallback(&self, layout: Layout) -> (r: bool) {
        true
    }

    proof fn lemma_fallback_is_settled(v: (), op: Op, layout: Layout) {
    }

    proof fn lemma_refusal_claims(v: (), addr: usize, layout: Layout) {
    }
}

} // verus!
