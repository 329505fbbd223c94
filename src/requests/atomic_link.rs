//! Links of the slot lists.
use vstd::prelude::*;

verus! {

/// Link of one slot in one of the pool's lists.
///
/// Slots are named by their index in the pool, so a link holds the indices
/// of its neighbours; `locked` tells whether the slot is linked at all.
#[derive(Clone, Copy, Debug, PartialEq, Eq, Structural)]
pub struct AtomicLink {
    pub locked: bool,
    pub next: Option<usize>,
    pub prev: Option<usize>,
}

impl AtomicLink {
    /// Creates an unlinked link.
    pub fn new() -> (r: AtomicLink)
        ensures
            r.is_unlinked(),
    {
        AtomicLink { locked: false, next: None, prev: None }
    }

    /// A link that belongs to no list and has no neighbours.
    pub open spec fn is_unlinked(self) -> bool {
        !self.locked && self.next is None && self.prev is None
    }
}

impl Default for AtomicLink {
    fn default() -> (r: AtomicLink)
        ensures
            r.is_unlinked(),
    {
        AtomicLink::new()
    }
}

/// Operations on links, used by the lists of the pool.
#[derive(Clone, Copy, Debug, Default)]
pub struct AtomicLinkOps;

impl AtomicLinkOps {
    /// Marks the link as belonging to a list; tells whether it was free.
    pub fn acquire_link(&mut self, link: &mut AtomicLink) -> (r: bool)
        ensures
            r == !old(link).locked,
            *final(link) == (AtomicLink { locked: true, ..*old(link) }),
    {
        let was_locked = link.locked;
        link.locked = true;
        !was_locked
    }

    /// Frees the link and forgets its neighbours.
    pub fn release_link(&mut self, link: &mut AtomicLink)
        ensures
            final(link).is_unlinked(),
    {
        *link = AtomicLink::new();
    }

    pub fn next(&self, link: &AtomicLink) -> (r: Option<usize>)
        ensures
            r == link.next,
    {
        link.next
    }

    pub fn prev(&self, link: &AtomicLink) -> (r: Option<usize>)
        ensures
            r == link.prev,
    {
        link.prev
    }

    pub fn set_next(&mut self, link: &mut AtomicLink, next: Option<usize>)
        ensures
            *final(link) == (AtomicLink { next, ..*old(link) }),
    {
        link.next = next;
    }

    pub fn set_prev(&mut self, link: &mut AtomicLink, prev: Option<usize>)
        ensures
            *final(link) == (AtomicLink { prev, ..*old(link) }),
    {
        link.prev = prev;
    }
}

} // verus!
