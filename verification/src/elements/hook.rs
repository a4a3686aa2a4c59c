//! An element that calls a handler whenever its child has been laid out.

use vstd::prelude::*;

verus! {

/// A child and the handler to call after it has been laid out, if there is one.
pub struct Hook<C, H> {
    child: C,
    after_layout: Option<H>,
}

impl<C, H> Hook<C, H> {
    /// The child.
    pub closed spec fn inner(self) -> C {
        self.child
    }

    /// The handler to call after the child has been laid out.
    pub closed spec fn handler(self) -> Option<H> {
        self.after_layout
    }

    /// A hook around `child` without a handler.
    pub fn new(child: C) -> (hook: Hook<C, H>)
        ensures
            hook.inner() == child,
            hook.handler() is None,
    {
        Hook { child, after_layout: None }
    }

    /// The same hook with `f` as its handler, in place of any other.
    pub fn on_after_layout(self, f: H) -> (hook: Hook<C, H>)
        ensures
            hook.inner() == self.inner(),
            hook.handler() == Some(f),
    {
        Hook { child: self.child, after_layout: Some(f) }
    }

    /// The child.
    pub fn child(&self) -> (child: &C)
        ensures
            *child == self.inner(),
    {
        &self.child
    }

    /// Lays the child out with `layout_child` and hands the size that it takes to the handler.
    /// Returns that size, and what the handler returned if there is one.
    pub fn layout<S: Copy, R, L: FnOnce(&C) -> S>(&self, layout_child: L) -> (outcome: (
        S,
        Option<R>,
    )) where H: Fn(S) -> R
        requires
            layout_child.requires((&self.inner(),)),
            self.handler() matches Some(handler) ==> forall|size: S|
                layout_child.ensures((&self.inner(),), size) ==> #[trigger] handler.requires(
                    (size,),
                ),
        ensures
            layout_child.ensures((&self.inner(),), outcome.0),
            match self.handler() {
                Some(handler) => outcome.1 is Some && handler.ensures(
                    (outcome.0,),
                    outcome.1->0,
                ),
                None => outcome.1 is None,
            },
    {
        let size: S = layout_child(&self.child);
        match &self.after_layout {
            Some(handler) => (size, Some(handler(size))),
            None => (size, None),
        }
    }
}

} // verus!
