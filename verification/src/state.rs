//! Render state: the transform stack and the pending clear color.

use vstd::prelude::*;

use crate::draw::black_spec;
use crate::draw::Color;
use crate::transform::compose_spec;
use crate::transform::identity_spec;
use crate::transform::transform_ok;
use crate::transform::Transform;

verus! {

/// The transform an issued primitive sees: none when the current transform
/// is still the identity, else the composed current transform.
pub open spec fn transform_opt_spec(cur: Transform) -> Option<Transform> {
    if cur == identity_spec() {
        Option::None
    } else {
        Option::Some(cur)
    }
}

/// Render state for transform stack and clear color.
#[derive(Clone, Debug)]
pub struct RenderState {
    pub transform_stack: Vec<Transform>,
    pub current: Transform,
    pub clear: Color,
}

impl RenderState {
    /// Transforms held by the state are always representable: the current
    /// one and every saved one.
    pub open spec fn wf(self) -> bool {
        transform_ok(self.current) && (forall|i: int|
            0 <= i < self.transform_stack@.len() ==> transform_ok(
                #[trigger] self.transform_stack@[i],
            ))
    }

    /// A fresh state: empty stack, identity transform, black clear color.
    pub fn new() -> (s: RenderState)
        ensures
            s.transform_stack@ == Seq::<Transform>::empty(),
            s.current == identity_spec(),
            s.clear == black_spec(),
            s.wf(),
    {
        RenderState {
            transform_stack: Vec::new(),
            current: Transform::identity(),
            clear: Color::black(),
        }
    }

    /// Return to the fresh state; called once at the start of every pass.
    pub fn reset(&mut self)
        ensures
            final(self).transform_stack@ == Seq::<Transform>::empty(),
            final(self).current == identity_spec(),
            final(self).clear == black_spec(),
            final(self).wf(),
    {
        self.transform_stack.clear();
        self.current = Transform::identity();
        self.clear = Color::black();
    }

    /// Save the current transform, then compose `t` onto it, so that `t`
    /// applies in the local space established so far.
    pub fn push(&mut self, t: Transform)
        requires
            old(self).wf(),
        ensures
            final(self).transform_stack@ == old(self).transform_stack@.push(old(self).current),
            final(self).current == compose_spec(old(self).current, t),
            final(self).clear == old(self).clear,
            final(self).wf(),
    {
        let cur: Transform = self.current;
        self.transform_stack.push(cur);
        self.current = cur.compose(t);
    }

    /// Restore the most recently saved transform; on an empty stack this is
    /// a silent no-op that leaves the current transform unchanged.
    pub fn pop(&mut self)
        ensures
            old(self).transform_stack@.len() > 0 ==> final(self).current == old(
                self,
            ).transform_stack@.last() && final(self).transform_stack@ == old(
                self,
            ).transform_stack@.drop_last(),
            old(self).transform_stack@.len() == 0 ==> final(self).current == old(self).current
                && final(self).transform_stack@ == old(self).transform_stack@,
            final(self).clear == old(self).clear,
            old(self).wf() ==> final(self).wf(),
    {
        match self.transform_stack.pop() {
            Option::Some(t) => {
                self.current = t;
            },
            Option::None => {},
        }
    }

    /// The transform to hand to tessellation, or nothing while the current
    /// transform is still the identity.  Downstream treats "nothing" as the
    /// identity; the answer is an optimization hint, never a skip.
    pub fn transform_opt(&self) -> (t: Option<Transform>)
        ensures
            t == transform_opt_spec(self.current),
    {
        let id: Transform = Transform::identity();
        if self.current == id {
            Option::None
        } else {
            Option::Some(self.current)
        }
    }

    /// The pending clear color for the presentation step.
    pub fn clear_color(&self) -> (c: Color)
        ensures
            c == self.clear,
    {
        self.clear
    }
}

} // verus!
