use vstd::prelude::*;

verus! {

/// A one-shot, forward-only cursor over items fixed when it was made. The
/// items wait on a stack, the next one on top.
pub struct Cursor<T> {
    stack: Vec<T>,
}

impl<T> Cursor<T> {
    /// The items not yet handed out, in the order they will come.
    pub closed spec fn pending(&self) -> Seq<T> {
        self.stack@.reverse()
    }

    /// A cursor over `stack` read from its top down.
    pub fn from_stack(stack: Vec<T>) -> (r: Self)
        ensures
            r.pending() == stack@.reverse(),
    {
        Cursor { stack }
    }

    /// Hands out the next item; `None` once all are gone, and from then on.
    pub fn next(&mut self) -> (r: Option<T>)
        ensures
            old(self).pending().len() == 0 ==> r is None && final(self).pending() == old(
                self,
            ).pending(),
            old(self).pending().len() > 0 ==> r == Some(old(self).pending()[0])
                && final(self).pending() == old(self).pending().drop_first(),
    {
        let r = self.stack.pop();
        proof {
            let o = old(self).stack@;
            if o.len() > 0 {
                assert(self.stack@ =~= o.drop_last());
                assert(self.stack@.reverse() =~= o.reverse().drop_first());
                assert(o.reverse()[0] == o.last());
            } else {
                assert(self.stack@ =~= o);
            }
        }
        r
    }
}

} // verus!
