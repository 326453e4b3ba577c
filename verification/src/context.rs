//! A short stack of context snippets shared between conversations.
use vstd::prelude::*;

verus! {

/// The most snippets kept.
pub const CONTEXT_CAPACITY: usize = 20;

/// A bounded stack of snippets: pushing onto a full stack drops the oldest.
pub struct ContextBuffer {
    items: Vec<String>,
}

/// The effect of a push on the snippets.
pub open spec fn pushed(items: Seq<String>, c: String) -> Seq<String> {
    if items.push(c).len() > CONTEXT_CAPACITY {
        items.push(c).drop_first()
    } else {
        items.push(c)
    }
}

impl ContextBuffer {
    /// The snippets, oldest first.
    pub closed spec fn items(&self) -> Seq<String> {
        self.items@
    }

    /// Well-formedness: at most `CONTEXT_CAPACITY` snippets.
    pub closed spec fn wf(&self) -> bool {
        self.items@.len() <= CONTEXT_CAPACITY
    }

    /// An empty stack.
    pub fn new() -> (r: Self)
        ensures
            r.wf(),
            r.items() == Seq::<String>::empty(),
    {
        ContextBuffer { items: Vec::new() }
    }

    /// Pushes a snippet; the oldest is dropped when there are more than
    /// `CONTEXT_CAPACITY`.
    pub fn push(&mut self, c: String)
        requires
            old(self).wf(),
        ensures
            final(self).wf(),
            final(self).items() == pushed(old(self).items(), c),
    {
        self.items.push(c);
        if self.items.len() > CONTEXT_CAPACITY {
            let ghost before = self.items@;
            self.items.remove(0);
            assert(self.items@ =~= before.drop_first());
        }
    }

    /// Takes the newest snippet off.
    pub fn pop(&mut self) -> (r: Option<String>)
        requires
            old(self).wf(),
        ensures
            final(self).wf(),
            old(self).items().len() == 0 ==> r is None && final(self).items() == old(self).items(),
            old(self).items().len() > 0 ==> r == Some(old(self).items().last()) && final(self).items() == old(self).items().drop_last(),
    {
        let r = self.items.pop();
        proof {
            if old(self).items().len() > 0 {
                assert(self.items@ =~= old(self).items().drop_last());
            }
        }
        r
    }

    /// The snippets, oldest first.
    pub fn peek(&self) -> (r: Vec<String>)
        ensures
            r@ == self.items(),
    {
        crate::models::clone_strings(&self.items)
    }

    /// Removes every snippet.
    pub fn clear(&mut self)
        ensures
            final(self).wf(),
            final(self).items() == Seq::<String>::empty(),
    {
        self.items = Vec::new();
    }
}

/// The stack never holds more than `CONTEXT_CAPACITY` snippets, and a pushed
/// snippet is the one a following pop returns.
pub proof fn law_push_then_pop(items: Seq<String>, c: String)
    requires
        items.len() <= CONTEXT_CAPACITY,
    ensures
        pushed(items, c).len() <= CONTEXT_CAPACITY,
        pushed(items, c).len() > 0,
        pushed(items, c).last() == c,
{
}

} // verus!
