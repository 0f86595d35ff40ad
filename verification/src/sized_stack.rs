//! A stack (last in, first out) with a maximum size. A push that would grow
//! the stack beyond its capacity first forgets the oldest element.
use vstd::prelude::*;
use std::collections::VecDeque;

verus! {

/// The stack `s` (top first) after pushing `x` with capacity `cap`: `x` on
/// top of the newest `cap - 1` elements of `s`.
pub open spec fn stack_pushed<T>(s: Seq<T>, cap: nat, x: T) -> Seq<T> {
    let kept = if s.len() < cap { s.len() } else { (cap - 1) as nat };
    seq![x] + s.take(kept as int)
}

/// A stack holding at most a fixed number of elements.
pub struct SizedStack<T> {
    capacity: usize,
    items: VecDeque<T>,
}

impl<T> View for SizedStack<T> {
    type V = Seq<T>;

    /// The elements on the stack, the top first.
    closed spec fn view(&self) -> Seq<T> {
        self.items@
    }
}

impl<T> SizedStack<T> {
    #[verifier::type_invariant]
    spec fn inv(self) -> bool {
        self.items@.len() <= self.capacity
    }

    /// The most elements the stack holds.
    pub closed spec fn capacity(&self) -> nat {
        self.capacity as nat
    }

    /// An empty stack holding at most `capacity` elements.
    pub fn with_capacity(capacity: usize) -> (r: SizedStack<T>)
        ensures
            r@ == Seq::<T>::empty(),
            r.capacity() == capacity,
    {
        SizedStack { capacity, items: VecDeque::with_capacity(capacity) }
    }

    /// Pushes `item` on the stack, forgetting the oldest element first when
    /// the stack is full.
    pub fn push(&mut self, item: T)
        requires
            old(self).capacity() > 0,
        ensures
            final(self)@ == stack_pushed(old(self)@, old(self).capacity(), item),
            final(self).capacity() == old(self).capacity(),
            final(self)@.len() <= final(self).capacity(),
    {
        proof {
            use_type_invariant(&*self);
        }
        let ghost before = self.items@;
        let mut items = VecDeque::new();
        std::mem::swap(&mut items, &mut self.items);
        items.truncate(self.capacity - 1);
        items.push_front(item);
        self.items = items;
        assert(self.items@ =~= stack_pushed(before, self.capacity as nat, item));
    }

    /// Whether the stack holds no element.
    pub fn is_empty(&self) -> (r: bool)
        ensures
            r == (self@.len() == 0),
    {
        self.items.len() == 0
    }

    /// Pops the top element of the stack. An element must be available: a
    /// caller waits until one is pushed (see [`SizedStack::is_empty`]).
    pub fn pop(&mut self) -> (r: Option<T>)
        requires
            old(self)@.len() > 0,
        ensures
            r == Some(old(self)@[0]),
            final(self)@ == old(self)@.skip(1),
            final(self).capacity() == old(self).capacity(),
            final(self)@.len() <= final(self).capacity(),
    {
        proof {
            use_type_invariant(&*self);
        }
        let mut items = VecDeque::new();
        std::mem::swap(&mut items, &mut self.items);
        let r = items.pop_front();
        self.items = items;
        r
    }
}

/// Popping right after pushing `x` gives back `x`, and leaves the stack as
/// it was before the push when it was not full, or without its oldest
/// element when it was.
pub proof fn lemma_push_then_pop<T>(s: Seq<T>, cap: nat, x: T)
    requires
        cap > 0,
        s.len() <= cap,
    ensures
        stack_pushed(s, cap, x)[0] == x,
        s.len() < cap ==> stack_pushed(s, cap, x).skip(1) == s,
        s.len() == cap ==> stack_pushed(s, cap, x).skip(1) == s.drop_last(),
        stack_pushed(s, cap, x).len() <= cap,
{
    let p = stack_pushed(s, cap, x);
    if s.len() < cap {
        assert(p.skip(1) =~= s);
    } else {
        assert(p.skip(1) =~= s.drop_last());
    }
}

} // verus!
