//! Putting a separator between consecutive elements of a sequence.
use vstd::prelude::*;

verus! {

/// `s` with `sep` between each two consecutive elements.
pub open spec fn spec_intersperse<T>(s: Seq<T>, sep: T) -> Seq<T>
    decreases s.len(),
{
    if s.len() <= 1 {
        s
    } else {
        seq![s[0], sep] + spec_intersperse(s.skip(1), sep)
    }
}

/// Interspersing `n > 0` elements gives `2n - 1` elements: the original ones
/// at even positions, in order, and the separator at odd positions.
pub proof fn lemma_intersperse_shape<T>(s: Seq<T>, sep: T)
    ensures
        s.len() == 0 ==> spec_intersperse(s, sep).len() == 0,
        s.len() > 0 ==> spec_intersperse(s, sep).len() == 2 * s.len() - 1,
        forall|i: int|
            0 <= i < s.len() ==> #[trigger] spec_intersperse(s, sep)[2 * i] == s[i],
        forall|i: int|
            0 <= i < s.len() - 1 ==> #[trigger] spec_intersperse(s, sep)[2 * i + 1] == sep,
    decreases s.len(),
{
    if s.len() > 1 {
        let rest = s.skip(1);
        lemma_intersperse_shape(rest, sep);
        let r = spec_intersperse(s, sep);
        assert forall|i: int| 0 <= i < s.len() implies #[trigger] r[2 * i] == s[i] by {
            if i > 0 {
                assert(r[2 * i] == spec_intersperse(rest, sep)[2 * (i - 1)]);
            }
        }
        assert forall|i: int| 0 <= i < s.len() - 1 implies #[trigger] r[2 * i + 1] == sep by {
            if i > 0 {
                assert(r[2 * i + 1] == spec_intersperse(rest, sep)[2 * (i - 1) + 1]);
            }
        }
    }
}

/// A walk over a list of elements that yields them with a separator between
/// each two consecutive ones.
pub struct IntersperseState<T: Copy> {
    items: Vec<T>,
    next_index: usize,
    separator: T,
    separator_is_next: bool,
}

impl<T: Copy> View for IntersperseState<T> {
    type V = Seq<T>;

    /// What the walk still yields.
    closed spec fn view(&self) -> Seq<T> {
        if self.next_index >= self.items@.len() {
            Seq::empty()
        } else if self.separator_is_next {
            seq![self.separator] + spec_intersperse(
                self.items@.skip(self.next_index as int),
                self.separator,
            )
        } else {
            spec_intersperse(self.items@.skip(self.next_index as int), self.separator)
        }
    }
}

impl<T: Copy> IntersperseState<T> {
    #[verifier::type_invariant]
    spec fn inv(self) -> bool {
        self.next_index <= self.items@.len()
    }

    /// A walk over `items` that puts `separator` between consecutive items.
    pub fn new(items: Vec<T>, separator: T) -> (r: IntersperseState<T>)
        ensures
            r@ == spec_intersperse(items@, separator),
    {
        let r = IntersperseState { items, next_index: 0, separator, separator_is_next: false };
        assert(r.items@.skip(0) =~= r.items@);
        r
    }

    /// The next element of the walk, `None` once it is over.
    pub fn next(&mut self) -> (r: Option<T>)
        ensures
            old(self)@.len() == 0 ==> r is None && final(self)@.len() == 0,
            old(self)@.len() > 0 ==> r == Some(old(self)@[0]) && final(self)@ == old(self)@.skip(
                1,
            ),
    {
        proof {
            use_type_invariant(&*self);
        }
        if self.next_index >= self.items.len() {
            None
        } else if self.separator_is_next {
            self.separator_is_next = false;
            let ghost rest = spec_intersperse(self.items@.skip(self.next_index as int), self.separator);
            assert((seq![self.separator] + rest).skip(1) =~= rest);
            Some(self.separator)
        } else {
            let ghost s = self.items@.skip(self.next_index as int);
            let item = self.items[self.next_index];
            self.next_index = self.next_index + 1;
            self.separator_is_next = true;
            proof {
                let sep = self.separator;
                assert(s.skip(1) =~= self.items@.skip(self.next_index as int));
                if s.len() > 1 {
                    assert((seq![s[0], sep] + spec_intersperse(s.skip(1), sep)).skip(1) =~= seq![
                        sep,
                    ] + spec_intersperse(s.skip(1), sep));
                } else {
                    assert(spec_intersperse(s, sep).skip(1) =~= Seq::<T>::empty());
                }
            }
            Some(item)
        }
    }
}

impl<T: Copy> IntersperseState<T> {
    /// Walks to the end, collecting what the walk yields.
    pub fn collect(self) -> (r: Vec<T>)
        ensures
            r@ == self@,
    {
        let ghost all = self@;
        let mut state = self;
        let mut out: Vec<T> = Vec::new();
        assert(out@ + state@ =~= all);
        loop
            invariant
                out@ + state@ == all,
                all == self@,
            decreases state@.len(),
        {
            let ghost before = state@;
            match state.next() {
                None => {
                    assert(out@ =~= all);
                    return out;
                },
                Some(x) => {
                    out.push(x);
                    assert(out@ + state@ =~= all) by {
                        assert(before =~= seq![x] + state@);
                    }
                },
            }
        }
    }
}

/// Sequences whose elements can be walked with a separator between each two
/// consecutive ones.
pub trait Intersperse<T: Copy>: Sized {
    /// The elements of the sequence.
    spec fn elements(&self) -> Seq<T>;

    /// A walk over the elements with `separator` between consecutive ones.
    fn my_intersperse(self, separator: T) -> (r: IntersperseState<T>)
        ensures
            r@ == spec_intersperse(self.elements(), separator),
    ;
}

impl<T: Copy> Intersperse<T> for Vec<T> {
    open spec fn elements(&self) -> Seq<T> {
        self@
    }

    fn my_intersperse(self, separator: T) -> (r: IntersperseState<T>) {
        IntersperseState::new(self, separator)
    }
}

} // verus!
