//! A stack: a chain of cells, each holding a value, the stack below it and
//! the number of values from it down.

use vstd::prelude::*;

verus! {

/// A stack of values of type `T`.
#[derive(Debug, PartialEq)]
pub enum Stack<T> {
    Empty,
    Top(T, Box<Stack<T>>, usize),
}

/// The values of a stack from the bottom up: the top of the stack is the last.
pub open spec fn values<T>(s: Stack<T>) -> Seq<T>
    decreases s,
{
    match s {
        Stack::Empty => Seq::empty(),
        Stack::Top(val, below, _) => values(*below).push(val),
    }
}

/// Each cell's count is the number of values from it down.
pub open spec fn counted<T>(s: Stack<T>) -> bool
    decreases s,
{
    match s {
        Stack::Empty => true,
        Stack::Top(_, below, size) => counted(*below) && size == values(*below).len() + 1,
    }
}

impl<T> View for Stack<T> {
    type V = Seq<T>;

    /// The values from the bottom up: the top of the stack is the last.
    open spec fn view(&self) -> Seq<T> {
        values(*self)
    }
}

impl<T> Stack<T> {
    /// Each cell's count is the number of values from it down.
    pub open spec fn wf(&self) -> bool {
        counted(*self)
    }

    /// A stack without values.
    pub fn new() -> (r: Self)
        ensures
            r@ == Seq::<T>::empty(),
            r.wf(),
    {
        Stack::Empty
    }

    /// Puts a value on top.
    pub fn push(&mut self, val: T)
        requires
            old(self).wf(),
            old(self)@.len() < usize::MAX,
        ensures
            final(self)@ == old(self)@.push(val),
            final(self).wf(),
    {
        let mut below = Stack::Empty;
        core::mem::swap(self, &mut below);
        let new_size = match &below {
            Stack::Empty => 1,
            Stack::Top(_, _, size) => *size + 1,
        };
        *self = Stack::Top(val, Box::new(below), new_size);
    }

    /// Takes the top value off, if there is one.
    pub fn pop(&mut self) -> (r: Option<T>)
        requires
            old(self).wf(),
        ensures
            final(self).wf(),
            old(self)@.len() == 0 ==> r is None && final(self)@ == old(self)@,
            old(self)@.len() > 0 ==> r == Some(old(self)@.last()) && final(self)@ == old(
                self,
            )@.drop_last(),
    {
        let mut taken = Stack::Empty;
        core::mem::swap(self, &mut taken);
        match taken {
            Stack::Empty => None,
            Stack::Top(val, below, _) => {
                *self = *below;
                proof {
                    assert(below@.push(val).drop_last() =~= below@);
                }
                Some(val)
            },
        }
    }

    /// The top value, if there is one.
    pub fn top(&self) -> (r: Option<&T>)
        ensures
            self@.len() == 0 ==> r is None,
            self@.len() > 0 ==> r == Some(&self@.last()),
    {
        match self {
            Stack::Top(val, _, _) => Some(val),
            _ => None,
        }
    }

    /// Whether the stack holds no value.
    pub fn is_empty(&self) -> (r: bool)
        ensures
            r == (self@.len() == 0),
    {
        match self {
            Stack::Empty => true,
            _ => false,
        }
    }

    /// The number of values on the stack.
    pub fn size(&self) -> (r: usize)
        requires
            self.wf(),
        ensures
            r == self@.len(),
    {
        match self {
            Stack::Empty => 0,
            Stack::Top(_, _, size) => *size,
        }
    }

    /// Takes every value off.
    pub fn clear(&mut self)
        ensures
            final(self)@ == Seq::<T>::empty(),
            final(self).wf(),
    {
        *self = Stack::Empty;
    }

    /// The stack that holds the given values, the last of them on top.
    pub fn from_vec(values: Vec<T>) -> (r: Self)
        ensures
            r@ == values@,
            r.wf(),
    {
        let mut values = values;
        let mut upper: Vec<T> = Vec::new();
        let total = values.len();
        let ghost all = values@;
        // the values are taken from the end: `upper` holds them top first
        while values.len() > 0
            invariant
                values@.len() + upper@.len() == all.len(),
                values@ == all.subrange(0, values@.len() as int),
                forall|j: int|
                    0 <= j < upper@.len() ==> #[trigger] upper@[j] == all[all.len() - 1 - j],
            decreases values@.len(),
        {
            let v = values.pop().unwrap();
            upper.push(v);
        }
        let mut stack = Stack::Empty;
        while upper.len() > 0
            invariant
                stack.wf(),
                all.len() == total,
                stack@.len() + upper@.len() == all.len(),
                stack@ == all.subrange(0, stack@.len() as int),
                forall|j: int|
                    0 <= j < upper@.len() ==> #[trigger] upper@[j] == all[all.len() - 1 - j],
            decreases upper@.len(),
        {
            let v = upper.pop().unwrap();
            proof {
                assert(stack@.push(v) =~= all.subrange(0, stack@.len() as int + 1));
            }
            stack.push(v);
        }
        proof {
            assert(all.subrange(0, all.len() as int) =~= all);
        }
        stack
    }

    /// A walk over the values, from the top down.
    pub fn iter(&self) -> (r: StackIter<'_, T>)
        ensures
            r@ == self@,
    {
        StackIter { stack: self }
    }
}

/// A walk over the values of a stack, from the top down.
pub struct StackIter<'a, T> {
    stack: &'a Stack<T>,
}

impl<'a, T> View for StackIter<'a, T> {
    type V = Seq<T>;

    /// The values still to come, from the bottom up: the next is the last.
    closed spec fn view(&self) -> Seq<T> {
        self.stack@
    }
}

impl<'a, T> StackIter<'a, T> {
    /// The next value down, if one is left.
    pub fn next(&mut self) -> (r: Option<&'a T>)
        ensures
            old(self)@.len() == 0 ==> r is None && final(self)@ == old(self)@,
            old(self)@.len() > 0 ==> r == Some(&old(self)@.last()) && final(self)@ == old(
                self,
            )@.drop_last(),
    {
        match self.stack {
            Stack::Top(val, below, _) => {
                proof {
                    assert(below@.push(*val).drop_last() =~= below@);
                }
                self.stack = below;
                Some(val)
            },
            Stack::Empty => None,
        }
    }
}

impl<T: Clone> Clone for Stack<T> {
    /// A copy of the stack: each value is a clone of the value at its place.
    fn clone(&self) -> (r: Self)
        ensures
            r@.len() == self@.len(),
            forall|i: int| 0 <= i < self@.len() ==> cloned::<T>(#[trigger] self@[i], r@[i]),
            self.wf() ==> r.wf(),
        decreases self,
    {
        match self {
            Stack::Empty => Stack::Empty,
            Stack::Top(val, below, size) => {
                let rest = (&**below).clone();
                Stack::Top(val.clone(), Box::new(rest), *size)
            },
        }
    }
}

impl<T> Default for Stack<T> {
    fn default() -> (r: Self)
        ensures
            r@ == Seq::<T>::empty(),
            r.wf(),
    {
        Stack::Empty
    }
}

} // verus!
