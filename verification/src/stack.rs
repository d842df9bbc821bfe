//! The operand stack: a bounded LIFO container of signed 32-bit values.

use vstd::prelude::*;

use crate::errors::VmError;

verus! {

/// A fixed-capacity stack of `i32` values.
///
/// The capacity is fixed at construction; the number of stored values never
/// exceeds it. Pushing onto a full stack and popping or peeking an empty one
/// fail without changing the stack.
pub struct VMStack {
    items: Vec<i32>,
    capacity: usize,
}

impl View for VMStack {
    type V = Seq<i32>;

    closed spec fn view(&self) -> Seq<i32> {
        self.items@
    }
}

/// The contents of a stack after `k` values have been popped from it.
pub open spec fn stack_after_pops(s: Seq<i32>, k: int) -> Seq<i32>
    recommends
        0 <= k <= s.len(),
{
    s.take(s.len() - k)
}

impl VMStack {
    /// The maximum number of values the stack can hold.
    pub closed spec fn cap(self) -> nat {
        self.capacity as nat
    }

    /// The stack never holds more values than its capacity, which is at
    /// least one.
    pub open spec fn wf(self) -> bool {
        self@.len() <= self.cap() && self.cap() >= 1
    }

    /// Creates an empty stack with the given maximum size.
    pub fn new(stack_size: usize) -> (s: VMStack)
        requires
            stack_size >= 1,
        ensures
            s.wf(),
            s@ == Seq::<i32>::empty(),
            s.cap() == stack_size,
    {
        VMStack { items: Vec::new(), capacity: stack_size }
    }

    /// Appends `value` at the top of the stack; fails with `StackOverflow`,
    /// leaving the stack unchanged, when the stack is already at capacity.
    pub fn push(&mut self, value: i32) -> (r: Result<(), VmError>)
        requires
            old(self).wf(),
        ensures
            final(self).wf(),
            final(self).cap() == old(self).cap(),
            old(self)@.len() < old(self).cap() ==> r is Ok && final(self)@ == old(self)@.push(
                value,
            ),
            old(self)@.len() >= old(self).cap() ==> r == Err::<(), VmError>(
                VmError::StackOverflow,
            ) && final(self)@ == old(self)@,
    {
        if self.items.len() < self.capacity {
            self.items.push(value);
            Ok(())
        } else {
            Err(VmError::StackOverflow)
        }
    }

    /// Removes and returns the top value; fails with `StackUnderflow`,
    /// leaving the stack unchanged, when the stack is empty.
    pub fn pop(&mut self) -> (r: Result<i32, VmError>)
        requires
            old(self).wf(),
        ensures
            final(self).wf(),
            final(self).cap() == old(self).cap(),
            old(self)@.len() > 0 ==> r == Ok::<i32, VmError>(old(self)@.last()) && final(self)@
                == old(self)@.drop_last(),
            old(self)@.len() == 0 ==> r == Err::<i32, VmError>(VmError::StackUnderflow)
                && final(self)@ == old(self)@,
    {
        match self.items.pop() {
            Some(v) => Ok(v),
            None => Err(VmError::StackUnderflow),
        }
    }

    /// Returns the top value without removing it; fails with `StackUnderflow`
    /// when the stack is empty.
    pub fn peek(&self) -> (r: Result<i32, VmError>)
        ensures
            self@.len() > 0 ==> r == Ok::<i32, VmError>(self@.last()),
            self@.len() == 0 ==> r == Err::<i32, VmError>(VmError::StackUnderflow),
    {
        if self.items.len() > 0 {
            Ok(self.items[self.items.len() - 1])
        } else {
            Err(VmError::StackUnderflow)
        }
    }

    /// Returns a copy of the stored values, bottom first.
    pub fn contents(&self) -> (v: Vec<i32>)
        ensures
            v@ == self@,
    {
        let mut v: Vec<i32> = Vec::new();
        let mut i: usize = 0;
        while i < self.items.len()
            invariant
                i <= self.items.len(),
                v@ == self.items@.take(i as int),
            decreases self.items.len() - i,
        {
            v.push(self.items[i]);
            proof {
                assert(v@ =~= self.items@.take(i + 1));
            }
            i = i + 1;
        }
        proof {
            assert(v@ =~= self@);
        }
        v
    }
}

/// The LIFO law: after the values of `vs` are pushed in order onto a stack
/// holding `init`, the `k`-th pop returns `vs` in exact reverse order, and
/// after all of `vs` has been popped the stack holds `init` again.
///
/// `pop` returns the last element of the stack's contents and leaves
/// `drop_last` of it, so `stack_after_pops` is exactly the contents after `k`
/// pops.
pub proof fn lemma_stack_lifo(init: Seq<i32>, vs: Seq<i32>, k: int)
    requires
        0 <= k < vs.len(),
    ensures
        stack_after_pops(init + vs, k).len() == init.len() + vs.len() - k,
        stack_after_pops(init + vs, k).last() == vs[vs.len() - 1 - k],
        stack_after_pops(init + vs, k).drop_last() == stack_after_pops(init + vs, k + 1),
        stack_after_pops(init + vs, vs.len() as int) == init,
{
    let s = init + vs;
    assert(stack_after_pops(s, k).drop_last() =~= stack_after_pops(s, k + 1));
    assert(stack_after_pops(s, vs.len() as int) =~= init);
}

} // verus!
