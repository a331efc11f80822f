//! A persistent stack.
use rpds::StackSync;
use vstd::prelude::*;

verus! {

/// The list that stores the items of a [`Stack`].
#[verifier::external_body]
#[verifier::reject_recursive_types(T)]
struct RawStack<T> {
    items: StackSync<T>,
}

/// A persistent stack, backed by `rpds::StackSync`.
///
/// The view is the sequence of its items from the bottom to the top. Only the
/// functions of this file touch the list, so the items it holds and the view
/// change together.
#[verifier::reject_recursive_types(T)]
pub struct Stack<T> {
    list: RawStack<T>,
    contents: Ghost<Seq<T>>,
}

impl<T> View for Stack<T> {
    type V = Seq<T>;

    closed spec fn view(&self) -> Seq<T> {
        self.contents@
    }
}

impl<T> Stack<T> {
    /// Calls `StackSync::new_sync`: the new stack has no items.
    #[verifier::external_body]
    pub(crate) fn new() -> (r: Self)
        ensures
            r@ == Seq::<T>::empty(),
    {
        Stack {
            list: RawStack { items: StackSync::new_sync() },
            contents: Ghost(Seq::empty()),
        }
    }

    /// Calls `Stack::peek`: the item on top, unless the stack is empty.
    #[verifier::external_body]
    pub(crate) fn peek(&self) -> (r: Option<&T>)
        ensures
            r == (if self@.len() > 0 { Some(&self@.last()) } else { None }),
    {
        self.list.items.peek()
    }

    /// Calls `Stack::pop_mut`: drops the item on top, if there is one, and tells
    /// whether there was.
    #[verifier::external_body]
    pub(crate) fn pop_mut(&mut self) -> (r: bool)
        ensures
            r == (old(self)@.len() > 0),
            final(self)@ == (if old(self)@.len() > 0 { old(self)@.drop_last() } else { old(self)@ }),
    {
        self.list.items.pop_mut()
    }

    /// Calls `Stack::push_mut`: puts `item` on top.
    #[verifier::external_body]
    pub(crate) fn push_mut(&mut self, item: T)
        ensures
            final(self)@ == old(self)@.push(item),
    {
        self.list.items.push_mut(item)
    }

    /// Calls `Stack::is_empty`: whether there are no items.
    #[verifier::external_body]
    pub(crate) fn is_empty(&self) -> (r: bool)
        ensures
            r == (self@.len() == 0),
    {
        self.list.items.is_empty()
    }
}

impl<T> Clone for Stack<T> {
    /// Calls `Stack::clone`, which shares the list: the clone is the same stack.
    #[verifier::external_body]
    fn clone(&self) -> (r: Self)
        ensures
            r == *self,
    {
        Stack { list: RawStack { items: self.list.items.clone() }, contents: Ghost(self.contents@) }
    }
}

} // verus!
