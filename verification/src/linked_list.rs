//! A singly linked list with owned nodes, its contents modelled as a
//! sequence: the head holds the front element.

use vstd::prelude::*;

verus! {

/// One node: a value and the rest of the list.
pub struct Node<T> {
    value: T,
    next: Option<Box<Node<T>>>,
}

/// The sequence of values hanging off a node link.
pub closed spec fn node_seq<T>(n: Option<Box<Node<T>>>) -> Seq<T>
    decreases n,
{
    match n {
        None => seq![],
        Some(node) => seq![node.value] + node_seq(node.next),
    }
}

impl<T> Node<T> {
    /// A node holding `value` in front of `next`.
    pub fn new(value: T, next: Option<Box<Node<T>>>) -> (r: Node<T>)
        ensures
            node_seq(Some(Box::new(r))) == seq![value] + node_seq(next),
    {
        let r = Node { value, next };
        r
    }
}

/// A singly linked list: the front element first.
pub struct LinkedList<T> {
    head: Option<Box<Node<T>>>,
    size: usize,
}

impl<T> LinkedList<T> {
    /// The values of the list, front first.
    pub closed spec fn elems(self) -> Seq<T> {
        node_seq(self.head)
    }

    /// The recorded size matches the chain of nodes.
    pub closed spec fn wf(self) -> bool {
        self.size == self.elems().len()
    }

    /// An empty list.
    pub fn new() -> (r: LinkedList<T>)
        ensures
            r.wf(),
            r.elems() =~= Seq::<T>::empty(),
    {
        LinkedList { head: None, size: 0 }
    }

    /// How many values the list holds.
    pub fn get_size(&self) -> (r: usize)
        requires
            self.wf(),
        ensures
            r == self.elems().len(),
    {
        self.size
    }

    /// Whether the list holds no value.
    pub fn is_empty(&self) -> (r: bool)
        requires
            self.wf(),
        ensures
            r == (self.elems().len() == 0),
    {
        self.get_size() == 0
    }

    /// Puts `value` at the front of the list.
    pub fn push_front(&mut self, value: T)
        requires
            old(self).wf(),
            old(self).elems().len() < usize::MAX,
        ensures
            final(self).wf(),
            final(self).elems() == seq![value] + old(self).elems(),
    {
        let next = self.head.take();
        let new_node: Box<Node<T>> = Box::new(Node { value, next });
        self.head = Some(new_node);
        self.size += 1;
    }

    /// Takes the front value out of the list, if there is one.
    pub fn pop_front(&mut self) -> (r: Option<T>)
        requires
            old(self).wf(),
        ensures
            final(self).wf(),
            old(self).elems().len() == 0 ==> r is None && final(self).elems()
                == old(self).elems(),
            old(self).elems().len() > 0 ==> r == Some(old(self).elems()[0])
                && final(self).elems() == old(self).elems().drop_first(),
    {
        match self.head.take() {
            None => None,
            Some(node) => {
                let node = *node;
                self.head = node.next;
                self.size -= 1;
                proof {
                    assert(old(self).elems().drop_first() =~= self.elems());
                }
                Some(node.value)
            },
        }
    }
}

/// A borrowing iterator over a list, front to back.
pub struct LinkedListIterator<'a, T> {
    node: &'a Option<Box<Node<T>>>,
}

impl<'a, T> LinkedListIterator<'a, T> {
    /// The values the iterator has not yet handed out.
    pub closed spec fn remaining(self) -> Seq<T> {
        node_seq(*self.node)
    }

    /// An iterator over the whole list.
    pub fn new(l: &'a LinkedList<T>) -> (r: LinkedListIterator<'a, T>)
        ensures
            r.remaining() == l.elems(),
    {
        LinkedListIterator { node: &l.head }
    }

    /// The next value, front to back, or `None` at the end.
    pub fn next(&mut self) -> (r: Option<&'a T>)
        ensures
            old(self).remaining().len() == 0 ==> r is None && final(self).remaining()
                == old(self).remaining(),
            old(self).remaining().len() > 0 ==> (r matches Some(v) && *v
                == old(self).remaining()[0]) && final(self).remaining()
                == old(self).remaining().drop_first(),
    {
        match self.node.as_ref() {
            None => None,
            Some(n) => {
                self.node = &n.next;
                proof {
                    assert(old(self).remaining().drop_first() =~= self.remaining());
                }
                Some(&n.value)
            },
        }
    }
}

} // verus!
