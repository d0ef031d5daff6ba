//! A singly linked list that owns its elements.
//!
//! The model of a list is the sequence of its values, head first.

use vstd::prelude::*;

verus! {

/// One link of a list: a value and the links that follow it.
#[derive(Debug)]
pub struct ListElement<T> {
    pub value: T,
    pub next: Option<Box<ListElement<T>>>,
}

/// A list, identified by its first link.
#[derive(Debug)]
pub struct List<T> {
    pub head: Option<Box<ListElement<T>>>,
}

/// The values held from an optional link onwards.
pub open spec fn link_view<T>(link: Option<Box<ListElement<T>>>) -> Seq<T>
    decreases link,
{
    match link {
        None => Seq::empty(),
        Some(element) => seq![element.value] + link_view(element.next),
    }
}

impl<T> ListElement<T> {
    /// The values held from this link onwards: never empty.
    pub open spec fn view(&self) -> Seq<T> {
        seq![self.value] + link_view(self.next)
    }

    /// A link that holds `value` and has no successor.
    pub fn new(value: T) -> (element: Self)
        ensures
            element.value == value,
            element.next is None,
            element@ == seq![value],
    {
        let element = Self { value, next: None };
        element
    }

    /// Makes `element` the successor of this link, dropping any former successor,
    /// and hands out the new successor.
    pub fn push(&mut self, element: Self) -> (successor: Option<&mut Box<ListElement<T>>>)
        ensures
            successor is Some,
            **successor->0 == element,
            final(self).value == old(self).value,
            final(self).next == Some(*final(successor->0)),
    {
        self.next = Some(Box::new(element));
        self.next.as_mut()
    }

    /// The successor, for changing it in place.
    pub fn next_mut(&mut self) -> (successor: Option<&mut Box<ListElement<T>>>)
        ensures
            successor is Some <==> old(self).next is Some,
            successor is Some ==> *successor->0 == old(self).next->0,
            final(self).value == old(self).value,
            successor is Some ==> final(self).next == Some(*final(successor->0)),
            successor is None ==> final(self).next is None,
    {
        self.next.as_mut()
    }

    /// The successor, for reading.
    pub fn next_ref(&self) -> (successor: Option<&Box<ListElement<T>>>)
        ensures
            successor is Some <==> self.next is Some,
            successor is Some ==> *successor->0 == self.next->0,
    {
        self.next.as_ref()
    }

    /// Whether a link follows this one.
    pub fn has_next(&self) -> (yes: bool)
        ensures
            yes == self.next is Some,
            yes == (self@.len() > 1),
    {
        self.next.is_some()
    }

    /// Drops this link's value and moves the successor's value and links into its place.
    /// Without a successor nothing changes and the answer is `None`.
    pub fn pop(&mut self) -> (done: Option<()>)
        ensures
            done is Some <==> old(self).next is Some,
            done is Some ==> *final(self) == *old(self).next->0,
            done is Some ==> final(self)@ == old(self)@.drop_first(),
            done is None ==> *final(self) == *old(self),
    {
        match self.next.take() {
            None => None,
            Some(x) => {
                let ListElement { value, next } = *x;
                self.value = value;
                self.next = next;
                Some(())
            },
        }
    }
}

impl<T> List<T> {
    /// The values of the list, head first.
    pub open spec fn view(&self) -> Seq<T> {
        link_view(self.head)
    }

    /// The empty list.
    pub fn new() -> (list: Self)
        ensures
            list.head is None,
            list@ == Seq::<T>::empty(),
    {
        Self { head: None }
    }

    /// The list that starts at `head`.
    pub fn new_with_head(head: ListElement<T>) -> (list: Self)
        ensures
            list.head == Some(Box::new(head)),
            list@ == head@,
    {
        Self { head: Some(Box::new(head)) }
    }

    /// Removes the first value and returns it; `None` on the empty list.
    pub fn pop(&mut self) -> (value: Option<T>)
        ensures
            old(self)@.len() == 0 ==> value is None && final(self)@ == old(self)@,
            old(self)@.len() > 0 ==> value == Some(old(self)@[0]) && final(self)@ == old(self)@.drop_first(),
    {
        match self.head.take() {
            None => None,
            Some(head) => {
                let ListElement { value, next } = *head;
                self.head = next;
                Some(value)
            },
        }
    }

    /// Takes the list apart into a vector of its values, head first.
    pub fn into_vec(self) -> (values: Vec<T>)
        ensures
            values@ == self@,
    {
        let mut values: Vec<T> = Vec::new();
        let mut current = self.head;
        loop
            invariant
                values@ + link_view(current) == self@,
            decreases link_view(current).len(),
        {
            match current {
                None => {
                    return values;
                },
                Some(link) => {
                    let ListElement { value, next } = *link;
                    values.push(value);
                    current = next;
                },
            }
        }
    }
}

} // verus!
