use vstd::prelude::*;
use std::rc::Rc;

verus! {

/// A singly linked list whose tail may be shared with other lists.
#[derive(Debug)]
pub enum List {
    Cons(i32, Rc<List>),
    Nil,
}

impl List {
    /// The values of the list from the head on, following shared tails.
    pub open spec fn spec_values(&self) -> Seq<i32>
        decreases self,
    {
        match self {
            List::Cons(v, tail) => seq![*v] + (**tail).spec_values(),
            List::Nil => Seq::empty(),
        }
    }

    /// The values of the list from the head on, following shared tails.
    pub fn values(&self) -> (r: Vec<i32>)
        ensures
            r@ == self.spec_values(),
        decreases self,
    {
        match self {
            List::Cons(v, tail) => {
                let mut r: Vec<i32> = Vec::new();
                r.push(*v);
                let mut rest = tail.values();
                r.append(&mut rest);
                r
            },
            List::Nil => Vec::new(),
        }
    }
}

/// Lists `5, 10`, then `3` and `4` in front of that same tail.
pub fn rc_can_be_connected_with_others() -> (r: (Rc<List>, List, List))
    ensures
        (*r.0).spec_values() == seq![5i32, 10],
        r.1.spec_values() == seq![3i32, 5, 10],
        r.2.spec_values() == seq![4i32, 5, 10],
{
    let nil = Rc::new(List::Nil);
    assert(*nil == List::Nil);
    assert((*nil).spec_values() =~= Seq::<i32>::empty());
    let tail = List::Cons(10, nil);
    assert(tail.spec_values() =~= seq![10i32]);
    let a = Rc::new(List::Cons(5, Rc::new(tail)));
    let b = List::Cons(3, Rc::clone(&a));
    let c = List::Cons(4, Rc::clone(&a));
    assert((*a).spec_values() =~= seq![5i32, 10]);
    assert(b.spec_values() =~= seq![3i32, 5, 10]);
    assert(c.spec_values() =~= seq![4i32, 5, 10]);
    (a, b, c)
}

/// A list that other lists use as their tail, together with those lists.
/// Each sharing list holds one `Rc` pointer to the tail; the fields are
/// private and no borrow of a pointer is handed out, so the pointers to the
/// tail are exactly `tail` and one in each sharing list.
pub struct SharedTail {
    tail: Rc<List>,
    sharers: Vec<List>,
}

impl SharedTail {
    /// The number of lists alive that hold the tail, the tail's own pointer included.
    pub closed spec fn holders(&self) -> nat {
        1 + self.sharers@.len()
    }

    /// The values of the tail.
    pub closed spec fn tail_values(&self) -> Seq<i32> {
        (*self.tail).spec_values()
    }

    /// The values of each sharing list, in the order they were made.
    pub closed spec fn sharer_values(&self) -> Seq<Seq<i32>> {
        self.sharers@.map_values(|l: List| l.spec_values())
    }

    /// `list`, ready to be shared, with nothing sharing it yet.
    pub fn new(list: List) -> (r: SharedTail)
        ensures
            r.holders() == 1,
            r.tail_values() == list.spec_values(),
            r.sharer_values() == Seq::<Seq<i32>>::empty(),
    {
        let r = SharedTail { tail: Rc::new(list), sharers: Vec::new() };
        assert(r.sharer_values() =~= Seq::<Seq<i32>>::empty());
        r
    }

    /// Makes a list of `head` in front of the shared tail: one more holder.
    pub fn share(&mut self, head: i32)
        ensures
            final(self).holders() == old(self).holders() + 1,
            final(self).tail_values() == old(self).tail_values(),
            final(self).sharer_values() == old(self).sharer_values().push(
                seq![head] + old(self).tail_values(),
            ),
    {
        let list = List::Cons(head, Rc::clone(&self.tail));
        assert(list.spec_values() == seq![head] + self.tail_values());
        self.sharers.push(list);
        assert(self.sharer_values() =~= old(self).sharer_values().push(
            seq![head] + old(self).tail_values(),
        ));
    }

    /// Drops the sharing list made last: one holder fewer.
    pub fn release(&mut self)
        requires
            old(self).holders() > 1,
        ensures
            final(self).holders() == old(self).holders() - 1,
            final(self).tail_values() == old(self).tail_values(),
            final(self).sharer_values() == old(self).sharer_values().drop_last(),
    {
        let _ = self.sharers.pop();
        assert(self.sharer_values() =~= old(self).sharer_values().drop_last());
    }

    /// Relies on `Rc::strong_count`: the number of `Rc` pointers to the
    /// tail, which are `tail` and one in each sharing list.
    #[verifier::external_body]
    pub(crate) fn strong_count(&self) -> (r: usize)
        ensures
            r == self.holders(),
    {
        Rc::strong_count(&self.tail)
    }
}

/// The number of pointers to a shared tail: after it is made, after a second
/// list takes it, after a third list in an inner scope takes it, and after
/// that scope ends.
pub fn prints_number_of_pointers() -> (r: Vec<usize>)
    ensures
        r@ == seq![1usize, 2, 3, 2],
{
    let mut counts: Vec<usize> = Vec::new();
    let mut a = SharedTail::new(List::Cons(5, Rc::new(List::Cons(10, Rc::new(List::Nil)))));
    counts.push(a.strong_count());
    a.share(3);
    counts.push(a.strong_count());
    a.share(4);
    counts.push(a.strong_count());
    a.release();
    counts.push(a.strong_count());
    assert(counts@ =~= seq![1usize, 2, 3, 2]);
    counts
}

/// A list cell that owns its tail through a `Box` cannot share that tail
/// with a second list; sharing a tail takes reference counting, as in `List`.
pub fn cons_cannot_be_connected_with_others() {
}

} // verus!
