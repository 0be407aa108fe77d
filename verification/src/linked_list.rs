//! A list that grows and shrinks at both ends, built from nodes that each own
//! the next one.

use vstd::prelude::*;

verus! {

/// One element of a list and the link to the elements after it.
#[derive(Debug)]
pub struct Node<T> {
    data: T,
    next: Option<Box<Node<T>>>,
}

/// A chain of nodes and the number of nodes in it.
#[derive(Debug)]
struct Chain<T> {
    head: Option<Box<Node<T>>>,
    size: usize,
}

/// A list of `T`, read from the front to the back.
#[derive(Debug)]
pub struct List<T> {
    chain: Chain<T>,
}

impl<T> Node<T> {
    /// The elements reached from a link, in order.
    pub closed spec fn items(link: Option<Box<Node<T>>>) -> Seq<T>
        decreases link,
    {
        match link {
            None => Seq::empty(),
            Some(node) => seq![node.data] + Node::items(node.next),
        }
    }

    /// A node that holds `data` and has nothing after it.
    pub fn new(data: T) -> (node: Box<Self>)
        ensures
            Node::items(Some(node)) == seq![data],
    {
        let node = Box::new(Node { data, next: None });
        assert(Node::items(Some(node)) =~= seq![data]) by {
            assert(Node::<T>::items(None) =~= Seq::empty());
        }
        node
    }

    /// Takes the last element reached from `link` off the chain, if there
    /// is one.
    fn detach_last(link: &mut Option<Box<Node<T>>>) -> (last: Option<T>)
        ensures
            Node::items(*old(link)).len() == 0 ==> last is None && Node::items(*final(link))
                == Node::items(*old(link)),
            Node::items(*old(link)).len() > 0 ==> last == Some(Node::items(*old(link)).last())
                && Node::items(*final(link)) == Node::items(*old(link)).drop_last(),
    {
        let ghost whole = *link;
        let ghost mut passed: nat = 0;
        let mut cur = link;
        loop
            invariant
                passed <= Node::items(whole).len(),
                Node::items(whole).len() > 0 ==> passed < Node::items(whole).len(),
                *cur == Node::behind(whole, passed),
                *final(link) == Node::graft(whole, passed, *final(cur)),
            ensures
                *cur is None || (*cur)->Some_0.next is None,
            decreases Node::items(whole).len() - passed,
        {
            let at_end = match cur.as_ref() {
                None => true,
                Some(node) => node.next.is_none(),
            };
            if at_end {
                break;
            }
            proof {
                Node::lemma_graft_items(whole, passed, None);
            }
            match cur {
                None => {},
                Some(node) => {
                    assert(Node::items(Some(*node)) == seq![node.data] + Node::items(node.next));
                    assert(Node::items(node.next).len() > 0);
                    cur = &mut node.next;
                    proof {
                        Node::lemma_graft_step(whole, passed, *final(cur));
                        passed = passed + 1;
                    }
                },
            }
        }
        proof {
            Node::lemma_graft_items(whole, passed, None);
            assert(Node::<T>::items(None) =~= Seq::empty());
        }
        let mut taken: Option<Box<Node<T>>> = None;
        core::mem::swap(cur, &mut taken);
        match taken {
            None => {
                assert(Node::items(whole).take(passed as int) + Node::<T>::items(None)
                    =~= Node::items(whole));
                None
            },
            Some(node) => {
                let Node { data, next } = *node;
                proof {
                    assert(Node::items(Some(node)) =~= seq![data]);
                    assert(Node::items(whole).skip(passed as int).len() == 1);
                    assert(Node::items(whole).skip(passed as int)[0] == data);
                    assert(Node::items(whole).take(passed as int) + Node::<T>::items(None)
                        =~= Node::items(whole).drop_last());
                }
                Some(data)
            },
        }
    }

    /// The last element reached from `node`.
    fn last(node: &Box<Node<T>>) -> (data: &T)
        ensures
            *data == Node::items(Some(*node)).last(),
    {
        let mut cur = node;
        loop
            invariant
                Node::items(Some(*cur)).len() > 0,
                Node::items(Some(*cur)).last() == Node::items(Some(*node)).last(),
            decreases Node::items(Some(*cur)).len(),
        {
            assert(Node::items(Some(*cur)) == seq![cur.data] + Node::items(cur.next));
            match &cur.next {
                None => {
                    assert(Node::<T>::items(None) =~= Seq::empty());
                    return &cur.data;
                },
                Some(next) => {
                    assert(Node::items(Some(*next)) == seq![next.data] + Node::items(next.next));
                    cur = next;
                },
            }
        }
    }

    /// The chain `link` with everything behind its first `keep` nodes
    /// replaced by `tail`.
    spec fn graft(
        link: Option<Box<Node<T>>>,
        keep: nat,
        tail: Option<Box<Node<T>>>,
    ) -> Option<Box<Node<T>>>
        decreases keep,
    {
        if keep == 0 {
            tail
        } else {
            match link {
                None => tail,
                Some(node) => {
                    let rest = Node::graft(node.next, (keep - 1) as nat, tail);
                    Some(Box::new(Node { data: node.data, next: rest }))
                },
            }
        }
    }

    /// What hangs behind the first `skip` nodes of `link`.
    spec fn behind(link: Option<Box<Node<T>>>, skip: nat) -> Option<Box<Node<T>>>
        decreases skip,
    {
        if skip == 0 {
            link
        } else {
            match link {
                None => None,
                Some(node) => Node::behind(node.next, (skip - 1) as nat),
            }
        }
    }

    /// Grafting behind one node more, for a tail that starts with the node
    /// that stood there anyway.
    proof fn lemma_graft_step(
        link: Option<Box<Node<T>>>,
        keep: nat,
        tail: Option<Box<Node<T>>>,
    )
        requires
            Node::behind(link, keep) is Some,
        ensures
            Node::graft(
                link,
                keep,
                Some(Box::new(Node { data: Node::behind(link, keep)->Some_0.data, next: tail })),
            ) == Node::graft(link, keep + 1, tail),
            Node::behind(link, keep + 1) == Node::behind(link, keep)->Some_0.next,
        decreases keep,
    {
        reveal_with_fuel(Node::graft, 2);
        reveal_with_fuel(Node::behind, 2);
        if keep > 0 {
            match link {
                None => {},
                Some(node) => {
                    Node::lemma_graft_step(node.next, (keep - 1) as nat, tail);
                },
            }
        }
    }

    /// A graft holds the first elements of the chain and then those of the
    /// tail.
    proof fn lemma_graft_items(
        link: Option<Box<Node<T>>>,
        keep: nat,
        tail: Option<Box<Node<T>>>,
    )
        requires
            keep <= Node::items(link).len(),
        ensures
            Node::items(Node::graft(link, keep, tail)) == Node::items(link).take(keep as int)
                + Node::items(tail),
            Node::items(Node::behind(link, keep)) == Node::items(link).skip(keep as int),
        decreases keep,
    {
        if keep == 0 {
            assert(Node::items(link).take(0) + Node::items(tail) =~= Node::items(tail));
            assert(Node::items(link).skip(0) =~= Node::items(link));
        } else {
            match link {
                None => {},
                Some(node) => {
                    Node::lemma_graft_items(node.next, (keep - 1) as nat, tail);
                    assert(Node::items(link).take(keep as int) =~= seq![node.data] + Node::items(
                        node.next,
                    ).take(keep - 1));
                    assert(Node::items(link).skip(keep as int) =~= Node::items(node.next).skip(
                        keep - 1,
                    ));
                },
            }
        }
    }

    /// Hangs `node` behind the last element reached from `link`.
    fn append(link: &mut Option<Box<Node<T>>>, node: Box<Node<T>>)
        ensures
            Node::items(*final(link)) == Node::items(*old(link)) + Node::items(Some(node)),
    {
        let ghost whole = *link;
        let ghost mut passed: nat = 0;
        let mut cur = link;
        loop
            invariant
                passed <= Node::items(whole).len(),
                *cur == Node::behind(whole, passed),
                *final(link) == Node::graft(whole, passed, *final(cur)),
            ensures
                passed == Node::items(whole).len(),
                *cur is None,
            decreases Node::items(whole).len() - passed,
        {
            proof {
                Node::lemma_graft_items(whole, passed, None);
            }
            match cur {
                None => {
                    assert(Node::<T>::items(None).len() == 0);
                    break;
                },
                Some(first) => {
                    assert(Node::items(Some(*first)).len() > 0);
                    cur = &mut first.next;
                    proof {
                        Node::lemma_graft_step(whole, passed, *final(cur));
                        passed = passed + 1;
                    }
                },
            }
        }
        *cur = Some(node);
        proof {
            Node::lemma_graft_items(whole, passed, Some(node));
            assert(Node::items(whole).take(passed as int) =~= Node::items(whole));
        }
    }
}

impl<T> Chain<T> {
    #[verifier::type_invariant]
    spec fn counted(&self) -> bool {
        self.size == Node::items(self.head).len()
    }

    fn empty() -> (chain: Self)
        ensures
            chain.head is None,
        opens_invariants none
        no_unwind
    {
        Chain { head: None, size: 0 }
    }
}

impl<T> View for List<T> {
    type V = Seq<T>;

    closed spec fn view(&self) -> Seq<T> {
        Node::items(self.chain.head)
    }
}

impl<T> Default for List<T> {
    fn default() -> (list: Self)
        ensures
            list@ == Seq::<T>::empty(),
    {
        List { chain: Chain::empty() }
    }
}

impl<T> Drop for List<T> {
    /// Takes the nodes off one by one, so that a long list is given up
    /// without a long chain of calls.
    fn drop(&mut self)
        opens_invariants none
        no_unwind
    {
        let (head, _) = self.take();
        let mut rest = head;
        loop
            decreases Node::items(rest).len(),
        {
            match rest {
                None => {
                    break;
                },
                Some(node) => {
                    let Node { data: _, next } = *node;
                    assert(Node::items(Some(node)) == seq![node.data] + Node::items(next));
                    rest = next;
                },
            }
        }
    }
}

impl<T> List<T> {

    /// The empty list.
    pub fn new() -> (list: Self)
        ensures
            list@ == Seq::<T>::empty(),
    {
        Self::default()
    }

    /// The number of elements.
    pub fn len(&self) -> (len: usize)
        ensures
            len == self@.len(),
    {
        proof {
            use_type_invariant(&self.chain);
        }
        self.chain.size
    }

    /// Whether the list has no element.
    pub fn is_empty(&self) -> (empty: bool)
        ensures
            empty == (self@.len() == 0),
    {
        proof {
            use_type_invariant(&self.chain);
        }
        self.chain.size == 0
    }

    /// Empties the list and hands out what it held.
    fn take(&mut self) -> (parts: (Option<Box<Node<T>>>, usize))
        ensures
            Node::items(parts.0) == old(self)@,
            parts.1 == old(self)@.len(),
            final(self)@ == Seq::<T>::empty(),
        opens_invariants none
        no_unwind
    {
        let mut taken = Chain::empty();
        core::mem::swap(&mut self.chain, &mut taken);
        proof {
            use_type_invariant(&taken);
        }
        let Chain { head, size } = taken;
        (head, size)
    }

    /// Puts `data` before the first element.
    pub fn push_front(&mut self, data: T)
        requires
            old(self)@.len() < usize::MAX,
        ensures
            final(self)@ == seq![data] + old(self)@,
    {
        let (head, size) = self.take();
        let node = Box::new(Node { data, next: head });
        self.chain = Chain { head: Some(node), size: size + 1 };
    }

    /// Puts `data` behind the last element.
    pub fn push_back(&mut self, data: T)
        requires
            old(self)@.len() < usize::MAX,
        ensures
            final(self)@ == old(self)@.push(data),
    {
        let (head, size) = self.take();
        let mut head = head;
        let node = Node::new(data);
        Node::append(&mut head, node);
        assert(old(self)@ + seq![data] =~= old(self)@.push(data));
        self.chain = Chain { head, size: size + 1 };
    }

    /// Takes the first element off, if there is one.
    pub fn pop_front(&mut self) -> (data: Option<T>)
        ensures
            old(self)@.len() == 0 ==> data is None && final(self)@ == old(self)@,
            old(self)@.len() > 0 ==> data == Some(old(self)@.first()) && final(self)@ == old(
                self,
            )@.drop_first(),
    {
        let (head, size) = self.take();
        match head {
            None => None,
            Some(head) => {
                let Node { data, next } = *head;
                assert((seq![data] + Node::items(next)).drop_first() =~= Node::items(next));
                self.chain = Chain { head: next, size: size - 1 };
                Some(data)
            },
        }
    }

    /// Takes the last element off, if there is one.
    pub fn pop_back(&mut self) -> (data: Option<T>)
        ensures
            old(self)@.len() == 0 ==> data is None && final(self)@ == old(self)@,
            old(self)@.len() > 0 ==> data == Some(old(self)@.last()) && final(self)@ == old(
                self,
            )@.drop_last(),
    {
        let (head, size) = self.take();
        let mut head = head;
        match Node::detach_last(&mut head) {
            None => None,
            Some(last) => {
                self.chain = Chain { head, size: size - 1 };
                Some(last)
            },
        }
    }

    /// The first element, if there is one.
    pub fn front(&self) -> (data: Option<&T>)
        ensures
            self@.len() == 0 ==> data is None,
            self@.len() > 0 ==> data == Some(&self@.first()),
    {
        match &self.chain.head {
            None => None,
            Some(head) => Some(&head.data),
        }
    }

    /// The last element, if there is one.
    pub fn back(&self) -> (data: Option<&T>)
        ensures
            self@.len() == 0 ==> data is None,
            self@.len() > 0 ==> data == Some(&self@.last()),
    {
        match &self.chain.head {
            None => None,
            Some(head) => Some(Node::last(head)),
        }
    }

    /// Hands the elements out one by one, from either end.
    pub fn into_iter(self) -> (iter: IntoIter<T>)
        ensures
            iter@ == self@,
    {
        IntoIter(self)
    }
}

/// The elements of a list that have not been handed out yet.
#[derive(Debug)]
pub struct IntoIter<T>(List<T>);

impl<T> View for IntoIter<T> {
    type V = Seq<T>;

    closed spec fn view(&self) -> Seq<T> {
        self.0@
    }
}

impl<T> IntoIter<T> {
    /// Hands out the first of the remaining elements.
    pub fn next(&mut self) -> (data: Option<T>)
        ensures
            old(self)@.len() == 0 ==> data is None && final(self)@ == old(self)@,
            old(self)@.len() > 0 ==> data == Some(old(self)@.first()) && final(self)@ == old(
                self,
            )@.drop_first(),
    {
        self.0.pop_front()
    }

    /// Hands out the last of the remaining elements.
    pub fn next_back(&mut self) -> (data: Option<T>)
        ensures
            old(self)@.len() == 0 ==> data is None && final(self)@ == old(self)@,
            old(self)@.len() > 0 ==> data == Some(old(self)@.last()) && final(self)@ == old(
                self,
            )@.drop_last(),
    {
        self.0.pop_back()
    }

    /// How many elements remain, as a lower and an upper bound.
    pub fn size_hint(&self) -> (bounds: (usize, Option<usize>))
        ensures
            bounds.0 == self@.len(),
            bounds.1 == Some(bounds.0),
    {
        let size = self.0.len();
        (size, Some(size))
    }
}

} // verus!
