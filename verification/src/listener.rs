use vstd::prelude::*;
use crate::text::str_eq;

verus! {

/// The subscribers to clipboard change notifications: each name has one
/// channel `T` through which it is notified.
pub struct SubscriberRegistry<T> {
    names: Vec<String>,
    channels: Vec<T>,
}

impl<T> SubscriberRegistry<T> {
    /// Each name has one channel, and no name occurs twice.
    pub closed spec fn wf(&self) -> bool {
        &&& self.names@.len() == self.channels@.len()
        &&& forall|i: int, j: int|
            0 <= i < self.names@.len() && 0 <= j < self.names@.len() && i != j
                ==> #[trigger] self.names@[i]@ != #[trigger] self.names@[j]@
    }

    /// The position of a subscribed name.
    closed spec fn position(&self, name: Seq<char>) -> int {
        choose|i: int| 0 <= i < self.names@.len() && #[trigger] self.names@[i]@ == name
    }

    /// The name is subscribed.
    closed spec fn has(&self, name: Seq<char>) -> bool {
        exists|i: int| 0 <= i < self.names@.len() && #[trigger] self.names@[i]@ == name
    }

    /// The names of the subscribers, in subscription order.
    closed spec fn name_seq(&self) -> Seq<Seq<char>> {
        self.names@.map_values(|s: String| s@)
    }

    proof fn lemma_position(&self, i: int)
        requires
            self.wf(),
            0 <= i < self.names@.len(),
        ensures
            self.has(self.names@[i]@),
            self.position(self.names@[i]@) == i,
    {
        let p = self.position(self.names@[i]@);
        assert(self.names@[i]@ == self.names@[i]@);
        assert(0 <= p < self.names@.len() && self.names@[p]@ == self.names@[i]@);
    }
}

impl<T> View for SubscriberRegistry<T> {
    type V = Map<Seq<char>, T>;

    /// Each subscribed name with its channel.
    closed spec fn view(&self) -> Map<Seq<char>, T> {
        Map::new(|k: Seq<char>| self.has(k), |k: Seq<char>| self.channels@[self.position(k)])
    }
}

impl<T> SubscriberRegistry<T> {
    /// No subscribers.
    pub fn new() -> (r: SubscriberRegistry<T>)
        ensures
            r.wf(),
            r@ == Map::<Seq<char>, T>::empty(),
    {
        let r = SubscriberRegistry { names: Vec::new(), channels: Vec::new() };
        assert(r@ =~= Map::<Seq<char>, T>::empty());
        r
    }

    /// The position of `name`, if it is subscribed.
    fn find(&self, name: &str) -> (pos: Option<usize>)
        requires
            self.wf(),
        ensures
            pos matches Some(i) ==> i < self.names@.len() && self.names@[i as int]@ == name@,
            pos is None ==> !self.has(name@),
    {
        let n = self.names.len();
        let mut i: usize = 0;
        while i < n
            invariant
                n == self.names@.len(),
                0 <= i <= n,
                forall|k: int| 0 <= k < i ==> #[trigger] self.names@[k]@ != name@,
            decreases n - i,
        {
            if str_eq(self.names[i].as_str(), name) {
                return Some(i);
            }
            i += 1;
        }
        None
    }

    /// Subscribes `name` with `channel`, replacing the channel it had; gives
    /// back the replaced channel.
    pub fn subscribe(&mut self, name: String, channel: T) -> (replaced: Option<T>)
        requires
            old(self).wf(),
        ensures
            final(self).wf(),
            final(self)@ == old(self)@.insert(name@, channel),
            old(self)@.contains_key(name@) ==> replaced == Some(old(self)@[name@]),
            !old(self)@.contains_key(name@) ==> replaced is None,
    {
        let ghost before = *self;
        match self.find(name.as_str()) {
            Some(i) => {
                proof {
                    before.lemma_position(i as int);
                }
                let old_channel = self.channels.remove(i);
                self.channels.insert(i, channel);
                proof {
                    assert(self.channels@ =~= before.channels@.update(i as int, channel));
                    assert(self.names == before.names);
                    assert forall|k: Seq<char>| #[trigger] self.has(k) == before.has(k) by {
                        if self.has(k) {
                            let p = self.position(k);
                            assert(before.names@[p]@ == k);
                        }
                        if before.has(k) {
                            let p = before.position(k);
                            assert(self.names@[p]@ == k);
                        }
                    }
                    assert forall|k: Seq<char>| self.has(k) implies #[trigger] self.position(k)
                        == before.position(k) by {
                        let p = before.position(k);
                        before.lemma_position(p);
                        self.lemma_position(p);
                    }
                    assert(self@ =~= before@.insert(name@, channel));
                }
                Some(old_channel)
            },
            None => {
                let ghost n = self.names@.len();
                self.names.push(name);
                self.channels.push(channel);
                proof {
                    assert(self.names@[n as int]@ == name@);
                    assert forall|k: Seq<char>| #[trigger] self.has(k) == (before.has(k) || k
                        == name@) by {
                        if before.has(k) {
                            let p = before.position(k);
                            assert(self.names@[p]@ == k);
                        }
                        if self.has(k) && k != name@ {
                            let p = self.position(k);
                            assert(before.names@[p]@ == k);
                        }
                    }
                    assert forall|k: Seq<char>| self.has(k) implies self.channels@[#[trigger] self.position(k)]
                        == before@.insert(name@, channel)[k] by {
                        if k == name@ {
                            self.lemma_position(n as int);
                        } else {
                            let p = before.position(k);
                            before.lemma_position(p);
                            self.lemma_position(p);
                        }
                    }
                    assert(self@ =~= before@.insert(name@, channel));
                }
                None
            },
        }
    }

    /// Unsubscribes `name`; gives back its channel if it was subscribed.
    pub fn unsubscribe(&mut self, name: &str) -> (removed: Option<T>)
        requires
            old(self).wf(),
        ensures
            final(self).wf(),
            final(self)@ == old(self)@.remove(name@),
            old(self)@.contains_key(name@) ==> removed == Some(old(self)@[name@]),
            !old(self)@.contains_key(name@) ==> removed is None,
    {
        let ghost before = *self;
        match self.find(name) {
            Some(i) => {
                proof {
                    before.lemma_position(i as int);
                }
                self.names.remove(i);
                let channel = self.channels.remove(i);
                proof {
                    assert forall|a: int, b: int|
                        0 <= a < self.names@.len() && 0 <= b < self.names@.len() && a != b
                            implies #[trigger] self.names@[a]@ != #[trigger] self.names@[b]@ by {
                        let a0 = if a < i { a } else { a + 1 };
                        let b0 = if b < i { b } else { b + 1 };
                        assert(self.names@[a] == before.names@[a0]);
                        assert(self.names@[b] == before.names@[b0]);
                    }
                    assert forall|k: Seq<char>| #[trigger] self.has(k) == (before.has(k) && k
                        != name@) by {
                        if before.has(k) && k != name@ {
                            let p = before.position(k);
                            before.lemma_position(p);
                            let q = if p < i { p } else { p - 1 };
                            assert(p != i);
                            assert(self.names@[q] == before.names@[p]);
                        }
                        if self.has(k) {
                            let q = self.position(k);
                            let p = if q < i { q } else { q + 1 };
                            assert(self.names@[q] == before.names@[p]);
                            assert(before.names@[p]@ == k);
                            if k == name@ {
                                assert(p != i);
                            }
                        }
                    }
                    assert forall|k: Seq<char>| self.has(k) implies self.channels@[#[trigger] self.position(k)]
                        == before@[k] by {
                        let q = self.position(k);
                        self.lemma_position(q);
                        let p = if q < i { q } else { q + 1 };
                        assert(self.names@[q] == before.names@[p]);
                        before.lemma_position(p);
                    }
                    assert(self@ =~= before@.remove(name@));
                }
                Some(channel)
            },
            None => {
                assert(self@ =~= before@.remove(name@));
                None
            },
        }
    }

    /// Whether nobody is subscribed.
    pub fn is_empty(&self) -> (empty: bool)
        requires
            self.wf(),
        ensures
            empty == (self@ == Map::<Seq<char>, T>::empty()),
    {
        let empty = self.names.len() == 0;
        proof {
            if empty {
                assert(self@ =~= Map::<Seq<char>, T>::empty());
            } else {
                self.lemma_position(0int);
                assert(self@.contains_key(self.names@[0]@));
            }
        }
        empty
    }

    /// The channels of all subscribers, each once, in subscription order.
    pub fn channels(&self) -> (channels: &Vec<T>)
        requires
            self.wf(),
        ensures
            exists|names: Seq<Seq<char>>|
                {
                    &&& names.len() == channels@.len()
                    &&& names.no_duplicates()
                    &&& names.to_set() == self@.dom()
                    &&& forall|i: int| 0 <= i < names.len() ==> #[trigger] self@[names[i]] == channels@[i]
                },
    {
        let ghost names = self.name_seq();
        proof {
            assert forall|i: int| 0 <= i < names.len() implies #[trigger] self@[names[i]]
                == self.channels@[i] by {
                self.lemma_position(i);
            }
            assert forall|k: Seq<char>| #[trigger] names.to_set().contains(k) == self@.dom().contains(k) by {
                if self.has(k) {
                    let p = self.position(k);
                    assert(names[p] == k);
                }
                if names.contains(k) {
                    let p = choose|p: int| 0 <= p < names.len() && names[p] == k;
                    assert(self.names@[p]@ == k);
                }
            }
            assert(names.to_set() =~= self@.dom());
        }
        &self.channels
    }
}

} // verus!
