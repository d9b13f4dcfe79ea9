//! The dispatch registry: which handler serves a packet of which name.

use crate::button::str_equal;
use crate::lookup::{first_index, known, lemma_first_index, lemma_first_index_is_first};
use crate::packet::SocketPacket;
use vstd::prelude::*;

verus! {

/// A handler under the packet name it serves.
pub struct Registration<H> {
    pub name: String,
    pub handler: H,
}

/// The table from packet names to handlers. It is built at startup and
/// asked for every packet that comes in.
pub struct DispatchRegistry<H> {
    pub entries: Vec<Registration<H>>,
}

impl<H> DispatchRegistry<H> {
    /// The names that have a handler, in the order of their registration.
    pub open spec fn names(&self) -> Seq<Seq<char>> {
        self.entries@.map_values(|e: Registration<H>| e.name@)
    }

    /// The handler that serves packets called `name`, if there is one.
    pub open spec fn handler_of(&self, name: Seq<char>) -> Option<H> {
        if known(self.names(), name) {
            Some(self.entries@[first_index(self.names(), name)].handler)
        } else {
            None
        }
    }

    /// A registry without handlers.
    pub fn new() -> (r: DispatchRegistry<H>)
        ensures
            r.entries@.len() == 0,
            forall|name: Seq<char>| r.handler_of(name).is_none(),
    {
        let r = DispatchRegistry { entries: Vec::new() };
        assert forall|name: Seq<char>| r.handler_of(name).is_none() by {
            lemma_first_index_is_first(r.names(), name);
        }
        r
    }

    /// The place of the handler for `name`.
    pub fn find(&self, name: &str) -> (r: Option<usize>)
        ensures
            match r {
                Some(i) => i == first_index(self.names(), name@) && known(self.names(), name@),
                None => !known(self.names(), name@),
            },
    {
        let mut i: usize = 0;
        while i < self.entries.len()
            invariant
                i <= self.entries.len(),
                forall|j: int| 0 <= j < i ==> self.names()[j] != name@,
            decreases self.entries.len() - i,
        {
            if str_equal(self.entries[i].name.as_str(), name) {
                proof {
                    lemma_first_index(self.names(), name@, i as int);
                }
                return Some(i);
            }
            i = i + 1;
        }
        proof {
            lemma_first_index(self.names(), name@, i as int);
        }
        None
    }

    /// Registers `handler` for packets called `name`, in place of the
    /// handler registered for that name before. Every other name keeps its
    /// handler.
    pub fn register(&mut self, name: String, handler: H)
        ensures
            final(self).handler_of(name@) == Some(handler),
            forall|other: Seq<char>|
                other != name@ ==> final(self).handler_of(other) == old(self).handler_of(other),
    {
        let ghost names0 = self.names();
        let ghost n = self.entries@.len() as int;
        proof {
            lemma_first_index_is_first(names0, name@);
        }
        match self.find(name.as_str()) {
            Some(i) => {
                self.entries.set(i, Registration { name, handler });
                assert(self.names() =~= names0);
            },
            None => {
                self.entries.push(Registration { name, handler });
                assert(self.names() =~= names0.push(name@));
                proof {
                    lemma_first_index(self.names(), name@, n);
                }
            },
        }
        assert forall|other: Seq<char>| other != name@ implies self.handler_of(other) == old(
            self,
        ).handler_of(other) by {
            lemma_first_index_is_first(names0, other);
            lemma_first_index_is_first(self.names(), other);
            let a = first_index(names0, other);
            if a < n {
                assert(self.names()[a] == other);
                assert forall|j: int| 0 <= j < a implies self.names()[j] != other by {
                    assert(names0[j] != other);
                }
                lemma_first_index(self.names(), other, a);
            } else {
                let b = first_index(self.names(), other);
                if b < self.names().len() {
                    assert(self.names()[b] == other);
                    if b < n {
                        assert(names0[b] == other);
                    }
                }
            }
        }
    }

    /// The handler that serves `packet`, by its name. A packet of a name
    /// without handler has none and is left alone.
    pub fn handler_for(&self, packet: &SocketPacket) -> (r: Option<&H>)
        ensures
            match r {
                Some(h) => self.handler_of(packet@.ty) == Some(*h),
                None => self.handler_of(packet@.ty).is_none(),
            },
    {
        match self.find(packet.ty.as_str()) {
            Some(i) => Some(&self.entries[i].handler),
            None => None,
        }
    }
}

} // verus!
