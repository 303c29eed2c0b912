//! Connection ids: the acceptor numbers the connections it hands off from 1
//! upwards and never gives one number twice.

use vstd::prelude::*;

verus! {

/// Hands out connection ids.
pub struct Acceptor {
    next_id: usize,
}

impl Acceptor {
    /// The id that the next accepted connection gets; 0 once all are used.
    pub closed spec fn next_id(&self) -> nat {
        self.next_id as nat
    }

    /// An acceptor before its first connection.
    pub fn new() -> (r: Acceptor)
        ensures
            r.next_id() == 1,
    {
        Acceptor { next_id: 1 }
    }

    /// The id for a connection whose handshake succeeded: the next one in
    /// order, or none once every id has been given out.
    pub fn assign(&mut self) -> (r: Option<usize>)
        ensures
            old(self).next_id() == 0 ==> r is None && final(self).next_id() == 0,
            0 < old(self).next_id() < usize::MAX ==> r == Some(old(self).next_id() as usize)
                && final(self).next_id() == old(self).next_id() + 1,
            old(self).next_id() == usize::MAX ==> r == Some(usize::MAX) && final(self).next_id()
                == 0,
    {
        if self.next_id == 0 {
            None
        } else {
            let id = self.next_id;
            self.next_id = if id < usize::MAX {
                id + 1
            } else {
                0
            };
            Some(id)
        }
    }
}

} // verus!
