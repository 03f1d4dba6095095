//! The plan of a pool of database clients: which client each caller is given,
//! and when a new client has to be made.
//!
//! The clients themselves live with the caller, numbered from zero in the order
//! in which the pool asks for them. The pool counts a client only when it is
//! told that the client is there, so that it never counts more clients or
//! callers than there are.

use vstd::prelude::*;

verus! {

/// The number of clients that `calls` handouts need when each client serves
/// `every` of them: `calls / every`, rounded up.
pub open spec fn clients_for(calls: int, every: int) -> int {
    (calls + every - 1) / every
}

/// What a caller is given.
#[derive(Debug, Clone, Copy, PartialEq, Eq, Structural)]
pub struct Handout {
    /// The number of the client.
    pub client: usize,
    /// Whether that client has to be made first.
    pub created: bool,
}

/// The plan of a pool whose clients serve `every_size` callers each.
#[derive(Debug, PartialEq)]
pub struct ClientPool {
    uri: String,
    every_size: u32,
    clients: usize,
    get_index: usize,
}

impl ClientPool {
    #[verifier::type_invariant]
    spec fn inv(self) -> bool {
        if self.every_size == 0 {
            self.clients == 0 && self.get_index == 0
        } else {
            self.clients == clients_for(self.get_index as int, self.every_size as int)
        }
    }

    /// The address of the database.
    pub closed spec fn uri_view(self) -> Seq<char> {
        self.uri@
    }

    /// How many callers one client serves.
    pub closed spec fn every(self) -> u32 {
        self.every_size
    }

    /// How many clients were made.
    pub closed spec fn made(self) -> usize {
        self.clients
    }

    /// How many callers were given a client.
    pub closed spec fn handed_out(self) -> usize {
        self.get_index
    }

    /// What the next caller is given: nothing where the clients serve no caller
    /// or the callers can be counted no further.
    pub open spec fn next_handout(self) -> Option<Handout> {
        if self.every() == 0 || self.handed_out() == usize::MAX {
            None
        } else {
            Some(
                Handout {
                    client: self.handed_out() / (self.every() as usize),
                    created: self.handed_out() % (self.every() as usize) == 0,
                },
            )
        }
    }

    /// A pool that has made no client yet.
    pub fn new(uri: &str, every_size: u32) -> (pool: ClientPool)
        ensures
            pool.uri_view() == uri@,
            pool.every() == every_size,
            pool.made() == 0,
            pool.handed_out() == 0,
    {
        proof {
            if every_size > 0 {
                lemma_next_client(0, every_size as int);
            }
        }
        ClientPool { uri: uri.to_string(), every_size, clients: 0, get_index: 0 }
    }

    /// The address of the database.
    pub fn uri(&self) -> (uri: &str)
        ensures
            uri@ == self.uri_view(),
    {
        self.uri.as_str()
    }

    /// How many clients were made.
    pub fn len(&self) -> (n: usize)
        ensures
            n == self.made(),
            self.every() > 0 ==> n == clients_for(self.handed_out() as int, self.every() as int),
    {
        proof {
            use_type_invariant(self);
        }
        self.clients
    }

    /// The largest number of connections of one client: one more than the callers
    /// that it serves, cut to the largest number that fits.
    pub fn max_pool_size(&self) -> (n: u32)
        ensures
            n == if self.every() == u32::MAX {
                u32::MAX
            } else {
                (self.every() + 1) as u32
            },
    {
        self.every_size.saturating_add(1)
    }

    /// The smallest number of connections of one client: one more than a
    /// hundredth of the callers that it serves.
    pub fn min_pool_size(&self) -> (n: u32)
        ensures
            n == self.every() / 100 + 1,
    {
        self.every_size / 100 + 1
    }

    /// The client for the next caller; the pool itself stays as it is.
    ///
    /// The callers are served in blocks: the first `every` of them by the client
    /// 0, the next `every` by the client 1, and so on, and a client has to be
    /// made when its first caller comes. A pool whose clients serve no caller,
    /// or that has counted as many callers as the machine can count, hands out
    /// nothing.
    ///
    /// Nothing is counted here, because the client may fail to be made: the
    /// caller makes the client where the handout asks for it, and calls
    /// [`ClientPool::commit`] once the client is there. A caller whose client
    /// could not be made leaves the pool as it was, and the next caller is
    /// handed the same.
    pub fn get(&self) -> (r: Option<Handout>)
        ensures
            r == self.next_handout(),
            match r {
                Some(h) => h.client <= self.made() && (h.created <==> h.client == self.made()),
                None => self.every() == 0 || self.handed_out() == usize::MAX,
            },
    {
        proof {
            use_type_invariant(self);
        }
        if self.every_size == 0 || self.get_index == usize::MAX {
            return None;
        }
        let every = self.every_size as usize;
        proof {
            lemma_next_client(self.get_index as int, every as int);
        }
        Some(Handout { client: self.get_index / every, created: self.get_index % every == 0 })
    }

    /// Counts the caller that was handed its client, and the client where it
    /// was made for this caller. A pool that hands out nothing stays as it is.
    pub fn commit(&mut self)
        ensures
            final(self).uri_view() == old(self).uri_view(),
            final(self).every() == old(self).every(),
            match old(self).next_handout() {
                Some(h) => {
                    &&& final(self).handed_out() == old(self).handed_out() + 1
                    &&& final(self).made() == old(self).made() + if h.created {
                        1int
                    } else {
                        0int
                    }
                    &&& final(self).made() == clients_for(
                        final(self).handed_out() as int,
                        final(self).every() as int,
                    )
                    &&& h.client < final(self).made()
                },
                None => {
                    &&& final(self).handed_out() == old(self).handed_out()
                    &&& final(self).made() == old(self).made()
                },
            },
    {
        proof {
            use_type_invariant(&*self);
        }
        if self.every_size == 0 || self.get_index == usize::MAX {
            return ;
        }
        let every = self.every_size as usize;
        proof {
            lemma_next_client(self.get_index as int, every as int);
        }
        let clients = if self.get_index % every == 0 {
            self.clients + 1
        } else {
            self.clients
        };
        *self = ClientPool {
            uri: self.uri.clone(),
            every_size: self.every_size,
            clients,
            get_index: self.get_index + 1,
        };
    }

    /// Ends the pool and says how many clients are to be drained and closed.
    pub fn shutdown(self) -> (n: usize)
        ensures
            n == self.made(),
    {
        self.clients
    }
}

/// How the number of clients grows with one more caller: by one where the caller
/// is the first of a block, and else not at all; the caller's client is the last
/// one made.
pub proof fn lemma_next_client(calls: int, every: int)
    requires
        calls >= 0,
        every > 0,
    ensures
        clients_for(calls + 1, every) == clients_for(calls, every) + if calls % every == 0 {
            1int
        } else {
            0int
        },
        calls / every == clients_for(calls + 1, every) - 1,
        clients_for(0, every) == 0,
        0 <= clients_for(calls, every) <= calls,
{
    let q = calls / every;
    let r = calls % every;
    assert(calls == q * every + r && 0 <= r < every) by (nonlinear_arith)
        requires
            q == calls / every,
            r == calls % every,
            every > 0,
    ;
    assert(q >= 0) by (nonlinear_arith)
        requires
            q == calls / every,
            calls >= 0,
            every > 0,
    ;
    assert((calls + every) / every == q + 1) by (nonlinear_arith)
        requires
            calls == q * every + r,
            0 <= r < every,
            every > 0,
    ;
    if r == 0 {
        assert((calls + every - 1) / every == q) by (nonlinear_arith)
            requires
                calls == q * every,
                every > 0,
        ;
    } else {
        assert((calls + every - 1) / every == q + 1) by (nonlinear_arith)
            requires
                calls == q * every + r,
                0 < r < every,
                every > 0,
        ;
    }
    assert((every - 1) / every == 0) by (nonlinear_arith)
        requires
            every > 0,
    ;
    assert(q <= calls && (r > 0 ==> q + 1 <= calls)) by (nonlinear_arith)
        requires
            calls == q * every + r,
            0 <= r,
            every >= 1,
            q >= 0,
    ;
}

} // verus!
