//! The attempts of one address, admitted a fixed number at a time.
//!
//! A batch holds the ports of one address in the order they were given.
//! The driver asks it what to do, starts the attempts it names and tells
//! it of every attempt that has come to its end, whatever the end was.

use vstd::prelude::*;

verus! {

/// What a batch asks of the driver.
#[derive(Clone, Copy, Debug, PartialEq, Eq, Structural)]
pub enum BatchAction {
    /// Start the attempt on this port: it holds a slot from now on.
    Start(u16),
    /// Every slot is taken, or every port has been started: wait for an
    /// attempt to end.
    Wait,
    /// Every attempt has been started and has ended.
    Finished,
}

/// The attempts of one address and the slots they run in.
pub struct Batch {
    ports: Vec<u16>,
    started: usize,
    in_flight: usize,
    limit: usize,
}

impl Batch {
    #[verifier::type_invariant]
    spec fn inv(self) -> bool {
        &&& self.limit > 0
        &&& self.started <= self.ports.len()
        &&& self.in_flight <= self.started
        &&& self.in_flight <= self.limit
    }

    /// The ports of the batch, in the order in which they are started.
    pub closed spec fn ports(self) -> Seq<u16> {
        self.ports@
    }

    /// How many attempts have been started so far.
    pub closed spec fn started(self) -> nat {
        self.started as nat
    }

    /// How many attempts hold a slot.
    pub closed spec fn running(self) -> nat {
        self.in_flight as nat
    }

    /// How many attempts may hold a slot at once.
    pub closed spec fn cap(self) -> nat {
        self.limit as nat
    }

    /// A batch of attempts, one per port, none of them started, of which at
    /// most `limit` run at once.
    pub fn new(ports: Vec<u16>, limit: usize) -> (batch: Batch)
        requires
            limit > 0,
        ensures
            batch.ports() == ports@,
            batch.started() == 0,
            batch.running() == 0,
            batch.cap() == limit,
    {
        Batch { ports, started: 0, in_flight: 0, limit }
    }

    /// How many attempts hold a slot; never more than the limit.
    pub fn in_flight(&self) -> (n: usize)
        ensures
            n == self.running(),
            n <= self.cap(),
            n <= self.started() <= self.ports().len(),
    {
        proof {
            use_type_invariant(self);
        }
        self.in_flight
    }

    /// How many attempts may hold a slot at once; at least one.
    pub fn limit(&self) -> (n: usize)
        ensures
            n == self.cap(),
            n > 0,
    {
        proof {
            use_type_invariant(self);
        }
        self.limit
    }

    /// Says what to do next.
    ///
    /// While a slot is free and a port is left, the next port is started
    /// and takes the slot. Otherwise the driver waits, as long as an
    /// attempt is running; with none running, the batch is finished.
    pub fn poll(&mut self) -> (action: BatchAction)
        ensures
            final(self).ports() == old(self).ports(),
            final(self).cap() == old(self).cap(),
            final(self).running() <= final(self).cap(),
            final(self).running() <= final(self).started() <= final(self).ports().len(),
            if old(self).running() < old(self).cap() && old(self).started() < old(
                self,
            ).ports().len() {
                &&& action == BatchAction::Start(old(self).ports()[old(self).started() as int])
                &&& final(self).started() == old(self).started() + 1
                &&& final(self).running() == old(self).running() + 1
            } else {
                &&& final(self).started() == old(self).started()
                &&& final(self).running() == old(self).running()
                &&& action == if old(self).running() > 0 {
                    BatchAction::Wait
                } else {
                    BatchAction::Finished
                }
            },
            action == BatchAction::Finished ==> final(self).started() == final(self).ports().len()
                && final(self).running() == 0,
    {
        proof {
            use_type_invariant(&*self);
        }
        if self.in_flight < self.limit && self.started < self.ports.len() {
            let port: u16 = self.ports[self.started];
            self.started = self.started + 1;
            self.in_flight = self.in_flight + 1;
            BatchAction::Start(port)
        } else if self.in_flight > 0 {
            BatchAction::Wait
        } else {
            BatchAction::Finished
        }
    }

    /// Takes note that one running attempt has ended, however it ended,
    /// and frees its slot. Returns whether there was such an attempt; with
    /// none running nothing changes.
    pub fn complete(&mut self) -> (freed: bool)
        ensures
            final(self).ports() == old(self).ports(),
            final(self).cap() == old(self).cap(),
            final(self).started() == old(self).started(),
            final(self).running() <= final(self).cap(),
            freed == (old(self).running() > 0),
            final(self).running() == if freed {
                old(self).running() - 1
            } else {
                0
            },
    {
        proof {
            use_type_invariant(&*self);
        }
        if self.in_flight > 0 {
            self.in_flight = self.in_flight - 1;
            true
        } else {
            false
        }
    }
}

} // verus!
