use vstd::prelude::*;
use crate::error::ServiceError;

verus! {

/// A request on the admission counter.
#[derive(Debug, Clone, Copy, PartialEq, Eq, Structural)]
pub enum GateOp {
    Acquire,
    Release,
    Close,
}

/// What an acquire attempt on an open gate gives.
#[derive(Debug, Clone, Copy, PartialEq, Eq, Structural)]
pub enum Admission {
    /// A slot was taken: the session may start.
    Admitted,
    /// Every slot is taken: the caller waits for a release and tries again.
    MustWait,
}

/// Sessions admitted after `op`, starting from `active` on a gate of `limit` slots.
pub open spec fn active_after(limit: nat, active: nat, closed: bool, op: GateOp) -> nat {
    match op {
        GateOp::Acquire => if !closed && active < limit { active + 1 } else { active },
        GateOp::Release => if active > 0 { (active - 1) as nat } else { active },
        GateOp::Close => active,
    }
}

pub open spec fn closed_after(closed: bool, op: GateOp) -> bool {
    closed || op == GateOp::Close
}

/// Sessions admitted after a whole run of requests.
pub open spec fn active_after_all(limit: nat, active: nat, closed: bool, ops: Seq<GateOp>) -> nat
    decreases ops.len(),
{
    if ops.len() == 0 {
        active
    } else {
        active_after_all(
            limit,
            active_after(limit, active, closed, ops[0]),
            closed_after(closed, ops[0]),
            ops.skip(1),
        )
    }
}

/// Bounded admission over concurrent streaming sessions.
pub struct AdmissionGate {
    limit: usize,
    active: usize,
    closed: bool,
}

impl AdmissionGate {
    pub closed spec fn limit(&self) -> nat {
        self.limit as nat
    }

    pub closed spec fn active(&self) -> nat {
        self.active as nat
    }

    pub closed spec fn is_closed(&self) -> bool {
        self.closed
    }

    pub closed spec fn wf(&self) -> bool {
        self.active <= self.limit
    }

    /// An open gate with `limit` free slots.
    pub fn new(limit: usize) -> (g: AdmissionGate)
        ensures
            g.wf(),
            g.limit() == limit,
            g.active() == 0,
            !g.is_closed(),
    {
        AdmissionGate { limit, active: 0, closed: false }
    }

    /// Takes a slot if one is free. A closed gate refuses with `AdmissionClosed`.
    pub fn try_acquire(&mut self) -> (r: Result<Admission, ServiceError>)
        requires
            old(self).wf(),
        ensures
            final(self).wf(),
            final(self).limit() == old(self).limit(),
            final(self).is_closed() == old(self).is_closed(),
            final(self).active() == active_after(old(self).limit(), old(self).active(), old(self).is_closed(), GateOp::Acquire),
            old(self).is_closed() ==> r == Err::<Admission, ServiceError>(ServiceError::AdmissionClosed),
            !old(self).is_closed() && old(self).active() < old(self).limit() ==> r == Ok::<Admission, ServiceError>(Admission::Admitted),
            !old(self).is_closed() && old(self).active() >= old(self).limit() ==> r == Ok::<Admission, ServiceError>(Admission::MustWait),
    {
        if self.closed {
            Err(ServiceError::AdmissionClosed)
        } else if self.active < self.limit {
            self.active = self.active + 1;
            Ok(Admission::Admitted)
        } else {
            Ok(Admission::MustWait)
        }
    }

    /// Gives back the slot of a finished session.
    pub fn release(&mut self)
        requires
            old(self).wf(),
        ensures
            final(self).wf(),
            final(self).limit() == old(self).limit(),
            final(self).is_closed() == old(self).is_closed(),
            final(self).active() == active_after(old(self).limit(), old(self).active(), old(self).is_closed(), GateOp::Release),
    {
        if self.active > 0 {
            self.active = self.active - 1;
        }
    }

    /// Shuts admission down: every later acquire fails instead of waiting.
    pub fn close(&mut self)
        requires
            old(self).wf(),
        ensures
            final(self).wf(),
            final(self).limit() == old(self).limit(),
            final(self).is_closed(),
            final(self).active() == old(self).active(),
    {
        self.closed = true;
    }

    pub fn active_count(&self) -> (r: usize)
        ensures
            r == self.active(),
    {
        self.active
    }

    pub fn is_shut(&self) -> (r: bool)
        ensures
            r == self.is_closed(),
    {
        self.closed
    }
}

/// However acquires, releases and closes interleave, a gate of `limit` slots
/// never has more than `limit` sessions admitted; with every slot taken, one
/// more acquire admits nobody.
pub proof fn admissions_bounded(limit: nat, active: nat, closed: bool, ops: Seq<GateOp>)
    requires
        active <= limit,
    ensures
        active_after_all(limit, active, closed, ops) <= limit,
        active == limit ==> active_after(limit, active, closed, GateOp::Acquire) == limit,
    decreases ops.len(),
{
    if ops.len() > 0 {
        admissions_bounded(limit, active_after(limit, active, closed, ops[0]), closed_after(closed, ops[0]), ops.skip(1));
    }
}

} // verus!
