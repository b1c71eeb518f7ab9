//! Correlate final resize acknowledgements. Old live geometry must not undo a new
//! drag, and an old host must eventually fall back to its actual geometry.
//!
//! Times are nanoseconds on the client's monotonic clock.

use vstd::prelude::*;

verus! {

/// How long an acknowledgement may take before the host's own geometry is used.
pub const ACK_TIMEOUT: u64 = 1_500_000_000;

pub struct ResizeSync {
    serial: u64,
    pending: Option<(u64, u64)>,
}

/// What a [`ResizeSync`] holds: the number of the last request, and the request that
/// waits for its acknowledgement with the time it was sent.
pub struct SyncNote {
    pub serial: u64,
    pub pending: Option<(u64, u64)>,
}

impl SyncNote {
    /// A new drag has begun.
    pub open spec fn begun(self) -> SyncNote {
        SyncNote { pending: None, ..self }
    }

    /// The number of the next request: one more than the last, in 64 bits.
    pub open spec fn next_serial(self) -> u64 {
        if self.serial == u64::MAX {
            0
        } else {
            (self.serial + 1) as u64
        }
    }

    /// The next request was sent.
    pub open spec fn committed(self, now: u64) -> SyncNote {
        SyncNote { serial: self.next_serial(), pending: Some((self.next_serial(), now)) }
    }

    /// Whether `request` is the one that waits.
    pub open spec fn completes(self, request: u64) -> bool {
        self.pending matches Some(p) && p.0 == request
    }

    /// Whether the request that waits has waited too long.
    pub open spec fn is_expired(self, now: u64) -> bool {
        self.pending matches Some(p) && now - p.1 >= ACK_TIMEOUT
    }
}

impl Default for ResizeSync {
    fn default() -> (sync: Self)
        ensures
            sync@ == (SyncNote { serial: 0, pending: None }),
    {
        ResizeSync { serial: 0, pending: None }
    }
}

impl ResizeSync {
    pub closed spec fn view(&self) -> SyncNote {
        SyncNote { serial: self.serial, pending: self.pending }
    }

    pub fn begin(&mut self)
        ensures
            final(self)@ == old(self)@.begun(),
    {
        self.pending = None;
    }

    /// Note that the next request is sent now, and give its number.
    pub fn commit(&mut self, now: u64) -> (request: u64)
        ensures
            final(self)@ == old(self)@.committed(now),
            request == old(self)@.next_serial(),
    {
        self.serial = self.serial.wrapping_add(1);
        self.pending = Some((self.serial, now));
        self.serial
    }

    /// Take an acknowledgement: whether it ends the wait.
    pub fn complete(&mut self, request: u64) -> (done: bool)
        ensures
            done == old(self)@.completes(request),
            final(self)@ == if done {
                old(self)@.begun()
            } else {
                old(self)@
            },
    {
        match self.pending {
            Some((waiting, sent)) => {
                if waiting == request {
                    self.pending = None;
                    true
                } else {
                    false
                }
            },
            None => false,
        }
    }

    pub fn waiting(&self) -> (waiting: bool)
        ensures
            waiting == self@.pending is Some,
    {
        self.pending.is_some()
    }

    /// Give up on a request that has waited too long: whether there was one.
    pub fn expired(&mut self, now: u64) -> (expired: bool)
        ensures
            expired == old(self)@.is_expired(now),
            final(self)@ == if expired {
                old(self)@.begun()
            } else {
                old(self)@
            },
    {
        match self.pending {
            Some((waiting, sent)) => {
                if now >= sent && now - sent >= ACK_TIMEOUT {
                    self.pending = None;
                    true
                } else {
                    false
                }
            },
            None => false,
        }
    }
}

/// The acknowledgement of an earlier request never ends the wait for a newer one,
/// and once a drag begins it ends nothing.
pub proof fn law_late_ack_cannot_finish_a_newer_drag(s: SyncNote, first_at: u64, second_at: u64)
    ensures
        ({
            let first = s.next_serial();
            let begun = s.committed(first_at).begun();
            let second = begun.next_serial();
            let waiting = begun.committed(second_at);
            &&& !begun.completes(first)
            &&& !waiting.completes(first)
            &&& waiting.completes(second)
            &&& !waiting.begun().completes(second)
        }),
{
}

/// A request without an acknowledgement ends its wait exactly once, no sooner than
/// the timeout.
pub proof fn law_falls_back_once(s: SyncNote, sent: u64, now: u64, later: u64)
    ensures
        s.committed(sent).is_expired(now) <==> now >= sent + ACK_TIMEOUT,
        !s.committed(sent).begun().is_expired(later),
{
}

} // verus!
