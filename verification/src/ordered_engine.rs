//! Scheduler retirement in exact submission order.
//!
//! Host work may complete in any order. A completion makes one entry ready; only
//! the ready head of the bounded frontier may be reported and retired.

use vstd::prelude::*;
use crate::ring_index;
use crate::scanout_lease;

verus! {

/// The depth of the device-wide frontier.
pub const MAX_ORDERED_ENGINE_SUBMISSIONS: usize = 256;

/// The identity of one admitted submission.
#[derive(Clone, Copy, PartialEq, Eq, Debug, Structural)]
pub struct SubmissionTicket {
    epoch: u64,
    serial: u64,
    slot: u32,
}

impl SubmissionTicket {
    pub closed spec fn spec_epoch(self) -> u64 {
        self.epoch
    }

    pub closed spec fn spec_serial(self) -> u64 {
        self.serial
    }

    pub closed spec fn spec_slot(self) -> u32 {
        self.slot
    }

    pub fn epoch(self) -> (e: u64)
        ensures
            e == self.spec_epoch(),
    {
        self.epoch
    }

    pub fn serial(self) -> (s: u64)
        ensures
            s == self.spec_serial(),
    {
        self.serial
    }

    pub fn slot(self) -> (s: u32)
        ensures
            s == self.spec_slot(),
    {
        self.slot
    }
}

/// A head whose host work is complete.
#[derive(Clone, Copy, PartialEq, Eq, Debug, Structural)]
pub struct ReadySubmission {
    ticket: SubmissionTicket,
    fence: u32,
}

impl ReadySubmission {
    pub closed spec fn spec_ticket(self) -> SubmissionTicket {
        self.ticket
    }

    pub closed spec fn spec_fence(self) -> u32 {
        self.fence
    }

    pub fn ticket(self) -> (t: SubmissionTicket)
        ensures
            t == self.spec_ticket(),
    {
        self.ticket
    }

    pub fn fence(self) -> (f: u32)
        ensures
            f == self.spec_fence(),
    {
        self.fence
    }
}

#[derive(Clone, Copy, PartialEq, Eq, Debug, Structural)]
pub enum AdmissionRefusal {
    Closed,
    Poisoned,
    Capacity,
    SerialExhausted,
    SlotIndexExhausted,
    NotForward { previous: u32, found: u32 },
    CorruptOccupiedSlot,
}

#[derive(Clone, Copy, PartialEq, Eq, Debug, Structural)]
pub enum CompletionDisposition {
    /// The live ticket's host work is complete. `retained_early` tells that an
    /// older entry is still at the head.
    Marked { retained_early: bool },
    AlreadyCompleted,
    StaleEpoch,
    StaleTicket,
    Poisoned,
}

#[derive(Clone, Copy, PartialEq, Eq, Debug, Structural)]
pub enum FailureDisposition {
    Poisoned,
    AlreadyPoisoned,
    StaleEpoch,
    StaleTicket,
}

#[derive(Clone, Copy, PartialEq, Eq, Debug, Structural)]
pub enum RetirementRefusal {
    NotReady,
    WrongHead,
    Poisoned,
}

#[derive(Clone, Copy, PartialEq, Eq, Debug, Structural)]
pub struct Invalidation {
    pub dropped: usize,
    pub epoch_advanced: bool,
}

#[derive(Clone, Copy, PartialEq, Eq, Structural)]
enum SlotState {
    Free,
    AwaitingHost,
    HostCompleted,
}

#[derive(Clone, Copy, PartialEq, Eq, Structural)]
struct Slot {
    epoch: u64,
    serial: u64,
    fence: u32,
    state: SlotState,
}

/// One admitted submission that has not retired.
pub struct Submission {
    pub fence: u32,
    /// Whether its host work is complete.
    pub done: bool,
}

/// What an engine holds.
pub struct Engine {
    pub epoch: u64,
    /// Submissions in flight, oldest first. Their serials are consecutive and end
    /// with `last_serial`.
    pub entries: Seq<Submission>,
    /// The slot of the oldest submission.
    pub head: int,
    pub last_serial: u64,
    pub last_retired_serial: u64,
    pub last_admitted_fence: u32,
    pub open: bool,
    pub poisoned: bool,
    pub epoch_exhausted: bool,
}

impl Engine {
    /// The serial of the submission with index `i`.
    pub open spec fn serial(self, i: int) -> int {
        self.last_serial - self.entries.len() + 1 + i
    }

    /// The slot of the submission with index `i`.
    pub open spec fn slot(self, i: int, n: int) -> int {
        ring_index::wrap(self.head, i, n)
    }

    /// `t` names the submission with index `i`.
    pub open spec fn names(self, t: SubmissionTicket, i: int, n: int) -> bool {
        &&& 0 <= i < self.entries.len()
        &&& t.spec_epoch() == self.epoch
        &&& t.spec_serial() == self.serial(i)
        &&& t.spec_slot() == self.slot(i, n)
    }

    /// The index that `t`'s serial stands for.
    pub open spec fn index(self, t: SubmissionTicket) -> int {
        t.spec_serial() - self.serial(0)
    }

    /// `t` names a submission in flight.
    pub open spec fn live(self, t: SubmissionTicket, n: int) -> bool {
        self.names(t, self.index(t), n)
    }

    /// `t` was retired in this generation.
    pub open spec fn was_retired(self, t: SubmissionTicket) -> bool {
        t.spec_epoch() == self.epoch && 0 < t.spec_serial() <= self.last_retired_serial
    }

    pub open spec fn is_open(self) -> bool {
        self.open && !self.poisoned
    }

    pub open spec fn poison(self) -> Engine {
        Engine { open: false, poisoned: true, ..self }
    }

    /// Why `fence` is not admitted, if it is not.
    pub open spec fn admission(self, fence: u32, n: int) -> Option<AdmissionRefusal> {
        if self.poisoned {
            Some(AdmissionRefusal::Poisoned)
        } else if !self.open {
            Some(AdmissionRefusal::Closed)
        } else if self.entries.len() >= n {
            Some(AdmissionRefusal::Capacity)
        } else if !scanout_lease::forward(self.last_admitted_fence, fence) {
            Some(AdmissionRefusal::NotForward { previous: self.last_admitted_fence, found: fence })
        } else if self.last_serial == u64::MAX {
            Some(AdmissionRefusal::SerialExhausted)
        } else if self.slot(self.entries.len() as int, n) > u32::MAX {
            Some(AdmissionRefusal::SlotIndexExhausted)
        } else {
            None
        }
    }

    /// The engine behind a refused admission: a refusal of an open engine ends its
    /// generation.
    pub open spec fn refused(self) -> Engine {
        if self.is_open() {
            self.poison()
        } else {
            self
        }
    }

    pub open spec fn admitted(self, fence: u32) -> Engine {
        Engine {
            entries: self.entries.push(Submission { fence, done: false }),
            last_serial: (self.last_serial + 1) as u64,
            last_admitted_fence: fence,
            ..self
        }
    }

    pub open spec fn completed(self, i: int) -> Engine {
        Engine {
            entries: self.entries.update(i, Submission { done: true, ..self.entries[i] }),
            ..self
        }
    }

    /// The head can be reported.
    pub open spec fn head_ready(self) -> bool {
        self.is_open() && self.entries.len() > 0 && self.entries[0].done
    }

    pub open spec fn retired(self, n: int) -> Engine {
        Engine {
            entries: self.entries.skip(1),
            head: if self.head + 1 == n {
                0
            } else {
                self.head + 1
            },
            last_retired_serial: self.serial(0) as u64,
            ..self
        }
    }

    /// Whether there is nothing to invalidate.
    pub open spec fn is_closed_and_empty(self) -> bool {
        !self.open && self.entries.len() == 0 && !self.poisoned
    }

    pub open spec fn invalidated(self) -> Engine {
        if self.is_closed_and_empty() {
            self
        } else {
            let exhausted = self.epoch == u64::MAX;
            Engine {
                epoch: if exhausted {
                    self.epoch
                } else {
                    (self.epoch + 1) as u64
                },
                entries: Seq::empty(),
                head: 0,
                last_admitted_fence: 0,
                open: false,
                poisoned: exhausted,
                epoch_exhausted: self.epoch_exhausted || exhausted,
                ..self
            }
        }
    }
}

/// An engine that has never been opened.
pub open spec fn fresh_engine() -> Engine {
    Engine {
        epoch: 1,
        entries: Seq::empty(),
        head: 0,
        last_serial: 0,
        last_retired_serial: 0,
        last_admitted_fence: 0,
        open: false,
        poisoned: false,
        epoch_exhausted: false,
    }
}

/// An ordered frontier of at most `N` submissions.
pub struct OrderedEngine<const N: usize> {
    slots: [Slot; N],
    head: usize,
    len: usize,
    epoch: u64,
    next_serial: u64,
    last_retired_serial: u64,
    last_admitted_fence: u32,
    open: bool,
    poisoned: bool,
    epoch_exhausted: bool,
}

impl<const N: usize> View for OrderedEngine<N> {
    type V = Engine;

    closed spec fn view(&self) -> Engine {
        Engine {
            epoch: self.epoch,
            entries: Seq::new(
                self.len as nat,
                |i: int|
                    {
                        let slot = self.slots@[ring_index::wrap(self.head as int, i, N as int)];
                        Submission {
                            fence: slot.fence,
                            done: slot.state == SlotState::HostCompleted,
                        }
                    },
            ),
            head: self.head as int,
            last_serial: self.next_serial,
            last_retired_serial: self.last_retired_serial,
            last_admitted_fence: self.last_admitted_fence,
            open: self.open,
            poisoned: self.poisoned,
            epoch_exhausted: self.epoch_exhausted,
        }
    }
}

impl<const N: usize> Default for OrderedEngine<N> {
    fn default() -> (e: Self)
        ensures
            e.wf(),
            e@ == fresh_engine(),
    {
        Self::new()
    }
}

impl<const N: usize> OrderedEngine<N> {
    pub closed spec fn wf(&self) -> bool {
        &&& self.len <= N
        &&& N > 0 ==> self.head < N
        &&& N == 0 ==> self.head == 0 && !self.open
        &&& !self.open && !self.poisoned ==> self.len == 0
        &&& self.last_retired_serial + self.len <= self.next_serial
        &&& forall|i: int| #![trigger self.slots@[ring_index::wrap(self.head as int, i, N as int)]]
            0 <= i < N ==> {
                let slot = self.slots@[ring_index::wrap(self.head as int, i, N as int)];
                if i < self.len {
                    slot.state != SlotState::Free && slot.epoch == self.epoch && slot.serial
                        == self.next_serial - self.len + 1 + i && ring_index::wrap(
                        self.head as int,
                        i,
                        N as int,
                    ) <= u32::MAX
                } else {
                    slot.state == SlotState::Free
                }
            }
    }

    pub fn new() -> (e: Self)
        ensures
            e.wf(),
            e@ == fresh_engine(),
    {
        let empty = Slot { epoch: 0, serial: 0, fence: 0, state: SlotState::Free };
        let e = OrderedEngine {
            slots: [empty; N],
            head: 0,
            len: 0,
            epoch: 1,
            next_serial: 0,
            last_retired_serial: 0,
            last_admitted_fence: 0,
            open: false,
            poisoned: false,
            epoch_exhausted: false,
        };
        assert(e@.entries =~= Seq::<Submission>::empty());
        e
    }

    /// Makes an existing instance a fresh one in place.
    pub fn initialize_at(destination: &mut Self)
        ensures
            final(destination).wf(),
            final(destination)@ == fresh_engine(),
    {
        let empty = Slot { epoch: 0, serial: 0, fence: 0, state: SlotState::Free };
        destination.slots = [empty; N];
        destination.head = 0;
        destination.len = 0;
        destination.epoch = 1;
        destination.next_serial = 0;
        destination.last_retired_serial = 0;
        destination.last_admitted_fence = 0;
        destination.open = false;
        destination.poisoned = false;
        destination.epoch_exhausted = false;
        assert(destination@.entries =~= Seq::<Submission>::empty());
    }

    pub fn is_open(&self) -> (b: bool)
        ensures
            b == self@.is_open(),
    {
        self.open && !self.poisoned
    }

    pub fn is_poisoned(&self) -> (b: bool)
        ensures
            b == self@.poisoned,
    {
        self.poisoned
    }

    pub fn len(&self) -> (n: usize)
        ensures
            n == self@.entries.len(),
    {
        self.len
    }

    pub fn epoch(&self) -> (e: u64)
        ensures
            e == self@.epoch,
    {
        self.epoch
    }

    /// Opens a new scheduler interval, but only from an empty, valid generation.
    pub fn reopen(&mut self, completed_fence: u32) -> (b: bool)
        requires
            old(self).wf(),
        ensures
            final(self).wf(),
            b == (!old(self)@.open && old(self)@.entries.len() == 0 && !old(self)@.poisoned
                && !old(self)@.epoch_exhausted && N != 0),
            !b ==> *final(self) == *old(self),
            b ==> final(self)@ == (Engine {
                last_admitted_fence: completed_fence,
                open: true,
                ..old(self)@
            }),
    {
        if self.open || self.len != 0 || self.poisoned || self.epoch_exhausted || N == 0 {
            return false;
        }
        self.last_admitted_fence = completed_fence;
        self.open = true;
        assert(self@.entries =~= old(self)@.entries);
        true
    }

    fn poison(&mut self)
        requires
            old(self).wf(),
        ensures
            final(self).wf(),
            final(self)@ == old(self)@.poison(),
    {
        self.open = false;
        self.poisoned = true;
        assert(self@.entries =~= old(self)@.entries);
    }

    /// Admits a fence in scheduler arrival order.
    pub fn admit_fence(&mut self, fence: u32) -> (r: Result<SubmissionTicket, AdmissionRefusal>)
        requires
            old(self).wf(),
        ensures
            final(self).wf(),
            match old(self)@.admission(fence, N as int) {
                Some(e) => r == Err::<SubmissionTicket, AdmissionRefusal>(e) && final(self)@
                    == old(self)@.refused(),
                None => {
                    &&& r is Ok
                    &&& final(self)@ == old(self)@.admitted(fence)
                    &&& final(self)@.names(r->Ok_0, old(self)@.entries.len() as int, N as int)
                },
            },
    {
        if self.poisoned {
            return Err(AdmissionRefusal::Poisoned);
        }
        if !self.open {
            return Err(AdmissionRefusal::Closed);
        }
        if self.len >= N {
            self.poison();
            return Err(AdmissionRefusal::Capacity);
        }
        if !scanout_lease::fence_is_forward(self.last_admitted_fence, fence) {
            let previous: u32 = self.last_admitted_fence;
            self.poison();
            return Err(AdmissionRefusal::NotForward { previous, found: fence });
        }
        let serial: u64 = match self.next_serial.checked_add(1) {
            Some(s) => s,
            None => {
                self.poison();
                return Err(AdmissionRefusal::SerialExhausted);
            },
        };
        let slot: usize = ring_index::wrap_index(self.head, self.len, N);
        if slot > u32::MAX as usize {
            self.poison();
            return Err(AdmissionRefusal::SlotIndexExhausted);
        }
        let slot_u32: u32 = slot as u32;
        assert(self.slots@[ring_index::wrap(self.head as int, self.len as int, N as int)].state
            == SlotState::Free);
        let ticket = SubmissionTicket { epoch: self.epoch, serial, slot: slot_u32 };
        self.slots[slot] = Slot {
            epoch: ticket.epoch,
            serial: ticket.serial,
            fence,
            state: SlotState::AwaitingHost,
        };
        self.next_serial = serial;
        self.last_admitted_fence = fence;
        self.len = self.len + 1;
        assert(self@.entries =~= old(self)@.entries.push(Submission { fence, done: false }));
        Ok(ticket)
    }

    /// Whether the ticket occupies its slot.
    fn occupies(&self, ticket: SubmissionTicket) -> (b: bool)
        requires
            self.wf(),
            ticket.spec_epoch() == self@.epoch,
        ensures
            b == self@.live(ticket, N as int),
            b ==> ticket.spec_slot() < N,
    {
        let slot: usize = ticket.slot as usize;
        if slot >= N {
            return false;
        }
        let s: Slot = self.slots[slot];
        let ghost i = if slot >= self.head {
            slot - self.head
        } else {
            slot + N - self.head
        };
        assert(ring_index::wrap(self.head as int, i, N as int) == slot);
        let ghost k = self@.index(ticket);
        s.epoch == ticket.epoch && s.serial == ticket.serial && s.state != SlotState::Free
    }

    /// Marks the exact live ticket complete without moving the frontier.
    pub fn mark_host_completed(&mut self, ticket: SubmissionTicket) -> (d: CompletionDisposition)
        requires
            old(self).wf(),
        ensures
            final(self).wf(),
            ({
                let v = old(self)@;
                let i = v.index(ticket);
                if ticket.spec_epoch() != v.epoch {
                    d == CompletionDisposition::StaleEpoch && final(self)@ == v
                } else if v.poisoned {
                    d == CompletionDisposition::Poisoned && final(self)@ == v
                } else if !v.live(ticket, N as int) {
                    d == CompletionDisposition::StaleTicket && final(self)@ == v
                } else if v.entries[i].done {
                    d == CompletionDisposition::AlreadyCompleted && final(self)@ == v
                } else {
                    d == (CompletionDisposition::Marked { retained_early: i != 0 })
                        && final(self)@ == v.completed(i)
                }
            }),
    {
        if ticket.epoch != self.epoch {
            return CompletionDisposition::StaleEpoch;
        }
        if self.poisoned {
            return CompletionDisposition::Poisoned;
        }
        if !self.occupies(ticket) {
            return CompletionDisposition::StaleTicket;
        }
        let slot: usize = ticket.slot as usize;
        let ghost i = self@.index(ticket);
        assert(ring_index::wrap(self.head as int, i, N as int) == slot);
        let s: Slot = self.slots[slot];
        if s.state == SlotState::HostCompleted {
            return CompletionDisposition::AlreadyCompleted;
        }
        self.slots[slot] = Slot {
            epoch: s.epoch,
            serial: s.serial,
            fence: s.fence,
            state: SlotState::HostCompleted,
        };
        assert(self@.entries =~= old(self)@.completed(i).entries);
        CompletionDisposition::Marked { retained_early: slot != self.head }
    }

    /// Makes a host rejection of a live ticket end this generation.
    pub fn fail_submission(&mut self, ticket: SubmissionTicket) -> (d: FailureDisposition)
        requires
            old(self).wf(),
        ensures
            final(self).wf(),
            ({
                let v = old(self)@;
                if ticket.spec_epoch() != v.epoch {
                    d == FailureDisposition::StaleEpoch && final(self)@ == v
                } else if v.poisoned {
                    d == FailureDisposition::AlreadyPoisoned && final(self)@ == v
                } else if !v.live(ticket, N as int) {
                    d == FailureDisposition::StaleTicket && final(self)@ == v
                } else {
                    d == FailureDisposition::Poisoned && final(self)@ == v.poison()
                }
            }),
    {
        if ticket.epoch != self.epoch {
            return FailureDisposition::StaleEpoch;
        }
        if self.poisoned {
            return FailureDisposition::AlreadyPoisoned;
        }
        if !self.occupies(ticket) {
            return FailureDisposition::StaleTicket;
        }
        self.poison();
        FailureDisposition::Poisoned
    }

    /// The ticket of the head while its host work is outstanding.
    pub fn head_awaiting_host(&self) -> (t: Option<SubmissionTicket>)
        requires
            self.wf(),
        ensures
            t is Some <==> self@.is_open() && self@.entries.len() > 0 && !self@.entries[0].done,
            t matches Some(ticket) ==> self@.names(ticket, 0, N as int),
    {
        if !self.is_open() || self.len == 0 {
            return None;
        }
        let s: Slot = self.slots[self.head];
        assert(ring_index::wrap(self.head as int, 0, N as int) == self.head);
        if s.state == SlotState::AwaitingHost {
            Some(SubmissionTicket { epoch: s.epoch, serial: s.serial, slot: self.head as u32 })
        } else {
            None
        }
    }

    /// The head, if it can be reported.
    pub fn peek_ready(&self) -> (r: Option<ReadySubmission>)
        requires
            self.wf(),
        ensures
            r is Some <==> self@.head_ready(),
            r matches Some(ready) ==> ready.spec_fence() == self@.entries[0].fence && self@.names(
                ready.spec_ticket(),
                0,
                N as int,
            ),
    {
        if !self.is_open() || self.len == 0 {
            return None;
        }
        let s: Slot = self.slots[self.head];
        assert(ring_index::wrap(self.head as int, 0, N as int) == self.head);
        if s.state != SlotState::HostCompleted {
            return None;
        }
        Some(
            ReadySubmission {
                ticket: SubmissionTicket {
                    epoch: s.epoch,
                    serial: s.serial,
                    slot: self.head as u32,
                },
                fence: s.fence,
            },
        )
    }

    /// Retires exactly the head whose completion was reported.
    pub fn retire_ready(&mut self, ready: ReadySubmission) -> (r: Result<u32, RetirementRefusal>)
        requires
            old(self).wf(),
        ensures
            final(self).wf(),
            ({
                let v = old(self)@;
                if v.poisoned {
                    r == Err::<u32, RetirementRefusal>(RetirementRefusal::Poisoned) && final(self)@
                        == v
                } else if !v.head_ready() {
                    r == Err::<u32, RetirementRefusal>(RetirementRefusal::NotReady) && final(self)@
                        == v
                } else if ready.spec_fence() != v.entries[0].fence || !v.names(
                    ready.spec_ticket(),
                    0,
                    N as int,
                ) {
                    r == Err::<u32, RetirementRefusal>(RetirementRefusal::WrongHead)
                        && final(self)@ == v.poison()
                } else {
                    r == Ok::<u32, RetirementRefusal>(v.entries[0].fence) && final(self)@
                        == v.retired(N as int)
                }
            }),
    {
        if self.poisoned {
            return Err(RetirementRefusal::Poisoned);
        }
        let head: ReadySubmission = match self.peek_ready() {
            None => return Err(RetirementRefusal::NotReady),
            Some(h) => h,
        };
        if head != ready {
            self.poison();
            return Err(RetirementRefusal::WrongHead);
        }
        let ghost start = self.head as int;
        let ghost next = if start + 1 == N {
            0
        } else {
            start + 1
        };
        assert forall|i: int| 0 <= i < N implies #[trigger] ring_index::wrap(next, i, N as int)
            == ring_index::wrap(
            start,
            if i + 1 == N {
                0
            } else {
                i + 1
            },
            N as int,
        ) by {}
        self.last_retired_serial = head.ticket.serial;
        self.slots[self.head] = Slot { epoch: 0, serial: 0, fence: 0, state: SlotState::Free };
        self.head = if self.head == N - 1 {
            0
        } else {
            self.head + 1
        };
        self.len = self.len - 1;
        assert(self@.entries =~= old(self)@.entries.skip(1));
        Ok(head.fence)
    }

    /// Whether the ticket still occupies its slot in this generation.
    pub fn ticket_is_live(&self, ticket: SubmissionTicket) -> (b: bool)
        requires
            self.wf(),
        ensures
            b == self@.live(ticket, N as int),
    {
        if ticket.epoch != self.epoch {
            return false;
        }
        self.occupies(ticket)
    }

    /// Whether the ticket's serial was retired in this generation.
    pub fn ticket_was_retired(&self, ticket: SubmissionTicket) -> (b: bool)
        ensures
            b == self@.was_retired(ticket),
    {
        ticket.epoch == self.epoch && ticket.serial != 0 && ticket.serial
            <= self.last_retired_serial
    }

    /// Whether the ticket was minted in another generation.
    pub fn ticket_is_stale_epoch(&self, ticket: SubmissionTicket) -> (b: bool)
        ensures
            b == (ticket.spec_epoch() != self@.epoch),
    {
        ticket.epoch != self.epoch
    }

    /// Closes and invalidates the current interval. Closing an empty closed
    /// generation again changes nothing.
    pub fn invalidate(&mut self) -> (i: Invalidation)
        requires
            old(self).wf(),
        ensures
            final(self).wf(),
            final(self)@ == old(self)@.invalidated(),
            i.dropped == old(self)@.entries.len(),
            i.epoch_advanced == (!old(self)@.is_closed_and_empty() && old(self)@.epoch != u64::MAX),
    {
        if !self.open && self.len == 0 && !self.poisoned {
            return Invalidation { dropped: 0, epoch_advanced: false };
        }
        let dropped: usize = self.len;
        let empty = Slot { epoch: 0, serial: 0, fence: 0, state: SlotState::Free };
        self.slots = [empty; N];
        self.head = 0;
        self.len = 0;
        self.last_admitted_fence = 0;
        self.open = false;
        self.poisoned = false;
        let epoch_advanced = match self.epoch.checked_add(1) {
            Some(next) => {
                self.epoch = next;
                true
            },
            None => {
                self.epoch_exhausted = true;
                self.poisoned = true;
                false
            },
        };
        assert(self@.entries =~= Seq::<Submission>::empty());
        Invalidation { dropped, epoch_advanced }
    }
}

/// A ticket is its epoch, its serial and its slot: tickets that agree in these are
/// the same.
pub proof fn law_a_ticket_is_its_parts(a: SubmissionTicket, b: SubmissionTicket)
    requires
        a.spec_epoch() == b.spec_epoch(),
        a.spec_serial() == b.spec_serial(),
        a.spec_slot() == b.spec_slot(),
    ensures
        a == b,
{
}

/// In the current generation a ticket is never both in flight and retired, and no
/// two submissions in flight share a ticket.
pub proof fn law_retired_is_not_live<const N: usize>(
    e: OrderedEngine<N>,
    t: SubmissionTicket,
    i: int,
    j: int,
)
    requires
        e.wf(),
        e@.names(t, i, N as int),
    ensures
        e@.live(t, N as int),
        t.spec_serial() > e@.last_retired_serial,
        e@.names(t, j, N as int) ==> i == j,
{
}

/// Submissions retire in the order of their admission: what is admitted stands
/// behind everything in flight, and what retires is the oldest.
pub proof fn law_retirement_follows_admission(v: Engine, fence: u32, n: int)
    requires
        v.admission(fence, n) is None,
    ensures
        v.admitted(fence).entries.last().fence == fence,
        v.admitted(fence).entries.drop_last() == v.entries,
        v.entries.len() > 0 ==> v.admitted(fence).retired(n).entries == v.retired(n).admitted(
            fence,
        ).entries,
{
    assert(v.admitted(fence).entries.drop_last() =~= v.entries);
    if v.entries.len() > 0 {
        assert(v.admitted(fence).retired(n).entries =~= v.retired(n).admitted(fence).entries);
    }
}

/// What is in flight fits in the slots, the head is one of them, and nothing is in
/// flight in an engine that is neither open nor poisoned. So an engine whose slots
/// have 32-bit numbers never runs out of them.
pub proof fn law_the_frontier_is_bounded<const N: usize>(e: OrderedEngine<N>, fence: u32)
    requires
        e.wf(),
    ensures
        e@.entries.len() <= N,
        N > 0 ==> 0 <= e@.head < N,
        !e@.open && !e@.poisoned ==> e@.entries.len() == 0,
        N <= 0x1_0000_0000 ==> e@.admission(fence, N as int) != Some(
            AdmissionRefusal::SlotIndexExhausted,
        ),
{
}

/// An invalidation empties and closes the engine. If the engine was open or
/// poisoned, the epoch advances, and no ticket of before is live or counts as
/// retired; else nothing changes. A second invalidation changes nothing.
pub proof fn law_invalidation_spends_every_ticket<const N: usize>(
    e: OrderedEngine<N>,
    t: SubmissionTicket,
)
    requires
        e.wf(),
        e@.epoch < u64::MAX,
        t.spec_epoch() <= e@.epoch,
    ensures
        ({
            let active = e@.is_open() || e@.poisoned;
            let after = e@.invalidated();
            &&& active == !e@.is_closed_and_empty()
            &&& after.entries.len() == 0 && !after.is_open() && !after.poisoned
            &&& if active {
                &&& after.epoch == e@.epoch + 1
                &&& t.spec_epoch() != after.epoch
                &&& !after.live(t, N as int)
                &&& !after.was_retired(t)
            } else {
                after == e@
            }
            &&& after.is_closed_and_empty()
            &&& after.invalidated() == after
        }),
{
}

/// A poisoned generation reports nothing and admits nothing until it is
/// invalidated.
pub proof fn law_poison_is_terminal_for_a_generation(v: Engine, fence: u32, n: int)
    requires
        v.poisoned,
    ensures
        !v.head_ready(),
        v.admission(fence, n) == Some(AdmissionRefusal::Poisoned),
        v.refused() == v,
{
}

/// What an engine was told since it was opened: the fences that it admitted, which of
/// them the host completed, and how many it retired.
pub struct Journal {
    pub fences: Seq<u32>,
    pub done: Seq<bool>,
    pub retired: int,
    /// The serial before the first of these fences.
    pub base: int,
}

/// The engine holds what its journal says: the fences that were not retired, in the
/// order of their admission.
pub open spec fn holds(v: Engine, j: Journal) -> bool {
    &&& 0 <= j.retired <= j.fences.len()
    &&& j.done.len() == j.fences.len()
    &&& v.entries.len() == j.fences.len() - j.retired
    &&& v.last_serial == j.base + j.fences.len()
    &&& forall|i: int|
        0 <= i < v.entries.len() ==> (#[trigger] v.entries[i]).fence == j.fences[j.retired + i]
            && v.entries[i].done == j.done[j.retired + i]
}

/// An admitted fence is the next of the journal, a completion completes the one fence
/// that its ticket names, and a retirement takes the oldest fence that was not retired,
/// which can be reported only while the engine is open and only once the host has
/// completed it. So fences retire in the order of their admission, each after its
/// own completion.
pub proof fn law_the_engine_keeps_its_journal(
    v: Engine,
    j: Journal,
    fence: u32,
    i: int,
    t: SubmissionTicket,
    n: int,
)
    requires
        holds(v, j),
        v.last_serial < u64::MAX,
        0 <= j.base,
    ensures
        holds(
            v.admitted(fence),
            Journal { fences: j.fences.push(fence), done: j.done.push(false), ..j },
        ),
        v.admitted(fence).last_admitted_fence == fence,
        v.names(t, i, n) ==> t.spec_serial() == j.base + j.retired + i + 1 && t.spec_epoch()
            == v.epoch && holds(
            v.completed(i),
            Journal { done: j.done.update(j.retired + i, true), ..j },
        ),
        v.head_ready() <==> v.open && !v.poisoned && j.retired < j.fences.len()
            && j.done[j.retired],
        v.head_ready() ==> holds(v.retired(n), Journal { retired: j.retired + 1, ..j })
            && v.retired(n).last_retired_serial == j.base + j.retired + 1 && v.entries[0].fence
            == j.fences[j.retired],
        holds(v.poison(), j),
{
    let a = v.admitted(fence);
    assert forall|k: int| 0 <= k < a.entries.len() implies (#[trigger] a.entries[k]).fence
        == j.fences.push(fence)[j.retired + k] && a.entries[k].done == j.done.push(
        false,
    )[j.retired + k] by {
        if k < v.entries.len() {
            assert(a.entries[k] == v.entries[k]);
        }
    }
    if v.entries.len() > 0 {
        assert(v.entries[0].done == j.done[j.retired]);
        let r = v.retired(n);
        assert forall|k: int| 0 <= k < r.entries.len() implies (#[trigger] r.entries[k]).fence
            == j.fences[j.retired + 1 + k] && r.entries[k].done == j.done[j.retired + 1 + k] by {
            assert(r.entries[k] == v.entries[k + 1]);
        }
    }
}

/// A fence is admitted exactly if the engine is open and not poisoned, has a free slot
/// with a number and a serial left, and the fence lies ahead of the last one by less
/// than half of the sequence. A refusal names what is wrong; it ends the generation of
/// an open engine, and leaves any other engine as it is.
pub proof fn law_a_forward_fence_is_admitted(v: Engine, fence: u32, n: int)
    ensures
        ({
            let r = v.admission(fence, n);
            let ahead = (fence - v.last_admitted_fence) % 0x1_0000_0000;
            &&& r is None <==> v.open && !v.poisoned && v.entries.len() < n && 0 < ahead
                < 0x8000_0000 && v.last_serial < u64::MAX && v.slot(v.entries.len() as int, n)
                <= u32::MAX
            &&& v.poisoned <==> r == Some(AdmissionRefusal::Poisoned)
            &&& r matches Some(e) ==> match e {
                AdmissionRefusal::Poisoned => v.poisoned,
                AdmissionRefusal::Closed => !v.open,
                AdmissionRefusal::Capacity => v.entries.len() >= n,
                AdmissionRefusal::NotForward { previous, found } => found == fence && previous
                    == v.last_admitted_fence && !(0 < ahead < 0x8000_0000),
                AdmissionRefusal::SerialExhausted => v.last_serial == u64::MAX,
                AdmissionRefusal::SlotIndexExhausted => v.slot(v.entries.len() as int, n)
                    > u32::MAX,
                AdmissionRefusal::CorruptOccupiedSlot => false,
            }
            &&& v.open && !v.poisoned ==> v.refused() == (Engine {
                open: false,
                poisoned: true,
                ..v
            })
            &&& !v.open || v.poisoned ==> v.refused() == v
        }),
{
}

/// An engine that was never opened is in its first generation, empty, closed and whole.
pub proof fn law_a_fresh_engine_is_closed()
    ensures
        ({
            let v = fresh_engine();
            &&& v.epoch == 1 && v.entries.len() == 0 && v.last_serial == 0
            &&& v.last_retired_serial == 0 && !v.open && !v.poisoned && !v.epoch_exhausted
            &&& !v.is_open() && v.invalidated() == v
        }),
{
}

/// A ticket is live exactly if it is of the engine's generation, its serial is one of those
/// that were admitted last and not retired, and its slot is as far behind the head, around
/// the ring, as its serial is behind the oldest. A ticket of the generation was retired
/// exactly if its serial is not zero and not above the last retired one.
pub proof fn law_a_ticket_tells_its_place(v: Engine, t: SubmissionTicket, n: int)
    requires
        0 <= v.head < n,
        v.entries.len() <= n,
    ensures
        ({
            let behind = t.spec_serial() - (v.last_serial - v.entries.len() + 1);
            &&& v.live(t, n) <==> t.spec_epoch() == v.epoch && 0 <= behind < v.entries.len()
                && t.spec_slot() == (v.head + behind) % n
            &&& v.was_retired(t) <==> t.spec_epoch() == v.epoch && t.spec_serial() > 0
                && t.spec_serial() <= v.last_retired_serial
        }),
{
    let behind = t.spec_serial() - (v.last_serial - v.entries.len() + 1);
    if 0 <= behind < v.entries.len() {
        let p = v.head + behind;
        if p < n {
            vstd::arithmetic::div_mod::lemma_small_mod(p as nat, n as nat);
        } else {
            vstd::arithmetic::div_mod::lemma_small_mod((p - n) as nat, n as nat);
            vstd::arithmetic::div_mod::lemma_mod_sub_multiples_vanish(p, n);
        }
    }
}

/// An invalidation drops every submission, closes the engine and begins the next
/// generation at the first slot, before any fence. Serials go on. Where there is no next
/// generation the engine stays poisoned, and where there was nothing to drop and nothing
/// to close it stays as it is.
pub proof fn law_an_invalidation_begins_a_generation(v: Engine)
    ensures
        ({
            let w = v.invalidated();
            let idle = !v.open && !v.poisoned && v.entries.len() == 0;
            &&& idle ==> w == v
            &&& !idle ==> w.entries.len() == 0 && w.head == 0 && w.last_admitted_fence == 0
                && !w.open
            &&& !idle && v.epoch < u64::MAX ==> w.epoch == v.epoch + 1 && !w.poisoned
                && w.epoch_exhausted == v.epoch_exhausted
            &&& !idle && v.epoch == u64::MAX ==> w.epoch == v.epoch && w.poisoned
                && w.epoch_exhausted
            &&& w.last_serial == v.last_serial && w.last_retired_serial == v.last_retired_serial
        }),
{
}

} // verus!
