//! Submission and completion queues.

use crate::block::mq::tag_set::{TagSet, TaggedRequest};
use crate::error::Result;
use crate::nvme::{NvmeCommand, NvmeCompletion};
use vstd::prelude::*;

verus! {

/// Copies of doorbells in memory that is shared with the controller.
pub struct ShadowDoorbells {
    /// Values that the driver wrote.
    pub dbs: Vec<u32>,
    /// Values from which on the controller wants to be notified.
    pub eis: Vec<u32>,
}

/// The state of [`ShadowDoorbells`].
#[verifier::ext_equal]
pub struct ShadowState {
    /// Values that the driver wrote.
    pub dbs: Seq<u32>,
    /// Values from which on the controller wants to be notified.
    pub eis: Seq<u32>,
}

impl View for ShadowDoorbells {
    type V = ShadowState;

    open spec fn view(&self) -> ShadowState {
        ShadowState { dbs: self.dbs@, eis: self.eis@ }
    }
}

/// Data of a controller.
pub struct NvmeData {
    /// Distance of doorbells.
    pub db_stride: usize,
    /// Copies of doorbells in memory.
    pub shadow: Option<ShadowDoorbells>,
}

impl NvmeData {
    /// The copies of doorbells.
    pub open spec fn doorbells(&self) -> Option<ShadowState> {
        match self.shadow {
            Some(shadow) => Some(shadow@),
            None => None,
        }
    }
}

/// A write to a doorbell, which the host carries out.
#[derive(Debug, Clone, Copy, PartialEq, Eq, Structural)]
pub struct Doorbell {
    /// Position of the doorbell.
    pub offset: usize,
    /// The value.
    pub value: u32,
}

/// A submission queue with its completion queue.
pub struct NvmeQueue {
    /// Position of the doorbell of the submission queue.
    pub db_offset: usize,
    /// Position of its copy in memory.
    pub sdb_index: usize,
    /// Number of the queue.
    pub qid: u16,
    /// Whether completions are polled.
    pub polled: bool,
    /// Next entry of the completion queue.
    pub cq_head: u16,
    /// Phase of a new entry.
    pub cq_phase: u16,
    /// Entries of the submission queue.
    pub sq: Vec<NvmeCommand>,
    /// Entries of the completion queue.
    pub cq: Vec<NvmeCompletion>,
    /// Number of entries.
    pub q_depth: u16,
    /// Next entry of the submission queue.
    pub sq_tail: u16,
    /// The last value of the doorbell.
    pub last_sq_tail: u16,
    /// Whether an interrupt handler is registered.
    pub irq: bool,
}

/// The state of a [`NvmeQueue`].
#[verifier::ext_equal]
pub struct QueueState {
    /// Position of the doorbell of the submission queue.
    pub db_offset: usize,
    /// Position of its copy in memory.
    pub sdb_index: usize,
    /// Number of the queue.
    pub qid: u16,
    /// Whether completions are polled.
    pub polled: bool,
    /// Next entry of the completion queue.
    pub cq_head: u16,
    /// Phase of a new entry.
    pub cq_phase: u16,
    /// Entries of the submission queue.
    pub sq: Seq<NvmeCommand>,
    /// Entries of the completion queue.
    pub cq: Seq<NvmeCompletion>,
    /// Number of entries.
    pub q_depth: u16,
    /// Next entry of the submission queue.
    pub sq_tail: u16,
    /// The last value of the doorbell.
    pub last_sq_tail: u16,
    /// Whether an interrupt handler is registered.
    pub irq: bool,
}

impl View for NvmeQueue {
    type V = QueueState;

    open spec fn view(&self) -> QueueState {
        QueueState {
            db_offset: self.db_offset,
            sdb_index: self.sdb_index,
            qid: self.qid,
            polled: self.polled,
            cq_head: self.cq_head,
            cq_phase: self.cq_phase,
            sq: self.sq@,
            cq: self.cq@,
            q_depth: self.q_depth,
            sq_tail: self.sq_tail,
            last_sq_tail: self.last_sq_tail,
            irq: self.irq,
        }
    }
}

/// A number without the bits that leave a word of 16 bits.
pub open spec fn wrapped(n: int) -> int {
    n % 0x1_0000
}

/// The controller wants to be notified: see [`lemma_need_event`].
pub open spec fn need_event(event_idx: u16, new_idx: u16, old: u16) -> bool {
    wrapped(new_idx - event_idx - 1) < wrapped(new_idx - old)
}

/// The controller is notified exactly where the value that it waits for is among those from the old
/// value on and before the new one.
pub proof fn lemma_need_event(event_idx: u16, new_idx: u16, old: u16)
    ensures
        need_event(event_idx, new_idx, old) <==> exists|k: int|
            0 <= k < wrapped(new_idx - old) && event_idx == #[trigger] wrapped(old + k),
{
    let passed = wrapped(new_idx - old);
    if need_event(event_idx, new_idx, old) {
        let k = passed - 1 - wrapped(new_idx - event_idx - 1);
        assert(event_idx == wrapped(old + k));
    }
    if exists|k: int| 0 <= k < passed && event_idx == #[trigger] wrapped(old + k) {
        let k = choose|k: int| 0 <= k < passed && event_idx == #[trigger] wrapped(old + k);
        assert(wrapped(new_idx - event_idx - 1) == passed - 1 - k);
    }
}

impl QueueState {
    /// Positions are in the queues.
    pub open spec fn inv(self) -> bool {
        &&& self.sq.len() == self.q_depth
        &&& self.cq.len() == self.q_depth
        &&& self.cq_head < self.q_depth
        &&& self.sq_tail < self.q_depth
        &&& self.last_sq_tail < self.q_depth
        &&& self.cq_phase <= 1
    }

    /// The position after a position.
    pub open spec fn following(self, position: u16) -> u16 {
        if position + 1 == self.q_depth {
            0
        } else {
            (position + 1) as u16
        }
    }

    /// The queue with a further command.
    pub open spec fn with_command(self, cmd: NvmeCommand) -> QueueState {
        QueueState {
            sq: self.sq.update(self.sq_tail as int, cmd),
            sq_tail: self.following(self.sq_tail),
            ..self
        }
    }

    /// The doorbell is due: the driver asks for it, or the queue would be full after one more
    /// command.
    pub open spec fn rings(self, write_sq: bool) -> bool {
        write_sq || self.following(self.sq_tail) == self.last_sq_tail
    }

    /// The queue after its doorbell was considered.
    pub open spec fn rung(self, write_sq: bool) -> QueueState {
        if self.rings(write_sq) {
            QueueState { last_sq_tail: self.sq_tail, ..self }
        } else {
            self
        }
    }

    /// Copies of the doorbells of the queue exist where there are any.
    pub open spec fn has_copies(self, shadow: Option<ShadowState>, extra: int) -> bool {
        self.qid != 0 ==> match shadow {
            Some(copies) => self.sdb_index + extra < copies.dbs.len() && self.sdb_index + extra
                < copies.eis.len(),
            None => true,
        }
    }

    /// The copies of doorbells after a value was written, and whether the controller has to be
    /// notified too.
    pub open spec fn posted(self, shadow: Option<ShadowState>, value: u16, extra: int) -> (
        Option<ShadowState>,
        bool,
    ) {
        if self.qid == 0 {
            (shadow, true)
        } else {
            match shadow {
                None => (shadow, true),
                Some(copies) => {
                    let index = self.sdb_index + extra;
                    (
                        Some(
                            ShadowState {
                                dbs: copies.dbs.update(index, value as u32),
                                eis: copies.eis,
                            },
                        ),
                        need_event(copies.eis[index] as u16, value, copies.dbs[index] as u16),
                    )
                },
            }
        }
    }

    /// The copies of doorbells and the write to the doorbell of the submission queue.
    pub open spec fn sq_posted(self, shadow: Option<ShadowState>, write_sq: bool) -> (
        Option<ShadowState>,
        Option<Doorbell>,
    ) {
        if !self.rings(write_sq) {
            (shadow, None)
        } else {
            let (copies, notify) = self.posted(shadow, self.sq_tail, 0);
            (
                copies,
                if notify {
                    Some(Doorbell { offset: self.db_offset, value: self.sq_tail as u32 })
                } else {
                    None
                },
            )
        }
    }

    /// Entry of the completion queue, counted from the head.
    pub open spec fn entry(self, i: int) -> NvmeCompletion {
        if self.cq_head + i < self.q_depth {
            self.cq[self.cq_head + i]
        } else {
            self.cq[self.cq_head + i - self.q_depth]
        }
    }

    /// The phase of a new entry, counted from the head: it changes at the end of the queue.
    pub open spec fn phase(self, i: int) -> int {
        if self.cq_head + i < self.q_depth {
            self.cq_phase as int
        } else {
            1 - self.cq_phase
        }
    }

    /// The entry is new.
    pub open spec fn is_new(self, i: int) -> bool {
        self.entry(i).status % 2 == self.phase(i)
    }

    /// The queue after `n` entries were taken.
    pub open spec fn taken(self, n: int) -> QueueState {
        QueueState {
            cq_head: if self.cq_head + n < self.q_depth {
                (self.cq_head + n) as u16
            } else {
                (self.cq_head + n - self.q_depth) as u16
            },
            cq_phase: self.phase(n) as u16,
            ..self
        }
    }
}

/// The host can be asked for the request of a completed command, and finds a well formed one, if any.
pub open spec fn lookup_ok<F: Fn(u32, u32) -> Option<TaggedRequest>>(
    entry: NvmeCompletion,
    qid: u16,
    nr_hw_queues: u32,
    lookup: F,
) -> bool {
    let queue = tag_queue(qid);
    queue < nr_hw_queues ==> {
        &&& call_requires(lookup, (queue, entry.command_id as u32))
        &&& forall|found: TaggedRequest| #[trigger]
            call_ensures(lookup, (queue, entry.command_id as u32), Some(found)) ==> found.inv()
    }
}

/// The host can be asked for the requests of the commands that were completed.
pub open spec fn lookups_ok<F: Fn(u32, u32) -> Option<TaggedRequest>>(
    queue: QueueState,
    nr_hw_queues: u32,
    lookup: F,
) -> bool {
    forall|n: int|
        0 <= n && (forall|i: int| 0 <= i <= n ==> queue.is_new(i)) ==> lookup_ok(
            #[trigger] queue.entry(n),
            queue.qid,
            nr_hw_queues,
            lookup,
        )
}

/// A command that the controller completed.
#[derive(Debug, Clone, Copy, PartialEq, Eq, Structural)]
pub struct Completed {
    /// Tag of the request.
    pub command_id: u16,
    /// The request, where there is one with the tag.
    pub request: Option<usize>,
    /// Result of the command.
    pub result: u32,
    /// Status of the command, zero for success.
    pub status: u16,
}

/// What came out of a completion queue.
pub struct Completions {
    /// The commands.
    pub completed: Vec<Completed>,
    /// The write to the doorbell of the completion queue.
    pub doorbell: Option<Doorbell>,
}

/// What becomes of a command that the controller completed.
#[derive(Debug, Clone, Copy, PartialEq, Eq, Structural)]
pub enum Delivery {
    /// There is no request with its tag.
    Invalid,
    /// A batch took the request, with the information whether it failed.
    Batched(usize, bool),
    /// The request is completed.
    Complete(usize),
}

impl Completed {
    /// What becomes of the command: a batch of the host is asked to take the request, where there is
    /// one (`batch`, with its answer), else the request is completed.
    pub fn deliver(&self, batch: Option<bool>) -> (r: Delivery)
        ensures
            r == (match self.request {
                None => Delivery::Invalid,
                Some(request) => if batch == Some(true) {
                    Delivery::Batched(request, self.status != 0)
                } else {
                    Delivery::Complete(request)
                },
            }),
    {
        match self.request {
            Some(request) => match batch {
                Some(true) => Delivery::Batched(request, self.status != 0),
                _ => Delivery::Complete(request),
            },
            None => Delivery::Invalid,
        }
    }
}

/// The answer to an interrupt.
#[derive(Debug, Clone, Copy, PartialEq, Eq, Structural)]
pub enum IrqReturn {
    /// The interrupt was for this device.
    Handled,
    /// There was nothing to do.
    NotHandled,
}

impl NvmeQueue {
    /// Creates a queue. The host allocates the memory of the completion queue, then that of the
    /// submission queue.
    pub fn try_new(
        db_stride: usize,
        qid: u16,
        depth: u16,
        polled: bool,
        cq: Result<Vec<NvmeCompletion>>,
        sq: Result<Vec<NvmeCommand>>,
    ) -> (r: Result<Self>)
        requires
            qid * db_stride * 2 + 4096 <= usize::MAX,
            cq matches Ok(cq) ==> cq@.len() == depth,
            sq matches Ok(sq) ==> sq@.len() == depth,
        ensures
            match (cq, sq) {
                (Err(e), _) => r == Err::<Self, crate::error::Errno>(e),
                (Ok(_), Err(e)) => r == Err::<Self, crate::error::Errno>(e),
                (Ok(_), Ok(sq)) => {
                    &&& r matches Ok(queue)
                    &&& depth > 0 ==> queue@.inv()
                    &&& queue@ == (QueueState {
                        db_offset: (qid * db_stride * 2 + 4096) as usize,
                        sdb_index: (qid * db_stride * 2 / 4) as usize,
                        qid,
                        polled,
                        cq_head: 0,
                        cq_phase: 1,
                        sq: sq@,
                        cq: Seq::new(
                            depth as nat,
                            |i: int| NvmeCompletion { result: 0, command_id: 0, status: 0 },
                        ),
                        q_depth: depth,
                        sq_tail: 0,
                        last_sq_tail: 0,
                        irq: false,
                    })
                },
            },
    {
        let mut cq = match cq {
            Ok(cq) => cq,
            Err(e) => {
                return Err(e);
            },
        };
        let sq = match sq {
            Ok(sq) => sq,
            Err(e) => {
                return Err(e);
            },
        };
        let ghost blank = NvmeCompletion { result: 0, command_id: 0, status: 0 };
        let mut i: u16 = 0;
        while i < depth
            invariant
                i <= depth,
                cq@.len() == depth,
                blank == (NvmeCompletion { result: 0, command_id: 0, status: 0 }),
                forall|j: int| 0 <= j < i ==> #[trigger] cq@[j] == blank,
            decreases depth - i,
        {
            cq.set(i as usize, NvmeCompletion { result: 0, command_id: 0, status: 0 });
            i += 1;
        }
        assert(qid * db_stride <= usize::MAX) by (nonlinear_arith)
            requires
                qid * db_stride * 2 + 4096 <= usize::MAX,
                qid * db_stride >= 0,
        ;
        let sdb_offset: usize = qid as usize * db_stride * 2;
        let db_offset: usize = sdb_offset + 4096;
        let queue = NvmeQueue {
            db_offset,
            sdb_index: sdb_offset / 4,
            qid,
            polled,
            cq_head: 0,
            cq_phase: 1,
            sq,
            cq,
            q_depth: depth,
            sq_tail: 0,
            last_sq_tail: 0,
            irq: false,
        };
        assert(queue@.cq =~= Seq::new(
            depth as nat,
            |i: int| NvmeCompletion { result: 0, command_id: 0, status: 0 },
        ));
        Ok(queue)
    }

    /// Whether the controller wants to be notified of a new value of a doorbell.
    pub fn dbbuf_need_event(event_idx: u16, new_idx: u16, old: u16) -> (r: bool)
        ensures
            r == need_event(event_idx, new_idx, old),
    {
        new_idx.wrapping_sub(event_idx).wrapping_sub(1) < new_idx.wrapping_sub(old)
    }

    /// Writes a value to the copy of a doorbell and tells whether the doorbell has to be written
    /// too.
    pub fn dbbuf_update_and_check_event(
        &self,
        data: &mut NvmeData,
        value: u16,
        extra_index: usize,
    ) -> (r: bool)
        requires
            self@.has_copies(old(data).doorbells(), extra_index as int),
            self.sdb_index + extra_index <= usize::MAX,
        ensures
            final(data).db_stride == old(data).db_stride,
            (final(data).doorbells(), r) == self@.posted(
                old(data).doorbells(),
                value,
                extra_index as int,
            ),
    {
        if self.qid == 0 {
            return true;
        }
        match &mut data.shadow {
            Some(shadow) => {
                let index: usize = self.sdb_index + extra_index;
                let old_value: u32 = shadow.dbs[index];
                shadow.dbs.set(index, value as u32);
                let event: u32 = shadow.eis[index];
                Self::dbbuf_need_event(event as u16, value, old_value as u16)
            },
            None => true,
        }
    }

    /// Writes the doorbell of the submission queue where it is due.
    pub fn write_sq_db(&mut self, data: &mut NvmeData, write_sq: bool) -> (r: Option<Doorbell>)
        requires
            old(self)@.inv(),
            old(self)@.has_copies(old(data).doorbells(), 0),
        ensures
            final(self)@.inv(),
            final(self)@ == old(self)@.rung(write_sq),
            final(data).db_stride == old(data).db_stride,
            (final(data).doorbells(), r) == old(self)@.sq_posted(
                old(data).doorbells(),
                write_sq,
            ),
    {
        if !write_sq {
            let mut next_tail: u16 = self.sq_tail + 1;
            if next_tail == self.q_depth {
                next_tail = 0;
            }
            if next_tail != self.last_sq_tail {
                return None;
            }
        }
        let notify: bool = self.dbbuf_update_and_check_event(data, self.sq_tail, 0);
        let doorbell: Option<Doorbell> = if notify {
            Some(Doorbell { offset: self.db_offset, value: self.sq_tail as u32 })
        } else {
            None
        };
        self.last_sq_tail = self.sq_tail;
        doorbell
    }

    /// Adds a command to the submission queue.
    pub fn submit_command(&mut self, data: &mut NvmeData, cmd: &NvmeCommand, is_last: bool) -> (r:
        Option<Doorbell>)
        requires
            old(self)@.inv(),
            old(self)@.has_copies(old(data).doorbells(), 0),
        ensures
            final(self)@.inv(),
            final(self)@ == old(self)@.with_command(*cmd).rung(is_last),
            final(data).db_stride == old(data).db_stride,
            (final(data).doorbells(), r) == old(self)@.with_command(*cmd).sq_posted(
                old(data).doorbells(),
                is_last,
            ),
    {
        self.sq.set(self.sq_tail as usize, *cmd);
        self.sq_tail = self.sq_tail + 1;
        if self.sq_tail == self.q_depth {
            self.sq_tail = 0;
        }
        assert(self@ =~= old(self)@.with_command(*cmd));
        self.write_sq_db(data, is_last)
    }

    /// Takes all new entries from the completion queue. `lookup` asks the host for the request with
    /// a tag of a queue.
    pub fn process_completions<D, F: Fn(u32, u32) -> Option<TaggedRequest>>(
        &mut self,
        data: &mut NvmeData,
        tagset: &TagSet<D>,
        lookup: &F,
    ) -> (r: Completions)
        requires
            old(self)@.inv(),
            old(self)@.has_copies(old(data).doorbells(), old(data).db_stride as int / 4),
            old(self).sdb_index + old(data).db_stride / 4 <= usize::MAX,
            old(self).db_offset + old(data).db_stride <= usize::MAX,
            lookups_ok(old(self)@, tagset.nr_hw_queues, *lookup),
        ensures
            final(self)@.inv(),
            r.completed@.len() <= old(self).q_depth,
            forall|i: int| 0 <= i < r.completed@.len() ==> #[trigger] old(self)@.is_new(i),
            !old(self)@.is_new(r.completed@.len() as int),
            forall|i: int|
                0 <= i < r.completed@.len() ==> completed_by(
                    old(self)@.entry(i),
                    old(self).qid,
                    tagset.nr_hw_queues,
                    *lookup,
                    #[trigger] r.completed@[i],
                ),
            final(data).db_stride == old(data).db_stride,
            if r.completed@.len() == 0 {
                &&& final(self)@ == old(self)@
                &&& final(data).doorbells() == old(data).doorbells()
                &&& r.doorbell is None
            } else {
                let after = old(self)@.taken(r.completed@.len() as int);
                let (copies, notify) = old(self)@.posted(
                    old(data).doorbells(),
                    after.cq_head,
                    old(data).db_stride as int / 4,
                );
                &&& final(self)@ == after
                &&& final(data).doorbells() == copies
                &&& r.doorbell == (if notify {
                    Some(
                        Doorbell {
                            offset: (old(self).db_offset + old(data).db_stride) as usize,
                            value: after.cq_head as u32,
                        },
                    )
                } else {
                    None
                })
            },
    {
        let mut head: u16 = self.cq_head;
        let mut phase: u16 = self.cq_phase;
        let mut completed: Vec<Completed> = Vec::new();
        let ghost start = self@;
        let mut more: bool = true;
        while more
            invariant
                self@ == start,
                start == old(self)@,
                start.inv(),
                completed@.len() <= start.q_depth,
                head == start.taken(completed@.len() as int).cq_head,
                head < start.q_depth,
                phase == start.phase(completed@.len() as int),
                forall|i: int| 0 <= i < completed@.len() ==> #[trigger] start.is_new(i),
                !more ==> !start.is_new(completed@.len() as int),
                lookups_ok(start, tagset.nr_hw_queues, *lookup),
                forall|i: int|
                    0 <= i < completed@.len() ==> completed_by(
                        start.entry(i),
                        start.qid,
                        tagset.nr_hw_queues,
                        *lookup,
                        #[trigger] completed@[i],
                    ),
            decreases start.q_depth - completed@.len() + (if more {
                1int
            } else {
                0int
            }),
        {
            let cqe = self.cq[head as usize];
            let status: u16 = cqe.status;
            assert(status & 1 == status % 2 && status >> 1 == status / 2) by (bit_vector);
            let ghost n = completed@.len() as int;
            assert(cqe == start.entry(n));
            if cqe.status & 1 != phase {
                more = false;
            } else {
                assert(start.is_new(n));
                assert(n < start.q_depth) by {
                    if n == start.q_depth {
                        assert(start.is_new(0));
                    }
                }
                head = head + 1;
                if head == self.q_depth {
                    head = 0;
                    phase = 1 - phase;
                }
                assert(lookup_ok(start.entry(n), start.qid, tagset.nr_hw_queues, *lookup));
                let queue: u16 = self.qid.saturating_sub(1);
                let request: Option<usize> = match tagset.tag_to_rq(
                    queue as u32,
                    cqe.command_id as u32,
                    lookup,
                ) {
                    Some(shared) => Some(shared.request),
                    None => None,
                };
                completed.push(
                    Completed {
                        command_id: cqe.command_id,
                        request,
                        result: cqe.result,
                        status: cqe.status >> 1,
                    },
                );
            }
        }
        if completed.len() == 0 {
            return Completions { completed, doorbell: None };
        }
        let stride: usize = data.db_stride;
        let notify: bool = self.dbbuf_update_and_check_event(data, head, stride / 4);
        let doorbell: Option<Doorbell> = if notify {
            Some(Doorbell { offset: self.db_offset + stride, value: head as u32 })
        } else {
            None
        };
        self.cq_head = head;
        self.cq_phase = phase;
        Completions { completed, doorbell }
    }

    /// Answers an interrupt, after completions were processed.
    pub fn handle(completions: &Completions) -> (r: IrqReturn)
        ensures
            r == (if completions.completed@.len() > 0 {
                IrqReturn::Handled
            } else {
                IrqReturn::NotHandled
            }),
    {
        if completions.completed.len() > 0 {
            IrqReturn::Handled
        } else {
            IrqReturn::NotHandled
        }
    }

    /// Takes the registration of the interrupt handler out of the queue and tells whether there was
    /// one, which the host drops.
    pub fn unregister_irq(&mut self) -> (r: bool)
        ensures
            r == old(self).irq,
            *final(self) == (NvmeQueue { irq: false, ..*old(self) }),
    {
        let registered: bool = self.irq;
        self.irq = false;
        registered
    }

    /// Keeps the registration of an interrupt handler, where the host could register it.
    pub fn register_irq(&mut self, registration: Result<()>) -> (r: Result<()>)
        ensures
            match registration {
                Ok(_) => r is Ok && *final(self) == (NvmeQueue { irq: true, ..*old(self) }),
                Err(e) => r == Err::<(), crate::error::Errno>(e) && *final(self) == *old(self),
            },
    {
        match registration {
            Ok(()) => {
                self.irq = true;
                Ok(())
            },
            Err(e) => Err(e),
        }
    }
}

/// Number of the hardware queue, among those of the tag set, for the queue `qid` of the controller,
/// whose first queue takes administration commands.
pub open spec fn tag_queue(qid: u16) -> u32 {
    if qid == 0 {
        0
    } else {
        (qid - 1) as u32
    }
}

/// What is made of an entry of a completion queue.
pub open spec fn completed_by<F: Fn(u32, u32) -> Option<TaggedRequest>>(
    cqe: NvmeCompletion,
    qid: u16,
    nr_hw_queues: u32,
    lookup: F,
    completed: Completed,
) -> bool {
    &&& completed.command_id == cqe.command_id
    &&& completed.result == cqe.result
    &&& completed.status == cqe.status / 2
    &&& if tag_queue(qid) < nr_hw_queues {
        exists|found: Option<TaggedRequest>| #[trigger]
            call_ensures(lookup, (tag_queue(qid), cqe.command_id as u32), found) && match found {
                Some(tagged) => completed.request == Some(tagged.request),
                None => completed.request is None,
            }
    } else {
        completed.request is None
    }
}

/// A command that is submitted is in the queue, the other commands stay, and the doorbell tells the
/// controller of all of them.
pub proof fn lemma_submitted(queue: QueueState, cmd: NvmeCommand, other: int)
    requires
        queue.inv(),
        0 <= other < queue.q_depth,
    ensures
        queue.with_command(cmd).sq[queue.sq_tail as int] == cmd,
        other != queue.sq_tail ==> queue.with_command(cmd).sq[other] == queue.sq[other],
        queue.with_command(cmd).rung(true).last_sq_tail == queue.with_command(cmd).sq_tail,
{
}

/// After every submission, with or without a doorbell, there is room for a further command that the
/// controller was not told of.
pub proof fn lemma_room_after_submission(queue: QueueState, cmd: NvmeCommand, is_last: bool)
    requires
        queue.inv(),
        queue.q_depth > 1,
    ensures
        ({
            let after = queue.with_command(cmd).rung(is_last);
            after.following(after.sq_tail) != after.last_sq_tail
        }),
{
}

} // verus!
