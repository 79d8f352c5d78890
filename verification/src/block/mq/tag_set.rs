//! Tag sets.

use crate::error::{to_result, Errno, Result, EINVAL, ENOMEM};
use vstd::prelude::*;

pub mod flags;

pub use flags::{Flag, Flags};

verus! {

/// Number of the map for queues without a special purpose.
pub const HCTX_TYPE_DEFAULT: u32 = 0;

/// Number of the map for read queues.
pub const HCTX_TYPE_READ: u32 = 1;

/// Number of the map for polled queues.
pub const HCTX_TYPE_POLL: u32 = 2;

/// Purpose of a set of queues.
#[derive(Copy, Clone, Debug, PartialEq, Eq, Structural)]
pub enum QueueType {
    /// Queues without a special purpose.
    Default,
    /// Queues for reads.
    Read,
    /// Queues whose completions are polled.
    Poll,
}

impl QueueType {
    /// The number of the type.
    pub open spec fn raw(self) -> u32 {
        match self {
            QueueType::Default => HCTX_TYPE_DEFAULT,
            QueueType::Read => HCTX_TYPE_READ,
            QueueType::Poll => HCTX_TYPE_POLL,
        }
    }

    /// The type with a number.
    pub fn try_from(value: u32) -> (r: Result<Self>)
        ensures
            match r {
                Ok(kind) => kind.raw() == value,
                Err(e) => value > HCTX_TYPE_POLL && e == Errno(EINVAL),
            },
    {
        match value {
            HCTX_TYPE_DEFAULT => Ok(QueueType::Default),
            HCTX_TYPE_READ => Ok(QueueType::Read),
            HCTX_TYPE_POLL => Ok(QueueType::Poll),
            _ => Err(Errno(EINVAL)),
        }
    }
}

/// How queues of one type are laid out.
#[derive(Copy, Clone, Debug, PartialEq, Eq, Structural)]
pub struct QueueMap {
    /// Number of queues.
    pub nr_queues: u32,
    /// Number of the first queue.
    pub queue_offset: u32,
    /// Whether processors were assigned to the queues.
    pub mapped: bool,
    /// Purpose of the queues.
    pub kind: QueueType,
}

impl QueueMap {
    /// Sets the number of queues.
    pub fn set_queue_count(&mut self, nr_queues: u32)
        ensures
            *final(self) == (QueueMap { nr_queues, ..*old(self) }),
    {
        self.nr_queues = nr_queues;
    }

    /// Sets the number of the first queue.
    pub fn set_offset(&mut self, offset: u32)
        ensures
            *final(self) == (QueueMap { queue_offset: offset, ..*old(self) }),
    {
        self.queue_offset = offset;
    }

    /// Asks for processors to be assigned to the queues.
    pub fn map_queues(&mut self)
        ensures
            *final(self) == (QueueMap { mapped: true, ..*old(self) }),
    {
        self.mapped = true;
    }

    /// Purpose of the queues.
    pub fn kind(&self) -> (r: QueueType)
        ensures
            r == self.kind,
    {
        self.kind
    }
}

/// The parameters of a tag set and the data of the driver.
pub struct TagSet<D> {
    /// Number of hardware queues.
    pub nr_hw_queues: u32,
    /// Number of tags of each queue.
    pub queue_depth: u32,
    /// Size of the driver data of a request.
    pub cmd_size: u32,
    /// Memory node.
    pub numa_node: i32,
    /// Time after which requests time out, zero for the default.
    pub timeout: u32,
    /// Flags.
    pub flags: Flags,
    /// Layout of the queues, by type.
    pub maps: Vec<QueueMap>,
    /// Data of the driver.
    pub data: D,
}

/// The layout of queues of a new tag set.
pub open spec fn new_maps(num_maps: int) -> Seq<QueueMap> {
    Seq::new(
        num_maps as nat,
        |i: int|
            QueueMap {
                nr_queues: 0,
                queue_offset: 0,
                mapped: false,
                kind: if i == 0 {
                    QueueType::Default
                } else if i == 1 {
                    QueueType::Read
                } else {
                    QueueType::Poll
                },
            },
    )
}

impl<D> TagSet<D> {
    /// There is a map for each type at most, in the order of their numbers.
    pub open spec fn inv(&self) -> bool {
        &&& self.maps@.len() <= 3
        &&& forall|i: int| 0 <= i < self.maps@.len() ==> #[trigger] self.maps@[i].kind.raw() == i
    }

    /// Try to create a new tag set. `cmd_size` is the size of the driver data of a request, and
    /// `status` the answer of the host that allocates the tags. Where it fails the data of the
    /// driver is handed back.
    pub fn new(
        nr_hw_queues: u32,
        tagset_data: D,
        num_tags: u32,
        num_maps: u32,
        numa_node: i32,
        flags: Flags,
        cmd_size: usize,
        status: i32,
    ) -> (r: core::result::Result<Self, (Errno, D)>)
        requires
            num_maps <= 3 || status < 0,
        ensures
            match r {
                Ok(set) => {
                    &&& cmd_size <= u32::MAX && status >= 0
                    &&& set.inv()
                    &&& set.nr_hw_queues == nr_hw_queues
                    &&& set.queue_depth == num_tags
                    &&& set.cmd_size == cmd_size
                    &&& set.numa_node == numa_node
                    &&& set.timeout == 0
                    &&& set.flags == flags
                    &&& set.maps@ == new_maps(num_maps as int)
                    &&& set.data == tagset_data
                },
                Err((e, data)) => {
                    &&& data == tagset_data
                    &&& if cmd_size > u32::MAX {
                        e == Errno(EINVAL)
                    } else {
                        status < 0 && e.0 == (if -4095 <= status {
                            status
                        } else {
                            EINVAL
                        })
                    }
                },
            },
    {
        if cmd_size > u32::MAX as usize {
            return Err((Errno(EINVAL), tagset_data));
        }
        match to_result(status) {
            Ok(()) => {},
            Err(e) => {
                return Err((e, tagset_data));
            },
        }
        let mut maps: Vec<QueueMap> = Vec::new();
        let mut i: u32 = 0;
        while i < num_maps
            invariant
                i <= num_maps <= 3,
                maps@ =~= new_maps(i as int),
            decreases num_maps - i,
        {
            maps.push(
                QueueMap {
                    nr_queues: 0,
                    queue_offset: 0,
                    mapped: false,
                    kind: if i == 0 {
                        QueueType::Default
                    } else if i == 1 {
                        QueueType::Read
                    } else {
                        QueueType::Poll
                    },
                },
            );
            i += 1;
        }
        Ok(
            TagSet {
                nr_hw_queues,
                queue_depth: num_tags,
                cmd_size: cmd_size as u32,
                numa_node,
                timeout: 0,
                flags,
                maps,
                data: tagset_data,
            },
        )
    }

    /// Lets `cb` lay out the queues of each type, in the order of their numbers.
    pub fn update_maps<F: Fn(QueueMap) -> QueueMap>(&mut self, cb: F) -> (r: Result<()>)
        requires
            old(self).inv(),
            forall|i: int|
                0 <= i < old(self).maps@.len() ==> call_requires(cb, (#[trigger] old(self).maps@[i],)),
            forall|i: int, new: QueueMap|
                0 <= i < old(self).maps@.len() && #[trigger] call_ensures(
                    cb,
                    (old(self).maps@[i],),
                    new,
                ) ==> new.kind == old(self).maps@[i].kind,
        ensures
            r is Ok,
            final(self).inv(),
            final(self).maps@.len() == old(self).maps@.len(),
            forall|i: int|
                0 <= i < old(self).maps@.len() ==> call_ensures(
                    cb,
                    (old(self).maps@[i],),
                    #[trigger] final(self).maps@[i],
                ),
            final(self).nr_hw_queues == old(self).nr_hw_queues,
            final(self).queue_depth == old(self).queue_depth,
            final(self).cmd_size == old(self).cmd_size,
            final(self).numa_node == old(self).numa_node,
            final(self).timeout == old(self).timeout,
            final(self).flags == old(self).flags,
            final(self).data == old(self).data,
    {
        let mut i: usize = 0;
        while i < self.maps.len()
            invariant
                i <= self.maps@.len() == old(self).maps@.len(),
                old(self).inv(),
                self.inv(),
                forall|j: int|
                    0 <= j < old(self).maps@.len() ==> call_requires(
                        cb,
                        (#[trigger] old(self).maps@[j],),
                    ),
                forall|j: int, new: QueueMap|
                    0 <= j < old(self).maps@.len() && #[trigger] call_ensures(
                        cb,
                        (old(self).maps@[j],),
                        new,
                    ) ==> new.kind == old(self).maps@[j].kind,
                forall|j: int|
                    0 <= j < i ==> call_ensures(cb, (old(self).maps@[j],), #[trigger] self.maps@[j]),
                forall|j: int|
                    i <= j < self.maps@.len() ==> #[trigger] self.maps@[j] == old(self).maps@[j],
                self.nr_hw_queues == old(self).nr_hw_queues,
                self.queue_depth == old(self).queue_depth,
                self.cmd_size == old(self).cmd_size,
                self.numa_node == old(self).numa_node,
                self.timeout == old(self).timeout,
                self.flags == old(self).flags,
                self.data == old(self).data,
            decreases self.maps@.len() - i,
        {
            assert(self.maps@[i as int] == old(self).maps@[i as int]);
            let map = cb(self.maps[i]);
            self.maps.set(i, map);
            i += 1;
        }
        Ok(())
    }

    /// Number of hardware queues.
    pub fn hw_queue_count(&self) -> (r: u32)
        ensures
            r == self.nr_hw_queues,
    {
        self.nr_hw_queues
    }

    /// Update the number of hardware queues for this tag set; `resulting` is the number of queues
    /// after the host tried to set it.
    ///
    /// This operation may fail if memory for tags cannot be allocated.
    pub fn update_hw_queue_count(&mut self, nr_hw_queues: u32, resulting: u32) -> (r: Result<()>)
        ensures
            *final(self) == (TagSet { nr_hw_queues: resulting, ..*old(self) }),
            r == (if resulting == nr_hw_queues {
                Ok::<(), Errno>(())
            } else {
                Err(Errno(ENOMEM))
            }),
    {
        self.nr_hw_queues = resulting;
        if self.hw_queue_count() == nr_hw_queues {
            Ok(())
        } else {
            Err(Errno(ENOMEM))
        }
    }

    /// Data of the driver.
    pub fn data(&self) -> (r: &D)
        ensures
            *r == self.data,
    {
        &self.data
    }

    /// Finds the request with a tag and takes a shared reference to it. `lookup` asks the host for
    /// the request with a tag of a queue that exists.
    pub fn tag_to_rq<F: FnOnce(u32, u32) -> Option<TaggedRequest>>(
        &self,
        qid: u32,
        tag: u32,
        lookup: F,
    ) -> (r: Option<SharedRequest>)
        requires
            qid < self.nr_hw_queues ==> call_requires(lookup, (qid, tag)),
            forall|found: TaggedRequest|
                qid < self.nr_hw_queues && #[trigger] call_ensures(lookup, (qid, tag), Some(found))
                    ==> found.inv(),
        ensures
            if qid < self.nr_hw_queues {
                exists|found: Option<TaggedRequest>| #[trigger]
                    call_ensures(lookup, (qid, tag), found) && match (found, r) {
                        (Some(tagged), Some(shared)) => tagged.shared_as(shared),
                        (None, None) => true,
                        _ => false,
                    }
            } else {
                r is None
            },
    {
        if qid >= self.hw_queue_count() {
            return None;
        }
        match lookup(qid, tag) {
            Some(tagged) => Some(tagged.share()),
            None => None,
        }
    }
}

/// What the host saw in one attempt to raise the reference count of a request.
#[derive(Copy, Clone, Debug, PartialEq, Eq, Structural)]
pub struct Attempt {
    /// The count that was loaded.
    pub count: i32,
    /// Whether an exchange of that count for the next one took place.
    pub exchanged: bool,
}

impl Attempt {
    /// The attempt took a reference: somebody holds the request, and nobody else changed the count
    /// in between.
    pub open spec fn succeeds(self) -> bool {
        self.count >= 1 && self.exchanged
    }
}

/// What to do about a reference count that was loaded.
#[derive(Copy, Clone, Debug, PartialEq, Eq, Structural)]
pub enum ShareStep {
    /// Exchange the count for the next one.
    Exchange {
        /// The count that has to be there.
        expected: i32,
        /// The count to store.
        new: i32,
    },
    /// Load the count again: the change that hands out the first reference is not visible yet.
    Spin,
}

/// Decides what to do about a reference count that was loaded.
pub fn share_step(count: i32) -> (r: ShareStep)
    requires
        count < i32::MAX,
    ensures
        r == (if count >= 1 {
            ShareStep::Exchange { expected: count, new: (count + 1) as i32 }
        } else {
            ShareStep::Spin
        }),
{
    if count >= 1 {
        ShareStep::Exchange { expected: count, new: count + 1 }
    } else {
        ShareStep::Spin
    }
}

/// A request that the host found, with its attempts to raise the reference count.
#[derive(Debug)]
pub struct TaggedRequest {
    /// Number of the request.
    pub request: usize,
    /// The attempts, in order.
    pub attempts: Vec<Attempt>,
}

/// A request with a reference to it.
#[derive(Copy, Clone, Debug, PartialEq, Eq, Structural)]
pub struct SharedRequest {
    /// Number of the request.
    pub request: usize,
    /// Reference count, with the reference.
    pub count: i32,
}

impl TaggedRequest {
    /// One of the attempts succeeds.
    pub open spec fn inv(&self) -> bool {
        &&& exists|i: int| 0 <= i < self.attempts@.len() && #[trigger] self.attempts@[i].succeeds()
        &&& forall|i: int|
            0 <= i < self.attempts@.len() ==> #[trigger] self.attempts@[i].count < i32::MAX
    }

    /// `shared` is the reference that the first successful attempt takes.
    pub open spec fn shared_as(&self, shared: SharedRequest) -> bool {
        &&& shared.request == self.request
        &&& exists|i: int|
            {
                &&& 0 <= i < self.attempts@.len()
                &&& #[trigger] self.attempts@[i].succeeds()
                &&& forall|j: int| 0 <= j < i ==> !#[trigger] self.attempts@[j].succeeds()
                &&& shared.count == self.attempts@[i].count + 1
            }
    }

    /// Repeats the attempt to take a reference until it succeeds.
    pub fn share(&self) -> (r: SharedRequest)
        requires
            self.inv(),
        ensures
            self.shared_as(r),
    {
        let len: usize = self.attempts.len();
        let mut i: usize = 0;
        loop
            invariant
                self.inv(),
                i < len == self.attempts@.len(),
                forall|j: int| 0 <= j < i ==> !#[trigger] self.attempts@[j].succeeds(),
            decreases len - i,
        {
            let attempt = self.attempts[i];
            match share_step(attempt.count) {
                ShareStep::Exchange { expected: _, new } => {
                    if attempt.exchanged {
                        assert(self.attempts@[i as int].succeeds());
                        return SharedRequest { request: self.request, count: new };
                    }
                },
                ShareStep::Spin => {},
            }
            proof {
                assert(!self.attempts@[i as int].succeeds());
                let k = choose|k: int|
                    0 <= k < self.attempts@.len() && #[trigger] self.attempts@[k].succeeds();
                assert(i < k);
            }
            i += 1;
        }
    }
}

} // verus!
