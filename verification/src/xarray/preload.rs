//! Preallocation of array nodes.

use crate::error::{Errno, Result, ENOMEM, ENOSPC};
use vstd::prelude::*;

verus! {

/// Base two logarithm of the number of slots in an array node.
pub const XA_CHUNK_SHIFT: usize = 6;

/// A preallocated array node, identified by its address.
#[derive(Debug, PartialEq, Eq, Structural)]
pub struct XArrayPreloadNode(usize);

impl View for XArrayPreloadNode {
    type V = usize;

    closed spec fn view(&self) -> usize {
        self.0
    }
}

impl XArrayPreloadNode {
    /// Takes the answer of the node allocator: the address of a node, or zero where there is no
    /// memory.
    pub fn new(address: usize) -> (r: Result<Self>)
        ensures
            match r {
                Ok(node) => address != 0 && node@ == address,
                Err(e) => address == 0 && e == Errno(ENOMEM),
            },
    {
        if address == 0 {
            return Err(Errno(ENOMEM));
        }
        Ok(XArrayPreloadNode::from_raw(address))
    }

    /// Gives up the node and returns its address.
    pub fn into_raw(self) -> (r: usize)
        ensures
            r == self@,
    {
        self.0
    }

    /// Creates a node from its address.
    pub fn from_raw(address: usize) -> (r: Self)
        ensures
            r@ == address,
    {
        XArrayPreloadNode(address)
    }
}

/// Number of internal nodes that inserting one leaf value can need: one for each level of the
/// array.
pub open spec fn nodes_per_entry() -> int {
    (usize::BITS + XA_CHUNK_SHIFT - 1) / (XA_CHUNK_SHIFT as int)
}

/// Computes [`nodes_per_entry`].
pub fn levels() -> (r: usize)
    ensures
        r == nodes_per_entry(),
        1 <= r <= 11,
{
    (usize::BITS as usize / XA_CHUNK_SHIFT) + if (usize::BITS as usize % XA_CHUNK_SHIFT) == 0 {
        0
    } else {
        1
    }
}

/// Position `i` places after `tail` in a ring of `size` places.
spec fn place(tail: int, i: int, size: int) -> int {
    if tail + i < size {
        tail + i
    } else {
        tail + i - size
    }
}

/// Advancing a position by one wraps around at the end of the ring.
proof fn lemma_advance(pos: usize, size: usize)
    requires
        pos < size,
    ensures
        (pos + 1) % (size as int) == place(pos as int, 1, size as int),
{
    if pos + 1 < size {
        vstd::arithmetic::div_mod::lemma_small_mod((pos + 1) as nat, size as nat);
    } else {
        vstd::arithmetic::div_mod::lemma_mod_self_0(size as int);
    }
}

/// A buffer for preallocating array nodes.
///
/// This structure allows preallocating memory for insertions to avoid allocation failures during
/// operations where allocation is not desirable.
pub struct XArrayPreloadBuffer {
    nodes: Vec<usize>,
    size: usize,
    head: usize,
    tail: usize,
}

impl View for XArrayPreloadBuffer {
    type V = Seq<usize>;

    /// The addresses of the nodes in the buffer, oldest first.
    closed spec fn view(&self) -> Seq<usize> {
        Seq::new(
            self.used() as nat,
            |i: int| self.nodes@[place(self.tail as int, i, self.size as int)],
        )
    }
}

/// The longest prefix of `answers` without a zero.
pub open spec fn granted(answers: Seq<usize>) -> nat
    decreases answers.len(),
{
    if answers.len() == 0 || answers[0] == 0 {
        0
    } else {
        1 + granted(answers.skip(1))
    }
}

impl XArrayPreloadBuffer {
    spec fn used(&self) -> int {
        if self.head >= self.tail {
            self.head - self.tail
        } else {
            self.size - self.tail + self.head
        }
    }

    /// The positions lie in the buffer.
    pub closed spec fn inv(&self) -> bool {
        &&& self.nodes@.len() == self.size
        &&& self.head < self.size
        &&& self.tail < self.size
        &&& self.size < usize::MAX
    }

    /// Number of nodes that the buffer can hold.
    pub closed spec fn capacity(&self) -> int {
        self.size - 1
    }

    /// Creates a new preload buffer with capacity for the given number of leaf values.
    ///
    /// Inserting a leaf value into an array may require allocating a number of internal nodes.
    /// This buffer will calculate the upper limit of required internal nodes for inserting
    /// `entry_count` leaf values and use that to size the buffer.
    pub fn new(entry_count: usize) -> (r: Result<Self>)
        requires
            entry_count * nodes_per_entry() + 1 < usize::MAX,
        ensures
            r matches Ok(buffer) && {
                &&& buffer.inv()
                &&& buffer.capacity() == entry_count * nodes_per_entry()
                &&& buffer@ == Seq::<usize>::empty()
            },
    {
        let per_entry: usize = levels();
        assert(0 <= entry_count * per_entry) by (nonlinear_arith)
            requires
                entry_count >= 0,
                per_entry >= 0,
        ;
        let node_count: usize = entry_count * per_entry;
        let mut this = XArrayPreloadBuffer {
            nodes: Vec::new(),
            size: node_count + 1,
            head: 0,
            tail: 0,
        };
        let mut i: usize = 0;
        while i < this.size
            invariant
                this.nodes@.len() == i,
                i <= this.size == node_count + 1,
                this.head == 0,
                this.tail == 0,
            decreases this.size - i,
        {
            this.nodes.push(0);
            i += 1;
        }
        assert(this@ =~= Seq::<usize>::empty());
        Ok(this)
    }

    /// Returns `true` if the buffer is full and cannot accept more nodes.
    pub fn full(&self) -> (r: bool)
        requires
            self.inv(),
        ensures
            r == (self@.len() == self.capacity()),
    {
        proof {
            lemma_advance(self.head, self.size);
        }
        (self.head + 1) % self.size == self.tail
    }

    /// Returns `true` if the buffer holds no node.
    fn empty(&self) -> (r: bool)
        requires
            self.inv(),
        ensures
            r == (self@.len() == 0),
    {
        self.head == self.tail
    }

    /// Returns the number of available slots in the buffer.
    pub fn free_count(&self) -> (r: usize)
        requires
            self.inv(),
        ensures
            r == self.capacity() - self@.len(),
    {
        (if self.head >= self.tail {
            self.size - (self.head - self.tail)
        } else {
            self.tail - self.head
        }) - 1
    }

    /// Adds a node whose address the node allocator returned, zero where there is no memory.
    fn alloc_node(&mut self, address: usize) -> (r: Result<()>)
        requires
            old(self).inv(),
        ensures
            final(self).inv(),
            final(self).capacity() == old(self).capacity(),
            match r {
                Ok(_) => {
                    &&& old(self)@.len() < old(self).capacity() && address != 0
                    &&& final(self)@ == old(self)@.push(address)
                },
                Err(e) => {
                    &&& final(self)@ == old(self)@
                    &&& if old(self)@.len() == old(self).capacity() {
                        e == Errno(ENOSPC)
                    } else {
                        address == 0 && e == Errno(ENOMEM)
                    }
                },
            },
    {
        if self.full() {
            return Err(Errno(ENOSPC));
        }
        match XArrayPreloadNode::new(address) {
            Ok(node) => self.push(node),
            Err(e) => Err(e),
        }
    }

    /// Adds a node.
    fn push(&mut self, node: XArrayPreloadNode) -> (r: Result<()>)
        requires
            old(self).inv(),
        ensures
            final(self).inv(),
            final(self).capacity() == old(self).capacity(),
            match r {
                Ok(_) => {
                    &&& old(self)@.len() < old(self).capacity()
                    &&& final(self)@ == old(self)@.push(node@)
                },
                Err(e) => {
                    &&& old(self)@.len() == old(self).capacity()
                    &&& e == Errno(ENOSPC)
                    &&& final(self)@ == old(self)@
                },
            },
    {
        if self.full() {
            return Err(Errno(ENOSPC));
        }
        let address: usize = node.into_raw();
        proof {
            lemma_advance(self.head, self.size);
        }
        let at: usize = self.head;
        self.nodes.set(at, address);
        self.head = (self.head + 1) % self.size;
        proof {
            assert(self@ =~= old(self)@.push(address));
        }
        Ok(())
    }

    /// Allocates internal nodes until the buffer is full. `answers` are the addresses that the
    /// node allocator returns, in order, zero where there is no memory.
    pub fn preload(&mut self, answers: &[usize]) -> (r: Result<()>)
        requires
            old(self).inv(),
            answers@.len() >= old(self).capacity() - old(self)@.len(),
        ensures
            final(self).inv(),
            final(self).capacity() == old(self).capacity(),
            ({
                let free = old(self).capacity() - old(self)@.len();
                let count = granted(answers@.take(free));
                &&& final(self)@ == old(self)@ + answers@.take(count as int)
                &&& r is Ok <==> count == free
                &&& r matches Err(e) ==> e == Errno(ENOMEM)
            }),
    {
        let mut next: usize = 0;
        let ghost free = self.capacity() - self@.len();
        proof {
            assert(answers@.take(free).skip(0) =~= answers@.take(free));
            assert(self@ =~= old(self)@ + answers@.take(0));
        }
        while !self.full()
            invariant
                self.inv(),
                self.capacity() == old(self).capacity(),
                free == old(self).capacity() - old(self)@.len(),
                0 <= free <= answers@.len(),
                next <= free,
                self@ == old(self)@ + answers@.take(next as int),
                granted(answers@.take(free)) == next + granted(answers@.take(free).skip(next as int)),
            decreases free - next,
        {
            let ghost rest = answers@.take(free).skip(next as int);
            proof {
                assert(rest[0] == answers@[next as int]);
                assert(rest.skip(1) =~= answers@.take(free).skip(next + 1));
                assert(answers@.take(next + 1) =~= answers@.take(next as int).push(
                    answers@[next as int],
                ));
            }
            match self.alloc_node(answers[next]) {
                Ok(()) => {},
                Err(e) => {
                    return Err(e);
                },
            }
            next += 1;
            assert(self@ =~= old(self)@ + answers@.take(next as int));
        }
        assert(next == free);
        Ok(())
    }

    /// Fills the buffer with preallocated nodes from the given vector.
    ///
    /// Nodes are moved from the end of the vector into the buffer until the buffer is full or the
    /// vector is empty.
    pub fn preload_with(&mut self, nodes: &mut Vec<XArrayPreloadNode>) -> (r: Result<()>)
        requires
            old(self).inv(),
        ensures
            r is Ok,
            final(self).inv(),
            final(self).capacity() == old(self).capacity(),
            ({
                let free = old(self).capacity() - old(self)@.len();
                let available = old(nodes)@.len();
                let count = if free <= available { free } else { available as int };
                &&& final(nodes)@ == old(nodes)@.take(available - count)
                &&& final(self)@ == old(self)@ + Seq::new(
                    count as nat,
                    |i: int| old(nodes)@[available - 1 - i]@,
                )
            }),
    {
        let ghost available = nodes@.len();
        let ghost mut moved: int = 0;
        let mut more: bool = true;
        proof {
            assert(nodes@ =~= old(nodes)@.take(available - moved));
            assert(self@ =~= old(self)@ + Seq::new(
                moved as nat,
                |i: int| old(nodes)@[available - 1 - i]@,
            ));
        }
        while more && !self.full()
            invariant
                self.inv(),
                self.capacity() == old(self).capacity(),
                available == old(nodes)@.len(),
                0 <= moved <= available,
                moved <= old(self).capacity() - old(self)@.len(),
                nodes@ == old(nodes)@.take(available - moved),
                self@ == old(self)@ + Seq::new(
                    moved as nat,
                    |i: int| old(nodes)@[available - 1 - i]@,
                ),
                !more ==> moved == available,
            decreases nodes@.len() + (if more { 1int } else { 0int }),
        {
            if let Some(node) = nodes.pop() {
                let ghost address = node@;
                match self.push(node) {
                    Ok(()) => {},
                    Err(e) => {
                        return Err(e);
                    },
                }
                proof {
                    assert(address == old(nodes)@[available - 1 - moved]@);
                    moved = moved + 1;
                    assert(nodes@ =~= old(nodes)@.take(available - moved));
                    assert(self@ =~= old(self)@ + Seq::new(
                        moved as nat,
                        |i: int| old(nodes)@[available - 1 - i]@,
                    ));
                }
            } else {
                more = false;
            }
        }
        Ok(())
    }

    /// Removes and returns one preallocated node from the buffer, the one that was added first.
    ///
    /// Returns `None` if the buffer is empty.
    pub fn take_one(&mut self) -> (r: Option<XArrayPreloadNode>)
        requires
            old(self).inv(),
        ensures
            final(self).inv(),
            final(self).capacity() == old(self).capacity(),
            match r {
                Some(node) => {
                    &&& old(self)@.len() > 0
                    &&& node@ == old(self)@[0]
                    &&& final(self)@ == old(self)@.skip(1)
                },
                None => old(self)@.len() == 0 && final(self)@ == old(self)@,
            },
    {
        if self.empty() {
            return None;
        }
        proof {
            lemma_advance(self.tail, self.size);
        }
        let node: usize = self.nodes[self.tail];
        self.tail = (self.tail + 1) % self.size;
        proof {
            assert(self@ =~= old(self)@.skip(1));
        }
        Some(XArrayPreloadNode::from_raw(node))
    }
}

} // verus!
