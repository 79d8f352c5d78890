//! PCI interrupt infrastructure.

use crate::error::{to_result, Errno, Result};
use vstd::prelude::*;

verus! {

/// INTx interrupts can be used.
pub const PCI_IRQ_INTX: u32 = 0x1;

/// MSI interrupts can be used.
pub const PCI_IRQ_MSI: u32 = 0x2;

/// MSI-X interrupts can be used.
pub const PCI_IRQ_MSIX: u32 = 0x4;

/// Interrupts are spread over processors.
pub const PCI_IRQ_AFFINITY: u32 = 0x8;

/// All types of interrupts can be used.
pub const PCI_IRQ_ALL_TYPES: u32 = 0x7;

/// Interrupts can be shared.
pub const IRQF_SHARED: u32 = 0x80;

/// IRQ type flags for PCI interrupt allocation.
#[derive(Debug, Clone, Copy, PartialEq, Eq, Structural)]
pub enum IrqType {
    /// INTx interrupts.
    Intx,
    /// Message Signaled Interrupts (MSI).
    Msi,
    /// Extended Message Signaled Interrupts (MSI-X).
    MsiX,
}

impl IrqType {
    /// The flag of the type.
    pub open spec fn flag(self) -> u32 {
        match self {
            IrqType::Intx => PCI_IRQ_INTX,
            IrqType::Msi => PCI_IRQ_MSI,
            IrqType::MsiX => PCI_IRQ_MSIX,
        }
    }

    /// The flag of the type.
    fn as_raw(self) -> (r: u32)
        ensures
            r == self.flag(),
    {
        match self {
            IrqType::Intx => PCI_IRQ_INTX,
            IrqType::Msi => PCI_IRQ_MSI,
            IrqType::MsiX => PCI_IRQ_MSIX,
        }
    }
}

/// Set of IRQ types that can be used for PCI interrupt allocation.
#[derive(Debug, Clone, Copy, PartialEq, Eq, Structural)]
pub struct IrqTypes(u32);

impl Default for IrqTypes {
    /// The empty set.
    fn default() -> (r: Self)
        ensures
            r.flags() == 0,
            r.inv(),
    {
        assert(0u32 & 7 == 0) by (bit_vector);
        IrqTypes(0)
    }
}

impl IrqTypes {
    #[verifier::type_invariant]
    spec fn has_types_only(self) -> bool {
        self.inv()
    }

    /// The set holds the flags of types and no others.
    pub open spec fn inv(self) -> bool {
        self.flags() & PCI_IRQ_ALL_TYPES == self.flags()
    }

    /// The flags of the set.
    pub closed spec fn flags(self) -> u32 {
        self.0
    }

    /// The type is in the set.
    pub open spec fn has(self, irq_type: IrqType) -> bool {
        self.flags() & irq_type.flag() == irq_type.flag()
    }

    /// Create a set containing all IRQ types (MSI-X, MSI, and INTx).
    pub fn all() -> (r: Self)
        ensures
            r.flags() == PCI_IRQ_ALL_TYPES,
            r.inv(),
            forall|irq_type: IrqType| #[trigger] r.has(irq_type),
    {
        assert(7u32 & 1 == 1 && 7u32 & 2 == 2 && 7u32 & 4 == 4 && 7u32 & 7 == 7) by (bit_vector);
        IrqTypes(PCI_IRQ_ALL_TYPES)
    }

    /// Build a set of IRQ types.
    pub fn with(self, irq_type: IrqType) -> (r: Self)
        ensures
            r.flags() == self.flags() | irq_type.flag(),
            r.inv(),
            forall|other: IrqType| #[trigger]
                r.has(other) <==> self.has(other) || other == irq_type,
    {
        proof {
            use_type_invariant(&self);
            lemma_with_inv(self.0, irq_type);
        }
        let r = IrqTypes(self.0 | irq_type.as_raw());
        proof {
            let flags = self.0;
            assert forall|other: IrqType| #[trigger] r.has(other) <==> self.has(other) || other
                == irq_type by {
                lemma_with(flags, irq_type, other);
            }
        }
        r
    }

    /// Get the raw flags value.
    fn as_raw(self) -> (r: u32)
        ensures
            r == self.flags(),
    {
        self.0
    }
}

proof fn lemma_with_inv(flags: u32, irq_type: IrqType)
    requires
        flags & PCI_IRQ_ALL_TYPES == flags,
    ensures
        (flags | irq_type.flag()) & PCI_IRQ_ALL_TYPES == flags | irq_type.flag(),
{
    let a = irq_type.flag();
    assert((flags | a) & 7 == flags | a) by (bit_vector)
        requires
            flags & 7 == flags,
            a == 1 || a == 2 || a == 4,
    ;
}

proof fn lemma_with(flags: u32, irq_type: IrqType, other: IrqType)
    ensures
        (flags | irq_type.flag()) & other.flag() == other.flag() <==> flags & other.flag()
            == other.flag() || other == irq_type,
{
    let a = irq_type.flag();
    let b = other.flag();
    assert((flags | a) & b == b <==> flags & b == b || a == b) by (bit_vector)
        requires
            a == 1 || a == 2 || a == 4,
            b == 1 || b == 2 || b == 4,
    ;
}

/// A PCI device, known by its number.
#[derive(Debug, Clone, Copy, PartialEq, Eq, Structural)]
pub struct Device {
    /// Number of the device.
    pub id: usize,
}

/// Represents an allocated IRQ vector for a specific PCI device.
///
/// This type ties an IRQ vector to the device it was allocated for, ensuring the vector is only
/// used with the correct device.
#[derive(Debug, Clone, Copy)]
pub struct IrqVector<'a> {
    dev: &'a Device,
    index: u32,
}

/// An interrupt of a device that a handler can be registered for.
#[derive(Debug, Clone, Copy, PartialEq, Eq, Structural)]
pub struct IrqRequest {
    /// Number of the device.
    pub device: usize,
    /// Number of the interrupt.
    pub irq: u32,
}

impl<'a> IrqVector<'a> {
    /// The device.
    pub closed spec fn device(self) -> Device {
        *self.dev
    }

    /// The number of the vector.
    pub closed spec fn number(self) -> u32 {
        self.index
    }

    /// Returns the raw vector index.
    pub fn index(&self) -> (r: u32)
        ensures
            r == self.number(),
    {
        self.index
    }

    /// The interrupt of the vector. `lookup` asks the host for the interrupt of `(device, vector)`;
    /// a negative number is an error.
    pub fn try_into<F: FnOnce(usize, u32) -> i32>(self, lookup: F) -> (r: Result<IrqRequest>)
        requires
            call_requires(lookup, (self.device().id, self.number())),
        ensures
            exists|irq: i32| #[trigger]
                call_ensures(lookup, (self.device().id, self.number()), irq) && match r {
                    Ok(request) => irq >= 0 && request == (IrqRequest {
                        device: self.device().id,
                        irq: irq as u32,
                    }),
                    Err(e) => irq < 0 && e.0 == (if -4095 <= irq {
                        irq
                    } else {
                        crate::error::EINVAL
                    }),
                },
    {
        let irq: i32 = lookup(self.dev.id, self.index());
        if irq < 0 {
            return Err(Errno::from_errno(irq));
        }
        Ok(IrqRequest { device: self.dev.id, irq: irq as u32 })
    }
}

/// The set of IRQ vectors allocated for a PCI device.
///
/// Provides indexed access and iteration over the allocated [`IrqVector`]s.
#[derive(Debug, Clone, Copy)]
pub struct IrqVectors<'a> {
    dev: &'a Device,
    count: u32,
}

impl<'a> IrqVectors<'a> {
    /// The device.
    pub closed spec fn device(self) -> Device {
        *self.dev
    }

    /// The number of vectors.
    pub closed spec fn size(self) -> u32 {
        self.count
    }

    /// Returns the number of allocated IRQ vectors.
    pub fn len(&self) -> (r: u32)
        ensures
            r == self.size(),
    {
        self.count
    }

    /// Returns the nth IRQ vector, or `None` if out of bounds.
    pub fn nth(&self, index: u32) -> (r: Option<IrqVector<'a>>)
        ensures
            match r {
                Some(vector) => index < self.size() && vector.device() == self.device()
                    && vector.number() == index,
                None => index >= self.size(),
            },
    {
        if index >= self.count {
            return None;
        }
        Some(IrqVector { dev: self.dev, index })
    }

    /// Returns an iterator over all allocated IRQ vectors.
    pub fn iter(&self) -> (r: IrqVectorIter<'a>)
        ensures
            r.device() == self.device(),
            r.position() == 0,
            r.end() == self.size(),
    {
        IrqVectorIter { dev: self.dev, index: 0, count: self.count }
    }
}

/// An iterator over the [`IrqVector`]s of an [`IrqVectors`] allocation.
#[derive(Debug)]
pub struct IrqVectorIter<'a> {
    dev: &'a Device,
    index: u32,
    count: u32,
}

impl<'a> IrqVectorIter<'a> {
    #[verifier::type_invariant]
    spec fn in_bounds(self) -> bool {
        self.index <= self.count
    }

    /// The device.
    pub closed spec fn device(self) -> Device {
        *self.dev
    }

    /// Number of the next vector.
    pub closed spec fn position(self) -> u32 {
        self.index
    }

    /// Number of vectors.
    pub closed spec fn end(self) -> u32 {
        self.count
    }

    /// The next vector.
    pub fn next(&mut self) -> (r: Option<IrqVector<'a>>)
        ensures
            final(self).device() == old(self).device(),
            final(self).end() == old(self).end(),
            match r {
                Some(vector) => {
                    &&& old(self).position() < old(self).end()
                    &&& vector.device() == old(self).device()
                    &&& vector.number() == old(self).position()
                    &&& final(self).position() == old(self).position() + 1
                },
                None => {
                    &&& old(self).position() >= old(self).end()
                    &&& final(self).position() == old(self).position()
                },
            },
    {
        if self.index >= self.count {
            return None;
        }
        let vector = IrqVector { dev: self.dev, index: self.index };
        self.index = self.index + 1;
        Some(vector)
    }

    /// Number of vectors that are left, as both bounds.
    pub fn size_hint(&self) -> (r: (usize, Option<usize>))
        ensures
            r.0 == self.end() - self.position(),
            r.1 == Some(r.0),
    {
        proof {
            use_type_invariant(self);
        }
        let remaining: usize = (self.count - self.index) as usize;
        (remaining, Some(remaining))
    }
}

/// Represents an IRQ vector allocation for a PCI device: the host frees the vectors of the device
/// when the registration is released.
#[derive(Debug)]
pub struct IrqVectorRegistration {
    dev: Device,
}

/// What the host is asked for when it allocates vectors.
#[derive(Debug, Clone, Copy, PartialEq, Eq)]
pub struct VectorRequest {
    /// Minimum number of vectors.
    pub min_vecs: u32,
    /// Maximum number of vectors.
    pub max_vecs: u32,
    /// Flags.
    pub flags: u32,
    /// Vectors at the start and at the end that are not spread over processors, where any are.
    pub affinity: Option<(u32, u32)>,
}

/// The request for vectors: they are spread over processors where some are left out of that.
pub open spec fn vector_request(
    min_vecs: u32,
    max_vecs: u32,
    irq_types: IrqTypes,
    pre_vectors: u32,
    post_vectors: u32,
) -> VectorRequest {
    let spread = pre_vectors != 0 || post_vectors != 0;
    VectorRequest {
        min_vecs,
        max_vecs,
        flags: if spread {
            irq_types.flags() | PCI_IRQ_AFFINITY | IRQF_SHARED
        } else {
            irq_types.flags() | IRQF_SHARED
        },
        affinity: if spread {
            Some((pre_vectors, post_vectors))
        } else {
            None
        },
    }
}

/// The vectors of a device, or the error, that the answer of the host stands for.
pub open spec fn vectors_of(
    dev: Device,
    status: i32,
    vectors: Result<IrqVectors<'_>>,
) -> bool {
    match vectors {
        Ok(vectors) => status >= 0 && vectors.device() == dev && vectors.size() == status,
        Err(e) => status < 0 && e.0 == (if -4095 <= status {
            status
        } else {
            crate::error::EINVAL
        }),
    }
}

impl IrqVectorRegistration {
    /// The device.
    pub closed spec fn device(self) -> Device {
        self.dev
    }

    /// Gives the registration up. The number of the device goes to `freed`, the devices whose vectors
    /// the host frees.
    pub fn release(self, freed: &mut Vec<usize>)
        ensures
            final(freed)@ == old(freed)@.push(self.device().id),
    {
        freed.push(self.dev.id);
    }

    /// Allocates vectors and lets the host free them when the device is unbound (`keep`). Where the
    /// host does not take the registration it is released.
    fn register_devres<'a, F: FnOnce(VectorRequest) -> i32, K: FnOnce(usize) -> Result<()>>(
        dev: &'a Device,
        min_vecs: u32,
        max_vecs: u32,
        irq_types: IrqTypes,
        allocate: F,
        keep: K,
        freed: &mut Vec<usize>,
    ) -> (r: Result<IrqVectors<'a>>)
        requires
            call_requires(allocate, (vector_request(min_vecs, max_vecs, irq_types, 0, 0),)),
            call_requires(keep, (dev.id,)),
        ensures
            exists|status: i32| #[trigger]
                call_ensures(
                    allocate,
                    (vector_request(min_vecs, max_vecs, irq_types, 0, 0),),
                    status,
                ) && if status < 0 {
                    vectors_of(*dev, status, r) && final(freed)@ == old(freed)@
                } else {
                    exists|kept: Result<()>| #[trigger]
                        call_ensures(keep, (dev.id,), kept) && match kept {
                            Ok(_) => {
                                &&& r is Ok && vectors_of(*dev, status, r)
                                &&& final(freed)@ == old(freed)@
                            },
                            Err(e) => {
                                &&& r matches Err(f) && f == e
                                &&& final(freed)@ == old(freed)@.push(dev.id)
                            },
                        }
                },
    {
        let (registration, vectors) = match Self::register(
            dev,
            min_vecs,
            max_vecs,
            irq_types,
            allocate,
        ) {
            Ok(pair) => pair,
            Err(e) => {
                return Err(e);
            },
        };
        let kept = keep(registration.dev.id);
        match kept {
            Ok(()) => Ok(vectors),
            Err(e) => {
                registration.release(freed);
                Err(e)
            },
        }
    }

    /// Allocates vectors.
    fn register<'a, F: FnOnce(VectorRequest) -> i32>(
        dev: &'a Device,
        min_vecs: u32,
        max_vecs: u32,
        irq_types: IrqTypes,
        allocate: F,
    ) -> (r: Result<(Self, IrqVectors<'a>)>)
        requires
            call_requires(allocate, (vector_request(min_vecs, max_vecs, irq_types, 0, 0),)),
        ensures
            exists|status: i32| #[trigger]
                call_ensures(
                    allocate,
                    (vector_request(min_vecs, max_vecs, irq_types, 0, 0),),
                    status,
                ) && registered(*dev, status, r),
    {
        Self::register_affinity(dev, min_vecs, max_vecs, irq_types, 0, 0, allocate)
    }

    /// Allocates vectors, some of which are not spread over processors.
    fn register_affinity<'a, F: FnOnce(VectorRequest) -> i32>(
        dev: &'a Device,
        min_vecs: u32,
        max_vecs: u32,
        irq_types: IrqTypes,
        pre_vectors: u32,
        post_vectors: u32,
        allocate: F,
    ) -> (r: Result<(Self, IrqVectors<'a>)>)
        requires
            call_requires(
                allocate,
                (vector_request(min_vecs, max_vecs, irq_types, pre_vectors, post_vectors),),
            ),
        ensures
            exists|status: i32| #[trigger]
                call_ensures(
                    allocate,
                    (vector_request(min_vecs, max_vecs, irq_types, pre_vectors, post_vectors),),
                    status,
                ) && registered(*dev, status, r),
    {
        let mut flags: u32 = irq_types.as_raw();
        let mut affinity: Option<(u32, u32)> = None;
        if pre_vectors != 0 || post_vectors != 0 {
            flags = flags | PCI_IRQ_AFFINITY;
            affinity = Some((pre_vectors, post_vectors));
        }
        flags = flags | IRQF_SHARED;
        let status: i32 = allocate(VectorRequest { min_vecs, max_vecs, flags, affinity });
        match to_result(status) {
            Ok(()) => {},
            Err(e) => {
                return Err(e);
            },
        }
        let count: u32 = status as u32;
        Ok((IrqVectorRegistration { dev: *dev }, IrqVectors { dev, count }))
    }
}

/// The vectors of a device with their registration, or the error, that the answer of the host
/// stands for.
pub open spec fn registered(
    dev: Device,
    status: i32,
    r: Result<(IrqVectorRegistration, IrqVectors<'_>)>,
) -> bool {
    match r {
        Ok((registration, vectors)) => registration.device() == dev && vectors_of(
            dev,
            status,
            Ok(vectors),
        ),
        Err(e) => vectors_of(dev, status, Err(e)),
    }
}

impl Device {
    /// Registers a handler for a vector: the host looks up the interrupt of the vector (`lookup`)
    /// and registers the handler for it under the name, with the flags (`register`).
    pub fn request_irq<
        'a,
        Flags,
        T,
        R,
        F: FnOnce(usize, u32) -> i32,
        G: FnOnce(IrqRequest, Flags, &'static str, T) -> Result<R>,
    >(
        &'a self,
        vector: IrqVector<'a>,
        flags: Flags,
        name: &'static str,
        handler: T,
        lookup: F,
        register: G,
    ) -> (r: Result<R>)
        requires
            call_requires(lookup, (vector.device().id, vector.number())),
            forall|irq: i32|
                irq >= 0 && #[trigger] call_ensures(
                    lookup,
                    (vector.device().id, vector.number()),
                    irq,
                ) ==> call_requires(
                    register,
                    (
                        IrqRequest { device: vector.device().id, irq: irq as u32 },
                        flags,
                        name,
                        handler,
                    ),
                ),
        ensures
            exists|irq: i32| #[trigger]
                call_ensures(lookup, (vector.device().id, vector.number()), irq) && if irq < 0 {
                    r matches Err(e) && e.0 == (if -4095 <= irq {
                        irq
                    } else {
                        crate::error::EINVAL
                    })
                } else {
                    call_ensures(
                        register,
                        (
                            IrqRequest { device: vector.device().id, irq: irq as u32 },
                            flags,
                            name,
                            handler,
                        ),
                        r,
                    )
                },
    {
        let request = match vector.try_into(lookup) {
            Ok(request) => request,
            Err(e) => {
                return Err(e);
            },
        };
        register(request, flags, name, handler)
    }

    /// Registers a handler with a thread for a vector, as [`Device::request_irq`] does.
    pub fn request_threaded_irq<
        'a,
        Flags,
        T,
        R,
        F: FnOnce(usize, u32) -> i32,
        G: FnOnce(IrqRequest, Flags, &'static str, T) -> Result<R>,
    >(
        &'a self,
        vector: IrqVector<'a>,
        flags: Flags,
        name: &'static str,
        handler: T,
        lookup: F,
        register: G,
    ) -> (r: Result<R>)
        requires
            call_requires(lookup, (vector.device().id, vector.number())),
            forall|irq: i32|
                irq >= 0 && #[trigger] call_ensures(
                    lookup,
                    (vector.device().id, vector.number()),
                    irq,
                ) ==> call_requires(
                    register,
                    (
                        IrqRequest { device: vector.device().id, irq: irq as u32 },
                        flags,
                        name,
                        handler,
                    ),
                ),
        ensures
            exists|irq: i32| #[trigger]
                call_ensures(lookup, (vector.device().id, vector.number()), irq) && if irq < 0 {
                    r matches Err(e) && e.0 == (if -4095 <= irq {
                        irq
                    } else {
                        crate::error::EINVAL
                    })
                } else {
                    call_ensures(
                        register,
                        (
                            IrqRequest { device: vector.device().id, irq: irq as u32 },
                            flags,
                            name,
                            handler,
                        ),
                        r,
                    )
                },
    {
        let request = match vector.try_into(lookup) {
            Ok(request) => request,
            Err(e) => {
                return Err(e);
            },
        };
        register(request, flags, name, handler)
    }

    /// Allocate IRQ vectors for this PCI device with automatic cleanup.
    ///
    /// Allocates between `min_vecs` and `max_vecs` interrupt vectors for the device. The allocation
    /// will use MSI-X, MSI, or INTx interrupts based on the `irq_types` parameter and hardware
    /// capabilities. The host allocates the vectors (`allocate`, which returns their number or a
    /// negative error number) and frees them when the device is unbound (`keep`), or at once where it
    /// cannot do that later: then the number of the device goes to `freed`.
    pub fn alloc_irq_vectors_devres<
        F: FnOnce(VectorRequest) -> i32,
        K: FnOnce(usize) -> Result<()>,
    >(
        &self,
        min_vecs: u32,
        max_vecs: u32,
        irq_types: IrqTypes,
        allocate: F,
        keep: K,
        freed: &mut Vec<usize>,
    ) -> (r: Result<IrqVectors<'_>>)
        requires
            call_requires(allocate, (vector_request(min_vecs, max_vecs, irq_types, 0, 0),)),
            call_requires(keep, (self.id,)),
        ensures
            exists|status: i32| #[trigger]
                call_ensures(
                    allocate,
                    (vector_request(min_vecs, max_vecs, irq_types, 0, 0),),
                    status,
                ) && if status < 0 {
                    vectors_of(*self, status, r) && final(freed)@ == old(freed)@
                } else {
                    exists|kept: Result<()>| #[trigger]
                        call_ensures(keep, (self.id,), kept) && match kept {
                            Ok(_) => {
                                &&& r is Ok && vectors_of(*self, status, r)
                                &&& final(freed)@ == old(freed)@
                            },
                            Err(e) => {
                                &&& r matches Err(f) && f == e
                                &&& final(freed)@ == old(freed)@.push(self.id)
                            },
                        }
                },
    {
        IrqVectorRegistration::register_devres(
            self,
            min_vecs,
            max_vecs,
            irq_types,
            allocate,
            keep,
            freed,
        )
    }

    /// Allocate IRQ vectors for this PCI device.
    ///
    /// See [`Self::alloc_irq_vectors_devres`] for details. Cleanup happens when the returned
    /// [`IrqVectorRegistration`] is released.
    pub fn alloc_irq_vectors<F: FnOnce(VectorRequest) -> i32>(
        &self,
        min_vecs: u32,
        max_vecs: u32,
        irq_types: IrqTypes,
        allocate: F,
    ) -> (r: Result<(IrqVectorRegistration, IrqVectors<'_>)>)
        requires
            call_requires(allocate, (vector_request(min_vecs, max_vecs, irq_types, 0, 0),)),
        ensures
            exists|status: i32| #[trigger]
                call_ensures(
                    allocate,
                    (vector_request(min_vecs, max_vecs, irq_types, 0, 0),),
                    status,
                ) && registered(*self, status, r),
    {
        IrqVectorRegistration::register(self, min_vecs, max_vecs, irq_types, allocate)
    }

    /// Allocate IRQ vectors for this PCI device, of which the first `pre_vectors` and the last
    /// `post_vectors` are not spread over processors.
    ///
    /// See [`Self::alloc_irq_vectors_devres`] for details. Cleanup happens when the returned
    /// [`IrqVectorRegistration`] is released.
    pub fn alloc_irq_vectors_affinity<F: FnOnce(VectorRequest) -> i32>(
        &self,
        min_vecs: u32,
        max_vecs: u32,
        irq_types: IrqTypes,
        pre_vectors: u32,
        post_vectors: u32,
        allocate: F,
    ) -> (r: Result<(IrqVectorRegistration, IrqVectors<'_>)>)
        requires
            call_requires(
                allocate,
                (vector_request(min_vecs, max_vecs, irq_types, pre_vectors, post_vectors),),
            ),
        ensures
            exists|status: i32| #[trigger]
                call_ensures(
                    allocate,
                    (vector_request(min_vecs, max_vecs, irq_types, pre_vectors, post_vectors),),
                    status,
                ) && registered(*self, status, r),
    {
        IrqVectorRegistration::register_affinity(
            self,
            min_vecs,
            max_vecs,
            irq_types,
            pre_vectors,
            post_vectors,
            allocate,
        )
    }
}

/// The types that the host is asked for, cut out of the flags that are handed over, are those that
/// were asked for.
pub proof fn lemma_types_requested(
    min_vecs: u32,
    max_vecs: u32,
    irq_types: IrqTypes,
    pre_vectors: u32,
    post_vectors: u32,
    irq_type: IrqType,
)
    requires
        irq_types.inv(),
    ensures
        ({
            let flags = vector_request(
                min_vecs,
                max_vecs,
                irq_types,
                pre_vectors,
                post_vectors,
            ).flags;
            &&& flags & PCI_IRQ_ALL_TYPES == irq_types.flags()
            &&& flags & irq_type.flag() == irq_type.flag() <==> irq_types.has(irq_type)
        }),
{
    let types = irq_types.flags();
    let a = irq_type.flag();
    assert((types | 8 | 0x80) & 7 == types && (types | 0x80) & 7 == types && (types | 8 | 0x80) & a
        == types & a && (types | 0x80) & a == types & a) by (bit_vector)
        requires
            types & 7 == types,
            a == 1 || a == 2 || a == 4,
    ;
}

/// An allocation has the same outcome as one that leaves no vectors out of the spreading, where the
/// host gives the same answer to the same request.
pub proof fn lemma_allocations_agree<'a, F: FnOnce(VectorRequest) -> i32>(
    dev: &'a Device,
    min_vecs: u32,
    max_vecs: u32,
    irq_types: IrqTypes,
    allocate: F,
    plain: Result<(IrqVectorRegistration, IrqVectors<'a>)>,
    spread: Result<(IrqVectorRegistration, IrqVectors<'a>)>,
)
    requires
        call_ensures(
            Device::alloc_irq_vectors::<F>,
            (dev, min_vecs, max_vecs, irq_types, allocate),
            plain,
        ),
        call_ensures(
            Device::alloc_irq_vectors_affinity::<F>,
            (dev, min_vecs, max_vecs, irq_types, 0u32, 0u32, allocate),
            spread,
        ),
        forall|request: VectorRequest, first: i32, second: i32| #[trigger]
            call_ensures(allocate, (request,), first) && #[trigger] call_ensures(
                allocate,
                (request,),
                second,
            ) ==> first == second,
    ensures
        match (plain, spread) {
            (Ok((a, v)), Ok((b, w))) => a.device() == b.device() && v.device() == w.device()
                && v.size() == w.size(),
            (Err(e), Err(f)) => e == f,
            _ => false,
        },
{
}

/// Vectors that a host allocated, in a number between the bounds that it was given, are those of the
/// device, in a number between the bounds, and they stay allocated until their registration is
/// released, which frees them once: the list of devices whose vectors are freed holds the device once
/// more then, and no other device more or less often.
pub proof fn lemma_vectors_freed_once(
    dev: Device,
    min_vecs: u32,
    max_vecs: u32,
    status: i32,
    registration: IrqVectorRegistration,
    vectors: IrqVectors<'_>,
    freed: Seq<usize>,
    other: usize,
)
    requires
        registered(dev, status, Ok((registration, vectors))),
        min_vecs <= status <= max_vecs,
    ensures
        min_vecs <= vectors.size() <= max_vecs,
        vectors.device() == dev,
        freed.push(registration.device().id).to_multiset().count(dev.id)
            == freed.to_multiset().count(dev.id) + 1,
        other != dev.id ==> freed.push(registration.device().id).to_multiset().count(other)
            == freed.to_multiset().count(other),
{
    broadcast use vstd::seq_lib::group_to_multiset_ensures;

}

} // verus!
