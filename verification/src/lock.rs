use crate::error::{Error, Result, WindowsError};
use vstd::prelude::*;

verus! {

/// What the system answered about one handle to movable memory: the
/// handle, the address that locking it gave, the bytes of the
/// allocation, and the status code read after the first call that
/// failed.
///
/// A handle of zero stands for an allocation that failed, an address of
/// zero for a lock that failed. `bytes` is as long as the size that the
/// system reported, so it is empty where the system reported zero, its
/// sign for "not a valid global object".
#[derive(Debug, Clone, PartialEq, Eq)]
pub struct GlobalObject {
    pub handle: isize,
    pub address: usize,
    pub bytes: Vec<u8>,
    pub error: WindowsError,
}

/// Why a handle cannot be wrapped, if it cannot.
pub open spec fn lock_failure(object: GlobalObject) -> Option<Error> {
    if object.address == 0 {
        Some(Error::Locking(object.error))
    } else if object.bytes@.len() == 0 {
        Some(Error::InvalidObject(object.error))
    } else {
        None
    }
}

/// Why a fresh allocation cannot be wrapped, if it cannot.
pub open spec fn alloc_failure(object: GlobalObject) -> Option<Error> {
    if object.handle == 0 {
        Some(Error::Allocation(object.error))
    } else {
        lock_failure(object)
    }
}

/// A block of movable memory that is locked for as long as this value
/// lives, seen as a run of elements of `unit` bytes each.
#[derive(Debug)]
pub struct LockedPtr {
    lock: isize,
    ptr: usize,
    unit: usize,
    bytes: Vec<u8>,
}

impl LockedPtr {
    /// The handle that is locked.
    pub closed spec fn handle(&self) -> isize {
        self.lock
    }

    /// The address at which the block stays while it is locked.
    pub closed spec fn address(&self) -> usize {
        self.ptr
    }

    /// The size in bytes of one element of the typed view.
    pub closed spec fn unit(&self) -> usize {
        self.unit
    }

    /// The bytes of the block.
    pub closed spec fn contents(&self) -> Seq<u8> {
        self.bytes@
    }

    /// A locked block has an address, is not empty, and holds at least
    /// one element of its typed view.
    pub open spec fn wf(&self) -> bool {
        &&& self.address() != 0
        &&& self.contents().len() > 0
        &&& self.unit() <= self.contents().len()
    }

    /// Wraps a handle that the system supplied, for a view in elements
    /// of `type_size` bytes.
    ///
    /// A lock that failed is `Locking`, a reported size of zero is
    /// `InvalidObject`. A block too small for one element is a fault of
    /// the caller, not an answer of the system, and is excluded.
    pub fn new(object: GlobalObject, type_size: usize) -> (block: Result<LockedPtr>)
        requires
            lock_failure(object) is None ==> type_size <= object.bytes@.len(),
        ensures
            match block {
                Ok(b) => {
                    &&& lock_failure(object) is None
                    &&& b.wf()
                    &&& b.handle() == object.handle
                    &&& b.address() == object.address
                    &&& b.unit() == type_size
                    &&& b.contents() == object.bytes@
                },
                Err(e) => lock_failure(object) == Some(e),
            },
    {
        if object.address == 0 {
            return Err(Error::Locking(object.error));
        }
        if object.bytes.len() == 0 {
            return Err(Error::InvalidObject(object.error));
        }
        Ok(LockedPtr { lock: object.handle, ptr: object.address, unit: type_size, bytes: object.bytes })
    }

    /// Wraps a fresh allocation that was asked to hold `amt` elements of
    /// `type_size` bytes.
    ///
    /// A handle of zero is `Allocation`; after that the handle is
    /// wrapped as any other. An allocation smaller than what was asked
    /// for breaks the system's own promise and is excluded.
    pub fn allocate(object: GlobalObject, type_size: usize, amt: usize) -> (block: Result<LockedPtr>)
        requires
            alloc_failure(object) is None ==> type_size <= object.bytes@.len() && type_size * amt
                <= object.bytes@.len(),
        ensures
            match block {
                Ok(b) => {
                    &&& alloc_failure(object) is None
                    &&& b.wf()
                    &&& b.handle() == object.handle
                    &&& b.address() == object.address
                    &&& b.unit() == type_size
                    &&& b.contents() == object.bytes@
                    &&& type_size * amt <= b.contents().len()
                },
                Err(e) => alloc_failure(object) == Some(e),
            },
    {
        if object.handle == 0 {
            return Err(Error::Allocation(object.error));
        }
        LockedPtr::new(object, type_size)
    }

    /// The size of the allocation in bytes, from what the system
    /// reported when it was asked for it, and the status code read
    /// then. A size of zero is the system's sign for "not a valid
    /// global object", and is `InvalidObject`.
    pub fn size(&self, reported: usize, error: WindowsError) -> (size: Result<usize>)
        ensures
            size == (if reported == 0 {
                Err::<usize, Error>(Error::InvalidObject(error))
            } else {
                Ok::<usize, Error>(reported)
            }),
    {
        if reported == 0 {
            return Err(Error::InvalidObject(error));
        }
        Ok(reported)
    }

    /// The address of the block, for reading.
    pub fn as_ptr(&self) -> (address: usize)
        ensures
            address == self.address(),
            self.wf() ==> address != 0,
    {
        self.ptr
    }

    /// The address of the block, for writing.
    pub fn as_mut_ptr(&self) -> (address: usize)
        ensures
            address == self.address(),
            self.wf() ==> address != 0,
    {
        self.ptr
    }

    /// The handle itself, to hand the block on without unlocking it.
    pub fn as_raw_handle(&self) -> (handle: isize)
        ensures
            handle == self.handle(),
    {
        self.lock
    }

    /// The bytes of the block, behind a bounds-checked accessor.
    pub fn as_bytes(&self) -> (bytes: &Vec<u8>)
        ensures
            bytes@ == self.contents(),
    {
        &self.bytes
    }

    /// Ends the lock: gives back the handle on which the one unlock call
    /// is owed.
    pub fn unlock(self) -> (handle: isize)
        ensures
            handle == self.handle(),
    {
        self.lock
    }
}

} // verus!
