//! The memory arena: the unit's linear memory, with reservation and release
//! of byte regions under the boundary's ownership protocol.  A reservation
//! yields an [`OwnedBuf`], a size-tagged handle that cannot be copied and is
//! consumed by [`Arena::release`], so a region can be released at most once
//! and no handle survives its release.  The arena itself keeps no
//! bookkeeping: reservations only ever extend the memory, so every
//! outstanding handle stays in bounds for the arena's whole life, and
//! release retires the handle without disturbing the bytes.

use vstd::prelude::*;

verus! {

/// A byte region of the arena, exclusively owned by whoever holds the
/// value.  It has no `Clone`: the only way to give the region up is to hand
/// the handle itself over, and releasing it consumes it.
pub struct OwnedBuf {
    ptr: u32,
    len: u32,
}

impl OwnedBuf {
    /// The region's start offset in linear memory.
    pub closed spec fn spec_ptr(&self) -> u32 {
        self.ptr
    }

    /// The region's length in bytes, fixed at reservation.
    pub closed spec fn spec_len(&self) -> u32 {
        self.len
    }

    /// The region's start offset in linear memory.
    pub fn ptr(&self) -> (p: u32)
        ensures
            p == self.spec_ptr(),
    {
        self.ptr
    }

    /// The region's length in bytes.
    pub fn len(&self) -> (l: u32)
        ensures
            l == self.spec_len(),
    {
        self.len
    }
}

/// The unit's linear memory.  Offsets are 32-bit, so the memory never
/// grows past the 32-bit address space; that bound is the arena's
/// well-formedness invariant.
pub struct Arena {
    mem: Vec<u8>,
}

impl Arena {
    /// The bytes of linear memory.
    pub closed spec fn contents(&self) -> Seq<u8> {
        self.mem@
    }

    /// The memory fits the 32-bit address space of the boundary handles.
    pub closed spec fn wf(&self) -> bool {
        self.mem@.len() <= u32::MAX
    }

    /// The handle's region lies within currently-allocated memory.
    pub open spec fn holds(&self, b: &OwnedBuf) -> bool {
        b.spec_ptr() + b.spec_len() <= self.contents().len()
    }

    /// The bytes of the handle's region.
    pub open spec fn region(&self, b: &OwnedBuf) -> Seq<u8>
        recommends
            self.holds(b),
    {
        self.contents().subrange(
            b.spec_ptr() as int,
            b.spec_ptr() as int + b.spec_len() as int,
        )
    }

    /// An empty linear memory.
    pub fn new() -> (a: Arena)
        ensures
            a.wf(),
            a.contents().len() == 0,
    {
        Arena { mem: Vec::new() }
    }

    /// How many bytes of linear memory are currently allocated.
    pub fn size(&self) -> (n: u32)
        requires
            self.wf(),
        ensures
            n == self.contents().len(),
    {
        self.mem.len() as u32
    }

    /// Reserves a zero-initialized region of exactly `size` bytes at the end
    /// of memory and hands its owning handle out.  Every older region keeps
    /// its place and its bytes.
    pub fn reserve(&mut self, size: u32) -> (b: OwnedBuf)
        requires
            old(self).wf(),
            old(self).contents().len() + size <= u32::MAX,
        ensures
            final(self).wf(),
            b.spec_ptr() == old(self).contents().len(),
            b.spec_len() == size,
            final(self).contents() == old(self).contents() + Seq::new(size as nat, |i: int| 0u8),
            final(self).holds(&b),
            final(self).region(&b) == Seq::new(size as nat, |i: int| 0u8),
    {
        let start = self.mem.len();
        let new_len = start + size as usize;
        self.mem.resize(new_len, 0u8);
        proof {
            assert(self.mem@ =~= old(self).mem@ + Seq::new(size as nat, |i: int| 0u8));
            assert(self.mem@.subrange(start as int, start as int + size as int) =~= Seq::new(
                size as nat,
                |i: int| 0u8,
            ));
        }
        OwnedBuf { ptr: start as u32, len: size }
    }

    /// Fills an owned region with the given bytes.  Nothing outside the
    /// region moves.
    pub fn write(&mut self, b: &OwnedBuf, data: &Vec<u8>)
        requires
            old(self).wf(),
            old(self).holds(b),
            data@.len() == b.spec_len(),
        ensures
            final(self).wf(),
            final(self).contents().len() == old(self).contents().len(),
            final(self).region(b) == data@,
            forall|k: int|
                0 <= k < final(self).contents().len() && !(b.spec_ptr() <= k < b.spec_ptr()
                    + b.spec_len()) ==> final(self).contents()[k] == old(self).contents()[k],
    {
        let ptr = b.ptr() as usize;
        let len = b.len() as usize;
        let mut k: usize = 0;
        while k < len
            invariant
                0 <= k <= len,
                len == b.spec_len(),
                ptr == b.spec_ptr(),
                data@.len() == len,
                self.mem@.len() == old(self).mem@.len(),
                ptr + len <= self.mem@.len() <= u32::MAX,
                forall|j: int| 0 <= j < k ==> self.mem@[ptr + j] == data@[j],
                forall|j: int|
                    0 <= j < self.mem@.len() && !(ptr <= j < ptr + k) ==> self.mem@[j] == old(
                        self,
                    ).mem@[j],
            decreases len - k,
        {
            self.mem.set(ptr + k, data[k]);
            k = k + 1;
        }
        proof {
            assert(self.mem@.subrange(ptr as int, ptr as int + len as int) =~= data@);
        }
    }

    /// Reads `len` bytes starting at `ptr`.  The boundary trusts its caller:
    /// the range must lie in allocated memory.
    pub fn read(&self, ptr: u32, len: u32) -> (r: Vec<u8>)
        requires
            self.wf(),
            ptr + len <= self.contents().len(),
        ensures
            r@ == self.contents().subrange(ptr as int, ptr as int + len as int),
    {
        let mut r: Vec<u8> = Vec::new();
        let mut k: usize = 0;
        while k < len as usize
            invariant
                0 <= k <= len,
                ptr + len <= self.mem@.len() <= u32::MAX,
                r@ == self.mem@.subrange(ptr as int, ptr as int + k as int),
            decreases len as usize - k,
        {
            let byte = self.mem[ptr as usize + k];
            r.push(byte);
            proof {
                assert(self.mem@.subrange(ptr as int, ptr as int + (k + 1) as int) =~= self
                    .mem@.subrange(ptr as int, ptr as int + k as int).push(byte));
            }
            k = k + 1;
        }
        r
    }

    /// Releases a region, consuming its handle; the release must name the
    /// region's original size.  The arena does no bookkeeping, so release
    /// retires the handle and leaves the bytes in place: what the protocol
    /// owes — at most one release per region, and no read through a handle
    /// after its release — is enforced by the handle being moved in.
    pub fn release(&mut self, b: OwnedBuf, size: u32)
        requires
            old(self).wf(),
            size == b.spec_len(),
        ensures
            final(self).wf(),
            final(self).contents() == old(self).contents(),
    {
        let _ = b;
    }
}

} // verus!
