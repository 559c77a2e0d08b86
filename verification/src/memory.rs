//! Guest memory regions and the bounds-checked accessor.
//!
//! A [`MemoryRegion`] is a contiguous host-owned buffer exposed to the guest
//! at a fixed guest-visible base address, readable always and writable only
//! when marked so. A [`MemoryRef`] aggregates the regions of one run and is
//! the sole channel through which a service implementation may read or write
//! guest memory: every access names a guest address and a length, and either
//! the whole range lies inside one region with the matching permission or the
//! whole operation fails.

use vstd::prelude::*;

verus! {

/// The mathematical image of one mapped region: its guest base address, its
/// bytes, and whether stores to it are permitted.
#[verifier::ext_equal]
pub ghost struct RegionView {
    pub vm_addr: int,
    pub data: Seq<u8>,
    pub writable: bool,
}

/// The guest address range `[addr, addr + n)` lies entirely inside `r`.
pub open spec fn covers(r: RegionView, addr: int, n: int) -> bool {
    r.vm_addr <= addr && addr + n <= r.vm_addr + r.data.len()
}

/// A region is well formed when its guest address range does not wrap the
/// 64-bit address space.
pub open spec fn region_wf(r: RegionView) -> bool {
    0 <= r.vm_addr && r.vm_addr + r.data.len() <= u64::MAX
}

/// Two regions occupy disjoint guest address ranges.
pub open spec fn regions_disjoint(a: RegionView, b: RegionView) -> bool {
    a.vm_addr + a.data.len() <= b.vm_addr || b.vm_addr + b.data.len() <= a.vm_addr
}

/// A mapping is well formed when every region is and no two overlap.
pub open spec fn mapping_wf(ms: Seq<RegionView>) -> bool {
    &&& forall|i: int| 0 <= i < ms.len() ==> region_wf(#[trigger] ms[i])
    &&& forall|i: int, j: int|
        0 <= i < ms.len() && 0 <= j < ms.len() && i != j ==> regions_disjoint(
            #[trigger] ms[i],
            #[trigger] ms[j],
        )
}

/// Some region covers the whole range, so a load of it succeeds.
pub open spec fn can_read(ms: Seq<RegionView>, addr: int, n: int) -> bool {
    exists|i: int| 0 <= i < ms.len() && covers(#[trigger] ms[i], addr, n)
}

/// Some writable region covers the whole range, so a store to it succeeds.
pub open spec fn can_write(ms: Seq<RegionView>, addr: int, n: int) -> bool {
    exists|i: int| 0 <= i < ms.len() && covers(#[trigger] ms[i], addr, n) && ms[i].writable
}

/// An index of a region that covers the range, when one exists.
pub open spec fn read_index(ms: Seq<RegionView>, addr: int, n: int) -> int {
    choose|i: int| 0 <= i < ms.len() && covers(#[trigger] ms[i], addr, n)
}

/// The bytes the guest sees at `[addr, addr + n)`. Meaningful only under
/// `can_read(ms, addr, n)`.
pub open spec fn bytes_at(ms: Seq<RegionView>, addr: int, n: int) -> Seq<u8> {
    let i = read_index(ms, addr, n);
    ms[i].data.subrange(addr - ms[i].vm_addr, addr - ms[i].vm_addr + n)
}

/// One region after a store of `bytes` at guest address `addr`: its bytes at
/// the range are replaced, the rest are kept.
pub open spec fn region_store(r: RegionView, addr: int, bytes: Seq<u8>) -> RegionView {
    RegionView {
        vm_addr: r.vm_addr,
        data: r.data.subrange(0, addr - r.vm_addr) + bytes + r.data.subrange(
            addr - r.vm_addr + bytes.len(),
            r.data.len() as int,
        ),
        writable: r.writable,
    }
}

/// The whole mapping after a store of `bytes` at `addr`: every writable
/// region that covers the range takes the new bytes (under `mapping_wf` and
/// a non-empty range there is at most one such region), all others are kept.
pub open spec fn store(ms: Seq<RegionView>, addr: int, bytes: Seq<u8>) -> Seq<RegionView> {
    ms.map(
        |i: int, r: RegionView|
            if covers(r, addr, bytes.len() as int) && r.writable {
                region_store(r, addr, bytes)
            } else {
                r
            },
    )
}

/// At most one region covers a non-empty range.
pub proof fn lemma_covers_unique(ms: Seq<RegionView>, addr: int, n: int, i: int, j: int)
    requires
        mapping_wf(ms),
        n > 0,
        0 <= i < ms.len(),
        0 <= j < ms.len(),
        covers(ms[i], addr, n),
        covers(ms[j], addr, n),
    ensures
        i == j,
{
}

/// A store keeps every region's base address, length and permission, so it
/// keeps well-formedness and every range's readability and writability.
pub proof fn lemma_store_preserves_shape(ms: Seq<RegionView>, addr: int, bytes: Seq<u8>)
    requires
        mapping_wf(ms),
    ensures
        store(ms, addr, bytes).len() == ms.len(),
        forall|i: int|
            0 <= i < ms.len() ==> {
                &&& (#[trigger] store(ms, addr, bytes)[i]).vm_addr == ms[i].vm_addr
                &&& store(ms, addr, bytes)[i].data.len() == ms[i].data.len()
                &&& store(ms, addr, bytes)[i].writable == ms[i].writable
            },
        mapping_wf(store(ms, addr, bytes)),
        forall|a: int, n: int| can_read(store(ms, addr, bytes), a, n) == can_read(ms, a, n),
        forall|a: int, n: int| can_write(store(ms, addr, bytes), a, n) == can_write(ms, a, n),
{
    let ms2 = store(ms, addr, bytes);
    assert forall|i: int| 0 <= i < ms.len() implies {
        &&& (#[trigger] ms2[i]).vm_addr == ms[i].vm_addr
        &&& ms2[i].data.len() == ms[i].data.len()
        &&& ms2[i].writable == ms[i].writable
    } by {
        if covers(ms[i], addr, bytes.len() as int) && ms[i].writable {
            assert(ms2[i] == region_store(ms[i], addr, bytes));
        }
    }
    assert forall|a: int, n: int| can_read(ms2, a, n) == can_read(ms, a, n) by {
        assert forall|i: int| 0 <= i < ms.len() implies covers(#[trigger] ms2[i], a, n) == covers(
            ms[i],
            a,
            n,
        ) by {}
        if can_read(ms, a, n) {
            let i = choose|i: int| 0 <= i < ms.len() && covers(#[trigger] ms[i], a, n);
            assert(covers(ms2[i], a, n));
        }
        if can_read(ms2, a, n) {
            let i = choose|i: int| 0 <= i < ms2.len() && covers(#[trigger] ms2[i], a, n);
            assert(covers(ms[i], a, n));
        }
    }
    assert forall|a: int, n: int| can_write(ms2, a, n) == can_write(ms, a, n) by {
        if can_write(ms, a, n) {
            let i = choose|i: int|
                0 <= i < ms.len() && covers(#[trigger] ms[i], a, n) && ms[i].writable;
            assert(covers(ms2[i], a, n) && ms2[i].writable);
        }
        if can_write(ms2, a, n) {
            let i = choose|i: int|
                0 <= i < ms2.len() && covers(#[trigger] ms2[i], a, n) && ms2[i].writable;
            assert(covers(ms[i], a, n) && ms[i].writable);
        }
    }
}

/// Reading back exactly the stored range yields exactly the stored bytes.
pub proof fn lemma_store_then_read(ms: Seq<RegionView>, addr: int, bytes: Seq<u8>)
    requires
        mapping_wf(ms),
        can_write(ms, addr, bytes.len() as int),
    ensures
        bytes_at(store(ms, addr, bytes), addr, bytes.len() as int) == bytes,
{
    let n = bytes.len() as int;
    let ms2 = store(ms, addr, bytes);
    lemma_store_preserves_shape(ms, addr, bytes);
    let i = choose|i: int| 0 <= i < ms.len() && covers(#[trigger] ms[i], addr, n) && ms[i].writable;
    assert(ms2[i] == region_store(ms[i], addr, bytes));
    assert(covers(ms2[i], addr, n));
    lemma_bytes_at_region(ms2, addr, n, i);
    let off = addr - ms[i].vm_addr;
    assert(ms2[i].data.subrange(off, off + n) =~= bytes);
}

/// A store leaves every readable range that does not intersect the stored
/// range unchanged.
pub proof fn lemma_store_frame(ms: Seq<RegionView>, addr: int, bytes: Seq<u8>, a: int, n: int)
    requires
        mapping_wf(ms),
        can_read(ms, a, n),
        n >= 0,
        a + n <= addr || addr + bytes.len() <= a,
    ensures
        bytes_at(store(ms, addr, bytes), a, n) == bytes_at(ms, a, n),
{
    let ms2 = store(ms, addr, bytes);
    lemma_store_preserves_shape(ms, addr, bytes);
    let i = choose|i: int| 0 <= i < ms.len() && covers(#[trigger] ms[i], a, n);
    assert(covers(ms2[i], a, n));
    lemma_bytes_at_region(ms, a, n, i);
    lemma_bytes_at_region(ms2, a, n, i);
    let off = a - ms[i].vm_addr;
    if covers(ms[i], addr, bytes.len() as int) && ms[i].writable {
        assert(ms2[i] == region_store(ms[i], addr, bytes));
        let woff = addr - ms[i].vm_addr;
        assert forall|k: int| off <= k < off + n implies #[trigger] ms2[i].data[k] == ms[i].data[k] by {
            if k < woff {
                assert(ms2[i].data[k] == ms[i].data.subrange(0, woff)[k]);
            } else {
                assert(k >= woff + bytes.len());
            }
        }
        assert(ms2[i].data.subrange(off, off + n) =~= ms[i].data.subrange(off, off + n));
    } else {
        assert(ms2[i] == ms[i]);
    }
}

/// Any region that covers a range determines the bytes read from it.
pub proof fn lemma_bytes_at_region(ms: Seq<RegionView>, addr: int, n: int, i: int)
    requires
        mapping_wf(ms),
        n >= 0,
        0 <= i < ms.len(),
        covers(ms[i], addr, n),
    ensures
        bytes_at(ms, addr, n) == ms[i].data.subrange(addr - ms[i].vm_addr, addr - ms[i].vm_addr + n),
{
    let k = read_index(ms, addr, n);
    assert(0 <= k < ms.len() && covers(ms[k], addr, n));
    if n > 0 {
        lemma_covers_unique(ms, addr, n, i, k);
    } else {
        assert(bytes_at(ms, addr, n) =~= ms[i].data.subrange(
            addr - ms[i].vm_addr,
            addr - ms[i].vm_addr + n,
        ));
    }
}

/// A contiguous host-owned buffer exposed to the guest at base address
/// `vm_addr`; stores are permitted only when `writable` is set.
pub struct MemoryRegion {
    pub vm_addr: u64,
    pub data: Vec<u8>,
    pub writable: bool,
}

impl View for MemoryRegion {
    type V = RegionView;

    open spec fn view(&self) -> RegionView {
        RegionView { vm_addr: self.vm_addr as int, data: self.data@, writable: self.writable }
    }
}

impl MemoryRegion {
    /// A writable region over `data`, mapped at guest address `vm_addr`.
    pub fn new_writable(data: Vec<u8>, vm_addr: u64) -> (r: MemoryRegion)
        ensures
            r@ == (RegionView { vm_addr: vm_addr as int, data: data@, writable: true }),
    {
        MemoryRegion { vm_addr, data, writable: true }
    }

    /// A read-only region over `data`, mapped at guest address `vm_addr`.
    pub fn new_readonly(data: Vec<u8>, vm_addr: u64) -> (r: MemoryRegion)
        ensures
            r@ == (RegionView { vm_addr: vm_addr as int, data: data@, writable: false }),
    {
        MemoryRegion { vm_addr, data, writable: false }
    }
}

/// A load or store named an address range that no region with the matching
/// permission fully covers. The engine surfaces this as a fault that ends
/// the run; nothing is read or written by the failing operation.
#[derive(Clone, Copy, PartialEq, Eq, Debug)]
pub enum AccessError {
    OutOfBounds,
}

/// The bounds-checked accessor over the memory mapping of one run: the sole
/// channel through which a service reads or writes guest memory.
pub struct MemoryRef {
    pub regions: Vec<MemoryRegion>,
}

impl View for MemoryRef {
    type V = Seq<RegionView>;

    open spec fn view(&self) -> Seq<RegionView> {
        self.regions@.map_values(|r: MemoryRegion| r@)
    }
}

impl MemoryRef {
    /// The mapping is well formed: regions do not wrap the address space and
    /// do not overlap.
    pub open spec fn wf(&self) -> bool {
        mapping_wf(self@)
    }

    /// An accessor over no regions; every non-trivial access to it faults.
    pub fn new() -> (r: MemoryRef)
        ensures
            r@ =~= Seq::<RegionView>::empty(),
            r.wf(),
    {
        MemoryRef { regions: Vec::new() }
    }

    /// Attach one more region. Fails, leaving the mapping unchanged, when
    /// the new region would wrap the address space or overlap a region
    /// already mapped.
    #[verifier::loop_isolation(false)]
    pub fn add_region(&mut self, region: MemoryRegion) -> (r: Result<(), AccessError>)
        requires
            old(self).wf(),
        ensures
            final(self).wf(),
            r is Ok <==> (region_wf(region@) && forall|i: int|
                0 <= i < old(self)@.len() ==> regions_disjoint(#[trigger] old(self)@[i], region@)),
            r is Ok ==> final(self)@ =~= old(self)@.push(region@),
            r is Err ==> *final(self) == *old(self),
    {
        let region_len = region.data.len() as u64;
        if region.vm_addr > u64::MAX - region_len {
            return Err(AccessError::OutOfBounds);
        }
        let mut i: usize = 0;
        while i < self.regions.len()
            invariant
                0 <= i <= self.regions.len(),
                forall|j: int| 0 <= j < i ==> regions_disjoint(#[trigger] self@[j], region@),
                region_wf(region@),
                self.wf(),
                *self == *old(self),
            decreases self.regions.len() - i,
        {
            let r = &self.regions[i];
            assert(region_wf(self@[i as int]));
            let r_len = r.data.len() as u64;
            let disjoint = r.vm_addr + r_len <= region.vm_addr
                || region.vm_addr + region_len <= r.vm_addr;
            if !disjoint {
                assert(!regions_disjoint(self@[i as int], region@));
                return Err(AccessError::OutOfBounds);
            }
            assert(regions_disjoint(self@[i as int], region@));
            i = i + 1;
        }
        self.regions.push(region);
        assert(self@ =~= old(self)@.push(region@));
        assert forall|p: int, q: int|
            0 <= p < self@.len() && 0 <= q < self@.len() && p != q implies regions_disjoint(
            #[trigger] self@[p],
            #[trigger] self@[q],
        ) by {}
        Ok(())
    }

    /// The index of a region that covers `[offset, offset + n)`, writable
    /// when a store is asked for; there is none exactly when the matching
    /// `can_read` / `can_write` fails.
    #[verifier::loop_isolation(false)]
    fn find_region(&self, offset: u64, n: u64, for_store: bool) -> (r: Option<usize>)
        requires
            self.wf(),
        ensures
            match r {
                Some(i) => {
                    &&& i < self.regions.len()
                    &&& covers(self@[i as int], offset as int, n as int)
                    &&& (for_store ==> self@[i as int].writable)
                },
                None => {
                    if for_store {
                        !can_write(self@, offset as int, n as int)
                    } else {
                        !can_read(self@, offset as int, n as int)
                    }
                },
            },
    {
        let mut i: usize = 0;
        while i < self.regions.len()
            invariant
                0 <= i <= self.regions.len(),
                self.wf(),
                forall|j: int|
                    0 <= j < i ==> !(covers(#[trigger] self@[j], offset as int, n as int) && (
                    !for_store || self@[j].writable)),
            decreases self.regions.len() - i,
        {
            let r = &self.regions[i];
            let r_len = r.data.len() as u64;
            let in_range = offset >= r.vm_addr && offset - r.vm_addr <= r_len && n <= r_len - (
            offset - r.vm_addr);
            if in_range && (!for_store || r.writable) {
                assert(covers(self@[i as int], offset as int, n as int));
                return Some(i);
            }
            assert(!(covers(self@[i as int], offset as int, n as int) && (!for_store
                || self@[i as int].writable)));
            i = i + 1;
        }
        None
    }

    /// Fill `buf` with the `buf.len()` bytes at guest address `offset`: the
    /// load the engine's syscall convention gives a service. It succeeds
    /// exactly when one region covers the whole range; on failure nothing is
    /// read and `buf` is left as it was.
    pub fn read(&self, offset: u64, buf: &mut Vec<u8>) -> (r: Result<(), AccessError>)
        requires
            self.wf(),
        ensures
            r is Ok <==> can_read(self@, offset as int, old(buf)@.len() as int),
            final(buf)@.len() == old(buf)@.len(),
            r is Ok ==> final(buf)@ == bytes_at(self@, offset as int, old(buf)@.len() as int),
            r is Err ==> final(buf)@ == old(buf)@,
    {
        let n = buf.len();
        let i = match self.find_region(offset, n as u64, false) {
            Some(i) => i,
            None => {
                return Err(AccessError::OutOfBounds);
            },
        };
        let region = &self.regions[i];
        let off = (offset - region.vm_addr) as usize;
        let ghost rv = self@[i as int];
        let mut k: usize = 0;
        #[verifier::loop_isolation(false)]
        while k < n
            invariant
                0 <= k <= n,
                off + n <= region.data.len(),
                buf@.len() == n,
                forall|j: int| 0 <= j < k ==> buf@[j] == rv.data[off + j],
            decreases n - k,
        {
            let b = region.data[off + k];
            buf[k] = b;
            k = k + 1;
        }
        proof {
            lemma_bytes_at_region(self@, offset as int, n as int, i as int);
            assert(buf@ =~= bytes_at(self@, offset as int, n as int));
        }
        Ok(())
    }

    /// Write `n` copies of `byte` starting at guest address `offset`. It
    /// succeeds exactly when one writable region covers the whole range; on
    /// failure no byte of any region is changed.
    pub fn fill(&mut self, offset: u64, byte: u8, n: u64) -> (r: Result<(), AccessError>)
        requires
            old(self).wf(),
        ensures
            final(self).wf(),
            r is Ok <==> can_write(old(self)@, offset as int, n as int),
            r is Ok ==> final(self)@ == store(
                old(self)@,
                offset as int,
                Seq::new(n as nat, |i: int| byte),
            ),
            r is Err ==> *final(self) == *old(self),
    {
        let i = match self.find_region(offset, n, true) {
            Some(i) => i,
            None => {
                return Err(AccessError::OutOfBounds);
            },
        };
        let cap = self.regions[i].data.len();
        proof {
            assert(covers(self@[i as int], offset as int, n as int));
            assert(n as int <= cap as int);
        }
        let count = n as usize;
        let mut buf: Vec<u8> = Vec::new();
        let mut k: usize = 0;
        #[verifier::loop_isolation(false)]
        while k < count
            invariant
                0 <= k <= count,
                buf@.len() == k,
                forall|j: int| 0 <= j < k ==> buf@[j] == byte,
            decreases count - k,
        {
            buf.push(byte);
            k = k + 1;
        }
        proof {
            assert(buf@ =~= Seq::new(n as nat, |i: int| byte));
        }
        let r = self.write(offset, &buf);
        proof {
            assert(r is Ok);
        }
        r
    }

    /// Read `n` bytes at guest address `offset` into a fresh buffer. It
    /// succeeds exactly when one region covers the whole range; on failure
    /// nothing is read.
    pub fn read_vec(&self, offset: u64, n: u64) -> (r: Result<Vec<u8>, AccessError>)
        requires
            self.wf(),
        ensures
            r is Ok <==> can_read(self@, offset as int, n as int),
            r matches Ok(v) ==> v@ == bytes_at(self@, offset as int, n as int) && v@.len() == n,
    {
        let i = match self.find_region(offset, n, false) {
            Some(i) => i,
            None => {
                return Err(AccessError::OutOfBounds);
            },
        };
        let region = &self.regions[i];
        let off = (offset - region.vm_addr) as usize;
        let count = n as usize;
        let ghost rv = self@[i as int];
        let mut buf: Vec<u8> = Vec::new();
        let mut k: usize = 0;
        #[verifier::loop_isolation(false)]
        while k < count
            invariant
                0 <= k <= count,
                off + count <= region.data.len(),
                buf@.len() == k,
                forall|j: int| 0 <= j < k ==> buf@[j] == rv.data[off + j],
            decreases count - k,
        {
            let b = region.data[off + k];
            buf.push(b);
            k = k + 1;
        }
        proof {
            lemma_bytes_at_region(self@, offset as int, n as int, i as int);
            assert(buf@ =~= bytes_at(self@, offset as int, n as int));
        }
        Ok(buf)
    }

    /// Store the bytes of `buf` at guest address `offset`: the store the
    /// engine's syscall convention gives a service. It succeeds exactly when
    /// one writable region covers the whole range; on failure no byte of any
    /// region is changed.
    pub fn write(&mut self, offset: u64, buf: &Vec<u8>) -> (r: Result<(), AccessError>)
        requires
            old(self).wf(),
        ensures
            final(self).wf(),
            r is Ok <==> can_write(old(self)@, offset as int, buf@.len() as int),
            r is Ok ==> final(self)@ == store(old(self)@, offset as int, buf@),
            r is Err ==> *final(self) == *old(self),
    {
        let n = buf.len();
        let i = match self.find_region(offset, n as u64, true) {
            Some(i) => i,
            None => {
                return Err(AccessError::OutOfBounds);
            },
        };
        let ghost ms = self@;
        let mut region = self.regions.remove(i);
        let off = (offset - region.vm_addr) as usize;
        let ghost rv = ms[i as int];
        let mut k: usize = 0;
        #[verifier::loop_isolation(false)]
        while k < n
            invariant
                0 <= k <= n,
                off + n <= region.data.len(),
                region.data@.len() == rv.data.len(),
                region.vm_addr == rv.vm_addr,
                region.writable == rv.writable,
                forall|j: int| 0 <= j < k ==> region.data@[off + j] == buf@[j],
                forall|j: int|
                    0 <= j < rv.data.len() && !(off <= j < off + k) ==> region.data@[j]
                        == rv.data[j],
            decreases n - k,
        {
            let b = buf[k];
            region.data[off + k] = b;
            k = k + 1;
        }
        self.regions.insert(i, region);
        proof {
            assert(region@ =~~= region_store(rv, offset as int, buf@));
            assert(self@ =~~= ms.update(i as int, region_store(rv, offset as int, buf@)));
            lemma_store_preserves_shape(ms, offset as int, buf@);
            assert forall|j: int| 0 <= j < ms.len() implies store(ms, offset as int, buf@)[j]
                == self@[j] by {
                if j != i {
                    if covers(ms[j], offset as int, n as int) && ms[j].writable {
                        if n > 0 {
                            lemma_covers_unique(ms, offset as int, n as int, i as int, j);
                        } else {
                            assert(region_store(ms[j], offset as int, buf@) =~~= ms[j]);
                        }
                    }
                }
            }
            assert(self@ =~~= store(ms, offset as int, buf@));
        }
        Ok(())
    }
}

} // verus!
