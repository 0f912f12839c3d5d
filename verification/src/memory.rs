//! The memory model: an address space made of non-overlapping permissioned
//! memory maps, address-to-permission resolution, and the opcode-parsing
//! facade that reads an instruction window and dispatches it to an
//! architecture module.

use vstd::prelude::*;
use crate::arch::{arch_registered, ArchitectureModule, ArchRegistry};
use crate::constants::{Endianess, ARCH_DEFAULT, MM_EXEC, MM_READ, MM_SHARED, MM_WRITE};
use crate::error::Error;
use crate::operands::OpCode;

verus! {

/// The largest value a map's end address (one past its last byte) may take,
/// so that every end address still fits in an `i32`.
pub const VA_LIMIT: i32 = 0x7fffffff;

/// One contiguous permissioned region of the simulated address space. Its
/// size is the length of its backing bytes; a map is never empty.
pub struct MemoryMap {
    /// The base virtual address of the region.
    pub va: i32,
    /// A bitset over the `MM_` permission constants.
    pub perms: i32,
    /// The name of the file or object backing the region, if any.
    pub name: Option<String>,
    /// The backing bytes; one per address of the region.
    pub data: Vec<u8>,
}

/// One past the last address of a map.
pub open spec fn map_end(m: MemoryMap) -> int {
    m.va + m.data@.len()
}

/// True iff address `a` lies inside map `m`.
pub open spec fn map_contains(m: MemoryMap, a: int) -> bool {
    m.va <= a < map_end(m)
}

/// A well-formed map: non-negative base, at least one byte, and an end
/// address that fits the address space.
pub open spec fn map_wf(m: MemoryMap) -> bool {
    &&& 0 <= m.va
    &&& m.data@.len() >= 1
    &&& map_end(m) <= VA_LIMIT
}

/// A well-formed map list: every map well-formed, ordered by base address,
/// and pairwise disjoint (each map ends before the next begins).
pub open spec fn maps_wf(s: Seq<MemoryMap>) -> bool {
    &&& forall|i: int| 0 <= i < s.len() ==> map_wf(#[trigger] s[i])
    &&& forall|i: int, j: int| 0 <= i < j < s.len() ==> map_end(#[trigger] s[i]) <= #[trigger] s[j].va
}

/// True iff some map of `s` contains address `a`.
pub open spec fn has_map_at(s: Seq<MemoryMap>, a: int) -> bool {
    exists|i: int| 0 <= i < s.len() && map_contains(#[trigger] s[i], a)
}

/// The index of the map containing `a`.
pub open spec fn map_at_idx(s: Seq<MemoryMap>, a: int) -> int {
    choose|i: int| 0 <= i < s.len() && map_contains(#[trigger] s[i], a)
}

/// The map containing `a`.
pub open spec fn map_at(s: Seq<MemoryMap>, a: int) -> MemoryMap {
    s[map_at_idx(s, a)]
}

/// The byte held at address `a`.
pub open spec fn byte_at(s: Seq<MemoryMap>, a: int) -> u8 {
    map_at(s, a).data@[a - map_at(s, a).va]
}

/// True iff address `a` lies in a map whose permissions include every bit
/// of `perm`.
pub open spec fn perm_at(s: Seq<MemoryMap>, a: int, perm: i32) -> bool {
    has_map_at(s, a) && map_at(s, a).perms & perm == perm
}

/// True iff every address of `[addr, addr + size)` lies in a map granting
/// `perm` (the maps may differ from byte to byte).
pub open spec fn ok_range(s: Seq<MemoryMap>, addr: int, size: int, perm: i32) -> bool {
    &&& size >= 0
    &&& forall|a: int| addr <= a < addr + size ==> #[trigger] perm_at(s, a, perm)
}

/// `n` zero bytes: the contents of a freshly allocated map.
pub open spec fn zero_bytes(n: nat) -> Seq<u8> {
    Seq::new(n, |i: int| 0u8)
}

/// The bytes held at `[addr, addr + size)`.
pub open spec fn read_bytes(s: Seq<MemoryMap>, addr: int, size: int) -> Seq<u8>
    recommends
        size >= 0,
{
    Seq::new(size as nat, |i: int| byte_at(s, addr + i))
}

/// In a well-formed map list the containing map is unique: any index whose
/// map contains `a` is the index `map_at` denotes.
pub proof fn lemma_map_at_unique(s: Seq<MemoryMap>, a: int, i: int)
    requires
        maps_wf(s),
        0 <= i < s.len(),
        map_contains(s[i], a),
    ensures
        map_at_idx(s, a) == i,
        map_at(s, a) == s[i],
{
    let j = map_at_idx(s, a);
    assert(0 <= j < s.len() && map_contains(s[j], a));
    if i < j {
        assert(map_end(s[i]) <= s[j].va);
    } else if j < i {
        assert(map_end(s[j]) <= s[i].va);
    }
}

/// The provider of the architecture registry and pointer size behind a
/// memory object.
pub trait MemoryData {
    /// The module type the registry dispatches to.
    type Arch: ArchitectureModule;

    /// The registry as the contracts see it.
    spec fn archs_spec(&self) -> ArchRegistry<Self::Arch>;

    /// The pointer size as the contracts see it.
    spec fn psize_spec(&self) -> i32;

    /// The architecture registry shared by the memory object.
    fn get_imem_archs(&self) -> (r: &ArchRegistry<Self::Arch>)
        ensures
            *r == self.archs_spec(),
    ;

    /// The pointer size of the memory object, in bytes.
    fn get_imem_psize(&self) -> (r: i32)
        ensures
            r == self.psize_spec(),
    ;
}

/// The unified memory-object interface: address-to-map resolution,
/// permissioned reads and writes, and the opcode-parsing facade. The
/// default-implemented queries are stated purely over `mem_maps`, so a
/// concrete backing store that can answer faster may override them, bound
/// by the same contracts.
pub trait Memory: Sized {
    /// The provider of registry and pointer size.
    type Data: MemoryData;

    /// The map list as the contracts see it.
    spec fn mem_maps(&self) -> Seq<MemoryMap>;

    /// The byte order of the space.
    spec fn mem_endian(&self) -> Endianess;

    /// The default architecture identifier of the space.
    spec fn mem_arch(&self) -> i32;

    /// The registry as the contracts see it.
    spec fn mem_archs(&self) -> ArchRegistry<<Self::Data as MemoryData>::Arch>;

    /// The pointer size as the contracts see it.
    spec fn mem_psize(&self) -> i32;

    fn get_data(&self) -> (r: &Self::Data)
        ensures
            r.archs_spec() == self.mem_archs(),
            r.psize_spec() == self.mem_psize(),
    ;

    fn get_endian(&self) -> (r: Endianess)
        ensures
            r == self.mem_endian(),
    ;

    fn set_endian(&mut self, endian: Endianess)
        ensures
            final(self).mem_endian() == endian,
            final(self).mem_maps() == old(self).mem_maps(),
            final(self).mem_arch() == old(self).mem_arch(),
            final(self).mem_archs() == old(self).mem_archs(),
    ;

    /// Selects the default architecture used when `parse_op_code` is given
    /// no override.
    fn set_mem_architecture(&mut self, arch: i32)
        ensures
            final(self).mem_arch() == arch,
            final(self).mem_maps() == old(self).mem_maps(),
            final(self).mem_endian() == old(self).mem_endian(),
            final(self).mem_archs() == old(self).mem_archs(),
    ;

    fn get_mem_architecture(&self) -> (r: i32)
        ensures
            r == self.mem_arch(),
    ;

    fn get_pointer_size(&self) -> (r: i32)
        ensures
            r == self.mem_psize(),
    ;

    /// Every map of the space as a `(base, size, perms, name)` tuple,
    /// ordered by base address.
    fn get_memory_maps(&self) -> (r: Vec<(i32, i32, i32, Option<String>)>)
        requires
            maps_wf(self.mem_maps()),
        ensures
            r@.len() == self.mem_maps().len(),
            forall|i: int|
                0 <= i < r@.len() ==> {
                    let m = self.mem_maps()[i];
                    &&& (#[trigger] r@[i]).0 == m.va
                    &&& r@[i].1 == m.data@.len()
                    &&& r@[i].2 == m.perms
                    &&& r@[i].3 == m.name
                },
    ;

    /// The bytes of `[addr, addr + size)`, or nothing when any byte of the
    /// range lies outside a readable map.
    fn read_memory(&self, addr: i32, size: i32) -> (r: Option<Vec<u8>>)
        requires
            maps_wf(self.mem_maps()),
        ensures
            r is Some <==> ok_range(self.mem_maps(), addr as int, size as int, MM_READ),
            r is Some ==> r->Some_0@ == read_bytes(self.mem_maps(), addr as int, size as int),
    ;

    /// Writes `data` at `addr`. Fails with `SegmentationViolation`, and
    /// changes nothing, unless every target byte lies in a writable map;
    /// on success exactly the target bytes change.
    fn write_memory(&mut self, addr: i32, data: &[u8]) -> (r: Result<(), Error>)
        requires
            maps_wf(old(self).mem_maps()),
        ensures
            r is Ok <==> ok_range(old(self).mem_maps(), addr as int, data@.len() as int, MM_WRITE),
            maps_wf(final(self).mem_maps()),
            final(self).mem_endian() == old(self).mem_endian(),
            final(self).mem_arch() == old(self).mem_arch(),
            final(self).mem_archs() == old(self).mem_archs(),
            r is Ok ==> {
                let pre = old(self).mem_maps();
                let post = final(self).mem_maps();
                &&& maps_same_shape(pre, post)
                &&& forall|a: int|
                    addr <= a < addr + data@.len() ==> #[trigger] byte_at(post, a) == data@[a
                        - addr]
                &&& forall|a: int|
                    has_map_at(pre, a) && !(addr <= a < addr + data@.len())
                        ==> #[trigger] byte_at(post, a) == byte_at(pre, a)
            },
            r is Err ==> {
                &&& final(self).mem_maps() == old(self).mem_maps()
                &&& r->Err_0 matches Error::SegmentationViolation(v, _) && v == addr
            },
    ;

    /// Replaces the permission bitset of the map whose bounds exactly match
    /// `[addr, addr + size)`. Fails with `MapNotFound`, and changes nothing,
    /// when no map matches exactly: partial re-protection is unsupported.
    fn protect_memory(&mut self, addr: i32, size: i32, perms: i32) -> (r: Result<(), Error>)
        requires
            maps_wf(old(self).mem_maps()),
        ensures
            r is Ok <==> exists|i: int|
                0 <= i < old(self).mem_maps().len() && (#[trigger] old(self).mem_maps()[i]).va
                    == addr && old(self).mem_maps()[i].data@.len() == size,
            maps_wf(final(self).mem_maps()),
            final(self).mem_endian() == old(self).mem_endian(),
            final(self).mem_arch() == old(self).mem_arch(),
            final(self).mem_archs() == old(self).mem_archs(),
            r is Ok ==> {
                let pre = old(self).mem_maps();
                let post = final(self).mem_maps();
                &&& post.len() == pre.len()
                &&& forall|j: int|
                    0 <= j < pre.len() ==> {
                        let m = #[trigger] pre[j];
                        &&& post[j].va == m.va
                        &&& post[j].data == m.data
                        &&& post[j].name == m.name
                        &&& post[j].perms == if m.va == addr && m.data@.len() == size {
                            perms
                        } else {
                            m.perms
                        }
                    }
            },
            r is Err ==> {
                &&& final(self).mem_maps() == old(self).mem_maps()
                &&& r->Err_0 matches Error::MapNotFound(v) && v == addr
            },
    ;

    /// Inserts a new map of the bytes of `data`, named `f_name`, with its
    /// base rounded down to `align` when given. Rejects, and changes
    /// nothing, when the map would be empty, the alignment is not positive,
    /// the region does not fit the address space, or the region overlaps an
    /// existing map. Returns the base address actually used.
    fn add_memory_map(
        &mut self,
        map_va: i32,
        perms: i32,
        f_name: &str,
        data: Option<&[u8]>,
        align: Option<i32>,
    ) -> (r: Result<i32, Error>)
        requires
            maps_wf(old(self).mem_maps()),
        ensures
            r is Ok <==> {
                let base = aligned_base(map_va as int, align);
                &&& data matches Some(d) && d@.len() >= 1
                &&& (align matches Some(a) ==> a > 0)
                &&& range_free(old(self).mem_maps(), base, data->Some_0@.len() as int)
            },
            final(self).mem_endian() == old(self).mem_endian(),
            final(self).mem_arch() == old(self).mem_arch(),
            final(self).mem_archs() == old(self).mem_archs(),
            maps_wf(final(self).mem_maps()),
            r is Ok ==> r->Ok_0 == aligned_base(map_va as int, align),
            r is Ok ==> exists|k: int|
                #[trigger] map_added_at(
                    old(self).mem_maps(),
                    final(self).mem_maps(),
                    k,
                    aligned_base(map_va as int, align),
                    perms,
                    Some(f_name@),
                    data->Some_0@,
                ),
            r is Err ==> final(self).mem_maps() == old(self).mem_maps() && r->Err_0 is
                InvalidState,
    ;

    /// Adds a zero-filled map of `size` bytes. A suggested address pins the
    /// region there; otherwise the lowest free gap of the ordered map list
    /// is used (first fit). Fails with `NoValidFreeMemoryFound`, and
    /// changes nothing, when the pinned region is not free — or, with no
    /// suggestion, only when no free region of `size` bytes exists at all.
    /// Returns the base address used, which heads a free region.
    fn allocate_memory(&mut self, size: i32, perms: i32, suggest_addr: Option<i32>) -> (r: Result<
        i32,
        Error,
    >)
        requires
            maps_wf(old(self).mem_maps()),
        ensures
            r is Ok <==> size >= 1 && (match suggest_addr {
                Some(sa) => range_free(old(self).mem_maps(), sa as int, size as int),
                None => free_region_exists(old(self).mem_maps(), size as int),
            }),
            final(self).mem_endian() == old(self).mem_endian(),
            final(self).mem_arch() == old(self).mem_arch(),
            final(self).mem_archs() == old(self).mem_archs(),
            maps_wf(final(self).mem_maps()),
            r is Ok ==> range_free(old(self).mem_maps(), r->Ok_0 as int, size as int),
            r is Ok && suggest_addr is Some ==> r->Ok_0 == suggest_addr->Some_0,
            r is Ok ==> exists|k: int|
                #[trigger] map_added_at(
                    old(self).mem_maps(),
                    final(self).mem_maps(),
                    k,
                    r->Ok_0 as int,
                    perms,
                    None,
                    zero_bytes(size as nat),
                ),
            r is Err ==> {
                &&& final(self).mem_maps() == old(self).mem_maps()
                &&& r->Err_0 matches Error::NoValidFreeMemoryFound(v) && v == size
            },
    ;

    /// The `(base, size, perms, name)` of the map containing `va`, or
    /// nothing. A linear scan: map counts are small.
    fn get_memory_map(&self, va: i32) -> (r: Option<(i32, i32, i32, Option<String>)>)
        requires
            maps_wf(self.mem_maps()),
        ensures
            match r {
                Some(t) => {
                    let m = map_at(self.mem_maps(), va as int);
                    &&& has_map_at(self.mem_maps(), va as int)
                    &&& t.0 == m.va
                    &&& t.1 == m.data@.len()
                    &&& t.2 == m.perms
                    &&& t.3 == m.name
                },
                None => !has_map_at(self.mem_maps(), va as int),
            },
    {
        let maps = self.get_memory_maps();
        let ghost s = self.mem_maps();
        let mut i: usize = 0;
        while i < maps.len()
            invariant
                maps@.len() == s.len(),
                s == self.mem_maps(),
                maps_wf(s),
                forall|k: int|
                    0 <= k < maps@.len() ==> {
                        let m = s[k];
                        &&& (#[trigger] maps@[k]).0 == m.va
                        &&& maps@[k].1 == m.data@.len()
                        &&& maps@[k].2 == m.perms
                        &&& maps@[k].3 == m.name
                    },
                i <= maps@.len(),
                forall|k: int| 0 <= k < i ==> !map_contains(#[trigger] s[k], va as int),
            decreases maps@.len() - i,
        {
            let (mva, msize, mperms, ref mname) = maps[i];
            if mva <= va && va - mva < msize {
                proof {
                    assert(map_contains(s[i as int], va as int));
                    lemma_map_at_unique(s, va as int, i as int);
                }
                let name = match mname {
                    Some(n) => Some(n.clone()),
                    None => None,
                };
                return Some((mva, msize, mperms, name));
            }
            i += 1;
        }
        None
    }

    /// True iff `[va, va + size)` lies entirely within one map whose
    /// permission bitset is a superset of `perm`. Deliberately false for a
    /// range spanning two adjacent maps, even when both grant `perm`; and
    /// `va` itself must lie in the map, so even an empty range probes false
    /// at an unmapped address such as the byte just past a map's end.
    fn probe_memory(&self, va: i32, size: i32, perm: i32) -> (r: bool)
        requires
            maps_wf(self.mem_maps()),
        ensures
            r == {
                let s = self.mem_maps();
                &&& has_map_at(s, va as int)
                &&& va + size <= map_end(map_at(s, va as int))
                &&& map_at(s, va as int).perms & perm == perm
            },
    {
        let mmap = self.get_memory_map(va);
        if mmap.is_none() {
            return false;
        }
        let (map_va, map_size, map_perms, _) = mmap.unwrap();
        let map_end: i64 = map_va as i64 + map_size as i64;
        if va as i64 + size as i64 > map_end {
            return false;
        }
        if (map_perms & perm) != perm {
            return false;
        }
        true
    }

    /// True iff some map contains `va`.
    fn is_valid_pointer(&self, va: i32) -> (r: bool)
        requires
            maps_wf(self.mem_maps()),
        ensures
            r == has_map_at(self.mem_maps(), va as int),
    {
        self.get_memory_map(va).is_some()
    }

    /// True iff `va` lies in a readable map.
    fn is_readable(&self, va: i32) -> (r: bool)
        requires
            maps_wf(self.mem_maps()),
        ensures
            r == perm_at(self.mem_maps(), va as int, MM_READ),
    {
        match self.get_memory_map(va) {
            None => false,
            Some((_, _, perms, _)) => perms & MM_READ == MM_READ,
        }
    }

    /// True iff `va` lies in a writable map.
    fn is_writable(&self, va: i32) -> (r: bool)
        requires
            maps_wf(self.mem_maps()),
        ensures
            r == perm_at(self.mem_maps(), va as int, MM_WRITE),
    {
        match self.get_memory_map(va) {
            None => false,
            Some((_, _, perms, _)) => perms & MM_WRITE == MM_WRITE,
        }
    }

    /// True iff `va` lies in an executable map.
    fn is_executable(&self, va: i32) -> (r: bool)
        requires
            maps_wf(self.mem_maps()),
        ensures
            r == perm_at(self.mem_maps(), va as int, MM_EXEC),
    {
        match self.get_memory_map(va) {
            None => false,
            Some((_, _, perms, _)) => perms & MM_EXEC == MM_EXEC,
        }
    }

    /// True iff `va` lies in a shared map.
    fn is_shared(&self, va: i32) -> (r: bool)
        requires
            maps_wf(self.mem_maps()),
        ensures
            r == perm_at(self.mem_maps(), va as int, MM_SHARED),
    {
        match self.get_memory_map(va) {
            None => false,
            Some((_, _, perms, _)) => perms & MM_SHARED == MM_SHARED,
        }
    }

    /// The number of contiguous readable bytes starting at `va`: walks
    /// forward across readable maps that abut with no gap and stops at the
    /// first gap or first non-readable map.
    fn get_max_read_size(&self, va: i32) -> (r: i32)
        requires
            maps_wf(self.mem_maps()),
        ensures
            r >= 0,
            ok_range(self.mem_maps(), va as int, r as int, MM_READ),
            !perm_at(self.mem_maps(), va as int + r as int, MM_READ),
    {
        let ghost s = self.mem_maps();
        if va < 0 {
            proof {
                if has_map_at(s, va as int) {
                    let i = map_at_idx(s, va as int);
                    assert(map_contains(s[i], va as int) && map_wf(s[i]));
                }
            }
            return 0;
        }
        let mut n_read: i32 = 0;
        loop
            invariant
                maps_wf(s),
                s == self.mem_maps(),
                0 <= va,
                0 <= n_read,
                va as int + n_read <= VA_LIMIT,
                ok_range(s, va as int, n_read as int, MM_READ),
            decreases VA_LIMIT - n_read,
        {
            match self.get_memory_map(va + n_read) {
                None => {
                    return n_read;
                },
                Some((mva, msize, mperms, _)) => {
                    if mperms & MM_READ != MM_READ {
                        return n_read;
                    }
                    let ghost idx = map_at_idx(s, va as int + n_read as int);
                    proof {
                        assert(map_contains(s[idx], va as int + n_read as int));
                        assert(map_wf(s[idx]));
                    }
                    let map_end_va: i32 = mva + msize;
                    let new_n: i32 = map_end_va - va;
                    proof {
                        assert forall|a: int| va as int <= a < va as int + new_n implies
                            #[trigger] perm_at(s, a, MM_READ) by {
                            if a < va as int + n_read {
                                assert(perm_at(s, a, MM_READ));
                            } else {
                                assert(map_contains(s[idx], a));
                                lemma_map_at_unique(s, a, idx);
                            }
                        }
                    }
                    n_read = new_n;
                },
            }
        }
    }

    /// Reads an unsigned number of `size` bytes (0 to 8; more would not fit
    /// the result) at `addr`, combined in the byte order of the space. It
    /// returns a value exactly when `read_memory` of the same range would;
    /// an empty read yields zero.
    fn read_mem_value(&self, addr: i32, size: i32) -> (r: Option<u64>)
        requires
            maps_wf(self.mem_maps()),
        ensures
            r is Some <==> 0 <= size <= 8 && ok_range(
                self.mem_maps(),
                addr as int,
                size as int,
                MM_READ,
            ),
            r is Some ==> r->Some_0 == mem_value(
                self.mem_endian(),
                read_bytes(self.mem_maps(), addr as int, size as int),
            ),
    {
        if size < 0 || size > 8 {
            return None;
        }
        match self.read_memory(addr, size) {
            None => None,
            Some(bytes) => {
                let ghost bs = bytes@;
                proof {
                    lemma_value_of_bound(bs);
                    lemma_pow256_le(bs.len() as nat, 8);
                    reveal_with_fuel(pow256, 9);
                }
                let mut val: u64 = 0;
                match self.get_endian() {
                    Endianess::Big => {
                        let mut i: usize = 0;
                        while i < bytes.len()
                            invariant
                                bs == bytes@,
                                bs.len() <= 8,
                                i <= bs.len(),
                                val == be_value(bs.subrange(0, i as int)),
                                val < pow256(i as nat),
                                pow256(bs.len() as nat) <= pow256(8),
                                pow256(8) == 0x10000000000000000,
                            decreases bs.len() - i,
                        {
                            proof {
                                lemma_pow256_le(i as nat + 1, bs.len() as nat);
                                assert(bs.subrange(0, i + 1).drop_last() == bs.subrange(
                                    0,
                                    i as int,
                                ));
                            }
                            val = val * 256 + bytes[i] as u64;
                            i += 1;
                        }
                        proof {
                            assert(bs.subrange(0, bs.len() as int) == bs);
                        }
                        Some(val)
                    },
                    Endianess::Little => {
                        let mut i: usize = bytes.len();
                        while i > 0
                            invariant
                                bs == bytes@,
                                bs.len() <= 8,
                                i <= bs.len(),
                                val == le_value(bs.subrange(i as int, bs.len() as int)),
                                val < pow256((bs.len() - i) as nat),
                                pow256(bs.len() as nat) <= pow256(8),
                                pow256(8) == 0x10000000000000000,
                            decreases i,
                        {
                            proof {
                                lemma_pow256_le((bs.len() - i + 1) as nat, bs.len() as nat);
                                assert(bs.subrange(i - 1, bs.len() as int).drop_first()
                                    == bs.subrange(i as int, bs.len() as int));
                            }
                            i -= 1;
                            val = val * 256 + bytes[i] as u64;
                        }
                        proof {
                            assert(bs.subrange(0, bs.len() as int) == bs);
                        }
                        Some(val)
                    },
                }
            },
        }
    }

    /// A formatted multi-value read: an architecture or platform hook with
    /// no universal implementation, so the default fails with
    /// `FuncNotImplemented`.
    fn read_memory_format(&self, _addr: i32, _fmt: &str) -> (r: Result<Vec<i64>, Error>)
        ensures
            r is Err && r->Err_0 is FuncNotImplemented,
    {
        Err(Error::FuncNotImplemented("read_memory_format".to_owned()))
    }

    /// The segment holding `va`: platforms with real segmentation override
    /// this; the universal default is a single flat unsegmented space.
    fn get_segment_info(&self, _va: i32) -> (r: (i32, i64))
        ensures
            r == (0i32, 0xffffffffi64),
    {
        (0, 0xffffffff)
    }

    /// The architecture module for `arch`, defaulting to the space's own
    /// architecture; `resolve` carries the exact contract.
    fn get_mem_arch_module(&self, arch: Option<i32>) -> (r: Result<
        &<Self::Data as MemoryData>::Arch,
        Error,
    >)
        ensures
            r is Ok <==> arch_registered(
                self.mem_archs(),
                match arch {
                    Some(a) => a,
                    None => self.mem_arch(),
                },
            ),
            r is Err ==> r->Err_0 is ArchNotImplemented,
    {
        let arch_id = match arch {
            Some(a) => a,
            None => self.get_mem_architecture(),
        };
        self.get_data().get_imem_archs().resolve(arch_id)
    }

    /// Reads a fixed 16-byte instruction window at `va` (the maximum
    /// instruction length across supported architectures; a module ignores
    /// trailing bytes it does not need), resolves the architecture module
    /// (default: the space's own architecture), and delegates decoding.
    /// With no fully readable window it fails with `MapNotFound`; with no
    /// registered module, with `ArchNotImplemented`; otherwise the module's
    /// own result is returned.
    fn parse_op_code(&self, va: i32, arch: Option<i32>) -> (r: Result<OpCode, Error>)
        requires
            maps_wf(self.mem_maps()),
        ensures
            !ok_range(self.mem_maps(), va as int, 16, MM_READ) ==> {
                &&& r is Err
                &&& r->Err_0 matches Error::MapNotFound(v) && v == va
            },
            ok_range(self.mem_maps(), va as int, 16, MM_READ) && !arch_registered(
                self.mem_archs(),
                match arch {
                    Some(a) => a,
                    None => self.mem_arch(),
                },
            ) ==> r is Err && r->Err_0 is ArchNotImplemented,
    {
        let bytes = match self.read_memory(va, 16) {
            None => {
                return Err(Error::MapNotFound(va));
            },
            Some(b) => b,
        };
        let module = match self.get_mem_arch_module(arch) {
            Err(e) => {
                return Err(e);
            },
            Ok(m) => m,
        };
        module.arch_parse_opcode(&bytes, 0, va)
    }
}

/// A memory object that answers through a cache; the contracts are those
/// of `Memory`.
pub trait MemoryCache: Memory {

}

/// A fully backed memory object: the interface an emulation session owns.
pub trait MemoryObject: Memory {

}

/// 256 raised to `n`: the number of values `n` bytes can take.
pub open spec fn pow256(n: nat) -> nat
    decreases n,
{
    if n == 0 {
        1
    } else {
        256 * pow256((n - 1) as nat)
    }
}

/// The value of `b` read as a little-endian number.
pub open spec fn le_value(b: Seq<u8>) -> nat
    decreases b.len(),
{
    if b.len() == 0 {
        0
    } else {
        (b[0] + 256 * le_value(b.drop_first())) as nat
    }
}

/// The value of `b` read as a big-endian number.
pub open spec fn be_value(b: Seq<u8>) -> nat
    decreases b.len(),
{
    if b.len() == 0 {
        0
    } else {
        (b.last() + 256 * be_value(b.drop_last())) as nat
    }
}

/// The value of `b` in byte order `endian`.
pub open spec fn mem_value(endian: Endianess, b: Seq<u8>) -> nat {
    match endian {
        Endianess::Little => le_value(b),
        Endianess::Big => be_value(b),
    }
}

/// `pow256` is monotone.
proof fn lemma_pow256_le(m: nat, n: nat)
    requires
        m <= n,
    ensures
        pow256(m) <= pow256(n),
    decreases n,
{
    if m < n {
        lemma_pow256_le(m, (n - 1) as nat);
    }
}

/// Both byte-order values of `b` are below `pow256(b.len())`.
proof fn lemma_value_of_bound(b: Seq<u8>)
    ensures
        le_value(b) < pow256(b.len()),
        be_value(b) < pow256(b.len()),
    decreases b.len(),
{
    if b.len() > 0 {
        lemma_value_of_bound(b.drop_first());
        lemma_value_of_bound(b.drop_last());
    }
}

/// Round trip: bytes written to an address range that both grants write
/// and grants read come back identically from a read of the same range.
/// `post` is any map list a successful `write_memory` of `data` at `addr`
/// may leave behind.
pub proof fn lemma_write_read_round_trip(
    pre: Seq<MemoryMap>,
    post: Seq<MemoryMap>,
    addr: int,
    data: Seq<u8>,
)
    requires
        maps_wf(pre),
        ok_range(pre, addr, data.len() as int, MM_WRITE),
        ok_range(pre, addr, data.len() as int, MM_READ),
        maps_same_shape(pre, post),
        forall|a: int|
            addr <= a < addr + data.len() ==> #[trigger] byte_at(post, a) == data[a - addr],
    ensures
        ok_range(post, addr, data.len() as int, MM_READ),
        read_bytes(post, addr, data.len() as int) == data,
{
    lemma_same_shape(pre, post);
    assert forall|a: int| addr <= a < addr + data.len() implies #[trigger] perm_at(
        post,
        a,
        MM_READ,
    ) by {
        assert(perm_at(pre, a, MM_READ));
    }
    assert(read_bytes(post, addr, data.len() as int) =~= data);
}

/// A same-shape successor of a well-formed map list is well-formed and
/// keeps the mapped addresses, their containing indices, and their
/// permissions: only byte contents may have changed.
pub proof fn lemma_same_shape(pre: Seq<MemoryMap>, post: Seq<MemoryMap>)
    requires
        maps_wf(pre),
        maps_same_shape(pre, post),
    ensures
        maps_wf(post),
        forall|a: int| has_map_at(post, a) <==> has_map_at(pre, a),
        forall|a: int|
            #[trigger] has_map_at(pre, a) ==> map_at_idx(post, a) == map_at_idx(pre, a),
        forall|a: int, p: i32| perm_at(post, a, p) <==> perm_at(pre, a, p),
{
    assert forall|i: int| 0 <= i < post.len() implies map_wf(#[trigger] post[i]) by {
        assert(map_wf(pre[i]));
    }
    assert forall|i: int, j: int| 0 <= i < j < post.len() implies map_end(#[trigger] post[i])
        <= #[trigger] post[j].va by {
        assert(map_end(pre[i]) <= pre[j].va);
    }
    assert forall|a: int| #[trigger] has_map_at(pre, a) implies has_map_at(post, a)
        && map_at_idx(post, a) == map_at_idx(pre, a) by {
        let i = map_at_idx(pre, a);
        assert(map_contains(pre[i], a));
        assert(map_contains(post[i], a));
        lemma_map_at_unique(post, a, i);
    }
    assert forall|a: int| #[trigger] has_map_at(post, a) implies has_map_at(pre, a) by {
        let i = map_at_idx(post, a);
        assert(map_contains(post[i], a));
        assert(map_contains(pre[i], a));
    }
    assert forall|a: int, p: i32| #[trigger] perm_at(post, a, p) == perm_at(pre, a, p) by {
        if has_map_at(pre, a) {
            let i = map_at_idx(pre, a);
            assert(map_at_idx(post, a) == i);
        }
    }
}

/// Wherever a free region of `size` bytes exists, one also heads a
/// first-fit candidate at or below it: the bottom of the space, or the end
/// of some map. So a scan of those candidates misses no free region.
proof fn lemma_free_candidate(s: Seq<MemoryMap>, size: int, x: int)
    requires
        maps_wf(s),
        size >= 1,
        range_free(s, x, size),
    ensures
        range_free(s, 0, size) || exists|i: int|
            0 <= i < s.len() && map_end(s[i]) <= x && #[trigger] range_free(
                s,
                map_end(s[i]),
                size,
            ),
    decreases s.len(),
{
    if s.len() == 0 {
        assert(range_free(s, 0, size));
    } else {
        let n = s.len() - 1;
        let last = s[n];
        assert(map_wf(last));
        if map_end(last) <= x {
            // the end of the last map is itself free: every map ends at or
            // before it, and it fits because x does
            let c = map_end(last);
            assert forall|i: int| 0 <= i < s.len() implies (map_end(#[trigger] s[i]) <= c || c
                + size <= s[i].va) by {
                if i < n {
                    assert(map_end(s[i]) <= last.va);
                }
            }
            assert(range_free(s, map_end(s[n]), size));
        } else {
            // the last map lies above the free region; recurse on the rest
            let p = s.subrange(0, n);
            assert forall|i: int| 0 <= i < p.len() implies map_wf(#[trigger] p[i]) by {
                assert(p[i] == s[i]);
            }
            assert forall|i: int, j: int| 0 <= i < j < p.len() implies map_end(#[trigger] p[i])
                <= #[trigger] p[j].va by {
                assert(p[i] == s[i] && p[j] == s[j]);
            }
            assert forall|i: int| 0 <= i < p.len() implies (map_end(#[trigger] p[i]) <= x || x
                + size <= p[i].va) by {
                assert(p[i] == s[i]);
                assert(map_end(s[i]) <= x || x + size <= s[i].va);
            }
            assert(range_free(p, x, size));
            lemma_free_candidate(p, size, x);
            assert(map_end(last) <= x || x + size <= last.va);
            if range_free(p, 0, size) {
                // the bottom candidate stays free of the last map too
                assert forall|i: int| 0 <= i < s.len() implies (map_end(#[trigger] s[i]) <= 0
                    || 0 + size <= s[i].va) by {
                    if i < n {
                        assert(map_end(p[i]) <= 0 || size <= p[i].va);
                    } else {
                        assert(size <= x + size <= last.va);
                    }
                }
                assert(range_free(s, 0, size));
            } else {
                let i0 = choose|i: int|
                    0 <= i < p.len() && map_end(p[i]) <= x && #[trigger] range_free(
                        p,
                        map_end(p[i]),
                        size,
                    );
                let c = map_end(p[i0]);
                assert(range_free(p, c, size));
                assert forall|i: int| 0 <= i < s.len() implies (map_end(#[trigger] s[i]) <= c
                    || c + size <= s[i].va) by {
                    if i < n {
                        assert(map_end(p[i]) <= c || c + size <= p[i].va);
                    } else {
                        assert(c + size <= x + size <= last.va);
                    }
                }
                assert(p[i0] == s[i0]);
                assert(range_free(s, map_end(s[i0]), size));
            }
        }
    }
}

/// No well-formed map holds an address below zero or at the address-space
/// limit.
pub proof fn lemma_outside_unmapped(s: Seq<MemoryMap>, a: int)
    requires
        maps_wf(s),
        a < 0 || a >= VA_LIMIT,
    ensures
        !has_map_at(s, a),
{
    if has_map_at(s, a) {
        let i = map_at_idx(s, a);
        assert(map_contains(s[i], a) && map_wf(s[i]));
    }
}

/// Replacing one byte inside one map leaves the shape intact and changes
/// exactly the byte at that map's offset.
proof fn lemma_update_byte(pre: Seq<MemoryMap>, post: Seq<MemoryMap>, mi: int, off: int, b: u8)
    requires
        maps_wf(pre),
        0 <= mi < pre.len(),
        0 <= off < pre[mi].data@.len(),
        post.len() == pre.len(),
        forall|j: int| 0 <= j < pre.len() && j != mi ==> post[j] == #[trigger] pre[j],
        post[mi].va == pre[mi].va,
        post[mi].perms == pre[mi].perms,
        post[mi].name == pre[mi].name,
        post[mi].data@ == pre[mi].data@.update(off, b),
    ensures
        maps_same_shape(pre, post),
        maps_wf(post),
        forall|a: int|
            #[trigger] has_map_at(pre, a) ==> byte_at(post, a) == if a == pre[mi].va + off {
                b
            } else {
                byte_at(pre, a)
            },
{
    assert(maps_same_shape(pre, post));
    lemma_same_shape(pre, post);
    assert forall|a: int| #[trigger] has_map_at(pre, a) implies byte_at(post, a) == if a
        == pre[mi].va + off {
        b
    } else {
        byte_at(pre, a)
    } by {
        let j = map_at_idx(pre, a);
        assert(map_contains(pre[j], a));
        assert(map_at_idx(post, a) == j);
        if a == pre[mi].va + off {
            assert(map_contains(pre[mi], a));
            lemma_map_at_unique(pre, a, mi);
        } else {
            if j == mi {
                assert(a - pre[mi].va != off);
            }
        }
    }
}

/// The index of the map containing `a`, by linear scan.
fn find_map_index(maps: &Vec<MemoryMap>, a: i32) -> (r: Option<usize>)
    requires
        maps_wf(maps@),
    ensures
        match r {
            Some(i) => {
                &&& i < maps@.len()
                &&& map_contains(maps@[i as int], a as int)
                &&& map_at_idx(maps@, a as int) == i as int
            },
            None => !has_map_at(maps@, a as int),
        },
{
    let mut i: usize = 0;
    while i < maps.len()
        invariant
            maps_wf(maps@),
            i <= maps@.len(),
            forall|k: int| 0 <= k < i ==> !map_contains(#[trigger] maps@[k], a as int),
        decreases maps@.len() - i,
    {
        let m = &maps[i];
        if m.va <= a && ((a - m.va) as usize) < m.data.len() {
            proof {
                lemma_map_at_unique(maps@, a as int, i as int);
            }
            return Some(i);
        }
        i += 1;
    }
    None
}

/// A concrete address space: the ordered map list, byte order, pointer
/// size, default architecture, and the shared architecture registry.
pub struct AddressSpace<A> {
    /// The memory maps, ordered by base address and pairwise disjoint.
    pub maps: Vec<MemoryMap>,
    /// The byte order of multi-byte values.
    pub endian: Endianess,
    /// The pointer size in bytes.
    pub psize: i32,
    /// The default architecture identifier for opcode parsing.
    pub arch_id: i32,
    /// The registry of architecture modules.
    pub archs: ArchRegistry<A>,
}

impl<A: ArchitectureModule> AddressSpace<A> {
    /// An empty space with the given byte order, pointer size and registry.
    pub fn new(endian: Endianess, psize: i32, archs: ArchRegistry<A>) -> (r: Self)
        ensures
            r.maps@.len() == 0,
            maps_wf(r.maps@),
            r.endian == endian,
            r.psize == psize,
            r.arch_id == ARCH_DEFAULT,
            r.archs == archs,
    {
        AddressSpace { maps: Vec::new(), endian, psize, arch_id: ARCH_DEFAULT, archs }
    }

    /// Inserts `m` at its ordered position and returns that position.
    fn insert_sorted(&mut self, m: MemoryMap) -> (k: usize)
        requires
            maps_wf(old(self).maps@),
            map_wf(m),
            range_free(old(self).maps@, m.va as int, m.data@.len() as int),
        ensures
            k <= old(self).maps@.len(),
            final(self).maps@ == old(self).maps@.insert(k as int, m),
            maps_wf(final(self).maps@),
            final(self).endian == old(self).endian,
            final(self).psize == old(self).psize,
            final(self).arch_id == old(self).arch_id,
            final(self).archs == old(self).archs,
    {
        let ghost pre = self.maps@;
        let mut k: usize = 0;
        while k < self.maps.len() && self.maps[k].va < m.va
            invariant
                *self == *old(self),
                pre == self.maps@,
                k <= pre.len(),
                forall|j: int| 0 <= j < k ==> (#[trigger] pre[j]).va < m.va,
            decreases pre.len() - k,
        {
            k += 1;
        }
        proof {
            pre.insert_ensures(k as int, m);
            // no existing map shares m's base: each is fully below or above
            assert forall|j: int| 0 <= j < pre.len() implies #[trigger] pre[j].va != m.va by {
                assert(map_end(pre[j]) <= m.va || m.va + m.data@.len() <= pre[j].va);
            }
        }
        self.maps.insert(k, m);
        proof {
            let post = self.maps@;
            assert forall|i: int| 0 <= i < post.len() implies map_wf(#[trigger] post[i]) by {
                if i < k {
                    assert(post[i] == pre[i]);
                } else if i == k {
                } else {
                    assert(post[i] == pre[i - 1]);
                }
            }
            assert forall|i: int, j: int| 0 <= i < j < post.len() implies map_end(
                #[trigger] post[i],
            ) <= #[trigger] post[j].va by {
                if j < k {
                    assert(map_end(pre[i]) <= pre[j].va);
                } else if i > k {
                    assert(map_end(pre[i - 1]) <= pre[j - 1].va);
                } else if i == k {
                    // post[j] is pre[j - 1], which the scan did not pass, so it
                    // does not lie below m and disjointness puts m below it
                    let e = pre[j - 1];
                    if map_end(e) <= m.va {
                        assert(e.va < m.va);
                        if j - 1 > k {
                            assert(map_end(pre[k as int]) <= e.va);
                        }
                        assert(false);
                    }
                } else if j == k {
                    // post[i] is pre[i], which the scan passed: it lies below m,
                    // and by disjointness ends at or before m's base
                    let e = pre[i];
                    assert(e.va < m.va);
                    assert(map_end(e) <= m.va || m.va + m.data@.len() <= e.va);
                } else {
                    // i < k < j: an ordered pair of pre
                    assert(map_end(pre[i]) <= pre[j - 1].va);
                }
            }
        }
        k
    }

    /// Builds a zero-filled map at `base` and inserts it in order.
    fn place_zeroed_map(&mut self, base: i32, size: i32, perms: i32) -> (k: usize)
        requires
            maps_wf(old(self).maps@),
            size >= 1,
            range_free(old(self).maps@, base as int, size as int),
        ensures
            k <= old(self).maps@.len(),
            map_added_at(
                old(self).maps@,
                final(self).maps@,
                k as int,
                base as int,
                perms,
                None,
                zero_bytes(size as nat),
            ),
            maps_wf(final(self).maps@),
            final(self).endian == old(self).endian,
            final(self).psize == old(self).psize,
            final(self).arch_id == old(self).arch_id,
            final(self).archs == old(self).archs,
    {
        let ghost s = self.maps@;
        let mut zeros: Vec<u8> = Vec::new();
        let mut i: i32 = 0;
        while i < size
            invariant
                0 <= i <= size,
                zeros@.len() == i,
                forall|j: int| 0 <= j < i ==> zeros@[j] == 0u8,
            decreases size - i,
        {
            zeros.push(0);
            i += 1;
        }
        proof {
            assert(zeros@ =~= zero_bytes(size as nat));
        }
        let m = MemoryMap { va: base, perms, name: None, data: zeros };
        let k = self.insert_sorted(m);
        proof {
            s.insert_ensures(k as int, m);
            let post = self.maps@;
            assert(post[k as int] == m);
            assert forall|j: int| 0 <= j < k implies post[j] == #[trigger] s[j] by {}
            assert forall|j: int| k <= j < s.len() implies post[j + 1] == #[trigger] s[j] by {}
            assert(map_added_at(s, post, k as int, base as int, perms, None, zero_bytes(
                size as nat,
            )));
        }
        k
    }
}

/// True iff `[base, base + size)` overlaps no existing map.
fn check_range_free(maps: &Vec<MemoryMap>, base: i32, size: i32) -> (r: bool)
    requires
        maps_wf(maps@),
        0 <= base,
        size >= 1,
        base + size <= VA_LIMIT,
    ensures
        r == range_free(maps@, base as int, size as int),
{
    let mut i: usize = 0;
    while i < maps.len()
        invariant
            maps_wf(maps@),
            i <= maps@.len(),
            0 <= base,
            size >= 1,
            base + size <= VA_LIMIT,
            forall|j: int|
                0 <= j < i ==> (map_end(#[trigger] maps@[j]) <= base || base + size
                    <= maps@[j].va),
        decreases maps@.len() - i,
    {
        let m = &maps[i];
        let m_end = m.va + m.data.len() as i32;
        if !(m_end <= base || base + size <= m.va) {
            return false;
        }
        i += 1;
    }
    true
}

impl<A: ArchitectureModule> MemoryData for AddressSpace<A> {
    type Arch = A;

    open spec fn archs_spec(&self) -> ArchRegistry<A> {
        self.archs
    }

    open spec fn psize_spec(&self) -> i32 {
        self.psize
    }

    fn get_imem_archs(&self) -> (r: &ArchRegistry<A>) {
        &self.archs
    }

    fn get_imem_psize(&self) -> (r: i32) {
        self.psize
    }
}

impl<A: ArchitectureModule> Memory for AddressSpace<A> {
    type Data = AddressSpace<A>;

    open spec fn mem_maps(&self) -> Seq<MemoryMap> {
        self.maps@
    }

    open spec fn mem_endian(&self) -> Endianess {
        self.endian
    }

    open spec fn mem_arch(&self) -> i32 {
        self.arch_id
    }

    open spec fn mem_archs(&self) -> ArchRegistry<A> {
        self.archs
    }

    open spec fn mem_psize(&self) -> i32 {
        self.psize
    }

    fn get_data(&self) -> (r: &Self) {
        proof {
            assert(self.archs_spec() == self.archs);
            assert(self.mem_archs() == self.archs);
            assert(self.psize_spec() == self.psize);
            assert(self.mem_psize() == self.psize);
        }
        self
    }

    fn get_endian(&self) -> (r: Endianess) {
        self.endian
    }

    fn set_endian(&mut self, endian: Endianess) {
        self.endian = endian;
    }

    fn set_mem_architecture(&mut self, arch: i32) {
        self.arch_id = arch;
    }

    fn get_mem_architecture(&self) -> (r: i32) {
        self.arch_id
    }

    fn get_pointer_size(&self) -> (r: i32) {
        self.psize
    }

    fn get_memory_maps(&self) -> (r: Vec<(i32, i32, i32, Option<String>)>) {
        let mut out: Vec<(i32, i32, i32, Option<String>)> = Vec::new();
        let mut i: usize = 0;
        while i < self.maps.len()
            invariant
                maps_wf(self.maps@),
                i <= self.maps@.len(),
                out@.len() == i,
                forall|k: int|
                    0 <= k < i ==> {
                        let m = self.maps@[k];
                        &&& (#[trigger] out@[k]).0 == m.va
                        &&& out@[k].1 == m.data@.len()
                        &&& out@[k].2 == m.perms
                        &&& out@[k].3 == m.name
                    },
            decreases self.maps@.len() - i,
        {
            let m = &self.maps[i];
            let name = match &m.name {
                Some(n) => Some(n.clone()),
                None => None,
            };
            out.push((m.va, m.data.len() as i32, m.perms, name));
            i += 1;
        }
        out
    }

    fn read_memory(&self, addr: i32, size: i32) -> (r: Option<Vec<u8>>) {
        let ghost s = self.maps@;
        if size < 0 {
            return None;
        }
        if size == 0 {
            let empty: Vec<u8> = Vec::new();
            proof {
                assert(read_bytes(s, addr as int, 0) =~= empty@);
            }
            return Some(empty);
        }
        if addr < 0 {
            proof {
                lemma_outside_unmapped(s, addr as int);
                assert(!perm_at(s, addr as int, MM_READ));
            }
            return None;
        }
        if size > VA_LIMIT - addr {
            proof {
                lemma_outside_unmapped(s, addr + size - 1);
                assert(!perm_at(s, addr + size - 1, MM_READ));
            }
            return None;
        }
        let mut out: Vec<u8> = Vec::new();
        let mut i: i32 = 0;
        while i < size
            invariant
                maps_wf(s),
                s == self.maps@,
                0 <= i <= size,
                0 <= addr,
                addr + size <= VA_LIMIT,
                out@.len() == i,
                forall|a2: int| addr <= a2 < addr + i ==> #[trigger] perm_at(s, a2, MM_READ),
                forall|a2: int| addr <= a2 < addr + i ==> out@[a2 - addr] == #[trigger] byte_at(
                    s,
                    a2,
                ),
            decreases size - i,
        {
            let a = addr + i;
            match find_map_index(&self.maps, a) {
                None => {
                    proof {
                        assert(!perm_at(s, a as int, MM_READ));
                    }
                    return None;
                },
                Some(mi) => {
                    let m = &self.maps[mi];
                    if m.perms & MM_READ != MM_READ {
                        proof {
                            assert(!perm_at(s, a as int, MM_READ));
                        }
                        return None;
                    }
                    let off = (a - m.va) as usize;
                    out.push(m.data[off]);
                    proof {
                        assert(byte_at(s, a as int) == m.data@[a - m.va]);
                        assert(perm_at(s, a as int, MM_READ));
                        assert(out@[i as int] == byte_at(s, a as int));
                    }
                    i += 1;
                },
            }
        }
        proof {
            assert(ok_range(s, addr as int, size as int, MM_READ));
            assert(out@ =~= read_bytes(s, addr as int, size as int));
        }
        Some(out)
    }

    fn write_memory(&mut self, addr: i32, data: &[u8]) -> (r: Result<(), Error>) {
        let ghost s = self.maps@;
        if data.len() == 0 {
            return Ok(());
        }
        if addr < 0 {
            proof {
                lemma_outside_unmapped(s, addr as int);
                assert(!perm_at(s, addr as int, MM_WRITE));
            }
            return Err(
                Error::SegmentationViolation(addr, "write outside any writable map".to_owned()),
            );
        }
        if data.len() > (VA_LIMIT - addr) as usize {
            proof {
                lemma_outside_unmapped(s, addr + data@.len() - 1);
                assert(!perm_at(s, addr + data@.len() - 1, MM_WRITE));
            }
            return Err(
                Error::SegmentationViolation(addr, "write outside any writable map".to_owned()),
            );
        }
        let mut i: usize = 0;
        while i < data.len()
            invariant
                maps_wf(s),
                s == self.maps@,
                *self == *old(self),
                i <= data@.len(),
                0 <= addr,
                addr + data@.len() <= VA_LIMIT,
                forall|a2: int| addr <= a2 < addr + i ==> #[trigger] perm_at(s, a2, MM_WRITE),
            decreases data@.len() - i,
        {
            let a = addr + i as i32;
            match find_map_index(&self.maps, a) {
                None => {
                    proof {
                        assert(!perm_at(s, a as int, MM_WRITE));
                    }
                    return Err(
                        Error::SegmentationViolation(
                            addr,
                            "write outside any writable map".to_owned(),
                        ),
                    );
                },
                Some(mi) => {
                    if self.maps[mi].perms & MM_WRITE != MM_WRITE {
                        proof {
                            assert(!perm_at(s, a as int, MM_WRITE));
                        }
                        return Err(
                            Error::SegmentationViolation(
                                addr,
                                "write outside any writable map".to_owned(),
                            ),
                        );
                    }
                    proof {
                        assert(perm_at(s, a as int, MM_WRITE));
                    }
                },
            }
            i += 1;
        }
        proof {
            assert(ok_range(s, addr as int, data@.len() as int, MM_WRITE));
        }
        let mut i: usize = 0;
        while i < data.len()
            invariant
                maps_wf(self.maps@),
                maps_same_shape(s, self.maps@),
                s == old(self).maps@,
                self.endian == old(self).endian,
                self.psize == old(self).psize,
                self.arch_id == old(self).arch_id,
                self.archs == old(self).archs,
                i <= data@.len(),
                0 <= addr,
                addr + data@.len() <= VA_LIMIT,
                ok_range(s, addr as int, data@.len() as int, MM_WRITE),
                forall|a2: int|
                    addr <= a2 < addr + i ==> #[trigger] byte_at(self.maps@, a2) == data@[a2
                        - addr],
                forall|a: int|
                    has_map_at(s, a) && !(addr <= a < addr + i) ==> #[trigger] byte_at(
                        self.maps@,
                        a,
                    ) == byte_at(s, a),
            decreases data@.len() - i,
        {
            let a = addr + i as i32;
            let ghost cur = self.maps@;
            proof {
                lemma_same_shape(s, cur);
                assert(perm_at(s, a as int, MM_WRITE));
                assert(has_map_at(cur, a as int));
            }
            match find_map_index(&self.maps, a) {
                None => {
                    proof {
                        assert(false);
                    }
                    return Err(
                        Error::SegmentationViolation(
                            addr,
                            "write outside any writable map".to_owned(),
                        ),
                    );
                },
                Some(mi) => {
                    let off = (a - self.maps[mi].va) as usize;
                    let b = data[i];
                    let ghost m_pre = cur[mi as int];
                    self.maps[mi].data[off] = b;
                    proof {
                        lemma_update_byte(cur, self.maps@, mi as int, off as int, b);
                        assert(m_pre.va + off == a as int);
                        assert forall|a2: int|
                            addr <= a2 < addr + i + 1 implies #[trigger] byte_at(self.maps@, a2)
                            == data@[a2 - addr] by {
                            assert(perm_at(s, a2, MM_WRITE));
                            assert(has_map_at(s, a2));
                            assert(has_map_at(cur, a2));
                            if a2 < addr + i {
                                assert(byte_at(cur, a2) == data@[a2 - addr]);
                            }
                        }
                        assert forall|av: int|
                            has_map_at(s, av) && !(addr <= av < addr + i + 1)
                                implies #[trigger] byte_at(self.maps@, av) == byte_at(s, av) by {
                            assert(has_map_at(cur, av));
                            assert(byte_at(cur, av) == byte_at(s, av));
                        }
                    }
                    i += 1;
                },
            }
        }
        proof {
            lemma_same_shape(s, self.maps@);
        }
        Ok(())
    }

    fn protect_memory(&mut self, addr: i32, size: i32, perms: i32) -> (r: Result<(), Error>) {
        let ghost s = self.maps@;
        let mut i: usize = 0;
        while i < self.maps.len()
            invariant
                maps_wf(s),
                s == self.maps@,
                *self == *old(self),
                i <= s.len(),
                forall|j: int|
                    0 <= j < i ==> !((#[trigger] s[j]).va == addr && s[j].data@.len() == size),
            decreases s.len() - i,
        {
            if self.maps[i].va == addr && self.maps[i].data.len() as i32 == size {
                self.maps[i].perms = perms;
                proof {
                    let post = self.maps@;
                    // bases are strictly increasing, so no other map matches
                    assert forall|j: int|
                        0 <= j < s.len() && j != i implies !((#[trigger] s[j]).va == addr
                        && s[j].data@.len() == size) by {
                        if j < i {
                            assert(map_end(s[j]) <= s[i as int].va);
                        } else {
                            assert(map_end(s[i as int]) <= s[j].va);
                        }
                    }
                    assert forall|x: int| 0 <= x < post.len() implies map_wf(
                        #[trigger] post[x],
                    ) by {
                        assert(map_wf(s[x]));
                    }
                    assert forall|x: int, y: int| 0 <= x < y < post.len() implies map_end(
                        #[trigger] post[x],
                    ) <= #[trigger] post[y].va by {
                        assert(map_end(s[x]) <= s[y].va);
                    }
                }
                return Ok(());
            }
            i += 1;
        }
        Err(Error::MapNotFound(addr))
    }

    fn add_memory_map(
        &mut self,
        map_va: i32,
        perms: i32,
        f_name: &str,
        data: Option<&[u8]>,
        align: Option<i32>,
    ) -> (r: Result<i32, Error>) {
        let ghost s = self.maps@;
        let d = match data {
            None => {
                return Err(Error::InvalidState("a memory map needs backing bytes".to_owned()));
            },
            Some(d) => d,
        };
        if d.len() == 0 {
            return Err(Error::InvalidState("a memory map needs backing bytes".to_owned()));
        }
        let a_val: i32 = match align {
            Some(al) => {
                if al <= 0 {
                    return Err(Error::InvalidState("alignment must be positive".to_owned()));
                }
                al
            },
            None => 1,
        };
        if map_va < 0 {
            return Err(Error::InvalidState("map base must be non-negative".to_owned()));
        }
        let rem = map_va % a_val;
        proof {
            assert(0 <= rem <= map_va) by (nonlinear_arith)
                requires
                    map_va >= 0,
                    a_val >= 1,
                    rem == map_va % a_val,
            ;
        }
        let base = map_va - rem;
        proof {
            assert(base as int == aligned_base(map_va as int, align));
        }
        if d.len() > (VA_LIMIT - base) as usize {
            return Err(Error::InvalidState("map does not fit the address space".to_owned()));
        }
        let size = d.len() as i32;
        if !check_range_free(&self.maps, base, size) {
            return Err(Error::InvalidState("map overlaps an existing map".to_owned()));
        }
        let m = MemoryMap {
            va: base,
            perms,
            name: Some(f_name.to_owned()),
            data: vstd::slice::slice_to_vec(d),
        };
        let k = self.insert_sorted(m);
        proof {
            s.insert_ensures(k as int, m);
            let post = self.maps@;
            assert(post[k as int] == m);
            assert forall|j: int| 0 <= j < k implies post[j] == #[trigger] s[j] by {}
            assert forall|j: int| k <= j < s.len() implies post[j + 1] == #[trigger] s[j] by {}
            assert(map_added_at(
                old(self).mem_maps(),
                self.mem_maps(),
                k as int,
                aligned_base(map_va as int, align),
                perms,
                Some(f_name@),
                data->Some_0@,
            ));
        }
        Ok(base)
    }

    fn allocate_memory(&mut self, size: i32, perms: i32, suggest_addr: Option<i32>) -> (r: Result<
        i32,
        Error,
    >) {
        let ghost s = self.maps@;
        if size < 1 {
            return Err(Error::NoValidFreeMemoryFound(size));
        }
        let base: i32 = match suggest_addr {
            Some(sa) => {
                // the caller pins the region: use it or fail
                if sa < 0 || size > VA_LIMIT - sa || !check_range_free(&self.maps, sa, size) {
                    return Err(Error::NoValidFreeMemoryFound(size));
                }
                sa
            },
            None => {
                // first fit: the bottom of the space, then after each map
                if check_range_free(&self.maps, 0, size) {
                    0
                } else {
                    let mut found: i32 = -1;
                    let mut i: usize = 0;
                    while i < self.maps.len() && found < 0
                        invariant
                            maps_wf(s),
                            s == self.maps@,
                            *self == *old(self),
                            size >= 1,
                            i <= s.len(),
                            found >= 0 ==> range_free(s, found as int, size as int),
                            found == -1 || found >= 0,
                            found == -1 ==> !range_free(s, 0, size as int),
                            found == -1 ==> forall|j: int|
                                0 <= j < i ==> !#[trigger] range_free(
                                    s,
                                    map_end(s[j]),
                                    size as int,
                                ),
                        decreases s.len() - i,
                    {
                        proof {
                            assert(map_wf(s[i as int]));
                        }
                        let m = &self.maps[i];
                        let c = m.va + m.data.len() as i32;
                        if size <= VA_LIMIT - c {
                            if check_range_free(&self.maps, c, size) {
                                found = c;
                            } else {
                                proof {
                                    assert(!range_free(s, map_end(s[i as int]), size as int));
                                }
                            }
                        } else {
                            proof {
                                assert(!range_free(s, map_end(s[i as int]), size as int));
                            }
                        }
                        i += 1;
                    }
                    if found < 0 {
                        proof {
                            assert forall|b: int| !#[trigger] range_free(s, b, size as int) by {
                                if range_free(s, b, size as int) {
                                    lemma_free_candidate(s, size as int, b);
                                }
                            }
                        }
                        return Err(Error::NoValidFreeMemoryFound(size));
                    }
                    found
                }
            },
        };
        let k = self.place_zeroed_map(base, size, perms);
        proof {
            assert(map_added_at(
                old(self).mem_maps(),
                self.mem_maps(),
                k as int,
                base as int,
                perms,
                None,
                zero_bytes(size as nat),
            ));
        }
        Ok(base)
    }
}

impl<A: ArchitectureModule> MemoryObject for AddressSpace<A> {

}

/// True iff `post` has the same maps as `pre` at the same places, with the
/// same sizes: only byte contents may differ.
pub open spec fn maps_same_shape(pre: Seq<MemoryMap>, post: Seq<MemoryMap>) -> bool {
    &&& post.len() == pre.len()
    &&& forall|i: int|
        0 <= i < pre.len() ==> {
            let m = #[trigger] pre[i];
            &&& post[i].va == m.va
            &&& post[i].perms == m.perms
            &&& post[i].name == m.name
            &&& post[i].data@.len() == m.data@.len()
        }
}

/// `map_va` rounded down per the alignment policy.
pub open spec fn aligned_base(map_va: int, align: Option<i32>) -> int {
    match align {
        None => map_va,
        Some(a) => if a > 0 {
            map_va - (map_va % (a as int))
        } else {
            map_va
        },
    }
}

/// True iff `[base, base + size)` fits the address space and overlaps no
/// map of `s`.
pub open spec fn range_free(s: Seq<MemoryMap>, base: int, size: int) -> bool {
    &&& 0 <= base
    &&& base + size <= VA_LIMIT
    &&& forall|i: int|
        0 <= i < s.len() ==> (map_end(#[trigger] s[i]) <= base || base + size <= s[i].va)
}

/// True iff some free region of `size` bytes exists anywhere in the space.
pub open spec fn free_region_exists(s: Seq<MemoryMap>, size: int) -> bool {
    exists|b: int| #[trigger] range_free(s, b, size)
}

/// True iff `post` is `pre` with one new map inserted at position `k`:
/// base `va`, permissions `perms`, name viewing as `name`, bytes `bytes`.
pub open spec fn map_added_at(
    pre: Seq<MemoryMap>,
    post: Seq<MemoryMap>,
    k: int,
    va: int,
    perms: i32,
    name: Option<Seq<char>>,
    bytes: Seq<u8>,
) -> bool {
    &&& 0 <= k <= pre.len()
    &&& post.len() == pre.len() + 1
    &&& post[k].va == va
    &&& post[k].perms == perms
    &&& match (post[k].name, name) {
        (Some(n), Some(v)) => n@ == v,
        (None, None) => true,
        _ => false,
    }
    &&& post[k].data@ == bytes
    &&& forall|j: int| 0 <= j < k ==> post[j] == #[trigger] pre[j]
    &&& forall|j: int| k <= j < pre.len() ==> post[j + 1] == #[trigger] pre[j]
}

} // verus!
