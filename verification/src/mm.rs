//! Virtual addresses, page numbers, mapping permissions and the per-task record of
//! which virtual pages are mapped.
use crate::config::{PAGE_SIZE, PAGE_SIZE_BITS};
use crate::fs::link_map::LinkMap;
use vstd::prelude::*;

verus! {

broadcast use vstd::laws_eq::group_laws_eq;

/// A virtual address.
#[derive(Clone, Copy, Debug, PartialEq, Eq, Structural)]
pub struct VirtAddr(pub usize);

/// A virtual page number.
#[derive(Clone, Copy, Debug, PartialEq, Eq, Structural)]
pub struct VirtPageNum(pub usize);

/// A physical page number.
#[derive(Clone, Copy, Debug, PartialEq, Eq, Structural)]
pub struct PhysPageNum(pub usize);

/// A physical address.
#[derive(Clone, Copy, Debug, PartialEq, Eq, Structural)]
pub struct PhysAddr(pub usize);

/// The page that holds address `a`.
pub open spec fn floor_page(a: int) -> int {
    a / (PAGE_SIZE as int)
}

/// The first page boundary at or above address `a`, as a page number.
pub open spec fn ceil_page(a: int) -> int {
    (a + PAGE_SIZE - 1) / (PAGE_SIZE as int)
}

impl VirtAddr {
    /// The offset of the address inside its page.
    pub fn page_offset(&self) -> (r: usize)
        ensures
            r == self.0 % PAGE_SIZE,
    {
        self.0 % PAGE_SIZE
    }

    /// The page that holds the address.
    pub fn floor(&self) -> (r: VirtPageNum)
        ensures
            r.0 == floor_page(self.0 as int),
    {
        VirtPageNum(self.0 / PAGE_SIZE)
    }

    /// The first page that starts at or above the address.
    pub fn ceil(&self) -> (r: VirtPageNum)
        requires
            self.0 + PAGE_SIZE - 1 <= usize::MAX,
        ensures
            r.0 == ceil_page(self.0 as int),
    {
        if self.0 == 0 {
            VirtPageNum(0)
        } else {
            VirtPageNum((self.0 - 1 + PAGE_SIZE) / PAGE_SIZE)
        }
    }
}

impl From<VirtPageNum> for VirtAddr {
    /// The address at which page `v` starts.
    fn from(v: VirtPageNum) -> (r: VirtAddr) {
        VirtAddr(v.0 << PAGE_SIZE_BITS)
    }
}

impl vstd::std_specs::convert::FromSpecImpl<VirtPageNum> for VirtAddr {
    open spec fn obeys_from_spec() -> bool {
        true
    }

    open spec fn from_spec(v: VirtPageNum) -> VirtAddr {
        VirtAddr(v.0 << PAGE_SIZE_BITS)
    }
}

/// Shifting a page number that fits gives its start address.
pub proof fn lemma_page_shift(n: usize)
    requires
        n * PAGE_SIZE <= usize::MAX,
    ensures
        n << PAGE_SIZE_BITS == n * PAGE_SIZE,
{
    vstd::arithmetic::power2::lemma2_to64();
    vstd::bits::lemma_usize_shl_is_mul(n, 12);
}

impl PhysPageNum {
    /// The physical address of byte `offset` of the page.
    pub fn addr_at(self, offset: usize) -> (r: PhysAddr)
        requires
            offset < PAGE_SIZE,
            self.0 * PAGE_SIZE + offset <= usize::MAX,
        ensures
            r.0 == self.0 * PAGE_SIZE + offset,
    {
        proof {
            lemma_page_shift(self.0);
        }
        PhysAddr((self.0 << PAGE_SIZE_BITS) + offset)
    }
}

/// The flags a mapped page carries: readable, writable, executable, user-accessible.
#[derive(Clone, Copy, Debug, PartialEq, Eq, Structural)]
pub struct MapPermission {
    pub bits: u8,
}

/// Bit of a readable page.
pub const MAP_R: u8 = 2;

/// Bit of a writable page.
pub const MAP_W: u8 = 4;

/// Bit of an executable page.
pub const MAP_X: u8 = 8;

/// Bit of a page that user code may touch.
pub const MAP_U: u8 = 16;

/// The bits that a permission may hold.
pub const MAP_ALL: u8 = 30;

impl MapPermission {
    /// The permission with exactly `bits`, where `bits` names only known flags.
    pub fn from_bits(bits: u8) -> (r: Option<MapPermission>)
        ensures
            r == (if bits & !MAP_ALL == 0 {
                Some(MapPermission { bits })
            } else {
                None::<MapPermission>
            }),
    {
        if bits & !MAP_ALL == 0 {
            Some(MapPermission { bits })
        } else {
            None
        }
    }

    /// The raw flag bits.
    pub fn bits(&self) -> (r: u8)
        ensures
            r == self.bits,
    {
        self.bits
    }
}

/// The permission that an mmap protection word asks for: bit 0 reads, bit 1 writes,
/// bit 2 executes; user access is always granted.
pub open spec fn port_permission(port: usize) -> MapPermission {
    MapPermission { bits: (2 * (port % 8) + 16) as u8 }
}

/// Turns an mmap protection word into the permission of the pages it maps.
pub fn permission_from_port(port: usize) -> (r: MapPermission)
    ensures
        r == port_permission(port),
{
    let r: u8 = if port & 0x1 != 0 {
        MAP_R
    } else {
        0
    };
    let w: u8 = if port & 0x2 != 0 {
        MAP_W
    } else {
        0
    };
    let x: u8 = if port & 0x4 != 0 {
        MAP_X
    } else {
        0
    };
    let permission: u8 = r | w | x | MAP_U;
    proof {
        let p = port;
        assert(permission == (2 * (p % 8) + 16) as u8 && permission & !30u8 == 0) by (bit_vector)
            requires
                r == (if p & 1 != 0 {
                    2u8
                } else {
                    0u8
                }),
                w == (if p & 2 != 0 {
                    4u8
                } else {
                    0u8
                }),
                x == (if p & 4 != 0 {
                    8u8
                } else {
                    0u8
                }),
                permission == r | w | x | 16u8,
        ;
    }
    let perm = MapPermission::from_bits(permission);
    perm.unwrap()
}

/// Every page in `[start, end)` is mapped in `m`.
pub open spec fn range_mapped(m: Map<usize, MapPermission>, start: int, end: int) -> bool {
    forall|vpn: usize| start <= vpn < end ==> #[trigger] m.dom().contains(vpn)
}

/// No page in `[start, end)` is mapped in `m`.
pub open spec fn range_unmapped(m: Map<usize, MapPermission>, start: int, end: int) -> bool {
    forall|vpn: usize| start <= vpn < end ==> !#[trigger] m.dom().contains(vpn)
}

/// `m` with every page in `[start, end)` mapped with `perm`.
pub open spec fn map_range(
    m: Map<usize, MapPermission>,
    start: int,
    end: int,
    perm: MapPermission,
) -> Map<usize, MapPermission> {
    Map::new(
        |vpn: usize| m.dom().contains(vpn) || start <= vpn < end,
        |vpn: usize|
            if start <= vpn < end {
                perm
            } else {
                m[vpn]
            },
    )
}

/// `m` with every page in `[start, end)` unmapped.
pub open spec fn unmap_range(m: Map<usize, MapPermission>, start: int, end: int) -> Map<
    usize,
    MapPermission,
> {
    Map::new(|vpn: usize| m.dom().contains(vpn) && !(start <= vpn < end), |vpn: usize| m[vpn])
}

/// The virtual pages of one address space and the permission of each.
pub struct MemorySet {
    pages: LinkMap<usize, MapPermission>,
}

impl View for MemorySet {
    type V = Map<usize, MapPermission>;

    closed spec fn view(&self) -> Map<usize, MapPermission> {
        self.pages@
    }
}

impl MemorySet {
    /// An address space with nothing mapped.
    pub fn new_bare() -> (r: Self)
        ensures
            r@ == Map::<usize, MapPermission>::empty(),
    {
        MemorySet { pages: LinkMap::new() }
    }

    /// Whether page `vpn` is mapped.
    pub fn is_mapped(&self, vpn: VirtPageNum) -> (r: bool)
        ensures
            r == self@.dom().contains(vpn.0),
    {
        self.pages.get(&vpn.0).is_some()
    }

    /// The permission of page `vpn`, if it is mapped.
    pub fn permission(&self, vpn: VirtPageNum) -> (r: Option<MapPermission>)
        ensures
            r == (if self@.dom().contains(vpn.0) {
                Some(self@[vpn.0])
            } else {
                None::<MapPermission>
            }),
    {
        match self.pages.get(&vpn.0) {
            Some(p) => Some(*p),
            None => None,
        }
    }

    /// Maps the pages `[start, end)` with `permission`, or returns -1 and changes
    /// nothing where one of them is mapped already.
    pub fn insert_pages(&mut self, start: VirtPageNum, end: VirtPageNum, permission: MapPermission) -> (r: isize)
        ensures
            range_unmapped(old(self)@, start.0 as int, end.0 as int) ==> r == 0 && final(self)@
                == map_range(old(self)@, start.0 as int, end.0 as int, permission),
            !range_unmapped(old(self)@, start.0 as int, end.0 as int) ==> r == -1 && final(self)@
                == old(self)@,
    {
        let mut vpn = start.0;
        while vpn < end.0
            invariant
                start.0 <= vpn,
                self@ == old(self)@,
                range_unmapped(self@, start.0 as int, vpn as int),
            decreases end.0 - vpn,
        {
            if self.pages.get(&vpn).is_some() {
                return -1;
            }
            vpn = vpn + 1;
        }
        let mut vpn = start.0;
        while vpn < end.0
            invariant
                start.0 <= vpn,
                vpn <= end.0 || vpn == start.0,
                range_unmapped(old(self)@, start.0 as int, end.0 as int),
                self@ == map_range(old(self)@, start.0 as int, vpn as int, permission),
            decreases end.0 - vpn,
        {
            self.pages.insert(vpn, permission);
            assert(self@ =~= map_range(old(self)@, start.0 as int, vpn + 1, permission));
            vpn = vpn + 1;
        }
        assert(map_range(old(self)@, start.0 as int, vpn as int, permission) =~= map_range(
            old(self)@,
            start.0 as int,
            end.0 as int,
            permission,
        ));
        0
    }

    /// Unmaps the pages `[start, end)`, or returns -1 and changes nothing where one of
    /// them is not mapped.
    pub fn remove_pages(&mut self, start: VirtPageNum, end: VirtPageNum) -> (r: isize)
        ensures
            range_mapped(old(self)@, start.0 as int, end.0 as int) ==> r == 0 && final(self)@
                == unmap_range(old(self)@, start.0 as int, end.0 as int),
            !range_mapped(old(self)@, start.0 as int, end.0 as int) ==> r == -1 && final(self)@
                == old(self)@,
    {
        let mut vpn = start.0;
        while vpn < end.0
            invariant
                start.0 <= vpn,
                self@ == old(self)@,
                range_mapped(self@, start.0 as int, vpn as int),
            decreases end.0 - vpn,
        {
            if self.pages.get(&vpn).is_none() {
                return -1;
            }
            vpn = vpn + 1;
        }
        let mut vpn = start.0;
        while vpn < end.0
            invariant
                start.0 <= vpn,
                vpn <= end.0 || vpn == start.0,
                range_mapped(old(self)@, start.0 as int, end.0 as int),
                self@ == unmap_range(old(self)@, start.0 as int, vpn as int),
            decreases end.0 - vpn,
        {
            let _ = self.pages.remove(&vpn);
            assert(self@ =~= unmap_range(old(self)@, start.0 as int, vpn + 1));
            vpn = vpn + 1;
        }
        assert(unmap_range(old(self)@, start.0 as int, vpn as int) =~= unmap_range(
            old(self)@,
            start.0 as int,
            end.0 as int,
        ));
        0
    }

    /// Maps the pages that cover `[start_va, end_va)` with `permission`; -1 where one
    /// of them is mapped already, with nothing changed.
    pub fn insert_framed_area(&mut self, start_va: VirtAddr, end_va: VirtAddr, permission: MapPermission) -> (r: isize)
        requires
            end_va.0 + PAGE_SIZE - 1 <= usize::MAX,
        ensures
            ({
                let s = floor_page(start_va.0 as int);
                let e = ceil_page(end_va.0 as int);
                &&& range_unmapped(old(self)@, s, e) ==> r == 0 && final(self)@ == map_range(
                    old(self)@,
                    s,
                    e,
                    permission,
                )
                &&& !range_unmapped(old(self)@, s, e) ==> r == -1 && final(self)@ == old(self)@
            }),
    {
        let start = start_va.floor();
        let end = end_va.ceil();
        self.insert_pages(start, end, permission)
    }

    /// Unmaps the pages that cover `[start_va, end_va)`; -1 where one of them is not
    /// mapped, with nothing changed.
    pub fn remove_by_given(&mut self, start_va: VirtAddr, end_va: VirtAddr) -> (r: isize)
        requires
            end_va.0 + PAGE_SIZE - 1 <= usize::MAX,
        ensures
            ({
                let s = floor_page(start_va.0 as int);
                let e = ceil_page(end_va.0 as int);
                &&& range_mapped(old(self)@, s, e) ==> r == 0 && final(self)@ == unmap_range(
                    old(self)@,
                    s,
                    e,
                )
                &&& !range_mapped(old(self)@, s, e) ==> r == -1 && final(self)@ == old(self)@
            }),
    {
        let start = start_va.floor();
        let end = end_va.ceil();
        self.remove_pages(start, end)
    }
}

/// Mapping a range of free pages and then unmapping the same range gives back the
/// address space that was there before.
pub proof fn law_map_then_unmap(m: Map<usize, MapPermission>, start: int, end: int, perm: MapPermission)
    requires
        range_unmapped(m, start, end),
    ensures
        range_mapped(map_range(m, start, end, perm), start, end),
        unmap_range(map_range(m, start, end, perm), start, end) == m,
{
    let m2 = unmap_range(map_range(m, start, end, perm), start, end);
    assert forall|vpn: usize| #[trigger] m2.dom().contains(vpn) <==> m.dom().contains(vpn) by {
        if start <= vpn < end {
            assert(!m.dom().contains(vpn));
        }
    }
    assert(m2 =~= m);
}

/// Once a non-empty range is mapped, mapping any page of it again fails, and so does
/// unmapping a range that reaches outside what is mapped.
pub proof fn law_mapped_range_is_taken(m: Map<usize, MapPermission>, start: int, end: int, perm: MapPermission)
    requires
        start < end,
        0 <= start,
        end <= usize::MAX + 1,
    ensures
        !range_unmapped(map_range(m, start, end, perm), start, end),
        !range_mapped(unmap_range(m, start, end), start, end),
{
    let v = start as usize;
    assert(map_range(m, start, end, perm).dom().contains(v));
    assert(!unmap_range(m, start, end).dom().contains(v));
}

/// Pages mapped for a protection word are readable, writable and executable exactly
/// as its three low bits ask, and always open to user code.
pub proof fn law_port_permission(port: usize)
    ensures
        (port_permission(port).bits & MAP_R != 0) == (port & 1 != 0),
        (port_permission(port).bits & MAP_W != 0) == (port & 2 != 0),
        (port_permission(port).bits & MAP_X != 0) == (port & 4 != 0),
        port_permission(port).bits & MAP_U != 0,
        port_permission(port).bits & !MAP_ALL == 0,
{
    let b = port_permission(port).bits;
    assert(((b & 2 != 0) == (port & 1 != 0)) && ((b & 4 != 0) == (port & 2 != 0)) && ((b & 8
        != 0) == (port & 4 != 0)) && (b & 16 != 0) && (b & !30u8 == 0)) by (bit_vector)
        requires
            b == (2 * (port % 8) + 16) as u8,
    ;
}

/// How many pages the bytes `[va, va + len)` touch.
pub open spec fn pages_touched(va: int, len: int) -> int {
    if len == 0 {
        0
    } else {
        (va + len - 1) / (PAGE_SIZE as int) - va / (PAGE_SIZE as int) + 1
    }
}

/// Where the part of `[va, ..)` on its `k`-th page begins.
pub open spec fn segment_start(va: int, k: int) -> int {
    if k == 0 {
        va
    } else {
        (va / (PAGE_SIZE as int) + k) * PAGE_SIZE
    }
}

/// Where the part of `[va, va + len)` on its `k`-th page ends.
pub open spec fn segment_end(va: int, len: int, k: int) -> int {
    let page_end = (va / (PAGE_SIZE as int) + k + 1) * PAGE_SIZE;
    if va + len < page_end {
        va + len
    } else {
        page_end
    }
}

/// The physical place and length of the part of `[va, va + len)` on its `k`-th page,
/// which lives in frame `frames[k]`.
pub open spec fn segment(va: int, len: int, frames: Seq<PhysPageNum>, k: int) -> (usize, usize) {
    (
        (frames[k].0 * PAGE_SIZE + segment_start(va, k) % (PAGE_SIZE as int)) as usize,
        (segment_end(va, len, k) - segment_start(va, k)) as usize,
    )
}

/// Splits the user buffer `[va, va + len)` into one physical segment per page it
/// touches, given the frame of each of those pages in order: segment `k` is where the
/// bytes on the buffer's `k`-th page live.
pub fn user_segments(va: usize, len: usize, frames: &Vec<PhysPageNum>) -> (r: Vec<(usize, usize)>)
    requires
        va + len + PAGE_SIZE <= usize::MAX,
        frames.len() >= pages_touched(va as int, len as int),
        forall|k: int|
            0 <= k < frames.len() ==> #[trigger] frames@[k].0 * PAGE_SIZE + PAGE_SIZE <= usize::MAX,
    ensures
        r.len() == pages_touched(va as int, len as int),
        forall|k: int|
            0 <= k < r.len() ==> #[trigger] r@[k] == segment(va as int, len as int, frames@, k),
{
    let mut r: Vec<(usize, usize)> = Vec::new();
    if len == 0 {
        return r;
    }
    let p0 = va / PAGE_SIZE;
    let last = (va + len - 1) / PAGE_SIZE;
    proof {
        assert(p0 * 4096 <= va && last * 4096 <= va + len - 1 && p0 <= last) by (nonlinear_arith)
            requires
                p0 == va / 4096,
                last == (va + len - 1) / 4096,
                len > 0,
        ;
    }
    let n = last - p0 + 1;
    let mut k: usize = 0;
    while k < n
        invariant
            len > 0,
            va + len + PAGE_SIZE <= usize::MAX,
            p0 == va / PAGE_SIZE,
            last == (va + len - 1) / (PAGE_SIZE as int),
            p0 * PAGE_SIZE <= va,
            last * PAGE_SIZE <= va + len - 1,
            n == last - p0 + 1,
            n == pages_touched(va as int, len as int),
            frames.len() >= n,
            forall|k: int|
                0 <= k < frames.len() ==> #[trigger] frames@[k].0 * PAGE_SIZE + PAGE_SIZE
                    <= usize::MAX,
            0 <= k <= n,
            r.len() == k,
            forall|j: int| 0 <= j < k ==> #[trigger] r@[j] == segment(va as int, len as int, frames@, j),
        decreases n - k,
    {
        let page_end = (p0 + k + 1) * PAGE_SIZE;
        let start = if k == 0 {
            va
        } else {
            (p0 + k) * PAGE_SIZE
        };
        let end = if va + len < page_end {
            va + len
        } else {
            page_end
        };
        proof {
            assert(start <= end);
        }
        let f = frames[k].0;
        let pa = f * PAGE_SIZE + start % PAGE_SIZE;
        r.push((pa, end - start));
        k = k + 1;
    }
    r
}

/// The segments tile the buffer: the first starts at `va`, each ends where the next
/// starts, the last ends at `va + len`; and every byte `va + b` lies in segment
/// `(va + b) / PAGE_SIZE - va / PAGE_SIZE`, at its own address's offset in that
/// segment's frame.
pub proof fn law_each_byte_in_its_frame(va: int, len: int, frames: Seq<PhysPageNum>, b: int)
    requires
        0 <= va,
        0 <= b < len,
    ensures
        ({
            let p = PAGE_SIZE as int;
            let k = (va + b) / p - va / p;
            let n = pages_touched(va, len);
            &&& 0 <= k < n
            &&& segment_start(va, k) <= va + b < segment_end(va, len, k)
            &&& segment_start(va, k) % p + (va + b - segment_start(va, k)) == (va + b) % p
            &&& segment_start(va, 0) == va
            &&& segment_end(va, len, n - 1) == va + len
            &&& forall|j: int| 0 <= j < n - 1 ==> #[trigger] segment_end(va, len, j) == segment_start(va, j + 1)
        }),
{
    let p = 4096int;
    let q = va / p;
    let x = va + b;
    let qx = x / p;
    let last = (va + len - 1) / p;
    assert(q * p <= va < q * p + p && qx * p <= x < qx * p + p && last * p <= va + len - 1 < last * p + p)
        by (nonlinear_arith)
        requires
            q == va / p,
            qx == x / p,
            last == (va + len - 1) / p,
            p == 4096,
            va >= 0,
            x >= 0,
            len > 0,
    ;
    assert(q <= qx <= last);
    let k = qx - q;
    assert(x % p == x - qx * p);
    if k > 0 {
        assert((q + k) * p == qx * p) by (nonlinear_arith)
            requires
                k == qx - q,
        ;
        assert(segment_start(va, k) == qx * p);
        assert((qx * p) % p == 0) by (nonlinear_arith)
            requires
                p == 4096,
        ;
    } else {
        assert(va % p == va - q * p);
    }
    assert((q + k + 1) * p == qx * p + p) by (nonlinear_arith)
        requires
            k == qx - q,
    ;
    let n = pages_touched(va, len);
    assert((q + (n - 1) + 1) * p == last * p + p) by (nonlinear_arith)
        requires
            n == last - q + 1,
    ;
    assert forall|j: int| 0 <= j < n - 1 implies #[trigger] segment_end(va, len, j) == segment_start(
        va,
        j + 1,
    ) by {
        assert((q + j + 1) * p <= last * p) by (nonlinear_arith)
            requires
                j < n - 1,
                n == last - q + 1,
                p > 0,
        ;
    }
}

/// Every page of `[start, end)` is mapped in `m` exactly when `range_mapped` says so.
pub proof fn law_range_mapped_pages(m: Map<usize, MapPermission>, start: int, end: int)
    ensures
        range_mapped(m, start, end) <==> forall|v: usize|
            start <= v < end ==> #[trigger] m.dom().contains(v),
{
}

/// No page of `[start, end)` is mapped in `m` exactly when `range_unmapped` says so.
pub proof fn law_range_unmapped_pages(m: Map<usize, MapPermission>, start: int, end: int)
    ensures
        range_unmapped(m, start, end) <==> forall|v: usize|
            start <= v < end ==> !#[trigger] m.dom().contains(v),
{
}

/// Mapping `[start, end)` with `perm` maps each of those pages with exactly `perm` and
/// leaves every other page as it was.
pub proof fn law_map_range_pages(
    m: Map<usize, MapPermission>,
    start: int,
    end: int,
    perm: MapPermission,
    v: usize,
)
    ensures
        start <= v < end ==> map_range(m, start, end, perm).dom().contains(v) && map_range(
            m,
            start,
            end,
            perm,
        )[v] == perm,
        !(start <= v < end) ==> map_range(m, start, end, perm).dom().contains(v)
            == m.dom().contains(v),
        !(start <= v < end) && m.dom().contains(v) ==> map_range(m, start, end, perm)[v]
            == m[v],
{
}

/// Unmapping `[start, end)` leaves none of those pages mapped and every other page as
/// it was.
pub proof fn law_unmap_range_pages(m: Map<usize, MapPermission>, start: int, end: int, v: usize)
    ensures
        start <= v < end ==> !unmap_range(m, start, end).dom().contains(v),
        !(start <= v < end) ==> unmap_range(m, start, end).dom().contains(v)
            == m.dom().contains(v),
        !(start <= v < end) && m.dom().contains(v) ==> unmap_range(m, start, end)[v] == m[v],
{
}

/// `floor_page` is the page that holds an address; `ceil_page` the first page boundary
/// at or above it.
pub proof fn law_page_rounding(a: int)
    requires
        a >= 0,
    ensures
        floor_page(a) * PAGE_SIZE <= a < floor_page(a) * PAGE_SIZE + PAGE_SIZE,
        ceil_page(a) * PAGE_SIZE >= a,
        ceil_page(a) * PAGE_SIZE < a + PAGE_SIZE,
{
    let f = floor_page(a);
    let c = ceil_page(a);
    assert(f * 4096 <= a < f * 4096 + 4096 && c * 4096 >= a && c * 4096 < a + 4096)
        by (nonlinear_arith)
        requires
            f == a / 4096,
            c == (a + 4095) / 4096,
            a >= 0,
    ;
}

/// Byte `va + b` of the buffer lies inside its page's segment, at the physical address
/// of its own page offset in that page's frame.
pub proof fn law_byte_physical_address(va: int, len: int, frames: Seq<PhysPageNum>, b: int)
    requires
        0 <= va,
        0 <= b < len,
        va + len + PAGE_SIZE <= usize::MAX,
        (va + b) / (PAGE_SIZE as int) - va / (PAGE_SIZE as int) < frames.len(),
        frames[(va + b) / (PAGE_SIZE as int) - va / (PAGE_SIZE as int)].0 * PAGE_SIZE
            + PAGE_SIZE <= usize::MAX,
    ensures
        ({
            let p = PAGE_SIZE as int;
            let k = (va + b) / p - va / p;
            let seg = segment(va, len, frames, k);
            &&& va + b - segment_start(va, k) < seg.1
            &&& seg.0 + (va + b - segment_start(va, k)) == frames[k].0 * PAGE_SIZE + (va + b) % p
        }),
{
    law_each_byte_in_its_frame(va, len, frames, b);
    let p = 4096int;
    let k = (va + b) / p - va / p;
    let st = segment_start(va, k);
    assert(0 <= st % p < p);
    assert(st <= va + len);
}

} // verus!
