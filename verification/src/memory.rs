//! A snapshot of readable process memory and the bounded read primitive on it.
//!
//! The live address space is captured once as a list of regions, each a base
//! address with the bytes that could be read from it. Every later read is a
//! pure function of that snapshot, so scanning and parsing can be specified
//! exactly.

use vstd::prelude::*;

verus! {

/// Why a read transferred nothing.
#[derive(Clone, Copy, Debug, PartialEq, Eq, Structural)]
pub enum ReadError {
    /// The first requested byte is not readable.
    BadAddress,
    /// The read was carried out and transferred no byte.
    Short,
    /// The read primitive failed for another reason.
    Other,
}

/// The error number with which the kernel reports an unreadable address.
pub const EFAULT: i32 = 14;

/// What the raw result of a vector read means: a negative count is a
/// failure, told apart by the error number; a count of zero is a read that
/// moved nothing; any other count is a (possibly short) success.
pub open spec fn spec_classify(nread: int, errno: int) -> Result<usize, ReadError> {
    if nread < 0 {
        if errno == EFAULT {
            Err(ReadError::BadAddress)
        } else {
            Err(ReadError::Other)
        }
    } else if nread == 0 {
        Err(ReadError::Short)
    } else {
        Ok(nread as usize)
    }
}

/// Turns the raw result of the read primitive into a typed outcome.
pub fn classify_read_outcome(nread: isize, errno: i32) -> (r: Result<usize, ReadError>)
    ensures
        r == spec_classify(nread as int, errno as int),
{
    if nread < 0 {
        if errno == EFAULT {
            Err(ReadError::BadAddress)
        } else {
            Err(ReadError::Other)
        }
    } else if nread == 0 {
        Err(ReadError::Short)
    } else {
        Ok(nread as usize)
    }
}

/// A run of readable bytes starting at `base`.
#[derive(Clone, Debug)]
pub struct Region {
    pub base: usize,
    pub bytes: Vec<u8>,
}

/// The mathematical content of a [`Region`].
pub struct RegionView {
    pub base: int,
    pub bytes: Seq<u8>,
}

impl View for Region {
    type V = RegionView;

    open spec fn view(&self) -> RegionView {
        RegionView { base: self.base as int, bytes: self.bytes@ }
    }
}

/// The views of a list of regions, in order.
pub open spec fn region_views(regions: Seq<Region>) -> Seq<RegionView> {
    regions.map_values(|r: Region| r@)
}

/// Whether `addr` lies inside the region.
pub open spec fn holds(r: RegionView, addr: int) -> bool {
    r.base <= addr < r.base + r.bytes.len()
}

/// Regions are ascending, pairwise disjoint and end within the address space.
pub open spec fn image_wf(m: Seq<RegionView>) -> bool {
    &&& forall|i: int|
        0 <= i < m.len() ==> 0 <= (#[trigger] m[i]).base && m[i].base + m[i].bytes.len()
            <= usize::MAX
    &&& forall|i: int, j: int|
        0 <= i < j < m.len() ==> (#[trigger] m[i]).base + m[i].bytes.len() <= (#[trigger] m[j]).base
}

/// Whether some region holds `addr`.
pub open spec fn mapped(m: Seq<RegionView>, addr: int) -> bool {
    exists|i: int| 0 <= i < m.len() && #[trigger] holds(m[i], addr)
}

/// The index of a region that holds `addr` (the only one, in a well-formed
/// image).
pub open spec fn region_of(m: Seq<RegionView>, addr: int) -> int {
    choose|i: int| 0 <= i < m.len() && #[trigger] holds(m[i], addr)
}

/// The byte stored at a mapped address.
pub open spec fn byte_at(m: Seq<RegionView>, addr: int) -> u8 {
    let r = m[region_of(m, addr)];
    r.bytes[addr - r.base]
}

/// How many bytes are readable from a mapped address to the end of its region.
pub open spec fn available(m: Seq<RegionView>, addr: int) -> int {
    let r = m[region_of(m, addr)];
    r.base + r.bytes.len() - addr
}

/// The outcome of reading up to `len` bytes at `addr`.
///
/// A request for nothing moves nothing and is `Short`; an unmapped first
/// byte is `BadAddress`; otherwise the read yields the requested bytes, cut
/// short at the end of the region that holds `addr`.
pub open spec fn read_result(m: Seq<RegionView>, addr: int, len: int) -> Result<
    Seq<u8>,
    ReadError,
> {
    if len <= 0 {
        Err(ReadError::Short)
    } else if !mapped(m, addr) {
        Err(ReadError::BadAddress)
    } else {
        let r = m[region_of(m, addr)];
        let from = addr - r.base;
        let n = if len <= available(m, addr) {
            len
        } else {
            available(m, addr)
        };
        Ok(r.bytes.subrange(from, from + n))
    }
}

/// `n` zero bytes.
pub open spec fn zeros(n: int) -> Seq<u8> {
    Seq::new(
        if n >= 0 {
            n as nat
        } else {
            0
        },
        |i: int| 0u8,
    )
}

/// The outcome of filling a zeroed buffer of `len` bytes from `addr`: a
/// failed read is the failure, a short read leaves the tail zero, and an
/// empty buffer is filled without reading.
pub open spec fn padded_read(m: Seq<RegionView>, addr: int, len: int) -> Result<
    Seq<u8>,
    ReadError,
> {
    if len <= 0 {
        Ok(Seq::empty())
    } else {
        match read_result(m, addr, len) {
            Ok(b) => Ok(b + zeros(len - b.len())),
            Err(e) => Err(e),
        }
    }
}

/// Whether an executable read outcome is the given mathematical one.
pub open spec fn same_read(r: Result<Vec<u8>, ReadError>, s: Result<Seq<u8>, ReadError>) -> bool {
    match (r, s) {
        (Ok(v), Ok(q)) => v@ == q,
        (Err(e), Err(f)) => e == f,
        _ => false,
    }
}

/// In a well-formed image at most one region holds an address.
pub proof fn lemma_region_unique(m: Seq<RegionView>, addr: int, i: int)
    requires
        image_wf(m),
        0 <= i < m.len(),
        holds(m[i], addr),
    ensures
        mapped(m, addr),
        region_of(m, addr) == i,
{
}

/// A snapshot of readable memory: regions in ascending order, none
/// overlapping another.
#[derive(Debug)]
pub struct MemoryImage {
    regions: Vec<Region>,
}

impl View for MemoryImage {
    type V = Seq<RegionView>;

    closed spec fn view(&self) -> Seq<RegionView> {
        region_views(self.regions@)
    }
}

impl MemoryImage {
    #[verifier::type_invariant]
    pub open spec fn inv(self) -> bool {
        image_wf(self@)
    }

    /// Builds an image from regions given in ascending order.
    ///
    /// Returns `None` when the list is not a well-formed image: a region
    /// that runs past the end of the address space, or one that starts
    /// before its predecessor ends.
    pub fn from_regions(regions: Vec<Region>) -> (r: Option<MemoryImage>)
        ensures
            r is Some <==> image_wf(region_views(regions@)),
            r matches Some(img) ==> img@ == region_views(regions@),
    {
        let ghost m = region_views(regions@);
        let n = regions.len();
        let mut floor: usize = 0;
        let mut i: usize = 0;
        while i < n
            invariant
                n == regions.len(),
                m == region_views(regions@),
                i <= n,
                forall|k: int| 0 <= k < i ==> (#[trigger] m[k]).base + m[k].bytes.len() <= floor,
                i == 0 ==> floor == 0,
                i > 0 ==> floor == m[i - 1].base + m[i - 1].bytes.len(),
                image_wf(m.take(i as int)),
            decreases n - i,
        {
            let base = regions[i].base;
            let len = regions[i].bytes.len();
            assert(m[i as int] == regions@[i as int]@);
            if base < floor || len > usize::MAX - base {
                return None;
            }
            floor = base + len;
            i += 1;
        }
        assert(m.take(n as int) == m);
        Some(MemoryImage { regions })
    }

    /// The number of regions.
    pub fn region_count(&self) -> (n: usize)
        ensures
            n == self@.len(),
    {
        self.regions.len()
    }

    /// The index of the region that holds `addr`, by binary search.
    pub fn locate(&self, addr: usize) -> (r: Option<usize>)
        ensures
            r is Some <==> mapped(self@, addr as int),
            r matches Some(i) ==> i == region_of(self@, addr as int) && i < self@.len(),
    {
        proof {
            use_type_invariant(self);
        }
        let ghost m = self@;
        let mut lo: usize = 0;
        let mut hi: usize = self.regions.len();
        while lo < hi
            invariant
                m == self@,
                m == region_views(self.regions@),
                image_wf(m),
                lo <= hi <= m.len(),
                forall|k: int| 0 <= k < lo ==> (#[trigger] m[k]).base + m[k].bytes.len() <= addr,
                forall|k: int| hi <= k < m.len() ==> addr < (#[trigger] m[k]).base,
            decreases hi - lo,
        {
            let mid = lo + (hi - lo) / 2;
            let base = self.regions[mid].base;
            let len = self.regions[mid].bytes.len();
            assert(m[mid as int] == self.regions@[mid as int]@);
            if addr < base {
                hi = mid;
            } else if addr - base >= len {
                lo = mid + 1;
            } else {
                proof {
                    lemma_region_unique(m, addr as int, mid as int);
                }
                return Some(mid);
            }
        }
        None
    }

    /// The byte at `addr`, if it is mapped.
    pub fn byte(&self, addr: usize) -> (r: Option<u8>)
        ensures
            r is Some <==> mapped(self@, addr as int),
            r matches Some(b) ==> b == byte_at(self@, addr as int),
    {
        match self.locate(addr) {
            Some(i) => {
                let region = &self.regions[i];
                Some(region.bytes[addr - region.base])
            },
            None => None,
        }
    }
}

/// The regions after `bytes`, read at `addr`, have been added: they extend
/// the last region where they start at its end, and are a region of their
/// own otherwise.
pub open spec fn with_chunk(m: Seq<RegionView>, addr: int, bytes: Seq<u8>) -> Seq<RegionView> {
    if m.len() > 0 && m.last().base + m.last().bytes.len() == addr {
        m.drop_last().push(RegionView { base: m.last().base, bytes: m.last().bytes + bytes })
    } else {
        m.push(RegionView { base: addr, bytes })
    }
}

/// Adds the bytes that were read at `addr` to a list of regions under
/// construction.
pub fn append_chunk(regions: &mut Vec<Region>, addr: usize, bytes: Vec<u8>)
    ensures
        region_views(final(regions)@) == with_chunk(region_views(old(regions)@), addr as int, bytes@),
{
    let ghost before = region_views(regions@);
    let n = regions.len();
    if n > 0 {
        let last = &regions[n - 1];
        let joins = match last.base.checked_add(last.bytes.len()) {
            Some(end) => end == addr,
            None => false,
        };
        if joins {
            let mut bytes = bytes;
            let ghost added = bytes@;
            match regions.pop() {
                Some(mut last) => {
                    let ghost held = last.bytes@;
                    last.bytes.append(&mut bytes);
                    regions.push(last);
                    assert(region_views(regions@) =~= before.drop_last().push(
                        RegionView { base: before.last().base, bytes: held + added },
                    ));
                },
                None => {},
            }
            return ;
        }
    }
    regions.push(Region { base: addr, bytes });
}

/// Reads up to `len` bytes at `addr` from the snapshot.
pub fn safe_read_memory(mem: &MemoryImage, addr: usize, len: usize) -> (r: Result<
    Vec<u8>,
    ReadError,
>)
    ensures
        same_read(r, read_result(mem@, addr as int, len as int)),
{
    if len == 0 {
        return Err(ReadError::Short);
    }
    match mem.locate(addr) {
        None => Err(ReadError::BadAddress),
        Some(i) => {
            let region = &mem.regions[i];
            let from = addr - region.base;
            let avail = region.bytes.len() - from;
            let n = if len <= avail {
                len
            } else {
                avail
            };
            let mut out: Vec<u8> = Vec::with_capacity(n);
            let mut k: usize = 0;
            while k < n
                invariant
                    k <= n,
                    from + n <= region.bytes.len(),
                    out@ == region.bytes@.subrange(from as int, from + k),
                decreases n - k,
            {
                out.push(region.bytes[from + k]);
                assert(region.bytes@.subrange(from as int, from + k + 1)
                    == region.bytes@.subrange(from as int, from + k).push(
                    region.bytes@[from + k],
                ));
                k += 1;
            }
            Ok(out)
        },
    }
}

/// Fills a zeroed buffer of `len` bytes from `addr`.
pub fn read_padded(mem: &MemoryImage, addr: usize, len: usize) -> (r: Result<Vec<u8>, ReadError>)
    ensures
        same_read(r, padded_read(mem@, addr as int, len as int)),
        r matches Ok(v) ==> v@.len() == len,
{
    if len == 0 {
        return Ok(Vec::new());
    }
    match safe_read_memory(mem, addr, len) {
        Err(e) => Err(e),
        Ok(mut out) => {
            let ghost got = out@;
            while out.len() < len
                invariant
                    got.len() <= out@.len() <= len,
                    out@ == got + zeros(out@.len() - got.len()),
                decreases len - out@.len(),
            {
                out.push(0u8);
            }
            Ok(out)
        },
    }
}

} // verus!
