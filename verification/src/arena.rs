//! The bump allocator itself.
//!
//! An [`Arena`] owns or borrows one contiguous content region and a single
//! bump cursor. Allocation moves the cursor downward from the end of the
//! region toward its start; when an owned arena runs out of room it replaces
//! the whole region with a fresh, larger one, keeping the allocated bytes at
//! the same distance from the end so that previously issued references stay
//! valid. A borrowed arena cannot grow and reports exhaustion instead.

use vstd::prelude::*;

use crate::arena_ref::ArenaRefMut;
use crate::arena_ref::RefModel;

verus! {

use vstd::arithmetic::div_mod::lemma_div_pos_is_pos;
use vstd::arithmetic::div_mod::lemma_fundamental_div_mod;
use vstd::arithmetic::div_mod::lemma_mod_multiples_basic;

/// Largest number of content bytes an arena may manage.
///
/// Capacity and cursor are kept within 32 bits so that references and the
/// persisted form of an arena stay portable between 32-bit and 64-bit hosts.
pub const MAX_CONTENT_LEN: u64 = 0xFFFF_FFFF;

/// Why an allocation request could not be satisfied.
#[derive(Clone, Copy, Debug, PartialEq, Eq, Structural)]
pub enum AllocFailed {
    /// A borrowed arena was exhausted; it cannot grow memory it does not own.
    MaxCapacityExceeded,
    /// An owned arena could not obtain a large enough replacement region.
    OsAllocFailed,
}

/// Whether the arena must release its content region itself.
#[derive(Clone, Copy, Debug, PartialEq, Eq, Structural)]
pub enum Storage {
    /// The arena is the sole owner of its region and releases it on drop.
    Owned,
    /// The region belongs to an external owner; the arena cannot grow it.
    Borrowed,
    /// No content region has been attached yet.
    Uninitialized,
}

/// Bump-pointer bookkeeping: how large the content region is and how much
/// of it has been handed out. Both are 64-bit so that persisted arena state
/// reads the same on 32-bit and 64-bit hosts.
struct Header {
    capacity: u64,
    len: u64,
}

/// One issued allocation, as the specification remembers it.
pub ghost struct AllocRecord {
    /// Distance from the end of the content region to the start of the range.
    pub back: nat,
    /// Number of bytes requested.
    pub len: nat,
    /// Alignment requested.
    pub align: nat,
    /// The arena's capacity at the moment the allocation was made.
    pub cap_at_issue: nat,
}

/// The mathematical state of an arena.
pub ghost struct ArenaModel {
    /// Who is responsible for the content region.
    pub storage: Storage,
    /// Total content bytes available.
    pub capacity: nat,
    /// Content bytes handed out so far, measured from the end of the region.
    pub used: nat,
    /// The whole content region.
    pub bytes: Seq<u8>,
    /// Every allocation issued against the current region, oldest first.
    pub issued: Seq<AllocRecord>,
}

/// Largest value `x` no greater than `x` that is a multiple of `align`.
pub open spec fn align_down(x: int, align: int) -> int {
    (x / align) * align
}

impl ArenaModel {
    /// Bytes still free for allocation.
    pub open spec fn free(self) -> int {
        self.capacity - self.used
    }

    /// The allocated suffix of the content region.
    pub open spec fn used_bytes(self) -> Seq<u8> {
        self.bytes.subrange(self.capacity - self.used, self.capacity as int)
    }

    /// First byte position of issued allocation `i`, from the region start.
    pub open spec fn record_start(self, i: int) -> int {
        self.capacity - self.issued[i].back
    }

    /// One-past-last byte position of issued allocation `i`.
    pub open spec fn record_end(self, i: int) -> int {
        self.record_start(i) + self.issued[i].len
    }

    /// An issued allocation lies inside the allocated suffix and was aligned
    /// when it was made.
    pub open spec fn record_ok(self, rec: AllocRecord) -> bool {
        &&& rec.len <= rec.back <= self.used
        &&& 1 <= rec.align
        &&& rec.back <= rec.cap_at_issue <= self.capacity
        &&& (rec.cap_at_issue - rec.back) % (rec.align as int) == 0
    }

    /// Well-formedness of the arena state.
    pub open spec fn inv(self) -> bool {
        &&& self.used <= self.capacity <= MAX_CONTENT_LEN
        &&& self.bytes.len() == self.capacity
        &&& (self.storage == Storage::Uninitialized ==> self.capacity == 0 && self.used == 0)
        &&& (forall|i: int|
            0 <= i < self.issued.len() ==> #[trigger] self.record_ok(self.issued[i]))
        &&& (forall|i: int, j: int|
            #![trigger self.issued[i], self.issued[j]]
            0 <= i < j < self.issued.len() ==> self.issued[i].back + self.issued[j].len
                <= self.issued[j].back)
    }

    /// Whether `size` more bytes fit into the region as it stands.
    pub open spec fn fits(self, size: nat) -> bool {
        size <= self.free()
    }

    /// Whether an allocation of `size` bytes can be satisfied, growing if the
    /// arena may grow.
    pub open spec fn can_alloc(self, size: nat) -> bool {
        self.fits(size) || (self.storage != Storage::Borrowed && self.used + size
            <= MAX_CONTENT_LEN)
    }

    /// Capacity of the replacement region chosen when growth is needed for a
    /// request of `size` bytes: half again as much as strictly necessary, to
    /// amortize future growth, capped at the representable ceiling.
    pub open spec fn grow_target(self, size: nat) -> nat {
        let required = self.used + size;
        if required + required / 2 > MAX_CONTENT_LEN {
            MAX_CONTENT_LEN as nat
        } else {
            required + required / 2
        }
    }

    /// The bytes covered by a reference of shape `rm`.
    pub open spec fn range_bytes(self, rm: RefModel) -> Seq<u8> {
        self.bytes.subrange(self.capacity - rm.back, self.capacity - rm.back + rm.len)
    }

    /// `self` is `o` with at most the bytes in `[lo, hi)` changed; the
    /// bookkeeping did not move.
    pub open spec fn writes_only(self, o: ArenaModel, lo: int, hi: int) -> bool {
        &&& self.storage == o.storage
        &&& self.capacity == o.capacity
        &&& self.used == o.used
        &&& self.issued == o.issued
        &&& self.bytes.len() == o.bytes.len()
        &&& forall|k: int|
            0 <= k < self.bytes.len() && !(lo <= k < hi) ==> #[trigger] self.bytes[k] == o.bytes[k]
    }

    /// `self` still holds every byte that `earlier` had handed out, at the
    /// same distance from the end of the region, and remembers the same
    /// issued allocations.
    pub open spec fn retains(self, earlier: ArenaModel) -> bool {
        &&& earlier.used <= self.used
        &&& earlier.capacity <= self.capacity
        &&& self.bytes.subrange(self.capacity - earlier.used, self.capacity as int)
            == earlier.used_bytes()
        &&& earlier.issued.is_prefix_of(self.issued)
    }

    /// Everything a successful allocation promises: the earlier state `o`
    /// became `self`, and the returned reference has shape `rm`.
    pub open spec fn alloc_result(self, o: ArenaModel, rm: RefModel, size: nat, align: nat)
        -> bool {
        &&& rm.len == size
        &&& rm.back == self.used
        &&& self.used == self.capacity - align_down(self.capacity - o.used - size, align as int)
        &&& o.used + size <= self.used < o.used + size + align
        &&& (self.capacity - rm.back) % (align as int) == 0
        &&& self.issued == o.issued.push(
            AllocRecord {
                back: rm.back,
                len: size,
                align: align,
                cap_at_issue: self.capacity,
            },
        )
        &&& (o.fits(size) ==> self.capacity == o.capacity && self.storage == o.storage
            && self.bytes == o.bytes)
        &&& (!o.fits(size) ==> self.storage == Storage::Owned && self.capacity
            == o.grow_target(size) && o.used + size <= self.capacity)
    }
}

/// The bump allocator. See the crate documentation for the overall design.
pub struct Arena {
    storage: Storage,
    header: Header,
    content: Vec<u8>,
    issued: Ghost<Seq<AllocRecord>>,
}

impl View for Arena {
    type V = ArenaModel;

    closed spec fn view(&self) -> ArenaModel {
        ArenaModel {
            storage: self.storage,
            capacity: self.header.capacity as nat,
            used: self.header.len as nat,
            bytes: self.content@,
            issued: self.issued@,
        }
    }
}

impl Arena {
    /// The arena is in a state every operation may rely on.
    pub open spec fn wf(self) -> bool {
        self@.inv()
    }

    /// An empty arena with no backing region attached.
    pub fn new() -> (a: Arena)
        ensures
            a.wf(),
            a@.storage == Storage::Uninitialized,
            a@.capacity == 0,
            a@.used == 0,
            a@.issued.len() == 0,
    {
        Arena {
            storage: Storage::Uninitialized,
            header: Header { capacity: 0, len: 0 },
            content: Vec::new(),
            issued: Ghost(Seq::empty()),
        }
    }

    /// An owned arena over a fresh region of exactly `capacity` bytes.
    ///
    /// The region provider may in general grant more than was asked for; this
    /// arena records whatever was granted, and it grants requests exactly.
    /// Capacities beyond [`MAX_CONTENT_LEN`] are not representable in the
    /// portable reference and persistence format, so the caller must stay
    /// below that ceiling.
    pub fn with_capacity(capacity: u64) -> (a: Arena)
        requires
            capacity <= MAX_CONTENT_LEN,
        ensures
            a.wf(),
            a@.storage == Storage::Owned,
            a@.capacity == capacity,
            a@.used == 0,
            a@.issued.len() == 0,
            forall|i: int| 0 <= i < a@.bytes.len() ==> a@.bytes[i] == 0,
    {
        let content: Vec<u8> = zeroed_region(capacity as usize);
        Arena {
            storage: Storage::Owned,
            header: Header { capacity, len: 0 },
            content,
            issued: Ghost(Seq::empty()),
        }
    }

    /// Attaches the arena to a caller-supplied region without taking a growth
    /// obligation: the arena will never replace this region, and exhausting
    /// it is reported as [`AllocFailed::MaxCapacityExceeded`].
    ///
    /// Any region the arena owned before is released first.
    pub fn fill_borrowed(&mut self, content: Vec<u8>)
        requires
            content@.len() <= MAX_CONTENT_LEN,
        ensures
            final(self).wf(),
            final(self)@.storage == Storage::Borrowed,
            final(self)@.capacity == content@.len(),
            final(self)@.used == 0,
            final(self)@.bytes == content@,
            final(self)@.issued.len() == 0,
    {
        let capacity: u64 = content.len() as u64;
        self.storage = Storage::Borrowed;
        self.header = Header { capacity, len: 0 };
        self.content = content;
        self.issued = Ghost(Seq::empty());
    }

    /// Total content bytes available.
    pub fn capacity(&self) -> (c: u64)
        ensures
            c as nat == self@.capacity,
    {
        self.header.capacity
    }

    /// Content bytes handed out so far.
    pub fn len(&self) -> (n: u64)
        ensures
            n as nat == self@.used,
    {
        self.header.len
    }

    /// Who is responsible for the content region.
    pub fn storage(&self) -> (s: Storage)
        ensures
            s == self@.storage,
    {
        self.storage
    }
}

/// Rounding an amount down to a positive alignment yields a multiple of the
/// alignment that is at most the amount and misses it by less than one
/// alignment step.
pub proof fn lemma_align_down(x: int, align: int)
    requires
        0 <= x,
        1 <= align,
    ensures
        align_down(x, align) % align == 0,
        0 <= align_down(x, align) <= x,
        x < align_down(x, align) + align,
{
    lemma_fundamental_div_mod(x, align);
    lemma_mod_multiples_basic(x / align, align);
    lemma_div_pos_is_pos(x, align);
}

impl Arena {
    /// Moves the bump cursor down inside the current region to carve out
    /// `size` bytes at a boundary rounded down to `align`.
    fn bump(&mut self, size: usize, align: usize) -> (r: ArenaRefMut<u8>)
        requires
            old(self).wf(),
            1 <= align,
            old(self)@.fits(size as nat),
        ensures
            final(self).wf(),
            final(self)@.alloc_result(old(self)@, r@, size as nat, align as nat),
    {
        let cap: u64 = self.header.capacity;
        let boundary: u64 = cap - self.header.len;
        let room: u64 = boundary - size as u64;
        proof {
            lemma_align_down(room as int, align as int);
        }
        let quot: u64 = room / align as u64;
        let new_boundary: u64 = quot * align as u64;
        let new_used: u64 = cap - new_boundary;
        self.header.len = new_used;
        self.issued = Ghost(
            self.issued@.push(
                AllocRecord {
                    back: new_used as nat,
                    len: size as nat,
                    align: align as nat,
                    cap_at_issue: cap as nat,
                },
            ),
        );
        proof {
            let o = old(self)@;
            let f = self@;
            assert forall|i: int| 0 <= i < f.issued.len() implies #[trigger] f.record_ok(
                f.issued[i],
            ) by {
                if i < o.issued.len() {
                    assert(o.record_ok(o.issued[i]));
                }
            }
            assert forall|i: int, j: int|
                #![trigger f.issued[i], f.issued[j]]
                0 <= i < j < f.issued.len() implies f.issued[i].back + f.issued[j].len
                <= f.issued[j].back by {
                if j < o.issued.len() {
                    assert(o.issued[i].back + o.issued[j].len <= o.issued[j].back);
                } else {
                    assert(o.record_ok(o.issued[i]));
                }
            }
        }
        ArenaRefMut::<u8>::make(new_used as u32, size as u32)
    }

    /// Replaces the content region with a fresh owned region of `new_cap`
    /// bytes, copying the allocated bytes so they keep their distance from
    /// the end of the region.
    fn grow_to(&mut self, new_cap: u64)
        requires
            old(self).wf(),
            old(self)@.capacity <= new_cap <= MAX_CONTENT_LEN,
        ensures
            final(self).wf(),
            final(self)@.storage == Storage::Owned,
            final(self)@.capacity == new_cap,
            final(self)@.used == old(self)@.used,
            final(self)@.issued == old(self)@.issued,
            final(self)@.used_bytes() == old(self)@.used_bytes(),
    {
        let cap: u64 = self.header.capacity;
        let used: u64 = self.header.len;
        let mut fresh: Vec<u8> = zeroed_region(new_cap as usize);
        let mut i: u64 = 0;
        while i < used
            invariant
                *self == *old(self),
                self.wf(),
                cap as nat == self@.capacity,
                used as nat == self@.used,
                used <= cap <= new_cap <= MAX_CONTENT_LEN,
                fresh@.len() == new_cap,
                i <= used,
                forall|j: int|
                    0 <= j < i ==> #[trigger] fresh@[new_cap - used + j] == self.content@[cap - used
                        + j],
            decreases used - i,
        {
            let b: u8 = self.content[(cap - used + i) as usize];
            fresh.set((new_cap - used + i) as usize, b);
            i = i + 1;
        }
        self.content = fresh;
        self.header.capacity = new_cap;
        self.storage = Storage::Owned;
        proof {
            let o = old(self)@;
            let f = self@;
            assert forall|k: int| 0 <= k < f.issued.len() implies #[trigger] f.record_ok(
                f.issued[k],
            ) by {
                assert(o.record_ok(o.issued[k]));
            }
            assert forall|i2: int, j2: int|
                #![trigger f.issued[i2], f.issued[j2]]
                0 <= i2 < j2 < f.issued.len() implies f.issued[i2].back + f.issued[j2].len
                <= f.issued[j2].back by {
                assert(o.issued[i2].back + o.issued[j2].len <= o.issued[j2].back);
            }
            assert forall|j: int| 0 <= j < o.used implies f.used_bytes()[j] == o.used_bytes()[j] by {
                assert(f.bytes[new_cap - used + j] == o.bytes[cap - used + j]);
            }
            assert(f.used_bytes() =~= o.used_bytes());
        }
    }

    /// The core allocation primitive: carves `size` bytes at a boundary
    /// aligned down to `align`, growing an owned or uninitialized arena when
    /// the region is too small, and failing without any state change when it
    /// cannot. A failed request never moves the cursor.
    pub fn try_alloc_layout(&mut self, size: usize, align: usize) -> (r: Result<
        ArenaRefMut<u8>,
        AllocFailed,
    >)
        requires
            old(self).wf(),
            1 <= align,
        ensures
            final(self).wf(),
            final(self)@.retains(old(self)@),
            r is Ok <==> old(self)@.can_alloc(size as nat),
            r matches Ok(rf) ==> final(self)@.alloc_result(
                old(self)@,
                rf@,
                size as nat,
                align as nat,
            ),
            r is Err ==> *final(self) == *old(self),
            r matches Err(e) ==> (e == AllocFailed::MaxCapacityExceeded <==> old(self)@.storage
                == Storage::Borrowed),
    {
        let cap: u64 = self.header.capacity;
        let used: u64 = self.header.len;
        if size as u64 <= cap - used {
            let rf = self.bump(size, align);
            proof {
                lemma_retains_after_alloc(old(self)@, self@);
            }
            Ok(rf)
        } else {
            match self.storage {
                Storage::Borrowed => Err(AllocFailed::MaxCapacityExceeded),
                _ => {
                    let required: u64 = match used.checked_add(size as u64) {
                        Some(x) => x,
                        None => {
                            return Err(AllocFailed::OsAllocFailed);
                        },
                    };
                    if required > MAX_CONTENT_LEN {
                        return Err(AllocFailed::OsAllocFailed);
                    }
                    let mut new_cap: u64 = required + required / 2;
                    if new_cap > MAX_CONTENT_LEN {
                        new_cap = MAX_CONTENT_LEN;
                    }
                    self.grow_to(new_cap);
                    let ghost grown = *self;
                    let rf = self.bump(size, align);
                    proof {
                        lemma_retains_after_alloc(grown@, self@);
                        lemma_retains_through_growth(old(self)@, grown@, self@);
                    }
                    Ok(rf)
                },
            }
        }
    }
}

impl Arena {
    /// Like [`Arena::try_alloc_layout`], but the caller vouches that the
    /// request can be satisfied, so no failure value needs handling. Callers
    /// that cannot vouch for that must use the fallible form.
    pub fn alloc_layout(&mut self, size: usize, align: usize) -> (r: ArenaRefMut<u8>)
        requires
            old(self).wf(),
            1 <= align,
            old(self)@.can_alloc(size as nat),
        ensures
            final(self).wf(),
            final(self)@.retains(old(self)@),
            final(self)@.alloc_result(old(self)@, r@, size as nat, align as nat),
    {
        match self.try_alloc_layout(size, align) {
            Ok(r) => r,
            Err(_) => vstd::pervasive::unreached(),
        }
    }

    /// Allocates room for one value of type `T`, at the type's own size and
    /// alignment.
    pub fn try_alloc<T>(&mut self) -> (r: Result<ArenaRefMut<T>, AllocFailed>)
        requires
            old(self).wf(),
        ensures
            final(self).wf(),
            final(self)@.retains(old(self)@),
            r is Ok <==> old(self)@.can_alloc(vstd::layout::size_of::<T>()),
            r matches Ok(rf) ==> final(self)@.alloc_result(
                old(self)@,
                rf@,
                vstd::layout::size_of::<T>(),
                vstd::layout::align_of::<T>(),
            ),
            r is Err ==> *final(self) == *old(self),
            r matches Err(e) ==> (e == AllocFailed::MaxCapacityExceeded <==> old(self)@.storage
                == Storage::Borrowed),
    {
        vstd::layout::layout_for_type_is_valid::<T>();
        let size: usize = core::mem::size_of::<T>();
        let align: usize = core::mem::align_of::<T>();
        match self.try_alloc_layout(size, align) {
            Ok(rb) => Ok(ArenaRefMut::<T>::make(rb.back_offset(), rb.byte_len())),
            Err(e) => Err(e),
        }
    }

    /// Like [`Arena::try_alloc`], but the caller vouches that the request can
    /// be satisfied.
    pub fn alloc_one<T>(&mut self) -> (r: ArenaRefMut<T>)
        requires
            old(self).wf(),
            old(self)@.can_alloc(vstd::layout::size_of::<T>()),
        ensures
            final(self).wf(),
            final(self)@.retains(old(self)@),
            final(self)@.alloc_result(
                old(self)@,
                r@,
                vstd::layout::size_of::<T>(),
                vstd::layout::align_of::<T>(),
            ),
    {
        match self.try_alloc::<T>() {
            Ok(r) => r,
            Err(_) => vstd::pervasive::unreached(),
        }
    }

    /// Offset of the referenced range from the start of the content region,
    /// against this arena's current capacity.
    pub fn offset_of<T>(&self, r: &ArenaRefMut<T>) -> (off: u64)
        requires
            self.wf(),
            r.valid_for(self@),
        ensures
            off as int == self@.capacity - r@.back,
    {
        self.header.capacity - r.back_offset() as u64
    }

    /// Resolves one byte of a referenced range.
    pub fn get_byte<T>(&self, r: &ArenaRefMut<T>, i: u32) -> (b: u8)
        requires
            self.wf(),
            r.valid_for(self@),
            i < r@.len,
        ensures
            b == self@.range_bytes(r@)[i as int],
    {
        let pos: u64 = self.header.capacity - r.back_offset() as u64 + i as u64;
        self.content[pos as usize]
    }

    /// Stores one byte into a referenced range.
    pub fn set_byte<T>(&mut self, r: &ArenaRefMut<T>, i: u32, value: u8)
        requires
            old(self).wf(),
            r.valid_for(old(self)@),
            i < r@.len,
        ensures
            final(self).wf(),
            final(self)@.writes_only(
                old(self)@,
                old(self)@.capacity - r@.back + i,
                old(self)@.capacity - r@.back + i + 1,
            ),
            final(self)@.range_bytes(r@) == old(self)@.range_bytes(r@).update(i as int, value),
    {
        let pos: u64 = self.header.capacity - r.back_offset() as u64 + i as u64;
        self.content.set(pos as usize, value);
        proof {
            lemma_inv_after_byte_writes(old(self)@, self@);
            assert(self@.range_bytes(r@) =~= old(self)@.range_bytes(r@).update(
                i as int,
                value,
            ));
        }
    }

    /// Fills a referenced range with the given bytes.
    pub fn write_bytes<T>(&mut self, r: &ArenaRefMut<T>, data: &[u8])
        requires
            old(self).wf(),
            r.valid_for(old(self)@),
            data@.len() == r@.len,
        ensures
            final(self).wf(),
            final(self)@.writes_only(
                old(self)@,
                old(self)@.capacity - r@.back,
                old(self)@.capacity - r@.back + r@.len,
            ),
            final(self)@.range_bytes(r@) == data@,
    {
        let start: u64 = self.header.capacity - r.back_offset() as u64;
        let n: usize = data.len();
        let mut i: usize = 0;
        while i < n
            invariant
                old(self).wf(),
                r.valid_for(old(self)@),
                n == data@.len() == r@.len,
                i <= n,
                start as int == old(self)@.capacity - r@.back,
                self.storage == old(self).storage,
                self.header.capacity == old(self).header.capacity,
                self.header.len == old(self).header.len,
                self.issued == old(self).issued,
                self.content@.len() == old(self).content@.len(),
                forall|k: int|
                    0 <= k < self.content@.len() && !(start <= k < start + i)
                        ==> #[trigger] self.content@[k] == old(self).content@[k],
                forall|j: int| 0 <= j < i ==> #[trigger] self.content@[start + j] == data@[j],
            decreases n - i,
        {
            let b: u8 = data[i];
            self.content.set((start + i as u64) as usize, b);
            i = i + 1;
        }
        proof {
            lemma_inv_after_byte_writes(old(self)@, self@);
            assert forall|j: int| 0 <= j < n implies self@.range_bytes(r@)[j] == data@[j] by {
                assert(self.content@[start + j] == data@[j]);
            }
            assert(self@.range_bytes(r@) =~= data@);
        }
    }

    /// Copies the bytes of a referenced range out of the arena.
    pub fn read_bytes<T>(&self, r: &ArenaRefMut<T>) -> (v: Vec<u8>)
        requires
            self.wf(),
            r.valid_for(self@),
        ensures
            v@ == self@.range_bytes(r@),
    {
        let start: u64 = self.header.capacity - r.back_offset() as u64;
        let n: u32 = r.byte_len();
        let mut v: Vec<u8> = Vec::new();
        let mut i: u32 = 0;
        while i < n
            invariant
                self.wf(),
                r.valid_for(self@),
                n == r@.len,
                i <= n,
                start as int == self@.capacity - r@.back,
                v@.len() == i,
                forall|j: int| 0 <= j < i ==> #[trigger] v@[j] == self@.bytes[start + j],
            decreases n - i,
        {
            v.push(self.content[(start + i as u64) as usize]);
            i = i + 1;
        }
        proof {
            assert(v@ =~= self@.range_bytes(r@));
        }
        v
    }

    /// The allocated suffix of the content region, front to back: exactly
    /// the bytes that persistence writes out.
    pub fn used_slice(&self) -> (s: &[u8])
        requires
            self.wf(),
        ensures
            s@ == self@.used_bytes(),
    {
        let start: usize = (self.header.capacity - self.header.len) as usize;
        let end: usize = self.header.capacity as usize;
        let s: &[u8] = &self.content.as_slice()[start..end];
        proof {
            assert(s@ =~= self@.used_bytes());
        }
        s
    }
}

/// Distinct allocations issued by one arena occupy disjoint byte ranges: a
/// later allocation ends at or before where an earlier one starts, so no two
/// issued references ever resolve to overlapping bytes.
pub proof fn lemma_issued_disjoint(m: ArenaModel, i: int, j: int)
    requires
        m.inv(),
        0 <= i < j < m.issued.len(),
    ensures
        m.record_end(j) <= m.record_start(i),
{
    assert(m.record_ok(m.issued[i]));
    assert(m.record_ok(m.issued[j]));
}

/// Every allocation made against the arena's current region starts at an
/// offset that is a multiple of its requested alignment. (After growth the
/// capacity changes, so the guarantee is anchored to the capacity the
/// allocation was issued at.)
pub proof fn lemma_issued_aligned(m: ArenaModel, i: int)
    requires
        m.inv(),
        0 <= i < m.issued.len(),
        m.issued[i].cap_at_issue == m.capacity,
    ensures
        m.record_start(i) % (m.issued[i].align as int) == 0,
{
    assert(m.record_ok(m.issued[i]));
}

/// Bytes reachable through a reference survive growth: when a later arena
/// state retains an earlier one, every range that was valid in the earlier
/// state is still valid and reads the same bytes, at its unchanged distance
/// from the end of the region.
pub proof fn lemma_retained_range_bytes(o: ArenaModel, f: ArenaModel, rm: RefModel)
    requires
        o.inv(),
        f.inv(),
        f.retains(o),
        rm.len <= rm.back <= o.used,
    ensures
        rm.back <= f.used,
        f.range_bytes(rm) == o.range_bytes(rm),
{
    let suffix = f.bytes.subrange(f.capacity - o.used, f.capacity as int);
    assert forall|k: int| 0 <= k < rm.len implies f.range_bytes(rm)[k] == o.range_bytes(rm)[k] by {
        let d = o.used - rm.back + k;
        assert(suffix[d] == o.used_bytes()[d]);
    }
    assert(f.range_bytes(rm) =~= o.range_bytes(rm));
}

/// Changing content bytes alone cannot break well-formedness: the invariant
/// constrains only the bookkeeping and the region's length.
proof fn lemma_inv_after_byte_writes(o: ArenaModel, f: ArenaModel)
    requires
        o.inv(),
        f.storage == o.storage,
        f.capacity == o.capacity,
        f.used == o.used,
        f.issued == o.issued,
        f.bytes.len() == o.bytes.len(),
    ensures
        f.inv(),
{
    assert forall|i: int| 0 <= i < f.issued.len() implies #[trigger] f.record_ok(f.issued[i]) by {
        assert(o.record_ok(o.issued[i]));
    }
    assert forall|i: int, j: int|
        #![trigger f.issued[i], f.issued[j]]
        0 <= i < j < f.issued.len() implies f.issued[i].back + f.issued[j].len
        <= f.issued[j].back by {
        assert(o.issued[i].back + o.issued[j].len <= o.issued[j].back);
    }
}

/// After a successful in-region allocation, everything the earlier state had
/// handed out is still present: the region bytes did not move.
proof fn lemma_retains_after_alloc(o: ArenaModel, f: ArenaModel)
    requires
        o.inv(),
        f.inv(),
        f.capacity == o.capacity,
        f.bytes == o.bytes,
        o.used <= f.used,
        f.issued == o.issued.push(f.issued.last()),
    ensures
        f.retains(o),
{
    assert(f.bytes.subrange(f.capacity - o.used, f.capacity as int) =~= o.used_bytes());
    assert(o.issued =~= f.issued.subrange(0, o.issued.len() as int));
}

/// Retention is preserved through a growth step followed by an allocation:
/// the growth kept the handed-out suffix, and the allocation did not touch
/// the bytes.
proof fn lemma_retains_through_growth(o: ArenaModel, g: ArenaModel, f: ArenaModel)
    requires
        o.inv(),
        g.inv(),
        f.inv(),
        o.capacity <= g.capacity,
        g.used == o.used,
        g.issued == o.issued,
        g.used_bytes() == o.used_bytes(),
        f.capacity == g.capacity,
        f.bytes == g.bytes,
        f.retains(g),
    ensures
        f.retains(o),
{
    assert(f.bytes.subrange(f.capacity - o.used, f.capacity as int) =~= g.used_bytes());
    assert(o.issued =~= f.issued.subrange(0, o.issued.len() as int));
}

impl Arena {
    /// Adopts `region`, whose first `n` bytes are content that was just read
    /// in bulk, as this arena's backing store. The content moves to the end
    /// of the region, which is where the downward bump allocator keeps the
    /// allocated suffix, and the header is recomputed from the region rather
    /// than trusted from any external source.
    pub(crate) fn from_read_region(region: Vec<u8>, n: usize, storage: Storage) -> (a: Arena)
        requires
            n <= region@.len() <= MAX_CONTENT_LEN,
            storage != Storage::Uninitialized,
        ensures
            a.wf(),
            a@.storage == storage,
            a@.capacity == region@.len(),
            a@.used == n,
            a@.issued.len() == 0,
            a@.used_bytes() == region@.take(n as int),
    {
        let mut region = region;
        let len: usize = region.len();
        shift_to_suffix(&mut region, n);
        let a = Arena {
            storage,
            header: Header { capacity: len as u64, len: n as u64 },
            content: region,
            issued: Ghost(Seq::empty()),
        };
        proof {
            assert(a@.used_bytes() =~= a@.bytes.subrange(len - n, len as int));
        }
        a
    }
}

/// Moves the first `n` bytes of `buf` to its end, preserving their order.
fn shift_to_suffix(buf: &mut Vec<u8>, n: usize)
    requires
        n <= old(buf)@.len(),
    ensures
        final(buf)@.len() == old(buf)@.len(),
        final(buf)@.subrange(old(buf)@.len() - n, old(buf)@.len() as int) == old(buf)@.take(
            n as int,
        ),
{
    let len: usize = buf.len();
    let mut i: usize = n;
    while i > 0
        invariant
            n <= len,
            len == buf@.len() == old(buf)@.len(),
            i <= n,
            forall|j: int| i <= j < n ==> #[trigger] buf@[len - n + j] == old(buf)@[j],
            forall|j: int| 0 <= j < len - n + i ==> #[trigger] buf@[j] == old(buf)@[j],
        decreases i,
    {
        i = i - 1;
        let b: u8 = buf[i];
        buf.set(len - n + i, b);
    }
    proof {
        assert forall|k: int|
            0 <= k < n implies buf@.subrange(len - n, len as int)[k] == old(buf)@.take(
            n as int,
        )[k] by {
            assert(buf@[len - n + k] == old(buf)@[k]);
        }
        assert(buf@.subrange(len - n, len as int) =~= old(buf)@.take(n as int));
    }
}

/// A fresh all-zero region of exactly `len` bytes.
pub(crate) fn zeroed_region(len: usize) -> (v: Vec<u8>)
    ensures
        v@.len() == len,
        forall|i: int| 0 <= i < v@.len() ==> v@[i] == 0,
{
    let mut v: Vec<u8> = Vec::new();
    let mut i: usize = 0;
    while i < len
        invariant
            i <= len,
            v@.len() == i,
            forall|j: int| 0 <= j < i ==> v@[j] == 0,
        decreases len - i,
    {
        v.push(0);
        i = i + 1;
    }
    v
}

} // verus!
