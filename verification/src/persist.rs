//! Bulk persistence: an arena's content travels to and from a file as one
//! contiguous byte range, with no per-object serialization.
//!
//! Saving writes only the allocated bytes; the bump-pointer header is
//! recomputed when the content is read back, because capacity is a property
//! of the reading allocation, not of the one that wrote the file. Loading
//! reads into a caller-supplied region and, when that region turns out too
//! small, consults the reported file size, takes a fresh region, and retries
//! with doubling sizes until a read demonstrably captured the whole file or
//! the portable size ceiling is hit.

use vstd::prelude::*;

use crate::arena::zeroed_region;
use crate::arena::Arena;
use crate::arena::Storage;
use crate::arena::MAX_CONTENT_LEN;
use crate::file::lemma_mem_file_dependable;
use crate::file::FileMetadata;
use crate::file::IoError;
use crate::file::MemFile;
use crate::file::ReadFile;
use crate::file::WriteFile;

verus! {

/// Size of the bump-pointer header: two 64-bit fields.
///
/// The loader reserves this much room beyond a file's reported size, so a
/// read that captured the whole file is recognizable by not having filled
/// its buffer.
pub const HEADER_BYTES: u64 = 16;

impl Arena {
    /// Writes the allocated content bytes — and nothing else — to the sink
    /// as one contiguous transfer. Header information is recomputed when the
    /// bytes are read back.
    pub fn to_file<W: WriteFile>(&self, file: &mut W) -> (r: Result<(), IoError>)
        requires
            self.wf(),
        ensures
            r is Ok ==> final(file).written() == self@.used_bytes(),
            old(file).reliable() ==> r is Ok && final(file).reliable(),
    {
        file.write(self.used_slice())
    }

    /// Reads a source's whole contents into `region` and builds a read-only
    /// arena over them, reporting how many bytes were read.
    ///
    /// When the first read fills `region` exactly, the source may be larger
    /// than the region, so the loader asks for the size on disk, takes a
    /// fresh owned region that much plus header room large, and reads again;
    /// if the source meanwhile grew past even that, the requested size
    /// doubles until either a read captures the whole source or the portable
    /// size ceiling is exceeded, which is reported as
    /// [`IoError::NotEnoughMemory`].
    #[verifier::loop_isolation(false)]
    pub fn from_file<F: ReadFile + FileMetadata>(file: &mut F, region: Vec<u8>) -> (r: Result<
        (Arena, usize),
        IoError,
    >)
        requires
            region@.len() <= MAX_CONTENT_LEN,
        ensures
            old(file).stable() ==> *final(file) == *old(file),
            old(file).stable() && (old(file).data().len() < region@.len()
                || old(file).data().len() + HEADER_BYTES <= MAX_CONTENT_LEN) ==> r is Ok,
            r matches Ok((a, n)) ==> a.wf() && a@.used == n
                && n as nat == final(file).data().len()
                && a@.used_bytes() == final(file).data()
                && n as nat <= a@.capacity
                && a@.issued.len() == 0
                && (a@.storage == Storage::Borrowed || a@.storage == Storage::Owned),
    {
        let mut region = region;
        let region_len: usize = region.len();
        let n: usize = match file.read_into(&mut region) {
            Ok(n) => n,
            Err(e) => {
                return Err(e);
            },
        };
        if n < region_len {
            // The buffer was not filled, so this read captured the whole
            // source.
            let a = Arena::from_read_region(region, n, Storage::Borrowed);
            proof {
                assert(region@.take(n as int) =~= final(file).data());
            }
            return Ok((a, n));
        }
        // The buffer was filled exactly; the source may hold more.
        let mut needed: u64 = match file.size_on_disk() {
            Ok(sz) => sz,
            Err(e) => {
                return Err(e);
            },
        };
        loop
            invariant
                old(file).stable() ==> *file == *old(file),
                old(file).stable() ==> needed as nat == old(file).data().len(),
                old(file).stable() ==> old(file).data().len() >= region_len,
                region_len == region@.len(),
                region@.len() <= MAX_CONTENT_LEN,
            decreases u64::MAX - needed,
        {
            let alloc_size: u64 = match needed.checked_add(HEADER_BYTES) {
                Some(x) => x,
                None => {
                    return Err(IoError::NotEnoughMemory);
                },
            };
            if alloc_size > MAX_CONTENT_LEN {
                return Err(IoError::NotEnoughMemory);
            }
            let mut buf: Vec<u8> = zeroed_region(alloc_size as usize);
            let n2: usize = match file.read_into(&mut buf) {
                Ok(x) => x,
                Err(e) => {
                    return Err(e);
                },
            };
            if n2 as u64 <= needed {
                // The buffer had header room to spare beyond `needed`, so
                // this read did not fill it: the whole source was captured.
                let ghost buf_read = buf@;
                let a = Arena::from_read_region(buf, n2, Storage::Owned);
                proof {
                    assert(buf_read.take(n2 as int) =~= final(file).data());
                }
                return Ok((a, n2));
            }
            needed = if needed == 0 {
                1
            } else {
                needed * 2
            };
        }
    }
}

/// The round trip: saving an arena's content and loading it back yields
/// exactly the bytes that were saved.
///
/// The exchange goes through an in-memory file, whose operations cannot fail
/// and whose contents nothing else touches, so the guarantee is
/// unconditional up to the loader's size ceiling: the loaded arena holds the
/// saved arena's allocated bytes, all of them, byte for byte.
pub fn save_then_load(a: &Arena, region: Vec<u8>) -> (r: Result<(Arena, usize), IoError>)
    requires
        a.wf(),
        region@.len() <= MAX_CONTENT_LEN,
    ensures
        a@.used < region@.len() || a@.used + HEADER_BYTES <= MAX_CONTENT_LEN ==> r is Ok,
        r matches Ok((b, n)) ==> b.wf() && n as nat == a@.used && b@.used_bytes()
            == a@.used_bytes(),
{
    let mut f = MemFile::empty();
    proof {
        lemma_mem_file_dependable(f);
    }
    match a.to_file(&mut f) {
        Ok(()) => {},
        Err(_) => {
            return vstd::pervasive::unreached();
        },
    }
    proof {
        lemma_mem_file_dependable(f);
    }
    Arena::from_file(&mut f, region)
}

} // verus!
