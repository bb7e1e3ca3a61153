//! The file collaborator the arena persists through.
//!
//! The arena core performs no path resolution or encoding decisions; it only
//! needs a sink it can hand one contiguous byte range to, and a source it can
//! read whole into a buffer and ask for an on-disk size. Those two roles are
//! the traits here. A file's contents may change between calls — another
//! process may append to it — so the read contract pins only what one read
//! observed; a source that declares itself `stable` (such as the in-memory
//! [`MemFile`]) additionally promises that nothing changes between calls and
//! that no call fails.

use vstd::prelude::*;

verus! {

/// A failure reported by the file collaborator.
#[derive(Clone, Copy, Debug, PartialEq, Eq, Structural)]
pub enum IoError {
    /// The content is too large to represent in the portable format.
    NotEnoughMemory,
    /// Any other condition the host reported for the operation.
    Other,
}

/// A sink that takes one contiguous byte range as the file's new contents.
pub trait WriteFile {
    /// The bytes the sink holds. Implementations outside the verified core
    /// may leave this at its default, which promises nothing.
    open spec fn written(&self) -> Seq<u8> {
        Seq::empty()
    }

    /// A reliable sink never fails; an in-memory buffer is one, a real file
    /// is not.
    open spec fn reliable(&self) -> bool {
        false
    }

    /// Replaces the sink's contents with `bytes`, as one bulk transfer.
    fn write(&mut self, bytes: &[u8]) -> (r: Result<(), IoError>)
        ensures
            r is Ok ==> final(self).written() == bytes@,
            old(self).reliable() ==> r is Ok && final(self).reliable(),
    ;
}

/// A source whose whole contents can be read into a caller's buffer.
pub trait ReadFile: Sized {
    /// The bytes the source holds right now. Implementations outside the
    /// verified core may leave this at its default, which promises nothing.
    open spec fn data(&self) -> Seq<u8> {
        Seq::empty()
    }

    /// A stable source never fails and its contents change only through
    /// this interface; an in-memory buffer is one, a real file is not.
    open spec fn stable(&self) -> bool {
        false
    }

    /// Reads from the start of the source into the front of `buf`, leaving
    /// `buf`'s length unchanged, and reports how many bytes were read. A
    /// read that did not fill the buffer read the whole source.
    fn read_into(&mut self, buf: &mut Vec<u8>) -> (r: Result<usize, IoError>)
        ensures
            final(buf)@.len() == old(buf)@.len(),
            old(self).stable() ==> (*final(self) == *old(self) && r is Ok),
            r matches Ok(n) ==> n <= old(buf)@.len() && n as nat <= final(self).data().len()
                && final(buf)@ == final(self).data().take(n as int) + old(buf)@.skip(n as int) && (
            n < old(buf)@.len() ==> n as nat == final(self).data().len()),
    ;
}

/// A source that can also report how large it is without being read.
///
/// The report is a sizing hint: by the time a read happens the source may
/// have changed, so nothing downstream may rely on it for correctness. Only
/// a stable source owes an exact answer.
pub trait FileMetadata: ReadFile {
    /// How many bytes the source holds, as the host reports it.
    fn size_on_disk(&mut self) -> (r: Result<u64, IoError>)
        ensures
            old(self).stable() ==> (*final(self) == *old(self) && r is Ok),
            r matches Ok(sz) ==> (old(self).stable() ==> sz as nat == old(self).data().len()),
    ;
}

/// An in-memory file: the verified stand-in for the host's file system.
///
/// It backs the round-trip guarantees and the tests; a real file wrapper
/// lives outside the verified core and implements the same traits.
pub struct MemFile {
    bytes: Vec<u8>,
}

impl MemFile {
    /// A file holding exactly `bytes`.
    pub fn with_bytes(bytes: Vec<u8>) -> (f: MemFile)
        ensures
            f.data() == bytes@,
    {
        MemFile { bytes }
    }

    /// An empty file.
    pub fn empty() -> (f: MemFile)
        ensures
            f.data().len() == 0,
    {
        MemFile { bytes: Vec::new() }
    }

    /// The file's current contents.
    pub fn contents(&self) -> (v: &Vec<u8>)
        ensures
            v@ == self.data(),
    {
        &self.bytes
    }
}

/// An in-memory file is stable and reliable, and what was written to it is
/// what a read observes.
pub proof fn lemma_mem_file_dependable(f: MemFile)
    ensures
        f.stable(),
        f.reliable(),
        f.data() == f.written(),
{
}

impl ReadFile for MemFile {
    closed spec fn data(&self) -> Seq<u8> {
        self.bytes@
    }

    closed spec fn stable(&self) -> bool {
        true
    }

    fn read_into(&mut self, buf: &mut Vec<u8>) -> (r: Result<usize, IoError>)
        ensures
            *final(self) == *old(self),
            r is Ok,
    {
        let n: usize = if self.bytes.len() < buf.len() {
            self.bytes.len()
        } else {
            buf.len()
        };
        let mut i: usize = 0;
        while i < n
            invariant
                *self == *old(self),
                n <= self.bytes@.len(),
                n <= buf@.len(),
                i <= n,
                buf@.len() == old(buf)@.len(),
                forall|j: int| 0 <= j < i ==> #[trigger] buf@[j] == self.bytes@[j],
                forall|j: int| i <= j < buf@.len() ==> #[trigger] buf@[j] == old(buf)@[j],
            decreases n - i,
        {
            let b: u8 = self.bytes[i];
            buf.set(i, b);
            i = i + 1;
        }
        proof {
            assert(buf@ =~= self.data().take(n as int) + old(buf)@.skip(n as int));
        }
        Ok(n)
    }
}

impl FileMetadata for MemFile {
    fn size_on_disk(&mut self) -> (r: Result<u64, IoError>)
        ensures
            *final(self) == *old(self),
            r is Ok,
    {
        Ok(self.bytes.len() as u64)
    }
}

impl WriteFile for MemFile {
    closed spec fn written(&self) -> Seq<u8> {
        self.bytes@
    }

    closed spec fn reliable(&self) -> bool {
        true
    }

    fn write(&mut self, bytes: &[u8]) -> (r: Result<(), IoError>)
        ensures
            r is Ok,
            final(self).data() == bytes@,
    {
        self.bytes = slice_to_vec(bytes);
        Ok(())
    }
}

/// A fresh vector holding a copy of the slice.
fn slice_to_vec(s: &[u8]) -> (v: Vec<u8>)
    ensures
        v@ == s@,
{
    let mut v: Vec<u8> = Vec::new();
    let n: usize = s.len();
    let mut i: usize = 0;
    while i < n
        invariant
            n == s@.len(),
            i <= n,
            v@.len() == i,
            forall|j: int| 0 <= j < i ==> #[trigger] v@[j] == s@[j],
        decreases n - i,
    {
        v.push(s[i]);
        i = i + 1;
    }
    proof {
        assert(v@ =~= s@);
    }
    v
}

} // verus!
