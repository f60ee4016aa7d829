//! The bookkeeping of a resizable device buffer: how much it holds, how much it can hold, and
//! when it has to be made anew.
use vstd::prelude::*;

verus! {

/// The alignment, in bytes, that the size of a copy into a device buffer must respect.
pub const COPY_BUFFER_ALIGNMENT: usize = 4;

/// The capacity of a buffer made to hold at least `size` bytes: `size` grown by its remainder
/// modulo [COPY_BUFFER_ALIGNMENT].
pub open spec fn grown_capacity(size: int) -> int {
    size + size % (COPY_BUFFER_ALIGNMENT as int)
}

/// `data` followed by as many zero bytes as its length leaves over modulo
/// [COPY_BUFFER_ALIGNMENT].
pub open spec fn padded_data(data: Seq<u8>) -> Seq<u8> {
    data + Seq::new((data.len() % (COPY_BUFFER_ALIGNMENT as nat)) as nat, |i: int| 0u8)
}

/// A resizable buffer on the device, as far as its bookkeeping goes: the number of bytes
/// uploaded last, the number of bytes it can hold, the number of times it was made anew (its
/// version), and the usage flags (bits) that every buffer made for it carries. The bytes on the
/// device are modelled, as ghost state, by `contents`.
pub struct VecBuf {
    version: u32,
    size: usize,
    capacity: usize,
    usage: u32,
    contents: Ghost<Seq<u8>>,
}

impl VecBuf {
    /// The device holds one byte for each byte of capacity.
    #[verifier::type_invariant]
    spec fn holds_capacity(self) -> bool {
        self.contents@.len() == self.capacity
    }

    /// The bytes on the device.
    pub closed spec fn spec_contents(self) -> Seq<u8> {
        self.contents@
    }

    pub closed spec fn spec_version(self) -> u32 {
        self.version
    }

    pub closed spec fn spec_len(self) -> usize {
        self.size
    }

    pub closed spec fn spec_capacity(self) -> usize {
        self.capacity
    }

    pub closed spec fn spec_usage(self) -> u32 {
        self.usage
    }

    /// An empty buffer that can hold `capacity` bytes, made with the usage flags `usage`.
    pub fn new(capacity: usize, usage: u32) -> (r: Self)
        ensures
            r.spec_version() == 0,
            r.spec_len() == 0,
            r.spec_capacity() == capacity,
            r.spec_usage() == usage,
            r.spec_contents().len() == capacity,
    {
        VecBuf {
            version: 0,
            size: 0,
            capacity,
            usage,
            contents: Ghost(Seq::new(capacity as nat, |i: int| 0u8)),
        }
    }

    pub fn usage(&self) -> (r: u32)
        ensures
            r == self.spec_usage(),
    {
        self.usage
    }

    pub fn version(&self) -> (r: u32)
        ensures
            r == self.spec_version(),
    {
        self.version
    }

    pub fn capacity(&self) -> (r: usize)
        ensures
            r == self.spec_capacity(),
    {
        self.capacity
    }

    pub fn len(&self) -> (r: usize)
        ensures
            r == self.spec_len(),
    {
        self.size
    }

    pub fn is_empty(&self) -> (r: bool)
        ensures
            r == (self.spec_len() == 0),
    {
        self.size == 0
    }

    /// Forgets what the buffer holds.
    pub fn clear(&mut self)
        ensures
            final(self).spec_len() == 0,
            final(self).spec_capacity() == old(self).spec_capacity(),
            final(self).spec_version() == old(self).spec_version(),
            final(self).spec_usage() == old(self).spec_usage(),
            final(self).spec_contents() == old(self).spec_contents(),
    {
        proof {
            use_type_invariant(&*self);
        }
        self.size = 0;
    }

    /// Makes sure the buffer can hold `size` bytes. Its contents are forgotten either way. When
    /// it is too small, it is made anew with [grown_capacity] bytes and its version goes up by
    /// one; the result says whether that happened.
    pub fn set_capacity_at_least(&mut self, size: usize) -> (recreated: bool)
        requires
            old(self).spec_capacity() < size ==> old(self).spec_version() < u32::MAX
                && grown_capacity(size as int) <= usize::MAX,
        ensures
            recreated == (old(self).spec_capacity() < size),
            final(self).spec_len() == 0,
            final(self).spec_usage() == old(self).spec_usage(),
            recreated ==> final(self).spec_capacity() == grown_capacity(size as int)
                && final(self).spec_version() == old(self).spec_version() + 1,
            !recreated ==> final(self).spec_capacity() == old(self).spec_capacity()
                && final(self).spec_version() == old(self).spec_version()
                && final(self).spec_contents() == old(self).spec_contents(),
            final(self).spec_contents().len() == final(self).spec_capacity(),
    {
        self.clear();
        proof {
            use_type_invariant(&*self);
        }
        if self.capacity < size {
            let capacity = size + size % COPY_BUFFER_ALIGNMENT;
            *self = VecBuf {
                version: self.version + 1,
                size: 0,
                capacity,
                usage: self.usage,
                contents: Ghost(Seq::new(capacity as nat, |i: int| 0u8)),
            };
            true
        } else {
            false
        }
    }

    /// Prepares an upload of `data` at byte `offset`: the data is padded with zeros
    /// ([padded_data]), the buffer is made to hold `offset` plus the padded length, and then it
    /// holds the padded data. The result is the bytes to write and whether the buffer was made
    /// anew, in which case they are written through a mapping of the new buffer.
    pub fn upload(&mut self, offset: usize, data: &[u8]) -> (r: (Vec<u8>, bool))
        requires
            offset + padded_data(data@).len() <= usize::MAX,
            old(self).spec_capacity() < offset + padded_data(data@).len() ==> old(
                self,
            ).spec_version() < u32::MAX && grown_capacity(offset + padded_data(data@).len())
                <= usize::MAX,
        ensures
            r.0@ == padded_data(data@),
            r.1 == (old(self).spec_capacity() < offset + r.0@.len()),
            final(self).spec_len() == r.0@.len(),
            final(self).spec_usage() == old(self).spec_usage(),
            r.1 ==> final(self).spec_capacity() == grown_capacity(offset + r.0@.len())
                && final(self).spec_version() == old(self).spec_version() + 1,
            !r.1 ==> final(self).spec_capacity() == old(self).spec_capacity()
                && final(self).spec_version() == old(self).spec_version(),
            final(self).spec_contents().len() == final(self).spec_capacity(),
            offset + r.0@.len() <= final(self).spec_contents().len(),
            final(self).spec_contents().subrange(offset as int, offset + r.0@.len()) == r.0@,
            !r.1 ==> forall|i: int|
                0 <= i < final(self).spec_contents().len() && !(offset <= i < offset + r.0@.len())
                    ==> #[trigger] final(self).spec_contents()[i] == old(self).spec_contents()[i],
    {
        let mut padded: Vec<u8> = Vec::new();
        padded.extend_from_slice(data);
        let align = data.len() % COPY_BUFFER_ALIGNMENT;
        let mut added: usize = 0;
        while added < align
            invariant
                align == data@.len() % (COPY_BUFFER_ALIGNMENT as nat),
                0 <= added <= align,
                padded@ == data@ + Seq::new(added as nat, |i: int| 0u8),
            decreases align - added,
        {
            padded.push(0u8);
            added += 1;
            assert(padded@ =~= data@ + Seq::new(added as nat, |i: int| 0u8));
        }
        assert(padded@ =~= padded_data(data@));
        let recreated = self.set_capacity_at_least(offset + padded.len());
        proof {
            use_type_invariant(&*self);
        }
        let ghost before = self.contents@;
        let ghost written = before.subrange(0, offset as int) + padded@ + before.subrange(
            offset + padded@.len(),
            before.len() as int,
        );
        assert(written.subrange(offset as int, offset + padded@.len()) =~= padded@);
        *self = VecBuf {
            version: self.version,
            size: padded.len(),
            capacity: self.capacity,
            usage: self.usage,
            contents: Ghost(written),
        };
        (padded, recreated)
    }
}

} // verus!
