//! The mathematical model of the buffer: its backing storage as a sequence of
//! bytes, the two cursors, and every operation as a function from one state
//! to the next.

use vstd::prelude::*;

verus! {

/// Bytes reserved in front of the readable region of a drained buffer.
pub const PREPEND: usize = 8;

/// Writable bytes of a buffer built without an explicit size.
pub const INITIAL: usize = 1024;

/// Most bytes taken from a byte source in one read.
pub const READ_CHUNK: usize = 65536;

/// Carriage return, the first byte of a line break on the wire.
pub const CR: u8 = 13;

/// Line feed, the byte that ends a line.
pub const LF: u8 = 10;

/// The abstract state of a buffer.
pub struct BufferView {
    /// The whole backing storage, all three regions.
    pub storage: Seq<u8>,
    /// Offset of the first readable byte.
    pub read_index: int,
    /// Offset one past the last readable byte.
    pub write_index: int,
}

/// `len` zero bytes.
pub open spec fn zeros(len: int) -> Seq<u8> {
    Seq::new(len as nat, |i: int| 0u8)
}

impl BufferView {
    /// The layout invariant: the cursors are ordered and inside the storage,
    /// and the storage always has room for the prepend margin.
    pub open spec fn wf(self) -> bool {
        &&& PREPEND <= self.storage.len()
        &&& 0 <= self.read_index <= self.write_index <= self.storage.len()
    }

    /// Number of bytes in front of the readable region.
    pub open spec fn prependable_bytes(self) -> int {
        self.read_index
    }

    /// Number of bytes waiting to be consumed.
    pub open spec fn readable_bytes(self) -> int {
        self.write_index - self.read_index
    }

    /// Number of bytes that can be written without making space.
    pub open spec fn writable_bytes(self) -> int {
        self.storage.len() - self.write_index
    }

    /// The readable region, `[read_index, write_index)`.
    pub open spec fn readable(self) -> Seq<u8> {
        self.storage.subrange(self.read_index, self.write_index)
    }

    /// The writable region, `[write_index, len)`.
    pub open spec fn writable(self) -> Seq<u8> {
        self.storage.subrange(self.write_index, self.storage.len() as int)
    }

    /// Whether the two bytes at the offsets `at` and `at + 1` are `CR LF`.
    pub open spec fn crlf_at(self, at: int) -> bool {
        self.storage[at] == CR && self.storage[at + 1] == LF
    }

    /// Whether `found` is the outcome of looking for `CR LF` among the
    /// readable bytes from the offset `start` on: the offset of the first
    /// `CR` that a readable `LF` follows, or nothing where there is none.
    pub open spec fn first_crlf(self, start: int, found: Option<usize>) -> bool {
        match found {
            Some(at) => {
                &&& start <= at
                &&& at + 1 < self.write_index
                &&& self.crlf_at(at as int)
                &&& forall|earlier: int| start <= earlier < at ==> !self.crlf_at(earlier)
            },
            None => forall|at: int| start <= at && at + 1 < self.write_index ==> !self.crlf_at(at),
        }
    }

    /// Whether `found` is the outcome of looking for `LF` among the readable
    /// bytes from the offset `start` on: the offset of the first one, or
    /// nothing where there is none.
    pub open spec fn first_eol(self, start: int, found: Option<usize>) -> bool {
        match found {
            Some(at) => {
                &&& start <= at < self.write_index
                &&& self.storage[at as int] == LF
                &&& forall|earlier: int| start <= earlier < at ==> self.storage[earlier] != LF
            },
            None => forall|at: int| start <= at < self.write_index ==> self.storage[at] != LF,
        }
    }

    /// A drained buffer over `size` zeroed writable bytes behind the margin.
    pub open spec fn fresh(size: int) -> Self {
        BufferView {
            storage: zeros(PREPEND + size),
            read_index: PREPEND as int,
            write_index: PREPEND as int,
        }
    }

    /// Both cursors back at the margin; the storage is untouched.
    pub open spec fn retrieve_all(self) -> Self {
        BufferView { read_index: PREPEND as int, write_index: PREPEND as int, ..self }
    }

    /// `len` bytes consumed. Consuming everything resets both cursors.
    pub open spec fn retrieve(self, len: int) -> Self {
        if len < self.readable_bytes() {
            BufferView { read_index: self.read_index + len, ..self }
        } else {
            self.retrieve_all()
        }
    }

    /// The first `len` writable bytes declared written.
    pub open spec fn has_written(self, len: int) -> Self {
        BufferView { write_index: self.write_index + len, ..self }
    }

    /// The last `len` readable bytes handed back to the writable region.
    pub open spec fn unwrite(self, len: int) -> Self {
        BufferView { write_index: self.write_index - len, ..self }
    }

    /// `bytes` stored at offset `at`, over what was there.
    pub open spec fn overwrite(self, at: int, bytes: Seq<u8>) -> Self {
        BufferView {
            storage: self.storage.subrange(0, at) + bytes + self.storage.subrange(
                at + bytes.len(),
                self.storage.len() as int,
            ),
            ..self
        }
    }

    /// The readable region slid left so that it starts at the margin. No byte
    /// outside its new place changes.
    pub open spec fn compact(self) -> Self {
        BufferView {
            read_index: PREPEND as int,
            write_index: PREPEND + self.readable_bytes(),
            ..self.overwrite(PREPEND as int, self.readable())
        }
    }

    /// The storage extended with zeros to end `len` bytes behind the write
    /// cursor.
    pub open spec fn grow(self, len: int) -> Self {
        BufferView {
            storage: self.storage + zeros(self.write_index + len - self.storage.len()),
            ..self
        }
    }

    /// Whether sliding the readable region left frees room for `len` bytes.
    pub open spec fn compaction_suffices(self, len: int) -> bool {
        self.writable_bytes() + self.prependable_bytes() >= PREPEND + len
    }

    /// Whether room for `len` bytes can only be had from a longer storage.
    pub open spec fn must_grow(self, len: int) -> bool {
        self.writable_bytes() < len && !self.compaction_suffices(len)
    }

    /// Whether room for `len` bytes can be made at all: a storage that has to
    /// be lengthened must still have a length that the machine can count.
    /// This is the one limit on appending, and it holds of every buffer
    /// whose storage and the new bytes together stay within `usize`.
    pub open spec fn can_make_room(self, len: int) -> bool {
        self.must_grow(len) ==> self.write_index + len <= usize::MAX
    }

    /// Room made for `len` bytes when there is too little: by compaction
    /// where that is enough, else by growth.
    pub open spec fn make_space(self, len: int) -> Self {
        if self.compaction_suffices(len) {
            self.compact()
        } else {
            self.grow(len)
        }
    }

    /// At least `len` writable bytes: nothing changes when they are there
    /// already.
    pub open spec fn ensure_writable(self, len: int) -> Self {
        if self.writable_bytes() >= len {
            self
        } else {
            self.make_space(len)
        }
    }

    /// `bytes` added behind the readable region.
    pub open spec fn append(self, bytes: Seq<u8>) -> Self {
        let roomy = self.ensure_writable(bytes.len() as int);
        roomy.overwrite(roomy.write_index, bytes).has_written(bytes.len() as int)
    }

    /// `bytes` added in front of the readable region.
    pub open spec fn prepend(self, bytes: Seq<u8>) -> Self {
        BufferView {
            read_index: self.read_index - bytes.len(),
            ..self.overwrite(self.read_index - bytes.len(), bytes)
        }
    }

    /// The buffer rebuilt to fit exactly: a fresh storage of the margin, the
    /// readable bytes and `reserve` spare writable bytes.
    pub open spec fn shrink(self, reserve: int) -> Self {
        Self::fresh(self.readable_bytes() + reserve).append(self.readable())
    }
}

} // verus!
