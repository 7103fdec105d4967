//! The executable buffer. Every operation is specified by the transition of
//! the model that it carries out.

use crate::endian::{
    be_bytes, be_signed, decode_i16, decode_i32, decode_i64, decode_i8, encode_i16, encode_i32,
    encode_i64, encode_i8,
};
use crate::model::{zeros, BufferView, CR, INITIAL, LF, PREPEND, READ_CHUNK};
use crate::text::{decode_text, DecodeError};
use vstd::prelude::*;
use vstd::slice::{slice_subrange, slice_to_vec};
use vstd::utf8::{decode_utf8, encode_utf8, valid_utf8};

verus! {

/// A growable byte buffer with a prependable, a readable and a writable
/// region.
#[derive(Debug)]
pub struct Buffer {
    read_index: usize,
    write_index: usize,
    data: Vec<u8>,
}

impl View for Buffer {
    type V = BufferView;

    closed spec fn view(&self) -> BufferView {
        BufferView {
            storage: self.data@,
            read_index: self.read_index as int,
            write_index: self.write_index as int,
        }
    }
}

impl Buffer {
    /// The layout invariant, which every operation keeps.
    pub open spec fn wf(&self) -> bool {
        self@.wf()
    }

    /// A drained buffer with `initial` writable bytes, or with `INITIAL` of
    /// them where no size is given.
    pub fn new(initial: Option<usize>) -> (buffer: Buffer)
        requires
            initial matches Some(size) ==> PREPEND + size <= usize::MAX,
        ensures
            buffer.wf(),
            buffer@ == BufferView::fresh(
                match initial {
                    Some(size) => size as int,
                    None => INITIAL as int,
                },
            ),
    {
        let size: usize = match initial {
            Some(sz) => sz,
            None => INITIAL,
        };
        let buffer = Buffer {
            read_index: PREPEND,
            write_index: PREPEND,
            data: vec![0u8; PREPEND + size],
        };
        assert(buffer.data@ =~= zeros(PREPEND + size));
        buffer
    }

    /// Exchanges the whole state of two buffers.
    pub fn swap(&mut self, other: &mut Self)
        ensures
            *final(self) == *old(other),
            *final(other) == *old(self),
            final(self)@ == old(other)@,
            final(other)@ == old(self)@,
    {
        std::mem::swap(self, other);
    }

    /// How many bytes can be read.
    pub fn readable_bytes(&self) -> (count: usize)
        requires
            self.wf(),
        ensures
            count == self@.readable_bytes(),
    {
        self.write_index - self.read_index
    }

    /// How many bytes can be written without making space.
    pub fn writable_bytes(&self) -> (count: usize)
        requires
            self.wf(),
        ensures
            count == self@.writable_bytes(),
    {
        self.data.len() - self.write_index
    }

    /// How many bytes can be prepended.
    pub fn prependable_bytes(&self) -> (count: usize)
        ensures
            count == self@.prependable_bytes(),
    {
        self.read_index
    }

    /// The readable region, valid until the buffer is next changed.
    pub fn peek(&self) -> (readable: &[u8])
        requires
            self.wf(),
        ensures
            readable@ == self@.readable(),
    {
        slice_subrange(self.data.as_slice(), self.read_index, self.write_index)
    }

    /// Declares the first `len` writable bytes written.
    pub fn has_written(&mut self, len: usize)
        requires
            old(self).wf(),
            len <= old(self)@.writable_bytes(),
        ensures
            final(self).wf(),
            final(self)@ == old(self)@.has_written(len as int),
    {
        proof {
            vstd::std_specs::vec::axiom_spec_len(&self.data);
        }
        self.write_index += len;
    }

    /// Takes back the last `len` readable bytes.
    pub fn unwrite(&mut self, len: usize)
        requires
            old(self).wf(),
            len <= old(self)@.readable_bytes(),
        ensures
            final(self).wf(),
            final(self)@ == old(self)@.unwrite(len as int),
    {
        self.write_index -= len;
    }

    /// Discards all readable bytes and moves both cursors back to the margin.
    pub fn retrieve_all(&mut self)
        requires
            old(self).wf(),
        ensures
            final(self).wf(),
            final(self)@ == old(self)@.retrieve_all(),
            final(self)@.readable_bytes() == 0,
            final(self)@.prependable_bytes() == PREPEND,
    {
        self.read_index = PREPEND;
        self.write_index = PREPEND;
    }

    /// Consumes `len` readable bytes. Consuming all of them resets both
    /// cursors to the margin.
    pub fn retrieve(&mut self, len: usize)
        requires
            old(self).wf(),
            len <= old(self)@.readable_bytes(),
        ensures
            final(self).wf(),
            final(self)@ == old(self)@.retrieve(len as int),
    {
        if len < self.readable_bytes() {
            self.read_index += len;
        } else {
            self.retrieve_all();
        }
    }

    /// Consumes the readable bytes in front of the offset `end`.
    pub fn retrieve_until(&mut self, end: usize)
        requires
            old(self).wf(),
            old(self)@.read_index <= end <= old(self)@.write_index,
        ensures
            final(self).wf(),
            final(self)@ == old(self)@.retrieve(end - old(self)@.read_index),
    {
        let rindex: usize = self.read_index;
        self.retrieve(end - rindex);
    }

    /// Consumes eight bytes.
    pub fn retrieve_int64(&mut self)
        requires
            old(self).wf(),
            8 <= old(self)@.readable_bytes(),
        ensures
            final(self).wf(),
            final(self)@ == old(self)@.retrieve(8),
    {
        self.retrieve(8)
    }

    /// Consumes four bytes.
    pub fn retrieve_int32(&mut self)
        requires
            old(self).wf(),
            4 <= old(self)@.readable_bytes(),
        ensures
            final(self).wf(),
            final(self)@ == old(self)@.retrieve(4),
    {
        self.retrieve(4)
    }

    /// Consumes two bytes.
    pub fn retrieve_int16(&mut self)
        requires
            old(self).wf(),
            2 <= old(self)@.readable_bytes(),
        ensures
            final(self).wf(),
            final(self)@ == old(self)@.retrieve(2),
    {
        self.retrieve(2)
    }

    /// Consumes one byte.
    pub fn retrieve_int8(&mut self)
        requires
            old(self).wf(),
            1 <= old(self)@.readable_bytes(),
        ensures
            final(self).wf(),
            final(self)@ == old(self)@.retrieve(1),
    {
        self.retrieve(1)
    }

    /// Stores `bytes` at the offset `at`, over what was there.
    fn store(&mut self, at: usize, bytes: &[u8])
        requires
            at + bytes@.len() <= old(self)@.storage.len(),
        ensures
            final(self)@ == old(self)@.overwrite(at as int, bytes@),
    {
        let count: usize = bytes.len();
        let mut done: usize = 0;
        proof {
            vstd::std_specs::vec::axiom_spec_len(&self.data);
        }
        while done < count
            invariant
                done <= count,
                count == bytes@.len(),
                at + count <= self.data@.len() <= usize::MAX,
                self.data@.len() == old(self).data@.len(),
                self.read_index == old(self).read_index,
                self.write_index == old(self).write_index,
                forall|i: int|
                    0 <= i < self.data@.len() ==> self.data@[i] == if at <= i < at + done {
                        bytes@[i - at]
                    } else {
                        old(self).data@[i]
                    },
            decreases count - done,
        {
            self.data[at + done] = bytes[done];
            done += 1;
        }
        assert(self.data@ =~= old(self)@.overwrite(at as int, bytes@).storage);
    }

    /// Slides the readable region left so that it starts at the margin.
    fn compact(&mut self)
        requires
            old(self).wf(),
            PREPEND <= old(self)@.read_index,
        ensures
            final(self).wf(),
            final(self)@ == old(self)@.compact(),
    {
        let readable: usize = self.readable_bytes();
        let from: usize = self.read_index;
        let mut done: usize = 0;
        while done < readable
            invariant
                done <= readable,
                PREPEND <= from,
                from + readable <= self.data@.len(),
                self.data@.len() == old(self).data@.len(),
                self.read_index == old(self).read_index,
                self.write_index == old(self).write_index,
                from == old(self).read_index,
                readable == old(self)@.readable_bytes(),
                forall|i: int|
                    0 <= i < self.data@.len() ==> self.data@[i] == if PREPEND <= i < PREPEND
                        + done {
                        old(self).data@[i - PREPEND + from]
                    } else {
                        old(self).data@[i]
                    },
            decreases readable - done,
        {
            let byte: u8 = self.data[from + done];
            self.data[PREPEND + done] = byte;
            done += 1;
        }
        self.read_index = PREPEND;
        self.write_index = PREPEND + readable;
        assert(self.data@ =~= old(self)@.compact().storage);
    }

    /// Makes room for `len` more bytes: slides the readable region left where
    /// that frees enough, else lengthens the storage to end exactly `len`
    /// bytes behind the write cursor. Meant for a buffer with too little
    /// room; one with enough must at least have consumed bytes to slide over.
    pub fn make_space(&mut self, len: usize)
        requires
            old(self).wf(),
            old(self)@.writable_bytes() < len || old(self)@.prependable_bytes() > PREPEND,
            old(self)@.can_make_room(len as int),
        ensures
            final(self).wf(),
            final(self)@ == old(self)@.make_space(len as int),
            final(self)@.writable_bytes() >= len,
            final(self)@.readable() == old(self)@.readable(),
    {
        proof {
            vstd::std_specs::vec::axiom_spec_len(&self.data);
        }
        let spare: usize = self.writable_bytes() + self.prependable_bytes();
        if spare < PREPEND || spare - PREPEND < len {
            self.data.resize(self.write_index + len, 0u8);
            assert(self.data@ =~= old(self)@.grow(len as int).storage);
        } else {
            self.compact();
        }
        assert(self@.readable() =~= old(self)@.readable());
    }

    /// Makes sure that `len` bytes can be written: does nothing where they
    /// can, else makes space. The one limit is the machine's: see
    /// `BufferView::can_make_room`.
    pub fn ensure_writable_bytes(&mut self, len: usize)
        requires
            old(self).wf(),
            old(self)@.can_make_room(len as int),
        ensures
            final(self).wf(),
            final(self)@ == old(self)@.ensure_writable(len as int),
            final(self)@.writable_bytes() >= len,
            final(self)@.readable() == old(self)@.readable(),
    {
        if self.writable_bytes() < len {
            self.make_space(len);
        }
    }

    /// Adds `bytes` behind the readable region, making space first where
    /// there is too little. Nothing that was readable is lost or moved
    /// relative to the read cursor. The one limit is the machine's: see
    /// `BufferView::can_make_room`.
    pub fn append_bytes(&mut self, bytes: &[u8])
        requires
            old(self).wf(),
            old(self)@.can_make_room(bytes@.len() as int),
        ensures
            final(self).wf(),
            final(self)@ == old(self)@.append(bytes@),
            final(self)@.readable() == old(self)@.readable() + bytes@,
    {
        self.ensure_writable_bytes(bytes.len());
        let at: usize = self.write_index;
        self.store(at, bytes);
        self.has_written(bytes.len());
        assert(self@.readable() =~= old(self)@.readable() + bytes@);
    }

    /// Adds `bytes` in front of the readable region, inside the prependable
    /// region.
    pub fn prepend_bytes(&mut self, bytes: &[u8])
        requires
            old(self).wf(),
            bytes@.len() <= old(self)@.prependable_bytes(),
        ensures
            final(self).wf(),
            final(self)@ == old(self)@.prepend(bytes@),
            final(self)@.readable() == bytes@ + old(self)@.readable(),
    {
        let at: usize = self.read_index - bytes.len();
        self.store(at, bytes);
        self.read_index = at;
        assert(self@.readable() =~= bytes@ + old(self)@.readable());
    }
    /// Looks for `CR LF` in `[start, end)`.
    fn do_find_crlf(&self, start: usize, end: usize) -> (found: Option<usize>)
        requires
            self.wf(),
            start <= end == self@.write_index,
        ensures
            self@.first_crlf(start as int, found),
    {
        let mut at: usize = start;
        while end - at > 1
            invariant
                start <= at <= end,
                end <= self.data@.len(),
                end == self@.write_index,
                forall|earlier: int| start <= earlier < at ==> !self@.crlf_at(earlier),
            decreases end - at,
        {
            if self.data[at] == CR && self.data[at + 1] == LF {
                return Some(at);
            }
            at += 1;
        }
        None
    }

    /// Looks for `LF` in `[start, end)`.
    fn do_find_eol(&self, start: usize, end: usize) -> (found: Option<usize>)
        requires
            self.wf(),
            start <= end == self@.write_index,
        ensures
            self@.first_eol(start as int, found),
    {
        let mut at: usize = start;
        while at < end
            invariant
                start <= at <= end,
                end <= self.data@.len(),
                end == self@.write_index,
                forall|earlier: int| start <= earlier < at ==> self@.storage[earlier] != LF,
            decreases end - at,
        {
            if self.data[at] == LF {
                return Some(at);
            }
            at += 1;
        }
        None
    }

    /// The offset of the first `CR LF` in the readable region.
    pub fn find_crlf(&self) -> (found: Option<usize>)
        requires
            self.wf(),
        ensures
            self@.first_crlf(self@.read_index, found),
    {
        self.do_find_crlf(self.read_index, self.write_index)
    }

    /// The offset of the first `CR LF` in the readable region at or behind
    /// the offset `start`.
    pub fn find_crlf_from(&self, start: usize) -> (found: Option<usize>)
        requires
            self.wf(),
            self@.read_index <= start <= self@.write_index,
        ensures
            self@.first_crlf(start as int, found),
    {
        self.do_find_crlf(start, self.write_index)
    }

    /// The offset of the first `LF` in the readable region.
    pub fn find_eol(&self) -> (found: Option<usize>)
        requires
            self.wf(),
        ensures
            self@.first_eol(self@.read_index, found),
    {
        self.do_find_eol(self.read_index, self.write_index)
    }

    /// The offset of the first `LF` in the readable region at or behind the
    /// offset `start`.
    pub fn find_eol_from(&self, start: usize) -> (found: Option<usize>)
        requires
            self.wf(),
            self@.read_index <= start <= self@.write_index,
        ensures
            self@.first_eol(start as int, found),
    {
        self.do_find_eol(start, self.write_index)
    }

    /// The first eight readable bytes as a big-endian integer.
    pub fn peek_int64(&self) -> (value: i64)
        requires
            self.wf(),
            self@.readable_bytes() >= 8,
        ensures
            value == be_signed(self@.readable().subrange(0, 8)),
    {
        decode_i64(slice_subrange(self.peek(), 0, 8))
    }

    /// The first four readable bytes as a big-endian integer.
    pub fn peek_int32(&self) -> (value: i32)
        requires
            self.wf(),
            self@.readable_bytes() >= 4,
        ensures
            value == be_signed(self@.readable().subrange(0, 4)),
    {
        decode_i32(slice_subrange(self.peek(), 0, 4))
    }

    /// The first two readable bytes as a big-endian integer.
    pub fn peek_int16(&self) -> (value: i16)
        requires
            self.wf(),
            self@.readable_bytes() >= 2,
        ensures
            value == be_signed(self@.readable().subrange(0, 2)),
    {
        decode_i16(slice_subrange(self.peek(), 0, 2))
    }

    /// The first readable byte as an integer.
    pub fn peek_int8(&self) -> (value: i8)
        requires
            self.wf(),
            self@.readable_bytes() >= 1,
        ensures
            value == be_signed(self@.readable().subrange(0, 1)),
    {
        decode_i8(slice_subrange(self.peek(), 0, 1))
    }

    /// Reads and consumes a big-endian integer of eight bytes.
    pub fn read_int64(&mut self) -> (value: i64)
        requires
            old(self).wf(),
            old(self)@.readable_bytes() >= 8,
        ensures
            final(self).wf(),
            value == be_signed(old(self)@.readable().subrange(0, 8)),
            final(self)@ == old(self)@.retrieve(8),
    {
        let ret: i64 = self.peek_int64();
        self.retrieve_int64();
        ret
    }

    /// Reads and consumes a big-endian integer of four bytes.
    pub fn read_int32(&mut self) -> (value: i32)
        requires
            old(self).wf(),
            old(self)@.readable_bytes() >= 4,
        ensures
            final(self).wf(),
            value == be_signed(old(self)@.readable().subrange(0, 4)),
            final(self)@ == old(self)@.retrieve(4),
    {
        let ret: i32 = self.peek_int32();
        self.retrieve_int32();
        ret
    }

    /// Reads and consumes a big-endian integer of two bytes.
    pub fn read_int16(&mut self) -> (value: i16)
        requires
            old(self).wf(),
            old(self)@.readable_bytes() >= 2,
        ensures
            final(self).wf(),
            value == be_signed(old(self)@.readable().subrange(0, 2)),
            final(self)@ == old(self)@.retrieve(2),
    {
        let ret: i16 = self.peek_int16();
        self.retrieve_int16();
        ret
    }

    /// Reads and consumes an integer of one byte.
    pub fn read_int8(&mut self) -> (value: i8)
        requires
            old(self).wf(),
            old(self)@.readable_bytes() >= 1,
        ensures
            final(self).wf(),
            value == be_signed(old(self)@.readable().subrange(0, 1)),
            final(self)@ == old(self)@.retrieve(1),
    {
        let ret: i8 = self.peek_int8();
        self.retrieve_int8();
        ret
    }

    /// Appends `x` as eight bytes in network byte order.
    pub fn append_int64(&mut self, x: i64)
        requires
            old(self).wf(),
            old(self)@.can_make_room(8),
        ensures
            final(self).wf(),
            final(self)@ == old(self)@.append(be_bytes(x as int, 8)),
            final(self)@.readable() == old(self)@.readable() + be_bytes(x as int, 8),
    {
        let bytes: [u8; 8] = encode_i64(x);
        self.append_bytes(bytes.as_slice());
    }

    /// Appends `x` as four bytes in network byte order.
    pub fn append_int32(&mut self, x: i32)
        requires
            old(self).wf(),
            old(self)@.can_make_room(4),
        ensures
            final(self).wf(),
            final(self)@ == old(self)@.append(be_bytes(x as int, 4)),
            final(self)@.readable() == old(self)@.readable() + be_bytes(x as int, 4),
    {
        let bytes: [u8; 4] = encode_i32(x);
        self.append_bytes(bytes.as_slice());
    }

    /// Appends `x` as two bytes in network byte order.
    pub fn append_int16(&mut self, x: i16)
        requires
            old(self).wf(),
            old(self)@.can_make_room(2),
        ensures
            final(self).wf(),
            final(self)@ == old(self)@.append(be_bytes(x as int, 2)),
            final(self)@.readable() == old(self)@.readable() + be_bytes(x as int, 2),
    {
        let bytes: [u8; 2] = encode_i16(x);
        self.append_bytes(bytes.as_slice());
    }

    /// Appends `x` as one byte.
    pub fn append_int8(&mut self, x: i8)
        requires
            old(self).wf(),
            old(self)@.can_make_room(1),
        ensures
            final(self).wf(),
            final(self)@ == old(self)@.append(be_bytes(x as int, 1)),
            final(self)@.readable() == old(self)@.readable() + be_bytes(x as int, 1),
    {
        let bytes: [u8; 1] = encode_i8(x);
        self.append_bytes(bytes.as_slice());
    }

    /// Prepends `x` as eight bytes in network byte order.
    pub fn prepend_int64(&mut self, x: i64)
        requires
            old(self).wf(),
            8 <= old(self)@.prependable_bytes(),
        ensures
            final(self).wf(),
            final(self)@ == old(self)@.prepend(be_bytes(x as int, 8)),
            final(self)@.readable() == be_bytes(x as int, 8) + old(self)@.readable(),
    {
        let bytes: [u8; 8] = encode_i64(x);
        self.prepend_bytes(bytes.as_slice());
    }

    /// Prepends `x` as four bytes in network byte order.
    pub fn prepend_int32(&mut self, x: i32)
        requires
            old(self).wf(),
            4 <= old(self)@.prependable_bytes(),
        ensures
            final(self).wf(),
            final(self)@ == old(self)@.prepend(be_bytes(x as int, 4)),
            final(self)@.readable() == be_bytes(x as int, 4) + old(self)@.readable(),
    {
        let bytes: [u8; 4] = encode_i32(x);
        self.prepend_bytes(bytes.as_slice());
    }

    /// Prepends `x` as two bytes in network byte order.
    pub fn prepend_int16(&mut self, x: i16)
        requires
            old(self).wf(),
            2 <= old(self)@.prependable_bytes(),
        ensures
            final(self).wf(),
            final(self)@ == old(self)@.prepend(be_bytes(x as int, 2)),
            final(self)@.readable() == be_bytes(x as int, 2) + old(self)@.readable(),
    {
        let bytes: [u8; 2] = encode_i16(x);
        self.prepend_bytes(bytes.as_slice());
    }

    /// Prepends `x` as one byte.
    pub fn prepend_int8(&mut self, x: i8)
        requires
            old(self).wf(),
            1 <= old(self)@.prependable_bytes(),
        ensures
            final(self).wf(),
            final(self)@ == old(self)@.prepend(be_bytes(x as int, 1)),
            final(self)@.readable() == be_bytes(x as int, 1) + old(self)@.readable(),
    {
        let bytes: [u8; 1] = encode_i8(x);
        self.prepend_bytes(bytes.as_slice());
    }
    /// Appends the UTF-8 bytes of `text`.
    pub fn append_string(&mut self, text: &String)
        requires
            old(self).wf(),
            old(self)@.can_make_room(encode_utf8(text@).len() as int),
        ensures
            final(self).wf(),
            final(self)@ == old(self)@.append(encode_utf8(text@)),
            final(self)@.readable() == old(self)@.readable() + encode_utf8(text@),
    {
        self.append_bytes(text.as_str().as_bytes());
    }

    /// Decodes the first `len` readable bytes as UTF-8 text and consumes
    /// them. Bytes that are not UTF-8 give an error and stay in the buffer.
    pub fn retrieve_as_string(&mut self, len: usize) -> (text: Result<String, DecodeError>)
        requires
            old(self).wf(),
            len <= old(self)@.readable_bytes(),
        ensures
            final(self).wf(),
            text is Ok <==> valid_utf8(old(self)@.readable().subrange(0, len as int)),
            text matches Ok(decoded) ==> decoded@ == decode_utf8(
                old(self)@.readable().subrange(0, len as int),
            ),
            text is Ok ==> final(self)@ == old(self)@.retrieve(len as int),
            text is Err ==> final(self)@ == old(self)@,
    {
        let bytes: Vec<u8> = slice_to_vec(slice_subrange(self.peek(), 0, len));
        match decode_text(bytes) {
            Ok(decoded) => {
                self.retrieve(len);
                Ok(decoded)
            },
            Err(error) => Err(error),
        }
    }

    /// Decodes all readable bytes as UTF-8 text and consumes them. Bytes that
    /// are not UTF-8 give an error and stay in the buffer.
    pub fn retrieve_all_as_string(&mut self) -> (text: Result<String, DecodeError>)
        requires
            old(self).wf(),
        ensures
            final(self).wf(),
            text is Ok <==> valid_utf8(old(self)@.readable()),
            text matches Ok(decoded) ==> decoded@ == decode_utf8(old(self)@.readable()),
            text is Ok ==> final(self)@ == old(self)@.retrieve_all(),
            text is Err ==> final(self)@ == old(self)@,
    {
        let readable: usize = self.readable_bytes();
        assert(self@.readable().subrange(0, readable as int) =~= self@.readable());
        self.retrieve_as_string(readable)
    }

    /// Rebuilds the buffer in a storage that fits exactly: the margin, the
    /// readable bytes, and `reserve` writable bytes behind them. Whatever
    /// earlier growth left over is given up.
    pub fn shrink(&mut self, reserve: usize)
        requires
            old(self).wf(),
            PREPEND + old(self)@.readable_bytes() + reserve <= usize::MAX,
        ensures
            final(self).wf(),
            final(self)@ == old(self)@.shrink(reserve as int),
            final(self)@.readable() == old(self)@.readable(),
            final(self)@.prependable_bytes() == PREPEND,
            final(self)@.writable_bytes() == reserve,
            final(self)@.storage.len() == PREPEND + old(self)@.readable_bytes() + reserve,
    {
        let mut other: Buffer = Buffer::new(Some(self.readable_bytes() + reserve));
        other.append_bytes(self.peek());
        self.swap(&mut other);
    }

    /// The writable region, for a caller that fills it in place and then
    /// calls `has_written`. Valid until the buffer is next changed. What the
    /// caller leaves in it is what the writable region then holds; a slice
    /// keeps its length, and with it the buffer keeps its layout.
    pub fn begin_write(&mut self) -> (writable: &mut [u8])
        requires
            old(self).wf(),
        ensures
            writable@ == old(self)@.writable(),
            final(self)@.read_index == old(self)@.read_index,
            final(self)@.write_index == old(self)@.write_index,
            final(self)@.storage == old(self)@.storage.subrange(0, old(self)@.write_index)
                + final(writable)@,
            final(writable)@.len() == writable@.len() ==> final(self).wf(),
    {
        let at: usize = self.write_index;
        let (_head, writable) = self.data.as_mut_slice().split_at_mut(at);
        writable
    }

    /// How many bytes the storage can hold before it must be moved.
    pub fn internal_capacity(&self) -> (capacity: usize)
        ensures
            capacity >= self@.storage.len(),
    {
        vec_capacity(&self.data)
    }

    /// Takes in what one read of at most `READ_CHUNK` bytes from a byte
    /// source into `scratch` came to: the bytes that were read are appended
    /// and counted, a failure changes nothing and is handed on.
    pub fn read_from<E>(&mut self, scratch: &[u8], outcome: Result<usize, E>) -> (received: Result<
        usize,
        E,
    >)
        requires
            old(self).wf(),
            scratch@.len() <= READ_CHUNK,
            outcome matches Ok(count) ==> {
                &&& count <= scratch@.len()
                &&& old(self)@.can_make_room(count as int)
            },
        ensures
            final(self).wf(),
            received == outcome,
            outcome matches Ok(count) ==> final(self)@ == old(self)@.append(
                scratch@.subrange(0, count as int),
            ),
            outcome is Err ==> final(self)@ == old(self)@,
    {
        match outcome {
            Ok(count) => {
                self.append_bytes(slice_subrange(scratch, 0, count));
                Ok(count)
            },
            Err(error) => Err(error),
        }
    }
}

/// Calls `Vec::capacity`. Trusted: a vector never holds more elements than
/// its capacity.
#[verifier::external_body]
fn vec_capacity(storage: &Vec<u8>) -> (capacity: usize)
    ensures
        capacity >= storage@.len(),
{
    storage.capacity()
}

} // verus!
