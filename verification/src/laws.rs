//! What holds between the operations of the buffer, stated over the model
//! that their contracts are written in.

use crate::endian::{be_bytes, be_signed, fits_signed, lemma_be_round_trip, radix};
use crate::model::{BufferView, PREPEND};
use vstd::prelude::*;
use vstd::utf8::{
    decode_utf8, encode_utf8, encode_utf8_decode_utf8, encode_utf8_valid_utf8, valid_utf8,
};

verus! {

/// Every operation of the model keeps the layout invariant, on the inputs
/// that the buffer accepts for it.
pub proof fn law_layout_is_kept(before: BufferView, len: int, bytes: Seq<u8>)
    requires
        before.wf(),
        0 <= len,
    ensures
        before.retrieve_all().wf(),
        len <= before.readable_bytes() ==> before.retrieve(len).wf(),
        len <= before.readable_bytes() ==> before.unwrite(len).wf(),
        len <= before.writable_bytes() ==> before.has_written(len).wf(),
        before.ensure_writable(len).wf(),
        before.append(bytes).wf(),
        bytes.len() <= before.prependable_bytes() ==> before.prepend(bytes).wf(),
        before.shrink(len).wf(),
{
}

/// Discarding everything always leaves no readable byte and exactly the
/// margin in front, whatever the buffer held; doing it twice is doing it
/// once, and consuming exactly what is readable is the same.
pub proof fn law_retrieve_all_drains(before: BufferView)
    ensures
        before.retrieve_all().readable_bytes() == 0,
        before.retrieve_all().prependable_bytes() == PREPEND,
        before.retrieve_all().retrieve_all() == before.retrieve_all(),
        before.retrieve(before.readable_bytes()) == before.retrieve_all(),
{
}

/// Room can be made for any number of bytes that, together with the storage
/// as it is, stays within what the machine can count; no other limit is set
/// on appending.
pub proof fn law_room_can_be_made(before: BufferView, len: int)
    requires
        before.wf(),
        0 <= len,
        before.storage.len() + len <= usize::MAX,
    ensures
        before.can_make_room(len),
        before.ensure_writable(len).storage.len() <= usize::MAX,
{
}

/// Appending never loses a readable byte, however little room there was:
/// what was readable stays readable, in the same place counted from the read
/// cursor, and the new bytes follow it.
pub proof fn law_append_keeps_readable(before: BufferView, bytes: Seq<u8>)
    requires
        before.wf(),
    ensures
        before.append(bytes).wf(),
        before.append(bytes).readable() == before.readable() + bytes,
        before.append(bytes).writable_bytes() >= 0,
        before.ensure_writable(bytes.len() as int).readable() == before.readable(),
        before.ensure_writable(bytes.len() as int).writable_bytes() >= bytes.len(),
{
    let roomy = before.ensure_writable(bytes.len() as int);
    assert(roomy.readable() =~= before.readable());
    assert(before.append(bytes).readable() =~= before.readable() + bytes);
}

/// Once bytes have been consumed, an append that fits into the writable
/// bytes together with the consumed ones never lengthens the storage: where
/// the writable bytes alone are too few, the readable bytes slide left to
/// the margin, and otherwise nothing moves.
pub proof fn law_append_compacts_before_growing(before: BufferView, bytes: Seq<u8>)
    requires
        before.wf(),
        before.prependable_bytes() > PREPEND,
        bytes.len() <= before.writable_bytes() + (before.prependable_bytes() - PREPEND),
    ensures
        before.append(bytes).storage.len() == before.storage.len(),
        before.append(bytes).readable() == before.readable() + bytes,
        before.append(bytes).read_index == if bytes.len() > before.writable_bytes() {
            PREPEND as int
        } else {
            before.read_index
        },
{
    law_append_keeps_readable(before, bytes);
}

/// Consuming as many bytes as were just appended leaves as many readable as
/// there were before the append, and what is consumed is the front of the
/// old readable bytes followed by the new ones.
pub proof fn law_retrieve_undoes_the_count_of_append(before: BufferView, bytes: Seq<u8>)
    requires
        before.wf(),
    ensures
        ({
            let after = before.append(bytes);
            let len = bytes.len() as int;
            &&& len <= after.readable_bytes()
            &&& after.readable().subrange(0, len) == (before.readable() + bytes).subrange(0, len)
            &&& after.retrieve(len).wf()
            &&& after.retrieve(len).readable_bytes() == before.readable_bytes()
        }),
{
    law_append_keeps_readable(before, bytes);
}

/// Shrinking keeps the readable bytes and fits the storage to them exactly:
/// the margin in front, `reserve` writable bytes behind, nothing more.
pub proof fn law_shrink_fits_exactly(before: BufferView, reserve: int)
    requires
        before.wf(),
        0 <= reserve,
    ensures
        before.shrink(reserve).wf(),
        before.shrink(reserve).readable() == before.readable(),
        before.shrink(reserve).prependable_bytes() == PREPEND,
        before.shrink(reserve).writable_bytes() == reserve,
        before.shrink(reserve).storage.len() == PREPEND + before.readable_bytes() + reserve,
{
    law_append_keeps_readable(
        BufferView::fresh(before.readable_bytes() + reserve),
        before.readable(),
    );
}

/// Text that is appended and then retrieved by its length in bytes comes
/// back unchanged, and as many bytes are readable afterwards as were before,
/// provided that the appended bytes are the first to be read: on a buffer
/// with nothing readable always, and else where what is readable already
/// begins the same way.
pub proof fn law_text_round_trip(before: BufferView, text: Seq<char>)
    requires
        before.wf(),
        encode_utf8(text).is_prefix_of(before.readable() + encode_utf8(text)),
    ensures
        ({
            let bytes = encode_utf8(text);
            let after = before.append(bytes);
            let taken = after.readable().subrange(0, bytes.len() as int);
            &&& valid_utf8(taken)
            &&& decode_utf8(taken) == text
            &&& after.retrieve(bytes.len() as int).readable_bytes() == before.readable_bytes()
        }),
{
    let bytes = encode_utf8(text);
    let after = before.append(bytes);
    law_append_keeps_readable(before, bytes);
    assert(after.readable().subrange(0, bytes.len() as int) =~= bytes);
    encode_utf8_valid_utf8(text);
    encode_utf8_decode_utf8(text);
}

/// An integer that is appended in `width` bytes and then read in `width`
/// bytes comes back unchanged, and as many bytes are readable afterwards as
/// were before, provided that the appended bytes are the first to be read:
/// on a buffer with nothing readable always, and else where what is readable
/// already begins the same way.
pub proof fn law_integer_round_trip(before: BufferView, value: int, width: nat)
    requires
        before.wf(),
        width > 0,
        fits_signed(value, width),
        be_bytes(value, width).is_prefix_of(before.readable() + be_bytes(value, width)),
    ensures
        ({
            let after = before.append(be_bytes(value, width));
            &&& after.readable_bytes() >= width
            &&& be_signed(after.readable().subrange(0, width as int)) == value
            &&& after.retrieve(width as int).readable_bytes() == before.readable_bytes()
        }),
{
    let bytes = be_bytes(value, width);
    let after = before.append(bytes);
    lemma_be_round_trip(value, width);
    law_append_keeps_readable(before, bytes);
    assert(after.readable().subrange(0, width as int) =~= bytes);
}

/// Every machine integer of 1, 2, 4 and 8 bytes fits the width that the
/// buffer writes it in, so each of them makes the round trip.
pub proof fn law_machine_integers_fit(one: i8, two: i16, four: i32, eight: i64)
    ensures
        fits_signed(one as int, 1),
        fits_signed(two as int, 2),
        fits_signed(four as int, 4),
        fits_signed(eight as int, 8),
{
    reveal_with_fuel(radix, 9);
}

} // verus!
