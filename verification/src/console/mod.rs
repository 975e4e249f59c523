//! The kernel console's output buffering.
//!
//! Output is collected in a fixed-size buffer and handed to the console
//! device when a line is complete or the buffer would overflow; what the
//! device is given, followed by what stays buffered, is always exactly what
//! was written, in order.

pub mod uhyve;

use vstd::prelude::*;

verus! {

/// Capacity of the console's output buffer.
pub const SERIAL_BUFFER_SIZE: usize = 256;

#[verifier::external_type_specification]
#[verifier::external_body]
#[verifier::reject_recursive_types(T)]
pub struct ExHeaplessVec<T, const N: usize>(heapless::Vec<T, N>);

/// What the console's output buffer holds.
pub uninterp spec fn serial_buffer_contents(v: heapless::Vec<u8, 256>) -> Seq<u8>;

/// Creates an empty output buffer with `heapless::Vec::new`.
#[verifier::external_body]
fn buffer_new() -> (r: heapless::Vec<u8, 256>)
    ensures
        serial_buffer_contents(r) == Seq::<u8>::empty(),
{
    heapless::Vec::new()
}

/// The bytes of the buffer, through `heapless::Vec::as_slice`; a
/// `heapless::Vec<_, 256>` never holds more than 256 elements.
#[verifier::external_body]
fn buffer_as_slice(v: &heapless::Vec<u8, 256>) -> (r: &[u8])
    ensures
        r@ == serial_buffer_contents(*v),
        r@.len() <= 256,
{
    v.as_slice()
}

/// Appends `other` with `heapless::Vec::extend_from_slice`, which leaves the
/// buffer unchanged and fails when the bytes do not fit.
#[verifier::external_body]
fn buffer_extend_from_slice(v: &mut heapless::Vec<u8, 256>, other: &[u8]) -> (r: Result<(), ()>)
    ensures
        serial_buffer_contents(*old(v)).len() + other@.len() > 256 ==> r is Err
            && serial_buffer_contents(*final(v)) == serial_buffer_contents(*old(v)),
        serial_buffer_contents(*old(v)).len() + other@.len() <= 256 ==> r is Ok
            && serial_buffer_contents(*final(v)) == serial_buffer_contents(*old(v)) + other@,
{
    v.extend_from_slice(other)
}

/// Empties the buffer with `heapless::Vec::clear`.
#[verifier::external_body]
fn buffer_clear(v: &mut heapless::Vec<u8, 256>)
    ensures
        serial_buffer_contents(*final(v)) == Seq::<u8>::empty(),
{
    v.clear()
}

/// The bytes of `chunks`, one after the other.
pub open spec fn concat(chunks: Seq<Seq<u8>>) -> Seq<u8>
    decreases chunks.len(),
{
    if chunks.len() == 0 {
        Seq::empty()
    } else {
        concat(chunks.drop_last()) + chunks.last()
    }
}

/// The byte views of the chunks of `v`.
pub open spec fn chunk_views(v: Seq<Vec<u8>>) -> Seq<Seq<u8>> {
    v.map_values(|c: Vec<u8>| c@)
}

/// Whether `buf` holds a newline.
pub open spec fn has_newline(buf: Seq<u8>) -> bool {
    exists|i: int| 0 <= i < buf.len() && buf[i] == 10
}

fn contains_newline(buf: &[u8]) -> (r: bool)
    ensures
        r == has_newline(buf@),
{
    let mut i: usize = 0;
    while i < buf.len()
        invariant
            0 <= i <= buf@.len(),
            forall|j: int| 0 <= j < i ==> buf@[j] != 10,
        decreases buf@.len() - i,
    {
        if buf[i] == 10 {
            return true;
        }
        i = i + 1;
    }
    false
}

fn to_vec(s: &[u8]) -> (r: Vec<u8>)
    ensures
        r@ == s@,
{
    vstd::slice::slice_to_vec(s)
}

/// The console's buffered output.
pub struct Console {
    buffer: heapless::Vec<u8, 256>,
}

impl Console {
    /// The bytes buffered and not yet handed to the device.
    pub closed spec fn buffered(&self) -> Seq<u8> {
        serial_buffer_contents(self.buffer)
    }

    pub fn new() -> (r: Self)
        ensures
            r.buffered() == Seq::<u8>::empty(),
    {
        Console { buffer: buffer_new() }
    }

    /// Writes `buf` to the console. The output is buffered until a newline
    /// is written or the buffer is full. Returns the chunks to hand to the
    /// console device, in order.
    pub fn write(&mut self, buf: &[u8]) -> (out: Vec<Vec<u8>>)
        ensures
            final(self).buffered().len() <= SERIAL_BUFFER_SIZE,
            concat(chunk_views(out@)) + final(self).buffered() == old(self).buffered() + buf@,
            ({
                let old_b = old(self).buffered();
                if old_b.len() + buf@.len() <= SERIAL_BUFFER_SIZE {
                    if has_newline(buf@) {
                        chunk_views(out@) == seq![old_b + buf@] && final(self).buffered()
                            == Seq::<u8>::empty()
                    } else {
                        out@.len() == 0 && final(self).buffered() == old_b + buf@
                    }
                } else if buf@.len() >= SERIAL_BUFFER_SIZE || has_newline(buf@) {
                    chunk_views(out@) == seq![old_b, buf@] && final(self).buffered() == Seq::<
                        u8,
                    >::empty()
                } else {
                    chunk_views(out@) == seq![old_b] && final(self).buffered() == buf@
                }
            }),
    {
        let mut out: Vec<Vec<u8>> = Vec::new();
        let len = buffer_as_slice(&self.buffer).len();
        let ghost old_b = self.buffered();
        if SERIAL_BUFFER_SIZE - len >= buf.len() {
            let _ = buffer_extend_from_slice(&mut self.buffer, buf);
            if contains_newline(buf) {
                out.push(self.flush());
            }
        } else {
            out.push(to_vec(buffer_as_slice(&self.buffer)));
            buffer_clear(&mut self.buffer);
            if buf.len() >= SERIAL_BUFFER_SIZE {
                out.push(to_vec(buf));
            } else {
                let _ = buffer_extend_from_slice(&mut self.buffer, buf);
                assert(self.buffered() =~= buf@);
                if contains_newline(buf) {
                    out.push(self.flush());
                }
            }
        }
        proof {
            let cv = chunk_views(out@);
            if out@.len() == 1 {
                assert(cv.drop_last() =~= Seq::<Seq<u8>>::empty());
                assert(concat(cv) == concat(cv.drop_last()) + cv.last());
                assert(Seq::<u8>::empty() + cv.last() =~= cv.last());
            } else if out@.len() == 2 {
                assert(cv.drop_last().drop_last() =~= Seq::<Seq<u8>>::empty());
                assert(concat(cv.drop_last()) == concat(cv.drop_last().drop_last()) + cv[0]);
                assert(Seq::<u8>::empty() + cv[0] =~= cv[0]);
            }
            assert(concat(Seq::<Seq<u8>>::empty()) == Seq::<u8>::empty());
            assert(concat(cv) + self.buffered() =~= old_b + buf@);
            if out@.len() == 0 {
                assert(cv =~= Seq::<Seq<u8>>::empty());
            } else if out@.len() == 1 {
                assert(cv =~= seq![cv[0]]);
            } else {
                assert(cv =~= seq![cv[0], cv[1]]);
            }
        }
        out
    }

    /// Hands everything buffered to the device right away: returns it and
    /// empties the buffer.
    pub fn flush(&mut self) -> (r: Vec<u8>)
        ensures
            r@ == old(self).buffered(),
            final(self).buffered() == Seq::<u8>::empty(),
    {
        let r = to_vec(buffer_as_slice(&self.buffer));
        buffer_clear(&mut self.buffer);
        r
    }
}

} // verus!
