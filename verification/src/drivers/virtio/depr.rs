//! The earlier virtio file system driver: its configuration tag, the number
//! of queues it sets up and the features it accepts.

use vstd::prelude::*;
use vstd::slice::slice_subrange;

verus! {

/// `core::str::from_utf8`: the text `bytes` encode, where they are valid UTF-8.
#[verifier::external_body]
fn str_from_utf8(bytes: &[u8]) -> (r: Option<&str>)
    ensures
        r is Some <==> vstd::utf8::valid_utf8(bytes@),
        r matches Some(s) ==> vstd::utf8::encode_utf8(s@) == bytes@,
{
    core::str::from_utf8(bytes).ok()
}

/// The file system's name as the device reports it: UTF-8, padded with NUL
/// bytes, not NUL-terminated.
#[allow(non_camel_case_types)]
pub struct virtio_fs_config_tag {
    inner: [u8; 36],
}

impl virtio_fs_config_tag {
    pub closed spec fn bytes(&self) -> Seq<u8> {
        self.inner@
    }

    /// The tag the device reported.
    pub fn new(inner: [u8; 36]) -> (r: virtio_fs_config_tag)
        ensures
            r.bytes() == inner@,
    {
        virtio_fs_config_tag { inner }
    }

    /// The length of the name: the position of the first NUL byte, or the
    /// whole tag where there is none.
    pub fn name_len(&self) -> (n: usize)
        ensures
            n == nul_pos(self.bytes()),
            n <= 36,
    {
        let mut i: usize = 0;
        while i < 36
            invariant
                0 <= i <= 36,
                self.inner@.len() == 36,
                forall|j: int| 0 <= j < i ==> self.inner@[j] != 0,
            ensures
                i <= 36,
                forall|j: int| 0 <= j < i ==> self.inner@[j] != 0,
                i < 36 ==> self.inner@[i as int] == 0,
            decreases 36 - i,
        {
            if self.inner[i] == 0 {
                break;
            }
            i = i + 1;
        }
        proof {
            lemma_nul_pos_skip(self.inner@, i as int);
        }
        i
    }

    /// The name, `None` where its bytes are not valid UTF-8.
    pub fn as_str(&self) -> (r: Option<&str>)
        ensures
            r is Some <==> vstd::utf8::valid_utf8(self.bytes().take(nul_pos(self.bytes()))),
            r matches Some(s) ==> vstd::utf8::encode_utf8(s@) == self.bytes().take(
                nul_pos(self.bytes()),
            ),
    {
        let n = self.name_len();
        let slice = slice_subrange(self.inner.as_slice(), 0, n);
        assert(slice@ =~= self.bytes().take(n as int));
        str_from_utf8(slice)
    }
}

/// The position of the first NUL byte in `s`, or the length of `s` where
/// there is none.
pub open spec fn nul_pos(s: Seq<u8>) -> int
    decreases s.len(),
{
    if s.len() == 0 || s[0] == 0 {
        0
    } else {
        1 + nul_pos(s.drop_first())
    }
}

proof fn lemma_nul_pos_skip(s: Seq<u8>, i: int)
    requires
        0 <= i <= s.len(),
        forall|j: int| 0 <= j < i ==> s[j] != 0,
        i == s.len() || s[i] == 0,
    ensures
        nul_pos(s) == i,
    decreases i,
{
    if i > 0 {
        let t = s.drop_first();
        assert forall|j: int| 0 <= j < i - 1 implies t[j] != 0 by {
            assert(t[j] == s[j + 1]);
        }
        if i < s.len() {
            assert(t[i - 1] == s[i]);
        }
        lemma_nul_pos_skip(t, i - 1);
    }
}

/// The number of virtqueues to set up for `num_request_queues` request
/// queues: one high-priority queue and the request queues, counted in a
/// `u16`. `None` where the device asks for no request queue.
pub fn vq_count(num_request_queues: u32) -> (r: Option<u16>)
    requires
        num_request_queues < u32::MAX,
    ensures
        r is None <==> num_request_queues == 0,
        r matches Some(c) ==> c == (num_request_queues + 1) % 0x1_0000,
{
    if num_request_queues == 0 {
        return None;
    }
    let vqnum = num_request_queues + 1;
    Some((vqnum % 0x1_0000) as u16)
}

/// The feature bit of a device that follows version 1 of the specification.
pub const VIRTIO_F_VERSION_1: u64 = 0x1_0000_0000;

/// The upper word of features the driver writes back, given the two words
/// of features the device offers: only version 1, where the device offers it.
pub fn accepted_features_hi(device_lo: u32, device_hi: u32) -> (r: Option<u32>)
    ensures
        r is Some <==> (device_lo as u64 | (device_hi as u64) << 32) & VIRTIO_F_VERSION_1 != 0,
        r matches Some(w) ==> w == 1,
{
    let device_features: u64 = device_lo as u64 | (device_hi as u64) << 32;
    if device_features & VIRTIO_F_VERSION_1 != 0 {
        assert(0x1_0000_0000u64 >> 32u64 == 1u64) by (bit_vector);
        Some((VIRTIO_F_VERSION_1 >> 32) as u32)
    } else {
        None
    }
}

} // verus!
