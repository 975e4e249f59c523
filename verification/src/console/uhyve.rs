use vstd::prelude::*;

verus! {

/// The serial console of the uhyve hypervisor. Input is never available;
/// output goes to the hypervisor in one hypercall per write.
pub struct UhyveSerial;

impl UhyveSerial {
    pub fn new() -> (r: Self) {
        UhyveSerial
    }

    /// Reading gives nothing.
    pub fn read(&mut self, buf: &mut [u8]) -> (r: usize)
        ensures
            r == 0,
            final(buf)@ == old(buf)@,
    {
        0
    }

    /// Input is never ready.
    pub fn read_ready(&mut self) -> (r: bool)
        ensures
            !r,
    {
        false
    }

    /// A write hands all of `buf` to the hypervisor: the number of bytes
    /// written is its length.
    pub fn written_len(&self, buf: &[u8]) -> (r: usize)
        ensures
            r == buf@.len(),
    {
        buf.len()
    }
}

} // verus!
