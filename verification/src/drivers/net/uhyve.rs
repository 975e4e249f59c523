use vstd::prelude::*;

verus! {

/// The network interface offered by the uhyve hypervisor.
pub struct UhyveNetwork {
    /// mac address
    mac: [u8; 6],
}

impl UhyveNetwork {
    /// The MAC address this interface was created with.
    pub closed spec fn spec_mac(&self) -> Seq<u8> {
        self.mac@
    }

    pub fn new(mac: &[u8; 6]) -> (r: Self)
        ensures
            r.spec_mac() == mac@,
    {
        UhyveNetwork { mac: *mac }
    }

    pub fn get_mac_address(&self) -> (r: [u8; 6])
        ensures
            r@ == self.spec_mac(),
    {
        self.mac
    }
}

} // verus!
