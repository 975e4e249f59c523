use vstd::prelude::*;

verus! {

/// Virtio's file system device features and the general features of Virtio
/// (Virtio specification v1.1 - 5.11.3 and 6).
#[allow(non_camel_case_types)]
#[derive(Clone, Copy, Debug, PartialEq, Eq, Structural)]
pub enum Features {
    VIRTIO_F_RING_INDIRECT_DESC,
    VIRTIO_F_RING_EVENT_IDX,
    VIRTIO_F_VERSION_1,
    VIRTIO_F_ACCESS_PLATFORM,
    VIRTIO_F_RING_PACKED,
    VIRTIO_F_IN_ORDER,
    VIRTIO_F_ORDER_PLATFORM,
    VIRTIO_F_SR_IOV,
    VIRTIO_F_NOTIFICATION_DATA,
}

impl Features {
    /// The feature's bit.
    pub open spec fn spec_bits(self) -> u64 {
        match self {
            Features::VIRTIO_F_RING_INDIRECT_DESC => 0x1000_0000,
            Features::VIRTIO_F_RING_EVENT_IDX => 0x2000_0000,
            Features::VIRTIO_F_VERSION_1 => 0x1_0000_0000,
            Features::VIRTIO_F_ACCESS_PLATFORM => 0x2_0000_0000,
            Features::VIRTIO_F_RING_PACKED => 0x4_0000_0000,
            Features::VIRTIO_F_IN_ORDER => 0x8_0000_0000,
            Features::VIRTIO_F_ORDER_PLATFORM => 0x10_0000_0000,
            Features::VIRTIO_F_SR_IOV => 0x20_0000_0000,
            Features::VIRTIO_F_NOTIFICATION_DATA => 0x40_0000_0000,
        }
    }

    /// The feature's bit.
    pub fn bits(self) -> (r: u64)
        ensures
            r == self.spec_bits(),
    {
        match self {
            Features::VIRTIO_F_RING_INDIRECT_DESC => 0x1000_0000,
            Features::VIRTIO_F_RING_EVENT_IDX => 0x2000_0000,
            Features::VIRTIO_F_VERSION_1 => 0x1_0000_0000,
            Features::VIRTIO_F_ACCESS_PLATFORM => 0x2_0000_0000,
            Features::VIRTIO_F_RING_PACKED => 0x4_0000_0000,
            Features::VIRTIO_F_IN_ORDER => 0x8_0000_0000,
            Features::VIRTIO_F_ORDER_PLATFORM => 0x10_0000_0000,
            Features::VIRTIO_F_SR_IOV => 0x20_0000_0000,
            Features::VIRTIO_F_NOTIFICATION_DATA => 0x40_0000_0000,
        }
    }

    /// The features that are set in `feat_set`, in the order of their bits;
    /// `None` when there is none.
    pub fn from_set(feat_set: FeatureSet) -> (r: Option<Vec<Features>>)
        ensures
            found_features(feat_set.spec_bits()).len() == 0 ==> r is None,
            found_features(feat_set.spec_bits()).len() > 0 ==> (r matches Some(v) && v@
                == found_features(feat_set.spec_bits())),
    {
        let all = all_features_exec();
        let feats = feat_set.0;
        let ghost pred = |f: Features| feat_set.spec_bits() & f.spec_bits() != 0;
        let mut vec_of_feats: Vec<Features> = Vec::new();
        let mut i: usize = 0;
        proof {
            reveal(Seq::filter);
            assert(all_features().take(0) =~= Seq::<Features>::empty());
        }
        while i < all.len()
            invariant
                all@ == all_features(),
                feats == feat_set.spec_bits(),
                0 <= i <= all@.len(),
                vec_of_feats@ == all_features().take(i as int).filter(pred),
                pred == (|f: Features| feat_set.spec_bits() & f.spec_bits() != 0),
            decreases all@.len() - i,
        {
            let f = all[i];
            let b = f.bits();
            if feats & b != 0 {
                vec_of_feats.push(f);
            }
            proof {
                reveal(Seq::filter);
                let t = all_features().take(i + 1);
                assert(t.drop_last() =~= all_features().take(i as int));
                assert(t.last() == f);
            }
            i = i + 1;
        }
        proof {
            assert(all_features().take(9) =~= all_features());
        }
        if vec_of_feats.len() == 0 {
            None
        } else {
            Some(vec_of_feats)
        }
    }
}

/// All features, in the order of their bits.
pub open spec fn all_features() -> Seq<Features> {
    seq![
        Features::VIRTIO_F_RING_INDIRECT_DESC,
        Features::VIRTIO_F_RING_EVENT_IDX,
        Features::VIRTIO_F_VERSION_1,
        Features::VIRTIO_F_ACCESS_PLATFORM,
        Features::VIRTIO_F_RING_PACKED,
        Features::VIRTIO_F_IN_ORDER,
        Features::VIRTIO_F_ORDER_PLATFORM,
        Features::VIRTIO_F_SR_IOV,
        Features::VIRTIO_F_NOTIFICATION_DATA,
    ]
}

fn all_features_exec() -> (r: Vec<Features>)
    ensures
        r@ == all_features(),
{
    let r = vec![
        Features::VIRTIO_F_RING_INDIRECT_DESC,
        Features::VIRTIO_F_RING_EVENT_IDX,
        Features::VIRTIO_F_VERSION_1,
        Features::VIRTIO_F_ACCESS_PLATFORM,
        Features::VIRTIO_F_RING_PACKED,
        Features::VIRTIO_F_IN_ORDER,
        Features::VIRTIO_F_ORDER_PLATFORM,
        Features::VIRTIO_F_SR_IOV,
        Features::VIRTIO_F_NOTIFICATION_DATA,
    ];
    assert(r@ =~= all_features());
    r
}

/// The features whose bits `bits` sets, in the order of their bits.
pub open spec fn found_features(bits: u64) -> Seq<Features> {
    all_features().filter(|f: Features| bits & f.spec_bits() != 0)
}

/// The bits of all features.
pub const KNOWN_FEATURES: u64 = 0x7f_3000_0000;

/// A single bit among the features' bits: a set either holds all of it or
/// none of it.
proof fn lemma_single_bit_value(s: u64, b: u64)
    by (bit_vector)
    requires
        b == 0x1000_0000 || b == 0x2000_0000 || b == 0x1_0000_0000 || b == 0x2_0000_0000 || b
            == 0x4_0000_0000 || b == 0x8_0000_0000 || b == 0x10_0000_0000 || b == 0x20_0000_0000
            || b == 0x40_0000_0000,
    ensures
        s & b == 0 || s & b == b,
{
}

/// A feature's bit is a single bit: a set either holds all of it or none.
proof fn lemma_single_bit(s: u64, f: Features)
    ensures
        s & f.spec_bits() == 0 || s & f.spec_bits() == f.spec_bits(),
{
    lemma_single_bit_value(s, f.spec_bits());
}

/// Facts of bitwise and and or that the feature proofs use.
proof fn lemma_bit_facts(s: u64, k: u64, b: u64)
    by (bit_vector)
    ensures
        s & 0 == 0,
        0 & b == 0,
        0 | k == k,
        s & b == b ==> (s & k) | b == s & (k | b),
        s & b == 0 ==> s & k == s & (k | b),
{
}

/// What the first `i` features give: the features of them that `s` sets,
/// whose bits are those of `s` among theirs, in increasing order of bits.
proof fn lemma_found_prefix(s: u64, i: int)
    requires
        0 <= i <= 9,
    ensures
        ({
            let v = all_features().take(i).filter(|f: Features| s & f.spec_bits() != 0);
            &&& bits_of(v) == s & bits_of(all_features().take(i))
            &&& forall|a: int, b: int|
                0 <= a < b < v.len() ==> (#[trigger] v[a]).spec_bits() < (#[trigger] v[b]).spec_bits()
            &&& i < 9 ==> forall|a: int|
                0 <= a < v.len() ==> (#[trigger] v[a]).spec_bits() < all_features()[i].spec_bits()
        }),
    decreases i,
{
    let pred = |f: Features| s & f.spec_bits() != 0;
    let all = all_features();
    reveal(Seq::filter);
    if i == 0 {
        assert(all.take(0) =~= Seq::<Features>::empty());
        assert(all.take(0).filter(pred) =~= Seq::<Features>::empty());
        lemma_bit_facts(s, 0, 0);
        if i < 9 {
            assert(all[0] == Features::VIRTIO_F_RING_INDIRECT_DESC);
        }
    } else {
        lemma_found_prefix(s, i - 1);
        let t = all.take(i);
        let sub = all.take(i - 1).filter(pred);
        let x = all[i - 1];
        assert(t.drop_last() =~= all.take(i - 1));
        assert(t.last() == x);
        let k = bits_of(all.take(i - 1));
        let b = x.spec_bits();
        assert(bits_of(t) == k | b);
        lemma_single_bit(s, x);
        if s & b != 0 {
            assert(t.filter(pred) == sub.push(x));
            assert(sub.push(x).drop_last() =~= sub);
            assert(bits_of(sub.push(x)) == bits_of(sub) | b);
            lemma_bit_facts(s, k, b);
        } else {
            assert(t.filter(pred) == sub);
            lemma_bit_facts(s, k, b);
        }
        assert(all[0].spec_bits() < all[1].spec_bits());
        assert(all[1].spec_bits() < all[2].spec_bits());
        assert(all[2].spec_bits() < all[3].spec_bits());
        assert(all[3].spec_bits() < all[4].spec_bits());
        assert(all[4].spec_bits() < all[5].spec_bits());
        assert(all[5].spec_bits() < all[6].spec_bits());
        assert(all[6].spec_bits() < all[7].spec_bits());
        assert(all[7].spec_bits() < all[8].spec_bits());
    }
}

/// The bits of the first `i` features.
spec fn known_upto(i: int) -> u64 {
    if i <= 0 {
        0
    } else if i == 1 {
        0x1000_0000
    } else if i == 2 {
        0x3000_0000
    } else if i == 3 {
        0x1_3000_0000
    } else if i == 4 {
        0x3_3000_0000
    } else if i == 5 {
        0x7_3000_0000
    } else if i == 6 {
        0xf_3000_0000
    } else if i == 7 {
        0x1f_3000_0000
    } else if i == 8 {
        0x3f_3000_0000
    } else {
        0x7f_3000_0000
    }
}

proof fn lemma_known_prefix(i: int)
    requires
        0 <= i <= 9,
    ensures
        bits_of(all_features().take(i)) == known_upto(i),
    decreases i,
{
    let all = all_features();
    if i == 0 {
        assert(all.take(0) =~= Seq::<Features>::empty());
    } else {
        lemma_known_prefix(i - 1);
        assert(all.take(i).drop_last() =~= all.take(i - 1));
        assert(all.take(i).last() == all[i - 1]);
        assert(0u64 | 0x1000_0000u64 == 0x1000_0000u64 && 0x1000_0000u64 | 0x2000_0000u64
            == 0x3000_0000u64 && 0x3000_0000u64 | 0x1_0000_0000u64 == 0x1_3000_0000u64
            && 0x1_3000_0000u64 | 0x2_0000_0000u64 == 0x3_3000_0000u64 && 0x3_3000_0000u64
            | 0x4_0000_0000u64 == 0x7_3000_0000u64 && 0x7_3000_0000u64 | 0x8_0000_0000u64
            == 0xf_3000_0000u64 && 0xf_3000_0000u64 | 0x10_0000_0000u64 == 0x1f_3000_0000u64
            && 0x1f_3000_0000u64 | 0x20_0000_0000u64 == 0x3f_3000_0000u64 && 0x3f_3000_0000u64
            | 0x40_0000_0000u64 == 0x7f_3000_0000u64) by (bit_vector);
    }
}

/// The features `Features::from_set` finds in a set, set again into an
/// empty feature set, give back the set's bits of known features; and they
/// come in strictly increasing order of their bits, so none twice.
pub proof fn lemma_from_set_then_set_features(bits: u64)
    ensures
        0u64 | bits_of(found_features(bits)) == bits & KNOWN_FEATURES,
        forall|a: int, b: int|
            0 <= a < b < found_features(bits).len() ==> (#[trigger] found_features(bits)[a]).spec_bits()
                < (#[trigger] found_features(bits)[b]).spec_bits(),
{
    lemma_found_prefix(bits, 9);
    let all = all_features();
    assert(all.take(9) =~= all);
    lemma_known_prefix(9);
    lemma_bit_facts(0, bits_of(found_features(bits)), 0);
}

/// The union of the bits of `feats`.
pub open spec fn bits_of(feats: Seq<Features>) -> u64
    decreases feats.len(),
{
    if feats.len() == 0 {
        0
    } else {
        bits_of(feats.drop_last()) | feats.last().spec_bits()
    }
}

/// The bits of the features that file system devices and virtio define,
/// wrapped in a `u64`.
#[derive(Clone, Copy, Debug, PartialEq, Eq)]
pub struct FeatureSet(u64);

/// Errors of the virtio file system driver.
#[derive(Clone, Copy, Debug, PartialEq, Eq)]
pub enum VirtioFsError {
    NoDevCfg(u16),
    NoComCfg(u16),
    NoIsrCfg(u16),
    NoNotifCfg(u16),
    FailFeatureNeg(u16),
    /// The feature bits wanted by the driver, which are incompatible with the
    /// device's feature set, the second.
    IncompFeatsSet(FeatureSet, FeatureSet),
    Unknown,
}

impl FeatureSet {
    pub closed spec fn spec_bits(self) -> u64 {
        self.0
    }

    /// Checks whether a set of features adheres to the specification v1.1 -
    /// 5.11.3. None of the file system's features depends on another, so
    /// every set does.
    pub fn check_features(feats: &[Features]) -> (r: Result<(), VirtioFsError>)
        ensures
            r is Ok,
    {
        let mut feat_bits: u64 = 0;
        let mut i: usize = 0;
        while i < feats.len()
            invariant
                0 <= i <= feats@.len(),
            decreases feats@.len() - i,
        {
            feat_bits = feat_bits | feats[i].bits();
            i = i + 1;
        }
        Ok(())
    }

    /// Whether the feature `feat` is set.
    pub fn is_feature(self, feat: Features) -> (r: bool)
        ensures
            r == (self.spec_bits() & feat.spec_bits() != 0),
    {
        self.0 & feat.bits() != 0
    }

    /// Sets the features contained in `feats`.
    pub fn set_features(&mut self, feats: &[Features])
        ensures
            final(self).spec_bits() == old(self).spec_bits() | bits_of(feats@),
    {
        let ghost start = self.0;
        let mut i: usize = 0;
        proof {
            assert(feats@.take(0) =~= Seq::<Features>::empty());
            assert(start | 0u64 == start) by (bit_vector);
        }
        while i < feats.len()
            invariant
                0 <= i <= feats@.len(),
                self.0 == start | bits_of(feats@.take(i as int)),
            decreases feats@.len() - i,
        {
            let b = feats[i].bits();
            proof {
                let t = feats@.take(i + 1);
                assert(t.drop_last() =~= feats@.take(i as int));
                let x = bits_of(feats@.take(i as int));
                assert((start | x) | b == start | (x | b)) by (bit_vector);
            }
            self.0 = self.0 | b;
            i = i + 1;
        }
        assert(feats@.take(feats@.len() as int) =~= feats@);
    }

    /// A feature set with no feature set, whatever `val` holds.
    pub fn new(val: u64) -> (r: Self)
        ensures
            r.spec_bits() == 0,
            forall|f: Features| !#[trigger] r.is_feature_spec(f),
    {
        let r = FeatureSet(0);
        assert forall|f: Features| !#[trigger] r.is_feature_spec(f) by {
            lemma_bit_facts(0, 0, f.spec_bits());
        }
        r
    }

    /// The feature set whose bits are `val`.
    pub fn from_bits(val: u64) -> (r: Self)
        ensures
            r.spec_bits() == val,
    {
        FeatureSet(val)
    }

    /// Whether the feature `feat` is set.
    pub open spec fn is_feature_spec(self, feat: Features) -> bool {
        self.spec_bits() & feat.spec_bits() != 0
    }

    /// The bits of the feature set.
    pub fn bits(self) -> (r: u64)
        ensures
            r == self.spec_bits(),
    {
        self.0
    }

    /// The features of both sets.
    pub fn intersection(self, other: FeatureSet) -> (r: FeatureSet)
        ensures
            r.spec_bits() == self.spec_bits() & other.spec_bits(),
    {
        FeatureSet(self.0 & other.0)
    }
}

/// Negotiates the features `wanted_feats` with a device offering
/// `dev_features`: the features wanted, if the device offers all of them.
pub fn negotiate_features(wanted_feats: &[Features], dev_features: u64) -> (r: Result<
    FeatureSet,
    VirtioFsError,
>)
    ensures
        ({
            let drv = bits_of(wanted_feats@);
            &&& dev_features & drv == drv ==> r == Ok::<FeatureSet, VirtioFsError>(
                FeatureSet::new_spec(drv),
            )
            &&& dev_features & drv != drv ==> r == Err::<FeatureSet, VirtioFsError>(
                VirtioFsError::IncompFeatsSet(FeatureSet::new_spec(drv), FeatureSet::new_spec(dev_features)),
            )
        }),
{
    let mut drv_feats = FeatureSet::new(0);
    drv_feats.set_features(wanted_feats);
    proof {
        let x = bits_of(wanted_feats@);
        assert(0u64 | x == x) by (bit_vector);
    }
    let dev_feats = FeatureSet::from_bits(dev_features);
    match FeatureSet::check_features(wanted_feats) {
        Ok(_) => {},
        Err(fs_err) => return Err(fs_err),
    }
    if (dev_feats.0 & drv_feats.0) == drv_feats.0 {
        Ok(drv_feats)
    } else {
        Err(VirtioFsError::IncompFeatsSet(drv_feats, dev_feats))
    }
}

impl FeatureSet {
    /// The feature set of the bits `val`.
    pub closed spec fn new_spec(val: u64) -> FeatureSet {
        FeatureSet(val)
    }
}

/// Every feature of `feats` is set after [`FeatureSet::set_features`] set
/// them: a feature set by `set_features` reads back as set by `is_feature`.
pub proof fn lemma_set_features_then_is_feature(start: u64, feats: Seq<Features>, i: int)
    requires
        0 <= i < feats.len(),
    ensures
        (start | bits_of(feats)) & feats[i].spec_bits() != 0,
    decreases feats.len(),
{
    let b = feats[i].spec_bits();
    let x = bits_of(feats);
    assert(b != 0);
    if i == feats.len() - 1 {
        let y = bits_of(feats.drop_last());
        assert(b != 0 ==> ((start | (y | b)) & b) != 0) by (bit_vector);
    } else {
        lemma_set_features_then_is_feature(start, feats.drop_last(), i);
        let y = bits_of(feats.drop_last());
        let c = feats.last().spec_bits();
        assert(feats.drop_last()[i] == feats[i]);
        assert(((start | y) & b) != 0 ==> ((start | (y | c)) & b) != 0) by (bit_vector);
    }
}

} // verus!
