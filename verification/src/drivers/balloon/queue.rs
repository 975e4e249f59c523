use vstd::prelude::*;

verus! {

/// The little-endian bytes of `v`.
pub open spec fn le_bytes(v: u32) -> Seq<u8> {
    seq![
        (v & 0xff) as u8,
        ((v >> 8) & 0xff) as u8,
        ((v >> 16) & 0xff) as u8,
        ((v >> 24) & 0xff) as u8,
    ]
}

/// The value of the little-endian bytes `b0`, `b1`, `b2`, `b3`.
pub open spec fn from_le(b0: u8, b1: u8, b2: u8, b3: u8) -> u32 {
    (b0 as u32) | ((b1 as u32) << 8) | ((b2 as u32) << 16) | ((b3 as u32) << 24)
}

/// The bytes sent into a balloon queue for the page indices `indices`: each
/// index as four little-endian bytes.
pub open spec fn encode_page_indices(indices: Seq<u32>) -> Seq<u8>
    decreases indices.len(),
{
    if indices.len() == 0 {
        Seq::empty()
    } else {
        encode_page_indices(indices.drop_last()) + le_bytes(indices.last())
    }
}

proof fn lemma_from_le_bytes(v: u32)
    ensures
        from_le(
            (v & 0xff) as u8,
            ((v >> 8) & 0xff) as u8,
            ((v >> 16) & 0xff) as u8,
            ((v >> 24) & 0xff) as u8,
        ) == v,
{
    assert(((v & 0xff) as u8 as u32) | ((((v >> 8) & 0xff) as u8 as u32) << 8) | ((((v >> 16)
        & 0xff) as u8 as u32) << 16) | ((((v >> 24) & 0xff) as u8 as u32) << 24) == v)
        by (bit_vector);
}

proof fn lemma_encode_len(indices: Seq<u32>)
    ensures
        encode_page_indices(indices).len() == 4 * indices.len(),
    decreases indices.len(),
{
    if indices.len() > 0 {
        lemma_encode_len(indices.drop_last());
    }
}

proof fn lemma_encode_index(indices: Seq<u32>, i: int, k: int)
    requires
        0 <= i < indices.len(),
        0 <= k < 4,
    ensures
        encode_page_indices(indices)[4 * i + k] == le_bytes(indices[i])[k],
    decreases indices.len(),
{
    lemma_encode_len(indices.drop_last());
    if i < indices.len() - 1 {
        lemma_encode_index(indices.drop_last(), i, k);
    }
}

/// Encodes page indices as the little-endian bytes the balloon queues carry.
pub fn page_indices_to_bytes(indices: &[u32]) -> (r: Vec<u8>)
    requires
        indices@.len() * 4 <= usize::MAX,
    ensures
        r@ == encode_page_indices(indices@),
{
    let mut r: Vec<u8> = Vec::new();
    let mut i: usize = 0;
    while i < indices.len()
        invariant
            0 <= i <= indices@.len(),
            r@ == encode_page_indices(indices@.subrange(0, i as int)),
        decreases indices@.len() - i,
    {
        let v = indices[i];
        r.push((v & 0xff) as u8);
        r.push(((v >> 8) & 0xff) as u8);
        r.push(((v >> 16) & 0xff) as u8);
        r.push(((v >> 24) & 0xff) as u8);
        proof {
            let s = indices@.subrange(0, i + 1);
            assert(s.drop_last() =~= indices@.subrange(0, i as int));
            assert(s.last() == v);
            assert(r@ =~= encode_page_indices(indices@.subrange(0, i as int)) + le_bytes(v));
        }
        i = i + 1;
    }
    assert(indices@.subrange(0, indices@.len() as int) =~= indices@);
    r
}

/// Decodes the page indices in the bytes of a used balloon buffer, four
/// little-endian bytes each.
pub fn page_indices_from_bytes(bytes: &[u8]) -> (r: Vec<u32>)
    requires
        bytes@.len() % 4 == 0,
    ensures
        r@.len() == bytes@.len() / 4,
        forall|i: int|
            0 <= i < r@.len() ==> #[trigger] r@[i] == from_le(
                bytes@[4 * i],
                bytes@[4 * i + 1],
                bytes@[4 * i + 2],
                bytes@[4 * i + 3],
            ),
{
    let mut r: Vec<u32> = Vec::new();
    let n = bytes.len() / 4;
    let mut i: usize = 0;
    while i < n
        invariant
            n == bytes@.len() / 4,
            bytes@.len() % 4 == 0,
            bytes@.len() <= usize::MAX,
            0 <= i <= n,
            r@.len() == i,
            forall|j: int|
                0 <= j < i ==> #[trigger] r@[j] == from_le(
                    bytes@[4 * j],
                    bytes@[4 * j + 1],
                    bytes@[4 * j + 2],
                    bytes@[4 * j + 3],
                ),
        decreases n - i,
    {
        assert(4 * i + 3 < bytes@.len()) by (nonlinear_arith)
            requires
                i < n,
                n == bytes@.len() / 4,
        ;
        let b0 = bytes[4 * i];
        let b1 = bytes[4 * i + 1];
        let b2 = bytes[4 * i + 2];
        let b3 = bytes[4 * i + 3];
        r.push((b0 as u32) | ((b1 as u32) << 8) | ((b2 as u32) << 16) | ((b3 as u32) << 24));
        i = i + 1;
    }
    r
}

/// Decoding what was encoded gives the page indices back.
pub proof fn lemma_page_indices_round_trip(indices: Seq<u32>)
    ensures
        ({
            let b = encode_page_indices(indices);
            &&& b.len() == 4 * indices.len()
            &&& forall|i: int|
                0 <= i < indices.len() ==> from_le(
                    #[trigger] b[4 * i],
                    b[4 * i + 1],
                    b[4 * i + 2],
                    b[4 * i + 3],
                ) == indices[i]
        }),
{
    lemma_encode_len(indices);
    let b = encode_page_indices(indices);
    assert forall|i: int| 0 <= i < indices.len() implies from_le(
        #[trigger] b[4 * i],
        b[4 * i + 1],
        b[4 * i + 2],
        b[4 * i + 3],
    ) == indices[i] by {
        lemma_encode_index(indices, i, 0);
        lemma_encode_index(indices, i, 1);
        lemma_encode_index(indices, i, 2);
        lemma_encode_index(indices, i, 3);
        lemma_from_le_bytes(indices[i]);
    }
}

} // verus!
