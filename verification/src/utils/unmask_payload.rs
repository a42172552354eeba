use vstd::prelude::*;

verus! {

/// The payload with byte `i` XORed with `mask[i % 4]`.
pub open spec fn apply_mask(payload: Seq<u8>, mask: Seq<u8>) -> Seq<u8>
    recommends
        mask.len() == 4,
{
    Seq::new(payload.len(), |i: int| payload[i] ^ mask[i % 4])
}

/// Masking is its own inverse: applying the same key twice gives the
/// payload back.
pub proof fn lemma_apply_mask_involution(payload: Seq<u8>, mask: Seq<u8>)
    requires
        mask.len() == 4,
    ensures
        apply_mask(apply_mask(payload, mask), mask) == payload,
{
    let once = apply_mask(payload, mask);
    let twice = apply_mask(once, mask);
    assert forall|i: int| 0 <= i < payload.len() implies twice[i] == payload[i] by {
        let p = payload[i];
        let k = mask[i % 4];
        assert((p ^ k) ^ k == p) by (bit_vector);
    }
}

/// Removes (or applies) the masking key over a payload.
pub fn unmask_payload(payload: &[u8], mask: &[u8; 4]) -> (unmasked: Vec<u8>)
    ensures
        unmasked@ == apply_mask(payload@, mask@),
{
    let mut unmasked_payload: Vec<u8> = Vec::with_capacity(payload.len());
    let mut i: usize = 0;
    while i < payload.len()
        invariant
            i <= payload.len(),
            unmasked_payload@ == apply_mask(payload@.take(i as int), mask@),
        decreases payload.len() - i,
    {
        unmasked_payload.push(payload[i] ^ mask[i % 4]);
        i += 1;
    }
    unmasked_payload
}

} // verus!
