use vstd::prelude::*;

verus! {

/// Appends `source[from..to]` to `bytes`.
pub fn push_range(bytes: &mut Vec<u8>, source: &[u8], from: usize, to: usize)
    requires
        from <= to <= source.len(),
    ensures
        final(bytes)@ == old(bytes)@ + source@.subrange(from as int, to as int),
{
    let mut i: usize = from;
    while i < to
        invariant
            from <= i <= to <= source.len(),
            bytes@ == old(bytes)@ + source@.subrange(from as int, i as int),
        decreases to - i,
    {
        bytes.push(source[i]);
        i += 1;
    }
}

} // verus!
