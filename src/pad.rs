use vstd::prelude::*;

verus! {

/// The length that `pad_vec` grows a buffer of `len` items to: the length
/// plus its remainder modulo `block_size`.
pub open spec fn padded_len(len: nat, block_size: nat) -> nat {
    len + len % block_size
}

/// Grows `vec` by `vec.len() % block_size` default items, keeping what it held.
pub fn pad_vec<T: Clone + Default>(vec: &mut Vec<T>, block_size: usize)
    requires
        block_size > 0,
        old(vec)@.len() + old(vec)@.len() % (block_size as nat) <= usize::MAX,
    ensures
        final(vec)@.len() == padded_len(old(vec)@.len(), block_size as nat),
        final(vec)@.subrange(0, old(vec)@.len() as int) == old(vec)@,
{
    let len = vec.len();
    let pad = len % block_size;
    vec.resize(len + pad, T::default());
}

} // verus!
