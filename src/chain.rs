use vstd::prelude::*;

verus! {

/// `address + offset` on 64-bit addresses, wrapping past the top.
pub open spec fn hop(address: u64, offset: u32) -> u64 {
    ((address as int + offset as int) % 0x1_0000_0000_0000_0000) as u64
}

/// Where the walk reads on hop `i` (for `i < offsets.len() - 1`), where
/// `values[j]` is what the read of hop `j` returned.
pub open spec fn read_address(base: u64, offsets: Seq<u32>, values: Seq<u64>, i: int) -> u64 {
    hop(if i == 0 { base } else { values[i - 1] }, offsets[i])
}

/// The address the walk resolves to: the last offset is added to the last
/// value read (to `base` when there is a single offset) and is not followed.
pub open spec fn resolved_address(base: u64, offsets: Seq<u32>, values: Seq<u64>) -> u64 {
    let n = offsets.len() as int;
    hop(if n == 1 { base } else { values[n - 2] }, offsets[n - 1])
}

/// `address + offset`, wrapping past the top of the address space.
pub fn offset_address(address: u64, offset: u32) -> (r: u64)
    ensures
        r == hop(address, offset),
{
    address.wrapping_add(offset as u64)
}

} // verus!
