//! Coastline line strips: index runs separated by primitive-restart markers.
use vstd::prelude::*;

verus! {

/// The primitive-restart marker between strips.
pub const RESTART: u32 = 0xFFFF_FFFF;

/// Closes the strip made of vertices `start..end`: a strip of at least two
/// vertices gets their indices and a restart marker (`true`); a shorter one
/// adds nothing (`false`) and the caller drops its vertices.
pub fn close_strip(idx: &mut Vec<u32>, start: usize, end: usize) -> (kept: bool)
    requires
        start <= end,
    ensures
        kept == (end - start >= 2),
        !kept ==> final(idx)@ == old(idx)@,
        kept ==> final(idx)@ == old(idx)@ + Seq::new((end - start) as nat, |i: int| (start + i) as u32)
            + seq![RESTART],
{
    if end - start < 2 {
        return false;
    }
    let ghost before = idx@;
    let mut i = start;
    while i < end
        invariant
            start <= i <= end,
            idx@ == before + Seq::new((i - start) as nat, |k: int| (start + k) as u32),
        decreases end - i,
    {
        idx.push(i as u32);
        i = i + 1;
        assert(idx@ =~= before + Seq::new((i - start) as nat, |k: int| (start + k) as u32));
    }
    idx.push(RESTART);
    true
}

} // verus!
