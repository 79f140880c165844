//! Rendering unsigned numbers as decimal text.

use vstd::prelude::*;

verus! {

/// The decimal digits of a non-negative number, most significant first.
pub open spec fn spec_u64_dec(n: int) -> Seq<u8>
    decreases n,
{
    if n < 0 {
        Seq::empty()
    } else if n < 10 {
        seq![(48 + n) as u8]
    } else {
        spec_u64_dec(n / 10) + seq![(48 + n % 10) as u8]
    }
}

/// Renders a number as decimal text, exactly as [`spec_u64_dec`] describes.
pub fn u64_dec(n: u64) -> (r: Vec<u8>)
    ensures
        r@ == spec_u64_dec(n as int),
    decreases n,
{
    if n < 10 {
        let r = vec![48 + n as u8];
        proof {
            assert(r@ =~= spec_u64_dec(n as int));
        }
        r
    } else {
        let mut r = u64_dec(n / 10);
        r.push(48 + (n % 10) as u8);
        proof {
            assert(r@ =~= spec_u64_dec(n as int / 10) + seq![(48 + n as int % 10) as u8]);
        }
        r
    }
}

/// Appends a piece of text.
pub fn push_all(out: &mut Vec<u8>, piece: &[u8])
    ensures
        final(out)@ == old(out)@ + piece@,
{
    let mut q: usize = 0;
    proof {
        assert(out@ + piece@.take(0) =~= out@);
    }
    while q < piece.len()
        invariant
            q <= piece@.len(),
            out@ == old(out)@ + piece@.take(q as int),
        decreases piece@.len() - q,
    {
        out.push(piece[q]);
        proof {
            assert((old(out)@ + piece@.take(q as int)).push(piece@[q as int]) =~= old(out)@
                + piece@.take(q + 1 as int));
        }
        q = q + 1;
    }
    proof {
        assert(old(out)@ + piece@.take(piece@.len() as int) =~= old(out)@ + piece@);
    }
}

} // verus!
