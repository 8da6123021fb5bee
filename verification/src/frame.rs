//! Measurements on finished RGBA frames.

use vstd::prelude::*;

verus! {

/// The alpha byte of pixel `i` in an RGBA byte sequence.
pub open spec fn alpha_at(rgba: Seq<u8>, i: int) -> u8 {
    rgba[4 * i + 3]
}

/// How many of the first `n` pixels have a non-zero alpha byte.
pub open spec fn covered_count(rgba: Seq<u8>, n: nat) -> nat
    decreases n,
{
    if n == 0 {
        0
    } else {
        covered_count(rgba, (n - 1) as nat) + if alpha_at(rgba, n - 1) > 0 {
            1nat
        } else {
            0nat
        }
    }
}

proof fn lemma_covered_count_bound(rgba: Seq<u8>, n: nat)
    ensures
        covered_count(rgba, n) <= n,
    decreases n,
{
    if n > 0 {
        lemma_covered_count_bound(rgba, (n - 1) as nat);
    }
}

/// How many whole pixels of an RGBA frame have a non-zero alpha byte.
///
/// Up to three trailing bytes that do not form a whole pixel are ignored.
pub fn covered_pixels(rgba: &[u8]) -> (count: u64)
    ensures
        count == covered_count(rgba@, rgba@.len() / 4),
{
    let len: usize = rgba.len();
    let pixels: usize = len / 4;
    let mut count: u64 = 0;
    let mut i: usize = 0;
    while i < pixels
        invariant
            i <= pixels,
            len == rgba@.len(),
            pixels == len / 4,
            count == covered_count(rgba@, i as nat),
            count <= i,
        decreases pixels - i,
    {
        if rgba[4 * i + 3] > 0 {
            count = count + 1;
        }
        i = i + 1;
        proof {
            lemma_covered_count_bound(rgba@, i as nat);
        }
    }
    count
}

/// A frame has as many covered pixels as there are whole pixels in it whose
/// fourth byte, the alpha, is not zero.
pub proof fn law_covered_pixels_are_those_with_alpha(rgba: Seq<u8>, n: nat)
    ensures
        ({
            let covered = vstd::set_lib::set_int_range(0, n as int).filter(
                |i: int| rgba[4 * i + 3] != 0,
            );
            covered.finite() && covered_count(rgba, n) == covered.len()
        }),
    decreases n,
{
    let shows = |i: int| rgba[4 * i + 3] != 0;
    let all = vstd::set_lib::set_int_range(0, n as int);
    vstd::set_lib::lemma_int_range(0, n as int);
    if n == 0 {
        assert(all.filter(shows) =~= Set::empty());
    } else {
        law_covered_pixels_are_those_with_alpha(rgba, (n - 1) as nat);
        let before = vstd::set_lib::set_int_range(0, n - 1).filter(shows);
        if shows(n - 1) {
            assert(all.filter(shows) =~= before.insert(n - 1));
        } else {
            assert(all.filter(shows) =~= before);
        }
    }
}

} // verus!
