//! A snapshot of the 16-key keypad: one bit per logical key.
use vstd::prelude::*;

verus! {

/// Keys `0x0..=0xF` held down, and keys released since the last check; key
/// `k` is bit `k` of each mask.
#[derive(Clone, Copy, Debug, PartialEq, Eq)]
pub struct Keypad {
    pub pressed: u16,
    pub released: u16,
}

/// Whether key `k` is in `mask`.
pub open spec fn has_key(mask: u16, k: u8) -> bool {
    (mask >> k as u16) & 1u16 == 1u16
}

/// The lowest key in `0x0..0xF` (key `0xF` is never reported) that is in
/// `mask`.
pub open spec fn lowest_key(mask: u16) -> Option<u8> {
    if exists|k: u8| k < 15 && has_key(mask, k) {
        Some(choose|k: u8| k < 15 && has_key(mask, k) && forall|j: u8| j < k ==> !has_key(mask, j))
    } else {
        None
    }
}

/// Whether key `k` is in `mask`.
pub fn key_in(mask: u16, k: u8) -> (r: bool)
    requires
        k < 16,
    ensures
        r == has_key(mask, k),
{
    (mask >> k as u16) & 1u16 == 1u16
}

/// The lowest key below `0xF` that is in `mask`, if any.
pub fn first_key(mask: u16) -> (r: Option<u8>)
    ensures
        r == lowest_key(mask),
        r matches Some(k) ==> k < 15 && has_key(mask, k) && forall|j: u8| j < k ==> !has_key(mask, j),
        r is None ==> forall|j: u8| j < 15 ==> !has_key(mask, j),
{
    let mut k: u8 = 0;
    while k < 15
        invariant
            k <= 15,
            forall|j: u8| j < k ==> !has_key(mask, j),
        decreases 15 - k,
    {
        if key_in(mask, k) {
            proof {
                let c = choose|c: u8| c < 15 && has_key(mask, c) && forall|j: u8| j < c ==> !has_key(mask, j);
                assert(c == k) by {
                    if c < k {
                        assert(!has_key(mask, c));
                    } else if k < c {
                        assert(!has_key(mask, k));
                    }
                }
            }
            return Some(k);
        }
        k = k + 1;
    }
    None
}

} // verus!
