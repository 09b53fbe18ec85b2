//! What the conversions of the corpus make of a number.

use vstd::prelude::*;

use crate::fixtures::product_conversions::{
    checked_count, defaulting_count, saturating_count, suppressed_saturation, truncating_len,
};

verus! {

/// A number that fits is kept by every conversion. One that does not is refused by the checked
/// conversion alone; the others put the largest number, or zero, in its place.
pub proof fn law_numbers_that_fit_are_kept(
    count: usize,
    large: u64,
    checked: Option<i32>,
    saturated: i32,
    suppressed: i32,
    defaulted: u32,
    truncated: u16,
)
    requires
        call_ensures(checked_count, (count,), checked),
        call_ensures(saturating_count, (count,), saturated),
        call_ensures(suppressed_saturation, (count,), suppressed),
        call_ensures(truncating_len, (count,), truncated),
        call_ensures(defaulting_count, (large,), defaulted),
    ensures
        checked is None <==> count > 0x7fff_ffff,
        checked matches Some(value) ==> value == count && saturated == value,
        checked is None ==> saturated == 0x7fff_ffff,
        suppressed == saturated,
        count < 0x1_0000 ==> truncated == count,
        count >= 0x1_0000 ==> truncated == 0xffff,
        large < 0x1_0000_0000 ==> defaulted == large,
        large >= 0x1_0000_0000 ==> defaulted == 0,
{
}

} // verus!
