//! Deleting rows of a dataset.
use crate::numbers;
use vstd::prelude::*;

verus! {

/// How many fragments are gone, given how many there were and how many there are.
pub open spec fn fragments_gone(old_fragments: int, new_fragments: int) -> int {
    if old_fragments > new_fragments {
        old_fragments - new_fragments
    } else {
        0
    }
}

/// How many fragments deleting removed, given how many there were and how many there are; 0 where
/// there are more.
pub fn lance_delete_impl(old_fragments: usize, new_fragments: usize) -> (removed: i64)
    requires
        i64::MIN <= numbers::wrapped_i64(old_fragments as u64) - numbers::wrapped_i64(
            new_fragments as u64,
        ) <= i64::MAX,
    ensures
        removed == (if numbers::wrapped_i64(old_fragments as u64) > numbers::wrapped_i64(
            new_fragments as u64,
        ) {
            numbers::wrapped_i64(old_fragments as u64) - numbers::wrapped_i64(new_fragments as u64)
        } else {
            0
        }),
        removed == fragments_gone(
            numbers::wrapped_i64(old_fragments as u64) as int,
            numbers::wrapped_i64(new_fragments as u64) as int,
        ),
{
    let removed: i64 = numbers::wrap_i64(old_fragments as u64) - numbers::wrap_i64(
        new_fragments as u64,
    );
    if removed > 0 {
        removed
    } else {
        0
    }
}

/// The fragments that are gone and those that are left are those that were there; where there are
/// more than before none is gone, and never is a number of them negative.
pub proof fn gone_and_left_make_up_all(old_fragments: int, new_fragments: int)
    ensures
        fragments_gone(old_fragments, new_fragments) >= 0,
        new_fragments <= old_fragments ==> fragments_gone(old_fragments, new_fragments)
            + new_fragments == old_fragments,
        new_fragments >= old_fragments ==> fragments_gone(old_fragments, new_fragments) == 0,
{
}

} // verus!
