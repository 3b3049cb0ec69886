//! Search logic of a content source for the zaimanhua manga site: matching
//! author names, collecting author tags, the fuzzy fallback, merging results
//! without repeated IDs, and the author search as a step-by-step machine that
//! the host-facing code drives.

use vstd::prelude::*;

pub mod account;
pub mod details;
pub mod fuzzy;
pub mod idset;
pub mod keyword;
pub mod listing;
pub mod matcher;
pub mod merger;
pub mod queries;
pub mod models;
pub mod news;
pub mod search;
pub mod session;
pub mod tags;
pub mod text;

verus! {

/// Whether a listing item is kept out of view: it is, unless hidden content
/// is shown, when the item's hidden flag is exactly 1 (an absent flag counts as 0).
pub fn should_hide_item(hidden_status: Option<i32>, show_hidden: bool) -> (r: bool)
    ensures
        r == (!show_hidden && hidden_status == Some(1i32)),
{
    if show_hidden {
        return false;
    }
    match hidden_status {
        Some(v) => v == 1,
        None => false,
    }
}

} // verus!
