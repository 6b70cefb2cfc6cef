//! What the owner and group columns show.

use crate::entry::found_text;
use crate::text::decimal_string;
use crate::text::decimal_text;
use vstd::prelude::*;

verus! {

/// What an owner or group column shows: the name that was found for the
/// identifier, and the identifier in decimal where none was found.
pub open spec fn label_text(resolved: Option<Seq<char>>, id: u32) -> Seq<char> {
    match resolved {
        Some(name) => name,
        None => decimal_text(id as nat),
    }
}

/// The text of an owner or group column, given what the lookup of `id` gave.
pub fn owner_label(resolved: Option<String>, id: u32) -> (label: String)
    ensures
        label@ == label_text(found_text(resolved), id),
{
    match resolved {
        Some(name) => name,
        None => decimal_string(id as u64),
    }
}

} // verus!
