//! From what a scan of a directory found to the rows of the listing.

use crate::columns::{
    basic_mode, binary_mode, group_and_owner_mode, kind_of, mac_mode, permission_mode,
    permission_text, size_mode, Basic, Binary, GroupOwner, Permission, Size, MAC,
};
use crate::date::date_text;
use crate::entry::{DirectoryEntry, EntryView};
use crate::filter::{collect_entries, filter_entries, kept_entries, readable_entries};
use crate::order::SortField;
use crate::owner::label_text;
use crate::size::size_text;
use crate::sort::{ordered, reverse_entries, sort_entries};
use crate::text::decimal_text;
use vstd::prelude::*;
use vstd::string::StringExecFns;

verus! {

/// Why a path cannot be listed.
#[derive(Clone, Copy, Debug, PartialEq, Eq, Structural)]
pub enum ListingError {
    /// Whether the path exists could not be found out.
    PathUnknown,
    /// The path does not exist.
    PathMissing,
}

/// The line that reports an error.
pub open spec fn error_text(error: ListingError) -> Seq<char> {
    match error {
        ListingError::PathUnknown => "error: Can't read directory."@,
        ListingError::PathMissing => "error: Path doesn't exist. (try other location)"@,
    }
}

impl ListingError {
    /// The line that reports this error.
    pub fn message(&self) -> (s: String)
        ensures
            s@ == error_text(*self),
    {
        match self {
            ListingError::PathUnknown => String::from_str("error: Can't read directory."),
            ListingError::PathMissing => String::from_str(
                "error: Path doesn't exist. (try other location)",
            ),
        }
    }
}

/// Decides from the outcome of the existence test whether the path is listed:
/// `Some(true)` where it exists, `Some(false)` where it does not, `None` where
/// the test itself failed.
pub fn check_path(existence: Option<bool>) -> (r: Result<(), ListingError>)
    ensures
        r == match existence {
            Some(true) => Ok::<(), ListingError>(()),
            Some(false) => Err::<(), ListingError>(ListingError::PathMissing),
            None => Err::<(), ListingError>(ListingError::PathUnknown),
        },
{
    match existence {
        Some(true) => Ok(()),
        Some(false) => Err(ListingError::PathMissing),
        None => Err(ListingError::PathUnknown),
    }
}

/// The line that names the listed path.
pub fn path_header(path: &str) -> (s: String)
    ensures
        s@ == "Path: "@ + path@,
{
    let mut s = String::from_str("Path: ");
    s.append(path);
    s
}

/// The content of a scan: what was found for each child, or `None` where the
/// directory could not be read.
pub open spec fn scan_view(scan: Option<Vec<Option<DirectoryEntry>>>) -> Option<
    Seq<Option<DirectoryEntry>>,
> {
    match scan {
        Some(found) => Some(found@),
        None => None,
    }
}

/// The entries of a listing in their final order: the children that could be
/// read, of those the ones that pass the filter, sorted stably by `sort`, and
/// the whole list inverted where `reverse` is set.
pub open spec fn listing_of(
    scan: Option<Seq<Option<DirectoryEntry>>>,
    show_hidden: bool,
    reverse: bool,
    directories_only: bool,
    sort: SortField,
    git_ignore: bool,
) -> Seq<DirectoryEntry> {
    ordered(
        kept_entries(readable_entries(scan), show_hidden, directories_only, git_ignore),
        sort,
        reverse,
    )
}

/// Collects, filters and orders the entries of a listing.
pub fn arrange_entries(
    scan: Option<Vec<Option<DirectoryEntry>>>,
    show_hidden: bool,
    reverse: bool,
    directories_only: bool,
    sort: SortField,
    git_ignore: bool,
) -> (listing: Vec<DirectoryEntry>)
    ensures
        listing@ == listing_of(
            scan_view(scan),
            show_hidden,
            reverse,
            directories_only,
            sort,
            git_ignore,
        ),
{
    let readable = collect_entries(scan);
    let kept = filter_entries(readable, show_hidden, directories_only, git_ignore);
    let sorted = sort_entries(kept, sort);
    if reverse {
        reverse_entries(sorted)
    } else {
        sorted
    }
}

/// The formatted columns of one entry.
#[derive(Debug)]
pub struct DisplayRow {
    pub basic: Basic,
    pub size: Size,
    pub binary: Binary,
    pub group_owner: GroupOwner,
    pub mac: MAC,
    pub permission: Permission,
}

/// `row` shows the entry `e`: each of its columns holds what that column shows
/// for `e`.
pub open spec fn row_shows(row: DisplayRow, e: EntryView) -> bool {
    &&& row.basic.name@ == e.name
    &&& row.basic.types == kind_of(e.is_directory)
    &&& row.size.size@ == size_text(e.size_bytes as nat)
    &&& row.binary.size@ == decimal_text(e.size_bytes as nat)
    &&& row.group_owner.owner@ == label_text(e.owner_name, e.owner_id)
    &&& row.group_owner.group@ == label_text(e.group_name, e.group_id)
    &&& row.mac.modified@ == date_text(e.modified)
    &&& row.mac.accessed@ == date_text(e.accessed)
    &&& row.mac.created@ == date_text(e.created)
    &&& row.permission.permission@ == permission_text(e.is_directory, e.permission_bits)
}

/// The rows of a listing: one for each entry that was read and passes the
/// filter, in the order that `sort` and `reverse` give.
pub fn get_files(
    scan: Option<Vec<Option<DirectoryEntry>>>,
    show_hidden: bool,
    reverse: bool,
    directories_only: bool,
    sort: SortField,
    git_ignore: bool,
) -> (rows: Vec<DisplayRow>)
    ensures
        rows.len() == listing_of(
            scan_view(scan),
            show_hidden,
            reverse,
            directories_only,
            sort,
            git_ignore,
        ).len(),
        forall|i: int|
            0 <= i < rows.len() ==> row_shows(
                #[trigger] rows[i],
                listing_of(
                    scan_view(scan),
                    show_hidden,
                    reverse,
                    directories_only,
                    sort,
                    git_ignore,
                )[i]@,
            ),
{
    let listing = arrange_entries(scan, show_hidden, reverse, directories_only, sort, git_ignore);
    let mut rows: Vec<DisplayRow> = Vec::new();
    let mut i: usize = 0;
    while i < listing.len()
        invariant
            i <= listing.len(),
            rows.len() == i,
            forall|j: int| 0 <= j < i ==> row_shows(#[trigger] rows[j], listing[j]@),
        decreases listing.len() - i,
    {
        let entry = &listing[i];
        let row = DisplayRow {
            basic: basic_mode(entry),
            size: size_mode(entry),
            binary: binary_mode(entry),
            group_owner: group_and_owner_mode(entry),
            mac: mac_mode(entry),
            permission: permission_mode(entry),
        };
        rows.push(row);
        i = i + 1;
    }
    rows
}

} // verus!
