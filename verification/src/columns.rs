//! The display columns, each formatted from one entry alone.

use crate::date::{date_column, date_text};
use crate::entry::{found_text, DirectoryEntry};
use crate::owner::{label_text, owner_label};
use crate::size::{human_readable_size, size_text};
use crate::text::{decimal_string, decimal_text};
use vstd::prelude::*;
use vstd::string::StringExecFns;

verus! {

/// The two kinds that the type column tells apart.
#[derive(Clone, Copy, Debug, PartialEq, Eq, Structural)]
pub enum Types {
    File,
    Dir,
}

/// Name and kind: the columns that every listing shows.
#[derive(Debug)]
pub struct Basic {
    pub name: String,
    pub types: Types,
}

/// The human-readable size.
#[derive(Debug)]
pub struct Size {
    pub size: String,
}

/// The times of modification, access and creation, as dates.
#[derive(Debug)]
pub struct MAC {
    pub modified: String,
    pub accessed: String,
    pub created: String,
}

/// The permission string.
#[derive(Debug)]
pub struct Permission {
    pub permission: String,
}

/// The byte count in full.
#[derive(Debug)]
pub struct Binary {
    pub size: String,
}

/// The owning user and group.
#[derive(Debug)]
pub struct GroupOwner {
    pub owner: String,
    pub group: String,
}

/// The kind that the type column shows for an entry.
pub open spec fn kind_of(is_directory: bool) -> Types {
    if is_directory {
        Types::Dir
    } else {
        Types::File
    }
}

/// The word that the type column shows for a kind.
pub open spec fn kind_text(kind: Types) -> Seq<char> {
    match kind {
        Types::File => "File"@,
        Types::Dir => "Dir"@,
    }
}

/// The letter for one permission bit: `letter` where `mode` has a bit of
/// `mask` set, and `-` where it has not.
pub open spec fn permission_flag(mode: u32, mask: u32, letter: char) -> char {
    if mode & mask != 0 {
        letter
    } else {
        '-'
    }
}

/// The ten characters of a permission string: `d` for a directory and `-` for
/// anything else, then read, write and execute for the owner, for the group
/// and for all others.
pub open spec fn permission_text(is_directory: bool, mode: u32) -> Seq<char> {
    seq![
        if is_directory {
            'd'
        } else {
            '-'
        },
        permission_flag(mode, 0o400, 'r'),
        permission_flag(mode, 0o200, 'w'),
        permission_flag(mode, 0o100, 'x'),
        permission_flag(mode, 0o40, 'r'),
        permission_flag(mode, 0o20, 'w'),
        permission_flag(mode, 0o10, 'x'),
        permission_flag(mode, 0o4, 'r'),
        permission_flag(mode, 0o2, 'w'),
        permission_flag(mode, 0o1, 'x'),
    ]
}

impl Types {
    /// The word that the type column shows.
    pub fn label(&self) -> (s: String)
        ensures
            s@ == kind_text(*self),
    {
        match self {
            Types::File => String::from_str("File"),
            Types::Dir => String::from_str("Dir"),
        }
    }
}

/// The name under which an entry is listed: its file name where that could be
/// decoded, else a fixed placeholder.
pub fn name_or_placeholder(decoded: Option<String>) -> (name: String)
    ensures
        name@ == match decoded {
            Some(text) => text@,
            None => "UNKNOWN NAME"@,
        },
{
    match decoded {
        Some(text) => text,
        None => String::from_str("UNKNOWN NAME"),
    }
}

/// Name and kind of an entry.
pub fn basic_mode(entry: &DirectoryEntry) -> (r: Basic)
    ensures
        r.name@ == entry@.name,
        r.types == kind_of(entry@.is_directory),
{
    Basic {
        name: entry.name().clone(),
        types: if entry.is_directory() {
            Types::Dir
        } else {
            Types::File
        },
    }
}

/// The size of an entry in human-readable form.
pub fn size_mode(entry: &DirectoryEntry) -> (r: Size)
    ensures
        r.size@ == size_text(entry@.size_bytes as nat),
{
    Size { size: human_readable_size(entry.size_bytes()) }
}

/// The dates of the three timestamps of an entry; a timestamp that is missing
/// gives an empty text.
pub fn mac_mode(entry: &DirectoryEntry) -> (r: MAC)
    ensures
        r.modified@ == date_text(entry@.modified),
        r.accessed@ == date_text(entry@.accessed),
        r.created@ == date_text(entry@.created),
{
    MAC {
        modified: date_column(entry.modified()),
        accessed: date_column(entry.accessed()),
        created: date_column(entry.created()),
    }
}

fn flag_str(mode: u32, mask: u32, letter: &'static str) -> (s: &'static str)
    requires
        letter@.len() == 1,
    ensures
        s@ == seq![permission_flag(mode, mask, letter@[0])],
{
    proof {
        reveal_strlit("-");
    }
    let s = if mode & mask != 0 {
        letter
    } else {
        "-"
    };
    assert(s@ =~= seq![permission_flag(mode, mask, letter@[0])]);
    s
}

/// The permission string of an entry.
pub fn permission_mode(entry: &DirectoryEntry) -> (r: Permission)
    ensures
        r.permission@ == permission_text(entry@.is_directory, entry@.permission_bits),
{
    let mode: u32 = entry.permission_bits();
    proof {
        reveal_strlit("d");
        reveal_strlit("-");
        reveal_strlit("r");
        reveal_strlit("w");
        reveal_strlit("x");
    }
    let mut text = String::new();
    text.append(if entry.is_directory() {
        "d"
    } else {
        "-"
    });
    text.append(flag_str(mode, 0o400, "r"));
    text.append(flag_str(mode, 0o200, "w"));
    text.append(flag_str(mode, 0o100, "x"));
    text.append(flag_str(mode, 0o40, "r"));
    text.append(flag_str(mode, 0o20, "w"));
    text.append(flag_str(mode, 0o10, "x"));
    text.append(flag_str(mode, 0o4, "r"));
    text.append(flag_str(mode, 0o2, "w"));
    text.append(flag_str(mode, 0o1, "x"));
    assert(text@ =~= permission_text(entry@.is_directory, entry@.permission_bits));
    Permission { permission: text }
}

/// The byte count of an entry in decimal.
pub fn binary_mode(entry: &DirectoryEntry) -> (r: Binary)
    ensures
        r.size@ == decimal_text(entry@.size_bytes as nat),
{
    Binary { size: decimal_string(entry.size_bytes()) }
}

/// The owner and group of an entry: for each the name that the lookup of its
/// identifier gave, and the identifier in decimal where it gave none.
pub fn group_and_owner_mode(entry: &DirectoryEntry) -> (r: GroupOwner)
    ensures
        r.owner@ == label_text(entry@.owner_name, entry@.owner_id),
        r.group@ == label_text(entry@.group_name, entry@.group_id),
{
    let found_owner = match entry.owner_name() {
        Some(name) => Some(name.clone()),
        None => None,
    };
    let found_group = match entry.group_name() {
        Some(name) => Some(name.clone()),
        None => None,
    };
    group_owner_from(found_owner, entry.owner_id(), found_group, entry.group_id())
}

/// Owner and group of an entry whose identifiers are `owner_id` and
/// `group_id`, given what the lookup of each gave: the name that was found, and
/// the identifier in decimal where none was found.
pub fn group_owner_from(
    found_owner: Option<String>,
    owner_id: u32,
    found_group: Option<String>,
    group_id: u32,
) -> (r: GroupOwner)
    ensures
        r.owner@ == label_text(found_text(found_owner), owner_id),
        r.group@ == label_text(found_text(found_group), group_id),
{
    GroupOwner { owner: owner_label(found_owner, owner_id), group: owner_label(found_group, group_id) }
}

} // verus!
