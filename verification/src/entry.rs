//! What is known of one child of the listed directory.

use vstd::prelude::*;

verus! {

/// A point in time, counted from the start of 1970 in UTC: whole seconds, and
/// the nanoseconds that follow the last whole second. Times before 1970 have
/// negative seconds; the nanoseconds always count forward.
#[derive(Clone, Copy, Debug, PartialEq, Eq, Structural)]
pub struct Timestamp {
    pub secs: i64,
    pub nanos: u32,
}

impl Timestamp {
    /// The nanoseconds from the start of 1970 to this point in time; negative
    /// for a time before 1970.
    pub open spec fn total_nanos(self) -> int {
        self.secs * 1_000_000_000 + self.nanos
    }

    /// The point in time that lies `secs` seconds and `nanos` nanoseconds
    /// after the start of 1970, or before it where `before_epoch` is set.
    /// `None` where `nanos` is a second or more, or `secs` is beyond the range
    /// of the seconds of a timestamp.
    pub fn from_offset(before_epoch: bool, secs: u64, nanos: u32) -> (r: Option<Timestamp>)
        ensures
            r is Some <==> nanos < 1_000_000_000 && secs <= i64::MAX,
            r matches Some(t) ==> t.nanos < 1_000_000_000 && t.total_nanos() == if before_epoch {
                -(secs * 1_000_000_000 + nanos)
            } else {
                secs * 1_000_000_000 + nanos
            },
    {
        if nanos >= 1_000_000_000 || secs > 0x7fff_ffff_ffff_ffff {
            return None;
        }
        let whole: i64 = secs as i64;
        if !before_epoch {
            Some(Timestamp { secs: whole, nanos })
        } else if nanos == 0 {
            Some(Timestamp { secs: -whole, nanos: 0 })
        } else {
            Some(Timestamp { secs: -whole - 1, nanos: 1_000_000_000 - nanos })
        }
    }
}

/// A text that may have been found, as a sequence of characters.
pub open spec fn found_text(found: Option<String>) -> Option<Seq<char>> {
    match found {
        Some(text) => Some(text@),
        None => None,
    }
}

/// The mathematical content of a `DirectoryEntry`.
pub struct EntryView {
    pub name: Seq<char>,
    pub is_directory: bool,
    pub size_bytes: u64,
    pub modified: Option<Timestamp>,
    pub changed: Option<Timestamp>,
    pub accessed: Option<Timestamp>,
    pub created: Option<Timestamp>,
    pub inode: u64,
    pub permission_bits: u32,
    pub owner_id: u32,
    pub group_id: u32,
    pub owner_name: Option<Seq<char>>,
    pub group_name: Option<Seq<char>>,
}

/// One child of the listed directory with the metadata that was read for it.
///
/// A directory always has size zero. A timestamp that could not be read is
/// `None`. The names of owner and group are what the lookup of the two
/// identifiers gave: `None` where the system knows no name, and where no
/// lookup was made.
#[derive(Debug)]
pub struct DirectoryEntry {
    pub(crate) name: String,
    pub(crate) is_directory: bool,
    pub(crate) size_bytes: u64,
    pub(crate) modified: Option<Timestamp>,
    pub(crate) changed: Option<Timestamp>,
    pub(crate) accessed: Option<Timestamp>,
    pub(crate) created: Option<Timestamp>,
    pub(crate) inode: u64,
    pub(crate) permission_bits: u32,
    pub(crate) owner_id: u32,
    pub(crate) group_id: u32,
    pub(crate) owner_name: Option<String>,
    pub(crate) group_name: Option<String>,
}

impl View for DirectoryEntry {
    type V = EntryView;

    closed spec fn view(&self) -> EntryView {
        EntryView {
            name: self.name@,
            is_directory: self.is_directory,
            size_bytes: self.size_bytes,
            modified: self.modified,
            changed: self.changed,
            accessed: self.accessed,
            created: self.created,
            inode: self.inode,
            permission_bits: self.permission_bits,
            owner_id: self.owner_id,
            group_id: self.group_id,
            owner_name: found_text(self.owner_name),
            group_name: found_text(self.group_name),
        }
    }
}

impl Clone for DirectoryEntry {
    fn clone(&self) -> (e: DirectoryEntry)
        ensures
            e@ == self@,
    {
        proof {
            use_type_invariant(self);
        }
        DirectoryEntry {
            name: self.name.clone(),
            is_directory: self.is_directory,
            size_bytes: self.size_bytes,
            modified: self.modified,
            changed: self.changed,
            accessed: self.accessed,
            created: self.created,
            inode: self.inode,
            permission_bits: self.permission_bits,
            owner_id: self.owner_id,
            group_id: self.group_id,
            owner_name: match &self.owner_name {
                Some(name) => Some(name.clone()),
                None => None,
            },
            group_name: match &self.group_name {
                Some(name) => Some(name.clone()),
                None => None,
            },
        }
    }
}

impl EntryView {
    /// What holds of the content of every entry: a directory has size zero.
    pub open spec fn wf(self) -> bool {
        self.is_directory ==> self.size_bytes == 0
    }
}

impl DirectoryEntry {
    #[verifier::type_invariant]
    closed spec fn inv(self) -> bool {
        self@.wf()
    }

    /// An entry with the given name and kind, size zero, no timestamps, zero
    /// for inode, permission bits, owner and group, and no names of owner and
    /// group.
    pub fn new(name: String, is_directory: bool) -> (e: DirectoryEntry)
        ensures
            e@ == (EntryView {
                name: name@,
                is_directory,
                size_bytes: 0,
                modified: None,
                changed: None,
                accessed: None,
                created: None,
                inode: 0,
                permission_bits: 0,
                owner_id: 0,
                group_id: 0,
                owner_name: None,
                group_name: None,
            }),
    {
        DirectoryEntry {
            name,
            is_directory,
            size_bytes: 0,
            modified: None,
            changed: None,
            accessed: None,
            created: None,
            inode: 0,
            permission_bits: 0,
            owner_id: 0,
            group_id: 0,
            owner_name: None,
            group_name: None,
        }
    }

    /// The same entry with the given byte count; a directory keeps size zero.
    pub fn with_size(self, size_bytes: u64) -> (e: DirectoryEntry)
        ensures
            e@ == (EntryView {
                size_bytes: if self@.is_directory { 0 } else { size_bytes },
                ..self@
            }),
    {
        proof {
            use_type_invariant(&self);
        }
        let kept: u64 = if self.is_directory { 0 } else { size_bytes };
        DirectoryEntry { size_bytes: kept, ..self }
    }

    /// The same entry with the given timestamps.
    pub fn with_times(
        self,
        modified: Option<Timestamp>,
        changed: Option<Timestamp>,
        accessed: Option<Timestamp>,
        created: Option<Timestamp>,
    ) -> (e: DirectoryEntry)
        ensures
            e@ == (EntryView { modified, changed, accessed, created, ..self@ }),
    {
        proof {
            use_type_invariant(&self);
        }
        DirectoryEntry { modified, changed, accessed, created, ..self }
    }

    /// The same entry with the given file-system identifier.
    pub fn with_inode(self, inode: u64) -> (e: DirectoryEntry)
        ensures
            e@ == (EntryView { inode, ..self@ }),
    {
        proof {
            use_type_invariant(&self);
        }
        DirectoryEntry { inode, ..self }
    }

    /// The same entry with the given mode, of which the lowest nine bits are
    /// the permissions of owner, group and others.
    pub fn with_permission_bits(self, permission_bits: u32) -> (e: DirectoryEntry)
        ensures
            e@ == (EntryView { permission_bits, ..self@ }),
    {
        proof {
            use_type_invariant(&self);
        }
        DirectoryEntry { permission_bits, ..self }
    }

    /// The same entry with the given numeric owner and group.
    pub fn with_owner(self, owner_id: u32, group_id: u32) -> (e: DirectoryEntry)
        ensures
            e@ == (EntryView { owner_id, group_id, ..self@ }),
    {
        proof {
            use_type_invariant(&self);
        }
        DirectoryEntry { owner_id, group_id, ..self }
    }

    /// The same entry with what the lookup of its owner and of its group gave:
    /// the name that was found, or `None`.
    pub fn with_owner_names(
        self,
        owner_name: Option<String>,
        group_name: Option<String>,
    ) -> (e: DirectoryEntry)
        ensures
            e@ == (EntryView {
                owner_name: found_text(owner_name),
                group_name: found_text(group_name),
                ..self@
            }),
    {
        proof {
            use_type_invariant(&self);
        }
        DirectoryEntry { owner_name, group_name, ..self }
    }

    /// The base name of the entry.
    pub fn name(&self) -> (r: &String)
        ensures
            r@ == self@.name,
    {
        &self.name
    }

    /// Whether the entry is a directory.
    pub fn is_directory(&self) -> (r: bool)
        ensures
            r == self@.is_directory,
    {
        self.is_directory
    }

    /// The byte count; zero for a directory.
    pub fn size_bytes(&self) -> (r: u64)
        ensures
            r == self@.size_bytes,
            self@.is_directory ==> r == 0,
    {
        proof {
            use_type_invariant(self);
        }
        self.size_bytes
    }

    /// The time of the last modification, if it could be read.
    pub fn modified(&self) -> (r: Option<Timestamp>)
        ensures
            r == self@.modified,
    {
        self.modified
    }

    /// The time of the last status change, if it could be read.
    pub fn changed(&self) -> (r: Option<Timestamp>)
        ensures
            r == self@.changed,
    {
        self.changed
    }

    /// The time of the last access, if it could be read.
    pub fn accessed(&self) -> (r: Option<Timestamp>)
        ensures
            r == self@.accessed,
    {
        self.accessed
    }

    /// The time of creation, if it could be read.
    pub fn created(&self) -> (r: Option<Timestamp>)
        ensures
            r == self@.created,
    {
        self.created
    }

    /// The file-system identifier.
    pub fn inode(&self) -> (r: u64)
        ensures
            r == self@.inode,
    {
        self.inode
    }

    /// The mode, of which the lowest nine bits are the permissions.
    pub fn permission_bits(&self) -> (r: u32)
        ensures
            r == self@.permission_bits,
    {
        self.permission_bits
    }

    /// The numeric identifier of the owning user.
    pub fn owner_id(&self) -> (r: u32)
        ensures
            r == self@.owner_id,
    {
        self.owner_id
    }

    /// The numeric identifier of the owning group.
    pub fn group_id(&self) -> (r: u32)
        ensures
            r == self@.group_id,
    {
        self.group_id
    }

    /// The name that was found for the owning user, if any.
    pub fn owner_name(&self) -> (r: &Option<String>)
        ensures
            found_text(*r) == self@.owner_name,
    {
        &self.owner_name
    }

    /// The name that was found for the owning group, if any.
    pub fn group_name(&self) -> (r: &Option<String>)
        ensures
            found_text(*r) == self@.group_name,
    {
        &self.group_name
    }
}

} // verus!
