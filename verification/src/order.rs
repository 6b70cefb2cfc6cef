//! The keys by which a listing can be ordered.

use crate::entry::{DirectoryEntry, EntryView, Timestamp};
use crate::text::{
    lemma_text_le_total, lemma_text_le_transitive, same_text, text_le, text_precedes_or_equals,
};
use vstd::prelude::*;
use vstd::std_specs::iter::IteratorSpec;
use vstd::string::StrSliceExecFns;

verus! {

/// The key that orders a listing.
#[derive(Clone, Copy, Debug, PartialEq, Eq, Structural)]
pub enum SortField {
    /// The raw name, lexicographically by code point.
    Name,
    /// The byte count.
    Size,
    /// What follows the last `.` of the name.
    Extension,
    /// The time of the last modification.
    Modified,
    /// The time of the last status change.
    Changed,
    /// The time of the last access.
    Accessed,
    /// The time of creation.
    Created,
    /// The file-system identifier.
    Inode,
    /// Directories before files, by name within each kind.
    FileType,
    /// No key: the order of enumeration stays.
    Unsorted,
}

impl Default for SortField {
    /// A listing is ordered by name unless another key is asked for.
    fn default() -> (field: SortField)
        ensures
            field == SortField::Name,
    {
        SortField::Name
    }
}

/// The key that a word on the command line names, if it names one. The byte
/// count goes by two names, `content` and `size`.
pub open spec fn sort_field_named(word: Seq<char>) -> Option<SortField> {
    if word == "name"@ {
        Some(SortField::Name)
    } else if word == "content"@ || word == "size"@ {
        Some(SortField::Size)
    } else if word == "extension"@ {
        Some(SortField::Extension)
    } else if word == "modified"@ {
        Some(SortField::Modified)
    } else if word == "changed"@ {
        Some(SortField::Changed)
    } else if word == "accessed"@ {
        Some(SortField::Accessed)
    } else if word == "created"@ {
        Some(SortField::Created)
    } else if word == "inode"@ {
        Some(SortField::Inode)
    } else if word == "file-type"@ {
        Some(SortField::FileType)
    } else if word == "none"@ {
        Some(SortField::Unsorted)
    } else {
        None
    }
}

/// Reads the name of a sort key as the command line gives it.
pub fn parse_sort_field(word: &str) -> (field: Option<SortField>)
    ensures
        field == sort_field_named(word@),
{
    if same_text(word, "name") {
        Some(SortField::Name)
    } else if same_text(word, "content") || same_text(word, "size") {
        Some(SortField::Size)
    } else if same_text(word, "extension") {
        Some(SortField::Extension)
    } else if same_text(word, "modified") {
        Some(SortField::Modified)
    } else if same_text(word, "changed") {
        Some(SortField::Changed)
    } else if same_text(word, "accessed") {
        Some(SortField::Accessed)
    } else if same_text(word, "created") {
        Some(SortField::Created)
    } else if same_text(word, "inode") {
        Some(SortField::Inode)
    } else if same_text(word, "file-type") {
        Some(SortField::FileType)
    } else if same_text(word, "none") {
        Some(SortField::Unsorted)
    } else {
        None
    }
}

/// Index of the last `.` in `name`, or -1 where it holds none.
pub open spec fn last_dot(name: Seq<char>) -> int
    decreases name.len(),
{
    if name.len() == 0 {
        -1
    } else if name.last() == '.' {
        name.len() - 1
    } else {
        last_dot(name.drop_last())
    }
}

/// What follows the last `.` of `name`; empty where `name` holds no `.`.
pub open spec fn extension_text(name: Seq<char>) -> Seq<char> {
    if last_dot(name) < 0 {
        Seq::empty()
    } else {
        name.skip(last_dot(name) + 1)
    }
}

/// `last_dot` is the greatest index that holds a `.`, and -1 exactly where
/// there is none.
pub proof fn lemma_last_dot(name: Seq<char>)
    ensures
        -1 <= last_dot(name) < name.len(),
        last_dot(name) >= 0 ==> name[last_dot(name)] == '.',
        forall|i: int| last_dot(name) < i < name.len() ==> name[i] != '.',
    decreases name.len(),
{
    if name.len() > 0 && name.last() != '.' {
        let shorter = name.drop_last();
        lemma_last_dot(shorter);
        assert forall|i: int| last_dot(name) < i < name.len() implies name[i] != '.' by {
            if i < shorter.len() {
                assert(shorter[i] == name[i]);
            }
        }
    }
}

/// The time that stands for `stamp` in comparisons: a timestamp that could not
/// be read counts as the start of 1970.
pub open spec fn stamp_or_epoch(stamp: Option<Timestamp>) -> Timestamp {
    match stamp {
        Some(t) => t,
        None => Timestamp { secs: 0, nanos: 0 },
    }
}

/// `a` is not later than `b`: no more nanoseconds lie between the start of
/// 1970 and `a` than between it and `b`.
pub open spec fn stamp_le(a: Option<Timestamp>, b: Option<Timestamp>) -> bool {
    stamp_or_epoch(a).total_nanos() <= stamp_or_epoch(b).total_nanos()
}

/// `a` may stand before `b` in a listing ordered by `field`: its key is not
/// greater than that of `b`.
pub open spec fn entry_le(a: EntryView, b: EntryView, field: SortField) -> bool {
    match field {
        SortField::Name => text_le(a.name, b.name),
        SortField::Size => a.size_bytes <= b.size_bytes,
        SortField::Extension => text_le(extension_text(a.name), extension_text(b.name)),
        SortField::Modified => stamp_le(a.modified, b.modified),
        SortField::Changed => stamp_le(a.changed, b.changed),
        SortField::Accessed => stamp_le(a.accessed, b.accessed),
        SortField::Created => stamp_le(a.created, b.created),
        SortField::Inode => a.inode <= b.inode,
        SortField::FileType => if a.is_directory != b.is_directory {
            a.is_directory
        } else {
            text_le(a.name, b.name)
        },
        SortField::Unsorted => true,
    }
}

/// Under every key, any two entries are comparable.
pub proof fn lemma_entry_le_total(a: EntryView, b: EntryView, field: SortField)
    ensures
        entry_le(a, b, field) || entry_le(b, a, field),
{
    lemma_text_le_total(a.name, b.name);
    lemma_text_le_total(extension_text(a.name), extension_text(b.name));
}

/// Under every key, `entry_le` is transitive.
pub proof fn lemma_entry_le_transitive(a: EntryView, b: EntryView, c: EntryView, field: SortField)
    requires
        entry_le(a, b, field),
        entry_le(b, c, field),
    ensures
        entry_le(a, c, field),
{
    match field {
        SortField::Name => {
            lemma_text_le_transitive(a.name, b.name, c.name);
        },
        SortField::Extension => {
            lemma_text_le_transitive(
                extension_text(a.name),
                extension_text(b.name),
                extension_text(c.name),
            );
        },
        SortField::FileType => {
            if a.is_directory == b.is_directory && b.is_directory == c.is_directory {
                lemma_text_le_transitive(a.name, b.name, c.name);
            }
        },
        _ => {},
    }
}

/// The part of `name` that follows its last `.`, empty where there is none.
pub fn extension_of(name: &str) -> (ext: &str)
    ensures
        ext@ == extension_text(name@),
{
    let mut rest = name.chars();
    let mut seen: usize = 0;
    let mut after_dot: Option<usize> = None;
    let total: usize = name.unicode_len();
    loop
        invariant
            rest.decrease() is Some,
            seen <= total,
            total == name@.len(),
            rest.remaining() == name@.skip(seen as int),
            match after_dot {
                Some(start) => start >= 1 && start == last_dot(name@.take(seen as int)) + 1,
                None => last_dot(name@.take(seen as int)) == -1,
            },
        decreases rest.decrease()->0,
    {
        match rest.next() {
            None => {
                proof {
                    reveal_strlit("");
                    assert(name@.take(seen as int) =~= name@);
                    lemma_last_dot(name@);
                    if last_dot(name@) >= 0 {
                        assert(name@.subrange(last_dot(name@) + 1, total as int) =~= name@.skip(
                            last_dot(name@) + 1,
                        ));
                    } else {
                        assert(""@ =~= Seq::<char>::empty());
                    }
                }
                return match after_dot {
                    Some(start) => name.substring_char(start, total),
                    None => "",
                };
            },
            Some(c) => {
                proof {
                    let shorter = name@.take(seen as int);
                    let longer = name@.take(seen as int + 1);
                    assert(longer.drop_last() =~= shorter);
                    assert(longer.last() == c);
                    assert(name@.skip(seen as int).drop_first() =~= name@.skip(seen as int + 1));
                    lemma_last_dot(shorter);
                }
                seen = seen + 1;
                if c == '.' {
                    after_dot = Some(seen);
                }
            },
        }
    }
}

fn nanos_since_epoch(stamp: Option<Timestamp>) -> (n: i128)
    ensures
        n == stamp_or_epoch(stamp).total_nanos(),
{
    match stamp {
        Some(t) => (t.secs as i128) * 1_000_000_000 + (t.nanos as i128),
        None => 0,
    }
}

fn stamp_precedes_or_equals(a: Option<Timestamp>, b: Option<Timestamp>) -> (r: bool)
    ensures
        r == stamp_le(a, b),
{
    nanos_since_epoch(a) <= nanos_since_epoch(b)
}

/// Decides `entry_le` for two entries.
pub fn precedes_or_equals(a: &DirectoryEntry, b: &DirectoryEntry, field: SortField) -> (r: bool)
    ensures
        r == entry_le(a@, b@, field),
{
    match field {
        SortField::Name => text_precedes_or_equals(a.name().as_str(), b.name().as_str()),
        SortField::Size => a.size_bytes() <= b.size_bytes(),
        SortField::Extension => text_precedes_or_equals(
            extension_of(a.name().as_str()),
            extension_of(b.name().as_str()),
        ),
        SortField::Modified => stamp_precedes_or_equals(a.modified(), b.modified()),
        SortField::Changed => stamp_precedes_or_equals(a.changed(), b.changed()),
        SortField::Accessed => stamp_precedes_or_equals(a.accessed(), b.accessed()),
        SortField::Created => stamp_precedes_or_equals(a.created(), b.created()),
        SortField::Inode => a.inode() <= b.inode(),
        SortField::FileType => if a.is_directory() != b.is_directory() {
            a.is_directory()
        } else {
            text_precedes_or_equals(a.name().as_str(), b.name().as_str())
        },
        SortField::Unsorted => true,
    }
}

} // verus!
