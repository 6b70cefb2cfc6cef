//! Which of the children that were found enter the listing.

use crate::entry::{DirectoryEntry, EntryView};
use crate::text::same_text;
use vstd::prelude::*;

verus! {

/// `name` marks a hidden entry: it begins with `.`.
pub open spec fn begins_with_dot(name: Seq<char>) -> bool {
    name.len() > 0 && name[0] == '.'
}

/// An entry enters the listing where it passes all three tests: it is not
/// hidden, unless hidden entries are shown; it is a directory, where only
/// directories are asked for; and it is not the file `.gitignore`, where that
/// file is to be left out.
pub open spec fn is_kept(
    e: EntryView,
    show_hidden: bool,
    directories_only: bool,
    git_ignore: bool,
) -> bool {
    &&& show_hidden || !begins_with_dot(e.name)
    &&& directories_only ==> e.is_directory
    &&& git_ignore ==> e.name != ".gitignore"@
}

/// `is_kept` as a test on entries.
pub open spec fn kept_test(
    show_hidden: bool,
    directories_only: bool,
    git_ignore: bool,
) -> spec_fn(DirectoryEntry) -> bool {
    |e: DirectoryEntry| is_kept(e@, show_hidden, directories_only, git_ignore)
}

/// The entries of `entries` that enter the listing, in their order.
pub open spec fn kept_entries(
    entries: Seq<DirectoryEntry>,
    show_hidden: bool,
    directories_only: bool,
    git_ignore: bool,
) -> Seq<DirectoryEntry> {
    entries.filter(kept_test(show_hidden, directories_only, git_ignore))
}

/// What was read of a child, if anything.
pub open spec fn read_result() -> spec_fn(Option<DirectoryEntry>) -> Option<DirectoryEntry> {
    |child: Option<DirectoryEntry>| child
}

/// The children whose metadata could be read, in the order of the scan; none
/// where the directory itself could not be read.
pub open spec fn readable_entries(scan: Option<Seq<Option<DirectoryEntry>>>) -> Seq<
    DirectoryEntry,
> {
    match scan {
        Some(found) => found.filter_map(read_result()),
        None => Seq::empty(),
    }
}

/// With hidden entries not shown, no entry of the listing begins with `.`.
/// With hidden entries shown, an entry that begins with `.` is listed where it
/// passes the other two tests: it is a directory, where only directories are
/// asked for, and it is not `.gitignore`, where that file is to be left out.
pub proof fn lemma_hidden_entries(
    entries: Seq<DirectoryEntry>,
    show_hidden: bool,
    directories_only: bool,
    git_ignore: bool,
)
    ensures
        !show_hidden ==> forall|i: int|
            0 <= i < kept_entries(entries, show_hidden, directories_only, git_ignore).len()
                ==> !begins_with_dot(
                (#[trigger] kept_entries(
                    entries,
                    show_hidden,
                    directories_only,
                    git_ignore,
                )[i])@.name,
            ),
        show_hidden ==> forall|i: int|
            0 <= i < entries.len() && begins_with_dot((#[trigger] entries[i])@.name) ==> (
            kept_entries(entries, show_hidden, directories_only, git_ignore).contains(entries[i])
                <==> (directories_only ==> entries[i]@.is_directory) && !(git_ignore
                && entries[i]@.name == ".gitignore"@)),
{
    let pred = kept_test(show_hidden, directories_only, git_ignore);
    let kept = entries.filter(pred);
    assert forall|i: int| 0 <= i < kept.len() implies pred(#[trigger] kept[i]) by {
        entries.lemma_filter_pred(pred, i);
    }
    if show_hidden {
        assert forall|i: int|
            0 <= i < entries.len() && begins_with_dot((#[trigger] entries[i])@.name) implies (
        kept.contains(entries[i]) <==> (directories_only ==> entries[i]@.is_directory) && !(
        git_ignore && entries[i]@.name == ".gitignore"@)) by {
            if pred(entries[i]) {
                entries.lemma_filter_contains(pred, i);
            }
            if kept.contains(entries[i]) {
                let k = choose|k: int| 0 <= k < kept.len() && kept[k] == entries[i];
                assert(pred(kept[k]));
            }
        }
    }
}

/// Whether `name` begins with `.`.
pub fn starts_with_dot(name: &str) -> (r: bool)
    ensures
        r == begins_with_dot(name@),
{
    let mut rest = name.chars();
    match rest.next() {
        Some(c) => c == '.',
        None => false,
    }
}

/// Decides `is_kept` for one entry.
pub fn keeps(
    entry: &DirectoryEntry,
    show_hidden: bool,
    directories_only: bool,
    git_ignore: bool,
) -> (r: bool)
    ensures
        r == is_kept(entry@, show_hidden, directories_only, git_ignore),
{
    if directories_only && !entry.is_directory() {
        return false;
    }
    if !show_hidden && starts_with_dot(entry.name().as_str()) {
        return false;
    }
    if git_ignore && same_text(entry.name().as_str(), ".gitignore") {
        return false;
    }
    true
}

/// Keeps the children whose metadata could be read. A child that vanished
/// between the scan and the reading of its metadata, or whose metadata could
/// not be read for another reason, is `None` in `scan` and is left out; a
/// directory that could not be read at all gives an empty list.
pub fn collect_entries(scan: Option<Vec<Option<DirectoryEntry>>>) -> (entries: Vec<DirectoryEntry>)
    ensures
        entries@ == readable_entries(
            match scan {
                Some(found) => Some(found@),
                None => None,
            },
        ),
{
    let mut entries: Vec<DirectoryEntry> = Vec::new();
    match scan {
        None => {},
        Some(found) => {
            let ghost all = found@;
            assert(all.take(0) =~= Seq::<Option<DirectoryEntry>>::empty());
            for child in rest: found
                invariant
                    rest.seq() == all,
                    entries@ == all.take(rest.index() as int).filter_map(read_result()),
            {
                let ghost before = entries@;
                let ghost taken = rest.index() as int;
                match child {
                    Some(entry) => {
                        entries.push(entry);
                    },
                    None => {},
                }
                proof {
                    assert(all.take(taken + 1).drop_last() =~= all.take(taken));
                    assert(all.take(taken + 1).last() == child);
                    assert(entries@ =~= match child {
                        Some(entry) => before + seq![entry],
                        None => before,
                    });
                }
            }
            assert(all.take(all.len() as int) =~= all);
        },
    }
    entries
}

/// Keeps the entries that pass the hidden-file, directories-only and
/// ignore-file tests, in their order.
pub fn filter_entries(
    entries: Vec<DirectoryEntry>,
    show_hidden: bool,
    directories_only: bool,
    git_ignore: bool,
) -> (kept: Vec<DirectoryEntry>)
    ensures
        kept@ == kept_entries(entries@, show_hidden, directories_only, git_ignore),
{
    let ghost all = entries@;
    let ghost pred = kept_test(show_hidden, directories_only, git_ignore);
    let mut kept: Vec<DirectoryEntry> = Vec::new();
    proof {
        reveal(Seq::filter);
        assert(all.take(0) =~= Seq::<DirectoryEntry>::empty());
    }
    for entry in rest: entries
        invariant
            rest.seq() == all,
            pred == kept_test(show_hidden, directories_only, git_ignore),
            kept@ == all.take(rest.index() as int).filter(pred),
    {
        proof {
            reveal(Seq::filter);
            let taken = rest.index() as int;
            let longer = all.take(taken + 1);
            assert(longer.drop_last() =~= all.take(taken));
            assert(longer.last() == entry);
            assert(longer.filter(pred) == if pred(entry) {
                all.take(taken).filter(pred).push(entry)
            } else {
                all.take(taken).filter(pred)
            });
        }
        if keeps(&entry, show_hidden, directories_only, git_ignore) {
            kept.push(entry);
        }
    }
    assert(all.take(all.len() as int) =~= all);
    kept
}

} // verus!
