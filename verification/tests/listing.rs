use dirlist::columns::Types;
use dirlist::entry::{DirectoryEntry, Timestamp};
use dirlist::listing::{arrange_entries, check_path, get_files, path_header, ListingError};
use dirlist::order::SortField;

fn child(name: &str, is_directory: bool) -> Option<DirectoryEntry> {
    Some(DirectoryEntry::new(name.to_string(), is_directory))
}

fn four_children() -> Option<Vec<Option<DirectoryEntry>>> {
    Some(vec![
        child(".hidden", false),
        child("b.txt", false),
        child("A.txt", false),
        child("sub", true),
    ])
}

fn shown(
    scan: Option<Vec<Option<DirectoryEntry>>>,
    show_hidden: bool,
    reverse: bool,
    directories_only: bool,
    sort: SortField,
    git_ignore: bool,
) -> Vec<(String, Types)> {
    get_files(scan, show_hidden, reverse, directories_only, sort, git_ignore)
        .into_iter()
        .map(|row| (row.basic.name, row.basic.types))
        .collect()
}

fn pair(name: &str, kind: Types) -> (String, Types) {
    (name.to_string(), kind)
}

#[test]
fn the_default_listing() {
    assert_eq!(
        shown(four_children(), false, false, false, SortField::Name, false),
        [pair("A.txt", Types::File), pair("b.txt", Types::File), pair("sub", Types::Dir)]
    );
}

#[test]
fn the_listing_with_hidden_entries() {
    assert_eq!(
        shown(four_children(), true, false, false, SortField::Name, false),
        [
            pair(".hidden", Types::File),
            pair("A.txt", Types::File),
            pair("b.txt", Types::File),
            pair("sub", Types::Dir)
        ]
    );
}

#[test]
fn the_listing_of_directories() {
    assert_eq!(
        shown(four_children(), false, false, true, SortField::Name, false),
        [pair("sub", Types::Dir)]
    );
}

#[test]
fn the_listing_in_reverse() {
    assert_eq!(
        shown(four_children(), false, true, false, SortField::Name, false),
        [pair("sub", Types::Dir), pair("b.txt", Types::File), pair("A.txt", Types::File)]
    );
}

#[test]
fn the_listing_by_file_type() {
    assert_eq!(
        shown(four_children(), true, false, false, SortField::FileType, false),
        [
            pair("sub", Types::Dir),
            pair(".hidden", Types::File),
            pair("A.txt", Types::File),
            pair("b.txt", Types::File)
        ]
    );
}

#[test]
fn the_listing_in_the_order_of_the_scan() {
    assert_eq!(
        shown(four_children(), true, false, false, SortField::Unsorted, false),
        [
            pair(".hidden", Types::File),
            pair("b.txt", Types::File),
            pair("A.txt", Types::File),
            pair("sub", Types::Dir)
        ]
    );
    assert_eq!(
        shown(four_children(), true, true, false, SortField::Unsorted, false),
        [
            pair("sub", Types::Dir),
            pair("A.txt", Types::File),
            pair("b.txt", Types::File),
            pair(".hidden", Types::File)
        ]
    );
}

#[test]
fn a_deleted_child_does_not_appear() {
    let scan = Some(vec![child("b", false), None, child("a", false)]);
    assert_eq!(
        shown(scan, false, false, false, SortField::Name, false),
        [pair("a", Types::File), pair("b", Types::File)]
    );
}

#[test]
fn an_unreadable_directory_lists_nothing() {
    assert!(shown(None, true, false, false, SortField::Name, false).is_empty());
    assert!(arrange_entries(None, true, false, false, SortField::Name, false).is_empty());
}

#[test]
fn every_column_of_a_row() {
    let entry = DirectoryEntry::new("report.pdf".to_string(), false)
        .with_size(1536)
        .with_permission_bits(0o640)
        .with_owner(1000, 50)
        .with_owner_names(Some("alice".to_string()), None)
        .with_times(
            Some(Timestamp { secs: 1_736_208_000, nanos: 5 }),
            None,
            Some(Timestamp { secs: 951_782_400, nanos: 0 }),
            None,
        );
    let rows = get_files(Some(vec![Some(entry)]), false, false, false, SortField::Name, false);
    assert_eq!(rows.len(), 1);
    let row = &rows[0];
    assert_eq!(row.basic.name, "report.pdf");
    assert_eq!(row.basic.types, Types::File);
    assert_eq!(row.size.size, "1.5K");
    assert_eq!(row.binary.size, "1536");
    assert_eq!(row.group_owner.owner, "alice");
    assert_eq!(row.group_owner.group, "50");
    assert_eq!(row.mac.modified, "Tue Jan  7 2025");
    assert_eq!(row.mac.accessed, "Tue Feb 29 2000");
    assert_eq!(row.mac.created, "");
    assert_eq!(row.permission.permission, "-rw-r-----");
}

#[test]
fn owner_and_group_of_each_row() {
    let scan = Some(vec![
        Some(
            DirectoryEntry::new("b".to_string(), false)
                .with_owner(0, 4)
                .with_owner_names(Some("root".to_string()), Some("adm".to_string())),
        ),
        Some(DirectoryEntry::new("a".to_string(), true).with_owner(1234, 4321)),
    ]);
    let rows = get_files(scan, false, false, false, SortField::Name, false);
    assert_eq!(rows.len(), 2);
    assert_eq!(rows[0].group_owner.owner, "1234");
    assert_eq!(rows[0].group_owner.group, "4321");
    assert_eq!(rows[1].group_owner.owner, "root");
    assert_eq!(rows[1].group_owner.group, "adm");
}

#[test]
fn the_entries_in_their_final_order() {
    let listing = arrange_entries(four_children(), true, true, false, SortField::Name, false);
    let names: Vec<&String> = listing.iter().map(|e| e.name()).collect();
    assert_eq!(names, ["sub", "b.txt", "A.txt", ".hidden"]);
}

#[test]
fn a_missing_path() {
    assert_eq!(check_path(Some(false)), Err(ListingError::PathMissing));
    assert_eq!(
        ListingError::PathMissing.message(),
        "error: Path doesn't exist. (try other location)"
    );
}

#[test]
fn a_path_whose_existence_is_unknown() {
    assert_eq!(check_path(None), Err(ListingError::PathUnknown));
    assert_eq!(ListingError::PathUnknown.message(), "error: Can't read directory.");
}

#[test]
fn a_path_that_exists() {
    assert_eq!(check_path(Some(true)), Ok(()));
}

#[test]
fn the_line_that_names_the_path() {
    assert_eq!(path_header("."), "Path: .");
    assert_eq!(path_header("/tmp/some dir"), "Path: /tmp/some dir");
    assert_eq!(path_header(""), "Path: ");
}
