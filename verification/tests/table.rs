use dirlist::entry::DirectoryEntry;
use dirlist::listing::{get_files, DisplayRow};
use dirlist::order::SortField;
use dirlist::table::{
    cell_text, column_tint, column_title, heading_cells, heading_tint, list_table,
    owner_names_wanted, row_cells, table_cells, visible_columns, Column, ColumnOptions, Tint,
};

fn no_options() -> ColumnOptions {
    ColumnOptions {
        size: false,
        binary: false,
        group_and_owner: false,
        modified_time: false,
        mac: false,
        permission: false,
    }
}

fn two_rows() -> Vec<DisplayRow> {
    let scan = Some(vec![
        Some(DirectoryEntry::new("b".to_string(), false).with_size(2048).with_permission_bits(0o600)),
        Some(
            DirectoryEntry::new("a".to_string(), true)
                .with_permission_bits(0o755)
                .with_owner(7, 8)
                .with_owner_names(Some("carol".to_string()), None),
        ),
    ]);
    get_files(scan, false, false, false, SortField::Name, false)
}

#[test]
fn name_and_type_are_always_shown() {
    assert_eq!(visible_columns(no_options()), [Column::Name, Column::Type]);
}

#[test]
fn no_optional_column_by_default() {
    assert_eq!(ColumnOptions::default(), no_options());
}

#[test]
fn every_column_in_its_place() {
    let all = ColumnOptions {
        size: true,
        binary: true,
        group_and_owner: true,
        modified_time: true,
        mac: true,
        permission: true,
    };
    assert_eq!(
        visible_columns(all),
        [
            Column::Name,
            Column::Type,
            Column::Size,
            Column::Binary,
            Column::Owner,
            Column::Group,
            Column::Modified,
            Column::Accessed,
            Column::Created,
            Column::Permission
        ]
    );
}

#[test]
fn single_optional_columns() {
    assert_eq!(
        visible_columns(ColumnOptions { size: true, ..no_options() }),
        [Column::Name, Column::Type, Column::Size]
    );
    assert_eq!(
        visible_columns(ColumnOptions { binary: true, ..no_options() }),
        [Column::Name, Column::Type, Column::Binary]
    );
    assert_eq!(
        visible_columns(ColumnOptions { group_and_owner: true, ..no_options() }),
        [Column::Name, Column::Type, Column::Owner, Column::Group]
    );
    assert_eq!(
        visible_columns(ColumnOptions { modified_time: true, ..no_options() }),
        [Column::Name, Column::Type, Column::Modified]
    );
    assert_eq!(
        visible_columns(ColumnOptions { mac: true, ..no_options() }),
        [Column::Name, Column::Type, Column::Modified, Column::Accessed, Column::Created]
    );
    assert_eq!(
        visible_columns(ColumnOptions { permission: true, ..no_options() }),
        [Column::Name, Column::Type, Column::Permission]
    );
}

#[test]
fn the_date_of_modification_is_shown_once() {
    assert_eq!(
        visible_columns(ColumnOptions { modified_time: true, mac: true, ..no_options() }),
        [Column::Name, Column::Type, Column::Modified, Column::Accessed, Column::Created]
    );
}

#[test]
fn a_combination_of_three() {
    assert_eq!(
        visible_columns(ColumnOptions {
            group_and_owner: true,
            mac: true,
            permission: true,
            ..no_options()
        }),
        [
            Column::Name,
            Column::Type,
            Column::Owner,
            Column::Group,
            Column::Modified,
            Column::Accessed,
            Column::Created,
            Column::Permission
        ]
    );
}

#[test]
fn every_combination_keeps_the_fixed_order() {
    let order = [
        Column::Name,
        Column::Type,
        Column::Size,
        Column::Binary,
        Column::Owner,
        Column::Group,
        Column::Modified,
        Column::Accessed,
        Column::Created,
        Column::Permission,
    ];
    for bits in 0..64u32 {
        let options = ColumnOptions {
            size: bits & 1 != 0,
            binary: bits & 2 != 0,
            group_and_owner: bits & 4 != 0,
            modified_time: bits & 8 != 0,
            mac: bits & 16 != 0,
            permission: bits & 32 != 0,
        };
        let columns = visible_columns(options);
        let expected: Vec<Column> = order
            .iter()
            .copied()
            .filter(|column| match column {
                Column::Name | Column::Type => true,
                Column::Size => options.size,
                Column::Binary => options.binary,
                Column::Owner | Column::Group => options.group_and_owner,
                Column::Modified => options.modified_time || options.mac,
                Column::Accessed | Column::Created => options.mac,
                Column::Permission => options.permission,
            })
            .collect();
        assert_eq!(columns, expected);
    }
}

#[test]
fn the_headings() {
    assert_eq!(column_title(Column::Name), "Name");
    assert_eq!(column_title(Column::Type), "Type");
    assert_eq!(column_title(Column::Size), "Size");
    assert_eq!(column_title(Column::Binary), "Binary");
    assert_eq!(column_title(Column::Owner), "Owner");
    assert_eq!(column_title(Column::Group), "Group");
    assert_eq!(column_title(Column::Modified), "Date Modified");
    assert_eq!(column_title(Column::Accessed), "Date Accessed");
    assert_eq!(column_title(Column::Created), "Date Created");
    assert_eq!(column_title(Column::Permission), "Permission");
    assert_eq!(
        heading_cells(&vec![Column::Name, Column::Type, Column::Permission]),
        ["Name", "Type", "Permission"]
    );
    assert!(heading_cells(&Vec::new()).is_empty());
}

#[test]
fn the_colours() {
    assert_eq!(column_tint(Column::Name), Tint::Plain);
    assert_eq!(column_tint(Column::Type), Tint::Magenta);
    assert_eq!(column_tint(Column::Size), Tint::BrightYellow);
    assert_eq!(column_tint(Column::Binary), Tint::BrightYellow);
    assert_eq!(column_tint(Column::Owner), Tint::Blue);
    assert_eq!(column_tint(Column::Group), Tint::Blue);
    assert_eq!(column_tint(Column::Modified), Tint::Yellow);
    assert_eq!(column_tint(Column::Accessed), Tint::Yellow);
    assert_eq!(column_tint(Column::Created), Tint::Yellow);
    assert_eq!(column_tint(Column::Permission), Tint::BrightGreen);
    assert_eq!(heading_tint(), Tint::BrightBlack);
}

#[test]
fn the_cells_of_a_row() {
    let rows = two_rows();
    let columns = vec![Column::Name, Column::Type, Column::Size, Column::Binary, Column::Permission];
    assert_eq!(row_cells(&rows[0], &columns), ["a", "Dir", "0B", "0", "drwxr-xr-x"]);
    assert_eq!(row_cells(&rows[1], &columns), ["b", "File", "2K", "2048", "-rw-------"]);
    assert_eq!(cell_text(&rows[1], Column::Size), "2K");
    assert_eq!(cell_text(&rows[1], Column::Modified), "");
}

#[test]
fn owner_cells_show_the_name_or_the_number() {
    let rows = two_rows();
    assert_eq!(cell_text(&rows[0], Column::Owner), "carol");
    assert_eq!(cell_text(&rows[0], Column::Group), "8");
    assert_eq!(cell_text(&rows[1], Column::Owner), "0");
    assert_eq!(cell_text(&rows[1], Column::Group), "0");
}

#[test]
fn the_cells_of_a_table() {
    let rows = two_rows();
    let columns = visible_columns(ColumnOptions { permission: true, ..no_options() });
    let cells = table_cells(&rows, &columns);
    assert_eq!(cells.len(), 2);
    assert_eq!(cells[0], ["a", "Dir", "drwxr-xr-x"]);
    assert_eq!(cells[1], ["b", "File", "-rw-------"]);
    assert!(table_cells(&Vec::new(), &columns).is_empty());
}

fn found() -> Option<Vec<Option<DirectoryEntry>>> {
    Some(vec![
        Some(DirectoryEntry::new(".hidden".to_string(), false).with_size(10)),
        Some(DirectoryEntry::new("b.txt".to_string(), false).with_size(1536)),
        None,
        Some(DirectoryEntry::new("A.txt".to_string(), false).with_size(5)),
        Some(DirectoryEntry::new("sub".to_string(), true).with_size(4096)),
    ])
}

#[test]
fn the_table_without_options() {
    let table = list_table(found(), false, false, false, SortField::Name, false, no_options());
    assert_eq!(table.columns, [Column::Name, Column::Type]);
    assert_eq!(table.headings, ["Name", "Type"]);
    assert_eq!(table.cells, [["A.txt", "File"], ["b.txt", "File"], ["sub", "Dir"]]);
}

#[test]
fn the_table_with_sizes_in_reverse() {
    let options = ColumnOptions { size: true, binary: true, ..no_options() };
    let table = list_table(found(), true, true, false, SortField::Size, false, options);
    assert_eq!(table.headings, ["Name", "Type", "Size", "Binary"]);
    assert_eq!(
        table.cells,
        [
            ["b.txt", "File", "1.5K", "1536"],
            [".hidden", "File", "10B", "10"],
            ["A.txt", "File", "5B", "5"],
            ["sub", "Dir", "0B", "0"]
        ]
    );
}

#[test]
fn the_table_of_an_unreadable_directory() {
    let options = ColumnOptions { permission: true, ..no_options() };
    let table = list_table(None, true, false, false, SortField::Name, false, options);
    assert_eq!(table.headings, ["Name", "Type", "Permission"]);
    assert!(table.cells.is_empty());
}

#[test]
fn the_table_with_owners() {
    let options = ColumnOptions { group_and_owner: true, ..no_options() };
    let scan = Some(vec![
        Some(
            DirectoryEntry::new("sub".to_string(), true)
                .with_owner(1000, 50)
                .with_owner_names(Some("alice".to_string()), Some("staff".to_string())),
        ),
        Some(DirectoryEntry::new("lost".to_string(), true).with_owner(65534, 65533)),
        Some(DirectoryEntry::new("file".to_string(), false)),
    ]);
    let table = list_table(scan, false, false, true, SortField::Name, false, options);
    assert_eq!(table.headings, ["Name", "Type", "Owner", "Group"]);
    assert_eq!(
        table.cells,
        [["lost", "Dir", "65534", "65533"], ["sub", "Dir", "alice", "staff"]]
    );
}

#[test]
fn owner_names_are_wanted_for_their_columns_only() {
    assert!(!owner_names_wanted(no_options()));
    assert!(owner_names_wanted(ColumnOptions { group_and_owner: true, ..no_options() }));
    let all_but_owners = ColumnOptions {
        size: true,
        binary: true,
        group_and_owner: false,
        modified_time: true,
        mac: true,
        permission: true,
    };
    assert!(!owner_names_wanted(all_but_owners));
    assert!(owner_names_wanted(ColumnOptions { group_and_owner: true, ..all_but_owners }));
}
