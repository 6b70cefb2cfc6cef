//! Which columns a table shows, in which order and tint, and the text of its
//! cells.

use crate::columns::{kind_of, kind_text, permission_text};
use crate::date::date_text;
use crate::entry::{DirectoryEntry, EntryView};
use crate::listing::{get_files, listing_of, row_shows, scan_view, DisplayRow};
use crate::order::SortField;
use crate::owner::label_text;
use crate::size::size_text;
use crate::text::decimal_text;
use vstd::prelude::*;
use vstd::string::StringExecFns;

verus! {

/// A column of the table.
#[derive(Clone, Copy, Debug, PartialEq, Eq, Structural)]
pub enum Column {
    Name,
    Type,
    Size,
    Binary,
    Owner,
    Group,
    Modified,
    Accessed,
    Created,
    Permission,
}

/// The colour in which a part of the table is printed.
#[derive(Clone, Copy, Debug, PartialEq, Eq, Structural)]
pub enum Tint {
    Plain,
    Magenta,
    BrightYellow,
    Blue,
    Yellow,
    BrightGreen,
    BrightBlack,
}

/// The optional columns that were asked for. Name and type are always shown.
#[derive(Clone, Copy, Debug, PartialEq, Eq, Structural)]
pub struct ColumnOptions {
    /// The human-readable size.
    pub size: bool,
    /// The byte count in full.
    pub binary: bool,
    /// Owner and group.
    pub group_and_owner: bool,
    /// The date of modification.
    pub modified_time: bool,
    /// The dates of modification, access and creation.
    pub mac: bool,
    /// The permission string.
    pub permission: bool,
}

impl Default for ColumnOptions {
    /// No optional column is shown unless it is asked for.
    fn default() -> (options: ColumnOptions)
        ensures
            options == (ColumnOptions {
                size: false,
                binary: false,
                group_and_owner: false,
                modified_time: false,
                mac: false,
                permission: false,
            }),
    {
        ColumnOptions {
            size: false,
            binary: false,
            group_and_owner: false,
            modified_time: false,
            mac: false,
            permission: false,
        }
    }
}

/// `columns` where they are shown, and no column where they are not.
pub open spec fn columns_if(shown: bool, columns: Seq<Column>) -> Seq<Column> {
    if shown {
        columns
    } else {
        Seq::empty()
    }
}

/// The columns of the table, from left to right: name and type, then those of
/// the optional columns that were asked for, in one fixed order. The date of
/// modification is shown once, whether it was asked for alone, with the other
/// two dates, or both.
pub open spec fn shown_columns(options: ColumnOptions) -> Seq<Column> {
    seq![Column::Name, Column::Type] + columns_if(options.size, seq![Column::Size]) + columns_if(
        options.binary,
        seq![Column::Binary],
    ) + columns_if(options.group_and_owner, seq![Column::Owner, Column::Group]) + columns_if(
        options.modified_time || options.mac,
        seq![Column::Modified],
    ) + columns_if(options.mac, seq![Column::Accessed, Column::Created]) + columns_if(
        options.permission,
        seq![Column::Permission],
    )
}

/// The heading of a column.
pub open spec fn title_text(column: Column) -> Seq<char> {
    match column {
        Column::Name => "Name"@,
        Column::Type => "Type"@,
        Column::Size => "Size"@,
        Column::Binary => "Binary"@,
        Column::Owner => "Owner"@,
        Column::Group => "Group"@,
        Column::Modified => "Date Modified"@,
        Column::Accessed => "Date Accessed"@,
        Column::Created => "Date Created"@,
        Column::Permission => "Permission"@,
    }
}

/// The colour of the cells of a column below its heading.
pub open spec fn tint_of(column: Column) -> Tint {
    match column {
        Column::Name => Tint::Plain,
        Column::Type => Tint::Magenta,
        Column::Size => Tint::BrightYellow,
        Column::Binary => Tint::BrightYellow,
        Column::Owner => Tint::Blue,
        Column::Group => Tint::Blue,
        Column::Modified => Tint::Yellow,
        Column::Accessed => Tint::Yellow,
        Column::Created => Tint::Yellow,
        Column::Permission => Tint::BrightGreen,
    }
}

/// What the cell of `row` in `column` holds.
pub open spec fn cell_of(row: DisplayRow, column: Column) -> Seq<char> {
    match column {
        Column::Name => row.basic.name@,
        Column::Type => kind_text(row.basic.types),
        Column::Size => row.size.size@,
        Column::Binary => row.binary.size@,
        Column::Owner => row.group_owner.owner@,
        Column::Group => row.group_owner.group@,
        Column::Modified => row.mac.modified@,
        Column::Accessed => row.mac.accessed@,
        Column::Created => row.mac.created@,
        Column::Permission => row.permission.permission@,
    }
}

/// The columns of the table for the options that were given.
pub fn visible_columns(options: ColumnOptions) -> (columns: Vec<Column>)
    ensures
        columns@ == shown_columns(options),
{
    let mut columns: Vec<Column> = Vec::new();
    columns.push(Column::Name);
    columns.push(Column::Type);
    if options.size {
        columns.push(Column::Size);
    }
    if options.binary {
        columns.push(Column::Binary);
    }
    if options.group_and_owner {
        columns.push(Column::Owner);
        columns.push(Column::Group);
    }
    if options.modified_time || options.mac {
        columns.push(Column::Modified);
    }
    if options.mac {
        columns.push(Column::Accessed);
        columns.push(Column::Created);
    }
    if options.permission {
        columns.push(Column::Permission);
    }
    assert(columns@ =~= shown_columns(options));
    columns
}

/// Whether the names of owners and groups are needed: they are looked up only
/// for a table that shows them.
pub fn owner_names_wanted(options: ColumnOptions) -> (wanted: bool)
    ensures
        wanted <==> shown_columns(options).contains(Column::Owner) || shown_columns(
            options,
        ).contains(Column::Group),
{
    proof {
        let shown = shown_columns(options);
        if options.group_and_owner {
            let sizes = columns_if(options.size, seq![Column::Size]);
            let counts = columns_if(options.binary, seq![Column::Binary]);
            assert(shown[(2 + sizes.len() + counts.len()) as int] == Column::Owner);
        } else {
            assert forall|i: int| 0 <= i < shown.len() implies shown[i] != Column::Owner
                && shown[i] != Column::Group by {}
        }
    }
    options.group_and_owner
}

/// The heading of a column.
pub fn column_title(column: Column) -> (title: String)
    ensures
        title@ == title_text(column),
{
    match column {
        Column::Name => String::from_str("Name"),
        Column::Type => String::from_str("Type"),
        Column::Size => String::from_str("Size"),
        Column::Binary => String::from_str("Binary"),
        Column::Owner => String::from_str("Owner"),
        Column::Group => String::from_str("Group"),
        Column::Modified => String::from_str("Date Modified"),
        Column::Accessed => String::from_str("Date Accessed"),
        Column::Created => String::from_str("Date Created"),
        Column::Permission => String::from_str("Permission"),
    }
}

/// The colour of the cells of a column below its heading.
pub fn column_tint(column: Column) -> (tint: Tint)
    ensures
        tint == tint_of(column),
{
    match column {
        Column::Name => Tint::Plain,
        Column::Type => Tint::Magenta,
        Column::Size | Column::Binary => Tint::BrightYellow,
        Column::Owner | Column::Group => Tint::Blue,
        Column::Modified | Column::Accessed | Column::Created => Tint::Yellow,
        Column::Permission => Tint::BrightGreen,
    }
}

/// The colour of the row of headings.
pub fn heading_tint() -> (tint: Tint)
    ensures
        tint == Tint::BrightBlack,
{
    Tint::BrightBlack
}

/// The text of the cell of `row` in `column`.
pub fn cell_text(row: &DisplayRow, column: Column) -> (text: String)
    ensures
        text@ == cell_of(*row, column),
{
    match column {
        Column::Name => row.basic.name.clone(),
        Column::Type => row.basic.types.label(),
        Column::Size => row.size.size.clone(),
        Column::Binary => row.binary.size.clone(),
        Column::Owner => row.group_owner.owner.clone(),
        Column::Group => row.group_owner.group.clone(),
        Column::Modified => row.mac.modified.clone(),
        Column::Accessed => row.mac.accessed.clone(),
        Column::Created => row.mac.created.clone(),
        Column::Permission => row.permission.permission.clone(),
    }
}

/// The headings of the given columns, from left to right.
pub fn heading_cells(columns: &Vec<Column>) -> (cells: Vec<String>)
    ensures
        cells.len() == columns.len(),
        forall|j: int| 0 <= j < cells.len() ==> (#[trigger] cells[j])@ == title_text(columns[j]),
{
    let mut cells: Vec<String> = Vec::new();
    let mut j: usize = 0;
    while j < columns.len()
        invariant
            j <= columns.len(),
            cells.len() == j,
            forall|k: int| 0 <= k < j ==> (#[trigger] cells[k])@ == title_text(columns[k]),
        decreases columns.len() - j,
    {
        cells.push(column_title(columns[j]));
        j = j + 1;
    }
    cells
}

/// The cells of one row in the given columns, from left to right.
pub fn row_cells(row: &DisplayRow, columns: &Vec<Column>) -> (cells: Vec<String>)
    ensures
        cells.len() == columns.len(),
        forall|j: int| 0 <= j < cells.len() ==> (#[trigger] cells[j])@ == cell_of(*row, columns[j]),
{
    let mut cells: Vec<String> = Vec::new();
    let mut j: usize = 0;
    while j < columns.len()
        invariant
            j <= columns.len(),
            cells.len() == j,
            forall|k: int| 0 <= k < j ==> (#[trigger] cells[k])@ == cell_of(*row, columns[k]),
        decreases columns.len() - j,
    {
        cells.push(cell_text(row, columns[j]));
        j = j + 1;
    }
    cells
}

/// The cells of the table below its headings: for each row, in the order of
/// `rows`, its cells in the given columns.
pub fn table_cells(rows: &Vec<DisplayRow>, columns: &Vec<Column>) -> (cells: Vec<Vec<String>>)
    ensures
        cells.len() == rows.len(),
        forall|i: int| 0 <= i < cells.len() ==> (#[trigger] cells[i]).len() == columns.len(),
        forall|i: int, j: int|
            0 <= i < cells.len() && 0 <= j < columns.len() ==> (#[trigger] cells[i][j])@ == cell_of(
                rows[i],
                columns[j],
            ),
{
    let mut cells: Vec<Vec<String>> = Vec::new();
    let mut i: usize = 0;
    while i < rows.len()
        invariant
            i <= rows.len(),
            cells.len() == i,
            forall|k: int| 0 <= k < i ==> (#[trigger] cells[k]).len() == columns.len(),
            forall|k: int, j: int|
                0 <= k < i && 0 <= j < columns.len() ==> (#[trigger] cells[k][j])@ == cell_of(
                    rows[k],
                    columns[j],
                ),
        decreases rows.len() - i,
    {
        cells.push(row_cells(&rows[i], columns));
        i = i + 1;
    }
    cells
}

/// A table that is ready to be printed: its columns from left to right, their
/// headings, and below them one row of cells for each entry of the listing.
#[derive(Debug)]
pub struct TableLayout {
    pub columns: Vec<Column>,
    pub headings: Vec<String>,
    pub cells: Vec<Vec<String>>,
}

/// What the cell of the entry `e` in `column` holds.
pub open spec fn entry_cell(e: EntryView, column: Column) -> Seq<char> {
    match column {
        Column::Name => e.name,
        Column::Type => kind_text(kind_of(e.is_directory)),
        Column::Size => size_text(e.size_bytes as nat),
        Column::Binary => decimal_text(e.size_bytes as nat),
        Column::Owner => label_text(e.owner_name, e.owner_id),
        Column::Group => label_text(e.group_name, e.group_id),
        Column::Modified => date_text(e.modified),
        Column::Accessed => date_text(e.accessed),
        Column::Created => date_text(e.created),
        Column::Permission => permission_text(e.is_directory, e.permission_bits),
    }
}

/// The table for what a scan found: the rows are those of the listing that
/// `listing_of` describes, the columns those that `options` ask for.
pub fn list_table(
    scan: Option<Vec<Option<DirectoryEntry>>>,
    show_hidden: bool,
    reverse: bool,
    directories_only: bool,
    sort: SortField,
    git_ignore: bool,
    options: ColumnOptions,
) -> (table: TableLayout)
    ensures
        table.columns@ == shown_columns(options),
        table.headings.len() == table.columns.len(),
        forall|j: int|
            0 <= j < table.headings.len() ==> (#[trigger] table.headings[j])@ == title_text(
                table.columns[j],
            ),
        table.cells.len() == listing_of(
            scan_view(scan),
            show_hidden,
            reverse,
            directories_only,
            sort,
            git_ignore,
        ).len(),
        forall|i: int|
            0 <= i < table.cells.len() ==> (#[trigger] table.cells[i]).len()
                == table.columns.len(),
        forall|i: int, j: int|
            0 <= i < table.cells.len() && 0 <= j < table.columns.len() ==> (
            #[trigger] table.cells[i][j])@ == entry_cell(
                listing_of(
                    scan_view(scan),
                    show_hidden,
                    reverse,
                    directories_only,
                    sort,
                    git_ignore,
                )[i]@,
                table.columns[j],
            ),
{
    let rows = get_files(scan, show_hidden, reverse, directories_only, sort, git_ignore);
    let columns = visible_columns(options);
    let headings = heading_cells(&columns);
    let cells = table_cells(&rows, &columns);
    proof {
        let listing = listing_of(
            scan_view(scan),
            show_hidden,
            reverse,
            directories_only,
            sort,
            git_ignore,
        );
        assert forall|i: int, j: int| 0 <= i < cells.len() && 0 <= j < columns.len() implies (
        #[trigger] cells[i][j])@ == entry_cell(listing[i]@, columns[j]) by {
            assert(row_shows(rows[i], listing[i]@));
            assert(cells[i][j]@ == cell_of(rows[i], columns[j]));
        }
    }
    TableLayout { columns, headings, cells }
}

} // verus!
