//! The table of a report: its rows, the four columns that are read from
//! each, and the records that they make.

use crate::digits::{decimal_digits, decimal_string};
use crate::number::{is_number_char, is_number_text, lemma_number_chars};
use crate::price::{
    lemma_zero_is_number, record_texts, zero_text, Price, PriceRecord, RecordText,
};
use table_extract::{Row, Table};
use vstd::prelude::*;

verus! {

/// A table that table_extract has read from a page.
#[verifier::external_type_specification]
#[verifier::external_body]
pub struct ExTable(Table);

/// One row of such a table, which borrows from it.
#[verifier::external_type_specification]
#[verifier::external_body]
pub struct ExRow<'a>(Row<'a>);

/// The cells of a row that can be reached by a header: from the text of the
/// header to the text of the cell.
pub type Cells = Map<Seq<char>, Seq<char>>;

/// Whether `Table::find_first` finds a table in a page. The page fixes no
/// more than that: a cell is handed over with its markup, and the
/// attributes of an element in it come in no fixed order.
pub uninterp spec fn has_table(html: Seq<char>) -> bool;

/// The data rows of a table, first to last: for each row, every header of
/// the table whose column the row is long enough to reach, with the text
/// of the row's cell in that column.
pub uninterp spec fn table_rows(table: Table) -> Seq<Cells>;

/// The cells of a row by their headers: every header of the table whose
/// column the row is long enough to reach, with the text of the row's cell
/// in that column.
pub uninterp spec fn row_cells(row: Row<'_>) -> Cells;

/// The first table of a page, by `Table::find_first`. Trusted: the same
/// page always gives a table, or always none. Nothing is said of what the
/// table holds.
#[verifier::external_body]
fn find_first(html: &str) -> (found: Option<Table>)
    ensures
        found.is_some() == has_table(html@),
{
    Table::find_first(html)
}

/// The rows of a table, by `Table::iter`, gathered in a vector. Trusted:
/// the iterator gives the data rows of the table first to last, each once.
#[verifier::external_body]
fn rows_of<'a>(table: &'a Table) -> (rows: Vec<Row<'a>>)
    ensures
        rows@.len() == table_rows(*table).len(),
        forall|i: int|
            0 <= i < rows@.len() ==> row_cells(#[trigger] rows@[i]) == table_rows(*table)[i],
{
    table.iter().collect()
}

/// The cell of a row under a header, by `Row::get`. Trusted: there is a
/// cell exactly where the table has the header and the row is long enough
/// to reach its column.
#[verifier::external_body]
fn cell_under<'a>(row: &Row<'a>, header: &str) -> (cell: Option<&'a str>)
    ensures
        match cell {
            Some(text) => {
                &&& row_cells(*row).contains_key(header@)
                &&& row_cells(*row)[header@] == text@
            },
            None => !row_cells(*row).contains_key(header@),
        },
{
    row.get(header)
}

/// One of the four columns that are read from the table.
#[derive(Clone, Copy, Debug, PartialEq, Eq)]
pub enum Column {
    Houston,
    North,
    South,
    West,
}

impl Column {
    /// The header that the table has over the column.
    pub open spec fn header(self) -> Seq<char> {
        match self {
            Column::Houston => "LZ_HOUSTON"@,
            Column::North => "LZ_NORTH"@,
            Column::South => "LZ_SOUTH"@,
            Column::West => "LZ_WEST"@,
        }
    }

    /// The header that the table has over the column.
    pub fn name(self) -> (header: &'static str)
        ensures
            header@ == self.header(),
    {
        match self {
            Column::Houston => "LZ_HOUSTON",
            Column::North => "LZ_NORTH",
            Column::South => "LZ_SOUTH",
            Column::West => "LZ_WEST",
        }
    }
}

/// Why a page gave no records. Both are handed back to the caller, who may
/// try again or go on without the page: reading a page never stops the
/// program.
#[derive(Clone, Copy, Debug, PartialEq, Eq)]
pub enum ParseError {
    /// The page holds no table.
    NoTable,
    /// The cell of data row `row`, counted from 0, under `column` is there
    /// and is no number.
    NotNumeric { row: usize, column: Column },
}

/// What an error says to a reader.
pub open spec fn message_text(error: ParseError) -> Seq<char> {
    match error {
        ParseError::NoTable => "no table found"@,
        ParseError::NotNumeric { row, column } => "no number under "@ + column.header()
            + " in row "@ + decimal_digits(row as int),
    }
}

impl ParseError {
    /// What the error says to a reader: which column of which data row,
    /// counted from 0, holds no number, or that there is no table.
    pub fn message(&self) -> (text: String)
        ensures
            text@ == message_text(*self),
    {
        match self {
            ParseError::NoTable => String::from_str("no table found"),
            ParseError::NotNumeric { row, column } => {
                let mut text = String::from_str("no number under ");
                text.append(column.name());
                text.append(" in row ");
                text.append(decimal_string(*row).as_str());
                text
            },
        }
    }
}

/// The cell of a row under `header`, if the row has one.
pub open spec fn cell_of(cells: Cells, header: Seq<char>) -> Option<Seq<char>> {
    if cells.contains_key(header) {
        Some(cells[header])
    } else {
        None
    }
}

/// The price that a cell gives: the price of nothing where there is no
/// cell, the cell's own text where that is a number, and none where it is
/// not.
pub open spec fn price_from(cell: Option<Seq<char>>) -> Option<Seq<char>> {
    match cell {
        None => Some(zero_text()),
        Some(text) => if is_number_text(text) {
            Some(text)
        } else {
            None
        },
    }
}

/// The price that a row gives for a column.
pub open spec fn column_price(cells: Cells, column: Column) -> Option<Seq<char>> {
    price_from(cell_of(cells, column.header()))
}

/// The column to blame where one of four prices is wanting. The columns
/// are looked at in the order Houston, South, West, North.
pub open spec fn first_wanting(
    houston: Option<Seq<char>>,
    north: Option<Seq<char>>,
    south: Option<Seq<char>>,
    west: Option<Seq<char>>,
) -> Option<Column> {
    if houston is None {
        Some(Column::Houston)
    } else if south is None {
        Some(Column::South)
    } else if west is None {
        Some(Column::West)
    } else if north is None {
        Some(Column::North)
    } else {
        None
    }
}

/// What four prices of data row `row` make: their record, or the error
/// that names the column to blame.
pub open spec fn assembled(
    row: usize,
    houston: Option<Seq<char>>,
    north: Option<Seq<char>>,
    south: Option<Seq<char>>,
    west: Option<Seq<char>>,
) -> Result<RecordText, ParseError> {
    match first_wanting(houston, north, south, west) {
        Some(column) => Err(ParseError::NotNumeric { row, column }),
        None => Ok(
            RecordText {
                lz_houston: houston.unwrap(),
                lz_north: north.unwrap(),
                lz_south: south.unwrap(),
                lz_west: west.unwrap(),
            },
        ),
    }
}

/// The column of a row whose cell is no number, if it has one.
pub open spec fn bad_column(cells: Cells) -> Option<Column> {
    first_wanting(
        column_price(cells, Column::Houston),
        column_price(cells, Column::North),
        column_price(cells, Column::South),
        column_price(cells, Column::West),
    )
}

/// The record of a row without a bad column.
pub open spec fn row_record(cells: Cells) -> RecordText {
    RecordText {
        lz_houston: column_price(cells, Column::Houston).unwrap(),
        lz_north: column_price(cells, Column::North).unwrap(),
        lz_south: column_price(cells, Column::South).unwrap(),
        lz_west: column_price(cells, Column::West).unwrap(),
    }
}

/// What data row `index` gives: its record, or its bad column.
pub open spec fn row_outcome(index: usize, cells: Cells) -> Result<RecordText, ParseError> {
    assembled(
        index,
        column_price(cells, Column::Houston),
        column_price(cells, Column::North),
        column_price(cells, Column::South),
        column_price(cells, Column::West),
    )
}

/// Row `i` has a bad column and no row before it has one.
pub open spec fn first_bad_row(rows: Seq<Cells>, i: int) -> bool {
    &&& 0 <= i < rows.len()
    &&& bad_column(rows[i]) is Some
    &&& forall|j: int| 0 <= j < i ==> bad_column(#[trigger] rows[j]) is None
}

/// What the data rows of a table give: one record for each row, in their
/// order, or the first bad row with its bad column.
pub open spec fn records_of(rows: Seq<Cells>) -> Result<Seq<RecordText>, ParseError> {
    if exists|i: int| first_bad_row(rows, i) {
        let i = choose|i: int| first_bad_row(rows, i);
        Err(ParseError::NotNumeric { row: i as usize, column: bad_column(rows[i]).unwrap() })
    } else {
        Ok(Seq::new(rows.len(), |i: int| row_record(rows[i])))
    }
}

/// A row without a cell under a header gives the price of nothing for
/// that column, and the column is not its bad one.
pub proof fn lemma_missing_column(cells: Cells, column: Column)
    requires
        !cells.contains_key(column.header()),
    ensures
        column_price(cells, column) == Some(zero_text()),
        bad_column(cells) != Some(column),
{
}

/// A row without a cell under `LZ_WEST` and with numbers under the other
/// three headers gives those three numbers, and the price of nothing for
/// the west.
pub proof fn lemma_missing_west(index: usize, cells: Cells)
    requires
        !cells.contains_key(Column::West.header()),
        cells.contains_key(Column::Houston.header()),
        cells.contains_key(Column::North.header()),
        cells.contains_key(Column::South.header()),
        is_number_text(cells[Column::Houston.header()]),
        is_number_text(cells[Column::North.header()]),
        is_number_text(cells[Column::South.header()]),
    ensures
        row_outcome(index, cells) == Ok::<RecordText, ParseError>(
            RecordText {
                lz_houston: cells[Column::Houston.header()],
                lz_north: cells[Column::North.header()],
                lz_south: cells[Column::South.header()],
                lz_west: zero_text(),
            },
        ),
{
}

/// A cell that is there and is no number makes its row a bad one.
pub proof fn lemma_bad_cell_bad_row(cells: Cells, column: Column)
    requires
        cells.contains_key(column.header()),
        !is_number_text(cells[column.header()]),
    ensures
        bad_column(cells) is Some,
        column == Column::Houston ==> bad_column(cells) == Some(Column::Houston),
{
}

/// Where a row is bad, some row is the first bad one, and it comes no
/// later.
pub proof fn lemma_first_bad_row_exists(rows: Seq<Cells>, i: int)
    requires
        0 <= i < rows.len(),
        bad_column(rows[i]) is Some,
    ensures
        exists|k: int| first_bad_row(rows, k) && k <= i,
    decreases i,
{
    if forall|j: int| 0 <= j < i ==> bad_column(#[trigger] rows[j]) is None {
        assert(first_bad_row(rows, i));
    } else {
        let j = choose|j: int| 0 <= j < i && !(bad_column(#[trigger] rows[j]) is None);
        lemma_first_bad_row_exists(rows, j);
    }
}

/// Only one row is the first bad one.
pub proof fn lemma_first_bad_row_is_one(rows: Seq<Cells>, i: int, k: int)
    requires
        first_bad_row(rows, i),
        first_bad_row(rows, k),
    ensures
        i == k,
{
    if i < k {
        assert(bad_column(rows[i]) is None);
    } else if k < i {
        assert(bad_column(rows[k]) is None);
    }
}

/// A table with a cell that is there and is no number gives no records,
/// whatever else it holds.
pub proof fn lemma_bad_cell_fails(rows: Seq<Cells>, i: int, column: Column)
    requires
        0 <= i < rows.len(),
        rows[i].contains_key(column.header()),
        !is_number_text(rows[i][column.header()]),
    ensures
        records_of(rows) is Err,
{
    lemma_bad_cell_bad_row(rows[i], column);
    lemma_first_bad_row_exists(rows, i);
}

/// Where the rows before row `i` are good and the cell of row `i` under
/// `LZ_HOUSTON` is there and is no number, the error names row `i` and
/// that column.
pub proof fn lemma_bad_houston_is_named(rows: Seq<Cells>, i: int)
    requires
        0 <= i < rows.len(),
        forall|j: int| 0 <= j < i ==> bad_column(#[trigger] rows[j]) is None,
        rows[i].contains_key(Column::Houston.header()),
        !is_number_text(rows[i][Column::Houston.header()]),
    ensures
        records_of(rows) == Err::<Seq<RecordText>, ParseError>(
            ParseError::NotNumeric { row: i as usize, column: Column::Houston },
        ),
{
    lemma_bad_cell_bad_row(rows[i], Column::Houston);
    assert(first_bad_row(rows, i));
    lemma_first_bad_row_is_one(rows, i, choose|k: int| first_bad_row(rows, k));
}

/// A row that has `N/A` under `LZ_HOUSTON`, after good rows only, is the
/// row that the error names, with that column.
pub proof fn lemma_not_available_is_named(rows: Seq<Cells>, i: int)
    requires
        0 <= i < rows.len(),
        forall|j: int| 0 <= j < i ==> bad_column(#[trigger] rows[j]) is None,
        rows[i].contains_key(Column::Houston.header()),
        rows[i][Column::Houston.header()] == "N/A"@,
    ensures
        records_of(rows) == Err::<Seq<RecordText>, ParseError>(
            ParseError::NotNumeric { row: i as usize, column: Column::Houston },
        ),
{
    reveal_strlit("N/A");
    if is_number_text("N/A"@) {
        lemma_number_chars("N/A"@);
        assert(is_number_char("N/A"@[1]));
    }
    lemma_bad_houston_is_named(rows, i);
}

/// The error of a table names its first bad row, and in that row a cell
/// that is there and is no number.
pub proof fn lemma_error_names_bad_cell(rows: Seq<Cells>)
    requires
        rows.len() <= usize::MAX,
        records_of(rows) is Err,
    ensures
        records_of(rows) matches Err(ParseError::NotNumeric { row, column }) && {
            &&& first_bad_row(rows, row as int)
            &&& bad_column(rows[row as int]) == Some(column)
            &&& rows[row as int].contains_key(column.header())
            &&& !is_number_text(rows[row as int][column.header()])
        },
{
}

/// The records of a table are as many as its rows and follow them one by
/// one, and every price in them is the text of a number.
pub proof fn lemma_records_follow_rows(rows: Seq<Cells>)
    requires
        records_of(rows) is Ok,
    ensures
        records_of(rows) matches Ok(records) && {
            &&& records.len() == rows.len()
            &&& forall|i: int|
                0 <= i < rows.len() ==> {
                    &&& #[trigger] records[i] == row_record(rows[i])
                    &&& is_number_text(records[i].lz_houston)
                    &&& is_number_text(records[i].lz_north)
                    &&& is_number_text(records[i].lz_south)
                    &&& is_number_text(records[i].lz_west)
                }
        },
{
    lemma_zero_is_number();
    let records = records_of(rows)->Ok_0;
    assert forall|i: int| 0 <= i < rows.len() implies {
        &&& #[trigger] records[i] == row_record(rows[i])
        &&& is_number_text(records[i].lz_houston)
        &&& is_number_text(records[i].lz_north)
        &&& is_number_text(records[i].lz_south)
        &&& is_number_text(records[i].lz_west)
    } by {
        if bad_column(rows[i]) is Some {
            lemma_first_bad_row_exists(rows, i);
        }
    }
}

/// A table without data rows gives no records and no error.
pub proof fn lemma_no_rows(rows: Seq<Cells>)
    requires
        rows.len() == 0,
    ensures
        records_of(rows) == Ok::<Seq<RecordText>, ParseError>(Seq::empty()),
{
    assert(Seq::new(rows.len(), |i: int| row_record(rows[i])) =~= Seq::<RecordText>::empty());
}

/// The text of a price that may be wanting.
pub open spec fn price_text(price: Option<Price>) -> Option<Seq<char>> {
    match price {
        Some(p) => Some(p@),
        None => None,
    }
}

/// The texts of the record that a row gave, or its error.
pub open spec fn record_outcome(outcome: Result<PriceRecord, ParseError>) -> Result<
    RecordText,
    ParseError,
> {
    match outcome {
        Ok(record) => Ok(record@),
        Err(e) => Err(e),
    }
}

/// The texts of the records that a table gave, or its error.
pub open spec fn outcome_texts(outcome: Result<Vec<PriceRecord>, ParseError>) -> Result<
    Seq<RecordText>,
    ParseError,
> {
    match outcome {
        Ok(records) => Ok(record_texts(records@)),
        Err(e) => Err(e),
    }
}

/// The price that a cell gives; none where the cell is there and is no
/// number.
pub fn price_of_cell(cell: Option<&str>) -> (price: Option<Price>)
    ensures
        price_text(price) == price_from(
            match cell {
                Some(text) => Some(text@),
                None => None,
            },
        ),
{
    match cell {
        Some(text) => Price::parse(text),
        None => Some(Price::zero()),
    }
}

/// The price that a row gives under `header`; none where the cell is there
/// and is no number.
pub fn parse_number(header: &str, row: Row<'_>) -> (price: Option<Price>)
    ensures
        price_text(price) == price_from(cell_of(row_cells(row), header@)),
{
    price_of_cell(cell_under(&row, header))
}

/// The record of four prices of data row `row`, or the error that names
/// the column to blame where one is wanting.
pub fn assemble(
    row: usize,
    houston: Option<Price>,
    north: Option<Price>,
    south: Option<Price>,
    west: Option<Price>,
) -> (outcome: Result<PriceRecord, ParseError>)
    ensures
        record_outcome(outcome) == assembled(
            row,
            price_text(houston),
            price_text(north),
            price_text(south),
            price_text(west),
        ),
{
    let lz_houston = match houston {
        Some(price) => price,
        None => {
            return Err(ParseError::NotNumeric { row, column: Column::Houston });
        },
    };
    let lz_south = match south {
        Some(price) => price,
        None => {
            return Err(ParseError::NotNumeric { row, column: Column::South });
        },
    };
    let lz_west = match west {
        Some(price) => price,
        None => {
            return Err(ParseError::NotNumeric { row, column: Column::West });
        },
    };
    let lz_north = match north {
        Some(price) => price,
        None => {
            return Err(ParseError::NotNumeric { row, column: Column::North });
        },
    };
    Ok(PriceRecord { lz_houston, lz_north, lz_south, lz_west })
}

/// The record of data row `index`, or the error that names its bad column.
/// The cells are read in the order Houston, South, West, North.
pub fn parse_row(index: usize, row: Row<'_>) -> (outcome: Result<PriceRecord, ParseError>)
    ensures
        record_outcome(outcome) == row_outcome(index, row_cells(row)),
{
    let houston = parse_number(Column::Houston.name(), row);
    let south = parse_number(Column::South.name(), row);
    let west = parse_number(Column::West.name(), row);
    let north = parse_number(Column::North.name(), row);
    assemble(index, houston, north, south, west)
}

/// The records of a table: one for each data row, in their order, or the
/// first bad row with its bad column.
pub fn parse_rows(table: &Table) -> (outcome: Result<Vec<PriceRecord>, ParseError>)
    ensures
        outcome_texts(outcome) == records_of(table_rows(*table)),
{
    let rows = rows_of(table);
    let ghost all = table_rows(*table);
    let mut records: Vec<PriceRecord> = Vec::new();
    let mut i: usize = 0;
    while i < rows.len()
        invariant
            i <= rows.len(),
            all == table_rows(*table),
            rows@.len() == all.len(),
            forall|j: int| 0 <= j < rows@.len() ==> row_cells(#[trigger] rows@[j]) == all[j],
            forall|j: int| 0 <= j < i ==> bad_column(#[trigger] all[j]) is None,
            record_texts(records@) == Seq::new(i as nat, |j: int| row_record(all[j])),
        decreases rows.len() - i,
    {
        assert(row_cells(rows@[i as int]) == all[i as int]);
        let ghost before = records@;
        match parse_row(i, rows[i]) {
            Ok(record) => {
                records.push(record);
                proof {
                    assert(records@ == before.push(record));
                    assert(record_texts(records@) =~= record_texts(before).push(record@));
                    assert(record_texts(records@) =~= Seq::new(
                        (i + 1) as nat,
                        |j: int| row_record(all[j]),
                    ));
                }
            },
            Err(e) => {
                proof {
                    assert(first_bad_row(all, i as int));
                    let k = choose|k: int| first_bad_row(all, k);
                    assert(k == i);
                }
                return Err(e);
            },
        }
        i += 1;
    }
    proof {
        assert forall|k: int| !first_bad_row(all, k) by {}
    }
    Ok(records)
}

/// The records of the first table of a page: one for each data row, in
/// the order of the page. Under each of the four headers a row gives the
/// number in its cell, or the price of nothing where it has no such cell. A
/// page without a table gives `NoTable`; a cell that is there and is no
/// number gives `NotNumeric` with the first such row and, in it, the first
/// such column in the order Houston, South, West, North.
///
/// The rows are those of the table that was read, whatever they are; what
/// they give is stated to the letter by `parse_rows`.
pub fn parse_table(html: String) -> (outcome: Result<Vec<PriceRecord>, ParseError>)
    ensures
        !has_table(html@) <==> outcome_texts(outcome) == Err::<Seq<RecordText>, ParseError>(
            ParseError::NoTable,
        ),
        has_table(html@) ==> exists|rows: Seq<Cells>|
            outcome_texts(outcome) == #[trigger] records_of(rows),
{
    match find_first(html.as_str()) {
        Some(table) => {
            let outcome = parse_rows(&table);
            assert(outcome_texts(outcome) == records_of(table_rows(table)));
            outcome
        },
        None => Err(ParseError::NoTable),
    }
}

} // verus!
