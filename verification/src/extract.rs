//! From a page to its airports: the first table of the page is read into a
//! grid of cell texts, and the grid is turned into records.

use crate::dom::{
    compiled_selector, document_matches, element_matches, page_fits, parsed_document,
    select_in_document, select_in_element, text_nodes, text_nodes_of,
};
use crate::record::{
    airports_from_rows, is_full_row, lemma_full_rows_give_all_records, records_of_table, Airport,
    AirportView,
};
use crate::text::{join_text, joined, trimmed};
use scraper::{ElementRef, Html, Selector};
use vstd::prelude::*;

verus! {

/// The selector that finds the tables of a page.
pub const TABLE_SELECTOR: &'static str = "table";

/// The selector that finds the rows of a table.
pub const ROW_SELECTOR: &'static str = "tr";

/// The selector that finds the cells of a row.
pub const CELL_SELECTOR: &'static str = "td";

/// Why a page gave no records.
#[derive(Debug, Clone, Copy, PartialEq, Eq)]
pub enum ExtractError {
    /// The selector for tables did not compile.
    TableSelector,
    /// The selector for rows did not compile.
    RowSelector,
    /// The selector for cells did not compile.
    CellSelector,
    /// The page holds no table.
    NoTable,
}

impl ExtractError {
    /// The error in words.
    pub fn message(&self) -> (words: &'static str)
        ensures
            words@ == match *self {
                ExtractError::TableSelector => "Failed to parse table selector"@,
                ExtractError::RowSelector => "Failed to parse row selector"@,
                ExtractError::CellSelector => "Failed to parse cell selector"@,
                ExtractError::NoTable => "No table found in HTML"@,
            },
    {
        match self {
            ExtractError::TableSelector => "Failed to parse table selector",
            ExtractError::RowSelector => "Failed to parse row selector",
            ExtractError::CellSelector => "Failed to parse cell selector",
            ExtractError::NoTable => "No table found in HTML",
        }
    }
}

/// The text of a cell: all the text nodes below it, joined in their order.
pub open spec fn cell_text(cell: ElementRef) -> Seq<char> {
    joined(text_nodes(cell))
}

/// The texts of the cells of a row, in their order.
pub open spec fn row_cells(row: ElementRef, cells: Selector) -> Seq<Seq<char>> {
    element_matches(row, cells).map_values(|cell: ElementRef<'static>| cell_text(cell))
}

/// The rows of a table, in their order, each as the texts of its cells.
pub open spec fn table_cells(table: ElementRef, rows: Selector, cells: Selector) -> Seq<
    Seq<Seq<char>>,
> {
    element_matches(table, rows).map_values(|row: ElementRef<'static>| row_cells(row, cells))
}

/// Whether the three selectors compile.
pub open spec fn selectors_compile() -> bool {
    &&& compiled_selector(TABLE_SELECTOR@) is Ok
    &&& compiled_selector(ROW_SELECTOR@) is Ok
    &&& compiled_selector(CELL_SELECTOR@) is Ok
}

/// The tables of a page, in the order in which `Html::select` yields them:
/// the order in which the parser put them into the tree.
pub open spec fn tables_of(html: Seq<char>) -> Seq<ElementRef<'static>> {
    document_matches(parsed_document(html), compiled_selector(TABLE_SELECTOR@)->Ok_0)
}

/// The grid of the first table of a page, or the reason there is none. The
/// selectors are compiled first, in the order table, row, cell, and the
/// first that fails decides the error.
pub open spec fn table_grid(html: Seq<char>) -> Result<Seq<Seq<Seq<char>>>, ExtractError> {
    if compiled_selector(TABLE_SELECTOR@) is Err {
        Err(ExtractError::TableSelector)
    } else if compiled_selector(ROW_SELECTOR@) is Err {
        Err(ExtractError::RowSelector)
    } else if compiled_selector(CELL_SELECTOR@) is Err {
        Err(ExtractError::CellSelector)
    } else if tables_of(html).len() == 0 {
        Err(ExtractError::NoTable)
    } else {
        Ok(
            table_cells(
                tables_of(html)[0],
                compiled_selector(ROW_SELECTOR@)->Ok_0,
                compiled_selector(CELL_SELECTOR@)->Ok_0,
            ),
        )
    }
}

/// The records of a page, or the reason there are none.
pub open spec fn extraction(html: Seq<char>) -> Result<Seq<AirportView>, ExtractError> {
    match table_grid(html) {
        Ok(rows) => Ok(records_of_table(rows)),
        Err(error) => Err(error),
    }
}

/// The text of one cell.
fn text_of_cell(cell: &ElementRef) -> (text: String)
    ensures
        text@ == cell_text(*cell),
{
    let nodes = text_nodes_of(cell);
    join_text(nodes.as_slice())
}

/// The texts of the cells of one row.
fn cells_of_row(row: &ElementRef, cells: &Selector) -> (texts: Vec<String>)
    ensures
        texts.deep_view() == row_cells(*row, *cells),
{
    let found = select_in_element(row, cells);
    let mut texts: Vec<String> = Vec::new();
    let mut i: usize = 0;
    while i < found.len()
        invariant
            i <= found.len(),
            found@ == element_matches(*row, *cells),
            texts.deep_view() == row_cells(*row, *cells).take(i as int),
        decreases found.len() - i,
    {
        let ghost all = row_cells(*row, *cells);
        let ghost before = texts.deep_view();
        let text = text_of_cell(&found[i]);
        texts.push(text);
        assert(texts.deep_view() == before.push(text@));
        assert(all.take(i + 1) == all.take(i as int).push(all[i as int]));
        i += 1;
    }
    assert(row_cells(*row, *cells).take(i as int) == row_cells(*row, *cells));
    texts
}

/// The rows of one table, each as the texts of its cells.
fn rows_of_table(table: &ElementRef, rows: &Selector, cells: &Selector) -> (grid: Vec<Vec<String>>)
    ensures
        grid.deep_view() == table_cells(*table, *rows, *cells),
{
    let found = select_in_element(table, rows);
    let mut grid: Vec<Vec<String>> = Vec::new();
    let mut i: usize = 0;
    while i < found.len()
        invariant
            i <= found.len(),
            found@ == element_matches(*table, *rows),
            grid.deep_view() == table_cells(*table, *rows, *cells).take(i as int),
        decreases found.len() - i,
    {
        let ghost all = table_cells(*table, *rows, *cells);
        let ghost before = grid.deep_view();
        let texts = cells_of_row(&found[i], cells);
        grid.push(texts);
        assert(grid.deep_view() == before.push(texts.deep_view()));
        assert(all.take(i + 1) == all.take(i as int).push(all[i as int]));
        i += 1;
    }
    assert(table_cells(*table, *rows, *cells).take(i as int) == table_cells(*table, *rows, *cells));
    grid
}

/// Reads the first table of a page into its rows of cell texts, the header
/// row included. The first table is the first that `Html::select` yields.
///
/// Fails if a selector does not compile, or if the page holds no table. The
/// page may not be longer than [`crate::dom::MAX_PAGE_BYTES`]: the parser
/// panics on a page that its buffers cannot hold.
pub fn table_rows(html: &str) -> (result: Result<Vec<Vec<String>>, ExtractError>)
    requires
        page_fits(html),
    ensures
        match result {
            Ok(grid) => table_grid(html@) == Ok::<Seq<Seq<Seq<char>>>, ExtractError>(
                grid.deep_view(),
            ),
            Err(error) => table_grid(html@) == Err::<Seq<Seq<Seq<char>>>, ExtractError>(error),
        },
{
    let document = Html::parse_document(html);
    let tables = match Selector::parse(TABLE_SELECTOR) {
        Ok(selector) => selector,
        Err(_) => {
            return Err(ExtractError::TableSelector);
        },
    };
    let rows = match Selector::parse(ROW_SELECTOR) {
        Ok(selector) => selector,
        Err(_) => {
            return Err(ExtractError::RowSelector);
        },
    };
    let cells = match Selector::parse(CELL_SELECTOR) {
        Ok(selector) => selector,
        Err(_) => {
            return Err(ExtractError::CellSelector);
        },
    };
    let found = select_in_document(&document, &tables);
    if found.len() == 0 {
        return Err(ExtractError::NoTable);
    }
    Ok(rows_of_table(&found[0], &rows, &cells))
}

/// The airports of a page: one for each row of its first table, after the
/// header, that has at least four cells.
///
/// Fails if a selector does not compile, or if the page holds no table. The
/// page may not be longer than [`crate::dom::MAX_PAGE_BYTES`]: the parser
/// panics on a page that its buffers cannot hold.
pub fn parse_html_table(html: &str) -> (result: Result<Vec<Airport>, ExtractError>)
    requires
        page_fits(html),
    ensures
        match result {
            Ok(airports) => extraction(html@) == Ok::<Seq<AirportView>, ExtractError>(
                airports.deep_view(),
            ),
            Err(error) => extraction(html@) == Err::<Seq<AirportView>, ExtractError>(error),
        },
        result is Ok <==> selectors_compile() && tables_of(html@).len() > 0,
        selectors_compile() && tables_of(html@).len() == 0 ==> result == Err::<
            Vec<Airport>,
            ExtractError,
        >(ExtractError::NoTable),
        result matches Ok(airports) ==> forall|i: int|
            0 <= i < airports.len() ==> (#[trigger] airports[i])@.is_trimmed(),
{
    match table_rows(html) {
        Ok(grid) => Ok(airports_from_rows(grid.as_slice())),
        Err(error) => Err(error),
    }
}

/// The cell in column `column` of row `row` of the first table of a page,
/// counted from 0, the header row included.
pub open spec fn cell_at(html: Seq<char>, row: int, column: int) -> ElementRef<'static> {
    let rows = element_matches(tables_of(html)[0], compiled_selector(ROW_SELECTOR@)->Ok_0);
    element_matches(rows[row], compiled_selector(CELL_SELECTOR@)->Ok_0)[column]
}

/// A page whose first table has a header row and, after it, only rows with
/// at least four cells gives one record for each of those rows, in the order
/// in which `ElementRef::select` yields the rows; each field of a record is
/// the trimmed text of the cell in its column, and the text of a cell is its
/// text nodes joined.
pub proof fn lemma_page_of_full_rows(html: Seq<char>)
    requires
        table_grid(html) is Ok,
        table_grid(html)->Ok_0.len() >= 1,
        forall|i: int|
            1 <= i < table_grid(html)->Ok_0.len() ==> is_full_row(
                #[trigger] table_grid(html)->Ok_0[i],
            ),
    ensures
        extraction(html) is Ok,
        extraction(html)->Ok_0.len() == table_grid(html)->Ok_0.len() - 1,
        forall|i: int|
            0 <= i < extraction(html)->Ok_0.len() ==> #[trigger] extraction(html)->Ok_0[i] == (
            AirportView {
                name: trimmed(joined(text_nodes(cell_at(html, i + 1, 0)))),
                city: trimmed(joined(text_nodes(cell_at(html, i + 1, 1)))),
                iata_code: trimmed(joined(text_nodes(cell_at(html, i + 1, 2)))),
                icao_code: trimmed(joined(text_nodes(cell_at(html, i + 1, 3)))),
            }),
{
    let grid = table_grid(html)->Ok_0;
    let records = extraction(html)->Ok_0;
    lemma_full_rows_give_all_records(grid);
    assert forall|i: int| 0 <= i < records.len() implies #[trigger] records[i] == (AirportView {
        name: trimmed(joined(text_nodes(cell_at(html, i + 1, 0)))),
        city: trimmed(joined(text_nodes(cell_at(html, i + 1, 1)))),
        iata_code: trimmed(joined(text_nodes(cell_at(html, i + 1, 2)))),
        icao_code: trimmed(joined(text_nodes(cell_at(html, i + 1, 3)))),
    }) by {
        assert(records[i] == records_of_table(grid)[i]);
        assert(is_full_row(grid[i + 1]));
    }
}

} // verus!
