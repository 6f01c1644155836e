//! Airport records, and the rule that turns the rows of a table into them.
//!
//! A table is taken as a grid of cell texts: a sequence of rows, each a
//! sequence of cells. Its first row is the header and gives no record. Every
//! later row with at least [`MIN_CELLS`] cells gives one record, made of its
//! first four cells, trimmed; a shorter row gives none.

use crate::text::{
    is_blank, is_trimmed, lemma_blank_is_trimmed_to_nothing, lemma_trimmed_is_trimmed, trim_text,
    trimmed,
};
use vstd::prelude::*;

verus! {

/// The number of cells that a row needs to give a record.
pub const MIN_CELLS: usize = 4;

/// One airport, as one row of the table describes it.
#[derive(Debug, PartialEq, Eq)]
pub struct Airport {
    pub name: String,
    pub city: String,
    pub iata_code: String,
    pub icao_code: String,
}

/// The four texts of an [`Airport`].
pub struct AirportView {
    pub name: Seq<char>,
    pub city: Seq<char>,
    pub iata_code: Seq<char>,
    pub icao_code: Seq<char>,
}

impl AirportView {
    /// Whether no field starts or ends with white space.
    pub open spec fn is_trimmed(self) -> bool {
        &&& is_trimmed(self.name)
        &&& is_trimmed(self.city)
        &&& is_trimmed(self.iata_code)
        &&& is_trimmed(self.icao_code)
    }
}

impl View for Airport {
    type V = AirportView;

    open spec fn view(&self) -> AirportView {
        AirportView {
            name: self.name@,
            city: self.city@,
            iata_code: self.iata_code@,
            icao_code: self.icao_code@,
        }
    }
}

impl DeepView for Airport {
    type V = AirportView;

    open spec fn deep_view(&self) -> AirportView {
        self@
    }
}

/// Whether a row has enough cells to give a record.
pub open spec fn is_full_row(cells: Seq<Seq<char>>) -> bool {
    cells.len() >= MIN_CELLS
}

/// The record that a row gives: its first four cells, trimmed, in the order
/// name, city, IATA code, ICAO code. A row that is not full gives none.
pub open spec fn record_of_cells(cells: Seq<Seq<char>>) -> Option<AirportView> {
    if is_full_row(cells) {
        Some(
            AirportView {
                name: trimmed(cells[0]),
                city: trimmed(cells[1]),
                iata_code: trimmed(cells[2]),
                icao_code: trimmed(cells[3]),
            },
        )
    } else {
        None
    }
}

/// The records that data rows give: one for each full row, in row order.
pub open spec fn records_of_rows(rows: Seq<Seq<Seq<char>>>) -> Seq<AirportView> {
    rows.filter_map(|cells: Seq<Seq<char>>| record_of_cells(cells))
}

/// The records that a table gives: those of its rows after the first, which
/// is the header whatever it holds.
pub open spec fn records_of_table(rows: Seq<Seq<Seq<char>>>) -> Seq<AirportView> {
    if rows.len() == 0 {
        Seq::empty()
    } else {
        records_of_rows(rows.drop_first())
    }
}

/// The rows among `rows` that are too short to give a record.
pub open spec fn short_rows(rows: Seq<Seq<Seq<char>>>) -> Seq<Seq<Seq<char>>> {
    rows.filter(|cells: Seq<Seq<char>>| !is_full_row(cells))
}

impl Airport {
    /// The record of one row of cell texts, if the row is full.
    pub fn from_cells(cells: &[String]) -> (record: Option<Airport>)
        ensures
            record.deep_view() == record_of_cells(cells.deep_view()),
            record is Some ==> record->Some_0@.is_trimmed(),
    {
        if cells.len() >= MIN_CELLS {
            Some(
                Airport {
                    name: trim_text(cells[0].as_str()),
                    city: trim_text(cells[1].as_str()),
                    iata_code: trim_text(cells[2].as_str()),
                    icao_code: trim_text(cells[3].as_str()),
                },
            )
        } else {
            None
        }
    }
}

/// The records of a table, given as its rows of cell texts, header first.
pub fn airports_from_rows(rows: &[Vec<String>]) -> (records: Vec<Airport>)
    ensures
        records.deep_view() == records_of_table(rows.deep_view()),
        forall|i: int| 0 <= i < records.len() ==> (#[trigger] records[i])@.is_trimmed(),
{
    let mut records: Vec<Airport> = Vec::new();
    if rows.len() == 0 {
        assert(records.deep_view() == Seq::<AirportView>::empty());
        return records;
    }
    let ghost data = rows.deep_view().drop_first();
    let ghost rule = |cells: Seq<Seq<char>>| record_of_cells(cells);
    let mut i: usize = 1;
    assert(records.deep_view() == data.take(0).filter_map(rule));
    while i < rows.len()
        invariant
            1 <= i <= rows.len(),
            data == rows.deep_view().drop_first(),
            rule == |cells: Seq<Seq<char>>| record_of_cells(cells),
            records.deep_view() == data.take(i - 1).filter_map(rule),
            forall|k: int| 0 <= k < records.len() ==> (#[trigger] records[k])@.is_trimmed(),
        decreases rows.len() - i,
    {
        let ghost before = records.deep_view();
        proof {
            data.lemma_filter_map_take_succ(rule, i - 1);
            assert(data[i - 1] == rows[i as int].deep_view());
        }
        match Airport::from_cells(rows[i].as_slice()) {
            Some(airport) => {
                records.push(airport);
                assert(records.deep_view() == before + seq![airport@]);
            },
            None => {},
        }
        i += 1;
    }
    assert(data.take(i - 1) == data);
    records
}

/// A table whose rows after the header are all full gives one record for
/// each of them, in row order, and each field of a record is the trimmed
/// text of the cell in its column.
pub proof fn lemma_full_rows_give_all_records(rows: Seq<Seq<Seq<char>>>)
    requires
        rows.len() >= 1,
        forall|i: int| 1 <= i < rows.len() ==> is_full_row(#[trigger] rows[i]),
    ensures
        records_of_table(rows).len() == rows.len() - 1,
        forall|i: int|
            0 <= i < rows.len() - 1 ==> {
                let record = #[trigger] records_of_table(rows)[i];
                &&& record.name == trimmed(rows[i + 1][0])
                &&& record.city == trimmed(rows[i + 1][1])
                &&& record.iata_code == trimmed(rows[i + 1][2])
                &&& record.icao_code == trimmed(rows[i + 1][3])
            },
{
    let data = rows.drop_first();
    lemma_records_of_full_rows(data);
    assert forall|i: int| 0 <= i < rows.len() - 1 implies Some(#[trigger] records_of_table(rows)[i])
        == record_of_cells(rows[i + 1]) by {
        assert(data[i] == rows[i + 1]);
    }
}

/// Data rows that are all full give one record each, in row order.
pub proof fn lemma_records_of_full_rows(rows: Seq<Seq<Seq<char>>>)
    requires
        forall|i: int| 0 <= i < rows.len() ==> is_full_row(#[trigger] rows[i]),
    ensures
        records_of_rows(rows).len() == rows.len(),
        forall|i: int|
            0 <= i < rows.len() ==> Some(#[trigger] records_of_rows(rows)[i]) == record_of_cells(
                rows[i],
            ),
    decreases rows.len(),
{
    if rows.len() > 0 {
        let rest = rows.drop_last();
        lemma_records_of_full_rows(rest);
        assert(is_full_row(rows.last()));
    }
}

/// Records follow the order of the rows: those of the rows of `first` come
/// before those of the rows of `second`.
pub proof fn lemma_records_of_rows_in_sequence(
    first: Seq<Seq<Seq<char>>>,
    second: Seq<Seq<Seq<char>>>,
)
    ensures
        records_of_rows(first + second) == records_of_rows(first) + records_of_rows(second),
    decreases second.len(),
{
    if second.len() == 0 {
        assert(first + second == first);
    } else {
        let rest = second.drop_last();
        lemma_records_of_rows_in_sequence(first, rest);
        assert((first + second).drop_last() == first + rest);
        assert((first + second).last() == second.last());
    }
}

/// A row that is too short gives no record and leaves the records of the
/// rows around it as they are, in the same order: the table gives what it
/// would give without that row.
pub proof fn lemma_short_row_is_skipped(
    before: Seq<Seq<Seq<char>>>,
    short: Seq<Seq<char>>,
    after: Seq<Seq<Seq<char>>>,
)
    requires
        !is_full_row(short),
    ensures
        records_of_rows(before + seq![short] + after) == records_of_rows(before + after),
        records_of_rows(before + seq![short] + after) == records_of_rows(before) + records_of_rows(
            after,
        ),
{
    lemma_records_of_rows_in_sequence(before, seq![short]);
    lemma_records_of_rows_in_sequence(before + seq![short], after);
    lemma_records_of_rows_in_sequence(before, after);
    assert(records_of_rows(seq![short]) == Seq::<AirportView>::empty()) by {
        reveal_with_fuel(Seq::filter_map, 2);
        assert(seq![short].drop_last().len() == 0);
        assert(seq![short].last() == short);
    }
}

/// The number of records is the number of data rows less the short ones.
pub proof fn lemma_record_count(rows: Seq<Seq<Seq<char>>>)
    ensures
        records_of_rows(rows).len() == rows.len() - short_rows(rows).len(),
    decreases rows.len(),
{
    reveal(Seq::filter);
    if rows.len() > 0 {
        lemma_record_count(rows.drop_last());
    }
}

/// The number of records of a table with a header is the number of its rows,
/// less one for the header, less the short rows after the header.
pub proof fn lemma_table_record_count(rows: Seq<Seq<Seq<char>>>)
    requires
        rows.len() >= 1,
    ensures
        records_of_table(rows).len() == rows.len() - 1 - short_rows(rows.drop_first()).len(),
{
    lemma_record_count(rows.drop_first());
}

/// Every record that a table gives has trimmed fields.
pub proof fn lemma_records_are_trimmed(rows: Seq<Seq<Seq<char>>>)
    ensures
        forall|i: int|
            0 <= i < records_of_rows(rows).len() ==> (#[trigger] records_of_rows(
                rows,
            )[i]).is_trimmed(),
    decreases rows.len(),
{
    if rows.len() > 0 {
        let earlier = records_of_rows(rows.drop_last());
        lemma_records_are_trimmed(rows.drop_last());
        let cells = rows.last();
        if is_full_row(cells) {
            lemma_trimmed_is_trimmed(cells[0]);
            lemma_trimmed_is_trimmed(cells[1]);
            lemma_trimmed_is_trimmed(cells[2]);
            lemma_trimmed_is_trimmed(cells[3]);
        }
        assert forall|i: int| 0 <= i < records_of_rows(rows).len() implies (
        #[trigger] records_of_rows(rows)[i]).is_trimmed() by {
            if i < earlier.len() {
                assert(records_of_rows(rows)[i] == earlier[i]);
            }
        }
    }
}

/// A cell that holds nothing but white space gives an empty field, and the
/// row still gives its record.
pub proof fn lemma_blank_cell_gives_empty_field(cells: Seq<Seq<char>>, column: int)
    requires
        is_full_row(cells),
        0 <= column < MIN_CELLS,
        is_blank(cells[column]),
    ensures
        record_of_cells(cells) is Some,
        column == 0 ==> record_of_cells(cells)->Some_0.name.len() == 0,
        column == 1 ==> record_of_cells(cells)->Some_0.city.len() == 0,
        column == 2 ==> record_of_cells(cells)->Some_0.iata_code.len() == 0,
        column == 3 ==> record_of_cells(cells)->Some_0.icao_code.len() == 0,
{
    lemma_blank_is_trimmed_to_nothing(cells[column]);
}

} // verus!
