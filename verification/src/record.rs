//! The record model: one trip, and how it is decoded from a database row.

use crate::text::{trim_text, trimmed};
use vstd::prelude::*;

verus! {

/// The columns of the `trips` relation that a record is decoded from, in the
/// order in which they are read.
#[derive(Debug, Clone, Copy, PartialEq, Eq)]
pub enum Column {
    Id,
    Waterway,
    County,
    Start,
    Finish,
    Name,
}

impl Column {
    /// The name of the column in the `trips` relation.
    pub open spec fn name_text(self) -> Seq<char> {
        match self {
            Column::Id => "id"@,
            Column::Waterway => "waterway"@,
            Column::County => "county"@,
            Column::Start => "start"@,
            Column::Finish => "finish"@,
            Column::Name => "name"@,
        }
    }

    /// The name of the column in the `trips` relation.
    pub fn name(&self) -> (r: &'static str)
        ensures
            r@ == self.name_text(),
    {
        match self {
            Column::Id => "id",
            Column::Waterway => "waterway",
            Column::County => "county",
            Column::Start => "start",
            Column::Finish => "finish",
            Column::Name => "name",
        }
    }
}

/// What a row holds under one column name, once the database driver has
/// converted it to the type that the record wants.
#[derive(Debug, Clone, PartialEq, Eq)]
pub enum Cell<T> {
    /// The row has no column of that name.
    Missing,
    /// The column is there, but its value cannot be had as the wanted type.
    /// A null in a column that is not optional counts as such.
    Incompatible,
    /// The converted value.
    Found(T),
}

/// Why a row could not be decoded: the first column, in reading order, that
/// was missing or had the wrong type.
#[derive(Debug, Clone, Copy, PartialEq, Eq)]
pub enum DecodeError {
    Missing(Column),
    Incompatible(Column),
}

/// One row of the `trips` relation as the decoder reads it. The relation's
/// `date` column is selected with the others but never read, so it has no
/// place here.
#[derive(Debug, Clone, PartialEq, Eq)]
pub struct RawRow {
    pub id: Cell<u32>,
    pub waterway: Cell<String>,
    pub county: Cell<String>,
    pub start: Cell<String>,
    pub finish: Cell<Option<String>>,
    pub name: Cell<Option<String>>,
}

/// A row that could not be decoded, handed back as it came, and the reason.
#[derive(Debug, Clone, PartialEq, Eq)]
pub struct FromRowError {
    /// The row, with every cell that it had.
    pub row: RawRow,
    /// The first column, in reading order, that was missing or had the wrong
    /// type.
    pub cause: DecodeError,
}

/// One trip. `waterway`, `county` and `start` are always there; `finish` and
/// `contributor` may each be unknown.
#[derive(Debug, Clone, PartialEq, Eq)]
pub struct Trip {
    pub id: u32,
    pub waterway: String,
    pub county: String,
    pub start: String,
    pub finish: Option<String>,
    pub contributor: Option<String>,
}

/// The mathematical content of a [`RawRow`].
pub ghost struct RawRowView {
    pub id: Cell<u32>,
    pub waterway: Cell<Seq<char>>,
    pub county: Cell<Seq<char>>,
    pub start: Cell<Seq<char>>,
    pub finish: Cell<Option<Seq<char>>>,
    pub name: Cell<Option<Seq<char>>>,
}

/// The mathematical content of a [`Trip`].
pub ghost struct TripView {
    pub id: u32,
    pub waterway: Seq<char>,
    pub county: Seq<char>,
    pub start: Seq<char>,
    pub finish: Option<Seq<char>>,
    pub contributor: Option<Seq<char>>,
}

/// The characters of an optional string.
pub open spec fn optional_text(s: Option<String>) -> Option<Seq<char>> {
    match s {
        Some(t) => Some(t@),
        None => None,
    }
}

/// The content of a cell that holds a string.
pub open spec fn text_cell(c: Cell<String>) -> Cell<Seq<char>> {
    match c {
        Cell::Missing => Cell::Missing,
        Cell::Incompatible => Cell::Incompatible,
        Cell::Found(s) => Cell::Found(s@),
    }
}

/// The content of a cell that holds an optional string.
pub open spec fn optional_text_cell(c: Cell<Option<String>>) -> Cell<Option<Seq<char>>> {
    match c {
        Cell::Missing => Cell::Missing,
        Cell::Incompatible => Cell::Incompatible,
        Cell::Found(s) => Cell::Found(optional_text(s)),
    }
}

impl View for RawRow {
    type V = RawRowView;

    open spec fn view(&self) -> RawRowView {
        RawRowView {
            id: self.id,
            waterway: text_cell(self.waterway),
            county: text_cell(self.county),
            start: text_cell(self.start),
            finish: optional_text_cell(self.finish),
            name: optional_text_cell(self.name),
        }
    }
}

impl View for Trip {
    type V = TripView;

    open spec fn view(&self) -> TripView {
        TripView {
            id: self.id,
            waterway: self.waterway@,
            county: self.county@,
            start: self.start@,
            finish: optional_text(self.finish),
            contributor: optional_text(self.contributor),
        }
    }
}

/// The views of a sequence of trips.
pub open spec fn trip_views(trips: Seq<Trip>) -> Seq<TripView> {
    trips.map_values(|t: Trip| t@)
}

/// The views of a sequence of rows.
pub open spec fn row_views(rows: Seq<RawRow>) -> Seq<RawRowView> {
    rows.map_values(|r: RawRow| r@)
}

/// The error that a cell under `column` gives rise to, if any.
pub open spec fn cell_error<T>(cell: Cell<T>, column: Column) -> Option<DecodeError> {
    match cell {
        Cell::Missing => Some(DecodeError::Missing(column)),
        Cell::Incompatible => Some(DecodeError::Incompatible(column)),
        Cell::Found(_) => None,
    }
}

/// The error that decoding `row` ends in, if any: that of the first column,
/// in reading order, that is missing or incompatible.
pub open spec fn row_error(row: RawRowView) -> Option<DecodeError> {
    if cell_error(row.id, Column::Id) is Some {
        cell_error(row.id, Column::Id)
    } else if cell_error(row.waterway, Column::Waterway) is Some {
        cell_error(row.waterway, Column::Waterway)
    } else if cell_error(row.county, Column::County) is Some {
        cell_error(row.county, Column::County)
    } else if cell_error(row.start, Column::Start) is Some {
        cell_error(row.start, Column::Start)
    } else if cell_error(row.finish, Column::Finish) is Some {
        cell_error(row.finish, Column::Finish)
    } else {
        cell_error(row.name, Column::Name)
    }
}

/// The contributor of a trip whose row holds `name`: the name without the
/// white space around it, or nobody where the name is null.
pub open spec fn contributor_of(name: Option<Seq<char>>) -> Option<Seq<char>> {
    match name {
        Some(n) => Some(trimmed(n)),
        None => None,
    }
}

/// What decoding `row` yields.
pub open spec fn decoded(row: RawRowView) -> Result<TripView, DecodeError> {
    match row_error(row) {
        Some(e) => Err(e),
        None => Ok(
            TripView {
                id: row.id->Found_0,
                waterway: row.waterway->Found_0,
                county: row.county->Found_0,
                start: row.start->Found_0,
                finish: row.finish->Found_0,
                contributor: contributor_of(row.name->Found_0),
            },
        ),
    }
}

/// What decoding `rows` one after the other yields: all the trips, in the
/// order of their rows, or the error of the first row that has one.
pub open spec fn decoded_all(rows: Seq<RawRowView>) -> Result<Seq<TripView>, DecodeError>
    decreases rows.len(),
{
    if rows.len() == 0 {
        Ok(Seq::empty())
    } else {
        match decoded_all(rows.drop_last()) {
            Err(e) => Err(e),
            Ok(trips) => match decoded(rows.last()) {
                Err(e) => Err(e),
                Ok(trip) => Ok(trips.push(trip)),
            },
        }
    }
}

/// The place of the first row that cannot be decoded, if there is one.
pub open spec fn first_failure(rows: Seq<RawRowView>) -> Option<int>
    decreases rows.len(),
{
    if rows.len() == 0 {
        None
    } else {
        match first_failure(rows.drop_last()) {
            Some(i) => Some(i),
            None => if decoded(rows.last()) is Err {
                Some(rows.len() - 1)
            } else {
                None
            },
        }
    }
}

/// Whether `error` is what decoding `rows` ends in: it holds the first row
/// that cannot be decoded, as it came, and the reason why that row cannot.
pub open spec fn is_decode_failure(rows: Seq<RawRow>, error: FromRowError) -> bool {
    &&& first_failure(row_views(rows)) matches Some(i) && 0 <= i < rows.len() && error.row
        == rows[i]
    &&& decoded(error.row@) == Err::<TripView, DecodeError>(error.cause)
    &&& decoded_all(row_views(rows)) == Err::<Seq<TripView>, DecodeError>(error.cause)
}

/// The error that a cell under `column` gives rise to, if any.
fn cell_fault<T>(cell: &Cell<T>, column: Column) -> (r: Option<DecodeError>)
    ensures
        r == cell_error(*cell, column),
{
    match cell {
        Cell::Found(_) => None,
        Cell::Missing => Some(DecodeError::Missing(column)),
        Cell::Incompatible => Some(DecodeError::Incompatible(column)),
    }
}

/// The error that decoding the row ends in, if any. The row is only read.
fn row_fault(row: &RawRow) -> (r: Option<DecodeError>)
    ensures
        r == row_error(row@),
{
    let id = cell_fault(&row.id, Column::Id);
    if id.is_some() {
        return id;
    }
    let waterway = cell_fault(&row.waterway, Column::Waterway);
    if waterway.is_some() {
        return waterway;
    }
    let county = cell_fault(&row.county, Column::County);
    if county.is_some() {
        return county;
    }
    let start = cell_fault(&row.start, Column::Start);
    if start.is_some() {
        return start;
    }
    let finish = cell_fault(&row.finish, Column::Finish);
    if finish.is_some() {
        return finish;
    }
    cell_fault(&row.name, Column::Name)
}

/// The value of a cell that holds one.
fn found<T>(cell: Cell<T>) -> (v: T)
    requires
        cell is Found,
    ensures
        cell == Cell::Found(v),
{
    match cell {
        Cell::Found(v) => v,
        _ => vstd::pervasive::unreached(),
    }
}

impl Trip {
    /// Decodes one row. The columns are read in the order `id`, `waterway`,
    /// `county`, `start`, `finish`, `name`, and the first that is missing or
    /// incompatible ends the decoding: the error then holds the row, with
    /// nothing taken out of it, and names that column. The contributor is
    /// the row's `name` without surrounding white space.
    pub fn from_row_opt(row: RawRow) -> (r: Result<Trip, FromRowError>)
        ensures
            match r {
                Ok(trip) => decoded(row@) == Ok::<TripView, DecodeError>(trip@),
                Err(e) => e.row == row && decoded(row@) == Err::<TripView, DecodeError>(e.cause),
            },
    {
        match row_fault(&row) {
            Some(cause) => Err(FromRowError { row, cause }),
            None => {
                let contributor = match found(row.name) {
                    Some(n) => Some(trim_text(n.as_str())),
                    None => None,
                };
                Ok(
                    Trip {
                        id: found(row.id),
                        waterway: found(row.waterway),
                        county: found(row.county),
                        start: found(row.start),
                        finish: found(row.finish),
                        contributor,
                    },
                )
            },
        }
    }
}

/// Decodes the rows of one fetch, in their order, and stops at the first row
/// that cannot be decoded: the error then holds that row, as it came, and the
/// reason.
pub fn decode_rows(rows: Vec<RawRow>) -> (r: Result<Vec<Trip>, FromRowError>)
    ensures
        match r {
            Ok(trips) => decoded_all(row_views(rows@)) == Ok::<Seq<TripView>, DecodeError>(
                trip_views(trips@),
            ),
            Err(e) => is_decode_failure(rows@, e),
        },
{
    let ghost all = row_views(rows@);
    let mut trips: Vec<Trip> = Vec::new();
    proof {
        assert(all.take(0) =~= Seq::empty());
        assert(trip_views(trips@) =~= Seq::empty());
    }
    for row in it: rows
        invariant
            all == row_views(rows@),
            it.seq() == rows@,
            first_failure(all.take(it.index() as int)) is None,
            decoded_all(all.take(it.index() as int)) == Ok::<Seq<TripView>, DecodeError>(
                trip_views(trips@),
            ),
    {
        proof {
            let n = it.index() as int;
            assert(all.take(n + 1).drop_last() =~= all.take(n));
            assert(all.take(n + 1).last() == row@);
        }
        match Trip::from_row_opt(row) {
            Ok(trip) => {
                proof {
                    assert(trip_views(trips@.push(trip)) =~= trip_views(trips@).push(trip@));
                }
                trips.push(trip);
            },
            Err(e) => {
                proof {
                    lemma_decoded_all_error(all, it.index() as int + 1);
                    lemma_first_failure(all, it.index() as int + 1);
                }
                return Err(e);
            },
        }
    }
    proof {
        assert(all.take(all.len() as int) =~= all);
    }
    Ok(trips)
}

/// A row among the first `n` that cannot be decoded is the first such row
/// of all of them.
pub proof fn lemma_first_failure(rows: Seq<RawRowView>, n: int)
    requires
        0 <= n <= rows.len(),
        first_failure(rows.take(n)) is Some,
    ensures
        first_failure(rows) == first_failure(rows.take(n)),
    decreases rows.len() - n,
{
    if n < rows.len() {
        assert(rows.take(n + 1).drop_last() =~= rows.take(n));
        lemma_first_failure(rows, n + 1);
    } else {
        assert(rows.take(n) =~= rows);
    }
}

/// Decoding ends in an error exactly where some row cannot be decoded, and
/// the error is that of the first such row.
pub proof fn lemma_decoded_all_first_failure(rows: Seq<RawRowView>)
    ensures
        match first_failure(rows) {
            Some(i) => 0 <= i < rows.len() && decoded(rows[i]) is Err && decoded_all(rows) == Err::<
                Seq<TripView>,
                DecodeError,
            >(decoded(rows[i])->Err_0),
            None => decoded_all(rows) is Ok,
        },
        forall|j: int|
            0 <= j < rows.len() && (first_failure(rows) is None || j < first_failure(rows)->Some_0)
                ==> (#[trigger] decoded(rows[j])) is Ok,
    decreases rows.len(),
{
    if rows.len() > 0 {
        let front = rows.drop_last();
        lemma_decoded_all_first_failure(front);
        assert forall|j: int|
            0 <= j < rows.len() && (first_failure(rows) is None || j < first_failure(
                rows,
            )->Some_0) implies (#[trigger] decoded(rows[j])) is Ok by {
            if j < front.len() {
                assert(rows[j] == front[j]);
            }
        }
        if first_failure(front) is Some {
            assert(rows[first_failure(front)->Some_0] == front[first_failure(front)->Some_0]);
        }
    }
}

/// An error among the first `n` rows is the error of all of them.
pub proof fn lemma_decoded_all_error(rows: Seq<RawRowView>, n: int)
    requires
        0 <= n <= rows.len(),
        decoded_all(rows.take(n)) is Err,
    ensures
        decoded_all(rows) == decoded_all(rows.take(n)),
    decreases rows.len() - n,
{
    if n < rows.len() {
        assert(rows.take(n + 1).drop_last() =~= rows.take(n));
        lemma_decoded_all_error(rows, n + 1);
    } else {
        assert(rows.take(n) =~= rows);
    }
}

} // verus!
