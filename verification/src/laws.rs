//! What holds of every table, whatever text it was read from.
use crate::dataframe::{DataVector, DataView, Indexer};
use crate::error::TfsError;
use crate::grammar::real_tag;
use crate::index::{distinct, lemma_index_of_distinct_keys, lemma_index_of_keys};
use crate::tfsdataframe::TfsDataFrame;
use crate::tokenfile::texts;
use vstd::prelude::*;

verus! {

/// Every cell of a column with the tag of a number narrows as a number and
/// is refused as a text; every cell of a column with any other tag narrows
/// as a text and is refused as a number.
pub proof fn law_cells_narrow_by_tag<T>(df: TfsDataFrame<T>, j: int, i: int)
    requires
        df.wf(),
        0 <= j < df.columns().len(),
        0 <= i < df.columns()[j].spec_len(),
    ensures
        df.column_tags()[j] == real_tag() ==> {
            &&& df.columns()[j].spec_cell(i).spec_as_real() is Ok
            &&& df.columns()[j].spec_cell(i).spec_as_text() == Err::<&String, TfsError>(
                TfsError::WrongVariant,
            )
        },
        df.column_tags()[j] != real_tag() ==> {
            &&& df.columns()[j].spec_cell(i).spec_as_text() is Ok
            &&& df.columns()[j].spec_cell(i).spec_as_real() == Err::<&T, TfsError>(
                TfsError::WrongVariant,
            )
        },
{
    df.lemma_wf();
}

/// With a row index, every text of the column it was built from is a key,
/// and selects a row at or after its own that holds the same text.
pub proof fn law_index_finds_last_row<T>(df: TfsDataFrame<T>, i: int)
    requires
        df.wf(),
        df.row_index() is Some,
        0 <= i < df.columns()[df.indexed_column()].spec_len(),
    ensures
        df.columns()[df.indexed_column()] matches DataVector::TextVector(v) && {
            let rows = df.row_index()->0;
            &&& rows.contains_key(v@[i]@)
            &&& i <= rows[v@[i]@] < v@.len()
            &&& v@[rows[v@[i]@] as int]@ == v@[i]@
        },
{
    df.lemma_wf();
    let v = df.columns()[df.indexed_column()]->TextVector_0;
    assert(texts(v@)[i] == v@[i]@);
    lemma_index_of_keys(texts(v@), v@[i]@);
}

/// With a row index built from a column in which no text stands twice, a
/// row selected by the text that this column holds in it is the row
/// selected by its position: in every column both selectors give the same
/// cell, or the same refusal.
pub proof fn law_index_round_trip<T>(df: TfsDataFrame<T>, key: &str, i: usize, name: Seq<char>)
    requires
        df.wf(),
        df.row_index() is Some,
        i < df.columns()[df.indexed_column()].spec_len(),
        df.columns()[df.indexed_column()] matches DataVector::TextVector(v) ==> distinct(
            texts(v@),
        ) && key@ == v@[i as int]@,
    ensures
        df.spec_loc(Indexer::Key(key), name) == df.spec_loc(Indexer::Index(i), name),
{
    df.lemma_wf();
    let v = df.columns()[df.indexed_column()]->TextVector_0;
    assert(texts(v@)[i as int] == v@[i as int]@);
    lemma_index_of_distinct_keys(texts(v@), i as int);
}

/// Building the row index twice from one column gives what building it
/// once gives: the second call ends as the first did, and leaves the table
/// and every lookup as they were after the first.
pub proof fn law_set_index_idempotent<T>(
    before: TfsDataFrame<T>,
    once: TfsDataFrame<T>,
    twice: TfsDataFrame<T>,
    name: Seq<char>,
    first: Result<(), TfsError>,
    second: Result<(), TfsError>,
)
    requires
        before.index_set(name, first, &once),
        once.index_set(name, second, &twice),
    ensures
        second == first,
        twice.same_table(&once),
        twice.row_index() == once.row_index(),
        forall|row: Indexer, column: Seq<char>| #[trigger]
            twice.spec_loc(row, column) == once.spec_loc(row, column),
{
}

/// The number of rows is the boundary of every column: a lookup at the
/// position that equals the number of rows is refused with
/// `IndexOutOfRange`, and the position before it holds a cell.
pub proof fn law_row_count_is_the_boundary<T>(df: TfsDataFrame<T>, name: Seq<char>)
    requires
        df.wf(),
        df.spec_column(name) is Ok,
    ensures
        df.spec_len() <= usize::MAX,
        df.spec_loc(Indexer::Index(df.spec_len() as usize), name) == Err::<
            DataView<'_, T>,
            TfsError,
        >(TfsError::IndexOutOfRange),
        df.spec_len() > 0 ==> df.spec_loc(Indexer::Index((df.spec_len() - 1) as usize), name) is Ok,
{
    df.lemma_wf();
    lemma_index_of_keys(df.column_names(), name);
}

/// Every column has as many cells as there are rows, and every column name
/// finds the column at its own position.
pub proof fn law_columns_by_name<T>(df: TfsDataFrame<T>, j: int)
    requires
        df.wf(),
        0 <= j < df.columns().len(),
    ensures
        df.columns()[j].spec_len() == df.spec_len(),
        df.spec_column(df.column_names()[j]) == Ok::<DataVector<T>, TfsError>(df.columns()[j]),
{
    df.lemma_wf();
    lemma_index_of_distinct_keys(df.column_names(), j);
}

} // verus!
