//! The table as a data frame of the `polars` engine.
use polars::prelude::Column;
use polars::prelude::DataFrame;
use polars::prelude::IntoColumn;
use polars::prelude::NamedFromOwned;
use polars::prelude::PolarsError;
use polars::prelude::Series;
use crate::dataframe::DataVector;
use crate::error::TfsError;
use crate::index::{distinct, lemma_index_of_keys};
use crate::tfsdataframe::TfsDataFrame;
use crate::tokenfile::texts;
use vstd::prelude::*;
use vstd::utf8::encode_utf8;

verus! {

/// A column of the engine. What it holds stays with the engine.
#[verifier::external_type_specification]
#[verifier::external_body]
pub struct ExColumn(Column);

/// A series of the engine: a column before it is put into a frame.
#[verifier::external_type_specification]
#[verifier::external_body]
pub struct ExSeries(Series);

/// A data frame of the engine. What it holds stays with the engine.
#[verifier::external_type_specification]
#[verifier::external_body]
pub struct ExDataFrame(DataFrame);

/// The engine's error.
#[verifier::external_type_specification]
#[verifier::external_body]
pub struct ExPolarsError(PolarsError);

/// The name of a column of the engine.
pub uninterp spec fn column_name(column: Column) -> Seq<char>;

/// The number of cells of a column of the engine.
pub uninterp spec fn column_len(column: Column) -> nat;

/// The names of the columns of a data frame, in order.
pub uninterp spec fn frame_names(frame: DataFrame) -> Seq<Seq<char>>;

/// The number of rows of a data frame.
pub uninterp spec fn frame_height(frame: DataFrame) -> nat;

/// The number of cells that a column of the engine cannot reach: the
/// engine counts cells in 32 bits and keeps the last number for itself.
pub open spec fn column_limit() -> nat {
    0xFFFF_FFFF
}

/// The most bytes that one text cell of the engine can hold.
pub open spec fn text_limit() -> nat {
    0xFFFF_FFFF
}

/// Whether each of the texts fits in a cell of the engine: its UTF-8
/// encoding has at most `text_limit()` bytes.
pub open spec fn texts_fit(cells: Seq<String>) -> bool {
    forall|i: int| 0 <= i < cells.len() ==> encode_utf8((#[trigger] cells[i])@).len() <= text_limit()
}

/// `Column::new` on a name and a slice of strings: a column of that name
/// with one cell for each string. The engine panics at `column_limit()`
/// cells, and on a string of more than `text_limit()` bytes.
#[verifier::external_body]
pub(crate) fn text_column(name: &str, cells: &Vec<String>) -> (column: Column)
    requires
        cells@.len() < column_limit(),
        texts_fit(cells@),
    ensures
        column_name(column) == name@,
        column_len(column) == cells@.len(),
{
    Column::new(name.into(), cells.as_slice())
}

/// `Series::from_vec` on a name and numbers, turned into a column by
/// `into_column`: a column of that name with one cell for each number. The
/// engine panics at `column_limit()` cells.
#[verifier::external_body]
pub(crate) fn real_column<T: Clone>(name: &str, cells: &Vec<T>) -> (column: Column) where
    Series: NamedFromOwned<Vec<T>>,

    requires
        cells@.len() < column_limit(),
    ensures
        column_name(column) == name@,
        column_len(column) == cells@.len(),
{
    Series::from_vec(name.into(), cells.clone()).into_column()
}

/// The names of columns of the engine, in order.
pub open spec fn names_of(columns: Seq<Column>) -> Seq<Seq<char>> {
    Seq::new(columns.len(), |i: int| column_name(columns[i]))
}

/// Whether each of the columns has `height` cells.
pub open spec fn all_of_height(columns: Seq<Column>, height: nat) -> bool {
    forall|i: int| 0 <= i < columns.len() ==> column_len(#[trigger] columns[i]) == height
}

/// `DataFrame::new` on a height and columns. It is called on no columns at
/// all, or on columns that all have `height` cells and differ in their
/// names: these the engine's validation accepts, and the frame then has
/// that height and these columns, in their order. Other columns are left
/// out, since the engine may panic where it refuses.
#[verifier::external_body]
pub(crate) fn new_frame(height: usize, columns: Vec<Column>) -> (r: Result<DataFrame, PolarsError>)
    requires
        columns@.len() == 0 || (all_of_height(columns@, height as nat) && distinct(
            names_of(columns@),
        )),
    ensures
        r is Ok,
        r matches Ok(frame) ==> frame_height(frame) == height && frame_names(frame) == names_of(
            columns@,
        ),
{
    DataFrame::new(height, columns)
}

/// `DataFrame::column` on a name that one of the frame's columns has, with
/// a copy of the column it finds: a column of that name, with as many
/// cells as the frame has rows. Other names are left out, since the engine
/// may panic where it refuses.
#[verifier::external_body]
pub(crate) fn frame_column(frame: &DataFrame, name: &str) -> (r: Option<Column>)
    requires
        frame_names(*frame).contains(name@),
    ensures
        r is Some,
        r matches Some(column) ==> column_name(column) == name@,
        r matches Some(column) ==> column_len(column) == frame_height(*frame),
{
    frame.column(name).ok().cloned()
}

/// Whether each text of `cells` fits in a cell of the engine.
pub fn check_texts(cells: &Vec<String>) -> (fit: bool)
    ensures
        fit == texts_fit(cells@),
{
    let mut i: usize = 0;
    while i < cells.len()
        invariant
            i <= cells@.len(),
            forall|k: int| 0 <= k < i ==> encode_utf8((#[trigger] cells@[k])@).len() <= text_limit(),
        decreases cells@.len() - i,
    {
        let bytes = cells[i].as_str().as_bytes();
        assert(bytes@ == encode_utf8(cells@[i as int]@));
        if bytes.len() > 0xFFFF_FFFF {
            return false;
        }
        i += 1;
    }
    true
}

impl<T: Clone> TfsDataFrame<T> where Series: NamedFromOwned<Vec<T>> {
    /// Whether every text cell of the table fits in a cell of the engine.
    pub open spec fn all_texts_fit(&self) -> bool {
        forall|j: int|
            0 <= j < self.columns().len() ==> ((#[trigger] self.columns()[j]) matches DataVector::TextVector(
                cells,
            ) ==> texts_fit(cells@))
    }

    /// The table as a data frame of the engine: the same columns under the
    /// same names, with as many rows. A table with `column_limit()` rows or
    /// more is refused with `TooManyRows`; a smaller one with a text cell
    /// of more than `text_limit()` bytes, with `TextTooLong`. Every other
    /// table makes a frame.
    pub fn df(&self) -> (r: Result<DataFrame, TfsError>)
        ensures
            match r {
                Ok(frame) => {
                    &&& self.spec_len() < column_limit()
                    &&& self.all_texts_fit()
                    &&& frame_height(frame) == self.spec_len()
                    &&& frame_names(frame) == self.column_names()
                },
                Err(TfsError::TooManyRows) => self.spec_len() >= column_limit(),
                Err(TfsError::TextTooLong) => {
                    &&& self.spec_len() < column_limit()
                    &&& !self.all_texts_fit()
                },
                Err(_) => false,
            },
    {
        proof {
            use_type_invariant(self);
            self.lemma_wf();
        }
        let names = self.names();
        let columns = self.all_columns();
        let height = self.len();
        if height >= 0xFFFF_FFFF {
            return Err(TfsError::TooManyRows);
        }
        let mut made: Vec<Column> = Vec::new();
        let mut j: usize = 0;
        while j < columns.len()
            invariant
                j <= columns@.len(),
                columns@ == self.columns(),
                texts(names@) == self.column_names(),
                names@.len() == columns@.len(),
                height == self.spec_len(),
                height < column_limit(),
                self.even(),
                made@.len() == j,
                forall|k: int|
                    0 <= k < j ==> ((#[trigger] columns@[k]) matches DataVector::TextVector(cells)
                        ==> texts_fit(cells@)),
                forall|k: int| 0 <= k < j ==> column_len(#[trigger] made@[k]) == height,
                forall|k: int| 0 <= k < j ==> column_name(#[trigger] made@[k]) == names@[k]@,
            decreases columns@.len() - j,
        {
            assert(columns@[j as int].spec_len() == height);
            let column = match &columns[j] {
                DataVector::TextVector(cells) => {
                    if !check_texts(cells) {
                        return Err(TfsError::TextTooLong);
                    }
                    text_column(names[j].as_str(), cells)
                },
                DataVector::RealVector(cells) => real_column(names[j].as_str(), cells),
            };
            made.push(column);
            j += 1;
        }
        assert(names_of(made@) == self.column_names());
        match new_frame(height, made) {
            Ok(frame) => Ok(frame),
            Err(_) => unreached(),
        }
    }

    /// The column of the name as a column of the engine, taken from the
    /// frame of the table: it has that name and as many cells as the table
    /// has rows. A name that no column has is refused with `UnknownColumn`;
    /// for a known name, a table that makes no frame is refused as `df`
    /// refuses it.
    pub fn series(&self, name: &str) -> (r: Result<Column, TfsError>)
        ensures
            match r {
                Ok(column) => {
                    &&& self.spec_column(name@) is Ok
                    &&& self.spec_len() < column_limit()
                    &&& self.all_texts_fit()
                    &&& column_name(column) == name@
                    &&& column_len(column) == self.spec_len()
                },
                Err(TfsError::UnknownColumn) => self.spec_column(name@) is Err,
                Err(TfsError::TooManyRows) => {
                    &&& self.spec_column(name@) is Ok
                    &&& self.spec_len() >= column_limit()
                },
                Err(TfsError::TextTooLong) => {
                    &&& self.spec_column(name@) is Ok
                    &&& self.spec_len() < column_limit()
                    &&& !self.all_texts_fit()
                },
                Err(_) => false,
            },
    {
        match self.column(name) {
            Ok(_) => {},
            Err(e) => {
                return Err(e);
            },
        }
        let frame = match self.df() {
            Ok(frame) => frame,
            Err(e) => {
                return Err(e);
            },
        };
        proof {
            use_type_invariant(self);
            self.lemma_wf();
            lemma_index_of_keys(self.column_names(), name@);
            let i = choose|i: int|
                0 <= i < self.column_names().len() && self.column_names()[i] == name@;
            assert(frame_names(frame)[i] == name@);
        }
        match frame_column(&frame, name) {
            Some(column) => Ok(column),
            None => unreached(),
        }
    }
}

} // verus!
