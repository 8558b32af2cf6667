//! The table: the properties of the header, the named columns, and an
//! index of the rows by the texts of one column.
use crate::columns::{column_holds, columns_hold, declared, new_columns, read_rows, trimmed};
use crate::dataframe::{DataValue, DataVector, DataView, Indexer};
use crate::error::TfsError;
use crate::grammar::{
    anything, column_tokens, header_end, holds_properties, is_value_of, last_property,
    refuses_property,
    is_short, lemma_column_tokens_even, lemma_column_tokens_len, lemma_property_keys_are_set,
    marked_upto, names_mark, no_short_row, property_keys, real_tag, types_mark,
};
use crate::header::{
    no_broken_property, no_real_property, parse_number, read_header, reads_by, Header,
};
use crate::index::{build_distinct_index, build_index, distinct, index_of_keys, lemma_index_of_keys};
use crate::tokenfile::{texts, tokens_of};
use vstd::hash_map::StringHashMap;
use vstd::prelude::*;

verus! {

/// A table read from a TFS text.
#[verifier::reject_recursive_types(T)]
pub struct TfsDataFrame<T> {
    properties: StringHashMap<DataValue<T>>,
    keys: Vec<String>,
    names: Vec<String>,
    tags: Vec<String>,
    positions: StringHashMap<usize>,
    columns: Vec<DataVector<T>>,
    index: Option<RowIndex>,
}

/// An index of the rows: the column it was built from, and the position of
/// a row by the text that this column holds there.
pub struct RowIndex {
    column: usize,
    rows: StringHashMap<usize>,
}

impl<T> TfsDataFrame<T> {
    /// The names of the columns, in order.
    pub closed spec fn column_names(&self) -> Seq<Seq<char>> {
        texts(self.names@)
    }

    /// The type tags of the columns, in order.
    pub closed spec fn column_tags(&self) -> Seq<Seq<char>> {
        texts(self.tags@)
    }

    /// The columns, in order.
    pub closed spec fn columns(&self) -> Seq<DataVector<T>> {
        self.columns@
    }

    /// The properties of the header, by name.
    pub closed spec fn header(&self) -> Map<Seq<char>, DataValue<T>> {
        self.properties@
    }

    /// The names of the properties, each once, in the order in which they
    /// first occur in the header.
    pub closed spec fn header_keys(&self) -> Seq<Seq<char>> {
        texts(self.keys@)
    }

    /// The row index, where one has been built: the position of a row by
    /// its key.
    pub closed spec fn row_index(&self) -> Option<Map<Seq<char>, usize>> {
        match self.index {
            Some(index) => Some(index.rows@),
            None => None,
        }
    }

    /// The position of the column that the row index was built from.
    pub closed spec fn indexed_column(&self) -> int {
        match self.index {
            Some(index) => index.column as int,
            None => 0,
        }
    }

    /// The number of rows: the length of the first column.
    pub closed spec fn spec_len(&self) -> nat {
        if self.columns@.len() == 0 {
            0
        } else {
            self.columns@[0].spec_len()
        }
    }

    /// What holds of every table: names, tags and columns go together, no
    /// two columns have one name, each column is of the type that its tag
    /// names, all columns are of one length, every property name has its
    /// value, and the row index is the index of the texts of the column it
    /// was built from.
    #[verifier::type_invariant]
    pub closed spec fn wf(&self) -> bool {
        &&& self.names@.len() == self.columns@.len()
        &&& self.tags@.len() == self.columns@.len()
        &&& self.positions@ == index_of_keys(texts(self.names@))
        &&& distinct(texts(self.names@))
        &&& forall|j: int|
            0 <= j < self.columns@.len() ==> ((#[trigger] self.columns@[j]) is RealVector <==> texts(
                self.tags@,
            )[j] == real_tag())
        &&& forall|j: int|
            0 <= j < self.columns@.len() ==> (#[trigger] self.columns@[j]).spec_len()
                == self.columns@[0].spec_len()
        &&& forall|k: int|
            0 <= k < self.keys@.len() ==> self.properties@.contains_key(#[trigger] texts(self.keys@)[k])
        &&& self.index matches Some(index) ==> {
            &&& index.column < self.columns@.len()
            &&& self.columns@[index.column as int] matches DataVector::TextVector(v)
            &&& index.rows@ == index_of_keys(texts(v@))
        }
    }
}

impl<T> TfsDataFrame<T> {
    /// Whether every column has as many cells as there are rows.
    pub open spec fn even(&self) -> bool {
        forall|j: int|
            0 <= j < self.columns().len() ==> (#[trigger] self.columns()[j]).spec_len()
                == self.spec_len()
    }

    /// The column of the name, or `UnknownColumn`.
    pub open spec fn spec_column(&self, name: Seq<char>) -> Result<DataVector<T>, TfsError> {
        let positions = index_of_keys(self.column_names());
        if positions.contains_key(name) {
            Ok(self.columns()[positions[name] as int])
        } else {
            Err(TfsError::UnknownColumn)
        }
    }

    /// The position of the row that `row` selects: a position stands for
    /// itself; a key is looked up in the row index, and refused with
    /// `IndexNotSet` where there is none, with `UnknownKey` where the index
    /// does not hold it.
    pub open spec fn spec_row(&self, row: Indexer) -> Result<usize, TfsError> {
        match row {
            Indexer::Index(i) => Ok(i),
            Indexer::Key(key) => match self.row_index() {
                None => Err(TfsError::IndexNotSet),
                Some(rows) => if rows.contains_key(key@) {
                    Ok(rows[key@])
                } else {
                    Err(TfsError::UnknownKey)
                },
            },
        }
    }

    /// The cell in the row that `row` selects and the column of the name.
    /// The row is resolved first, then the column, then the position within
    /// the column, which is refused with `IndexOutOfRange` at or beyond the
    /// column's length.
    pub open spec fn spec_loc(&self, row: Indexer, name: Seq<char>) -> Result<
        DataView<'_, T>,
        TfsError,
    > {
        match self.spec_row(row) {
            Err(e) => Err(e),
            Ok(i) => match self.spec_column(name) {
                Err(e) => Err(e),
                Ok(column) => if i < column.spec_len() {
                    Ok(column.spec_cell(i as int))
                } else {
                    Err(TfsError::IndexOutOfRange)
                },
            },
        }
    }

    /// The number of rows: the length of the first column.
    pub fn len(&self) -> (n: usize)
        ensures
            n == self.spec_len(),
    {
        if self.columns.len() == 0 {
            0
        } else {
            self.columns[0].len()
        }
    }

    /// The names of the columns, in order.
    pub fn names(&self) -> (r: &Vec<String>)
        ensures
            texts(r@) == self.column_names(),
    {
        &self.names
    }

    /// The columns, in order.
    pub fn all_columns(&self) -> (r: &Vec<DataVector<T>>)
        ensures
            r@ == self.columns(),
    {
        &self.columns
    }

    /// The number of columns.
    pub fn column_count(&self) -> (n: usize)
        ensures
            n == self.columns().len(),
    {
        self.columns.len()
    }

    /// The column of the name; a name that no column has is refused with
    /// `UnknownColumn`.
    pub fn column(&self, name: &str) -> (r: Result<&DataVector<T>, TfsError>)
        ensures
            match r {
                Ok(column) => self.spec_column(name@) == Ok::<DataVector<T>, TfsError>(*column),
                Err(e) => self.spec_column(name@) == Err::<DataVector<T>, TfsError>(e),
            },
    {
        let count = self.names.len();
        proof {
            use_type_invariant(self);
            assert(texts(self.names@).len() == count);
            lemma_index_of_keys(texts(self.names@), name@);
        }
        match self.positions.get(name) {
            Some(at) => Ok(&self.columns[*at]),
            None => Err(TfsError::UnknownColumn),
        }
    }

    /// The position of the row that `row` selects.
    pub fn row(&self, row: &Indexer) -> (r: Result<usize, TfsError>)
        ensures
            r == self.spec_row(*row),
    {
        match row {
            Indexer::Index(i) => Ok(*i),
            Indexer::Key(key) => match &self.index {
                None => Err(TfsError::IndexNotSet),
                Some(index) => match index.rows.get(key) {
                    Some(at) => Ok(*at),
                    None => Err(TfsError::UnknownKey),
                },
            },
        }
    }

    /// The cell in the row that `row` selects and the column of the name.
    pub fn loc(&self, row: Indexer, name: &str) -> (r: Result<DataView<'_, T>, TfsError>)
        ensures
            r == self.spec_loc(row, name@),
    {
        let at = match self.row(&row) {
            Ok(at) => at,
            Err(e) => {
                return Err(e);
            },
        };
        let column = match self.column(name) {
            Ok(column) => column,
            Err(e) => {
                return Err(e);
            },
        };
        column.get(at)
    }

    /// The cell as a number; a text cell is refused with `WrongVariant`.
    pub fn locd(&self, row: Indexer, name: &str) -> (r: Result<&T, TfsError>)
        ensures
            r == (match self.spec_loc(row, name@) {
                Ok(DataView::Real(x)) => Ok::<&T, TfsError>(x),
                Ok(DataView::Text(_)) => Err(TfsError::WrongVariant),
                Err(e) => Err(e),
            }),
    {
        match self.loc(row, name) {
            Ok(cell) => cell.as_real(),
            Err(e) => Err(e),
        }
    }

    /// The cell as a text; a numeric cell is refused with `WrongVariant`.
    pub fn locs(&self, row: Indexer, name: &str) -> (r: Result<&String, TfsError>)
        ensures
            r == (match self.spec_loc(row, name@) {
                Ok(DataView::Text(s)) => Ok::<&String, TfsError>(s),
                Ok(DataView::Real(_)) => Err(TfsError::WrongVariant),
                Err(e) => Err(e),
            }),
    {
        match self.loc(row, name) {
            Ok(cell) => cell.as_text(),
            Err(e) => Err(e),
        }
    }

    /// Whether `self` and `other` hold the same header and the same
    /// columns under the same names.
    pub open spec fn same_table(&self, other: &Self) -> bool {
        &&& self.column_names() == other.column_names()
        &&& self.column_tags() == other.column_tags()
        &&& self.columns() == other.columns()
        &&& self.header() == other.header()
        &&& self.header_keys() == other.header_keys()
    }

    /// Whether `after` and `r` are what building the row index of `self`
    /// from the column of the name gives. A text column gives the index of
    /// its texts, in place of any index there was. A name that no column
    /// has is refused with `UnknownColumn`, a numeric column with
    /// `TypeMismatch`, and the index stays as it was. The header and the
    /// columns stay as they were in every case.
    pub open spec fn index_set(&self, name: Seq<char>, r: Result<(), TfsError>, after: &Self) -> bool {
        &&& after.same_table(self)
        &&& match self.spec_column(name) {
            Ok(DataVector::TextVector(v)) => {
                &&& r == Ok::<(), TfsError>(())
                &&& after.row_index() == Some(index_of_keys(texts(v@)))
                &&& after.indexed_column() == index_of_keys(self.column_names())[name]
            },
            Ok(DataVector::RealVector(_)) => {
                &&& r == Err::<(), TfsError>(TfsError::TypeMismatch)
                &&& after.row_index() == self.row_index()
                &&& after.indexed_column() == self.indexed_column()
            },
            Err(e) => {
                &&& r == Err::<(), TfsError>(e)
                &&& after.row_index() == self.row_index()
                &&& after.indexed_column() == self.indexed_column()
            },
        }
    }

    /// What `wf` says, over what a caller can name.
    pub proof fn lemma_wf(self)
        requires
            self.wf(),
        ensures
            self.column_names().len() == self.columns().len(),
            self.column_tags().len() == self.columns().len(),
            self.columns().len() <= usize::MAX,
            self.spec_len() <= usize::MAX,
            forall|j: int|
                0 <= j < self.columns().len() ==> ((#[trigger] self.columns()[j]) is RealVector
                    <==> self.column_tags()[j] == real_tag()),
            self.even(),
            distinct(self.column_names()),
            forall|k: int|
                0 <= k < self.header_keys().len() ==> self.header().contains_key(
                    #[trigger] self.header_keys()[k],
                ),
            self.row_index() matches Some(rows) ==> {
                &&& 0 <= self.indexed_column() < self.columns().len()
                &&& self.columns()[self.indexed_column()] matches DataVector::TextVector(v)
                &&& rows == index_of_keys(texts(v@))
                &&& texts(v@).len() <= usize::MAX
            },
    {
        assert(self.names@.len() == self.names.len());
        if self.columns@.len() > 0 {
            match self.columns@[0] {
                DataVector::TextVector(v) => {
                    assert(v@.len() == v.len());
                },
                DataVector::RealVector(v) => {
                    assert(v@.len() == v.len());
                },
            }
        }
    }

    /// Builds the row index from the text column of the name, in place of
    /// any index there was: each text of the column then selects the last
    /// row that holds it. A name that no column has is refused with
    /// `UnknownColumn`, a numeric column with `TypeMismatch`; the table then
    /// stays as it was, with the index it had.
    pub fn set_index(&mut self, name: &str) -> (r: Result<(), TfsError>)
        ensures
            old(self).index_set(name@, r, final(self)),
    {
        let count = self.names.len();
        proof {
            use_type_invariant(&*self);
            assert(texts(self.names@).len() == count);
            lemma_index_of_keys(texts(self.names@), name@);
        }
        let at = match self.positions.get(name) {
            Some(at) => *at,
            None => {
                return Err(TfsError::UnknownColumn);
            },
        };
        match &self.columns[at] {
            DataVector::TextVector(v) => {
                let rows = build_index(v);
                self.index = Some(RowIndex { column: at, rows });
                Ok(())
            },
            DataVector::RealVector(_) => Err(TfsError::TypeMismatch),
        }
    }

    /// The property of the name, or `UnknownProperty`.
    pub open spec fn spec_property(&self, key: Seq<char>) -> Result<DataValue<T>, TfsError> {
        if self.header().contains_key(key) {
            Ok(self.header()[key])
        } else {
            Err(TfsError::UnknownProperty)
        }
    }

    /// The names of the properties, each once, in the order in which they
    /// first occur in the header.
    pub fn keys(&self) -> (r: &Vec<String>)
        ensures
            texts(r@) == self.header_keys(),
    {
        &self.keys
    }

    /// The number of properties.
    pub fn property_count(&self) -> (n: usize)
        ensures
            n == self.header().len(),
    {
        self.properties.len()
    }

    /// The property of the name; a name that no property has is refused
    /// with `UnknownProperty`.
    pub fn property(&self, key: &str) -> (r: Result<&DataValue<T>, TfsError>)
        ensures
            match r {
                Ok(value) => self.spec_property(key@) == Ok::<DataValue<T>, TfsError>(*value),
                Err(e) => self.spec_property(key@) == Err::<DataValue<T>, TfsError>(e),
            },
    {
        match self.properties.get(key) {
            Some(value) => Ok(value),
            None => Err(TfsError::UnknownProperty),
        }
    }

    /// The property of the name as a number. A name that no property has is
    /// refused with `UnknownProperty`, a text with `WrongVariant`.
    pub fn propd(&self, key: &str) -> (r: Result<&T, TfsError>)
        ensures
            r == (match self.spec_property(key@) {
                Ok(DataValue::Real(x)) => Ok::<&T, TfsError>(&x),
                Ok(DataValue::Text(_)) => Err(TfsError::WrongVariant),
                Err(e) => Err(e),
            }),
    {
        match self.properties.get(key) {
            Some(value) => value.as_real(),
            None => Err(TfsError::UnknownProperty),
        }
    }

    /// The property of the name as a text. A name that no property has is
    /// refused with `UnknownProperty`, a number with `WrongVariant`.
    pub fn props(&self, key: &str) -> (r: Result<&String, TfsError>)
        ensures
            r == (match self.spec_property(key@) {
                Ok(DataValue::Text(s)) => Ok::<&String, TfsError>(&s),
                Ok(DataValue::Real(_)) => Err(TfsError::WrongVariant),
                Err(e) => Err(e),
            }),
    {
        match self.properties.get(key) {
            Some(value) => value.as_text(),
            None => Err(TfsError::UnknownProperty),
        }
    }
}

/// Whether line `line` of a text whose header ends at `end` holds a token
/// for column `column`, and that column is numeric.
pub open spec fn number_expected(lines: Seq<Seq<char>>, end: int, line: int, column: int) -> bool {
    let names = marked_upto(lines, end, names_mark());
    let tags = marked_upto(lines, end, types_mark());
    &&& 0 <= column < tokens_of(lines[line]).len()
    &&& column < declared(names, tags)
    &&& tags[column] == real_tag()
}

/// Whether a text whose header ends at `end` asks for no number to be
/// read, and holds no property line that lacks a part: no property gives a
/// number, and no column is numeric.
pub open spec fn no_number_expected(lines: Seq<Seq<char>>, end: int) -> bool {
    let names = marked_upto(lines, end, names_mark());
    let tags = marked_upto(lines, end, types_mark());
    &&& no_broken_property(lines, end)
    &&& no_real_property(lines, end)
    &&& forall|j: int| 0 <= j < declared(names, tags) ==> #[trigger] tags[j] != real_tag()
}

/// The names of the columns that a text whose header ends at `end`
/// declares: the names that have a type tag, in order.
pub open spec fn declared_names(lines: Seq<Seq<char>>, end: int) -> Seq<Seq<char>> {
    let names = marked_upto(lines, end, names_mark());
    let tags = marked_upto(lines, end, types_mark());
    names.take(declared(names, tags) as int)
}

/// Whether the columns that a text whose header ends at `end` declares
/// differ in their names, and none of its data rows is short for them.
pub open spec fn rows_fit(lines: Seq<Seq<char>>, end: int) -> bool {
    &&& distinct(declared_names(lines, end))
    &&& no_short_row(lines, end, lines.len() as int, declared_names(lines, end).len() as int)
}

/// Whether line `line` is the first data row of a text whose header ends
/// at `end` that is short for the columns that the text declares.
pub open spec fn first_short_row(lines: Seq<Seq<char>>, end: int, line: int) -> bool {
    let count = declared_names(lines, end).len() as int;
    &&& end <= line < lines.len()
    &&& is_short(tokens_of(lines[line]), count)
    &&& no_short_row(lines, end, line, count)
}

/// Whether line `line` is the first property line at which the reading of
/// a header stops: no line before it lacks a part, and it lacks a part
/// itself, or it gives a number and the parser gives none on its token.
pub open spec fn property_refused<T>(
    lines: Seq<Seq<char>>,
    line: int,
    reads: spec_fn(Seq<char>, Option<T>) -> bool,
) -> bool {
    &&& no_broken_property(lines, line)
    &&& refuses_property(lines[line], reads)
}

/// Whether `r` is what reading the text `lines` gives, where `reads` says
/// what the parser of numbers gives on which token.
///
/// A table comes only of a text whose header ends, whose declared columns
/// differ in their names and none of whose data rows is short. It has the
/// declared names and tags; each text column holds its tokens without the
/// quotes around them, each numeric column the numbers that the parser
/// gave on its tokens, in the order of the rows; each property has the
/// value of the last line that sets it. Each refusal says what the text
/// holds at the place where the reading stopped. Where the text asks for
/// no number, the table is owed.
pub open spec fn opened<T>(
    lines: Seq<Seq<char>>,
    reads: spec_fn(Seq<char>, Option<T>) -> bool,
    r: Result<TfsDataFrame<T>, TfsError>,
) -> bool {
    &&& match r {
        Ok(df) => {
            &&& header_end(lines) matches Some(end)
            &&& {
                let names = marked_upto(lines, end, names_mark());
                let tags = marked_upto(lines, end, types_mark());
                let count = declared(names, tags) as int;
                &&& df.wf()
                &&& df.column_names() == names.take(count)
                &&& df.column_tags() == tags.take(count)
                &&& df.columns().len() == count
                &&& distinct(df.column_names())
                &&& df.even()
                &&& no_short_row(lines, end, lines.len() as int, count)
                &&& columns_hold(df.columns(), tags, lines, end, lines.len() as int, reads)
                &&& holds_properties(df.header(), lines, end, reads)
                &&& df.header_keys() == property_keys(lines, end)
                &&& no_broken_property(lines, end)
                &&& df.row_index() is None
                &&& df.spec_len() == column_tokens(lines, end, lines.len() as int, 0).len()
                &&& (forall|k: int|
                    end <= k < lines.len() ==> tokens_of(#[trigger] lines[k]).len() > 0)
                    ==> df.spec_len() == lines.len() - end
            }
        },
        Err(TfsError::MalformedHeader) => {
            &&& header_end(lines) is None
            &&& no_broken_property(lines, lines.len() as int)
        },
        Err(TfsError::DuplicateColumn) => {
            &&& header_end(lines) matches Some(end)
            &&& !distinct(declared_names(lines, end))
        },
        Err(TfsError::ShortRow { line }) => {
            &&& header_end(lines) matches Some(end)
            &&& distinct(declared_names(lines, end))
            &&& first_short_row(lines, end, line as int)
        },
        Err(TfsError::ParseError { line, column }) => {
            &&& line < lines.len()
            &&& match header_end(lines) {
                Some(end) if end <= line => {
                    &&& number_expected(lines, end, line as int, column as int)
                    &&& reads(tokens_of(lines[line as int])[column as int], None::<T>)
                    &&& distinct(declared_names(lines, end))
                    &&& no_short_row(
                        lines,
                        end,
                        line + 1,
                        declared_names(lines, end).len() as int,
                    )
                },
                _ => column == 0 && property_refused(lines, line as int, reads),
            }
        },
        Err(_) => false,
    }
    &&& header_end(lines) matches Some(end) ==> (no_number_expected(lines, end) ==> (r is Ok
        <==> rows_fit(lines, end)))
    &&& header_end(lines) matches Some(end) ==> (no_number_expected(lines, end) && distinct(
        declared_names(lines, end),
    ) ==> forall|line: int| #[trigger]
        first_short_row(lines, end, line) ==> r == Err::<TfsDataFrame<T>, TfsError>(
            TfsError::ShortRow { line: line as usize },
        ))
}

/// What holds of a reading with some parser holds of it with a parser of
/// which nothing is known.
pub proof fn lemma_opened_whatever<T>(
    lines: Seq<Seq<char>>,
    reads: spec_fn(Seq<char>, Option<T>) -> bool,
    r: Result<TfsDataFrame<T>, TfsError>,
)
    requires
        opened(lines, reads, r),
    ensures
        opened(lines, anything::<T>(), r),
{
    match r {
        Ok(df) => {
            let end = header_end(lines)->0;
            let tags = marked_upto(lines, end, types_mark());
            assert(columns_hold(
                df.columns(),
                tags,
                lines,
                end,
                lines.len() as int,
                anything::<T>(),
            )) by {
                assert forall|j: int| 0 <= j < df.columns().len() implies column_holds(
                    #[trigger] df.columns()[j],
                    tags[j],
                    column_tokens(lines, end, lines.len() as int, j),
                    anything::<T>(),
                ) by {
                    assert(column_holds(
                        df.columns()[j],
                        tags[j],
                        column_tokens(lines, end, lines.len() as int, j),
                        reads,
                    ));
                }
            }
            assert(holds_properties(df.header(), lines, end, anything::<T>())) by {
                assert forall|name: Seq<char>| #[trigger]
                    df.header().contains_key(name) == (last_property(lines, end, name) is Some)
                        && (last_property(lines, end, name) matches Some(i) ==> is_value_of(
                        df.header()[name],
                        lines[i],
                        anything::<T>(),
                    )) by {
                    if let Some(i) = last_property(lines, end, name) {
                        assert(df.header().contains_key(name));
                        assert(is_value_of(df.header()[name], lines[i], reads));
                    }
                }
            }
        },
        Err(TfsError::ParseError { line, column }) => {
            if !(header_end(lines) matches Some(end) && end <= line) {
                assert(property_refused(lines, line as int, reads));
                assert(property_refused(lines, line as int, anything::<T>()));
            }
        },
        Err(_) => {},
    }
}

impl<T> TfsDataFrame<T> {
    /// Reads a table from the lines of a TFS text, with `parse` as the
    /// parser of numbers.
    ///
    /// The header ends with the first line after which both a column name
    /// and a column type have been seen; every line after it is a data row.
    /// The table has one column for each name that has a type tag. A text
    /// column holds its tokens without the double quotes around them; a
    /// numeric column holds, for each of its tokens, the number that
    /// `parse` gives on that token. A property that gives a number has the
    /// number that `parse` gives on the token after its type tag. A row
    /// without any token adds nothing; tokens beyond the last column are
    /// dropped. All columns of the table have one length, and no two have
    /// one name.
    ///
    /// A text that ends before the header does is refused with
    /// `MalformedHeader`. A property line of the header that lacks its name,
    /// its type tag or its number, or on whose number `parse` gives none,
    /// is refused with a `ParseError` at that line and column zero. Two
    /// columns of one name are refused with `DuplicateColumn`. A data row
    /// that holds tokens, but fewer than there are columns, is refused with
    /// `ShortRow` at its line; a token of a numeric column on which `parse`
    /// gives none, with a `ParseError` at its line and column. The header
    /// is read before the names are compared, the names are compared
    /// before the rows are read, and of the rows the first that is refused
    /// decides.
    pub fn open_with<F: Fn(&str) -> Option<T>>(lines: &Vec<String>, parse: &F) -> (r: Result<
        TfsDataFrame<T>,
        TfsError,
    >)
        requires
            forall|s: &str| call_requires(*parse, (s,)),
        ensures
            opened(texts(lines@), reads_by(*parse), r),
    {
        let header = match read_header(lines, parse) {
            Ok(header) => header,
            Err(e) => {
                return Err(e);
            },
        };
        let Header { properties, keys, mut names, types: mut tags, end } = header;
        let ghost all_names = texts(names@);
        let ghost all_tags = texts(tags@);
        let count = if names.len() <= tags.len() {
            names.len()
        } else {
            tags.len()
        };
        names.truncate(count);
        tags.truncate(count);
        proof {
            crate::header::lemma_header_end_from(texts(lines@), 0);
            assert(texts(names@) == all_names.take(count as int));
            assert(texts(tags@) == all_tags.take(count as int));
            assert(declared_names(texts(lines@), end as int) == texts(names@));
        }
        let positions = match build_distinct_index(&names) {
            Some(positions) => positions,
            None => {
                return Err(TfsError::DuplicateColumn);
            },
        };
        let mut columns: Vec<DataVector<T>> = new_columns(&tags, count);
        proof {
            assert forall|j: int| 0 <= j < columns@.len() implies column_holds(
                #[trigger] columns@[j],
                texts(tags@)[j],
                column_tokens(texts(lines@), end as int, end as int, j),
                reads_by(*parse),
            ) by {
                assert(column_holds(
                    columns@[j],
                    texts(tags@)[j],
                    Seq::<Seq<char>>::empty(),
                    reads_by(*parse),
                ));
            }
        }
        match read_rows(lines, end, &tags, &mut columns, parse) {
            Ok(()) => {},
            Err(e) => {
                proof {
                    if let TfsError::ParseError { line, column } = e {
                        assert(texts(tags@)[column as int] == all_tags[column as int]);
                    }
                    if let TfsError::ShortRow { line } = e {
                        assert(texts(lines@)[line as int] == lines@[line as int]@);
                        assert(first_short_row(texts(lines@), end as int, line as int));
                        assert forall|other: int| #[trigger]
                            first_short_row(texts(lines@), end as int, other) implies other
                            == line by {
                            if other < line {
                                assert(!is_short(
                                    tokens_of(texts(lines@)[other]),
                                    count as int,
                                ));
                            } else if line < other {
                                assert(!is_short(
                                    tokens_of(texts(lines@)[line as int]),
                                    count as int,
                                ));
                            }
                        }
                    }
                }
                return Err(e);
            },
        }
        proof {
            assert forall|j: int| 0 <= j < columns@.len() implies {
                &&& ((#[trigger] columns@[j]) is RealVector <==> texts(tags@)[j] == real_tag())
                &&& column_holds(
                    columns@[j],
                    all_tags[j],
                    column_tokens(texts(lines@), end as int, lines@.len() as int, j),
                    reads_by(*parse),
                )
                &&& columns@[j].spec_len() == columns@[0].spec_len()
                &&& columns@[0].spec_len() == column_tokens(
                    texts(lines@),
                    end as int,
                    lines@.len() as int,
                    0,
                ).len()
            } by {
                let cells = column_tokens(texts(lines@), end as int, lines@.len() as int, j);
                let first = column_tokens(texts(lines@), end as int, lines@.len() as int, 0);
                assert(texts(tags@)[j] == all_tags[j]);
                assert(column_holds(columns@[j], texts(tags@)[j], cells, reads_by(*parse)));
                assert(column_holds(columns@[0], texts(tags@)[0], first, reads_by(*parse)));
                assert(trimmed(cells).len() == cells.len());
                assert(trimmed(first).len() == first.len());
                lemma_column_tokens_even(
                    texts(lines@),
                    end as int,
                    lines@.len() as int,
                    j,
                    count as int,
                );
            }
            lemma_column_tokens_len(texts(lines@), end as int, lines@.len() as int, 0);
            assert forall|k: int| 0 <= k < keys@.len() implies properties@.contains_key(
                #[trigger] texts(keys@)[k],
            ) by {
                lemma_property_keys_are_set(texts(lines@), end as int, k);
            }
        }
        Ok(
            TfsDataFrame {
                properties,
                keys,
                names,
                tags,
                positions,
                columns,
                index: None,
            },
        )
    }
}

impl<T: core::str::FromStr> TfsDataFrame<T> {
    /// Reads a table from the lines of a TFS text, as `open_with` does, with
    /// the parser that `T` has from `FromStr`. Which number that parser
    /// gives on a token is the one thing that is not said here.
    pub fn open(lines: &Vec<String>) -> (r: Result<TfsDataFrame<T>, TfsError>)
        ensures
            opened(texts(lines@), anything::<T>(), r),
    {
        let r = Self::open_with(lines, &parse_number::<T>);
        proof {
            lemma_opened_whatever(texts(lines@), reads_by(parse_number::<T>), r);
        }
        r
    }
}

} // verus!
