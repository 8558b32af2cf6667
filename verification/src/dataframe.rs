//! The cells and columns of a table, and the selector of a row.
use crate::error::TfsError;
use vstd::prelude::*;
use vstd::std_specs::convert::FromSpecImpl;
use vstd::std_specs::ops::AddSpec;
use vstd::std_specs::ops::SubSpec;

verus! {

/// Selects a row either by its position or by its key in the row index.
pub enum Indexer<'a> {
    Index(usize),
    Key(&'a str),
}

/// One cell that owns its value: a text or a number.
#[derive(Debug)]
pub enum DataValue<T> {
    Text(String),
    Real(T),
}

/// One cell of a column, borrowed from the column.
#[derive(Debug)]
pub enum DataView<'a, T> {
    Text(&'a String),
    Real(&'a T),
}

/// A whole column: all of its cells are texts, or all are numbers.
#[derive(PartialEq)]
pub enum DataVector<T> {
    TextVector(Vec<String>),
    RealVector(Vec<T>),
}

impl<'a> From<&'a str> for Indexer<'a> {
    fn from(string: &'a str) -> (r: Self) {
        Indexer::Key(string)
    }
}

impl<'a> FromSpecImpl<&'a str> for Indexer<'a> {
    open spec fn obeys_from_spec() -> bool {
        true
    }

    open spec fn from_spec(string: &'a str) -> Self {
        Indexer::Key(string)
    }
}

impl<'a> From<&'a String> for Indexer<'a> {
    fn from(string: &'a String) -> (r: Self)
        ensures
            r matches Indexer::Key(key) && key@ == string@,
    {
        Indexer::Key(string.as_str())
    }
}

/// The conversion gives a key with the text of the string. No more is
/// claimed of it than `from` itself states: two keys of one text need not
/// be one value.
impl<'a> FromSpecImpl<&'a String> for Indexer<'a> {
    open spec fn obeys_from_spec() -> bool {
        false
    }

    open spec fn from_spec(string: &'a String) -> Self {
        Indexer::Key(choose|key: &'a str| key@ == string@)
    }
}

impl<'a> From<i32> for Indexer<'a> {
    fn from(idx: i32) -> (r: Self) {
        Indexer::Index(idx as usize)
    }
}

impl<'a> FromSpecImpl<i32> for Indexer<'a> {
    open spec fn obeys_from_spec() -> bool {
        true
    }

    open spec fn from_spec(idx: i32) -> Self {
        Indexer::Index(idx as usize)
    }
}

impl<'a> From<usize> for Indexer<'a> {
    fn from(idx: usize) -> (r: Self) {
        Indexer::Index(idx)
    }
}

impl<'a> FromSpecImpl<usize> for Indexer<'a> {
    open spec fn obeys_from_spec() -> bool {
        true
    }

    open spec fn from_spec(idx: usize) -> Self {
        Indexer::Index(idx)
    }
}

impl<'a> From<u32> for Indexer<'a> {
    fn from(idx: u32) -> (r: Self) {
        Indexer::Index(idx as usize)
    }
}

impl<'a> FromSpecImpl<u32> for Indexer<'a> {
    open spec fn obeys_from_spec() -> bool {
        true
    }

    open spec fn from_spec(idx: u32) -> Self {
        Indexer::Index(idx as usize)
    }
}

impl<T> DataValue<T> {
    /// The text of a text cell; a number is refused with `WrongVariant`.
    pub fn as_text(&self) -> (r: Result<&String, TfsError>)
        ensures
            r == (match *self {
                DataValue::Text(s) => Ok::<&String, TfsError>(&s),
                DataValue::Real(_) => Err(TfsError::WrongVariant),
            }),
    {
        match self {
            DataValue::Text(s) => Ok(s),
            DataValue::Real(_) => Err(TfsError::WrongVariant),
        }
    }

    /// The number of a numeric cell; a text is refused with `WrongVariant`.
    pub fn as_real(&self) -> (r: Result<&T, TfsError>)
        ensures
            r == (match *self {
                DataValue::Real(x) => Ok::<&T, TfsError>(&x),
                DataValue::Text(_) => Err(TfsError::WrongVariant),
            }),
    {
        match self {
            DataValue::Real(x) => Ok(x),
            DataValue::Text(_) => Err(TfsError::WrongVariant),
        }
    }

    /// The text of a text cell, taken out of it; a number is refused with
    /// `WrongVariant`.
    pub fn into_text(self) -> (r: Result<String, TfsError>)
        ensures
            r == (match self {
                DataValue::Text(s) => Ok::<String, TfsError>(s),
                DataValue::Real(_) => Err(TfsError::WrongVariant),
            }),
    {
        match self {
            DataValue::Text(s) => Ok(s),
            DataValue::Real(_) => Err(TfsError::WrongVariant),
        }
    }

    /// The number of a numeric cell, taken out of it; a text is refused
    /// with `WrongVariant`.
    pub fn into_real(self) -> (r: Result<T, TfsError>)
        ensures
            r == (match self {
                DataValue::Real(x) => Ok::<T, TfsError>(x),
                DataValue::Text(_) => Err(TfsError::WrongVariant),
            }),
    {
        match self {
            DataValue::Real(x) => Ok(x),
            DataValue::Text(_) => Err(TfsError::WrongVariant),
        }
    }

    /// The cell as a view that borrows from it.
    pub fn view_of(&self) -> (r: DataView<'_, T>)
        ensures
            r == (match *self {
                DataValue::Text(s) => DataView::<T>::Text(&s),
                DataValue::Real(x) => DataView::<T>::Real(&x),
            }),
    {
        match self {
            DataValue::Text(s) => DataView::Text(s),
            DataValue::Real(x) => DataView::Real(x),
        }
    }
}

impl<'a, T> DataView<'a, T> {
    /// The text of a text cell; a number is refused with `WrongVariant`.
    pub open spec fn spec_as_text(&self) -> Result<&'a String, TfsError> {
        match *self {
            DataView::Text(s) => Ok(s),
            DataView::Real(_) => Err(TfsError::WrongVariant),
        }
    }

    /// The number of a numeric cell; a text is refused with `WrongVariant`.
    pub open spec fn spec_as_real(&self) -> Result<&'a T, TfsError> {
        match *self {
            DataView::Real(x) => Ok(x),
            DataView::Text(_) => Err(TfsError::WrongVariant),
        }
    }

    /// The text of a text cell; a number is refused with `WrongVariant`.
    pub fn as_text(&self) -> (r: Result<&'a String, TfsError>)
        ensures
            r == self.spec_as_text(),
    {
        match self {
            DataView::Text(s) => Ok(*s),
            DataView::Real(_) => Err(TfsError::WrongVariant),
        }
    }

    /// The number of a numeric cell; a text is refused with `WrongVariant`.
    pub fn as_real(&self) -> (r: Result<&'a T, TfsError>)
        ensures
            r == self.spec_as_real(),
    {
        match self {
            DataView::Real(x) => Ok(*x),
            DataView::Text(_) => Err(TfsError::WrongVariant),
        }
    }
}

/// The sums of two sequences of equal length, position by position.
pub open spec fn sums<T: core::ops::Add<Output = T>>(a: Seq<T>, b: Seq<T>) -> Seq<T> {
    Seq::new(a.len(), |i: int| a[i].add_spec(b[i]))
}

/// The differences of two sequences of equal length, position by position.
pub open spec fn differences<T: core::ops::Sub<Output = T>>(a: Seq<T>, b: Seq<T>) -> Seq<T> {
    Seq::new(a.len(), |i: int| a[i].sub_spec(b[i]))
}

impl<T> DataVector<T> {
    /// The number of cells.
    pub open spec fn spec_len(&self) -> nat {
        match *self {
            DataVector::TextVector(v) => v@.len(),
            DataVector::RealVector(v) => v@.len(),
        }
    }

    /// The numbers of a numeric column, in order.
    pub open spec fn reals(&self) -> Seq<T>
        recommends
            self is RealVector,
    {
        self->RealVector_0@
    }

    /// The cell at position `i`.
    pub open spec fn spec_cell(&self, i: int) -> DataView<'_, T> {
        match *self {
            DataVector::TextVector(v) => DataView::Text(&v@[i]),
            DataVector::RealVector(v) => DataView::Real(&v@[i]),
        }
    }

    /// The number of cells.
    pub fn len(&self) -> (n: usize)
        ensures
            n == self.spec_len(),
    {
        match self {
            DataVector::TextVector(v) => v.len(),
            DataVector::RealVector(v) => v.len(),
        }
    }

    /// The cell at position `i`; a position at or beyond the length is
    /// refused with `IndexOutOfRange`.
    pub fn get(&self, i: usize) -> (r: Result<DataView<'_, T>, TfsError>)
        ensures
            r == (if i < self.spec_len() {
                Ok::<DataView<'_, T>, TfsError>(self.spec_cell(i as int))
            } else {
                Err(TfsError::IndexOutOfRange)
            }),
    {
        match self {
            DataVector::TextVector(v) => {
                if i < v.len() {
                    Ok(DataView::Text(&v[i]))
                } else {
                    Err(TfsError::IndexOutOfRange)
                }
            },
            DataVector::RealVector(v) => {
                if i < v.len() {
                    Ok(DataView::Real(&v[i]))
                } else {
                    Err(TfsError::IndexOutOfRange)
                }
            },
        }
    }

    /// The texts of a text column; a numeric column is refused with
    /// `WrongVariant`.
    pub fn as_text(&self) -> (r: Result<&Vec<String>, TfsError>)
        ensures
            r == (match *self {
                DataVector::TextVector(v) => Ok::<&Vec<String>, TfsError>(&v),
                DataVector::RealVector(_) => Err(TfsError::WrongVariant),
            }),
    {
        match self {
            DataVector::TextVector(v) => Ok(v),
            DataVector::RealVector(_) => Err(TfsError::WrongVariant),
        }
    }

    /// The numbers of a numeric column; a text column is refused with
    /// `WrongVariant`.
    pub fn as_real(&self) -> (r: Result<&Vec<T>, TfsError>)
        ensures
            r == (match *self {
                DataVector::RealVector(v) => Ok::<&Vec<T>, TfsError>(&v),
                DataVector::TextVector(_) => Err(TfsError::WrongVariant),
            }),
    {
        match self {
            DataVector::RealVector(v) => Ok(v),
            DataVector::TextVector(_) => Err(TfsError::WrongVariant),
        }
    }
}

impl<T: Copy + core::ops::Add<Output = T>> DataVector<T> {
    /// The sum of two numeric columns of equal length, cell by cell. A text
    /// column on either side is refused with `TypeMismatch`, two numeric
    /// columns of different lengths with `LengthMismatch`.
    pub fn add(&self, other: &DataVector<T>) -> (r: Result<DataVector<T>, TfsError>)
        requires
            self is RealVector && other is RealVector && self.spec_len() == other.spec_len()
                ==> forall|i: int|
                0 <= i < self.spec_len() ==> #[trigger] self.reals()[i].add_req(other.reals()[i]),
        ensures
            match (*self, *other) {
                (DataVector::RealVector(a), DataVector::RealVector(b)) => if a@.len() == b@.len() {
                    &&& r matches Ok(DataVector::RealVector(c))
                    &&& c@.len() == a@.len()
                    &&& T::obeys_add_spec() ==> c@ == sums(a@, b@)
                } else {
                    r == Err::<DataVector<T>, TfsError>(TfsError::LengthMismatch)
                },
                _ => r == Err::<DataVector<T>, TfsError>(TfsError::TypeMismatch),
            },
    {
        match (self, other) {
            (DataVector::RealVector(a), DataVector::RealVector(b)) => {
                if a.len() != b.len() {
                    return Err(TfsError::LengthMismatch);
                }
                let mut c: Vec<T> = Vec::new();
                let mut i: usize = 0;
                assert forall|k: int| 0 <= k < a@.len() implies #[trigger] a@[k].add_req(b@[k]) by {
                    assert(self.reals()[k].add_req(other.reals()[k]));
                }
                while i < a.len()
                    invariant
                        i <= a@.len(),
                        a@.len() == b@.len(),
                        c@.len() == i,
                        forall|k: int| 0 <= k < a@.len() ==> #[trigger] a@[k].add_req(b@[k]),
                        T::obeys_add_spec() ==> forall|k: int|
                            0 <= k < i ==> c@[k] == #[trigger] a@[k].add_spec(b@[k]),
                    decreases a@.len() - i,
                {
                    c.push(a[i] + b[i]);
                    i += 1;
                }
                Ok(DataVector::RealVector(c))
            },
            _ => Err(TfsError::TypeMismatch),
        }
    }
}

impl<T: Copy + core::ops::Sub<Output = T>> DataVector<T> {
    /// The difference of two numeric columns of equal length, cell by cell.
    /// A text column on either side is refused with `TypeMismatch`, two
    /// numeric columns of different lengths with `LengthMismatch`.
    pub fn sub(&self, other: &DataVector<T>) -> (r: Result<DataVector<T>, TfsError>)
        requires
            self is RealVector && other is RealVector && self.spec_len() == other.spec_len()
                ==> forall|i: int|
                0 <= i < self.spec_len() ==> #[trigger] self.reals()[i].sub_req(other.reals()[i]),
        ensures
            match (*self, *other) {
                (DataVector::RealVector(a), DataVector::RealVector(b)) => if a@.len() == b@.len() {
                    &&& r matches Ok(DataVector::RealVector(c))
                    &&& c@.len() == a@.len()
                    &&& T::obeys_sub_spec() ==> c@ == differences(a@, b@)
                } else {
                    r == Err::<DataVector<T>, TfsError>(TfsError::LengthMismatch)
                },
                _ => r == Err::<DataVector<T>, TfsError>(TfsError::TypeMismatch),
            },
    {
        match (self, other) {
            (DataVector::RealVector(a), DataVector::RealVector(b)) => {
                if a.len() != b.len() {
                    return Err(TfsError::LengthMismatch);
                }
                let mut c: Vec<T> = Vec::new();
                let mut i: usize = 0;
                assert forall|k: int| 0 <= k < a@.len() implies #[trigger] a@[k].sub_req(b@[k]) by {
                    assert(self.reals()[k].sub_req(other.reals()[k]));
                }
                while i < a.len()
                    invariant
                        i <= a@.len(),
                        a@.len() == b@.len(),
                        c@.len() == i,
                        forall|k: int| 0 <= k < a@.len() ==> #[trigger] a@[k].sub_req(b@[k]),
                        T::obeys_sub_spec() ==> forall|k: int|
                            0 <= k < i ==> c@[k] == #[trigger] a@[k].sub_spec(b@[k]),
                    decreases a@.len() - i,
                {
                    c.push(a[i] - b[i]);
                    i += 1;
                }
                Ok(DataVector::RealVector(c))
            },
            _ => Err(TfsError::TypeMismatch),
        }
    }
}

} // verus!
