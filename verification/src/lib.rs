//! Reading TFS tables: scalar properties above typed, named columns.
//!
//! A TFS text has a header of properties, one line of column names, one
//! line of column types, and then one data row to a line. [`TfsDataFrame`]
//! reads such a text into columns of texts and of numbers, and answers
//! lookups by column name and by row, where a row is selected by its
//! position or by a key of the row index.
pub mod columns;
pub mod dataframe;
pub mod error;
pub mod frame;
pub mod grammar;
pub mod header;
pub mod index;
pub mod laws;
pub mod numerical;
pub mod render;
pub mod tfsdataframe;
pub mod tokenfile;

pub use dataframe::{DataValue, DataVector, DataView, Indexer};
pub use error::TfsError;
pub use numerical::{IsNumeric, NumericalVec};
pub use tfsdataframe::TfsDataFrame;
pub use tokenfile::{tokens_from_path, SplitWhitespaceOwned};
