//! Filling the columns of a table from the data rows of a text.
use crate::dataframe::DataVector;
use crate::error::TfsError;
use crate::grammar::{column_tokens, is_short, no_short_row, real_tag};
use crate::header::{is_real_tag, read_number, reads_by};
use crate::tokenfile::{split_whitespace, texts, tokens_of, trim_matches_quote, trim_quotes};
use vstd::prelude::*;

verus! {

/// The tokens of a text column as they are stored: without the double
/// quotes around them.
pub open spec fn trimmed(cells: Seq<Seq<char>>) -> Seq<Seq<char>> {
    Seq::new(cells.len(), |i: int| trim_quotes(cells[i]))
}

/// Whether `column` is a column of the type that `tag` names and holds
/// `cells`: a text column holds the trimmed tokens themselves; a numeric
/// column holds, for each token in its order, a number that the parser
/// gives on that token, where `reads` says what the parser gives on which
/// token.
pub open spec fn column_holds<T>(
    column: DataVector<T>,
    tag: Seq<char>,
    cells: Seq<Seq<char>>,
    reads: spec_fn(Seq<char>, Option<T>) -> bool,
) -> bool {
    if tag == real_tag() {
        &&& column is RealVector
        &&& column.reals().len() == cells.len()
        &&& forall|i: int| 0 <= i < cells.len() ==> reads(cells[i], Some(#[trigger] column.reals()[i]))
    } else {
        column matches DataVector::TextVector(v) && texts(v@) == trimmed(cells)
    }
}

/// Whether each column is of the type that its tag names and holds what
/// lines `from..to` give it.
pub open spec fn columns_hold<T>(
    columns: Seq<DataVector<T>>,
    tags: Seq<Seq<char>>,
    lines: Seq<Seq<char>>,
    from: int,
    to: int,
    reads: spec_fn(Seq<char>, Option<T>) -> bool,
) -> bool {
    forall|j: int|
        0 <= j < columns.len() ==> column_holds(
            #[trigger] columns[j],
            tags[j],
            column_tokens(lines, from, to, j),
            reads,
        )
}

/// The number of columns that `names` and `tags` declare: a name without a
/// tag, or a tag without a name, declares none.
pub open spec fn declared(names: Seq<Seq<char>>, tags: Seq<Seq<char>>) -> nat {
    if names.len() <= tags.len() {
        names.len()
    } else {
        tags.len()
    }
}

/// One empty column for each of the first `count` tags: a numeric column
/// for the tag of a number, a text column for any other.
pub fn new_columns<T>(tags: &Vec<String>, count: usize) -> (columns: Vec<DataVector<T>>)
    requires
        count <= tags@.len(),
    ensures
        columns@.len() == count,
        forall|j: int, reads: spec_fn(Seq<char>, Option<T>) -> bool|
            0 <= j < count ==> #[trigger] column_holds(
                columns@[j],
                texts(tags@)[j],
                Seq::<Seq<char>>::empty(),
                reads,
            ),
{
    let mut columns: Vec<DataVector<T>> = Vec::new();
    let mut j: usize = 0;
    while j < count
        invariant
            j <= count <= tags@.len(),
            columns@.len() == j,
            forall|k: int, reads: spec_fn(Seq<char>, Option<T>) -> bool|
                0 <= k < j ==> #[trigger] column_holds(
                    columns@[k],
                    texts(tags@)[k],
                    Seq::<Seq<char>>::empty(),
                    reads,
                ),
        decreases count - j,
    {
        if is_real_tag(&tags[j]) {
            let cells: Vec<T> = Vec::new();
            columns.push(DataVector::RealVector(cells));
        } else {
            let cells: Vec<String> = Vec::new();
            assert(texts(cells@) =~= trimmed(Seq::<Seq<char>>::empty()));
            columns.push(DataVector::TextVector(cells));
        }
        j += 1;
    }
    columns
}

/// Whether `after` is `before` with one more cell at its end: for a text
/// column the trimmed `token`, for a numeric column a number that the
/// parser gives on `token`.
pub open spec fn cell_added<T>(
    before: DataVector<T>,
    after: DataVector<T>,
    token: Seq<char>,
    reads: spec_fn(Seq<char>, Option<T>) -> bool,
) -> bool {
    match before {
        DataVector::RealVector(v) => {
            &&& after is RealVector
            &&& after.reals().len() == v@.len() + 1
            &&& after.reals().take(v@.len() as int) == v@
            &&& reads(token, Some(after.reals()[v@.len() as int]))
        },
        DataVector::TextVector(v) => {
            &&& after matches DataVector::TextVector(w)
            &&& texts(w@) == texts(v@).push(trim_quotes(token))
        },
    }
}

/// Whether `after` is `before` with the tokens of one data row added:
/// token `j` at the end of column `j`, as far as both go.
pub open spec fn row_added<T>(
    before: Seq<DataVector<T>>,
    after: Seq<DataVector<T>>,
    tokens: Seq<Seq<char>>,
    reads: spec_fn(Seq<char>, Option<T>) -> bool,
) -> bool {
    &&& after.len() == before.len()
    &&& forall|j: int|
        0 <= j < before.len() ==> if j < tokens.len() {
            cell_added(before[j], #[trigger] after[j], tokens[j], reads)
        } else {
            after[j] == before[j]
        }
}

/// Adds one data row to the columns: token `j` goes to column `j`, and
/// tokens beyond the last column are dropped. A row without any token adds
/// nothing. A row that holds tokens, but fewer than there are columns, is
/// refused with `ShortRow`, and the columns stay as they were. The cell
/// of a numeric column is what `parse` gives on the token of that column;
/// the first such token on which `parse` gives none is refused with a
/// `ParseError` that names `line` and the column.
pub fn read_row<T, F: Fn(&str) -> Option<T>>(
    tokens: &Vec<String>,
    line: usize,
    columns: &mut Vec<DataVector<T>>,
    parse: &F,
) -> (r: Result<(), TfsError>)
    requires
        forall|s: &str| call_requires(*parse, (s,)),
    ensures
        match r {
            Ok(()) => {
                &&& !is_short(texts(tokens@), old(columns)@.len() as int)
                &&& row_added(old(columns)@, final(columns)@, texts(tokens@), reads_by(*parse))
            },
            Err(TfsError::ShortRow { line: l }) => {
                &&& l == line
                &&& is_short(texts(tokens@), old(columns)@.len() as int)
                &&& final(columns)@ == old(columns)@
            },
            Err(TfsError::ParseError { line: l, column: c }) => {
                &&& l == line
                &&& !is_short(texts(tokens@), old(columns)@.len() as int)
                &&& c < tokens@.len()
                &&& c < old(columns)@.len()
                &&& old(columns)@[c as int] is RealVector
                &&& reads_by(*parse)(texts(tokens@)[c as int], None::<T>)
            },
            Err(_) => false,
        },
{
    if tokens.len() > 0 && tokens.len() < columns.len() {
        return Err(TfsError::ShortRow { line });
    }
    let mut j: usize = 0;
    while j < tokens.len() && j < columns.len()
        invariant
            j <= tokens@.len(),
            j <= columns@.len(),
            columns@.len() == old(columns)@.len(),
            !is_short(texts(tokens@), old(columns)@.len() as int),
            forall|s: &str| call_requires(*parse, (s,)),
            forall|k: int|
                0 <= k < j ==> cell_added(
                    old(columns)@[k],
                    #[trigger] columns@[k],
                    texts(tokens@)[k],
                    reads_by(*parse),
                ),
            forall|k: int| j <= k < columns@.len() ==> columns@[k] == old(columns)@[k],
        decreases tokens@.len() - j,
    {
        let ghost before = columns@;
        assert(texts(tokens@)[j as int] == tokens@[j as int]@);
        match &mut columns[j] {
            DataVector::RealVector(v) => {
                match read_number(tokens[j].as_str(), line, j, parse) {
                    Ok(x) => {
                        let ghost held = v@;
                        v.push(x);
                        assert(v@.take(held.len() as int) == held);
                        assert(v@[held.len() as int] == x);
                    },
                    Err(e) => {
                        return Err(e);
                    },
                }
            },
            DataVector::TextVector(v) => {
                let ghost held = v@;
                let cell = trim_matches_quote(tokens[j].as_str());
                v.push(cell);
                assert(texts(v@) == texts(held).push(trim_quotes(tokens@[j as int]@)));
            },
        }
        assert(forall|k: int| 0 <= k < columns@.len() && k != j ==> columns@[k] == before[k]);
        assert(cell_added(
            before[j as int],
            columns@[j as int],
            texts(tokens@)[j as int],
            reads_by(*parse),
        ));
        j += 1;
    }
    Ok(())
}

/// Columns that hold lines `from..to`, with the tokens of line `to` added,
/// hold lines `from..to + 1`.
pub proof fn lemma_row_added<T>(
    before: Seq<DataVector<T>>,
    after: Seq<DataVector<T>>,
    tags: Seq<Seq<char>>,
    lines: Seq<Seq<char>>,
    from: int,
    to: int,
    reads: spec_fn(Seq<char>, Option<T>) -> bool,
)
    requires
        from <= to,
        columns_hold(before, tags, lines, from, to, reads),
        row_added(before, after, tokens_of(lines[to]), reads),
    ensures
        columns_hold(after, tags, lines, from, to + 1, reads),
{
    assert forall|j: int| 0 <= j < after.len() implies column_holds(
        #[trigger] after[j],
        tags[j],
        column_tokens(lines, from, to + 1, j),
        reads,
    ) by {
        let old_cells = column_tokens(lines, from, to, j);
        let new_cells = column_tokens(lines, from, to + 1, j);
        assert(column_holds(before[j], tags[j], old_cells, reads));
        if j < tokens_of(lines[to]).len() {
            assert(cell_added(before[j], after[j], tokens_of(lines[to])[j], reads));
            assert(new_cells == old_cells.push(tokens_of(lines[to])[j]));
            assert(trimmed(new_cells) =~= trimmed(old_cells).push(
                trim_quotes(tokens_of(lines[to])[j]),
            ));
            if tags[j] == real_tag() {
                assert forall|i: int| 0 <= i < new_cells.len() implies reads(
                    new_cells[i],
                    Some(#[trigger] after[j].reals()[i]),
                ) by {
                    if i < old_cells.len() {
                        assert(after[j].reals()[i] == after[j].reals().take(
                            old_cells.len() as int,
                        )[i]);
                        assert(reads(old_cells[i], Some(before[j].reals()[i])));
                    }
                }
            }
        } else {
            assert(new_cells == old_cells);
        }
    }
}

/// Adds the data rows `lines[start..]` to the columns, row by row. Each
/// cell of a numeric column is what `parse` gives on its token. The first
/// row that is short ends the reading with `ShortRow`; the first token of
/// a numeric column on which `parse` gives none, with a `ParseError` that
/// names its line and its column. Of two such rows the earlier one
/// decides, and within one row its shortness.
pub fn read_rows<T, F: Fn(&str) -> Option<T>>(
    lines: &Vec<String>,
    start: usize,
    tags: &Vec<String>,
    columns: &mut Vec<DataVector<T>>,
    parse: &F,
) -> (r: Result<(), TfsError>)
    requires
        start <= lines@.len(),
        old(columns)@.len() <= tags@.len(),
        columns_hold(
            old(columns)@,
            texts(tags@),
            texts(lines@),
            start as int,
            start as int,
            reads_by(*parse),
        ),
        forall|s: &str| call_requires(*parse, (s,)),
    ensures
        match r {
            Ok(()) => {
                &&& final(columns)@.len() == old(columns)@.len()
                &&& columns_hold(
                    final(columns)@,
                    texts(tags@),
                    texts(lines@),
                    start as int,
                    lines@.len() as int,
                    reads_by(*parse),
                )
                &&& no_short_row(
                    texts(lines@),
                    start as int,
                    lines@.len() as int,
                    old(columns)@.len() as int,
                )
            },
            Err(TfsError::ShortRow { line }) => {
                &&& start <= line < lines@.len()
                &&& is_short(tokens_of(lines@[line as int]@), old(columns)@.len() as int)
                &&& no_short_row(
                    texts(lines@),
                    start as int,
                    line as int,
                    old(columns)@.len() as int,
                )
            },
            Err(TfsError::ParseError { line, column }) => {
                &&& start <= line < lines@.len()
                &&& no_short_row(
                    texts(lines@),
                    start as int,
                    line + 1,
                    old(columns)@.len() as int,
                )
                &&& column < tokens_of(lines@[line as int]@).len()
                &&& column < old(columns)@.len()
                &&& texts(tags@)[column as int] == real_tag()
                &&& reads_by(*parse)(tokens_of(lines@[line as int]@)[column as int], None::<T>)
            },
            Err(_) => false,
        },
{
    let mut i: usize = start;
    while i < lines.len()
        invariant
            start <= i <= lines@.len(),
            columns@.len() == old(columns)@.len(),
            columns@.len() <= tags@.len(),
            forall|s: &str| call_requires(*parse, (s,)),
            columns_hold(
                columns@,
                texts(tags@),
                texts(lines@),
                start as int,
                i as int,
                reads_by(*parse),
            ),
            no_short_row(texts(lines@), start as int, i as int, columns@.len() as int),
        decreases lines@.len() - i,
    {
        let tokens = split_whitespace(lines[i].as_str());
        let ghost before = columns@;
        assert(texts(lines@)[i as int] == lines@[i as int]@);
        match read_row(&tokens, i, columns, parse) {
            Ok(()) => {},
            Err(e) => {
                proof {
                    if let TfsError::ParseError { line, column } = e {
                        assert(column_holds(
                            before[column as int],
                            texts(tags@)[column as int],
                            column_tokens(texts(lines@), start as int, i as int, column as int),
                            reads_by(*parse),
                        ));
                    }
                }
                return Err(e);
            },
        }
        proof {
            assert(texts(lines@)[i as int] == lines@[i as int]@);
            lemma_row_added(
                before,
                columns@,
                texts(tags@),
                texts(lines@),
                start as int,
                i as int,
                reads_by(*parse),
            );
        }
        i += 1;
    }
    Ok(())
}

} // verus!
