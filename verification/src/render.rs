//! Cells and columns as text, for a reader.
use crate::dataframe::{DataValue, DataVector, DataView};
use crate::tfsdataframe::TfsDataFrame;
use crate::tokenfile::texts;
use vstd::prelude::*;
use vstd::string::to_string_from_display_ensures;
use vstd::string::StringExecFns;

verus! {

/// `text` between single quotes.
pub open spec fn quoted(text: Seq<char>) -> Seq<char> {
    "'"@ + text + "'"@
}

/// `text` between single quotes.
pub fn quote(text: &str) -> (r: String)
    ensures
        r@ == quoted(text@),
{
    let mut r = String::from_str("'");
    r.append(text);
    r.append("'");
    r
}

/// Whether `text` shows `value`: a text between single quotes, a number
/// as its type displays it.
pub open spec fn value_shown<T: core::fmt::Display>(value: DataValue<T>, text: String) -> bool {
    match value {
        DataValue::Text(s) => text@ == quoted(s@),
        DataValue::Real(x) => to_string_from_display_ensures::<T>(&x, text),
    }
}

impl<T: core::fmt::Display> DataValue<T> {
    /// The cell as text: a text between single quotes, a number as its type
    /// displays it.
    pub fn to_string(&self) -> (r: String)
        ensures
            value_shown(*self, r),
    {
        match self {
            DataValue::Text(s) => quote(s.as_str()),
            DataValue::Real(x) => x.to_string(),
        }
    }
}

impl<'a, T: core::fmt::Display> DataView<'a, T> {
    /// The cell as text: a text between single quotes, a number as its type
    /// displays it.
    pub fn to_string(&self) -> (r: String)
        ensures
            match *self {
                DataView::Text(s) => r@ == quoted(s@),
                DataView::Real(x) => to_string_from_display_ensures::<T>(x, r),
            },
    {
        match self {
            DataView::Text(s) => {
                let text: &String = *s;
                quote(text.as_str())
            },
            DataView::Real(x) => {
                let number: &T = *x;
                number.to_string()
            },
        }
    }
}

/// `value` as its type's `Debug` formats it (`format!` with `{:?}`). Nothing
/// is claimed of the text: it is whatever the type writes.
#[verifier::external_body]
pub(crate) fn debug_of<T: core::fmt::Debug>(value: &T) -> (r: String) {
    format!("{:?}", value)
}

/// What `Debug` writes for a string: the string between double quotes,
/// with its special characters escaped.
pub uninterp spec fn debug_text(text: Seq<char>) -> Seq<char>;

/// `text` as `Debug` formats a string (`format!` with `{:?}`).
#[verifier::external_body]
pub(crate) fn debug_of_text(text: &str) -> (r: String)
    ensures
        r@ == debug_text(text@),
{
    format!("{:?}", text)
}

/// The items in a row, each between `before` and `after`.
pub open spec fn listed(items: Seq<Seq<char>>, before: Seq<char>, after: Seq<char>) -> Seq<char>
    decreases items.len(),
{
    if items.len() == 0 {
        Seq::empty()
    } else {
        listed(items.drop_last(), before, after) + before + items.last() + after
    }
}

/// What a reader sees of a column: its kind, the number of its cells in
/// square brackets, and in braces the cells that are shown, each followed
/// by a comma; the cells of a text column stand between single quotes.
pub open spec fn preview_text(numeric: bool, count: Seq<char>, shown: Seq<Seq<char>>) -> Seq<char> {
    if numeric {
        "RealVector["@ + count + "] { "@ + listed(shown, ""@, ", "@) + "}"@
    } else {
        "TextVector["@ + count + "] { "@ + listed(shown, "'"@, "', "@) + "}"@
    }
}

/// The most cells of a column that a preview shows.
pub open spec fn preview_limit() -> nat {
    5
}

/// The items in a row, each between `before` and `after`.
pub fn list(items: &Vec<String>, before: &str, after: &str) -> (r: String)
    ensures
        r@ == listed(texts(items@), before@, after@),
{
    let mut r = String::new();
    let mut i: usize = 0;
    while i < items.len()
        invariant
            i <= items@.len(),
            r@ == listed(texts(items@).take(i as int), before@, after@),
        decreases items@.len() - i,
    {
        proof {
            let longer = texts(items@).take(i + 1);
            assert(longer.drop_last() == texts(items@).take(i as int));
            assert(longer.last() == items@[i as int]@);
        }
        r.append(before);
        r.append(items[i].as_str());
        r.append(after);
        i += 1;
    }
    assert(texts(items@).take(i as int) == texts(items@));
    r
}

/// Puts a preview together from its parts: the kind of the column, the
/// number of its cells as text, and the cells to show as texts.
pub fn preview_of(numeric: bool, count: &str, shown: &Vec<String>) -> (r: String)
    ensures
        r@ == preview_text(numeric, count@, texts(shown@)),
{
    let mut r = if numeric {
        String::from_str("RealVector[")
    } else {
        String::from_str("TextVector[")
    };
    r.append(count);
    r.append("] { ");
    let cells = if numeric {
        list(shown, "", ", ")
    } else {
        list(shown, "'", "', ")
    };
    r.append(cells.as_str());
    r.append("}");
    r
}

/// The smaller of `n` and the most entries that a preview shows.
pub open spec fn shown_of(n: nat) -> nat {
    if n <= preview_limit() {
        n
    } else {
        preview_limit()
    }
}

/// Whether `text` shows cell `i` of `column`: a number as `show` renders
/// it, a text as `Debug` formats a string.
pub open spec fn cell_shown<T, F: Fn(&T) -> String>(
    column: DataVector<T>,
    show: F,
    i: int,
    text: Seq<char>,
) -> bool {
    match column {
        DataVector::RealVector(v) => exists|s: String| #[trigger]
            call_ensures(show, (&v@[i],), s) && s@ == text,
        DataVector::TextVector(v) => text == debug_text(v@[i]@),
    }
}

/// Whether `text` is the preview of `column` with its numbers rendered by
/// `show`: the kind of the column, the number of its cells, and its first
/// cells in their order, five at most.
pub open spec fn previews<T, F: Fn(&T) -> String>(column: DataVector<T>, show: F, text: Seq<char>) -> bool {
    exists|count: String, shown: Seq<Seq<char>>|
        {
            &&& to_string_from_display_ensures::<usize>(&(column.spec_len() as usize), count)
            &&& shown.len() == shown_of(column.spec_len())
            &&& forall|i: int| 0 <= i < shown.len() ==> cell_shown(column, show, i, #[trigger] shown[i])
            &&& text == #[trigger] preview_text(column is RealVector, count@, shown)
        }
}

impl<T> DataVector<T> {
    /// A preview of the column for a reader, with its numbers rendered by
    /// `show`: its kind, the number of its cells and its first cells in
    /// their order, five at most.
    pub fn preview_with<F: Fn(&T) -> String>(&self, show: F) -> (r: String)
        requires
            forall|x: &T| call_requires(show, (x,)),
        ensures
            previews(*self, show, r@),
    {
        let n = self.len();
        let count = n.to_string();
        let limit: usize = if n <= 5 {
            n
        } else {
            5
        };
        let mut shown: Vec<String> = Vec::new();
        let mut i: usize = 0;
        while i < limit
            invariant
                i <= limit <= n,
                n == self.spec_len(),
                shown@.len() == i,
                forall|x: &T| call_requires(show, (x,)),
                forall|k: int| 0 <= k < i ==> cell_shown(*self, show, k, #[trigger] texts(shown@)[k]),
            decreases limit - i,
        {
            let ghost held = shown@;
            let cell = match self {
                DataVector::RealVector(v) => show(&v[i]),
                DataVector::TextVector(v) => debug_of_text(v[i].as_str()),
            };
            shown.push(cell);
            proof {
                assert(texts(shown@)[i as int] == cell@);
                assert(cell_shown(*self, show, i as int, cell@));
                assert forall|k: int| 0 <= k < i + 1 implies cell_shown(
                    *self,
                    show,
                    k,
                    #[trigger] texts(shown@)[k],
                ) by {
                    if k < i {
                        assert(texts(shown@)[k] == texts(held)[k]);
                    }
                }
            }
            i += 1;
        }
        let numeric = match self {
            DataVector::RealVector(_) => true,
            DataVector::TextVector(_) => false,
        };
        let r = preview_of(numeric, count.as_str(), &shown);
        assert(r@ == preview_text(*self is RealVector, count@, texts(shown@)));
        r
    }
}

/// Whether `text` is the preview of `column` with its cells as `Debug`
/// formats them: the kind of the column, the number of its cells, and its
/// first cells in their order, five at most. Of a number it says no more
/// than that it is shown: its text is whatever its type writes.
pub open spec fn previews_in_debug<T>(column: DataVector<T>, text: Seq<char>) -> bool {
    exists|count: String, shown: Seq<Seq<char>>|
        {
            &&& to_string_from_display_ensures::<usize>(&(column.spec_len() as usize), count)
            &&& shown.len() == shown_of(column.spec_len())
            &&& column matches DataVector::TextVector(v) ==> forall|i: int|
                0 <= i < shown.len() ==> #[trigger] shown[i] == debug_text(v@[i]@)
            &&& text == #[trigger] preview_text(column is RealVector, count@, shown)
        }
}

impl<T: core::fmt::Debug> DataVector<T> {
    /// A preview of the column for a reader: its kind, the number of its
    /// cells and its first cells in their order, five at most, each as
    /// `Debug` formats it.
    pub fn debug_string(&self) -> (r: String)
        ensures
            previews_in_debug(*self, r@),
    {
        let r = self.preview_with(debug_of::<T>);
        proof {
            let (count, shown) = choose|count: String, shown: Seq<Seq<char>>|
                {
                    &&& to_string_from_display_ensures::<usize>(&(self.spec_len() as usize), count)
                    &&& shown.len() == shown_of(self.spec_len())
                    &&& forall|i: int|
                        0 <= i < shown.len() ==> cell_shown(
                            *self,
                            debug_of::<T>,
                            i,
                            #[trigger] shown[i],
                        )
                    &&& r@ == #[trigger] preview_text(*self is RealVector, count@, shown)
                };
            assert(r@ == preview_text(*self is RealVector, count@, shown));
        }
        r
    }
}

/// `name`, a colon and `value`.
pub open spec fn entry_text(name: Seq<char>, value: Seq<char>) -> Seq<char> {
    name + ": "@ + value
}

/// `name`, a colon and `value`.
pub fn entry(name: &str, value: &str) -> (r: String)
    ensures
        r@ == entry_text(name@, value@),
{
    let mut r = String::from_str(name);
    r.append(": ");
    r.append(value);
    r
}

/// What a reader sees of a table: the number of its rows, the number of
/// its properties with the properties that are shown, one to a line, and
/// the columns that are shown, one to a line.
pub open spec fn summary_text(
    rows: Seq<char>,
    count: Seq<char>,
    properties: Seq<Seq<char>>,
    columns: Seq<Seq<char>>,
) -> Seq<char> {
    "TfsDataFrame ["@ + rows + " rows] {\nHeader ["@ + count + "]: \n"@ + listed(
        properties,
        "  "@,
        "\n"@,
    ) + listed(columns, ""@, "\n"@) + "}"@
}

/// Puts a summary together from its parts: the number of rows and the
/// number of properties as texts, and the lines to show of the properties
/// and of the columns.
pub fn summary_of(rows: &str, count: &str, properties: &Vec<String>, columns: &Vec<String>) -> (r:
    String)
    ensures
        r@ == summary_text(rows@, count@, texts(properties@), texts(columns@)),
{
    let mut r = String::from_str("TfsDataFrame [");
    r.append(rows);
    r.append(" rows] {\nHeader [");
    r.append(count);
    r.append("]: \n");
    r.append(list(properties, "  ", "\n").as_str());
    r.append(list(columns, "", "\n").as_str());
    r.append("}");
    r
}

/// Whether `line` shows property `k` of the table: its name, a colon, and
/// its value, a text between single quotes or a number as its type
/// displays it.
pub open spec fn property_line<T: core::fmt::Display>(
    df: TfsDataFrame<T>,
    k: int,
    line: Seq<char>,
) -> bool {
    exists|text: String| #[trigger]
        value_shown(df.header()[df.header_keys()[k]], text) && line == entry_text(
            df.header_keys()[k],
            text@,
        )
}

/// Whether `line` shows column `j` of the table: its name, a colon, and
/// its preview.
pub open spec fn column_line<T>(df: TfsDataFrame<T>, j: int, line: Seq<char>) -> bool {
    exists|text: Seq<char>| #[trigger]
        previews_in_debug(df.columns()[j], text) && line == entry_text(df.column_names()[j], text)
}

/// Whether `text` is the summary of the table: the number of its rows, the
/// number of its properties, its first properties in the order in which
/// the header names them, and its first columns in their order, five of
/// each at most.
pub open spec fn summarizes<T: core::fmt::Display>(df: TfsDataFrame<T>, text: Seq<char>) -> bool {
    exists|rows: String, count: String, properties: Seq<Seq<char>>, columns: Seq<Seq<char>>|
        {
            &&& to_string_from_display_ensures::<usize>(&(df.spec_len() as usize), rows)
            &&& to_string_from_display_ensures::<usize>(&(df.header().len() as usize), count)
            &&& properties.len() == shown_of(df.header_keys().len())
            &&& forall|k: int|
                0 <= k < properties.len() ==> property_line(df, k, #[trigger] properties[k])
            &&& columns.len() == shown_of(df.columns().len())
            &&& forall|j: int| 0 <= j < columns.len() ==> column_line(df, j, #[trigger] columns[j])
            &&& text == #[trigger] summary_text(rows@, count@, properties, columns)
        }
}

impl<T: core::fmt::Display + core::fmt::Debug> TfsDataFrame<T> {
    /// A summary of the table for a reader: the number of rows, the number
    /// of properties, the first properties with their values, and a preview
    /// of the first columns, five of each at most.
    pub fn to_string(&self) -> (r: String)
        ensures
            summarizes(*self, r@),
    {
        let rows = self.len().to_string();
        let count = self.property_count().to_string();
        let keys = self.keys();
        let names = self.names();
        let all = self.all_columns();
        proof {
            use_type_invariant(self);
            self.lemma_wf();
            assert(texts(names@).len() == names@.len());
            assert(texts(keys@).len() == keys@.len());
        }
        let mut properties: Vec<String> = Vec::new();
        let mut i: usize = 0;
        while i < keys.len() && i < 5
            invariant
                i <= keys@.len(),
                i <= 5,
                texts(keys@) == self.header_keys(),
                forall|k: int|
                    0 <= k < self.header_keys().len() ==> self.header().contains_key(
                        #[trigger] self.header_keys()[k],
                    ),
                properties@.len() == i,
                forall|k: int|
                    0 <= k < i ==> property_line(*self, k, #[trigger] texts(properties@)[k]),
            decreases keys@.len() - i,
        {
            let ghost held = properties@;
            assert(texts(keys@)[i as int] == keys@[i as int]@);
            assert(self.header().contains_key(self.header_keys()[i as int]));
            match self.property(keys[i].as_str()) {
                Ok(value) => {
                    let text = value.to_string();
                    let line = entry(keys[i].as_str(), text.as_str());
                    proof {
                        assert(value_shown(self.header()[self.header_keys()[i as int]], text));
                        assert(property_line(*self, i as int, line@));
                    }
                    properties.push(line);
                },
                Err(_) => unreached(),
            }
            proof {
                assert forall|k: int| 0 <= k < i + 1 implies property_line(
                    *self,
                    k,
                    #[trigger] texts(properties@)[k],
                ) by {
                    if k < i {
                        assert(texts(properties@)[k] == texts(held)[k]);
                    }
                }
            }
            i += 1;
        }
        let mut columns: Vec<String> = Vec::new();
        let mut j: usize = 0;
        while j < all.len() && j < 5
            invariant
                j <= all@.len(),
                j <= 5,
                names@.len() == all@.len(),
                texts(names@) == self.column_names(),
                all@ == self.columns(),
                columns@.len() == j,
                forall|k: int| 0 <= k < j ==> column_line(*self, k, #[trigger] texts(columns@)[k]),
            decreases all@.len() - j,
        {
            let ghost held = columns@;
            let preview = all[j].debug_string();
            let line = entry(names[j].as_str(), preview.as_str());
            proof {
                assert(texts(names@)[j as int] == names@[j as int]@);
                assert(previews_in_debug(self.columns()[j as int], preview@));
                assert(column_line(*self, j as int, line@));
            }
            columns.push(line);
            proof {
                assert forall|k: int| 0 <= k < j + 1 implies column_line(
                    *self,
                    k,
                    #[trigger] texts(columns@)[k],
                ) by {
                    if k < j {
                        assert(texts(columns@)[k] == texts(held)[k]);
                    }
                }
            }
            j += 1;
        }
        let r = summary_of(rows.as_str(), count.as_str(), &properties, &columns);
        proof {
            assert(texts(properties@).len() == properties@.len());
            assert(texts(columns@).len() == columns@.len());
            assert(r@ == summary_text(rows@, count@, texts(properties@), texts(columns@)));
        }
        r
    }
}

} // verus!
