//! The shape of a TFS text, stated over its lines: which lines make the
//! header, where the header ends, and which tokens fall into which column.
use crate::dataframe::DataValue;
use crate::tokenfile::tokens_of;
use vstd::prelude::*;

verus! {

/// The token that opens the line of column names.
pub open spec fn names_mark() -> Seq<char> {
    seq!['*']
}

/// The token that opens the line of column types.
pub open spec fn types_mark() -> Seq<char> {
    seq!['$']
}

/// The token that opens a property line.
pub open spec fn property_mark() -> Seq<char> {
    seq!['@']
}

/// The type tag of a number. Every other tag stands for text.
pub open spec fn real_tag() -> Seq<char> {
    seq!['%', 'l', 'e']
}

/// Whether the first token of `line` is `mark`.
pub open spec fn starts_with(line: Seq<char>, mark: Seq<char>) -> bool {
    tokens_of(line).len() > 0 && tokens_of(line)[0] == mark
}

/// The tokens that the first `n` lines give after `mark`, in order.
pub open spec fn marked_upto(lines: Seq<Seq<char>>, n: int, mark: Seq<char>) -> Seq<Seq<char>>
    decreases n,
{
    if n <= 0 {
        Seq::empty()
    } else if starts_with(lines[n - 1], mark) {
        marked_upto(lines, n - 1, mark) + tokens_of(lines[n - 1]).skip(1)
    } else {
        marked_upto(lines, n - 1, mark)
    }
}

/// Whether the first `n` lines hold at least one column name and at least
/// one column type.
pub open spec fn header_done(lines: Seq<Seq<char>>, n: int) -> bool {
    marked_upto(lines, n, names_mark()).len() > 0 && marked_upto(lines, n, types_mark()).len() > 0
}

/// The least number of lines, at least `n`, that complete the header.
pub open spec fn header_end_from(lines: Seq<Seq<char>>, n: int) -> Option<int>
    decreases lines.len() - n,
{
    if n < 0 || n > lines.len() {
        None
    } else if header_done(lines, n) {
        Some(n)
    } else if n == lines.len() {
        None
    } else {
        header_end_from(lines, n + 1)
    }
}

/// The number of lines that make the header: the header ends with the first
/// line after which both a column name and a column type have been seen.
pub open spec fn header_end(lines: Seq<Seq<char>>) -> Option<int> {
    header_end_from(lines, 0)
}

/// Whether a line of these tokens is a property line.
pub open spec fn opens_property(tokens: Seq<Seq<char>>) -> bool {
    tokens.len() > 0 && tokens[0] == property_mark()
}

/// Whether a property line of these tokens gives a number.
pub open spec fn gives_real(tokens: Seq<Seq<char>>) -> bool {
    tokens.len() >= 3 && tokens[2] == real_tag()
}

/// Whether a property line of these tokens lacks its name, its type tag or,
/// for a number, its value.
pub open spec fn lacks_part(tokens: Seq<Seq<char>>) -> bool {
    tokens.len() < 3 || (tokens[2] == real_tag() && tokens.len() < 4)
}

/// Whether `line` is a property line.
pub open spec fn is_property(line: Seq<char>) -> bool {
    opens_property(tokens_of(line))
}

/// Whether `line` is a property line whose value is a number.
pub open spec fn is_real_property(line: Seq<char>) -> bool {
    is_property(line) && gives_real(tokens_of(line))
}

/// Whether `line` is a property line that lacks its name, its type tag or,
/// for a number, its value.
pub open spec fn is_broken_property(line: Seq<char>) -> bool {
    is_property(line) && lacks_part(tokens_of(line))
}

/// The tokens joined without anything between them.
pub open spec fn concat(tokens: Seq<Seq<char>>) -> Seq<char>
    decreases tokens.len(),
{
    if tokens.len() == 0 {
        Seq::empty()
    } else {
        concat(tokens.drop_last()) + tokens.last()
    }
}

/// The last of the first `n` lines that is a property line for `name`.
pub open spec fn last_property(lines: Seq<Seq<char>>, n: int, name: Seq<char>) -> Option<int>
    decreases n,
{
    if n <= 0 {
        None
    } else if is_property(lines[n - 1]) && tokens_of(lines[n - 1]).len() >= 2 && tokens_of(
        lines[n - 1],
    )[1] == name {
        Some(n - 1)
    } else {
        last_property(lines, n - 1, name)
    }
}

/// The names of the properties that the first `n` lines set, each once, in
/// the order in which they first occur.
pub open spec fn property_keys(lines: Seq<Seq<char>>, n: int) -> Seq<Seq<char>>
    decreases n,
{
    if n <= 0 {
        Seq::empty()
    } else if is_property(lines[n - 1]) && tokens_of(lines[n - 1]).len() >= 2 && last_property(
        lines,
        n - 1,
        tokens_of(lines[n - 1])[1],
    ) is None {
        property_keys(lines, n - 1).push(tokens_of(lines[n - 1])[1])
    } else {
        property_keys(lines, n - 1)
    }
}

/// Each of the property names of the first `n` lines is set by one of them.
pub proof fn lemma_property_keys_are_set(lines: Seq<Seq<char>>, n: int, k: int)
    requires
        0 <= k < property_keys(lines, n).len(),
    ensures
        last_property(lines, n, property_keys(lines, n)[k]) is Some,
    decreases n,
{
    if n > 0 {
        if k < property_keys(lines, n - 1).len() {
            lemma_property_keys_are_set(lines, n - 1, k);
        }
    }
}

/// The relation that holds of every token and every outcome: what is known
/// of a parser of which nothing is known.
pub open spec fn anything<T>() -> spec_fn(Seq<char>, Option<T>) -> bool {
    |token: Seq<char>, outcome: Option<T>| true
}

/// Whether `value` is what a property line of these tokens gives: for a
/// text, what follows the type tag, joined; for a number, a number that
/// the parser gives on the token after the type tag, where `reads` says
/// what the parser gives on which token.
pub open spec fn value_fits<T>(
    value: DataValue<T>,
    tokens: Seq<Seq<char>>,
    reads: spec_fn(Seq<char>, Option<T>) -> bool,
) -> bool {
    if gives_real(tokens) {
        value matches DataValue::Real(x) && reads(tokens[3], Some(x))
    } else {
        value matches DataValue::Text(s) && s@ == concat(tokens.skip(3))
    }
}

/// Whether `value` is what the property line `line` gives.
pub open spec fn is_value_of<T>(
    value: DataValue<T>,
    line: Seq<char>,
    reads: spec_fn(Seq<char>, Option<T>) -> bool,
) -> bool {
    value_fits(value, tokens_of(line), reads)
}

/// Whether `props` holds the properties of the first `n` lines: each name
/// with the value of the last line that sets it.
pub open spec fn holds_properties<T>(
    props: Map<Seq<char>, DataValue<T>>,
    lines: Seq<Seq<char>>,
    n: int,
    reads: spec_fn(Seq<char>, Option<T>) -> bool,
) -> bool {
    forall|name: Seq<char>| #[trigger]
        props.contains_key(name) == (last_property(lines, n, name) is Some) && (last_property(
            lines,
            n,
            name,
        ) matches Some(i) ==> is_value_of(props[name], lines[i], reads))
}

/// Whether the property line `line` is refused: it lacks a part, or it
/// gives a number and the parser gives none on its token.
pub open spec fn refuses_property<T>(
    line: Seq<char>,
    reads: spec_fn(Seq<char>, Option<T>) -> bool,
) -> bool {
    is_broken_property(line) || (is_real_property(line) && reads(tokens_of(line)[3], None::<T>))
}

/// The tokens that lines `from..to` hold for column `j`, in order. A line
/// with `j` tokens or fewer gives none.
pub open spec fn column_tokens(lines: Seq<Seq<char>>, from: int, to: int, j: int) -> Seq<Seq<char>>
    decreases to - from,
{
    if to <= from {
        Seq::empty()
    } else if j < tokens_of(lines[to - 1]).len() {
        column_tokens(lines, from, to - 1, j).push(tokens_of(lines[to - 1])[j])
    } else {
        column_tokens(lines, from, to - 1, j)
    }
}

/// Whether a row of these tokens is short for `count` columns: it holds
/// tokens, but fewer than there are columns. A row without any token is
/// blank, not short.
pub open spec fn is_short(tokens: Seq<Seq<char>>, count: int) -> bool {
    0 < tokens.len() < count
}

/// Whether none of lines `from..to` is short for `count` columns.
pub open spec fn no_short_row(lines: Seq<Seq<char>>, from: int, to: int, count: int) -> bool {
    forall|k: int| from <= k < to ==> !is_short(tokens_of(#[trigger] lines[k]), count)
}

/// Where no row is short, every column gets as many tokens as the first:
/// one from each row that is not blank.
pub proof fn lemma_column_tokens_even(
    lines: Seq<Seq<char>>,
    from: int,
    to: int,
    j: int,
    count: int,
)
    requires
        0 <= j < count,
        from <= to,
        no_short_row(lines, from, to, count),
    ensures
        column_tokens(lines, from, to, j).len() == column_tokens(lines, from, to, 0).len(),
    decreases to - from,
{
    if from < to {
        assert(!is_short(tokens_of(lines[to - 1]), count));
        lemma_column_tokens_even(lines, from, to - 1, j, count);
    }
}

/// No column gets more tokens than the first, and the first gets one from
/// each line that holds a token.
pub proof fn lemma_column_tokens_len(lines: Seq<Seq<char>>, from: int, to: int, j: int)
    requires
        0 <= j,
        from <= to,
    ensures
        column_tokens(lines, from, to, j).len() <= column_tokens(lines, from, to, 0).len(),
        column_tokens(lines, from, to, 0).len() <= to - from,
        (forall|k: int| from <= k < to ==> tokens_of(#[trigger] lines[k]).len() > 0)
            ==> column_tokens(lines, from, to, 0).len() == to - from,
    decreases to - from,
{
    if from < to {
        lemma_column_tokens_len(lines, from, to - 1, j);
    }
}

} // verus!
