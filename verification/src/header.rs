//! Reading the header of a TFS text: the properties, the column names and
//! the column types.
use crate::dataframe::DataValue;
use crate::error::TfsError;
use crate::grammar::{
    concat, gives_real, header_done, header_end, header_end_from, holds_properties,
    is_broken_property, is_property, is_real_property, is_value_of, lacks_part, last_property,
    property_keys, refuses_property, value_fits, marked_upto, names_mark, property_mark, real_tag, types_mark,
};
use crate::tokenfile::{split_whitespace, texts, tokens_of};
use vstd::hash_map::StringHashMap;
use vstd::prelude::*;
use vstd::string::StringExecFns;

verus! {

/// Reads `token` as a number of type `T`, by `T`'s implementation of
/// `FromStr` (`str::parse`). `None` where that implementation refuses the
/// token. Nothing is claimed of the number: it is whatever `T` makes of the
/// token.
#[verifier::external_body]
pub(crate) fn parse_number<T: core::str::FromStr>(token: &str) -> (r: Option<T>) {
    token.parse::<T>().ok()
}

/// Whether `token` is `"*"`.
pub fn is_names_mark(token: &String) -> (b: bool)
    ensures
        b == (token@ == names_mark()),
{
    proof {
        reveal_strlit("*");
    }
    let mark = String::from_str("*");
    assert(mark@ =~= names_mark());
    *token == mark
}

/// Whether `token` is `"$"`.
pub fn is_types_mark(token: &String) -> (b: bool)
    ensures
        b == (token@ == types_mark()),
{
    proof {
        reveal_strlit("$");
    }
    let mark = String::from_str("$");
    assert(mark@ =~= types_mark());
    *token == mark
}

/// Whether `token` is `"@"`.
pub fn is_property_mark(token: &String) -> (b: bool)
    ensures
        b == (token@ == property_mark()),
{
    proof {
        reveal_strlit("@");
    }
    let mark = String::from_str("@");
    assert(mark@ =~= property_mark());
    *token == mark
}

/// Whether `token` is the type tag of a number, `"%le"`.
pub fn is_real_tag(token: &String) -> (b: bool)
    ensures
        b == (token@ == real_tag()),
{
    proof {
        reveal_strlit("%le");
    }
    let tag = String::from_str("%le");
    assert(tag@ =~= real_tag());
    *token == tag
}

/// The tokens from position `from` on, joined without anything between them.
pub fn concat_from(tokens: &Vec<String>, from: usize) -> (out: String)
    requires
        from <= tokens.len(),
    ensures
        out@ == concat(texts(tokens@).skip(from as int)),
{
    let mut out = String::new();
    let mut k: usize = from;
    let ghost rest = texts(tokens@).skip(from as int);
    while k < tokens.len()
        invariant
            from <= k <= tokens.len(),
            rest == texts(tokens@).skip(from as int),
            out@ == concat(rest.take(k - from)),
        decreases tokens.len() - k,
    {
        proof {
            let shorter = rest.take(k - from);
            let longer = rest.take(k + 1 - from);
            assert(longer.drop_last() == shorter);
            assert(longer.last() == tokens@[k as int]@);
        }
        out.append(tokens[k].as_str());
        k += 1;
    }
    assert(rest.take(k - from) == rest);
    out
}

/// Appends to `list` the tokens that follow the first one.
pub fn extend_from(list: &mut Vec<String>, tokens: &Vec<String>)
    requires
        tokens.len() > 0,
    ensures
        texts(final(list)@) == texts(old(list)@) + texts(tokens@).skip(1),
{
    let mut k: usize = 1;
    while k < tokens.len()
        invariant
            1 <= k <= tokens.len(),
            texts(list@) == texts(old(list)@) + texts(tokens@).skip(1).take(k - 1),
        decreases tokens.len() - k,
    {
        let ghost before = list@;
        list.push(tokens[k].clone());
        proof {
            assert(texts(list@) == texts(before).push(tokens@[k as int]@));
            assert(texts(tokens@).skip(1).take(k + 1 - 1) == texts(tokens@).skip(1).take(
                k - 1,
            ).push(tokens@[k as int]@));
        }
        k += 1;
    }
    assert(texts(tokens@).skip(1).take(k - 1) == texts(tokens@).skip(1));
}

/// What becomes of a token that was read as a number: the number itself, or
/// a `ParseError` that names the place of the token.
pub fn number_or_error<T>(parsed: Option<T>, line: usize, column: usize) -> (r: Result<T, TfsError>)
    ensures
        r == (match parsed {
            Some(x) => Ok::<T, TfsError>(x),
            None => Err(TfsError::ParseError { line, column }),
        }),
{
    match parsed {
        Some(x) => Ok(x),
        None => Err(TfsError::ParseError { line, column }),
    }
}

/// What a parser makes of tokens: whether it can give `outcome` on a
/// string of the text `token`.
pub open spec fn reads_by<T, F: Fn(&str) -> Option<T>>(parse: F) -> spec_fn(
    Seq<char>,
    Option<T>,
) -> bool {
    |token: Seq<char>, outcome: Option<T>|
        exists|s: &str| s@ == token && #[trigger] call_ensures(parse, (s,), outcome)
}

/// Reads `token` as a number with `parse`: the number that `parse` gives on
/// this token, or a `ParseError` that names the place of the token where
/// `parse` gives none.
pub fn read_number<T, F: Fn(&str) -> Option<T>>(
    token: &str,
    line: usize,
    column: usize,
    parse: &F,
) -> (r: Result<T, TfsError>)
    requires
        forall|s: &str| call_requires(*parse, (s,)),
    ensures
        match r {
            Ok(x) => reads_by(*parse)(token@, Some(x)),
            Err(e) => e == (TfsError::ParseError { line, column }) && reads_by(*parse)(
                token@,
                None::<T>,
            ),
        },
{
    number_or_error(parse(token), line, column)
}

/// Takes the property that a property line holds into `props`. The tokens
/// are those of the line, `line` its number. The value of a number is what
/// `parse` gives on the token after the type tag. A line that lacks a part,
/// or on whose number `parse` gives none, is refused with `ParseError`, and
/// `props` stays as it was.
pub fn read_property<T, F: Fn(&str) -> Option<T>>(
    tokens: &Vec<String>,
    line: usize,
    props: &mut StringHashMap<DataValue<T>>,
    parse: &F,
) -> (r: Result<(), TfsError>)
    requires
        forall|s: &str| call_requires(*parse, (s,)),
    ensures
        r is Err ==> r == Err::<(), TfsError>(TfsError::ParseError { line, column: 0 })
            && final(props)@ == old(props)@,
        lacks_part(texts(tokens@)) ==> r is Err,
        r is Err ==> lacks_part(texts(tokens@)) || (gives_real(texts(tokens@)) && reads_by(*parse)(
            texts(tokens@)[3],
            None::<T>,
        )),
        r is Ok ==> exists|value: DataValue<T>| #[trigger]
            value_fits(value, texts(tokens@), reads_by(*parse)) && final(props)@ == old(
                props,
            )@.insert(tokens@[1]@, value),
{
    if tokens.len() < 3 {
        return Err(TfsError::ParseError { line, column: 0 });
    }
    let name = tokens[1].clone();
    assert(texts(tokens@)[2] == tokens@[2]@);
    if is_real_tag(&tokens[2]) {
        if tokens.len() < 4 {
            return Err(TfsError::ParseError { line, column: 0 });
        }
        assert(texts(tokens@)[3] == tokens@[3]@);
        match read_number(tokens[3].as_str(), line, 0, parse) {
            Ok(x) => {
                let value = DataValue::Real(x);
                let ghost held = value;
                props.insert(name, value);
                assert(value_fits(held, texts(tokens@), reads_by(*parse)));
                Ok(())
            },
            Err(e) => Err(e),
        }
    } else {
        let value = DataValue::Text(concat_from(tokens, 3));
        let ghost held = value;
        props.insert(name, value);
        assert(value_fits(held, texts(tokens@), reads_by(*parse)));
        Ok(())
    }
}

/// What the header of a text holds.
#[verifier::reject_recursive_types(T)]
pub struct Header<T> {
    /// The properties, each name with the value of the last line that sets it.
    pub properties: StringHashMap<DataValue<T>>,
    /// The names of the properties, each once, in the order in which they
    /// first occur.
    pub keys: Vec<String>,
    /// The column names, in order.
    pub names: Vec<String>,
    /// The column types, in order.
    pub types: Vec<String>,
    /// The number of lines that make the header.
    pub end: usize,
}

/// Whether none of the first `n` lines is a property line that lacks a part.
pub open spec fn no_broken_property(lines: Seq<Seq<char>>, n: int) -> bool {
    forall|k: int| 0 <= k < n ==> !is_broken_property(#[trigger] lines[k])
}

/// Whether none of the first `n` lines is a property line that gives a number.
pub open spec fn no_real_property(lines: Seq<Seq<char>>, n: int) -> bool {
    forall|k: int| 0 <= k < n ==> !is_real_property(#[trigger] lines[k])
}

/// Reads the header: the lines up to the first one after which both a
/// column name and a column type have been seen.
///
/// The value of a property that gives a number is what `parse` gives on
/// the token after its type tag.
///
/// A text that ends before that is refused with `MalformedHeader`. A
/// property line before the end of the header that lacks a part, or on
/// whose number `parse` gives none, is refused with `ParseError` at that
/// line.
pub fn read_header<T, F: Fn(&str) -> Option<T>>(lines: &Vec<String>, parse: &F) -> (r: Result<
    Header<T>,
    TfsError,
>)
    requires
        forall|s: &str| call_requires(*parse, (s,)),
    ensures
        match r {
            Ok(h) => {
                &&& header_end(texts(lines@)) == Some(h.end as int)
                &&& texts(h.names@) == marked_upto(texts(lines@), h.end as int, names_mark())
                &&& texts(h.types@) == marked_upto(texts(lines@), h.end as int, types_mark())
                &&& holds_properties(
                    h.properties@,
                    texts(lines@),
                    h.end as int,
                    reads_by(*parse),
                )
                &&& texts(h.keys@) == property_keys(texts(lines@), h.end as int)
                &&& no_broken_property(texts(lines@), h.end as int)
            },
            Err(TfsError::MalformedHeader) => {
                &&& header_end(texts(lines@)) is None
                &&& no_broken_property(texts(lines@), lines@.len() as int)
            },
            Err(TfsError::ParseError { line, column }) => {
                &&& column == 0
                &&& line < lines@.len()
                &&& header_end(texts(lines@)) matches Some(end) ==> line < end
                &&& no_broken_property(texts(lines@), line as int)
                &&& refuses_property(texts(lines@)[line as int], reads_by(*parse))
            },
            Err(_) => false,
        },
{
    let mut properties: StringHashMap<DataValue<T>> = StringHashMap::new();
    let mut keys: Vec<String> = Vec::new();
    let mut names: Vec<String> = Vec::new();
    let mut types: Vec<String> = Vec::new();
    let mut i: usize = 0;
    let ghost all = texts(lines@);
    while i < lines.len()
        invariant
            i <= lines@.len(),
            all == texts(lines@),
            texts(names@) == marked_upto(all, i as int, names_mark()),
            texts(types@) == marked_upto(all, i as int, types_mark()),
            !header_done(all, i as int),
            header_end(all) == header_end_from(all, i as int),
            forall|s: &str| call_requires(*parse, (s,)),
            holds_properties(properties@, all, i as int, reads_by(*parse)),
            texts(keys@) == property_keys(all, i as int),
            no_broken_property(all, i as int),
        decreases lines@.len() - i,
    {
        let tokens = split_whitespace(lines[i].as_str());
        assert(texts(tokens@) == tokens_of(all[i as int]));
        let ghost before = properties@;
        proof {
            lemma_marks_differ();
            assert(header_end_from(all, i as int) == header_end_from(all, i + 1));
        }
        if tokens.len() > 0 {
            assert(texts(tokens@)[0] == tokens@[0]@);
            assert(tokens.len() >= 2 ==> texts(tokens@)[1] == tokens@[1]@);
            if is_names_mark(&tokens[0]) {
                extend_from(&mut names, &tokens);
            } else if is_types_mark(&tokens[0]) {
                extend_from(&mut types, &tokens);
            } else if is_property_mark(&tokens[0]) {
                let fresh = tokens.len() >= 2 && !properties.contains_key(tokens[1].as_str());
                assert(before.contains_key(tokens@[1]@) == (last_property(
                    all,
                    i as int,
                    tokens@[1]@,
                ) is Some));
                match read_property(&tokens, i, &mut properties, parse) {
                    Ok(()) => {
                        if fresh {
                            let ghost held = keys@;
                            keys.push(tokens[1].clone());
                            assert(texts(keys@) == texts(held).push(tokens@[1]@));
                        }
                    },
                    Err(e) => {
                        proof {
                            lemma_header_end_after(all, i as int);
                        }
                        return Err(e);
                    },
                }
            }
        }
        proof {
            assert(!is_broken_property(all[i as int]));
            lemma_properties_step(before, properties@, all, i as int, reads_by(*parse));
        }
        i += 1;
        if names.len() > 0 && types.len() > 0 {
            return Ok(Header { properties, keys, names, types, end: i });
        }
    }
    Err(TfsError::MalformedHeader)
}

/// The three marks that open a header line differ from one another.
pub proof fn lemma_marks_differ()
    ensures
        names_mark() != types_mark(),
        names_mark() != property_mark(),
        types_mark() != property_mark(),
{
    assert(names_mark()[0] == '*');
    assert(types_mark()[0] == '$');
    assert(property_mark()[0] == '@');
}

/// Where the header is not complete after `n` lines, it ends later, if at all.
pub proof fn lemma_header_end_after(lines: Seq<Seq<char>>, n: int)
    requires
        0 <= n < lines.len(),
        !header_done(lines, n),
    ensures
        header_end_from(lines, n) matches Some(end) ==> n < end,
{
    lemma_header_end_from(lines, n + 1);
}

/// A header that ends at or after line `n` ends within the text, and is
/// complete where it ends.
pub proof fn lemma_header_end_from(lines: Seq<Seq<char>>, n: int)
    requires
        0 <= n <= lines.len(),
    ensures
        header_end_from(lines, n) matches Some(end) ==> n <= end <= lines.len() && header_done(
            lines,
            end,
        ),
    decreases lines.len() - n,
{
    if !header_done(lines, n) && n < lines.len() {
        lemma_header_end_from(lines, n + 1);
    }
}

/// The properties of the first `n + 1` lines are those of the first `n`
/// lines with what line `n` sets, if it sets anything.
proof fn lemma_properties_step<T>(
    before: Map<Seq<char>, DataValue<T>>,
    after: Map<Seq<char>, DataValue<T>>,
    lines: Seq<Seq<char>>,
    n: int,
    reads: spec_fn(Seq<char>, Option<T>) -> bool,
)
    requires
        0 <= n < lines.len(),
        holds_properties(before, lines, n, reads),
        !is_broken_property(lines[n]),
        if is_property(lines[n]) {
            exists|value: DataValue<T>| #[trigger]
                value_fits(value, tokens_of(lines[n]), reads) && after == before.insert(
                    tokens_of(lines[n])[1],
                    value,
                )
        } else {
            after == before
        },
    ensures
        holds_properties(after, lines, n + 1, reads),
{
    assert forall|name: Seq<char>| #[trigger]
        after.contains_key(name) == (last_property(lines, n + 1, name) is Some) && (last_property(
            lines,
            n + 1,
            name,
        ) matches Some(i) ==> is_value_of(after[name], lines[i], reads)) by {
        assert(before.contains_key(name) == (last_property(lines, n, name) is Some));
    }
}

} // verus!
