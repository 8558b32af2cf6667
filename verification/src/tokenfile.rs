//! Splitting a line of text into whitespace-delimited tokens.
use vstd::prelude::*;
use vstd::string::StrSliceExecFns;

verus! {

/// Whether `c` has the Unicode property `White_Space`.
pub open spec fn is_space(c: char) -> bool {
    let u = c as u32;
    ||| 0x09 <= u <= 0x0D
    ||| u == 0x20
    ||| u == 0x85
    ||| u == 0xA0
    ||| u == 0x1680
    ||| 0x2000 <= u <= 0x200A
    ||| u == 0x2028
    ||| u == 0x2029
    ||| u == 0x202F
    ||| u == 0x205F
    ||| u == 0x3000
}

/// The first position at or after `i` whose character is a space
/// (`space == true`) or is not one (`space == false`); the length of `s`
/// where there is none.
pub open spec fn first_at(s: Seq<char>, i: int, space: bool) -> int
    decreases s.len() - i,
{
    if i < 0 || i >= s.len() || is_space(s[i]) == space {
        i
    } else {
        first_at(s, i + 1, space)
    }
}

/// The tokens of `s` that start at or after position `i`: the maximal runs
/// of characters that are not spaces, in the order in which they occur.
pub open spec fn tokens_from(s: Seq<char>, i: int) -> Seq<Seq<char>>
    decreases s.len() - i,
    when 0 <= i
    via tokens_from_decreases
{
    let start = first_at(s, i, false);
    if start >= s.len() {
        Seq::empty()
    } else {
        let end = first_at(s, start + 1, true);
        seq![s.subrange(start, end)] + tokens_from(s, end)
    }
}

#[via_fn]
proof fn tokens_from_decreases(s: Seq<char>, i: int) {
    let start = first_at(s, i, false);
    if 0 <= i <= s.len() {
        lemma_first_at(s, i, false);
        if start < s.len() {
            lemma_first_at(s, start + 1, true);
        }
    }
}

/// The tokens of a line.
pub open spec fn tokens_of(s: Seq<char>) -> Seq<Seq<char>> {
    tokens_from(s, 0)
}

/// `first_at` stays within the text, does not go backwards, stops where it
/// says and skips nothing that it looks for.
pub proof fn lemma_first_at(s: Seq<char>, i: int, space: bool)
    requires
        0 <= i <= s.len(),
    ensures
        i <= first_at(s, i, space) <= s.len(),
        first_at(s, i, space) < s.len() ==> is_space(s[first_at(s, i, space)]) == space,
        forall|k: int| i <= k < first_at(s, i, space) ==> is_space(#[trigger] s[k]) != space,
    decreases s.len() - i,
{
    if i < s.len() && is_space(s[i]) != space {
        lemma_first_at(s, i + 1, space);
    }
}

/// Whether `c` is a space.
pub fn is_whitespace(c: char) -> (b: bool)
    ensures
        b == is_space(c),
{
    let u: u32 = c as u32;
    (0x09 <= u && u <= 0x0D) || u == 0x20 || u == 0x85 || u == 0xA0 || u == 0x1680 || (0x2000 <= u
        && u <= 0x200A) || u == 0x2028 || u == 0x2029 || u == 0x202F || u == 0x205F || u == 0x3000
}

/// The characters of `line`, one by one.
pub fn chars_of(line: &str) -> (out: Vec<char>)
    ensures
        out@ == line@,
{
    let mut out: Vec<char> = Vec::new();
    for c in it: line.chars()
        invariant
            out@ == it.seq().take(it.index()),
            it.seq() == line@,
    {
        out.push(c);
    }
    out
}

/// The views of a list of strings.
pub open spec fn texts(v: Seq<String>) -> Seq<Seq<char>> {
    Seq::new(v.len(), |i: int| v[i]@)
}

/// The first position at or after `from` whose character is a space, or is
/// not one, as `space` says.
fn scan(chars: &Vec<char>, from: usize, space: bool) -> (at: usize)
    requires
        from <= chars.len(),
    ensures
        at == first_at(chars@, from as int, space),
        from <= at <= chars.len(),
{
    let mut at: usize = from;
    while at < chars.len() && is_whitespace(chars[at]) != space
        invariant
            from <= at <= chars.len(),
            first_at(chars@, from as int, space) == first_at(chars@, at as int, space),
        decreases chars.len() - at,
    {
        at += 1;
    }
    at
}

/// Splits `line` at its spaces: the tokens of the line, in order.
pub fn split_whitespace(line: &str) -> (out: Vec<String>)
    ensures
        texts(out@) == tokens_of(line@),
{
    let chars = chars_of(line);
    let mut out: Vec<String> = Vec::new();
    let mut at: usize = 0;
    loop
        invariant
            chars@ == line@,
            at <= chars.len(),
            tokens_of(line@) == texts(out@) + tokens_from(line@, at as int),
        ensures
            texts(out@) == tokens_of(line@),
        decreases chars.len() - at,
    {
        let start = scan(&chars, at, false);
        if start >= chars.len() {
            break ;
        }
        let end = scan(&chars, start + 1, true);
        let token = line.substring_char(start, end).to_owned();
        proof {
            assert(texts(out@.push(token)) == texts(out@) + seq![line@.subrange(
                start as int,
                end as int,
            )]);
        }
        out.push(token);
        at = end;
    }
    out
}

/// The first position at or after `i` whose character is no double quote;
/// the length of `s` where there is none.
pub open spec fn lead(s: Seq<char>, i: int) -> int
    decreases s.len() - i,
{
    if i < 0 || i >= s.len() || s[i] != '"' {
        i
    } else {
        lead(s, i + 1)
    }
}

/// The end of the part of `s[..n]` that stays when the double quotes at its
/// end are taken off.
pub open spec fn trail(s: Seq<char>, n: int) -> int
    decreases n,
{
    if n <= 0 || n > s.len() || s[n - 1] != '"' {
        n
    } else {
        trail(s, n - 1)
    }
}

/// `s` without the double quotes at its start and at its end.
pub open spec fn trim_quotes(s: Seq<char>) -> Seq<char> {
    let start = lead(s, 0);
    if start >= s.len() {
        Seq::empty()
    } else {
        s.subrange(start, trail(s, s.len() as int))
    }
}

/// `token` without the double quotes at its start and at its end.
pub fn trim_matches_quote(token: &str) -> (out: String)
    ensures
        out@ == trim_quotes(token@),
{
    let chars = chars_of(token);
    let mut start: usize = 0;
    while start < chars.len() && chars[start] == '"'
        invariant
            start <= chars.len(),
            lead(chars@, 0) == lead(chars@, start as int),
        decreases chars.len() - start,
    {
        start += 1;
    }
    if start >= chars.len() {
        return String::new();
    }
    let mut end: usize = chars.len();
    while end > start && chars[end - 1] == '"'
        invariant
            start < end <= chars.len(),
            chars@[start as int] != '"',
            trail(chars@, chars.len() as int) == trail(chars@, end as int),
        decreases end,
    {
        end -= 1;
    }
    token.substring_char(start, end).to_owned()
}

/// A line of text that owns its characters and is split at its spaces on
/// demand.
pub struct SplitWhitespaceOwned(String);

impl SplitWhitespaceOwned {
    /// The characters of the line.
    pub closed spec fn line(&self) -> Seq<char> {
        self.0@
    }

    /// Wraps a line.
    pub fn new(line: String) -> (out: Self)
        ensures
            out.line() == line@,
    {
        SplitWhitespaceOwned(line)
    }

    /// The tokens of the line, in order.
    pub fn into_iter(&self) -> (out: Vec<String>)
        ensures
            texts(out@) == tokens_of(self.line()),
    {
        split_whitespace(self.0.as_str())
    }
}

/// The lines that were read from the file at a path, each one ready to be
/// split into its tokens: as many as there are lines, in their order.
pub fn tokens_from_path(lines: &Vec<String>) -> (out: Vec<SplitWhitespaceOwned>)
    ensures
        out@.len() == lines@.len(),
        forall|i: int| 0 <= i < lines@.len() ==> (#[trigger] out@[i]).line() == lines@[i]@,
{
    let mut out: Vec<SplitWhitespaceOwned> = Vec::new();
    let mut i: usize = 0;
    while i < lines.len()
        invariant
            i <= lines@.len(),
            out@.len() == i,
            forall|k: int| 0 <= k < i ==> (#[trigger] out@[k]).line() == lines@[k]@,
        decreases lines@.len() - i,
    {
        out.push(SplitWhitespaceOwned::new(lines[i].clone()));
        i += 1;
    }
    out
}

} // verus!
