use vstd::prelude::*;
use vstd::string::*;

verus! {

/// The character classes that the grammar repeats over.
#[derive(Clone, Copy, Debug, PartialEq, Eq, Structural)]
pub enum CharClass {
    /// A space or a tab.
    Blank,
    /// An ASCII decimal digit.
    Digit,
    /// Anything but `)` and a line break: the body of a code.
    CodeText,
    /// Anything but `;` and a line break: a payee.
    PayeeText,
    /// Anything but a line break: the body of a comment.
    CommentText,
    /// A letter or a digit: one segment of an account name.
    AlphaNumeric,
    /// A digit, `,` or `.`: what follows the first digit of a quantity.
    QuantityText,
    /// Anything but `"` and a line break: the body of a quoted symbol.
    QuotedText,
    /// Anything that cannot begin a quantity, end a field or open a quote.
    UnquotedText,
}

/// What a parser expected at the position where it failed.
#[derive(Clone, Copy, Debug, PartialEq, Eq, Structural)]
pub enum Expected {
    /// This very character.
    Char(char),
    /// At least one character of this class.
    Class(CharClass),
    /// `*` or `!`.
    Status,
    /// `\n` or `\r\n`.
    LineEnding,
    /// A quoted or an unquoted symbol.
    Symbol,
    /// An amount in either order.
    Amount,
    /// A year that fits in an `i32`.
    YearInRange,
}

/// A syntax failure: the character position reached and what was expected there.
#[derive(Clone, Copy, Debug, PartialEq, Eq, Structural)]
pub struct ParseError {
    pub position: usize,
    pub expected: Expected,
}

/// The value parsed and the position right after it, or the failure.
pub type PResult<T> = Result<(T, usize), ParseError>;

/// What a parse is specified to give: a value and the position after it,
/// or the failure position and its expectation.
pub type Outcome<V> = Result<(V, int), (int, Expected)>;

/// A parse that started at `pos` stopped, by success or failure, within
/// the text and not before `pos`.
pub open spec fn within<T>(r: PResult<T>, pos: int, len: int) -> bool {
    match r {
        Ok((_, e)) => pos <= e <= len,
        Err(err) => pos <= err.position <= len,
    }
}

/// The specified outcome of a parse that started at `pos` stops within the
/// text and not before `pos`.
pub open spec fn outcome_within<V>(o: Outcome<V>, pos: int, len: int) -> bool {
    match o {
        Ok((_, e)) => pos <= e <= len,
        Err((p, _)) => pos <= p <= len,
    }
}

/// Ordered choice: the first alternative unless it failed where it started;
/// then the second, unless that too failed where it started, in which case
/// the failure names the whole production.
pub open spec fn choice<V>(first: Outcome<V>, second: Outcome<V>, pos: int, label: Expected) -> Outcome<V> {
    match first {
        Ok(a) => Ok(a),
        Err((p, x)) => if p != pos {
            Err((p, x))
        } else {
            match second {
                Ok(b) => Ok(b),
                Err((q, y)) => if q != pos {
                    Err((q, y))
                } else {
                    Err((pos, label))
                },
            }
        },
    }
}

/// The outcome that an executable parse result stands for.
pub open spec fn outcome_of<T: DeepView>(r: PResult<T>) -> Outcome<T::V> {
    match r {
        Ok((v, e)) => Ok((v.deep_view(), e as int)),
        Err(err) => Err((err.position as int, err.expected)),
    }
}

pub open spec fn is_digit(c: char) -> bool {
    '0' <= c <= '9'
}

pub open spec fn is_line_break(c: char) -> bool {
    c == '\r' || c == '\n'
}

/// Unicode's notion of a letter or a digit, as `char::is_alphanumeric` computes it.
pub uninterp spec fn alphanumeric(c: char) -> bool;

/// Relies on char::is_alphanumeric: whether the character is alphabetic or numeric.
#[verifier::external_body]
fn is_alphanumeric(c: char) -> (r: bool)
    ensures
        r == alphanumeric(c),
{
    c.is_alphanumeric()
}

pub open spec fn in_class(c: char, k: CharClass) -> bool {
    match k {
        CharClass::Blank => c == ' ' || c == '\t',
        CharClass::Digit => is_digit(c),
        CharClass::CodeText => c != ')' && !is_line_break(c),
        CharClass::PayeeText => c != ';' && !is_line_break(c),
        CharClass::CommentText => !is_line_break(c),
        CharClass::AlphaNumeric => alphanumeric(c),
        CharClass::QuantityText => is_digit(c) || c == ',' || c == '.',
        CharClass::QuotedText => c != '"' && !is_line_break(c),
        CharClass::UnquotedText => !is_digit(c) && c != '-' && c != ';' && c != ' ' && c != '"'
            && c != '\t' && !is_line_break(c),
    }
}

/// The position where the run of class `k` that starts at `pos` ends.
pub open spec fn span(s: Seq<char>, pos: int, k: CharClass) -> int
    decreases s.len() - pos,
{
    if 0 <= pos < s.len() && in_class(s[pos], k) {
        span(s, pos + 1, k)
    } else {
        pos
    }
}

/// A run ends within the text, covers only characters of its class, and
/// stops at the end of the text or at a character outside the class.
pub proof fn lemma_span(s: Seq<char>, pos: int, k: CharClass)
    requires
        0 <= pos <= s.len(),
    ensures
        pos <= span(s, pos, k) <= s.len(),
        forall|i: int| pos <= i < span(s, pos, k) ==> in_class(#[trigger] s[i], k),
        span(s, pos, k) == s.len() || !in_class(s[span(s, pos, k)], k),
    decreases s.len() - pos,
{
    if pos < s.len() && in_class(s[pos], k) {
        lemma_span(s, pos + 1, k);
    }
}

fn char_in_class(c: char, k: CharClass) -> (r: bool)
    ensures
        r == in_class(c, k),
{
    match k {
        CharClass::Blank => c == ' ' || c == '\t',
        CharClass::Digit => '0' <= c && c <= '9',
        CharClass::CodeText => c != ')' && c != '\r' && c != '\n',
        CharClass::PayeeText => c != ';' && c != '\r' && c != '\n',
        CharClass::CommentText => c != '\r' && c != '\n',
        CharClass::AlphaNumeric => is_alphanumeric(c),
        CharClass::QuantityText => ('0' <= c && c <= '9') || c == ',' || c == '.',
        CharClass::QuotedText => c != '"' && c != '\r' && c != '\n',
        CharClass::UnquotedText => !('0' <= c && c <= '9') && c != '-' && c != ';' && c != ' '
            && c != '"' && c != '\t' && c != '\r' && c != '\n',
    }
}

/// Finds the end of the run of class `k` that starts at `pos`.
pub fn scan(s: &str, pos: usize, k: CharClass) -> (end: usize)
    requires
        pos <= s@.len(),
    ensures
        end == span(s@, pos as int, k),
        pos <= end <= s@.len(),
{
    proof {
        lemma_span(s@, pos as int, k);
    }
    let n = s.unicode_len();
    let mut i: usize = pos;
    while i < n && char_in_class(s.get_char(i), k)
        invariant
            pos <= i <= n,
            n == s@.len(),
            span(s@, i as int, k) == span(s@, pos as int, k),
        decreases n - i,
    {
        i = i + 1;
    }
    i
}

/// Whether the character at `pos` exists and is `c`.
pub(crate) fn char_at_is(s: &str, pos: usize, c: char) -> (r: bool)
    ensures
        r == (pos < s@.len() && s@[pos as int] == c),
        s@.len() <= usize::MAX,
{
    pos < s.unicode_len() && s.get_char(pos) == c
}

/// Whether the character at `pos` exists and is a digit.
pub(crate) fn digit_at(s: &str, pos: usize) -> (r: bool)
    ensures
        r == (pos < s@.len() && is_digit(s@[pos as int])),
        s@.len() <= usize::MAX,
{
    pos < s.unicode_len() && char_in_class(s.get_char(pos), CharClass::Digit)
}

/// The characters of `s` from `from` up to `to`, as a new string.
pub(crate) fn text(s: &str, from: usize, to: usize) -> (r: String)
    requires
        from <= to <= s@.len(),
    ensures
        r@ == s@.subrange(from as int, to as int),
{
    s.substring_char(from, to).to_owned()
}

/// How many line feeds `s` holds.
pub open spec fn newline_count(s: Seq<char>) -> nat
    decreases s.len(),
{
    if s.len() == 0 {
        0
    } else {
        newline_count(s.drop_last()) + if s.last() == '\n' { 1nat } else { 0nat }
    }
}

/// The 1-based line on which position `pos` stands.
pub open spec fn line_at(s: Seq<char>, pos: int) -> nat {
    newline_count(s.subrange(0, pos)) + 1
}

proof fn lemma_newline_count_bound(s: Seq<char>)
    ensures
        newline_count(s) <= s.len(),
    decreases s.len(),
{
    if s.len() > 0 {
        lemma_newline_count_bound(s.drop_last());
    }
}

/// Reports the line on which `pos` stands, consuming nothing.
pub fn line_number(s: &str, pos: usize) -> (r: PResult<usize>)
    requires
        pos <= s@.len(),
        s@.len() < usize::MAX,
    ensures
        r == Ok::<(usize, usize), ParseError>((line_at(s@, pos as int) as usize, pos)),
        line_at(s@, pos as int) <= usize::MAX,
{
    let mut count: usize = 0;
    let mut i: usize = 0;
    while i < pos
        invariant
            i <= pos <= s@.len() < usize::MAX,
            count == newline_count(s@.subrange(0, i as int)),
        decreases pos - i,
    {
        proof {
            lemma_newline_count_bound(s@.subrange(0, i as int));
            assert(s@.subrange(0, i + 1).drop_last() =~= s@.subrange(0, i as int));
        }
        if s.get_char(i) == '\n' {
            count = count + 1;
        }
        i = i + 1;
    }
    proof {
        lemma_newline_count_bound(s@.subrange(0, pos as int));
    }
    Ok((count + 1, pos))
}

/// Where the line holding position `pos` begins: just after the last line
/// feed before `pos`, or at the start of the text.
pub open spec fn line_start(s: Seq<char>, pos: int) -> int
    decreases pos,
{
    if pos <= 0 {
        0
    } else if s[pos - 1] == '\n' {
        pos
    } else {
        line_start(s, pos - 1)
    }
}

proof fn lemma_line_start_bounds(s: Seq<char>, pos: int)
    requires
        0 <= pos,
    ensures
        0 <= line_start(s, pos) <= pos,
    decreases pos,
{
    if pos > 0 && s[pos - 1] != '\n' {
        lemma_line_start_bounds(s, pos - 1);
    }
}

/// Reports the 1-based column of `pos` within its line, counted in characters.
pub fn column_number(s: &str, pos: usize) -> (r: usize)
    requires
        pos <= s@.len(),
        s@.len() < usize::MAX,
    ensures
        r == pos - line_start(s@, pos as int) + 1,
{
    let mut i: usize = pos;
    while i > 0 && s.get_char(i - 1) != '\n'
        invariant
            i <= pos <= s@.len() < usize::MAX,
            line_start(s@, i as int) == line_start(s@, pos as int),
        decreases i,
    {
        i = i - 1;
    }
    proof {
        lemma_line_start_bounds(s@, pos as int);
    }
    pos - i + 1
}

/// One or more blanks.
pub open spec fn spec_whitespace(s: Seq<char>, pos: int) -> Outcome<Seq<char>> {
    let e = span(s, pos, CharClass::Blank);
    if e == pos {
        Err((pos, Expected::Class(CharClass::Blank)))
    } else {
        Ok((s.subrange(pos, e), e))
    }
}

pub proof fn lemma_whitespace_within(s: Seq<char>, pos: int)
    requires
        0 <= pos <= s.len(),
    ensures
        outcome_within(spec_whitespace(s, pos), pos, s.len() as int),
{
    lemma_span(s, pos, CharClass::Blank);
}

/// Parses one or more spaces or tabs and returns them.
pub fn whitespace(s: &str, pos: usize) -> (r: PResult<String>)
    requires
        pos <= s@.len(),
    ensures
        outcome_of(r) == spec_whitespace(s@, pos as int),
        within(r, pos as int, s@.len() as int),
{
    let e = scan(s, pos, CharClass::Blank);
    if e == pos {
        Err(ParseError { position: pos, expected: Expected::Class(CharClass::Blank) })
    } else {
        Ok((text(s, pos, e), e))
    }
}

/// A line feed, alone or after a carriage return; either way it reads as `\n`.
pub open spec fn spec_line_ending(s: Seq<char>, pos: int) -> Outcome<Seq<char>> {
    if pos < s.len() && s[pos] == '\r' {
        if pos + 1 < s.len() && s[pos + 1] == '\n' {
            Ok((seq!['\n'], pos + 2))
        } else {
            Err((pos + 1, Expected::Char('\n')))
        }
    } else if pos < s.len() && s[pos] == '\n' {
        Ok((seq!['\n'], pos + 1))
    } else {
        Err((pos, Expected::LineEnding))
    }
}

/// Parses one line ending, `\r\n` or `\n`, and returns `"\n"` for both.
pub fn line_ending(s: &str, pos: usize) -> (r: PResult<String>)
    requires
        pos <= s@.len(),
    ensures
        outcome_of(r) == spec_line_ending(s@, pos as int),
        within(r, pos as int, s@.len() as int),
{
    if char_at_is(s, pos, '\r') {
        if char_at_is(s, pos + 1, '\n') {
            let t = text(s, pos + 1, pos + 2);
            assert(t@ =~= seq!['\n']);
            Ok((t, pos + 2))
        } else {
            Err(ParseError { position: pos + 1, expected: Expected::Char('\n') })
        }
    } else if char_at_is(s, pos, '\n') {
        let t = text(s, pos, pos + 1);
        assert(t@ =~= seq!['\n']);
        Ok((t, pos + 1))
    } else {
        Err(ParseError { position: pos, expected: Expected::LineEnding })
    }
}

} // verus!
