//! Splitting an expression into chunks, and the chunks into tokens.

use crate::integer::digit_char;
use crate::integer::natural_text;
use crate::token::classify;
use crate::token::Number;
use crate::token::NumberView;
use crate::token::is_symbol;
use crate::token::text_of;
use crate::token::Token;
use crate::token::token_text;
use crate::token::TokenView;
use vstd::prelude::*;
use vstd::string::StringExecFns;
use vstd::string::StrSliceExecFns;

verus! {

/// Whether `c` is white space, as Unicode defines it.
pub open spec fn is_space(c: char) -> bool {
    ||| ('\u{9}' <= c && c <= '\u{d}')
    ||| c == ' '
    ||| c == '\u{85}'
    ||| c == '\u{a0}'
    ||| c == '\u{1680}'
    ||| ('\u{2000}' <= c && c <= '\u{200a}')
    ||| c == '\u{2028}'
    ||| c == '\u{2029}'
    ||| c == '\u{202f}'
    ||| c == '\u{205f}'
    ||| c == '\u{3000}'
}

/// Whether `c` is part of a word: neither white space nor a symbol.
pub open spec fn is_word_char(c: char) -> bool {
    !is_space(c) && !is_symbol(c)
}

/// The chunks of `s`, from left to right: each symbol by itself, and each
/// longest run of word characters. White space only separates.
pub open spec fn chunks(s: Seq<char>) -> Seq<Seq<char>>
    decreases s.len(),
{
    if s.len() == 0 {
        Seq::empty()
    } else {
        let before = chunks(s.drop_last());
        let c = s.last();
        if is_space(c) {
            before
        } else if is_symbol(c) {
            before.push(seq![c])
        } else if s.len() > 1 && is_word_char(s[s.len() - 2]) {
            before.drop_last().push(before.last().push(c))
        } else {
            before.push(seq![c])
        }
    }
}

/// What each of the string slices in `v` holds.
pub open spec fn texts(v: Seq<&str>) -> Seq<Seq<char>> {
    v.map_values(|c: &str| c@)
}

/// What each of the tokens in `v` stands for.
pub open spec fn token_views<'a>(v: Seq<Token<'a>>) -> Seq<TokenView> {
    v.map_values(|t: Token<'a>| t@)
}

/// Why an expression could not be turned into tokens.
#[derive(Debug, PartialEq, Eq, Clone, Copy, Structural)]
pub enum ParseError {
    /// The chunk at this place, counted from zero, is no token: it is a
    /// decimal literal that comes without its value.
    Unrecognized(usize),
    /// There is not one decimal reading for each chunk.
    Readings,
}

/// What `e` says to a reader. The place of a chunk is counted from zero.
pub open spec fn parse_message_of(e: ParseError) -> Seq<char> {
    match e {
        ParseError::Unrecognized(at) => "chunk "@ + natural_text(at as nat)
            + " is a decimal literal that comes without its value"@,
        ParseError::Readings => "there is not one decimal reading for each chunk"@,
    }
}

/// The digit that writes `d`.
fn digit_text(d: usize) -> (r: &'static str)
    requires
        d < 10,
    ensures
        r@ == seq![digit_char(d as int)],
{
    proof {
        reveal_strlit("0");
        reveal_strlit("1");
        reveal_strlit("2");
        reveal_strlit("3");
        reveal_strlit("4");
        reveal_strlit("5");
        reveal_strlit("6");
        reveal_strlit("7");
        reveal_strlit("8");
        reveal_strlit("9");
    }
    let r = if d == 0 {
        "0"
    } else if d == 1 {
        "1"
    } else if d == 2 {
        "2"
    } else if d == 3 {
        "3"
    } else if d == 4 {
        "4"
    } else if d == 5 {
        "5"
    } else if d == 6 {
        "6"
    } else if d == 7 {
        "7"
    } else if d == 8 {
        "8"
    } else {
        "9"
    };
    assert(r@ =~= seq![digit_char(d as int)]);
    r
}

/// The decimal digits of `n`.
fn place_text(n: usize) -> (r: String)
    ensures
        r@ == natural_text(n as nat),
    decreases n,
{
    if n < 10 {
        digit_text(n).to_owned()
    } else {
        let mut r = place_text(n / 10);
        r.append(digit_text(n % 10));
        assert(r@ =~= natural_text((n / 10) as nat).push(digit_char((n % 10) as int)));
        r
    }
}

impl ParseError {
    /// What this failure says to a reader.
    pub fn message(&self) -> (r: String)
        ensures
            r@ == parse_message_of(*self),
            r@.len() > 0,
    {
        match self {
            ParseError::Unrecognized(at) => {
                let mut r = "chunk ".to_owned();
                r.append(place_text(*at).as_str());
                r.append(" is a decimal literal that comes without its value");
                proof {
                    reveal_strlit("chunk ");
                }
                r
            },
            ParseError::Readings => {
                proof {
                    reveal_strlit("there is not one decimal reading for each chunk");
                }
                "there is not one decimal reading for each chunk".to_owned()
            },
        }
    }
}

/// The text that the token at place `i` is printed as. A decimal is printed
/// as the text that comes with it in `texts`, if one does; for any other
/// token `texts` is not looked at.
pub open spec fn text_at(tokens: Seq<TokenView>, texts: Seq<Option<Seq<char>>>, i: int) -> Option<
    Seq<char>,
> {
    match tokens[i] {
        TokenView::Operand(NumberView::Decimal(_)) => if 0 <= i < texts.len() {
            texts[i]
        } else {
            None
        },
        t => token_text(t),
    }
}

/// The first `n` tokens printed in a line: their texts with one blank
/// between each two. `None` if one of them has no text.
pub open spec fn printed_upto(
    tokens: Seq<TokenView>,
    texts: Seq<Option<Seq<char>>>,
    n: int,
) -> Option<Seq<char>>
    decreases n,
{
    if n <= 0 {
        Some(Seq::empty())
    } else {
        match (printed_upto(tokens, texts, n - 1), text_at(tokens, texts, n - 1)) {
            (Some(before), Some(text)) => Some(
                if n == 1 {
                    text
                } else {
                    before + seq![' '] + text
                },
            ),
            _ => None,
        }
    }
}

/// The tokens printed in a line, where `texts` holds for each token in turn
/// the text that it is printed as, if it is a decimal. `None` if `texts`
/// has not one entry for each token, or if a decimal comes without its text.
pub open spec fn printed(tokens: Seq<TokenView>, texts: Seq<Option<Seq<char>>>) -> Option<
    Seq<char>,
> {
    if texts.len() != tokens.len() {
        None
    } else {
        printed_upto(tokens, texts, tokens.len() as int)
    }
}

/// What each of the texts in `v` holds.
pub open spec fn text_views(v: Seq<Option<String>>) -> Seq<Option<Seq<char>>> {
    v.map_values(|t: Option<String>| text_of(t))
}

/// The place of the first chunk from `from` on that is no token, or the
/// number of chunks if there is none.
pub open spec fn first_unrecognized(
    pieces: Seq<Seq<char>>,
    decimals: Seq<Option<u64>>,
    from: int,
) -> int
    decreases pieces.len() - from,
{
    if from < 0 || from >= pieces.len() {
        pieces.len() as int
    } else if classify(pieces[from], decimals[from]) is None {
        from
    } else {
        first_unrecognized(pieces, decimals, from + 1)
    }
}

/// The tokens of the expression `s`, where `decimals` holds for each chunk
/// of `s` in turn the binary64 value that it writes, if it is a decimal
/// literal. It is an error if `decimals` has not one entry for each chunk,
/// else if a chunk is no token.
pub open spec fn lexed(s: Seq<char>, decimals: Seq<Option<u64>>) -> Result<
    Seq<TokenView>,
    ParseError,
> {
    let pieces = chunks(s);
    let at = first_unrecognized(pieces, decimals, 0);
    if pieces.len() != decimals.len() {
        Err(ParseError::Readings)
    } else if at < pieces.len() {
        Err(ParseError::Unrecognized(at as usize))
    } else {
        Ok(Seq::new(pieces.len(), |i: int| classify(pieces[i], decimals[i])->0))
    }
}

/// The namespace of the splitting functions.
pub struct Parser {}

fn space(c: char) -> (r: bool)
    ensures
        r == is_space(c),
{
    ('\u{9}' <= c && c <= '\u{d}') || c == ' ' || c == '\u{85}' || c == '\u{a0}' || c
        == '\u{1680}' || ('\u{2000}' <= c && c <= '\u{200a}') || c == '\u{2028}' || c
        == '\u{2029}' || c == '\u{202f}' || c == '\u{205f}' || c == '\u{3000}'
}

fn symbol(c: char) -> (r: bool)
    ensures
        r == is_symbol(c),
{
    c == '+' || c == '-' || c == '*' || c == '/' || c == '^' || c == '!' || c == '=' || c == '('
        || c == ')' || c == '[' || c == ']'
}

impl Parser {
    /// Splits an expression into its chunks.
    pub fn split<'a>(exp: &'a str) -> (r: Vec<&'a str>)
        ensures
            texts(r@) == chunks(exp@),
    {
        let n = exp.unicode_len();
        let mut out: Vec<&'a str> = Vec::new();
        let mut start: usize = 0;
        let mut in_word = false;
        let mut i: usize = 0;
        while i < n
            invariant
                i <= n,
                n == exp@.len(),
                in_word ==> start < i && is_word_char(exp@[i - 1]),
                !in_word ==> i == 0 || !is_word_char(exp@[i - 1]),
                chunks(exp@.take(i as int)) == if in_word {
                    texts(out@).push(exp@.subrange(start as int, i as int))
                } else {
                    texts(out@)
                },
            decreases n - i,
        {
            let c = exp.get_char(i);
            let ghost prefix = exp@.take(i as int + 1);
            let ghost old_texts = texts(out@);
            proof {
                assert(prefix.drop_last() =~= exp@.take(i as int));
            }
            if space(c) {
                if in_word {
                    out.push(exp.substring_char(start, i));
                    in_word = false;
                }
            } else if symbol(c) {
                if in_word {
                    out.push(exp.substring_char(start, i));
                    in_word = false;
                }
                out.push(exp.substring_char(i, i + 1));
                assert(exp@.subrange(i as int, i + 1) =~= seq![c]);
            } else {
                if !in_word {
                    start = i;
                    in_word = true;
                    assert(exp@.subrange(start as int, i + 1) =~= seq![c]);
                } else {
                    assert(exp@.subrange(start as int, i + 1) =~= exp@.subrange(
                        start as int,
                        i as int,
                    ).push(c));
                    assert(old_texts.push(exp@.subrange(start as int, i as int)).drop_last()
                        =~= old_texts);
                }
            }
            i += 1;
        }
        assert(exp@.take(n as int) =~= exp@);
        if in_word {
            out.push(exp.substring_char(start, n));
        }
        out
    }

    /// Turns an expression into tokens. `decimals` holds, for each chunk of
    /// the expression in turn, the binary64 value that the chunk writes, by
    /// its bits; an entry is looked at only where its chunk is a decimal
    /// literal.
    ///
    /// An expression without chunks gives no tokens; that is no error here.
    pub fn parse<'a>(exp: &'a str, decimals: &Vec<Option<u64>>) -> (r: Result<
        Vec<Token<'a>>,
        ParseError,
    >)
        ensures
            match lexed(exp@, decimals@) {
                Ok(tokens) => r matches Ok(v) && token_views(v@) == tokens,
                Err(e) => r matches Err(x) && x == e,
            },
    {
        let pieces = Parser::split(exp);
        if pieces.len() != decimals.len() {
            return Err(ParseError::Readings);
        }
        let mut tokens: Vec<Token<'a>> = Vec::new();
        let mut i: usize = 0;
        while i < pieces.len()
            invariant
                i <= pieces@.len(),
                pieces@.len() == decimals@.len(),
                texts(pieces@) == chunks(exp@),
                tokens@.len() == i,
                first_unrecognized(chunks(exp@), decimals@, 0) == first_unrecognized(
                    chunks(exp@),
                    decimals@,
                    i as int,
                ),
                forall|j: int|
                    0 <= j < i ==> Some(#[trigger] tokens@[j]@) == classify(
                        chunks(exp@)[j],
                        decimals@[j],
                    ),
            decreases pieces@.len() - i,
        {
            match Token::tokenize(pieces[i], decimals[i]) {
                Some(token) => {
                    tokens.push(token);
                },
                None => {
                    return Err(ParseError::Unrecognized(i));
                },
            }
            i += 1;
        }
        Ok(tokens)
    }

    /// Prints tokens in a line, with one blank between each two. `texts`
    /// holds, for each token in turn, the text that it is printed as if it
    /// is a decimal; an entry is looked at only where its token is a
    /// decimal. `None` if there is not one entry for each token, or if a
    /// decimal comes without its text.
    pub fn print<'a>(tokens: &Vec<Token<'a>>, texts: &Vec<Option<String>>) -> (r: Option<String>)
        ensures
            text_of(r) == printed(token_views(tokens@), text_views(texts@)),
    {
        if texts.len() != tokens.len() {
            return None;
        }
        let ghost views = token_views(tokens@);
        let ghost given = text_views(texts@);
        let mut line = String::new();
        let mut i: usize = 0;
        while i < tokens.len()
            invariant
                i <= tokens@.len(),
                texts@.len() == tokens@.len(),
                views == token_views(tokens@),
                given == text_views(texts@),
                printed_upto(views, given, i as int) == Some(line@),
            decreases tokens@.len() - i,
        {
            proof {
                reveal_strlit(" ");
                assert(given[i as int] == text_of(texts@[i as int]));
                assert(views[i as int] == tokens@[i as int]@);
            }
            let text = match &tokens[i] {
                Token::Operand(Number::DecimalNumber(_)) => match &texts[i] {
                    Some(given_text) => Some(given_text.clone()),
                    None => None,
                },
                other => other.to_text(),
            };
            assert(text_of(text) == text_at(views, given, i as int));
            match text {
                Some(text) => {
                    if i > 0 {
                        line.append(" ");
                    }
                    line.append(text.as_str());
                },
                None => {
                    proof {
                        lemma_printed_prefix(views, given, i as int + 1, views.len() as int);
                    }
                    return None;
                },
            }
            i += 1;
        }
        Some(line)
    }
}

/// If the first `n` of some tokens cannot be printed, neither can the first
/// `m`, for `m` no smaller than `n`.
pub proof fn lemma_printed_prefix(
    tokens: Seq<TokenView>,
    texts: Seq<Option<Seq<char>>>,
    n: int,
    m: int,
)
    requires
        n <= m,
        printed_upto(tokens, texts, n) is None,
    ensures
        printed_upto(tokens, texts, m) is None,
    decreases m - n,
{
    if n < m {
        lemma_printed_prefix(tokens, texts, n, m - 1);
    }
}

} // verus!
