//! What holds of splitting, reading and printing, whatever the text.

use crate::integer::digit_char;
use crate::integer::digit_value;
use crate::integer::digits_value;
use crate::integer::integer_literal;
use crate::integer::is_digit;
use crate::integer::is_digit_run;
use crate::integer::natural_text;
use crate::integer::unsigned_part;
use crate::laws::conversion::lemma_postfix_from_infix;
use crate::laws::evaluation::functions_are_written;
use crate::laws::evaluation::is_written_token;
use crate::laws::evaluation::natural;
use crate::literal::is_decimal_literal;
use crate::literal::lemma_symbol_is_no_literal;
use crate::parser::chunks;
use crate::parser::first_unrecognized;
use crate::parser::is_space;
use crate::parser::is_word_char;
use crate::parser::lexed;
use crate::parser::ParseError;
use crate::parser::printed;
use crate::parser::printed_upto;
use crate::parser::text_at;
use crate::rpn_resolver::at_rest;
use crate::rpn_resolver::parsed;
use crate::rpn_resolver::postfix_of;
use crate::rpn_resolver::ResolverView;
use crate::rpn_resolver::with_variables;
use crate::token::classify;
use crate::token::function_named;
use crate::token::is_symbol;
use crate::token::lacks_value;
use crate::token::NumberView;
use crate::token::Operator;
use crate::token::operator_symbol;
use crate::token::TokenView;
use vstd::prelude::*;

verus! {

/// White space after a text adds no chunk.
pub proof fn lemma_chunks_space(s: Seq<char>, c: char)
    requires
        is_space(c),
    ensures
        chunks(s.push(c)) == chunks(s),
{
    assert(s.push(c).drop_last() =~= s);
}

/// A symbol after a text is a chunk of its own.
pub proof fn lemma_chunks_symbol(s: Seq<char>, c: char)
    requires
        is_symbol(c),
    ensures
        chunks(s.push(c)) == chunks(s).push(seq![c]),
{
    assert(s.push(c).drop_last() =~= s);
}

/// A word after a text that does not end in a word character is a chunk of
/// its own.
pub proof fn lemma_chunks_word(s: Seq<char>, w: Seq<char>)
    requires
        w.len() > 0,
        forall|i: int| 0 <= i < w.len() ==> is_word_char(#[trigger] w[i]),
        s.len() == 0 || !is_word_char(s.last()),
    ensures
        chunks(s + w) == chunks(s).push(w),
    decreases w.len(),
{
    let c = w.last();
    let init = w.drop_last();
    assert((s + w).drop_last() =~= s + init);
    assert((s + w).last() == c);
    assert(is_word_char(c));
    if init.len() == 0 {
        assert(s + init =~= s);
        assert(w =~= seq![c]);
        if s.len() > 0 {
            assert((s + w)[(s + w).len() - 2] == s.last());
        }
    } else {
        assert forall|i: int| 0 <= i < init.len() implies is_word_char(#[trigger] init[i]) by {
            assert(init[i] == w[i]);
        }
        lemma_chunks_word(s, init);
        assert((s + w)[(s + w).len() - 2] == init.last());
        assert(init.last() == w[w.len() - 2]);
        assert(chunks(s).push(init).drop_last() =~= chunks(s));
        assert(init.push(c) =~= w);
    }
}

/// The digits of a natural number are a run of digits that writes it.
pub proof fn lemma_natural_text(n: nat)
    ensures
        natural_text(n).len() > 0,
        forall|i: int| 0 <= i < natural_text(n).len() ==> is_digit(#[trigger] natural_text(n)[i]),
        digits_value(natural_text(n)) == n,
    decreases n,
{
    if n < 10 {
        let c = digit_char(n as int);
        assert(is_digit(c));
        assert(digit_value(c) == n);
        assert(natural_text(n) =~= seq![c]);
        assert(seq![c].drop_last() =~= Seq::<char>::empty());
        assert(digits_value(Seq::<char>::empty()) == 0);
    } else {
        lemma_natural_text(n / 10);
        let c = digit_char((n % 10) as int);
        let init = natural_text(n / 10);
        assert(is_digit(c));
        assert(digit_value(c) == n % 10);
        assert(init.push(c).drop_last() =~= init);
        assert(c != '_');
    }
}

/// The digits of a natural number are read back as that number.
pub proof fn lemma_natural_text_is_read_back(n: nat, decimal: Option<u64>)
    ensures
        integer_literal(natural_text(n)) == Some(n as int),
        classify(natural_text(n), decimal) == Some(natural(n as int)),
        forall|i: int|
            0 <= i < natural_text(n).len() ==> is_word_char(#[trigger] natural_text(n)[i]),
{
    lemma_natural_text(n);
    let text = natural_text(n);
    assert(is_digit(text[0]));
    assert(unsigned_part(text) == text);
    assert(is_digit_run(text));
    assert forall|i: int| 0 <= i < text.len() implies is_word_char(#[trigger] text[i]) by {
        assert(is_digit(text[i]));
    }
}

/// The symbol of an operator other than negation is read back as that
/// operator.
pub proof fn lemma_operator_symbol_is_read_back(op: Operator, decimal: Option<u64>)
    requires
        op != Operator::Une,
    ensures
        is_symbol(operator_symbol(op)),
        classify(seq![operator_symbol(op)], decimal) == Some(TokenView::Operator(op)),
{
}

/// Whether the token at place `i` reads back as itself from its text: it is
/// an integer that is not negative, or an operator other than negation, or
/// a decimal whose text is a word and a decimal literal, and whose reading
/// is the decimal itself.
pub open spec fn reads_back(
    tokens: Seq<TokenView>,
    texts: Seq<Option<Seq<char>>>,
    decimals: Seq<Option<u64>>,
    i: int,
) -> bool {
    match tokens[i] {
        TokenView::Operand(NumberView::Natural(v)) => v >= 0,
        TokenView::Operator(op) => op != Operator::Une,
        TokenView::Operand(NumberView::Decimal(bits)) => {
            &&& texts[i] matches Some(w)
            &&& w.len() > 0
            &&& is_word(w)
            &&& integer_literal(w) is None
            &&& is_decimal_literal(w)
            &&& decimals[i] == Some(bits)
        },
        _ => false,
    }
}

/// Whether each of the tokens reads back as itself.
pub open spec fn all_read_back(
    tokens: Seq<TokenView>,
    texts: Seq<Option<Seq<char>>>,
    decimals: Seq<Option<u64>>,
) -> bool {
    &&& texts.len() == tokens.len()
    &&& decimals.len() == tokens.len()
    &&& forall|i: int| 0 <= i < tokens.len() ==> #[trigger] reads_back(tokens, texts, decimals, i)
}

/// The texts of the first `n` tokens, one by one.
pub open spec fn texts_of(tokens: Seq<TokenView>, texts: Seq<Option<Seq<char>>>, n: int) -> Seq<
    Seq<char>,
> {
    Seq::new(n as nat, |i: int| text_at(tokens, texts, i)->0)
}

/// The chunks of a printed line are the texts of its tokens.
pub proof fn lemma_chunks_of_printed(
    tokens: Seq<TokenView>,
    texts: Seq<Option<Seq<char>>>,
    decimals: Seq<Option<u64>>,
    n: int,
)
    requires
        all_read_back(tokens, texts, decimals),
        0 <= n <= tokens.len(),
    ensures
        printed_upto(tokens, texts, n) is Some,
        chunks(printed_upto(tokens, texts, n)->0) == texts_of(tokens, texts, n),
    decreases n,
{
    if n == 0 {
        assert(texts_of(tokens, texts, n) =~= Seq::empty());
    } else {
        let t = tokens[n - 1];
        assert(reads_back(tokens, texts, decimals, n - 1));
        lemma_chunks_of_printed(tokens, texts, decimals, n - 1);
        let before = printed_upto(tokens, texts, n - 1)->0;
        let text = text_at(tokens, texts, n - 1)->0;
        let blank = if n == 1 {
            before
        } else {
            before.push(' ')
        };
        if n == 1 {
            assert(before =~= Seq::empty());
        } else {
            lemma_chunks_space(before, ' ');
            assert(before + seq![' '] =~= before.push(' '));
        }
        assert(chunks(blank) == texts_of(tokens, texts, n - 1));
        assert(blank.len() == 0 || !is_word_char(blank.last()));
        match t {
            TokenView::Operand(NumberView::Natural(v)) => {
                lemma_natural_text_is_read_back(v as nat, None);
                lemma_natural_text(v as nat);
                lemma_chunks_word(blank, text);
            },
            TokenView::Operand(NumberView::Decimal(_)) => {
                lemma_chunks_word(blank, text);
            },
            TokenView::Operator(op) => {
                lemma_chunks_symbol(blank, operator_symbol(op));
                assert(blank + text =~= blank.push(operator_symbol(op)));
            },
            _ => {},
        }
        assert(printed_upto(tokens, texts, n)->0 =~= blank + text);
        assert(texts_of(tokens, texts, n - 1).push(text) =~= texts_of(tokens, texts, n));
    }
}

/// Where every chunk from `from` on is a token, none is reported.
pub proof fn lemma_all_recognized(pieces: Seq<Seq<char>>, decimals: Seq<Option<u64>>, from: int)
    requires
        0 <= from,
        forall|i: int|
            from <= i < pieces.len() ==> (#[trigger] classify(pieces[i], decimals[i])) is Some,
    ensures
        first_unrecognized(pieces, decimals, from) == pieces.len(),
    decreases pieces.len() - from,
{
    if from < pieces.len() {
        assert(classify(pieces[from], decimals[from]) is Some);
        lemma_all_recognized(pieces, decimals, from + 1);
    }
}

/// Printing and reading back: a sequence of integers that are not
/// negative, of operators other than negation, and of decimals, printed in
/// a line, is read back as the same sequence. So the line is parsed into
/// the same resolver as the sequence would be, and evaluates as the
/// sequence does.
///
/// Of a decimal this asks that the text it is printed as is a word and a
/// decimal literal, and that the reading of that text is the decimal
/// itself. Whether a way of printing and reading decimals meets this is
/// floating-point work, and not decided here. For integers and operators
/// the texts and readings do not matter.
///
/// A negative integer does not read back: its sign is read as the operator
/// `-`. Nor does negation, whose symbol `#` is read as a name, nor a
/// decimal whose text is an integer literal, which is read as an integer.
pub proof fn lemma_print_and_read_back(
    tokens: Seq<TokenView>,
    texts: Seq<Option<Seq<char>>>,
    decimals: Seq<Option<u64>>,
    base: Map<Seq<char>, NumberView>,
)
    requires
        all_read_back(tokens, texts, decimals),
    ensures
        printed(tokens, texts) is Some,
        lexed(printed(tokens, texts)->0, decimals) == Ok::<Seq<TokenView>, ParseError>(tokens),
        parsed(printed(tokens, texts)->0, decimals, base) == Ok::<ResolverView, ParseError>(
            at_rest(postfix_of(tokens), with_variables(base, tokens)),
        ),
{
    lemma_chunks_of_printed(tokens, texts, decimals, tokens.len() as int);
    let line = printed(tokens, texts)->0;
    let pieces = chunks(line);
    assert(pieces == texts_of(tokens, texts, tokens.len() as int));
    assert forall|i: int| 0 <= i < pieces.len() implies (#[trigger] classify(
        pieces[i],
        decimals[i],
    )) == Some(tokens[i]) by {
        assert(reads_back(tokens, texts, decimals, i));
        match tokens[i] {
            TokenView::Operand(NumberView::Natural(v)) => {
                lemma_natural_text_is_read_back(v as nat, decimals[i]);
            },
            TokenView::Operand(NumberView::Decimal(_)) => {
                let w = pieces[i];
                assert(is_word_char(w[0]));
            },
            TokenView::Operator(op) => {
                lemma_operator_symbol_is_read_back(op, decimals[i]);
            },
            _ => {},
        }
    }
    lemma_all_recognized(pieces, decimals, 0);
    assert(Seq::new(pieces.len(), |i: int| classify(pieces[i], decimals[i])->0) =~= tokens);
}

/// Only functions with a written name are read from a text, so only they
/// stand in the postfix sequence of a parsed expression.
pub proof fn lemma_parsed_functions_are_written(
    s: Seq<char>,
    decimals: Seq<Option<u64>>,
    base: Map<Seq<char>, NumberView>,
)
    ensures
        lexed(s, decimals) matches Ok(tokens) ==> functions_are_written(tokens),
        parsed(s, decimals, base) matches Ok(view) ==> functions_are_written(view.tokens),
{
    if let Ok(tokens) = lexed(s, decimals) {
        let pieces = chunks(s);
        assert forall|i: int| 0 <= i < tokens.len() implies is_written_token(
            #[trigger] tokens[i],
        ) by {
            assert(tokens[i] == classify(pieces[i], decimals[i])->0);
            lemma_recognized_from(pieces, decimals, 0, i);
            if let TokenView::Function(f) = tokens[i] {
                assert(function_named(pieces[i]) == Some(f));
            }
        }
        lemma_postfix_from_infix(tokens);
        let post = postfix_of(tokens);
        assert forall|i: int| 0 <= i < post.len() implies is_written_token(#[trigger] post[i]) by {
            assert(tokens.contains(post[i]));
            let j = choose|j: int| 0 <= j < tokens.len() && tokens[j] == post[i];
            assert(is_written_token(tokens[j]));
        }
    }
}

/// Where no chunk from `from` on is reported, the chunk at `i` is a token.
pub proof fn lemma_recognized_from(
    pieces: Seq<Seq<char>>,
    decimals: Seq<Option<u64>>,
    from: int,
    i: int,
)
    requires
        0 <= from <= i < pieces.len(),
        first_unrecognized(pieces, decimals, from) >= pieces.len(),
    ensures
        classify(pieces[i], decimals[i]) is Some,
    decreases pieces.len() - from,
{
    if from < i {
        lemma_recognized_from(pieces, decimals, from + 1, i);
    }
}

/// A chunk as an expression is split into them: one symbol, or a word.
pub open spec fn is_chunk(c: Seq<char>) -> bool {
    c.len() > 0 && ((c.len() == 1 && is_symbol(c[0])) || is_word(c))
}

/// A text of word characters only.
pub open spec fn is_word(c: Seq<char>) -> bool {
    forall|j: int| 0 <= j < c.len() ==> is_word_char(#[trigger] c[j])
}

/// Every chunk of a text is one symbol or a word that is not empty; and a
/// text that ends in a word character ends in a chunk that is a word.
pub proof fn lemma_chunks_shape(s: Seq<char>)
    ensures
        forall|i: int| 0 <= i < chunks(s).len() ==> is_chunk(#[trigger] chunks(s)[i]),
        s.len() > 0 && is_word_char(s.last()) ==> chunks(s).len() > 0 && is_word(
            chunks(s).last(),
        ),
    decreases s.len(),
{
    if s.len() > 0 {
        let init = s.drop_last();
        let c = s.last();
        let before = chunks(init);
        lemma_chunks_shape(init);
        if is_space(c) {
            // The chunks are those of the text before.
        } else if is_symbol(c) {
            assert forall|i: int| 0 <= i < chunks(s).len() implies is_chunk(
                #[trigger] chunks(s)[i],
            ) by {
                if i < before.len() {
                    assert(chunks(s)[i] == before[i]);
                } else {
                    assert(chunks(s)[i] =~= seq![c]);
                }
            }
        } else if s.len() > 1 && is_word_char(s[s.len() - 2]) {
            assert(init.last() == s[s.len() - 2]);
            let word = before.last().push(c);
            assert forall|j: int| 0 <= j < word.len() implies is_word_char(#[trigger] word[j]) by {
                if j < before.last().len() {
                    assert(word[j] == before.last()[j]);
                }
            }
            assert forall|i: int| 0 <= i < chunks(s).len() implies is_chunk(
                #[trigger] chunks(s)[i],
            ) by {
                if i < before.len() - 1 {
                    assert(chunks(s)[i] == before[i]);
                } else {
                    assert(chunks(s)[i] == word);
                }
            }
            assert(chunks(s).last() == word);
        } else {
            let word = seq![c];
            assert(is_word(word));
            assert forall|i: int| 0 <= i < chunks(s).len() implies is_chunk(
                #[trigger] chunks(s)[i],
            ) by {
                if i < before.len() {
                    assert(chunks(s)[i] == before[i]);
                } else {
                    assert(chunks(s)[i] =~= word);
                }
            }
            assert(chunks(s).last() =~= word);
        }
    }
}

/// Every chunk that is not empty is a token, a variable name if nothing
/// else; but a decimal literal needs its value.
pub proof fn lemma_classify_is_total(s: Seq<char>, decimal: Option<u64>)
    ensures
        classify(s, decimal) is None <==> s.len() == 0 || lacks_value(s, decimal),
        decimal is Some ==> (classify(s, decimal) is None <==> s.len() == 0),
{
    if s.len() == 1 && is_symbol(s[0]) {
        assert(s =~= seq![s[0]]);
        lemma_symbol_is_no_literal(s[0]);
    }
}

/// When an expression is not read: the chunk that is reported is a decimal
/// literal that comes without its value. Every other chunk is a token, so
/// with a value for each decimal literal every expression is read.
pub proof fn lemma_unrecognized(s: Seq<char>, decimals: Seq<Option<u64>>)
    requires
        decimals.len() == chunks(s).len(),
        lexed(s, decimals) is Err,
    ensures
        ({
            let at = first_unrecognized(chunks(s), decimals, 0);
            &&& 0 <= at < chunks(s).len()
            &&& lacks_value(chunks(s)[at], decimals[at])
        }),
{
    let pieces = chunks(s);
    let at = first_unrecognized(pieces, decimals, 0);
    lemma_first_unrecognized(pieces, decimals, 0);
    lemma_chunks_shape(s);
    let chunk = pieces[at];
    assert(is_chunk(chunk));
}

/// With one entry for each chunk, and a value for each decimal literal,
/// every expression is read: there is no text that is refused for what it
/// holds.
pub proof fn lemma_every_expression_is_read(s: Seq<char>, decimals: Seq<Option<u64>>)
    requires
        decimals.len() == chunks(s).len(),
        forall|i: int|
            0 <= i < chunks(s).len() && is_decimal_literal(#[trigger] chunks(s)[i])
                ==> decimals[i] is Some,
    ensures
        lexed(s, decimals) is Ok,
{
    let pieces = chunks(s);
    lemma_chunks_shape(s);
    assert forall|i: int| 0 <= i < pieces.len() implies (#[trigger] classify(
        pieces[i],
        decimals[i],
    )) is Some by {
        assert(is_chunk(pieces[i]));
        lemma_classify_is_total(pieces[i], decimals[i]);
    }
    lemma_all_recognized(pieces, decimals, 0);
}

/// The first chunk that is reported is no token, and lies within the
/// chunks.
pub proof fn lemma_first_unrecognized(
    pieces: Seq<Seq<char>>,
    decimals: Seq<Option<u64>>,
    from: int,
)
    requires
        0 <= from,
    ensures
        from <= first_unrecognized(pieces, decimals, from) || first_unrecognized(
            pieces,
            decimals,
            from,
        ) == pieces.len(),
        first_unrecognized(pieces, decimals, from) < pieces.len() ==> classify(
            pieces[first_unrecognized(pieces, decimals, from)],
            decimals[first_unrecognized(pieces, decimals, from)],
        ) is None,
    decreases pieces.len() - from,
{
    if from < pieces.len() && classify(pieces[from], decimals[from]) is Some {
        lemma_first_unrecognized(pieces, decimals, from + 1);
    }
}

} // verus!
