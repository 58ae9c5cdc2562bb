//! What holds of the conversion to postfix notation, whatever the tokens.

use crate::rpn_resolver::give_way;
use crate::rpn_resolver::postfix_of;
use crate::rpn_resolver::shunt;
use crate::rpn_resolver::shunted;
use crate::rpn_resolver::top_goes_first;
use crate::rpn_resolver::unwind;
use crate::rpn_resolver::with_variables;
use crate::rpn_resolver::Yard;
use crate::token::Associate;
use crate::token::Bracket;
use crate::token::NumberView;
use crate::token::Operator;
use crate::token::priority_of;
use crate::token::TokenView;
use vstd::prelude::*;

verus! {

/// A token that goes straight to the output: a number or a variable.
pub open spec fn is_operand(t: TokenView) -> bool {
    t is Operand || t is Variable
}

/// The conversion takes its tokens one by one.
pub proof fn lemma_shunted_push(tokens: Seq<TokenView>, t: TokenView)
    ensures
        shunted(tokens.push(t)) == shunt(shunted(tokens), t),
{
    assert(tokens.push(t).drop_last() =~= tokens);
}

/// An operator between two operands goes behind them.
pub proof fn lemma_infix_to_postfix(a: TokenView, op: Operator, b: TokenView)
    requires
        is_operand(a),
        is_operand(b),
    ensures
        postfix_of(seq![a, TokenView::Operator(op), b]) == seq![a, b, TokenView::Operator(op)],
{
    let o = TokenView::Operator(op);
    let s0 = Seq::<TokenView>::empty();
    lemma_shunted_push(s0, a);
    lemma_shunted_push(s0.push(a), o);
    lemma_shunted_push(s0.push(a).push(o), b);
    assert(seq![a, o, b] =~= s0.push(a).push(o).push(b));
    let y1 = shunted(s0.push(a));
    assert(y1.stack =~= s0 && y1.output =~= seq![a]);
    let y2 = shunted(s0.push(a).push(o));
    assert(y2.stack =~= seq![o] && y2.output =~= seq![a]);
    let y3 = shunted(s0.push(a).push(o).push(b));
    assert(y3.stack =~= seq![o] && y3.output =~= seq![a, b]);
    assert(y3.stack.reverse() =~= seq![o]);
    assert(y3.output + y3.stack.reverse() =~= seq![a, b, o]);
}

/// Two operators of the same precedence that are left-associative group from
/// the left: the first one is applied first.
pub proof fn lemma_left_associative_grouping(
    a: TokenView,
    o1: Operator,
    b: TokenView,
    o2: Operator,
    c: TokenView,
)
    requires
        is_operand(a),
        is_operand(b),
        is_operand(c),
        priority_of(o1).0 == priority_of(o2).0,
        priority_of(o2).1 == Associate::LeftAssociative,
    ensures
        postfix_of(seq![a, TokenView::Operator(o1), b, TokenView::Operator(o2), c]) == seq![
            a,
            b,
            TokenView::Operator(o1),
            c,
            TokenView::Operator(o2),
        ],
{
    let p = TokenView::Operator(o1);
    let q = TokenView::Operator(o2);
    let s0 = Seq::<TokenView>::empty();
    lemma_shunted_push(s0, a);
    lemma_shunted_push(s0.push(a), p);
    lemma_shunted_push(s0.push(a).push(p), b);
    lemma_shunted_push(s0.push(a).push(p).push(b), q);
    lemma_shunted_push(s0.push(a).push(p).push(b).push(q), c);
    assert(seq![a, p, b, q, c] =~= s0.push(a).push(p).push(b).push(q).push(c));
    let y1 = shunted(s0.push(a));
    assert(y1.stack =~= s0 && y1.output =~= seq![a]);
    let y2 = shunted(s0.push(a).push(p));
    assert(y2.stack =~= seq![p] && y2.output =~= seq![a]);
    let y3 = shunted(s0.push(a).push(p).push(b));
    assert(y3.stack =~= seq![p] && y3.output =~= seq![a, b]);
    let g = give_way(o2, y3);
    let popped = Yard { stack: y3.stack.drop_last(), output: y3.output.push(p) };
    assert(popped.stack =~= s0);
    assert(give_way(o2, popped) == popped);
    assert(g == popped);
    let y4 = shunted(s0.push(a).push(p).push(b).push(q));
    assert(y4.stack =~= seq![q] && y4.output =~= seq![a, b, p]);
    let y5 = shunted(s0.push(a).push(p).push(b).push(q).push(c));
    assert(y5.stack =~= seq![q] && y5.output =~= seq![a, b, p, c]);
    assert(y5.stack.reverse() =~= seq![q]);
    assert(y5.output + y5.stack.reverse() =~= seq![a, b, p, c, q]);
}

/// Two powers group from the right: the second one is applied first.
pub proof fn lemma_power_grouping(a: TokenView, b: TokenView, c: TokenView)
    requires
        is_operand(a),
        is_operand(b),
        is_operand(c),
    ensures
        postfix_of(
            seq![a, TokenView::Operator(Operator::Pow), b, TokenView::Operator(Operator::Pow), c],
        ) == seq![
            a,
            b,
            c,
            TokenView::Operator(Operator::Pow),
            TokenView::Operator(Operator::Pow),
        ],
{
    let p = TokenView::Operator(Operator::Pow);
    let s0 = Seq::<TokenView>::empty();
    lemma_shunted_push(s0, a);
    lemma_shunted_push(s0.push(a), p);
    lemma_shunted_push(s0.push(a).push(p), b);
    lemma_shunted_push(s0.push(a).push(p).push(b), p);
    lemma_shunted_push(s0.push(a).push(p).push(b).push(p), c);
    assert(seq![a, p, b, p, c] =~= s0.push(a).push(p).push(b).push(p).push(c));
    let y1 = shunted(s0.push(a));
    assert(y1.stack =~= s0 && y1.output =~= seq![a]);
    let y2 = shunted(s0.push(a).push(p));
    assert(y2.stack =~= seq![p] && y2.output =~= seq![a]);
    let y3 = shunted(s0.push(a).push(p).push(b));
    assert(y3.stack =~= seq![p] && y3.output =~= seq![a, b]);
    assert(give_way(Operator::Pow, y3) == y3);
    let y4 = shunted(s0.push(a).push(p).push(b).push(p));
    assert(y4.stack =~= seq![p, p] && y4.output =~= seq![a, b]);
    let y5 = shunted(s0.push(a).push(p).push(b).push(p).push(c));
    assert(y5.stack =~= seq![p, p] && y5.output =~= seq![a, b, c]);
    assert(y5.stack.reverse() =~= seq![p, p]);
    assert(y5.output + y5.stack.reverse() =~= seq![a, b, c, p, p]);
}

/// Whether `p` holds of every token on the stack and in the output of `y`.
pub open spec fn all_hold(y: Yard, p: spec_fn(TokenView) -> bool) -> bool {
    &&& forall|t: TokenView| #[trigger] y.stack.contains(t) ==> p(t)
    &&& forall|t: TokenView| #[trigger] y.output.contains(t) ==> p(t)
}

/// What is in a sequence without its last element is in the sequence; what
/// is in a sequence with one more element is that element or was there
/// before.
pub proof fn lemma_contains_step(s: Seq<TokenView>, x: TokenView, t: TokenView)
    ensures
        s.len() > 0 && s.drop_last().contains(t) ==> s.contains(t),
        s.len() > 0 ==> s.contains(s.last()),
        s.push(x).contains(t) ==> s.contains(t) || t == x,
        s.contains(t) ==> s.push(x).contains(t),
        s.push(x).contains(x),
{
    if s.len() > 0 && s.drop_last().contains(t) {
        let i = choose|i: int| 0 <= i < s.drop_last().len() && s.drop_last()[i] == t;
        assert(s[i] == t);
    }
    if s.len() > 0 {
        assert(s[s.len() - 1] == s.last());
    }
    if s.push(x).contains(t) {
        let i = choose|i: int| 0 <= i < s.push(x).len() && s.push(x)[i] == t;
        if i < s.len() {
            assert(s[i] == t);
        }
    }
    if s.contains(t) {
        let i = choose|i: int| 0 <= i < s.len() && s[i] == t;
        assert(s.push(x)[i] == t);
    }
    assert(s.push(x)[s.len() as int] == x);
}

/// Moving the top of the stack to the output brings no new token into the
/// yard.
pub proof fn lemma_move_keeps(y: Yard, p: spec_fn(TokenView) -> bool)
    requires
        all_hold(y, p),
        y.stack.len() > 0,
    ensures
        all_hold(Yard { stack: y.stack.drop_last(), output: y.output.push(y.stack.last()) }, p),
        all_hold(Yard { stack: y.stack.drop_last(), output: y.output }, p),
{
    let top = y.stack.last();
    assert(y.stack.contains(top)) by {
        lemma_contains_step(y.stack, top, top);
    }
    assert forall|t: TokenView| #[trigger] y.stack.drop_last().contains(t) implies p(t) by {
        lemma_contains_step(y.stack, top, t);
        assert(y.stack.contains(t));
    }
    assert forall|t: TokenView| #[trigger] y.output.push(top).contains(t) implies p(t) by {
        lemma_contains_step(y.output, top, t);
        if t != top {
            assert(y.output.contains(t));
        }
    }
}

/// A closing bracket brings no new token into the yard.
pub proof fn lemma_unwind_keeps(y: Yard, p: spec_fn(TokenView) -> bool)
    requires
        all_hold(y, p),
    ensures
        all_hold(unwind(y), p),
    decreases y.stack.len(),
{
    if y.stack.len() > 0 {
        lemma_move_keeps(y, p);
        if y.stack.last() != TokenView::Bracket(Bracket::Open) {
            lemma_unwind_keeps(
                Yard { stack: y.stack.drop_last(), output: y.output.push(y.stack.last()) },
                p,
            );
        }
    }
}

/// An operator that makes others give way brings no new token into the
/// yard.
pub proof fn lemma_give_way_keeps(op: Operator, y: Yard, p: spec_fn(TokenView) -> bool)
    requires
        all_hold(y, p),
    ensures
        all_hold(give_way(op, y), p),
    decreases y.stack.len(),
{
    if y.stack.len() > 0 {
        lemma_move_keeps(y, p);
        lemma_give_way_keeps(
            op,
            Yard { stack: y.stack.drop_last(), output: y.output.push(y.stack.last()) },
            p,
        );
    }
}

/// What holds of every token that has arrived, but for the closing
/// brackets, holds of every token in the yard.
pub proof fn lemma_shunted_keeps(tokens: Seq<TokenView>, p: spec_fn(TokenView) -> bool)
    requires
        forall|i: int|
            0 <= i < tokens.len() && tokens[i] != TokenView::Bracket(Bracket::Close) ==> p(
                #[trigger] tokens[i],
            ),
    ensures
        all_hold(shunted(tokens), p),
    decreases tokens.len(),
{
    if tokens.len() > 0 {
        let init = tokens.drop_last();
        let last = tokens.last();
        let y = shunted(init);
        assert forall|i: int|
            0 <= i < init.len() && init[i] != TokenView::Bracket(Bracket::Close) implies p(
            #[trigger] init[i],
        ) by {
            assert(init[i] == tokens[i]);
        }
        lemma_shunted_keeps(init, p);
        assert(last == tokens[tokens.len() - 1]);
        match last {
            TokenView::Bracket(Bracket::Close) => {
                lemma_unwind_keeps(y, p);
            },
            TokenView::Operator(op) => {
                let z = give_way(op, y);
                lemma_give_way_keeps(op, y, p);
                assert(shunted(tokens) == (Yard { stack: z.stack.push(last), output: z.output }));
                assert forall|t: TokenView| #[trigger]
                    z.stack.push(last).contains(t) implies p(t) by {
                    lemma_contains_step(z.stack, last, t);
                    if t != last {
                        assert(z.stack.contains(t));
                    }
                }
            },
            _ => {
                let now = shunted(tokens);
                assert forall|t: TokenView| #[trigger] now.stack.contains(t) implies p(t) by {
                    lemma_contains_step(y.stack, last, t);
                    if t != last {
                        assert(y.stack.contains(t));
                    }
                }
                assert forall|t: TokenView| #[trigger] now.output.contains(t) implies p(t) by {
                    lemma_contains_step(y.output, last, t);
                    if t != last {
                        assert(y.output.contains(t));
                    }
                }
            },
        }
    }
}

/// What holds of every token of an infix sequence, but for the closing
/// brackets, holds of every token of its postfix form.
pub proof fn lemma_postfix_keeps(tokens: Seq<TokenView>, p: spec_fn(TokenView) -> bool)
    requires
        forall|i: int|
            0 <= i < tokens.len() && tokens[i] != TokenView::Bracket(Bracket::Close) ==> p(
                #[trigger] tokens[i],
            ),
    ensures
        forall|i: int| 0 <= i < postfix_of(tokens).len() ==> p(#[trigger] postfix_of(tokens)[i]),
{
    lemma_shunted_keeps(tokens, p);
    let y = shunted(tokens);
    assert forall|i: int| 0 <= i < postfix_of(tokens).len() implies p(
        #[trigger] postfix_of(tokens)[i],
    ) by {
        let t = postfix_of(tokens)[i];
        if i < y.output.len() {
            assert(y.output[i] == t);
            assert(y.output.contains(t));
        } else {
            let j = i - y.output.len();
            assert(y.stack.reverse()[j] == t);
            assert(y.stack[y.stack.len() - 1 - j] == t);
            assert(y.stack.contains(t));
        }
    }
}

/// The conversion to postfix notation makes no token: every token of the
/// postfix sequence is one of the infix sequence.
pub proof fn lemma_postfix_from_infix(tokens: Seq<TokenView>)
    ensures
        forall|i: int|
            0 <= i < postfix_of(tokens).len() ==> tokens.contains(#[trigger] postfix_of(tokens)[i]),
{
    lemma_postfix_keeps(tokens, |t: TokenView| tokens.contains(t));
}

/// No closing bracket stands in a postfix sequence.
pub proof fn lemma_postfix_has_no_closing_bracket(tokens: Seq<TokenView>)
    ensures
        forall|i: int|
            0 <= i < postfix_of(tokens).len() ==> #[trigger] postfix_of(tokens)[i]
                != TokenView::Bracket(Bracket::Close),
{
    lemma_postfix_keeps(tokens, |t: TokenView| t != TokenView::Bracket(Bracket::Close));
}

/// The numbers and variables among `tokens`, in their order.
pub open spec fn operands_of(tokens: Seq<TokenView>) -> Seq<TokenView>
    decreases tokens.len(),
{
    if tokens.len() == 0 {
        Seq::empty()
    } else if is_operand(tokens.last()) {
        operands_of(tokens.drop_last()).push(tokens.last())
    } else {
        operands_of(tokens.drop_last())
    }
}

/// The operands of a sequence with one more token.
pub proof fn lemma_operands_push(tokens: Seq<TokenView>, t: TokenView)
    ensures
        operands_of(tokens.push(t)) == if is_operand(t) {
            operands_of(tokens).push(t)
        } else {
            operands_of(tokens)
        },
{
    assert(tokens.push(t).drop_last() =~= tokens);
}

/// The operands of two sequences in a row.
pub proof fn lemma_operands_add(a: Seq<TokenView>, b: Seq<TokenView>)
    ensures
        operands_of(a + b) == operands_of(a) + operands_of(b),
    decreases b.len(),
{
    if b.len() == 0 {
        assert(a + b =~= a);
        assert(operands_of(a) + operands_of(b) =~= operands_of(a));
    } else {
        lemma_operands_add(a, b.drop_last());
        assert((a + b).drop_last() =~= a + b.drop_last());
        assert((a + b).last() == b.last());
        if is_operand(b.last()) {
            assert((operands_of(a) + operands_of(b.drop_last())).push(b.last()) =~= operands_of(a)
                + operands_of(b.drop_last()).push(b.last()));
        }
    }
}

/// A sequence without operands.
pub open spec fn has_no_operand(tokens: Seq<TokenView>) -> bool {
    forall|i: int| 0 <= i < tokens.len() ==> !is_operand(#[trigger] tokens[i])
}

/// A sequence without operands has no operands.
pub proof fn lemma_operands_none(tokens: Seq<TokenView>)
    requires
        has_no_operand(tokens),
    ensures
        operands_of(tokens) == Seq::<TokenView>::empty(),
    decreases tokens.len(),
{
    if tokens.len() > 0 {
        assert(!is_operand(tokens[tokens.len() - 1]));
        assert forall|i: int| 0 <= i < tokens.drop_last().len() implies !is_operand(
            #[trigger] tokens.drop_last()[i],
        ) by {
            assert(tokens.drop_last()[i] == tokens[i]);
        }
        lemma_operands_none(tokens.drop_last());
    }
}

/// Whether the stack of `y` holds no operand and its output holds the
/// operands `operands`.
pub open spec fn holds_operands(y: Yard, operands: Seq<TokenView>) -> bool {
    has_no_operand(y.stack) && operands_of(y.output) == operands
}

/// A closing bracket leaves the operands of the output as they are.
pub proof fn lemma_unwind_operands(y: Yard, operands: Seq<TokenView>)
    requires
        holds_operands(y, operands),
    ensures
        holds_operands(unwind(y), operands),
    decreases y.stack.len(),
{
    if y.stack.len() > 0 {
        let top = y.stack.last();
        assert(!is_operand(y.stack[y.stack.len() - 1]));
        assert forall|i: int| 0 <= i < y.stack.drop_last().len() implies !is_operand(
            #[trigger] y.stack.drop_last()[i],
        ) by {
            assert(y.stack.drop_last()[i] == y.stack[i]);
        }
        if top != TokenView::Bracket(Bracket::Open) {
            lemma_operands_push(y.output, top);
            lemma_unwind_operands(
                Yard { stack: y.stack.drop_last(), output: y.output.push(top) },
                operands,
            );
        }
    }
}

/// An operator that makes others give way leaves the operands of the output
/// as they are.
pub proof fn lemma_give_way_operands(op: Operator, y: Yard, operands: Seq<TokenView>)
    requires
        holds_operands(y, operands),
    ensures
        holds_operands(give_way(op, y), operands),
    decreases y.stack.len(),
{
    if top_goes_first(op, y.stack) {
        let top = y.stack.last();
        assert(!is_operand(y.stack[y.stack.len() - 1]));
        assert forall|i: int| 0 <= i < y.stack.drop_last().len() implies !is_operand(
            #[trigger] y.stack.drop_last()[i],
        ) by {
            assert(y.stack.drop_last()[i] == y.stack[i]);
        }
        lemma_operands_push(y.output, top);
        lemma_give_way_operands(
            op,
            Yard { stack: y.stack.drop_last(), output: y.output.push(top) },
            operands,
        );
    }
}

/// The output of the yard holds the operands that have arrived, in their
/// order, and the stack holds none.
pub proof fn lemma_shunted_operands(tokens: Seq<TokenView>)
    ensures
        holds_operands(shunted(tokens), operands_of(tokens)),
    decreases tokens.len(),
{
    if tokens.len() > 0 {
        let init = tokens.drop_last();
        let last = tokens.last();
        let y = shunted(init);
        lemma_shunted_operands(init);
        match last {
            TokenView::Bracket(Bracket::Close) => {
                lemma_unwind_operands(y, operands_of(init));
            },
            TokenView::Operator(op) => {
                let z = give_way(op, y);
                lemma_give_way_operands(op, y, operands_of(init));
                assert forall|i: int| 0 <= i < z.stack.push(last).len() implies !is_operand(
                    #[trigger] z.stack.push(last)[i],
                ) by {
                    if i < z.stack.len() {
                        assert(z.stack.push(last)[i] == z.stack[i]);
                    }
                }
            },
            TokenView::Operand(_) => {
                lemma_operands_push(y.output, last);
            },
            TokenView::Variable(_) => {
                lemma_operands_push(y.output, last);
            },
            _ => {
                assert forall|i: int| 0 <= i < y.stack.push(last).len() implies !is_operand(
                    #[trigger] y.stack.push(last)[i],
                ) by {
                    if i < y.stack.len() {
                        assert(y.stack.push(last)[i] == y.stack[i]);
                    }
                }
            },
        }
    }
}

/// The conversion to postfix notation keeps the numbers and variables in
/// their order: it moves operators, functions and brackets only.
pub proof fn lemma_operands_keep_their_order(tokens: Seq<TokenView>)
    ensures
        operands_of(postfix_of(tokens)) == operands_of(tokens),
{
    lemma_shunted_operands(tokens);
    let y = shunted(tokens);
    assert forall|i: int| 0 <= i < y.stack.reverse().len() implies !is_operand(
        #[trigger] y.stack.reverse()[i],
    ) by {
        assert(y.stack.reverse()[i] == y.stack[y.stack.len() - 1 - i]);
    }
    lemma_operands_none(y.stack.reverse());
    lemma_operands_add(y.output, y.stack.reverse());
    assert(operands_of(tokens) + Seq::<TokenView>::empty() =~= operands_of(tokens));
}

/// The environment that comes with a converted expression binds each of its
/// variables, and to the integer zero those that were not bound before.
pub proof fn lemma_variables_are_bound(
    base: Map<Seq<char>, NumberView>,
    tokens: Seq<TokenView>,
    i: int,
)
    requires
        0 <= i < tokens.len(),
        tokens[i] is Variable,
    ensures
        with_variables(base, tokens).contains_key(tokens[i]->Variable_0),
        !base.contains_key(tokens[i]->Variable_0) ==> with_variables(
            base,
            tokens,
        )[tokens[i]->Variable_0] == NumberView::Natural(0),
        forall|name: Seq<char>|
            base.contains_key(name) ==> with_variables(base, tokens).contains_key(name)
                && with_variables(base, tokens)[name] == base[name],
{
    assert(tokens.contains(tokens[i]));
}

} // verus!
