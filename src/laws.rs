use vstd::prelude::*;
use crate::calculator::ExprCalculator;
use crate::operation::PrimitiveHandler;
use crate::error::Failure;
use crate::lexer::{last_significant, LexState, State};
use crate::operation::OperationType;
use crate::parser::{AstNode, ParseState, StackItem};
use crate::token::TokenView;

verus! {

impl<T, H: PrimitiveHandler<T>> ExprCalculator<T, H> {
    /// `x A y B z` for two infix operators `A`, `B` and three literals.
    pub open spec fn chain(
        &self,
        x: T,
        a: usize,
        pa: usize,
        y: T,
        b: usize,
        pb: usize,
        z: T,
    ) -> Seq<TokenView<T>> {
        seq![
            TokenView::Primitive { pos: 0, val: x, original: Seq::empty() },
            TokenView::Operation { pos: pa, index: a, signature: self.ops()[a as int].signature@ },
            TokenView::Primitive { pos: 0, val: y, original: Seq::empty() },
            TokenView::Operation { pos: pb, index: b, signature: self.ops()[b as int].signature@ },
            TokenView::Primitive { pos: 0, val: z, original: Seq::empty() },
        ]
    }
}

/// Priority decides the shape of `x A y B z`: when `B` has the higher priority it is nested
/// as the right operand of `A`; otherwise (equal priorities included) `A` is reduced first and
/// becomes the left operand of `B`.
pub proof fn lemma_priority_shapes_chain<T, H: PrimitiveHandler<T>>(
    calc: &ExprCalculator<T, H>,
    x: T,
    a: usize,
    pa: usize,
    y: T,
    b: usize,
    pb: usize,
    z: T,
    end: usize,
)
    requires
        calc.wf(),
        a < calc.ops().len(),
        b < calc.ops().len(),
        calc.ops()[a as int].op_type == OperationType::Infix,
        calc.ops()[b as int].op_type == OperationType::Infix,
    ensures
        calc.ops()[a as int].priority < calc.ops()[b as int].priority ==> calc.build(
            calc.chain(x, a, pa, y, b, pb, z),
            end,
        ) == Ok::<AstNode<T>, Failure<T>>(
            AstNode::Binary {
                op: a,
                pos: pa,
                left: Box::new(AstNode::Leaf { val: x }),
                right: Box::new(
                    AstNode::Binary {
                        op: b,
                        pos: pb,
                        left: Box::new(AstNode::Leaf { val: y }),
                        right: Box::new(AstNode::Leaf { val: z }),
                    },
                ),
            },
        ),
        calc.ops()[a as int].priority >= calc.ops()[b as int].priority ==> calc.build(
            calc.chain(x, a, pa, y, b, pb, z),
            end,
        ) == Ok::<AstNode<T>, Failure<T>>(
            AstNode::Binary {
                op: b,
                pos: pb,
                left: Box::new(
                    AstNode::Binary {
                        op: a,
                        pos: pa,
                        left: Box::new(AstNode::Leaf { val: x }),
                        right: Box::new(AstNode::Leaf { val: y }),
                    },
                ),
                right: Box::new(AstNode::Leaf { val: z }),
            },
        ),
{
    assert(calc.ops()[a as int].wf());
    assert(calc.ops()[b as int].wf());
    let toks = calc.chain(x, a, pa, y, b, pb, z);
    let lx = AstNode::Leaf { val: x };
    let ly = AstNode::Leaf { val: y };
    let lz = AstNode::Leaf { val: z };
    let empty = Seq::<StackItem>::empty();
    let s0 = ParseState { stack: empty, operands: Seq::<AstNode<T>>::empty() };
    let s1 = ParseState { stack: empty, operands: seq![lx] };
    assert(calc.pop_tighter(empty, seq![lx], calc.ops()[a as int].priority) == Ok::<
        ParseState<T>,
        Failure<T>,
    >(s1));
    let sa = seq![StackItem::Op { index: a, pos: pa }];
    let s2 = ParseState { stack: sa, operands: seq![lx] };
    let s3 = ParseState { stack: sa, operands: seq![lx, ly] };
    assert(calc.parse_step(s0, toks[0]) == Ok::<ParseState<T>, Failure<T>>(s1));
    assert(calc.parse_step(s1, toks[1]) == Ok::<ParseState<T>, Failure<T>>(s2));
    assert(seq![lx].push(ly) =~= seq![lx, ly]);
    assert(calc.parse_step(s2, toks[2]) == Ok::<ParseState<T>, Failure<T>>(s3));
    let t1 = toks.drop_first();
    let t2 = t1.drop_first();
    let t3 = t2.drop_first();
    let t4 = t3.drop_first();
    let t5 = t4.drop_first();
    assert(t5.len() == 0);
    assert(t1[0] == toks[1] && t2[0] == toks[2] && t3[0] == toks[3] && t4[0] == toks[4]);
    let xy = AstNode::Binary { op: a, pos: pa, left: Box::new(lx), right: Box::new(ly) };
    if calc.ops()[a as int].priority < calc.ops()[b as int].priority {
        assert(calc.pop_tighter(sa, seq![lx, ly], calc.ops()[b as int].priority) == Ok::<
            ParseState<T>,
            Failure<T>,
        >(s3));
        let sab = seq![StackItem::Op { index: a, pos: pa }, StackItem::Op { index: b, pos: pb }];
        let s4 = ParseState { stack: sab, operands: seq![lx, ly] };
        let s5 = ParseState { stack: sab, operands: seq![lx, ly, lz] };
        assert(sa.push(StackItem::Op { index: b, pos: pb }) =~= sab);
        assert(seq![lx, ly].push(lz) =~= seq![lx, ly, lz]);
        assert(calc.parse_step(s3, toks[3]) == Ok::<ParseState<T>, Failure<T>>(s4));
        assert(calc.parse_step(s4, toks[4]) == Ok::<ParseState<T>, Failure<T>>(s5));
        assert(calc.parse_from(s5, t5) == Ok::<ParseState<T>, Failure<T>>(s5));
        assert(calc.parse_from(s4, t4) == Ok::<ParseState<T>, Failure<T>>(s5));
        assert(calc.parse_from(s3, t3) == Ok::<ParseState<T>, Failure<T>>(s5));
        assert(calc.parse_from(s2, t2) == Ok::<ParseState<T>, Failure<T>>(s5));
        assert(calc.parse_from(s1, t1) == Ok::<ParseState<T>, Failure<T>>(s5));
        assert(calc.parse_from(s0, toks) == Ok::<ParseState<T>, Failure<T>>(s5));
        let yz = AstNode::Binary { op: b, pos: pb, left: Box::new(ly), right: Box::new(lz) };
        assert(calc.reduce(seq![lx, ly, lz], b, pb) == Ok::<Seq<AstNode<T>>, Failure<T>>(seq![lx, yz])) by {
            assert(seq![lx, ly, lz].subrange(0, 1).push(yz) =~= seq![lx, yz]);
        }
        let whole = AstNode::Binary { op: a, pos: pa, left: Box::new(lx), right: Box::new(yz) };
        assert(calc.reduce(seq![lx, yz], a, pa) == Ok::<Seq<AstNode<T>>, Failure<T>>(seq![whole])) by {
            assert(seq![lx, yz].subrange(0, 0).push(whole) =~= seq![whole]);
        }
        assert(sab.drop_last() =~= sa);
        assert(sa.drop_last() =~= empty);
        assert(calc.drain(empty, seq![whole], end) == Ok::<Seq<AstNode<T>>, Failure<T>>(seq![whole]));
        assert(calc.drain(sa, seq![lx, yz], end) == Ok::<Seq<AstNode<T>>, Failure<T>>(seq![whole]));
        assert(calc.drain(sab, seq![lx, ly, lz], end) == Ok::<Seq<AstNode<T>>, Failure<T>>(
            seq![whole],
        ));
    } else {
        assert(calc.reduce(seq![lx, ly], a, pa) == Ok::<Seq<AstNode<T>>, Failure<T>>(seq![xy])) by {
            assert(seq![lx, ly].subrange(0, 0).push(xy) =~= seq![xy]);
        }
        assert(sa.drop_last() =~= empty);
        let s3b = ParseState { stack: empty, operands: seq![xy] };
        assert(calc.pop_tighter(empty, seq![xy], calc.ops()[b as int].priority) == Ok::<
            ParseState<T>,
            Failure<T>,
        >(s3b));
        assert(calc.pop_tighter(sa, seq![lx, ly], calc.ops()[b as int].priority) == Ok::<
            ParseState<T>,
            Failure<T>,
        >(s3b));
        let sb = seq![StackItem::Op { index: b, pos: pb }];
        let s4 = ParseState { stack: sb, operands: seq![xy] };
        let s5 = ParseState { stack: sb, operands: seq![xy, lz] };
        assert(empty.push(StackItem::Op { index: b, pos: pb }) =~= sb);
        assert(seq![xy].push(lz) =~= seq![xy, lz]);
        assert(calc.parse_step(s3, toks[3]) == Ok::<ParseState<T>, Failure<T>>(s4));
        assert(calc.parse_step(s4, toks[4]) == Ok::<ParseState<T>, Failure<T>>(s5));
        assert(calc.parse_from(s5, t5) == Ok::<ParseState<T>, Failure<T>>(s5));
        assert(calc.parse_from(s4, t4) == Ok::<ParseState<T>, Failure<T>>(s5));
        assert(calc.parse_from(s3, t3) == Ok::<ParseState<T>, Failure<T>>(s5));
        assert(calc.parse_from(s2, t2) == Ok::<ParseState<T>, Failure<T>>(s5));
        assert(calc.parse_from(s1, t1) == Ok::<ParseState<T>, Failure<T>>(s5));
        assert(calc.parse_from(s0, toks) == Ok::<ParseState<T>, Failure<T>>(s5));
        let whole = AstNode::Binary { op: b, pos: pb, left: Box::new(xy), right: Box::new(lz) };
        assert(calc.reduce(seq![xy, lz], b, pb) == Ok::<Seq<AstNode<T>>, Failure<T>>(seq![whole])) by {
            assert(seq![xy, lz].subrange(0, 0).push(whole) =~= seq![whole]);
        }
        assert(sb.drop_last() =~= empty);
        assert(calc.drain(empty, seq![whole], end) == Ok::<Seq<AstNode<T>>, Failure<T>>(seq![whole]));
        assert(calc.drain(sb, seq![xy, lz], end) == Ok::<Seq<AstNode<T>>, Failure<T>>(seq![whole]));
    }
}

/// Empty input is reported as an empty expression, not as a structural error.
pub proof fn lemma_empty_input<T, H: PrimitiveHandler<T>>(calc: &ExprCalculator<T, H>)
    requires
        calc.wf(),
    ensures
        calc.evaluate(Seq::empty()) == Err::<T, Failure<T>>(Failure::Empty),
{
    let input = Seq::<char>::empty();
    let init = LexState::<T> { out: Seq::empty(), state: State::Empty, start: 0 };
    assert(calc.lex(input) == Ok::<Seq<TokenView<T>>, TokenView<T>>(Seq::empty()));
    let ps = ParseState::<T> { stack: Seq::empty(), operands: Seq::empty() };
    assert(calc.parse_from(ps, Seq::empty()) == Ok::<ParseState<T>, Failure<T>>(ps));
    assert(last_significant(Seq::<TokenView<T>>::empty()) is None);
}

/// Lexing a run of spaces that has begun yields one whitespace token holding all of it.
proof fn lemma_lex_spaces<T, H: PrimitiveHandler<T>>(calc: &ExprCalculator<T, H>, input: Seq<char>, i: int)
    requires
        1 <= i <= input.len(),
        forall|k: int| 0 <= k < input.len() ==> input[k] == ' ',
    ensures
        calc.lex_from(LexState { out: Seq::empty(), state: State::WhiteSpace, start: 0 }, input, i)
            == Ok::<Seq<TokenView<T>>, TokenView<T>>(
            seq![TokenView::WhiteSpace { pos: 0, val: input }],
        ),
    decreases input.len() - i,
{
    let st = LexState::<T> { out: Seq::empty(), state: State::WhiteSpace, start: 0 };
    if i == input.len() {
        assert(input.subrange(0, input.len() as int) =~= input);
        assert(Seq::<TokenView<T>>::empty().push(TokenView::WhiteSpace { pos: 0, val: input }) =~= seq![
            TokenView::WhiteSpace { pos: 0, val: input },
        ]);
    } else {
        assert(calc.lex_step(st, input, i) == Ok::<LexState<T>, TokenView<T>>(st));
        lemma_lex_spaces(calc, input, i + 1);
    }
}

/// Input of spaces only is reported as an empty expression, not as a structural error.
pub proof fn lemma_whitespace_input<T, H: PrimitiveHandler<T>>(calc: &ExprCalculator<T, H>, input: Seq<char>)
    requires
        calc.wf(),
        1 <= input.len() <= usize::MAX,
        forall|k: int| 0 <= k < input.len() ==> input[k] == ' ',
    ensures
        calc.evaluate(input) == Err::<T, Failure<T>>(Failure::Empty),
{
    let init = LexState::<T> { out: Seq::empty(), state: State::Empty, start: 0 };
    let st = LexState::<T> { out: Seq::empty(), state: State::WhiteSpace, start: 0 };
    assert(calc.lex_step(init, input, 0) == Ok::<LexState<T>, TokenView<T>>(st));
    lemma_lex_spaces(calc, input, 1);
    let ws = TokenView::<T>::WhiteSpace { pos: 0, val: input };
    let toks = seq![ws];
    assert(calc.lex(input) == Ok::<Seq<TokenView<T>>, TokenView<T>>(toks));
    let ps = ParseState::<T> { stack: Seq::empty(), operands: Seq::empty() };
    assert(toks.drop_first() =~= Seq::<TokenView<T>>::empty());
    assert(calc.parse_from(ps, toks.drop_first()) == Ok::<ParseState<T>, Failure<T>>(ps));
    assert(calc.parse_from(ps, toks) == Ok::<ParseState<T>, Failure<T>>(ps));
    assert(toks.drop_last() =~= Seq::<TokenView<T>>::empty());
    assert(last_significant(Seq::<TokenView<T>>::empty()) is None);
    assert(last_significant(toks) is None);
}

/// Lexing a literal that has begun, where every longer prefix still begins a literal, yields
/// one token holding the whole literal.
proof fn lemma_lex_literal<T, H: PrimitiveHandler<T>>(calc: &ExprCalculator<T, H>, input: Seq<char>, v: T, i: int)
    requires
        1 <= i <= input.len(),
        forall|k: int| 1 <= k <= input.len() ==> calc.handler.is_literal_prefix(#[trigger] input.take(k)),
        calc.handler.parses_to(input) == Ok::<T, ()>(v),
    ensures
        calc.lex_from(LexState { out: Seq::empty(), state: State::Primitive, start: 0 }, input, i)
            == Ok::<Seq<TokenView<T>>, TokenView<T>>(
            seq![TokenView::Primitive { pos: 0, val: v, original: input }],
        ),
    decreases input.len() - i,
{
    let st = LexState::<T> { out: Seq::empty(), state: State::Primitive, start: 0 };
    if i == input.len() {
        assert(input.subrange(0, input.len() as int) =~= input);
        assert(Seq::<TokenView<T>>::empty().push(TokenView::Primitive { pos: 0, val: v, original: input })
            =~= seq![TokenView::Primitive { pos: 0, val: v, original: input }]);
    } else {
        assert(input.subrange(0, i).push(input[i]) =~= input.take(i + 1));
        assert(calc.lex_step(st, input, i) == Ok::<LexState<T>, TokenView<T>>(st));
        lemma_lex_literal(calc, input, v, i + 1);
    }
}

/// Input made of one literal evaluates to that literal's value. The literal starts with no
/// space or parenthesis and each of its prefixes begins a literal, so the lexer reads it whole.
pub proof fn lemma_single_literal<T, H: PrimitiveHandler<T>>(calc: &ExprCalculator<T, H>, input: Seq<char>, v: T)
    requires
        calc.wf(),
        1 <= input.len() <= usize::MAX,
        input[0] != ' ' && input[0] != '(' && input[0] != ')',
        forall|k: int| 1 <= k <= input.len() ==> calc.handler.is_literal_prefix(#[trigger] input.take(k)),
        calc.handler.parses_to(input) == Ok::<T, ()>(v),
    ensures
        calc.evaluate(input) == Ok::<T, Failure<T>>(v),
{
    let init = LexState::<T> { out: Seq::empty(), state: State::Empty, start: 0 };
    let st = LexState::<T> { out: Seq::empty(), state: State::Primitive, start: 0 };
    assert(input.take(1) =~= seq![input[0]]);
    assert(calc.lex_step(init, input, 0) == Ok::<LexState<T>, TokenView<T>>(st));
    lemma_lex_literal(calc, input, v, 1);
    let tok = TokenView::Primitive { pos: 0, val: v, original: input };
    let toks = seq![tok];
    assert(calc.lex(input) == Ok::<Seq<TokenView<T>>, TokenView<T>>(toks));
    let ps = ParseState::<T> { stack: Seq::empty(), operands: Seq::empty() };
    let leaf = AstNode::Leaf { val: v };
    let ps1 = ParseState::<T> { stack: Seq::empty(), operands: seq![leaf] };
    assert(Seq::<AstNode<T>>::empty().push(leaf) =~= seq![leaf]);
    assert(calc.parse_step(ps, tok) == Ok::<ParseState<T>, Failure<T>>(ps1));
    assert(toks.drop_first() =~= Seq::<TokenView<T>>::empty());
    assert(calc.parse_from(ps1, toks.drop_first()) == Ok::<ParseState<T>, Failure<T>>(ps1));
    assert(calc.parse_from(ps, toks) == Ok::<ParseState<T>, Failure<T>>(ps1));
    assert(calc.build(toks, input.len() as usize) == Ok::<AstNode<T>, Failure<T>>(leaf));
}

impl<T, H: PrimitiveHandler<T>> ExprCalculator<T, H> {
    /// Fully parenthesized tokens of a tree: `(l op r)`, `(op c)` or `(c op)` for each operator node.
    pub open spec fn parenthesized(&self, node: AstNode<T>) -> Seq<TokenView<T>>
        decreases node,
    {
        let open = TokenView::Open { pos: 0 };
        let close = TokenView::Close { pos: 0 };
        match node {
            AstNode::Leaf { val } => seq![TokenView::Primitive { pos: 0, val, original: Seq::empty() }],
            AstNode::Unary { op, pos, child } => {
                let o = TokenView::Operation {
                    pos,
                    index: op,
                    signature: self.ops()[op as int].signature@,
                };
                if self.ops()[op as int].op_type == OperationType::Postfix {
                    seq![open] + self.parenthesized(*child) + seq![o, close]
                } else {
                    seq![open, o] + self.parenthesized(*child) + seq![close]
                }
            },
            AstNode::Binary { op, pos, left, right } => {
                let o = TokenView::Operation {
                    pos,
                    index: op,
                    signature: self.ops()[op as int].signature@,
                };
                seq![open] + self.parenthesized(*left) + seq![o] + self.parenthesized(*right) + seq![close]
            },
        }
    }
}

/// Reading one token, then the rest.
proof fn lemma_parse_cons<T, H: PrimitiveHandler<T>>(calc: &ExprCalculator<T, H>, ps: ParseState<T>, t: TokenView<T>, rest: Seq<TokenView<T>>)
    ensures
        calc.parse_from(ps, seq![t] + rest) == match calc.parse_step(ps, t) {
            Ok(next) => calc.parse_from(next, rest),
            Err(e) => Err(e),
        },
{
    let all = seq![t] + rest;
    assert(all[0] == t);
    assert(all.drop_first() =~= rest);
}

/// The tokens of a parenthesized tree push exactly that tree onto the operand stack.
proof fn lemma_parse_parenthesized<T, H: PrimitiveHandler<T>>(
    calc: &ExprCalculator<T, H>,
    node: AstNode<T>,
    stack: Seq<StackItem>,
    operands: Seq<AstNode<T>>,
    rest: Seq<TokenView<T>>,
)
    requires
        calc.wf(),
        calc.tree_wf(node),
    ensures
        calc.parse_from(ParseState { stack, operands }, calc.parenthesized(node) + rest)
            == calc.parse_from(ParseState { stack, operands: operands.push(node) }, rest),
    decreases node,
{
    let ps = ParseState { stack, operands };
    let open = TokenView::<T>::Open { pos: 0 };
    let close = TokenView::<T>::Close { pos: 0 };
    let marked = stack.push(StackItem::Paren { pos: 0 });
    match node {
        AstNode::Leaf { val } => {
            let t = TokenView::Primitive { pos: 0, val, original: Seq::empty() };
            lemma_parse_cons(calc, ps, t, rest);
        },
        AstNode::Unary { op, pos, child } => {
            let c = *child;
            assert(calc.ops()[op as int].wf());
            let o = TokenView::Operation { pos, index: op, signature: calc.ops()[op as int].signature@ };
            let pending = marked.push(StackItem::Op { index: op, pos });
            let closed = ParseState { stack, operands: operands.push(node) };
            let after_close = close_paren_unary(calc, stack, operands, op, pos, c);
            if calc.ops()[op as int].op_type == OperationType::Postfix {
                assert(calc.parenthesized(node) + rest =~= seq![open] + (calc.parenthesized(c) + (seq![o]
                    + (seq![close] + rest))));
                lemma_parse_cons(calc, ps, open, calc.parenthesized(c) + (seq![o] + (seq![close] + rest)));
                lemma_parse_parenthesized(calc, c, marked, operands, seq![o] + (seq![close] + rest));
                let inner = ParseState { stack: marked, operands: operands.push(c) };
                assert(calc.pop_tighter(marked, operands.push(c), calc.ops()[op as int].priority) == Ok::<
                    ParseState<T>,
                    Failure<T>,
                >(inner));
                lemma_parse_cons(calc, inner, o, seq![close] + rest);
                lemma_parse_cons(
                    calc,
                    ParseState { stack: pending, operands: operands.push(c) },
                    close,
                    rest,
                );
            } else {
                assert(calc.parenthesized(node) + rest =~= seq![open] + (seq![o] + (calc.parenthesized(c)
                    + (seq![close] + rest))));
                lemma_parse_cons(calc, ps, open, seq![o] + (calc.parenthesized(c) + (seq![close] + rest)));
                lemma_parse_cons(
                    calc,
                    ParseState { stack: marked, operands },
                    o,
                    calc.parenthesized(c) + (seq![close] + rest),
                );
                lemma_parse_parenthesized(calc, c, pending, operands, seq![close] + rest);
                lemma_parse_cons(
                    calc,
                    ParseState { stack: pending, operands: operands.push(c) },
                    close,
                    rest,
                );
            }
        },
        AstNode::Binary { op, pos, left, right } => {
            let l = *left;
            let r = *right;
            assert(calc.ops()[op as int].wf());
            let o = TokenView::Operation { pos, index: op, signature: calc.ops()[op as int].signature@ };
            let pending = marked.push(StackItem::Op { index: op, pos });
            assert(calc.parenthesized(node) + rest =~= seq![open] + (calc.parenthesized(l) + (seq![o] + (
            calc.parenthesized(r) + (seq![close] + rest)))));
            lemma_parse_cons(
                calc,
                ps,
                open,
                calc.parenthesized(l) + (seq![o] + (calc.parenthesized(r) + (seq![close] + rest))),
            );
            lemma_parse_parenthesized(
                calc,
                l,
                marked,
                operands,
                seq![o] + (calc.parenthesized(r) + (seq![close] + rest)),
            );
            let inner = ParseState { stack: marked, operands: operands.push(l) };
            assert(calc.pop_tighter(marked, operands.push(l), calc.ops()[op as int].priority) == Ok::<
                ParseState<T>,
                Failure<T>,
            >(inner));
            lemma_parse_cons(calc, inner, o, calc.parenthesized(r) + (seq![close] + rest));
            lemma_parse_parenthesized(calc, r, pending, operands.push(l), seq![close] + rest);
            let both = operands.push(l).push(r);
            assert(both.subrange(0, both.len() - 2) =~= operands);
            assert(calc.reduce(both, op, pos) == Ok::<Seq<AstNode<T>>, Failure<T>>(operands.push(node)));
            assert(pending.drop_last() == marked);
            assert(marked.drop_last() =~= stack);
            assert(calc.close_paren(marked, operands.push(node), 0) == Ok::<ParseState<T>, Failure<T>>(
                ParseState { stack, operands: operands.push(node) },
            ));
            assert(calc.close_paren(pending, both, 0) == Ok::<ParseState<T>, Failure<T>>(
                ParseState { stack, operands: operands.push(node) },
            ));
            lemma_parse_cons(calc, ParseState { stack: pending, operands: both }, close, rest);
        },
    }
}

/// Closing the parenthesis of a one-operand node reduces it onto the operand stack.
proof fn close_paren_unary<T, H: PrimitiveHandler<T>>(
    calc: &ExprCalculator<T, H>,
    stack: Seq<StackItem>,
    operands: Seq<AstNode<T>>,
    op: usize,
    pos: usize,
    c: AstNode<T>,
) -> (closed: ParseState<T>)
    requires
        op < calc.ops().len(),
        calc.ops()[op as int].operands == 1,
    ensures
        closed == (ParseState {
            stack,
            operands: operands.push(AstNode::Unary { op, pos, child: Box::new(c) }),
        }),
        calc.close_paren(
            stack.push(StackItem::Paren { pos: 0 }).push(StackItem::Op { index: op, pos }),
            operands.push(c),
            0,
        ) == Ok::<ParseState<T>, Failure<T>>(closed),
{
    let marked = stack.push(StackItem::Paren { pos: 0 });
    let pending = marked.push(StackItem::Op { index: op, pos });
    let node = AstNode::Unary { op, pos, child: Box::new(c) };
    assert(operands.push(c).drop_last() =~= operands);
    assert(calc.reduce(operands.push(c), op, pos) == Ok::<Seq<AstNode<T>>, Failure<T>>(operands.push(node)));
    assert(pending.drop_last() == marked);
    assert(marked.drop_last() =~= stack);
    assert(calc.close_paren(marked, operands.push(node), 0) == Ok::<ParseState<T>, Failure<T>>(
        ParseState { stack, operands: operands.push(node) },
    ));
    ParseState { stack, operands: operands.push(node) }
}

/// Fully parenthesized operator applications build back exactly the tree they were written
/// from, so the value computed from them is the value of that tree evaluated directly.
pub proof fn lemma_parenthesized_round_trip<T, H: PrimitiveHandler<T>>(calc: &ExprCalculator<T, H>, node: AstNode<T>, end: usize)
    requires
        calc.wf(),
        calc.tree_wf(node),
    ensures
        calc.build(calc.parenthesized(node), end) == Ok::<AstNode<T>, Failure<T>>(node),
        calc.build(calc.parenthesized(node), end) matches Ok(tree) && calc.eval(tree) == calc.eval(node),
{
    let init = ParseState::<T> { stack: Seq::empty(), operands: Seq::empty() };
    lemma_parse_parenthesized(calc, node, Seq::empty(), Seq::empty(), Seq::empty());
    assert(calc.parenthesized(node) + Seq::empty() =~= calc.parenthesized(node));
    let done = ParseState::<T> { stack: Seq::empty(), operands: seq![node] };
    assert(Seq::<AstNode<T>>::empty().push(node) =~= seq![node]);
    assert(calc.parse_from(done, Seq::empty()) == Ok::<ParseState<T>, Failure<T>>(done));
}

/// No parenthesis marker is pending on the stack.
pub open spec fn no_paren(stack: Seq<StackItem>) -> bool {
    forall|k: int| 0 <= k < stack.len() ==> #[trigger] stack[k] is Op
}

/// Reading `a` then `b` is reading `a + b`.
proof fn lemma_parse_concat<T, H: PrimitiveHandler<T>>(calc: &ExprCalculator<T, H>, ps: ParseState<T>, a: Seq<TokenView<T>>, b: Seq<TokenView<T>>)
    ensures
        calc.parse_from(ps, a + b) == match calc.parse_from(ps, a) {
            Ok(mid) => calc.parse_from(mid, b),
            Err(e) => Err(e),
        },
    decreases a.len(),
{
    if a.len() == 0 {
        assert(a + b =~= b);
    } else {
        assert((a + b)[0] == a[0]);
        assert((a + b).drop_first() =~= a.drop_first() + b);
        match calc.parse_step(ps, a[0]) {
            Ok(next) => lemma_parse_concat(calc, next, a.drop_first(), b),
            Err(_) => {},
        }
    }
}

/// With no marker pending, `)` reduces every pending operator and then finds the stack empty.
proof fn lemma_close_without_marker<T, H: PrimitiveHandler<T>>(
    calc: &ExprCalculator<T, H>,
    stack: Seq<StackItem>,
    operands: Seq<AstNode<T>>,
    pos: usize,
    end: usize,
)
    requires
        no_paren(stack),
        calc.drain(stack, operands, end) is Ok,
    ensures
        calc.close_paren(stack, operands, pos) == Err::<ParseState<T>, Failure<T>>(
            Failure::Parse { pos, text: seq![')'] },
        ),
    decreases stack.len(),
{
    if stack.len() > 0 {
        assert(stack[stack.len() - 1] is Op);
        let top = stack.last();
        let rest = calc.reduce(operands, top->Op_index, top->Op_pos)->Ok_0;
        assert(no_paren(stack.drop_last())) by {
            assert forall|k: int| 0 <= k < stack.drop_last().len() implies #[trigger] stack.drop_last()[k] is Op by {
                assert(stack.drop_last()[k] == stack[k]);
            }
        }
        lemma_close_without_marker(calc, stack.drop_last(), rest, pos, end);
    }
}

/// A `)` that no `(` before it matches is reported at its own position, provided the tokens
/// before it are otherwise well formed: they parse, and their pending operators all reduce.
pub proof fn lemma_unmatched_close<T, H: PrimitiveHandler<T>>(
    calc: &ExprCalculator<T, H>,
    before: Seq<TokenView<T>>,
    pos: usize,
    after: Seq<TokenView<T>>,
    end: usize,
)
    requires
        calc.wf(),
        calc.parse_from(ParseState { stack: Seq::empty(), operands: Seq::empty() }, before) matches Ok(
            ps,
        ) && no_paren(ps.stack) && calc.drain(ps.stack, ps.operands, end) is Ok,
    ensures
        calc.build(before + (seq![TokenView::Close { pos }] + after), end) == Err::<AstNode<T>, Failure<T>>(
            Failure::Parse { pos, text: seq![')'] },
        ),
        forall|input: Seq<char>|
            #![auto]
            calc.lex(input) == Ok::<_, TokenView<T>>(before + (seq![TokenView::Close { pos }] + after))
                && input.len() == end ==> calc.evaluate(input) == Err::<T, Failure<T>>(
                Failure::Parse { pos, text: seq![')'] },
            ),
{
    let init = ParseState::<T> { stack: Seq::empty(), operands: Seq::empty() };
    let ps = calc.parse_from(init, before)->Ok_0;
    let close = TokenView::<T>::Close { pos };
    lemma_parse_concat(calc, init, before, seq![close] + after);
    lemma_parse_cons(calc, ps, close, after);
    lemma_close_without_marker(calc, ps.stack, ps.operands, pos, end);
}

/// At the end of input, operators above the topmost marker are reduced and the marker
/// itself is reported at offset `end`.
proof fn lemma_drain_to_marker<T, H: PrimitiveHandler<T>>(
    calc: &ExprCalculator<T, H>,
    lower: Seq<StackItem>,
    p: usize,
    upper: Seq<StackItem>,
    operands: Seq<AstNode<T>>,
    end: usize,
)
    requires
        no_paren(upper),
        calc.drain(upper, operands, end) is Ok,
    ensures
        calc.drain(lower.push(StackItem::Paren { pos: p }) + upper, operands, end) == Err::<
            Seq<AstNode<T>>,
            Failure<T>,
        >(Failure::Parse { pos: end, text: Seq::empty() }),
    decreases upper.len(),
{
    let stack = lower.push(StackItem::Paren { pos: p }) + upper;
    if upper.len() == 0 {
        assert(stack =~= lower.push(StackItem::Paren { pos: p }));
    } else {
        assert(upper[upper.len() - 1] is Op);
        assert(stack.last() == upper.last());
        let top = upper.last();
        let rest = calc.reduce(operands, top->Op_index, top->Op_pos)->Ok_0;
        assert(stack.drop_last() =~= lower.push(StackItem::Paren { pos: p }) + upper.drop_last());
        assert(no_paren(upper.drop_last())) by {
            assert forall|k: int| 0 <= k < upper.drop_last().len() implies #[trigger] upper.drop_last()[k] is Op by {
                assert(upper.drop_last()[k] == upper[k]);
            }
        }
        lemma_drain_to_marker(calc, lower, p, upper.drop_last(), rest, end);
    }
}

/// A `(` left open is reported at the end of input, provided the operators after it all reduce.
pub proof fn lemma_unclosed_open<T, H: PrimitiveHandler<T>>(
    calc: &ExprCalculator<T, H>,
    toks: Seq<TokenView<T>>,
    lower: Seq<StackItem>,
    p: usize,
    upper: Seq<StackItem>,
    end: usize,
)
    requires
        calc.wf(),
        calc.parse_from(ParseState { stack: Seq::empty(), operands: Seq::empty() }, toks) matches Ok(ps)
            && ps.stack == lower.push(StackItem::Paren { pos: p }) + upper && calc.drain(
            upper,
            ps.operands,
            end,
        ) is Ok,
        no_paren(upper),
    ensures
        calc.build(toks, end) == Err::<AstNode<T>, Failure<T>>(Failure::Parse { pos: end, text: Seq::empty() }),
        forall|input: Seq<char>|
            #![auto]
            calc.lex(input) == Ok::<_, TokenView<T>>(toks) && input.len() == end ==> calc.evaluate(input)
                == Err::<T, Failure<T>>(Failure::Parse { pos: end, text: Seq::empty() }),
{
    let init = ParseState::<T> { stack: Seq::empty(), operands: Seq::empty() };
    let ps = calc.parse_from(init, toks)->Ok_0;
    lemma_drain_to_marker(calc, lower, p, upper, ps.operands, end);
}

/// The tokens spell out `input` up to offset `k`: read from the last one back, each token's
/// text is the input from its position on, and the next token starts where it ends.
pub open spec fn spells<T>(toks: Seq<TokenView<T>>, input: Seq<char>, k: int) -> bool
    decreases toks.len(),
{
    if toks.len() == 0 {
        k == 0
    } else {
        let t = toks.last();
        &&& t.pos() <= k <= input.len()
        &&& input.subrange(t.pos() as int, k) == t.text()
        &&& spells(toks.drop_last(), input, t.pos() as int)
    }
}

proof fn lemma_spells_push<T>(toks: Seq<TokenView<T>>, t: TokenView<T>, input: Seq<char>, k: int)
    requires
        spells(toks, input, t.pos() as int),
        t.pos() <= k <= input.len(),
        input.subrange(t.pos() as int, k) == t.text(),
    ensures
        spells(toks.push(t), input, k),
{
    assert(toks.push(t).drop_last() =~= toks);
}

impl<T, H: PrimitiveHandler<T>> ExprCalculator<T, H> {
    /// What holds of the lexer between characters: emitted tokens spell the input up to the
    /// pending text, which runs from `start` to `i`.
    pub open spec fn lex_spelled(&self, st: LexState<T>, input: Seq<char>, i: int) -> bool {
        &&& 0 <= st.start <= i <= input.len() <= usize::MAX
        &&& st.state == State::Empty ==> spells(st.out, input, i)
        &&& st.state != State::Empty ==> spells(st.out, input, st.start) && st.start < i
    }
}

proof fn lemma_start_token_spells<T, H: PrimitiveHandler<T>>(
    calc: &ExprCalculator<T, H>,
    out: Seq<TokenView<T>>,
    input: Seq<char>,
    i: int,
)
    requires
        0 <= i < input.len() <= usize::MAX,
        spells(out, input, i),
    ensures
        calc.start_token(out, i, input[i]) matches Ok(next) ==> calc.lex_spelled(next, input, i + 1),
{
    let c = input[i];
    if c == '(' || c == ')' {
        let t = if c == '(' {
            TokenView::<T>::Open { pos: i as usize }
        } else {
            TokenView::<T>::Close { pos: i as usize }
        };
        assert(input.subrange(i, i + 1) =~= t.text());
        lemma_spells_push(out, t, input, i + 1);
    }
}

proof fn lemma_collect_spells<T, H: PrimitiveHandler<T>>(
    calc: &ExprCalculator<T, H>,
    st: LexState<T>,
    input: Seq<char>,
    k: int,
)
    requires
        0 <= st.start <= k <= input.len() <= usize::MAX,
        st.state == State::Empty ==> spells(st.out, input, k),
        st.state != State::Empty ==> spells(st.out, input, st.start),
    ensures
        calc.collect(st, input.subrange(st.start, k)) matches Ok(next) ==> spells(next.out, input, k),
{
    let buf = input.subrange(st.start, k);
    match calc.collect(st, buf) {
        Ok(next) => {
            if st.state != State::Empty {
                assert(next.out.len() == st.out.len() + 1);
                let t = next.out.last();
                assert(next.out == st.out.push(t));
                assert(t.pos() == st.start && t.text() == buf);
                lemma_spells_push(st.out, t, input, k);
            }
        },
        Err(_) => {},
    }
}

proof fn lemma_lex_from_spells<T, H: PrimitiveHandler<T>>(
    calc: &ExprCalculator<T, H>,
    st: LexState<T>,
    input: Seq<char>,
    i: int,
)
    requires
        calc.lex_spelled(st, input, i),
    ensures
        calc.lex_from(st, input, i) matches Ok(toks) ==> spells(toks, input, input.len() as int),
    decreases input.len() - i,
{
    if i >= input.len() {
        lemma_collect_spells(calc, st, input, input.len() as int);
    } else {
        let c = input[i];
        let buf = input.subrange(st.start, i);
        if st.state == State::Empty {
            lemma_start_token_spells(calc, st.out, input, i);
        } else if calc.extends(st.state, buf.push(c), c) {
        } else if st.state == State::Primitive && calc.is_operation_prefix(buf.push(c)) {
        } else {
            lemma_collect_spells(calc, st, input, i);
            match calc.collect(st, buf) {
                Ok(next) => lemma_start_token_spells(calc, next.out, input, i),
                Err(_) => {},
            }
        }
        match calc.lex_step(st, input, i) {
            Ok(next) => lemma_lex_from_spells(calc, next, input, i + 1),
            Err(_) => {},
        }
    }
}

/// The tokens of an input spell it out: every token's position is the offset of its first
/// character, its text is the input from there, and the tokens cover the input without gaps.
pub proof fn lemma_tokens_spell_input<T, H: PrimitiveHandler<T>>(calc: &ExprCalculator<T, H>, input: Seq<char>)
    requires
        input.len() <= usize::MAX,
    ensures
        calc.lex(input) matches Ok(toks) ==> spells(toks, input, input.len() as int),
{
    let init = LexState::<T> { out: Seq::empty(), state: State::Empty, start: 0 };
    lemma_lex_from_spells(calc, init, input, 0);
}

/// Tokens that spell out the input each stand at their own text.
pub proof fn lemma_spelled_token_at<T>(toks: Seq<TokenView<T>>, input: Seq<char>, k: int, j: int)
    requires
        spells(toks, input, k),
        0 <= j < toks.len(),
    ensures
        toks[j].pos() + toks[j].text().len() <= input.len(),
        input.subrange(toks[j].pos() as int, toks[j].pos() + toks[j].text().len()) == toks[j].text(),
    decreases toks.len(),
{
    if j < toks.len() - 1 {
        let t = toks.last();
        assert(toks.drop_last()[j] == toks[j]);
        lemma_spelled_token_at(toks.drop_last(), input, t.pos() as int, j);
    }
}

/// Lexed input with a `)` that no `(` before it matches, the tokens before it being otherwise
/// well formed, evaluates to a parse error at the offset of that `)` in the input.
pub proof fn lemma_unmatched_close_in_input<T, H: PrimitiveHandler<T>>(
    calc: &ExprCalculator<T, H>,
    input: Seq<char>,
    before: Seq<TokenView<T>>,
    pos: usize,
    after: Seq<TokenView<T>>,
)
    requires
        calc.wf(),
        input.len() <= usize::MAX,
        calc.lex(input) == Ok::<_, TokenView<T>>(before + (seq![TokenView::Close { pos }] + after)),
        calc.parse_from(ParseState { stack: Seq::empty(), operands: Seq::empty() }, before) matches Ok(
            ps,
        ) && no_paren(ps.stack) && calc.drain(ps.stack, ps.operands, input.len() as usize) is Ok,
    ensures
        input[pos as int] == ')',
        calc.evaluate(input) == Err::<T, Failure<T>>(Failure::Parse { pos, text: seq![')'] }),
{
    let toks = before + (seq![TokenView::Close { pos }] + after);
    lemma_tokens_spell_input(calc, input);
    assert(toks[before.len() as int] == TokenView::<T>::Close { pos });
    lemma_spelled_token_at(toks, input, input.len() as int, before.len() as int);
    assert(input.subrange(pos as int, pos + 1)[0] == input[pos as int]);
    lemma_unmatched_close(calc, before, pos, after, input.len() as usize);
}

} // verus!
