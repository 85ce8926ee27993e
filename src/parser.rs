use vstd::prelude::*;
use vstd::pervasive::strictly_cloned;
use crate::calculator::ExprCalculator;
use crate::operation::PrimitiveHandler;
use crate::error::{CalcError, Failure};
use crate::lexer::{last_significant, take_last, views};
use crate::operation::{Compute, OperationType};
use crate::token::{Token, TokenView};

verus! {

/// Expression tree; operators are indices into the registry, `pos` is where the operator stood.
pub enum AstNode<T> {
    Leaf { val: T },
    Unary { op: usize, pos: usize, child: Box<AstNode<T>> },
    Binary { op: usize, pos: usize, left: Box<AstNode<T>>, right: Box<AstNode<T>> },
}

/// Entry of the operator stack: a parenthesis marker or a pending operator.
#[derive(Clone, Copy, Debug, PartialEq, Eq, Structural)]
pub enum StackItem {
    Paren { pos: usize },
    Op { index: usize, pos: usize },
}

/// Operator stack and operand stack of the tree builder.
pub struct ParseState<T> {
    pub stack: Seq<StackItem>,
    pub operands: Seq<AstNode<T>>,
}

/// Cloning a value of `T` gives an equal value.
pub open spec fn exact_clone<T: Clone>() -> bool {
    forall|a: T, b: T| #[trigger] strictly_cloned(a, b) ==> a == b
}

impl<T, H: PrimitiveHandler<T>> ExprCalculator<T, H> {
    /// Every operator in the tree is registered, with as many operands as the node has children.
    pub open spec fn tree_wf(&self, node: AstNode<T>) -> bool
        decreases node,
    {
        match node {
            AstNode::Leaf { .. } => true,
            AstNode::Unary { op, child, .. } => op < self.ops().len() && self.ops()[op as int].operands
                == 1 && self.tree_wf(*child),
            AstNode::Binary { op, left, right, .. } => op < self.ops().len() && self.ops()[op as int].operands
                == 2 && self.tree_wf(*left) && self.tree_wf(*right),
        }
    }

    pub open spec fn stack_wf(&self, stack: Seq<StackItem>) -> bool {
        forall|k: int|
            0 <= k < stack.len() && #[trigger] stack[k] is Op ==> (stack[k]->Op_index as int)
                < self.ops().len()
    }

    pub open spec fn operands_wf(&self, operands: Seq<AstNode<T>>) -> bool {
        forall|k: int| 0 <= k < operands.len() ==> self.tree_wf(#[trigger] operands[k])
    }

    /// Reduction of the operator `index` found at `pos`: a node built from the operands on top.
    pub open spec fn reduce(&self, operands: Seq<AstNode<T>>, index: usize, pos: usize) -> Result<
        Seq<AstNode<T>>,
        Failure<T>,
    > {
        let op = self.ops()[index as int];
        let n = operands.len();
        if op.operands == 0 {
            match op.calculate.result_for(Seq::empty()) {
                Some(v) => Ok(operands.push(AstNode::Leaf { val: v })),
                None => Err(
                    Failure::Domain { pos, signature: op.signature@, operands: Seq::empty() },
                ),
            }
        } else if op.operands == 1 {
            if n < 1 {
                Err(Failure::Parse { pos, text: op.signature@ })
            } else {
                Ok(
                    operands.drop_last().push(
                        AstNode::Unary { op: index, pos, child: Box::new(operands[n - 1]) },
                    ),
                )
            }
        } else {
            if n < 2 {
                Err(Failure::Parse { pos, text: op.signature@ })
            } else {
                Ok(
                    operands.subrange(0, n - 2).push(
                        AstNode::Binary {
                            op: index,
                            pos,
                            left: Box::new(operands[n - 2]),
                            right: Box::new(operands[n - 1]),
                        },
                    ),
                )
            }
        }
    }

    /// `)` at `pos`: reduce operators down to the nearest marker and drop it.
    pub open spec fn close_paren(&self, stack: Seq<StackItem>, operands: Seq<AstNode<T>>, pos: usize) -> Result<
        ParseState<T>,
        Failure<T>,
    >
        decreases stack.len(),
    {
        if stack.len() == 0 {
            Err(Failure::Parse { pos, text: seq![')'] })
        } else {
            match stack.last() {
                StackItem::Paren { .. } => Ok(ParseState { stack: stack.drop_last(), operands }),
                StackItem::Op { index, pos: at } => match self.reduce(operands, index, at) {
                    Ok(rest) => self.close_paren(stack.drop_last(), rest, pos),
                    Err(e) => Err(e),
                },
            }
        }
    }

    /// Reduce the pending operators above the nearest marker whose priority is at least `priority`.
    pub open spec fn pop_tighter(&self, stack: Seq<StackItem>, operands: Seq<AstNode<T>>, priority: u8) -> Result<
        ParseState<T>,
        Failure<T>,
    >
        decreases stack.len(),
    {
        if stack.len() == 0 {
            Ok(ParseState { stack, operands })
        } else {
            match stack.last() {
                StackItem::Paren { .. } => Ok(ParseState { stack, operands }),
                StackItem::Op { index, pos } => if self.ops()[index as int].priority >= priority {
                    match self.reduce(operands, index, pos) {
                        Ok(rest) => self.pop_tighter(stack.drop_last(), rest, priority),
                        Err(e) => Err(e),
                    }
                } else {
                    Ok(ParseState { stack, operands })
                },
            }
        }
    }

    /// The tree builder reads one token. An infix or postfix operator first reduces the pending
    /// operators of at least its priority (so equal priorities associate to the left); other
    /// operators have no left operand to wait for and reduce nothing.
    pub open spec fn parse_step(&self, ps: ParseState<T>, tok: TokenView<T>) -> Result<ParseState<T>, Failure<T>> {
        match tok {
            TokenView::Primitive { val, .. } => Ok(
                ParseState { stack: ps.stack, operands: ps.operands.push(AstNode::Leaf { val }) },
            ),
            TokenView::Open { pos } => Ok(
                ParseState { stack: ps.stack.push(StackItem::Paren { pos }), operands: ps.operands },
            ),
            TokenView::Close { pos } => self.close_paren(ps.stack, ps.operands, pos),
            TokenView::Operation { pos, index, .. } => {
                let popped = if self.ops()[index as int].op_type.takes_left_operand() {
                    self.pop_tighter(ps.stack, ps.operands, self.ops()[index as int].priority)
                } else {
                    Ok(ps)
                };
                match popped {
                    Ok(next) => Ok(
                        ParseState {
                            stack: next.stack.push(StackItem::Op { index, pos }),
                            operands: next.operands,
                        },
                    ),
                    Err(e) => Err(e),
                }
            },
            TokenView::WhiteSpace { .. } => Ok(ps),
            TokenView::Unknown { pos, val } => Err(Failure::Lexical { pos, text: val }),
        }
    }

    /// The tree builder reads `toks` in order.
    pub open spec fn parse_from(&self, ps: ParseState<T>, toks: Seq<TokenView<T>>) -> Result<
        ParseState<T>,
        Failure<T>,
    >
        decreases toks.len(),
    {
        if toks.len() == 0 {
            Ok(ps)
        } else {
            match self.parse_step(ps, toks[0]) {
                Ok(next) => self.parse_from(next, toks.drop_first()),
                Err(e) => Err(e),
            }
        }
    }

    /// At the end of input (offset `end`): reduce every pending operator; a marker left is an unclosed `(`.
    pub open spec fn drain(&self, stack: Seq<StackItem>, operands: Seq<AstNode<T>>, end: usize) -> Result<
        Seq<AstNode<T>>,
        Failure<T>,
    >
        decreases stack.len(),
    {
        if stack.len() == 0 {
            Ok(operands)
        } else {
            match stack.last() {
                StackItem::Paren { .. } => Err(Failure::Parse { pos: end, text: Seq::empty() }),
                StackItem::Op { index, pos } => match self.reduce(operands, index, pos) {
                    Ok(rest) => self.drain(stack.drop_last(), rest, end),
                    Err(e) => Err(e),
                },
            }
        }
    }

    /// The tree of a token sequence whose input ended at offset `end`.
    pub open spec fn build(&self, toks: Seq<TokenView<T>>, end: usize) -> Result<AstNode<T>, Failure<T>> {
        match self.parse_from(ParseState { stack: Seq::empty(), operands: Seq::empty() }, toks) {
            Err(e) => Err(e),
            Ok(ps) => match self.drain(ps.stack, ps.operands, end) {
                Err(e) => Err(e),
                Ok(trees) => if trees.len() == 1 {
                    Ok(trees[0])
                } else {
                    match last_significant(toks) {
                        None => Err(Failure::Empty),
                        Some(t) => Err(Failure::Parse { pos: t.pos(), text: t.text() }),
                    }
                },
            },
        }
    }
}

impl<T: Clone, H: PrimitiveHandler<T>> ExprCalculator<T, H> {
    /// Reduces the operator `index` found at `pos` into a node on the operand stack.
    fn make_node(&self, operands: &mut Vec<AstNode<T>>, index: usize, pos: usize) -> (r: Result<
        (),
        CalcError<T>,
    >)
        requires
            self.wf(),
            exact_clone::<T>(),
            index < self.ops().len(),
            self.operands_wf(old(operands)@),
        ensures
            match self.reduce(old(operands)@, index, pos) {
                Ok(rest) => r is Ok && final(operands)@ == rest,
                Err(e) => r is Err && r->Err_0@ == e,
            },
            r is Err ==> final(operands)@ == old(operands)@,
            self.operands_wf(final(operands)@),
    {
        let op = &self.operations[index];
        assert(op.wf());
        let ghost before = operands@;
        if op.operands == 0 {
            let value = match &op.calculate {
                Compute::Constant(c) => {
                    let v = c.clone();
                    assert(strictly_cloned(*c, v));
                    Some(v)
                },
                Compute::General(f) => {
                    let none: Vec<T> = Vec::new();
                    assert(none@ =~= Seq::<T>::empty());
                    f.apply(&none)
                },
                _ => {
                    proof {
                        assert(false);
                    }
                    None
                },
            };
            match value {
                Some(v) => {
                    operands.push(AstNode::Leaf { val: v });
                    assert(forall|k: int| 0 <= k < before.len() ==> #[trigger] operands@[k] == before[k]);
                },
                None => {
                    return Err(
                        CalcError::Domain { pos, signature: op.signature.clone(), operands: Vec::new() },
                    );
                },
            }
        } else if op.operands == 1 {
            match operands.pop() {
                Some(child) => {
                    operands.push(AstNode::Unary { op: index, pos, child: Box::new(child) });
                    assert(forall|k: int| 0 <= k < before.len() - 1 ==> #[trigger] operands@[k] == before[k]);
                },
                None => {
                    return Err(CalcError::Parse { pos, text: op.signature.clone() });
                },
            }
        } else {
            if operands.len() < 2 {
                return Err(CalcError::Parse { pos, text: op.signature.clone() });
            }
            let right = operands.pop().unwrap();
            let left = operands.pop().unwrap();
            operands.push(
                AstNode::Binary { op: index, pos, left: Box::new(left), right: Box::new(right) },
            );
            assert(forall|k: int| 0 <= k < before.len() - 2 ==> #[trigger] operands@[k] == before[k]);
            assert(operands@ =~= before.subrange(0, before.len() - 2).push(
                AstNode::Binary { op: index, pos, left: Box::new(left), right: Box::new(right) },
            ));
        }
        Ok(())
    }

    /// `)` at `pos`: reduces operators down to the nearest marker and drops it.
    fn close_paren_exec(&self, stack: &mut Vec<StackItem>, operands: &mut Vec<AstNode<T>>, pos: usize) -> (r:
        Result<(), CalcError<T>>)
        requires
            self.wf(),
            exact_clone::<T>(),
            self.stack_wf(old(stack)@),
            self.operands_wf(old(operands)@),
        ensures
            match self.close_paren(old(stack)@, old(operands)@, pos) {
                Ok(ps) => r is Ok && final(stack)@ == ps.stack && final(operands)@ == ps.operands,
                Err(e) => r is Err && r->Err_0@ == e,
            },
            self.stack_wf(final(stack)@),
            self.operands_wf(final(operands)@),
    {
        loop
            invariant
                self.wf(),
                exact_clone::<T>(),
                self.stack_wf(stack@),
                self.operands_wf(operands@),
                self.close_paren(old(stack)@, old(operands)@, pos) == self.close_paren(
                    stack@,
                    operands@,
                    pos,
                ),
            decreases stack.len(),
        {
            if stack.len() == 0 {
                let text = String::from_str(")");
                proof {
                    reveal_strlit(")");
                    assert(text@ =~= seq![')']);
                }
                return Err(CalcError::Parse { pos, text });
            }
            let top = stack[stack.len() - 1];
            match top {
                StackItem::Paren { .. } => {
                    stack.pop();
                    return Ok(());
                },
                StackItem::Op { index, pos: at } => {
                    assert(stack@[stack.len() - 1] is Op);
                    let reduced = self.make_node(operands, index, at);
                    if let Err(e) = reduced {
                        return Err(e);
                    }
                    stack.pop();
                },
            }
        }
    }

    /// Reduces the pending operators above the nearest marker whose priority is at least `priority`.
    fn pop_tighter_exec(&self, stack: &mut Vec<StackItem>, operands: &mut Vec<AstNode<T>>, priority: u8) -> (r:
        Result<(), CalcError<T>>)
        requires
            self.wf(),
            exact_clone::<T>(),
            self.stack_wf(old(stack)@),
            self.operands_wf(old(operands)@),
        ensures
            match self.pop_tighter(old(stack)@, old(operands)@, priority) {
                Ok(ps) => r is Ok && final(stack)@ == ps.stack && final(operands)@ == ps.operands,
                Err(e) => r is Err && r->Err_0@ == e,
            },
            self.stack_wf(final(stack)@),
            self.operands_wf(final(operands)@),
    {
        loop
            invariant
                self.wf(),
                exact_clone::<T>(),
                self.stack_wf(stack@),
                self.operands_wf(operands@),
                self.pop_tighter(old(stack)@, old(operands)@, priority) == self.pop_tighter(
                    stack@,
                    operands@,
                    priority,
                ),
            decreases stack.len(),
        {
            if stack.len() == 0 {
                return Ok(());
            }
            let top = stack[stack.len() - 1];
            match top {
                StackItem::Paren { .. } => {
                    return Ok(());
                },
                StackItem::Op { index, pos } => {
                    assert(stack@[stack.len() - 1] is Op);
                    if self.operations[index].priority < priority {
                        return Ok(());
                    }
                    let reduced = self.make_node(operands, index, pos);
                    if let Err(e) = reduced {
                        return Err(e);
                    }
                    stack.pop();
                },
            }
        }
    }

    /// At the end of input (offset `end`): reduces every pending operator.
    fn drain_exec(&self, stack: &mut Vec<StackItem>, operands: &mut Vec<AstNode<T>>, end: usize) -> (r:
        Result<(), CalcError<T>>)
        requires
            self.wf(),
            exact_clone::<T>(),
            self.stack_wf(old(stack)@),
            self.operands_wf(old(operands)@),
        ensures
            match self.drain(old(stack)@, old(operands)@, end) {
                Ok(trees) => r is Ok && final(operands)@ == trees,
                Err(e) => r is Err && r->Err_0@ == e,
            },
            self.operands_wf(final(operands)@),
    {
        loop
            invariant
                self.wf(),
                exact_clone::<T>(),
                self.stack_wf(stack@),
                self.operands_wf(operands@),
                self.drain(old(stack)@, old(operands)@, end) == self.drain(stack@, operands@, end),
            decreases stack.len(),
        {
            if stack.len() == 0 {
                return Ok(());
            }
            let top = stack[stack.len() - 1];
            match top {
                StackItem::Paren { .. } => {
                    return Err(CalcError::Parse { pos: end, text: String::new() });
                },
                StackItem::Op { index, pos } => {
                    assert(stack@[stack.len() - 1] is Op);
                    let reduced = self.make_node(operands, index, pos);
                    if let Err(e) = reduced {
                        return Err(e);
                    }
                    stack.pop();
                },
            }
        }
    }
}

impl<T: Clone, H: PrimitiveHandler<T>> ExprCalculator<T, H> {
    /// Builds the expression tree of `tokens`; `end` is the offset where the input ended.
    pub fn build_ast(&self, tokens: Vec<Token<T>>, end: usize) -> (r: Result<AstNode<T>, CalcError<T>>)
        requires
            self.wf(),
            exact_clone::<T>(),
            self.refs_valid(views(tokens@)),
        ensures
            match r {
                Ok(tree) => self.build(views(tokens@), end) == Ok::<_, Failure<T>>(tree) && self.tree_wf(
                    tree,
                ),
                Err(e) => self.build(views(tokens@), end) == Err::<AstNode<T>, _>(e@),
            },
    {
        let ghost all = views(tokens@);
        let last = match take_last(&tokens) {
            Some(k) => Some((tokens[k].get_pos(), tokens[k].get_value())),
            None => None,
        };
        let mut rest = tokens;
        let mut stack: Vec<StackItem> = Vec::new();
        let mut operands: Vec<AstNode<T>> = Vec::new();
        assert(views(rest@) == all);
        while rest.len() > 0
            invariant
                self.wf(),
                exact_clone::<T>(),
                all == views(tokens@),
                self.refs_valid(views(rest@)),
                self.stack_wf(stack@),
                self.operands_wf(operands@),
                self.parse_from(ParseState { stack: Seq::empty(), operands: Seq::empty() }, all)
                    == self.parse_from(ParseState { stack: stack@, operands: operands@ }, views(rest@)),
            decreases rest.len(),
        {
            let ghost before = views(rest@);
            let token = rest.remove(0);
            assert(before[0] == token@);
            assert(views(rest@) =~= before.drop_first());
            assert(self.refs_valid(views(rest@))) by {
                assert forall|k: int| 0 <= k < views(rest@).len() && #[trigger] views(rest@)[k] is Operation
                    implies (views(rest@)[k]->Operation_index as int) < self.ops().len() by {
                    assert(views(rest@)[k] == before[k + 1]);
                }
            }
            let ghost cur = ParseState { stack: stack@, operands: operands@ };
            assert(self.parse_from(cur, before) == match self.parse_step(cur, before[0]) {
                Ok(next) => self.parse_from(next, views(rest@)),
                Err(e) => Err(e),
            });
            match token {
                Token::Primitive { val, .. } => {
                    let ghost prev = operands@;
                    operands.push(AstNode::Leaf { val });
                    assert(self.operands_wf(operands@)) by {
                        assert forall|k: int| 0 <= k < operands@.len() implies self.tree_wf(
                            #[trigger] operands@[k],
                        ) by {
                            if k < operands@.len() - 1 {
                                assert(operands@[k] == prev[k]);
                            }
                        }
                    }
                },
                Token::Open { pos } => {
                    let ghost prev = stack@;
                    stack.push(StackItem::Paren { pos });
                    assert(self.stack_wf(stack@)) by {
                        assert forall|k: int| 0 <= k < stack@.len() && #[trigger] stack@[k] is Op
                            implies (stack@[k]->Op_index as int) < self.ops().len() by {
                            assert(stack@[k] == prev[k]);
                        }
                    }
                },
                Token::Close { pos } => {
                    let closed = self.close_paren_exec(&mut stack, &mut operands, pos);
                    if let Err(e) = closed {
                        return Err(e);
                    }
                },
                Token::Operation { pos, index, .. } => {
                    assert(before[0] is Operation);
                    let op = &self.operations[index];
                    if op.op_type == OperationType::Infix || op.op_type == OperationType::Postfix {
                        let popped = self.pop_tighter_exec(&mut stack, &mut operands, op.priority);
                        if let Err(e) = popped {
                            return Err(e);
                        }
                    }
                    let ghost mid = stack@;
                    stack.push(StackItem::Op { index, pos });
                    assert(self.stack_wf(stack@)) by {
                        assert forall|k: int| 0 <= k < stack@.len() && #[trigger] stack@[k] is Op
                            implies (stack@[k]->Op_index as int) < self.ops().len() by {
                            if k < mid.len() {
                                assert(stack@[k] == mid[k]);
                            }
                        }
                    }
                },
                Token::WhiteSpace { .. } => {},
                Token::Unknown { pos, val } => {
                    return Err(CalcError::Lexical { pos, text: val });
                },
            }
        }
        let drained = self.drain_exec(&mut stack, &mut operands, end);
        if let Err(e) = drained {
            return Err(e);
        }
        if operands.len() == 1 {
            let ghost trees = operands@;
            let tree = operands.pop().unwrap();
            assert(self.tree_wf(trees[0]));
            return Ok(tree);
        }
        match last {
            Some((pos, text)) => Err(CalcError::Parse { pos, text }),
            None => Err(CalcError::Empty),
        }
    }
}

} // verus!
