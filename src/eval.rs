use vstd::prelude::*;
use crate::calculator::ExprCalculator;
use crate::operation::PrimitiveHandler;
use crate::error::{outcome, CalcError, Failure};
use crate::operation::Compute;
use crate::parser::{exact_clone, AstNode};
use vstd::pervasive::strictly_cloned;

verus! {

impl<T, H: PrimitiveHandler<T>> ExprCalculator<T, H> {
    /// Value of a tree: operands are evaluated left to right, then the operator is applied.
    pub open spec fn eval(&self, node: AstNode<T>) -> Result<T, Failure<T>>
        decreases node,
    {
        match node {
            AstNode::Leaf { val } => Ok(val),
            AstNode::Unary { op, pos, child } => match self.eval(*child) {
                Err(e) => Err(e),
                Ok(x) => self.apply_op(op, pos, seq![x]),
            },
            AstNode::Binary { op, pos, left, right } => match self.eval(*left) {
                Err(e) => Err(e),
                Ok(x) => match self.eval(*right) {
                    Err(e) => Err(e),
                    Ok(y) => self.apply_op(op, pos, seq![x, y]),
                },
            },
        }
    }

    /// The operator `op` found at `pos` applied to `args`.
    pub open spec fn apply_op(&self, op: usize, pos: usize, args: Seq<T>) -> Result<T, Failure<T>> {
        match self.ops()[op as int].calculate.result_for(args) {
            Some(v) => Ok(v),
            None => Err(
                Failure::Domain { pos, signature: self.ops()[op as int].signature@, operands: args },
            ),
        }
    }

    /// Text to tokens to tree to value.
    pub open spec fn evaluate(&self, input: Seq<char>) -> Result<T, Failure<T>> {
        match self.lex(input) {
            Err(t) => Err(Failure::Lexical { pos: t.pos(), text: t.text() }),
            Ok(toks) => match self.build(toks, input.len() as usize) {
                Err(e) => Err(e),
                Ok(tree) => self.eval(tree),
            },
        }
    }
}

impl<T: Clone> AstNode<T> {
    /// Evaluates the tree against the registry it was built with.
    pub fn calculate<H: PrimitiveHandler<T>>(&self, calc: &ExprCalculator<T, H>) -> (r: Result<T, CalcError<T>>)
        requires
            calc.wf(),
            calc.tree_wf(*self),
            exact_clone::<T>(),
        ensures
            outcome(r) == calc.eval(*self),
        decreases self,
    {
        match self {
            AstNode::Leaf { val } => {
                let v = val.clone();
                assert(strictly_cloned(*val, v));
                Ok(v)
            },
            AstNode::Unary { op, pos, child } => {
                let x = match child.calculate(calc) {
                    Ok(x) => x,
                    Err(e) => {
                        return Err(e);
                    },
                };
                let operation = &calc.operations[*op];
                assert(operation.wf());
                let mut args: Vec<T> = Vec::new();
                match &operation.calculate {
                    Compute::Unary(f) => {
                        let v = f.apply(&x);
                        args.push(x);
                        assert(args@ =~= seq![x]);
                        match v {
                            Some(v) => Ok(v),
                            None => Err(
                                CalcError::Domain {
                                    pos: *pos,
                                    signature: operation.signature.clone(),
                                    operands: args,
                                },
                            ),
                        }
                    },
                    Compute::General(f) => {
                        args.push(x);
                        assert(args@ =~= seq![x]);
                        match f.apply(&args) {
                            Some(v) => Ok(v),
                            None => Err(
                                CalcError::Domain {
                                    pos: *pos,
                                    signature: operation.signature.clone(),
                                    operands: args,
                                },
                            ),
                        }
                    },
                    _ => {
                        proof {
                            assert(false);
                        }
                        Err(CalcError::Empty)
                    },
                }
            },
            AstNode::Binary { op, pos, left, right } => {
                let x = match left.calculate(calc) {
                    Ok(x) => x,
                    Err(e) => {
                        return Err(e);
                    },
                };
                let y = match right.calculate(calc) {
                    Ok(y) => y,
                    Err(e) => {
                        return Err(e);
                    },
                };
                let operation = &calc.operations[*op];
                assert(operation.wf());
                let mut args: Vec<T> = Vec::new();
                match &operation.calculate {
                    Compute::Binary(f) => {
                        let v = f.apply(&x, &y);
                        args.push(x);
                        args.push(y);
                        assert(args@ =~= seq![x, y]);
                        match v {
                            Some(v) => Ok(v),
                            None => Err(
                                CalcError::Domain {
                                    pos: *pos,
                                    signature: operation.signature.clone(),
                                    operands: args,
                                },
                            ),
                        }
                    },
                    Compute::General(f) => {
                        args.push(x);
                        args.push(y);
                        assert(args@ =~= seq![x, y]);
                        match f.apply(&args) {
                            Some(v) => Ok(v),
                            None => Err(
                                CalcError::Domain {
                                    pos: *pos,
                                    signature: operation.signature.clone(),
                                    operands: args,
                                },
                            ),
                        }
                    },
                    _ => {
                        proof {
                            assert(false);
                        }
                        Err(CalcError::Empty)
                    },
                }
            },
        }
    }
}

impl<T: Clone, H: PrimitiveHandler<T>> ExprCalculator<T, H> {
    /// Evaluates `input`: tokens, then tree, then value; the first error found is returned.
    pub fn calculate(&self, input: &str) -> (r: Result<T, CalcError<T>>)
        requires
            self.wf(),
            exact_clone::<T>(),
        ensures
            outcome(r) == self.evaluate(input@),
    {
        let tokens = match self.tokenize(input) {
            Ok(tokens) => tokens,
            Err(t) => {
                return Err(CalcError::Lexical { pos: t.get_pos(), text: t.get_value() });
            },
        };
        let tree = match self.build_ast(tokens, input.unicode_len()) {
            Ok(tree) => tree,
            Err(e) => {
                return Err(e);
            },
        };
        tree.calculate(self)
    }
}

} // verus!
