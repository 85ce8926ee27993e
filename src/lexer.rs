use vstd::prelude::*;
use crate::calculator::ExprCalculator;
use crate::operation::PrimitiveHandler;
use crate::operation::OperationType;
use crate::token::{Token, TokenView};

verus! {

/// What the lexer is in the middle of reading.
#[derive(Clone, Copy, Debug, PartialEq, Eq, Structural)]
pub enum State {
    Empty,
    Primitive,
    Operation,
    WhiteSpace,
}

/// The lexer between two characters: tokens emitted so far, what is being read,
/// and where the pending text starts.
pub struct LexState<T> {
    pub out: Seq<TokenView<T>>,
    pub state: State,
    pub start: int,
}

/// Scan context of one `tokenize` call.
struct Context<T> {
    out: Vec<Token<T>>,
    state: State,
    start: usize,
}

pub open spec fn views<T>(tokens: Seq<Token<T>>) -> Seq<TokenView<T>> {
    tokens.map_values(|t: Token<T>| t@)
}

/// The last emitted token that is not whitespace.
pub open spec fn last_significant<T>(out: Seq<TokenView<T>>) -> Option<TokenView<T>>
    decreases out.len(),
{
    if out.len() == 0 {
        None
    } else if out.last() is WhiteSpace {
        last_significant(out.drop_last())
    } else {
        Some(out.last())
    }
}

impl<T> Context<T> {
    spec fn view(&self) -> LexState<T> {
        LexState { out: views(self.out@), state: self.state, start: self.start as int }
    }
}

impl<T, H: PrimitiveHandler<T>> ExprCalculator<T, H> {
    /// Every operator token refers to a registered operator.
    pub open spec fn refs_valid(&self, out: Seq<TokenView<T>>) -> bool {
        forall|k: int|
            0 <= k < out.len() && #[trigger] out[k] is Operation ==> (out[k]->Operation_index as int)
                < self.ops().len()
    }

    pub open spec fn kind_of(&self, t: TokenView<T>) -> OperationType
        recommends
            t is Operation,
    {
        self.ops()[t->Operation_index as int].op_type
    }

    /// A prefix operator may stand here: nothing, `(` or an operator expecting an operand precedes.
    pub open spec fn prefix_admissible(&self, last: Option<TokenView<T>>) -> bool {
        match last {
            None => true,
            Some(TokenView::Open { .. }) => true,
            Some(t) => t is Operation && self.kind_of(t) != OperationType::Constant,
        }
    }

    /// A postfix or infix operator may stand here: a completed value precedes.
    pub open spec fn after_value(&self, last: Option<TokenView<T>>) -> bool {
        match last {
            Some(TokenView::Close { .. }) => true,
            Some(TokenView::Primitive { .. }) => true,
            Some(t) => t is Operation && (self.kind_of(t) == OperationType::Constant || self.kind_of(t)
                == OperationType::Postfix),
            None => false,
        }
    }

    /// A function may stand here: nothing, `(`, an infix or a prefix operator precedes.
    pub open spec fn function_admissible(&self, last: Option<TokenView<T>>) -> bool {
        match last {
            None => true,
            Some(TokenView::Open { .. }) => true,
            Some(t) => t is Operation && (self.kind_of(t) == OperationType::Infix || self.kind_of(t)
                == OperationType::Prefix),
        }
    }

    /// The kind an operator text takes after `last`: the first of prefix, postfix, infix,
    /// function and constant that is registered for the text and admissible there.
    pub open spec fn resolve_kind(&self, text: Seq<char>, last: Option<TokenView<T>>) -> Option<
        OperationType,
    > {
        if self.has_operation(text, OperationType::Prefix) && self.prefix_admissible(last) {
            Some(OperationType::Prefix)
        } else if self.has_operation(text, OperationType::Postfix) && self.after_value(last) {
            Some(OperationType::Postfix)
        } else if self.has_operation(text, OperationType::Infix) && self.after_value(last) {
            Some(OperationType::Infix)
        } else if self.has_operation(text, OperationType::Function) && self.function_admissible(last) {
            Some(OperationType::Function)
        } else if self.has_operation(text, OperationType::Constant) {
            Some(OperationType::Constant)
        } else {
            None
        }
    }

    /// Turns the pending text `buf` into a token.
    pub open spec fn collect(&self, st: LexState<T>, buf: Seq<char>) -> Result<LexState<T>, TokenView<T>> {
        let pos = st.start as usize;
        match st.state {
            State::Empty => Ok(st),
            State::WhiteSpace => Ok(
                LexState { out: st.out.push(TokenView::WhiteSpace { pos, val: buf }), ..st },
            ),
            State::Primitive => match self.handler.parses_to(buf) {
                Ok(v) => Ok(
                    LexState {
                        out: st.out.push(TokenView::Primitive { pos, val: v, original: buf }),
                        ..st
                    },
                ),
                Err(_) => Err(TokenView::Unknown { pos, val: buf }),
            },
            State::Operation => match self.resolve_kind(buf, last_significant(st.out)) {
                Some(kind) => Ok(
                    LexState {
                        out: st.out.push(
                            TokenView::Operation {
                                pos,
                                index: self.operation_index(buf, kind) as usize,
                                signature: buf,
                            },
                        ),
                        ..st
                    },
                ),
                None => Err(TokenView::Unknown { pos, val: buf }),
            },
        }
    }

    /// Starts a new token with character `c` at offset `i`.
    pub open spec fn start_token(&self, out: Seq<TokenView<T>>, i: int, c: char) -> Result<
        LexState<T>,
        TokenView<T>,
    > {
        if c == ' ' {
            Ok(LexState { out, state: State::WhiteSpace, start: i })
        } else if c == '(' {
            Ok(LexState { out: out.push(TokenView::Open { pos: i as usize }), state: State::Empty, start: i })
        } else if c == ')' {
            Ok(LexState { out: out.push(TokenView::Close { pos: i as usize }), state: State::Empty, start: i })
        } else if self.handler.is_literal_prefix(seq![c]) {
            Ok(LexState { out, state: State::Primitive, start: i })
        } else if self.is_operation_prefix(seq![c]) {
            Ok(LexState { out, state: State::Operation, start: i })
        } else {
            Err(TokenView::Unknown { pos: i as usize, val: seq![c] })
        }
    }

    /// Whether the pending token of this state can take `ext`, its text extended by `c`.
    pub open spec fn extends(&self, state: State, ext: Seq<char>, c: char) -> bool {
        match state {
            State::Empty => false,
            State::Primitive => self.handler.is_literal_prefix(ext),
            State::Operation => self.is_operation_prefix(ext),
            State::WhiteSpace => c == ' ',
        }
    }

    /// The lexer reads the character at offset `i`.
    pub open spec fn lex_step(&self, st: LexState<T>, input: Seq<char>, i: int) -> Result<
        LexState<T>,
        TokenView<T>,
    > {
        let c = input[i];
        let buf = input.subrange(st.start, i);
        if st.state == State::Empty {
            self.start_token(st.out, i, c)
        } else if self.extends(st.state, buf.push(c), c) {
            Ok(st)
        } else if st.state == State::Primitive && self.is_operation_prefix(buf.push(c)) {
            Ok(LexState { state: State::Operation, ..st })
        } else {
            match self.collect(st, buf) {
                Ok(next) => self.start_token(next.out, i, c),
                Err(e) => Err(e),
            }
        }
    }

    /// Lexing the rest of `input` from offset `i` on.
    pub open spec fn lex_from(&self, st: LexState<T>, input: Seq<char>, i: int) -> Result<
        Seq<TokenView<T>>,
        TokenView<T>,
    >
        decreases input.len() - i,
    {
        if i >= input.len() {
            match self.collect(st, input.subrange(st.start, input.len() as int)) {
                Ok(last) => Ok(last.out),
                Err(e) => Err(e),
            }
        } else {
            match self.lex_step(st, input, i) {
                Ok(next) => self.lex_from(next, input, i + 1),
                Err(e) => Err(e),
            }
        }
    }

    /// The tokens of `input`, or the first token that could not be formed.
    pub open spec fn lex(&self, input: Seq<char>) -> Result<Seq<TokenView<T>>, TokenView<T>> {
        self.lex_from(LexState { out: Seq::empty(), state: State::Empty, start: 0 }, input, 0)
    }
}

/// Index of the last emitted token that is not whitespace.
pub(crate) fn take_last<T>(out: &Vec<Token<T>>) -> (r: Option<usize>)
    ensures
        match r {
            None => last_significant(views(out@)) is None,
            Some(k) => k < out.len() && last_significant(views(out@)) == Some(out@[k as int]@),
        },
{
    let mut k = out.len();
    assert(views(out@).take(k as int) =~= views(out@));
    while k > 0
        invariant
            k <= out.len(),
            last_significant(views(out@)) == last_significant(views(out@).take(k as int)),
        decreases k,
    {
        if !matches!(out[k - 1], Token::WhiteSpace { .. }) {
            assert(views(out@).take(k as int).last() == out@[k - 1]@);
            return Some(k - 1);
        }
        assert(views(out@).take(k as int).drop_last() =~= views(out@).take(k - 1));
        k -= 1;
    }
    None
}

impl<T, H: PrimitiveHandler<T>> ExprCalculator<T, H> {
    /// Kind of the operator that the token at `k` refers to, if it is an operator token.
    fn token_kind(&self, out: &Vec<Token<T>>, k: usize) -> (r: Option<OperationType>)
        requires
            k < out.len(),
            self.refs_valid(views(out@)),
        ensures
            r is Some <==> out@[k as int]@ is Operation,
            r is Some ==> r->0 == self.kind_of(out@[k as int]@),
    {
        match &out[k] {
            Token::Operation { index, .. } => {
                assert(views(out@)[k as int] is Operation);
                Some(self.operations[*index].op_type)
            },
            _ => None,
        }
    }

    fn suitable_for_prefix(&self, out: &Vec<Token<T>>, value: &str) -> (r: bool)
        requires
            self.wf(),
            self.refs_valid(views(out@)),
        ensures
            r == (self.has_operation(value@, OperationType::Prefix) && self.prefix_admissible(
                last_significant(views(out@)),
            )),
    {
        if self.make_by_type(value, OperationType::Prefix).is_none() {
            return false;
        }
        match take_last(out) {
            None => true,
            Some(k) => match &out[k] {
                Token::Open { .. } => true,
                _ => match self.token_kind(out, k) {
                    Some(kind) => kind != OperationType::Constant,
                    None => false,
                },
            },
        }
    }

    /// Shared by postfix and infix operators: a completed value must precede.
    fn follows_value(&self, out: &Vec<Token<T>>) -> (r: bool)
        requires
            self.refs_valid(views(out@)),
        ensures
            r == self.after_value(last_significant(views(out@))),
    {
        match take_last(out) {
            None => false,
            Some(k) => match &out[k] {
                Token::Close { .. } => true,
                Token::Primitive { .. } => true,
                _ => match self.token_kind(out, k) {
                    Some(kind) => kind == OperationType::Constant || kind == OperationType::Postfix,
                    None => false,
                },
            },
        }
    }

    fn suitable_for_postfix(&self, out: &Vec<Token<T>>, value: &str) -> (r: bool)
        requires
            self.wf(),
            self.refs_valid(views(out@)),
        ensures
            r == (self.has_operation(value@, OperationType::Postfix) && self.after_value(
                last_significant(views(out@)),
            )),
    {
        self.make_by_type(value, OperationType::Postfix).is_some() && self.follows_value(out)
    }

    fn suitable_for_infix(&self, out: &Vec<Token<T>>, value: &str) -> (r: bool)
        requires
            self.wf(),
            self.refs_valid(views(out@)),
        ensures
            r == (self.has_operation(value@, OperationType::Infix) && self.after_value(
                last_significant(views(out@)),
            )),
    {
        self.make_by_type(value, OperationType::Infix).is_some() && self.follows_value(out)
    }

    fn suitable_for_function(&self, out: &Vec<Token<T>>, value: &str) -> (r: bool)
        requires
            self.wf(),
            self.refs_valid(views(out@)),
        ensures
            r == (self.has_operation(value@, OperationType::Function) && self.function_admissible(
                last_significant(views(out@)),
            )),
    {
        if self.make_by_type(value, OperationType::Function).is_none() {
            return false;
        }
        match take_last(out) {
            None => true,
            Some(k) => match &out[k] {
                Token::Open { .. } => true,
                _ => match self.token_kind(out, k) {
                    Some(kind) => kind == OperationType::Infix || kind == OperationType::Prefix,
                    None => false,
                },
            },
        }
    }
}

impl<T, H: PrimitiveHandler<T>> ExprCalculator<T, H> {
    /// The pending text extended by the character at `i` still begins some literal.
    fn can_add_to_primitive(&self, input: &str, start: usize, i: usize) -> (r: bool)
        requires
            start <= i < input@.len() <= usize::MAX,
        ensures
            r == self.handler.is_literal_prefix(input@.subrange(start as int, i + 1)),
    {
        let text = String::from_str(input.substring_char(start, i + 1));
        self.handler.can_start_with(text)
    }

    /// The pending text extended by the character at `i` still begins some signature.
    fn can_add_to_operation(&self, input: &str, start: usize, i: usize) -> (r: bool)
        requires
            start <= i < input@.len() <= usize::MAX,
        ensures
            r == self.is_operation_prefix(input@.subrange(start as int, i + 1)),
    {
        self.can_be_operation(input.substring_char(start, i + 1))
    }

    fn is_suitable_for_current_state(&self, state: State, input: &str, start: usize, i: usize, c: char) -> (r:
        bool)
        requires
            start <= i < input@.len() <= usize::MAX,
            c == input@[i as int],
        ensures
            r == self.extends(state, input@.subrange(start as int, i as int).push(c), c),
    {
        assert(input@.subrange(start as int, i as int).push(c) =~= input@.subrange(start as int, i + 1));
        match state {
            State::Empty => false,
            State::Primitive => self.can_add_to_primitive(input, start, i),
            State::Operation => self.can_add_to_operation(input, start, i),
            State::WhiteSpace => c == ' ',
        }
    }

    /// Turns the pending text, `input` from `ctx.start` to `end`, into a token.
    fn collect_token(&self, ctx: &mut Context<T>, input: &str, end: usize) -> (r: Result<(), Token<T>>)
        requires
            self.wf(),
            old(ctx).start <= end <= input@.len(),
            self.refs_valid(views(old(ctx).out@)),
        ensures
            match self.collect(old(ctx)@, input@.subrange(old(ctx).start as int, end as int)) {
                Ok(st) => r is Ok && final(ctx)@ == st,
                Err(e) => r is Err && r->Err_0@ == e,
            },
            r is Err ==> final(ctx)@ == old(ctx)@,
            self.refs_valid(views(final(ctx).out@)),
    {
        let ghost before = views(ctx.out@);
        let buf = input.substring_char(ctx.start, end);
        let pos = ctx.start;
        let token = match ctx.state {
            State::Empty => {
                return Ok(());
            },
            State::WhiteSpace => Token::WhiteSpace { pos, val: String::from_str(buf) },
            State::Primitive => {
                let text = String::from_str(buf);
                match self.handler.from_string(&text) {
                    Ok(v) => Token::Primitive { pos, val: v, original: text },
                    Err(_) => {
                        return Err(Token::Unknown { pos, val: text });
                    },
                }
            },
            State::Operation => {
                let kind = if self.suitable_for_prefix(&ctx.out, buf) {
                    OperationType::Prefix
                } else if self.suitable_for_postfix(&ctx.out, buf) {
                    OperationType::Postfix
                } else if self.suitable_for_infix(&ctx.out, buf) {
                    OperationType::Infix
                } else if self.suitable_for_function(&ctx.out, buf) {
                    OperationType::Function
                } else if self.make_by_type(buf, OperationType::Constant).is_some() {
                    OperationType::Constant
                } else {
                    return Err(Token::Unknown { pos, val: String::from_str(buf) });
                };
                match self.make_by_type(buf, kind) {
                    Some(index) => Token::Operation { pos, index, signature: String::from_str(buf) },
                    None => {
                        return Err(Token::Unknown { pos, val: String::from_str(buf) });
                    },
                }
            },
        };
        let ghost tv = token@;
        ctx.out.push(token);
        assert(views(ctx.out@) =~= before.push(tv));
        Ok(())
    }

    /// Starts a new token with the character `c` found at offset `i`.
    fn init_token_creation(&self, ctx: &mut Context<T>, input: &str, i: usize, c: char) -> (r: Result<
        (),
        Token<T>,
    >)
        requires
            i < input@.len() <= usize::MAX,
            c == input@[i as int],
            self.refs_valid(views(old(ctx).out@)),
        ensures
            match self.start_token(views(old(ctx).out@), i as int, c) {
                Ok(st) => r is Ok && final(ctx)@ == st,
                Err(e) => r is Err && r->Err_0@ == e,
            },
            r is Err ==> final(ctx)@ == old(ctx)@,
            self.refs_valid(views(final(ctx).out@)),
    {
        let ghost before = views(ctx.out@);
        let single = input.substring_char(i, i + 1);
        assert(single@ =~= seq![c]);
        if c == ' ' {
            ctx.state = State::WhiteSpace;
            ctx.start = i;
        } else if c == '(' || c == ')' {
            let token = if c == '(' {
                Token::Open { pos: i }
            } else {
                Token::Close { pos: i }
            };
            let ghost tv = token@;
            ctx.out.push(token);
            assert(views(ctx.out@) =~= before.push(tv));
            ctx.state = State::Empty;
            ctx.start = i;
        } else if self.handler.can_start_with(String::from_str(single)) {
            ctx.state = State::Primitive;
            ctx.start = i;
        } else if self.can_be_operation(single) {
            ctx.state = State::Operation;
            ctx.start = i;
        } else {
            return Err(Token::Unknown { pos: i, val: String::from_str(single) });
        }
        Ok(())
    }

    /// Splits `input` into tokens, or returns the first token that could not be formed.
    pub fn tokenize(&self, input: &str) -> (r: Result<Vec<Token<T>>, Token<T>>)
        requires
            self.wf(),
        ensures
            match r {
                Ok(tokens) => self.lex(input@) == Ok::<_, TokenView<T>>(views(tokens@)) && self.refs_valid(
                    views(tokens@),
                ),
                Err(e) => self.lex(input@) == Err::<Seq<TokenView<T>>, _>(e@),
            },
    {
        let n = input.unicode_len();
        let mut ctx = Context { out: Vec::new(), state: State::Empty, start: 0 };
        assert(views(ctx.out@) =~= Seq::<TokenView<T>>::empty());
        let mut i: usize = 0;
        while i < n
            invariant
                self.wf(),
                n == input@.len(),
                i <= n,
                ctx.start <= i,
                self.refs_valid(views(ctx.out@)),
                self.lex(input@) == self.lex_from(ctx@, input@, i as int),
            decreases n - i,
        {
            let c = input.get_char(i);
            let ghost st = ctx@;
            if ctx.state == State::Empty {
                let step = self.init_token_creation(&mut ctx, input, i, c);
                if let Err(e) = step {
                    return Err(e);
                }
            } else if self.is_suitable_for_current_state(ctx.state, input, ctx.start, i, c) {
            } else if ctx.state == State::Primitive && self.can_add_to_operation(input, ctx.start, i) {
                assert(input@.subrange(st.start, i as int).push(c) =~= input@.subrange(st.start, i + 1));
                ctx.state = State::Operation;
            } else {
                assert(input@.subrange(st.start, i as int).push(c) =~= input@.subrange(st.start, i + 1));
                let collected = self.collect_token(&mut ctx, input, i);
                if let Err(e) = collected {
                    return Err(e);
                }
                let step = self.init_token_creation(&mut ctx, input, i, c);
                if let Err(e) = step {
                    return Err(e);
                }
            }
            i += 1;
        }
        let collected = self.collect_token(&mut ctx, input, n);
        if let Err(e) = collected {
            return Err(e);
        }
        Ok(ctx.out)
    }
}

} // verus!
