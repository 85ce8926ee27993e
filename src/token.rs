use vstd::prelude::*;

verus! {

/// One lexical unit of the input; `pos` is the offset of its first character.
pub enum Token<T> {
    WhiteSpace { pos: usize, val: String },
    Open { pos: usize },
    Close { pos: usize },
    Primitive { pos: usize, val: T, original: String },
    /// A resolved operator: `index` is its place in the registry.
    Operation { pos: usize, index: usize, signature: String },
    Unknown { pos: usize, val: String },
}

/// A token with its texts as character sequences.
pub enum TokenView<T> {
    WhiteSpace { pos: usize, val: Seq<char> },
    Open { pos: usize },
    Close { pos: usize },
    Primitive { pos: usize, val: T, original: Seq<char> },
    Operation { pos: usize, index: usize, signature: Seq<char> },
    Unknown { pos: usize, val: Seq<char> },
}

impl<T> View for Token<T> {
    type V = TokenView<T>;

    open spec fn view(&self) -> TokenView<T> {
        match self {
            Token::WhiteSpace { pos, val } => TokenView::WhiteSpace { pos: *pos, val: val@ },
            Token::Open { pos } => TokenView::Open { pos: *pos },
            Token::Close { pos } => TokenView::Close { pos: *pos },
            Token::Primitive { pos, val, original } => TokenView::Primitive {
                pos: *pos,
                val: *val,
                original: original@,
            },
            Token::Operation { pos, index, signature } => TokenView::Operation {
                pos: *pos,
                index: *index,
                signature: signature@,
            },
            Token::Unknown { pos, val } => TokenView::Unknown { pos: *pos, val: val@ },
        }
    }
}

/// Decimal digits of `n`, most significant first.
pub open spec fn decimal(n: nat) -> Seq<char>
    decreases n,
{
    let digit = seq![(('0' as u8) + (n % 10) as u8) as char];
    if n < 10 {
        digit
    } else {
        decimal(n / 10) + digit
    }
}

/// The decimal digit for `d`.
fn digit_text(d: usize) -> (r: &'static str)
    requires
        d < 10,
    ensures
        r@ == seq![(('0' as u8) + d as u8) as char],
{
    proof {
        reveal_strlit("0");
        reveal_strlit("1");
        reveal_strlit("2");
        reveal_strlit("3");
        reveal_strlit("4");
        reveal_strlit("5");
        reveal_strlit("6");
        reveal_strlit("7");
        reveal_strlit("8");
        reveal_strlit("9");
    }
    let r = if d == 0 {
        "0"
    } else if d == 1 {
        "1"
    } else if d == 2 {
        "2"
    } else if d == 3 {
        "3"
    } else if d == 4 {
        "4"
    } else if d == 5 {
        "5"
    } else if d == 6 {
        "6"
    } else if d == 7 {
        "7"
    } else if d == 8 {
        "8"
    } else {
        "9"
    };
    assert(r@ =~= seq![(('0' as u8) + d as u8) as char]);
    r
}

/// Decimal notation of `n`.
pub(crate) fn decimal_text(n: usize) -> (r: String)
    ensures
        r@ == decimal(n as nat),
{
    let mut rest = n / 10;
    let mut text = String::from_str(digit_text(n % 10));
    while rest > 0
        invariant
            rest <= n,
            decimal(n as nat) == (if rest == 0 { Seq::empty() } else { decimal(rest as nat) }) + text@,
        decreases rest,
    {
        let ghost before = text@;
        text = String::from_str(digit_text(rest % 10)).concat(text.as_str());
        proof {
            let digit = seq![(('0' as u8) + (rest as nat % 10) as u8) as char];
            if rest / 10 == 0 {
                assert(decimal(rest as nat) == digit);
            } else {
                assert(decimal(rest as nat) == decimal((rest / 10) as nat) + digit);
            }
            assert(text@ == digit + before);
        }
        rest = rest / 10;
    }
    assert(Seq::<char>::empty() + text@ =~= text@);
    text
}

/// `'<text>' at position <pos>`.
pub open spec fn positioned(text: Seq<char>, pos: usize) -> Seq<char> {
    seq!['\''] + text + "' at position "@ + decimal(pos as nat)
}

pub(crate) fn positioned_text(text: &str, pos: usize) -> (r: String)
    ensures
        r@ == positioned(text@, pos),
{
    let quote = String::from_str("'");
    let tail = "' at position ";
    let digits = decimal_text(pos);
    let r = quote.concat(text).concat(tail).concat(digits.as_str());
    proof {
        reveal_strlit("'");
        assert(r@ =~= positioned(text@, pos));
    }
    r
}

impl<T> TokenView<T> {
    pub open spec fn pos(self) -> usize {
        match self {
            TokenView::WhiteSpace { pos, .. } => pos,
            TokenView::Open { pos } => pos,
            TokenView::Close { pos } => pos,
            TokenView::Primitive { pos, .. } => pos,
            TokenView::Operation { pos, .. } => pos,
            TokenView::Unknown { pos, .. } => pos,
        }
    }

    /// The input text the token stands for.
    pub open spec fn text(self) -> Seq<char> {
        match self {
            TokenView::WhiteSpace { val, .. } => val,
            TokenView::Open { .. } => seq!['('],
            TokenView::Close { .. } => seq![')'],
            TokenView::Primitive { original, .. } => original,
            TokenView::Operation { signature, .. } => signature,
            TokenView::Unknown { val, .. } => val,
        }
    }
}

impl<T> Token<T> {
    pub fn get_pos(&self) -> (r: usize)
        ensures
            r == self@.pos(),
    {
        match self {
            Token::WhiteSpace { pos, .. } => *pos,
            Token::Open { pos } => *pos,
            Token::Close { pos } => *pos,
            Token::Primitive { pos, .. } => *pos,
            Token::Operation { pos, .. } => *pos,
            Token::Unknown { pos, .. } => *pos,
        }
    }

    pub fn get_value(&self) -> (r: String)
        ensures
            r@ == self@.text(),
    {
        match self {
            Token::WhiteSpace { val, .. } => val.clone(),
            Token::Open { .. } => {
                let r = String::from_str("(");
                proof {
                    reveal_strlit("(");
                }
                r
            },
            Token::Close { .. } => {
                let r = String::from_str(")");
                proof {
                    reveal_strlit(")");
                }
                r
            },
            Token::Primitive { original, .. } => original.clone(),
            Token::Operation { signature, .. } => signature.clone(),
            Token::Unknown { val, .. } => val.clone(),
        }
    }

    /// Description for messages: `'<text>' at position <pos>`.
    pub fn to_string(&self) -> (r: String)
        ensures
            r@ == positioned(self@.text(), self@.pos()),
    {
        let text = self.get_value();
        positioned_text(text.as_str(), self.get_pos())
    }
}

} // verus!
