use vstd::prelude::*;
use crate::token::{positioned, positioned_text};

verus! {

/// Why an expression could not be evaluated.
pub enum CalcError<T> {
    /// Text that is neither a literal nor an operator, or an operator out of place.
    Lexical { pos: usize, text: String },
    /// Unbalanced parentheses, missing operands or operands left over.
    Parse { pos: usize, text: String },
    /// A compute function refused its operands.
    Domain { pos: usize, signature: String, operands: Vec<T> },
    /// Nothing but whitespace was given.
    Empty,
}

/// An error with its texts as character sequences.
pub enum Failure<T> {
    Lexical { pos: usize, text: Seq<char> },
    Parse { pos: usize, text: Seq<char> },
    Domain { pos: usize, signature: Seq<char>, operands: Seq<T> },
    Empty,
}

impl<T> View for CalcError<T> {
    type V = Failure<T>;

    open spec fn view(&self) -> Failure<T> {
        match self {
            CalcError::Lexical { pos, text } => Failure::Lexical { pos: *pos, text: text@ },
            CalcError::Parse { pos, text } => Failure::Parse { pos: *pos, text: text@ },
            CalcError::Domain { pos, signature, operands } => Failure::Domain {
                pos: *pos,
                signature: signature@,
                operands: operands@,
            },
            CalcError::Empty => Failure::Empty,
        }
    }
}

/// The result of an evaluation with its error as a `Failure`.
pub open spec fn outcome<T>(r: Result<T, CalcError<T>>) -> Result<T, Failure<T>> {
    match r {
        Ok(v) => Ok(v),
        Err(e) => Err(e@),
    }
}

impl<T> Failure<T> {
    pub open spec fn pos(self) -> usize {
        match self {
            Failure::Lexical { pos, .. } => pos,
            Failure::Parse { pos, .. } => pos,
            Failure::Domain { pos, .. } => pos,
            Failure::Empty => 0,
        }
    }

    pub open spec fn description(self) -> Seq<char> {
        match self {
            Failure::Lexical { pos, text } => positioned(text, pos),
            Failure::Parse { pos, text } => if text.len() == 0 {
                "end of input at position "@ + crate::token::decimal(pos as nat)
            } else {
                positioned(text, pos)
            },
            Failure::Domain { pos, signature, .. } => "operands out of domain of "@ + positioned(
                signature,
                pos,
            ),
            Failure::Empty => "empty expression"@,
        }
    }
}

impl<T> CalcError<T> {
    /// Offset in the input that the error points at; 0 for an empty expression.
    pub fn get_pos(&self) -> (r: usize)
        ensures
            r == self@.pos(),
    {
        match self {
            CalcError::Lexical { pos, .. } => *pos,
            CalcError::Parse { pos, .. } => *pos,
            CalcError::Domain { pos, .. } => *pos,
            CalcError::Empty => 0,
        }
    }

    /// Human-readable description of the error.
    pub fn to_string(&self) -> (r: String)
        ensures
            r@ == self@.description(),
    {
        match self {
            CalcError::Lexical { pos, text } => positioned_text(text.as_str(), *pos),
            CalcError::Parse { pos, text } => {
                if text.as_str().unicode_len() == 0 {
                    let head = String::from_str("end of input at position ");
                    head.concat(crate::token::decimal_text(*pos).as_str())
                } else {
                    positioned_text(text.as_str(), *pos)
                }
            },
            CalcError::Domain { pos, signature, .. } => {
                let head = String::from_str("operands out of domain of ");
                head.concat(positioned_text(signature.as_str(), *pos).as_str())
            },
            CalcError::Empty => String::from_str("empty expression"),
        }
    }
}

} // verus!
