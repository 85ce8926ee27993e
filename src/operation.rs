use vstd::prelude::*;
use vstd::pervasive::arbitrary;

verus! {

/// Priority levels used by the bundled calculators; a higher value binds tighter.
pub const LOWEST_ORDER: u8 = 10;

pub const LOW_ORDER: u8 = 20;

pub const MEDIUM_ORDER: u8 = 30;

pub const HIGH_ORDER: u8 = 40;

pub const HIGHEST_ORDER: u8 = 50;

/// Structural role of an operator.
#[derive(Clone, Copy, Debug, PartialEq, Eq, Structural)]
pub enum OperationType {
    Constant,
    Prefix,
    Postfix,
    Infix,
    Function,
}

impl OperationType {
    /// Number of operands an operator of this kind consumes.
    pub open spec fn arity(self) -> nat {
        match self {
            OperationType::Constant => 0,
            OperationType::Infix => 2,
            _ => 1,
        }
    }

    pub fn operand_count(self) -> (r: u8)
        ensures
            r as nat == self.arity(),
    {
        match self {
            OperationType::Constant => 0,
            OperationType::Infix => 2,
            _ => 1,
        }
    }

    /// Kinds that take their (first) operand from the left of the operator.
    pub open spec fn takes_left_operand(self) -> bool {
        self == OperationType::Infix || self == OperationType::Postfix
    }
}

/// Text recognition for one value domain.
pub trait PrimitiveHandler<T> {
    /// The value a complete literal stands for, or `Err` when it is no literal.
    /// Left unspecified by an implementation that does not state it.
    open spec fn parses_to(&self, input: Seq<char>) -> Result<T, ()> {
        arbitrary()
    }

    /// Whether the text is the beginning of some literal of the domain.
    /// Left unspecified by an implementation that does not state it.
    open spec fn is_literal_prefix(&self, input: Seq<char>) -> bool {
        arbitrary()
    }

    fn from_string(&self, input: &String) -> (r: Result<T, ()>)
        ensures
            r == self.parses_to(input@),
    ;

    fn can_start_with(&self, input: String) -> (r: bool)
        ensures
            r == self.is_literal_prefix(input@),
    ;
}

/// Compute function of an operator over a list of operands; `None` is a domain error.
pub trait OperationExecutor<T> {
    /// Left unspecified by an implementation that does not state it.
    open spec fn result_for(&self, operands: Seq<T>) -> Option<T> {
        arbitrary()
    }

    fn apply(&self, operands: &Vec<T>) -> (r: Option<T>)
        ensures
            r == self.result_for(operands@),
    ;
}

/// Compute function of a two-operand operator; `None` is a domain error.
pub trait BinaryOperationExecutor<T> {
    /// Left unspecified by an implementation that does not state it.
    open spec fn binary_result(&self, left: T, right: T) -> Option<T> {
        arbitrary()
    }

    fn apply(&self, left: &T, right: &T) -> (r: Option<T>)
        ensures
            r == self.binary_result(*left, *right),
    ;
}

/// Compute function of a one-operand operator; `None` is a domain error.
pub trait UnaryoperationExecutor<T> {
    /// Left unspecified by an implementation that does not state it.
    open spec fn unary_result(&self, operand: T) -> Option<T> {
        arbitrary()
    }

    fn apply(&self, operand: &T) -> (r: Option<T>)
        ensures
            r == self.unary_result(*operand),
    ;
}

/// How an operator computes its value.
#[verifier::reject_recursive_types(T)]
pub enum Compute<T> {
    /// A fixed value, handed out by cloning.
    Constant(T),
    Unary(Box<dyn UnaryoperationExecutor<T>>),
    Binary(Box<dyn BinaryOperationExecutor<T>>),
    General(Box<dyn OperationExecutor<T>>),
}

impl<T> Compute<T> {
    /// Whether this compute function can be handed `n` operands.
    pub open spec fn accepts(&self, n: nat) -> bool {
        match self {
            Compute::Constant(_) => n == 0,
            Compute::Unary(_) => n == 1,
            Compute::Binary(_) => n == 2,
            Compute::General(_) => true,
        }
    }

    /// The value computed from `args`, `None` on a domain error.
    pub open spec fn result_for(&self, args: Seq<T>) -> Option<T> {
        match self {
            Compute::Constant(v) => Some(*v),
            Compute::Unary(f) => f.unary_result(args[0]),
            Compute::Binary(f) => f.binary_result(args[0], args[1]),
            Compute::General(f) => f.result_for(args),
        }
    }
}

/// Name of the `i`-th operand in usage patterns; operands past the sixth are `...`.
pub open spec fn operand_name(i: nat) -> Seq<char> {
    if i == 0 {
        "x"@
    } else if i == 1 {
        "y"@
    } else if i == 2 {
        "z"@
    } else if i == 3 {
        "a"@
    } else if i == 4 {
        "b"@
    } else if i == 5 {
        "c"@
    } else {
        "..."@
    }
}

/// Names of the first `n` operands (at most seven), separated by `, `.
pub open spec fn operand_names(n: nat) -> Seq<char>
    decreases n,
{
    if n == 0 {
        Seq::empty()
    } else if n == 1 {
        operand_name(0)
    } else if n > 7 {
        operand_names(7)
    } else {
        operand_names((n - 1) as nat) + ", "@ + operand_name((n - 1) as nat)
    }
}

fn operand_name_text(i: u8) -> (r: &'static str)
    ensures
        r@ == operand_name(i as nat),
{
    if i == 0 {
        "x"
    } else if i == 1 {
        "y"
    } else if i == 2 {
        "z"
    } else if i == 3 {
        "a"
    } else if i == 4 {
        "b"
    } else if i == 5 {
        "c"
    } else {
        "..."
    }
}

fn operand_names_text(n: u8) -> (r: String)
    ensures
        r@ == operand_names(n as nat),
{
    let count: u8 = if n > 7 {
        7
    } else {
        n
    };
    if count == 0 {
        return String::new();
    }
    let mut text = String::from_str(operand_name_text(0));
    let mut i: u8 = 1;
    while i < count
        invariant
            1 <= i <= count <= 7,
            text@ == operand_names(i as nat),
        decreases count - i,
    {
        text = text.concat(", ").concat(operand_name_text(i));
        i += 1;
    }
    text
}

/// One registered operator.
#[verifier::reject_recursive_types(T)]
pub struct Operation<T> {
    pub signature: String,
    pub description: String,
    pub op_type: OperationType,
    pub operands: u8,
    pub priority: u8,
    pub calculate: Compute<T>,
}

impl<T> Operation<T> {
    /// The stored arity agrees with the kind and with the compute function.
    pub open spec fn wf(&self) -> bool {
        &&& self.operands as nat == self.op_type.arity()
        &&& self.calculate.accepts(self.operands as nat)
    }

    /// Usage pattern: `sig`, `sigx`, `xsig`, `xsigy`, or `sig(x)` with one name per operand.
    pub open spec fn pretty_spec(&self) -> Seq<char> {
        let sig = self.signature@;
        match self.op_type {
            OperationType::Constant => sig,
            OperationType::Prefix => sig + "x"@,
            OperationType::Postfix => "x"@ + sig,
            OperationType::Infix => "x"@ + sig + "y"@,
            OperationType::Function => sig + "("@ + operand_names(self.operands as nat) + ")"@,
        }
    }

    pub fn pretty(&self) -> (r: String)
        ensures
            r@ == self.pretty_spec(),
    {
        let sig = self.signature.as_str();
        match self.op_type {
            OperationType::Constant => String::from_str(sig),
            OperationType::Prefix => String::from_str(sig).concat("x"),
            OperationType::Postfix => String::from_str("x").concat(sig),
            OperationType::Infix => String::from_str("x").concat(sig).concat("y"),
            OperationType::Function => {
                let names = operand_names_text(self.operands);
                String::from_str(sig).concat("(").concat(names.as_str()).concat(")")
            },
        }
    }

    pub fn description(&self) -> (r: String)
        ensures
            r@ == self.description@,
    {
        self.description.clone()
    }

    pub fn priority(&self) -> (r: u8)
        ensures
            r == self.priority,
    {
        self.priority
    }
}

} // verus!
