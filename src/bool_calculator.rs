use vstd::prelude::*;
use crate::calculator::ExprCalculator;
use crate::parser::exact_clone;
use crate::error::Failure;
use crate::laws::lemma_single_literal;
use vstd::pervasive::strictly_cloned;
use crate::operation::{
    BinaryOperationExecutor, Compute, OperationType, PrimitiveHandler, UnaryoperationExecutor, HIGH_ORDER,
    LOW_ORDER,
};

verus! {

/// `c` is the lowercase ASCII letter `w` written in either letter case.
pub open spec fn same_letter(c: char, w: char) -> bool {
    c == w || ('A' <= c <= 'Z' && (c as u32) + 32 == w as u32)
}

/// `input` is a prefix of `word` with its letters in any case.
pub open spec fn case_blind_prefix(input: Seq<char>, word: Seq<char>) -> bool {
    input.len() <= word.len() && forall|i: int| 0 <= i < input.len() ==> same_letter(#[trigger] input[i], word[i])
}

/// The boolean a literal stands for: `true` or `false` in any letter case.
pub open spec fn bool_literal(s: Seq<char>) -> Result<bool, ()> {
    if s.len() == 4 && case_blind_prefix(s, "true"@) {
        Ok(true)
    } else if s.len() == 5 && case_blind_prefix(s, "false"@) {
        Ok(false)
    } else {
        Err(())
    }
}

/// Whether `input` is a prefix of `word` in any letter case.
fn case_blind_starts(word: &str, input: &str) -> (r: bool)
    ensures
        r == case_blind_prefix(input@, word@),
{
    let n = input.unicode_len();
    let m = word.unicode_len();
    if n > m {
        return false;
    }
    let mut i: usize = 0;
    while i < n
        invariant
            n == input@.len(),
            m == word@.len(),
            n <= m,
            i <= n,
            forall|k: int| 0 <= k < i ==> same_letter(#[trigger] input@[k], word@[k]),
        decreases n - i,
    {
        let c = input.get_char(i);
        let w = word.get_char(i);
        if !(c == w || ('A' <= c && c <= 'Z' && (c as u32) + 32 == w as u32)) {
            assert(!same_letter(input@[i as int], word@[i as int]));
            return false;
        }
        i += 1;
    }
    true
}

/// Literals `true` and `false`, in any letter case.
pub struct BoolHandler {}

impl PrimitiveHandler<bool> for BoolHandler {
    open spec fn parses_to(&self, input: Seq<char>) -> Result<bool, ()> {
        bool_literal(input)
    }

    open spec fn is_literal_prefix(&self, input: Seq<char>) -> bool {
        case_blind_prefix(input, "true"@) || case_blind_prefix(input, "false"@)
    }

    fn from_string(&self, input: &String) -> (r: Result<bool, ()>) {
        let text = input.as_str();
        let n = text.unicode_len();
        proof {
            reveal_strlit("true");
            reveal_strlit("false");
        }
        if n == 4 && case_blind_starts("true", text) {
            Ok(true)
        } else if n == 5 && case_blind_starts("false", text) {
            Ok(false)
        } else {
            Err(())
        }
    }

    fn can_start_with(&self, input: String) -> (r: bool) {
        case_blind_starts("true", input.as_str()) || case_blind_starts("false", input.as_str())
    }
}

/// Every prefix of a literal begins a literal, and a text that begins no literal never
/// begins one again however it is extended.
pub proof fn lemma_bool_prefixes(h: &BoolHandler, input: Seq<char>, more: Seq<char>)
    ensures
        h.parses_to(input) is Ok ==> forall|k: int|
            0 <= k <= input.len() ==> #[trigger] h.is_literal_prefix(input.take(k)),
        !h.is_literal_prefix(input) ==> !h.is_literal_prefix(input + more),
{
    assert forall|k: int| 0 <= k <= input.len() && h.parses_to(input) is Ok implies
        #[trigger] h.is_literal_prefix(input.take(k)) by {
        assert forall|i: int| 0 <= i < input.take(k).len() implies input.take(k)[i] == input[i] by {}
        if case_blind_prefix(input, "true"@) {
            assert(case_blind_prefix(input.take(k), "true"@));
        } else {
            assert(case_blind_prefix(input.take(k), "false"@));
        }
    }
    if h.is_literal_prefix(input + more) {
        let ext = input + more;
        assert forall|i: int| 0 <= i < input.len() implies ext[i] == input[i] by {}
        if case_blind_prefix(ext, "true"@) {
            assert(case_blind_prefix(input, "true"@));
        } else {
            assert(case_blind_prefix(input, "false"@));
        }
    }
}

/// Logical or.
pub struct Or;

/// Logical and.
pub struct And;

/// Exclusive or.
pub struct Xor;

/// Negation.
pub struct Not;

impl BinaryOperationExecutor<bool> for Or {
    open spec fn binary_result(&self, left: bool, right: bool) -> Option<bool> {
        Some(left || right)
    }

    fn apply(&self, left: &bool, right: &bool) -> (r: Option<bool>) {
        Some(*left || *right)
    }
}

impl BinaryOperationExecutor<bool> for And {
    open spec fn binary_result(&self, left: bool, right: bool) -> Option<bool> {
        Some(left && right)
    }

    fn apply(&self, left: &bool, right: &bool) -> (r: Option<bool>) {
        Some(*left && *right)
    }
}

impl BinaryOperationExecutor<bool> for Xor {
    open spec fn binary_result(&self, left: bool, right: bool) -> Option<bool> {
        Some(left != right)
    }

    fn apply(&self, left: &bool, right: &bool) -> (r: Option<bool>) {
        Some(*left != *right)
    }
}

impl UnaryoperationExecutor<bool> for Not {
    open spec fn unary_result(&self, operand: bool) -> Option<bool> {
        Some(!operand)
    }

    fn apply(&self, operand: &bool) -> (r: Option<bool>) {
        Some(!*operand)
    }
}

/// Calculator over booleans: infix `|`, `&`, `^` sharing one priority, and prefix `!` above them.
pub fn boolean_calculator() -> (r: ExprCalculator<bool, BoolHandler>)
    ensures
        r.wf(),
        r.ops().len() == 4,
        r.ops()[0].signature@ == "|"@ && r.ops()[0].op_type == OperationType::Infix && r.ops()[0].priority
            == LOW_ORDER,
        r.ops()[1].signature@ == "&"@ && r.ops()[1].op_type == OperationType::Infix && r.ops()[1].priority
            == LOW_ORDER,
        r.ops()[2].signature@ == "^"@ && r.ops()[2].op_type == OperationType::Infix && r.ops()[2].priority
            == LOW_ORDER,
        r.ops()[3].signature@ == "!"@ && r.ops()[3].op_type == OperationType::Prefix && r.ops()[3].priority
            == HIGH_ORDER,
        r.ops()[0].description@ == "OR"@ && r.ops()[1].description@ == "AND"@,
        r.ops()[2].description@ == "XOR"@ && r.ops()[3].description@ == "NOT"@,
        r.handler == (BoolHandler {}),
{
    proof {
        reveal_strlit("|");
        reveal_strlit("&");
        reveal_strlit("^");
        reveal_strlit("!");
        assert("|"@[0] != "&"@[0] && "|"@[0] != "^"@[0] && "&"@[0] != "^"@[0]);
    }
    let mut result = ExprCalculator::<bool, BoolHandler>::new(BoolHandler {});
    let added = result.add_infix(String::from_str("|"), String::from_str("OR"), Box::new(Or), LOW_ORDER);
    assert(added is Ok);
    let added = result.add_infix(String::from_str("&"), String::from_str("AND"), Box::new(And), LOW_ORDER);
    assert(!result.matches(0, "&"@, OperationType::Infix));
    assert(added is Ok);
    let added = result.add_infix(String::from_str("^"), String::from_str("XOR"), Box::new(Xor), LOW_ORDER);
    assert(!result.matches(0, "^"@, OperationType::Infix));
    assert(!result.matches(1, "^"@, OperationType::Infix));
    assert(added is Ok);
    let added = result.add_prefix(String::from_str("!"), String::from_str("NOT"), Box::new(Not), HIGH_ORDER);
    assert(added is Ok);
    result
}

/// Booleans clone exactly, as evaluation requires of its value type.
pub proof fn lemma_bool_clones_exactly()
    ensures
        exact_clone::<bool>(),
{
    assert forall|a: bool, b: bool| #[trigger] strictly_cloned(a, b) implies a == b by {}
}

/// On any calculator reading boolean literals, input made of one literal, in any letter
/// case, evaluates to the boolean it stands for.
pub proof fn lemma_bool_literal_evaluates(calc: &ExprCalculator<bool, BoolHandler>, input: Seq<char>, b: bool)
    requires
        calc.wf(),
        bool_literal(input) == Ok::<bool, ()>(b),
    ensures
        calc.evaluate(input) == Ok::<bool, Failure<bool>>(b),
{
    reveal_strlit("true");
    reveal_strlit("false");
    lemma_bool_prefixes(&calc.handler, input, Seq::empty());
    assert(same_letter(input[0], if b { 't' } else { 'f' }));
    lemma_single_literal(calc, input, b);
}

} // verus!
