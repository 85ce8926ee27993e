use expr_calculator::bool_calculator::{boolean_calculator, BoolHandler};
use expr_calculator::calculator::{ExprCalculator, RegistryError};
use expr_calculator::error::CalcError;
use expr_calculator::operation::{
    BinaryOperationExecutor, OperationExecutor, OperationType, PrimitiveHandler, UnaryoperationExecutor,
    HIGHEST_ORDER, HIGH_ORDER, LOWEST_ORDER, LOW_ORDER, MEDIUM_ORDER,
};
use expr_calculator::token::Token;

struct NumberHandler;

impl PrimitiveHandler<f64> for NumberHandler {
    fn from_string(&self, input: &String) -> Result<f64, ()> {
        input.parse::<f64>().map_err(|_| ())
    }

    fn can_start_with(&self, input: String) -> bool {
        let mut seen_digit = false;
        let mut seen_dot = false;
        for c in input.chars() {
            if c.is_ascii_digit() {
                seen_digit = true;
            } else if c == '.' && seen_digit && !seen_dot {
                seen_dot = true;
            } else {
                return false;
            }
        }
        seen_digit
    }
}

struct Add;
struct Sub;
struct Mul;
struct Div;
struct Pow;
struct Neg;
struct Sqrt;
struct Sum;

impl BinaryOperationExecutor<f64> for Add {
    fn apply(&self, left: &f64, right: &f64) -> Option<f64> {
        Some(left + right)
    }
}

impl BinaryOperationExecutor<f64> for Sub {
    fn apply(&self, left: &f64, right: &f64) -> Option<f64> {
        Some(left - right)
    }
}

impl BinaryOperationExecutor<f64> for Mul {
    fn apply(&self, left: &f64, right: &f64) -> Option<f64> {
        Some(left * right)
    }
}

impl BinaryOperationExecutor<f64> for Div {
    fn apply(&self, left: &f64, right: &f64) -> Option<f64> {
        if *right == 0.0 {
            None
        } else {
            Some(left / right)
        }
    }
}

impl BinaryOperationExecutor<f64> for Pow {
    fn apply(&self, left: &f64, right: &f64) -> Option<f64> {
        Some(left.powf(*right))
    }
}

impl UnaryoperationExecutor<f64> for Neg {
    fn apply(&self, operand: &f64) -> Option<f64> {
        Some(-operand)
    }
}

impl UnaryoperationExecutor<f64> for Sqrt {
    fn apply(&self, operand: &f64) -> Option<f64> {
        if *operand < 0.0 {
            None
        } else {
            Some(operand.sqrt())
        }
    }
}

impl OperationExecutor<f64> for Sum {
    fn apply(&self, operands: &Vec<f64>) -> Option<f64> {
        Some(operands.iter().sum())
    }
}

fn number_calculator() -> ExprCalculator<f64, NumberHandler> {
    let mut calc = ExprCalculator::new(NumberHandler);
    calc.add_prefix("-".to_string(), "Negation".to_string(), Box::new(Neg), HIGH_ORDER).unwrap();
    calc.add_infix("+".to_string(), "Addition".to_string(), Box::new(Add), LOWEST_ORDER).unwrap();
    calc.add_infix("-".to_string(), "Subtraction".to_string(), Box::new(Sub), LOWEST_ORDER).unwrap();
    calc.add_infix("*".to_string(), "Multiplication".to_string(), Box::new(Mul), LOW_ORDER).unwrap();
    calc.add_infix("/".to_string(), "Division".to_string(), Box::new(Div), LOW_ORDER).unwrap();
    calc.add_infix("^".to_string(), "Power".to_string(), Box::new(Pow), MEDIUM_ORDER).unwrap();
    calc.add_one_argument_function("sqrt".to_string(), "Square root".to_string(), Box::new(Sqrt), HIGHEST_ORDER)
        .unwrap();
    calc.add_postfix("sq".to_string(), "Square root, written after".to_string(), Box::new(Sqrt), HIGHEST_ORDER).unwrap();
    calc.add_constant("pi".to_string(), "Pi".to_string(), std::f64::consts::PI).unwrap();
    calc
}

fn value(input: &str) -> f64 {
    match number_calculator().calculate(input) {
        Ok(v) => v,
        Err(e) => panic!("{} failed: {}", input, e.to_string()),
    }
}

fn parse_error_at(input: &str) -> (usize, String) {
    match number_calculator().calculate(input) {
        Err(CalcError::Parse { pos, text }) => (pos, text),
        _ => panic!("expected a parse error for {}", input),
    }
}

#[test]
fn multiplication_binds_tighter_than_addition() {
    assert_eq!(value("2+3*4"), 14.0);
}

#[test]
fn parentheses_override_priority() {
    assert_eq!(value("(2+3)*4"), 20.0);
}

#[test]
fn prefix_negation_before_low_priority_infix() {
    assert_eq!(value("-5+3"), -2.0);
}

#[test]
fn equal_priority_chain_is_left_associative() {
    assert_eq!(value("2^3^2"), 64.0);
    assert_eq!(value("10-3-2"), 5.0);
    assert_eq!(value("8/2/2"), 2.0);
}

#[test]
fn fully_parenthesized_matches_direct_evaluation() {
    assert_eq!(value("((1+2)*(3-(4/2)))"), 3.0);
    assert_eq!(value("(-(2^3))"), -8.0);
}

#[test]
fn higher_priority_operator_nests_as_right_operand() {
    assert_eq!(value("1-2*3"), -5.0);
    assert_eq!(value("2*3-1"), 5.0);
}

#[test]
fn whitespace_is_ignored_between_tokens() {
    assert_eq!(value("  2 *   ( 3 + 4 ) "), 14.0);
}

#[test]
fn single_literal_evaluates_to_itself() {
    assert_eq!(value("42"), 42.0);
    assert_eq!(value("3.25"), 3.25);
}

#[test]
fn empty_input_is_an_empty_expression() {
    assert!(matches!(number_calculator().calculate(""), Err(CalcError::Empty)));
}

#[test]
fn whitespace_only_input_is_an_empty_expression() {
    assert!(matches!(number_calculator().calculate("    "), Err(CalcError::Empty)));
}

#[test]
fn unmatched_close_reported_at_its_position() {
    assert_eq!(parse_error_at("2+3)"), (3, ")".to_string()));
    assert_eq!(parse_error_at(")"), (0, ")".to_string()));
}

#[test]
fn unclosed_open_reported_at_end_of_input() {
    assert_eq!(parse_error_at("(2+3"), (4, String::new()));
    assert_eq!(parse_error_at("((1)"), (4, String::new()));
}

#[test]
fn dangling_infix_reports_the_operator() {
    assert_eq!(parse_error_at("2*"), (1, "*".to_string()));
}

#[test]
fn leftover_operand_reports_last_token() {
    assert_eq!(parse_error_at("2 3"), (2, "3".to_string()));
}

#[test]
fn unknown_character_is_a_lexical_error() {
    match number_calculator().calculate("2 # 3") {
        Err(CalcError::Lexical { pos, text }) => {
            assert_eq!(pos, 2);
            assert_eq!(text, "#");
        },
        _ => panic!("expected a lexical error"),
    }
}

#[test]
fn operator_out_of_place_is_a_lexical_error() {
    match number_calculator().calculate("*2") {
        Err(CalcError::Lexical { pos, text }) => {
            assert_eq!(pos, 0);
            assert_eq!(text, "*");
        },
        _ => panic!("expected a lexical error"),
    }
}

#[test]
fn domain_error_carries_operator_and_operands() {
    match number_calculator().calculate("1+sqrt(0-4)") {
        Err(CalcError::Domain { pos, signature, operands }) => {
            assert_eq!(pos, 2);
            assert_eq!(signature, "sqrt");
            assert_eq!(operands, vec![-4.0]);
        },
        _ => panic!("expected a domain error"),
    }
    match number_calculator().calculate("1/0") {
        Err(CalcError::Domain { pos, signature, operands }) => {
            assert_eq!(pos, 1);
            assert_eq!(signature, "/");
            assert_eq!(operands, vec![1.0, 0.0]);
        },
        _ => panic!("expected a domain error"),
    }
}

#[test]
fn functions_postfix_and_constants() {
    assert_eq!(value("sqrt(16)"), 4.0);
    assert_eq!(value("16sq"), 4.0);
    assert_eq!(value("2*pi"), 2.0 * std::f64::consts::PI);
}

#[test]
fn minus_is_prefix_or_infix_by_context() {
    let calc = number_calculator();
    let tokens = match calc.tokenize("-1-(-2)") {
        Ok(tokens) => tokens,
        Err(_) => panic!("tokenize failed"),
    };
    let kinds: Vec<OperationType> = tokens
        .iter()
        .filter_map(|t| match t {
            Token::Operation { index, .. } => Some(calc.operations[*index].op_type),
            _ => None,
        })
        .collect();
    assert_eq!(kinds, vec![OperationType::Prefix, OperationType::Infix, OperationType::Prefix]);
}

#[test]
fn tokenizing_twice_gives_the_same_tokens() {
    let calc = number_calculator();
    let describe = |input: &str| -> Vec<String> {
        match calc.tokenize(input) {
            Ok(tokens) => tokens.iter().map(|t| t.to_string()).collect(),
            Err(_) => panic!("tokenize failed"),
        }
    };
    assert_eq!(describe("sqrt(2) + 10 * pi"), describe("sqrt(2) + 10 * pi"));
    assert_eq!(value("2+3*4"), value("2+3*4"));
}

#[test]
fn tokens_record_their_offsets() {
    let calc = number_calculator();
    let tokens = match calc.tokenize("12 +sqrt") {
        Ok(tokens) => tokens,
        Err(_) => panic!("tokenize failed"),
    };
    let positions: Vec<usize> = tokens.iter().map(|t| t.get_pos()).collect();
    let texts: Vec<String> = tokens.iter().map(|t| t.get_value()).collect();
    assert_eq!(positions, vec![0, 2, 3, 4]);
    assert_eq!(texts, vec!["12", " ", "+", "sqrt"]);
}

#[test]
fn token_description_names_text_and_position() {
    let token: Token<f64> = Token::Unknown { pos: 12, val: "#".to_string() };
    assert_eq!(token.to_string(), "'#' at position 12");
    assert_eq!(Token::<f64>::Open { pos: 3 }.to_string(), "'(' at position 3");
}

#[test]
fn error_descriptions() {
    let unclosed: CalcError<f64> = CalcError::Parse { pos: 4, text: String::new() };
    assert_eq!(unclosed.to_string(), "end of input at position 4");
    assert_eq!(unclosed.get_pos(), 4);
    let stray: CalcError<f64> = CalcError::Parse { pos: 3, text: ")".to_string() };
    assert_eq!(stray.to_string(), "')' at position 3");
    let domain: CalcError<f64> = CalcError::Domain { pos: 1, signature: "/".to_string(), operands: vec![] };
    assert_eq!(domain.to_string(), "operands out of domain of '/' at position 1");
    assert_eq!(CalcError::<f64>::Empty.to_string(), "empty expression");
}

#[test]
fn operator_prefix_query() {
    let calc = number_calculator();
    assert!(calc.can_be_operation("sq"));
    assert!(calc.can_be_operation("sqr"));
    assert!(!calc.can_be_operation("sqx"));
    assert_eq!(calc.make_by_type("-", OperationType::Infix), Some(2));
    assert_eq!(calc.make_by_type("-", OperationType::Prefix), Some(0));
    assert_eq!(calc.make_by_type("-", OperationType::Postfix), None);
}

#[test]
fn duplicate_registration_is_refused() {
    let mut calc = number_calculator();
    let before = calc.operations.len();
    assert_eq!(calc.add_infix("+".to_string(), "Again".to_string(), Box::new(Add), LOW_ORDER), Err(RegistryError::Duplicate));
    assert_eq!(calc.operations.len(), before);
    assert_eq!(calc.add_postfix("-".to_string(), "Other kind".to_string(), Box::new(Neg), LOW_ORDER), Ok(()));
}

#[test]
fn arity_must_fit_kind() {
    let mut calc = number_calculator();
    assert_eq!(
        calc.add("sum".to_string(), "Sum".to_string(), OperationType::Infix, Box::new(Sum), 3, LOW_ORDER),
        Err(RegistryError::ArityMismatch)
    );
    assert_eq!(
        calc.add("plus".to_string(), "Sum".to_string(), OperationType::Infix, Box::new(Sum), 2, LOWEST_ORDER),
        Ok(())
    );
    assert_eq!(calc.calculate("2 plus 3*2").ok(), Some(8.0));
}

#[test]
fn constant_priority_is_highest() {
    let calc = number_calculator();
    let pi = &calc.operations[calc.make_by_type("pi", OperationType::Constant).unwrap()];
    assert_eq!(pi.priority(), u8::MAX);
    assert_eq!(pi.description(), "Pi");
}

#[test]
fn usage_patterns() {
    let calc = number_calculator();
    let pretty: Vec<String> = calc.operations.iter().map(|op| op.pretty()).collect();
    assert_eq!(pretty, vec!["-x", "x+y", "x-y", "x*y", "x/y", "x^y", "sqrt(x)", "xsq", "pi"]);
}

#[test]
fn boolean_and_or_share_priority_left_to_right() {
    assert_eq!(boolean_calculator().calculate("true & false | true").ok(), Some(true));
    assert_eq!(boolean_calculator().calculate("false & true | false").ok(), Some(false));
}

#[test]
fn boolean_negation_and_xor() {
    let calc = boolean_calculator();
    assert_eq!(calc.calculate("!true").ok(), Some(false));
    assert_eq!(calc.calculate("!(true & false)").ok(), Some(true));
    assert_eq!(calc.calculate("true ^ true").ok(), Some(false));
    assert_eq!(calc.calculate("true | false ^ (true&!false)").ok(), Some(false));
}

#[test]
fn boolean_literals_in_any_letter_case() {
    let calc = boolean_calculator();
    assert_eq!(calc.calculate("TRUE").ok(), Some(true));
    assert_eq!(calc.calculate("True & fAlSe").ok(), Some(false));
    assert_eq!(calc.calculate("!FALSE").ok(), Some(true));
}

#[test]
fn boolean_literal_parse_and_prefixes_agree() {
    let handler = BoolHandler {};
    assert_eq!(handler.from_string(&"TRUE".to_string()), Ok(true));
    assert_eq!(handler.from_string(&"False".to_string()), Ok(false));
    assert_eq!(handler.from_string(&"tru".to_string()), Err(()));
    assert_eq!(handler.from_string(&"truex".to_string()), Err(()));
    assert!(handler.can_start_with("T".to_string()));
    assert!(handler.can_start_with("fAL".to_string()));
    assert!(handler.can_start_with("".to_string()));
    assert!(!handler.can_start_with("x".to_string()));
    assert!(!handler.can_start_with("truee".to_string()));
}

#[test]
fn boolean_registry_shape() {
    let calc = boolean_calculator();
    let sigs: Vec<String> = calc.operations.iter().map(|op| op.signature.clone()).collect();
    assert_eq!(sigs, vec!["|", "&", "^", "!"]);
    assert_eq!(calc.operations[3].priority(), HIGH_ORDER);
}

struct Double;

impl UnaryoperationExecutor<f64> for Double {
    fn apply(&self, operand: &f64) -> Option<f64> {
        Some(operand * 2.0)
    }
}

#[test]
fn literal_turns_into_operator_when_only_an_operator_fits() {
    let mut calc = number_calculator();
    calc.add_one_argument_function("2x".to_string(), "Double".to_string(), Box::new(Double), HIGHEST_ORDER)
        .unwrap();
    assert_eq!(calc.calculate("2x(3)+23").ok(), Some(29.0));
}
