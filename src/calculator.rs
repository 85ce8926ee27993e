use vstd::prelude::*;
use crate::operation::{
    BinaryOperationExecutor, Compute, Operation, OperationExecutor, OperationType,
    PrimitiveHandler, UnaryoperationExecutor,
};

verus! {

/// Operator registry together with the literal recognizer of one value domain.
#[verifier::reject_recursive_types(T)]
pub struct ExprCalculator<T, H> {
    pub operations: Vec<Operation<T>>,
    pub handler: H,
}

/// Why a registration was refused.
#[derive(Clone, Copy, Debug, PartialEq, Eq, Structural)]
pub enum RegistryError {
    /// An operator with the same signature and kind is already registered.
    Duplicate,
    /// The number of operands does not fit the kind.
    ArityMismatch,
}

/// Whether `s` begins with `prefix`.
pub(crate) fn str_starts_with(s: &str, prefix: &str) -> (r: bool)
    ensures
        r == prefix@.is_prefix_of(s@),
{
    let n = prefix.unicode_len();
    if n > s.unicode_len() {
        return false;
    }
    let mut i: usize = 0;
    while i < n
        invariant
            n == prefix@.len(),
            n <= s@.len(),
            i <= n,
            forall|k: int| 0 <= k < i ==> prefix@[k] == s@[k],
        decreases n - i,
    {
        if prefix.get_char(i) != s.get_char(i) {
            return false;
        }
        i += 1;
    }
    assert(prefix@ =~= s@.subrange(0, n as int));
    true
}

/// Whether two texts are the same sequence of characters.
pub(crate) fn same_text(a: &str, b: &str) -> (r: bool)
    ensures
        r == (a@ == b@),
{
    let same = str_starts_with(a, b) && a.unicode_len() == b.unicode_len();
    proof {
        if b@.is_prefix_of(a@) && a@.len() == b@.len() {
            assert(a@ =~= b@);
        }
    }
    same
}

/// `ops` is `prev` with one operator appended that has these fields.
pub open spec fn appended<T>(
    ops: Seq<Operation<T>>,
    prev: Seq<Operation<T>>,
    signature: Seq<char>,
    description: Seq<char>,
    op_type: OperationType,
    operands: u8,
    priority: u8,
) -> bool {
    &&& ops.len() == prev.len() + 1
    &&& ops.drop_last() == prev
    &&& ops.last().signature@ == signature
    &&& ops.last().description@ == description
    &&& ops.last().op_type == op_type
    &&& ops.last().operands == operands
    &&& ops.last().priority == priority
}

impl<T, H: PrimitiveHandler<T>> ExprCalculator<T, H> {
    pub open spec fn ops(&self) -> Seq<Operation<T>> {
        self.operations@
    }

    /// Every operator is well formed and no two share both signature and kind.
    pub open spec fn wf(&self) -> bool {
        &&& forall|i: int| 0 <= i < self.ops().len() ==> (#[trigger] self.ops()[i]).wf()
        &&& forall|i: int, j: int|
            0 <= i < self.ops().len() && 0 <= j < self.ops().len() && #[trigger] self.same_key(i, j)
                ==> i == j
    }

    /// The operators at `i` and `j` share signature and kind.
    pub open spec fn same_key(&self, i: int, j: int) -> bool {
        self.ops()[i].signature@ == self.ops()[j].signature@ && self.ops()[i].op_type
            == self.ops()[j].op_type
    }

    /// Some registered signature starts with `text`.
    pub open spec fn is_operation_prefix(&self, text: Seq<char>) -> bool {
        exists|i: int| 0 <= i < self.ops().len() && text.is_prefix_of(#[trigger] self.ops()[i].signature@)
    }

    pub open spec fn matches(&self, i: int, text: Seq<char>, kind: OperationType) -> bool {
        self.ops()[i].signature@ == text && self.ops()[i].op_type == kind
    }

    /// An operator with exactly this signature and kind is registered.
    pub open spec fn has_operation(&self, text: Seq<char>, kind: OperationType) -> bool {
        exists|i: int| 0 <= i < self.ops().len() && #[trigger] self.matches(i, text, kind)
    }

    /// The index of the operator with this signature and kind.
    pub open spec fn operation_index(&self, text: Seq<char>, kind: OperationType) -> int {
        choose|i: int| 0 <= i < self.ops().len() && #[trigger] self.matches(i, text, kind)
    }

    pub open spec fn registration_result(
        &self,
        signature: Seq<char>,
        op_type: OperationType,
        operands: u8,
    ) -> Result<(), RegistryError> {
        if operands as nat != op_type.arity() {
            Err(RegistryError::ArityMismatch)
        } else if self.has_operation(signature, op_type) {
            Err(RegistryError::Duplicate)
        } else {
            Ok(())
        }
    }

    pub fn new(handler: H) -> (r: ExprCalculator<T, H>)
        ensures
            r.wf(),
            r.ops().len() == 0,
            r.handler == handler,
    {
        ExprCalculator { operations: Vec::new(), handler }
    }

    /// Index of the operator with this signature and kind, if one is registered.
    pub fn make_by_type(&self, value: &str, op_type: OperationType) -> (r: Option<usize>)
        requires
            self.wf(),
        ensures
            r is None <==> !self.has_operation(value@, op_type),
            r is Some ==> r->0 == self.operation_index(value@, op_type),
            r is Some ==> r->0 < self.ops().len(),
    {
        let mut i: usize = 0;
        while i < self.operations.len()
            invariant
                self.wf(),
                i <= self.ops().len(),
                forall|j: int| 0 <= j < i ==> !#[trigger] self.matches(j, value@, op_type),
            decreases self.ops().len() - i,
        {
            let op = &self.operations[i];
            if op.op_type == op_type && same_text(op.signature.as_str(), value) {
                proof {
                    assert(self.matches(i as int, value@, op_type));
                    assert(self.same_key(self.operation_index(value@, op_type), i as int));
                }
                return Some(i);
            }
            i += 1;
        }
        None
    }

    /// Whether some registered signature starts with `text`.
    pub fn can_be_operation(&self, text: &str) -> (r: bool)
        ensures
            r == self.is_operation_prefix(text@),
    {
        let mut i: usize = 0;
        while i < self.operations.len()
            invariant
                i <= self.ops().len(),
                forall|j: int| 0 <= j < i ==> !text@.is_prefix_of(#[trigger] self.ops()[j].signature@),
            decreases self.ops().len() - i,
        {
            if str_starts_with(self.operations[i].signature.as_str(), text) {
                return true;
            }
            i += 1;
        }
        false
    }

    fn register(&mut self, op: Operation<T>) -> (r: Result<(), RegistryError>)
        requires
            old(self).wf(),
            op.calculate.accepts(op.operands as nat),
        ensures
            r == old(self).registration_result(op.signature@, op.op_type, op.operands),
            final(self).wf(),
            final(self).handler == old(self).handler,
            r is Ok ==> final(self).ops() == old(self).ops().push(op),
            r is Ok ==> appended(
                final(self).ops(),
                old(self).ops(),
                op.signature@,
                op.description@,
                op.op_type,
                op.operands,
                op.priority,
            ),
            r is Err ==> final(self).ops() == old(self).ops(),
    {
        if op.operands != op.op_type.operand_count() {
            return Err(RegistryError::ArityMismatch);
        }
        if self.make_by_type(op.signature.as_str(), op.op_type).is_some() {
            return Err(RegistryError::Duplicate);
        }
        self.operations.push(op);
        assert(self.ops().drop_last() =~= old(self).ops());
        assert(forall|i: int| 0 <= i < old(self).ops().len() ==> #[trigger] self.ops()[i] == old(self).ops()[i]);
        let ghost n = old(self).ops().len() as int;
        assert forall|i: int, j: int|
            0 <= i < self.ops().len() && 0 <= j < self.ops().len() && #[trigger] self.same_key(i, j)
            implies i == j by {
            if i == n && j < n {
                assert(old(self).matches(j, op.signature@, op.op_type));
            } else if j == n && i < n {
                assert(old(self).matches(i, op.signature@, op.op_type));
            } else if i < n && j < n {
                assert(old(self).same_key(i, j));
            }
        }
        Ok(())
    }

    /// Registers an operator with an explicit kind and number of operands.
    pub fn add(
        &mut self,
        signature: String,
        description: String,
        op_type: OperationType,
        calculate: Box<dyn OperationExecutor<T>>,
        operands: u8,
        order: u8,
    ) -> (r: Result<(), RegistryError>)
        requires
            old(self).wf(),
        ensures
            r == old(self).registration_result(signature@, op_type, operands),
            final(self).wf(),
            final(self).handler == old(self).handler,
            r is Ok ==> appended(
                final(self).ops(),
                old(self).ops(),
                signature@,
                description@,
                op_type,
                operands,
                order,
            ),
            r is Ok ==> final(self).ops() == old(self).ops().push(
                Operation {
                    signature,
                    description,
                    op_type,
                    operands,
                    priority: order,
                    calculate: Compute::General(calculate),
                },
            ),
            r is Err ==> final(self).ops() == old(self).ops(),
    {
        self.register(
            Operation {
                signature,
                description,
                op_type,
                operands,
                priority: order,
                calculate: Compute::General(calculate),
            },
        )
    }

    pub fn add_prefix(
        &mut self,
        signature: String,
        description: String,
        calculate: Box<dyn UnaryoperationExecutor<T>>,
        order: u8,
    ) -> (r: Result<(), RegistryError>)
        requires
            old(self).wf(),
        ensures
            r == old(self).registration_result(signature@, OperationType::Prefix, 1),
            final(self).wf(),
            final(self).handler == old(self).handler,
            r is Ok ==> appended(
                final(self).ops(),
                old(self).ops(),
                signature@,
                description@,
                OperationType::Prefix,
                1,
                order,
            ),
            r is Ok ==> final(self).ops() == old(self).ops().push(
                Operation {
                    signature,
                    description,
                    op_type: OperationType::Prefix,
                    operands: 1,
                    priority: order,
                    calculate: Compute::Unary(calculate),
                },
            ),
            r is Err ==> final(self).ops() == old(self).ops(),
    {
        self.register(
            Operation {
                signature,
                description,
                op_type: OperationType::Prefix,
                operands: 1,
                priority: order,
                calculate: Compute::Unary(calculate),
            },
        )
    }

    pub fn add_postfix(
        &mut self,
        signature: String,
        description: String,
        calculate: Box<dyn UnaryoperationExecutor<T>>,
        order: u8,
    ) -> (r: Result<(), RegistryError>)
        requires
            old(self).wf(),
        ensures
            r == old(self).registration_result(signature@, OperationType::Postfix, 1),
            final(self).wf(),
            final(self).handler == old(self).handler,
            r is Ok ==> appended(
                final(self).ops(),
                old(self).ops(),
                signature@,
                description@,
                OperationType::Postfix,
                1,
                order,
            ),
            r is Ok ==> final(self).ops() == old(self).ops().push(
                Operation {
                    signature,
                    description,
                    op_type: OperationType::Postfix,
                    operands: 1,
                    priority: order,
                    calculate: Compute::Unary(calculate),
                },
            ),
            r is Err ==> final(self).ops() == old(self).ops(),
    {
        self.register(
            Operation {
                signature,
                description,
                op_type: OperationType::Postfix,
                operands: 1,
                priority: order,
                calculate: Compute::Unary(calculate),
            },
        )
    }

    /// Registers a named constant; constants bind tighter than any operator.
    pub fn add_constant(&mut self, signature: String, description: String, value: T) -> (r: Result<
        (),
        RegistryError,
    >)
        requires
            old(self).wf(),
        ensures
            r == old(self).registration_result(signature@, OperationType::Constant, 0),
            final(self).wf(),
            final(self).handler == old(self).handler,
            r is Ok ==> appended(
                final(self).ops(),
                old(self).ops(),
                signature@,
                description@,
                OperationType::Constant,
                0,
                u8::MAX,
            ),
            r is Ok ==> final(self).ops().last().calculate == Compute::Constant(value),
            r is Ok ==> final(self).ops() == old(self).ops().push(
                Operation {
                    signature,
                    description,
                    op_type: OperationType::Constant,
                    operands: 0,
                    priority: u8::MAX,
                    calculate: Compute::Constant(value),
                },
            ),
            r is Err ==> final(self).ops() == old(self).ops(),
    {
        self.register(
            Operation {
                signature,
                description,
                op_type: OperationType::Constant,
                operands: 0,
                priority: u8::MAX,
                calculate: Compute::Constant(value),
            },
        )
    }

    pub fn add_one_argument_function(
        &mut self,
        signature: String,
        description: String,
        calculate: Box<dyn UnaryoperationExecutor<T>>,
        order: u8,
    ) -> (r: Result<(), RegistryError>)
        requires
            old(self).wf(),
        ensures
            r == old(self).registration_result(signature@, OperationType::Function, 1),
            final(self).wf(),
            final(self).handler == old(self).handler,
            r is Ok ==> appended(
                final(self).ops(),
                old(self).ops(),
                signature@,
                description@,
                OperationType::Function,
                1,
                order,
            ),
            r is Ok ==> final(self).ops() == old(self).ops().push(
                Operation {
                    signature,
                    description,
                    op_type: OperationType::Function,
                    operands: 1,
                    priority: order,
                    calculate: Compute::Unary(calculate),
                },
            ),
            r is Err ==> final(self).ops() == old(self).ops(),
    {
        self.register(
            Operation {
                signature,
                description,
                op_type: OperationType::Function,
                operands: 1,
                priority: order,
                calculate: Compute::Unary(calculate),
            },
        )
    }

    pub fn add_infix(
        &mut self,
        signature: String,
        description: String,
        calculate: Box<dyn BinaryOperationExecutor<T>>,
        order: u8,
    ) -> (r: Result<(), RegistryError>)
        requires
            old(self).wf(),
        ensures
            r == old(self).registration_result(signature@, OperationType::Infix, 2),
            final(self).wf(),
            final(self).handler == old(self).handler,
            r is Ok ==> appended(
                final(self).ops(),
                old(self).ops(),
                signature@,
                description@,
                OperationType::Infix,
                2,
                order,
            ),
            r is Ok ==> final(self).ops() == old(self).ops().push(
                Operation {
                    signature,
                    description,
                    op_type: OperationType::Infix,
                    operands: 2,
                    priority: order,
                    calculate: Compute::Binary(calculate),
                },
            ),
            r is Err ==> final(self).ops() == old(self).ops(),
    {
        self.register(
            Operation {
                signature,
                description,
                op_type: OperationType::Infix,
                operands: 2,
                priority: order,
                calculate: Compute::Binary(calculate),
            },
        )
    }
}

} // verus!
