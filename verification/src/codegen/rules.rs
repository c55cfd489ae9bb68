//! What instructions the parts of a script become.

use crate::ast::parts;
use crate::ast::statement::{Function, Statement, Variable};
use crate::ast::{Constant, Expression, Literal};
use crate::codegen::module::{
    BlockId, Incoming, InstView, ModuleView, Operation, Predicate, Value, ValueType,
};
use crate::lexer::token::{TType, Token};
use vstd::prelude::*;

verus! {

/// Why no value could be computed.
pub ghost enum Fault {
    /// The source has an error.
    Message(Seq<char>),
    /// The source has a literal that no value exists for.
    NoValue,
}

/// What statements are lowered into.
pub ghost struct CodeView {
    pub module: ModuleView,
    /// The memory of the variables, by their names.
    pub variables: Map<Seq<char>, usize>,
    /// The function that is compiled.
    pub current_fn: usize,
}

/// The state behind a part of a script, and what the part gives.
pub type Lowered<T> = (CodeView, Result<T, Fault>);

impl CodeView {
    /// Is there a place for the next instruction and for the memory of variables,
    /// does all memory exist, and is every value computed at one place only?
    pub open spec fn wf(self) -> bool {
        &&& self.module.unique()
        &&& self.module.has_block(self.module.position.0, self.module.position.1)
        &&& self.module.has_block(self.current_fn, 0)
        &&& forall|name: Seq<char>| #[trigger]
            self.variables.contains_key(name) ==> self.variables[name] < self.module.values.len()
    }

    /// What stays when a part of a script has been lowered: the function that is
    /// compiled, the number of functions, and the blocks, of which there may be
    /// more.
    pub open spec fn kept(self, before: CodeView) -> bool {
        &&& self.current_fn == before.current_fn
        &&& self.module.functions.len() == before.module.functions.len()
        &&& forall|f: int|
            0 <= f < before.module.functions.len() ==> {
                &&& (#[trigger] self.module.functions[f]).blocks.len()
                    >= before.module.functions[f].blocks.len()
                &&& self.module.functions[f].name == before.module.functions[f].name
                &&& self.module.functions[f].deleted == before.module.functions[f].deleted
            }
        &&& self.module.values.len() >= before.module.values.len()
    }

    /// Does the last block of a function end with a return?
    pub open spec fn ends_with_return(self, function: usize) -> bool {
        let blocks = self.module.functions[function as int].blocks;
        &&& function < self.module.functions.len()
        &&& blocks.len() > 0
        &&& blocks.last().insts.len() > 0
        &&& blocks.last().insts.last() == InstView::ReturnVoid
    }

    /// An instruction that computes a value.
    pub open spec fn compute(self, operation: Operation, ty: ValueType, name: Seq<char>) ->
        CodeView {
        CodeView { module: self.module.compute(operation, ty, name), ..self }
    }

    /// An instruction.
    pub open spec fn emit(self, inst: InstView) -> CodeView {
        CodeView { module: self.module.emit(inst), ..self }
    }

    /// Another place for the next instruction.
    pub open spec fn at(self, function: usize, block: usize) -> CodeView {
        CodeView { module: self.module.at(function, block), ..self }
    }

    /// A block at the end of the function that is compiled.
    pub open spec fn with_block(self, name: Seq<char>) -> CodeView {
        CodeView { module: self.module.with_block(self.current_fn, name), ..self }
    }

    /// The number of blocks of the function that is compiled.
    pub open spec fn blocks(self) -> nat {
        self.module.functions[self.current_fn as int].blocks.len()
    }

    /// A value for a phi.
    pub open spec fn with_incoming(self, incoming: Incoming) -> CodeView {
        CodeView { module: self.module.with_incoming(incoming), ..self }
    }
}

/// The value of a literal. There is none for arrays, closures, and constants of
/// other types than those of the language's literals.
pub open spec fn literal_value(literal: Literal) -> Option<Value> {
    match literal {
        Literal::Constant(Constant::Bool(value)) => Some(Value::Bool(value)),
        Literal::Constant(Constant::I64(num)) => Some(Value::Int(num)),
        Literal::Constant(Constant::F32(num)) => Some(Value::Float(num)),
        Literal::Constant(Constant::F64(num)) => Some(Value::RoundedFloat(num)),
        Literal::Constant(Constant::String(text)) => Some(Value::Text(text)),
        _ => None,
    }
}

/// The comparison that an operator stands for.
pub open spec fn predicate(operator: TType) -> Option<Predicate> {
    match operator {
        TType::Greater => Some(Predicate::Greater),
        TType::GreaterEqual => Some(Predicate::GreaterEqual),
        TType::Less => Some(Predicate::Less),
        TType::LessEqual => Some(Predicate::LessEqual),
        TType::EqualEqual => Some(Predicate::Equal),
        TType::BangEqual => Some(Predicate::NotEqual),
        _ => None,
    }
}

/// The quotient of integers: that of the floating point numbers, as an integer.
pub open spec fn lower_div(s: CodeView, left: Value, right: Value) -> Lowered<Value> {
    let l = s.module.next_value(ValueType::Double);
    let s1 = s.compute(Operation::SignedToFloat(left), ValueType::Double, "tmpdivconv"@);
    let r = s1.module.next_value(ValueType::Double);
    let s2 = s1.compute(Operation::SignedToFloat(right), ValueType::Double, "tmpdivconv"@);
    let quotient = s2.module.next_value(ValueType::Double);
    let s3 = s2.compute(Operation::FloatDiv(l, r), ValueType::Double, "tmpdiv"@);
    (
        s3.compute(Operation::FloatToSigned(quotient), ValueType::Int, "tmpdivconv"@),
        Ok(s3.module.next_value(ValueType::Int)),
    )
}

/// An operation on integers.
pub open spec fn lower_operator(s: CodeView, left: Value, operator: TType, right: Value) ->
    Lowered<Value> {
    match predicate(operator) {
        Some(p) => (
            s.compute(Operation::Compare(p, left, right), ValueType::Bool, "tmpcmp"@),
            Ok(s.module.next_value(ValueType::Bool)),
        ),
        None => match operator {
            TType::Plus => (
                s.compute(Operation::Add(left, right), left.ty(), "tmpadd"@),
                Ok(s.module.next_value(left.ty())),
            ),
            TType::Minus => (
                s.compute(Operation::Sub(left, right), left.ty(), "tmpsub"@),
                Ok(s.module.next_value(left.ty())),
            ),
            TType::Star => (
                s.compute(Operation::Mul(left, right), left.ty(), "tmpmul"@),
                Ok(s.module.next_value(left.ty())),
            ),
            TType::Slash => lower_div(s, left, right),
            _ => (s, Err(Fault::Message("Unsupported binary operand."@))),
        },
    }
}

/// An expression.
pub open spec fn lower(s: CodeView, expression: Expression) -> Lowered<Value>
    decreases expression, 9nat,
{
    match expression {
        Expression::Assignment { name, value } => lower_assignment(s, name, *value),
        Expression::Binary { left, operator, right } => lower_binary(s, *left, operator, *right),
        Expression::If { condition, then_branch, else_branch } => lower_if(
            s,
            *condition,
            *then_branch,
            else_branch,
        ),
        Expression::Literal(literal, _) => match literal_value(literal) {
            Some(value) => (s, Ok(value)),
            None => (s, Err(Fault::NoValue)),
        },
        Expression::Variable(name) => if s.variables.contains_key(name.lexeme@) {
            let pointer = s.variables[name.lexeme@];
            let ty = s.module.values[pointer as int];
            (
                s.compute(Operation::Load(pointer), ty, name.lexeme@),
                Ok(s.module.next_value(ty)),
            )
        } else {
            (s, Err(Fault::Message("Could not find variable."@)))
        },
        _ => (s, Err(Fault::Message("Encountered unimplemented expression."@))),
    }
}

/// An assignment, which gives the value.
pub open spec fn lower_assignment(s: CodeView, name: Token, value: Expression) -> Lowered<Value>
    decreases value, 10nat,
{
    match lower(s, value) {
        (s1, Err(e)) => (s1, Err(e)),
        (s1, Ok(value)) => if s1.variables.contains_key(name.lexeme@) {
            (
                s1.emit(InstView::Store { pointer: s1.variables[name.lexeme@], value }),
                Ok(value),
            )
        } else {
            (s1, Err(Fault::Message("Undefined variable."@)))
        },
    }
}

/// A binary operation, which needs integers.
pub open spec fn lower_binary(s: CodeView, left: Expression, operator: Token, right: Expression) ->
    Lowered<Value>
    decreases parts::binary(left, operator, right), 5nat,
{
    proof {
        parts::lemma_binary(left, operator, right);
    }
    match lower(s, left) {
        (s1, Err(e)) => (s1, Err(e)),
        (s1, Ok(l)) => match lower(s1, right) {
            (s2, Err(e)) => (s2, Err(e)),
            (s2, Ok(r)) => if l.ty().integer() && r.ty().integer() {
                lower_operator(s2, l, operator.t_type, r)
            } else {
                (
                    s2,
                    Err(Fault::Message("Only int are supported for math operations."@)),
                )
            },
        },
    }
}

/// The blocks of a condition: the test goes to the end of the current block,
/// control goes on in the first of the new blocks.
pub open spec fn lower_test(s: CodeView, condition: Value, has_else: bool) -> CodeView {
    let test = s.module.next_value(ValueType::Bool);
    let s1 = s.compute(
        Operation::Compare(Predicate::NotEqual, condition, Value::Bool(false)),
        ValueType::Bool,
        "ifcond"@,
    );
    let then_block = s1.blocks() as usize;
    let else_block = (s1.blocks() + 1) as usize;
    let cont_block = (s1.blocks() + 2) as usize;
    s1.with_block("then"@).with_block("else"@).with_block("ifcont"@).emit(
        InstView::CondBranch {
            condition: test,
            then_block: (s.current_fn, then_block),
            else_block: (
                s.current_fn,
                if has_else {
                    else_block
                } else {
                    cont_block
                },
            ),
        },
    ).at(s.current_fn, then_block)
}

/// The branch behind a condition that does not hold.
pub open spec fn lower_else(
    s: CodeView,
    else_b: Option<Box<Expression>>,
    else_block: usize,
    cont_block: usize,
    phi: usize,
    then_value: Value,
    then_end: BlockId,
) -> Lowered<()>
    decreases else_b, 10nat,
{
    match else_b {
        None => (s, Ok(())),
        Some(else_b) => match lower(s.at(s.current_fn, else_block), *else_b) {
            (s1, Err(e)) => (s1, Err(e)),
            (s1, Ok(else_value)) => (
                s1.emit(InstView::Branch((s.current_fn, cont_block))).with_incoming(
                    Incoming { phi, value: then_value, block: then_end },
                ).with_incoming(
                    Incoming { phi, value: else_value, block: s1.module.position },
                ),
                Ok(()),
            ),
        },
    }
}

/// A condition with its branches.
pub open spec fn lower_if(
    s: CodeView,
    condition: Expression,
    then_b: Expression,
    else_b: Option<Box<Expression>>,
) -> Lowered<Value>
    decreases parts::if_else(condition, then_b, else_b), 5nat,
{
    proof {
        parts::lemma_if_else(condition, then_b, else_b);
    }
    match lower(s, condition) {
        (s1, Err(e)) => (s1, Err(e)),
        (s1, Ok(cond)) => if cond.ty().integer() {
            let else_block = (s1.blocks() + 1) as usize;
            let cont_block = (s1.blocks() + 2) as usize;
            match lower(lower_test(s1, cond, else_b is Some), then_b) {
                (s2, Err(e)) => (s2, Err(e)),
                (s2, Ok(then_value)) => {
                    let then_end = s2.module.position;
                    let s3 = s2.emit(InstView::Branch((s2.current_fn, cont_block))).at(
                        s2.current_fn,
                        cont_block,
                    );
                    let phi = s3.module.next_value(ValueType::Int);
                    let s4 = s3.compute(Operation::Phi, ValueType::Int, "ifphi"@);
                    match lower_else(
                        s4,
                        else_b,
                        else_block,
                        cont_block,
                        s3.module.values.len() as usize,
                        then_value,
                        then_end,
                    ) {
                        (s5, Err(e)) => (s5, Err(e)),
                        (s5, Ok(())) => (s5.at(s5.current_fn, cont_block), Ok(phi)),
                    }
                },
            }
        } else {
            (
                s1,
                Err(Fault::Message("If condition needs to be a boolean or integer."@)),
            )
        },
    }
}

/// A variable with its first value.
pub open spec fn lower_variable(s: CodeView, var: Variable) -> Lowered<()> {
    match lower(s, var.initializer) {
        (s1, Err(e)) => (s1, Err(e)),
        (s1, Ok(value)) => {
            let pointer = s1.module.values.len() as usize;
            let s2 = CodeView {
                module: s1.module.alloca(s1.current_fn, value.ty(), var.name.lexeme@),
                ..s1
            };
            let s3 = s2.emit(InstView::Store { pointer, value });
            (
                CodeView {
                    variables: s3.variables.insert(var.name.lexeme@, pointer),
                    ..s3
                },
                Ok(()),
            )
        },
    }
}

/// A function that is compiled: it has a block, in which the next instruction
/// goes.
pub open spec fn enter_function(s: CodeView, name: Seq<char>) -> CodeView {
    let function = s.module.functions.len() as usize;
    CodeView {
        module: s.module.with_function(name).with_block(function, "entry"@).at(function, 0),
        current_fn: function,
        ..s
    }
}

/// A function. Its body gives no value.
pub open spec fn lower_function(s: CodeView, func: Function) -> Lowered<usize> {
    let s1 = enter_function(s, func.name.lexeme@);
    match lower(s1, func.body) {
        (s2, Err(e)) => (s2, Err(e)),
        (s2, Ok(_)) => (s2.emit(InstView::ReturnVoid), Ok(s1.current_fn)),
    }
}

/// Between statements, the main function is the one that is compiled: the next
/// instruction goes to its end.
pub open spec fn at_main(s: CodeView, main_fn: usize) -> CodeView {
    CodeView {
        current_fn: main_fn,
        ..s.at(main_fn, (s.module.functions[main_fn as int].blocks.len() - 1) as usize)
    }
}

/// Where the lowering of statements stops.
pub ghost enum Stop {
    /// A function is complete. Whether it is valid is not known yet.
    Verify(usize),
    /// All statements were lowered.
    Finish,
    /// A literal that no value exists for was reached.
    NoValue,
}

/// What becomes of statements: the code, the errors so far, the statements that
/// are left, and where the lowering stops.
pub type Progress = (CodeView, Seq<Seq<char>>, Seq<Statement>, Stop);

/// The statements of a script, the last one first, up to a function or the end.
/// A statement with an error is noted, and the next one follows.
pub open spec fn lower_statements(
    s: CodeView,
    errors: Seq<Seq<char>>,
    statements: Seq<Statement>,
    main_fn: usize,
) -> Progress
    decreases statements.len(), 1nat,
{
    if statements.len() == 0 {
        (at_main(s, main_fn).emit(InstView::ReturnVoid), errors, statements, Stop::Finish)
    } else {
        let rest = statements.drop_last();
        match statements.last() {
            Statement::Expression(expr) => match lower(s, expr) {
                (s1, Err(e)) => lower_behind(s1, errors, e, rest, main_fn),
                (s1, Ok(_)) => lower_statements(at_main(s1, main_fn), errors, rest, main_fn),
            },
            Statement::Variable(var) => match lower_variable(s, var) {
                (s1, Err(e)) => lower_behind(s1, errors, e, rest, main_fn),
                (s1, Ok(_)) => lower_statements(at_main(s1, main_fn), errors, rest, main_fn),
            },
            Statement::Function(func) => match lower_function(s, func) {
                (s1, Err(e)) => lower_behind(s1, errors, e, rest, main_fn),
                (s1, Ok(function)) => (s1, errors, rest, Stop::Verify(function)),
            },
            Statement::Class(_) => lower_behind(
                s,
                errors,
                Fault::Message("Encountered unimplemented statement."@),
                rest,
                main_fn,
            ),
        }
    }
}

/// The statements behind one with a fault.
pub open spec fn lower_behind(
    s: CodeView,
    errors: Seq<Seq<char>>,
    fault: Fault,
    rest: Seq<Statement>,
    main_fn: usize,
) -> Progress
    decreases rest.len(), 2nat,
{
    match fault {
        Fault::Message(msg) => lower_statements(
            at_main(s, main_fn),
            errors.push(msg),
            rest,
            main_fn,
        ),
        Fault::NoValue => (s, errors, rest, Stop::NoValue),
    }
}

/// Every statement is lowered once, in its turn: what is left is the beginning of
/// what there was, and nothing is left at the end. Errors are only added.
pub proof fn law_all_statements_are_lowered(
    s: CodeView,
    errors: Seq<Seq<char>>,
    statements: Seq<Statement>,
    main_fn: usize,
)
    ensures
        ({
            let (_, after, rest, stop) = lower_statements(s, errors, statements, main_fn);
            &&& rest.is_prefix_of(statements)
            &&& errors.is_prefix_of(after)
            &&& stop is Finish ==> rest.len() == 0
            &&& !(stop is Finish) ==> rest.len() < statements.len()
        }),
    decreases statements.len(), 0nat,
{
    if statements.len() > 0 {
        let rest = statements.drop_last();
        match statements.last() {
            Statement::Expression(expr) => match lower(s, expr) {
                (s1, Err(e)) => lemma_behind(s1, errors, e, rest, main_fn),
                (s1, Ok(_)) => law_all_statements_are_lowered(
                    at_main(s1, main_fn),
                    errors,
                    rest,
                    main_fn,
                ),
            },
            Statement::Variable(var) => match lower_variable(s, var) {
                (s1, Err(e)) => lemma_behind(s1, errors, e, rest, main_fn),
                (s1, Ok(_)) => law_all_statements_are_lowered(
                    at_main(s1, main_fn),
                    errors,
                    rest,
                    main_fn,
                ),
            },
            Statement::Function(func) => match lower_function(s, func) {
                (s1, Err(e)) => lemma_behind(s1, errors, e, rest, main_fn),
                (s1, Ok(function)) => {},
            },
            Statement::Class(_) => lemma_behind(
                s,
                errors,
                Fault::Message("Encountered unimplemented statement."@),
                rest,
                main_fn,
            ),
        }
        let (_, _, left, _) = lower_statements(s, errors, statements, main_fn);
        let n = left.len() as int;
        assert(rest.subrange(0, n) =~= statements.subrange(0, n));
    }
}

proof fn lemma_behind(
    s: CodeView,
    errors: Seq<Seq<char>>,
    fault: Fault,
    rest: Seq<Statement>,
    main_fn: usize,
)
    ensures
        ({
            let (_, after, left, stop) = lower_behind(s, errors, fault, rest, main_fn);
            &&& left.is_prefix_of(rest)
            &&& errors.is_prefix_of(after)
            &&& stop is Finish ==> left.len() == 0
        }),
    decreases rest.len(), 1nat,
{
    match fault {
        Fault::Message(msg) => {
            law_all_statements_are_lowered(
                at_main(s, main_fn),
                errors.push(msg),
                rest,
                main_fn,
            );
            let (_, after, _, _) = lower_behind(s, errors, fault, rest, main_fn);
            let n = errors.len() as int;
            assert(errors.push(msg).subrange(0, n) =~= errors);
            assert(after.subrange(0, n + 1).subrange(0, n) =~= after.subrange(0, n));
        },
        Fault::NoValue => {},
    }
}

} // verus!
