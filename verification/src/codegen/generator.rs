//! The generator that lowers a script.

use crate::ast::parts;
use crate::ast::statement::{Function, Statement, Variable};
use crate::ast::{Constant, Expression, Literal};
use crate::codegen::module::{
    lemma_unique_empty, BlockId, Incoming, Inst, Module, Operation, Predicate, Value, ValueType,
};
use crate::codegen::rules::{
    at_main, enter_function, law_all_statements_are_lowered, literal_value, lower, lower_assignment,
    lower_behind, lower_binary, lower_div, lower_else, lower_function, lower_if, lower_statements,
    lower_test, lower_variable, CodeView, Fault, Progress, Stop,
};
use crate::lexer::token::{TType, Token};
use vstd::hash_map::StringHashMap;
use vstd::prelude::*;

verus! {

/// What has happened to the generator.
#[derive(Debug, Clone, Copy, PartialEq, Eq, Structural)]
pub enum Event {
    /// The generator is to start.
    Start,
    /// The function it asked about was checked.
    Verified {
        valid: bool,
    },
}

/// What is to be done next.
#[derive(Debug, Clone, Copy)]
pub enum Action {
    /// A function is complete: it has to be checked, and is optimised if it is
    /// valid.
    Verify(usize),
    /// The script is complete.
    Finish,
    /// A literal that no value exists for was reached, and nothing more can be
    /// generated.
    NoValue,
}

/// What the generator waits for.
#[derive(Debug, Clone, Copy, PartialEq, Eq, Structural)]
pub enum Phase {
    /// Nothing was lowered yet.
    Ready,
    /// A function has to be checked.
    Waiting(usize),
    /// Nothing more happens.
    Finished,
}

/// A generator that creates instructions from a vector of Statements.
pub struct IRGenerator {
    /// The instructions.
    pub module: Module,
    /// All variables in the current scope, by the number of their memory.
    pub variables: StringHashMap<usize>,
    /// The currently compiled function: between statements the main function.
    pub current_fn: usize,
    /// All statements remaining to be compiled. Reverse order.
    pub statements: Vec<Statement>,
    /// The errors of the statements that were compiled.
    pub errors: Vec<&'static str>,
    /// The function that holds the statements that are no functions.
    pub main_fn: usize,
    pub phase: Phase,
}

/// Why no value could be computed.
#[derive(Debug, Clone, Copy)]
pub enum LowerError {
    /// The source has an error.
    Message(&'static str),
    /// The source has a literal that no value exists for.
    NoValue,
}

impl LowerError {
    pub open spec fn view(&self) -> Fault {
        match self {
            LowerError::Message(msg) => Fault::Message(msg@),
            LowerError::NoValue => Fault::NoValue,
        }
    }
}

/// A result as contracts speak of it.
pub open spec fn res(r: Result<Value, LowerError>) -> Result<Value, Fault> {
    match r {
        Ok(value) => Ok(value),
        Err(e) => Err(e@),
    }
}

/// The result of a statement as contracts speak of it.
pub open spec fn res_unit(r: Result<(), LowerError>) -> Result<(), Fault> {
    match r {
        Ok(()) => Ok(()),
        Err(e) => Err(e@),
    }
}

/// A function that was lowered, as contracts speak of it.
pub open spec fn res_function(r: Result<usize, LowerError>) -> Result<usize, Fault> {
    match r {
        Ok(function) => Ok(function),
        Err(e) => Err(e@),
    }
}

/// An action as contracts speak of it.
pub open spec fn stop(action: Action) -> Stop {
    match action {
        Action::Verify(function) => Stop::Verify(function),
        Action::Finish => Stop::Finish,
        Action::NoValue => Stop::NoValue,
    }
}

/// The errors as contracts speak of them.
pub open spec fn error_texts(errors: Seq<&'static str>) -> Seq<Seq<char>> {
    errors.map_values(|e: &'static str| e@)
}

/// What the generator does on an event: the code, the errors so far, the statements
/// that are left, and where it stops.
pub open spec fn reaction(gen: IRGenerator, event: Event) -> Progress {
    let errors = error_texts(gen.errors@);
    match event {
        Event::Start => {
            let s = enter_function(gen@, "entry"@);
            lower_statements(s, errors, gen.statements@, s.current_fn)
        },
        Event::Verified { valid } => if valid {
            lower_statements(at_main(gen@, gen.main_fn), errors, gen.statements@, gen.main_fn)
        } else {
            lower_behind(
                CodeView { module: gen@.module.delete(gen.phase->Waiting_0), ..gen@ },
                errors,
                Fault::Message("Invalid generated function."@),
                gen.statements@,
                gen.main_fn,
            )
        },
    }
}

impl IRGenerator {
    pub open spec fn view(&self) -> CodeView {
        CodeView {
            module: self.module@,
            variables: self.variables@,
            current_fn: self.current_fn,
        }
    }

    /// Can the generator react to an event?
    pub open spec fn expects(self, event: Event) -> bool {
        match (self.phase, event) {
            (Phase::Ready, Event::Start) => self.variables@ == Map::<Seq<char>, usize>::empty()
                && self.module@.unique(),
            (Phase::Waiting(function), Event::Verified { .. }) => self@.wf() && function
                < self@.module.functions.len() && self@.module.has_block(self.main_fn, 0),
            _ => false,
        }
    }

    /// Is everything but the code as it was?
    pub open spec fn same_task(self, before: IRGenerator) -> bool {
        &&& self.statements == before.statements
        &&& self.errors == before.errors
        &&& self.main_fn == before.main_fn
        &&& self.phase == before.phase
    }

    /// Adds an instruction that computes a value.
    fn compute(&mut self, operation: Operation, ty: ValueType, name: &str) -> (r: Value)
        requires
            old(self)@.wf(),
        ensures
            final(self)@ == old(self)@.compute(operation, ty, name@),
            r == old(self)@.module.next_value(ty),
            final(self)@.wf(),
            final(self)@.kept(old(self)@),
            final(self).same_task(*old(self)),
    {
        let r = self.module.compute(operation, ty, name);
        assert(self@.variables == old(self)@.variables);
        assert(self@.module.has_block(self@.module.position.0, self@.module.position.1));
        assert(self@.wf());
        r
    }

    /// Adds an instruction that computes nothing.
    fn emit(&mut self, inst: Inst)
        requires
            old(self)@.wf(),
            !(inst is Compute),
        ensures
            final(self)@ == old(self)@.emit(inst@),
            final(self)@.wf(),
            final(self)@.kept(old(self)@),
            final(self).same_task(*old(self)),
    {
        self.module.emit(inst);
        assert(self@.variables == old(self)@.variables);
        assert(self@.module.has_block(self@.module.position.0, self@.module.position.1));
        assert(self@.wf());
    }

    fn expression(&mut self, expression: &Expression) -> (r: Result<Value, LowerError>)
        requires
            old(self)@.wf(),
        ensures
            (final(self)@, res(r)) == lower(old(self)@, *expression),
            final(self)@.wf(),
            final(self)@.kept(old(self)@),
            final(self).same_task(*old(self)),
        decreases *expression, 9nat,
    {
        match expression {
            Expression::Assignment { name, value } => self.assignment(name, value),
            Expression::Binary { left, operator, right } => self.binary(left, operator, right),
            Expression::If { condition, then_branch, else_branch } => self.if_expr(
                condition,
                then_branch,
                else_branch,
            ),
            Expression::Literal(literal, _) => IRGenerator::literal(literal),
            Expression::Variable(name) => self.variable(name),
            _ => Err(LowerError::Message("Encountered unimplemented expression.")),
        }
    }

    fn assignment(&mut self, name: &Token, value: &Expression) -> (r: Result<Value, LowerError>)
        requires
            old(self)@.wf(),
        ensures
            (final(self)@, res(r)) == lower_assignment(old(self)@, *name, *value),
            final(self)@.wf(),
            final(self)@.kept(old(self)@),
            final(self).same_task(*old(self)),
        decreases *value, 10nat,
    {
        let value = self.expression(value)?;
        let pointer: usize = match self.variables.get(name.lexeme.as_str()) {
            Some(pointer) => *pointer,
            None => {
                return Err(LowerError::Message("Undefined variable."));
            },
        };
        self.emit(Inst::Store { pointer, value: value.copy() });
        Ok(value)
    }

    fn binary(&mut self, left: &Expression, operator: &Token, right: &Expression) -> (r: Result<
        Value,
        LowerError,
    >)
        requires
            old(self)@.wf(),
        ensures
            (final(self)@, res(r)) == lower_binary(old(self)@, *left, *operator, *right),
            final(self)@.wf(),
            final(self)@.kept(old(self)@),
            final(self).same_task(*old(self)),
        decreases parts::binary(*left, *operator, *right), 5nat,
    {
        proof {
            parts::lemma_binary(*left, *operator, *right);
        }
        let left = self.expression(left)?;
        let right = self.expression(right)?;
        if !left.is_int() || !right.is_int() {
            return Err(LowerError::Message("Only int are supported for math operations."));
        }
        let p = match operator.t_type {
            TType::Greater => Some(Predicate::Greater),
            TType::GreaterEqual => Some(Predicate::GreaterEqual),
            TType::Less => Some(Predicate::Less),
            TType::LessEqual => Some(Predicate::LessEqual),
            TType::EqualEqual => Some(Predicate::Equal),
            TType::BangEqual => Some(Predicate::NotEqual),
            _ => None,
        };
        if let Some(p) = p {
            return Ok(
                self.compute(
                    Operation::Compare(p, left, right),
                    ValueType::Bool,
                    "tmpcmp",
                ),
            );
        }
        let ty = left.get_type();
        match operator.t_type {
            TType::Plus => Ok(self.compute(Operation::Add(left, right), ty, "tmpadd")),
            TType::Minus => Ok(self.compute(Operation::Sub(left, right), ty, "tmpsub")),
            TType::Star => Ok(self.compute(Operation::Mul(left, right), ty, "tmpmul")),
            TType::Slash => Ok(self.div(left, right)),
            _ => Err(LowerError::Message("Unsupported binary operand.")),
        }
    }

    /// Divides integers as floating point numbers.
    fn div(&mut self, left: Value, right: Value) -> (r: Value)
        requires
            old(self)@.wf(),
        ensures
            (final(self)@, res(Ok(r))) == lower_div(old(self)@, left, right),
            final(self)@.wf(),
            final(self)@.kept(old(self)@),
            final(self).same_task(*old(self)),
    {
        let left = self.compute(
            Operation::SignedToFloat(left),
            ValueType::Double,
            "tmpdivconv",
        );
        let right = self.compute(
            Operation::SignedToFloat(right),
            ValueType::Double,
            "tmpdivconv",
        );
        let quotient = self.compute(
            Operation::FloatDiv(left, right),
            ValueType::Double,
            "tmpdiv",
        );
        self.compute(Operation::FloatToSigned(quotient), ValueType::Int, "tmpdivconv")
    }

    fn if_expr(
        &mut self,
        condition: &Expression,
        then_b: &Expression,
        else_b: &Option<Box<Expression>>,
    ) -> (r: Result<Value, LowerError>)
        requires
            old(self)@.wf(),
        ensures
            (final(self)@, res(r)) == lower_if(old(self)@, *condition, *then_b, *else_b),
            final(self)@.wf(),
            final(self)@.kept(old(self)@),
            final(self).same_task(*old(self)),
        decreases parts::if_else(*condition, *then_b, *else_b), 5nat,
    {
        proof {
            parts::lemma_if_else(*condition, *then_b, *else_b);
        }
        let parent: usize = self.current_fn;
        let condition = self.expression(condition)?;
        if !condition.is_int() {
            return Err(LowerError::Message("If condition needs to be a boolean or integer."));
        }
        let (else_block, cont_block): (usize, usize) = self.test(condition, else_b.is_some());
        let then_value = self.expression(then_b)?;
        let then_end: BlockId = self.module.position;
        self.emit(Inst::Branch((parent, cont_block)));
        self.module.position_at_end(parent, cont_block);
        let id: usize = self.module.values.len();
        let phi = self.compute(Operation::Phi, ValueType::Int, "ifphi");
        self.else_branch(else_b, else_block, cont_block, id, then_value, then_end)?;
        self.module.position_at_end(parent, cont_block);
        Ok(phi)
    }

    /// Makes the blocks of a condition, and goes to the first. The numbers of the
    /// two others are handed out.
    fn test(&mut self, condition: Value, has_else: bool) -> (r: (usize, usize))
        requires
            old(self)@.wf(),
        ensures
            final(self)@ == lower_test(old(self)@, condition, has_else),
            final(self)@.wf(),
            final(self)@.kept(old(self)@),
            r.0 == old(self)@.blocks() + 1,
            r.1 == old(self)@.blocks() + 2,
            final(self)@.blocks() == old(self)@.blocks() + 3,
            final(self).same_task(*old(self)),
    {
        let parent: usize = self.current_fn;
        let test = self.compute(
            Operation::Compare(Predicate::NotEqual, condition, Value::Bool(false)),
            ValueType::Bool,
            "ifcond",
        );
        let then_block = self.module.append_block(parent, "then");
        let else_block = self.module.append_block(parent, "else");
        let cont_block = self.module.append_block(parent, "ifcont");
        self.emit(
            Inst::CondBranch {
                condition: test,
                then_block: (parent, then_block),
                else_block: (
                    parent,
                    if has_else {
                        else_block
                    } else {
                        cont_block
                    },
                ),
            },
        );
        self.module.position_at_end(parent, then_block);
        (else_block, cont_block)
    }

    /// Lowers the branch behind a condition that does not hold, if there is one,
    /// and gives the phi its values.
    fn else_branch(
        &mut self,
        else_b: &Option<Box<Expression>>,
        else_block: usize,
        cont_block: usize,
        phi: usize,
        then_value: Value,
        then_end: BlockId,
    ) -> (r: Result<(), LowerError>)
        requires
            old(self)@.wf(),
            old(self)@.module.has_block(old(self)@.current_fn, else_block),
        ensures
            (final(self)@, res_unit(r)) == lower_else(
                old(self)@,
                *else_b,
                else_block,
                cont_block,
                phi,
                then_value,
                then_end,
            ),
            final(self)@.wf(),
            final(self)@.kept(old(self)@),
            final(self).same_task(*old(self)),
        decreases *else_b, 10nat,
    {
        match else_b {
            None => Ok(()),
            Some(else_b) => {
                self.module.position_at_end(self.current_fn, else_block);
                assert(self@.module.has_block(self.current_fn, else_block));
                assert(self@.module.position == (self.current_fn, else_block));
                assert(self@.variables == old(self)@.variables);
                assert(self@.module.values == old(self)@.module.values);
                assert(self@.wf());
                let else_value = self.expression(else_b)?;
                let else_end: BlockId = self.module.position;
                self.emit(Inst::Branch((self.current_fn, cont_block)));
                self.module.add_incoming(Incoming { phi, value: then_value, block: then_end });
                self.module.add_incoming(Incoming { phi, value: else_value, block: else_end });
                Ok(())
            },
        }
    }

    fn literal(literal: &Literal) -> (r: Result<Value, LowerError>)
        ensures
            match r {
                Ok(value) => literal_value(*literal) == Some(value),
                Err(e) => e is NoValue && literal_value(*literal) is None,
            },
    {
        match literal {
            Literal::Constant(Constant::Bool(value)) => Ok(Value::Bool(*value)),
            Literal::Constant(Constant::I64(num)) => Ok(Value::Int(*num)),
            Literal::Constant(Constant::F32(num)) => Ok(Value::Float(*num)),
            Literal::Constant(Constant::F64(num)) => Ok(Value::RoundedFloat(*num)),
            Literal::Constant(Constant::String(string)) => Ok(Value::Text(string.clone())),
            _ => Err(LowerError::NoValue),
        }
    }

    fn variable(&mut self, name: &Token) -> (r: Result<Value, LowerError>)
        requires
            old(self)@.wf(),
        ensures
            (final(self)@, res(r)) == lower(old(self)@, Expression::Variable(*name)),
            final(self)@.wf(),
            final(self)@.kept(old(self)@),
            final(self).same_task(*old(self)),
    {
        match self.variables.get(name.lexeme.as_str()) {
            Some(var) => {
                let pointer: usize = *var;
                let ty = self.module.values[pointer];
                Ok(self.compute(Operation::Load(pointer), ty, name.lexeme.as_str()))
            },
            None => Err(LowerError::Message("Could not find variable.")),
        }
    }

    fn var_declaration(&mut self, var: &Variable) -> (r: Result<(), LowerError>)
        requires
            old(self)@.wf(),
        ensures
            (final(self)@, res_unit(r)) == lower_variable(old(self)@, *var),
            final(self)@.wf(),
            final(self)@.kept(old(self)@),
            final(self).same_task(*old(self)),
    {
        let initial_value = self.expression(&var.initializer)?;
        let alloca = self.create_entry_block_alloca(
            initial_value.get_type(),
            var.name.lexeme.as_str(),
        );
        self.emit(Inst::Store { pointer: alloca, value: initial_value });
        self.variables.insert(var.name.lexeme.clone(), alloca);
        Ok(())
    }

    fn create_entry_block_alloca(&mut self, ty: ValueType, name: &str) -> (r: usize)
        requires
            old(self)@.wf(),
        ensures
            final(self)@ == (CodeView {
                module: old(self)@.module.alloca(old(self)@.current_fn, ty, name@),
                ..old(self)@
            }),
            r == old(self)@.module.values.len(),
            final(self)@.wf(),
            final(self)@.kept(old(self)@),
            final(self).same_task(*old(self)),
    {
        self.module.alloca(self.current_fn, ty, name)
    }

    /// Declares a function, and makes it the one that is compiled.
    fn declare_function(&mut self, name: &str) -> (r: usize)
        requires
            old(self)@.module.unique(),
            forall|name: Seq<char>| #[trigger]
                old(self)@.variables.contains_key(name) ==> old(self)@.variables[name] < old(
                    self,
                )@.module.values.len(),
        ensures
            final(self)@ == enter_function(old(self)@, name@),
            r == final(self)@.current_fn,
            r == old(self)@.module.functions.len(),
            final(self)@.wf(),
            final(self).same_task(*old(self)),
    {
        let function = self.module.add_function(name);
        let entry = self.module.append_block(function, "entry");
        self.module.position_at_end(function, entry);
        self.current_fn = function;
        assert(self@.module.has_block(function, 0));
        assert(self@.variables == old(self)@.variables);
        assert(self@.module.values == old(self)@.module.values);
        assert(self@.module.position == (function, 0usize));
        assert(self@.wf());
        function
    }

    fn func_declaration(&mut self, func: &Function) -> (r: Result<usize, LowerError>)
        requires
            old(self)@.wf(),
        ensures
            (final(self)@, res_function(r)) == lower_function(old(self)@, *func),
            final(self)@.wf(),
            final(self)@.module.functions.len() == old(self)@.module.functions.len() + 1,
            forall|f: int|
                0 <= f < old(self)@.module.functions.len()
                    ==> (#[trigger] final(self)@.module.functions[f]).blocks.len() >= old(
                    self,
                )@.module.functions[f].blocks.len(),
            r matches Ok(function) ==> function == old(self)@.module.functions.len(),
            final(self).same_task(*old(self)),
    {
        let function = self.declare_function(func.name.lexeme.as_str());
        self.expression(&func.body)?;
        self.emit(Inst::ReturnVoid);
        Ok(function)
    }

    /// Goes back to the main function: the next instruction goes to its end.
    fn back_to_main(&mut self)
        requires
            old(self)@.wf(),
            old(self)@.module.has_block(old(self).main_fn, 0),
        ensures
            final(self)@ == at_main(old(self)@, old(self).main_fn),
            final(self)@.module.position.1
                == final(self)@.module.functions[final(self).main_fn as int].blocks.len() - 1,
            final(self)@.wf(),
            final(self)@.module.has_block(final(self).main_fn, 0),
            final(self).same_task(*old(self)),
    {
        let last: usize = self.module.functions[self.main_fn].blocks.len() - 1;
        assert(last == self@.module.functions[self.main_fn as int].blocks.len() - 1);
        self.module.position_at_end(self.main_fn, last);
        self.current_fn = self.main_fn;
        assert(self@.module.has_block(self.main_fn, last));
        assert(self@.module.has_block(self.main_fn, 0));
        assert(self@.module.position == (self.main_fn, last));
        assert(self@.variables == old(self)@.variables);
        assert(self@.module.values == old(self)@.module.values);
        assert(self@.wf());
    }

    /// Notes an error, and goes on in the main function. A literal without a value
    /// ends the generator.
    fn recover(&mut self, error: LowerError) -> (r: Option<Action>)
        requires
            old(self)@.wf(),
            old(self)@.module.has_block(old(self).main_fn, 0),
        ensures
            lower_behind(
                old(self)@,
                error_texts(old(self).errors@),
                error@,
                old(self).statements@,
                old(self).main_fn,
            ) == (match r {
                Some(action) => (
                    final(self)@,
                    error_texts(final(self).errors@),
                    final(self).statements@,
                    stop(action),
                ),
                None => lower_statements(
                    final(self)@,
                    error_texts(final(self).errors@),
                    final(self).statements@,
                    final(self).main_fn,
                ),
            }),
            r matches Some(action) ==> action is NoValue && final(self).phase is Finished,
            final(self)@.wf(),
            final(self)@.module.has_block(final(self).main_fn, 0),
            final(self).statements == old(self).statements,
            final(self).main_fn == old(self).main_fn,
    {
        match error {
            LowerError::NoValue => {
                self.phase = Phase::Finished;
                Some(Action::NoValue)
            },
            LowerError::Message(msg) => {
                self.back_to_main();
                let ghost before = error_texts(self.errors@);
                self.errors.push(msg);
                assert(error_texts(self.errors@) =~= before.push(msg@));
                assert(self@.variables == old(self)@.variables);
                assert(self@.wf());
                None
            },
        }
    }

    /// Lowers statements, up to a function or the end.
    fn run(&mut self) -> (r: Action)
        requires
            old(self)@.wf(),
            old(self)@.module.has_block(old(self).main_fn, 0),
        ensures
            (
                final(self)@,
                error_texts(final(self).errors@),
                final(self).statements@,
                stop(r),
            ) == lower_statements(
                old(self)@,
                error_texts(old(self).errors@),
                old(self).statements@,
                old(self).main_fn,
            ),
            final(self).main_fn == old(self).main_fn,
            r matches Action::Verify(function) ==> final(self).phase == Phase::Waiting(function)
                && final(self).expects(Event::Verified { valid: true }),
            !(r is Verify) ==> final(self).phase is Finished,
            r is Finish ==> final(self)@.ends_with_return(final(self).main_fn)
                && final(self).statements@.len() == 0,
            final(self)@.module.unique(),
    {
        while self.statements.len() > 0
            invariant
                self@.wf(),
                self@.module.has_block(self.main_fn, 0),
                self.main_fn == old(self).main_fn,
                lower_statements(
                    old(self)@,
                    error_texts(old(self).errors@),
                    old(self).statements@,
                    old(self).main_fn,
                ) == lower_statements(
                    self@,
                    error_texts(self.errors@),
                    self.statements@,
                    self.main_fn,
                ),
            decreases self.statements.len(),
        {
            let ghost before = self.statements@;
            let statement = match self.statements.pop() {
                Some(statement) => statement,
                None => vstd::pervasive::unreached(),
            };
            assert(self.statements@ =~= before.drop_last());
            let result = match statement {
                Statement::Expression(expr) => match self.expression(&expr) {
                    Ok(_) => Ok(()),
                    Err(e) => Err(e),
                },
                Statement::Variable(var) => self.var_declaration(&var),
                Statement::Function(func) => match self.func_declaration(&func) {
                    Err(e) => Err(e),
                    Ok(function) => {
                        self.phase = Phase::Waiting(function);
                        return Action::Verify(function);
                    },
                },
                Statement::Class(_) => Err(
                    LowerError::Message("Encountered unimplemented statement."),
                ),
            };
            match result {
                Ok(()) => self.back_to_main(),
                Err(e) => {
                    if let Some(action) = self.recover(e) {
                        return action;
                    }
                },
            }
        }
        self.back_to_main();
        let ghost (f, b) = self@.module.position;
        self.emit(Inst::ReturnVoid);
        assert(self@.module.insts(f, b).last() == Inst::ReturnVoid@);
        self.phase = Phase::Finished;
        Action::Finish
    }

    /// Generates IR. Will process all statements given, and stops where a function
    /// has to be checked; errors of statements are noted. Every value is computed at
    /// one place only, and when the generator has finished, no statement is left and
    /// the main function ends with a return.
    pub fn generate(&mut self, event: Event) -> (r: Action)
        requires
            old(self).expects(event),
        ensures
            (
                final(self)@,
                error_texts(final(self).errors@),
                final(self).statements@,
                stop(r),
            ) == reaction(*old(self), event),
            final(self).main_fn == (match event {
                Event::Start => enter_function(old(self)@, "entry"@).current_fn,
                Event::Verified { .. } => old(self).main_fn,
            }),
            r matches Action::Verify(function) ==> final(self).phase == Phase::Waiting(function)
                && final(self).expects(Event::Verified { valid: true }),
            !(r is Verify) ==> final(self).phase is Finished,
            r is Finish ==> final(self)@.ends_with_return(final(self).main_fn)
                && final(self).statements@.len() == 0,
            final(self).statements@.is_prefix_of(old(self).statements@),
            final(self)@.module.unique(),
    {
        proof {
            law_reactions_lower_statements_in_turn(*self, event);
        }
        match event {
            Event::Start => {
                let main_fn = self.declare_function("entry");
                self.main_fn = main_fn;
                self.run()
            },
            Event::Verified { valid } => {
                if valid {
                    self.back_to_main();
                } else {
                    let function = match self.phase {
                        Phase::Waiting(function) => function,
                        _ => vstd::pervasive::unreached(),
                    };
                    self.module.delete(function);
                    assert(self@.module.has_block(self.main_fn, 0));
                    assert(self@.module.has_block(self.current_fn, 0));
                    assert(self@.module.position == old(self)@.module.position);
                    assert(self@.variables == old(self)@.variables);
                    assert(self@.module.values == old(self)@.module.values);
                    assert(self@.wf());
                    let error = LowerError::Message("Invalid generated function.");
                    if let Some(action) = self.recover(error) {
                        return action;
                    }
                }
                self.run()
            },
        }
    }

    /// Creates a new generator. Put into action by generate().
    pub fn new(statements: Vec<Statement>) -> (r: IRGenerator)
        ensures
            r.statements@ == statements@.reverse(),
            r.module@.functions == Seq::<crate::codegen::module::FunctionView>::empty(),
            r.module@.values == Seq::<ValueType>::empty(),
            r.module@.incoming == Seq::<Incoming>::empty(),
            r.errors@.len() == 0,
            r.phase is Ready,
            r.expects(Event::Start),
    {
        // The generator pops the statements off the top.
        let ghost all = statements@;
        let mut statements = statements;
        let mut reversed: Vec<Statement> = Vec::with_capacity(statements.len());
        while statements.len() > 0
            invariant
                statements@.len() + reversed@.len() == all.len(),
                statements@ == all.take(statements@.len() as int),
                reversed@ == all.skip(statements@.len() as int).reverse(),
            decreases statements.len(),
        {
            let ghost before = statements@.len() as int;
            match statements.pop() {
                Some(statement) => {
                    reversed.push(statement);
                },
                None => {},
            }
            assert(statements@ =~= all.take(before - 1));
            assert(reversed@ =~= all.skip(before - 1).reverse());
        }
        assert(reversed@ =~= all.reverse());
        let module = Module::new();
        proof {
            lemma_unique_empty(module@);
        }
        IRGenerator {
            module,
            variables: StringHashMap::with_capacity(10),
            current_fn: 0,
            statements: reversed,
            errors: Vec::new(),
            main_fn: 0,
            phase: Phase::Ready,
        }
    }
}

/// Whatever happens, statements are lowered in their turn, each once: what is left
/// is the beginning of what there was, and nothing is left when the generator
/// finishes. Errors are only added; a function that turns out to be invalid is one.
pub proof fn law_reactions_lower_statements_in_turn(gen: IRGenerator, event: Event)
    ensures
        ({
            let (_, errors, rest, stop) = reaction(gen, event);
            let before = error_texts(gen.errors@);
            &&& rest.is_prefix_of(gen.statements@)
            &&& before.is_prefix_of(errors)
            &&& stop is Finish ==> rest.len() == 0
            &&& event == (Event::Verified { valid: false }) ==> before.push(
                "Invalid generated function."@,
            ).is_prefix_of(errors)
        }),
{
    let errors = error_texts(gen.errors@);
    match event {
        Event::Start => {
            let s = enter_function(gen@, "entry"@);
            law_all_statements_are_lowered(s, errors, gen.statements@, s.current_fn);
        },
        Event::Verified { valid } => if valid {
            law_all_statements_are_lowered(
                at_main(gen@, gen.main_fn),
                errors,
                gen.statements@,
                gen.main_fn,
            );
        } else {
            let s = CodeView { module: gen@.module.delete(gen.phase->Waiting_0), ..gen@ };
            let noted = errors.push("Invalid generated function."@);
            law_all_statements_are_lowered(
                at_main(s, gen.main_fn),
                noted,
                gen.statements@,
                gen.main_fn,
            );
            let after = reaction(gen, event).1;
            let n = errors.len() as int;
            assert(noted.subrange(0, n) =~= errors);
            assert(after.subrange(0, n + 1).subrange(0, n) =~= after.subrange(0, n));
        },
    }
}

} // verus!
