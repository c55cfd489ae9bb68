//! Functions made of blocks of instructions, and the place where the next
//! instruction goes.

use vstd::prelude::*;
use vstd::utf8::encode_utf8;

verus! {

/// The type of a value.
#[derive(Debug, Clone, Copy, PartialEq, Eq, Structural)]
pub enum ValueType {
    /// An integer of one bit.
    Bool,
    /// An integer of 64 bits.
    Int,
    /// A floating point number of 32 bits.
    Float,
    /// A floating point number of 64 bits.
    Double,
    /// The characters of a string, of so many bytes.
    Text(usize),
}

impl ValueType {
    /// Is this an integer type?
    pub open spec fn integer(self) -> bool {
        self is Bool || self is Int
    }
}

/// A value: a constant, or what an instruction gives.
#[derive(Debug)]
pub enum Value {
    Bool(bool),
    Int(u64),
    /// The bits of a number of 32 bits.
    Float(u32),
    /// The bits of a number of 64 bits, which is rounded to 32 bits.
    RoundedFloat(u64),
    Text(String),
    /// The result of the instruction with a number.
    Inst(usize, ValueType),
}

impl Value {
    /// The type of the value.
    pub open spec fn ty(self) -> ValueType {
        match self {
            Value::Bool(_) => ValueType::Bool,
            Value::Int(_) => ValueType::Int,
            Value::Float(_) => ValueType::Float,
            Value::RoundedFloat(_) => ValueType::Float,
            Value::Text(text) => ValueType::Text(encode_utf8(text@).len() as usize),
            Value::Inst(_, ty) => ty,
        }
    }

    /// The type of the value.
    pub fn get_type(&self) -> (r: ValueType)
        ensures
            r == self.ty(),
    {
        match self {
            Value::Bool(_) => ValueType::Bool,
            Value::Int(_) => ValueType::Int,
            Value::Float(_) => ValueType::Float,
            Value::RoundedFloat(_) => ValueType::Float,
            Value::Text(text) => ValueType::Text(text.as_str().len()),
            Value::Inst(_, ty) => *ty,
        }
    }

    /// Is the value an integer?
    pub fn is_int(&self) -> (r: bool)
        ensures
            r == self.ty().integer(),
    {
        matches!(self.get_type(), ValueType::Bool | ValueType::Int)
    }

    /// The same value once more.
    pub fn copy(&self) -> (r: Value)
        ensures
            r == *self,
    {
        match self {
            Value::Bool(b) => Value::Bool(*b),
            Value::Int(n) => Value::Int(*n),
            Value::Float(n) => Value::Float(*n),
            Value::RoundedFloat(n) => Value::RoundedFloat(*n),
            Value::Text(s) => Value::Text(s.clone()),
            Value::Inst(id, ty) => Value::Inst(*id, *ty),
        }
    }
}

/// How integers are compared. All comparisons but the first two are signed.
#[derive(Debug, Clone, Copy, PartialEq, Eq, Structural)]
pub enum Predicate {
    Equal,
    NotEqual,
    Greater,
    GreaterEqual,
    Less,
    LessEqual,
}

/// What an instruction computes.
#[derive(Debug)]
pub enum Operation {
    /// Memory for a value of a type.
    Alloca(ValueType),
    /// The value in memory.
    Load(usize),
    Add(Value, Value),
    Sub(Value, Value),
    Mul(Value, Value),
    /// A signed integer as a floating point number of 64 bits.
    SignedToFloat(Value),
    FloatDiv(Value, Value),
    /// A floating point number as a signed integer of 64 bits.
    FloatToSigned(Value),
    Compare(Predicate, Value, Value),
    /// The value that belongs to the block that control came from.
    Phi,
}

/// A block: the number of its function, and its own number there.
pub type BlockId = (usize, usize);

/// An instruction.
#[derive(Debug)]
pub enum Inst {
    /// Computes a value, which has a number and a name.
    Compute { id: usize, operation: Operation, name: String },
    /// Puts a value in memory.
    Store { pointer: usize, value: Value },
    /// Goes on in a block.
    Branch(BlockId),
    /// Goes on in one of two blocks.
    CondBranch { condition: Value, then_block: BlockId, else_block: BlockId },
    /// Returns nothing.
    ReturnVoid,
}

/// An instruction as contracts speak of it.
pub ghost enum InstView {
    Compute { id: usize, operation: Operation, name: Seq<char> },
    Store { pointer: usize, value: Value },
    Branch(BlockId),
    CondBranch { condition: Value, then_block: BlockId, else_block: BlockId },
    ReturnVoid,
}

impl Inst {
    pub open spec fn view(&self) -> InstView {
        match *self {
            Inst::Compute { id, operation, name } => InstView::Compute {
                id,
                operation,
                name: name@,
            },
            Inst::Store { pointer, value } => InstView::Store { pointer, value },
            Inst::Branch(block) => InstView::Branch(block),
            Inst::CondBranch { condition, then_block, else_block } => InstView::CondBranch {
                condition,
                then_block,
                else_block,
            },
            Inst::ReturnVoid => InstView::ReturnVoid,
        }
    }
}

/// Instructions that run in a row.
#[derive(Debug)]
pub struct Block {
    pub name: String,
    pub insts: Vec<Inst>,
}

/// A block as contracts speak of it.
pub ghost struct BlockView {
    pub name: Seq<char>,
    pub insts: Seq<InstView>,
}

/// The views of a row of instructions.
pub open spec fn inst_views(insts: Seq<Inst>) -> Seq<InstView> {
    insts.map_values(|i: Inst| i@)
}

impl Block {
    pub open spec fn view(&self) -> BlockView {
        BlockView { name: self.name@, insts: inst_views(self.insts@) }
    }
}

/// A function, which takes and returns nothing.
#[derive(Debug)]
pub struct Function {
    pub name: String,
    pub blocks: Vec<Block>,
    /// The function turned out to be invalid and was removed.
    pub deleted: bool,
}

/// A function as contracts speak of it.
pub ghost struct FunctionView {
    pub name: Seq<char>,
    pub blocks: Seq<BlockView>,
    pub deleted: bool,
}

/// The views of a row of blocks.
pub open spec fn block_views(blocks: Seq<Block>) -> Seq<BlockView> {
    blocks.map_values(|b: Block| b@)
}

impl Function {
    pub open spec fn view(&self) -> FunctionView {
        FunctionView {
            name: self.name@,
            blocks: block_views(self.blocks@),
            deleted: self.deleted,
        }
    }
}

/// One of the values of a phi: the one for control that comes from a block.
#[derive(Debug)]
pub struct Incoming {
    pub phi: usize,
    pub value: Value,
    pub block: BlockId,
}

/// The functions that were made so far.
#[derive(Debug)]
pub struct Module {
    pub functions: Vec<Function>,
    /// The type of every value that an instruction computes, by its number. For
    /// memory, it is the type of what is in it.
    pub values: Vec<ValueType>,
    /// The values of the phis.
    pub incoming: Vec<Incoming>,
    /// The function and block that the next instruction goes to the end of.
    pub position: BlockId,
}

/// A module as contracts speak of it.
pub ghost struct ModuleView {
    pub functions: Seq<FunctionView>,
    pub values: Seq<ValueType>,
    pub incoming: Seq<Incoming>,
    pub position: BlockId,
}

/// The views of a row of functions.
pub open spec fn function_views(functions: Seq<Function>) -> Seq<FunctionView> {
    functions.map_values(|f: Function| f@)
}

impl ModuleView {
    /// Is there such an instruction, and does it compute a value?
    pub open spec fn computes(self, f: int, b: int, i: int) -> bool {
        &&& 0 <= f < self.functions.len()
        &&& 0 <= b < self.functions[f].blocks.len()
        &&& 0 <= i < self.functions[f].blocks[b].insts.len()
        &&& self.functions[f].blocks[b].insts[i] is Compute
    }

    /// The number of the value that an instruction computes.
    pub open spec fn id_at(self, f: int, b: int, i: int) -> usize {
        self.functions[f].blocks[b].insts[i]->id
    }

    /// Is every value computed at one place only, and has it a type?
    #[verifier::opaque]
    pub open spec fn unique(self) -> bool {
        &&& forall|f: int, b: int, i: int| #[trigger]
            self.computes(f, b, i) ==> self.id_at(f, b, i) < self.values.len()
        &&& forall|f: int, b: int, i: int, g: int, c: int, j: int| #[trigger]
            self.computes(f, b, i) && #[trigger] self.computes(g, c, j) && self.id_at(f, b, i)
                == self.id_at(g, c, j) ==> f == g && b == c && i == j
    }

    /// Is there such a block?
    pub open spec fn has_block(self, function: usize, block: usize) -> bool {
        function < self.functions.len() && block < self.functions[function as int].blocks.len()
    }

    /// The module with other blocks in a function.
    pub open spec fn with_blocks(self, function: usize, blocks: Seq<BlockView>) -> ModuleView {
        ModuleView {
            functions: self.functions.update(
                function as int,
                FunctionView { blocks, ..self.functions[function as int] },
            ),
            ..self
        }
    }

    /// The module with other instructions in a block.
    pub open spec fn with_insts(self, function: usize, block: usize, insts: Seq<InstView>) ->
        ModuleView {
        let blocks = self.functions[function as int].blocks;
        self.with_blocks(
            function,
            blocks.update(block as int, BlockView { insts, ..blocks[block as int] }),
        )
    }

    /// The instructions of a block.
    pub open spec fn insts(self, function: usize, block: usize) -> Seq<InstView> {
        self.functions[function as int].blocks[block as int].insts
    }

    /// The module with one more function, which has no blocks.
    pub open spec fn with_function(self, name: Seq<char>) -> ModuleView {
        ModuleView {
            functions: self.functions.push(
                FunctionView { name, blocks: Seq::empty(), deleted: false },
            ),
            ..self
        }
    }

    /// The module with one more block at the end of a function.
    pub open spec fn with_block(self, function: usize, name: Seq<char>) -> ModuleView {
        self.with_blocks(
            function,
            self.functions[function as int].blocks.push(
                BlockView { name, insts: Seq::empty() },
            ),
        )
    }

    /// The module with another place for the next instruction.
    pub open spec fn at(self, function: usize, block: usize) -> ModuleView {
        ModuleView { position: (function, block), ..self }
    }

    /// The module with one more instruction at the current place.
    pub open spec fn emit(self, inst: InstView) -> ModuleView {
        self.with_insts(
            self.position.0,
            self.position.1,
            self.insts(self.position.0, self.position.1).push(inst),
        )
    }

    /// The value that comes next.
    pub open spec fn next_value(self, ty: ValueType) -> Value {
        Value::Inst(self.values.len() as usize, ty)
    }

    /// The module with one more instruction that computes a value.
    pub open spec fn compute(self, operation: Operation, ty: ValueType, name: Seq<char>) ->
        ModuleView {
        let id = self.values.len() as usize;
        ModuleView {
            values: self.values.push(ty),
            ..self.emit(InstView::Compute { id, operation, name })
        }
    }

    /// The module with memory for a value, which is reserved at the beginning of
    /// a function.
    pub open spec fn alloca(self, function: usize, ty: ValueType, name: Seq<char>) -> ModuleView {
        let inst = InstView::Compute {
            id: self.values.len() as usize,
            operation: Operation::Alloca(ty),
            name,
        };
        ModuleView {
            values: self.values.push(ty),
            ..self.with_insts(function, 0, seq![inst] + self.insts(function, 0))
        }
    }

    /// The module with one more value for a phi.
    pub open spec fn with_incoming(self, incoming: Incoming) -> ModuleView {
        ModuleView { incoming: self.incoming.push(incoming), ..self }
    }

    /// The module without a function.
    pub open spec fn delete(self, function: usize) -> ModuleView {
        ModuleView {
            functions: self.functions.update(
                function as int,
                FunctionView { deleted: true, ..self.functions[function as int] },
            ),
            ..self
        }
    }
}

/// Nothing is computed in a module without functions.
pub proof fn lemma_unique_empty(m: ModuleView)
    requires
        m.functions.len() == 0,
    ensures
        m.unique(),
{
    reveal(ModuleView::unique);
}

/// A function or block without instructions computes nothing.
proof fn lemma_unique_same(m: ModuleView, after: ModuleView)
    requires
        m.unique(),
        after.values == m.values,
        forall|f: int, b: int, i: int| #[trigger]
            after.computes(f, b, i) ==> m.computes(f, b, i) && m.id_at(f, b, i) == after.id_at(
                f,
                b,
                i,
            ),
    ensures
        after.unique(),
{
    reveal(ModuleView::unique);
}

/// An instruction that computes the next value, in front of or behind the others
/// of a block.
proof fn lemma_unique_next(m: ModuleView, after: ModuleView, function: int, block: int, place: int)
    requires
        m.unique(),
        m.values.len() < usize::MAX,
        after.values.len() == m.values.len() + 1,
        after.computes(function, block, place),
        after.id_at(function, block, place) == m.values.len(),
        forall|f: int, b: int, i: int| #[trigger]
            after.computes(f, b, i) && !(f == function && b == block && i == place) ==> {
                let j = if f == function && b == block && i > place {
                    i - 1
                } else {
                    i
                };
                m.computes(f, b, j) && m.id_at(f, b, j) == after.id_at(f, b, i)
            },
    ensures
        after.unique(),
{
    reveal(ModuleView::unique);
    assert forall|f: int, b: int, i: int| #[trigger] after.computes(f, b, i) implies after.id_at(
        f,
        b,
        i,
    ) < after.values.len() by {
        if !(f == function && b == block && i == place) {
            let j = if f == function && b == block && i > place {
                i - 1
            } else {
                i
            };
            assert(m.computes(f, b, j));
        }
    }
    assert forall|f: int, b: int, i: int, g: int, c: int, j: int| #[trigger]
        after.computes(f, b, i) && #[trigger] after.computes(g, c, j) && after.id_at(f, b, i)
            == after.id_at(g, c, j) implies f == g && b == c && i == j by {
        let i1 = if f == function && b == block && i > place {
            i - 1
        } else {
            i
        };
        let j1 = if g == function && c == block && j > place {
            j - 1
        } else {
            j
        };
        if !(f == function && b == block && i == place) {
            assert(m.computes(f, b, i1));
        }
        if !(g == function && c == block && j == place) {
            assert(m.computes(g, c, j1));
        }
    }
}

impl Module {
    pub open spec fn view(&self) -> ModuleView {
        ModuleView {
            functions: function_views(self.functions@),
            values: self.values@,
            incoming: self.incoming@,
            position: self.position,
        }
    }

    /// A module without functions.
    pub fn new() -> (r: Module)
        ensures
            r@ == (ModuleView {
                functions: Seq::empty(),
                values: Seq::empty(),
                incoming: Seq::empty(),
                position: (0, 0),
            }),
    {
        let r = Module {
            functions: Vec::new(),
            values: Vec::new(),
            incoming: Vec::new(),
            position: (0, 0),
        };
        assert(r@.functions =~= Seq::empty());
        r
    }

    /// Adds a function without blocks.
    pub fn add_function(&mut self, name: &str) -> (r: usize)
        ensures
            final(self)@ == old(self)@.with_function(name@),
            r == old(self)@.functions.len(),
            old(self)@.unique() ==> final(self)@.unique(),
    {
        let r: usize = self.functions.len();
        let function = Function { name: name.to_owned(), blocks: Vec::new(), deleted: false };
        assert(function@.blocks =~= Seq::empty());
        self.functions.push(function);
        assert(self@.functions =~= old(self)@.with_function(name@).functions);
        proof {
            if old(self)@.unique() {
                lemma_unique_same(old(self)@, self@);
            }
        }
        r
    }

    /// Adds a block at the end of a function.
    pub fn append_block(&mut self, function: usize, name: &str) -> (r: usize)
        requires
            function < old(self)@.functions.len(),
        ensures
            final(self)@ == old(self)@.with_block(function, name@),
            r == old(self)@.functions[function as int].blocks.len(),
            old(self)@.unique() ==> final(self)@.unique(),
    {
        let ghost after = self@.with_block(function, name@);
        let r: usize = self.functions[function].blocks.len();
        let block = Block { name: name.to_owned(), insts: Vec::new() };
        assert(block@.insts =~= Seq::empty());
        self.functions[function].blocks.push(block);
        assert(self@.functions[function as int].blocks
            =~= after.functions[function as int].blocks);
        assert(self@.functions =~= after.functions);
        proof {
            if old(self)@.unique() {
                lemma_unique_same(old(self)@, self@);
            }
        }
        r
    }

    /// Chooses the block that the next instruction goes to the end of.
    pub fn position_at_end(&mut self, function: usize, block: usize)
        ensures
            final(self)@ == old(self)@.at(function, block),
            old(self)@.unique() ==> final(self)@.unique(),
    {
        self.position = (function, block);
        proof {
            if old(self)@.unique() {
                lemma_unique_same(old(self)@, self@);
            }
        }
    }

    /// Adds an instruction at the current place.
    pub fn emit(&mut self, inst: Inst)
        requires
            old(self)@.has_block(old(self)@.position.0, old(self)@.position.1),
        ensures
            final(self)@ == old(self)@.emit(inst@),
            old(self)@.unique() && !(inst is Compute) ==> final(self)@.unique(),
    {
        let ghost after = self@.emit(inst@);
        let (f, b): (usize, usize) = self.position;
        let ghost before = inst_views(self.functions@[f as int].blocks@[b as int].insts@);
        self.functions[f].blocks[b].insts.push(inst);
        assert(inst_views(self.functions@[f as int].blocks@[b as int].insts@) =~= before.push(
            inst@,
        ));
        assert(self@.functions[f as int].blocks =~= after.functions[f as int].blocks);
        assert(self@.functions =~= after.functions);
        proof {
            if old(self)@.unique() && !(inst is Compute) {
                lemma_unique_same(old(self)@, self@);
            }
        }
    }

    /// Adds an instruction that computes a value.
    pub fn compute(&mut self, operation: Operation, ty: ValueType, name: &str) -> (r: Value)
        requires
            old(self)@.has_block(old(self)@.position.0, old(self)@.position.1),
        ensures
            final(self)@ == old(self)@.compute(operation, ty, name@),
            r == old(self)@.next_value(ty),
            old(self)@.unique() ==> final(self)@.unique(),
    {
        let id: usize = self.values.len();
        self.emit(Inst::Compute { id, operation, name: name.to_owned() });
        self.values.push(ty);
        assert(self.values.len() == id + 1);
        proof {
            if old(self)@.unique() {
                let (f, b) = old(self)@.position;
                let place = old(self)@.insts(f, b).len() as int;
                assert(self@.computes(f as int, b as int, place));
                lemma_unique_next(old(self)@, self@, f as int, b as int, place);
            }
        }
        Value::Inst(id, ty)
    }

    /// Reserves memory for a value at the beginning of a function.
    pub fn alloca(&mut self, function: usize, ty: ValueType, name: &str) -> (r: usize)
        requires
            old(self)@.has_block(function, 0),
        ensures
            final(self)@ == old(self)@.alloca(function, ty, name@),
            r == old(self)@.values.len(),
            old(self)@.unique() ==> final(self)@.unique(),
    {
        let ghost after = self@.alloca(function, ty, name@);
        let id: usize = self.values.len();
        let ghost before = inst_views(self.functions@[function as int].blocks@[0].insts@);
        let inst = Inst::Compute {
            id,
            operation: Operation::Alloca(ty),
            name: name.to_owned(),
        };
        let ghost view = inst@;
        self.functions[function].blocks[0].insts.insert(0, inst);
        assert(inst_views(self.functions@[function as int].blocks@[0].insts@) =~= seq![view]
            + before);
        self.values.push(ty);
        assert(self@.functions[function as int].blocks
            =~= after.functions[function as int].blocks);
        assert(self@.functions =~= after.functions);
        assert(self.values.len() == id + 1);
        proof {
            if old(self)@.unique() {
                assert(self@.computes(function as int, 0, 0));
                lemma_unique_next(old(self)@, self@, function as int, 0, 0);
            }
        }
        id
    }

    /// Adds a value for a phi.
    pub fn add_incoming(&mut self, incoming: Incoming)
        ensures
            final(self)@ == old(self)@.with_incoming(incoming),
            old(self)@.unique() ==> final(self)@.unique(),
    {
        self.incoming.push(incoming);
        proof {
            if old(self)@.unique() {
                lemma_unique_same(old(self)@, self@);
            }
        }
    }

    /// Removes a function.
    pub fn delete(&mut self, function: usize)
        requires
            function < old(self)@.functions.len(),
        ensures
            final(self)@ == old(self)@.delete(function),
            old(self)@.unique() ==> final(self)@.unique(),
    {
        self.functions[function].deleted = true;
        assert(self@.functions =~= old(self)@.delete(function).functions);
        proof {
            if old(self)@.unique() {
                lemma_unique_same(old(self)@, self@);
            }
        }
    }
}

} // verus!
