//! The builder of the middle representation.

use crate::mir::nodes::{
    variable_views, MIRFunction, MIRFunctionView, MIRStruct, MIRStructView, MIRType, MIRVariable,
    MIRVariableView,
};
use crate::table::Table;
use crate::text::same;
use vstd::hash_map::StringHashMap;
use vstd::prelude::*;

verus! {

/// Holds what has been declared in the file that is compiled.
pub struct MIRBuilder {
    /// The path of the file.
    pub path: String,
    /// All structs.
    pub structs: Vec<MIRStruct>,
    /// The numbers of the structs, by their names.
    pub struct_names: StringHashMap<usize>,
    /// All functions.
    pub functions: Vec<MIRFunction>,
    /// The numbers of the functions, by their names.
    pub function_names: StringHashMap<usize>,
}

/// A builder as contracts speak of it.
pub ghost struct BuilderView {
    pub path: String,
    pub structs: Seq<MIRStructView>,
    pub struct_names: Map<Seq<char>, usize>,
    pub functions: Seq<MIRFunctionView>,
    pub function_names: Map<Seq<char>, usize>,
}

impl BuilderView {
    /// Does every name lead to the item of that name, and every item have its
    /// name in the table?
    pub open spec fn wf(self) -> bool {
        &&& forall|name: Seq<char>| #[trigger]
            self.struct_names.contains_key(name) ==> self.struct_names[name] < self.structs.len()
                && self.structs[self.struct_names[name] as int].name == name
        &&& forall|name: Seq<char>| #[trigger]
            self.function_names.contains_key(name) ==> self.function_names[name]
                < self.functions.len() && self.functions[self.function_names[name] as int].name
                == name
        &&& forall|i: int|
            0 <= i < self.structs.len() ==> self.struct_names.contains_key(
                (#[trigger] self.structs[i]).name,
            ) && self.struct_names[self.structs[i].name] == i
        &&& forall|i: int|
            0 <= i < self.functions.len() ==> self.function_names.contains_key(
                (#[trigger] self.functions[i]).name,
            ) && self.function_names[self.functions[i].name] == i
    }

    /// The type that a name stands for.
    pub open spec fn find_type(self, name: Seq<char>) -> Option<MIRType> {
        if name == "None"@ {
            Some(MIRType::NoneType)
        } else if name == "bool"@ {
            Some(MIRType::Bool)
        } else if name == "i64"@ {
            Some(MIRType::Int)
        } else if name == "f32"@ {
            Some(MIRType::Float)
        } else if name == "f64"@ {
            Some(MIRType::Double)
        } else if name == "String"@ {
            Some(MIRType::String)
        } else if self.struct_names.contains_key(name) {
            Some(MIRType::Struct(self.struct_names[name]))
        } else {
            None
        }
    }

    /// The builder with one more struct, which has no members.
    pub open spec fn with_struct(self, name: Seq<char>) -> BuilderView {
        BuilderView {
            structs: self.structs.push(
                MIRStructView {
                    name,
                    members: Map::empty(),
                    member_order: Seq::empty(),
                    super_struct: None,
                },
            ),
            struct_names: self.struct_names.insert(name, self.structs.len() as usize),
            ..self
        }
    }

    /// The builder with one more function, which has no code.
    pub open spec fn with_function(
        self,
        name: Seq<char>,
        ret_type: MIRType,
        parameters: Seq<MIRVariableView>,
    ) -> BuilderView {
        BuilderView {
            functions: self.functions.push(
                MIRFunctionView {
                    name,
                    parameters,
                    blocks: Map::empty(),
                    variables: Map::empty(),
                    ret_type,
                },
            ),
            function_names: self.function_names.insert(name, self.functions.len() as usize),
            ..self
        }
    }
}

/// The views of a row of structs.
pub open spec fn struct_views(structs: Seq<MIRStruct>) -> Seq<MIRStructView> {
    structs.map_values(|s: MIRStruct| s@)
}

/// The views of a row of functions.
pub open spec fn mir_function_views(functions: Seq<MIRFunction>) -> Seq<MIRFunctionView> {
    functions.map_values(|f: MIRFunction| f@)
}

impl MIRBuilder {
    pub open spec fn view(&self) -> BuilderView {
        BuilderView {
            path: self.path,
            structs: struct_views(self.structs@),
            struct_names: self.struct_names@,
            functions: mir_function_views(self.functions@),
            function_names: self.function_names@,
        }
    }

    /// A builder for a file in which nothing has been declared.
    pub fn new(path: String) -> (r: MIRBuilder)
        ensures
            r@ == (BuilderView {
                path,
                structs: Seq::empty(),
                struct_names: Map::empty(),
                functions: Seq::empty(),
                function_names: Map::empty(),
            }),
            r@.wf(),
    {
        let r = MIRBuilder {
            path,
            structs: Vec::new(),
            struct_names: StringHashMap::new(),
            functions: Vec::new(),
            function_names: StringHashMap::new(),
        };
        assert(r@.structs =~= Seq::empty());
        assert(r@.functions =~= Seq::empty());
        r
    }

    /// The type that a name stands for.
    pub fn find_type(&self, name: &str) -> (r: Option<MIRType>)
        ensures
            r == self@.find_type(name@),
    {
        if same(name, "None") {
            Some(MIRType::NoneType)
        } else if same(name, "bool") {
            Some(MIRType::Bool)
        } else if same(name, "i64") {
            Some(MIRType::Int)
        } else if same(name, "f32") {
            Some(MIRType::Float)
        } else if same(name, "f64") {
            Some(MIRType::Double)
        } else if same(name, "String") {
            Some(MIRType::String)
        } else {
            match self.struct_names.get(name) {
                Some(struc) => Some(MIRType::Struct(*struc)),
                None => None,
            }
        }
    }

    /// Creates an empty struct, unless there is one of that name.
    pub fn create_struct(&mut self, name: String) -> (r: Option<usize>)
        ensures
            if old(self)@.struct_names.contains_key(name@) {
                r is None && *final(self) == *old(self)
            } else {
                r == Some(old(self)@.structs.len() as usize) && final(self)@ == old(
                    self,
                )@.with_struct(name@)
            },
            old(self)@.wf() ==> final(self)@.wf(),
    {
        if self.struct_names.contains_key(name.as_str()) {
            return None;
        }
        let ghost before = self@;
        let number: usize = self.structs.len();
        let struc = MIRStruct {
            name: name.clone(),
            members: StringHashMap::new(),
            member_order: Vec::new(),
            super_struct: None,
        };
        self.structs.push(struc);
        assert(self.structs.len() == number + 1);
        assert(self@.structs =~= before.with_struct(name@).structs);
        self.struct_names.insert(name, number);
        proof {
            if before.wf() {
                lemma_with_struct(before, name@);
            }
        }
        Some(number)
    }

    /// Creates a function without code, unless there is one of that name.
    pub fn create_function(&mut self, name: String, ret_type: MIRType, parameters: Vec<
        MIRVariable,
    >) -> (r: Option<usize>)
        ensures
            if old(self)@.function_names.contains_key(name@) {
                r is None && *final(self) == *old(self)
            } else {
                r == Some(old(self)@.functions.len() as usize) && final(self)@ == old(
                    self,
                )@.with_function(name@, ret_type, variable_views(parameters@))
            },
            old(self)@.wf() ==> final(self)@.wf(),
    {
        if self.function_names.contains_key(name.as_str()) {
            return None;
        }
        let ghost before = self@;
        let ghost views = variable_views(parameters@);
        let number: usize = self.functions.len();
        let function = MIRFunction {
            name: name.clone(),
            parameters,
            blocks: Table::new(),
            variables: Table::new(),
            ret_type,
        };
        assert(function@.variables =~= Map::empty());
        self.functions.push(function);
        assert(self.functions.len() == number + 1);
        assert(self@.functions =~= before.with_function(name@, ret_type, views).functions);
        self.function_names.insert(name, number);
        proof {
            if before.wf() {
                lemma_with_function(before, name@, ret_type, views);
            }
        }
        Some(number)
    }
}

/// Structs and functions are told apart by their names: no two of a builder have
/// the same.
pub proof fn law_names_are_unique(b: BuilderView, i: int, j: int)
    requires
        b.wf(),
    ensures
        0 <= i < b.structs.len() && 0 <= j < b.structs.len() && b.structs[i].name
            == b.structs[j].name ==> i == j,
        0 <= i < b.functions.len() && 0 <= j < b.functions.len() && b.functions[i].name
            == b.functions[j].name ==> i == j,
{
}

/// Types are the same when the names of their structs or functions are.
pub open spec fn same_by_name(b: BuilderView, x: MIRType, y: MIRType) -> bool {
    match (x, y) {
        (MIRType::Struct(i), MIRType::Struct(j)) => b.structs[i as int].name
            == b.structs[j as int].name,
        (MIRType::Function(i), MIRType::Function(j)) => b.functions[i as int].name
            == b.functions[j as int].name,
        _ => x == y,
    }
}

/// Does the builder hold the struct or function of the type?
pub open spec fn holds_type(b: BuilderView, ty: MIRType) -> bool {
    match ty {
        MIRType::Struct(i) => i < b.structs.len(),
        MIRType::Function(i) => i < b.functions.len(),
        _ => true,
    }
}

/// Comparing types by number is comparing them by the names of their structs or
/// functions.
pub proof fn law_types_are_compared_by_name(b: BuilderView, x: MIRType, y: MIRType)
    requires
        b.wf(),
        holds_type(b, x),
        holds_type(b, y),
    ensures
        x == y <==> same_by_name(b, x, y),
{
    match (x, y) {
        (MIRType::Struct(i), MIRType::Struct(j)) => law_names_are_unique(b, i as int, j as int),
        (MIRType::Function(i), MIRType::Function(j)) => law_names_are_unique(
            b,
            i as int,
            j as int,
        ),
        _ => {},
    }
}

/// The type that has the name of a struct is that struct, unless the language has
/// a type of that name.
pub proof fn law_struct_type_is_found(b: BuilderView, name: Seq<char>)
    requires
        b.wf(),
        b.struct_names.contains_key(name),
    ensures
        b.find_type(name) matches Some(ty) && (ty is Struct ==> ty->Struct_0 < b.structs.len()
            && b.structs[ty->Struct_0 as int].name == name),
{
}

proof fn lemma_with_struct(b: BuilderView, name: Seq<char>)
    requires
        b.wf(),
        !b.struct_names.contains_key(name),
        b.structs.len() < usize::MAX,
    ensures
        b.with_struct(name).wf(),
{
    let after = b.with_struct(name);
    assert forall|i: int| 0 <= i < after.structs.len() implies after.struct_names.contains_key(
        (#[trigger] after.structs[i]).name,
    ) && after.struct_names[after.structs[i].name] == i by {
        if i < b.structs.len() {
            assert(b.struct_names.contains_key(b.structs[i].name));
        }
    }
}

proof fn lemma_with_function(
    b: BuilderView,
    name: Seq<char>,
    ret_type: MIRType,
    parameters: Seq<MIRVariableView>,
)
    requires
        b.wf(),
        !b.function_names.contains_key(name),
        b.functions.len() < usize::MAX,
    ensures
        b.with_function(name, ret_type, parameters).wf(),
{
    let after = b.with_function(name, ret_type, parameters);
    assert forall|i: int| 0 <= i < after.functions.len() implies after.function_names.contains_key(
        (#[trigger] after.functions[i]).name,
    ) && after.function_names[after.functions[i].name] == i by {
        if i < b.functions.len() {
            assert(b.function_names.contains_key(b.functions[i].name));
        }
    }
}

} // verus!
