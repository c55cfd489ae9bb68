//! The pass that declares all classes and functions of a file.

use crate::ast::declaration::{Class, DeclarationList, FuncSignature, FunctionArg, FunctionDecl};
use crate::ast::Expression;
use crate::lexer::token::{generated, TType, Token, TokenView};
use crate::mir::builder::BuilderView;
use crate::mir::generator::error::{fn_error, Error, ErrorView, Res};
use crate::mir::generator::passes::PreMIRPass;
use crate::mir::generator::state::MIRGenerator;
use crate::mir::nodes::{
    variable_table, variable_views, MIRType, MIRVariable, MIRVariableView,
};
use crate::text::{concat2, concat3};
use vstd::prelude::*;

verus! {

/// What the pass adds to: the builder, and the global variables.
pub ghost struct DeclareView {
    pub builder: BuilderView,
    pub globals: Map<Seq<char>, MIRVariableView>,
}

/// A signature as contracts speak of it.
pub ghost struct SigView {
    pub name: TokenView,
    pub return_type: Option<TokenView>,
    /// The names and types of the parameters.
    pub parameters: Seq<(TokenView, TokenView)>,
}

/// The names and types of parameters.
pub open spec fn arg_views(args: Seq<FunctionArg>) -> Seq<(TokenView, TokenView)> {
    args.map_values(|a: FunctionArg| (a.name@, a._type@))
}

impl FuncSignature {
    pub open spec fn view(&self) -> SigView {
        SigView {
            name: self.name@,
            return_type: match self.return_type {
                Some(token) => Some(token@),
                None => None,
            },
            parameters: arg_views(self.parameters@),
        }
    }
}

/// A method as contracts speak of it.
pub ghost struct MethodView {
    pub sig: SigView,
    pub body: Expression,
}

impl FunctionDecl {
    pub open spec fn view(&self) -> MethodView {
        MethodView { sig: self.sig@, body: self.body }
    }
}

impl MethodView {
    /// The method under the name that it has outside of its class.
    pub open spec fn renamed(self, class: Seq<char>) -> MethodView {
        MethodView {
            sig: SigView {
                name: TokenView {
                    lexeme: class + "-"@ + self.sig.name.lexeme,
                    ..self.sig.name
                },
                ..self.sig
            },
            ..self
        }
    }
}

/// The views of methods.
pub open spec fn method_views(methods: Seq<FunctionDecl>) -> Seq<MethodView> {
    methods.map_values(|m: FunctionDecl| m@)
}

/// A class as contracts speak of it.
pub ghost struct ClassView {
    pub name: TokenView,
    pub methods: Seq<MethodView>,
}

impl Class {
    pub open spec fn view(&self) -> ClassView {
        ClassView { name: self.name@, methods: method_views(self.methods@) }
    }
}

/// The views of classes.
pub open spec fn class_views(classes: Seq<Class>) -> Seq<ClassView> {
    classes.map_values(|c: Class| c@)
}

/// The types of parameters, behind those in `done`; nothing if one is unknown.
pub open spec fn resolve_parameters(
    builder: BuilderView,
    parameters: Seq<(TokenView, TokenView)>,
    i: nat,
    done: Seq<MIRVariableView>,
) -> Option<Seq<MIRVariableView>>
    decreases parameters.len() - i,
{
    if i >= parameters.len() {
        Some(done)
    } else {
        match builder.find_type(parameters[i as int].1.lexeme) {
            Some(ty) => resolve_parameters(
                builder,
                parameters,
                i + 1,
                done.push(
                    MIRVariableView {
                        mutable: false,
                        _type: ty,
                        name: parameters[i as int].0.lexeme,
                    },
                ),
            ),
            None => None,
        }
    }
}

/// The declaration of a function: it is added to the builder and is a global
/// variable.
pub open spec fn declare_function(s: DeclareView, sig: SigView) -> (
    DeclareView,
    Result<(), ErrorView>,
) {
    let name = sig.name.lexeme;
    match s.builder.find_type(
        match sig.return_type {
            Some(ty) => ty.lexeme,
            None => "None"@,
        },
    ) {
        None => (s, Err(fn_error("Unknown function return type"@, sig.name.line, name))),
        Some(ret_type) => match resolve_parameters(s.builder, sig.parameters, 0, Seq::empty()) {
            None => (
                s,
                Err(fn_error("Function parameter has unknown type"@, sig.name.line, name)),
            ),
            Some(parameters) => if s.builder.function_names.contains_key(name) {
                (s, Err(fn_error("Function was declared twice"@, sig.name.line, name)))
            } else {
                (
                    DeclareView {
                        builder: s.builder.with_function(name, ret_type, parameters),
                        globals: s.globals.insert(
                            name,
                            MIRVariableView {
                                mutable: false,
                                _type: MIRType::Function(s.builder.functions.len() as usize),
                                name,
                            },
                        ),
                    },
                    Ok(()),
                )
            },
        },
    }
}

/// The signature of the function that initialises the instances of a class.
pub open spec fn init_sig(class: TokenView) -> SigView {
    SigView {
        name: generated(TType::Identifier, class.lexeme + "-internal-init"@),
        return_type: None,
        parameters: seq![(generated(TType::Identifier, "this"@), class)],
    }
}

/// The declaration of a class: a struct, and the function that initialises its
/// instances.
pub open spec fn declare_class(s: DeclareView, class: ClassView) -> (
    DeclareView,
    Result<(), ErrorView>,
) {
    let name = class.name.lexeme;
    if s.builder.struct_names.contains_key(name) {
        (
            s,
            Err(
                ErrorView {
                    line: Some(class.name.line),
                    message: "Class was already defined!"@,
                    code: "class "@ + name + " { ... }"@,
                },
            ),
        )
    } else {
        declare_function(
            DeclareView { builder: s.builder.with_struct(name), ..s },
            init_sig(class.name),
        )
    }
}

/// The declarations of the classes from a place on.
pub open spec fn declare_classes(s: DeclareView, classes: Seq<ClassView>, i: nat) -> (
    DeclareView,
    Result<(), ErrorView>,
)
    decreases classes.len() - i,
{
    if i >= classes.len() {
        (s, Ok(()))
    } else {
        match declare_class(s, classes[i as int]) {
            (s1, Err(e)) => (s1, Err(e)),
            (s1, Ok(())) => declare_classes(s1, classes, i + 1),
        }
    }
}

/// The declarations of the functions from a place on.
pub open spec fn declare_functions(s: DeclareView, sigs: Seq<SigView>, i: nat) -> (
    DeclareView,
    Result<(), ErrorView>,
)
    decreases sigs.len() - i,
{
    if i >= sigs.len() {
        (s, Ok(()))
    } else {
        match declare_function(s, sigs[i as int]) {
            (s1, Err(e)) => (s1, Err(e)),
            (s1, Ok(())) => declare_functions(s1, sigs, i + 1),
        }
    }
}

/// The declarations of the methods of a class from a place on, and the methods
/// under their new names.
pub open spec fn declare_methods(
    s: DeclareView,
    class: Seq<char>,
    methods: Seq<MethodView>,
    i: nat,
) -> (DeclareView, Seq<MethodView>, Result<(), ErrorView>)
    decreases methods.len() - i,
{
    if i >= methods.len() {
        (s, methods, Ok(()))
    } else {
        let method = methods[i as int].renamed(class);
        let methods1 = methods.update(i as int, method);
        match declare_function(s, method.sig) {
            (s1, Err(e)) => (s1, methods1, Err(e)),
            (s1, Ok(())) => declare_methods(s1, class, methods1, i + 1),
        }
    }
}

/// The declarations of the methods of the classes from a place on, and the
/// classes with the new names of their methods.
pub open spec fn declare_class_methods(s: DeclareView, classes: Seq<ClassView>, i: nat) -> (
    DeclareView,
    Seq<ClassView>,
    Result<(), ErrorView>,
)
    decreases classes.len() - i,
{
    if i >= classes.len() {
        (s, classes, Ok(()))
    } else {
        let class = classes[i as int];
        let (s1, methods, r) = declare_methods(s, class.name.lexeme, class.methods, 0);
        let classes1 = classes.update(i as int, ClassView { methods, ..class });
        match r {
            Err(e) => (s1, classes1, Err(e)),
            Ok(()) => declare_class_methods(s1, classes1, i + 1),
        }
    }
}

/// The signatures of the functions of a file: first those without a body.
pub open spec fn function_sigs(list: DeclarationList) -> Seq<SigView> {
    list.ext_functions@.map_values(|f: FuncSignature| f@) + list.functions@.map_values(
        |f: FunctionDecl| f.sig@,
    )
}

/// All functions and methods of a file, and its classes with the new names of
/// their methods.
pub open spec fn declare_all_functions(s: DeclareView, list: DeclarationList) -> (
    DeclareView,
    Seq<ClassView>,
    Result<(), ErrorView>,
) {
    match declare_functions(s, function_sigs(list), 0) {
        (s1, Err(e)) => (s1, class_views(list.classes@), Err(e)),
        (s1, Ok(())) => declare_class_methods(s1, class_views(list.classes@), 0),
    }
}

/// The whole pass: classes, functions, methods.
pub open spec fn declare_all(s: DeclareView, list: DeclarationList) -> (
    DeclareView,
    Seq<ClassView>,
    Result<(), ErrorView>,
) {
    match declare_classes(s, class_views(list.classes@), 0) {
        (s1, Err(e)) => (s1, class_views(list.classes@), Err(e)),
        (s1, Ok(())) => declare_all_functions(s1, list),
    }
}

/// A result as contracts speak of it.
pub open spec fn res_unit(r: Res<()>) -> Result<(), ErrorView> {
    match r {
        Ok(()) => Ok(()),
        Err(e) => Err(e@),
    }
}

/// What the pass adds to, in a generator.
pub open spec fn declared(gen: MIRGenerator) -> DeclareView {
    DeclareView { builder: gen.builder@, globals: variable_table(gen.environments@[0]@) }
}

/// What the pass leaves as it is, in a generator.
pub open spec fn untouched(gen: MIRGenerator, before: MIRGenerator) -> bool {
    &&& gen.environments@.len() == before.environments@.len()
    &&& gen.environments@.skip(1) == before.environments@.skip(1)
    &&& gen == (MIRGenerator {
        builder: gen.builder,
        environments: gen.environments,
        ..before
    })
}

/// Declares all classes and functions of a file.
pub struct DeclarePass<'p> {
    pub gen: &'p mut MIRGenerator,
    pub none_const: String,
}

impl<'p> PreMIRPass for DeclarePass<'p> {
    open spec fn ready(&self) -> bool {
        self.gen.environments@.len() > 0 && self.none_const@ == "None"@
    }

    fn run(self, list: &mut DeclarationList) -> (r: Res<()>)
        ensures
            (declared(*final(self.gen)), class_views(final(list).classes@), res_unit(r))
                == declare_all(declared(*old(self.gen)), *old(list)),
            untouched(*final(self.gen), *old(self.gen)),
            *final(list) == (DeclarationList { classes: final(list).classes, ..*old(list) }),
            old(self.gen).builder@.wf() ==> final(self.gen).builder@.wf(),
    {
        let mut this = self;
        this.classes(list)?;
        this.functions(list)
    }
}

impl<'p> DeclarePass<'p> {
    /// This part of the pass declares all classes.
    fn classes(&mut self, list: &DeclarationList) -> (r: Res<()>)
        requires
            old(self).ready(),
        ensures
            (declared(*final(self).gen), res_unit(r)) == declare_classes(
                declared(*old(self).gen),
                class_views(list.classes@),
                0,
            ),
            untouched(*final(self).gen, *old(self).gen),
            final(self).ready(),
            old(self).gen.builder@.wf() ==> final(self).gen.builder@.wf(),
            *final(final(self).gen) == *final(old(self).gen),
    {
        let mut i: usize = 0;
        while i < list.classes.len()
            invariant
                i <= list.classes@.len(),
                self.ready(),
                declare_classes(declared(*old(self).gen), class_views(list.classes@), 0)
                    == declare_classes(
                    declared(*self.gen),
                    class_views(list.classes@),
                    i as nat,
                ),
                untouched(*self.gen, *old(self).gen),
                old(self).gen.builder@.wf() ==> self.gen.builder@.wf(),
                *final(self.gen) == *final(old(self).gen),
            decreases list.classes.len() - i,
        {
            assert(class_views(list.classes@)[i as int] == list.classes@[i as int]@);
            self.create_class(&list.classes[i])?;
            i = i + 1;
        }
        Ok(())
    }

    fn create_class(&mut self, class: &Class) -> (r: Res<()>)
        requires
            old(self).ready(),
        ensures
            (declared(*final(self).gen), res_unit(r)) == declare_class(
                declared(*old(self).gen),
                class@,
            ),
            untouched(*final(self).gen, *old(self).gen),
            final(self).ready(),
            old(self).gen.builder@.wf() ==> final(self).gen.builder@.wf(),
            *final(final(self).gen) == *final(old(self).gen),
    {
        // Create struct (filled later)
        match self.gen.builder.create_struct(class.name.lexeme.clone()) {
            None => {
                let code = concat3("class ", class.name.lexeme.as_str(), " { ... }");
                return Err(
                    Error::new(Some(class.name.line), "Class was already defined!", code),
                );
            },
            Some(_) => {},
        }
        // Create init function
        let mut parameters: Vec<FunctionArg> = Vec::new();
        parameters.push(
            FunctionArg {
                name: Token::generic_identifier("this".to_owned()),
                _type: class.name.copy(),
            },
        );
        let sig = FuncSignature {
            name: Token::generic_identifier(
                concat2(class.name.lexeme.as_str(), "-internal-init"),
            ),
            return_type: None,
            parameters,
        };
        assert(sig@.parameters =~= init_sig(class.name@).parameters);
        self.create_function(&sig)
    }

    /// This part declares all functions (their signatures).
    fn functions(&mut self, list: &mut DeclarationList) -> (r: Res<()>)
        requires
            old(self).ready(),
        ensures
            (declared(*final(self).gen), class_views(final(list).classes@), res_unit(r))
                == declare_all_functions(declared(*old(self).gen), *old(list)),
            untouched(*final(self).gen, *old(self).gen),
            *final(list) == (DeclarationList { classes: final(list).classes, ..*old(list) }),
            old(self).gen.builder@.wf() ==> final(self).gen.builder@.wf(),
            *final(final(self).gen) == *final(old(self).gen),
    {
        let ghost sigs = function_sigs(*list);
        let ghost start = declared(*self.gen);
        let mut i: usize = 0;
        while i < list.ext_functions.len()
            invariant
                i <= list.ext_functions@.len(),
                *list == *old(list),
                sigs == function_sigs(*list),
                start == declared(*old(self).gen),
                self.ready(),
                declare_functions(start, sigs, 0) == declare_functions(
                    declared(*self.gen),
                    sigs,
                    i as nat,
                ),
                untouched(*self.gen, *old(self).gen),
                old(self).gen.builder@.wf() ==> self.gen.builder@.wf(),
                *final(self.gen) == *final(old(self).gen),
            decreases list.ext_functions.len() - i,
        {
            assert(sigs[i as int] == list.ext_functions@[i as int]@);
            self.create_function(&list.ext_functions[i])?;
            i = i + 1;
        }
        let ghost ext = list.ext_functions@.len();
        let mut i: usize = 0;
        while i < list.functions.len()
            invariant
                i <= list.functions@.len(),
                *list == *old(list),
                ext == list.ext_functions@.len(),
                sigs == function_sigs(*list),
                start == declared(*old(self).gen),
                self.ready(),
                declare_functions(start, sigs, 0) == declare_functions(
                    declared(*self.gen),
                    sigs,
                    ext + i as nat,
                ),
                untouched(*self.gen, *old(self).gen),
                old(self).gen.builder@.wf() ==> self.gen.builder@.wf(),
                *final(self.gen) == *final(old(self).gen),
            decreases list.functions.len() - i,
        {
            assert(sigs[ext + i] == list.functions@[i as int].sig@);
            self.create_function(&list.functions[i].sig)?;
            i = i + 1;
        }
        self.methods(list)
    }

    /// Declares the methods of all classes, under new names.
    fn methods(&mut self, list: &mut DeclarationList) -> (r: Res<()>)
        requires
            old(self).ready(),
        ensures
            (declared(*final(self).gen), class_views(final(list).classes@), res_unit(r))
                == declare_class_methods(
                declared(*old(self).gen),
                class_views(old(list).classes@),
                0,
            ),
            untouched(*final(self).gen, *old(self).gen),
            *final(list) == (DeclarationList { classes: final(list).classes, ..*old(list) }),
            old(self).gen.builder@.wf() ==> final(self).gen.builder@.wf(),
            *final(final(self).gen) == *final(old(self).gen),
    {
        let ghost start = declared(*self.gen);
        let ghost before = class_views(list.classes@);
        let mut c: usize = 0;
        while c < list.classes.len()
            invariant
                c <= list.classes@.len(),
                *list == (DeclarationList { classes: list.classes, ..*old(list) }),
                self.ready(),
                start == declared(*old(self).gen),
                before == class_views(old(list).classes@),
                declare_class_methods(start, before, 0) == declare_class_methods(
                    declared(*self.gen),
                    class_views(list.classes@),
                    c as nat,
                ),
                untouched(*self.gen, *old(self).gen),
                old(self).gen.builder@.wf() ==> self.gen.builder@.wf(),
                *final(self.gen) == *final(old(self).gen),
            decreases list.classes.len() - c,
        {
            let ghost classes = class_views(list.classes@);
            let ghost methods = classes[c as int].methods;
            let ghost s = declared(*self.gen);
            let name = list.classes[c].name.lexeme.clone();
            assert(name@ == classes[c as int].name.lexeme);
            let mut m: usize = 0;
            while m < list.classes[c].methods.len()
                invariant
                    c < list.classes@.len(),
                    m <= list.classes@[c as int].methods@.len(),
                    *list == (DeclarationList { classes: list.classes, ..*old(list) }),
                    self.ready(),
                    start == declared(*old(self).gen),
                    before == class_views(old(list).classes@),
                    list.classes@.len() == classes.len(),
                    name@ == classes[c as int].name.lexeme,
                    methods == classes[c as int].methods,
                    declare_class_methods(start, before, 0) == declare_class_methods(
                        s,
                        classes,
                        c as nat,
                    ),
                    class_views(list.classes@) == classes.update(
                        c as int,
                        ClassView {
                            methods: method_views(list.classes@[c as int].methods@),
                            ..classes[c as int]
                        },
                    ),
                    declare_methods(s, name@, methods, 0) == declare_methods(
                        declared(*self.gen),
                        name@,
                        method_views(list.classes@[c as int].methods@),
                        m as nat,
                    ),
                    untouched(*self.gen, *old(self).gen),
                    old(self).gen.builder@.wf() ==> self.gen.builder@.wf(),
                    *final(self.gen) == *final(old(self).gen),
                decreases list.classes@[c as int].methods@.len() - m,
            {
                let ghost earlier = list.classes@;
                let ghost method = earlier[c as int].methods@[m as int]@;
                let lexeme = concat3(
                    name.as_str(),
                    "-",
                    list.classes[c].methods[m].sig.name.lexeme.as_str(),
                );
                list.classes[c].methods[m].sig.name.lexeme = lexeme;
                assert(list.classes@[c as int].methods@[m as int]@ == method.renamed(name@));
                assert(method_views(list.classes@[c as int].methods@) =~= method_views(
                    earlier[c as int].methods@,
                ).update(m as int, method.renamed(name@)));
                assert forall|j: int| 0 <= j < classes.len() implies #[trigger] class_views(
                    list.classes@,
                )[j] == (if j == c {
                    ClassView {
                        methods: method_views(list.classes@[c as int].methods@),
                        ..classes[c as int]
                    }
                } else {
                    classes[j]
                }) by {
                    assert(class_views(earlier)[j] == earlier[j]@);
                }
                assert(class_views(list.classes@) =~= classes.update(
                    c as int,
                    ClassView {
                        methods: method_views(list.classes@[c as int].methods@),
                        ..classes[c as int]
                    },
                ));
                self.create_function(&list.classes[c].methods[m].sig)?;
                m = m + 1;
            }
            c = c + 1;
        }
        Ok(())
    }

    /// Declares a function.
    pub fn create_function(&mut self, func_sig: &FuncSignature) -> (r: Res<()>)
        requires
            old(self).ready(),
        ensures
            (declared(*final(self).gen), res_unit(r)) == declare_function(
                declared(*old(self).gen),
                func_sig@,
            ),
            untouched(*final(self).gen, *old(self).gen),
            final(self).ready(),
            old(self).gen.builder@.wf() ==> final(self).gen.builder@.wf(),
            *final(final(self).gen) == *final(old(self).gen),
    {
        let found = match &func_sig.return_type {
            Some(token) => self.gen.builder.find_type(token.lexeme.as_str()),
            None => self.gen.builder.find_type(self.none_const.as_str()),
        };
        let ret_type = match found {
            Some(ty) => ty,
            None => {
                return Err(Error::new_fn("Unknown function return type", func_sig));
            },
        };
        let mut parameters: Vec<MIRVariable> = Vec::with_capacity(func_sig.parameters.len());
        assert(variable_views(parameters@) =~= Seq::empty());
        let mut i: usize = 0;
        while i < func_sig.parameters.len()
            invariant
                i <= func_sig.parameters@.len(),
                *self == *old(self),
                self.ready(),
                self.gen.builder@.find_type(
                    match func_sig@.return_type {
                        Some(ty) => ty.lexeme,
                        None => "None"@,
                    },
                ) == Some(ret_type),
                resolve_parameters(self.gen.builder@, func_sig@.parameters, 0, Seq::empty())
                    == resolve_parameters(
                    self.gen.builder@,
                    func_sig@.parameters,
                    i as nat,
                    variable_views(parameters@),
                ),
            decreases func_sig.parameters.len() - i,
        {
            let param = &func_sig.parameters[i];
            let ghost views = variable_views(parameters@);
            match self.gen.builder.find_type(param._type.lexeme.as_str()) {
                Some(ty) => {
                    let var = MIRVariable::new(param.name.lexeme.clone(), ty, false);
                    parameters.push(var);
                    assert(variable_views(parameters@) =~= views.push(var@));
                },
                None => {
                    return Err(Error::new_fn("Function parameter has unknown type", func_sig));
                },
            }
            i = i + 1;
        }
        match self.gen.builder.create_function(
            func_sig.name.lexeme.clone(),
            ret_type,
            parameters,
        ) {
            None => Err(Error::new_fn("Function was declared twice", func_sig)),
            Some(function) => {
                let var = MIRVariable::new(
                    func_sig.name.lexeme.clone(),
                    MIRType::Function(function),
                    false,
                );
                let ghost env = self.gen.environments@[0]@;
                self.gen.environments[0].insert(func_sig.name.lexeme.clone(), var);
                assert(variable_table(self.gen.environments@[0]@) =~= variable_table(env).insert(
                    func_sig.name.lexeme@,
                    var@,
                ));
                assert(self.gen.environments@.skip(1) =~= old(self).gen.environments@.skip(1));
                Ok(())
            },
        }
    }

    /// A pass that declares into the generator.
    pub fn new(gen: &'p mut MIRGenerator) -> (r: DeclarePass<'p>)
        ensures
            *r.gen == *old(gen),
            *final(r.gen) == *final(gen),
            r.none_const@ == "None"@,
            old(gen).environments@.len() > 0 ==> r.ready(),
    {
        DeclarePass { gen, none_const: "None".to_owned() }
    }
}

} // verus!
