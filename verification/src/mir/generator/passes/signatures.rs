//! What a declared function has of its signature.

use crate::ast::declaration::DeclarationList;
use crate::lexer::token::TokenView;
use crate::mir::builder::BuilderView;
use crate::mir::generator::passes::declare::{
    class_views, declare_all, declare_class, declare_class_methods, declare_classes,
    declare_function, declare_functions, declare_methods, function_sigs, init_sig,
    resolve_parameters, ClassView, DeclareView, MethodView, SigView,
};
use crate::mir::nodes::{MIRFunctionView, MIRType, MIRVariableView};
use vstd::prelude::*;

verus! {

/// The name of the type that a function returns: that of no value where the source
/// has none.
pub open spec fn return_name(sig: SigView) -> Seq<char> {
    match sig.return_type {
        Some(ty) => ty.lexeme,
        None => "None"@,
    }
}

/// Does a function have just what its signature says? It has the name, and as many
/// parameters; each has the name of the parameter at its place and the type that
/// the name of its type stands for, and cannot be changed.
pub open spec fn has_signature(b: BuilderView, function: MIRFunctionView, sig: SigView) -> bool {
    &&& function.name == sig.name.lexeme
    &&& b.find_type(return_name(sig)) == Some(function.ret_type)
    &&& function.parameters.len() == sig.parameters.len()
    &&& forall|i: int|
        0 <= i < sig.parameters.len() ==> {
            let parameter = #[trigger] function.parameters[i];
            &&& parameter.name == sig.parameters[i].0.lexeme
            &&& b.find_type(sig.parameters[i].1.lexeme) == Some(parameter._type)
            &&& !parameter.mutable
        }
}

/// Are the types of all parameters known?
pub open spec fn known_parameters(b: BuilderView, sig: SigView) -> bool {
    forall|i: int|
        0 <= i < sig.parameters.len() ==> b.find_type((#[trigger] sig.parameters[i]).1.lexeme)
            is Some
}

proof fn lemma_parameters(
    b: BuilderView,
    parameters: Seq<(TokenView, TokenView)>,
    i: nat,
    done: Seq<MIRVariableView>,
)
    requires
        i <= parameters.len(),
    ensures
        match resolve_parameters(b, parameters, i, done) {
            None => exists|j: int|
                i <= j < parameters.len() && b.find_type((#[trigger] parameters[j]).1.lexeme) is None,
            Some(all) => {
                &&& all.len() == done.len() + parameters.len() - i
                &&& forall|j: int| 0 <= j < done.len() ==> #[trigger] all[j] == done[j]
                &&& forall|j: int|
                    done.len() <= j < all.len() ==> {
                        let parameter = #[trigger] all[j];
                        &&& parameter.name == parameters[i + j - done.len()].0.lexeme
                        &&& b.find_type(parameters[i + j - done.len()].1.lexeme) == Some(
                            parameter._type,
                        )
                        &&& !parameter.mutable
                    }
            },
        },
    decreases parameters.len() - i,
{
    if i < parameters.len() {
        if let Some(ty) = b.find_type(parameters[i as int].1.lexeme) {
            let next = MIRVariableView {
                mutable: false,
                _type: ty,
                name: parameters[i as int].0.lexeme,
            };
            lemma_parameters(b, parameters, i + 1, done.push(next));
            if let Some(all) = resolve_parameters(b, parameters, i, done) {
                assert(all[done.len() as int] == done.push(next)[done.len() as int]);
                assert forall|j: int| 0 <= j < done.len() implies #[trigger] all[j] == done[j] by {
                    assert(all[j] == done.push(next)[j]);
                }
            }
        }
    }
}

proof fn lemma_known(b: BuilderView, sig: SigView)
    ensures
        resolve_parameters(b, sig.parameters, 0, Seq::empty()) is Some <==> known_parameters(b, sig),
{
    lemma_parameters(b, sig.parameters, 0, Seq::empty());
    if let Some(parameters) = resolve_parameters(b, sig.parameters, 0, Seq::empty()) {
        assert forall|i: int| 0 <= i < sig.parameters.len() implies b.find_type(
            (#[trigger] sig.parameters[i]).1.lexeme,
        ) is Some by {
            assert(b.find_type(sig.parameters[i].1.lexeme) == Some(parameters[i]._type));
        }
    }
}

/// A function is declared exactly if all types of its signature are known and no
/// function has its name. It comes behind all others, with the parameters of the
/// signature in their order and the type it returns; its name stands for it, and
/// everything else stays. Where it is not declared, nothing changes.
pub proof fn law_functions_have_their_signature(s: DeclareView, sig: SigView)
    ensures
        ({
            let (t, r) = declare_function(s, sig);
            let name = sig.name.lexeme;
            let number = s.builder.functions.len();
            &&& r is Ok <==> s.builder.find_type(return_name(sig)) is Some && known_parameters(
                s.builder,
                sig,
            ) && !s.builder.function_names.contains_key(name)
            &&& r is Err ==> t == s
            &&& r is Ok ==> {
                &&& t.builder.functions.len() == number + 1
                &&& has_signature(s.builder, t.builder.functions[number as int], sig)
                &&& t.builder.functions[number as int].blocks.dom().is_empty()
                &&& t.builder.functions.drop_last() =~= s.builder.functions
                &&& t.builder.function_names.contains_key(name)
                &&& t.builder.function_names[name] == number as usize
                &&& t.globals.contains_key(name)
                &&& t.globals[name] == (MIRVariableView {
                    mutable: false,
                    _type: MIRType::Function(number as usize),
                    name,
                })
                &&& forall|other: Seq<char>|
                    other != name ==> (#[trigger] t.globals.contains_key(other)
                        <==> s.globals.contains_key(other)) && t.globals[other] == s.globals[other]
                &&& forall|other: Seq<char>|
                    other != name ==> (#[trigger] t.builder.function_names.contains_key(other)
                        <==> s.builder.function_names.contains_key(other))
                        && t.builder.function_names[other] == s.builder.function_names[other]
                &&& t.builder.structs == s.builder.structs
                &&& t.builder.struct_names == s.builder.struct_names
                &&& t.builder.path == s.builder.path
            }
        }),
{
    lemma_parameters(s.builder, sig.parameters, 0, Seq::empty());
    lemma_known(s.builder, sig);
}

/// What is wrong with a signature is said of the first of these: an unknown return
/// type, an unknown type of a parameter, a name that is taken.
pub proof fn law_wrong_signatures_are_told_apart(s: DeclareView, sig: SigView)
    ensures
        declare_function(s, sig).1 matches Err(e) ==> {
            &&& e.line == Some(sig.name.line)
            &&& e.code == "func "@ + sig.name.lexeme + "(...)"@
            &&& s.builder.find_type(return_name(sig)) is None ==> e.message
                == "Unknown function return type"@
            &&& s.builder.find_type(return_name(sig)) is Some && !known_parameters(s.builder, sig)
                ==> e.message == "Function parameter has unknown type"@
            &&& s.builder.find_type(return_name(sig)) is Some && known_parameters(s.builder, sig)
                ==> e.message == "Function was declared twice"@
        },
{
    lemma_known(s.builder, sig);
}

/// A class is declared exactly if no struct has its name and the function that
/// initialises its instances can be. The struct comes behind all others, without
/// members; the function has one parameter, `this`, of the type that the name of
/// the class stands for, and returns nothing.
pub proof fn law_classes_have_a_struct_and_an_initialiser(s: DeclareView, class: ClassView)
    ensures
        ({
            let (t, r) = declare_class(s, class);
            let name = class.name.lexeme;
            let number = s.builder.structs.len();
            let init = t.builder.functions.last();
            &&& s.builder.struct_names.contains_key(name) ==> t == s && (r matches Err(e) && e.line
                == Some(class.name.line) && e.message == "Class was already defined!"@ && e.code
                == "class "@ + name + " { ... }"@)
            &&& r is Ok ==> {
                &&& !s.builder.struct_names.contains_key(name)
                &&& t.builder.structs.len() == number + 1
                &&& t.builder.structs.drop_last() =~= s.builder.structs
                &&& t.builder.structs.last().name == name
                &&& t.builder.structs.last().members.dom().is_empty()
                &&& t.builder.structs.last().member_order.len() == 0
                &&& t.builder.struct_names == s.builder.struct_names.insert(name, number as usize)
                &&& t.builder.functions.len() == s.builder.functions.len() + 1
                &&& init.name == name + "-internal-init"@
                &&& init.ret_type is NoneType
                &&& init.parameters.len() == 1
                &&& init.parameters[0].name == "this"@
                &&& t.builder.find_type(name) == Some(init.parameters[0]._type)
            }
        }),
{
    let s1 = DeclareView { builder: s.builder.with_struct(class.name.lexeme), ..s };
    law_functions_have_their_signature(s1, init_sig(class.name));
    let (t, r) = declare_class(s, class);
    if r is Ok {
        let init = t.builder.functions.last();
        assert(init == t.builder.functions[s.builder.functions.len() as int]);
        assert(has_signature(s1.builder, init, init_sig(class.name)));
        assert(init.parameters[0].name == init_sig(class.name).parameters[0].0.lexeme);
    }
}

/// Is a function declared under the name of its signature, with what the signature
/// says, and does the name stand for it?
pub open spec fn declared_as(s: DeclareView, sig: SigView) -> bool {
    let name = sig.name.lexeme;
    let number = s.builder.function_names[name];
    &&& s.builder.function_names.contains_key(name)
    &&& number < s.builder.functions.len()
    &&& has_signature(s.builder, s.builder.functions[number as int], sig)
    &&& s.globals.contains_key(name)
    &&& s.globals[name]._type == MIRType::Function(number)
    &&& s.globals[name].name == name
    &&& !s.globals[name].mutable
}

/// Are all types and functions still what they were, and stand the names of
/// functions for them?
pub open spec fn stays(before: DeclareView, now: DeclareView) -> bool {
    &&& forall|name: Seq<char>| #[trigger]
        before.builder.struct_names.contains_key(name) ==> now.builder.struct_names.contains_key(
            name,
        ) && now.builder.struct_names[name] == before.builder.struct_names[name]
    &&& before.builder.functions.is_prefix_of(now.builder.functions)
    &&& forall|name: Seq<char>| #[trigger]
        before.builder.function_names.contains_key(name)
            ==> now.builder.function_names.contains_key(name) && now.builder.function_names[name]
            == before.builder.function_names[name] && now.globals.contains_key(name)
            == before.globals.contains_key(name) && now.globals[name] == before.globals[name]
}

proof fn lemma_stays(before: DeclareView, now: DeclareView, sig: SigView)
    requires
        stays(before, now),
        declared_as(before, sig),
    ensures
        declared_as(now, sig),
{
    let name = sig.name.lexeme;
    assert(before.builder.function_names.contains_key(name));
    let number = before.builder.function_names[name];
    let function = before.builder.functions[number as int];
    assert(now.builder.functions[number as int] == function);
    lemma_type_stays(before, now, return_name(sig));
    assert forall|i: int| 0 <= i < sig.parameters.len() implies {
        let parameter = #[trigger] function.parameters[i];
        &&& parameter.name == sig.parameters[i].0.lexeme
        &&& now.builder.find_type(sig.parameters[i].1.lexeme) == Some(parameter._type)
        &&& !parameter.mutable
    } by {
        lemma_type_stays(before, now, sig.parameters[i].1.lexeme);
    }
}

proof fn lemma_type_stays(before: DeclareView, now: DeclareView, name: Seq<char>)
    requires
        stays(before, now),
        before.builder.find_type(name) is Some,
    ensures
        now.builder.find_type(name) == before.builder.find_type(name),
{
}

proof fn lemma_stays_on(a: DeclareView, b: DeclareView, c: DeclareView)
    requires
        stays(a, b),
        stays(b, c),
    ensures
        stays(a, c),
{
    assert forall|name: Seq<char>| #[trigger]
        a.builder.struct_names.contains_key(name) implies c.builder.struct_names.contains_key(
        name,
    ) && c.builder.struct_names[name] == a.builder.struct_names[name] by {
        assert(b.builder.struct_names.contains_key(name));
    }
    let n = a.builder.functions.len() as int;
    assert(a.builder.functions =~= b.builder.functions.subrange(0, n));
    assert(b.builder.functions.subrange(0, n) =~= c.builder.functions.subrange(0, n));
    assert forall|name: Seq<char>| #[trigger]
        a.builder.function_names.contains_key(name) implies c.builder.function_names.contains_key(
        name,
    ) && c.builder.function_names[name] == a.builder.function_names[name]
        && c.globals.contains_key(name) == a.globals.contains_key(name) && c.globals[name]
        == a.globals[name] by {
        assert(b.builder.function_names.contains_key(name));
    }
}

proof fn lemma_declared(s: DeclareView, sig: SigView)
    ensures
        stays(s, declare_function(s, sig).0),
        declare_function(s, sig).1 is Ok && declare_function(s, sig).0.builder.functions.len()
            <= usize::MAX ==> declared_as(declare_function(s, sig).0, sig),
{
    law_functions_have_their_signature(s, sig);
    let t = declare_function(s, sig).0;
    if declare_function(s, sig).1 is Ok {
        assert(t.builder.functions.subrange(0, s.builder.functions.len() as int)
            =~= s.builder.functions);
        let function = t.builder.functions[s.builder.functions.len() as int];
        lemma_type_stays(s, t, return_name(sig));
        assert forall|i: int| 0 <= i < sig.parameters.len() implies {
            let parameter = #[trigger] function.parameters[i];
            &&& parameter.name == sig.parameters[i].0.lexeme
            &&& t.builder.find_type(sig.parameters[i].1.lexeme) == Some(parameter._type)
            &&& !parameter.mutable
        } by {
            lemma_type_stays(s, t, sig.parameters[i].1.lexeme);
        }
    }
}

proof fn lemma_class(s: DeclareView, class: ClassView)
    ensures
        stays(s, declare_class(s, class).0),
        declare_class(s, class).1 is Ok && declare_class(s, class).0.builder.functions.len()
            <= usize::MAX ==> declared_as(declare_class(s, class).0, init_sig(class.name)),
{
    let name = class.name.lexeme;
    if !s.builder.struct_names.contains_key(name) {
        let s1 = DeclareView { builder: s.builder.with_struct(name), ..s };
        assert(s.builder.functions.subrange(0, s.builder.functions.len() as int)
            =~= s.builder.functions);
        assert(stays(s, s1));
        lemma_declared(s1, init_sig(class.name));
        lemma_stays_on(s, s1, declare_class(s, class).0);
    } else {
        assert(s.builder.functions.subrange(0, s.builder.functions.len() as int)
            =~= s.builder.functions);
    }
}

proof fn lemma_classes(s: DeclareView, classes: Seq<ClassView>, i: nat)
    ensures
        stays(s, declare_classes(s, classes, i).0),
        declare_classes(s, classes, i).1 is Ok && declare_classes(
            s,
            classes,
            i,
        ).0.builder.functions.len() <= usize::MAX ==> forall|j: int|
            i <= j < classes.len() ==> declared_as(
                declare_classes(s, classes, i).0,
                init_sig((#[trigger] classes[j]).name),
            ),
    decreases classes.len() - i,
{
    assert(s.builder.functions.subrange(0, s.builder.functions.len() as int)
        =~= s.builder.functions);
    if i < classes.len() {
        let (s1, r) = declare_class(s, classes[i as int]);
        lemma_class(s, classes[i as int]);
        if r is Ok {
            lemma_classes(s1, classes, i + 1);
            let t = declare_classes(s1, classes, i + 1).0;
            lemma_stays_on(s, s1, t);
            if t.builder.functions.len() <= usize::MAX {
                lemma_stays(s1, t, init_sig(classes[i as int].name));
            }
        }
    }
}

proof fn lemma_functions(s: DeclareView, sigs: Seq<SigView>, i: nat)
    ensures
        stays(s, declare_functions(s, sigs, i).0),
        declare_functions(s, sigs, i).1 is Ok && declare_functions(
            s,
            sigs,
            i,
        ).0.builder.functions.len() <= usize::MAX ==> forall|j: int|
            i <= j < sigs.len() ==> declared_as(
                declare_functions(s, sigs, i).0,
                #[trigger] sigs[j],
            ),
    decreases sigs.len() - i,
{
    assert(s.builder.functions.subrange(0, s.builder.functions.len() as int)
        =~= s.builder.functions);
    if i < sigs.len() {
        let (s1, r) = declare_function(s, sigs[i as int]);
        lemma_declared(s, sigs[i as int]);
        if r is Ok {
            lemma_functions(s1, sigs, i + 1);
            let t = declare_functions(s1, sigs, i + 1).0;
            lemma_stays_on(s, s1, t);
            if t.builder.functions.len() <= usize::MAX {
                lemma_stays(s1, t, sigs[i as int]);
            }
        }
    }
}

/// The signature of a method under the name that it has outside of its class: the
/// name of the class, a dash, and its own name.
pub open spec fn method_sig(class: Seq<char>, method: MethodView) -> SigView {
    SigView {
        name: TokenView {
            lexeme: class + "-"@ + method.sig.name.lexeme,
            ..method.sig.name
        },
        ..method.sig
    }
}

proof fn lemma_methods(s: DeclareView, class: Seq<char>, methods: Seq<MethodView>, i: nat)
    ensures
        stays(s, declare_methods(s, class, methods, i).0),
        declare_methods(s, class, methods, i).2 is Ok && declare_methods(
            s,
            class,
            methods,
            i,
        ).0.builder.functions.len() <= usize::MAX ==> forall|j: int|
            i <= j < methods.len() ==> declared_as(
                declare_methods(s, class, methods, i).0,
                method_sig(class, #[trigger] methods[j]),
            ),
    decreases methods.len() - i,
{
    assert(s.builder.functions.subrange(0, s.builder.functions.len() as int)
        =~= s.builder.functions);
    if i < methods.len() {
        let method = methods[i as int].renamed(class);
        let methods1 = methods.update(i as int, method);
        let (s1, r) = declare_function(s, method.sig);
        lemma_declared(s, method.sig);
        assert(method.sig == method_sig(class, methods[i as int]));
        if r is Ok {
            lemma_methods(s1, class, methods1, i + 1);
            let t = declare_methods(s1, class, methods1, i + 1).0;
            lemma_stays_on(s, s1, t);
            if t.builder.functions.len() <= usize::MAX {
                lemma_stays(s1, t, method.sig);
                if declare_methods(s, class, methods, i).2 is Ok {
                    assert forall|j: int| i <= j < methods.len() implies declared_as(
                        t,
                        method_sig(class, #[trigger] methods[j]),
                    ) by {
                        if j > i {
                            assert(methods1[j] == methods[j]);
                        }
                    }
                }
            }
        }
    }
}

proof fn lemma_class_methods(s: DeclareView, classes: Seq<ClassView>, i: nat)
    ensures
        stays(s, declare_class_methods(s, classes, i).0),
        declare_class_methods(s, classes, i).2 is Ok && declare_class_methods(
            s,
            classes,
            i,
        ).0.builder.functions.len() <= usize::MAX ==> forall|c: int, m: int|
            i <= c < classes.len() && 0 <= m < classes[c].methods.len() ==> declared_as(
                declare_class_methods(s, classes, i).0,
                method_sig(classes[c].name.lexeme, #[trigger] classes[c].methods[m]),
            ),
    decreases classes.len() - i,
{
    assert(s.builder.functions.subrange(0, s.builder.functions.len() as int)
        =~= s.builder.functions);
    if i < classes.len() {
        let class = classes[i as int];
        let (s1, methods, r) = declare_methods(s, class.name.lexeme, class.methods, 0);
        lemma_methods(s, class.name.lexeme, class.methods, 0);
        let classes1 = classes.update(i as int, ClassView { methods, ..class });
        if r is Ok {
            lemma_class_methods(s1, classes1, i + 1);
            let t = declare_class_methods(s1, classes1, i + 1).0;
            lemma_stays_on(s, s1, t);
            if t.builder.functions.len() <= usize::MAX && declare_class_methods(s, classes, i).2
                is Ok {
                assert forall|c: int, m: int|
                    i <= c < classes.len() && 0 <= m < classes[c].methods.len() implies declared_as(
                    t,
                    method_sig(classes[c].name.lexeme, #[trigger] classes[c].methods[m]),
                ) by {
                    if c > i {
                        assert(classes1[c] == classes[c]);
                        assert(classes1[c].methods[m] == classes[c].methods[m]);
                    } else {
                        assert(class.methods[m] == classes[c].methods[m]);
                        lemma_stays(s1, t, method_sig(class.name.lexeme, class.methods[m]));
                    }
                }
            }
        }
    }
}

/// When the pass has succeeded, every function of the file, with and without a body,
/// every method under the name of its class and its own, and the function that
/// initialises the instances of every class is declared with the return type, the
/// parameters and the order of the parameters of its signature, and its name stands
/// for it.
pub proof fn law_everything_has_its_signature(s: DeclareView, list: DeclarationList)
    requires
        declare_all(s, list).2 is Ok,
        declare_all(s, list).0.builder.functions.len() <= usize::MAX,
    ensures
        ({
            let t = declare_all(s, list).0;
            let classes = class_views(list.classes@);
            &&& forall|i: int|
                0 <= i < list.ext_functions@.len() ==> declared_as(
                    t,
                    (#[trigger] list.ext_functions@[i])@,
                )
            &&& forall|i: int|
                0 <= i < list.functions@.len() ==> declared_as(
                    t,
                    (#[trigger] list.functions@[i]).sig@,
                )
            &&& forall|c: int|
                0 <= c < classes.len() ==> declared_as(t, init_sig((#[trigger] classes[c]).name))
            &&& forall|c: int, m: int|
                0 <= c < classes.len() && 0 <= m < classes[c].methods.len() ==> declared_as(
                    t,
                    method_sig(classes[c].name.lexeme, #[trigger] classes[c].methods[m]),
                )
        }),
{
    let classes = class_views(list.classes@);
    let sigs = function_sigs(list);
    let s1 = declare_classes(s, classes, 0).0;
    let s2 = declare_functions(s1, sigs, 0).0;
    let t = declare_all(s, list).0;
    lemma_classes(s, classes, 0);
    lemma_functions(s1, sigs, 0);
    lemma_class_methods(s2, classes, 0);
    assert(t == declare_class_methods(s2, classes, 0).0);
    lemma_stays_on(s1, s2, t);
    assert(s1.builder.functions.len() <= t.builder.functions.len());
    assert(s2.builder.functions.len() <= t.builder.functions.len());
    assert forall|i: int| 0 <= i < list.ext_functions@.len() implies declared_as(
        t,
        (#[trigger] list.ext_functions@[i])@,
    ) by {
        assert(sigs[i] == list.ext_functions@[i]@);
        lemma_stays(s2, t, sigs[i]);
    }
    assert forall|i: int| 0 <= i < list.functions@.len() implies declared_as(
        t,
        (#[trigger] list.functions@[i]).sig@,
    ) by {
        let k = list.ext_functions@.len() + i;
        assert(sigs[k] == list.functions@[i].sig@);
        lemma_stays(s2, t, sigs[k]);
    }
    assert forall|c: int| 0 <= c < classes.len() implies declared_as(
        t,
        init_sig((#[trigger] classes[c]).name),
    ) by {
        lemma_stays(s1, t, init_sig(classes[c].name));
    }
}

proof fn lemma_classes_in_order(s: DeclareView, classes: Seq<ClassView>, i: nat)
    requires
        i <= classes.len(),
        declare_classes(s, classes, i).1 is Ok,
    ensures
        ({
            let t = declare_classes(s, classes, i).0;
            let n = s.builder.functions.len();
            let m = s.builder.structs.len();
            &&& t.builder.functions.len() == n + classes.len() - i
            &&& t.builder.structs.len() == m + classes.len() - i
            &&& forall|j: int| 0 <= j < n ==> #[trigger] t.builder.functions[j]
                == s.builder.functions[j]
            &&& forall|j: int| 0 <= j < m ==> #[trigger] t.builder.structs[j]
                == s.builder.structs[j]
            &&& forall|c: int|
                i <= c < classes.len() ==> t.builder.functions[n + c - i].name == (
                #[trigger] classes[c]).name.lexeme + "-internal-init"@
                    && t.builder.structs[m + c - i].name == classes[c].name.lexeme
        }),
    decreases classes.len() - i,
{
    if i < classes.len() {
        let s1 = declare_class(s, classes[i as int]).0;
        law_classes_have_a_struct_and_an_initialiser(s, classes[i as int]);
        lemma_class(s, classes[i as int]);
        lemma_classes_in_order(s1, classes, i + 1);
        let n = s.builder.functions.len();
        let m = s.builder.structs.len();
        assert(s1.builder.functions.last() == s1.builder.functions[n as int]);
        assert(s1.builder.structs.last() == s1.builder.structs[m as int]);
        assert forall|j: int| 0 <= j < n implies #[trigger] s1.builder.functions[j]
            == s.builder.functions[j] by {
            assert(s1.builder.functions.subrange(0, n as int)[j] == s1.builder.functions[j]);
        }
        assert forall|j: int| 0 <= j < m implies #[trigger] s1.builder.structs[j]
            == s.builder.structs[j] by {
            assert(s1.builder.structs.drop_last()[j] == s1.builder.structs[j]);
        }
    }
}

proof fn lemma_functions_in_order(s: DeclareView, sigs: Seq<SigView>, i: nat)
    requires
        i <= sigs.len(),
        declare_functions(s, sigs, i).1 is Ok,
    ensures
        ({
            let t = declare_functions(s, sigs, i).0;
            let n = s.builder.functions.len();
            &&& t.builder.structs == s.builder.structs
            &&& t.builder.functions.len() == n + sigs.len() - i
            &&& forall|j: int| 0 <= j < n ==> #[trigger] t.builder.functions[j]
                == s.builder.functions[j]
            &&& forall|j: int|
                i <= j < sigs.len() ==> t.builder.functions[n + j - i].name == (
                #[trigger] sigs[j]).name.lexeme
        }),
    decreases sigs.len() - i,
{
    if i < sigs.len() {
        let s1 = declare_function(s, sigs[i as int]).0;
        law_functions_have_their_signature(s, sigs[i as int]);
        lemma_functions_in_order(s1, sigs, i + 1);
        let n = s.builder.functions.len();
        assert forall|j: int| 0 <= j < n implies #[trigger] s1.builder.functions[j]
            == s.builder.functions[j] by {
            assert(s1.builder.functions.drop_last()[j] == s1.builder.functions[j]);
        }
    }
}

/// Classes are declared first, each with its struct and the function that initialises
/// it, then the functions without a body, then those with one, all in the order of
/// the file. So every function can have parameters of every class.
pub proof fn law_declarations_are_made_in_order(s: DeclareView, list: DeclarationList)
    requires
        declare_all(s, list).2 is Ok,
    ensures
        ({
            let t = declare_all(s, list).0;
            let n = s.builder.functions.len() as int;
            let classes = class_views(list.classes@);
            let first = n + classes.len();
            let second = first + list.ext_functions@.len();
            &&& forall|c: int|
                0 <= c < classes.len() ==> t.builder.functions[n + c].name == (
                #[trigger] classes[c]).name.lexeme + "-internal-init"@
            &&& forall|i: int|
                0 <= i < list.ext_functions@.len() ==> t.builder.functions[first + i].name == (
                #[trigger] list.ext_functions@[i])@.name.lexeme
            &&& forall|i: int|
                0 <= i < list.functions@.len() ==> t.builder.functions[second + i].name == (
                #[trigger] list.functions@[i]).sig@.name.lexeme
            &&& t.builder.functions.len() >= second + list.functions@.len()
        }),
{
    let classes = class_views(list.classes@);
    let sigs = function_sigs(list);
    let s1 = declare_classes(s, classes, 0).0;
    let s2 = declare_functions(s1, sigs, 0).0;
    let t = declare_all(s, list).0;
    lemma_classes_in_order(s, classes, 0);
    lemma_functions_in_order(s1, sigs, 0);
    lemma_class_methods(s2, classes, 0);
    assert(t == declare_class_methods(s2, classes, 0).0);
    assert forall|j: int| 0 <= j < s2.builder.functions.len() implies #[trigger]
        t.builder.functions[j] == s2.builder.functions[j] by {
        assert(t.builder.functions.subrange(0, s2.builder.functions.len() as int)[j]
            == t.builder.functions[j]);
    }
    assert forall|i: int| 0 <= i < list.ext_functions@.len() implies sigs[i] == (
    #[trigger] list.ext_functions@[i])@ by {}
    assert forall|i: int| 0 <= i < list.functions@.len() implies sigs[list.ext_functions@.len()
        + i] == (#[trigger] list.functions@[i]).sig@ by {}
}

/// The first error ends the pass: a class, function or method that fails is the
/// last one that was looked at.
pub proof fn law_first_error_ends_the_pass(s: DeclareView, sigs: Seq<SigView>, i: nat)
    requires
        i < sigs.len(),
    ensures
        ({
            let (s1, r) = declare_function(s, sigs[i as int]);
            &&& r is Err ==> declare_functions(s, sigs, i) == (s, r)
            &&& r is Ok ==> declare_functions(s, sigs, i) == declare_functions(s1, sigs, i + 1)
        }),
{
    law_functions_have_their_signature(s, sigs[i as int]);
}

/// A type is found by the name that it is written with, and only by it: the types of
/// the language by their own names, a struct by its name.
pub proof fn law_types_are_found_by_their_names(b: BuilderView, name: Seq<char>)
    requires
        b.wf(),
    ensures
        b.find_type(name) matches Some(ty) ==> match ty {
            MIRType::NoneType => name == "None"@,
            MIRType::Bool => name == "bool"@,
            MIRType::Int => name == "i64"@,
            MIRType::Float => name == "f32"@,
            MIRType::Double => name == "f64"@,
            MIRType::String => name == "String"@,
            MIRType::Struct(i) => i < b.structs.len() && b.structs[i as int].name == name,
            MIRType::Function(_) => false,
        },
        b.find_type(name) is None ==> forall|i: int|
            0 <= i < b.structs.len() ==> (#[trigger] b.structs[i]).name != name,
        name == "None"@ || name == "bool"@ || name == "i64"@ || name == "f32"@ || name == "f64"@
            || name == "String"@ ==> b.find_type(name) is Some && !(b.find_type(name)->0 is Struct),
{
}

} // verus!
