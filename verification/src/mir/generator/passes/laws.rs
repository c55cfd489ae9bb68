//! What holds when the declarations of a file have been made.

use crate::ast::declaration::DeclarationList;
use crate::lexer::token::TokenView;
use crate::mir::generator::passes::declare::{
    class_views, declare_all, declare_all_functions, declare_class, declare_class_methods,
    declare_classes, declare_function, declare_functions, declare_methods, function_sigs, init_sig,
    ClassView, DeclareView, MethodView, SigView,
};
use vstd::prelude::*;

verus! {

/// Is everything that was declared before still there, under its number?
pub open spec fn extends(after: DeclareView, before: DeclareView) -> bool {
    &&& before.builder.struct_names.submap_of(after.builder.struct_names)
    &&& before.builder.function_names.submap_of(after.builder.function_names)
    &&& before.builder.structs.is_prefix_of(after.builder.structs)
    &&& before.builder.functions.is_prefix_of(after.builder.functions)
}

/// Is there a function of that name?
pub open spec fn has_function(s: DeclareView, name: Seq<char>) -> bool {
    s.builder.function_names.contains_key(name)
}

/// Is there a struct for the class, and a function that initialises it?
pub open spec fn has_class(s: DeclareView, class: ClassView) -> bool {
    &&& s.builder.struct_names.contains_key(class.name.lexeme)
    &&& has_function(s, init_sig(class.name).name.lexeme)
}

proof fn lemma_extends_trans(a: DeclareView, b: DeclareView, c: DeclareView)
    requires
        extends(b, a),
        extends(c, b),
    ensures
        extends(c, a),
{
    assert forall|name: Seq<char>| #[trigger] a.builder.struct_names.dom().contains(name) implies
        c.builder.struct_names.dom().contains(name) && a.builder.struct_names[name]
        == c.builder.struct_names[name] by {
        assert(b.builder.struct_names.dom().contains(name));
    }
    assert forall|name: Seq<char>| #[trigger]
        a.builder.function_names.dom().contains(name) implies c.builder.function_names.dom().contains(
    name) && a.builder.function_names[name] == c.builder.function_names[name] by {
        assert(b.builder.function_names.dom().contains(name));
    }
    let structs = a.builder.structs.len() as int;
    assert(a.builder.structs =~= b.builder.structs.subrange(0, structs));
    assert(b.builder.structs.subrange(0, structs) =~= c.builder.structs.subrange(0, structs));
    let functions = a.builder.functions.len() as int;
    assert(a.builder.functions =~= b.builder.functions.subrange(0, functions));
    assert(b.builder.functions.subrange(0, functions) =~= c.builder.functions.subrange(
        0,
        functions,
    ));
}

proof fn lemma_function(s: DeclareView, sig: SigView)
    ensures
        extends(declare_function(s, sig).0, s),
        declare_function(s, sig).1 is Ok ==> has_function(
            declare_function(s, sig).0,
            sig.name.lexeme,
        ),
{
}

proof fn lemma_class(s: DeclareView, class: ClassView)
    ensures
        extends(declare_class(s, class).0, s),
        declare_class(s, class).1 is Ok ==> has_class(declare_class(s, class).0, class),
{
    let name = class.name.lexeme;
    let s1 = DeclareView { builder: s.builder.with_struct(name), ..s };
    lemma_function(s1, init_sig(class.name));
    if !s.builder.struct_names.contains_key(name) {
        assert(extends(s1, s));
        lemma_extends_trans(s, s1, declare_class(s, class).0);
    }
}

proof fn lemma_classes(s: DeclareView, classes: Seq<ClassView>, i: nat)
    ensures
        extends(declare_classes(s, classes, i).0, s),
        declare_classes(s, classes, i).1 is Ok ==> forall|j: int|
            i <= j < classes.len() ==> has_class(
                declare_classes(s, classes, i).0,
                #[trigger] classes[j],
            ),
    decreases classes.len() - i,
{
    if i < classes.len() {
        let (s1, r) = declare_class(s, classes[i as int]);
        lemma_class(s, classes[i as int]);
        if r is Ok {
            lemma_classes(s1, classes, i + 1);
            lemma_extends_trans(s, s1, declare_classes(s1, classes, i + 1).0);
        }
    }
}

proof fn lemma_functions(s: DeclareView, sigs: Seq<SigView>, i: nat)
    ensures
        extends(declare_functions(s, sigs, i).0, s),
        declare_functions(s, sigs, i).1 is Ok ==> forall|j: int|
            i <= j < sigs.len() ==> has_function(
                declare_functions(s, sigs, i).0,
                (#[trigger] sigs[j]).name.lexeme,
            ),
    decreases sigs.len() - i,
{
    if i < sigs.len() {
        let (s1, r) = declare_function(s, sigs[i as int]);
        lemma_function(s, sigs[i as int]);
        if r is Ok {
            lemma_functions(s1, sigs, i + 1);
            lemma_extends_trans(s, s1, declare_functions(s1, sigs, i + 1).0);
        }
    }
}

proof fn lemma_methods(s: DeclareView, class: Seq<char>, methods: Seq<MethodView>, i: nat)
    requires
        i <= methods.len(),
    ensures
        extends(declare_methods(s, class, methods, i).0, s),
        declare_methods(s, class, methods, i).1.len() == methods.len(),
        forall|j: int|
            0 <= j < i ==> #[trigger] declare_methods(s, class, methods, i).1[j] == methods[j],
        declare_methods(s, class, methods, i).2 is Ok ==> forall|j: int|
            i <= j < methods.len() ==> {
                &&& #[trigger] declare_methods(s, class, methods, i).1[j] == methods[j].renamed(
                    class,
                )
                &&& has_function(
                    declare_methods(s, class, methods, i).0,
                    methods[j].renamed(class).sig.name.lexeme,
                )
            },
    decreases methods.len() - i,
{
    if i < methods.len() {
        let method = methods[i as int].renamed(class);
        let methods1 = methods.update(i as int, method);
        let (s1, r) = declare_function(s, method.sig);
        lemma_function(s, method.sig);
        if r is Ok {
            lemma_methods(s1, class, methods1, i + 1);
            let after = declare_methods(s1, class, methods1, i + 1);
            lemma_extends_trans(s, s1, after.0);
            assert(after.1[i as int] == methods1[i as int]);
            assert forall|j: int| 0 <= j < i implies #[trigger] after.1[j] == methods[j] by {
                assert(after.1[j] == methods1[j]);
            }
            if after.2 is Ok {
                assert forall|j: int| i <= j < methods.len() implies {
                    &&& #[trigger] after.1[j] == methods[j].renamed(class)
                    &&& has_function(after.0, methods[j].renamed(class).sig.name.lexeme)
                } by {
                    if j > i {
                        assert(methods1[j] == methods[j]);
                    }
                }
            }
        }
    }
}

/// Are all methods of the class there, under the names they have outside of it?
pub open spec fn has_methods(s: DeclareView, class: ClassView, renamed: ClassView) -> bool {
    &&& renamed.name == class.name
    &&& renamed.methods.len() == class.methods.len()
    &&& forall|j: int|
        0 <= j < class.methods.len() ==> {
            &&& #[trigger] renamed.methods[j] == class.methods[j].renamed(class.name.lexeme)
            &&& has_function(s, renamed.methods[j].sig.name.lexeme)
        }
}

proof fn lemma_class_methods(s: DeclareView, classes: Seq<ClassView>, i: nat)
    requires
        i <= classes.len(),
    ensures
        extends(declare_class_methods(s, classes, i).0, s),
        declare_class_methods(s, classes, i).1.len() == classes.len(),
        forall|c: int|
            0 <= c < i ==> #[trigger] declare_class_methods(s, classes, i).1[c] == classes[c],
        declare_class_methods(s, classes, i).2 is Ok ==> forall|c: int|
            i <= c < classes.len() ==> has_methods(
                declare_class_methods(s, classes, i).0,
                classes[c],
                #[trigger] declare_class_methods(s, classes, i).1[c],
            ),
    decreases classes.len() - i,
{
    if i < classes.len() {
        let class = classes[i as int];
        let (s1, methods, r) = declare_methods(s, class.name.lexeme, class.methods, 0);
        lemma_methods(s, class.name.lexeme, class.methods, 0);
        let renamed = ClassView { methods, ..class };
        let classes1 = classes.update(i as int, renamed);
        if r is Ok {
            lemma_class_methods(s1, classes1, i + 1);
            let after = declare_class_methods(s1, classes1, i + 1);
            lemma_extends_trans(s, s1, after.0);
            assert(after.1[i as int] == classes1[i as int]);
            assert forall|c: int| 0 <= c < i implies #[trigger] after.1[c] == classes[c] by {
                assert(after.1[c] == classes1[c]);
            }
            if after.2 is Ok {
                assert forall|c: int| i <= c < classes.len() implies has_methods(
                    after.0,
                    classes[c],
                    #[trigger] after.1[c],
                ) by {
                    if c > i {
                        assert(classes1[c] == classes[c]);
                    } else {
                        assert(has_methods(s1, class, renamed));
                        assert forall|j: int| 0 <= j < class.methods.len() implies has_function(
                            after.0,
                            (#[trigger] renamed.methods[j]).sig.name.lexeme,
                        ) by {
                            assert(has_function(s1, renamed.methods[j].sig.name.lexeme));
                        }
                    }
                }
            }
        }
    }
}

/// The pass only adds: whatever was declared before is declared behind it, with
/// the same number, whether the pass succeeds or not.
pub proof fn law_declarations_stay(s: DeclareView, list: DeclarationList)
    ensures
        extends(declare_all(s, list).0, s),
{
    let classes = class_views(list.classes@);
    lemma_classes(s, classes, 0);
    let (s1, r) = declare_classes(s, classes, 0);
    if r is Ok {
        lemma_all_functions(s1, list);
        lemma_extends_trans(s, s1, declare_all_functions(s1, list).0);
    }
}

proof fn lemma_all_functions(s: DeclareView, list: DeclarationList)
    ensures
        extends(declare_all_functions(s, list).0, s),
{
    lemma_functions(s, function_sigs(list), 0);
    let (s1, r) = declare_functions(s, function_sigs(list), 0);
    if r is Ok {
        lemma_class_methods(s1, class_views(list.classes@), 0);
        lemma_extends_trans(
            s,
            s1,
            declare_class_methods(s1, class_views(list.classes@), 0).0,
        );
    }
}

/// When the pass succeeds, every class has a struct and a function that
/// initialises it, every function is declared, and every method is declared
/// under the name of its class and its own.
pub proof fn law_everything_is_declared(s: DeclareView, list: DeclarationList)
    requires
        declare_all(s, list).2 is Ok,
    ensures
        forall|c: int|
            0 <= c < list.classes@.len() ==> has_class(
                declare_all(s, list).0,
                #[trigger] class_views(list.classes@)[c],
            ),
        forall|i: int|
            0 <= i < function_sigs(list).len() ==> has_function(
                declare_all(s, list).0,
                (#[trigger] function_sigs(list)[i]).name.lexeme,
            ),
        forall|c: int|
            0 <= c < list.classes@.len() ==> has_methods(
                declare_all(s, list).0,
                class_views(list.classes@)[c],
                #[trigger] declare_all(s, list).1[c],
            ),
{
    let classes = class_views(list.classes@);
    let sigs = function_sigs(list);
    lemma_classes(s, classes, 0);
    let s1 = declare_classes(s, classes, 0).0;
    lemma_functions(s1, sigs, 0);
    let s2 = declare_functions(s1, sigs, 0).0;
    lemma_class_methods(s2, classes, 0);
    let s3 = declare_class_methods(s2, classes, 0).0;
    lemma_extends_trans(s1, s2, s3);
    assert forall|c: int| 0 <= c < list.classes@.len() implies has_class(
        s3,
        #[trigger] classes[c],
    ) by {
        assert(has_class(s1, classes[c]));
    }
    assert forall|i: int| 0 <= i < sigs.len() implies has_function(
        s3,
        (#[trigger] sigs[i]).name.lexeme,
    ) by {
        assert(has_function(s2, sigs[i].name.lexeme));
    }
}

/// A function without a return type is declared like one that is written to return
/// `None`.
pub proof fn law_missing_return_type_is_none(s: DeclareView, sig: SigView, token: TokenView)
    requires
        sig.return_type is None,
        token.lexeme == "None"@,
    ensures
        declare_function(s, sig) == declare_function(
            s,
            (SigView { return_type: Some(token), ..sig }),
        ),
        declare_function(s, sig).1 is Ok ==> declare_function(
            s,
            sig,
        ).0.builder.functions.last().ret_type is NoneType,
{
}

/// The pass renames methods, and changes nothing else in the classes: those of a
/// class get its name in front, up to the one that fails.
pub proof fn law_only_method_names_change(s: DeclareView, list: DeclarationList, c: int, m: int)
    requires
        0 <= c < list.classes@.len(),
        0 <= m < list.classes@[c].methods@.len(),
    ensures
        ({
            let before = class_views(list.classes@);
            let after = declare_all(s, list).1;
            &&& after.len() == before.len()
            &&& after[c].name == before[c].name
            &&& after[c].methods.len() == before[c].methods.len()
            &&& after[c].methods[m] == before[c].methods[m] || after[c].methods[m]
                == before[c].methods[m].renamed(before[c].name.lexeme)
        }),
{
    let classes = class_views(list.classes@);
    let (s1, r) = declare_classes(s, classes, 0);
    if r is Ok {
        let (s2, r2) = declare_functions(s1, function_sigs(list), 0);
        if r2 is Ok {
            lemma_renames_in_classes(s2, classes, 0, c, m);
        }
    }
}

proof fn lemma_renames_in_classes(s: DeclareView, classes: Seq<ClassView>, i: nat, c: int, m: int)
    requires
        i <= classes.len(),
        0 <= c < classes.len(),
        0 <= m < classes[c].methods.len(),
    ensures
        ({
            let after = declare_class_methods(s, classes, i).1;
            &&& after.len() == classes.len()
            &&& after[c].name == classes[c].name
            &&& after[c].methods.len() == classes[c].methods.len()
            &&& after[c].methods[m] == classes[c].methods[m] || (c >= i && after[c].methods[m]
                == classes[c].methods[m].renamed(classes[c].name.lexeme))
        }),
    decreases classes.len() - i,
{
    if i < classes.len() {
        let class = classes[i as int];
        let (s1, methods, r) = declare_methods(s, class.name.lexeme, class.methods, 0);
        let classes1 = classes.update(i as int, ClassView { methods, ..class });
        if c == i {
            lemma_renames(s, class.name.lexeme, class.methods, 0, m);
        }
        if r is Ok {
            lemma_renames_length(s, class.name.lexeme, class.methods, 0);
            lemma_renames_in_classes(s1, classes1, i + 1, c, m);
        }
    }
}

proof fn lemma_renames_length(s: DeclareView, class: Seq<char>, methods: Seq<MethodView>, i: nat)
    ensures
        declare_methods(s, class, methods, i).1.len() == methods.len(),
    decreases methods.len() - i,
{
    if i < methods.len() {
        let method = methods[i as int].renamed(class);
        let (s1, r) = declare_function(s, method.sig);
        lemma_renames_length(s1, class, methods.update(i as int, method), i + 1);
    }
}

proof fn lemma_renames(s: DeclareView, class: Seq<char>, methods: Seq<MethodView>, i: nat, m: int)
    requires
        0 <= m < methods.len(),
    ensures
        declare_methods(s, class, methods, i).1.len() == methods.len(),
        declare_methods(s, class, methods, i).1[m] == methods[m] || (m >= i && declare_methods(
            s,
            class,
            methods,
            i,
        ).1[m] == methods[m].renamed(class)),
    decreases methods.len() - i,
{
    if i < methods.len() {
        let method = methods[i as int].renamed(class);
        let (s1, r) = declare_function(s, method.sig);
        lemma_renames(s1, class, methods.update(i as int, method), i + 1, m);
    }
}

} // verus!
