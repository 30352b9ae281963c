use vstd::prelude::*;
use crate::ast::{ClassModel, MethodModel, methods_use_input};
use crate::builder_java::{TranslateError, program_of, translation_of};
use crate::generator_java::{
    body_lines, class_lines, method_header, method_lines, method_name_text, method_params_text,
    scanner_decl, scanner_import, Line,
};
use crate::parser_cs::{classes_in, classes_in_list, lower_class};
use crate::syntax::SyntaxNode;

verus! {

/// Translating one syntax tree twice gives the same text, character for character.
pub proof fn translation_is_deterministic(t: SyntaxNode, a: Seq<char>, b: Seq<char>)
    requires
        translation_of(t) == Ok::<Seq<char>, TranslateError>(a),
        translation_of(t) == Ok::<Seq<char>, TranslateError>(b),
    ensures
        a == b,
{
}

pub open spec fn input_flag_coherent(c: ClassModel) -> bool {
    c.uses_input == methods_use_input(c.methods)
}

proof fn lemma_classes_coherent(n: SyntaxNode)
    ensures
        classes_in(n) matches Ok(cs) ==> forall|k: int|
            0 <= k < cs.len() ==> input_flag_coherent(#[trigger] cs[k]),
    decreases n, 1nat,
{
    lemma_classes_list_coherent(n.children@);
    if n.kind@ == "class_declaration"@ {
        match lower_class(n) {
            Ok(Some(c)) => {
                assert(input_flag_coherent(c));
            },
            _ => {},
        }
    }
    match classes_in(n) {
        Ok(cs) => {
            let own = if n.kind@ == "class_declaration"@ {
                match lower_class(n) {
                    Ok(Some(c)) => seq![c],
                    _ => Seq::empty(),
                }
            } else {
                Seq::empty()
            };
            let rest = classes_in_list(n.children@)->Ok_0;
            assert(cs == own + rest);
            assert forall|k: int| 0 <= k < cs.len() implies input_flag_coherent(#[trigger] cs[k]) by {
                if k < own.len() {
                    assert(cs[k] == own[k]);
                } else {
                    assert(cs[k] == rest[k - own.len()]);
                }
            }
        },
        Err(_) => {},
    }
}

proof fn lemma_classes_list_coherent(ns: Seq<SyntaxNode>)
    ensures
        classes_in_list(ns) matches Ok(cs) ==> forall|k: int|
            0 <= k < cs.len() ==> input_flag_coherent(#[trigger] cs[k]),
    decreases ns, 0nat,
{
    if ns.len() > 0 {
        let p = ns.subrange(0, ns.len() - 1);
        lemma_classes_list_coherent(p);
        lemma_classes_coherent(ns[ns.len() - 1]);
        match classes_in_list(ns) {
            Ok(cs) => {
                let a = classes_in_list(p)->Ok_0;
                let b = classes_in(ns[ns.len() - 1])->Ok_0;
                assert(cs == a + b);
                assert forall|k: int| 0 <= k < cs.len() implies input_flag_coherent(
                    #[trigger] cs[k],
                ) by {
                    if k < a.len() {
                        assert(cs[k] == a[k]);
                    } else {
                        assert(cs[k] == b[k - a.len()]);
                    }
                }
            },
            Err(_) => {},
        }
    }
}

/// A translated class reads input exactly when some call in its methods is
/// one of the input calls. Its text opens with the Scanner import line exactly
/// then, and exactly then each of its methods declares the scanner right after
/// its opening line.
pub proof fn scanner_coherence(t: SyntaxNode, i: int, level: nat)
    requires
        program_of(t) is Ok,
        0 <= i < program_of(t)->Ok_0.classes.len(),
    ensures
        ({
            let c = program_of(t)->Ok_0.classes[i];
            &&& c.uses_input == methods_use_input(c.methods)
            &&& (class_lines(c, level)[0] == (level, scanner_import())) == c.uses_input
            &&& forall|j: int|
                0 <= j < c.methods.len() ==> #[trigger] method_lines(
                    c.methods[j],
                    c.uses_input,
                    level + 1,
                ) == if c.uses_input {
                    seq![(level + 1, method_header(c.methods[j])), (level + 2, scanner_decl())]
                        + body_lines(c.methods[j].body, level + 2) + seq![(level + 1, "}"@)]
                } else {
                    seq![(level + 1, method_header(c.methods[j]))] + body_lines(
                        c.methods[j].body,
                        level + 2,
                    ) + seq![(level + 1, "}"@)]
                }
        }),
{
    lemma_classes_coherent(t);
    let c = program_of(t)->Ok_0.classes[i];
    assert(input_flag_coherent(c));
    if !c.uses_input {
        let head: Line = (level, "class "@ + c.name + " {"@);
        assert(class_lines(c, level)[0] == head);
        reveal_strlit("class ");
        reveal_strlit("import java.util.Scanner;");
        assert(head.1[0] == 'c');
        assert(scanner_import()[0] == 'i');
    }
    assert forall|j: int| 0 <= j < c.methods.len() implies #[trigger] method_lines(
        c.methods[j],
        c.uses_input,
        level + 1,
    ) == if c.uses_input {
        seq![(level + 1, method_header(c.methods[j])), (level + 2, scanner_decl())] + body_lines(
            c.methods[j].body,
            level + 2,
        ) + seq![(level + 1, "}"@)]
    } else {
        seq![(level + 1, method_header(c.methods[j]))] + body_lines(c.methods[j].body, level + 2)
            + seq![(level + 1, "}"@)]
    } by {
        let m = c.methods[j];
        if c.uses_input {
            assert(seq![(level + 1, method_header(m))] + seq![(level + 2, scanner_decl())]
                =~= seq![(level + 1, method_header(m)), (level + 2, scanner_decl())]);
        } else {
            assert(seq![(level + 1, method_header(m))] + Seq::<Line>::empty() =~= seq![
                (level + 1, method_header(m)),
            ]);
        }
    }
}

/// A method named `Main` is emitted as `main`, and its parameter list opens
/// with `String[] args`.
pub proof fn main_signature(m: MethodModel)
    requires
        m.name == "Main"@,
    ensures
        method_name_text(m.name) == "main"@,
        "String[] args"@.is_prefix_of(method_params_text(m)),
        method_header(m) == crate::generator_java::modifiers_text(m.modifiers)
            + crate::generator_java::type_text(m.return_type) + " "@ + "main"@ + "("@
            + method_params_text(m) + ") {"@,
{
    let rest = (if m.parameters.len() > 0 {
        ", "@
    } else {
        Seq::<char>::empty()
    }) + crate::generator_java::params_text(m.parameters);
    assert(method_params_text(m) =~= "String[] args"@ + rest);
    assert(method_params_text(m).subrange(0, "String[] args"@.len() as int) =~= "String[] args"@);
}

} // verus!
