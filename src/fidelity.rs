use vstd::prelude::*;
use crate::ast::{ClassModel, ExprModel, LiteralModel, MethodModel, StmtModel, is_input_call};
use crate::builder_java::{TranslateError, program_of, translation_of};
use crate::generator_java::{
    Line, args_text, body_lines, class_lines, classes_lines, decl_text, expr_text, for_header,
    inline_text, line_text, method_lines, methods_lines, opt_inline_text, render,
    stmt_lines, scanner_import, lemma_block_render, lemma_method_render, lemma_render_concat,
    lemma_render_one,
};
use crate::syntax::SyntaxNode;

verus! {

/// `t` occurs in `s` as a contiguous piece.
pub open spec fn appears_in(t: Seq<char>, s: Seq<char>) -> bool {
    exists|a: Seq<char>, b: Seq<char>| s == a + t + b
}

/// The expression holds the string literal `lit` where its text is kept:
/// anywhere but among the arguments of an input call, which are dropped.
pub open spec fn expr_carries(e: ExprModel, lit: Seq<char>) -> bool
    decreases e,
{
    match e {
        ExprModel::Lit(LiteralModel::Str(s)) => s == lit,
        ExprModel::Lit(_) => false,
        ExprModel::Var(_) => false,
        ExprModel::Binary(l, _, r) => expr_carries(*l, lit) || expr_carries(*r, lit),
        ExprModel::Prefix(_, r) => expr_carries(*r, lit),
        ExprModel::Postfix(l, _) => expr_carries(*l, lit),
        ExprModel::Call(f, args) => !is_input_call(f) && args_carry(args, lit),
    }
}

pub open spec fn args_carry(s: Seq<ExprModel>, lit: Seq<char>) -> bool
    decreases s,
{
    if s.len() == 0 {
        false
    } else {
        args_carry(s.subrange(0, s.len() - 1), lit) || expr_carries(s[s.len() - 1], lit)
    }
}

pub open spec fn opt_carries(e: Option<ExprModel>, lit: Seq<char>) -> bool {
    match e {
        Some(x) => expr_carries(x, lit),
        None => false,
    }
}

/// A statement of a `for` header holds the literal.
pub open spec fn inline_carries(s: StmtModel, lit: Seq<char>) -> bool {
    match s {
        StmtModel::VarDecl(_, e) => opt_carries(e, lit),
        StmtModel::Assign(_, e) => expr_carries(e, lit),
        StmtModel::Expr(e) => expr_carries(e, lit),
        _ => false,
    }
}

pub open spec fn stmt_carries(s: StmtModel, lit: Seq<char>) -> bool
    decreases s,
{
    match s {
        StmtModel::VarDecl(_, e) => opt_carries(e, lit),
        StmtModel::Assign(_, e) => expr_carries(e, lit),
        StmtModel::If(c, t, e) => expr_carries(c, lit) || body_carries(t, lit) || body_carries(
            e,
            lit,
        ),
        StmtModel::For(i, c, n, b) => (match i {
            Some(x) => inline_carries(*x, lit),
            None => false,
        }) || opt_carries(c, lit) || (match n {
            Some(x) => inline_carries(*x, lit),
            None => false,
        }) || body_carries(b, lit),
        StmtModel::While(c, b) => expr_carries(c, lit) || body_carries(b, lit),
        StmtModel::Return(e) => opt_carries(e, lit),
        StmtModel::Expr(e) => expr_carries(e, lit),
    }
}

pub open spec fn body_carries(b: Seq<StmtModel>, lit: Seq<char>) -> bool
    decreases b,
{
    if b.len() == 0 {
        false
    } else {
        body_carries(b.subrange(0, b.len() - 1), lit) || stmt_carries(b[b.len() - 1], lit)
    }
}

pub open spec fn methods_carry(ms: Seq<MethodModel>, lit: Seq<char>) -> bool
    decreases ms.len(),
{
    if ms.len() == 0 {
        false
    } else {
        methods_carry(ms.subrange(0, ms.len() - 1), lit) || body_carries(ms[ms.len() - 1].body, lit)
    }
}

pub open spec fn classes_carry(cs: Seq<ClassModel>, lit: Seq<char>) -> bool
    decreases cs.len(),
{
    if cs.len() == 0 {
        false
    } else {
        classes_carry(cs.subrange(0, cs.len() - 1), lit) || methods_carry(
            cs[cs.len() - 1].methods,
            lit,
        )
    }
}

pub proof fn lemma_appears_within(t: Seq<char>, s: Seq<char>, x: Seq<char>, y: Seq<char>)
    requires
        appears_in(t, s),
    ensures
        appears_in(t, x + s + y),
        appears_in(t, x + s),
        appears_in(t, s + y),
{
    let (a, b) = choose|a: Seq<char>, b: Seq<char>| s == a + t + b;
    assert(x + s + y =~= (x + a) + t + (b + y));
    assert(x + s =~= (x + a) + t + b);
    assert(s + y =~= a + t + (b + y));
}

proof fn lemma_expr_keeps(e: ExprModel, lit: Seq<char>)
    requires
        expr_carries(e, lit),
    ensures
        appears_in(lit, expr_text(e)),
    decreases e,
{
    match e {
        ExprModel::Lit(l) => {
            assert(expr_text(e) =~= Seq::<char>::empty() + lit + Seq::<char>::empty());
        },
        ExprModel::Var(_) => {},
        ExprModel::Binary(l, op, r) => {
            let mid = " "@ + crate::generator_java::binop_text(op) + " "@;
            assert(expr_text(e) =~= expr_text(*l) + (mid + expr_text(*r)));
            assert(expr_text(e) =~= (expr_text(*l) + mid) + expr_text(*r));
            if expr_carries(*l, lit) {
                lemma_expr_keeps(*l, lit);
                lemma_appears_within(lit, expr_text(*l), Seq::empty(), mid + expr_text(*r));
                assert(Seq::<char>::empty() + expr_text(*l) =~= expr_text(*l));
            } else {
                lemma_expr_keeps(*r, lit);
                lemma_appears_within(lit, expr_text(*r), expr_text(*l) + mid, Seq::empty());
            }
        },
        ExprModel::Prefix(op, r) => {
            lemma_expr_keeps(*r, lit);
            lemma_appears_within(
                lit,
                expr_text(*r),
                crate::generator_java::unop_text(op),
                Seq::empty(),
            );
        },
        ExprModel::Postfix(l, op) => {
            lemma_expr_keeps(*l, lit);
            lemma_appears_within(
                lit,
                expr_text(*l),
                Seq::empty(),
                crate::generator_java::unop_text(op),
            );
            assert(Seq::<char>::empty() + expr_text(*l) =~= expr_text(*l));
        },
        ExprModel::Call(f, args) => {
            lemma_args_keep(args, lit);
            let pre = if f == "Console.WriteLine"@ {
                "System.out.println("@
            } else {
                f + "("@
            };
            lemma_appears_within(lit, args_text(args), pre, ")"@);
        },
    }
}

proof fn lemma_args_keep(args: Seq<ExprModel>, lit: Seq<char>)
    requires
        args_carry(args, lit),
    ensures
        appears_in(lit, args_text(args)),
    decreases args,
{
    let p = args.subrange(0, args.len() - 1);
    let last = args[args.len() - 1];
    if args.len() == 1 {
        assert(p.len() == 0);
        assert(!args_carry(p, lit));
        assert(args[0] == last);
        lemma_expr_keeps(last, lit);
    } else if args_carry(p, lit) {
        lemma_args_keep(p, lit);
        lemma_appears_within(lit, args_text(p), Seq::empty(), ", "@ + expr_text(last));
        assert(args_text(args) =~= Seq::<char>::empty() + args_text(p) + (", "@ + expr_text(
            last,
        )));
    } else {
        lemma_expr_keeps(last, lit);
        lemma_appears_within(lit, expr_text(last), args_text(p) + ", "@, Seq::empty());
    }
}

proof fn lemma_inline_keeps(s: StmtModel, lit: Seq<char>)
    requires
        inline_carries(s, lit),
    ensures
        appears_in(lit, inline_text(s)),
{
    match s {
        StmtModel::VarDecl(v, e) => {
            let x = e->Some_0;
            lemma_expr_keeps(x, lit);
            let pre = crate::generator_java::type_text(v.typ) + " "@ + v.name + " = "@;
            assert(decl_text(v, e) =~= pre + expr_text(x));
            lemma_appears_within(lit, expr_text(x), pre, Seq::empty());
        },
        StmtModel::Assign(t, e) => {
            lemma_expr_keeps(e, lit);
            lemma_appears_within(lit, expr_text(e), t + " = "@, Seq::empty());
        },
        StmtModel::Expr(e) => {
            lemma_expr_keeps(e, lit);
        },
        _ => {},
    }
}

/// A literal in the content of a line appears in the line's text.
proof fn lemma_line_keeps(l: Line, lit: Seq<char>)
    requires
        appears_in(lit, l.1),
    ensures
        appears_in(lit, line_text(l)),
        appears_in(lit, render(seq![l])),
{
    lemma_appears_within(lit, l.1, crate::generator_java::indent_text(l.0), seq!['\n']);
    lemma_render_one(l);
}

proof fn lemma_stmt_keeps(s: StmtModel, lit: Seq<char>, level: nat)
    requires
        stmt_carries(s, lit),
    ensures
        appears_in(lit, render(stmt_lines(s, level))),
    decreases s, 1nat,
{
    match s {
        StmtModel::VarDecl(v, e) => {
            lemma_inline_keeps(s, lit);
            lemma_appears_within(lit, decl_text(v, e), Seq::empty(), ";"@);
            assert(Seq::<char>::empty() + decl_text(v, e) =~= decl_text(v, e));
            lemma_line_keeps((level, decl_text(v, e) + ";"@), lit);
        },
        StmtModel::Assign(t, e) => {
            lemma_expr_keeps(e, lit);
            lemma_appears_within(lit, expr_text(e), t + " = "@, ";"@);
            lemma_line_keeps((level, t + " = "@ + expr_text(e) + ";"@), lit);
        },
        StmtModel::Expr(e) => {
            lemma_expr_keeps(e, lit);
            lemma_appears_within(lit, expr_text(e), Seq::empty(), ";"@);
            assert(Seq::<char>::empty() + expr_text(e) =~= expr_text(e));
            lemma_line_keeps((level, expr_text(e) + ";"@), lit);
        },
        StmtModel::Return(e) => {
            let x = e->Some_0;
            lemma_expr_keeps(x, lit);
            lemma_appears_within(lit, expr_text(x), "return "@, ";"@);
            lemma_line_keeps((level, "return "@ + expr_text(x) + ";"@), lit);
        },
        _ => lemma_block_keeps(s, lit, level),
    }
}

proof fn lemma_block_keeps(s: StmtModel, lit: Seq<char>, level: nat)
    requires
        stmt_carries(s, lit),
        s is If || s is While || s is For,
    ensures
        appears_in(lit, render(stmt_lines(s, level))),
    decreases s, 0nat,
{
    match s {
        StmtModel::If(c, t, e) => {
            lemma_block_render(s, level);
            let h = stmt_lines(s, level)[0];
            let ht = line_text(h);
            let tt = render(body_lines(t, level + 1));
            let ct = line_text((level, "}"@));
            let et = if e.len() == 0 {
                Seq::<char>::empty()
            } else {
                line_text((level, "else {"@)) + render(body_lines(e, level + 1)) + ct
            };
            if expr_carries(c, lit) {
                lemma_expr_keeps(c, lit);
                lemma_appears_within(lit, expr_text(c), "if ("@, ") {"@);
                lemma_line_keeps(h, lit);
                lemma_appears_within(lit, ht, Seq::empty(), tt + ct + et);
                assert(Seq::<char>::empty() + ht + (tt + ct + et) =~= ht + tt + ct + et);
            } else if body_carries(t, lit) {
                lemma_body_keeps(t, lit, level + 1);
                lemma_appears_within(lit, tt, ht, ct + et);
                assert(ht + tt + (ct + et) =~= ht + tt + ct + et);
            } else {
                lemma_body_keeps(e, lit, level + 1);
                let eb = render(body_lines(e, level + 1));
                lemma_appears_within(lit, eb, ht + tt + ct + line_text((level, "else {"@)), ct);
                assert(ht + tt + ct + line_text((level, "else {"@)) + eb + ct =~= ht + tt + ct
                    + et);
            }
        },
        StmtModel::While(c, b) => {
            lemma_block_render(s, level);
            let h = stmt_lines(s, level)[0];
            let ht = line_text(h);
            let bt = render(body_lines(b, level + 1));
            let ct = line_text((level, "}"@));
            if expr_carries(c, lit) {
                lemma_expr_keeps(c, lit);
                lemma_appears_within(lit, expr_text(c), "while ("@, ") {"@);
                lemma_line_keeps(h, lit);
                lemma_appears_within(lit, ht, Seq::empty(), bt + ct);
                assert(Seq::<char>::empty() + ht + (bt + ct) =~= ht + bt + ct);
            } else {
                lemma_body_keeps(b, lit, level + 1);
                lemma_appears_within(lit, bt, ht, ct);
            }
        },
        StmtModel::For(i, c, n, b) => {
            lemma_block_render(s, level);
            let h = stmt_lines(s, level)[0];
            let ht = line_text(h);
            let bt = render(body_lines(b, level + 1));
            let ct = line_text((level, "}"@));
            if body_carries(b, lit) {
                lemma_body_keeps(b, lit, level + 1);
                lemma_appears_within(lit, bt, ht, ct);
            } else {
                let it = opt_inline_text(i);
                let cc = crate::generator_java::opt_expr_text(c);
                let nt = opt_inline_text(n);
                assert(h.1 == for_header(s));
                assert(appears_in(lit, for_header(s))) by {
                    if (match i {
                        Some(x) => inline_carries(*x, lit),
                        None => false,
                    }) {
                        lemma_inline_keeps(*i->Some_0, lit);
                        lemma_appears_within(lit, it, "for ("@, "; "@ + cc + "; "@ + nt + ") {"@);
                        assert("for ("@ + it + ("; "@ + cc + "; "@ + nt + ") {"@) =~= for_header(
                            s,
                        ));
                    } else if opt_carries(c, lit) {
                        lemma_expr_keeps(c->Some_0, lit);
                        lemma_appears_within(lit, cc, "for ("@ + it + "; "@, "; "@ + nt + ") {"@);
                        assert("for ("@ + it + "; "@ + cc + ("; "@ + nt + ") {"@) =~= for_header(
                            s,
                        ));
                    } else {
                        lemma_inline_keeps(*n->Some_0, lit);
                        lemma_appears_within(lit, nt, "for ("@ + it + "; "@ + cc + "; "@, ") {"@);
                    }
                }
                lemma_line_keeps(h, lit);
                lemma_appears_within(lit, ht, Seq::empty(), bt + ct);
                assert(Seq::<char>::empty() + ht + (bt + ct) =~= ht + bt + ct);
            }
        },
        _ => {},
    }
}

proof fn lemma_body_keeps(b: Seq<StmtModel>, lit: Seq<char>, level: nat)
    requires
        body_carries(b, lit),
    ensures
        appears_in(lit, render(body_lines(b, level))),
    decreases b,
{
    let p = b.subrange(0, b.len() - 1);
    let last = b[b.len() - 1];
    lemma_render_concat(body_lines(p, level), stmt_lines(last, level));
    if body_carries(p, lit) {
        lemma_body_keeps(p, lit, level);
        lemma_appears_within(
            lit,
            render(body_lines(p, level)),
            Seq::empty(),
            render(stmt_lines(last, level)),
        );
        assert(Seq::<char>::empty() + render(body_lines(p, level)) =~= render(body_lines(p, level)));
    } else {
        lemma_stmt_keeps(last, lit, level);
        lemma_appears_within(
            lit,
            render(stmt_lines(last, level)),
            render(body_lines(p, level)),
            Seq::empty(),
        );
    }
}

proof fn lemma_methods_keep(ms: Seq<MethodModel>, input: bool, lit: Seq<char>, level: nat)
    requires
        methods_carry(ms, lit),
    ensures
        appears_in(lit, render(methods_lines(ms, input, level))),
    decreases ms.len(),
{
    let p = ms.subrange(0, ms.len() - 1);
    let last = ms[ms.len() - 1];
    lemma_render_concat(methods_lines(p, input, level), method_lines(last, input, level));
    let pt = render(methods_lines(p, input, level));
    let mt = render(method_lines(last, input, level));
    if methods_carry(p, lit) {
        lemma_methods_keep(p, input, lit, level);
        lemma_appears_within(lit, pt, Seq::empty(), mt);
        assert(Seq::<char>::empty() + pt =~= pt);
    } else {
        lemma_method_render(last, input, level);
        lemma_body_keeps(last.body, lit, level + 1);
        let bt = render(body_lines(last.body, level + 1));
        let pre = line_text((level, crate::generator_java::method_header(last))) + (if input {
            line_text((level + 1, crate::generator_java::scanner_decl()))
        } else {
            Seq::empty()
        });
        lemma_appears_within(lit, bt, pre, line_text((level, "}"@)));
        lemma_appears_within(lit, mt, pt, Seq::empty());
    }
}

proof fn lemma_classes_keep(cs: Seq<ClassModel>, lit: Seq<char>, level: nat)
    requires
        classes_carry(cs, lit),
    ensures
        appears_in(lit, render(classes_lines(cs, level))),
    decreases cs.len(),
{
    let p = cs.subrange(0, cs.len() - 1);
    let c = cs[cs.len() - 1];
    lemma_render_concat(classes_lines(p, level), class_lines(c, level));
    let pt = render(classes_lines(p, level));
    let ct = render(class_lines(c, level));
    if classes_carry(p, lit) {
        lemma_classes_keep(p, lit, level);
        lemma_appears_within(lit, pt, Seq::empty(), ct);
        assert(Seq::<char>::empty() + pt =~= pt);
    } else {
        let imp = if c.uses_input {
            seq![(level, scanner_import())]
        } else {
            Seq::<Line>::empty()
        };
        let head = seq![(level, "class "@ + c.name + " {"@)];
        let ms = methods_lines(c.methods, c.uses_input, level + 1);
        let close = seq![(level, "}"@)];
        lemma_render_concat(imp + head, ms);
        lemma_render_concat(imp + head + ms, close);
        lemma_methods_keep(c.methods, c.uses_input, lit, level + 1);
        lemma_appears_within(lit, render(ms), render(imp + head), render(close));
        lemma_appears_within(lit, ct, pt, Seq::empty());
    }
}

/// Every string literal of the source that the translation keeps (all but
/// the arguments of input calls, which are dropped) appears in the output
/// text with its quotes, character for character.
pub proof fn literals_survive(t: SyntaxNode, s: Seq<char>, lit: Seq<char>)
    requires
        translation_of(t) == Ok::<Seq<char>, TranslateError>(s),
        classes_carry(program_of(t)->Ok_0.classes, lit),
    ensures
        appears_in(lit, s),
{
    lemma_classes_keep(program_of(t)->Ok_0.classes, lit, 0);
}

} // verus!
