use vstd::prelude::*;
use crate::ast::{Program, ProgramModel, Statement, StmtModel, stmt_view, stmts_view, lemma_stmts_view_push};
use crate::generator_java::{
    JavaGenerator, body_depth, class_fits, program_fits, program_lines, render, stmt_depth,
};
use crate::parser_cs::{BuildError, classes_in, classes_view, find_classes};
use crate::syntax::SyntaxNode;

verus! {

/// The program that a syntax tree lowers to.
pub open spec fn program_of(root: SyntaxNode) -> Result<ProgramModel, BuildError> {
    match classes_in(root) {
        Ok(cs) => Ok(ProgramModel { classes: cs }),
        Err(e) => Err(e),
    }
}

/// Lowers a whole syntax tree to the IR.
pub fn build_program(root: &SyntaxNode) -> (r: Result<Program, BuildError>)
    ensures
        match r {
            Ok(p) => program_of(*root) == Ok::<ProgramModel, BuildError>(p@),
            Err(e) => program_of(*root) == Err::<ProgramModel, BuildError>(e),
        },
{
    let mut classes = Vec::new();
    match find_classes(root, &mut classes) {
        Ok(()) => {
            let p = Program { classes };
            assert(classes_view(classes@) =~= Seq::empty() + classes_view(classes@));
            assert(p@.classes =~= classes_view(p.classes@));
            Ok(p)
        },
        Err(e) => Err(e),
    }
}

/// Why a tree or a source text could not be translated.
#[derive(Clone, Copy, Debug, PartialEq, Eq, Structural)]
pub enum TranslateError {
    /// The parser refused the source grammar.
    ParserSetup,
    /// The parser gave no tree, or a node whose text could not be read.
    Parse,
    /// Lowering failed.
    Build(BuildError),
    /// Blocks nest deeper than the indentation counter can follow.
    TooDeep,
}

/// The output text for a syntax tree.
pub open spec fn translation_of(root: SyntaxNode) -> Result<Seq<char>, TranslateError> {
    match program_of(root) {
        Err(e) => Err(TranslateError::Build(e)),
        Ok(p) => if program_fits(p) {
            Ok(render(program_lines(p)))
        } else {
            Err(TranslateError::TooDeep)
        },
    }
}

proof fn lemma_body_depth_push(b: Seq<StmtModel>, s: StmtModel)
    ensures
        body_depth(b.push(s)) == if body_depth(b) > stmt_depth(s) {
            body_depth(b)
        } else {
            stmt_depth(s)
        },
{
    assert(b.push(s).subrange(0, b.len() as int) =~= b);
}

/// Tells whether the blocks of a statement nest at most `budget` deep.
fn statement_fits(s: &Statement, budget: usize) -> (r: bool)
    ensures
        r == (stmt_depth(s@) <= budget),
    decreases s, 1nat,
{
    match s {
        Statement::If { then_body, else_body, .. } => {
            assert(then_body@.subrange(0, then_body@.len() as int) =~= then_body@);
            assert(else_body@.subrange(0, else_body@.len() as int) =~= else_body@);
            budget > 0 && body_fits(then_body, then_body.len(), budget - 1) && body_fits(
                else_body,
                else_body.len(),
                budget - 1,
            )
        },
        Statement::While { body, .. } => {
            assert(body@.subrange(0, body@.len() as int) =~= body@);
            budget > 0 && body_fits(body, body.len(), budget - 1)
        },
        Statement::For { body, .. } => {
            assert(body@.subrange(0, body@.len() as int) =~= body@);
            budget > 0 && body_fits(body, body.len(), budget - 1)
        },
        _ => true,
    }
}

fn body_fits(b: &Vec<Statement>, n: usize, budget: usize) -> (r: bool)
    requires
        n <= b.len(),
    ensures
        r == (body_depth(stmts_view(b@.subrange(0, n as int))) <= budget),
    decreases b, 0nat, n,
{
    if n == 0 {
        return true;
    }
    proof {
        lemma_stmts_view_push(b@, n - 1);
        lemma_body_depth_push(stmts_view(b@.subrange(0, n - 1)), stmt_view(b@[n - 1]));
    }
    body_fits(b, n - 1, budget) && statement_fits(&b[n - 1], budget)
}

/// Tells whether every method body of the program fits the indentation counter.
pub fn program_fits_exec(p: &Program) -> (r: bool)
    ensures
        r == program_fits(p@),
{
    let mut i: usize = 0;
    while i < p.classes.len()
        invariant
            i <= p.classes.len(),
            forall|k: int| 0 <= k < i ==> class_fits(#[trigger] p@.classes[k], 0),
        decreases p.classes.len() - i,
    {
        let methods = &p.classes[i].methods;
        let mut j: usize = 0;
        while j < methods.len()
            invariant
                i < p.classes.len(),
                methods == &p.classes@[i as int].methods,
                j <= methods.len(),
                forall|k: int|
                    0 <= k < j ==> 2 + body_depth(#[trigger] p@.classes[i as int].methods[k].body)
                        <= usize::MAX,
            decreases methods.len() - j,
        {
            let body = &methods[j].body;
            assert(body@.subrange(0, body@.len() as int) =~= body@);
            assert(p@.classes[i as int].methods[j as int].body == stmts_view(body@));
            if !body_fits(body, body.len(), usize::MAX - 2) {
                assert(!class_fits(p@.classes[i as int], 0));
                return false;
            }
            j = j + 1;
        }
        assert(class_fits(p@.classes[i as int], 0));
        i = i + 1;
    }
    true
}

/// Lowers a syntax tree and renders the target text.
pub fn translate_tree(root: &SyntaxNode) -> (r: Result<String, TranslateError>)
    ensures
        match r {
            Ok(s) => translation_of(*root) == Ok::<Seq<char>, TranslateError>(s@),
            Err(e) => translation_of(*root) == Err::<Seq<char>, TranslateError>(e),
        },
{
    match build_program(root) {
        Err(e) => Err(TranslateError::Build(e)),
        Ok(p) => if program_fits_exec(&p) {
            Ok(JavaGenerator::generate(&p))
        } else {
            Err(TranslateError::TooDeep)
        },
    }
}

} // verus!
